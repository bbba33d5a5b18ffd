//! Encoding of coordinate sequences in the polyline format: each value is the
//! zig-zag encoded difference to the previous point, written in base-32 chunks
//! of printable ASCII characters.

use vstd::prelude::*;
use vstd::string::StringExecFns;
use vstd::string::StringSliceAdditionalSpecFns;

verus! {

broadcast use vstd::string::group_string_axioms;

/// The one-character string whose character has code `63 + v`.
fn code_char(v: u32) -> (r: &'static str)
    requires
        v < 64,
    ensures
        r@ == seq![(63 + v) as char],
        r.is_ascii(),
{
    let alphabet = "?@ABCDEFGHIJKLMNOPQRSTUVWXYZ[\\]^_`abcdefghijklmnopqrstuvwxyz{|}~";
    proof {
        reveal_strlit("?@ABCDEFGHIJKLMNOPQRSTUVWXYZ[\\]^_`abcdefghijklmnopqrstuvwxyz{|}~");
        assert(alphabet@ =~= Seq::new(64, |i: int| (63 + i) as char));
        assert(alphabet.is_ascii());
    }
    let r = alphabet.substring_ascii(v as usize, v as usize + 1);
    proof {
        assert(r@ =~= seq![(63 + v) as char]);
    }
    r
}


/// Zig-zag mapping of a signed difference onto the naturals: 0, -1, 1, -2, 2, ...
/// become 0, 1, 2, 3, 4, ...
pub open spec fn zigzag(d: int) -> int {
    if d >= 0 {
        2 * d
    } else {
        -2 * d - 1
    }
}

/// The bytes that encode one natural number: base-32 digits, least significant
/// first, each offset by 63; every digit but the last carries the flag 0x20.
pub open spec fn chunk_bytes(v: nat) -> Seq<u8>
    decreases v,
{
    if v < 32 {
        seq![(v + 63) as u8]
    } else {
        seq![((v % 32) + 95) as u8] + chunk_bytes(v / 32)
    }
}

/// The bytes for the first `k` dimensions of point `cur`, each written as the
/// zig-zag encoded difference to the same dimension of `prev`.
pub open spec fn point_bytes(cur: Seq<i32>, prev: Seq<i32>, k: nat) -> Seq<u8>
    decreases k,
{
    if k == 0 {
        seq![]
    } else {
        point_bytes(cur, prev, (k - 1) as nat) + chunk_bytes(
            zigzag(cur[k - 1] - prev[k - 1]) as nat,
        )
    }
}

/// The point that precedes point `i`: the origin for the first point.
pub open spec fn previous_point(points: Seq<Seq<i32>>, i: int, dim: nat) -> Seq<i32> {
    if i == 0 {
        Seq::new(dim, |k: int| 0i32)
    } else {
        points[i - 1]
    }
}

/// The polyline bytes of a sequence of `dim`-dimensional points.
pub open spec fn encode_spec(points: Seq<Seq<i32>>, dim: nat) -> Seq<u8>
    decreases points.len(),
{
    if points.len() == 0 {
        seq![]
    } else {
        let n = points.len() - 1;
        encode_spec(points.drop_last(), dim) + point_bytes(
            points[n],
            previous_point(points, n, dim),
            dim,
        )
    }
}

/// Every difference between consecutive points (the first taken against the
/// origin) fits in an `i32`.
pub open spec fn diffs_fit(points: Seq<Seq<i32>>, dim: nat) -> bool {
    forall|i: int, k: int|
        0 <= i < points.len() && 0 <= k < dim ==> i32::MIN <= #[trigger] points[i][k]
            - previous_point(points, i, dim)[k] <= i32::MAX
}

/// The points of a sequence of fixed-size arrays.
pub open spec fn points_of<const DIM: usize>(coords: Seq<[i32; DIM]>) -> Seq<Seq<i32>> {
    coords.map_values(|a: [i32; DIM]| a@)
}

/// A byte sequence read as characters.
pub open spec fn bytes_as_chars(b: Seq<u8>) -> Seq<char> {
    b.map_values(|x: u8| x as char)
}

proof fn lemma_zigzag_bits(diff: i32)
    ensures
        (if diff < 0 { !((diff as u32) << 1u32) } else { (diff as u32) << 1u32 }) == zigzag(
            diff as int,
        ),
{
    if diff < 0 {
        assert(diff < 0 ==> !((diff as u32) << 1u32) == -2 * diff - 1) by (bit_vector);
    } else {
        assert(diff >= 0 ==> ((diff as u32) << 1u32) == 2 * diff) by (bit_vector);
    }
}

proof fn lemma_chunk_digit(b: u32)
    ensures
        (0x20u32 | (b & 0x1fu32)) == (b % 32) + 32,
        b >> 5u32 == b / 32,
        b & 0x1fu32 == b % 32,
{
    assert((0x20u32 | (b & 0x1fu32)) == (b % 32) + 32) by (bit_vector);
    assert(b >> 5u32 == b / 32) by (bit_vector);
    assert(b & 0x1fu32 == b % 32) by (bit_vector);
}

proof fn lemma_point_bytes_prefix(cur: Seq<i32>, prev: Seq<i32>, cur2: Seq<i32>, prev2: Seq<i32>, k: nat)
    requires
        k <= cur.len(),
        k <= cur2.len(),
        k <= prev.len(),
        k <= prev2.len(),
        forall|j: int| 0 <= j < k ==> cur[j] == cur2[j] && prev[j] == prev2[j],
    ensures
        point_bytes(cur, prev, k) == point_bytes(cur2, prev2, k),
    decreases k,
{
    if k > 0 {
        lemma_point_bytes_prefix(cur, prev, cur2, prev2, (k - 1) as nat);
    }
}

/// Appends the characters that encode `v` to `out`.
fn push_value(out: &mut String, v: u32)
    ensures
        final(out)@ == old(out)@ + bytes_as_chars(chunk_bytes(v as nat)),
{
    let mut bits = v;
    let ghost emitted: Seq<u8> = seq![];
    while bits >= 0x20
        invariant
            emitted + chunk_bytes(bits as nat) == chunk_bytes(v as nat),
            out@ == old(out)@ + bytes_as_chars(emitted),
        decreases bits,
    {
        proof {
            lemma_chunk_digit(bits);
        }
        let value = 0x20 | (bits & 0x1f);
        out.append(code_char(value));
        proof {
            assert(chunk_bytes(bits as nat) == seq![((bits % 32) + 95) as u8] + chunk_bytes(
                (bits / 32) as nat,
            ));
            let d = ((bits % 32) + 95) as u8;
            assert(bytes_as_chars(emitted.push(d)) =~= bytes_as_chars(emitted) + seq![
                (63 + value) as char,
            ]);
            assert(emitted.push(d) + chunk_bytes((bits / 32) as nat) =~= emitted + chunk_bytes(
                bits as nat,
            ));
            emitted = emitted.push(d);
        }
        bits = bits >> 5;
    }
    out.append(code_char(bits));
    proof {
        let d = (bits + 63) as u8;
        assert(chunk_bytes(bits as nat) == seq![d]);
        assert(emitted.push(d) =~= chunk_bytes(v as nat));
        assert(bytes_as_chars(emitted.push(d)) =~= bytes_as_chars(emitted) + seq![
            (63 + bits) as char,
        ]);
    }
}

/// Encodes a sequence of fixed-point coordinates into a polyline.
///
/// Each coordinate is written as the differences of its dimensions to the
/// previous coordinate (the first to the origin); see [`encode_spec`].
pub fn encode_points<const DIM: usize>(coords: &Vec<[i32; DIM]>) -> (r: String)
    requires
        diffs_fit(points_of(coords@), DIM as nat),
    ensures
        r@ == bytes_as_chars(encode_spec(points_of(coords@), DIM as nat)),
        vstd::utf8::encode_utf8(r@) == encode_spec(points_of(coords@), DIM as nat),
{
    let ghost points = points_of(coords@);
    let mut output = String::new();
    let mut previous: [i32; DIM] = vstd::array::array_fill_for_copy_types::<i32, DIM>(0);
    proof {
        assert(previous@ =~= previous_point(points, 0, DIM as nat));
        assert(output@ =~= bytes_as_chars(encode_spec(points.take(0), DIM as nat)));
    }
    let n = coords.len();
    let mut idx: usize = 0;
    while idx < n
        invariant
            n == coords@.len(),
            points == points_of(coords@),
            points.len() == n,
            diffs_fit(points, DIM as nat),
            idx <= n,
            previous@ == previous_point(points, idx as int, DIM as nat),
            output@ == bytes_as_chars(encode_spec(points.take(idx as int), DIM as nat)),
        decreases n - idx,
    {
        let current = coords[idx];
        let ghost prev_pt = previous@;
        let ghost before = output@;
        proof {
            assert(current@ == points[idx as int]);
        }
        let mut i: usize = 0;
        while i < DIM
            invariant
                i <= DIM,
                points == points_of(coords@),
                idx < points.len(),
                diffs_fit(points, DIM as nat),
                current@ == points[idx as int],
                prev_pt == previous_point(points, idx as int, DIM as nat),
                prev_pt.len() == DIM,
                previous@.len() == DIM,
                forall|j: int| 0 <= j < i ==> previous@[j] == current@[j],
                forall|j: int| i <= j < DIM ==> previous@[j] == prev_pt[j],
                output@ == before + bytes_as_chars(point_bytes(current@, prev_pt, i as nat)),
            decreases DIM - i,
        {
            let cur = current[i];
            let prev = previous[i];
            previous[i] = cur;
            proof {
                assert(i32::MIN <= points[idx as int][i as int] - previous_point(
                    points,
                    idx as int,
                    DIM as nat,
                )[i as int] <= i32::MAX);
            }
            let diff = cur - prev;
            let mut bits: u32 = (diff as u32) << 1u32;
            if diff < 0 {
                bits = !bits;
            }
            proof {
                lemma_zigzag_bits(diff);
            }
            let ghost mid = output@;
            push_value(&mut output, bits);
            proof {
                let pb = point_bytes(current@, prev_pt, (i + 1) as nat);
                assert(pb == point_bytes(current@, prev_pt, i as nat) + chunk_bytes(bits as nat));
                assert(bytes_as_chars(pb) =~= bytes_as_chars(
                    point_bytes(current@, prev_pt, i as nat),
                ) + bytes_as_chars(chunk_bytes(bits as nat)));
            }
            i = i + 1;
        }
        proof {
            assert(previous@ =~= points[idx as int]);
            assert(previous_point(points, idx + 1, DIM as nat) == points[idx as int]);
            let t = points.take(idx + 1);
            assert(t.drop_last() =~= points.take(idx as int));
            assert(t[idx as int] == points[idx as int]);
            assert(previous_point(t, idx as int, DIM as nat) =~= prev_pt);
            assert(encode_spec(t, DIM as nat) == encode_spec(points.take(idx as int), DIM as nat)
                + point_bytes(points[idx as int], prev_pt, DIM as nat));
            assert(bytes_as_chars(encode_spec(t, DIM as nat)) =~= before + bytes_as_chars(
                point_bytes(current@, prev_pt, DIM as nat),
            ));
        }
        idx = idx + 1;
    }
    proof {
        assert(points.take(n as int) =~= points);
        let e = encode_spec(points, DIM as nat);
        lemma_encode_printable(points, DIM as nat);
        assert(vstd::utf8::is_ascii_chars(output@));
        vstd::utf8::is_ascii_chars_encode_utf8(output@);
        assert(vstd::utf8::encode_utf8(output@) =~= e);
    }
    output
}

pub open spec fn printable(b: Seq<u8>) -> bool {
    forall|i: int| 0 <= i < b.len() ==> 63 <= #[trigger] b[i] < 127
}

proof fn lemma_printable_concat(a: Seq<u8>, b: Seq<u8>)
    requires
        printable(a),
        printable(b),
    ensures
        printable(a + b),
{
    assert forall|i: int| 0 <= i < (a + b).len() implies 63 <= #[trigger] (a + b)[i] < 127 by {
        if i < a.len() {
            assert((a + b)[i] == a[i]);
        } else {
            assert((a + b)[i] == b[i - a.len()]);
        }
    }
}

proof fn lemma_chunk_printable(v: nat)
    ensures
        printable(chunk_bytes(v)),
    decreases v,
{
    if v >= 32 {
        lemma_chunk_printable(v / 32);
        lemma_printable_concat(seq![((v % 32) + 95) as u8], chunk_bytes(v / 32));
    }
}

proof fn lemma_point_printable(cur: Seq<i32>, prev: Seq<i32>, k: nat)
    ensures
        printable(point_bytes(cur, prev, k)),
    decreases k,
{
    if k > 0 {
        lemma_point_printable(cur, prev, (k - 1) as nat);
        lemma_chunk_printable(zigzag(cur[k - 1] - prev[k - 1]) as nat);
        lemma_printable_concat(point_bytes(cur, prev, (k - 1) as nat), chunk_bytes(zigzag(cur[k - 1] - prev[k - 1]) as nat));
    }
}

proof fn lemma_encode_printable(points: Seq<Seq<i32>>, dim: nat)
    ensures
        printable(encode_spec(points, dim)),
    decreases points.len(),
{
    if points.len() > 0 {
        let n = points.len() - 1;
        lemma_encode_printable(points.drop_last(), dim);
        lemma_point_printable(points[n], previous_point(points, n, dim), dim);
        lemma_printable_concat(encode_spec(points.drop_last(), dim), point_bytes(points[n], previous_point(points, n, dim), dim));
    }
}


/// An input position at which the polyline holds a byte outside the alphabet.
#[derive(Copy, Clone, Debug, PartialEq, Eq, Structural)]
pub struct Error(pub usize);

/// The message of a decoding error.
pub open spec fn error_message_spec(offset: usize) -> Seq<char> {
    "Invalid input at offset "@ + crate::text::decimal_spec(offset as nat)
}

impl Error {
    /// The message of the error: `Invalid input at offset <offset>`.
    pub fn message(&self) -> (r: String)
        ensures
            r@ == error_message_spec(self.0),
    {
        let mut s = String::from_str("Invalid input at offset ");
        crate::text::push_decimal(&mut s, self.0 as u64);
        s
    }

    /// The offset of the offending byte.
    pub fn offset(&self) -> (r: usize)
        ensures
            r == self.0,
    {
        self.0
    }
}

/// How far decoding has come.
pub enum DecodeStatus {
    /// All bytes so far were valid.
    Running,
    /// The byte at this position lies outside `63..127`.
    Invalid(nat),
    /// Decoding cannot go on within machine integers: a value spans more than
    /// seven digits, a running sum leaves `i32`, or points have no dimension.
    Overflow,
}

/// The state of the decoder after some prefix of the input.
#[verifier::ext_equal]
pub struct DecodeState {
    pub status: DecodeStatus,
    /// Number of bytes read.
    pub pos: nat,
    /// Dimension of the next value within the current point.
    pub j: nat,
    /// Digits of the value being read.
    pub word: u32,
    /// Bit position of the next digit.
    pub shift: nat,
    /// Running sums per dimension.
    pub tmp: Seq<i32>,
    /// Completed points.
    pub points: Seq<Seq<i32>>,
}

/// The decoder state before any input.
pub open spec fn decode_init(dim: nat) -> DecodeState {
    DecodeState {
        status: DecodeStatus::Running,
        pos: 0,
        j: 0,
        word: 0,
        shift: 0,
        tmp: Seq::new(dim, |k: int| 0i32),
        points: seq![],
    }
}

/// The signed value whose zig-zag code is `word`.
pub open spec fn unzigzag(word: u32) -> int {
    let half = (word >> 1u32) as int;
    if word & 1u32 != 0 {
        -half - 1
    } else {
        half
    }
}

/// The decoder state after one more byte `b`.
pub open spec fn decode_step(s: DecodeState, b: u8, dim: nat) -> DecodeState {
    if !(s.status is Running) {
        s
    } else if b < 63 || b >= 127 {
        DecodeState { status: DecodeStatus::Invalid(s.pos), ..s }
    } else if s.shift >= 32 {
        DecodeState { status: DecodeStatus::Overflow, ..s }
    } else {
        let c = (b - 63) as u32;
        let word = s.word | ((c & 31u32) << (s.shift as u32));
        if c >= 32 {
            DecodeState { pos: s.pos + 1, word: word, shift: s.shift + 5, ..s }
        } else if s.j >= dim {
            DecodeState { status: DecodeStatus::Overflow, ..s }
        } else {
            let sum = s.tmp[s.j as int] + unzigzag(word);
            if sum < i32::MIN || sum > i32::MAX {
                DecodeState { status: DecodeStatus::Overflow, ..s }
            } else {
                let tmp = s.tmp.update(s.j as int, sum as i32);
                if s.j + 1 >= dim {
                    DecodeState {
                        status: DecodeStatus::Running,
                        pos: s.pos + 1,
                        j: 0,
                        word: 0,
                        shift: 0,
                        tmp: tmp,
                        points: s.points.push(tmp),
                    }
                } else {
                    DecodeState {
                        status: DecodeStatus::Running,
                        pos: s.pos + 1,
                        j: s.j + 1,
                        word: 0,
                        shift: 0,
                        tmp: tmp,
                        points: s.points,
                    }
                }
            }
        }
    }
}

/// The decoder state after reading all of `bytes`, starting from `s`.
pub open spec fn decode_run(s: DecodeState, bytes: Seq<u8>, dim: nat) -> DecodeState
    decreases bytes.len(),
{
    if bytes.len() == 0 {
        s
    } else {
        decode_step(decode_run(s, bytes.drop_last(), dim), bytes.last(), dim)
    }
}

/// The final decoder state for a whole polyline.
pub open spec fn decode_spec(bytes: Seq<u8>, dim: nat) -> DecodeState {
    decode_run(decode_init(dim), bytes, dim)
}

/// Decodes a polyline into fixed-point coordinates, telling apart the inputs
/// on which decoding cannot be carried out within machine integers (`None`).
///
/// Bytes outside `63..127` give `Some(Err(..))` with the offset of the first
/// of them; a trailing incomplete value or point is dropped.
pub fn try_decode_points<const DIM: usize>(polyline: &str) -> (r: Option<Result<Vec<[i32; DIM]>, Error>>)
    ensures
        ({
            let st = decode_spec(polyline.spec_bytes(), DIM as nat);
            match st.status {
                DecodeStatus::Overflow => r is None,
                DecodeStatus::Invalid(p) => r == Some(Err::<Vec<[i32; DIM]>, Error>(Error(p as usize))),
                DecodeStatus::Running => r matches Some(Ok(v)) && points_of(v@) == st.points,
            }
        }),
{
    let bytes = polyline.as_bytes();
    let ghost bs = polyline.spec_bytes();
    let n = bytes.len();
    let mut i: usize = 0;
    let mut j: usize = 0;
    let mut word: u32 = 0;
    let mut shift: u32 = 0;
    let mut coords: Vec<[i32; DIM]> = Vec::new();
    let mut tmp: [i32; DIM] = vstd::array::array_fill_for_copy_types::<i32, DIM>(0);
    proof {
        assert(bs.take(0) =~= Seq::<u8>::empty());
        assert(tmp@ =~= decode_init(DIM as nat).tmp);
        assert(points_of(coords@) =~= Seq::<Seq<i32>>::empty());
    }
    while i < n
        invariant
            bytes@ == bs,
            bs == polyline.spec_bytes(),
            n == bs.len(),
            i <= n,
            tmp@.len() == DIM,
            ({
                let st = decode_run(decode_init(DIM as nat), bs.take(i as int), DIM as nat);
                &&& st.status is Running
                &&& st.pos == i
                &&& st.j == j
                &&& st.word == word
                &&& st.shift == shift
                &&& st.tmp == tmp@
                &&& st.points == points_of(coords@)
            }),
        decreases n - i,
    {
        let ghost st = decode_run(decode_init(DIM as nat), bs.take(i as int), DIM as nat);
        proof {
            lemma_run_take_step(decode_init(DIM as nat), bs, i as int, DIM as nat);
        }
        let byte = bytes[i];
        if byte < 63 || byte >= 127 {
            proof {
                assert(decode_run(decode_init(DIM as nat), bs.take(i + 1), DIM as nat).status
                    == DecodeStatus::Invalid(i as nat));
                lemma_run_absorbs(decode_init(DIM as nat), bs, (i + 1) as int, DIM as nat);
            }
            return Some(Err(Error(i)));
        }
        if shift >= 32 {
            proof {
                lemma_run_absorbs(decode_init(DIM as nat), bs, (i + 1) as int, DIM as nat);
            }
            return None;
        }
        let c = (byte - 63) as u32;
        word = word | ((c & 0x1f) << shift);
        i = i + 1;
        shift = shift + 5;
        if c >= 0x20 {
            continue;
        }
        if j >= DIM {
            proof {
                lemma_run_absorbs(decode_init(DIM as nat), bs, i as int, DIM as nat);
            }
            return None;
        }
        proof {
            assert((word >> 1u32) < 0x8000_0000u32) by (bit_vector);
        }
        let half = (word >> 1u32) as i32;
        let value: i32 = if word & 1 != 0 {
            !half
        } else {
            half
        };
        proof {
            assert(!half == -half - 1) by (bit_vector);
        }
        let t = tmp[j];
        if (value < 0 && t < i32::MIN - value) || (value > 0 && t > i32::MAX - value) {
            proof {
                lemma_run_absorbs(decode_init(DIM as nat), bs, i as int, DIM as nat);
            }
            return None;
        }
        tmp[j] = t + value;
        word = 0;
        shift = 0;
        j = j + 1;
        if j >= DIM {
            j = 0;
            coords.push(tmp);
            proof {
                assert(points_of(coords@) =~= st.points.push(tmp@));
            }
        }
        proof {
            assert(tmp@ =~= st.tmp.update(st.j as int, (st.tmp[st.j as int] + unzigzag(st.word | ((c & 31u32) << (st.shift as u32)))) as i32));
        }
    }
    proof {
        assert(bs.take(n as int) =~= bs);
    }
    Some(Ok(coords))
}

proof fn lemma_run_take_step(s: DecodeState, bs: Seq<u8>, i: int, dim: nat)
    requires
        0 <= i < bs.len(),
    ensures
        decode_run(s, bs.take(i + 1), dim) == decode_step(decode_run(s, bs.take(i), dim), bs[i], dim),
{
    assert(bs.take(i + 1).drop_last() =~= bs.take(i));
    assert(bs.take(i + 1).last() == bs[i]);
}

/// Once decoding has stopped, further input changes nothing.
proof fn lemma_run_absorbs(s: DecodeState, bs: Seq<u8>, k: int, dim: nat)
    requires
        0 <= k <= bs.len(),
        !(decode_run(s, bs.take(k), dim).status is Running),
    ensures
        decode_run(s, bs, dim) == decode_run(s, bs.take(k), dim),
    decreases bs.len() - k,
{
    if k < bs.len() {
        assert(bs.take(k + 1).drop_last() =~= bs.take(k));
        lemma_run_absorbs(s, bs, k + 1, dim);
    } else {
        assert(bs.take(k) =~= bs);
    }
}

/// Decodes a polyline into fixed-point coordinates.
///
/// Bytes outside `63..127` give `Err` with the offset of the first of them; a
/// trailing incomplete value or point is dropped.
pub fn decode_points<const DIM: usize>(polyline: &str) -> (r: Result<Vec<[i32; DIM]>, Error>)
    requires
        !(decode_spec(polyline.spec_bytes(), DIM as nat).status is Overflow),
    ensures
        ({
            let st = decode_spec(polyline.spec_bytes(), DIM as nat);
            match st.status {
                DecodeStatus::Invalid(p) => r == Err::<Vec<[i32; DIM]>, Error>(Error(p as usize)),
                _ => r matches Ok(v) && points_of(v@) == st.points,
            }
        }),
{
    match try_decode_points::<DIM>(polyline) {
        Some(r) => r,
        None => Ok(Vec::new()),
    }
}


// ----------------------------------------------------------------------------
// Decoding what was encoded
// ----------------------------------------------------------------------------

proof fn lemma_run_concat(s: DecodeState, a: Seq<u8>, b: Seq<u8>, dim: nat)
    ensures
        decode_run(s, a + b, dim) == decode_run(decode_run(s, a, dim), b, dim),
    decreases b.len(),
{
    if b.len() == 0 {
        assert(a + b =~= a);
    } else {
        assert((a + b).drop_last() =~= a + b.drop_last());
        assert((a + b).last() == b.last());
        lemma_run_concat(s, a, b.drop_last(), dim);
    }
}

/// The state after a complete value `value` was read into dimension `s.j`.
pub open spec fn accept_value(s: DecodeState, value: int, pos: nat, dim: nat) -> DecodeState {
    let tmp = s.tmp.update(s.j as int, (s.tmp[s.j as int] + value) as i32);
    if s.j + 1 >= dim {
        DecodeState {
            status: DecodeStatus::Running,
            pos: pos,
            j: 0,
            word: 0,
            shift: 0,
            tmp: tmp,
            points: s.points.push(tmp),
        }
    } else {
        DecodeState {
            status: DecodeStatus::Running,
            pos: pos,
            j: s.j + 1,
            word: 0,
            shift: 0,
            tmp: tmp,
            points: s.points,
        }
    }
}

proof fn lemma_digit_bits(t: u32, sh: u32)
    requires
        sh <= 30,
    ensures
        (t >> sh) < 32 ==> ((t & (((1u32 << sh) as u32) - 1u32) as u32) | (((t >> sh) & 31u32) << sh)) == t,
        sh <= 25 ==> ((t & (((1u32 << sh) as u32) - 1u32) as u32) | (((t >> sh) & 31u32) << sh)) == (t & (((1u32 << ((sh + 5) as u32)) as u32) - 1u32) as u32),
        (t >> sh) >= 32 ==> sh <= 26,
        sh <= 26 ==> (t >> sh) >> 5u32 == t >> ((sh + 5) as u32),
        (t >> sh) & 31u32 == (t >> sh) % 32,
{
    assert((t >> sh) < 32 ==> ((t & (((1u32 << sh) as u32) - 1u32) as u32) | (((t >> sh) & 31u32) << sh)) == t) by (bit_vector)
        requires sh <= 30;
    assert(sh <= 25 ==> ((t & (((1u32 << sh) as u32) - 1u32) as u32) | (((t >> sh) & 31u32) << sh)) == (t & (((1u32 << ((sh + 5) as u32)) as u32) - 1u32) as u32)) by (bit_vector)
        requires sh <= 30;
    assert((t >> sh) >= 32 ==> sh <= 26) by (bit_vector)
        requires sh <= 30;
    assert(sh <= 26 ==> (t >> sh) >> 5u32 == t >> ((sh + 5) as u32)) by (bit_vector)
        requires sh <= 30;
    assert((t >> sh) & 31u32 == (t >> sh) % 32) by (bit_vector);
}

/// Reading the digits of the value `t` whose low `sh` bits are already in the word.
proof fn lemma_read_value(s: DecodeState, t: u32, dim: nat)
    requires
        s.status is Running,
        s.shift <= 30,
        s.shift % 5 == 0,
        s.word == t & (((1u32 << (s.shift as u32)) as u32) - 1u32) as u32,
        s.j < dim,
        s.tmp.len() == dim,
        i32::MIN <= s.tmp[s.j as int] + unzigzag(t) <= i32::MAX,
    ensures
        decode_run(s, chunk_bytes((t >> (s.shift as u32)) as nat), dim) == accept_value(
            s,
            unzigzag(t),
            s.pos + chunk_bytes((t >> (s.shift as u32)) as nat).len(),
            dim,
        ),
    decreases 32 - s.shift,
{
    let sh = s.shift as u32;
    let v = t >> sh;
    lemma_digit_bits(t, sh);
    if v < 32 {
        let b = (v + 63) as u8;
        assert(chunk_bytes(v as nat) == seq![b]);
        assert(seq![b].drop_last() =~= Seq::<u8>::empty());
        assert(((b - 63) as u32) == v);
        assert(((v & 31u32) << sh) == (((t >> sh) & 31u32) << sh));
        assert(decode_run(s, Seq::<u8>::empty(), dim) == s);
        assert(seq![b].last() == b);
        assert(decode_run(s, seq![b], dim) == decode_step(s, b, dim));
        assert(decode_step(s, b, dim) =~= accept_value(s, unzigzag(t), s.pos + 1, dim));
    } else {
        let b = ((v % 32) + 95) as u8;
        let rest = chunk_bytes((v / 32) as nat);
        assert(chunk_bytes(v as nat) == seq![b] + rest);
        assert(seq![b].drop_last() =~= Seq::<u8>::empty());
        let c = (b - 63) as u32;
        assert(c == (v % 32) + 32);
        assert(c & 31u32 == v % 32) by (bit_vector)
            requires c == (v % 32) + 32;
        let s1 = decode_step(s, b, dim);
        assert(s1 =~= DecodeState {
            pos: s.pos + 1,
            word: t & (((1u32 << ((sh + 5) as u32)) as u32) - 1u32) as u32,
            shift: s.shift + 5,
            ..s
        });
        lemma_run_concat(s, seq![b], rest, dim);
        assert(decode_run(s, Seq::<u8>::empty(), dim) == s);
        assert(seq![b].last() == b);
        assert(decode_run(s, seq![b], dim) == s1);
        assert(v >> 5u32 == v / 32) by (bit_vector);
        assert(v / 32 == t >> ((sh + 5) as u32));
        lemma_read_value(s1, t, dim);
        assert(accept_value(s1, unzigzag(t), s1.pos + rest.len(), dim) =~= accept_value(
            s,
            unzigzag(t),
            s.pos + 1 + rest.len(),
            dim,
        ));
    }
}

proof fn lemma_unzigzag_zigzag(d: int)
    requires
        i32::MIN <= d <= i32::MAX,
    ensures
        0 <= zigzag(d) <= u32::MAX,
        unzigzag(zigzag(d) as u32) == d,
{
    let t = zigzag(d) as u32;
    assert(t >> 1u32 == t / 2) by (bit_vector);
    assert(t & 1u32 == t % 2) by (bit_vector);
}

/// The decoder state at the start of a point whose predecessor is `prev`.
pub open spec fn point_start(pos: nat, prev: Seq<i32>, points: Seq<Seq<i32>>) -> DecodeState {
    DecodeState {
        status: DecodeStatus::Running,
        pos: pos,
        j: 0,
        word: 0,
        shift: 0,
        tmp: prev,
        points: points,
    }
}

/// Reading the first `k` dimensions of point `cur`.
proof fn lemma_read_point_prefix(
    pos: nat,
    cur: Seq<i32>,
    prev: Seq<i32>,
    points: Seq<Seq<i32>>,
    k: nat,
    dim: nat,
)
    requires
        1 <= dim,
        k < dim,
        cur.len() == dim,
        prev.len() == dim,
        forall|x: int| 0 <= x < dim ==> i32::MIN <= #[trigger] cur[x] - prev[x] <= i32::MAX,
    ensures
        decode_run(point_start(pos, prev, points), point_bytes(cur, prev, k), dim) == (DecodeState {
            status: DecodeStatus::Running,
            pos: pos + point_bytes(cur, prev, k).len(),
            j: k,
            word: 0,
            shift: 0,
            tmp: Seq::new(dim, |x: int| if x < k { cur[x] } else { prev[x] }),
            points: points,
        }),
    decreases k,
{
    let st = point_start(pos, prev, points);
    if k == 0 {
        assert(point_bytes(cur, prev, 0) =~= Seq::<u8>::empty());
        assert(Seq::new(dim, |x: int| if x < 0 { cur[x] } else { prev[x] }) =~= prev);
    } else {
        let k1 = (k - 1) as nat;
        lemma_read_point_prefix(pos, cur, prev, points, k1, dim);
        lemma_read_dimension(pos, cur, prev, points, k1, dim);
    }
}

/// Reading dimension `k` of point `cur` after its first `k` dimensions.
proof fn lemma_read_dimension(
    pos: nat,
    cur: Seq<i32>,
    prev: Seq<i32>,
    points: Seq<Seq<i32>>,
    k: nat,
    dim: nat,
)
    requires
        1 <= dim,
        k < dim,
        cur.len() == dim,
        prev.len() == dim,
        forall|x: int| 0 <= x < dim ==> i32::MIN <= #[trigger] cur[x] - prev[x] <= i32::MAX,
        decode_run(point_start(pos, prev, points), point_bytes(cur, prev, k), dim) == (DecodeState {
            status: DecodeStatus::Running,
            pos: pos + point_bytes(cur, prev, k).len(),
            j: k,
            word: 0,
            shift: 0,
            tmp: Seq::new(dim, |x: int| if x < k { cur[x] } else { prev[x] }),
            points: points,
        }),
    ensures
        k + 1 < dim ==> decode_run(point_start(pos, prev, points), point_bytes(cur, prev, k + 1), dim)
            == (DecodeState {
            status: DecodeStatus::Running,
            pos: pos + point_bytes(cur, prev, k + 1).len(),
            j: k + 1,
            word: 0,
            shift: 0,
            tmp: Seq::new(dim, |x: int| if x < k + 1 { cur[x] } else { prev[x] }),
            points: points,
        }),
        k + 1 == dim ==> decode_run(point_start(pos, prev, points), point_bytes(cur, prev, k + 1), dim)
            == point_start(pos + point_bytes(cur, prev, k + 1).len(), cur, points.push(cur)),
{
    let st = point_start(pos, prev, points);
    let before = point_bytes(cur, prev, k);
    let s1 = decode_run(st, before, dim);
    let d = cur[k as int] - prev[k as int];
    lemma_unzigzag_zigzag(d);
    let t = zigzag(d) as u32;
    assert(t >> 0u32 == t) by (bit_vector);
    assert(t & (((1u32 << 0u32) as u32) - 1u32) as u32 == 0) by (bit_vector);
    assert(s1.tmp[k as int] == prev[k as int]);
    lemma_read_value(s1, t, dim);
    let cb = chunk_bytes(zigzag(d) as nat);
    assert(point_bytes(cur, prev, k + 1) == before + cb);
    lemma_run_concat(st, before, cb, dim);
    let tmp2 = Seq::new(dim, |x: int| if x < k + 1 { cur[x] } else { prev[x] });
    assert(s1.tmp.update(k as int, (s1.tmp[k as int] + unzigzag(t)) as i32) =~= tmp2);
    if k + 1 == dim {
        assert(tmp2 =~= cur);
    }
}

/// Reading a whole point `cur` whose predecessor is `prev`.
proof fn lemma_read_point(pos: nat, cur: Seq<i32>, prev: Seq<i32>, points: Seq<Seq<i32>>, dim: nat)
    requires
        1 <= dim,
        cur.len() == dim,
        prev.len() == dim,
        forall|x: int| 0 <= x < dim ==> i32::MIN <= #[trigger] cur[x] - prev[x] <= i32::MAX,
    ensures
        decode_run(point_start(pos, prev, points), point_bytes(cur, prev, dim), dim) == point_start(
            pos + point_bytes(cur, prev, dim).len(),
            cur,
            points.push(cur),
        ),
{
    let k = (dim - 1) as nat;
    lemma_read_point_prefix(pos, cur, prev, points, k, dim);
    lemma_read_dimension(pos, cur, prev, points, k, dim);
}

proof fn lemma_read_points(points: Seq<Seq<i32>>, dim: nat)
    requires
        1 <= dim,
        forall|i: int| 0 <= i < points.len() ==> (#[trigger] points[i]).len() == dim,
        diffs_fit(points, dim),
    ensures
        decode_spec(encode_spec(points, dim), dim) == point_start(
            encode_spec(points, dim).len(),
            previous_point(points, points.len() as int, dim),
            points,
        ),
    decreases points.len(),
{
    if points.len() == 0 {
        assert(decode_init(dim) =~= point_start(0, previous_point(points, 0, dim), points));
    } else {
        let n = points.len() - 1;
        let init = points.drop_last();
        assert forall|i: int, k: int| 0 <= i < init.len() && 0 <= k < dim implies i32::MIN
            <= #[trigger] init[i][k] - previous_point(init, i, dim)[k] <= i32::MAX by {
            assert(init[i] == points[i]);
            assert(previous_point(init, i, dim) == previous_point(points, i, dim));
            assert(i32::MIN <= points[i][k] - previous_point(points, i, dim)[k] <= i32::MAX);
        }
        lemma_read_points(init, dim);
        let prev = previous_point(points, n, dim);
        assert(prev == previous_point(init, init.len() as int, dim));
        assert forall|x: int| 0 <= x < dim implies i32::MIN <= #[trigger] points[n][x] - prev[x]
            <= i32::MAX by {
            assert(i32::MIN <= points[n][x] - previous_point(points, n, dim)[x] <= i32::MAX);
        }
        let head = encode_spec(init, dim);
        let pb = point_bytes(points[n], prev, dim);
        lemma_run_concat(decode_init(dim), head, pb, dim);
        lemma_read_point(head.len(), points[n], prev, init, dim);
        assert(init.push(points[n]) =~= points);
    }
}

/// Decoding the polyline of points gives back those points, for points of at
/// least one dimension whose consecutive differences fit in an `i32`.
pub proof fn lemma_decode_encode_roundtrip(points: Seq<Seq<i32>>, dim: nat)
    requires
        1 <= dim,
        forall|i: int| 0 <= i < points.len() ==> (#[trigger] points[i]).len() == dim,
        diffs_fit(points, dim),
    ensures
        decode_spec(encode_spec(points, dim), dim).status is Running,
        decode_spec(encode_spec(points, dim), dim).points == points,
{
    lemma_read_points(points, dim);
}


// ----------------------------------------------------------------------------
// Conversion at the edge
// ----------------------------------------------------------------------------

/// `fixed` holds, item for item, a result that `convert` may give for `items`.
pub open spec fn converted_from<T, U, F: Fn(T) -> U>(convert: F, items: Seq<T>, fixed: Seq<U>) -> bool {
    &&& fixed.len() == items.len()
    &&& forall|i: int| 0 <= i < items.len() ==> call_ensures(convert, (items[i],), #[trigger] fixed[i])
}

/// Encodes coordinates into a polyline, turning each into fixed point with
/// `convert` first.
///
/// The result is the polyline of the converted points; see [`encode_points`].
pub fn encode_fixed<T: Copy, F: Fn(T) -> [i32; DIM], const DIM: usize>(coords: &[T], convert: F) -> (r: String)
    requires
        forall|i: int| 0 <= i < coords@.len() ==> call_requires(convert, (#[trigger] coords@[i],)),
        forall|fixed: Seq<[i32; DIM]>|
            converted_from(convert, coords@, fixed) ==> #[trigger] diffs_fit(points_of(fixed), DIM as nat),
    ensures
        exists|fixed: Seq<[i32; DIM]>|
            converted_from(convert, coords@, fixed) && r@ == bytes_as_chars(
                #[trigger] encode_spec(points_of(fixed), DIM as nat),
            ) && vstd::utf8::encode_utf8(r@) == encode_spec(points_of(fixed), DIM as nat),
{
    let n = coords.len();
    let mut fixed: Vec<[i32; DIM]> = Vec::new();
    let mut i: usize = 0;
    while i < n
        invariant
            n == coords@.len(),
            i <= n,
            forall|k: int| 0 <= k < coords@.len() ==> call_requires(convert, (#[trigger] coords@[k],)),
            converted_from(convert, coords@.take(i as int), fixed@),
        decreases n - i,
    {
        let item = coords[i];
        let point = convert(item);
        fixed.push(point);
        i = i + 1;
        proof {
            assert forall|k: int| 0 <= k < i implies call_ensures(
                convert,
                (coords@.take(i as int)[k],),
                #[trigger] fixed@[k],
            ) by {
                if k < i - 1 {
                    assert(coords@.take(i as int)[k] == coords@.take(i - 1)[k]);
                }
            }
        }
    }
    proof {
        assert(coords@.take(n as int) =~= coords@);
    }
    let r = encode_points(&fixed);
    proof {
        assert(converted_from(convert, coords@, fixed@));
        assert(r@ == bytes_as_chars(encode_spec(points_of(fixed@), DIM as nat)));
        assert(vstd::utf8::encode_utf8(r@) == encode_spec(points_of(fixed@), DIM as nat));
    }
    r
}

/// A polyline that [`encode_fixed`] wrote for fixed-point coordinates of at
/// least one dimension, whose consecutive differences fit in an `i32`, is
/// read back by [`decode_fixed`] as those same coordinates: its bytes decode
/// without error or overflow to exactly their points.
pub proof fn lemma_polyline_roundtrip<const DIM: usize>(polyline: Seq<char>, fixed: Seq<[i32; DIM]>)
    requires
        1 <= DIM,
        diffs_fit(points_of(fixed), DIM as nat),
        vstd::utf8::encode_utf8(polyline) == encode_spec(points_of(fixed), DIM as nat),
    ensures
        decode_spec(vstd::utf8::encode_utf8(polyline), DIM as nat).status is Running,
        decode_spec(vstd::utf8::encode_utf8(polyline), DIM as nat).points == points_of(fixed),
{
    assert forall|i: int| 0 <= i < points_of(fixed).len() implies (#[trigger] points_of(fixed)[i]).len() == DIM by {
        assert(points_of(fixed)[i] == fixed[i]@);
    }
    lemma_decode_encode_roundtrip(points_of(fixed), DIM as nat);
}

/// Decodes a polyline, handing each decoded point to `convert`.
///
/// Bytes outside `63..127` give `Err` with the offset of the first of them;
/// otherwise the result holds, in order, what `convert` gives for each point
/// of [`decode_spec`] (a trailing incomplete value or point is dropped).
pub fn decode_fixed<F: Fn([i32; DIM]) -> R, R, const DIM: usize>(polyline: &str, convert: F) -> (r: Result<Vec<R>, Error>)
    requires
        forall|p: [i32; DIM]| call_requires(convert, (p,)),
        !(decode_spec(polyline.spec_bytes(), DIM as nat).status is Overflow),
    ensures
        ({
            let st = decode_spec(polyline.spec_bytes(), DIM as nat);
            match st.status {
                DecodeStatus::Invalid(p) => r == Err::<Vec<R>, Error>(Error(p as usize)),
                _ => r matches Ok(v) && exists|fixed: Seq<[i32; DIM]>|
                    #[trigger] points_of(fixed) == st.points && converted_from(convert, fixed, v@),
            }
        }),
{
    match decode_points::<DIM>(polyline) {
        Err(e) => Err(e),
        Ok(points) => {
            let n = points.len();
            let mut out: Vec<R> = Vec::new();
            let mut i: usize = 0;
            while i < n
                invariant
                    n == points@.len(),
                    i <= n,
                    forall|p: [i32; DIM]| call_requires(convert, (p,)),
                    converted_from(convert, points@.take(i as int), out@),
                decreases n - i,
            {
                let value = convert(points[i]);
                out.push(value);
                i = i + 1;
                proof {
                    assert forall|k: int| 0 <= k < i implies call_ensures(
                        convert,
                        (points@.take(i as int)[k],),
                        #[trigger] out@[k],
                    ) by {
                        if k < i - 1 {
                            assert(points@.take(i as int)[k] == points@.take(i - 1)[k]);
                        }
                    }
                }
            }
            proof {
                assert(points@.take(n as int) =~= points@);
                assert(converted_from(convert, points@, out@));
            }
            Ok(out)
        },
    }
}

} // verus!
