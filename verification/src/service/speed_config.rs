//! Serve-time speed overrides per country, vehicle type and highway class.

use vstd::prelude::*;
use vstd::string::StringExecFns;

use crate::service::profile::{profile_vehicle_from_name_spec, VehicleType};
use crate::storage::attrib::{highway_from_name_spec, HighwayClass, HIGHWAY_CLASS_COUNT};
use crate::text::{lowercase, str_eq, to_lowercase, to_uppercase, uppercase};
use crate::types::country::{country_id_spec, CountryId};

verus! {

/// Number of cells per country: one per vehicle type and highway class.
pub const STRIDE: usize = 92;

/// Number of cells in the table: one row per country id, the unknown id included.
pub const SPEED_TABLE_LEN: usize = 23092;

/// One configured speed. `None` stands for every country (every known one,
/// that is: ids `1..CountryId::COUNT`) or for every vehicle type.
#[derive(Copy, Clone, Debug)]
pub struct SpeedEntry {
    pub country: Option<u8>,
    pub vehicle: Option<VehicleType>,
    pub highway: HighwayClass,
    pub kmh: u8,
}

/// Speed overrides as configured: country pattern, then vehicle pattern, then
/// highway class name and km/h, each level a list of entries in the order in
/// which they are read. `*` as a country or vehicle pattern stands for all.
pub struct SpeedConfigRaw {
    pub country_speed: Vec<(String, Vec<(String, Vec<(String, u8)>)>)>,
}

/// How specific an entry is: entries of a higher rank override lower ones.
pub open spec fn entry_rank(e: SpeedEntry) -> int {
    (if e.country is Some { 2int } else { 0int }) + (if e.vehicle is Some { 1int } else { 0int })
}

/// Whether cell `(c, v, h)` (country id, vehicle index, highway index) is one
/// that entry `e` sets.
pub open spec fn entry_covers(e: SpeedEntry, c: int, v: int, h: int) -> bool {
    &&& match e.country {
        None => 1 <= c < CountryId::COUNT,
        Some(x) => c == x,
    }
    &&& match e.vehicle {
        None => 0 <= v < VehicleType::COUNT,
        Some(x) => v == x.index_spec(),
    }
    &&& h == e.highway.index_spec()
}

/// The entries of `es` of rank `k`, in list order.
pub open spec fn of_rank(es: Seq<SpeedEntry>, k: int) -> Seq<SpeedEntry>
    decreases es.len(),
{
    if es.len() == 0 {
        seq![]
    } else if entry_rank(es.last()) == k {
        of_rank(es.drop_last(), k).push(es.last())
    } else {
        of_rank(es.drop_last(), k)
    }
}

/// The entries of `es` of rank below `k`, lower ranks first.
pub open spec fn ranks_below(es: Seq<SpeedEntry>, k: nat) -> Seq<SpeedEntry>
    decreases k,
{
    if k == 0 {
        seq![]
    } else {
        ranks_below(es, (k - 1) as nat) + of_rank(es, k - 1)
    }
}

/// The entries in the order in which they are applied: least specific first,
/// and in list order among equally specific ones.
pub open spec fn application_order(es: Seq<SpeedEntry>) -> Seq<SpeedEntry> {
    ranks_below(es, 4)
}

/// The speed that the last entry of `es` covering cell `(c, v, h)` sets, or 0
/// when none covers it.
pub open spec fn last_cover(es: Seq<SpeedEntry>, c: int, v: int, h: int) -> u8
    decreases es.len(),
{
    if es.len() == 0 {
        0
    } else if entry_covers(es.last(), c, v, h) {
        es.last().kmh
    } else {
        last_cover(es.drop_last(), c, v, h)
    }
}

/// Whether `(c, v, h)` names a cell of the table.
pub open spec fn valid_cell(c: int, v: int, h: int) -> bool {
    &&& 0 <= c < CountryId::COUNT
    &&& 0 <= v < VehicleType::COUNT
    &&& 0 <= h < HIGHWAY_CLASS_COUNT
}

/// The position of cell `(c, v, h)` in the flat table.
pub open spec fn cell_index(c: int, v: int, h: int) -> int {
    c * STRIDE + v * HIGHWAY_CLASS_COUNT + h
}

/// Whether an entry names only cells that exist.
pub open spec fn entry_in_range(e: SpeedEntry) -> bool {
    e.country matches Some(x) ==> x < CountryId::COUNT
}

/// The message for a country pattern that names no country.
pub open spec fn unknown_country_message(pattern: Seq<char>) -> Seq<char> {
    "unknown country code: "@ + pattern
}

/// The message for a vehicle pattern that names no profile.
pub open spec fn unknown_profile_message(pattern: Seq<char>) -> Seq<char> {
    "unknown profile: "@ + pattern
}

/// The message for a highway class name that names no class.
pub open spec fn unknown_highway_message(name: Seq<char>) -> Seq<char> {
    "unknown highway class: "@ + name
}

/// What a country pattern stands for, given the pattern and its upper-case form.
pub open spec fn country_pattern_spec(pattern: Seq<char>, upper: Seq<char>) -> Result<
    Option<u8>,
    Seq<char>,
> {
    if pattern == "*"@ {
        Ok(None)
    } else if country_id_spec(upper) == 0 {
        Err(unknown_country_message(pattern))
    } else {
        Ok(Some(country_id_spec(upper)))
    }
}

/// What a vehicle pattern stands for, given the pattern and its lower-case form.
pub open spec fn profile_pattern_spec(pattern: Seq<char>, lower: Seq<char>) -> Result<
    Option<VehicleType>,
    Seq<char>,
> {
    if pattern == "*"@ {
        Ok(None)
    } else {
        match profile_vehicle_from_name_spec(lower) {
            Some(v) => Ok(Some(v)),
            None => Err(unknown_profile_message(pattern)),
        }
    }
}

/// `r` with `pre` put in front of its entries; an error stays as it is.
pub open spec fn prepend(pre: Seq<SpeedEntry>, r: Result<Seq<SpeedEntry>, Seq<char>>) -> Result<
    Seq<SpeedEntry>,
    Seq<char>,
> {
    match r {
        Ok(rest) => Ok(pre + rest),
        Err(m) => Err(m),
    }
}

/// The entries of a list of highway speeds for one country and vehicle
/// pattern, or the message for its first unknown class name.
pub open spec fn highway_entries_spec(
    country: Option<u8>,
    vehicle: Option<VehicleType>,
    hs: Seq<(String, u8)>,
) -> Result<Seq<SpeedEntry>, Seq<char>>
    decreases hs.len(),
{
    if hs.len() == 0 {
        Ok(seq![])
    } else {
        match highway_from_name_spec(hs[0].0@) {
            None => Err(unknown_highway_message(hs[0].0@)),
            Some(h) => prepend(
                seq![SpeedEntry { country, vehicle, highway: h, kmh: hs[0].1 }],
                highway_entries_spec(country, vehicle, hs.drop_first()),
            ),
        }
    }
}

/// The entries of the vehicle patterns of one country, or the first error.
pub open spec fn profile_entries_spec(country: Option<u8>, ps: Seq<(String, Vec<(String, u8)>)>) -> Result<
    Seq<SpeedEntry>,
    Seq<char>,
>
    decreases ps.len(),
{
    if ps.len() == 0 {
        Ok(seq![])
    } else {
        match profile_pattern_spec(ps[0].0@, lowercase(ps[0].0@)) {
            Err(m) => Err(m),
            Ok(vehicle) => match highway_entries_spec(country, vehicle, ps[0].1@) {
                Err(m) => Err(m),
                Ok(es) => prepend(es, profile_entries_spec(country, ps.drop_first())),
            },
        }
    }
}

/// The entries of a whole configuration, in reading order, or the first error.
pub open spec fn speed_entries_spec(cs: Seq<(String, Vec<(String, Vec<(String, u8)>)>)>) -> Result<
    Seq<SpeedEntry>,
    Seq<char>,
>
    decreases cs.len(),
{
    if cs.len() == 0 {
        Ok(seq![])
    } else {
        match country_pattern_spec(cs[0].0@, uppercase(cs[0].0@)) {
            Err(m) => Err(m),
            Ok(country) => match profile_entries_spec(country, cs[0].1@) {
                Err(m) => Err(m),
                Ok(es) => prepend(es, speed_entries_spec(cs.drop_first())),
            },
        }
    }
}

/// The view of a list of entries or of an error message.
pub open spec fn entries_result_view(r: Result<Vec<SpeedEntry>, String>) -> Result<
    Seq<SpeedEntry>,
    Seq<char>,
> {
    match r {
        Ok(v) => Ok(v@),
        Err(m) => Err(m@),
    }
}

proof fn lemma_prepend_assoc(a: Seq<SpeedEntry>, b: Seq<SpeedEntry>, r: Result<Seq<SpeedEntry>, Seq<char>>)
    ensures
        prepend(a, prepend(b, r)) == prepend(a + b, r),
{
    if let Ok(rest) = r {
        assert((a + b) + rest =~= a + (b + rest));
    }
}

proof fn lemma_prepend_empty(r: Result<Seq<SpeedEntry>, Seq<char>>)
    ensures
        prepend(seq![], r) == r,
{
    if let Ok(rest) = r {
        assert(Seq::<SpeedEntry>::empty() + rest =~= rest);
    }
}

proof fn lemma_cell_index_injective(c1: int, v1: int, h1: int, c2: int, v2: int, h2: int)
    requires
        valid_cell(c1, v1, h1),
        valid_cell(c2, v2, h2),
        cell_index(c1, v1, h1) == cell_index(c2, v2, h2),
    ensures
        c1 == c2,
        v1 == v2,
        h1 == h2,
{
}

proof fn lemma_cell_index_bound(c: int, v: int, h: int)
    requires
        valid_cell(c, v, h),
    ensures
        0 <= cell_index(c, v, h) < SPEED_TABLE_LEN,
{
}

/// Whether a pattern is the wildcard `*`.
fn is_wildcard(pattern: &str) -> (r: bool)
    ensures
        r == (pattern@ == "*"@),
{
    str_eq(pattern, "*")
}

/// Reads a country pattern, given the pattern and its upper-case form: `*`
/// stands for all countries, anything else must be a known ISO code once
/// upper-cased.
pub fn country_pattern(pattern: &str, upper: &str) -> (r: Result<Option<u8>, String>)
    ensures
        match (r, country_pattern_spec(pattern@, upper@)) {
            (Ok(a), Ok(b)) => a == b,
            (Err(a), Err(b)) => a@ == b,
            _ => false,
        },
        r matches Ok(Some(x)) ==> 1 <= x < CountryId::COUNT,
{
    if is_wildcard(pattern) {
        return Ok(None);
    }
    let id = CountryId::from_iso2(upper);
    if id.is_unknown() {
        Err(String::from_str("unknown country code: ").concat(pattern))
    } else {
        Ok(Some(id.0))
    }
}

/// Reads a vehicle pattern, given the pattern and its lower-case form: `*`
/// stands for all vehicle types, anything else must be a profile name once
/// lower-cased.
pub fn profile_pattern(pattern: &str, lower: &str) -> (r: Result<Option<VehicleType>, String>)
    ensures
        match (r, profile_pattern_spec(pattern@, lower@)) {
            (Ok(a), Ok(b)) => a == b,
            (Err(a), Err(b)) => a@ == b,
            _ => false,
        },
{
    if is_wildcard(pattern) {
        return Ok(None);
    }
    match VehicleType::from_name(lower) {
        Some(v) => Ok(Some(v)),
        None => Err(String::from_str("unknown profile: ").concat(pattern)),
    }
}

fn highway_entries(country: Option<u8>, vehicle: Option<VehicleType>, hs: &Vec<(String, u8)>) -> (r: Result<
    Vec<SpeedEntry>,
    String,
>)
    ensures
        entries_result_view(r) == highway_entries_spec(country, vehicle, hs@),
{
    let mut out: Vec<SpeedEntry> = Vec::new();
    let n = hs.len();
    let mut k: usize = 0;
    proof {
        assert(hs@.skip(0) =~= hs@);
        lemma_prepend_empty(highway_entries_spec(country, vehicle, hs@));
    }
    while k < n
        invariant
            n == hs@.len(),
            k <= n,
            highway_entries_spec(country, vehicle, hs@) == prepend(
                out@,
                highway_entries_spec(country, vehicle, hs@.skip(k as int)),
            ),
        decreases n - k,
    {
        let ghost rest = hs@.skip(k as int);
        proof {
            assert(rest[0] == hs@[k as int]);
            assert(rest.drop_first() =~= hs@.skip(k + 1));
        }
        let name = hs[k].0.as_str();
        match HighwayClass::from_name(name) {
            None => {
                return Err(String::from_str("unknown highway class: ").concat(name));
            },
            Some(h) => {
                let e = SpeedEntry { country, vehicle, highway: h, kmh: hs[k].1 };
                proof {
                    assert(highway_entries_spec(country, vehicle, rest) == prepend(
                        seq![e],
                        highway_entries_spec(country, vehicle, hs@.skip(k + 1)),
                    ));
                    lemma_prepend_assoc(
                        out@,
                        seq![e],
                        highway_entries_spec(country, vehicle, hs@.skip(k + 1)),
                    );
                }
                let ghost before = out@;
                out.push(e);
                proof {
                    assert(out@ =~= before + seq![e]);
                }
            },
        }
        k = k + 1;
    }
    proof {
        assert(hs@.skip(n as int) =~= Seq::<(String, u8)>::empty());
        assert(out@ + Seq::<SpeedEntry>::empty() =~= out@);
    }
    Ok(out)
}

fn profile_entries(country: Option<u8>, ps: &Vec<(String, Vec<(String, u8)>)>) -> (r: Result<
    Vec<SpeedEntry>,
    String,
>)
    ensures
        entries_result_view(r) == profile_entries_spec(country, ps@),
{
    let mut out: Vec<SpeedEntry> = Vec::new();
    let n = ps.len();
    let mut k: usize = 0;
    proof {
        assert(ps@.skip(0) =~= ps@);
        lemma_prepend_empty(profile_entries_spec(country, ps@));
    }
    while k < n
        invariant
            n == ps@.len(),
            k <= n,
            profile_entries_spec(country, ps@) == prepend(
                out@,
                profile_entries_spec(country, ps@.skip(k as int)),
            ),
        decreases n - k,
    {
        let ghost rest = ps@.skip(k as int);
        proof {
            assert(rest[0] == ps@[k as int]);
            assert(rest.drop_first() =~= ps@.skip(k + 1));
        }
        let pattern = ps[k].0.as_str();
        let lower = to_lowercase(pattern);
        let vehicle = match profile_pattern(pattern, lower.as_str()) {
            Ok(v) => v,
            Err(m) => {
                return Err(m);
            },
        };
        let mut es = match highway_entries(country, vehicle, &ps[k].1) {
            Ok(es) => es,
            Err(m) => {
                return Err(m);
            },
        };
        proof {
            lemma_prepend_assoc(out@, es@, profile_entries_spec(country, ps@.skip(k + 1)));
        }
        out.append(&mut es);
        k = k + 1;
    }
    proof {
        assert(ps@.skip(n as int) =~= Seq::<(String, Vec<(String, u8)>)>::empty());
        assert(out@ + Seq::<SpeedEntry>::empty() =~= out@);
    }
    Ok(out)
}

/// Reads the entries of a configuration in reading order; the first unknown
/// country code, profile or highway class name ends it with its message.
pub fn speed_entries(raw: &SpeedConfigRaw) -> (r: Result<Vec<SpeedEntry>, String>)
    ensures
        entries_result_view(r) == speed_entries_spec(raw.country_speed@),
        r matches Ok(es) ==> forall|i: int| 0 <= i < es@.len() ==> entry_in_range(#[trigger] es@[i]),
{
    let cs = &raw.country_speed;
    let mut out: Vec<SpeedEntry> = Vec::new();
    let n = cs.len();
    let mut k: usize = 0;
    proof {
        assert(cs@.skip(0) =~= cs@);
        lemma_prepend_empty(speed_entries_spec(cs@));
    }
    while k < n
        invariant
            cs == &raw.country_speed,
            n == cs@.len(),
            k <= n,
            speed_entries_spec(cs@) == prepend(out@, speed_entries_spec(cs@.skip(k as int))),
            forall|i: int| 0 <= i < out@.len() ==> entry_in_range(#[trigger] out@[i]),
        decreases n - k,
    {
        let ghost rest = cs@.skip(k as int);
        proof {
            assert(rest[0] == cs@[k as int]);
            assert(rest.drop_first() =~= cs@.skip(k + 1));
        }
        let pattern = cs[k].0.as_str();
        let upper = to_uppercase(pattern);
        let country = match country_pattern(pattern, upper.as_str()) {
            Ok(c) => c,
            Err(m) => {
                return Err(m);
            },
        };
        let mut es = match profile_entries(country, &cs[k].1) {
            Ok(es) => es,
            Err(m) => {
                return Err(m);
            },
        };
        proof {
            lemma_prepend_assoc(out@, es@, speed_entries_spec(cs@.skip(k + 1)));
            lemma_entries_carry_country(country, cs@[k as int].1@);
        }
        let ghost before = out@;
        let ghost added = es@;
        out.append(&mut es);
        proof {
            assert forall|i: int| 0 <= i < out@.len() implies entry_in_range(#[trigger] out@[i]) by {
                if i >= before.len() {
                    assert(out@[i] == added[i - before.len()]);
                }
            }
        }
        k = k + 1;
    }
    proof {
        assert(cs@.skip(n as int) =~= Seq::<(String, Vec<(String, Vec<(String, u8)>)>)>::empty());
        assert(out@ + Seq::<SpeedEntry>::empty() =~= out@);
    }
    Ok(out)
}

proof fn lemma_highway_entries_carry_country(
    country: Option<u8>,
    vehicle: Option<VehicleType>,
    hs: Seq<(String, u8)>,
)
    ensures
        highway_entries_spec(country, vehicle, hs) matches Ok(es) ==> forall|i: int|
            0 <= i < es.len() ==> (#[trigger] es[i]).country == country,
    decreases hs.len(),
{
    if hs.len() > 0 {
        lemma_highway_entries_carry_country(country, vehicle, hs.drop_first());
    }
}

proof fn lemma_entries_carry_country(country: Option<u8>, ps: Seq<(String, Vec<(String, u8)>)>)
    ensures
        profile_entries_spec(country, ps) matches Ok(es) ==> forall|i: int|
            0 <= i < es.len() ==> (#[trigger] es[i]).country == country,
    decreases ps.len(),
{
    if ps.len() > 0 {
        lemma_entries_carry_country(country, ps.drop_first());
        if let Ok(vehicle) = profile_pattern_spec(ps[0].0@, lowercase(ps[0].0@)) {
            lemma_highway_entries_carry_country(country, vehicle, ps[0].1@);
        }
    }
}

/// Per-country, per-profile default speeds for highway classes, as a flat
/// table with one cell per country id, vehicle type and highway class.
/// A cell of 0 means "no override".
pub struct SpeedConfig {
    speeds: Vec<u8>,
}

/// Whether `es` sets exactly the cells of `speeds` that `application_order`
/// gives: every cell holds what the last entry covering it sets.
pub open spec fn cells_match(speeds: Seq<u8>, es: Seq<SpeedEntry>) -> bool {
    forall|c: int, v: int, h: int|
        valid_cell(c, v, h) ==> #[trigger] speeds[cell_index(c, v, h)] == last_cover(es, c, v, h)
}

/// Writes `e.kmh` into every cell that `e` covers and leaves the others.
fn apply_entry(speeds: &mut Vec<u8>, e: SpeedEntry)
    requires
        old(speeds)@.len() == SPEED_TABLE_LEN,
        entry_in_range(e),
    ensures
        final(speeds)@.len() == SPEED_TABLE_LEN,
        forall|c: int, v: int, h: int|
            valid_cell(c, v, h) ==> #[trigger] final(speeds)@[cell_index(c, v, h)] == if entry_covers(
                e,
                c,
                v,
                h,
            ) {
                e.kmh
            } else {
                old(speeds)@[cell_index(c, v, h)]
            },
{
    let ghost before = speeds@;
    let (c_lo, c_hi): (usize, usize) = match e.country {
        None => (1, CountryId::COUNT),
        Some(x) => (x as usize, x as usize + 1),
    };
    let (v_lo, v_hi): (usize, usize) = match e.vehicle {
        None => (0, VehicleType::COUNT),
        Some(x) => (x.index(), x.index() + 1),
    };
    let h = e.highway.index();
    let mut c = c_lo;
    while c < c_hi
        invariant
            speeds@.len() == SPEED_TABLE_LEN,
            c_lo <= c <= c_hi <= CountryId::COUNT,
            v_lo <= v_hi <= VehicleType::COUNT,
            h == e.highway.index_spec(),
            h < HIGHWAY_CLASS_COUNT,
            forall|cc: int, vv: int, hh: int|
                valid_cell(cc, vv, hh) ==> (entry_covers(e, cc, vv, hh) <==> (c_lo <= cc < c_hi
                    && v_lo <= vv < v_hi && hh == h)),
            forall|cc: int, vv: int, hh: int|
                valid_cell(cc, vv, hh) ==> #[trigger] speeds@[cell_index(cc, vv, hh)] == if c_lo
                    <= cc < c && v_lo <= vv < v_hi && hh == h {
                    e.kmh
                } else {
                    before[cell_index(cc, vv, hh)]
                },
        decreases c_hi - c,
    {
        let mut v = v_lo;
        while v < v_hi
            invariant
                speeds@.len() == SPEED_TABLE_LEN,
                c_lo <= c < c_hi <= CountryId::COUNT,
                v_lo <= v <= v_hi <= VehicleType::COUNT,
                h < HIGHWAY_CLASS_COUNT,
                forall|cc: int, vv: int, hh: int|
                    valid_cell(cc, vv, hh) ==> #[trigger] speeds@[cell_index(cc, vv, hh)] == if hh == h
                        && v_lo <= vv < v_hi && (c_lo <= cc < c || (cc == c && vv < v)) {
                        e.kmh
                    } else {
                        before[cell_index(cc, vv, hh)]
                    },
            decreases v_hi - v,
        {
            let idx = c * STRIDE + v * HIGHWAY_CLASS_COUNT + h;
            proof {
                lemma_cell_index_bound(c as int, v as int, h as int);
            }
            let ghost prev = speeds@;
            speeds.set(idx, e.kmh);
            proof {
                assert forall|cc: int, vv: int, hh: int| valid_cell(cc, vv, hh) implies #[trigger] speeds@[cell_index(cc, vv, hh)]
                    == if hh == h && v_lo <= vv < v_hi && (c_lo <= cc < c || (cc == c && vv < v + 1)) {
                    e.kmh
                } else {
                    before[cell_index(cc, vv, hh)]
                } by {
                    lemma_cell_index_bound(cc, vv, hh);
                    if cell_index(cc, vv, hh) == idx {
                        lemma_cell_index_injective(cc, vv, hh, c as int, v as int, h as int);
                    }
                }
            }
            v = v + 1;
        }
        c = c + 1;
    }
}

/// Builds the table that a list of entries sets, applying the least specific
/// entries first so that more specific ones override them.
fn table_from_entries(es: &Vec<SpeedEntry>) -> (speeds: Vec<u8>)
    requires
        forall|i: int| 0 <= i < es@.len() ==> entry_in_range(#[trigger] es@[i]),
    ensures
        speeds@.len() == SPEED_TABLE_LEN,
        cells_match(speeds@, application_order(es@)),
{
    let mut speeds = vec![0u8; SPEED_TABLE_LEN];
    proof {
        assert forall|c: int, v: int, h: int| valid_cell(c, v, h) implies #[trigger] speeds@[cell_index(
            c,
            v,
            h,
        )] == last_cover(ranks_below(es@, 0), c, v, h) by {
            lemma_cell_index_bound(c, v, h);
        }
    }
    let n = es.len();
    let mut rank: usize = 0;
    while rank < 4
        invariant
            n == es@.len(),
            forall|i: int| 0 <= i < es@.len() ==> entry_in_range(#[trigger] es@[i]),
            speeds@.len() == SPEED_TABLE_LEN,
            rank <= 4,
            cells_match(speeds@, ranks_below(es@, rank as nat)),
        decreases 4 - rank,
    {
        let mut i: usize = 0;
        proof {
            assert(of_rank(es@.take(0), rank as int) =~= Seq::<SpeedEntry>::empty());
            assert(ranks_below(es@, rank as nat) + of_rank(es@.take(0), rank as int) =~= ranks_below(
                es@,
                rank as nat,
            ));
        }
        while i < n
            invariant
                n == es@.len(),
                forall|i: int| 0 <= i < es@.len() ==> entry_in_range(#[trigger] es@[i]),
                speeds@.len() == SPEED_TABLE_LEN,
                rank < 4,
                i <= n,
                cells_match(
                    speeds@,
                    ranks_below(es@, rank as nat) + of_rank(es@.take(i as int), rank as int),
                ),
            decreases n - i,
        {
            let e = es[i];
            let ghost applied = ranks_below(es@, rank as nat) + of_rank(es@.take(i as int), rank as int);
            proof {
                assert(es@.take(i + 1).drop_last() =~= es@.take(i as int));
                assert(es@.take(i + 1).last() == e);
            }
            let e_rank: usize = (if e.country.is_some() { 2usize } else { 0usize }) + (if e.vehicle.is_some() { 1usize } else { 0usize });
            if e_rank == rank {
                let ghost prev = speeds@;
                apply_entry(&mut speeds, e);
                proof {
                    assert(applied.push(e).drop_last() =~= applied);
                    assert(ranks_below(es@, rank as nat) + of_rank(es@.take(i + 1), rank as int)
                        =~= applied.push(e));
                    assert forall|c: int, v: int, h: int| valid_cell(c, v, h) implies #[trigger] speeds@[cell_index(
                        c,
                        v,
                        h,
                    )] == last_cover(applied.push(e), c, v, h) by {
                        assert(prev[cell_index(c, v, h)] == last_cover(applied, c, v, h));
                    }
                }
            }
            i = i + 1;
        }
        proof {
            assert(es@.take(n as int) =~= es@);
        }
        rank = rank + 1;
    }
    speeds
}

impl SpeedConfig {
    #[verifier::type_invariant]
    spec fn wf(self) -> bool {
        self.speeds@.len() == SPEED_TABLE_LEN
    }

    /// The speed stored for cell `(c, v, h)`; 0 when no override is set.
    pub closed spec fn speed_at(self, c: int, v: int, h: int) -> u8 {
        self.speeds@[cell_index(c, v, h)]
    }

    /// Builds the table from a configuration: `Err` with the message for the
    /// first unknown country code, profile or highway class in reading order,
    /// else every cell holds the speed of the last entry covering it, taken
    /// least specific first (wildcards before named countries and profiles).
    pub fn try_from(raw: SpeedConfigRaw) -> (r: Result<Self, String>)
        ensures
            match speed_entries_spec(raw.country_speed@) {
                Err(m) => r matches Err(e) && e@ == m,
                Ok(es) => r matches Ok(cfg) && forall|c: int, v: int, h: int|
                    valid_cell(c, v, h) ==> #[trigger] cfg.speed_at(c, v, h) == last_cover(
                        application_order(es),
                        c,
                        v,
                        h,
                    ),
            },
    {
        let entries = match speed_entries(&raw) {
            Ok(es) => es,
            Err(m) => {
                return Err(m);
            },
        };
        let speeds = table_from_entries(&entries);
        Ok(SpeedConfig { speeds })
    }

    /// Look up the serve-time speed for a given country, vehicle type, and highway class.
    /// Returns `None` if no override is configured — caller should fall back to
    /// the profile's built-in speed table.
    pub fn default_speed(&self, country_id: CountryId, vehicle_type: VehicleType, highway: HighwayClass) -> (r:
        Option<u8>)
        requires
            country_id.0 < CountryId::COUNT,
        ensures
            ({
                let s = self.speed_at(
                    country_id.0 as int,
                    vehicle_type.index_spec() as int,
                    highway.index_spec() as int,
                );
                r == if s > 0 {
                    Some(s)
                } else {
                    None::<u8>
                }
            }),
    {
        proof {
            use_type_invariant(self);
            lemma_cell_index_bound(
                country_id.0 as int,
                vehicle_type.index_spec() as int,
                highway.index_spec() as int,
            );
        }
        let idx = country_id.0 as usize * STRIDE + vehicle_type.index() * HIGHWAY_CLASS_COUNT
            + highway.index();
        let speed = self.speeds[idx];
        if speed > 0 {
            Some(speed)
        } else {
            None
        }
    }
}

impl Default for SpeedConfig {
    fn default() -> (r: Self)
        ensures
            forall|c: int, v: int, h: int| valid_cell(c, v, h) ==> #[trigger] r.speed_at(c, v, h) == 0,
    {
        let speeds = vec![0u8; SPEED_TABLE_LEN];
        proof {
            assert forall|c: int, v: int, h: int| valid_cell(c, v, h) implies #[trigger] speeds@[cell_index(
                c,
                v,
                h,
            )] == 0 by {
                lemma_cell_index_bound(c, v, h);
            }
        }
        SpeedConfig { speeds }
    }
}

/// Some entry of `es` covers cell `(c, v, h)`.
pub open spec fn has_cover(es: Seq<SpeedEntry>, c: int, v: int, h: int) -> bool {
    exists|j: int| 0 <= j < es.len() && entry_covers(#[trigger] es[j], c, v, h)
}

proof fn lemma_last_cover_concat(a: Seq<SpeedEntry>, b: Seq<SpeedEntry>, c: int, v: int, h: int)
    ensures
        last_cover(a + b, c, v, h) == if has_cover(b, c, v, h) {
            last_cover(b, c, v, h)
        } else {
            last_cover(a, c, v, h)
        },
    decreases b.len(),
{
    if b.len() == 0 {
        assert(a + b =~= a);
    } else {
        assert((a + b).drop_last() =~= a + b.drop_last());
        assert((a + b).last() == b.last());
        lemma_last_cover_concat(a, b.drop_last(), c, v, h);
        if !entry_covers(b.last(), c, v, h) {
            if has_cover(b, c, v, h) {
                let j = choose|j: int| 0 <= j < b.len() && entry_covers(#[trigger] b[j], c, v, h);
                assert(b.drop_last()[j] == b[j]);
            }
            if has_cover(b.drop_last(), c, v, h) {
                let j = choose|j: int| 0 <= j < b.drop_last().len() && entry_covers(#[trigger] b.drop_last()[j], c, v, h);
                assert(b[j] == b.drop_last()[j]);
            }
        } else {
            assert(entry_covers(b[b.len() - 1], c, v, h));
        }
    }
}

/// The covers among the entries of rank `k` are the covers of rank `k`: the
/// last of them decides, and there is one exactly when some entry of rank
/// `k` covers the cell.
proof fn lemma_of_rank_cover(es: Seq<SpeedEntry>, k: int, c: int, v: int, h: int, i: int)
    requires
        0 <= i < es.len(),
        entry_rank(es[i]) == k,
        entry_covers(es[i], c, v, h),
        forall|j: int| i < j < es.len() && entry_rank(es[j]) == k ==> !entry_covers(#[trigger] es[j], c, v, h),
    ensures
        has_cover(of_rank(es, k), c, v, h),
        last_cover(of_rank(es, k), c, v, h) == es[i].kmh,
    decreases es.len(),
{
    let last = es.last();
    if i == es.len() - 1 {
        let r = of_rank(es.drop_last(), k).push(last);
        assert(r[r.len() - 1] == last);
    } else {
        assert(es.drop_last()[i] == es[i]);
        assert forall|j: int| i < j < es.drop_last().len() && entry_rank(es.drop_last()[j]) == k implies !entry_covers(
            #[trigger] es.drop_last()[j],
            c,
            v,
            h,
        ) by {
            assert(es.drop_last()[j] == es[j]);
        }
        lemma_of_rank_cover(es.drop_last(), k, c, v, h, i);
        let p = of_rank(es.drop_last(), k);
        if entry_rank(last) == k {
            assert(!entry_covers(es[es.len() - 1], c, v, h));
            let r = p.push(last);
            assert(r.drop_last() =~= p);
            let j = choose|j: int| 0 <= j < p.len() && entry_covers(#[trigger] p[j], c, v, h);
            assert(r[j] == p[j]);
        }
    }
}

proof fn lemma_of_rank_no_cover(es: Seq<SpeedEntry>, k: int, c: int, v: int, h: int)
    requires
        forall|j: int| 0 <= j < es.len() && entry_rank(es[j]) == k ==> !entry_covers(#[trigger] es[j], c, v, h),
    ensures
        !has_cover(of_rank(es, k), c, v, h),
    decreases es.len(),
{
    if es.len() > 0 {
        assert forall|j: int| 0 <= j < es.drop_last().len() && entry_rank(es.drop_last()[j]) == k implies !entry_covers(
            #[trigger] es.drop_last()[j],
            c,
            v,
            h,
        ) by {
            assert(es.drop_last()[j] == es[j]);
        }
        lemma_of_rank_no_cover(es.drop_last(), k, c, v, h);
        let p = of_rank(es.drop_last(), k);
        if entry_rank(es.last()) == k {
            assert(!entry_covers(es[es.len() - 1], c, v, h));
            let r = p.push(es.last());
            if has_cover(r, c, v, h) {
                let j = choose|j: int| 0 <= j < r.len() && entry_covers(#[trigger] r[j], c, v, h);
                assert(j < p.len());
                assert(r[j] == p[j]);
            }
        }
    }
}

proof fn lemma_ranks_below_cover(es: Seq<SpeedEntry>, k: nat, c: int, v: int, h: int, i: int)
    requires
        k <= 4,
        0 <= i < es.len(),
        entry_rank(es[i]) < k,
        entry_covers(es[i], c, v, h),
        forall|j: int| 0 <= j < es.len() && entry_covers(#[trigger] es[j], c, v, h) ==> entry_rank(es[j]) <= entry_rank(es[i]),
        forall|j: int| i < j < es.len() && entry_rank(es[j]) == entry_rank(es[i]) ==> !entry_covers(#[trigger] es[j], c, v, h),
    ensures
        last_cover(ranks_below(es, k), c, v, h) == es[i].kmh,
    decreases k,
{
    let r = entry_rank(es[i]);
    lemma_last_cover_concat(ranks_below(es, (k - 1) as nat), of_rank(es, k - 1), c, v, h);
    if k - 1 == r {
        lemma_of_rank_cover(es, r, c, v, h, i);
    } else {
        assert forall|j: int| 0 <= j < es.len() && entry_rank(es[j]) == k - 1 implies !entry_covers(
            #[trigger] es[j],
            c,
            v,
            h,
        ) by {}
        lemma_of_rank_no_cover(es, k - 1, c, v, h);
        lemma_ranks_below_cover(es, (k - 1) as nat, c, v, h, i);
    }
}

proof fn lemma_ranks_below_empty(es: Seq<SpeedEntry>, k: nat, c: int, v: int, h: int)
    requires
        forall|j: int| 0 <= j < es.len() ==> !entry_covers(#[trigger] es[j], c, v, h),
    ensures
        last_cover(ranks_below(es, k), c, v, h) == 0,
    decreases k,
{
    if k > 0 {
        lemma_last_cover_concat(ranks_below(es, (k - 1) as nat), of_rank(es, k - 1), c, v, h);
        lemma_of_rank_no_cover(es, k - 1, c, v, h);
        lemma_ranks_below_empty(es, (k - 1) as nat, c, v, h);
    }
}

/// More specific entries override less specific ones, whatever their order:
/// a cell holds the speed of the last of the most specific entries that cover
/// it (a named country beats `*`, and among equals a named profile beats `*`),
/// and 0 when no entry covers it.
pub proof fn lemma_most_specific_entry_wins(es: Seq<SpeedEntry>, c: int, v: int, h: int)
    ensures
        !has_cover(es, c, v, h) ==> last_cover(application_order(es), c, v, h) == 0,
        forall|i: int|
            0 <= i < es.len() && entry_covers(#[trigger] es[i], c, v, h) && (forall|j: int|
                0 <= j < es.len() && entry_covers(#[trigger] es[j], c, v, h) ==> entry_rank(es[j]) <= entry_rank(
                    es[i],
                )) && (forall|j: int|
                i < j < es.len() && entry_rank(es[j]) == entry_rank(es[i]) ==> !entry_covers(#[trigger] es[j], c, v, h))
                ==> last_cover(application_order(es), c, v, h) == es[i].kmh,
{
    if !has_cover(es, c, v, h) {
        lemma_ranks_below_empty(es, 4, c, v, h);
    }
    assert forall|i: int|
        0 <= i < es.len() && entry_covers(#[trigger] es[i], c, v, h) && (forall|j: int|
            0 <= j < es.len() && entry_covers(#[trigger] es[j], c, v, h) ==> entry_rank(es[j]) <= entry_rank(es[i]))
            && (forall|j: int|
            i < j < es.len() && entry_rank(es[j]) == entry_rank(es[i]) ==> !entry_covers(#[trigger] es[j], c, v, h))
        implies last_cover(application_order(es), c, v, h) == es[i].kmh by {
        lemma_ranks_below_cover(es, 4, c, v, h, i);
    }
}


/// A named country overrides the country wildcard whatever the profiles, and
/// between entries alike in naming a country or not, a named profile
/// overrides the profile wildcard: of two entries covering one cell, the one
/// that wins sets the cell, whichever comes first in the configuration.
pub proof fn lemma_named_country_beats_wildcard(named: SpeedEntry, wild: SpeedEntry, c: int, v: int, h: int)
    requires
        entry_covers(named, c, v, h),
        entry_covers(wild, c, v, h),
        named.country is Some && wild.country is None || (named.country is Some <==> wild.country is Some)
            && named.vehicle is Some && wild.vehicle is None,
    ensures
        entry_rank(named) > entry_rank(wild),
        last_cover(application_order(seq![named, wild]), c, v, h) == named.kmh,
        last_cover(application_order(seq![wild, named]), c, v, h) == named.kmh,
{
    let a = seq![named, wild];
    let b = seq![wild, named];
    assert(a[0] == named && a[1] == wild);
    assert(b[0] == wild && b[1] == named);
    lemma_most_specific_entry_wins(a, c, v, h);
    lemma_most_specific_entry_wins(b, c, v, h);
    assert(entry_covers(a[0], c, v, h));
    assert(entry_covers(b[1], c, v, h));
}

} // verus!
