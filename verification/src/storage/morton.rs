//! Z-order (Morton) curve keys: the bits of two coordinates interleaved, so
//! that nearby points have nearby keys.

use vstd::prelude::*;

verus! {

/// Default sort-chunk size: 16 M entries × 16 bytes ≈ 256 MB RAM per chunk.
pub const DEFAULT_CHUNK_SIZE: usize = 16777216;

/// Bit `i` of `v`.
pub open spec fn bit(v: u64, i: u64) -> bool {
    (v >> i) & 1 == 1
}

/// `key` interleaves `x` and `y`: bit `2i` of the key is bit `i` of `x`, and
/// bit `2i + 1` is bit `i` of `y`.
pub open spec fn interleaves(x: u32, y: u32, key: u64) -> bool {
    forall|i: u64|
        #![trigger bit(x as u64, i)]
        #![trigger bit(y as u64, i)]
        i < 32 ==> bit(key, (2 * i) as u64) == bit(x as u64, i) && bit(key, (2 * i + 1) as u64) == bit(y as u64, i)
}

/// The bits of a 32-bit value spread to the even positions of 64 bits.
pub open spec fn spread_spec(v: u64) -> u64 {
    let v1 = (v | (v << 16u64)) & 0x0000_ffff_0000_ffffu64;
    let v2 = (v1 | (v1 << 8u64)) & 0x00ff_00ff_00ff_00ffu64;
    let v3 = (v2 | (v2 << 4u64)) & 0x0f0f_0f0f_0f0f_0f0fu64;
    let v4 = (v3 | (v3 << 2u64)) & 0x3333_3333_3333_3333u64;
    (v4 | (v4 << 1u64)) & 0x5555_5555_5555_5555u64
}

/// The Morton key of `(x, y)`.
pub open spec fn encode_spec(x: u32, y: u32) -> u64 {
    spread_spec(x as u64) | (spread_spec(y as u64) << 1u64)
}

proof fn lemma_encode_bit(x: u64, y: u64, i: u64)
    requires
        x <= 0xffff_ffff,
        y <= 0xffff_ffff,
        i < 32,
    ensures
        ((spread_spec(x) | (spread_spec(y) << 1u64)) >> ((2 * i) as u64)) & 1 == (x >> i) & 1,
        ((spread_spec(x) | (spread_spec(y) << 1u64)) >> ((2 * i + 1) as u64)) & 1 == (y >> i) & 1,
{
    assert(((spread_spec(x) | (spread_spec(y) << 1u64)) >> ((2 * i) as u64)) & 1 == (x >> i) & 1) by (bit_vector)
        requires
            x <= 0xffff_ffff,
            i < 32,
    ;
    assert(((spread_spec(x) | (spread_spec(y) << 1u64)) >> ((2 * i + 1) as u64)) & 1 == (y >> i) & 1) by (bit_vector)
        requires
            y <= 0xffff_ffff,
            i < 32,
    ;
}

/// Every pair of coordinates has one Morton key, and it interleaves them.
pub proof fn lemma_encode_interleaves(x: u32, y: u32)
    ensures
        interleaves(x, y, encode_spec(x, y)),
{
    assert forall|i: u64| i < 32 implies bit(encode_spec(x, y), (2 * i) as u64) == #[trigger] bit(x as u64, i) && bit(
        encode_spec(x, y),
        (2 * i + 1) as u64,
    ) == bit(y as u64, i) by {
        lemma_encode_bit(x as u64, y as u64, i);
    }
}

fn spread(v: u64) -> (r: u64)
    ensures
        r == spread_spec(v),
{
    let mut v = v;
    v = (v | (v << 16u64)) & 0x0000_ffff_0000_ffffu64;
    v = (v | (v << 8u64)) & 0x00ff_00ff_00ff_00ffu64;
    v = (v | (v << 4u64)) & 0x0f0f_0f0f_0f0f_0f0fu64;
    v = (v | (v << 2u64)) & 0x3333_3333_3333_3333u64;
    v = (v | (v << 1u64)) & 0x5555_5555_5555_5555u64;
    v
}

/// The Morton key of `(x, y)`: their bits interleaved, `x` in the even
/// positions and `y` in the odd ones.
pub fn encode(x: u32, y: u32) -> (r: u64)
    ensures
        r == encode_spec(x, y),
        interleaves(x, y, r),
{
    proof {
        lemma_encode_interleaves(x, y);
    }
    spread(x as u64) | (spread(y as u64) << 1u64)
}

} // verus!
