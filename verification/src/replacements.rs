use vstd::prelude::*;

verus! {

pub open spec fn spec_shuf(x: u8, y: u8, z: u8, w: u8) -> u8 {
    x | ((y << 2u8) as u8) | ((z << 4u8) as u8) | ((w << 6u8) as u8)
}

/// With every selector below 4, each two-bit field of the immediate holds
/// its selector: lane `k` of the output reads field `k`.
pub proof fn lemma_shuf_fields(x: u8, y: u8, z: u8, w: u8)
    requires
        x < 4,
        y < 4,
        z < 4,
        w < 4,
    ensures
        spec_shuf(x, y, z, w) & 3 == x,
        (spec_shuf(x, y, z, w) >> 2u8) & 3 == y,
        (spec_shuf(x, y, z, w) >> 4u8) & 3 == z,
        (spec_shuf(x, y, z, w) >> 6u8) & 3 == w,
{
    assert(x < 4 && y < 4 && z < 4 && w < 4 ==> {
        let r = x | ((y << 2u8) as u8) | ((z << 4u8) as u8) | ((w << 6u8) as u8);
        &&& r & 3 == x
        &&& (r >> 2u8) & 3 == y
        &&& (r >> 4u8) & 3 == z
        &&& (r >> 6u8) & 3 == w
    }) by (bit_vector);
}

/// The immediate operand of an SSE `shufps`/`pshufd` instruction that picks
/// lane `x` for the first output lane, `y` for the second, and so on.
///
/// Each selector occupies two bits; a selector of 4 or more spills into the
/// neighbouring field (the operation is a plain bitwise OR of the shifted values).
pub fn shuf(x: u8, y: u8, z: u8, w: u8) -> (r: u8)
    ensures
        r == spec_shuf(x, y, z, w),
        x < 4 && y < 4 && z < 4 && w < 4 ==> r == x + 4 * y + 16 * z + 64 * w,
{
    let r = x | (y << 2) | (z << 4) | (w << 6);
    assert(x < 4 && y < 4 && z < 4 && w < 4 ==> (x | ((y << 2u8) as u8) | ((z << 4u8) as u8) | ((w << 6u8) as u8)) == x + 4 * y + 16 * z + 64 * w) by (bit_vector);
    r
}

} // verus!

pub mod things;
pub mod values;
pub mod cacophony;
pub mod dash;
pub mod movement;
pub mod camera;
