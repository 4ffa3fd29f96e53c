use vstd::prelude::*;

verus! {

/// Number of subtile units in one tile; also the number of fine world units
/// in one world unit.
pub const SUBTILE_UNITS: i64 = 1_000_000;

/// Width and height of a map tile, in world units.
pub const TILE_SIZE: i64 = 64;

/// Width and height of a map tile, in fine world units.
pub const TILE_SPAN: i64 = 64_000_000;

/// Width and height of the planet's map, in tiles.
pub const MAP_SIZE: usize = 100;

/// Number of microseconds in one second.
pub const MICROS_PER_SECOND: u64 = 1_000_000;

/// Quotient of `a` by `b` rounded toward zero.
pub open spec fn trunc_div(a: int, b: int) -> int
    recommends
        b > 0,
{
    if a >= 0 {
        a / b
    } else {
        -((-a) / b)
    }
}

} // verus!
