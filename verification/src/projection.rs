use vstd::prelude::*;
use crate::location::{PlanetLocation, WorldPoint, absolute};
use crate::units::TILE_SPAN;

verus! {

/// Where `loc` lies as seen from `anchor`: the difference of the two
/// absolute positions.
pub open spec fn offset_between(loc: PlanetLocation, anchor: PlanetLocation) -> (int, int) {
    (
        loc.full_location().0 - anchor.full_location().0,
        loc.full_location().1 - anchor.full_location().1,
    )
}

/// Where the center of the tile `(x, y)` lies as seen from `anchor`.
pub open spec fn tile_offset(x: int, y: int, anchor: PlanetLocation) -> (int, int) {
    (x * TILE_SPAN - anchor.full_location().0, y * TILE_SPAN - anchor.full_location().1)
}

/// The viewpoint sees itself at the origin.
pub proof fn lemma_anchor_at_origin(anchor: PlanetLocation)
    ensures
        offset_between(anchor, anchor) == (0int, 0int),
{
}

/// Offsets are taken from one origin: the offset from `a` to `c` is the sum
/// of those from `a` to `b` and from `b` to `c`.
pub proof fn lemma_offsets_add(a: PlanetLocation, b: PlanetLocation, c: PlanetLocation)
    ensures
        offset_between(c, a).0 == offset_between(b, a).0 + offset_between(c, b).0,
        offset_between(c, a).1 == offset_between(b, a).1 + offset_between(c, b).1,
{
}

/// Screen-relative position of something at `loc` while the viewpoint is at
/// `anchor`.
pub fn render_offset(loc: &PlanetLocation, anchor: &PlanetLocation) -> (p: WorldPoint)
    ensures
        (p.x as int, p.y as int) == offset_between(*loc, *anchor),
{
    let here = loc.to_full_location();
    let origin = anchor.to_full_location();
    assert(loc.tile.0 <= 0xffff_ffff_ffff_ffff && loc.tile.1 <= 0xffff_ffff_ffff_ffff);
    assert(anchor.tile.0 <= 0xffff_ffff_ffff_ffff && anchor.tile.1 <= 0xffff_ffff_ffff_ffff);
    WorldPoint { x: here.x - origin.x, y: here.y - origin.y }
}

/// Screen-relative position of the tile `tile` while the viewpoint is at
/// `anchor`.
pub fn get_transform_for_tile(tile: (usize, usize), anchor: &PlanetLocation) -> (p: WorldPoint)
    ensures
        (p.x as int, p.y as int) == tile_offset(tile.0 as int, tile.1 as int, *anchor),
{
    let origin = anchor.to_full_location();
    assert(tile.0 <= 0xffff_ffff_ffff_ffff && tile.1 <= 0xffff_ffff_ffff_ffff);
    assert(anchor.tile.0 <= 0xffff_ffff_ffff_ffff && anchor.tile.1 <= 0xffff_ffff_ffff_ffff);
    let tx: i128 = absolute(tile.0, 0);
    let ty: i128 = absolute(tile.1, 0);
    WorldPoint { x: tx - origin.x, y: ty - origin.y }
}

} // verus!
