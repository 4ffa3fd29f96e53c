use vstd::prelude::*;
use bevy::ecs::entity::Entity;
use crate::location::{PlanetLocation, absolute};
use crate::map::{PlanetMap, TileKind};
use crate::units::TILE_SPAN;

verus! {

/// Logical size of the on-screen viewport, in fine world units.
#[derive(Clone, Copy, Debug, PartialEq, Eq, Structural)]
pub struct Viewport {
    pub width: u64,
    pub height: u64,
}

/// The rectangle of the world that is on screen: as large as the viewport
/// and centered on the viewpoint.
#[derive(Clone, Copy, Debug, PartialEq, Eq)]
pub struct ViewWindow {
    pub anchor: PlanetLocation,
    pub viewport: Viewport,
}

/// A run of tile coordinates, both ends included on both axes.
#[derive(Clone, Copy, Debug, PartialEq, Eq, Structural)]
pub struct TileRange {
    pub x0: usize,
    pub x1: usize,
    pub y0: usize,
    pub y1: usize,
}

/// A tile whose visual instance went out of the window, and that instance.
#[derive(Clone, Copy, Debug, PartialEq, Eq)]
pub struct Unloaded {
    pub tile: (usize, usize),
    pub ent: Entity,
}

/// A tile that needs a visual instance, and what the instance shows.
#[derive(Clone, Copy, Debug, PartialEq, Eq)]
pub struct TileSpawn {
    pub tile: (usize, usize),
    pub kind: TileKind,
}

/// Lower edge of the tile with index `k` along one axis: a tile is centered
/// on its own coordinate.
pub open spec fn tile_low(k: int) -> int {
    k * TILE_SPAN - TILE_SPAN / 2
}

/// Upper edge of the tile with index `k` along one axis.
pub open spec fn tile_high(k: int) -> int {
    k * TILE_SPAN + TILE_SPAN / 2
}

/// Whether two intervals share more than a boundary point.
pub open spec fn overlaps(lo1: int, hi1: int, lo2: int, hi2: int) -> bool {
    lo1 < hi1 && lo2 < hi2 && lo1 < hi2 && lo2 < hi1
}

/// Whether the tile with index `k` meets, along one axis, the interval
/// `lo .. hi` grown by one tile at each end.
pub open spec fn meets_padded(lo: int, hi: int, k: int) -> bool {
    overlaps(lo - TILE_SPAN, hi + TILE_SPAN, tile_low(k), tile_high(k))
}

/// Whether `(x1, y1)` comes before `(x2, y2)` when tiles are read row by row.
pub open spec fn row_major_before(x1: int, y1: int, x2: int, y2: int) -> bool {
    y1 < y2 || (y1 == y2 && x1 < x2)
}

/// The window around the viewpoint `anchor`, where there is a viewport.
pub open spec fn window_around(anchor: PlanetLocation, viewport: Option<Viewport>) -> Option<ViewWindow> {
    match viewport {
        Some(size) => Some(ViewWindow { anchor, viewport: size }),
        None => None,
    }
}

impl ViewWindow {
    /// Least x of the window.
    pub open spec fn min_x(self) -> int {
        self.anchor.full_location().0 - self.viewport.width / 2
    }

    /// Greatest x of the window.
    pub open spec fn max_x(self) -> int {
        self.anchor.full_location().0 + self.viewport.width / 2
    }

    /// Least y of the window.
    pub open spec fn min_y(self) -> int {
        self.anchor.full_location().1 - self.viewport.height / 2
    }

    /// Greatest y of the window.
    pub open spec fn max_y(self) -> int {
        self.anchor.full_location().1 + self.viewport.height / 2
    }

    /// Whether the rectangle of the tile `(x, y)` meets the window.
    pub open spec fn touches(self, x: int, y: int) -> bool {
        &&& overlaps(self.min_x(), self.max_x(), tile_low(x), tile_high(x))
        &&& overlaps(self.min_y(), self.max_y(), tile_low(y), tile_high(y))
    }

    /// Whether the rectangle of the tile `(x, y)` meets the padded window:
    /// the window grown by one tile on every side. These are the tiles that
    /// streaming keeps loaded.
    pub open spec fn touches_padded(self, x: int, y: int) -> bool {
        &&& meets_padded(self.min_x(), self.max_x(), x)
        &&& meets_padded(self.min_y(), self.max_y(), y)
    }

    /// A tile that meets the window meets the padded window.
    pub proof fn lemma_touches_is_padded(self, x: int, y: int)
        requires
            self.touches(x, y),
        ensures
            self.touches_padded(x, y),
    {
    }

    /// The window around the viewpoint `anchor`. Without a viewport there is
    /// no window, and nothing to stream.
    pub fn around(anchor: &PlanetLocation, viewport: Option<Viewport>) -> (window: Option<ViewWindow>)
        ensures
            window == window_around(*anchor, viewport),
    {
        match viewport {
            Some(size) => Some(ViewWindow { anchor: *anchor, viewport: size }),
            None => None,
        }
    }

    /// The edges of the window: least x, greatest x, least y, greatest y.
    pub fn edges(&self) -> (e: (i128, i128, i128, i128))
        ensures
            e.0 == self.min_x(),
            e.1 == self.max_x(),
            e.2 == self.min_y(),
            e.3 == self.max_y(),
            -0x1_0000_0000_0000_0000_0000_0000 <= e.0 <= e.1 <= 0x1_0000_0000_0000_0000_0000_0000,
            -0x1_0000_0000_0000_0000_0000_0000 <= e.2 <= e.3 <= 0x1_0000_0000_0000_0000_0000_0000,
    {
        let cx = absolute(self.anchor.tile.0, self.anchor.subtile.x);
        let cy = absolute(self.anchor.tile.1, self.anchor.subtile.y);
        let half_w = (self.viewport.width / 2) as i128;
        let half_h = (self.viewport.height / 2) as i128;
        (cx - half_w, cx + half_w, cy - half_h, cy + half_h)
    }

    /// Whether the rectangle of the tile `tile` meets the window.
    pub fn tile_on_screen(&self, tile: (usize, usize)) -> (on: bool)
        ensures
            on == self.touches(tile.0 as int, tile.1 as int),
    {
        let (min_x, max_x, min_y, max_y) = self.edges();
        axis_on_screen(min_x, max_x, tile.0) && axis_on_screen(min_y, max_y, tile.1)
    }

    /// The tiles of a map of `map_size` tiles that streaming keeps loaded:
    /// those that meet the window grown by one tile on every side. Nothing
    /// where no tile of the map is among them.
    pub fn load_range(&self, map_size: usize) -> (range: Option<TileRange>)
        ensures
            range matches Some(r) ==> {
                &&& r.x0 <= r.x1 < map_size
                &&& r.y0 <= r.y1 < map_size
                &&& forall|x: int, y: int|
                    0 <= x < map_size && 0 <= y < map_size ==> (#[trigger] self.touches_padded(x, y) <==> r.x0
                        <= x <= r.x1 && r.y0 <= y <= r.y1)
            },
            range is None ==> forall|x: int, y: int|
                0 <= x < map_size && 0 <= y < map_size ==> !#[trigger] self.touches_padded(x, y),
    {
        let (min_x, max_x, min_y, max_y) = self.edges();
        let xs = axis_range(min_x, max_x, map_size);
        let ys = axis_range(min_y, max_y, map_size);
        match (xs, ys) {
            (Some((x0, x1)), Some((y0, y1))) => Some(TileRange { x0, x1, y0, y1 }),
            _ => None,
        }
    }
}

fn axis_on_screen(lo: i128, hi: i128, k: usize) -> (on: bool)
    requires
        -0x1_0000_0000_0000_0000_0000_0000 <= lo <= hi <= 0x1_0000_0000_0000_0000_0000_0000,
    ensures
        on == overlaps(lo as int, hi as int, tile_low(k as int), tile_high(k as int)),
{
    assert(k <= 0xffff_ffff_ffff_ffff);
    let center: i128 = k as i128 * 64_000_000;
    lo < hi && lo < center + 32_000_000 && center - 32_000_000 < hi
}

fn axis_range(lo: i128, hi: i128, map_size: usize) -> (range: Option<(usize, usize)>)
    requires
        -0x1_0000_0000_0000_0000_0000_0000 <= lo <= hi <= 0x1_0000_0000_0000_0000_0000_0000,
    ensures
        range matches Some(r) ==> {
            &&& r.0 <= r.1 < map_size
            &&& forall|k: int|
                0 <= k < map_size ==> (#[trigger] meets_padded(lo as int, hi as int, k) <==> r.0 <= k <= r.1)
        },
        range is None ==> forall|k: int| 0 <= k < map_size ==> !#[trigger] meets_padded(lo as int, hi as int, k),
{
    // a tile meets the padded interval where its center lies strictly
    // between these two
    let below: i128 = lo - 96_000_000;
    let above: i128 = hi + 96_000_000;
    if above <= 0 || map_size == 0 {
        return None;
    }
    let first: u128 = if below < 0 { 0 } else { below as u128 / 64_000_000 + 1 };
    let reach: u128 = (above as u128 - 1) / 64_000_000;
    let last: u128 = if reach >= map_size as u128 { (map_size - 1) as u128 } else { reach };
    if first > last {
        return None;
    }
    Some((first as usize, last as usize))
}

/// Whether `after` is `before` without the visual instance of every tile
/// that does not meet the window.
pub open spec fn unloaded_outside(before: &PlanetMap, after: &PlanetMap, window: ViewWindow) -> bool {
    &&& before.same_ground(after)
    &&& forall|x: int, y: int|
        before.in_bounds(x, y) ==> #[trigger] after.visual_at(x, y) == if window.touches(x, y) {
            before.visual_at(x, y)
        } else {
            None
        }
}

/// Whether `out` lists, row by row and once each, the tiles of `before`
/// that have a visual instance and do not meet the window, each with its
/// instance.
pub open spec fn lists_unloaded(before: &PlanetMap, window: ViewWindow, out: Seq<Unloaded>) -> bool {
    &&& forall|i: int|
        0 <= i < out.len() ==> {
            let u = #[trigger] out[i];
            &&& before.in_bounds(u.tile.0 as int, u.tile.1 as int)
            &&& !window.touches(u.tile.0 as int, u.tile.1 as int)
            &&& before.visual_at(u.tile.0 as int, u.tile.1 as int) == Some(u.ent)
        }
    &&& forall|i: int, j: int|
        0 <= i < j < out.len() ==> row_major_before(
            (#[trigger] out[i]).tile.0 as int,
            out[i].tile.1 as int,
            (#[trigger] out[j]).tile.0 as int,
            out[j].tile.1 as int,
        )
    &&& forall|x: int, y: int|
        before.in_bounds(x, y) && !window.touches(x, y) && (#[trigger] before.visual_at(x, y)).is_some()
            ==> exists|i: int| 0 <= i < out.len() && (#[trigger] out[i]).tile == (x as usize, y as usize)
}

/// Whether `spawns` lists, row by row and once each, the tiles of `map`
/// that streaming keeps loaded and that have no visual instance, each with
/// its kind.
pub open spec fn is_load_plan(map: &PlanetMap, window: ViewWindow, spawns: Seq<TileSpawn>) -> bool {
    &&& forall|i: int|
        0 <= i < spawns.len() ==> {
            let s = #[trigger] spawns[i];
            &&& map.in_bounds(s.tile.0 as int, s.tile.1 as int)
            &&& window.touches_padded(s.tile.0 as int, s.tile.1 as int)
            &&& map.visual_at(s.tile.0 as int, s.tile.1 as int).is_none()
            &&& s.kind == map.kind_at(s.tile.0 as int, s.tile.1 as int)
        }
    &&& forall|i: int, j: int|
        0 <= i < j < spawns.len() ==> row_major_before(
            (#[trigger] spawns[i]).tile.0 as int,
            spawns[i].tile.1 as int,
            (#[trigger] spawns[j]).tile.0 as int,
            spawns[j].tile.1 as int,
        )
    &&& forall|x: int, y: int|
        map.in_bounds(x, y) && window.touches_padded(x, y) && (#[trigger] map.visual_at(x, y)).is_none()
            ==> exists|i: int| 0 <= i < spawns.len() && (#[trigger] spawns[i]).tile == (x as usize, y as usize)
}

/// Whether the tiles of `spawns` lie on the map, have no visual instance
/// and differ from each other.
pub open spec fn fresh_tiles(map: &PlanetMap, spawns: Seq<TileSpawn>) -> bool {
    &&& forall|i: int|
        0 <= i < spawns.len() ==> {
            let s = #[trigger] spawns[i];
            &&& map.in_bounds(s.tile.0 as int, s.tile.1 as int)
            &&& map.visual_at(s.tile.0 as int, s.tile.1 as int).is_none()
        }
    &&& forall|i: int, j: int|
        0 <= i < j < spawns.len() ==> (#[trigger] spawns[i]).tile != (#[trigger] spawns[j]).tile
}

/// Whether `after` is `before` with `ids[i]` attached to the tile of
/// `spawns[i]` for each of the first `count` spawns, and nothing else
/// changed.
pub open spec fn attached_first(
    before: &PlanetMap,
    after: &PlanetMap,
    spawns: Seq<TileSpawn>,
    ids: Seq<Entity>,
    count: int,
) -> bool {
    &&& before.same_ground(after)
    &&& 0 <= count <= spawns.len()
    &&& count <= ids.len()
    &&& forall|i: int|
        0 <= i < count ==> {
            let s = #[trigger] spawns[i];
            &&& before.in_bounds(s.tile.0 as int, s.tile.1 as int)
            &&& before.visual_at(s.tile.0 as int, s.tile.1 as int).is_none()
            &&& after.visual_at(s.tile.0 as int, s.tile.1 as int) == Some(ids[i])
        }
    &&& forall|x: int, y: int|
        before.in_bounds(x, y) && (forall|i: int|
            0 <= i < count ==> (#[trigger] spawns[i]).tile != (x as usize, y as usize)) ==> #[trigger] after.visual_at(
            x,
            y,
        ) == before.visual_at(x, y)
}

/// A load plan names every tile once.
pub proof fn lemma_load_plan_is_fresh(map: &PlanetMap, window: ViewWindow, spawns: Seq<TileSpawn>)
    requires
        is_load_plan(map, window, spawns),
    ensures
        fresh_tiles(map, spawns),
{
}

/// One streaming phase, unload before load: once the tiles out of the
/// window are unloaded and every tile of the load plan has its new visual
/// instance, the loaded tiles of the map are exactly those that meet the
/// padded window. A tile that meets the window itself keeps the visual
/// instance it had.
pub proof fn lemma_streaming_phase(
    before: &PlanetMap,
    cleared: &PlanetMap,
    after: &PlanetMap,
    window: ViewWindow,
    spawns: Seq<TileSpawn>,
    ids: Seq<Entity>,
    x: int,
    y: int,
)
    requires
        unloaded_outside(before, cleared, window),
        is_load_plan(cleared, window, spawns),
        attached_first(cleared, after, spawns, ids, spawns.len() as int),
        before.in_bounds(x, y),
    ensures
        after.visual_at(x, y).is_some() <==> window.touches_padded(x, y),
        window.touches(x, y) && before.visual_at(x, y).is_some() ==> after.visual_at(x, y)
            == before.visual_at(x, y),
{
    assert(cleared.in_bounds(x, y));
    let held = cleared.visual_at(x, y);
    if exists|i: int| 0 <= i < spawns.len() && (#[trigger] spawns[i]).tile == (x as usize, y as usize) {
        let i = choose|i: int| 0 <= i < spawns.len() && (#[trigger] spawns[i]).tile == (x as usize, y as usize);
        assert(after.visual_at(spawns[i].tile.0 as int, spawns[i].tile.1 as int) == Some(ids[i]));
    } else {
        assert(after.visual_at(x, y) == held);
    }
}

/// Unloads every tile that is out of the window: forgets its visual
/// instance and hands it back for destruction, row by row.
pub fn unload_offscreen(map: &mut PlanetMap, window: &ViewWindow) -> (gone: Vec<Unloaded>)
    requires
        old(map).wf(),
    ensures
        final(map).wf(),
        unloaded_outside(old(map), final(map), *window),
        lists_unloaded(old(map), *window, gone@),
{
    let size = map.size();
    let mut gone: Vec<Unloaded> = Vec::new();
    let mut x: usize = 0;
    let mut y: usize = 0;
    proof {
        map.lemma_size_positive();
    }
    while y < size
        invariant
            map.wf(),
            size == map.spec_size(),
            size >= 1,
            x < size,
            y <= size,
            old(map).same_ground(map),
            forall|cx: int, cy: int|
                old(map).in_bounds(cx, cy) ==> #[trigger] map.visual_at(cx, cy) == if row_major_before(
                    cx,
                    cy,
                    x as int,
                    y as int,
                ) && !window.touches(cx, cy) {
                    None
                } else {
                    old(map).visual_at(cx, cy)
                },
            forall|i: int|
                0 <= i < gone@.len() ==> {
                    let u = #[trigger] gone@[i];
                    &&& old(map).in_bounds(u.tile.0 as int, u.tile.1 as int)
                    &&& row_major_before(u.tile.0 as int, u.tile.1 as int, x as int, y as int)
                    &&& !window.touches(u.tile.0 as int, u.tile.1 as int)
                    &&& old(map).visual_at(u.tile.0 as int, u.tile.1 as int) == Some(u.ent)
                },
            forall|i: int, j: int|
                0 <= i < j < gone@.len() ==> row_major_before(
                    (#[trigger] gone@[i]).tile.0 as int,
                    gone@[i].tile.1 as int,
                    (#[trigger] gone@[j]).tile.0 as int,
                    gone@[j].tile.1 as int,
                ),
            forall|cx: int, cy: int|
                old(map).in_bounds(cx, cy) && row_major_before(cx, cy, x as int, y as int) && !window.touches(
                    cx,
                    cy,
                ) && (#[trigger] old(map).visual_at(cx, cy)).is_some() ==> exists|i: int|
                    0 <= i < gone@.len() && (#[trigger] gone@[i]).tile == (cx as usize, cy as usize),
        decreases size - y, size - x,
    {
        let ghost listed = gone@;
        let ghost scanned = *map;
        let mut found: Option<Entity> = None;
        if !window.tile_on_screen((x, y)) {
            found = map.tile_entity(x, y);
        }
        if let Some(ent) = found {
            map.delete_tile_ent_at(x, y);
            gone.push(Unloaded { tile: (x, y), ent });
        }
        let ghost px = x;
        let ghost py = y;
        if x + 1 == size {
            x = 0;
            y = y + 1;
        } else {
            x = x + 1;
        }
        proof {
            assert forall|cx: int, cy: int|
                old(map).in_bounds(cx, cy) && row_major_before(cx, cy, x as int, y as int) && !window.touches(
                    cx,
                    cy,
                ) && (#[trigger] old(map).visual_at(cx, cy)).is_some() implies exists|i: int|
                0 <= i < gone@.len() && (#[trigger] gone@[i]).tile == (cx as usize, cy as usize) by {
                if cx == px && cy == py {
                    assert(scanned.visual_at(cx, cy) == old(map).visual_at(cx, cy));
                    assert(gone@[listed.len() as int].tile == (cx as usize, cy as usize));
                } else {
                    assert(row_major_before(cx, cy, px as int, py as int));
                    let i = choose|i: int|
                        0 <= i < listed.len() && (#[trigger] listed[i]).tile == (cx as usize, cy as usize);
                    assert(gone@[i] == listed[i]);
                }
            }
            assert forall|cx: int, cy: int| old(map).in_bounds(cx, cy) implies #[trigger] map.visual_at(
                cx,
                cy,
            ) == if row_major_before(cx, cy, x as int, y as int) && !window.touches(cx, cy) {
                None
            } else {
                old(map).visual_at(cx, cy)
            } by {
                assert(scanned.visual_at(cx, cy) == if row_major_before(cx, cy, px as int, py as int)
                    && !window.touches(cx, cy) {
                    None
                } else {
                    old(map).visual_at(cx, cy)
                });
            }
            assert forall|cx: int, cy: int| old(map).in_bounds(cx, cy) implies #[trigger] old(map).kind_at(
                cx,
                cy,
            ) == map.kind_at(cx, cy) by {
                assert(old(map).kind_at(cx, cy) == scanned.kind_at(cx, cy));
            }
        }
    }
    gone
}

/// The tiles that need a visual instance: those that streaming keeps loaded
/// around the window, lie on the map and have none, row by row.
pub fn tiles_to_load(map: &PlanetMap, window: &ViewWindow) -> (spawns: Vec<TileSpawn>)
    requires
        map.wf(),
    ensures
        is_load_plan(map, *window, spawns@),
{
    let mut spawns: Vec<TileSpawn> = Vec::new();
    let range = match window.load_range(map.size()) {
        Some(range) => range,
        None => {
            return spawns;
        },
    };
    let mut x: usize = range.x0;
    let mut y: usize = range.y0;
    while y <= range.y1
        invariant
            map.wf(),
            range.x0 <= range.x1 < map.spec_size(),
            range.y0 <= range.y1 < map.spec_size(),
            range.x0 <= x <= range.x1,
            range.y0 <= y <= range.y1 + 1,
            forall|cx: int, cy: int|
                0 <= cx < map.spec_size() && 0 <= cy < map.spec_size() ==> (#[trigger] window.touches_padded(
                    cx,
                    cy,
                ) <==> range.x0 <= cx <= range.x1 && range.y0 <= cy <= range.y1),
            forall|i: int|
                0 <= i < spawns@.len() ==> {
                    let s = #[trigger] spawns@[i];
                    &&& map.in_bounds(s.tile.0 as int, s.tile.1 as int)
                    &&& window.touches_padded(s.tile.0 as int, s.tile.1 as int)
                    &&& row_major_before(s.tile.0 as int, s.tile.1 as int, x as int, y as int)
                    &&& map.visual_at(s.tile.0 as int, s.tile.1 as int).is_none()
                    &&& s.kind == map.kind_at(s.tile.0 as int, s.tile.1 as int)
                },
            forall|i: int, j: int|
                0 <= i < j < spawns@.len() ==> row_major_before(
                    (#[trigger] spawns@[i]).tile.0 as int,
                    spawns@[i].tile.1 as int,
                    (#[trigger] spawns@[j]).tile.0 as int,
                    spawns@[j].tile.1 as int,
                ),
            forall|cx: int, cy: int|
                map.in_bounds(cx, cy) && window.touches_padded(cx, cy) && row_major_before(
                    cx,
                    cy,
                    x as int,
                    y as int,
                ) && (#[trigger] map.visual_at(cx, cy)).is_none() ==> exists|i: int|
                    0 <= i < spawns@.len() && (#[trigger] spawns@[i]).tile == (cx as usize, cy as usize),
        decreases range.y1 + 1 - y, range.x1 - x,
    {
        let ghost listed = spawns@;
        assert(window.touches_padded(x as int, y as int));
        if !map.tile_has_entity(x, y) {
            match map.tile_kind(x, y) {
                Some(kind) => {
                    spawns.push(TileSpawn { tile: (x, y), kind });
                },
                None => {},
            }
        }
        let ghost px = x;
        let ghost py = y;
        if x == range.x1 {
            x = range.x0;
            y = y + 1;
        } else {
            x = x + 1;
        }
        proof {
            assert forall|cx: int, cy: int|
                map.in_bounds(cx, cy) && window.touches_padded(cx, cy) && row_major_before(
                    cx,
                    cy,
                    x as int,
                    y as int,
                ) && (#[trigger] map.visual_at(cx, cy)).is_none() implies exists|i: int|
                0 <= i < spawns@.len() && (#[trigger] spawns@[i]).tile == (cx as usize, cy as usize) by {
                if cx == px && cy == py {
                    assert(spawns@[listed.len() as int].tile == (cx as usize, cy as usize));
                } else {
                    assert(row_major_before(cx, cy, px as int, py as int));
                    let i = choose|i: int|
                        0 <= i < listed.len() && (#[trigger] listed[i]).tile == (cx as usize, cy as usize);
                    assert(spawns@[i] == listed[i]);
                }
            }
        }
    }
    spawns
}

/// Records the visual instances that were created for a load plan:
/// `ids[i]` for the tile of `spawns[i]`, in order, until either list ends
/// or a tile refuses its instance. Returns how many were attached.
pub fn attach_spawned(map: &mut PlanetMap, spawns: &Vec<TileSpawn>, ids: &Vec<Entity>) -> (attached: usize)
    requires
        old(map).wf(),
    ensures
        final(map).wf(),
        attached_first(old(map), final(map), spawns@, ids@, attached as int),
        fresh_tiles(old(map), spawns@) ==> attached == if spawns@.len() <= ids@.len() {
            spawns@.len()
        } else {
            ids@.len()
        },
        attached < spawns@.len() && attached < ids@.len() ==> {
            let refused = spawns@[attached as int].tile;
            ||| !final(map).in_bounds(refused.0 as int, refused.1 as int)
            ||| final(map).visual_at(refused.0 as int, refused.1 as int).is_some()
        },
{
    let mut i: usize = 0;
    while i < spawns.len() && i < ids.len()
        invariant
            map.wf(),
            i <= spawns@.len(),
            i <= ids@.len(),
            attached_first(old(map), map, spawns@, ids@, i as int),
        ensures
            attached_first(old(map), map, spawns@, ids@, i as int),
            map.wf(),
            fresh_tiles(old(map), spawns@) ==> i == spawns@.len() || i == ids@.len(),
            i < spawns@.len() && i < ids@.len() ==> {
                let refused = spawns@[i as int].tile;
                ||| !map.in_bounds(refused.0 as int, refused.1 as int)
                ||| map.visual_at(refused.0 as int, refused.1 as int).is_some()
            },
        decreases spawns@.len() - i,
    {
        let spawn = spawns[i];
        let ghost reached = *map;
        let done = map.put_tile_entity(spawn.tile.0, spawn.tile.1, ids[i]);
        proof {
            if reached.in_bounds(spawn.tile.0 as int, spawn.tile.1 as int) {
                if forall|k: int| 0 <= k < i ==> (#[trigger] spawns@[k]).tile != spawn.tile {
                    assert(reached.visual_at(spawn.tile.0 as int, spawn.tile.1 as int) == old(map).visual_at(
                        spawn.tile.0 as int,
                        spawn.tile.1 as int,
                    ));
                }
            }
        }
        if done.is_err() {
            proof {
                assert forall|cx: int, cy: int| old(map).in_bounds(cx, cy) implies #[trigger] map.visual_at(
                    cx,
                    cy,
                ) == reached.visual_at(cx, cy) by {}
                assert forall|cx: int, cy: int| old(map).in_bounds(cx, cy) implies #[trigger] old(
                    map,
                ).kind_at(cx, cy) == map.kind_at(cx, cy) by {
                    assert(old(map).kind_at(cx, cy) == reached.kind_at(cx, cy));
                }
                if fresh_tiles(old(map), spawns@) {
                    assert(spawns@[i as int].tile == spawn.tile);
                    assert(false);
                }
            }
            break ;
        }
        proof {
            assert forall|cx: int, cy: int| old(map).in_bounds(cx, cy) implies #[trigger] old(map).kind_at(
                cx,
                cy,
            ) == map.kind_at(cx, cy) by {
                assert(old(map).kind_at(cx, cy) == reached.kind_at(cx, cy));
            }
            assert forall|k: int| 0 <= k < i + 1 implies {
                let s = #[trigger] spawns@[k];
                &&& old(map).in_bounds(s.tile.0 as int, s.tile.1 as int)
                &&& old(map).visual_at(s.tile.0 as int, s.tile.1 as int).is_none()
                &&& map.visual_at(s.tile.0 as int, s.tile.1 as int) == Some(ids@[k])
            } by {
                let s = spawns@[k];
                if k < i {
                    assert(reached.visual_at(s.tile.0 as int, s.tile.1 as int) == Some(ids@[k]));
                    assert(s.tile != spawn.tile);
                } else {
                    if exists|m: int| 0 <= m < i && (#[trigger] spawns@[m]).tile == spawn.tile {
                        let m = choose|m: int| 0 <= m < i && (#[trigger] spawns@[m]).tile == spawn.tile;
                        assert(reached.visual_at(spawns@[m].tile.0 as int, spawns@[m].tile.1 as int) == Some(
                            ids@[m],
                        ));
                        assert(false);
                    }
                }
            }
            assert forall|cx: int, cy: int|
                old(map).in_bounds(cx, cy) && (forall|k: int|
                    0 <= k < i + 1 ==> (#[trigger] spawns@[k]).tile != (
                        cx as usize,
                        cy as usize,
                    )) implies #[trigger] map.visual_at(cx, cy) == old(map).visual_at(cx, cy) by {
                assert(spawns@[i as int].tile != (cx as usize, cy as usize));
                assert(forall|k: int| 0 <= k < i ==> (#[trigger] spawns@[k]).tile != (cx as usize, cy as usize));
                assert(reached.visual_at(cx, cy) == old(map).visual_at(cx, cy));
            }
        }
        i = i + 1;
    }
    i
}

} // verus!
