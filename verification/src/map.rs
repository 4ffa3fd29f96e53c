use vstd::prelude::*;
use bevy::ecs::entity::Entity;
use crate::units::MAP_SIZE;

verus! {

/// What a tile of the map is made of.
#[derive(Copy, Clone, Debug, PartialEq, Eq, Structural)]
pub enum TileKind {
    Grass,
    WorldBorder,
}

/// Why a visual instance could not be attached to a tile.
#[derive(Copy, Clone, Debug, PartialEq, Eq, Structural)]
pub enum MapError {
    /// The coordinate lies outside the map.
    OutOfBounds,
    /// The tile already has a visual instance.
    Occupied,
}

/// Name of the texture that shows a tile of the given kind.
pub open spec fn texture_key(kind: TileKind) -> Seq<char> {
    match kind {
        TileKind::Grass => "grass.png"@,
        TileKind::WorldBorder => "world_border.png"@,
    }
}

impl TileKind {
    /// Name of the texture that shows a tile of this kind.
    pub fn get_texture(&self) -> (key: &'static str)
        ensures
            key@ == texture_key(*self),
    {
        match self {
            TileKind::Grass => "grass.png",
            TileKind::WorldBorder => "world_border.png",
        }
    }
}

/// Place of the cell `(x, y)` in the row-major arena of a map of `size` tiles.
pub open spec fn cell_index(size: int, x: int, y: int) -> int {
    y * size + x
}

/// Whether `(x, y)` lies on the outermost ring of a map of `size` tiles.
pub open spec fn is_border(size: int, x: int, y: int) -> bool {
    x == 0 || y == 0 || x == size - 1 || y == size - 1
}

/// Kind of the cell `(x, y)` on a fresh map of `size` tiles: the border ring
/// is impassable, the interior is grass.
pub open spec fn earth_kind(size: int, x: int, y: int) -> TileKind {
    if is_border(size, x, y) {
        TileKind::WorldBorder
    } else {
        TileKind::Grass
    }
}

/// The cells of the map are numbered row by row without gaps, and no two
/// cells share a number.
pub proof fn lemma_cell_index(size: int, x: int, y: int, x2: int, y2: int)
    requires
        0 <= x < size,
        0 <= y < size,
        0 <= x2 < size,
        0 <= y2 < size,
    ensures
        0 <= cell_index(size, x, y) < size * size,
        cell_index(size, x, y) == cell_index(size, x2, y2) ==> x == x2 && y == y2,
        y < y2 || (y == y2 && x < x2) <==> cell_index(size, x, y) < cell_index(size, x2, y2),
{
    assert(0 <= y * size <= (size - 1) * size && (size - 1) * size == size * size - size)
        by (nonlinear_arith)
        requires
            0 <= y < size,
    ;
    if y < y2 {
        assert(y * size + size <= y2 * size) by (nonlinear_arith)
            requires
                y + 1 <= y2,
                size > 0,
        ;
    } else if y2 < y {
        assert(y2 * size + size <= y * size) by (nonlinear_arith)
            requires
                y2 + 1 <= y,
                size > 0,
        ;
    }
}

/// Tiles of a planet: a square grid that holds the kind of each tile and,
/// while the tile is streamed in, the entity that shows it.
pub struct PlanetMap {
    size: usize,
    kinds: Vec<TileKind>,
    visuals: Vec<Option<Entity>>,
}

impl PlanetMap {
    /// Width and height of the map in tiles.
    pub closed spec fn spec_size(&self) -> usize {
        self.size
    }

    /// Whether `(x, y)` names a tile of the map.
    pub open spec fn in_bounds(&self, x: int, y: int) -> bool {
        0 <= x < self.spec_size() && 0 <= y < self.spec_size()
    }

    /// Kind of the tile `(x, y)`.
    pub closed spec fn kind_at(&self, x: int, y: int) -> TileKind {
        self.kinds@[cell_index(self.size as int, x, y)]
    }

    /// Entity that shows the tile `(x, y)`, if the tile is streamed in.
    pub closed spec fn visual_at(&self, x: int, y: int) -> Option<Entity> {
        self.visuals@[cell_index(self.size as int, x, y)]
    }

    /// The grid is square, holds at least one tile, and its border ring is
    /// impassable.
    pub closed spec fn wf(&self) -> bool {
        &&& self.size >= 1
        &&& self.size * self.size <= usize::MAX
        &&& self.kinds@.len() == self.size * self.size
        &&& self.visuals@.len() == self.size * self.size
        &&& forall|x: int, y: int|
            0 <= x < self.size && 0 <= y < self.size && is_border(self.size as int, x, y)
                ==> self.kinds@[#[trigger] cell_index(self.size as int, x, y)] == TileKind::WorldBorder
    }

    /// Whether `other` is this map with possibly other visual instances: the
    /// size and the kind of every tile agree.
    pub open spec fn same_ground(&self, other: &PlanetMap) -> bool {
        &&& self.spec_size() == other.spec_size()
        &&& forall|x: int, y: int|
            self.in_bounds(x, y) ==> #[trigger] self.kind_at(x, y) == other.kind_at(x, y)
    }

    /// The border ring of a well-formed map is impassable.
    pub proof fn lemma_border_kind(&self, x: int, y: int)
        requires
            self.wf(),
            self.in_bounds(x, y),
            is_border(self.spec_size() as int, x, y),
        ensures
            self.kind_at(x, y) == TileKind::WorldBorder,
    {
        assert(self.kinds@[cell_index(self.size as int, x, y)] == TileKind::WorldBorder);
    }

    /// A well-formed map holds at least one tile.
    pub proof fn lemma_size_positive(&self)
        requires
            self.wf(),
        ensures
            self.spec_size() >= 1,
            self.spec_size() * self.spec_size() <= usize::MAX,
    {
    }

    fn build(size: usize) -> (map: PlanetMap)
        requires
            size >= 1,
            size * size <= usize::MAX,
        ensures
            map.wf(),
            map.spec_size() == size,
            forall|x: int, y: int|
                map.in_bounds(x, y) ==> #[trigger] map.kind_at(x, y) == earth_kind(size as int, x, y),
            forall|x: int, y: int| map.in_bounds(x, y) ==> (#[trigger] map.visual_at(x, y)).is_none(),
    {
        let mut kinds: Vec<TileKind> = Vec::new();
        let mut visuals: Vec<Option<Entity>> = Vec::new();
        let mut y: usize = 0;
        while y < size
            invariant
                size >= 1,
                size * size <= usize::MAX,
                y <= size,
                kinds@.len() == y * size,
                visuals@.len() == y * size,
                forall|cx: int, cy: int|
                    0 <= cx < size && 0 <= cy < y ==> kinds@[#[trigger] cell_index(size as int, cx, cy)]
                        == earth_kind(size as int, cx, cy),
                forall|k: int| 0 <= k < visuals@.len() ==> visuals@[k].is_none(),
            decreases size - y,
        {
            let mut x: usize = 0;
            while x < size
                invariant
                    size >= 1,
                    size * size <= usize::MAX,
                    y < size,
                    x <= size,
                    kinds@.len() == y * size + x,
                    visuals@.len() == y * size + x,
                    forall|cx: int, cy: int|
                        0 <= cx < size && (0 <= cy < y || (cy == y && cx < x)) ==> kinds@[#[trigger] cell_index(
                            size as int,
                            cx,
                            cy,
                        )] == earth_kind(size as int, cx, cy),
                    forall|k: int| 0 <= k < visuals@.len() ==> visuals@[k].is_none(),
                decreases size - x,
            {
                let border = x == 0 || y == 0 || x == size - 1 || y == size - 1;
                let kind = if border { TileKind::WorldBorder } else { TileKind::Grass };
                proof {
                    assert forall|cx: int, cy: int|
                        0 <= cx < size && (0 <= cy < y || (cy == y && cx < x + 1)) implies kinds@.push(
                        kind,
                    )[#[trigger] cell_index(size as int, cx, cy)] == earth_kind(size as int, cx, cy) by {
                        lemma_cell_index(size as int, cx, cy, x as int, y as int);
                    }
                }
                kinds.push(kind);
                visuals.push(None);
                x = x + 1;
            }
            proof {
                assert((y + 1) * size == y * size + size) by (nonlinear_arith);
            }
            y = y + 1;
        }
        let map = PlanetMap { size, kinds, visuals };
        proof {
            assert forall|cx: int, cy: int| map.in_bounds(cx, cy) implies (#[trigger] map.visual_at(
                cx,
                cy,
            )).is_none() by {
                lemma_cell_index(size as int, cx, cy, cx, cy);
            }
            assert forall|cx: int, cy: int| map.in_bounds(cx, cy) implies #[trigger] map.kind_at(cx, cy)
                == earth_kind(size as int, cx, cy) by {
                assert(kinds@[cell_index(size as int, cx, cy)] == earth_kind(size as int, cx, cy));
            }
        }
        map
    }

    /// A fresh map of `size` by `size` tiles: grass ringed by the impassable
    /// border, nothing streamed in. There is no map without tiles, nor one
    /// whose cells cannot be counted.
    pub fn with_size(size: usize) -> (made: Option<PlanetMap>)
        ensures
            made.is_some() <==> size >= 1 && size * size <= usize::MAX,
            made matches Some(map) ==> {
                &&& map.wf()
                &&& map.spec_size() == size
                &&& forall|x: int, y: int|
                    map.in_bounds(x, y) ==> #[trigger] map.kind_at(x, y) == earth_kind(size as int, x, y)
                &&& forall|x: int, y: int| map.in_bounds(x, y) ==> (#[trigger] map.visual_at(x, y)).is_none()
            },
    {
        if size == 0 {
            return None;
        }
        match size.checked_mul(size) {
            Some(_) => Some(PlanetMap::build(size)),
            None => None,
        }
    }

    /// The map of the planet at its full size.
    pub fn new_earth() -> (map: PlanetMap)
        ensures
            map.wf(),
            map.spec_size() == MAP_SIZE,
            forall|x: int, y: int|
                map.in_bounds(x, y) ==> #[trigger] map.kind_at(x, y) == earth_kind(MAP_SIZE as int, x, y),
            forall|x: int, y: int| map.in_bounds(x, y) ==> (#[trigger] map.visual_at(x, y)).is_none(),
    {
        PlanetMap::build(MAP_SIZE)
    }

    /// Width and height of the map in tiles.
    #[verifier::when_used_as_spec(spec_size)]
    pub fn size(&self) -> (n: usize)
        ensures
            n == self.spec_size(),
    {
        self.size
    }

    fn index_of(&self, x: usize, y: usize) -> (i: usize)
        requires
            self.wf(),
            self.in_bounds(x as int, y as int),
        ensures
            i == cell_index(self.size as int, x as int, y as int),
            i < self.kinds@.len(),
            i < self.visuals@.len(),
    {
        proof {
            lemma_cell_index(self.size as int, x as int, y as int, x as int, y as int);
            assert(y * self.size <= (self.size - 1) * self.size) by (nonlinear_arith)
                requires
                    y <= self.size - 1,
                    self.size >= 1,
            ;
            assert((self.size - 1) * self.size == self.size * self.size - self.size) by (nonlinear_arith);
        }
        y * self.size + x
    }

    /// Kind of the tile `(x, y)`, or nothing outside the map.
    pub fn tile_kind(&self, x: usize, y: usize) -> (kind: Option<TileKind>)
        requires
            self.wf(),
        ensures
            kind == if self.in_bounds(x as int, y as int) {
                Some(self.kind_at(x as int, y as int))
            } else {
                None
            },
    {
        if x < self.size && y < self.size {
            let i = self.index_of(x, y);
            Some(self.kinds[i])
        } else {
            None
        }
    }

    /// Entity that shows the tile `(x, y)`; nothing while the tile is not
    /// streamed in, and nothing outside the map.
    pub fn tile_entity(&self, x: usize, y: usize) -> (ent: Option<Entity>)
        requires
            self.wf(),
        ensures
            ent == if self.in_bounds(x as int, y as int) {
                self.visual_at(x as int, y as int)
            } else {
                None
            },
    {
        if x < self.size && y < self.size {
            let i = self.index_of(x, y);
            self.visuals[i]
        } else {
            None
        }
    }

    /// Whether the tile `(x, y)` has a visual instance.
    pub fn tile_has_entity(&self, x: usize, y: usize) -> (has: bool)
        requires
            self.wf(),
        ensures
            has == (self.in_bounds(x as int, y as int) && self.visual_at(x as int, y as int).is_some()),
    {
        self.tile_entity(x, y).is_some()
    }

    /// Records `ent` as the visual instance of the tile `(x, y)`. A tile has
    /// at most one visual instance: attaching to a tile that has one fails
    /// and changes nothing, and so does attaching outside the map.
    pub fn put_tile_entity(&mut self, x: usize, y: usize, ent: Entity) -> (done: Result<(), MapError>)
        requires
            old(self).wf(),
        ensures
            final(self).wf(),
            old(self).same_ground(final(self)),
            done == if !old(self).in_bounds(x as int, y as int) {
                Err::<(), MapError>(MapError::OutOfBounds)
            } else if old(self).visual_at(x as int, y as int).is_some() {
                Err::<(), MapError>(MapError::Occupied)
            } else {
                Ok::<(), MapError>(())
            },
            forall|cx: int, cy: int|
                old(self).in_bounds(cx, cy) ==> #[trigger] final(self).visual_at(cx, cy) == if done.is_ok()
                    && cx == x && cy == y {
                    Some(ent)
                } else {
                    old(self).visual_at(cx, cy)
                },
    {
        if !(x < self.size && y < self.size) {
            return Err(MapError::OutOfBounds);
        }
        let i = self.index_of(x, y);
        if self.visuals[i].is_some() {
            return Err(MapError::Occupied);
        }
        self.visuals.set(i, Some(ent));
        proof {
            assert forall|cx: int, cy: int| old(self).in_bounds(cx, cy) implies #[trigger] self.visual_at(
                cx,
                cy,
            ) == if cx == x && cy == y {
                Some(ent)
            } else {
                old(self).visual_at(cx, cy)
            } by {
                lemma_cell_index(self.size as int, cx, cy, x as int, y as int);
            }
        }
        Ok(())
    }

    /// Forgets the visual instance of the tile `(x, y)`. Nothing happens
    /// where the tile has none, or outside the map.
    pub fn delete_tile_ent_at(&mut self, x: usize, y: usize)
        requires
            old(self).wf(),
        ensures
            final(self).wf(),
            old(self).same_ground(final(self)),
            forall|cx: int, cy: int|
                old(self).in_bounds(cx, cy) ==> #[trigger] final(self).visual_at(cx, cy) == if cx == x && cy
                    == y {
                    None
                } else {
                    old(self).visual_at(cx, cy)
                },
    {
        if x < self.size && y < self.size {
            let i = self.index_of(x, y);
            self.visuals.set(i, None);
            proof {
                assert forall|cx: int, cy: int| old(self).in_bounds(cx, cy) implies #[trigger] self.visual_at(
                    cx,
                    cy,
                ) == if cx == x && cy == y {
                    None
                } else {
                    old(self).visual_at(cx, cy)
                } by {
                    lemma_cell_index(self.size as int, cx, cy, x as int, y as int);
                }
            }
        }
    }
}

} // verus!
