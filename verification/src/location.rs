use vstd::prelude::*;
use crate::units::{trunc_div, MICROS_PER_SECOND, SUBTILE_UNITS, TILE_SIZE};

verus! {

/// Offset inside a tile, in subtile units, one component per axis.
#[derive(Clone, Copy, Debug, PartialEq, Eq, Structural)]
pub struct Subtile {
    pub x: i64,
    pub y: i64,
}

/// Speed along each axis, in subtile units per second.
#[derive(Clone, Copy, Debug, PartialEq, Eq, Structural)]
pub struct Velocity {
    pub x: i64,
    pub y: i64,
}

/// A point or a difference of points of the world, in fine world units.
#[derive(Clone, Copy, Debug, PartialEq, Eq, Structural)]
pub struct WorldPoint {
    pub x: i128,
    pub y: i128,
}

/// A location of something, within a tile of a planet.
#[derive(Clone, Copy, Debug, PartialEq, Eq)]
pub struct PlanetLocation {
    pub tile: (usize, usize),
    pub subtile: Subtile,
}

/// No step of an entity is longer than this many subtile units, whatever
/// its speed and the time it moves for.
pub const MAX_STEP: i128 = 0x8000_0000_0000_0000_0000_0000_0000;

/// Distance covered in `dt_micros` microseconds at `speed` subtile units per
/// second, rounded toward zero.
pub open spec fn displacement(speed: int, dt_micros: int) -> int {
    trunc_div(speed * dt_micros, MICROS_PER_SECOND as int)
}

/// Where an axis stands in subtile units, counted from tile 0, once the
/// offset `sub` on the tile `tile` has moved by `delta`.
pub open spec fn advanced_axis(tile: int, sub: int, delta: int) -> int {
    tile * SUBTILE_UNITS + sub + delta
}

/// Tile index and subtile offset of one axis after the raw offset `sub` on
/// the tile `tile` has moved by `delta` on a map of `size` tiles. The axis
/// stops at the start of tile 0 and at the start of the last tile. Between
/// the two it keeps its place: the whole tiles of the place are the tile
/// index, rounded down, and what is left over is the offset.
pub open spec fn normalized_axis(tile: int, sub: int, delta: int, size: int) -> (int, int) {
    let place = advanced_axis(tile, sub, delta);
    if place <= 0 {
        (0, 0)
    } else if place >= (size - 1) * SUBTILE_UNITS {
        (size - 1, 0)
    } else {
        (place / (SUBTILE_UNITS as int), place % (SUBTILE_UNITS as int))
    }
}

/// What holds of one axis after every normalization: the tile index lies on
/// the map, the offset lies inside the tile, it is 0 at the last tile, and
/// the axis stands where it moved to, or at the border that it ran into.
pub proof fn lemma_normalized_axis_bounds(tile: int, sub: int, delta: int, size: int)
    requires
        size >= 1,
    ensures
        0 <= normalized_axis(tile, sub, delta, size).0 < size,
        0 <= normalized_axis(tile, sub, delta, size).1 < SUBTILE_UNITS,
        normalized_axis(tile, sub, delta, size).0 == size - 1 ==> normalized_axis(tile, sub, delta, size).1
            == 0,
        advanced_axis(
            normalized_axis(tile, sub, delta, size).0,
            normalized_axis(tile, sub, delta, size).1,
            0,
        ) == if advanced_axis(tile, sub, delta) <= 0 {
            0
        } else if advanced_axis(tile, sub, delta) >= (size - 1) * SUBTILE_UNITS {
            (size - 1) * SUBTILE_UNITS
        } else {
            advanced_axis(tile, sub, delta)
        },
{
}

/// An axis at rest stays where it is: normalizing the result of a
/// normalization without any movement gives that result again.
pub proof fn lemma_normalized_axis_idempotent(tile: int, sub: int, delta: int, size: int)
    requires
        size >= 1,
    ensures
        normalized_axis(
            normalized_axis(tile, sub, delta, size).0,
            normalized_axis(tile, sub, delta, size).1,
            0,
            size,
        ) == normalized_axis(tile, sub, delta, size),
{
    lemma_normalized_axis_bounds(tile, sub, delta, size);
}

/// Position along one axis in fine world units.
pub open spec fn axis_position(tile: int, sub: int) -> int {
    (tile * SUBTILE_UNITS + sub) * TILE_SIZE
}

impl Velocity {
    /// No movement.
    pub fn zero() -> (v: Velocity)
        ensures
            v == (Velocity { x: 0, y: 0 }),
    {
        Velocity { x: 0, y: 0 }
    }
}

impl PlanetLocation {
    /// The location after moving for `dt_micros` at `velocity` on a map of
    /// `size` tiles, each axis by itself.
    pub open spec fn normalized(self, velocity: Velocity, dt_micros: int, size: int) -> (int, int, int, int) {
        let x = normalized_axis(self.tile.0 as int, self.subtile.x as int,
            displacement(velocity.x as int, dt_micros), size);
        let y = normalized_axis(self.tile.1 as int, self.subtile.y as int,
            displacement(velocity.y as int, dt_micros), size);
        (x.0, x.1, y.0, y.1)
    }

    /// The location after moving for `dt_micros` at `velocity` on a map of
    /// `size` tiles.
    pub open spec fn moved(self, velocity: Velocity, dt_micros: int, size: int) -> PlanetLocation {
        let n = self.normalized(velocity, dt_micros, size);
        PlanetLocation { tile: (n.0 as usize, n.2 as usize), subtile: Subtile { x: n.1 as i64, y: n.3 as i64 } }
    }

    /// Whether this location holds the four numbers `tile x, subtile x,
    /// tile y, subtile y`.
    pub open spec fn holds(self, v: (int, int, int, int)) -> bool {
        &&& self.tile.0 == v.0
        &&& self.subtile.x == v.1
        &&& self.tile.1 == v.2
        &&& self.subtile.y == v.3
    }

    /// Whether the location lies on a map of `size` tiles with both offsets
    /// inside the tile, and at offset 0 on each axis that stands at the far
    /// border.
    pub open spec fn in_map(self, size: int) -> bool {
        &&& 0 <= self.tile.0 < size
        &&& 0 <= self.tile.1 < size
        &&& 0 <= self.subtile.x < SUBTILE_UNITS
        &&& 0 <= self.subtile.y < SUBTILE_UNITS
        &&& self.tile.0 == size - 1 ==> self.subtile.x == 0
        &&& self.tile.1 == size - 1 ==> self.subtile.y == 0
    }

    /// After normalization, whatever the location, the velocity and the
    /// time were, the tile lies on the map and each offset inside its tile,
    /// at 0 where the axis stands at the far border.
    pub proof fn lemma_normalized_in_map(self, velocity: Velocity, dt_micros: int, size: int)
        requires
            1 <= size <= usize::MAX,
        ensures
            self.moved(velocity, dt_micros, size).holds(self.normalized(velocity, dt_micros, size)),
            self.moved(velocity, dt_micros, size).in_map(size),
    {
        lemma_normalized_axis_bounds(self.tile.0 as int, self.subtile.x as int,
            displacement(velocity.x as int, dt_micros), size);
        lemma_normalized_axis_bounds(self.tile.1 as int, self.subtile.y as int,
            displacement(velocity.y as int, dt_micros), size);
    }

    /// Normalizing a normalized location with zero velocity gives the same
    /// location, whatever the time step.
    pub proof fn lemma_normalize_idempotent(
        self,
        velocity: Velocity,
        dt_micros: int,
        size: int,
        rest_micros: int,
    )
        requires
            1 <= size <= usize::MAX,
        ensures
            self.moved(velocity, dt_micros, size).moved(Velocity { x: 0, y: 0 }, rest_micros, size)
                == self.moved(velocity, dt_micros, size),
    {
        self.lemma_normalized_in_map(velocity, dt_micros, size);
        assert(0 * rest_micros == 0);
        assert(displacement(0, rest_micros) == 0);
        lemma_normalized_axis_idempotent(self.tile.0 as int, self.subtile.x as int,
            displacement(velocity.x as int, dt_micros), size);
        lemma_normalized_axis_idempotent(self.tile.1 as int, self.subtile.y as int,
            displacement(velocity.y as int, dt_micros), size);
    }

    /// Absolute position in fine world units.
    pub open spec fn full_location(self) -> (int, int) {
        (
            axis_position(self.tile.0 as int, self.subtile.x as int),
            axis_position(self.tile.1 as int, self.subtile.y as int),
        )
    }

    /// Absolute position of this location in the world.
    pub fn to_full_location(&self) -> (p: WorldPoint)
        ensures
            (p.x as int, p.y as int) == self.full_location(),
    {
        WorldPoint {
            x: absolute(self.tile.0, self.subtile.x),
            y: absolute(self.tile.1, self.subtile.y),
        }
    }

    /// Moves this location for `dt_micros` microseconds at `velocity`, then
    /// carries whole tiles between the subtile offset and the tile, so that
    /// the offset lies inside the tile, and stops at the borders of a map of
    /// `map_size` tiles.
    pub fn normalize(&self, velocity: &Velocity, dt_micros: u64, map_size: usize) -> (moved: PlanetLocation)
        requires
            map_size >= 1,
        ensures
            moved.holds(self.normalized(*velocity, dt_micros as int, map_size as int)),
            moved == self.moved(*velocity, dt_micros as int, map_size as int),
            moved.in_map(map_size as int),
    {
        proof {
            self.lemma_normalized_in_map(*velocity, dt_micros as int, map_size as int);
        }
        let dx = displace(velocity.x, dt_micros);
        let dy = displace(velocity.y, dt_micros);
        let (tx, sx) = normalize_axis(self.tile.0, self.subtile.x, dx, map_size);
        let (ty, sy) = normalize_axis(self.tile.1, self.subtile.y, dy, map_size);
        PlanetLocation { tile: (tx, ty), subtile: Subtile { x: sx, y: sy } }
    }
}

impl Default for Velocity {
    fn default() -> (v: Self)
        ensures
            v == (Velocity { x: 0, y: 0 }),
    {
        Velocity { x: 0, y: 0 }
    }
}

impl Default for PlanetLocation {
    fn default() -> (loc: Self)
        ensures
            loc == (PlanetLocation { tile: (0, 0), subtile: Subtile { x: 0, y: 0 } }),
    {
        PlanetLocation { tile: (0, 0), subtile: Subtile { x: 0, y: 0 } }
    }
}

/// Position along one axis in fine world units.
pub fn absolute(tile: usize, sub: i64) -> (p: i128)
    ensures
        p == axis_position(tile as int, sub as int),
{
    assert(tile <= 0xffff_ffff_ffff_ffff);
    let fine: i128 = tile as i128 * 1_000_000 + sub as i128;
    fine * 64
}

/// Distance covered in `dt_micros` microseconds at `speed`.
pub fn displace(speed: i64, dt_micros: u64) -> (d: i128)
    ensures
        d == displacement(speed as int, dt_micros as int),
        -MAX_STEP <= d <= MAX_STEP,
{
    let wide: i128 = speed as i128;
    let magnitude: u128 = if wide < 0 { (-wide) as u128 } else { wide as u128 };
    assert(magnitude * dt_micros <= 0x8000_0000_0000_0000 * 0xffff_ffff_ffff_ffff) by (nonlinear_arith)
        requires
            magnitude <= 0x8000_0000_0000_0000,
            dt_micros <= 0xffff_ffff_ffff_ffff,
    ;
    let product: u128 = magnitude * (dt_micros as u128);
    let whole: u128 = product / 1_000_000;
    proof {
        if wide < 0 {
            assert(speed * dt_micros == -(magnitude * dt_micros)) by (nonlinear_arith)
                requires
                    magnitude == -speed,
            ;
        } else {
            assert(speed * dt_micros == magnitude * dt_micros) by (nonlinear_arith)
                requires
                    magnitude == speed,
            ;
        }
        assert(magnitude * dt_micros >= 0) by (nonlinear_arith)
            requires
                magnitude >= 0,
                dt_micros >= 0,
        ;
    }
    if wide < 0 {
        -(whole as i128)
    } else {
        whole as i128
    }
}

/// One axis of `PlanetLocation::normalize`: moves the offset `sub` on the
/// tile `tile` by `delta`, a step of at most `MAX_STEP`.
pub fn normalize_axis(tile: usize, sub: i64, delta: i128, map_size: usize) -> (r: (usize, i64))
    requires
        map_size >= 1,
        -MAX_STEP <= delta <= MAX_STEP,
    ensures
        (r.0 as int, r.1 as int) == normalized_axis(tile as int, sub as int, delta as int, map_size as int),
{
    assert(tile <= 0xffff_ffff_ffff_ffff);
    let place: i128 = tile as i128 * 1_000_000 + sub as i128 + delta;
    let last: i128 = (map_size as i128 - 1) * 1_000_000;
    if place <= 0 {
        (0, 0)
    } else if place >= last {
        (map_size - 1, 0)
    } else {
        let whole: u128 = place as u128 / 1_000_000;
        let rest: u128 = place as u128 % 1_000_000;
        (whole as usize, rest as i64)
    }
}

} // verus!
