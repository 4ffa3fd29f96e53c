use vstd::prelude::*;
use bevy::ecs::entity::Entity;
use std::collections::HashMap;
use crate::location::PlanetLocation;

verus! {

broadcast use vstd::std_specs::hash::group_hash_axioms;

/// Key under which the table files the tile `(x, y)`.
pub open spec fn tile_key(x: int, y: int) -> int {
    x * 0x1_0000_0000_0000_0000 + y
}

/// The entities of `entries` that stand on the tile `(x, y)`, in the order
/// in which `entries` lists them.
pub open spec fn occupants(entries: Seq<(Entity, PlanetLocation)>, x: int, y: int) -> Seq<Entity>
    decreases entries.len(),
{
    if entries.len() == 0 {
        Seq::empty()
    } else {
        let before = occupants(entries.drop_last(), x, y);
        let last = entries.last();
        if last.1.tile.0 == x && last.1.tile.1 == y {
            before.push(last.0)
        } else {
            before
        }
    }
}

/// An entity is listed for a tile exactly if some entry places it there.
pub proof fn lemma_occupants_membership(entries: Seq<(Entity, PlanetLocation)>, x: int, y: int, id: Entity)
    ensures
        occupants(entries, x, y).contains(id) <==> exists|i: int|
            0 <= i < entries.len() && (#[trigger] entries[i]).0 == id && entries[i].1.tile.0 == x
                && entries[i].1.tile.1 == y,
    decreases entries.len(),
{
    if entries.len() > 0 {
        let front = entries.drop_last();
        let last = entries.last();
        lemma_occupants_membership(front, x, y, id);
        let listed = occupants(entries, x, y);
        let before = occupants(front, x, y);
        let here = last.1.tile.0 == x && last.1.tile.1 == y;
        if listed.contains(id) {
            let k = choose|k: int| 0 <= k < listed.len() && listed[k] == id;
            if here && k == listed.len() - 1 {
                assert(entries[entries.len() - 1] == last);
            } else {
                assert(before[k] == id);
                assert(before.contains(id));
                let i = choose|i: int|
                    0 <= i < front.len() && (#[trigger] front[i]).0 == id && front[i].1.tile.0 == x
                        && front[i].1.tile.1 == y;
                assert(entries[i] == front[i]);
            }
        }
        if exists|i: int|
            0 <= i < entries.len() && (#[trigger] entries[i]).0 == id && entries[i].1.tile.0 == x
                && entries[i].1.tile.1 == y {
            let i = choose|i: int|
                0 <= i < entries.len() && (#[trigger] entries[i]).0 == id && entries[i].1.tile.0 == x
                    && entries[i].1.tile.1 == y;
            if i == entries.len() - 1 {
                assert(listed[listed.len() - 1] == id);
            } else {
                assert(front[i] == entries[i]);
                assert(before.contains(id));
                let k = choose|k: int| 0 <= k < before.len() && before[k] == id;
                assert(listed[k] == id);
            }
        }
    }
}

/// Lower end of the neighborhood of radius `radius` around `center`.
pub open spec fn reach_low(center: int, radius: int) -> int {
    if center - radius < 0 {
        0
    } else {
        center - radius
    }
}

/// Upper end of the neighborhood of radius `radius` around `center`.
pub open spec fn reach_high(center: int, radius: int) -> int {
    if center + radius > usize::MAX {
        usize::MAX as int
    } else {
        center + radius
    }
}

/// An efficient way to get all the entities whose location is in a given
/// tile.
pub struct LocationTable {
    map: HashMap<u128, Vec<Entity>>,
}

impl LocationTable {
    /// The entities filed under the tile `(x, y)`, in the order of filing.
    pub closed spec fn ents_at(&self, x: int, y: int) -> Seq<Entity> {
        if self.map@.contains_key(tile_key(x, y) as u128) {
            self.map@[tile_key(x, y) as u128]@
        } else {
            Seq::empty()
        }
    }

    /// The entities of the tiles `(x0, y) ..= (x1, y)`, tile after tile.
    pub open spec fn row_ents(&self, y: int, x0: int, x1: int) -> Seq<Entity>
        decreases x1 - x0 + 1,
    {
        if x1 < x0 {
            Seq::empty()
        } else {
            self.row_ents(y, x0, x1 - 1) + self.ents_at(x1, y)
        }
    }

    /// The entities of the rows `y0 ..= y1`, each cut to the columns
    /// `x0 ..= x1`, row after row.
    pub open spec fn block_ents(&self, x0: int, x1: int, y0: int, y1: int) -> Seq<Entity>
        decreases y1 - y0 + 1,
    {
        if y1 < y0 {
            Seq::empty()
        } else {
            self.block_ents(x0, x1, y0, y1 - 1) + self.row_ents(y1, x0, x1)
        }
    }

    /// The entities of every tile that lies at most `radius` tiles away from
    /// `(x, y)` along both axes, row after row.
    pub open spec fn neighbor_ents(&self, x: int, y: int, radius: int) -> Seq<Entity> {
        self.block_ents(reach_low(x, radius), reach_high(x, radius), reach_low(y, radius), reach_high(y, radius))
    }

    /// With radius 0 the neighborhood is the tile itself.
    pub proof fn lemma_neighbors_radius_zero(&self, x: int, y: int)
        requires
            0 <= x <= usize::MAX,
            0 <= y <= usize::MAX,
        ensures
            self.neighbor_ents(x, y, 0) == self.ents_at(x, y),
    {
        reveal_with_fuel(LocationTable::row_ents, 2);
        reveal_with_fuel(LocationTable::block_ents, 2);
        assert(self.row_ents(y, x, x) =~= self.ents_at(x, y));
        assert(self.block_ents(x, x, y, y) =~= self.row_ents(y, x, x));
    }

    /// The entities of a tile inside the block are among those of the block.
    pub proof fn lemma_block_contains(&self, x0: int, x1: int, y0: int, y1: int, x: int, y: int, id: Entity)
        requires
            x0 <= x <= x1,
            y0 <= y <= y1,
            self.ents_at(x, y).contains(id),
        ensures
            self.block_ents(x0, x1, y0, y1).contains(id),
        decreases y1 - y0 + 1, x1 - x0 + 1,
    {
        let upper = self.block_ents(x0, x1, y0, y1 - 1);
        let row = self.row_ents(y1, x0, x1);
        if y < y1 {
            self.lemma_block_contains(x0, x1, y0, y1 - 1, x, y, id);
            let k = choose|k: int| 0 <= k < upper.len() && upper[k] == id;
            assert((upper + row)[k] == id);
        } else {
            self.lemma_row_contains(y, x0, x1, x, id);
            let k = choose|k: int| 0 <= k < row.len() && row[k] == id;
            assert((upper + row)[upper.len() + k] == id);
        }
    }

    /// The entities of a tile inside the row are among those of the row.
    pub proof fn lemma_row_contains(&self, y: int, x0: int, x1: int, x: int, id: Entity)
        requires
            x0 <= x <= x1,
            self.ents_at(x, y).contains(id),
        ensures
            self.row_ents(y, x0, x1).contains(id),
        decreases x1 - x0 + 1,
    {
        let left = self.row_ents(y, x0, x1 - 1);
        let cell = self.ents_at(x1, y);
        if x < x1 {
            self.lemma_row_contains(y, x0, x1 - 1, x, id);
            let k = choose|k: int| 0 <= k < left.len() && left[k] == id;
            assert((left + cell)[k] == id);
        } else {
            let k = choose|k: int| 0 <= k < cell.len() && cell[k] == id;
            assert((left + cell)[left.len() + k] == id);
        }
    }

    /// The neighborhood holds its center and every tile near it: the
    /// entities of `(x, y)` are listed around `(cx, cy)` whenever the two
    /// tiles are at most `radius` apart along both axes, a condition that
    /// reads the same from either tile.
    pub proof fn lemma_neighbors_contain(&self, cx: int, cy: int, radius: int, x: int, y: int, id: Entity)
        requires
            0 <= cx <= usize::MAX,
            0 <= cy <= usize::MAX,
            0 <= x <= usize::MAX,
            0 <= y <= usize::MAX,
            radius >= 0,
            -radius <= x - cx <= radius,
            -radius <= y - cy <= radius,
            self.ents_at(x, y).contains(id),
        ensures
            self.neighbor_ents(cx, cy, radius).contains(id),
    {
        self.lemma_block_contains(
            reach_low(cx, radius),
            reach_high(cx, radius),
            reach_low(cy, radius),
            reach_high(cy, radius),
            x,
            y,
            id,
        );
    }

    /// A table without entities.
    pub fn new() -> (table: LocationTable)
        ensures
            forall|x: int, y: int| (#[trigger] table.ents_at(x, y)).len() == 0,
    {
        LocationTable { map: HashMap::new() }
    }

    /// The entities that stand on the tile `tile_loc`.
    pub fn ents_in_tile(&self, tile_loc: (usize, usize)) -> (ents: &[Entity])
        ensures
            ents@ == self.ents_at(tile_loc.0 as int, tile_loc.1 as int),
    {
        let key = pack(tile_loc.0, tile_loc.1);
        match self.map.get(&key) {
            Some(bucket) => bucket.as_slice(),
            None => {
                let nothing: &[Entity] = &[];
                nothing
            },
        }
    }

    /// Forgets every entity, then files each entry under the tile of its
    /// location, keeping the order of `entries` inside a tile.
    pub fn rebuild(&mut self, entries: &Vec<(Entity, PlanetLocation)>)
        ensures
            forall|x: int, y: int|
                0 <= x <= usize::MAX && 0 <= y <= usize::MAX ==> #[trigger] final(self).ents_at(x, y)
                    == occupants(entries@, x, y),
    {
        self.map.clear();
        let mut i: usize = 0;
        while i < entries.len()
            invariant
                i <= entries.len(),
                forall|x: int, y: int|
                    0 <= x <= usize::MAX && 0 <= y <= usize::MAX ==> #[trigger] self.ents_at(x, y)
                        == occupants(entries@.take(i as int), x, y),
            decreases entries.len() - i,
        {
            let id = entries[i].0;
            let tile = entries[i].1.tile;
            let key = pack(tile.0, tile.1);
            let ghost before = *self;
            let mut bucket = match self.map.remove(&key) {
                Some(found) => found,
                None => Vec::new(),
            };
            assert(bucket@ == before.ents_at(tile.0 as int, tile.1 as int));
            bucket.push(id);
            self.map.insert(key, bucket);
            proof {
                let grown = entries@.take(i as int + 1);
                assert(grown.drop_last() =~= entries@.take(i as int));
                assert(grown.last() == entries@[i as int]);
                assert forall|x: int, y: int|
                    0 <= x <= usize::MAX && 0 <= y <= usize::MAX implies #[trigger] self.ents_at(x, y)
                    == occupants(grown, x, y) by {
                    assert(before.ents_at(x, y) == occupants(entries@.take(i as int), x, y));
                    if x == tile.0 && y == tile.1 {
                    } else {
                        assert(tile_key(x, y) != tile_key(tile.0 as int, tile.1 as int));
                    }
                }
            }
            i = i + 1;
        }
        proof {
            assert(entries@.take(entries@.len() as int) =~= entries@);
        }
    }

    /// The entities that stand at most `radius` tiles away from `tile_loc`
    /// along both axes, the tile itself included, row after row.
    pub fn ents_in_tile_and_neighbors(&self, tile_loc: (usize, usize), radius: usize) -> (ents: Vec<Entity>)
        ensures
            ents@ == self.neighbor_ents(tile_loc.0 as int, tile_loc.1 as int, radius as int),
            radius == 0 ==> ents@ == self.ents_at(tile_loc.0 as int, tile_loc.1 as int),
    {
        let x0 = tile_loc.0.saturating_sub(radius);
        let x1 = tile_loc.0.saturating_add(radius);
        let y0 = tile_loc.1.saturating_sub(radius);
        let y1 = tile_loc.1.saturating_add(radius);
        let mut ents: Vec<Entity> = Vec::new();
        let mut y = y0;
        proof {
            self.lemma_neighbors_radius_zero(tile_loc.0 as int, tile_loc.1 as int);
        }
        loop
            invariant_except_break
                y0 <= y <= y1,
                ents@ == self.block_ents(x0 as int, x1 as int, y0 as int, y - 1),
            invariant
                x0 <= x1,
                y0 <= y1,
            ensures
                ents@ == self.block_ents(x0 as int, x1 as int, y0 as int, y1 as int),
            decreases y1 - y,
        {
            let ghost above = ents@;
            let mut x = x0;
            loop
                invariant_except_break
                    x0 <= x <= x1,
                    ents@ == above + self.row_ents(y as int, x0 as int, x - 1),
                invariant
                    x0 <= x1,
                ensures
                    ents@ == above + self.row_ents(y as int, x0 as int, x1 as int),
                decreases x1 - x,
            {
                let cell = self.ents_in_tile((x, y));
                let ghost left = ents@;
                let mut k: usize = 0;
                while k < cell.len()
                    invariant
                        k <= cell@.len(),
                        ents@ == left + cell@.take(k as int),
                    decreases cell@.len() - k,
                {
                    ents.push(cell[k]);
                    proof {
                        assert(cell@.take(k as int + 1) =~= cell@.take(k as int).push(cell@[k as int]));
                    }
                    k = k + 1;
                }
                proof {
                    assert(cell@.take(cell@.len() as int) =~= cell@);
                    assert(ents@ =~= above + self.row_ents(y as int, x0 as int, x as int));
                }
                if x == x1 {
                    break ;
                }
                x = x + 1;
            }
            if y == y1 {
                break ;
            }
            y = y + 1;
        }
        ents
    }
}

/// Key under which the table files the tile `(x, y)`.
fn pack(x: usize, y: usize) -> (key: u128)
    ensures
        key == tile_key(x as int, y as int),
{
    assert(x <= 0xffff_ffff_ffff_ffff && y <= 0xffff_ffff_ffff_ffff);
    x as u128 * 0x1_0000_0000_0000_0000 + y as u128
}

} // verus!
