use vstd::prelude::*;
use crate::crew::{Crew, Mobile};
use crate::location::WorldPoint;
use crate::map::PlanetMap;
use crate::projection::offset_between;
use crate::streaming::{
    is_load_plan, lists_unloaded, tiles_to_load, unload_offscreen, unloaded_outside, window_around,
    TileSpawn, Unloaded, ViewWindow, Viewport,
};
use crate::table::{occupants, LocationTable};

verus! {

/// What one tick asks of the engine and tells it.
pub struct Frame {
    /// The visual instances to destroy, each with the tile it showed.
    pub gone: Vec<Unloaded>,
    /// The tiles that need a visual instance.
    pub spawns: Vec<TileSpawn>,
    /// Screen-relative position of each entity, in the order of the roster.
    pub offsets: Vec<WorldPoint>,
}

/// The world of one game session: who moves on it, its map, and the table of
/// who stands where.
pub struct Session {
    pub crew: Crew,
    pub map: PlanetMap,
    pub table: LocationTable,
}

/// Whether `after` is `before` once the tiles out of the window are
/// unloaded, `gone` lists what was unloaded, and `spawns` what is then to be
/// loaded. Without a window nothing is streamed.
pub open spec fn streamed(
    before: &PlanetMap,
    after: &PlanetMap,
    window: Option<ViewWindow>,
    gone: Seq<Unloaded>,
    spawns: Seq<TileSpawn>,
) -> bool {
    match window {
        Some(w) => {
            &&& unloaded_outside(before, after, w)
            &&& lists_unloaded(before, w, gone)
            &&& is_load_plan(after, w, spawns)
        },
        None => {
            &&& *after == *before
            &&& gone.len() == 0
            &&& spawns.len() == 0
        },
    }
}

impl Session {
    /// The crew and the map are well formed.
    pub open spec fn wf(&self) -> bool {
        self.crew@.wf() && self.map.wf()
    }

    /// Whether the table files exactly the entities of the crew, each under
    /// the tile of its location and in the order of the roster.
    pub open spec fn indexed(&self) -> bool {
        forall|x: int, y: int|
            0 <= x <= usize::MAX && 0 <= y <= usize::MAX ==> #[trigger] self.table.ents_at(x, y)
                == occupants(self.crew@.entries(), x, y)
    }

    /// A session of `crew` on `map`, with nobody filed in the table yet.
    pub fn new(crew: Crew, map: PlanetMap) -> (session: Session)
        requires
            crew@.wf(),
            map.wf(),
        ensures
            session.wf(),
            session.crew == crew,
            session.map == map,
            forall|x: int, y: int| (#[trigger] session.table.ents_at(x, y)).len() == 0,
    {
        Session { crew, map, table: LocationTable::new() }
    }

    /// Takes the vehicle at place `place` out of the world and returns it:
    /// out of the roster, and out of the table, which is rebuilt from who is
    /// left. The player stays, and so does the holder of the anchor: the
    /// anchor is handed on first. Nothing happens where `place` names no
    /// entity.
    pub fn despawn(&mut self, place: usize) -> (gone: Option<Mobile>)
        requires
            old(self).wf(),
        ensures
            final(self).wf(),
            final(self).map == old(self).map,
            gone.is_some() <==> old(self).crew@.removable(place as int),
            gone.is_none() ==> final(self).crew@ == old(self).crew@ && final(self).table == old(self).table,
            gone matches Some(m) ==> {
                &&& m == old(self).crew@.roster[place as int]
                &&& final(self).crew@ == old(self).crew@.without(place as int)
                &&& final(self).indexed()
            },
    {
        let gone = self.crew.despawn(place);
        if gone.is_some() {
            let entries = self.crew.entries();
            self.table.rebuild(&entries);
        }
        gone
    }

    /// One tick of `dt_micros` microseconds, its phases in their order.
    /// Every entity moves at its velocity and is normalized on the map, and
    /// a player who rides goes where the vehicle went. The table is rebuilt
    /// from the new locations. The tiles out of the window around the new
    /// viewpoint are unloaded, and those to load are listed; without a
    /// viewport this phase is skipped. Last, each entity is projected to its
    /// place relative to the viewpoint.
    pub fn tick(&mut self, dt_micros: u64, viewport: Option<Viewport>) -> (frame: Frame)
        requires
            old(self).wf(),
        ensures
            final(self).wf(),
            final(self).crew@ == old(self).crew@.advanced(
                dt_micros as int,
                old(self).map.spec_size() as int,
            ).synced(),
            final(self).indexed(),
            streamed(
                &old(self).map,
                &final(self).map,
                window_around(final(self).crew@.anchor_location(), viewport),
                frame.gone@,
                frame.spawns@,
            ),
            frame.offsets@.len() == final(self).crew@.roster.len(),
            forall|i: int|
                0 <= i < frame.offsets@.len() ==> ((#[trigger] frame.offsets@[i]).x as int, frame.offsets@[i].y as int)
                    == offset_between(
                    final(self).crew@.roster[i].location,
                    final(self).crew@.anchor_location(),
                ),
            frame.offsets@[final(self).crew@.anchor] == (WorldPoint { x: 0, y: 0 }),
    {
        proof {
            self.map.lemma_size_positive();
        }
        self.crew.update_planet_locations(dt_micros, self.map.size());
        self.crew.move_player_with_vehicle();

        let entries = self.crew.entries();
        self.table.rebuild(&entries);

        let anchor = self.crew.anchor_location();
        let mut gone: Vec<Unloaded> = Vec::new();
        let mut spawns: Vec<TileSpawn> = Vec::new();
        match ViewWindow::around(&anchor, viewport) {
            Some(window) => {
                gone = unload_offscreen(&mut self.map, &window);
                spawns = tiles_to_load(&self.map, &window);
            },
            None => {},
        }

        let offsets = self.crew.render_offsets();
        Frame { gone, spawns, offsets }
    }
}

} // verus!
