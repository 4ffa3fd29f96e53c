use vstd::prelude::*;
use bevy::ecs::entity::Entity;
use crate::entity::same_entity;
use crate::location::{PlanetLocation, Subtile, Velocity, WorldPoint};
use crate::projection::{offset_between, render_offset};
use crate::table::LocationTable;
use crate::units::SUBTILE_UNITS;

verus! {

/// How many tiles away, along each axis, a vehicle may stand to be entered.
pub const VEHICLE_REACH: usize = 2;

/// What a mobile entity is.
#[derive(Clone, Copy, Debug, PartialEq, Eq, Structural)]
pub enum MobileKind {
    Player,
    Vehicle,
}

/// How fast an entity moves while it is steered, in subtile units per
/// second.
#[derive(Clone, Copy, Debug, PartialEq, Eq, Structural)]
pub struct MovementSpeed(pub u32);

impl Default for MovementSpeed {
    fn default() -> (speed: Self)
        ensures
            speed.0 == SUBTILE_UNITS,
    {
        MovementSpeed(1_000_000)
    }
}

/// What a new vehicle starts with.
#[derive(Clone, Copy, Debug, PartialEq, Eq)]
pub struct VehicleBundle {
    pub movement_speed: MovementSpeed,
    pub velocity: Velocity,
    pub location: PlanetLocation,
}

impl Default for VehicleBundle {
    fn default() -> (bundle: Self)
        ensures
            bundle.movement_speed.0 == SUBTILE_UNITS,
            bundle.velocity == (Velocity { x: 0, y: 0 }),
            bundle.location == (PlanetLocation { tile: (0, 0), subtile: Subtile { x: 0, y: 0 } }),
    {
        VehicleBundle {
            movement_speed: MovementSpeed(1_000_000),
            velocity: Velocity { x: 0, y: 0 },
            location: PlanetLocation { tile: (0, 0), subtile: Subtile { x: 0, y: 0 } },
        }
    }
}

/// A mobile entity of the world: the player or a vehicle.
#[derive(Clone, Copy, Debug, PartialEq, Eq)]
pub struct Mobile {
    pub id: Entity,
    pub kind: MobileKind,
    pub location: PlanetLocation,
    pub velocity: Velocity,
    pub speed: MovementSpeed,
    pub visible: bool,
}

/// What a press of the toggle did.
#[derive(Clone, Copy, Debug, PartialEq, Eq, Structural)]
pub enum Boarding {
    /// The player entered the vehicle at this place of the roster.
    Entered(usize),
    /// The player left the vehicle at this place of the roster.
    Left(usize),
    /// No vehicle was in reach.
    Stayed,
}

/// The mobile entities and their roles, as mathematics sees them.
pub struct CrewView {
    pub roster: Seq<Mobile>,
    pub player: int,
    pub anchor: int,
}

impl CrewView {
    /// The roster holds exactly one player, and the viewpoint anchor is the
    /// player or a vehicle of the roster.
    pub open spec fn wf(self) -> bool {
        &&& 0 <= self.player < self.roster.len()
        &&& 0 <= self.anchor < self.roster.len()
        &&& forall|i: int|
            0 <= i < self.roster.len() ==> ((#[trigger] self.roster[i]).kind == MobileKind::Player <==> i
                == self.player)
    }

    /// Whether the entity at place `i` is the viewpoint anchor, which is
    /// also the one that is steered.
    pub open spec fn holds_anchor(self, i: int) -> bool {
        0 <= i < self.roster.len() && i == self.anchor
    }

    /// Whether the player walks, rather than rides a vehicle.
    pub open spec fn on_foot(self) -> bool {
        self.anchor == self.player
    }

    /// The first place at or after `from` that holds a vehicle named `id`.
    pub open spec fn vehicle_from(self, id: Entity, from: int) -> Option<int>
        decreases self.roster.len() - from,
    {
        if from < 0 || from >= self.roster.len() {
            None
        } else if self.roster[from].kind == MobileKind::Vehicle && self.roster[from].id == id {
            Some(from)
        } else {
            self.vehicle_from(id, from + 1)
        }
    }

    /// The first place at or after `from` that holds the entity named `id`,
    /// whatever its kind.
    pub open spec fn entity_from(self, id: Entity, from: int) -> Option<int>
        decreases self.roster.len() - from,
    {
        if from < 0 || from >= self.roster.len() {
            None
        } else if self.roster[from].id == id {
            Some(from)
        } else {
            self.entity_from(id, from + 1)
        }
    }

    /// What an entity search finds is a place of the roster that holds the
    /// name that was asked for, and no place before it does.
    pub proof fn lemma_entity_from(self, id: Entity, from: int)
        requires
            0 <= from,
        ensures
            match self.entity_from(id, from) {
                Some(p) => from <= p < self.roster.len() && self.roster[p].id == id && forall|i: int|
                    from <= i < p ==> (#[trigger] self.roster[i]).id != id,
                None => forall|i: int| from <= i < self.roster.len() ==> (#[trigger] self.roster[i]).id != id,
            },
        decreases self.roster.len() - from,
    {
        if from < self.roster.len() && self.roster[from].id != id {
            self.lemma_entity_from(id, from + 1);
        }
    }

    /// The place of the vehicle that the first of `candidates` that names a
    /// vehicle names.
    pub open spec fn first_boardable(self, candidates: Seq<Entity>) -> Option<int>
        decreases candidates.len(),
    {
        if candidates.len() == 0 {
            None
        } else {
            match self.vehicle_from(candidates[0], 0) {
                Some(v) => Some(v),
                None => self.first_boardable(candidates.drop_first()),
            }
        }
    }

    /// The crew after the player entered the vehicle at place `v`: the
    /// anchor passes to the vehicle, and the player hides at the vehicle's
    /// location.
    pub open spec fn entered(self, v: int) -> CrewView {
        let rider = self.roster[self.player];
        CrewView {
            roster: self.roster.update(
                self.player,
                Mobile { visible: false, location: self.roster[v].location, ..rider },
            ),
            player: self.player,
            anchor: v,
        }
    }

    /// The crew after the player left the vehicle: the anchor passes back
    /// to the player, who shows again where the vehicle is, and the vehicle
    /// stops.
    pub open spec fn left(self) -> CrewView {
        let rider = self.roster[self.player];
        let vehicle = self.roster[self.anchor];
        CrewView {
            roster: self.roster.update(self.anchor, Mobile { velocity: Velocity { x: 0, y: 0 }, ..vehicle }).update(
                self.player,
                Mobile { visible: true, location: vehicle.location, ..rider },
            ),
            player: self.player,
            anchor: self.player,
        }
    }

    /// The crew after every entity moved for `dt_micros` microseconds at
    /// its velocity on a map of `size` tiles.
    pub open spec fn advanced(self, dt_micros: int, size: int) -> CrewView {
        CrewView {
            roster: Seq::new(
                self.roster.len(),
                |i: int|
                    Mobile {
                        location: self.roster[i].location.moved(self.roster[i].velocity, dt_micros, size),
                        ..self.roster[i]
                    },
            ),
            player: self.player,
            anchor: self.anchor,
        }
    }

    /// The crew after a player who rides was put where the vehicle is.
    pub open spec fn synced(self) -> CrewView {
        if self.on_foot() {
            self
        } else {
            CrewView {
                roster: self.roster.update(
                    self.player,
                    Mobile { location: self.roster[self.anchor].location, ..self.roster[self.player] },
                ),
                player: self.player,
                anchor: self.anchor,
            }
        }
    }

    /// Whether the entity at place `place` can leave the world: there is
    /// one, and it is neither the player nor the holder of the anchor.
    pub open spec fn removable(self, place: int) -> bool {
        0 <= place < self.roster.len() && place != self.player && place != self.anchor
    }

    /// The crew without the entity at place `place`: the entities behind it
    /// move up by one, and the player and the anchor stay with whom they
    /// were.
    pub open spec fn without(self, place: int) -> CrewView {
        CrewView {
            roster: self.roster.remove(place),
            player: if place < self.player { self.player - 1 } else { self.player },
            anchor: if place < self.anchor { self.anchor - 1 } else { self.anchor },
        }
    }

    /// Each entity of the roster with its location, in the order of the
    /// roster.
    pub open spec fn entries(self) -> Seq<(Entity, PlanetLocation)> {
        Seq::new(self.roster.len(), |i: int| (self.roster[i].id, self.roster[i].location))
    }

    /// Location of the entity that holds the viewpoint anchor.
    pub open spec fn anchor_location(self) -> PlanetLocation {
        self.roster[self.anchor].location
    }

    /// The crew after a press of the toggle, with `candidates` the entities
    /// in reach of the player.
    pub open spec fn toggled(self, candidates: Seq<Entity>) -> CrewView {
        if self.on_foot() {
            match self.first_boardable(candidates) {
                Some(v) => self.entered(v),
                None => self,
            }
        } else {
            self.left()
        }
    }

    /// What a vehicle search finds is a vehicle of the roster with the name
    /// that was asked for, and none stands before it.
    pub proof fn lemma_vehicle_from(self, id: Entity, from: int)
        requires
            0 <= from,
        ensures
            match self.vehicle_from(id, from) {
                Some(v) => from <= v < self.roster.len() && self.roster[v].kind == MobileKind::Vehicle
                    && self.roster[v].id == id && forall|i: int|
                    from <= i < v ==> !((#[trigger] self.roster[i]).kind == MobileKind::Vehicle
                        && self.roster[i].id == id),
                None => forall|i: int|
                    from <= i < self.roster.len() ==> !((#[trigger] self.roster[i]).kind
                        == MobileKind::Vehicle && self.roster[i].id == id),
            },
        decreases self.roster.len() - from,
    {
        if from < self.roster.len() {
            if !(self.roster[from].kind == MobileKind::Vehicle && self.roster[from].id == id) {
                self.lemma_vehicle_from(id, from + 1);
            }
        }
    }

    /// What the toggle boards is a vehicle of the roster.
    pub proof fn lemma_first_boardable(self, candidates: Seq<Entity>)
        ensures
            self.first_boardable(candidates) matches Some(v) ==> 0 <= v < self.roster.len()
                && self.roster[v].kind == MobileKind::Vehicle && candidates.contains(self.roster[v].id),
        decreases candidates.len(),
    {
        if candidates.len() > 0 {
            self.lemma_vehicle_from(candidates[0], 0);
            match self.vehicle_from(candidates[0], 0) {
                Some(v) => {
                    assert(candidates[0] == self.roster[v].id);
                },
                None => {
                    let rest = candidates.drop_first();
                    self.lemma_first_boardable(rest);
                    if let Some(v) = self.first_boardable(rest) {
                        let k = choose|k: int| 0 <= k < rest.len() && rest[k] == self.roster[v].id;
                        assert(candidates[k + 1] == rest[k]);
                    }
                },
            }
        }
    }

    /// At every moment exactly one entity holds the viewpoint anchor.
    pub proof fn lemma_one_anchor(self)
        requires
            self.wf(),
        ensures
            self.holds_anchor(self.anchor),
            forall|i: int, j: int| self.holds_anchor(i) && self.holds_anchor(j) ==> i == j,
    {
    }

    /// A press of the toggle hands the anchor over in one step: before and
    /// after it the crew is well formed, so that one entity holds the anchor,
    /// and that entity is the player or the vehicle that the player rides.
    pub proof fn lemma_toggle_keeps_one_anchor(self, candidates: Seq<Entity>)
        requires
            self.wf(),
        ensures
            self.toggled(candidates).wf(),
            self.toggled(candidates).roster.len() == self.roster.len(),
            self.toggled(candidates).holds_anchor(self.toggled(candidates).anchor),
            forall|i: int, j: int|
                self.toggled(candidates).holds_anchor(i) && self.toggled(candidates).holds_anchor(j) ==> i
                    == j,
            self.on_foot() && self.first_boardable(candidates).is_none() ==> self.toggled(candidates) == self,
            !self.on_foot() ==> self.toggled(candidates).on_foot(),
    {
        self.lemma_first_boardable(candidates);
    }
}

/// The mobile entities of a game session, with the roles they play: one of
/// them is the player, and one, the player or the vehicle that the player
/// rides, is the viewpoint anchor and is steered.
pub struct Crew {
    mobiles: Vec<Mobile>,
    player: usize,
    anchor: usize,
}

impl View for Crew {
    type V = CrewView;

    closed spec fn view(&self) -> CrewView {
        CrewView { roster: self.mobiles@, player: self.player as int, anchor: self.anchor as int }
    }
}

impl Crew {
    /// A crew of the player alone, who walks, shows and holds the anchor.
    pub fn new(id: Entity, location: PlanetLocation, speed: MovementSpeed) -> (crew: Crew)
        ensures
            crew@.wf(),
            crew@.player == 0,
            crew@.anchor == 0,
            crew@.roster == seq![
                Mobile {
                    id,
                    kind: MobileKind::Player,
                    location,
                    velocity: Velocity { x: 0, y: 0 },
                    speed,
                    visible: true,
                },
            ],
    {
        let mut mobiles: Vec<Mobile> = Vec::new();
        mobiles.push(
            Mobile {
                id,
                kind: MobileKind::Player,
                location,
                velocity: Velocity { x: 0, y: 0 },
                speed,
                visible: true,
            },
        );
        Crew { mobiles, player: 0, anchor: 0 }
    }

    /// Adds a vehicle named `id` at the end of the roster and returns its
    /// place.
    pub fn spawn_vehicle(&mut self, id: Entity, bundle: VehicleBundle) -> (place: usize)
        requires
            old(self)@.wf(),
        ensures
            final(self)@.wf(),
            place == old(self)@.roster.len(),
            final(self)@.player == old(self)@.player,
            final(self)@.anchor == old(self)@.anchor,
            final(self)@.roster == old(self)@.roster.push(
                Mobile {
                    id,
                    kind: MobileKind::Vehicle,
                    location: bundle.location,
                    velocity: bundle.velocity,
                    speed: bundle.movement_speed,
                    visible: true,
                },
            ),
    {
        let place = self.mobiles.len();
        self.mobiles.push(
            Mobile {
                id,
                kind: MobileKind::Vehicle,
                location: bundle.location,
                velocity: bundle.velocity,
                speed: bundle.movement_speed,
                visible: true,
            },
        );
        place
    }

    /// Number of mobile entities.
    pub fn len(&self) -> (n: usize)
        ensures
            n == self@.roster.len(),
    {
        self.mobiles.len()
    }

    /// The entity at place `i` of the roster, if there is one.
    pub fn mobile(&self, i: usize) -> (m: Option<Mobile>)
        ensures
            m == if i < self@.roster.len() {
                Some(self@.roster[i as int])
            } else {
                None
            },
    {
        if i < self.mobiles.len() {
            Some(self.mobiles[i])
        } else {
            None
        }
    }

    /// Place of the player in the roster.
    pub fn player(&self) -> (i: usize)
        ensures
            i == self@.player,
    {
        self.player
    }

    /// Place of the entity that holds the viewpoint anchor.
    pub fn anchor(&self) -> (i: usize)
        ensures
            i == self@.anchor,
    {
        self.anchor
    }

    /// Location of the viewpoint anchor.
    pub fn anchor_location(&self) -> (loc: PlanetLocation)
        requires
            self@.wf(),
        ensures
            loc == self@.anchor_location(),
    {
        self.mobiles[self.anchor].location
    }

    /// Gives the steered entity, the holder of the anchor, the velocity that
    /// the input asks for.
    pub fn set_control_velocity(&mut self, velocity: Velocity)
        requires
            old(self)@.wf(),
        ensures
            final(self)@.wf(),
            final(self)@.player == old(self)@.player,
            final(self)@.anchor == old(self)@.anchor,
            final(self)@.roster == old(self)@.roster.update(
                old(self)@.anchor,
                Mobile { velocity, ..old(self)@.roster[old(self)@.anchor] },
            ),
    {
        let m = self.mobiles[self.anchor];
        self.mobiles.set(
            self.anchor,
            Mobile {
                id: m.id,
                kind: m.kind,
                location: m.location,
                velocity,
                speed: m.speed,
                visible: m.visible,
            },
        );
    }

    /// Moves every entity for `dt_micros` microseconds at its velocity and
    /// normalizes its location on a map of `map_size` tiles.
    pub fn update_planet_locations(&mut self, dt_micros: u64, map_size: usize)
        requires
            old(self)@.wf(),
            map_size >= 1,
        ensures
            final(self)@.wf(),
            final(self)@ == old(self)@.advanced(dt_micros as int, map_size as int),
    {
        let mut i: usize = 0;
        while i < self.mobiles.len()
            invariant
                map_size >= 1,
                self.player == old(self).player,
                self.anchor == old(self).anchor,
                self.mobiles@.len() == old(self).mobiles@.len(),
                i <= self.mobiles@.len(),
                forall|k: int| i <= k < self.mobiles@.len() ==> self.mobiles@[k] == old(self).mobiles@[k],
                forall|k: int|
                    0 <= k < i ==> #[trigger] self.mobiles@[k] == (Mobile {
                        location: old(self).mobiles@[k].location.moved(
                            old(self).mobiles@[k].velocity,
                            dt_micros as int,
                            map_size as int,
                        ),
                        ..old(self).mobiles@[k]
                    }),
            decreases self.mobiles@.len() - i,
        {
            let m = self.mobiles[i];
            let moved = m.location.normalize(&m.velocity, dt_micros, map_size);
            self.mobiles.set(
                i,
                Mobile {
                    id: m.id,
                    kind: m.kind,
                    location: moved,
                    velocity: m.velocity,
                    speed: m.speed,
                    visible: m.visible,
                },
            );
            i = i + 1;
        }
        proof {
            assert(self@.roster =~= old(self)@.advanced(dt_micros as int, map_size as int).roster);
        }
    }

    /// While the player rides a vehicle, the player is where the vehicle is.
    pub fn move_player_with_vehicle(&mut self)
        requires
            old(self)@.wf(),
        ensures
            final(self)@.wf(),
            final(self)@ == old(self)@.synced(),
    {
        if self.anchor != self.player {
            let rider = self.mobiles[self.player];
            let vehicle = self.mobiles[self.anchor];
            self.mobiles.set(
                self.player,
                Mobile {
                    id: rider.id,
                    kind: rider.kind,
                    location: vehicle.location,
                    velocity: rider.velocity,
                    speed: rider.speed,
                    visible: rider.visible,
                },
            );
        }
    }

    /// Place of the first entity of the roster that is named `id`, whatever
    /// its kind.
    pub fn find_entity(&self, id: Entity) -> (found: Option<usize>)
        ensures
            match found {
                Some(p) => self@.entity_from(id, 0) == Some(p as int),
                None => self@.entity_from(id, 0).is_none(),
            },
            found matches Some(p) ==> p < self@.roster.len() && self@.roster[p as int].id == id,
            found.is_none() ==> forall|i: int| 0 <= i < self@.roster.len() ==> (#[trigger] self@.roster[i]).id != id,
    {
        proof {
            self@.lemma_entity_from(id, 0);
        }
        let mut i: usize = 0;
        while i < self.mobiles.len()
            invariant
                i <= self.mobiles@.len(),
                self@.entity_from(id, 0) == self@.entity_from(id, i as int),
            decreases self.mobiles@.len() - i,
        {
            if same_entity(self.mobiles[i].id, id) {
                return Some(i);
            }
            i = i + 1;
        }
        None
    }

    /// Place of the first vehicle of the roster that is named `id`.
    pub fn find_vehicle(&self, id: Entity) -> (found: Option<usize>)
        ensures
            match found {
                Some(v) => self@.vehicle_from(id, 0) == Some(v as int),
                None => self@.vehicle_from(id, 0).is_none(),
            },
    {
        let mut i: usize = 0;
        while i < self.mobiles.len()
            invariant
                i <= self.mobiles@.len(),
                self@.vehicle_from(id, 0) == self@.vehicle_from(id, i as int),
            decreases self.mobiles@.len() - i,
        {
            let m = &self.mobiles[i];
            let vehicle = match m.kind {
                MobileKind::Vehicle => true,
                MobileKind::Player => false,
            };
            if vehicle && same_entity(m.id, id) {
                return Some(i);
            }
            i = i + 1;
        }
        None
    }

    /// Answers a press of the toggle. A player who walks enters the first
    /// vehicle that the table lists within `VEHICLE_REACH` tiles: the anchor
    /// passes to the vehicle, and the player hides at its location. A player
    /// who rides leaves the vehicle: the anchor passes back, the player
    /// shows where the vehicle is, and the vehicle stops. The anchor changes hands in one step.
    pub fn enter_or_exit_vehicles(&mut self, table: &LocationTable) -> (did: Boarding)
        requires
            old(self)@.wf(),
        ensures
            final(self)@.wf(),
            final(self)@ == old(self)@.toggled(
                table.neighbor_ents(
                    old(self)@.roster[old(self)@.player].location.tile.0 as int,
                    old(self)@.roster[old(self)@.player].location.tile.1 as int,
                    VEHICLE_REACH as int,
                ),
            ),
            did == if !old(self)@.on_foot() {
                Boarding::Left(old(self)@.anchor as usize)
            } else if final(self)@.on_foot() {
                Boarding::Stayed
            } else {
                Boarding::Entered(final(self)@.anchor as usize)
            },
    {
        let rider = self.mobiles[self.player];
        if self.anchor == self.player {
            let candidates = table.ents_in_tile_and_neighbors(rider.location.tile, 2);
            let mut k: usize = 0;
            proof {
                assert(candidates@.skip(0) =~= candidates@);
            }
            while k < candidates.len()
                invariant
                    k <= candidates@.len(),
                    *self == *old(self),
                    self@.wf(),
                    self.anchor == self.player,
                    rider == self.mobiles@[self.player as int],
                    candidates@ == table.neighbor_ents(
                        rider.location.tile.0 as int,
                        rider.location.tile.1 as int,
                        VEHICLE_REACH as int,
                    ),
                    self@.first_boardable(candidates@) == self@.first_boardable(candidates@.skip(k as int)),
                decreases candidates@.len() - k,
            {
                proof {
                    assert(candidates@.skip(k as int).drop_first() =~= candidates@.skip(k as int + 1));
                    assert(candidates@.skip(k as int)[0] == candidates@[k as int]);
                }
                match self.find_vehicle(candidates[k]) {
                    Some(v) => {
                        proof {
                            self@.lemma_vehicle_from(candidates@[k as int], 0);
                            assert(self@.first_boardable(candidates@.skip(k as int)) == Some(v as int));
                            assert(old(self)@.first_boardable(candidates@) == Some(v as int));
                            self@.lemma_toggle_keeps_one_anchor(candidates@);
                        }
                        let vehicle = self.mobiles[v];
                        self.mobiles.set(
                            self.player,
                            Mobile {
                                id: rider.id,
                                kind: rider.kind,
                                location: vehicle.location,
                                velocity: rider.velocity,
                                speed: rider.speed,
                                visible: false,
                            },
                        );
                        self.anchor = v;
                        proof {
                            assert(self@.roster =~= old(self)@.entered(v as int).roster);
                        }
                        return Boarding::Entered(v);
                    },
                    None => {},
                }
                k = k + 1;
            }
            proof {
                assert(candidates@.skip(candidates@.len() as int).len() == 0);
            }
            Boarding::Stayed
        } else {
            let place = self.anchor;
            let vehicle = self.mobiles[place];
            proof {
                self@.lemma_toggle_keeps_one_anchor(Seq::empty());
            }
            self.mobiles.set(
                place,
                Mobile {
                    id: vehicle.id,
                    kind: vehicle.kind,
                    location: vehicle.location,
                    velocity: Velocity { x: 0, y: 0 },
                    speed: vehicle.speed,
                    visible: vehicle.visible,
                },
            );
            self.mobiles.set(
                self.player,
                Mobile {
                    id: rider.id,
                    kind: rider.kind,
                    location: vehicle.location,
                    velocity: rider.velocity,
                    speed: rider.speed,
                    visible: true,
                },
            );
            self.anchor = self.player;
            proof {
                assert(self@.roster =~= old(self)@.left().roster);
            }
            Boarding::Left(place)
        }
    }

    /// Takes the vehicle at place `place` out of the world and returns it.
    /// The player stays, and so does the holder of the anchor: the anchor is
    /// handed on first. Nothing happens where `place` names no entity. The
    /// entities behind `place` move up by one.
    pub fn despawn(&mut self, place: usize) -> (gone: Option<Mobile>)
        requires
            old(self)@.wf(),
        ensures
            final(self)@.wf(),
            gone.is_some() <==> old(self)@.removable(place as int),
            gone.is_none() ==> final(self)@ == old(self)@,
            gone matches Some(m) ==> {
                &&& m == old(self)@.roster[place as int]
                &&& final(self)@ == old(self)@.without(place as int)
                &&& final(self)@.roster[final(self)@.anchor] == old(self)@.roster[old(self)@.anchor]
                &&& final(self)@.roster[final(self)@.player] == old(self)@.roster[old(self)@.player]
            },
    {
        if place >= self.mobiles.len() || place == self.player || place == self.anchor {
            return None;
        }
        let gone = self.mobiles.remove(place);
        if place < self.player {
            self.player = self.player - 1;
        }
        if place < self.anchor {
            self.anchor = self.anchor - 1;
        }
        proof {
            assert forall|i: int| 0 <= i < self@.roster.len() implies ((#[trigger] self@.roster[i]).kind
                == MobileKind::Player <==> i == self@.player) by {
                if i < place {
                    assert(self@.roster[i] == old(self)@.roster[i]);
                } else {
                    assert(self@.roster[i] == old(self)@.roster[i + 1]);
                }
            }
        }
        Some(gone)
    }

    /// Each entity with its location, in the order of the roster: what the
    /// spatial index is rebuilt from.
    pub fn entries(&self) -> (list: Vec<(Entity, PlanetLocation)>)
        ensures
            list@ == self@.entries(),
    {
        let mut list: Vec<(Entity, PlanetLocation)> = Vec::new();
        let mut i: usize = 0;
        while i < self.mobiles.len()
            invariant
                i <= self.mobiles@.len(),
                list@.len() == i,
                forall|k: int|
                    0 <= k < i ==> #[trigger] list@[k] == (self.mobiles@[k].id, self.mobiles@[k].location),
            decreases self.mobiles@.len() - i,
        {
            list.push((self.mobiles[i].id, self.mobiles[i].location));
            i = i + 1;
        }
        proof {
            assert(list@ =~= self@.entries());
        }
        list
    }

    /// Screen-relative position of each entity, in the order of the roster:
    /// its absolute position less that of the anchor. The anchor itself is
    /// at the origin.
    pub fn render_offsets(&self) -> (offsets: Vec<WorldPoint>)
        requires
            self@.wf(),
        ensures
            offsets@.len() == self@.roster.len(),
            forall|i: int|
                0 <= i < offsets@.len() ==> ((#[trigger] offsets@[i]).x as int, offsets@[i].y as int)
                    == offset_between(self@.roster[i].location, self@.anchor_location()),
            offsets@[self@.anchor] == (WorldPoint { x: 0, y: 0 }),
    {
        let origin = self.mobiles[self.anchor].location;
        let mut offsets: Vec<WorldPoint> = Vec::new();
        let mut i: usize = 0;
        while i < self.mobiles.len()
            invariant
                i <= self.mobiles@.len(),
                offsets@.len() == i,
                forall|k: int|
                    0 <= k < i ==> ((#[trigger] offsets@[k]).x as int, offsets@[k].y as int)
                        == offset_between(self.mobiles@[k].location, origin),
            decreases self.mobiles@.len() - i,
        {
            offsets.push(render_offset(&self.mobiles[i].location, &origin));
            i = i + 1;
        }
        offsets
    }
}

} // verus!
