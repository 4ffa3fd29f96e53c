use bevy::prelude::Entity;
use planet_tiles::crew::{Boarding, Crew, MovementSpeed, VehicleBundle};
use planet_tiles::location::{PlanetLocation, Subtile, Velocity, WorldPoint};
use planet_tiles::map::PlanetMap;
use planet_tiles::session::Session;
use planet_tiles::streaming::{attach_spawned, Viewport};

fn e(n: u32) -> Entity {
    Entity::from_raw(n)
}

fn at(tx: usize, ty: usize, sx: i64, sy: i64) -> PlanetLocation {
    PlanetLocation { tile: (tx, ty), subtile: Subtile { x: sx, y: sy } }
}

fn screen() -> Option<Viewport> {
    Some(Viewport { width: 256_000_000, height: 256_000_000 })
}

fn session() -> Session {
    let mut crew = Crew::new(e(1), at(5, 5, 900_000, 900_000), MovementSpeed(2_000_000));
    crew.spawn_vehicle(
        e(2),
        VehicleBundle {
            movement_speed: MovementSpeed(6_000_000),
            velocity: Velocity::zero(),
            location: at(6, 6, 0, 0),
        },
    );
    Session::new(crew, PlanetMap::new_earth())
}

fn load(session: &mut Session, spawns: &Vec<planet_tiles::streaming::TileSpawn>, first: u32) {
    let ids: Vec<Entity> = (0..spawns.len() as u32).map(|k| e(first + k)).collect();
    assert_eq!(attach_spawned(&mut session.map, spawns, &ids), spawns.len());
}

#[test]
fn new_session_has_an_empty_table() {
    let session = session();
    assert!(session.table.ents_in_tile((5, 5)).is_empty());
    assert_eq!(session.crew.len(), 2);
    assert_eq!(session.map.size(), 100);
}

#[test]
fn tick_runs_the_phases_in_order() {
    let mut session = session();
    session.crew.set_control_velocity(Velocity { x: 1_000_000, y: 0 });
    let frame = session.tick(200_000, screen());
    // positions first
    assert_eq!(session.crew.mobile(0).unwrap().location, at(6, 5, 100_000, 900_000));
    // the table is rebuilt from the new positions
    assert!(session.table.ents_in_tile((5, 5)).is_empty());
    assert_eq!(session.table.ents_in_tile((6, 5)), &[e(1)][..]);
    assert_eq!(session.table.ents_in_tile((6, 6)), &[e(2)][..]);
    // streaming looks from the new viewpoint, at 390.4 by 377.6 world units
    assert!(frame.gone.is_empty());
    assert_eq!(frame.spawns.len(), 49);
    assert_eq!(frame.spawns[0].tile, (3, 3));
    assert_eq!(frame.spawns[48].tile, (9, 9));
    // projection is relative to the new viewpoint
    assert_eq!(frame.offsets[0], WorldPoint { x: 0, y: 0 });
    assert_eq!(frame.offsets[1], WorldPoint { x: -6_400_000, y: 6_400_000 });
}

#[test]
fn tick_without_viewport_streams_nothing() {
    let mut session = session();
    let frame = session.tick(16_667, screen());
    load(&mut session, &frame.spawns, 100);
    session.crew.set_control_velocity(Velocity { x: 60_000_000, y: 0 });
    let frame = session.tick(1_000_000, None);
    assert!(frame.gone.is_empty());
    assert!(frame.spawns.is_empty());
    assert_eq!(session.crew.mobile(0).unwrap().location.tile, (65, 5));
    assert!(session.map.tile_has_entity(5, 5));
    assert_eq!(frame.offsets.len(), 2);
    let frame = session.tick(0, screen());
    assert_eq!(frame.gone.len(), 49);
    assert!(!session.map.tile_has_entity(5, 5));
}

#[test]
fn rider_follows_the_vehicle_through_ticks() {
    let mut session = session();
    session.tick(0, None);
    assert_eq!(session.crew.enter_or_exit_vehicles(&session.table), Boarding::Entered(1));
    session.crew.set_control_velocity(Velocity { x: 0, y: 6_000_000 });
    let frame = session.tick(500_000, screen());
    assert_eq!(session.crew.mobile(1).unwrap().location, at(6, 9, 0, 0));
    assert_eq!(session.crew.mobile(0).unwrap().location, at(6, 9, 0, 0));
    assert_eq!(session.table.ents_in_tile((6, 9)), &[e(1), e(2)][..]);
    assert_eq!(frame.offsets, vec![WorldPoint { x: 0, y: 0 }, WorldPoint { x: 0, y: 0 }]);
    assert_eq!(session.crew.enter_or_exit_vehicles(&session.table), Boarding::Left(1));
    assert_eq!(session.crew.anchor(), 0);
}

#[test]
fn despawn_leaves_roster_and_table() {
    let mut session = session();
    session.crew.spawn_vehicle(
        e(3),
        VehicleBundle {
            movement_speed: MovementSpeed(6_000_000),
            velocity: Velocity::zero(),
            location: at(6, 6, 0, 0),
        },
    );
    session.tick(0, None);
    assert_eq!(session.table.ents_in_tile((6, 6)), &[e(2), e(3)][..]);
    assert_eq!(session.despawn(0), None);
    assert_eq!(session.despawn(7), None);
    assert_eq!(session.table.ents_in_tile((6, 6)), &[e(2), e(3)][..]);
    let gone = session.despawn(1).unwrap();
    assert_eq!(gone.id, e(2));
    assert_eq!(session.crew.len(), 2);
    assert_eq!(session.crew.mobile(1).unwrap().id, e(3));
    assert_eq!(session.table.ents_in_tile((6, 6)), &[e(3)][..]);
    assert_eq!(session.table.ents_in_tile((5, 5)), &[e(1)][..]);
    assert_eq!(session.crew.enter_or_exit_vehicles(&session.table), Boarding::Entered(1));
    assert_eq!(session.despawn(1), None);
}

#[test]
fn streaming_keeps_up_over_many_ticks() {
    let mut session = session();
    session.crew.set_control_velocity(Velocity { x: 3_000_000, y: 1_000_000 });
    let mut next = 1000;
    for _ in 0..40 {
        let frame = session.tick(100_000, screen());
        load(&mut session, &frame.spawns, next);
        next += frame.spawns.len() as u32;
        let anchor = session.crew.anchor_location();
        let center_x = (anchor.tile.0 as i64 * 1_000_000 + anchor.subtile.x) * 64;
        let center_y = (anchor.tile.1 as i64 * 1_000_000 + anchor.subtile.y) * 64;
        for y in 0..100usize {
            for x in 0..100usize {
                let dx = (x as i64 * 64_000_000 - center_x).abs();
                let dy = (y as i64 * 64_000_000 - center_y).abs();
                // a tile is half a tile wide from its center, the window
                // 128 from its own, and the margin is one tile
                let padded = dx < 224_000_000 && dy < 224_000_000;
                assert_eq!(session.map.tile_has_entity(x, y), padded);
            }
        }
    }
}
