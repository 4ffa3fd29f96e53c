use bevy::prelude::Entity;
use planet_tiles::map::{MapError, PlanetMap, TileKind};

fn e(n: u32) -> Entity {
    Entity::from_raw(n)
}

#[test]
fn earth_has_full_size_and_border_ring() {
    let map = PlanetMap::new_earth();
    assert_eq!(map.size(), 100);
    for k in 0..100 {
        assert_eq!(map.tile_kind(k, 0), Some(TileKind::WorldBorder));
        assert_eq!(map.tile_kind(k, 99), Some(TileKind::WorldBorder));
        assert_eq!(map.tile_kind(0, k), Some(TileKind::WorldBorder));
        assert_eq!(map.tile_kind(99, k), Some(TileKind::WorldBorder));
    }
    for y in 1..99 {
        for x in 1..99 {
            assert_eq!(map.tile_kind(x, y), Some(TileKind::Grass));
        }
    }
    for y in 0..100 {
        for x in 0..100 {
            assert!(!map.tile_has_entity(x, y));
        }
    }
}

#[test]
fn sized_map_and_its_limits() {
    assert!(PlanetMap::with_size(0).is_none());
    assert!(PlanetMap::with_size(usize::MAX).is_none());
    let map = PlanetMap::with_size(3).unwrap();
    assert_eq!(map.size(), 3);
    assert_eq!(map.tile_kind(1, 1), Some(TileKind::Grass));
    assert_eq!(map.tile_kind(2, 1), Some(TileKind::WorldBorder));
    assert_eq!(map.tile_kind(3, 1), None);
    assert_eq!(map.tile_kind(1, 3), None);
    let one = PlanetMap::with_size(1).unwrap();
    assert_eq!(one.tile_kind(0, 0), Some(TileKind::WorldBorder));
}

#[test]
fn one_visual_per_tile() {
    let mut map = PlanetMap::with_size(4).unwrap();
    assert_eq!(map.put_tile_entity(1, 2, e(77)), Ok(()));
    assert!(map.tile_has_entity(1, 2));
    assert!(!map.tile_has_entity(2, 1));
    assert_eq!(map.tile_entity(1, 2), Some(e(77)));
    assert_eq!(map.put_tile_entity(1, 2, e(78)), Err(MapError::Occupied));
    assert_eq!(map.tile_entity(1, 2), Some(e(77)));
    assert_eq!(map.tile_kind(1, 2), Some(TileKind::Grass));
}

#[test]
fn attach_outside_map_is_refused() {
    let mut map = PlanetMap::with_size(4).unwrap();
    assert_eq!(map.put_tile_entity(4, 0, e(1)), Err(MapError::OutOfBounds));
    assert_eq!(map.put_tile_entity(0, 4, e(1)), Err(MapError::OutOfBounds));
    assert!(!map.tile_has_entity(4, 0));
    assert_eq!(map.tile_entity(0, 4), None);
}

#[test]
fn detach_is_idempotent() {
    let mut map = PlanetMap::with_size(4).unwrap();
    map.put_tile_entity(3, 3, e(5)).unwrap();
    map.put_tile_entity(0, 3, e(6)).unwrap();
    map.delete_tile_ent_at(3, 3);
    assert!(!map.tile_has_entity(3, 3));
    assert_eq!(map.tile_entity(0, 3), Some(e(6)));
    map.delete_tile_ent_at(3, 3);
    map.delete_tile_ent_at(9, 9);
    assert!(!map.tile_has_entity(3, 3));
    assert_eq!(map.tile_entity(0, 3), Some(e(6)));
    assert_eq!(map.tile_kind(3, 3), Some(TileKind::WorldBorder));
    assert_eq!(map.put_tile_entity(3, 3, e(8)), Ok(()));
    assert_eq!(map.tile_entity(3, 3), Some(e(8)));
}

#[test]
fn texture_of_each_kind() {
    assert_eq!(TileKind::Grass.get_texture(), "grass.png");
    assert_eq!(TileKind::WorldBorder.get_texture(), "world_border.png");
}
