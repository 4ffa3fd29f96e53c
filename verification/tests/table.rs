use bevy::prelude::Entity;
use planet_tiles::location::{PlanetLocation, Subtile};
use planet_tiles::table::LocationTable;

fn at(tx: usize, ty: usize) -> PlanetLocation {
    PlanetLocation { tile: (tx, ty), subtile: Subtile { x: 1, y: 2 } }
}

fn e(n: u32) -> Entity {
    Entity::from_raw(n)
}

fn es(ns: &[u32]) -> Vec<Entity> {
    ns.iter().map(|n| e(*n)).collect()
}

fn sample() -> Vec<(Entity, PlanetLocation)> {
    vec![
        (e(10), at(5, 5)),
        (e(11), at(6, 5)),
        (e(12), at(5, 5)),
        (e(13), at(7, 7)),
        (e(14), at(5, 8)),
        (e(15), at(0, 0)),
        (e(16), at(3, 5)),
    ]
}

#[test]
fn new_table_is_empty() {
    let table = LocationTable::new();
    assert!(table.ents_in_tile((0, 0)).is_empty());
    assert!(table.ents_in_tile_and_neighbors((5, 5), 3).is_empty());
}

#[test]
fn rebuild_files_each_entity_under_its_tile() {
    let mut table = LocationTable::new();
    table.rebuild(&sample());
    assert_eq!(table.ents_in_tile((5, 5)), &es(&[10, 12])[..]);
    assert_eq!(table.ents_in_tile((6, 5)), &es(&[11])[..]);
    assert_eq!(table.ents_in_tile((7, 7)), &es(&[13])[..]);
    assert_eq!(table.ents_in_tile((0, 0)), &es(&[15])[..]);
    assert!(table.ents_in_tile((5, 6)).is_empty());
    assert!(table.ents_in_tile((usize::MAX, usize::MAX)).is_empty());
}

#[test]
fn tiles_do_not_share_a_key() {
    let mut table = LocationTable::new();
    table.rebuild(&vec![(e(1), at(0, 1)), (e(2), at(1, 0)), (e(3), at(usize::MAX, 0)), (e(4), at(0, usize::MAX))]);
    assert_eq!(table.ents_in_tile((0, 1)), &es(&[1])[..]);
    assert_eq!(table.ents_in_tile((1, 0)), &es(&[2])[..]);
    assert_eq!(table.ents_in_tile((usize::MAX, 0)), &es(&[3])[..]);
    assert_eq!(table.ents_in_tile((0, usize::MAX)), &es(&[4])[..]);
}

#[test]
fn rebuild_forgets_what_was_there() {
    let mut table = LocationTable::new();
    table.rebuild(&sample());
    table.rebuild(&vec![(e(12), at(6, 5))]);
    assert!(table.ents_in_tile((5, 5)).is_empty());
    assert_eq!(table.ents_in_tile((6, 5)), &es(&[12])[..]);
    table.rebuild(&Vec::new());
    assert!(table.ents_in_tile((6, 5)).is_empty());
}

#[test]
fn rebuild_is_deterministic() {
    let mut a = LocationTable::new();
    let mut b = LocationTable::new();
    a.rebuild(&sample());
    b.rebuild(&vec![(e(99), at(1, 1))]);
    b.rebuild(&sample());
    for y in 0..10 {
        for x in 0..10 {
            assert_eq!(a.ents_in_tile((x, y)), b.ents_in_tile((x, y)));
            let here: Vec<Entity> =
                sample().iter().filter(|e| e.1.tile == (x, y)).map(|e| e.0).collect();
            assert_eq!(a.ents_in_tile((x, y)), &here[..]);
        }
    }
}

#[test]
fn radius_zero_is_the_tile_itself() {
    let mut table = LocationTable::new();
    table.rebuild(&sample());
    for y in 0..10 {
        for x in 0..10 {
            assert_eq!(&table.ents_in_tile_and_neighbors((x, y), 0)[..], table.ents_in_tile((x, y)));
        }
    }
}

#[test]
fn neighbors_come_row_by_row() {
    let mut table = LocationTable::new();
    table.rebuild(&sample());
    assert_eq!(table.ents_in_tile_and_neighbors((5, 5), 1), es(&[10, 12, 11]));
    assert_eq!(table.ents_in_tile_and_neighbors((5, 5), 2), es(&[16, 10, 12, 11, 13]));
    assert_eq!(table.ents_in_tile_and_neighbors((5, 5), 3), es(&[16, 10, 12, 11, 13, 14]));
    assert_eq!(table.ents_in_tile_and_neighbors((5, 5), 5), es(&[15, 16, 10, 12, 11, 13, 14]));
}

#[test]
fn neighborhood_is_symmetric() {
    let mut table = LocationTable::new();
    table.rebuild(&sample());
    assert!(table.ents_in_tile_and_neighbors((5, 5), 2).contains(&e(13)));
    assert!(table.ents_in_tile_and_neighbors((7, 7), 2).contains(&e(10)));
    assert!(!table.ents_in_tile_and_neighbors((5, 5), 2).contains(&e(14)));
    assert!(!table.ents_in_tile_and_neighbors((5, 8), 2).contains(&e(10)));
}

#[test]
fn neighborhood_stops_at_the_ends_of_the_axes() {
    let mut table = LocationTable::new();
    table.rebuild(&vec![(e(1), at(0, 0)), (e(2), at(1, 2)), (e(3), at(usize::MAX, usize::MAX))]);
    assert_eq!(table.ents_in_tile_and_neighbors((0, 0), 2), es(&[1, 2]));
    assert_eq!(table.ents_in_tile_and_neighbors((1, 1), 1), es(&[1, 2]));
    assert_eq!(table.ents_in_tile_and_neighbors((usize::MAX, usize::MAX - 1), 1), es(&[3]));
}
