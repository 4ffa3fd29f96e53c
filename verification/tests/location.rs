use planet_tiles::location::{absolute, displace, normalize_axis, PlanetLocation, Subtile, Velocity, WorldPoint};
use planet_tiles::units::{MAP_SIZE, SUBTILE_UNITS, TILE_SIZE, TILE_SPAN};

fn at(tx: usize, ty: usize, sx: i64, sy: i64) -> PlanetLocation {
    PlanetLocation { tile: (tx, ty), subtile: Subtile { x: sx, y: sy } }
}

#[test]
fn units_agree() {
    assert_eq!(TILE_SPAN, TILE_SIZE * SUBTILE_UNITS);
    assert_eq!(MAP_SIZE, 100);
}

#[test]
fn default_location_is_origin() {
    assert_eq!(PlanetLocation::default(), at(0, 0, 0, 0));
    assert_eq!(Velocity::zero(), Velocity { x: 0, y: 0 });
    assert_eq!(Velocity::default(), Velocity { x: 0, y: 0 });
}

#[test]
fn carry_into_next_tile() {
    // tile (5,5), subtile (0.9,0.9), velocity (1,0), dt 0.2 s
    let loc = at(5, 5, 900_000, 900_000);
    let moved = loc.normalize(&Velocity { x: 1_000_000, y: 0 }, 200_000, MAP_SIZE);
    assert_eq!(moved, at(6, 5, 100_000, 900_000));
}

#[test]
fn clamp_at_tile_zero() {
    // map of 10 tiles, tile (0,3), subtile (0.0,0.5), velocity (-5,0), dt 1 s
    let loc = at(0, 3, 0, 500_000);
    let moved = loc.normalize(&Velocity { x: -5_000_000, y: 0 }, 1_000_000, 10);
    assert_eq!(moved, at(0, 3, 0, 500_000));
}

#[test]
fn tile_zero_holds_offset_non_negative() {
    let loc = at(0, 0, 100_000, 200_000);
    let moved = loc.normalize(&Velocity { x: -300_000, y: -2_500_000 }, 1_000_000, 10);
    assert_eq!(moved, at(0, 0, 0, 0));
}

#[test]
fn far_border_pins_tile_and_zeroes_offset() {
    let loc = at(8, 9, 700_000, 0);
    let moved = loc.normalize(&Velocity { x: 500_000, y: 250_000 }, 1_000_000, 10);
    assert_eq!(moved, at(9, 9, 0, 0));
    let far = at(3, 3, 0, 0).normalize(&Velocity { x: i64::MAX, y: i64::MAX }, u64::MAX, 10);
    assert_eq!(far, at(9, 9, 0, 0));
}

#[test]
fn huge_backward_step_stops_at_tile_zero() {
    let moved = at(7, 7, 999_999, 1).normalize(&Velocity { x: i64::MIN, y: i64::MIN }, u64::MAX, 10);
    assert_eq!(moved, at(0, 0, 0, 0));
}

#[test]
fn backward_step_borrows_from_the_tile() {
    let moved = at(5, 5, 100_000, 100_000).normalize(&Velocity { x: -300_000, y: -1_500_000 }, 1_000_000, 10);
    assert_eq!(moved, at(4, 3, 800_000, 600_000));
    let small = at(5, 5, 0, 0).normalize(&Velocity { x: -300_000, y: -1 }, 1_000_000, 100);
    assert_eq!(small, at(4, 4, 700_000, 999_999));
}

#[test]
fn raw_offset_of_any_sign_is_taken_into_the_tile() {
    let raw = at(5, 5, -2_500_000, 500_000).normalize(&Velocity::zero(), 1_000_000, 100);
    assert_eq!(raw, at(2, 5, 500_000, 500_000));
    let ahead = at(5, 5, 2_500_000, -500_000).normalize(&Velocity::zero(), 0, 100);
    assert_eq!(ahead, at(7, 4, 500_000, 500_000));
}

#[test]
fn backward_by_whole_tiles_rests_at_offset_zero() {
    let moved = at(5, 5, 0, 500_000).normalize(&Velocity { x: -2_000_000, y: -3_000_000 }, 1_000_000, 10);
    assert_eq!(moved, at(3, 2, 0, 500_000));
}

#[test]
fn exact_tile_boundary_carries_whole_tile() {
    let moved = at(2, 2, 500_000, 0).normalize(&Velocity { x: 500_000, y: -1_000_000 }, 1_000_000, 10);
    assert_eq!(moved, at(3, 1, 0, 0));
}

#[test]
fn map_of_one_tile_keeps_everything_on_it() {
    let moved = at(0, 0, 0, 0).normalize(&Velocity { x: 250_000, y: 3_000_000 }, 1_000_000, 1);
    assert_eq!(moved, at(0, 0, 0, 0));
}

#[test]
fn normalize_is_idempotent_at_rest() {
    let starts = [at(5, 5, 900_000, 900_000), at(0, 3, 0, 500_000), at(8, 9, 700_000, 0), at(5, 5, 100_000, 100_000)];
    let speeds = [
        Velocity { x: 1_000_000, y: 0 },
        Velocity { x: -5_000_000, y: 0 },
        Velocity { x: 500_000, y: 250_000 },
        Velocity { x: -300_000, y: -1_500_000 },
    ];
    for loc in starts.iter() {
        for v in speeds.iter() {
            let once = loc.normalize(v, 1_000_000, 10);
            let twice = once.normalize(&Velocity::zero(), 1_000_000, 10);
            assert_eq!(once, twice);
            assert!(once.tile.0 < 10 && once.tile.1 < 10);
            assert!(0 <= once.subtile.x && once.subtile.x < SUBTILE_UNITS);
            assert!(0 <= once.subtile.y && once.subtile.y < SUBTILE_UNITS);
        }
    }
}

#[test]
fn forward_steps_rest_inside_the_tile() {
    for step in 0..40i64 {
        let moved = at(1, 1, 0, 0).normalize(&Velocity { x: step * 333_333, y: step * 77_777 }, 1_000_000, 10);
        assert!(moved.tile.0 < 10 && moved.tile.1 < 10);
        assert!(0 <= moved.subtile.x && moved.subtile.x < SUBTILE_UNITS);
        assert!(0 <= moved.subtile.y && moved.subtile.y < SUBTILE_UNITS);
        if moved.tile.0 == 9 {
            assert_eq!(moved.subtile.x, 0);
        }
    }
}

#[test]
fn displacement_rounds_toward_zero() {
    assert_eq!(displace(2_000_000, 16_667), 33_334);
    assert_eq!(displace(1_000_000, 200_000), 200_000);
    assert_eq!(displace(-1, 999_999), 0);
    assert_eq!(displace(-3, 500_000), -1);
    assert_eq!(displace(0, u64::MAX), 0);
    assert_eq!(displace(i64::MIN, u64::MAX), -170141183460469231722463931679029);
}

#[test]
fn axis_normalization_by_hand() {
    assert_eq!(normalize_axis(5, 900_000, 200_000, 100), (6, 100_000));
    assert_eq!(normalize_axis(5, 0, -2_000_001, 100), (2, 999_999));
    assert_eq!(normalize_axis(5, 0, -5_000_000, 100), (0, 0));
    assert_eq!(normalize_axis(5, 0, -4_999_999, 100), (0, 1));
    assert_eq!(normalize_axis(1, 0, -2_000_001, 100), (0, 0));
    assert_eq!(normalize_axis(98, 999_999, 1, 100), (99, 0));
    assert_eq!(normalize_axis(98, 999_998, 1, 100), (98, 999_999));
    assert_eq!(normalize_axis(usize::MAX, 0, 0, 100), (99, 0));
}

#[test]
fn full_location_scales_by_tile_size() {
    let p = at(1, 2, 500_000, 250_000).to_full_location();
    assert_eq!(p, WorldPoint { x: 96_000_000, y: 144_000_000 });
    assert_eq!(absolute(3, -250_000), 176_000_000);
    assert_eq!(at(0, 0, 0, 0).to_full_location(), WorldPoint { x: 0, y: 0 });
}
