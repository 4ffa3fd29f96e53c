use planet_tiles::animation::{face_velocity, next_walk_frame, NUM_CARDINAL_DIRECTIONS};
use planet_tiles::location::Velocity;

fn v(x: i64, y: i64) -> Velocity {
    Velocity { x, y }
}

#[test]
fn walk_steps_among_walking_frames() {
    assert_eq!(NUM_CARDINAL_DIRECTIONS, 8);
    assert_eq!(next_walk_frame(0, 40), 2);
    assert_eq!(next_walk_frame(1, 40), 3);
    assert_eq!(next_walk_frame(2, 40), 4);
    assert_eq!(next_walk_frame(3, 40), 1);
    assert_eq!(next_walk_frame(4, 40), 2);
    assert_eq!(next_walk_frame(7, 40), 9);
    assert_eq!(next_walk_frame(5, 16), 5);
}

#[test]
fn walk_stays_in_its_row() {
    for index in 0..40usize {
        let next = next_walk_frame(index, 40);
        assert_eq!(next / 5, index / 5);
        assert!(next % 5 >= 1);
    }
}

#[test]
fn resting_sprite_stands() {
    assert_eq!(face_velocity(7, 40, &v(0, 0)), 5);
    assert_eq!(face_velocity(5, 40, &v(0, 0)), 5);
    assert_eq!(face_velocity(3, 8, &v(0, 0)), 3);
}

#[test]
fn moving_sprite_turns_to_its_direction() {
    assert_eq!(face_velocity(7, 40, &v(-1, 0)), 1);
    assert_eq!(face_velocity(7, 40, &v(-1, -1)), 7);
    assert_eq!(face_velocity(0, 40, &v(-1, -1)), 6);
    assert_eq!(face_velocity(7, 40, &v(0, -1)), 11);
    assert_eq!(face_velocity(7, 40, &v(1, -1)), 16);
    assert_eq!(face_velocity(7, 40, &v(1, 0)), 21);
    assert_eq!(face_velocity(7, 40, &v(1, 1)), 26);
    assert_eq!(face_velocity(7, 40, &v(0, 1)), 31);
    assert_eq!(face_velocity(7, 40, &v(-1, 1)), 36);
}

#[test]
fn sprite_that_faces_its_direction_keeps_its_frame() {
    assert_eq!(face_velocity(23, 40, &v(5, 0)), 23);
    assert_eq!(face_velocity(4, 8, &v(5, 0)), 4);
}

#[test]
fn sheet_without_walking_frames_turns_to_the_row() {
    assert_eq!(face_velocity(3, 8, &v(-1, -1)), 1);
    assert_eq!(face_velocity(3, 8, &v(0, 1)), 6);
    assert_eq!(face_velocity(0, 15, &v(-2, 3)), 7);
}
