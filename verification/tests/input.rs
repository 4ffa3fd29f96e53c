use planet_tiles::crew::MovementSpeed;
use planet_tiles::input::{control_velocity, DIAGONAL_MILLIONTHS};
use planet_tiles::location::Velocity;

#[test]
fn no_key_no_movement() {
    assert_eq!(control_velocity(false, false, false, false, MovementSpeed(2_000_000)), Velocity { x: 0, y: 0 });
}

#[test]
fn one_key_gives_full_speed() {
    let speed = MovementSpeed(2_000_000);
    assert_eq!(control_velocity(true, false, false, false, speed), Velocity { x: 0, y: 2_000_000 });
    assert_eq!(control_velocity(false, true, false, false, speed), Velocity { x: -2_000_000, y: 0 });
    assert_eq!(control_velocity(false, false, true, false, speed), Velocity { x: 0, y: -2_000_000 });
    assert_eq!(control_velocity(false, false, false, true, speed), Velocity { x: 2_000_000, y: 0 });
}

#[test]
fn diagonal_has_the_same_length() {
    let speed = MovementSpeed(2_000_000);
    assert_eq!(DIAGONAL_MILLIONTHS, 707_107);
    assert_eq!(control_velocity(true, false, false, true, speed), Velocity { x: 1_414_214, y: 1_414_214 });
    assert_eq!(control_velocity(false, true, true, false, speed), Velocity { x: -1_414_214, y: -1_414_214 });
    let v = control_velocity(true, true, false, false, MovementSpeed(u32::MAX));
    assert_eq!(v, Velocity { x: -3_037_001_439, y: 3_037_001_439 });
}

#[test]
fn opposite_keys_cancel() {
    let speed = MovementSpeed(3_000_000);
    assert_eq!(control_velocity(true, false, true, false, speed), Velocity { x: 0, y: 0 });
    assert_eq!(control_velocity(true, true, true, true, speed), Velocity { x: 0, y: 0 });
    assert_eq!(control_velocity(true, true, true, false, speed), Velocity { x: -3_000_000, y: 0 });
}
