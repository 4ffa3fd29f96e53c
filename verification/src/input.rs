use vstd::prelude::*;
use crate::crew::MovementSpeed;
use crate::location::Velocity;
use crate::units::trunc_div;

verus! {

/// Length of each component of a diagonal of unit length, in millionths.
pub const DIAGONAL_MILLIONTHS: u64 = 707_107;

/// Direction that two opposite keys ask for along one axis: 1, -1, or 0
/// where neither or both are held.
pub open spec fn intent(plus: bool, minus: bool) -> int {
    (if plus { 1int } else { 0int }) - (if minus { 1int } else { 0int })
}

/// Speed along one axis of an entity that is steered toward `along` on this
/// axis and `across` on the other: the whole speed where it moves along one
/// axis only, and the share of a diagonal of that length where it moves
/// along both.
pub open spec fn steered(along: int, across: int, speed: int) -> int {
    if along == 0 {
        0
    } else if across == 0 {
        along * speed
    } else {
        along * trunc_div(speed * DIAGONAL_MILLIONTHS, 1_000_000)
    }
}

/// Velocity of an entity of speed `speed` under the held direction keys:
/// unit length toward the keys times the speed, or rest.
pub fn control_velocity(up: bool, left: bool, down: bool, right: bool, speed: MovementSpeed) -> (v: Velocity)
    ensures
        v.x == steered(intent(right, left), intent(up, down), speed.0 as int),
        v.y == steered(intent(up, down), intent(right, left), speed.0 as int),
{
    let x: i64 = (if right { 1i64 } else { 0i64 }) - (if left { 1i64 } else { 0i64 });
    let y: i64 = (if up { 1i64 } else { 0i64 }) - (if down { 1i64 } else { 0i64 });
    let whole: i64 = speed.0 as i64;
    let share: i64 = (speed.0 as u64 * 707_107 / 1_000_000) as i64;
    let pace: i64 = if x != 0 && y != 0 { share } else { whole };
    Velocity { x: toward(x, pace), y: toward(y, pace) }
}

/// `pace` in the direction `dir`, which is 1, -1 or 0.
fn toward(dir: i64, pace: i64) -> (v: i64)
    requires
        -1 <= dir <= 1,
        0 <= pace <= u32::MAX,
    ensures
        v == dir * pace,
{
    assert(dir == 1 ==> dir * pace == pace) by (nonlinear_arith);
    assert(dir == -1 ==> dir * pace == -pace) by (nonlinear_arith);
    assert(dir == 0 ==> dir * pace == 0) by (nonlinear_arith);
    if dir > 0 {
        pace
    } else if dir < 0 {
        -pace
    } else {
        0
    }
}

} // verus!
