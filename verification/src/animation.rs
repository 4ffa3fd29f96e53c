use vstd::prelude::*;
use crate::location::Velocity;

verus! {

/// Number of directions a sprite can face: north, north-east and so on.
/// A sprite sheet has one row of frames for each.
pub const NUM_CARDINAL_DIRECTIONS: usize = 8;

/// Row of the sprite sheet that faces along a velocity which is not zero.
pub open spec fn facing_row(velocity: Velocity) -> int {
    if velocity.y > 0 {
        if velocity.x == 0 {
            6
        } else if velocity.x < 0 {
            7
        } else {
            5
        }
    } else if velocity.y < 0 {
        if velocity.x == 0 {
            2
        } else if velocity.x < 0 {
            1
        } else {
            3
        }
    } else if velocity.x < 0 {
        0
    } else {
        4
    }
}

/// Frame that a sprite shows once it faces its velocity, on a sheet of
/// `num_sprites` frames. At rest the sprite stands, in the first frame of its
/// row. A sprite that faces another way than it moves turns to the row of
/// its velocity, to the first walking frame where the sheet has any.
pub open spec fn faced_index(index: int, num_sprites: int, velocity: Velocity) -> int {
    let per_row = num_sprites / 8;
    let row = index / per_row;
    if velocity.x == 0 && velocity.y == 0 {
        row * per_row
    } else if row == facing_row(velocity) {
        index
    } else if per_row == 1 {
        facing_row(velocity)
    } else {
        facing_row(velocity) * per_row + 1
    }
}

/// Frame that follows `index` in the walk of a sprite, on a sheet of
/// `num_sprites` frames: the row stays, and the column steps on among the
/// walking frames, which are all of the row but its first.
pub open spec fn next_walk_index(index: int, num_sprites: int) -> int {
    let per_row = num_sprites / 8;
    let col = index % per_row;
    let row = index / per_row;
    1 + row * per_row + (col + 1) % (per_row - 1)
}

/// A walking sprite never shows the standing frame, and stays in its row.
pub proof fn lemma_walk_stays_in_row(index: int, num_sprites: int)
    requires
        index >= 0,
        num_sprites / 8 > 1,
    ensures
        next_walk_index(index, num_sprites) / (num_sprites / 8) == index / (num_sprites / 8),
        next_walk_index(index, num_sprites) % (num_sprites / 8) >= 1,
        next_walk_index(index, num_sprites) <= index + 2,
{
    let per_row = num_sprites / 8;
    let col = index % per_row;
    let row = index / per_row;
    let step = (col + 1) % (per_row - 1);
    vstd::arithmetic::div_mod::lemma_fundamental_div_mod(index, per_row);
    vstd::arithmetic::div_mod::lemma_mod_bound(index, per_row);
    vstd::arithmetic::div_mod::lemma_mod_bound(col + 1, per_row - 1);
    vstd::arithmetic::div_mod::lemma_div_pos_is_pos(index, per_row);
    assert(per_row * row == row * per_row) by (nonlinear_arith);
    vstd::arithmetic::div_mod::lemma_fundamental_div_mod_converse(
        1 + row * per_row + step,
        per_row,
        row,
        1 + step,
    );
    if col + 1 < per_row - 1 {
        vstd::arithmetic::div_mod::lemma_small_mod((col + 1) as nat, (per_row - 1) as nat);
    } else if col + 1 == per_row - 1 {
        vstd::arithmetic::div_mod::lemma_mod_self_0(per_row - 1);
    } else if per_row - 1 > 1 {
        vstd::arithmetic::div_mod::lemma_fundamental_div_mod_converse(col + 1, per_row - 1, 1, 1);
    }
}

/// Frame that follows `index` in the walk of a sprite on a sheet of
/// `num_sprites` frames. Only a sheet with walking frames animates.
pub fn next_walk_frame(index: usize, num_sprites: usize) -> (next: usize)
    requires
        num_sprites / 8 > 1,
        index + 2 <= usize::MAX,
    ensures
        next == next_walk_index(index as int, num_sprites as int),
{
    let total_frames_per_row = num_sprites / 8;
    let walking_frames_per_row = total_frames_per_row - 1;
    let current_col = index % total_frames_per_row;
    let current_row = index / total_frames_per_row;
    proof {
        lemma_walk_stays_in_row(index as int, num_sprites as int);
        vstd::arithmetic::div_mod::lemma_fundamental_div_mod(index as int, total_frames_per_row as int);
        vstd::arithmetic::div_mod::lemma_mod_bound(index as int, total_frames_per_row as int);
        vstd::arithmetic::div_mod::lemma_mod_bound(current_col + 1, walking_frames_per_row as int);
        assert(total_frames_per_row * current_row == current_row * total_frames_per_row)
            by (nonlinear_arith);
    }
    1 + (current_row * total_frames_per_row) + ((current_col + 1) % walking_frames_per_row)
}

/// Turns a sprite so that it faces its velocity, and returns the frame it
/// shows then. The sheet has at least one frame for each direction.
pub fn face_velocity(index: usize, num_sprites: usize, velocity: &Velocity) -> (faced: usize)
    requires
        num_sprites >= 8,
    ensures
        faced == faced_index(index as int, num_sprites as int, *velocity),
{
    let total_frames_per_row = num_sprites / 8;
    let current_row = index / total_frames_per_row;
    proof {
        vstd::arithmetic::div_mod::lemma_fundamental_div_mod(index as int, total_frames_per_row as int);
        vstd::arithmetic::div_mod::lemma_mod_bound(index as int, total_frames_per_row as int);
        assert(total_frames_per_row * current_row == current_row * total_frames_per_row)
            by (nonlinear_arith);
    }
    if velocity.x == 0 && velocity.y == 0 {
        return current_row * total_frames_per_row;
    }
    let target_row: usize = if velocity.y > 0 {
        if velocity.x == 0 {
            6
        } else if velocity.x < 0 {
            7
        } else {
            5
        }
    } else if velocity.y < 0 {
        if velocity.x == 0 {
            2
        } else if velocity.x < 0 {
            1
        } else {
            3
        }
    } else if velocity.x < 0 {
        0
    } else {
        4
    };
    if current_row != target_row {
        if total_frames_per_row == 1 {
            target_row
        } else {
            target_row * total_frames_per_row + 1
        }
    } else {
        index
    }
}

} // verus!
