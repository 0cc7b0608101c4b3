//! What the movement keys make of a tick.

use vstd::prelude::*;

verus! {

/// The player moves at this many units a second.
pub const PLAYER_SPEED: i64 = 5;

/// How far one tick moves the player along two of its own axes, in millionths of a
/// unit.
#[derive(Clone, Copy, Debug, PartialEq, Eq)]
pub struct Step {
    /// Along the player's x axis: positive to its right.
    pub local_x: i64,
    /// Along the player's z axis: positive backwards.
    pub local_z: i64,
}

/// The direction that two opposed keys leave: one step for the second alone, one
/// back for the first alone, none for both or neither.
pub open spec fn direction(negative: bool, positive: bool) -> int {
    (if positive {
        1int
    } else {
        0int
    }) - (if negative {
        1int
    } else {
        0int
    })
}

/// What the four movement keys make of a tick of length `dt`: each key that is down
/// moves the player `PLAYER_SPEED * dt` along its axis, and opposed keys cancel.
pub fn move_player(forward: bool, back: bool, left: bool, right: bool, dt: u32) -> (step: Step)
    ensures
        step.local_x == direction(left, right) * PLAYER_SPEED * dt,
        step.local_z == direction(forward, back) * PLAYER_SPEED * dt,
{
    let distance: i64 = PLAYER_SPEED * (dt as i64);
    proof {
        let d: int = distance as int;
        assert(direction(left, right) * PLAYER_SPEED * dt == direction(left, right) * d
            && direction(forward, back) * PLAYER_SPEED * dt == direction(forward, back) * d)
            by (nonlinear_arith)
            requires
                d == PLAYER_SPEED * dt,
        ;
        assert(1 * d == d && 0 * d == 0 && (-1) * d == -d);
    }
    let mut local_x: i64 = 0;
    let mut local_z: i64 = 0;
    if forward {
        local_z = local_z - distance;
    }
    if back {
        local_z = local_z + distance;
    }
    if left {
        local_x = local_x - distance;
    }
    if right {
        local_x = local_x + distance;
    }
    Step { local_x, local_z }
}

} // verus!
