//! Per-tick input snapshots: either a pointer target or two directional
//! axis signals, with pointer mode taking precedence by construction of
//! the discriminated type.

use vstd::prelude::*;
use crate::vector::Vector2;

verus! {

/// One directional axis: negative, none, or positive.
#[derive(Clone, Copy, Debug, PartialEq, Eq, Structural)]
pub enum AxisSignal {
    Negative,
    Neutral,
    Positive,
}

impl AxisSignal {
    /// The sign the signal contributes to a displacement.
    pub open spec fn sign(self) -> int {
        match self {
            AxisSignal::Negative => -1,
            AxisSignal::Neutral => 0,
            AxisSignal::Positive => 1,
        }
    }

    /// Whether the axis is active at all.
    pub open spec fn is_active(self) -> bool {
        self != AxisSignal::Neutral
    }
}

/// Resolves one axis from its two pressed states; the negative direction
/// wins when both keys are held.
pub fn resolve_axis(negative_down: bool, positive_down: bool) -> (s: AxisSignal)
    ensures
        s == (if negative_down {
            AxisSignal::Negative
        } else if positive_down {
            AxisSignal::Positive
        } else {
            AxisSignal::Neutral
        }),
{
    if negative_down {
        AxisSignal::Negative
    } else if positive_down {
        AxisSignal::Positive
    } else {
        AxisSignal::Neutral
    }
}

/// What the driver sampled for one tick. A pointer target overrides the
/// directional signals entirely; the two never blend.
#[derive(Clone, Copy, Debug, PartialEq, Eq, Structural)]
pub enum InputSnapshot {
    /// The runner walks toward this point of the play surface.
    Pointer { target: Vector2 },
    /// The runner walks along the active axes.
    Directional { horizontal: AxisSignal, vertical: AxisSignal },
}

/// How far off the play surface a pointer target may lie.
pub const POINTER_LIMIT: i64 = 33554432;

/// Whether a snapshot is within the coordinate range the simulation
/// accepts (a machine limit, not a rule of the game).
pub open spec fn input_in_range(input: InputSnapshot) -> bool {
    match input {
        InputSnapshot::Pointer { target } => -POINTER_LIMIT <= target@.x <= POINTER_LIMIT
            && -POINTER_LIMIT <= target@.y <= POINTER_LIMIT,
        InputSnapshot::Directional { .. } => true,
    }
}

/// Checks `input_in_range` at run time, for callers outside the
/// verified world.
pub fn check_input_in_range(input: InputSnapshot) -> (ok: bool)
    ensures
        ok == input_in_range(input),
{
    match input {
        InputSnapshot::Pointer { target } => -POINTER_LIMIT <= target.x && target.x
            <= POINTER_LIMIT && -POINTER_LIMIT <= target.y && target.y <= POINTER_LIMIT,
        InputSnapshot::Directional { .. } => true,
    }
}

} // verus!
