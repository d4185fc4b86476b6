//! Pointer positions and the policy that tells a moved pointer from a resting one.

use vstd::prelude::*;

verus! {

/// Displacement, in pixels on either axis, from which the pointer counts as moved.
pub const STOP_THRESHOLD: i16 = 30;

/// A pointer position in screen space, in display-server pixels.
#[derive(Clone, Copy, Debug, PartialEq, Eq)]
pub struct Position {
    pub x: i16,
    pub y: i16,
}

/// Distance of `d` from zero.
pub open spec fn magnitude(d: int) -> int {
    if d < 0 {
        -d
    } else {
        d
    }
}

/// Whether a displacement of `dx` by `dy` pixels is beyond the tolerance.
///
/// The axes are judged independently: one of them reaching the threshold is
/// enough, and a diagonal move that stays under it on both axes is not.
pub open spec fn beyond_tolerance(dx: int, dy: int) -> bool {
    magnitude(dx) >= STOP_THRESHOLD || magnitude(dy) >= STOP_THRESHOLD
}

/// Whether `sample` lies beyond the tolerance around `start`.
pub open spec fn displaced(start: Position, sample: Position) -> bool {
    beyond_tolerance(sample.x - start.x, sample.y - start.y)
}

/// Decides whether the pointer, first seen at `start` and now at `sample`, has been moved.
pub fn pointer_moved(start: Position, sample: Position) -> (moved: bool)
    ensures
        moved == displaced(start, sample),
{
    let dx: i32 = sample.x as i32 - start.x as i32;
    let dy: i32 = sample.y as i32 - start.y as i32;
    let limit: i32 = STOP_THRESHOLD as i32;
    dx >= limit || dx <= -limit || dy >= limit || dy <= -limit
}

/// A displacement under 30 pixels on both axes never counts as movement, and
/// one of 30 pixels or more on either axis always does.
pub proof fn lemma_tolerance_is_per_axis(dx: int, dy: int)
    ensures
        (-30 < dx < 30 && -30 < dy < 30) ==> !beyond_tolerance(dx, dy),
        (dx >= 30 || dx <= -30 || dy >= 30 || dy <= -30) ==> beyond_tolerance(dx, dy),
{
}

/// The pointer at rest is never taken for a moved one, and the judgement does
/// not depend on which of the two positions is taken as the start.
pub proof fn lemma_displaced_is_symmetric(a: Position, b: Position)
    ensures
        !displaced(a, a),
        displaced(a, b) == displaced(b, a),
{
}

} // verus!
