use vstd::prelude::*;
use crate::geometry::{Pose, Velocity};

verus! {

/// The value of slot `i`, absent past the end.
pub open spec fn slot<T>(v: Seq<Option<T>>, i: int) -> Option<T> {
    if 0 <= i < v.len() {
        v[i]
    } else {
        None
    }
}

/// Whether body `i` is a physical body marked active.
pub open spec fn is_active(entities: Seq<Option<bool>>, i: int) -> bool {
    slot(entities, i) == Some(true)
}

/// The current value after the advance: the pending one for an active body
/// that holds both, else the current one unchanged.
pub open spec fn advanced<T>(active: bool, current: Option<T>, pending: Option<T>) -> Option<T> {
    if active && current is Some && pending is Some {
        pending
    } else {
        current
    }
}

/// Copies pending values into the current ones, for active bodies only.
fn promote<T: Copy>(entities: &Vec<Option<bool>>, current: &mut Vec<Option<T>>, pending: &Vec<Option<T>>)
    ensures
        final(current)@.len() == old(current)@.len(),
        forall|i: int|
            0 <= i < old(current)@.len() ==> #[trigger] final(current)@[i] == advanced(
                is_active(entities@, i),
                old(current)@[i],
                slot(pending@, i),
            ),
{
    let mut i: usize = 0;
    while i < current.len()
        invariant
            0 <= i <= current@.len(),
            current@.len() == old(current)@.len(),
            forall|k: int|
                0 <= k < i ==> #[trigger] current@[k] == advanced(
                    is_active(entities@, k),
                    old(current)@[k],
                    slot(pending@, k),
                ),
            forall|k: int| i <= k < current@.len() ==> #[trigger] current@[k] == old(current)@[k],
        decreases current@.len() - i,
    {
        let active = i < entities.len() && entities[i] == Some(true);
        if active && current[i].is_some() && i < pending.len() && pending[i].is_some() {
            let v = pending[i];
            current.set(i, v);
        }
        i = i + 1;
    }
}

/// Advances the current frame: each active body's pending pose and velocity
/// become its current ones.
#[derive(Debug)]
pub struct CurrentFrameUpdateSystem {
    _private: (),
}

impl CurrentFrameUpdateSystem {
    /// Create system.
    pub fn new() -> (r: Self) {
        CurrentFrameUpdateSystem { _private: () }
    }

    /// Slot `i` of each list belongs to body `i`; `entities` holds whether a
    /// physical body is active. A body that is inactive, not physical, or
    /// without a pending value keeps its current value.
    pub fn run(
        &self,
        entities: &Vec<Option<bool>>,
        velocities: &mut Vec<Option<Velocity>>,
        next_velocities: &Vec<Option<Velocity>>,
        poses: &mut Vec<Option<Pose>>,
        next_poses: &Vec<Option<Pose>>,
    )
        ensures
            final(poses)@.len() == old(poses)@.len(),
            forall|i: int|
                0 <= i < old(poses)@.len() ==> #[trigger] final(poses)@[i] == advanced(
                    is_active(entities@, i),
                    old(poses)@[i],
                    slot(next_poses@, i),
                ),
            final(velocities)@.len() == old(velocities)@.len(),
            forall|i: int|
                0 <= i < old(velocities)@.len() ==> #[trigger] final(velocities)@[i] == advanced(
                    is_active(entities@, i),
                    old(velocities)@[i],
                    slot(next_velocities@, i),
                ),
    {
        promote(entities, poses, next_poses);
        promote(entities, velocities, next_velocities);
    }
}

} // verus!
