use vstd::prelude::*;
use crate::collide::{tree_collide, BroadPhase, ContactEvent, NarrowPhase, SpatialCollisionData};
use crate::dirty::{ids_in_range, DirtySet};
use crate::geometry::{BodyId, Pose, Shape};
use crate::index::SpatialIndex;

verus! {

/// Whether the per-body lookups cover the same ids and each shaped body has a
/// current pose.
pub open spec fn lookups_wf(shapes: Seq<Option<Shape>>, poses: Seq<Option<Pose>>, next_poses: Seq<Option<Pose>>) -> bool {
    &&& poses.len() == shapes.len()
    &&& next_poses.len() == shapes.len()
    &&& forall|i: int| 0 <= i < shapes.len() && #[trigger] shapes[i] is Some ==> poses[i] is Some
}

/// The bodies named by the four change streams.
pub open spec fn changed(
    pose_inserted: Seq<BodyId>,
    pose_modified: Seq<BodyId>,
    next_pose_inserted: Seq<BodyId>,
    next_pose_modified: Seq<BodyId>,
) -> Set<BodyId> {
    pose_inserted.to_set().union(pose_modified.to_set()).union(next_pose_inserted.to_set()).union(
        next_pose_modified.to_set(),
    )
}

/// Collision detection over a population of bodies, with optional broad and
/// narrow phases. Narrow phase runs only when both phases are configured.
pub struct SpatialCollisionSystem<N, B> {
    pub narrow: Option<N>,
    pub broad: Option<B>,
    pub dirty: DirtySet,
}

impl<N: NarrowPhase, B: BroadPhase> SpatialCollisionSystem<N, B> {
    /// Create a new collision detection system, with no broad or narrow phase activated.
    pub fn new() -> (r: Self)
        ensures
            r.narrow is None,
            r.broad is None,
            r.dirty@ == Set::<BodyId>::empty(),
    {
        SpatialCollisionSystem { narrow: None, broad: None, dirty: DirtySet::new() }
    }

    /// Specify what narrow phase algorithm to use
    pub fn with_narrow_phase(self, narrow: N) -> (r: Self)
        ensures
            r.narrow == Some(narrow),
            r.broad == self.broad,
            r.dirty@ == self.dirty@,
    {
        SpatialCollisionSystem { narrow: Some(narrow), broad: self.broad, dirty: self.dirty }
    }

    /// Specify what broad phase algorithm to use
    pub fn with_broad_phase(self, broad: B) -> (r: Self)
        ensures
            r.broad == Some(broad),
            r.narrow == self.narrow,
            r.dirty@ == self.dirty@,
    {
        SpatialCollisionSystem { narrow: self.narrow, broad: Some(broad), dirty: self.dirty }
    }

    /// Rebuilds the dirty set from the change notifications read since the
    /// last evaluation: each changed body once, and no other.
    pub fn collect_dirty(
        &mut self,
        pose_inserted: &Vec<BodyId>,
        pose_modified: &Vec<BodyId>,
        next_pose_inserted: &Vec<BodyId>,
        next_pose_modified: &Vec<BodyId>,
    )
        requires
            ids_in_range(pose_inserted@),
            ids_in_range(pose_modified@),
            ids_in_range(next_pose_inserted@),
            ids_in_range(next_pose_modified@),
        ensures
            final(self).dirty@ == changed(pose_inserted@, pose_modified@, next_pose_inserted@, next_pose_modified@),
            final(self).narrow == old(self).narrow,
            final(self).broad == old(self).broad,
    {
        self.dirty.clear();
        self.dirty.populate(pose_inserted);
        self.dirty.populate(pose_modified);
        self.dirty.populate(next_pose_inserted);
        self.dirty.populate(next_pose_modified);
        assert(self.dirty@ =~= changed(pose_inserted@, pose_modified@, next_pose_inserted@, next_pose_modified@));
    }

    /// One evaluation: collects the dirty set, refreshes the index for it and
    /// reports the contact events of the configured phases.
    pub fn run(
        &mut self,
        pose_inserted: &Vec<BodyId>,
        pose_modified: &Vec<BodyId>,
        next_pose_inserted: &Vec<BodyId>,
        next_pose_modified: &Vec<BodyId>,
        shapes: &Vec<Option<Shape>>,
        poses: &Vec<Option<Pose>>,
        next_poses: &Vec<Option<Pose>>,
        index: &mut SpatialIndex,
    ) -> (r: Vec<ContactEvent>)
        requires
            ids_in_range(pose_inserted@),
            ids_in_range(pose_modified@),
            ids_in_range(next_pose_inserted@),
            ids_in_range(next_pose_modified@),
            lookups_wf(shapes@, poses@, next_poses@),
            forall|id: BodyId| #[trigger] old(index)@.contains_key(id) ==> (id as int) < shapes@.len()
                && shapes@[id as int] is Some,
        ensures
            final(self).dirty@ == changed(pose_inserted@, pose_modified@, next_pose_inserted@, next_pose_modified@),
            final(self).narrow == old(self).narrow,
            final(self).broad == old(self).broad,
            ({
                let data = SpatialCollisionData { shapes, poses, next_poses, dirty: &final(self).dirty };
                &&& final(index)@ == old(index)@.union_prefer_right(data.dirty_bounds())
                &&& old(self).broad is None ==> r@.len() == 0
                &&& old(self).broad is Some ==> exists|c: Seq<(BodyId, BodyId)>|
                    {
                        &&& old(self).broad.unwrap().valid_pairs(final(index)@, c)
                        &&& r@ == data.events_spec(old(self).narrow, c)
                    }
            }),
    {
        self.collect_dirty(pose_inserted, pose_modified, next_pose_inserted, next_pose_modified);
        let data = SpatialCollisionData { shapes, poses, next_poses, dirty: &self.dirty };
        tree_collide(&data, index, &self.broad, &self.narrow)
    }
}

} // verus!
