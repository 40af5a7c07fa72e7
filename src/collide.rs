use vstd::prelude::*;
use crate::dirty::DirtySet;
use crate::geometry::{bound_spec, compute_bound, Aabb, BodyId, Pose, Shape};
use crate::index::{is_overlap_list, overlapping_in, SpatialIndex};

verus! {

/// Precise contact between two bodies: unit normal along one axis and
/// penetration depth.
#[derive(Clone, Copy, Debug, PartialEq, Eq, Structural)]
pub struct Contact {
    pub normal_x: i64,
    pub normal_y: i64,
    pub depth: i64,
}

/// A detected intersection of bodies `a` and `b`. Without contact data it is
/// a bound-level report from the broad phase alone.
#[derive(Clone, Copy, Debug, PartialEq, Eq)]
pub struct ContactEvent {
    pub a: BodyId,
    pub b: BodyId,
    pub contact: Option<Contact>,
}

/// Precise stage: contacts between two placed shapes. The result depends on
/// the arguments alone.
pub trait NarrowPhase {
    spec fn contacts_spec(&self, a: Shape, pa: Pose, b: Shape, pb: Pose) -> Seq<Contact>;

    fn collide(&self, a: &Shape, pa: &Pose, b: &Shape, pb: &Pose) -> (r: Vec<Contact>)
        ensures
            r@ == self.contacts_spec(*a, *pa, *b, *pb),
    ;
}

/// Coarse stage: candidate pairs of indexed bodies, read from the refreshed index.
pub trait BroadPhase {
    /// What the algorithm promises of the pairs it reports for an index.
    spec fn valid_pairs(&self, m: Map<BodyId, Aabb>, r: Seq<(BodyId, BodyId)>) -> bool;

    fn find_pairs(&self, index: &SpatialIndex) -> (r: Vec<(BodyId, BodyId)>)
        ensures
            self.valid_pairs(index@, r@),
            forall|k: int|
                0 <= k < r@.len() ==> index@.contains_key(#[trigger] r@[k].0) && index@.contains_key(
                    r@[k].1,
                ),
    ;
}

/// Broad phase reporting every overlapping pair of leaves of the index.
#[derive(Clone, Copy, Debug)]
pub struct IndexBroadPhase;

impl BroadPhase for IndexBroadPhase {
    open spec fn valid_pairs(&self, m: Map<BodyId, Aabb>, r: Seq<(BodyId, BodyId)>) -> bool {
        is_overlap_list(m, r)
    }

    fn find_pairs(&self, index: &SpatialIndex) -> (r: Vec<(BodyId, BodyId)>) {
        let r = index.overlapping_pairs();
        assert(is_overlap_list(index@, r@));
        assert forall|k: int| 0 <= k < r@.len() implies index@.contains_key(#[trigger] r@[k].0)
            && index@.contains_key(r@[k].1) by {
            assert(overlapping_in(index@, r@[k].0, r@[k].1));
        }
        r
    }
}

/// The contacts of two boxes whose bounds overlap: one contact along the
/// axis of least penetration, its normal pointing from `a` towards `b`.
pub open spec fn box_contacts(a: Shape, pa: Pose, b: Shape, pb: Pose) -> Seq<Contact> {
    let ba = bound_spec(a, pa);
    let bb = bound_spec(b, pb);
    if !ba.overlaps_spec(bb) {
        Seq::empty()
    } else {
        let dx = (if ba.max_x <= bb.max_x { ba.max_x } else { bb.max_x }) - (if ba.min_x >= bb.min_x {
            ba.min_x
        } else {
            bb.min_x
        });
        let dy = (if ba.max_y <= bb.max_y { ba.max_y } else { bb.max_y }) - (if ba.min_y >= bb.min_y {
            ba.min_y
        } else {
            bb.min_y
        });
        if dx <= dy {
            let nx: i64 = if ba.min_x + ba.max_x <= bb.min_x + bb.max_x { 1i64 } else { -1i64 };
            seq![Contact { normal_x: nx, normal_y: 0, depth: dx as i64 }]
        } else {
            let ny: i64 = if ba.min_y + ba.max_y <= bb.min_y + bb.max_y { 1i64 } else { -1i64 };
            seq![Contact { normal_x: 0, normal_y: ny, depth: dy as i64 }]
        }
    }
}

/// Narrow phase for box shapes, reporting the overlap of their bounds.
#[derive(Clone, Copy, Debug)]
pub struct BoxNarrowPhase;

impl NarrowPhase for BoxNarrowPhase {
    open spec fn contacts_spec(&self, a: Shape, pa: Pose, b: Shape, pb: Pose) -> Seq<Contact> {
        box_contacts(a, pa, b, pb)
    }

    fn collide(&self, a: &Shape, pa: &Pose, b: &Shape, pb: &Pose) -> (r: Vec<Contact>) {
        let ba = compute_bound(a, pa);
        let bb = compute_bound(b, pb);
        if !ba.overlaps(&bb) {
            return Vec::new();
        }
        let dx = (if ba.max_x <= bb.max_x { ba.max_x } else { bb.max_x }) - (if ba.min_x >= bb.min_x {
            ba.min_x
        } else {
            bb.min_x
        });
        let dy = (if ba.max_y <= bb.max_y { ba.max_y } else { bb.max_y }) - (if ba.min_y >= bb.min_y {
            ba.min_y
        } else {
            bb.min_y
        });
        let mut r: Vec<Contact> = Vec::new();
        if dx <= dy {
            let nx: i64 = if ba.min_x + ba.max_x <= bb.min_x + bb.max_x { 1 } else { -1 };
            r.push(Contact { normal_x: nx, normal_y: 0, depth: dx });
        } else {
            let ny: i64 = if ba.min_y + ba.max_y <= bb.min_y + bb.max_y { 1 } else { -1 };
            r.push(Contact { normal_x: 0, normal_y: ny, depth: dy });
        }
        assert(r@ =~= box_contacts(*a, *pa, *b, *pb));
        r
    }
}

/// The per-body lookups of one evaluation, indexed by body id, and the
/// bodies whose pose changed since the last one.
pub struct SpatialCollisionData<'a> {
    /// collision shapes
    pub shapes: &'a Vec<Option<Shape>>,
    /// current frame poses
    pub poses: &'a Vec<Option<Pose>>,
    /// next frame poses
    pub next_poses: &'a Vec<Option<Pose>>,
    /// bodies whose pose changed
    pub dirty: &'a DirtySet,
}

impl<'a> SpatialCollisionData<'a> {
    /// The lookups cover the same ids, and each shaped body has a current pose.
    pub open spec fn wf(&self) -> bool {
        &&& self.poses@.len() == self.shapes@.len()
        &&& self.next_poses@.len() == self.shapes@.len()
        &&& forall|i: int|
            0 <= i < self.shapes@.len() && #[trigger] self.shapes@[i] is Some ==> self.poses@[i] is Some
    }

    pub open spec fn has_shape(&self, id: BodyId) -> bool {
        (id as int) < self.shapes@.len() && self.shapes@[id as int] is Some
    }

    pub open spec fn shape_of(&self, id: BodyId) -> Shape {
        self.shapes@[id as int].unwrap()
    }

    /// The pose a body's bound is computed from: the pending one if present,
    /// else the current one.
    pub open spec fn pose_of(&self, id: BodyId) -> Pose {
        match self.next_poses@[id as int] {
            Some(p) => p,
            None => self.poses@[id as int].unwrap(),
        }
    }

    pub open spec fn bound_of(&self, id: BodyId) -> Aabb {
        bound_spec(self.shape_of(id), self.pose_of(id))
    }

    /// The bounds that a refresh stores: one for each dirty shaped body.
    pub open spec fn dirty_bounds(&self) -> Map<BodyId, Aabb> {
        Map::new(|id: BodyId| self.dirty@.contains(id) && self.has_shape(id), |id: BodyId| self.bound_of(id))
    }

    /// Events of one candidate pair: one per contact, in the narrow phase's order.
    pub open spec fn pair_events<N: NarrowPhase>(&self, n: N, p: (BodyId, BodyId)) -> Seq<ContactEvent> {
        n.contacts_spec(self.shape_of(p.0), self.pose_of(p.0), self.shape_of(p.1), self.pose_of(p.1)).map_values(
            |ct: Contact| ContactEvent { a: p.0, b: p.1, contact: Some(ct) },
        )
    }

    /// The events of every candidate pair, concatenated in candidate order.
    pub open spec fn refined_events<N: NarrowPhase>(&self, n: N, c: Seq<(BodyId, BodyId)>) -> Seq<ContactEvent>
        decreases c.len(),
    {
        if c.len() == 0 {
            Seq::empty()
        } else {
            self.refined_events(n, c.drop_last()) + self.pair_events(n, c.last())
        }
    }

    /// The events for candidates `c`: bound-level ones without a narrow phase,
    /// the refined ones with it.
    pub open spec fn events_spec<N: NarrowPhase>(&self, narrow: Option<N>, c: Seq<(BodyId, BodyId)>) -> Seq<ContactEvent> {
        match narrow {
            None => coarse_events(c),
            Some(n) => self.refined_events(n, c),
        }
    }

    pub fn get_shape(&self, id: BodyId) -> (r: Shape)
        requires
            self.has_shape(id),
        ensures
            r == self.shape_of(id),
    {
        self.shapes[id as usize].unwrap()
    }

    pub fn get_pose(&self, id: BodyId) -> (r: Pose)
        requires
            (id as int) < self.poses@.len(),
            self.poses@[id as int] is Some,
        ensures
            Some(r) == self.poses@[id as int],
    {
        self.poses[id as usize].unwrap()
    }

    pub fn get_next_pose(&self, id: BodyId) -> (r: Option<Pose>)
        requires
            (id as int) < self.next_poses@.len(),
        ensures
            r == self.next_poses@[id as int],
    {
        self.next_poses[id as usize]
    }

    /// The pending pose if present, else the current one.
    pub fn effective_pose(&self, id: BodyId) -> (r: Pose)
        requires
            self.wf(),
            self.has_shape(id),
        ensures
            r == self.pose_of(id),
    {
        match self.get_next_pose(id) {
            Some(p) => p,
            None => self.get_pose(id),
        }
    }

    /// The dirty bodies that carry a shape, each once.
    pub fn get_dirty_poses(&self) -> (r: Vec<BodyId>)
        ensures
            r@.no_duplicates(),
            forall|id: BodyId| #[trigger] r@.contains(id) <==> self.dirty@.contains(id) && self.has_shape(id),
    {
        let ids = self.dirty.to_vec();
        let mut r: Vec<BodyId> = Vec::new();
        let mut i: usize = 0;
        while i < ids.len()
            invariant
                0 <= i <= ids@.len(),
                ids@.no_duplicates(),
                ids@.to_set() == self.dirty@,
                r@.no_duplicates(),
                forall|id: BodyId| #[trigger] r@.contains(id) <==> ids@.subrange(0, i as int).contains(id) && self.has_shape(id),
            decreases ids@.len() - i,
        {
            let id = ids[i];
            let ghost before = r@;
            if (id as usize) < self.shapes.len() && self.shapes[id as usize].is_some() {
                proof {
                    assert(!before.contains(id)) by {
                        if before.contains(id) {
                            assert(ids@.subrange(0, i as int).contains(id));
                            let pre0 = ids@.subrange(0, i as int);
                            let k = choose|k: int| 0 <= k < pre0.len() && pre0[k] == id;
                            assert(ids@[k] == ids@[i as int]);
                        }
                    }
                }
                r.push(id);
                proof {
                    assert forall|a: int, b: int| 0 <= a < r@.len() && 0 <= b < r@.len() && a != b implies r@[a] != r@[b] by {
                        if a == before.len() as int { assert(before.contains(r@[b])); }
                        if b == before.len() as int { assert(before.contains(r@[a])); }
                    }
                }
            }
            proof {
                assert(ids@.subrange(0, i + 1) =~= ids@.subrange(0, i as int).push(id));
                let pre1 = ids@.subrange(0, i + 1);
                let pre0 = ids@.subrange(0, i as int);
                assert forall|x: BodyId| #[trigger] r@.contains(x) implies pre1.contains(x) && self.has_shape(x) by {
                    let k = choose|k: int| 0 <= k < r@.len() && r@[k] == x;
                    if k < before.len() {
                        assert(before[k] == x);
                        assert(before.contains(x));
                        let j = choose|j: int| 0 <= j < pre0.len() && pre0[j] == x;
                        assert(pre1[j] == x);
                    } else {
                        assert(pre1[i as int] == x);
                    }
                }
                assert forall|x: BodyId| pre1.contains(x) && self.has_shape(x) implies #[trigger] r@.contains(x) by {
                    let k = choose|k: int| 0 <= k < pre1.len() && pre1[k] == x;
                    if k < i {
                        assert(pre0[k] == x);
                        assert(pre0.contains(x));
                        assert(before.contains(x));
                        let j = choose|j: int| 0 <= j < before.len() && before[j] == x;
                        assert(r@[j] == x);
                    } else {
                        assert(r@[r@.len() - 1] == x);
                    }
                }
            }
            i = i + 1;
        }
        proof {
            assert(ids@.subrange(0, ids@.len() as int) == ids@);
            assert forall|id: BodyId| #[trigger] r@.contains(id) <==> self.dirty@.contains(id) && self.has_shape(id) by {
                assert(ids@.to_set().contains(id) == ids@.contains(id));
            }
        }
        r
    }
}

/// Bound-level events, one per candidate pair, in candidate order.
pub open spec fn coarse_events(c: Seq<(BodyId, BodyId)>) -> Seq<ContactEvent> {
    c.map_values(|p: (BodyId, BodyId)| ContactEvent { a: p.0, b: p.1, contact: None })
}

/// Stores in the index the bound of every dirty shaped body, computed from its
/// pending pose if present, else its current pose. Other entries are kept.
pub fn refresh_bounds(data: &SpatialCollisionData, index: &mut SpatialIndex)
    requires
        data.wf(),
    ensures
        final(index)@ == old(index)@.union_prefer_right(data.dirty_bounds()),
{
    let ids = data.get_dirty_poses();
    let mut i: usize = 0;
    while i < ids.len()
        invariant
            data.wf(),
            0 <= i <= ids@.len(),
            forall|id: BodyId| #[trigger] ids@.contains(id) <==> data.dirty@.contains(id) && data.has_shape(id),
            index@ == old(index)@.union_prefer_right(
                Map::new(|id: BodyId| ids@.subrange(0, i as int).contains(id), |id: BodyId| data.bound_of(id)),
            ),
        decreases ids@.len() - i,
    {
        let id = ids[i];
        assert(ids@.contains(id));
        let shape = data.get_shape(id);
        let pose = data.effective_pose(id);
        let bound = compute_bound(&shape, &pose);
        let ghost before = index@;
        index.upsert(id, bound);
        proof {
            let pre0 = ids@.subrange(0, i as int);
            let pre1 = ids@.subrange(0, i + 1);
            assert(pre1 =~= pre0.push(id));
            let m1 = Map::new(|x: BodyId| pre1.contains(x), |x: BodyId| data.bound_of(x));
            assert forall|x: BodyId| pre1.contains(x) <==> pre0.contains(x) || x == id by {
                if pre1.contains(x) && x != id {
                    let k = choose|k: int| 0 <= k < pre1.len() && pre1[k] == x;
                    assert(pre0[k] == x);
                }
                if pre0.contains(x) {
                    let k = choose|k: int| 0 <= k < pre0.len() && pre0[k] == x;
                    assert(pre1[k] == x);
                }
                if x == id {
                    assert(pre1[i as int] == x);
                }
            }
            assert(index@ =~= old(index)@.union_prefer_right(m1));
        }
        i = i + 1;
    }
    proof {
        assert(ids@.subrange(0, ids@.len() as int) == ids@);
        assert(index@ =~= old(index)@.union_prefer_right(data.dirty_bounds()));
    }
}

/// Running the bound refresh a second time, with no pose changed in between,
/// leaves the index as the first run left it.
pub proof fn lemma_refresh_idempotent(m: Map<BodyId, Aabb>, data: SpatialCollisionData)
    ensures
        m.union_prefer_right(data.dirty_bounds()).union_prefer_right(data.dirty_bounds())
            == m.union_prefer_right(data.dirty_bounds()),
{
    assert(m.union_prefer_right(data.dirty_bounds()).union_prefer_right(data.dirty_bounds())
        =~= m.union_prefer_right(data.dirty_bounds()));
}

/// Turns candidate pairs into events: each pair as a bound-level event
/// without a narrow phase, or each contact the narrow phase finds for it,
/// pairs in candidate order and contacts in the narrow phase's order.
pub fn contact_events<N: NarrowPhase>(
    data: &SpatialCollisionData,
    candidates: &Vec<(BodyId, BodyId)>,
    narrow: &Option<N>,
) -> (r: Vec<ContactEvent>)
    requires
        data.wf(),
        forall|k: int|
            0 <= k < candidates@.len() ==> data.has_shape(#[trigger] candidates@[k].0) && data.has_shape(
                candidates@[k].1,
            ),
    ensures
        r@ == data.events_spec(*narrow, candidates@),
{
    let mut r: Vec<ContactEvent> = Vec::new();
    let mut k: usize = 0;
    match narrow {
        None => {
            while k < candidates.len()
                invariant
                    0 <= k <= candidates@.len(),
                    r@ == coarse_events(candidates@.subrange(0, k as int)),
                decreases candidates@.len() - k,
            {
                let (a, b) = candidates[k];
                r.push(ContactEvent { a, b, contact: None });
                assert(r@ =~= coarse_events(candidates@.subrange(0, k + 1)));
                k = k + 1;
            }
            assert(candidates@.subrange(0, candidates@.len() as int) == candidates@);
        },
        Some(n) => {
            while k < candidates.len()
                invariant
                    data.wf(),
                    0 <= k <= candidates@.len(),
                    forall|j: int|
                        0 <= j < candidates@.len() ==> data.has_shape(#[trigger] candidates@[j].0) && data.has_shape(candidates@[j].1),
                    r@ == data.refined_events(*n, candidates@.subrange(0, k as int)),
                decreases candidates@.len() - k,
            {
                let (a, b) = candidates[k];
                assert(data.has_shape(candidates@[k as int].0));
                let sa = data.get_shape(a);
                let pa = data.effective_pose(a);
                let sb = data.get_shape(b);
                let pb = data.effective_pose(b);
                let contacts = n.collide(&sa, &pa, &sb, &pb);
                let ghost base = r@;
                let ghost pe = data.pair_events(*n, (a, b));
                let mut j: usize = 0;
                while j < contacts.len()
                    invariant
                        0 <= j <= contacts@.len(),
                        pe == contacts@.map_values(|ct: Contact| ContactEvent { a, b, contact: Some(ct) }),
                        r@ == base + pe.subrange(0, j as int),
                    decreases contacts@.len() - j,
                {
                    r.push(ContactEvent { a, b, contact: Some(contacts[j]) });
                    assert(r@ =~= base + pe.subrange(0, j + 1));
                    j = j + 1;
                }
                proof {
                    assert(pe.subrange(0, pe.len() as int) == pe);
                    let c1 = candidates@.subrange(0, k + 1);
                    assert(c1.drop_last() =~= candidates@.subrange(0, k as int));
                    assert(c1.last() == (a, b));
                }
                k = k + 1;
            }
            assert(candidates@.subrange(0, candidates@.len() as int) == candidates@);
        },
    }
    r
}

/// One evaluation: refreshes the index for the dirty bodies, asks the broad
/// phase for candidates and, when both phases are configured, refines them
/// with the narrow phase. Without a broad phase nothing is reported.
pub fn tree_collide<N: NarrowPhase, B: BroadPhase>(
    data: &SpatialCollisionData,
    index: &mut SpatialIndex,
    broad: &Option<B>,
    narrow: &Option<N>,
) -> (r: Vec<ContactEvent>)
    requires
        data.wf(),
        forall|id: BodyId| #[trigger] old(index)@.contains_key(id) ==> data.has_shape(id),
    ensures
        final(index)@ == old(index)@.union_prefer_right(data.dirty_bounds()),
        forall|id: BodyId| #[trigger] final(index)@.contains_key(id) ==> data.has_shape(id),
        broad is None ==> r@.len() == 0,
        broad is Some ==> exists|c: Seq<(BodyId, BodyId)>|
            {
                &&& broad.unwrap().valid_pairs(final(index)@, c)
                &&& r@ == data.events_spec(*narrow, c)
            },
{
    refresh_bounds(data, index);
    match broad {
        None => Vec::new(),
        Some(b) => {
            let candidates = b.find_pairs(index);
            assert forall|k: int| 0 <= k < candidates@.len() implies data.has_shape(#[trigger] candidates@[k].0)
                && data.has_shape(candidates@[k].1) by {
                assert(index@.contains_key(candidates@[k].0));
                assert(index@.contains_key(candidates@[k].1));
            }
            let r = contact_events(data, &candidates, narrow);
            r
        },
    }
}

/// Without a narrow phase the events are the candidate pairs themselves, one
/// bound-level event per pair in candidate order, with no contact data.
pub proof fn lemma_broad_only_events<N: NarrowPhase>(data: SpatialCollisionData, c: Seq<(BodyId, BodyId)>)
    ensures
        data.events_spec(None::<N>, c).len() == c.len(),
        forall|k: int|
            0 <= k < c.len() ==> #[trigger] data.events_spec(None::<N>, c)[k] == (ContactEvent {
                a: c[k].0,
                b: c[k].1,
                contact: None,
            }),
{
}

proof fn lemma_refined_append<N: NarrowPhase>(
    data: SpatialCollisionData,
    n: N,
    c1: Seq<(BodyId, BodyId)>,
    c2: Seq<(BodyId, BodyId)>,
)
    ensures
        data.refined_events(n, c1 + c2) == data.refined_events(n, c1) + data.refined_events(n, c2),
    decreases c2.len(),
{
    if c2.len() == 0 {
        assert(c1 + c2 =~= c1);
        assert(data.refined_events(n, c1) + data.refined_events(n, c2) =~= data.refined_events(n, c1));
    } else {
        lemma_refined_append(data, n, c1, c2.drop_last());
        assert((c1 + c2).drop_last() =~= c1 + c2.drop_last());
        assert((c1 + c2).last() == c2.last());
        assert(data.refined_events(n, c1 + c2) =~= data.refined_events(n, c1) + data.refined_events(n, c2));
    }
}

/// The events of a pair are exactly the contacts the narrow phase reports for
/// it, as many and in the same order, and they stand between the events of
/// the pairs before it and those of the pairs after it.
pub proof fn lemma_narrow_flattening<N: NarrowPhase>(
    data: SpatialCollisionData,
    n: N,
    before: Seq<(BodyId, BodyId)>,
    p: (BodyId, BodyId),
    after: Seq<(BodyId, BodyId)>,
)
    ensures
        data.refined_events(n, before + seq![p] + after) == data.refined_events(n, before)
            + data.pair_events(n, p) + data.refined_events(n, after),
        ({
            let cs = n.contacts_spec(data.shape_of(p.0), data.pose_of(p.0), data.shape_of(p.1), data.pose_of(p.1));
            &&& data.pair_events(n, p).len() == cs.len()
            &&& forall|i: int|
                0 <= i < cs.len() ==> #[trigger] data.pair_events(n, p)[i] == (ContactEvent {
                    a: p.0,
                    b: p.1,
                    contact: Some(cs[i]),
                })
        }),
{
    lemma_refined_append(data, n, before + seq![p], after);
    lemma_refined_append(data, n, before, seq![p]);
    assert(seq![p].drop_last() =~= Seq::<(BodyId, BodyId)>::empty());
    assert(seq![p].last() == p);
    assert(data.refined_events(n, Seq::<(BodyId, BodyId)>::empty()) == Seq::<ContactEvent>::empty());
    assert(data.refined_events(n, seq![p]) =~= data.pair_events(n, p));
}

} // verus!
