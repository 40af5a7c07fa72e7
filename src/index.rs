use vstd::prelude::*;
use crate::geometry::{Aabb, BodyId};

verus! {

/// One leaf of the spatial index: a body and its bound.
#[derive(Clone, Copy, Debug, PartialEq, Eq, Structural)]
pub struct IndexEntry {
    pub id: BodyId,
    pub bound: Aabb,
}

/// Whether some entry of `s` belongs to body `id`.
pub open spec fn has_id(s: Seq<IndexEntry>, id: BodyId) -> bool {
    exists|i: int| 0 <= i < s.len() && s[i].id == id
}

/// No two entries belong to the same body.
pub open spec fn unique_ids(s: Seq<IndexEntry>) -> bool {
    forall|i: int, j: int| 0 <= i < s.len() && 0 <= j < s.len() && i != j ==> s[i].id != s[j].id
}

/// The bound of each body that has an entry.
pub open spec fn entry_map(s: Seq<IndexEntry>) -> Map<BodyId, Aabb> {
    Map::new(
        |id: BodyId| has_id(s, id),
        |id: BodyId| s[choose|i: int| 0 <= i < s.len() && s[i].id == id].bound,
    )
}

/// An unordered pair of distinct indexed bodies whose bounds overlap.
pub open spec fn overlapping_in(m: Map<BodyId, Aabb>, a: BodyId, b: BodyId) -> bool {
    a != b && m.contains_key(a) && m.contains_key(b) && m[a].overlaps_spec(m[b])
}

/// A list of pairs that names each unordered pair at most once.
pub open spec fn unordered_distinct(r: Seq<(BodyId, BodyId)>) -> bool {
    forall|k: int, l: int|
        0 <= k < r.len() && 0 <= l < r.len() && k != l ==> r[k] != r[l] && r[k] != (
        r[l].1,
        r[l].0,
    )
}

/// Every overlapping pair of `m`, each named once in one of its two orders, and nothing else.
pub open spec fn is_overlap_list(m: Map<BodyId, Aabb>, r: Seq<(BodyId, BodyId)>) -> bool {
    &&& forall|k: int| 0 <= k < r.len() ==> overlapping_in(m, #[trigger] r[k].0, r[k].1)
    &&& forall|a: BodyId, b: BodyId|
        overlapping_in(m, a, b) ==> (#[trigger] r.contains((a, b)) || r.contains((b, a)))
    &&& unordered_distinct(r)
}

pub proof fn lemma_entry_at(s: Seq<IndexEntry>, i: int)
    requires
        unique_ids(s),
        0 <= i < s.len(),
    ensures
        entry_map(s).contains_key(s[i].id),
        entry_map(s)[s[i].id] == s[i].bound,
{
    assert(has_id(s, s[i].id));
    let j = choose|j: int| 0 <= j < s.len() && s[j].id == s[i].id;
    assert(j == i);
}

/// A dynamic index of bounds: at most one entry per body, updated in place.
#[derive(Debug)]
pub struct SpatialIndex {
    entries: Vec<IndexEntry>,
}

impl View for SpatialIndex {
    type V = Map<BodyId, Aabb>;

    open spec fn view(&self) -> Map<BodyId, Aabb> {
        entry_map(self.entries_spec())
    }
}

impl SpatialIndex {
    /// The leaves, in the order they were first inserted.
    pub closed spec fn entries_spec(&self) -> Seq<IndexEntry> {
        self.entries@
    }

    #[verifier::type_invariant]
    spec fn inv(&self) -> bool {
        unique_ids(self.entries@)
    }

    /// An index without entries.
    pub fn new() -> (r: SpatialIndex)
        ensures
            r.entries_spec() == Seq::<IndexEntry>::empty(),
            r@ == Map::<BodyId, Aabb>::empty(),
    {
        let r = SpatialIndex { entries: Vec::new() };
        assert(r@ =~= Map::<BodyId, Aabb>::empty());
        r
    }

    pub fn len(&self) -> (r: usize)
        ensures
            r == self.entries_spec().len(),
            r == self@.len(),
    {
        proof {
            use_type_invariant(self);
            self.lemma_len();
        }
        self.entries.len()
    }

    proof fn lemma_len(&self)
        requires
            unique_ids(self.entries@),
        ensures
            self@.len() == self.entries@.len(),
    {
        let s = self.entries@;
        let ids = s.map_values(|e: IndexEntry| e.id);
        assert(ids.no_duplicates());
        ids.unique_seq_to_set();
        assert(ids.to_set() =~= self@.dom()) by {
            assert forall|id: BodyId| #[trigger] ids.to_set().contains(id) implies self@.dom().contains(id) by {
                let k = choose|k: int| 0 <= k < ids.len() && ids[k] == id;
                assert(s[k].id == id);
            }
            assert forall|id: BodyId| #[trigger] self@.dom().contains(id) implies ids.to_set().contains(id) by {
                let k = choose|k: int| 0 <= k < s.len() && s[k].id == id;
                assert(ids[k] == id);
            }
        }
    }

    /// The leaves, each body at most once.
    pub fn entries(&self) -> (r: Vec<IndexEntry>)
        ensures
            r@ == self.entries_spec(),
            unique_ids(r@),
    {
        proof {
            use_type_invariant(self);
        }
        let mut r: Vec<IndexEntry> = Vec::new();
        let mut i: usize = 0;
        while i < self.entries.len()
            invariant
                0 <= i <= self.entries@.len(),
                r@ == self.entries@.subrange(0, i as int),
            decreases self.entries@.len() - i,
        {
            r.push(self.entries[i]);
            assert(r@ =~= self.entries@.subrange(0, i + 1));
            i = i + 1;
        }
        assert(r@ =~= self.entries@);
        r
    }

    /// Position of the entry of `id`, if any.
    fn position(&self, id: BodyId) -> (r: Option<usize>)
        ensures
            match r {
                Some(i) => i < self.entries@.len() && self.entries@[i as int].id == id,
                None => !has_id(self.entries@, id),
            },
    {
        let mut i: usize = 0;
        while i < self.entries.len()
            invariant
                0 <= i <= self.entries@.len(),
                forall|k: int| 0 <= k < i ==> self.entries@[k].id != id,
            decreases self.entries@.len() - i,
        {
            if self.entries[i].id == id {
                return Some(i);
            }
            i = i + 1;
        }
        None
    }

    /// Stores `bound` as the bound of `id`: updates its entry in place, or
    /// inserts one on first sighting.
    pub fn upsert(&mut self, id: BodyId, bound: Aabb)
        ensures
            final(self)@ == old(self)@.insert(id, bound),
            has_id(old(self).entries_spec(), id) ==> final(self).entries_spec().len()
                == old(self).entries_spec().len(),
            !has_id(old(self).entries_spec(), id) ==> final(self).entries_spec()
                == old(self).entries_spec().push(IndexEntry { id, bound }),
    {
        proof {
            use_type_invariant(&*self);
        }
        let ghost s = self.entries@;
        let e = IndexEntry { id, bound };
        let mut entries = self.entries.clone();
        assert(entries@ =~= s);
        match self.position(id) {
            Some(i) => {
                entries.set(i, e);
                proof {
                    let t = entries@;
                    assert(t == s.update(i as int, e));
                    assert(unique_ids(t));
                    assert(entry_map(t) =~= entry_map(s).insert(id, bound)) by {
                        assert forall|x: BodyId| #[trigger] entry_map(t).contains_key(x) <==> entry_map(s).insert(id, bound).contains_key(x) by {
                            if has_id(t, x) {
                                let k = choose|k: int| 0 <= k < t.len() && t[k].id == x;
                                if k != i as int { assert(s[k].id == x); }
                            }
                            if has_id(s, x) {
                                let k = choose|k: int| 0 <= k < s.len() && s[k].id == x;
                                if k != i as int { assert(t[k].id == x); } else { assert(t[k].id == x); }
                            }
                        }
                        assert forall|x: BodyId| #[trigger] entry_map(t).contains_key(x) implies entry_map(t)[x] == entry_map(s).insert(id, bound)[x] by {
                            let k = choose|k: int| 0 <= k < t.len() && t[k].id == x;
                            lemma_entry_at(t, k);
                            if k != i as int {
                                lemma_entry_at(s, k);
                            }
                        }
                    }
                }
                *self = SpatialIndex { entries };
            },
            None => {
                entries.push(e);
                proof {
                    let t = entries@;
                    assert(t == s.push(e));
                    assert(unique_ids(t)) by {
                        assert forall|a: int, b: int| 0 <= a < t.len() && 0 <= b < t.len() && a != b implies t[a].id != t[b].id by {
                            if a == s.len() as int { assert(s[b].id == t[b].id); }
                            if b == s.len() as int { assert(s[a].id == t[a].id); }
                        }
                    }
                    assert(entry_map(t) =~= entry_map(s).insert(id, bound)) by {
                        assert forall|x: BodyId| #[trigger] entry_map(t).contains_key(x) <==> entry_map(s).insert(id, bound).contains_key(x) by {
                            if has_id(t, x) {
                                let k = choose|k: int| 0 <= k < t.len() && t[k].id == x;
                                if k < s.len() { assert(s[k].id == x); }
                            }
                            if has_id(s, x) {
                                let k = choose|k: int| 0 <= k < s.len() && s[k].id == x;
                                assert(t[k].id == x);
                            }
                            if x == id { assert(t[s.len() as int].id == x); }
                        }
                        assert forall|x: BodyId| #[trigger] entry_map(t).contains_key(x) implies entry_map(t)[x] == entry_map(s).insert(id, bound)[x] by {
                            let k = choose|k: int| 0 <= k < t.len() && t[k].id == x;
                            lemma_entry_at(t, k);
                            if k < s.len() {
                                lemma_entry_at(s, k);
                            }
                        }
                    }
                }
                *self = SpatialIndex { entries };
            },
        }
    }

    /// Every pair of distinct bodies whose bounds overlap, each pair once.
    pub fn overlapping_pairs(&self) -> (r: Vec<(BodyId, BodyId)>)
        ensures
            is_overlap_list(self@, r@),
    {
        proof {
            use_type_invariant(self);
        }
        let ghost s = self.entries@;
        let n = self.entries.len();
        let mut r: Vec<(BodyId, BodyId)> = Vec::new();
        let ghost mut gi: Seq<(int, int)> = Seq::empty();
        let mut i: usize = 0;
        while i < n
            invariant
                n == s.len(),
                s == self.entries@,
                unique_ids(s),
                0 <= i <= n,
                gi.len() == r@.len(),
                forall|k: int| 0 <= k < gi.len() ==> {
                    &&& 0 <= #[trigger] gi[k].0 < gi[k].1 < n
                    &&& gi[k].0 < i
                    &&& r@[k] == (s[gi[k].0].id, s[gi[k].1].id)
                    &&& s[gi[k].0].bound.overlaps_spec(s[gi[k].1].bound)
                },
                forall|k: int, l: int| 0 <= k < l < gi.len() ==> #[trigger] gi[k] != #[trigger] gi[l],
                forall|a: int, b: int|
                    0 <= a < i && a < b < n && s[a].bound.overlaps_spec(s[b].bound) ==> gi.contains((a, b)),
            decreases n - i,
        {
            let mut j: usize = i + 1;
            while j < n
                invariant
                    n == s.len(),
                    s == self.entries@,
                    unique_ids(s),
                    0 <= i < n,
                    i < j <= n,
                    gi.len() == r@.len(),
                    forall|k: int| 0 <= k < gi.len() ==> {
                        &&& 0 <= #[trigger] gi[k].0 < gi[k].1 < n
                        &&& (gi[k].0 < i || (gi[k].0 == i && gi[k].1 < j))
                        &&& r@[k] == (s[gi[k].0].id, s[gi[k].1].id)
                        &&& s[gi[k].0].bound.overlaps_spec(s[gi[k].1].bound)
                    },
                    forall|k: int, l: int| 0 <= k < l < gi.len() ==> #[trigger] gi[k] != #[trigger] gi[l],
                    forall|a: int, b: int|
                        0 <= a < i && a < b < n && s[a].bound.overlaps_spec(s[b].bound) ==> gi.contains((a, b)),
                    forall|b: int|
                        i < b < j && s[i as int].bound.overlaps_spec(s[b].bound) ==> gi.contains((i as int, b)),
                decreases n - j,
            {
                if self.entries[i].bound.overlaps(&self.entries[j].bound) {
                    r.push((self.entries[i].id, self.entries[j].id));
                    proof {
                        let old_gi = gi;
                        gi = gi.push((i as int, j as int));
                        assert forall|k: int, l: int| 0 <= k < l < gi.len() implies #[trigger] gi[k] != #[trigger] gi[l] by {
                            if l == old_gi.len() as int {
                                assert(0 <= old_gi[k].0 < old_gi[k].1 < n);
                            } else {
                                assert(old_gi[k] != old_gi[l]);
                            }
                        }
                        assert forall|a: int, b: int|
                            0 <= a < i && a < b < n && s[a].bound.overlaps_spec(s[b].bound) implies gi.contains((a, b)) by {
                            assert(old_gi.contains((a, b)));
                            let k = choose|k: int| 0 <= k < old_gi.len() && old_gi[k] == (a, b);
                            assert(gi[k] == (a, b));
                        }
                        assert forall|b: int|
                            i < b < j + 1 && s[i as int].bound.overlaps_spec(s[b].bound) implies gi.contains((i as int, b)) by {
                            if b < j {
                                assert(old_gi.contains((i as int, b)));
                                let k = choose|k: int| 0 <= k < old_gi.len() && old_gi[k] == (i as int, b);
                                assert(gi[k] == (i as int, b));
                            } else {
                                assert(gi[old_gi.len() as int] == (i as int, b));
                            }
                        }
                    }
                }
                j = j + 1;
            }
            i = i + 1;
        }
        proof {
            let m = self@;
            assert forall|k: int| 0 <= k < r@.len() implies overlapping_in(m, #[trigger] r@[k].0, r@[k].1) by {
                let (a, b) = gi[k];
                lemma_entry_at(s, a);
                lemma_entry_at(s, b);
            }
            assert forall|x: BodyId, y: BodyId|
                overlapping_in(m, x, y) implies (#[trigger] r@.contains((x, y)) || r@.contains((y, x))) by {
                let a = choose|a: int| 0 <= a < s.len() && s[a].id == x;
                let b = choose|b: int| 0 <= b < s.len() && s[b].id == y;
                lemma_entry_at(s, a);
                lemma_entry_at(s, b);
                if a < b {
                    assert(s[a].bound.overlaps_spec(s[b].bound));
                    assert(gi.contains((a, b)));
                    let k = choose|k: int| 0 <= k < gi.len() && gi[k] == (a, b);
                    assert(0 <= gi[k].0 < gi[k].1 < n);
                    assert(r@[k] == (x, y));
                } else {
                    assert(s[b].bound.overlaps_spec(s[a].bound));
                    assert(gi.contains((b, a)));
                    let k = choose|k: int| 0 <= k < gi.len() && gi[k] == (b, a);
                    assert(0 <= gi[k].0 < gi[k].1 < n);
                    assert(r@[k] == (y, x));
                }
            }
            assert forall|k: int, l: int|
                0 <= k < r@.len() && 0 <= l < r@.len() && k != l implies r@[k] != r@[l] && r@[k] != (r@[l].1, r@[l].0) by {
                assert(0 <= gi[k].0 < gi[k].1 < n);
                assert(0 <= gi[l].0 < gi[l].1 < n);
                if k < l { assert(gi[k] != gi[l]); } else { assert(gi[l] != gi[k]); }
                if r@[k] == r@[l] {
                    assert(s[gi[k].0].id == s[gi[l].0].id);
                    assert(gi[k].0 == gi[l].0);
                    assert(gi[k].1 == gi[l].1);
                }
                if r@[k] == (r@[l].1, r@[l].0) {
                    assert(s[gi[k].0].id == s[gi[l].1].id);
                    assert(gi[k].0 == gi[l].1);
                    assert(gi[k].1 == gi[l].0);
                }
            }
        }
        r
    }
}

} // verus!
