use vstd::prelude::*;
use specs::hibitset::BitSet;
use specs::hibitset::BitSetLike;
use crate::geometry::BodyId;

verus! {

#[verifier::external_type_specification]
#[verifier::external_body]
pub struct ExBitSet(specs::hibitset::BitSet);

/// The indices held by a bit set.
pub uninterp spec fn bitset_members(s: BitSet) -> Set<u32>;

/// Bodies a bit set can hold on every platform: its top layer is one `usize`
/// wide, which bounds indices by `usize` bits to the fourth power.
pub const MAX_BODIES: u32 = 1_048_576;

/// Whether every body named in `s` fits a bit set.
pub open spec fn ids_in_range(s: Seq<BodyId>) -> bool {
    forall|k: int| 0 <= k < s.len() ==> #[trigger] s[k] < MAX_BODIES
}

/// Relies on hibitset's `BitSet::new`: a new set is empty.
#[verifier::external_body]
fn bitset_new() -> (r: BitSet)
    ensures
        bitset_members(r) == Set::<u32>::empty(),
{
    BitSet::new()
}

/// Relies on hibitset's `BitSet::clear`: every index is removed.
#[verifier::external_body]
fn bitset_clear(s: &mut BitSet)
    ensures
        bitset_members(*final(s)) == Set::<u32>::empty(),
{
    s.clear()
}

/// Relies on hibitset's `BitSet::add`: inserts `id` and returns whether it
/// was held already; it panics only past the index limit.
#[verifier::external_body]
fn bitset_add(s: &mut BitSet, id: u32) -> (r: bool)
    requires
        id < MAX_BODIES,
    ensures
        r == bitset_members(*old(s)).contains(id),
        bitset_members(*final(s)) == bitset_members(*old(s)).insert(id),
{
    s.add(id)
}

/// Relies on hibitset's `BitSet::contains`.
#[verifier::external_body]
fn bitset_contains(s: &BitSet, id: u32) -> (r: bool)
    ensures
        r == bitset_members(*s).contains(id),
{
    s.contains(id)
}

/// Relies on hibitset's `BitSetLike::iter`: every index held, in ascending order.
#[verifier::external_body]
fn bitset_ids(s: &BitSet) -> (r: Vec<u32>)
    ensures
        r@.to_set() == bitset_members(*s),
        forall|i: int, j: int| 0 <= i < j < r@.len() ==> r@[i] < r@[j],
{
    s.iter().collect()
}

/// The set of bodies whose pose changed since the last evaluation.
#[derive(Debug)]
pub struct DirtySet {
    bits: BitSet,
}

impl View for DirtySet {
    type V = Set<BodyId>;

    closed spec fn view(&self) -> Set<BodyId> {
        bitset_members(self.bits)
    }
}

impl DirtySet {
    /// An empty dirty set.
    pub fn new() -> (r: DirtySet)
        ensures
            r@ == Set::<BodyId>::empty(),
    {
        DirtySet { bits: bitset_new() }
    }

    /// Forgets every body.
    pub fn clear(&mut self)
        ensures
            final(self)@ == Set::<BodyId>::empty(),
    {
        bitset_clear(&mut self.bits);
    }

    pub fn contains(&self, id: BodyId) -> (r: bool)
        ensures
            r == self@.contains(id),
    {
        bitset_contains(&self.bits, id)
    }

    /// Adds one body; adding a body already held changes nothing.
    pub fn add(&mut self, id: BodyId)
        requires
            id < MAX_BODIES,
        ensures
            final(self)@ == old(self)@.insert(id),
    {
        bitset_add(&mut self.bits, id);
    }

    /// Adds every body named by a stream of change notifications.
    pub fn populate(&mut self, events: &Vec<BodyId>)
        requires
            ids_in_range(events@),
        ensures
            final(self)@ == old(self)@.union(events@.to_set()),
    {
        let mut i: usize = 0;
        while i < events.len()
            invariant
                0 <= i <= events@.len(),
                forall|k: int| 0 <= k < events@.len() ==> #[trigger] events@[k] < MAX_BODIES,
                self@ == old(self)@.union(events@.subrange(0, i as int).to_set()),
            decreases events@.len() - i,
        {
            self.add(events[i]);
            proof {
                assert(events@.subrange(0, i + 1) == events@.subrange(0, i as int).push(
                    events@[i as int],
                ));
                events@.subrange(0, i as int).lemma_push_to_set_commute(events@[i as int]);
                assert(self@ =~= old(self)@.union(events@.subrange(0, i + 1).to_set()));
            }
            i = i + 1;
        }
        proof {
            assert(events@.subrange(0, events@.len() as int) == events@);
        }
    }

    /// The bodies held, each once, in ascending order.
    pub fn to_vec(&self) -> (r: Vec<BodyId>)
        ensures
            r@.to_set() == self@,
            r@.no_duplicates(),
            forall|i: int, j: int| 0 <= i < j < r@.len() ==> r@[i] < r@[j],
    {
        let r = bitset_ids(&self.bits);
        assert(r@.no_duplicates()) by {
            assert forall|i: int, j: int| 0 <= i < r@.len() && 0 <= j < r@.len() && i != j implies r@[i] != r@[j] by {
                if i < j { assert(r@[i] < r@[j]); } else { assert(r@[j] < r@[i]); }
            }
        }
        r
    }
}

} // verus!
