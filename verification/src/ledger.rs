//! The reference-count ledger: a host-side mirror of the native reference
//! counts.
//!
//! The native engine frees a term graph node the moment its reference count
//! drops to zero, so every live wrapper object must hold exactly one native
//! reference, taken when the wrapper is built and given back when it is
//! dropped.  The ledger records, per native identifier, how many references
//! this layer currently holds.  The layer that performs the native calls
//! bumps the native count and the ledger together: one `acquire` per native
//! increment, one `release` per native decrement.  The lemmas at the bottom
//! state the discipline's central law: over any admissible history the
//! recorded count is exactly acquisitions minus releases, so just before the
//! release that balances the last outstanding acquisition the count is one,
//! and afterwards the identifier is no longer tracked at all.

use vstd::prelude::*;
use std::collections::HashMap;

verus! {

/// One step of reference-count traffic on a single native identifier.
pub enum RefEvent {
    /// A native reference was taken on this identifier.
    Acquire(u64),
    /// A native reference on this identifier was given back.
    Release(u64),
}

/// The number of references a count map records for `id`; zero when the
/// identifier is not tracked.
pub open spec fn count_of(m: Map<u64, u64>, id: u64) -> u64 {
    if m.dom().contains(id) {
        m[id]
    } else {
        0
    }
}

/// A count map is well formed when it never tracks the null sentinel and
/// never stores a zero count: an identifier whose count reaches zero is
/// removed outright.
pub open spec fn counts_wf(m: Map<u64, u64>) -> bool {
    forall|id: u64| #[trigger] m.dom().contains(id) ==> id != 0 && m[id] >= 1
}

/// Whether one event may be applied to a count map: an acquisition needs a
/// real identifier with headroom in the count, a release needs an
/// outstanding reference to give back.
pub open spec fn event_ok(m: Map<u64, u64>, e: RefEvent) -> bool {
    match e {
        RefEvent::Acquire(id) => id != 0 && count_of(m, id) < u64::MAX,
        RefEvent::Release(id) => count_of(m, id) >= 1,
    }
}

/// The count map after one event: an acquisition bumps the identifier's
/// count, a release lowers it and stops tracking the identifier when the
/// count reaches zero.
pub open spec fn apply_event(m: Map<u64, u64>, e: RefEvent) -> Map<u64, u64> {
    match e {
        RefEvent::Acquire(id) => m.insert(id, (count_of(m, id) + 1) as u64),
        RefEvent::Release(id) => if count_of(m, id) <= 1 {
            m.remove(id)
        } else {
            m.insert(id, (m[id] - 1) as u64)
        },
    }
}

/// The count map after a whole history of events, applied left to right.
pub open spec fn apply_events(m: Map<u64, u64>, s: Seq<RefEvent>) -> Map<u64, u64>
    decreases s.len(),
{
    if s.len() == 0 {
        m
    } else {
        apply_events(apply_event(m, s[0]), s.drop_first())
    }
}

/// Whether a whole history is admissible from `m`: each event must be
/// applicable to the map produced by the events before it.
pub open spec fn events_ok(m: Map<u64, u64>, s: Seq<RefEvent>) -> bool
    decreases s.len(),
{
    s.len() == 0 || (event_ok(m, s[0]) && events_ok(apply_event(m, s[0]), s.drop_first()))
}

/// How many acquisitions of `id` a history contains.
pub open spec fn acquires_of(s: Seq<RefEvent>, id: u64) -> nat
    decreases s.len(),
{
    if s.len() == 0 {
        0
    } else {
        (if s[0] == RefEvent::Acquire(id) {
            1nat
        } else {
            0nat
        }) + acquires_of(s.drop_first(), id)
    }
}

/// How many releases of `id` a history contains.
pub open spec fn releases_of(s: Seq<RefEvent>, id: u64) -> nat
    decreases s.len(),
{
    if s.len() == 0 {
        0
    } else {
        (if s[0] == RefEvent::Release(id) {
            1nat
        } else {
            0nat
        }) + releases_of(s.drop_first(), id)
    }
}

/// Host-side mirror of the native reference counts, one entry per native
/// identifier this layer still holds references on.
pub struct RefLedger {
    counts: HashMap<u64, u64>,
}

impl View for RefLedger {
    type V = Map<u64, u64>;

    closed spec fn view(&self) -> Map<u64, u64> {
        self.counts@
    }
}

impl RefLedger {
    /// Well-formedness of the ledger's count map.
    pub open spec fn wf(self) -> bool {
        counts_wf(self@)
    }

    /// The count the ledger records for `id`; zero when untracked.
    pub open spec fn count_spec(self, id: u64) -> u64 {
        count_of(self@, id)
    }

    /// A fresh ledger tracking nothing.
    pub fn new() -> (r: RefLedger)
        ensures
            r@ == Map::<u64, u64>::empty(),
            r.wf(),
    {
        RefLedger { counts: HashMap::new() }
    }

    /// The count currently recorded for `id`.
    pub fn count(&self, id: u64) -> (n: u64)
        ensures
            n == self.count_spec(id),
    {
        match self.counts.get(&id) {
            Some(c) => *c,
            None => 0,
        }
    }

    /// Records that one more native reference on `id` is now held.  The
    /// caller pairs every call with exactly one native reference increment.
    pub fn acquire(&mut self, id: u64)
        requires
            old(self).wf(),
            id != 0,
            old(self).count_spec(id) < u64::MAX,
        ensures
            final(self).wf(),
            final(self)@ == apply_event(old(self)@, RefEvent::Acquire(id)),
            final(self).count_spec(id) == old(self).count_spec(id) + 1,
            forall|other: u64| other != id ==> final(self).count_spec(other) == old(
                self,
            ).count_spec(other),
    {
        let c = self.count(id);
        self.counts.insert(id, c + 1);
    }

    /// Records that one native reference on `id` was given back; returns
    /// whether that was the last one this layer held, in which case the
    /// identifier is no longer tracked and must not be dereferenced again.
    /// The caller pairs every call with exactly one native reference
    /// decrement.
    pub fn release(&mut self, id: u64) -> (last: bool)
        requires
            old(self).wf(),
            old(self).count_spec(id) >= 1,
        ensures
            final(self).wf(),
            final(self)@ == apply_event(old(self)@, RefEvent::Release(id)),
            last <==> old(self).count_spec(id) == 1,
            last ==> !final(self)@.dom().contains(id),
            final(self).count_spec(id) == old(self).count_spec(id) - 1,
            forall|other: u64| other != id ==> final(self).count_spec(other) == old(
                self,
            ).count_spec(other),
    {
        let c = self.count(id);
        if c <= 1 {
            self.counts.remove(&id);
            true
        } else {
            self.counts.insert(id, c - 1);
            false
        }
    }
}

/// The count map after taking one reference on each identifier in `ids`,
/// left to right.
pub open spec fn apply_acquires(m: Map<u64, u64>, ids: Seq<u64>) -> Map<u64, u64>
    decreases ids.len(),
{
    if ids.len() == 0 {
        m
    } else {
        apply_acquires(apply_event(m, RefEvent::Acquire(ids[0])), ids.drop_first())
    }
}

/// Whether taking one reference on each identifier in `ids`, left to right,
/// is admissible from `m`.
pub open spec fn acquires_ok(m: Map<u64, u64>, ids: Seq<u64>) -> bool
    decreases ids.len(),
{
    ids.len() == 0 || (event_ok(m, RefEvent::Acquire(ids[0])) && acquires_ok(
        apply_event(m, RefEvent::Acquire(ids[0])),
        ids.drop_first(),
    ))
}

/// The count map after giving back one reference on each identifier in
/// `ids`, left to right.
pub open spec fn apply_releases(m: Map<u64, u64>, ids: Seq<u64>) -> Map<u64, u64>
    decreases ids.len(),
{
    if ids.len() == 0 {
        m
    } else {
        apply_releases(apply_event(m, RefEvent::Release(ids[0])), ids.drop_first())
    }
}

/// Whether giving back one reference on each identifier in `ids`, left to
/// right, is admissible from `m`.
pub open spec fn releases_ok(m: Map<u64, u64>, ids: Seq<u64>) -> bool
    decreases ids.len(),
{
    ids.len() == 0 || (event_ok(m, RefEvent::Release(ids[0])) && releases_ok(
        apply_event(m, RefEvent::Release(ids[0])),
        ids.drop_first(),
    ))
}

impl RefLedger {
    /// Takes one reference on every identifier in `ids`, in order, as a
    /// single uninterruptible step of bookkeeping: there is no admissible
    /// prefix after which this function stops early.
    pub fn acquire_all(&mut self, ids: &Vec<u64>)
        requires
            old(self).wf(),
            acquires_ok(old(self)@, ids@),
        ensures
            final(self).wf(),
            final(self)@ == apply_acquires(old(self)@, ids@),
    {
        let ghost start = self@;
        proof {
            assert(ids@.skip(0) =~= ids@);
        }
        let n = ids.len();
        let mut i: usize = 0;
        while i < n
            invariant
                self.wf(),
                i <= n,
                n == ids@.len(),
                acquires_ok(self@, ids@.skip(i as int)),
                apply_acquires(self@, ids@.skip(i as int)) == apply_acquires(start, ids@),
            decreases n - i,
        {
            let ghost before = self@;
            assert(ids@.skip(i as int)[0] == ids@[i as int]);
            self.acquire(ids[i]);
            proof {
                assert(ids@.skip(i as int).drop_first() =~= ids@.skip(i as int + 1));
            }
            i = i + 1;
        }
        proof {
            assert(ids@.skip(n as int) =~= Seq::<u64>::empty());
        }
    }

    /// Gives back one reference on every identifier in `ids`, in order, as a
    /// single uninterruptible step of bookkeeping.
    pub fn release_all(&mut self, ids: &Vec<u64>)
        requires
            old(self).wf(),
            releases_ok(old(self)@, ids@),
        ensures
            final(self).wf(),
            final(self)@ == apply_releases(old(self)@, ids@),
    {
        let ghost start = self@;
        proof {
            assert(ids@.skip(0) =~= ids@);
        }
        let n = ids.len();
        let mut i: usize = 0;
        while i < n
            invariant
                self.wf(),
                i <= n,
                n == ids@.len(),
                releases_ok(self@, ids@.skip(i as int)),
                apply_releases(self@, ids@.skip(i as int)) == apply_releases(start, ids@),
            decreases n - i,
        {
            assert(ids@.skip(i as int)[0] == ids@[i as int]);
            self.release(ids[i]);
            proof {
                assert(ids@.skip(i as int).drop_first() =~= ids@.skip(i as int + 1));
            }
            i = i + 1;
        }
        proof {
            assert(ids@.skip(n as int) =~= Seq::<u64>::empty());
        }
    }
}

/// Headroom argument: a batch of acquisitions is admissible whenever every
/// identifier in the batch is real and has at least the batch's length of
/// room left in its count, and the batch then raises no count by more than
/// its length.
pub proof fn lemma_headroom_acquires_ok(m: Map<u64, u64>, ids: Seq<u64>)
    requires
        forall|i: int| 0 <= i < ids.len() ==> ids[i] != 0,
        forall|i: int|
            0 <= i < ids.len() ==> count_of(m, #[trigger] ids[i]) + ids.len() <= u64::MAX,
    ensures
        acquires_ok(m, ids),
        forall|id: u64|
            #[trigger] count_of(apply_acquires(m, ids), id) <= count_of(m, id) + ids.len(),
    decreases ids.len(),
{
    if ids.len() > 0 {
        let m1 = apply_event(m, RefEvent::Acquire(ids[0]));
        assert(forall|id: u64| #[trigger] count_of(m1, id) <= count_of(m, id) + 1);
        lemma_headroom_acquires_ok(m1, ids.drop_first());
        assert forall|id: u64|
            #[trigger] count_of(apply_acquires(m, ids), id) <= count_of(m, id) + ids.len() by {
            assert(count_of(apply_acquires(m1, ids.drop_first()), id) <= count_of(m1, id)
                + ids.drop_first().len());
        }
    }
}

/// How many times `id` occurs in a batch of identifiers.
pub open spec fn occurrences_of(ids: Seq<u64>, id: u64) -> nat
    decreases ids.len(),
{
    if ids.len() == 0 {
        0
    } else {
        (if ids[0] == id {
            1nat
        } else {
            0nat
        }) + occurrences_of(ids.drop_first(), id)
    }
}

/// An admissible batch of acquisitions raises each identifier's count by
/// exactly its number of occurrences in the batch, and keeps the map well
/// formed.
pub proof fn lemma_acquires_shift_counts(m: Map<u64, u64>, ids: Seq<u64>, id: u64)
    requires
        counts_wf(m),
        acquires_ok(m, ids),
    ensures
        counts_wf(apply_acquires(m, ids)),
        count_of(apply_acquires(m, ids), id) == count_of(m, id) + occurrences_of(ids, id),
    decreases ids.len(),
{
    if ids.len() > 0 {
        lemma_event_preserves_wf(m, RefEvent::Acquire(ids[0]));
        lemma_acquires_shift_counts(apply_event(m, RefEvent::Acquire(ids[0])), ids.drop_first(), id);
    }
}

/// A batch of releases is admissible from any well-formed map that counts
/// each identifier at least as often as the batch names it, and it lowers
/// each count by exactly that number of occurrences.
proof fn lemma_covered_releases_ok(m: Map<u64, u64>, ids: Seq<u64>)
    requires
        counts_wf(m),
        forall|id: u64| #[trigger] count_of(m, id) >= occurrences_of(ids, id),
    ensures
        releases_ok(m, ids),
        counts_wf(apply_releases(m, ids)),
        forall|id: u64|
            #[trigger] count_of(apply_releases(m, ids), id) == count_of(m, id) - occurrences_of(
                ids,
                id,
            ),
    decreases ids.len(),
{
    if ids.len() > 0 {
        let id0 = ids[0];
        assert(count_of(m, id0) >= occurrences_of(ids, id0));
        assert(occurrences_of(ids, id0) >= 1);
        let m1 = apply_event(m, RefEvent::Release(id0));
        lemma_event_preserves_wf(m, RefEvent::Release(id0));
        assert forall|id: u64|
            #[trigger] count_of(m1, id) >= occurrences_of(ids.drop_first(), id) by {
            assert(count_of(m, id) >= occurrences_of(ids, id));
        }
        lemma_covered_releases_ok(m1, ids.drop_first());
        assert forall|id: u64|
            #[trigger] count_of(apply_releases(m, ids), id) == count_of(m, id) - occurrences_of(
                ids,
                id,
            ) by {
            assert(count_of(apply_releases(m1, ids.drop_first()), id) == count_of(m1, id)
                - occurrences_of(ids.drop_first(), id));
        }
    }
}

/// Two well-formed count maps that record the same count for every
/// identifier are the same map: well-formedness stores no zero counts, so
/// the counts determine the domain.
proof fn lemma_wf_counts_determine_map(m1: Map<u64, u64>, m2: Map<u64, u64>)
    requires
        counts_wf(m1),
        counts_wf(m2),
        forall|id: u64| #[trigger] count_of(m1, id) == count_of(m2, id),
    ensures
        m1 == m2,
{
    assert forall|id: u64| m1.dom().contains(id) implies m2.dom().contains(id) by {
        assert(count_of(m1, id) == count_of(m2, id));
    }
    assert forall|id: u64| m2.dom().contains(id) implies m1.dom().contains(id) by {
        assert(count_of(m1, id) == count_of(m2, id));
    }
    assert forall|id: u64| m1.dom().contains(id) implies m1[id] == m2[id] by {
        assert(count_of(m1, id) == count_of(m2, id));
    }
    assert(m1 =~= m2);
}

/// Transaction round trip: a batch of acquisitions that was admissible —
/// the very batch a composite bundle or a decomposed application takes —
/// can always be given back in the same order, and doing so restores the
/// ledger exactly.
pub proof fn lemma_release_restores_ledger(m: Map<u64, u64>, ids: Seq<u64>)
    requires
        counts_wf(m),
        acquires_ok(m, ids),
    ensures
        releases_ok(apply_acquires(m, ids), ids),
        apply_releases(apply_acquires(m, ids), ids) == m,
{
    let ma = apply_acquires(m, ids);
    assert forall|id: u64| #[trigger] count_of(ma, id) >= occurrences_of(ids, id) by {
        lemma_acquires_shift_counts(m, ids, id);
    }
    assert(counts_wf(ma)) by {
        lemma_acquires_shift_counts(m, ids, 0);
    }
    lemma_covered_releases_ok(ma, ids);
    assert forall|id: u64|
        #[trigger] count_of(apply_releases(ma, ids), id) == count_of(m, id) by {
        lemma_acquires_shift_counts(m, ids, id);
    }
    lemma_wf_counts_determine_map(apply_releases(ma, ids), m);
}

/// Applying an admissible event keeps a count map well formed.
proof fn lemma_event_preserves_wf(m: Map<u64, u64>, e: RefEvent)
    requires
        counts_wf(m),
        event_ok(m, e),
    ensures
        counts_wf(apply_event(m, e)),
{
}

/// Over any admissible history, each identifier's recorded count moves by
/// exactly its acquisitions minus its releases, and well-formedness is kept.
proof fn lemma_balance_from(m: Map<u64, u64>, s: Seq<RefEvent>, id: u64)
    requires
        counts_wf(m),
        events_ok(m, s),
    ensures
        counts_wf(apply_events(m, s)),
        count_of(apply_events(m, s), id) == count_of(m, id) + acquires_of(s, id) - releases_of(
            s,
            id,
        ),
    decreases s.len(),
{
    if s.len() > 0 {
        lemma_event_preserves_wf(m, s[0]);
        lemma_balance_from(apply_event(m, s[0]), s.drop_first(), id);
    }
}

/// Reference-count invariant, first half: starting from an empty ledger,
/// any admissible history of acquisitions and releases leaves each
/// identifier's count at exactly its acquisitions minus its releases.  In
/// particular, when exactly one acquisition of an identifier is still
/// unbalanced — just before the release that destroys the last live handle
/// on it — the recorded count is exactly one.
pub proof fn lemma_refcount_balance(s: Seq<RefEvent>, id: u64)
    requires
        events_ok(Map::<u64, u64>::empty(), s),
    ensures
        releases_of(s, id) <= acquires_of(s, id),
        count_of(apply_events(Map::<u64, u64>::empty(), s), id) == acquires_of(s, id)
            - releases_of(s, id),
        acquires_of(s, id) == releases_of(s, id) + 1 ==> count_of(
            apply_events(Map::<u64, u64>::empty(), s),
            id,
        ) == 1,
{
    lemma_balance_from(Map::<u64, u64>::empty(), s, id);
}

/// Reference-count invariant, second half: once a history balances every
/// acquisition of an identifier with a release, the ledger no longer tracks
/// the identifier at all — this layer holds nothing that could dereference
/// it.
pub proof fn lemma_balanced_id_untracked(s: Seq<RefEvent>, id: u64)
    requires
        events_ok(Map::<u64, u64>::empty(), s),
        acquires_of(s, id) == releases_of(s, id),
    ensures
        !apply_events(Map::<u64, u64>::empty(), s).dom().contains(id),
{
    lemma_balance_from(Map::<u64, u64>::empty(), s, id);
    let m = apply_events(Map::<u64, u64>::empty(), s);
    if m.dom().contains(id) {
        assert(count_of(m, id) >= 1);
    }
}

} // verus!
