//! The solving session: an order-preserving accumulator of asserted terms
//! and the verdict of the last satisfiability check.
//!
//! A session moves from empty, through any number of assertions, to a
//! checked state; a model is only warranted by a check that came back
//! satisfiable, and asserting again puts the session back before any
//! verdict.  The native solver object itself lives outside this crate; the
//! session is the layer's own record of what was fed to it and what it
//! answered, and every transition is pinned here.  Producing and evaluating
//! a model adopts native handles through the reference-count ledger.

use vstd::prelude::*;
use crate::ledger::{RefLedger, RefEvent, apply_event, count_of};
use crate::outcome::{ErrorState, NativeError, FactoryOutcome};

verus! {

/// The layer's record of one solver or optimizer session.
pub struct Session {
    asserted: Vec<u64>,
    verdict: Option<bool>,
}

impl Session {
    /// The asserted terms, in assertion order, duplicates kept.
    pub closed spec fn asserted_terms(self) -> Seq<u64> {
        self.asserted@
    }

    /// The verdict of the last check, if any: `true` for satisfiable,
    /// `false` for unsatisfiable or undetermined.
    pub closed spec fn last_verdict(self) -> Option<bool> {
        self.verdict
    }

    /// Whether the session warrants asking for a model: only a check that
    /// came back satisfiable, with no assertion after it, does.
    pub open spec fn model_available(self) -> bool {
        self.last_verdict() == Some(true)
    }

    /// A fresh session: nothing asserted, nothing checked.
    pub fn new() -> (r: Session)
        ensures
            r.asserted_terms() == Seq::<u64>::empty(),
            r.last_verdict() is None,
    {
        Session { asserted: Vec::new(), verdict: None }
    }

    /// Records one asserted term.  Assertions are kept in order and never
    /// deduplicated, and any earlier verdict is stale from here on.
    pub fn assert_term(&mut self, term: u64)
        requires
            term != 0,
        ensures
            final(self).asserted_terms() == old(self).asserted_terms().push(term),
            final(self).last_verdict() is None,
    {
        self.asserted.push(term);
        self.verdict = None;
    }

    /// Records the verdict of a satisfiability check over the assertions as
    /// they stand.
    pub fn record_check(&mut self, satisfiable: bool)
        ensures
            final(self).asserted_terms() == old(self).asserted_terms(),
            final(self).last_verdict() == Some(satisfiable),
            final(self).model_available() <==> satisfiable,
    {
        self.verdict = Some(satisfiable);
    }

    /// How many assertions the session holds.
    pub fn asserted_count(&self) -> (n: usize)
        ensures
            n == self.asserted_terms().len(),
    {
        self.asserted.len()
    }

    /// Whether the session warrants asking for a model.
    pub fn can_produce_model(&self) -> (b: bool)
        ensures
            b == self.model_available(),
    {
        match self.verdict {
            Some(v) => v,
            None => false,
        }
    }
}

/// Adopts what a model evaluation handed back.  `succeeded` is the native
/// flag saying the evaluation filled its output slot with `out`; exactly
/// when it did and the slot holds a real handle, one reference is taken on
/// it.  On anything else the ledger is untouched and the error channel
/// snapshot decides between a failure and a quiet "no value".
pub fn finish_eval(ledger: &mut RefLedger, succeeded: bool, out: u64, err: ErrorState) -> (r:
    FactoryOutcome)
    requires
        old(ledger).wf(),
        count_of(old(ledger)@, out) < u64::MAX,
    ensures
        final(ledger).wf(),
        succeeded && out != 0 ==> r == FactoryOutcome::Produced(out) && final(ledger)@
            == apply_event(old(ledger)@, RefEvent::Acquire(out)),
        !(succeeded && out != 0) ==> final(ledger)@ == old(ledger)@,
        !(succeeded && out != 0) && err is Faulted ==> (r matches FactoryOutcome::Failed(e)
            && e.code == err->code && e.message == err->message),
        !(succeeded && out != 0) && err is Clear ==> r is Absent,
{
    if succeeded && out != 0 {
        ledger.acquire(out);
        FactoryOutcome::Produced(out)
    } else {
        match err {
            ErrorState::Clear => FactoryOutcome::Absent,
            ErrorState::Faulted { code, message } => {
                FactoryOutcome::Failed(NativeError { code, message })
            },
        }
    }
}

} // verus!
