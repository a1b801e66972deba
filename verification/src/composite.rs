//! Composite sorts: a sort created together with a bundle of auxiliary
//! function declarations.
//!
//! One native call creates a list sort or an enumeration sort and fills a
//! fixed set of output slots with declaration handles (constructors,
//! recognizers, accessors).  Every one of those handles must be
//! reference-counted together with the sort, as one transaction: either the
//! caller gets a fully populated bundle whose every member the ledger now
//! tracks, or the ledger is left exactly as it was and an error comes back.
//! A partially counted bundle is never observable.

use vstd::prelude::*;
use crate::ledger::{RefLedger, RefEvent, apply_event, apply_acquires, apply_releases,
    releases_ok, count_of, lemma_headroom_acquires_ok};
use crate::outcome::{ErrorState, NativeError};

verus! {

/// Why a composite bundle could not be built.
pub enum BuildError {
    /// The native call failed and the error channel held this failure.
    Native(NativeError),
    /// The native call left a slot unfilled (or slots of mismatched number)
    /// without reporting an error: the bundle would be unusable, so nothing
    /// was reference-counted.
    Incomplete,
}

/// The error a failed composite construction surfaces, decided from the
/// error channel snapshot taken after the native call.
pub open spec fn build_failure(err: ErrorState) -> BuildError {
    match err {
        ErrorState::Clear => BuildError::Incomplete,
        ErrorState::Faulted { code, message } => BuildError::Native(
            NativeError { code, message },
        ),
    }
}

/// A list sort together with its six auxiliary declarations, every one of
/// them reference-counted by the ledger for as long as the bundle lives.
pub struct ListBundle {
    pub sort: u64,
    pub nil: u64,
    pub is_nil: u64,
    pub cons: u64,
    pub is_cons: u64,
    pub head: u64,
    pub tail: u64,
}

impl ListBundle {
    /// The bundle's members in the fixed order they are counted and
    /// released: the sort first, then the six declarations.
    pub open spec fn members(self) -> Seq<u64> {
        seq![self.sort, self.nil, self.is_nil, self.cons, self.is_cons, self.head, self.tail]
    }

    /// A usable bundle holds no null sentinel in any slot.
    pub open spec fn wf(self) -> bool {
        forall|i: int| 0 <= i < self.members().len() ==> self.members()[i] != 0
    }

    /// Builds the bundle from the native constructor's outputs, counting the
    /// sort and all six declarations as one transaction.  `err` is the error
    /// channel snapshot taken after the native call, consulted only when a
    /// slot is unfilled.  On any failure the ledger is untouched.
    pub fn assemble(
        ledger: &mut RefLedger,
        sort: u64,
        nil: u64,
        is_nil: u64,
        cons: u64,
        is_cons: u64,
        head: u64,
        tail: u64,
        err: ErrorState,
    ) -> (r: Result<ListBundle, BuildError>)
        requires
            old(ledger).wf(),
            count_of(old(ledger)@, sort) + 7 <= u64::MAX,
            count_of(old(ledger)@, nil) + 7 <= u64::MAX,
            count_of(old(ledger)@, is_nil) + 7 <= u64::MAX,
            count_of(old(ledger)@, cons) + 7 <= u64::MAX,
            count_of(old(ledger)@, is_cons) + 7 <= u64::MAX,
            count_of(old(ledger)@, head) + 7 <= u64::MAX,
            count_of(old(ledger)@, tail) + 7 <= u64::MAX,
        ensures
            final(ledger).wf(),
            ({
                let filled = sort != 0 && nil != 0 && is_nil != 0 && cons != 0 && is_cons != 0
                    && head != 0 && tail != 0;
                match r {
                    Ok(b) => filled && b == (ListBundle {
                        sort,
                        nil,
                        is_nil,
                        cons,
                        is_cons,
                        head,
                        tail,
                    }) && b.wf() && final(ledger)@ == apply_acquires(old(ledger)@, b.members()),
                    Err(e) => !filled && e == build_failure(err) && final(ledger)@ == old(
                        ledger,
                    )@,
                }
            }),
    {
        if sort == 0 || nil == 0 || is_nil == 0 || cons == 0 || is_cons == 0 || head == 0
            || tail == 0 {
            return Err(match err {
                ErrorState::Clear => BuildError::Incomplete,
                ErrorState::Faulted { code, message } => BuildError::Native(
                    NativeError { code, message },
                ),
            });
        }
        let b = ListBundle { sort, nil, is_nil, cons, is_cons, head, tail };
        let mut ids: Vec<u64> = Vec::new();
        ids.push(sort);
        ids.push(nil);
        ids.push(is_nil);
        ids.push(cons);
        ids.push(is_cons);
        ids.push(head);
        ids.push(tail);
        proof {
            assert(ids@ =~= b.members());
            lemma_headroom_acquires_ok(ledger@, ids@);
        }
        ledger.acquire_all(&ids);
        Ok(b)
    }

    /// Gives back the references on the sort and all six declarations, in
    /// the same fixed order they were taken, as one transaction.
    pub fn release(&self, ledger: &mut RefLedger)
        requires
            old(ledger).wf(),
            releases_ok(old(ledger)@, self.members()),
        ensures
            final(ledger).wf(),
            final(ledger)@ == apply_releases(old(ledger)@, self.members()),
    {
        let mut ids: Vec<u64> = Vec::new();
        ids.push(self.sort);
        ids.push(self.nil);
        ids.push(self.is_nil);
        ids.push(self.cons);
        ids.push(self.is_cons);
        ids.push(self.head);
        ids.push(self.tail);
        proof {
            assert(ids@ =~= self.members());
        }
        ledger.release_all(&ids);
    }
}

/// An enumeration sort together with its value names and, per value, a
/// constant declaration and a tester declaration, all reference-counted by
/// the ledger for as long as the bundle lives.
pub struct EnumBundle {
    pub sort: u64,
    pub names: Vec<String>,
    pub consts: Vec<u64>,
    pub testers: Vec<u64>,
}

impl EnumBundle {
    /// The bundle's members in the fixed order they are counted and
    /// released: the sort, then every constant, then every tester.
    pub open spec fn members(self) -> Seq<u64> {
        seq![self.sort] + self.consts@ + self.testers@
    }

    /// A usable bundle has one constant and one tester per name and no null
    /// sentinel in any slot.
    pub open spec fn wf(self) -> bool {
        &&& self.consts@.len() == self.names@.len()
        &&& self.testers@.len() == self.names@.len()
        &&& forall|i: int| 0 <= i < self.members().len() ==> self.members()[i] != 0
    }

    /// Whether position `i` holds the first occurrence of `name` in the
    /// bundle's name list.
    pub open spec fn first_match_is(self, name: Seq<char>, i: int) -> bool {
        &&& 0 <= i < self.names@.len()
        &&& self.names@[i]@ == name
        &&& forall|j: int| 0 <= j < i ==> self.names@[j]@ != name
    }

    /// Whether any position holds `name`.
    pub open spec fn has_name(self, name: Seq<char>) -> bool {
        exists|i: int| 0 <= i < self.names@.len() && self.names@[i]@ == name
    }

    /// Builds the bundle from the native constructor's outputs, counting the
    /// sort, every constant and every tester as one transaction.  `err` is
    /// the error channel snapshot taken after the native call, consulted
    /// only when a slot is unfilled.  On any failure the ledger is
    /// untouched.
    pub fn assemble(
        ledger: &mut RefLedger,
        sort: u64,
        names: Vec<String>,
        consts: Vec<u64>,
        testers: Vec<u64>,
        err: ErrorState,
    ) -> (r: Result<EnumBundle, BuildError>)
        requires
            old(ledger).wf(),
            count_of(old(ledger)@, sort) + 1 + consts@.len() + testers@.len() <= u64::MAX,
            forall|i: int|
                0 <= i < consts@.len() ==> count_of(old(ledger)@, #[trigger] consts@[i]) + 1
                    + consts@.len() + testers@.len() <= u64::MAX,
            forall|i: int|
                0 <= i < testers@.len() ==> count_of(old(ledger)@, #[trigger] testers@[i]) + 1
                    + consts@.len() + testers@.len() <= u64::MAX,
        ensures
            final(ledger).wf(),
            ({
                let filled = sort != 0 && consts@.len() == names@.len() && testers@.len()
                    == names@.len() && (forall|i: int|
                    0 <= i < consts@.len() ==> consts@[i] != 0) && (forall|i: int|
                    0 <= i < testers@.len() ==> testers@[i] != 0);
                match r {
                    Ok(b) => filled && b == (EnumBundle { sort, names, consts, testers })
                        && b.wf() && final(ledger)@ == apply_acquires(
                        old(ledger)@,
                        b.members(),
                    ),
                    Err(e) => !filled && e == build_failure(err) && final(ledger)@ == old(
                        ledger,
                    )@,
                }
            }),
    {
        let n = names.len();
        let mut filled = sort != 0 && consts.len() == n && testers.len() == n;
        let mut i: usize = 0;
        while i < consts.len()
            invariant
                i <= consts@.len(),
                filled ==> sort != 0 && consts@.len() == names@.len() && testers@.len()
                    == names@.len(),
                filled ==> forall|j: int| 0 <= j < i ==> consts@[j] != 0,
                !filled ==> !(sort != 0 && consts@.len() == names@.len() && testers@.len()
                    == names@.len() && (forall|j: int|
                    0 <= j < consts@.len() ==> consts@[j] != 0) && (forall|j: int|
                    0 <= j < testers@.len() ==> testers@[j] != 0)),
            decreases consts@.len() - i,
        {
            if consts[i] == 0 {
                filled = false;
            }
            i = i + 1;
        }
        let mut i: usize = 0;
        while i < testers.len()
            invariant
                i <= testers@.len(),
                filled ==> sort != 0 && consts@.len() == names@.len() && testers@.len()
                    == names@.len(),
                filled ==> forall|j: int| 0 <= j < consts@.len() ==> consts@[j] != 0,
                filled ==> forall|j: int| 0 <= j < i ==> testers@[j] != 0,
                !filled ==> !(sort != 0 && consts@.len() == names@.len() && testers@.len()
                    == names@.len() && (forall|j: int|
                    0 <= j < consts@.len() ==> consts@[j] != 0) && (forall|j: int|
                    0 <= j < testers@.len() ==> testers@[j] != 0)),
            decreases testers@.len() - i,
        {
            if testers[i] == 0 {
                filled = false;
            }
            i = i + 1;
        }
        if !filled {
            return Err(match err {
                ErrorState::Clear => BuildError::Incomplete,
                ErrorState::Faulted { code, message } => BuildError::Native(
                    NativeError { code, message },
                ),
            });
        }
        let mut ids: Vec<u64> = Vec::new();
        ids.push(sort);
        let mut i: usize = 0;
        while i < consts.len()
            invariant
                i <= consts@.len(),
                ids@ =~= seq![sort] + consts@.take(i as int),
            decreases consts@.len() - i,
        {
            ids.push(consts[i]);
            i = i + 1;
        }
        let mut i: usize = 0;
        while i < testers.len()
            invariant
                i <= testers@.len(),
                ids@ =~= seq![sort] + consts@ + testers@.take(i as int),
            decreases testers@.len() - i,
        {
            ids.push(testers[i]);
            i = i + 1;
        }
        let b = EnumBundle { sort, names, consts, testers };
        proof {
            assert(ids@ =~= b.members());
            lemma_headroom_acquires_ok(ledger@, ids@);
        }
        ledger.acquire_all(&ids);
        Ok(b)
    }

    /// Gives back the references on the sort, every constant and every
    /// tester, in the same fixed order they were taken, as one transaction.
    pub fn release(&self, ledger: &mut RefLedger)
        requires
            old(ledger).wf(),
            releases_ok(old(ledger)@, self.members()),
        ensures
            final(ledger).wf(),
            final(ledger)@ == apply_releases(old(ledger)@, self.members()),
    {
        let mut ids: Vec<u64> = Vec::new();
        ids.push(self.sort);
        let mut i: usize = 0;
        while i < self.consts.len()
            invariant
                i <= self.consts@.len(),
                ids@ =~= seq![self.sort] + self.consts@.take(i as int),
            decreases self.consts@.len() - i,
        {
            ids.push(self.consts[i]);
            i = i + 1;
        }
        let mut i: usize = 0;
        while i < self.testers.len()
            invariant
                i <= self.testers@.len(),
                ids@ =~= seq![self.sort] + self.consts@ + self.testers@.take(i as int),
            decreases self.testers@.len() - i,
        {
            ids.push(self.testers[i]);
            i = i + 1;
        }
        proof {
            assert(ids@ =~= self.members());
        }
        ledger.release_all(&ids);
    }

    /// The position of the first value with this name, scanned left to
    /// right, or nothing when no value carries it.  The scan is linear and
    /// the first occurrence wins when names are accidentally duplicated.
    pub fn value_index(&self, name: &str) -> (r: Option<usize>)
        ensures
            match r {
                Some(i) => self.first_match_is(name@, i as int),
                None => !self.has_name(name@),
            },
    {
        let wanted = name.to_owned();
        let n = self.names.len();
        let mut i: usize = 0;
        while i < n
            invariant
                i <= n,
                n == self.names@.len(),
                wanted@ == name@,
                forall|j: int| 0 <= j < i ==> self.names@[j]@ != name@,
            decreases n - i,
        {
            if self.names[i] == wanted {
                return Some(i);
            }
            i = i + 1;
        }
        None
    }

    /// The constant declaration for the named value, reference-counted on
    /// the way out exactly as wrapping any declaration handle does; nothing,
    /// with the ledger untouched, when no value carries the name.
    pub fn value_decl(&self, ledger: &mut RefLedger, name: &str) -> (r: Option<u64>)
        requires
            old(ledger).wf(),
            self.wf(),
            forall|i: int|
                0 <= i < self.consts@.len() ==> count_of(old(ledger)@, #[trigger] self.consts@[i])
                    < u64::MAX,
        ensures
            final(ledger).wf(),
            r is Some <==> self.has_name(name@),
            match r {
                Some(id) => exists|i: int|
                    self.first_match_is(name@, i) && id == self.consts@[i] && final(ledger)@
                        == apply_event(old(ledger)@, RefEvent::Acquire(id)),
                None => final(ledger)@ == old(ledger)@,
            },
    {
        match self.value_index(name) {
            Some(i) => {
                let id = self.consts[i];
                // A bundle member, hence never the null sentinel.
                assert(self.members()[1 + i as int] == id);
                ledger.acquire(id);
                Some(id)
            },
            None => None,
        }
    }

    /// The tester declaration for the named value, reference-counted on the
    /// way out; nothing, with the ledger untouched, when no value carries
    /// the name.
    pub fn is_value_decl(&self, ledger: &mut RefLedger, name: &str) -> (r: Option<u64>)
        requires
            old(ledger).wf(),
            self.wf(),
            forall|i: int|
                0 <= i < self.testers@.len() ==> count_of(
                    old(ledger)@,
                    #[trigger] self.testers@[i],
                ) < u64::MAX,
        ensures
            final(ledger).wf(),
            r is Some <==> self.has_name(name@),
            match r {
                Some(id) => exists|i: int|
                    self.first_match_is(name@, i) && id == self.testers@[i] && final(ledger)@
                        == apply_event(old(ledger)@, RefEvent::Acquire(id)),
                None => final(ledger)@ == old(ledger)@,
            },
    {
        match self.value_index(name) {
            Some(i) => {
                let id = self.testers[i];
                // A bundle member, hence never the null sentinel.
                assert(self.members()[1 + self.consts@.len() + i as int] == id);
                ledger.acquire(id);
                Some(id)
            },
            None => None,
        }
    }
}

} // verus!
