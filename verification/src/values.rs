//! Reading a term back as a concrete host value.
//!
//! The native queries for boolean, integer and rational values overload one
//! "no answer" signal for two different situations: a genuine native
//! failure, and a value that exists but does not fit the requested
//! representation (or is simply not a literal).  The outcomes here keep the
//! two apart as far as the native interface allows: a failure reported on
//! the error channel comes back as `Faulted`, a quiet refusal as
//! `Undetermined`.

use vstd::prelude::*;
use crate::outcome::{ErrorState, NativeError, TriState};

verus! {

/// What reading a term as a concrete value amounted to.
pub enum ValueOutcome<V> {
    /// The term has this concrete value.
    Value(V),
    /// The native query gave no value and reported no error: the term is
    /// not a literal of the requested kind, or its value does not fit the
    /// requested representation.
    Undetermined,
    /// The native query gave no value and the error channel was active.
    Faulted(NativeError),
}

/// The boolean value of a term, decided from the native tri-state answer
/// and the error channel snapshot taken after the query.
pub fn read_bool(answer: TriState, err: ErrorState) -> (r: ValueOutcome<bool>)
    ensures
        answer is True ==> r == ValueOutcome::<bool>::Value(true),
        answer is False ==> r == ValueOutcome::<bool>::Value(false),
        answer is Undetermined && err is Clear ==> r is Undetermined,
        answer is Undetermined && err is Faulted ==> (r matches ValueOutcome::Faulted(e)
            && e.code == err->code && e.message == err->message),
{
    match answer {
        TriState::True => ValueOutcome::Value(true),
        TriState::False => ValueOutcome::Value(false),
        TriState::Undetermined => {
            match err {
                ErrorState::Clear => ValueOutcome::Undetermined,
                ErrorState::Faulted { code, message } => {
                    ValueOutcome::Faulted(NativeError { code, message })
                },
            }
        },
    }
}

/// The signed integer value of a term.  `fetched` is the native flag saying
/// whether the query filled its output slot with `v`; `err` is the error
/// channel snapshot taken after the query.
pub fn read_i64(fetched: bool, v: i64, err: ErrorState) -> (r: ValueOutcome<i64>)
    ensures
        fetched ==> r == ValueOutcome::<i64>::Value(v),
        !fetched && err is Clear ==> r is Undetermined,
        !fetched && err is Faulted ==> (r matches ValueOutcome::Faulted(e) && e.code
            == err->code && e.message == err->message),
{
    if fetched {
        ValueOutcome::Value(v)
    } else {
        match err {
            ErrorState::Clear => ValueOutcome::Undetermined,
            ErrorState::Faulted { code, message } => {
                ValueOutcome::Faulted(NativeError { code, message })
            },
        }
    }
}

/// The unsigned integer value of a term, decided as `read_i64` is.
pub fn read_u64(fetched: bool, v: u64, err: ErrorState) -> (r: ValueOutcome<u64>)
    ensures
        fetched ==> r == ValueOutcome::<u64>::Value(v),
        !fetched && err is Clear ==> r is Undetermined,
        !fetched && err is Faulted ==> (r matches ValueOutcome::Faulted(e) && e.code
            == err->code && e.message == err->message),
{
    if fetched {
        ValueOutcome::Value(v)
    } else {
        match err {
            ErrorState::Clear => ValueOutcome::Undetermined,
            ErrorState::Faulted { code, message } => {
                ValueOutcome::Faulted(NativeError { code, message })
            },
        }
    }
}

/// The rational value of a term as a numerator and denominator pair,
/// decided as `read_i64` is.
pub fn read_real(fetched: bool, numerator: i64, denominator: i64, err: ErrorState) -> (r:
    ValueOutcome<(i64, i64)>)
    ensures
        fetched ==> r == ValueOutcome::<(i64, i64)>::Value((numerator, denominator)),
        !fetched && err is Clear ==> r is Undetermined,
        !fetched && err is Faulted ==> (r matches ValueOutcome::Faulted(e) && e.code
            == err->code && e.message == err->message),
{
    if fetched {
        ValueOutcome::Value((numerator, denominator))
    } else {
        match err {
            ErrorState::Clear => ValueOutcome::Undetermined,
            ErrorState::Faulted { code, message } => {
                ValueOutcome::Faulted(NativeError { code, message })
            },
        }
    }
}

} // verus!
