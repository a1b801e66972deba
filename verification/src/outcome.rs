//! The error-channel adapter: turning what a native call handed back into a
//! decision.
//!
//! Every fallible native factory returns either a handle or a null sentinel,
//! and leaves the per-context last-error channel either clear or holding a
//! numeric code with a message.  The layer that crosses the C boundary reads
//! both and passes them here as plain values; the functions in this module
//! decide, exactly and totally, what that combination means: a produced
//! handle, a recoverable failure, or a benign "no value" signal.

use vstd::prelude::*;

verus! {

/// Snapshot of the native per-context last-error channel, read immediately
/// after a native call.  `Clear` means the channel reported no error;
/// `Faulted` carries the numeric code and the message the channel held.
pub enum ErrorState {
    Clear,
    Faulted { code: u32, message: String },
}

/// A native failure surfaced to callers as a recoverable value: the numeric
/// error code and the human-readable message captured from the error channel.
pub struct NativeError {
    pub code: u32,
    pub message: String,
}

/// What a fallible native factory call amounts to once the returned handle
/// and the error channel have both been consulted.
pub enum FactoryOutcome {
    /// The call produced this handle (never the null sentinel).
    Produced(u64),
    /// The call returned null and the error channel was active.
    Failed(NativeError),
    /// The call returned null with a clear error channel: the library-specific
    /// signal for "no value here", not a failure.
    Absent,
}

/// The tri-state value the native engine uses for satisfiability answers and
/// boolean term values.
pub enum TriState {
    False,
    Undetermined,
    True,
}

/// Classifies the result of a fallible native factory call.  `raw` is the
/// returned handle with the null sentinel encoded as `0`; `err` is the state
/// of the error channel read right after the call.
pub fn classify_factory(raw: u64, err: ErrorState) -> (r: FactoryOutcome)
    ensures
        raw != 0 <==> r == FactoryOutcome::Produced(raw),
        raw == 0 && err is Faulted ==> (r matches FactoryOutcome::Failed(e)
            && e.code == err->code && e.message == err->message),
        raw == 0 && err is Clear <==> r is Absent,
{
    if raw != 0 {
        FactoryOutcome::Produced(raw)
    } else {
        match err {
            ErrorState::Clear => FactoryOutcome::Absent,
            ErrorState::Faulted { code, message } => {
                FactoryOutcome::Failed(NativeError { code, message })
            },
        }
    }
}

/// The satisfiability verdict of a solver check, decided from the native
/// tri-state answer and the error channel: `True` means satisfiable,
/// `False` and `Undetermined` with a clear channel both mean "not shown
/// satisfiable" and come back as `false`, while `Undetermined` with an active
/// channel is a native failure.
pub fn check_verdict(answer: TriState, err: ErrorState) -> (r: Result<bool, NativeError>)
    ensures
        answer is True <==> r == Result::<bool, NativeError>::Ok(true),
        answer is False ==> r == Result::<bool, NativeError>::Ok(false),
        answer is Undetermined && err is Clear ==> r == Result::<bool, NativeError>::Ok(false),
        answer is Undetermined && err is Faulted ==> (r matches Result::Err(e)
            && e.code == err->code && e.message == err->message),
{
    match answer {
        TriState::True => Ok(true),
        TriState::False => Ok(false),
        TriState::Undetermined => {
            match err {
                ErrorState::Clear => Ok(false),
                ErrorState::Faulted { code, message } => {
                    Err(NativeError { code, message })
                },
            }
        },
    }
}

} // verus!
