//! Resource-safety core for a wrapper around a native constraint solver.
//!
//! The native engine is reached over a C interface that hands out opaque
//! handles (contexts, sorts, terms, function declarations, solvers, models)
//! and reports failures through a per-context last-error channel.  Everything
//! that can be stated and checked about that traffic without performing the
//! calls themselves lives here: classifying what a factory call returned,
//! mirroring the native reference counts, assembling composite sorts
//! atomically, gathering operand lists, and tracking a solver session's
//! progress from assertions to a model.  The thin layer that actually crosses
//! the C boundary sits outside this crate and consults these functions for
//! every decision it takes.

pub mod composite;
pub mod ledger;
pub mod outcome;
pub mod session;
pub mod term;
pub mod values;
