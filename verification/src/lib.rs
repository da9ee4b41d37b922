//! Core of a GPU threshold filter: the graph-integrated filter stage with its
//! region-mapping protocol and parameter marshaling, and the standalone
//! compute-dispatch engine with its thread-group arithmetic. Device, shader and
//! image plumbing live outside this crate; everything here is plain data and
//! verified logic.

use vstd::prelude::*;

pub mod effects;
pub mod kernel;
pub mod marshal;
pub mod rect;
pub mod threshold;

verus! {

/// Result codes surfaced by the filter core. Device failures never originate
/// here: GPU calls happen outside the core and carry their own error type.
#[derive(Clone, Copy, Debug, PartialEq, Eq, Structural)]
pub enum EffectError {
    /// A required handle was absent, a rectangle count was not the declared
    /// input count, or a marshaling buffer had the wrong size.
    InvalidArgument,
    /// An operation ran in a state that forbids it, such as a render
    /// preparation before any draw-info was bound. Callers treat this as
    /// fatal: the operation is aborted, never retried with a guessed default.
    PreconditionViolation,
}

} // verus!
