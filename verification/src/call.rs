//! Errors of the closure-based lifecycle helpers.

use vstd::prelude::*;

verus! {

/// An error from a closure-based lifecycle helper.
///
/// `Operation` is the error type of the managed resource itself; `Body` is
/// the error returned by the user closure.
#[derive(Debug, Clone, PartialEq, Eq)]
pub enum ScopedCallError<Operation, Body> {
    /// Opening, advancing, or finalizing the managed resource failed.
    Operation(Operation),
    /// The user closure failed and the scope was ended according to the
    /// helper's documented failure semantics.
    Body(Body),
    /// The user closure failed and ending the scope also failed.
    BodyAndCleanup { body: Body, cleanup: Operation },
}

} // verus!
