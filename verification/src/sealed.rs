//! What only the contexts of this library implement.

use vstd::prelude::*;

use crate::scope::Activation;

verus! {

/// Names the activation that a context's scopes and allocations belong to.
pub trait Sealed {
    /// The engine generation of the context, and the scope depth at which it
    /// is the innermost one.
    spec fn place(&self) -> Activation;

    /// The activation this context belongs to.
    fn activation(&self) -> (r: Activation)
        ensures
            r == self.place(),
    ;
}

} // verus!
