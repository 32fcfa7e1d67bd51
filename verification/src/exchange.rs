//! What a query and the engine tell each other.

use vstd::prelude::*;

use crate::data::{TermData, Tree};
use crate::exception::{PrologException, Verdict};
use crate::handles::Predicate;
use crate::query::QueryFlags;

verus! {

/// What the engine reports when asked for the next solution.
pub enum Status {
    /// A solution; there may be more.
    True,
    /// The last solution.
    Last,
    /// No more solutions.
    False,
    /// The goal raised; the exception may be gone already.
    Exception { code: i32, exception: Option<PrologException> },
    /// A status code that is none of these.
    Other(i32),
}

/// One step of a query: what the engine reports, and the bindings of the
/// solution it found.
pub struct Step {
    pub status: Status,
    pub bindings: Vec<(usize, TermData)>,
    /// How many new variables the bindings use; they are numbered from the
    /// next one on.
    pub vars: usize,
}

/// What a [`Step`] denotes.
#[verifier::ext_equal]
pub struct StepView {
    pub status: Status,
    pub bindings: Seq<(usize, Tree)>,
    pub vars: nat,
}

/// What bindings denote.
pub open spec fn bindings_view(bindings: Seq<(usize, TermData)>) -> Seq<(usize, Tree)> {
    Seq::new(bindings.len(), |i: int| (bindings[i].0, bindings[i].1@))
}

impl View for Step {
    type V = StepView;

    open spec fn view(&self) -> StepView {
        StepView {
            status: self.status,
            bindings: bindings_view(self.bindings@),
            vars: self.vars as nat,
        }
    }
}

/// What the engine is asked to run: a predicate on a block of term references,
/// given by its first reference and its length.
#[verifier::ext_equal]
pub struct Goal {
    pub predicate: Predicate,
    pub first: nat,
    pub count: nat,
    pub flags: QueryFlags,
}

/// One exchange between a query and the engine.
#[verifier::ext_equal]
pub enum Event {
    /// The engine was asked to open a query for a goal, and answered.
    Opened(Goal, Verdict),
    /// The next solution was asked for, and the engine took a step.
    Advanced(StepView),
    /// A query was ended, keeping its bindings or not, and the engine
    /// answered.
    Ended(bool, Verdict),
}

} // verus!
