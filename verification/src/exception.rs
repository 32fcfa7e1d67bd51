//! Prolog exceptions as the library's shared error currency.
//!
//! A pending exception is engine state, not term state: any operation can
//! raise one, and every layer surfaces it the same way, as rendered text that
//! was captured and cleared before the raising scope was torn down.

use vstd::prelude::*;

verus! {

/// A Prolog exception captured as text.
///
/// The exception term is rendered (as by `writeq/1`) at the moment it is
/// observed, and the engine's pending-exception state is cleared.
#[derive(Debug, Clone, PartialEq, Eq)]
pub struct PrologException(pub String);

/// How the engine answers the next operation that it decides.
///
/// An operation that takes several calls into the engine has one answer: it
/// goes through if all of them do, and otherwise it fails as the first of them
/// that does not. What such an operation allocated before that is left open.
#[derive(Debug, Clone, PartialEq, Eq)]
pub enum Verdict {
    /// The operation goes through.
    Grant,
    /// The operation fails and leaves no exception.
    Refuse,
    /// The operation fails and leaves this exception pending.
    Raise(PrologException),
}

/// The exception that a rendering attempt yields: the rendered text, or a
/// placeholder where the engine could not render the exception term.
pub fn captured(rendered: Option<String>) -> (r: PrologException)
    ensures
        rendered matches Some(text) ==> r == PrologException(text),
        rendered is None ==> r.0@ == "<unrenderable exception>"@,
{
    match rendered {
        Some(text) => PrologException(text),
        None => PrologException("<unrenderable exception>".to_owned()),
    }
}

} // verus!
