//! A self-describing data format on Prolog terms.
//!
//! Structs, struct variants, and maps become dicts (tagged with the struct or
//! variant name, `#` for maps); tuple structs and tuple variants become
//! compounds; unit variants become atoms; sequences and tuples become proper
//! lists. The deserializer reads the same shapes back and is self-describing.
//!
//! Absent and unit values are only supported as a struct field or map value,
//! where an absent value leaves the entry out.
//!
//! The serializers and deserializers here advance one step at a time: a step
//! that descends into a nested value hands out the serializer or deserializer
//! for it, and is told what came of it.

pub mod de;
pub mod laws;
pub mod ser;

use vstd::prelude::*;

use crate::codec::overwrites;
use crate::fli::State;
use crate::handles::HandleError;
use crate::term::{grows, TermError, TermKind};

verus! {

/// The error type for serialization to and deserialization from terms.
#[derive(Debug, Clone, PartialEq, Eq)]
#[allow(inconsistent_fields)]
pub enum Error {
    /// A message produced by the serialized or deserialized value.
    Message(String),
    /// A term operation failed.
    Term(TermError),
    /// A handle construction (e.g. a functor) failed.
    Handle(HandleError),
    /// The term does not have the shape the target type requires.
    Type { expected: &'static str },
    /// A compound's name/arity did not match the expected tuple struct or
    /// variant.
    Functor {
        expected_name: String,
        expected_arity: usize,
        actual_name: String,
        actual_arity: usize,
    },
    /// A dict's tag did not match the expected struct or variant name.
    DictTag { expected: String, actual: Option<String> },
    /// The term kind has no representation.
    UnsupportedTerm { kind: TermKind },
    /// A list element read as a byte was outside the `u8` range.
    ByteRange { value: u64 },
    /// An absent or unit value appeared outside a dict-entry position.
    OptionOutsideDictEntry,
    /// A map value was supplied or requested before its key.
    MapValueOrder(&'static str),
    /// Another key was supplied or requested before the preceding key/value
    /// pair was complete.
    MapKeyOrder(&'static str),
    /// A map ended after a key without its value.
    MapKeyWithoutValue,
    /// A tuple-shaped value supplied a different number of fields than it
    /// declared, or than the destination expects.
    ArityMismatch { name: String, expected: usize, actual: usize },
}

/// What an [`Error`] denotes.
#[verifier::ext_equal]
pub enum Fault {
    Message(Seq<char>),
    Term(TermError),
    Handle(HandleError),
    Type(Seq<char>),
    Functor(Seq<char>, nat, Seq<char>, nat),
    DictTag(Seq<char>, Option<Seq<char>>),
    UnsupportedTerm(TermKind),
    ByteRange(u64),
    OptionOutsideDictEntry,
    MapValueOrder(Seq<char>),
    MapKeyOrder(Seq<char>),
    MapKeyWithoutValue,
    ArityMismatch(Seq<char>, nat, nat),
}

impl View for Error {
    type V = Fault;

    open spec fn view(&self) -> Fault {
        match self {
            Error::Message(text) => Fault::Message(text@),
            Error::Term(e) => Fault::Term(*e),
            Error::Handle(e) => Fault::Handle(*e),
            Error::Type { expected } => Fault::Type(expected@),
            Error::Functor { expected_name, expected_arity, actual_name, actual_arity } =>
            Fault::Functor(
                expected_name@,
                *expected_arity as nat,
                actual_name@,
                *actual_arity as nat,
            ),
            Error::DictTag { expected, actual } => Fault::DictTag(
                expected@,
                match actual {
                    Some(text) => Some(text@),
                    None => None,
                },
            ),
            Error::UnsupportedTerm { kind } => Fault::UnsupportedTerm(*kind),
            Error::ByteRange { value } => Fault::ByteRange(*value),
            Error::OptionOutsideDictEntry => Fault::OptionOutsideDictEntry,
            Error::MapValueOrder(step) => Fault::MapValueOrder(step@),
            Error::MapKeyOrder(step) => Fault::MapKeyOrder(step@),
            Error::MapKeyWithoutValue => Fault::MapKeyWithoutValue,
            Error::ArityMismatch { name, expected, actual } => Fault::ArityMismatch(
                name@,
                *expected as nat,
                *actual as nat,
            ),
        }
    }
}

/// Whether a step of several calls into the engine that writes reference `raw`
/// failed with the pending exception, at whichever of them.
pub open spec fn failed_writing<T>(
    before: State,
    after: State,
    raw: usize,
    r: Result<T, Error>,
) -> bool {
    &&& before.verdict is Raise
    &&& r matches Err(e) && e@ == Fault::Term(TermError::Exception(before.verdict->Raise_0))
    &&& overwrites(before, after, raw)
    &&& after.verdict is Grant
}

/// Whether a step of several calls into the engine failed with the pending
/// exception, at whichever of them.
pub open spec fn failed_within<T>(before: State, after: State, r: Result<T, Error>) -> bool {
    &&& before.verdict is Raise
    &&& r matches Err(e) && e@ == Fault::Term(TermError::Exception(before.verdict->Raise_0))
    &&& grows(before, after)
    &&& after.verdict is Grant
}

/// Whether a step failed with the pending exception and did nothing else.
pub open spec fn failed<T>(before: State, after: State, r: Result<T, Error>) -> bool {
    &&& before.verdict is Raise
    &&& r matches Err(e) && e@ == Fault::Term(TermError::Exception(before.verdict->Raise_0))
    &&& after == before.answered()
}

} // verus!
