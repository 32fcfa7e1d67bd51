//! Laws of what values denote: every part of an error, of a plan's attributes or
//! of a step is told as what it is.

use vstd::prelude::*;

use crate::args::{ArgumentError, ArgumentFault};
use crate::codec::{
    field_keys, field_terms, field_tree, fields_view, held_by, CodecFault, TermCodecError,
};
use crate::data::{Key, KeyData, TermData};
use crate::derive::attrs::{Attrs, DeriveError, Fault as DeriveFault};
use crate::dict::{entries_view, pairs_view, DictKey};
use crate::exchange::{bindings_view, Step};
use crate::fli::State;
use crate::format::de::{Shape, VariantShape};
use crate::format::{Error, Fault};
use crate::handles::{Atom, HandleError};
use crate::record::RecordError;
use crate::term::{Term, TermError, TermKind};

verus! {

/// A conversion error tells what was expected as expected and what was found as
/// found.
pub proof fn conversion_errors_tell_their_parts(
    name: String,
    arity: usize,
    other: String,
    count: usize,
    expected: &'static str,
    term: TermError,
    handle: HandleError,
    record: RecordError,
)
    ensures
        TermCodecError::Term(term)@ == CodecFault::Term(term),
        TermCodecError::Handle(handle)@ == CodecFault::Handle(handle),
        TermCodecError::Record(record)@ == CodecFault::Record(record),
        (TermCodecError::Type { expected })@ == CodecFault::Type(expected@),
        (TermCodecError::Functor {
            expected_name: name,
            expected_arity: arity,
            actual_name: other,
            actual_arity: count,
        })@ == CodecFault::Functor(name@, arity as nat, other@, count as nat),
        (TermCodecError::DictTag { expected: name, actual: Some(other) })@ == CodecFault::DictTag(
            name@,
            Some(other@),
        ),
        (TermCodecError::DictTag { expected: name, actual: None })@ == CodecFault::DictTag(
            name@,
            None,
        ),
        (TermCodecError::MissingField { field: name })@ == CodecFault::MissingField(name@),
        (TermCodecError::DuplicateField { field: name })@ == CodecFault::DuplicateField(name@),
        (TermCodecError::UnknownVariant { variant: name })@ == CodecFault::UnknownVariant(name@),
        TermCodecError::OptionOutsideField@ == CodecFault::OptionOutsideField,
        (TermCodecError::ArityMismatch { expected: arity, actual: count })@
            == CodecFault::ArityMismatch(arity as nat, count as nat),
        TermCodecError::Message(name)@ == CodecFault::Message(name@),
        ArgumentError::Term(term)@ == ArgumentFault::Term(term),
        ArgumentError::Codec(TermCodecError::OptionOutsideField)@ == ArgumentFault::Codec(
            CodecFault::OptionOutsideField,
        ),
{
}

/// An argument error tells the fault of its conversion.
pub proof fn argument_errors_tell_their_conversion(error: TermCodecError)
    ensures
        ArgumentError::Codec(error)@ == ArgumentFault::Codec(error@),
{
}

/// An error of the data format tells what was expected as expected and what was
/// found as found.
pub proof fn format_errors_tell_their_parts(
    name: String,
    arity: usize,
    other: String,
    count: usize,
    value: u64,
    expected: &'static str,
    term: TermError,
    handle: HandleError,
    kind: TermKind,
)
    ensures
        Error::Message(name)@ == Fault::Message(name@),
        Error::Term(term)@ == Fault::Term(term),
        Error::Handle(handle)@ == Fault::Handle(handle),
        (Error::Type { expected })@ == Fault::Type(expected@),
        (Error::Functor {
            expected_name: name,
            expected_arity: arity,
            actual_name: other,
            actual_arity: count,
        })@ == Fault::Functor(name@, arity as nat, other@, count as nat),
        (Error::DictTag { expected: name, actual: Some(other) })@ == Fault::DictTag(
            name@,
            Some(other@),
        ),
        (Error::DictTag { expected: name, actual: None })@ == Fault::DictTag(name@, None),
        (Error::UnsupportedTerm { kind })@ == Fault::UnsupportedTerm(kind),
        (Error::ByteRange { value })@ == Fault::ByteRange(value),
        Error::OptionOutsideDictEntry@ == Fault::OptionOutsideDictEntry,
        Error::MapValueOrder(expected)@ == Fault::MapValueOrder(expected@),
        Error::MapKeyOrder(expected)@ == Fault::MapKeyOrder(expected@),
        Error::MapKeyWithoutValue@ == Fault::MapKeyWithoutValue,
        (Error::ArityMismatch { name, expected: arity, actual: count })@ == Fault::ArityMismatch(
            name@,
            arity as nat,
            count as nat,
        ),
        VariantShape::Unit(name)@ == Shape::Unit(name@),
        (VariantShape::Compound { variant: name, arity })@ == Shape::Compound(name@, arity as nat),
        VariantShape::Dict(name)@ == Shape::Dict(name@),
{
}

/// A derive error is the fault of the same name.
pub proof fn derive_errors_tell_their_fault(end: bool, text: String)
    ensures
        DeriveError::NoList@ == DeriveFault::NoList,
        DeriveError::NotAList@ == DeriveFault::NotAList,
        DeriveError::NestedExpected@ == DeriveFault::NestedExpected,
        DeriveError::LiteralUnexpected@ == DeriveFault::LiteralUnexpected,
        DeriveError::TokenUnexpected@ == DeriveFault::TokenUnexpected,
        (DeriveError::IdentExpected { end })@ == DeriveFault::IdentExpected(end),
        DeriveError::EqualsExpected@ == DeriveFault::EqualsExpected,
        (DeriveError::StringExpected { end })@ == DeriveFault::StringExpected(end),
        DeriveError::CommaExpected@ == DeriveFault::CommaExpected,
        DeriveError::UnsupportedRule@ == DeriveFault::UnsupportedRule,
        DeriveError::UnsupportedProperty@ == DeriveFault::UnsupportedProperty,
        DeriveError::InvalidPath(text)@ == DeriveFault::InvalidPath(text@),
        DeriveError::ToUnion@ == DeriveFault::ToUnion,
        DeriveError::FromUnion@ == DeriveFault::FromUnion,
        DeriveError::ContainerDefaultPath@ == DeriveFault::ContainerDefaultPath,
        DeriveError::ContentRequired@ == DeriveFault::ContentRequired,
{
}

/// Attributes denote what their fields hold, each under its own name.
pub proof fn attributes_denote_their_fields(a: Attrs, text: String)
    ensures
        a@.rename is Some <==> a.rename is Some,
        a.rename == Some(text) ==> a@.rename == Some(text@),
        a@.rename_all == a.rename_all,
        a@.skip == a.skip,
        a@.skip_to_term == a.skip_to_term,
        a@.skip_from_term == a.skip_from_term,
        a@.flatten == a.flatten,
        a@.untagged == a.untagged,
        a@.default is Some <==> a.default is Some,
        a.default == Some(None::<String>) ==> a@.default == Some(None::<Seq<char>>),
        a.default == Some(Some(text)) ==> a@.default == Some(Some(text@)),
        a@.tag is Some <==> a.tag is Some,
        a.tag == Some(text) ==> a@.tag == Some(text@),
        a@.content is Some <==> a.content is Some,
        a.content == Some(text) ==> a@.content == Some(text@),
        a@.crate_path is Some <==> a.crate_path is Some,
        a.crate_path == Some(text) ==> a@.crate_path == Some(text@),
{
}

/// A step denotes its status, its bindings one for one, and how many variables
/// it made.
pub proof fn steps_denote_their_parts(
    step: Step,
    bindings: Seq<(usize, TermData)>,
    entries: Seq<(KeyData, TermData)>,
    i: int,
)
    ensures
        step@.status == step.status,
        step@.bindings == bindings_view(step.bindings@),
        step@.vars == step.vars,
        bindings_view(bindings).len() == bindings.len(),
        0 <= i < bindings.len() ==> bindings_view(bindings)[i].0 == bindings[i].0 && bindings_view(
            bindings,
        )[i].1 == bindings[i].1@,
        entries_view(entries).len() == entries.len(),
        0 <= i < entries.len() ==> entries_view(entries)[i].0 == entries[i].0@ && entries_view(
            entries,
        )[i].1 == entries[i].1@,
{
}

/// A dict key denotes its atom's text or its integer.
pub proof fn keys_denote_themselves(atom: Atom, text: String, value: i64)
    ensures
        DictKey::Atom(atom)@ == Key::Atom(atom@),
        DictKey::Int(value)@ == Key::Int(value as int),
        KeyData::Atom(text)@ == Key::Atom(text@),
        KeyData::Int(value)@ == Key::Int(value as int),
{
}

/// What terms hold is what their references hold, at the same places.
pub proof fn terms_hold_what_their_references_hold(
    s: State,
    terms: Seq<Term>,
    fields: Seq<(String, Term)>,
    pairs: Seq<(DictKey, Term)>,
    term: Term,
    i: int,
)
    ensures
        held_by(terms, s).len() == terms.len(),
        0 <= i < terms.len() ==> held_by(terms, s)[i] == s.refs[terms[i].raw() as int],
        fields_view(fields, s).len() == fields.len(),
        0 <= i < fields.len() ==> fields_view(fields, s)[i].0 == fields[i].0@ && fields_view(
            fields,
            s,
        )[i].1 == s.refs[fields[i].1.raw() as int],
        field_keys(fields).len() == fields.len(),
        0 <= i < fields.len() ==> field_keys(fields)[i] == fields[i].0@,
        field_terms(fields).len() == fields.len(),
        0 <= i < fields.len() ==> field_terms(fields)[i] == fields[i].1,
        pairs_view(pairs, s).len() == pairs.len(),
        0 <= i < pairs.len() ==> pairs_view(pairs, s)[i].0 == pairs[i].0@ && pairs_view(
            pairs,
            s,
        )[i].1 == s.refs[pairs[i].1.raw() as int],
        field_tree(s, None) is None,
        field_tree(s, Some(term)) == Some(s.refs[term.raw() as int]),
{
}

} // verus!
