//! Laws of the conversions between values and terms: what each value is written
//! as, and which terms are read as it.

use vstd::prelude::*;

use std::sync::Arc;

use crate::codec::{compound_fault, compound_items, tag_fault, tag_of, CodecFault, FromTerm, ToTerm};
use crate::data::{Key, Tree};
use crate::dict::dict_tree;
use crate::fli::resolve;
use crate::term::{compound_reads_back, compound_tree, kind_of, TermError, TermKind};

verus! {

/// The compound `other(args..)` is read as `name` with some number of arguments
/// exactly if that is its name and its number of arguments, and then the
/// arguments are those it was built of; otherwise the error tells both names and
/// both numbers.
pub proof fn compounds_are_read_under_their_name(
    name: Seq<char>,
    other: Seq<char>,
    args: Seq<Tree>,
    arity: nat,
)
    requires
        args.len() > 0,
    ensures
        compound_fault(compound_tree(other, args), name, args.len()) is None <==> other == name,
        compound_fault(compound_tree(other, args), name, arity) is None <==> other == name
            && arity == args.len(),
        compound_fault(compound_tree(other, args), name, arity) matches Some(fault) ==> fault
            == CodecFault::Functor(name, arity, other, args.len()),
        compound_items(compound_tree(other, args)) == args,
{
    compound_reads_back(other, args);
    compound_is_no_atom(other, args);
}

proof fn compound_is_no_atom(name: Seq<char>, args: Seq<Tree>)
    requires
        args.len() > 0,
    ensures
        !(compound_tree(name, args) is Atom),
{
}

/// An atom is read as the compound of its own name without arguments, and as no
/// other; a term that is neither is no compound at all.
pub proof fn atoms_are_compounds_without_arguments(
    name: Seq<char>,
    other: Seq<char>,
    arity: nat,
    t: Tree,
)
    ensures
        compound_fault(Tree::Atom(other), name, 0) is None <==> other == name,
        other != name ==> compound_fault(Tree::Atom(other), name, 0) == Some(
            CodecFault::Functor(name, 0, other, 0),
        ),
        arity > 0 ==> compound_fault(Tree::Atom(other), name, arity) == Some(
            CodecFault::Term(TermError::TypeMismatch { expected: "a compound term" }),
        ),
        kind_of(t) != TermKind::Atom && kind_of(t) != TermKind::Compound && kind_of(t)
            != TermKind::ListPair && kind_of(t) != TermKind::Dict ==> compound_fault(t, name, arity)
            == Some(CodecFault::Term(TermError::TypeMismatch { expected: "a compound term" }))
            && compound_items(t).len() == 0,
        compound_items(Tree::Atom(other)).len() == 0,
{
}

/// A dict is read under its own tag and no other: the error tells both, and
/// that there is none where the tag is not bound. Anything but a dict has no
/// tag.
pub proof fn dicts_are_read_under_their_tag(
    trail: Seq<(usize, Tree)>,
    tag: Seq<char>,
    expected: Seq<char>,
    id: usize,
    entries: Seq<(Key, Tree)>,
    t: Tree,
)
    ensures
        ({
            let dict = Tree::Dict(Box::new(Tree::Atom(tag)), entries);
            &&& tag_of(trail, dict) == Ok::<Option<Seq<char>>, CodecFault>(Some(tag))
            &&& tag_fault(trail, dict, expected) is None <==> expected == tag
            &&& expected != tag ==> tag_fault(trail, dict, expected) == Some(
                CodecFault::DictTag(expected, Some(tag)),
            )
        }),
        kind_of(resolve(trail, Tree::Var(id))) == TermKind::Variable ==> tag_fault(
            trail,
            Tree::Dict(Box::new(Tree::Var(id)), entries),
            expected,
        ) == Some(CodecFault::DictTag(expected, None)),
        resolve(trail, Tree::Var(id)) == Tree::Atom(tag) ==> (tag_fault(
            trail,
            Tree::Dict(Box::new(Tree::Var(id)), entries),
            expected,
        ) is None <==> expected == tag),
        kind_of(t) != TermKind::Variable && kind_of(t) != TermKind::Atom ==> tag_fault(
            trail,
            Tree::Dict(Box::new(t), entries),
            expected,
        ) == Some(CodecFault::Term(TermError::TypeMismatch { expected: "an atom" })),
        kind_of(t) != TermKind::Dict ==> tag_fault(trail, t, expected) == Some(
            CodecFault::Term(TermError::TypeMismatch { expected: "a dict" }),
        ),
{
}

/// A dict that was built with a tag is read under it.
pub proof fn built_dicts_keep_their_tag(
    trail: Seq<(usize, Tree)>,
    tag: Seq<char>,
    other: Seq<char>,
    keys: Seq<Seq<char>>,
    values: Seq<Tree>,
)
    ensures
        tag_fault(trail, dict_tree(tag, keys, values), other) is None <==> other == tag,
        tag_of(trail, dict_tree(tag, keys, values)) == Ok::<Option<Seq<char>>, CodecFault>(
            Some(tag),
        ),
{
}


/// An integer is read as a signed type exactly if it lies within it. One that
/// the engine can hand over and the type cannot hold is told by the name of the
/// type, a larger one as not fitting.
pub proof fn signed_integers_are_read_within_their_type(trail: Seq<(usize, Tree)>, value: int)
    ensures
        <i8 as FromTerm>::read_fault(trail, Tree::Integer(value)) is None <==> i8::MIN <= value <= i8::MAX,
        i64::MIN <= value <= i64::MAX && !(i8::MIN <= value <= i8::MAX) ==> <i8 as FromTerm>::read_fault(
            trail,
            Tree::Integer(value),
        ) == Some(CodecFault::Type("i8"@)),
        !(i64::MIN <= value <= i64::MAX) ==> <i8 as FromTerm>::read_fault(
            trail,
            Tree::Integer(value),
        ) == Some(
            CodecFault::Term(TermError::TypeMismatch { expected: "an integer fitting i64" }),
        ),
        <i16 as FromTerm>::read_fault(trail, Tree::Integer(value)) is None <==> i16::MIN <= value <= i16::MAX,
        i64::MIN <= value <= i64::MAX && !(i16::MIN <= value <= i16::MAX) ==> <i16 as FromTerm>::read_fault(
            trail,
            Tree::Integer(value),
        ) == Some(CodecFault::Type("i16"@)),
        !(i64::MIN <= value <= i64::MAX) ==> <i16 as FromTerm>::read_fault(
            trail,
            Tree::Integer(value),
        ) == Some(
            CodecFault::Term(TermError::TypeMismatch { expected: "an integer fitting i64" }),
        ),
        <i32 as FromTerm>::read_fault(trail, Tree::Integer(value)) is None <==> i32::MIN <= value <= i32::MAX,
        i64::MIN <= value <= i64::MAX && !(i32::MIN <= value <= i32::MAX) ==> <i32 as FromTerm>::read_fault(
            trail,
            Tree::Integer(value),
        ) == Some(CodecFault::Type("i32"@)),
        !(i64::MIN <= value <= i64::MAX) ==> <i32 as FromTerm>::read_fault(
            trail,
            Tree::Integer(value),
        ) == Some(
            CodecFault::Term(TermError::TypeMismatch { expected: "an integer fitting i64" }),
        ),
        <i64 as FromTerm>::read_fault(trail, Tree::Integer(value)) is None <==> i64::MIN <= value <= i64::MAX,
        i64::MIN <= value <= i64::MAX && !(i64::MIN <= value <= i64::MAX) ==> <i64 as FromTerm>::read_fault(
            trail,
            Tree::Integer(value),
        ) == Some(CodecFault::Type("i64"@)),
        !(i64::MIN <= value <= i64::MAX) ==> <i64 as FromTerm>::read_fault(
            trail,
            Tree::Integer(value),
        ) == Some(
            CodecFault::Term(TermError::TypeMismatch { expected: "an integer fitting i64" }),
        ),
        <isize as FromTerm>::read_fault(trail, Tree::Integer(value)) is None <==> isize::MIN <= value <= isize::MAX,
        i64::MIN <= value <= i64::MAX && !(isize::MIN <= value <= isize::MAX) ==> <isize as FromTerm>::read_fault(
            trail,
            Tree::Integer(value),
        ) == Some(CodecFault::Type("isize"@)),
        !(i64::MIN <= value <= i64::MAX) ==> <isize as FromTerm>::read_fault(
            trail,
            Tree::Integer(value),
        ) == Some(
            CodecFault::Term(TermError::TypeMismatch { expected: "an integer fitting i64" }),
        ),
{
}

/// An integer is read as an unsigned type exactly if it lies within it; a
/// negative one fits none.
pub proof fn unsigned_integers_are_read_within_their_type(trail: Seq<(usize, Tree)>, value: int)
    ensures
        <u8 as FromTerm>::read_fault(trail, Tree::Integer(value)) is None <==> 0 <= value <= u8::MAX,
        0 <= value <= u64::MAX && !(0 <= value <= u8::MAX) ==> <u8 as FromTerm>::read_fault(
            trail,
            Tree::Integer(value),
        ) == Some(CodecFault::Type("u8"@)),
        !(0 <= value <= u64::MAX) ==> <u8 as FromTerm>::read_fault(
            trail,
            Tree::Integer(value),
        ) == Some(
            CodecFault::Term(TermError::TypeMismatch { expected: "an integer fitting u64" }),
        ),
        <u16 as FromTerm>::read_fault(trail, Tree::Integer(value)) is None <==> 0 <= value <= u16::MAX,
        0 <= value <= u64::MAX && !(0 <= value <= u16::MAX) ==> <u16 as FromTerm>::read_fault(
            trail,
            Tree::Integer(value),
        ) == Some(CodecFault::Type("u16"@)),
        !(0 <= value <= u64::MAX) ==> <u16 as FromTerm>::read_fault(
            trail,
            Tree::Integer(value),
        ) == Some(
            CodecFault::Term(TermError::TypeMismatch { expected: "an integer fitting u64" }),
        ),
        <u32 as FromTerm>::read_fault(trail, Tree::Integer(value)) is None <==> 0 <= value <= u32::MAX,
        0 <= value <= u64::MAX && !(0 <= value <= u32::MAX) ==> <u32 as FromTerm>::read_fault(
            trail,
            Tree::Integer(value),
        ) == Some(CodecFault::Type("u32"@)),
        !(0 <= value <= u64::MAX) ==> <u32 as FromTerm>::read_fault(
            trail,
            Tree::Integer(value),
        ) == Some(
            CodecFault::Term(TermError::TypeMismatch { expected: "an integer fitting u64" }),
        ),
        <u64 as FromTerm>::read_fault(trail, Tree::Integer(value)) is None <==> 0 <= value <= u64::MAX,
        0 <= value <= u64::MAX && !(0 <= value <= u64::MAX) ==> <u64 as FromTerm>::read_fault(
            trail,
            Tree::Integer(value),
        ) == Some(CodecFault::Type("u64"@)),
        !(0 <= value <= u64::MAX) ==> <u64 as FromTerm>::read_fault(
            trail,
            Tree::Integer(value),
        ) == Some(
            CodecFault::Term(TermError::TypeMismatch { expected: "an integer fitting u64" }),
        ),
        <usize as FromTerm>::read_fault(trail, Tree::Integer(value)) is None <==> 0 <= value <= usize::MAX,
        0 <= value <= u64::MAX && !(0 <= value <= usize::MAX) ==> <usize as FromTerm>::read_fault(
            trail,
            Tree::Integer(value),
        ) == Some(CodecFault::Type("usize"@)),
        !(0 <= value <= u64::MAX) ==> <usize as FromTerm>::read_fault(
            trail,
            Tree::Integer(value),
        ) == Some(
            CodecFault::Term(TermError::TypeMismatch { expected: "an integer fitting u64" }),
        ),
{
}

/// Only integers are read as integers: no text of digits, no float, and no
/// integer that is too large for the engine to hand over.
pub proof fn nothing_else_is_read_as_an_integer(trail: Seq<(usize, Tree)>, t: Tree)
    requires
        kind_of(resolve(trail, t)) != TermKind::Integer || resolve(trail, t) is BigInteger,
    ensures
        <i8 as FromTerm>::read_fault(trail, t) == Some(
            CodecFault::Term(TermError::TypeMismatch { expected: "an integer fitting i64" }),
        ),
        <i16 as FromTerm>::read_fault(trail, t) == Some(
            CodecFault::Term(TermError::TypeMismatch { expected: "an integer fitting i64" }),
        ),
        <i32 as FromTerm>::read_fault(trail, t) == Some(
            CodecFault::Term(TermError::TypeMismatch { expected: "an integer fitting i64" }),
        ),
        <i64 as FromTerm>::read_fault(trail, t) == Some(
            CodecFault::Term(TermError::TypeMismatch { expected: "an integer fitting i64" }),
        ),
        <isize as FromTerm>::read_fault(trail, t) == Some(
            CodecFault::Term(TermError::TypeMismatch { expected: "an integer fitting i64" }),
        ),
        <u8 as FromTerm>::read_fault(trail, t) == Some(
            CodecFault::Term(TermError::TypeMismatch { expected: "an integer fitting u64" }),
        ),
        <u16 as FromTerm>::read_fault(trail, t) == Some(
            CodecFault::Term(TermError::TypeMismatch { expected: "an integer fitting u64" }),
        ),
        <u32 as FromTerm>::read_fault(trail, t) == Some(
            CodecFault::Term(TermError::TypeMismatch { expected: "an integer fitting u64" }),
        ),
        <u64 as FromTerm>::read_fault(trail, t) == Some(
            CodecFault::Term(TermError::TypeMismatch { expected: "an integer fitting u64" }),
        ),
        <usize as FromTerm>::read_fault(trail, t) == Some(
            CodecFault::Term(TermError::TypeMismatch { expected: "an integer fitting u64" }),
        ),
{
}

/// An integer is written as itself, in a field too, and is read as itself alone.
pub proof fn integers_are_written_as_themselves(
    trail: Seq<(usize, Tree)>,
    a_i8: i8,
    a_i16: i16,
    a_i32: i32,
    a_i64: i64,
    a_isize: isize,
    a_u8: u8,
    a_u16: u16,
    a_u32: u32,
    a_u64: u64,
    a_usize: usize,
)
    ensures
        a_i8.encoded() == Ok::<Tree, CodecFault>(Tree::Integer(a_i8 as int)),
        a_i8.encoded_field() == Ok::<Option<Tree>, CodecFault>(Some(Tree::Integer(a_i8 as int))),
        <i8 as FromTerm>::reads(trail, Tree::Integer(a_i8 as int), a_i8),
        forall|n: i8| #[trigger] <i8 as FromTerm>::reads(trail, Tree::Integer(a_i8 as int), n) ==> n == a_i8,
        a_i16.encoded() == Ok::<Tree, CodecFault>(Tree::Integer(a_i16 as int)),
        a_i16.encoded_field() == Ok::<Option<Tree>, CodecFault>(Some(Tree::Integer(a_i16 as int))),
        <i16 as FromTerm>::reads(trail, Tree::Integer(a_i16 as int), a_i16),
        forall|n: i16| #[trigger] <i16 as FromTerm>::reads(trail, Tree::Integer(a_i16 as int), n) ==> n == a_i16,
        a_i32.encoded() == Ok::<Tree, CodecFault>(Tree::Integer(a_i32 as int)),
        a_i32.encoded_field() == Ok::<Option<Tree>, CodecFault>(Some(Tree::Integer(a_i32 as int))),
        <i32 as FromTerm>::reads(trail, Tree::Integer(a_i32 as int), a_i32),
        forall|n: i32| #[trigger] <i32 as FromTerm>::reads(trail, Tree::Integer(a_i32 as int), n) ==> n == a_i32,
        a_i64.encoded() == Ok::<Tree, CodecFault>(Tree::Integer(a_i64 as int)),
        a_i64.encoded_field() == Ok::<Option<Tree>, CodecFault>(Some(Tree::Integer(a_i64 as int))),
        <i64 as FromTerm>::reads(trail, Tree::Integer(a_i64 as int), a_i64),
        forall|n: i64| #[trigger] <i64 as FromTerm>::reads(trail, Tree::Integer(a_i64 as int), n) ==> n == a_i64,
        a_isize.encoded() == Ok::<Tree, CodecFault>(Tree::Integer(a_isize as int)),
        a_isize.encoded_field() == Ok::<Option<Tree>, CodecFault>(Some(Tree::Integer(a_isize as int))),
        <isize as FromTerm>::reads(trail, Tree::Integer(a_isize as int), a_isize),
        forall|n: isize| #[trigger] <isize as FromTerm>::reads(trail, Tree::Integer(a_isize as int), n) ==> n == a_isize,
        a_u8.encoded() == Ok::<Tree, CodecFault>(Tree::Integer(a_u8 as int)),
        a_u8.encoded_field() == Ok::<Option<Tree>, CodecFault>(Some(Tree::Integer(a_u8 as int))),
        <u8 as FromTerm>::reads(trail, Tree::Integer(a_u8 as int), a_u8),
        forall|n: u8| #[trigger] <u8 as FromTerm>::reads(trail, Tree::Integer(a_u8 as int), n) ==> n == a_u8,
        a_u16.encoded() == Ok::<Tree, CodecFault>(Tree::Integer(a_u16 as int)),
        a_u16.encoded_field() == Ok::<Option<Tree>, CodecFault>(Some(Tree::Integer(a_u16 as int))),
        <u16 as FromTerm>::reads(trail, Tree::Integer(a_u16 as int), a_u16),
        forall|n: u16| #[trigger] <u16 as FromTerm>::reads(trail, Tree::Integer(a_u16 as int), n) ==> n == a_u16,
        a_u32.encoded() == Ok::<Tree, CodecFault>(Tree::Integer(a_u32 as int)),
        a_u32.encoded_field() == Ok::<Option<Tree>, CodecFault>(Some(Tree::Integer(a_u32 as int))),
        <u32 as FromTerm>::reads(trail, Tree::Integer(a_u32 as int), a_u32),
        forall|n: u32| #[trigger] <u32 as FromTerm>::reads(trail, Tree::Integer(a_u32 as int), n) ==> n == a_u32,
        a_u64.encoded() == Ok::<Tree, CodecFault>(Tree::Integer(a_u64 as int)),
        a_u64.encoded_field() == Ok::<Option<Tree>, CodecFault>(Some(Tree::Integer(a_u64 as int))),
        <u64 as FromTerm>::reads(trail, Tree::Integer(a_u64 as int), a_u64),
        forall|n: u64| #[trigger] <u64 as FromTerm>::reads(trail, Tree::Integer(a_u64 as int), n) ==> n == a_u64,
        a_usize.encoded() == Ok::<Tree, CodecFault>(Tree::Integer(a_usize as int)),
        a_usize.encoded_field() == Ok::<Option<Tree>, CodecFault>(Some(Tree::Integer(a_usize as int))),
        <usize as FromTerm>::reads(trail, Tree::Integer(a_usize as int), a_usize),
        forall|n: usize| #[trigger] <usize as FromTerm>::reads(trail, Tree::Integer(a_usize as int), n) ==> n == a_usize,
{
}

/// A field that is not there is missing under its name; one that is there is
/// read as its value.
pub proof fn scalar_fields_must_be_there(trail: Seq<(usize, Tree)>, t: Tree, name: Seq<char>)
    ensures
        <i8 as FromTerm>::read_field_fault(trail, None, name) == Some(
            CodecFault::MissingField(name),
        ),
        <i8 as FromTerm>::read_field_fault(trail, Some(t), name) == <i8 as FromTerm>::read_fault(trail, t),
        forall|v: i8| #[trigger] <i8 as FromTerm>::reads_field(trail, Some(t), v) <==> <i8 as FromTerm>::reads(trail, t, v),
        forall|v: i8| !(#[trigger] <i8 as FromTerm>::reads_field(trail, None, v)),
        <i16 as FromTerm>::read_field_fault(trail, None, name) == Some(
            CodecFault::MissingField(name),
        ),
        <i16 as FromTerm>::read_field_fault(trail, Some(t), name) == <i16 as FromTerm>::read_fault(trail, t),
        forall|v: i16| #[trigger] <i16 as FromTerm>::reads_field(trail, Some(t), v) <==> <i16 as FromTerm>::reads(trail, t, v),
        forall|v: i16| !(#[trigger] <i16 as FromTerm>::reads_field(trail, None, v)),
        <i32 as FromTerm>::read_field_fault(trail, None, name) == Some(
            CodecFault::MissingField(name),
        ),
        <i32 as FromTerm>::read_field_fault(trail, Some(t), name) == <i32 as FromTerm>::read_fault(trail, t),
        forall|v: i32| #[trigger] <i32 as FromTerm>::reads_field(trail, Some(t), v) <==> <i32 as FromTerm>::reads(trail, t, v),
        forall|v: i32| !(#[trigger] <i32 as FromTerm>::reads_field(trail, None, v)),
        <i64 as FromTerm>::read_field_fault(trail, None, name) == Some(
            CodecFault::MissingField(name),
        ),
        <i64 as FromTerm>::read_field_fault(trail, Some(t), name) == <i64 as FromTerm>::read_fault(trail, t),
        forall|v: i64| #[trigger] <i64 as FromTerm>::reads_field(trail, Some(t), v) <==> <i64 as FromTerm>::reads(trail, t, v),
        forall|v: i64| !(#[trigger] <i64 as FromTerm>::reads_field(trail, None, v)),
        <isize as FromTerm>::read_field_fault(trail, None, name) == Some(
            CodecFault::MissingField(name),
        ),
        <isize as FromTerm>::read_field_fault(trail, Some(t), name) == <isize as FromTerm>::read_fault(trail, t),
        forall|v: isize| #[trigger] <isize as FromTerm>::reads_field(trail, Some(t), v) <==> <isize as FromTerm>::reads(trail, t, v),
        forall|v: isize| !(#[trigger] <isize as FromTerm>::reads_field(trail, None, v)),
        <u8 as FromTerm>::read_field_fault(trail, None, name) == Some(
            CodecFault::MissingField(name),
        ),
        <u8 as FromTerm>::read_field_fault(trail, Some(t), name) == <u8 as FromTerm>::read_fault(trail, t),
        forall|v: u8| #[trigger] <u8 as FromTerm>::reads_field(trail, Some(t), v) <==> <u8 as FromTerm>::reads(trail, t, v),
        forall|v: u8| !(#[trigger] <u8 as FromTerm>::reads_field(trail, None, v)),
        <u16 as FromTerm>::read_field_fault(trail, None, name) == Some(
            CodecFault::MissingField(name),
        ),
        <u16 as FromTerm>::read_field_fault(trail, Some(t), name) == <u16 as FromTerm>::read_fault(trail, t),
        forall|v: u16| #[trigger] <u16 as FromTerm>::reads_field(trail, Some(t), v) <==> <u16 as FromTerm>::reads(trail, t, v),
        forall|v: u16| !(#[trigger] <u16 as FromTerm>::reads_field(trail, None, v)),
        <u32 as FromTerm>::read_field_fault(trail, None, name) == Some(
            CodecFault::MissingField(name),
        ),
        <u32 as FromTerm>::read_field_fault(trail, Some(t), name) == <u32 as FromTerm>::read_fault(trail, t),
        forall|v: u32| #[trigger] <u32 as FromTerm>::reads_field(trail, Some(t), v) <==> <u32 as FromTerm>::reads(trail, t, v),
        forall|v: u32| !(#[trigger] <u32 as FromTerm>::reads_field(trail, None, v)),
        <u64 as FromTerm>::read_field_fault(trail, None, name) == Some(
            CodecFault::MissingField(name),
        ),
        <u64 as FromTerm>::read_field_fault(trail, Some(t), name) == <u64 as FromTerm>::read_fault(trail, t),
        forall|v: u64| #[trigger] <u64 as FromTerm>::reads_field(trail, Some(t), v) <==> <u64 as FromTerm>::reads(trail, t, v),
        forall|v: u64| !(#[trigger] <u64 as FromTerm>::reads_field(trail, None, v)),
        <usize as FromTerm>::read_field_fault(trail, None, name) == Some(
            CodecFault::MissingField(name),
        ),
        <usize as FromTerm>::read_field_fault(trail, Some(t), name) == <usize as FromTerm>::read_fault(trail, t),
        forall|v: usize| #[trigger] <usize as FromTerm>::reads_field(trail, Some(t), v) <==> <usize as FromTerm>::reads(trail, t, v),
        forall|v: usize| !(#[trigger] <usize as FromTerm>::reads_field(trail, None, v)),
        <bool as FromTerm>::read_field_fault(trail, None, name) == Some(
            CodecFault::MissingField(name),
        ),
        <bool as FromTerm>::read_field_fault(trail, Some(t), name) == <bool as FromTerm>::read_fault(trail, t),
        forall|v: bool| #[trigger] <bool as FromTerm>::reads_field(trail, Some(t), v) <==> <bool as FromTerm>::reads(trail, t, v),
        forall|v: bool| !(#[trigger] <bool as FromTerm>::reads_field(trail, None, v)),
        <String as FromTerm>::read_field_fault(trail, None, name) == Some(
            CodecFault::MissingField(name),
        ),
        <String as FromTerm>::read_field_fault(trail, Some(t), name) == <String as FromTerm>::read_fault(trail, t),
        forall|v: String| #[trigger] <String as FromTerm>::reads_field(trail, Some(t), v) <==> <String as FromTerm>::reads(trail, t, v),
        forall|v: String| !(#[trigger] <String as FromTerm>::reads_field(trail, None, v)),
        <char as FromTerm>::read_field_fault(trail, None, name) == Some(
            CodecFault::MissingField(name),
        ),
        <char as FromTerm>::read_field_fault(trail, Some(t), name) == <char as FromTerm>::read_fault(trail, t),
        forall|v: char| #[trigger] <char as FromTerm>::reads_field(trail, Some(t), v) <==> <char as FromTerm>::reads(trail, t, v),
        forall|v: char| !(#[trigger] <char as FromTerm>::reads_field(trail, None, v)),
{
}


/// Booleans are written as the atoms `true` and `false`, and read from these,
/// from `on` and from `off`, and from no other term.
pub proof fn booleans_are_two_atoms(trail: Seq<(usize, Tree)>, t: Tree, name: Seq<char>)
    ensures
        true.encoded() == Ok::<Tree, CodecFault>(Tree::Atom("true"@)),
        false.encoded() == Ok::<Tree, CodecFault>(Tree::Atom("false"@)),
        true.encoded_field() == Ok::<Option<Tree>, CodecFault>(Some(Tree::Atom("true"@))),
        false.encoded_field() == Ok::<Option<Tree>, CodecFault>(Some(Tree::Atom("false"@))),
        <bool as FromTerm>::reads(trail, Tree::Atom("true"@), true),
        <bool as FromTerm>::reads(trail, Tree::Atom("on"@), true),
        <bool as FromTerm>::reads(trail, Tree::Atom("false"@), false),
        <bool as FromTerm>::reads(trail, Tree::Atom("off"@), false),
        <bool as FromTerm>::read_fault(trail, Tree::Atom(name)) is None <==> name == "true"@ || name
            == "on"@ || name == "false"@ || name == "off"@,
        !(<bool as FromTerm>::reads(trail, t, true) && <bool as FromTerm>::reads(trail, t, false)),
        <bool as FromTerm>::read_fault(trail, t) matches Some(fault) ==> fault
            == CodecFault::Term(TermError::TypeMismatch { expected: "a boolean" }),
        kind_of(resolve(trail, t)) != TermKind::Atom ==> <bool as FromTerm>::read_fault(trail, t)
            is Some,
{
    reveal_strlit("true");
    reveal_strlit("false");
    reveal_strlit("on");
    reveal_strlit("off");
    assert("true"@.len() == 4 && "false"@.len() == 5 && "on"@.len() == 2 && "off"@.len() == 3);
}

/// A text is written as a string, and read from every atomic term as the text
/// of that term; a term with parts has none.
pub proof fn texts_are_strings(
    trail: Seq<(usize, Tree)>,
    value: String,
    part: &str,
    text: Seq<char>,
    bits: u64,
    t: Tree,
)
    ensures
        value.encoded() == Ok::<Tree, CodecFault>(Tree::String(value@)),
        value.encoded_field() == Ok::<Option<Tree>, CodecFault>(Some(Tree::String(value@))),
        part.encoded() == Ok::<Tree, CodecFault>(Tree::String(part@)),
        part.encoded_field() == Ok::<Option<Tree>, CodecFault>(Some(Tree::String(part@))),
        <String as FromTerm>::reads(trail, Tree::String(text), value) <==> value@ == text,
        <String as FromTerm>::reads(trail, Tree::Atom(text), value) <==> value@ == text,
        <String as FromTerm>::reads(trail, Tree::Float(bits, text), value) <==> value@ == text,
        <String as FromTerm>::reads(trail, Tree::Rational(text), value) <==> value@ == text,
        <String as FromTerm>::read_fault(trail, Tree::String(text)) is None,
        <String as FromTerm>::read_fault(trail, Tree::Atom(text)) is None,
        <String as FromTerm>::read_fault(trail, Tree::Float(bits, text)) is None,
        <String as FromTerm>::read_fault(trail, Tree::Rational(text)) is None,
        kind_of(resolve(trail, t)) == TermKind::Variable || kind_of(resolve(trail, t))
            == TermKind::Compound || kind_of(resolve(trail, t)) == TermKind::ListPair || kind_of(
            resolve(trail, t),
        ) == TermKind::Dict ==> <String as FromTerm>::read_fault(trail, t) == Some(
            CodecFault::Term(
                TermError::TypeMismatch { expected: "an atomic term with a text representation" },
            ),
        ),
{
}

/// A character is written as the string of it, and read from a text of exactly
/// one character; another text is no character.
pub proof fn characters_are_texts_of_one(
    trail: Seq<(usize, Tree)>,
    value: char,
    other: char,
    text: Seq<char>,
)
    ensures
        value.encoded() == Ok::<Tree, CodecFault>(Tree::String(seq![value])),
        value.encoded_field() == Ok::<Option<Tree>, CodecFault>(Some(Tree::String(seq![value]))),
        <char as FromTerm>::reads(trail, Tree::String(seq![value]), other) <==> other == value,
        <char as FromTerm>::reads(trail, Tree::Atom(seq![value]), other) <==> other == value,
        <char as FromTerm>::read_fault(trail, Tree::String(text)) is None <==> text.len() == 1,
        <char as FromTerm>::read_fault(trail, Tree::Atom(text)) is None <==> text.len() == 1,
        text.len() != 1 ==> <char as FromTerm>::read_fault(trail, Tree::String(text)) == Some(
            CodecFault::Type("a character"@),
        ),
{
    if seq![value] == seq![other] {
        assert(seq![value][0] == seq![other][0]);
    }
}

/// An option and the unit value stand only in fields: a field of nothing is
/// left out and read from where there is none, a field of something is that of
/// the value. Outside a field both are refused.
pub proof fn options_are_fields<T: ToTerm + FromTerm>(
    trail: Seq<(usize, Tree)>,
    value: T,
    t: Tree,
    name: Seq<char>,
)
    ensures
        Some(value).encoded() == Err::<Tree, CodecFault>(CodecFault::OptionOutsideField),
        None::<T>.encoded() == Err::<Tree, CodecFault>(CodecFault::OptionOutsideField),
        None::<T>.encoded_field() == Ok::<Option<Tree>, CodecFault>(None),
        value.encoded() == Ok::<Tree, CodecFault>(t) ==> Some(value).encoded_field() == Ok::<
            Option<Tree>,
            CodecFault,
        >(Some(t)),
        value.encoded() matches Err(fault) ==> Some(value).encoded_field() == Err::<
            Option<Tree>,
            CodecFault,
        >(fault),
        <Option<T> as FromTerm>::read_fault(trail, t) == Some(CodecFault::OptionOutsideField),
        <Option<T> as FromTerm>::read_field_fault(trail, None, name) is None,
        <Option<T> as FromTerm>::reads_field(trail, None, None),
        !<Option<T> as FromTerm>::reads_field(trail, None, Some(value)),
        !<Option<T> as FromTerm>::reads_field(trail, Some(t), None),
        <Option<T> as FromTerm>::reads_field(trail, Some(t), Some(value)) <==> T::reads(
            trail,
            t,
            value,
        ),
        <Option<T> as FromTerm>::read_field_fault(trail, Some(t), name) == T::read_fault(trail, t),
        ().encoded() == Err::<Tree, CodecFault>(CodecFault::OptionOutsideField),
        ().encoded_field() == Ok::<Option<Tree>, CodecFault>(None),
        <() as FromTerm>::read_fault(trail, t) == Some(CodecFault::OptionOutsideField),
        <() as FromTerm>::read_field_fault(trail, None, name) is None,
        <() as FromTerm>::read_field_fault(trail, Some(t), name) is None,
{
}

/// A boxed or shared value is written and read as the value, but its field must
/// be there.
pub proof fn boxes_are_their_values<T: ToTerm + FromTerm>(
    trail: Seq<(usize, Tree)>,
    value: T,
    t: Tree,
    name: Seq<char>,
)
    ensures
        Box::new(value).encoded() == value.encoded(),
        <Box<T> as FromTerm>::read_fault(trail, t) == T::read_fault(trail, t),
        <Box<T> as FromTerm>::reads(trail, t, Box::new(value)) <==> T::reads(trail, t, value),
        <Box<T> as FromTerm>::read_field_fault(trail, None, name) == Some(
            CodecFault::MissingField(name),
        ),
        <Box<T> as FromTerm>::read_field_fault(trail, Some(t), name) == T::read_fault(trail, t),
        <Arc<T> as FromTerm>::read_fault(trail, t) == T::read_fault(trail, t),
        <Arc<T> as FromTerm>::read_field_fault(trail, None, name) == Some(
            CodecFault::MissingField(name),
        ),
        <Arc<T> as FromTerm>::read_field_fault(trail, Some(t), name) == T::read_fault(trail, t),
        (&value).encoded() == value.encoded(),
        (&value).encoded_field() == value.encoded_field(),
{
}

} // verus!
