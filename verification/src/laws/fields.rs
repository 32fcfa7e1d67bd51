//! Laws of what derived conversions do with fields and variants.

use vstd::prelude::*;

use crate::codec::steps::{
    claimed_variant, content_tree, first_decided, first_named, listed_fields, named_field,
    skipped_text, variant_name, with_written, without_field,
};
use crate::codec::{
    field_position, field_position_holds, fields_of, key_text, list_tree, with_field, CodecFault,
    TermCodecError,
};
use crate::data::{Key, Tree};
use crate::dict::dict_tree;
use crate::fli::resolve;
use crate::list::{element_at, shape_of};
use crate::term::{compound_tree, kind_of, ListShape, TermError, TermKind};

verus! {

/// A field that is written comes behind the earlier ones under its name; one
/// that is left out changes nothing.
pub proof fn written_fields_are_appended(
    fields: Seq<(Seq<char>, Tree)>,
    wire: Seq<char>,
    t: Tree,
    i: int,
)
    ensures
        with_written(fields, wire, None) == fields,
        with_written(fields, wire, Some(t)).len() == fields.len() + 1,
        with_written(fields, wire, Some(t))[fields.len() as int] == (wire, t),
        0 <= i < fields.len() ==> with_written(fields, wire, Some(t))[i] == fields[i],
{
}

/// The payload of one field is that field; that of several, or of none, is the
/// list of them.
pub proof fn single_fields_are_their_own_payload(t: Tree, items: Seq<Tree>)
    ensures
        content_tree(seq![t]) == t,
        items.len() != 1 ==> content_tree(items) == list_tree(items),
        content_tree(Seq::empty()) == Tree::Nil,
{
}

/// The error for a variant that is not written names the variant.
pub proof fn skipped_variants_are_named(a: Seq<char>, b: Seq<char>)
    ensures
        skipped_text(a) == "variant "@ + a + " is skipped for ToTerm"@,
        skipped_text(a) == skipped_text(b) ==> a == b,
{
    if skipped_text(a) == skipped_text(b) {
        let front = "variant "@;
        let back = " is skipped for ToTerm"@;
        assert(skipped_text(a).len() == front.len() + a.len() + back.len());
        assert(skipped_text(b).len() == front.len() + b.len() + back.len());
        assert forall|i: int| 0 <= i < a.len() implies a[i] == b[i] by {
            assert(skipped_text(a)[front.len() + i] == a[i]);
            assert(skipped_text(b)[front.len() + i] == b[i]);
        }
        assert(a =~= b);
    }
}

/// A field is found under its name, where the first one of that name stands,
/// and under no other.
pub proof fn fields_are_found_by_name(
    before: Seq<(Seq<char>, Tree)>,
    name: Seq<char>,
    t: Tree,
    after: Seq<(Seq<char>, Tree)>,
)
    requires
        forall|i: int| 0 <= i < before.len() ==> (#[trigger] before[i]).0 != name,
    ensures
        named_field(before, name) is None,
        named_field(before.push((name, t)) + after, name) == Some(t),
        without_field(before, name) == before,
        without_field(before.push((name, t)) + after, name) == before + after,
{
    field_position_holds(before, name);
    first_of_name(before, name, t, after);
    let fields = before.push((name, t)) + after;
    assert(fields[before.len() as int] == (name, t));
    assert(fields.remove(before.len() as int) =~= before + after);
}

proof fn first_of_name(
    before: Seq<(Seq<char>, Tree)>,
    name: Seq<char>,
    t: Tree,
    after: Seq<(Seq<char>, Tree)>,
)
    requires
        forall|i: int| 0 <= i < before.len() ==> (#[trigger] before[i]).0 != name,
    ensures
        field_position(before.push((name, t)) + after, name) == Some(before.len()),
    decreases after.len(),
{
    let fields = before.push((name, t)) + after;
    if after.len() == 0 {
        assert(fields =~= before.push((name, t)));
        assert(fields.drop_last() =~= before);
        field_position_holds(before, name);
    } else {
        assert(fields.drop_last() =~= before.push((name, t)) + after.drop_last());
        first_of_name(before, name, t, after.drop_last());
    }
}

/// The fields of a dict are its entries one after another, each under the text
/// of its key.
pub proof fn entries_become_fields(entries: Seq<(Key, Tree)>, key: Key, t: Tree)
    ensures
        fields_of(Seq::empty()).len() == 0,
        fields_of(entries.push((key, t))) == with_field(fields_of(entries), key_text(key), t),
        key matches Key::Atom(name) ==> key_text(key) == name,
{
    assert(entries.push((key, t)).drop_last() =~= entries);
    assert(entries.push((key, t)).last() == (key, t));
}

/// The variant of a tagged dict is the text under the tag: missing if there is
/// none, and no name if it is not atomic.
pub proof fn variants_are_named_by_their_tag(
    trail: Seq<(usize, Tree)>,
    before: Seq<(Seq<char>, Tree)>,
    tag: Seq<char>,
    name: Seq<char>,
    t: Tree,
    after: Seq<(Seq<char>, Tree)>,
)
    requires
        forall|i: int| 0 <= i < before.len() ==> (#[trigger] before[i]).0 != tag,
    ensures
        variant_name(trail, before, tag) == Err::<Seq<char>, CodecFault>(
            CodecFault::MissingField(tag),
        ),
        variant_name(trail, before.push((tag, Tree::String(name))) + after, tag) == Ok::<
            Seq<char>,
            CodecFault,
        >(name),
        variant_name(trail, before.push((tag, Tree::Atom(name))) + after, tag) == Ok::<
            Seq<char>,
            CodecFault,
        >(name),
        kind_of(resolve(trail, t)) == TermKind::Variable || kind_of(resolve(trail, t))
            == TermKind::Compound || kind_of(resolve(trail, t)) == TermKind::ListPair || kind_of(
            resolve(trail, t),
        ) == TermKind::Dict ==> variant_name(trail, before.push((tag, t)) + after, tag) == Err::<
            Seq<char>,
            CodecFault,
        >(
            CodecFault::Term(
                TermError::TypeMismatch { expected: "an atomic term with a text representation" },
            ),
        ),
{
    fields_are_found_by_name(before, tag, Tree::String(name), after);
    fields_are_found_by_name(before, tag, Tree::Atom(name), after);
    fields_are_found_by_name(before, tag, t, after);
}

/// The fields of a payload are the elements of a proper list of exactly as many;
/// another length is told beside the expected one, another term by the kind of
/// list that it is.
pub proof fn payload_lists_have_the_arity(
    trail: Seq<(usize, Tree)>,
    t: Tree,
    arity: nat,
    len: usize,
    i: int,
)
    ensures
        shape_of(trail, t) == (ListShape::Proper { len }) && len == arity ==> {
            &&& listed_fields(trail, t, arity) matches Ok(items)
            &&& items.len() == arity
            &&& 0 <= i < arity ==> items[i] == element_at(trail, t, i as nat)->0
        },
        shape_of(trail, t) == (ListShape::Proper { len }) && len != arity ==> listed_fields(
            trail,
            t,
            arity,
        ) == Err::<Seq<Tree>, CodecFault>(CodecFault::ArityMismatch(arity, len as nat)),
        !(shape_of(trail, t) is Proper) ==> listed_fields(trail, t, arity) == Err::<
            Seq<Tree>,
            CodecFault,
        >(CodecFault::Term(TermError::NotAProperList(shape_of(trail, t)))),
{
}

/// The variant that a term claims to be is its name: that of an atom, of a
/// compound, or of the tag of a dict. Other terms, and dicts whose tag is not
/// bound, claim the empty name.
pub proof fn terms_claim_variants_by_name(
    trail: Seq<(usize, Tree)>,
    name: Seq<char>,
    args: Seq<Tree>,
    keys: Seq<Seq<char>>,
    values: Seq<Tree>,
    entries: Seq<(Key, Tree)>,
    id: usize,
    t: Tree,
)
    ensures
        claimed_variant(trail, Tree::Atom(name)) == Ok::<Seq<char>, CodecFault>(name),
        args.len() > 0 && name != "[|]"@ ==> claimed_variant(trail, compound_tree(name, args))
            == Ok::<Seq<char>, CodecFault>(name),
        claimed_variant(trail, dict_tree(name, keys, values)) == Ok::<Seq<char>, CodecFault>(name),
        kind_of(resolve(trail, Tree::Var(id))) == TermKind::Variable ==> claimed_variant(
            trail,
            Tree::Dict(Box::new(Tree::Var(id)), entries),
        ) == Ok::<Seq<char>, CodecFault>(""@),
        kind_of(t) != TermKind::Variable && kind_of(t) != TermKind::Atom ==> claimed_variant(
            trail,
            Tree::Dict(Box::new(t), entries),
        ) == Err::<Seq<char>, CodecFault>(
            CodecFault::Term(TermError::TypeMismatch { expected: "an atom" }),
        ),
        kind_of(t) != TermKind::Atom && kind_of(t) != TermKind::Compound && kind_of(t)
            != TermKind::Dict ==> claimed_variant(trail, t) == Ok::<Seq<char>, CodecFault>(""@),
{
}

/// The first of some names that is the given one is picked, and none if none
/// is.
pub proof fn first_of_equal_names_is_picked(wires: Seq<&str>, name: Seq<char>)
    ensures
        match first_named(wires, name) {
            Some(i) => 0 <= i < wires.len() && wires[i]@ == name && forall|k: int|
                0 <= k < i ==> (#[trigger] wires[k])@ != name,
            None => forall|k: int| 0 <= k < wires.len() ==> (#[trigger] wires[k])@ != name,
        },
    decreases wires.len(),
{
    if wires.len() > 0 {
        let front = wires.drop_last();
        first_of_equal_names_is_picked(front, name);
        assert forall|k: int| 0 <= k < front.len() implies front[k] == #[trigger] wires[k] by {}
    }
}

/// The first attempt that decides is the one that counts.
pub proof fn first_decision_counts<T>(attempts: Seq<Option<Result<T, TermCodecError>>>)
    ensures
        match first_decided(attempts) {
            Some(r) => exists|i: int|
                0 <= i < attempts.len() && #[trigger] attempts[i] == Some(r) && forall|k: int|
                    0 <= k < i ==> (#[trigger] attempts[k]) is None,
            None => forall|k: int| 0 <= k < attempts.len() ==> (#[trigger] attempts[k]) is None,
        },
    decreases attempts.len(),
{
    if attempts.len() > 0 {
        let front = attempts.drop_last();
        first_decision_counts(front);
        assert forall|k: int| 0 <= k < front.len() implies front[k] == #[trigger] attempts[k] by {}
        if let Some(r) = first_decided(front) {
            let i = choose|i: int|
                0 <= i < front.len() && #[trigger] front[i] == Some(r) && forall|k: int|
                    0 <= k < i ==> (#[trigger] front[k]) is None;
            assert(attempts[i] == Some(r));
        } else if let Some(r) = attempts.last() {
            assert(attempts[attempts.len() - 1] == Some(r));
        }
    }
}

} // verus!
