//! The steps that derived encoders and decoders are made of.

use vstd::prelude::*;
use vstd::string::*;

use crate::codec::maps::{fields_tree, names, values, ToTermFields};
use crate::codec::round_trip::{fields_of_atoms, RoundTrip};
use crate::codec::tuples::elements;
use crate::codec::{
    all_live, codec_raised, codec_raised_within, codec_raised_writing, cons_items, field_keys,
    field_position, field_position_holds, field_terms, field_tree,
    fields_of, fields_view, held_by, list_tree, no_repeated_key, overwrites, put_dict, repeated_key,
    stopped, take_field, CodecFault, FromTerm, TermCodecError, ToTerm,
};
use crate::data::Tree;
use crate::dict::{distinct_rearranged, in_order, order_is_sorted, order_is_stable, rearranged, zipped};
use crate::fli::{resolve, Fli, State};
use crate::list::{has_shape, shape_is, shape_of};
use crate::term::{atomic_text, grows, FliContext, ListShape, Term, TermError, TermKind};
use crate::text::same_text;

verus! {

/// Fields stay what they are where references are only added.
proof fn fields_keep(fields: Seq<(String, Term)>, before: State, after: State)
    requires
        all_live(field_terms(fields), before),
        grows(before, after),
    ensures
        all_live(field_terms(fields), after),
        fields_view(fields, after) == fields_view(fields, before),
{
    assert forall|k: int| 0 <= k < fields.len() implies (#[trigger] field_terms(fields)[k]).live(
        after,
    ) by {
        assert(field_terms(fields)[k].live(before));
    }
    assert forall|k: int| 0 <= k < fields.len() implies #[trigger] fields_view(fields, after)[k]
        == fields_view(fields, before)[k] by {
        assert(field_terms(fields)[k].live(before));
    }
    assert(fields_view(fields, after) =~= fields_view(fields, before));
}

/// What fields are once one more value was written under `wire`, unless it is
/// left out.
pub open spec fn with_written(
    fields: Seq<(Seq<char>, Tree)>,
    wire: Seq<char>,
    t: Option<Tree>,
) -> Seq<(Seq<char>, Tree)> {
    match t {
        Some(t) => fields.push((wire, t)),
        None => fields,
    }
}

/// Writes a field of its own: under its name, unless its value is left out.
pub fn put_field<'a, Ctx: FliContext, T: ToTerm + ?Sized>(
    ctx: &'a Ctx,
    fli: &mut Fli,
    fields: &mut Vec<(String, Term<'a>)>,
    wire: &str,
    value: &T,
) -> (r: Result<(), TermCodecError>)
    requires
        old(fli)@.at(ctx.place()),
        all_live(field_terms(old(fields)@), old(fli)@),
        !(old(fli)@.verdict is Refuse),
    ensures
        grows(old(fli)@, final(fli)@),
        all_live(field_terms(final(fields)@), final(fli)@),
        old(fli)@.verdict is Raise ==> codec_raised_within(old(fli)@, final(fli)@, r) && final(fields)@
            == old(fields)@,
        old(fli)@.verdict is Grant ==> final(fli)@.verdict is Grant && match value.encoded_field() {
            Ok(t) => r is Ok && fields_view(final(fields)@, final(fli)@) == with_written(
                fields_view(old(fields)@, old(fli)@),
                wire@,
                t,
            ),
            Err(fault) => r matches Err(e) && e@ == fault && final(fields)@ == old(fields)@,
        },
{
    let term: Term<'a> = match ctx.term(fli) {
        Ok(term) => term,
        Err(error) => {
            return Err(TermCodecError::Term(error));
        },
    };
    let ghost before = old(fields)@;
    let written: Result<bool, TermCodecError> = value.__to_field(ctx, fli, term);
    proof {
        fields_keep(before, old(fli)@, fli@);
    }
    match written {
        Ok(true) => {
            fields.push((wire.to_owned(), term));
            proof {
                assert forall|k: int| 0 <= k < fields@.len() implies (
                #[trigger] field_terms(fields@)[k]).live(fli@) by {
                    if k < before.len() {
                        assert(field_terms(before)[k].live(fli@));
                    }
                }
                assert(fields_view(fields@, fli@) =~= fields_view(before, fli@).push(
                    (wire@, fli@.refs[term.raw() as int]),
                ));
            }
            Ok(())
        },
        Ok(false) => Ok(()),
        Err(error) => Err(error),
    }
}

/// Writes a flattened field: its own fields take its place.
pub fn put_flattened<'a, Ctx: FliContext, T: ToTermFields>(
    ctx: &'a Ctx,
    fli: &mut Fli,
    fields: &mut Vec<(String, Term<'a>)>,
    value: &T,
) -> (r: Result<(), TermCodecError>)
    requires
        old(fli)@.at(ctx.place()),
        all_live(field_terms(old(fields)@), old(fli)@),
        !(old(fli)@.verdict is Refuse),
    ensures
        grows(old(fli)@, final(fli)@),
        all_live(field_terms(final(fields)@), final(fli)@),
        old(fli)@.verdict is Raise ==> final(fields)@ == old(fields)@ && match r {
            Ok(_) => final(fli)@.verdict == old(fli)@.verdict,
            Err(_) => stopped(
                old(fli)@,
                r,
                match value.encoded_fields() {
                    Ok(_) => None,
                    Err(fault) => Some(fault),
                },
            ),
        },
        old(fli)@.verdict is Grant ==> final(fli)@.verdict is Grant && match value.encoded_fields() {
            Ok(more) => r is Ok && fields_view(final(fields)@, final(fli)@) == fields_view(
                old(fields)@,
                old(fli)@,
            ) + more,
            Err(fault) => r matches Err(e) && e@ == fault && final(fields)@ == old(fields)@,
        },
{
    let ghost before = old(fields)@;
    let mut more: Vec<(String, Term<'a>)> = match value.__to_fields(ctx, fli) {
        Ok(more) => more,
        Err(error) => {
            proof {
                fields_keep(before, old(fli)@, fli@);
            }
            return Err(error);
        },
    };
    let ghost added = more@;
    proof {
        fields_keep(before, old(fli)@, fli@);
    }
    fields.append(&mut more);
    proof {
        assert(fields@ =~= before + added);
        assert forall|k: int| 0 <= k < fields@.len() implies (
        #[trigger] field_terms(fields@)[k]).live(fli@) by {
            if k < before.len() {
                assert(field_terms(before)[k].live(fli@));
            } else {
                assert(field_terms(added)[k - before.len()].live(fli@));
            }
        }
        assert(fields_view(fields@, fli@) =~= fields_view(before, fli@) + fields_view(
            added,
            fli@,
        ));
    }
    Ok(())
}

/// Writes a variant of an internally tagged enum: a dict that holds the
/// variant's name under the key `tag`, and the given entries.
pub fn put_tagged<Ctx: FliContext>(
    ctx: &Ctx,
    fli: &mut Fli,
    dest: Term<'_>,
    tag: &str,
    wire: &str,
    entries: Vec<(String, Term<'_>)>,
) -> (r: Result<(), TermCodecError>)
    requires
        old(fli)@.at(ctx.place()),
        dest.live(old(fli)@),
        all_live(field_terms(entries@), old(fli)@),
        !(old(fli)@.verdict is Refuse),
    ensures
        overwrites(old(fli)@, final(fli)@, dest.raw()),
        old(fli)@.verdict is Raise ==> codec_raised_writing(
            old(fli)@,
            final(fli)@,
            dest.raw(),
            r,
        ),
        old(fli)@.verdict is Grant ==> final(fli)@.verdict is Grant && match fields_tree(
            "#"@,
            seq![(tag@, Tree::String(wire@))] + fields_view(entries@, old(fli)@),
        ) {
            Ok(t) => r is Ok && final(fli)@.refs[dest.raw() as int] == t,
            Err(fault) => r matches Err(e) && e@ == fault,
        },
{
    let name: Term<'_> = match ctx.term(fli) {
        Ok(term) => term,
        Err(error) => {
            return Err(TermCodecError::Term(error));
        },
    };
    match name.put_string(fli, wire) {
        Ok(()) => {},
        Err(error) => {
            return Err(TermCodecError::Term(error));
        },
    }
    let mut rest: Vec<(String, Term<'_>)> = entries;
    let mut fields: Vec<(String, Term<'_>)> = Vec::new();
    fields.push((tag.to_owned(), name));
    fields.append(&mut rest);
    proof {
        fields_keep(entries@, old(fli)@, fli@);
        assert(fields@ =~= seq![fields@[0]] + entries@);
        let view = fields_view(fields@, fli@);
        assert(view =~= seq![(tag@, Tree::String(wire@))] + fields_view(entries@, fli@));
        assert(names(view) =~= field_keys(fields@));
        assert(values(view) =~= held_by(field_terms(fields@), fli@));
        assert forall|k: int| 0 <= k < fields@.len() implies (
        #[trigger] field_terms(fields@)[k]).live(fli@) by {
            if k > 0 {
                assert(field_terms(entries@)[k - 1].live(fli@));
            }
        }
    }
    put_dict(ctx, fli, dest, "#", fields)
}

/// The content of a tuple variant: its only field, or the list of its fields.
pub open spec fn content_tree(items: Seq<Tree>) -> Tree {
    if items.len() == 1 {
        items[0]
    } else {
        list_tree(items)
    }
}

/// Writes the content of a tuple variant.
pub fn put_content<Ctx: FliContext>(
    ctx: &Ctx,
    fli: &mut Fli,
    dest: Term<'_>,
    fields: &Vec<Term<'_>>,
) -> (r: Result<(), TermCodecError>)
    requires
        old(fli)@.at(ctx.place()),
        dest.live(old(fli)@),
        all_live(fields@, old(fli)@),
        !(old(fli)@.verdict is Refuse),
    ensures
        overwrites(old(fli)@, final(fli)@, dest.raw()),
        old(fli)@.verdict is Raise ==> codec_raised_writing(
            old(fli)@,
            final(fli)@,
            dest.raw(),
            r,
        ),
        old(fli)@.verdict is Grant ==> r is Ok && final(fli)@.verdict is Grant
            && final(fli)@.refs[dest.raw() as int] == content_tree(held_by(fields@, old(fli)@)),
{
    let written: Result<(), TermError> = if fields.len() == 1 {
        assert(fields@[0].live(fli@));
        dest.put_term(fli, fields[0])
    } else {
        cons_items(ctx, fli, dest, fields)
    };
    match written {
        Ok(()) => Ok(()),
        Err(error) => Err(TermCodecError::Term(error)),
    }
}

/// The text of the error for a variant that is left out.
pub open spec fn skipped_text(variant: Seq<char>) -> Seq<char> {
    "variant "@ + variant + " is skipped for ToTerm"@
}

/// The error for a variant that is left out.
pub fn skipped_variant(variant: &str) -> (r: TermCodecError)
    ensures
        r@ == CodecFault::Message(skipped_text(variant@)),
{
    let mut text: String = "variant ".to_owned();
    text.append(variant);
    text.append(" is skipped for ToTerm");
    assert(text@ =~= skipped_text(variant@));
    TermCodecError::Message(text)
}

/// The term of the field with the given name, if it is there.
pub open spec fn named_field(fields: Seq<(Seq<char>, Tree)>, name: Seq<char>) -> Option<Tree> {
    match field_position(fields, name) {
        Some(i) => Some(fields[i as int].1),
        None => None,
    }
}

/// Reads a field of its own by its name, leaving it to the field's type what a
/// missing field means.
pub fn read_field<'a, Ctx: FliContext, T: FromTerm>(
    ctx: &'a Ctx,
    fli: &mut Fli,
    fields: &mut Vec<(String, Term<'a>)>,
    wire: &str,
) -> (r: Result<T, TermCodecError>)
    requires
        old(fli)@.at(ctx.place()),
        all_live(field_terms(old(fields)@), old(fli)@),
        !(old(fli)@.verdict is Refuse),
    ensures
        grows(old(fli)@, final(fli)@),
        all_live(field_terms(final(fields)@), final(fli)@),
        ({
            let view = fields_view(old(fields)@, old(fli)@);
            let t = named_field(view, wire@);
            &&& fields_view(final(fields)@, final(fli)@) == without_field(view, wire@)
            &&& old(fli)@.verdict is Raise ==> match r {
                Ok(v) => final(fli)@.verdict == old(fli)@.verdict && T::reads_field(
                    old(fli)@.trail,
                    t,
                    v,
                ) && T::read_field_fault(old(fli)@.trail, t, wire@) is None,
                Err(_) => stopped(old(fli)@, r, T::read_field_fault(old(fli)@.trail, t, wire@)),
            }
            &&& old(fli)@.verdict is Grant ==> final(fli)@.verdict is Grant && match T::read_field_fault(old(fli)@.trail, t, wire@) {
                None => r matches Ok(v) && T::reads_field(old(fli)@.trail, t, v),
                Some(fault) => r matches Err(e) && e@ == fault,
            }
        }),
{
    let ghost view = fields_view(old(fields)@, old(fli)@);
    let term: Option<Term<'a>> = taken(fields, wire, Ghost(old(fli)@));
    assert(field_tree(fli@, term) == named_field(view, wire@));
    let r: Result<T, TermCodecError> = T::__from_field(ctx, fli, term, wire);
    proof {
        fields_keep(fields@, old(fli)@, fli@);
    }
    r
}

/// Reads a field of its own by its name; `None` means that it is missing, so
/// that a default takes its place.
pub fn read_field_if_there<'a, Ctx: FliContext, T: FromTerm>(
    ctx: &'a Ctx,
    fli: &mut Fli,
    fields: &mut Vec<(String, Term<'a>)>,
    wire: &str,
) -> (r: Result<Option<T>, TermCodecError>)
    requires
        old(fli)@.at(ctx.place()),
        all_live(field_terms(old(fields)@), old(fli)@),
        !(old(fli)@.verdict is Refuse),
    ensures
        grows(old(fli)@, final(fli)@),
        all_live(field_terms(final(fields)@), final(fli)@),
        ({
            let view = fields_view(old(fields)@, old(fli)@);
            &&& fields_view(final(fields)@, final(fli)@) == without_field(view, wire@)
            &&& old(fli)@.verdict is Raise ==> match named_field(view, wire@) {
                None => r == Ok::<Option<T>, TermCodecError>(None) && final(fli)@ == old(fli)@,
                Some(t) => match r {
                    Ok(Some(v)) => final(fli)@.verdict == old(fli)@.verdict && T::reads(
                        old(fli)@.trail,
                        t,
                        v,
                    ) && T::read_fault(old(fli)@.trail, t) is None,
                    Ok(None) => false,
                    Err(_) => stopped(old(fli)@, r, T::read_fault(old(fli)@.trail, t)),
                },
            }
            &&& old(fli)@.verdict is Grant ==> final(fli)@.verdict is Grant && match named_field(
                view,
                wire@,
            ) {
                None => r == Ok::<Option<T>, TermCodecError>(None),
                Some(t) => match T::read_fault(old(fli)@.trail, t) {
                    None => r matches Ok(Some(v)) && T::reads(old(fli)@.trail, t, v),
                    Some(fault) => r matches Err(e) && e@ == fault,
                },
            }
        }),
{
    let ghost view = fields_view(old(fields)@, old(fli)@);
    let term: Option<Term<'a>> = taken(fields, wire, Ghost(old(fli)@));
    assert(field_tree(fli@, term) == named_field(view, wire@));
    match term {
        None => Ok(None),
        Some(present) => {
            let r: Result<T, TermCodecError> = T::from_term(ctx, fli, present);
            proof {
                fields_keep(fields@, old(fli)@, fli@);
            }
            match r {
                Ok(value) => Ok(Some(value)),
                Err(error) => Err(error),
            }
        },
    }
}

/// The fields without the one of the given name, if it is there.
pub open spec fn without_field(fields: Seq<(Seq<char>, Tree)>, name: Seq<char>) -> Seq<
    (Seq<char>, Tree),
> {
    match field_position(fields, name) {
        Some(i) => fields.remove(i as int),
        None => fields,
    }
}

/// Takes a field out, if it is there.
fn taken<'a>(fields: &mut Vec<(String, Term<'a>)>, name: &str, Ghost(s): Ghost<State>) -> (r: Option<
    Term<'a>,
>)
    requires
        all_live(field_terms(old(fields)@), s),
    ensures
        all_live(field_terms(final(fields)@), s),
        field_tree(s, r) == named_field(fields_view(old(fields)@, s), name@),
        r matches Some(term) ==> term.live(s),
        fields_view(final(fields)@, s) == without_field(fields_view(old(fields)@, s), name@),
{
    let ghost before = fields@;
    let ghost view = fields_view(before, s);
    let r: Option<Term<'a>> = take_field(fields, name);
    proof {
        field_position_holds(view, name@);
        if let Some(i) = field_position(view, name@) {
            assert(field_terms(before)[i as int].live(s));
            assert(fields_view(fields@, s) =~= view.remove(i as int));
            assert forall|k: int| 0 <= k < fields@.len() implies (
            #[trigger] field_terms(fields@)[k]).live(s) by {
                if k < i {
                    assert(field_terms(before)[k].live(s));
                } else {
                    assert(field_terms(before)[k + 1].live(s));
                }
            }
        }
    }
    r
}

/// The name of the variant that an internally tagged dict's fields stand for,
/// or why there is none.
pub open spec fn variant_name(
    trail: Seq<(usize, Tree)>,
    fields: Seq<(Seq<char>, Tree)>,
    tag: Seq<char>,
) -> Result<Seq<char>, CodecFault> {
    match named_field(fields, tag) {
        None => Err(CodecFault::MissingField(tag)),
        Some(t) => match atomic_text(resolve(trail, t)) {
            Some(text) => Ok(text),
            None => Err(
                CodecFault::Term(
                    TermError::TypeMismatch {
                        expected: "an atomic term with a text representation",
                    },
                ),
            ),
        },
    }
}

/// Whether a pending exception keeps the name of the variant from being read:
/// it does where there is one to read.
pub open spec fn unnamed(s: State, fields: Seq<(Seq<char>, Tree)>, tag: Seq<char>) -> bool {
    s.verdict is Raise && named_field(fields, tag) is Some
}

/// Reads the name of the variant out of an internally tagged dict's fields.
pub fn read_variant_name<'a>(
    fli: &mut Fli,
    fields: &mut Vec<(String, Term<'a>)>,
    tag: &str,
) -> (r: Result<String, TermCodecError>)
    requires
        all_live(field_terms(old(fields)@), old(fli)@),
        !(old(fli)@.verdict is Refuse),
    ensures
        all_live(field_terms(final(fields)@), final(fli)@),
        fields_view(final(fields)@, final(fli)@) == without_field(
            fields_view(old(fields)@, old(fli)@),
            tag@,
        ),
        unnamed(old(fli)@, fields_view(old(fields)@, old(fli)@), tag@) ==> codec_raised(
            old(fli)@,
            final(fli)@,
            r,
        ),
        !unnamed(old(fli)@, fields_view(old(fields)@, old(fli)@), tag@) ==> final(fli)@ == old(
            fli,
        )@ && match variant_name(old(fli)@.trail, fields_view(old(fields)@, old(fli)@), tag@) {
            Ok(text) => r matches Ok(name) && name@ == text,
            Err(fault) => r matches Err(e) && e@ == fault,
        },
{
    match taken(fields, tag, Ghost(old(fli)@)) {
        None => Err(TermCodecError::MissingField { field: tag.to_owned() }),
        Some(term) => {
            match term.get_text(fli) {
                Ok(text) => Ok(text),
                Err(error) => Err(TermCodecError::Term(error)),
            }
        },
    }
}

/// Takes the content of a variant out of an internally tagged dict's fields.
pub fn take_content<'a>(
    fli: &Fli,
    fields: &mut Vec<(String, Term<'a>)>,
    content: &str,
) -> (r: Result<Term<'a>, TermCodecError>)
    requires
        all_live(field_terms(old(fields)@), fli@),
    ensures
        all_live(field_terms(final(fields)@), fli@),
        fields_view(final(fields)@, fli@) == without_field(
            fields_view(old(fields)@, fli@),
            content@,
        ),
        match named_field(fields_view(old(fields)@, fli@), content@) {
            Some(t) => r matches Ok(term) && term.live(fli@) && fli@.refs[term.raw() as int] == t,
            None => r matches Err(e) && e@ == CodecFault::MissingField(content@),
        },
{
    match taken(fields, content, Ghost(fli@)) {
        Some(term) => Ok(term),
        None => Err(TermCodecError::MissingField { field: content.to_owned() }),
    }
}

/// The fields of a tuple in a list, or why there are none: there must be just
/// as many.
pub open spec fn listed_fields(trail: Seq<(usize, Tree)>, t: Tree, arity: nat) -> Result<
    Seq<Tree>,
    CodecFault,
> {
    match shape_of(trail, t) {
        ListShape::Proper { len } => if len == arity {
            Ok(elements(trail, t, arity))
        } else {
            Err(CodecFault::ArityMismatch(arity, len as nat))
        },
        other => Err(CodecFault::Term(TermError::NotAProperList(other))),
    }
}

/// Reads the fields of a tuple out of a list.
pub fn read_listed<'a, Ctx: FliContext>(
    ctx: &'a Ctx,
    fli: &mut Fli,
    term: Term<'_>,
    arity: usize,
) -> (r: Result<Vec<Term<'a>>, TermCodecError>)
    requires
        old(fli)@.at(ctx.place()),
        term.live(old(fli)@),
        !(old(fli)@.verdict is Refuse),
    ensures
        grows(old(fli)@, final(fli)@),
        old(fli)@.verdict is Raise ==> if shape_of(
            old(fli)@.trail,
            old(fli)@.refs[term.raw() as int],
        ) is Proper {
            codec_raised_within(old(fli)@, final(fli)@, r)
        } else {
            &&& final(fli)@ == old(fli)@
            &&& r matches Err(e) && e@ == CodecFault::Term(
                TermError::NotAProperList(
                    shape_of(old(fli)@.trail, old(fli)@.refs[term.raw() as int]),
                ),
            )
        },
        old(fli)@.verdict is Grant ==> final(fli)@.verdict is Grant && match listed_fields(
            old(fli)@.trail,
            old(fli)@.refs[term.raw() as int],
            arity as nat,
        ) {
            Ok(items) => r matches Ok(terms) && all_live(terms@, final(fli)@) && held_by(
                terms@,
                final(fli)@,
            ) == items,
            Err(fault) => r matches Err(e) && e@ == fault,
        },
{
    let ghost trail = fli@.trail;
    let ghost t = fli@.refs[term.raw() as int];
    let shape: ListShape = term.list_shape(fli);
    proof {
        shape_is(trail, t, shape);
        assert(shape is Proper ==> has_shape(trail, t, ListShape::Proper { len: shape->len }));
    }
    match term.collect_list(ctx, fli) {
        Err(error) => Err(TermCodecError::Term(error)),
        Ok(items) => {
            if items.len() != arity {
                return Err(
                    TermCodecError::ArityMismatch { expected: arity, actual: items.len() },
                );
            }
            assert(held_by(items@, fli@) =~= elements(trail, t, arity as nat));
            Ok(items)
        },
    }
}

/// Whether a term is the atom of a unit variant.
pub fn is_unit_variant(fli: &mut Fli, term: Term<'_>, wire: &str) -> (r: Result<
    bool,
    TermCodecError,
>)
    requires
        term.live(old(fli)@),
        !(old(fli)@.verdict is Refuse),
    ensures
        if old(fli)@.verdict is Raise && old(fli)@.value(term.raw()) is Atom {
            codec_raised(old(fli)@, final(fli)@, r)
        } else {
            &&& final(fli)@ == old(fli)@
            &&& r == Ok::<bool, TermCodecError>(
                old(fli)@.value(term.raw()) == Tree::Atom(wire@),
            )
        },
{
    if term.kind(fli) != TermKind::Atom {
        return Ok(false);
    }
    match term.get_atom(fli) {
        Ok(atom) => Ok(same_text(atom.as_str(), wire)),
        Err(error) => Err(TermCodecError::Term(error)),
    }
}

/// The name of the variant that a term could stand for: an atom's text, a
/// compound's name, or a dict's tag.
pub open spec fn claimed_variant(trail: Seq<(usize, Tree)>, t: Tree) -> Result<
    Seq<char>,
    CodecFault,
> {
    match t {
        Tree::Atom(name) => Ok(name),
        Tree::Compound(name, args) => Ok(name),
        Tree::Dict(tag, entries) => match resolve(trail, *tag) {
            Tree::Var(id) => Ok(""@),
            Tree::Atom(name) => Ok(name),
            _ => Err(CodecFault::Term(TermError::TypeMismatch { expected: "an atom" })),
        },
        _ => Ok(""@),
    }
}

/// The error for a term that none of an enum's variants stands for.
pub fn unknown_variant<Ctx: FliContext>(ctx: &Ctx, fli: &mut Fli, term: Term<'_>) -> (r:
    TermCodecError)
    requires
        term.live(old(fli)@),
        old(fli)@.value(term.raw()) is Dict ==> old(fli)@.at(ctx.place()),
        !(old(fli)@.verdict is Refuse),
    ensures
        ({
            let t = old(fli)@.value(term.raw());
            &&& t is Dict ==> grows(old(fli)@, final(fli)@) && final(fli)@.verdict is Grant
            &&& if old(fli)@.verdict is Raise && (t is Atom || t is Compound || t is Dict) {
                &&& !(t is Dict) ==> final(fli)@ == old(fli)@.answered()
                &&& r@ == CodecFault::Term(TermError::Exception(old(fli)@.verdict->Raise_0))
            } else {
                &&& !(t is Dict) ==> final(fli)@ == old(fli)@
                &&& t is Dict ==> final(fli)@.refs.len() == old(fli)@.refs.len() + 2
                &&& r@ == match claimed_variant(old(fli)@.trail, t) {
                    Ok(variant) => CodecFault::UnknownVariant(variant),
                    Err(fault) => fault,
                }
            }
        }),
{
    let variant: String = match term.kind(fli) {
        TermKind::Atom => {
            match term.get_atom(fli) {
                Ok(atom) => atom.text(),
                Err(error) => {
                    return TermCodecError::Term(error);
                },
            }
        },
        TermKind::Compound => {
            match term.name_arity(fli) {
                Ok((name, _)) => name.text(),
                Err(error) => {
                    return TermCodecError::Term(error);
                },
            }
        },
        TermKind::Dict => {
            match term.dict_tag(ctx, fli) {
                Ok(Some(tag)) => tag.text(),
                Ok(None) => "".to_owned(),
                Err(error) => {
                    return TermCodecError::Term(error);
                },
            }
        },
        _ => "".to_owned(),
    };
    TermCodecError::UnknownVariant { variant }
}

/// The first of the names that is `name`.
pub open spec fn first_named(wires: Seq<&str>, name: Seq<char>) -> Option<int>
    decreases wires.len(),
{
    if wires.len() == 0 {
        None
    } else {
        match first_named(wires.drop_last(), name) {
            Some(i) => Some(i),
            None => if wires.last()@ == name {
                Some(wires.len() - 1)
            } else {
                None
            },
        }
    }
}

/// Picks the variant that an internally tagged dict names: the first whose
/// wire name it is.
pub fn pick_variant(wires: &[&str], name: &str) -> (r: Result<usize, TermCodecError>)
    ensures
        match r {
            Ok(i) => {
                &&& first_named(wires@, name@) == Some(i as int)
                &&& i < wires@.len() && wires@[i as int]@ == name@
                &&& forall|k: int| 0 <= k < i ==> (#[trigger] wires@[k])@ != name@
            },
            Err(e) => {
                &&& first_named(wires@, name@) is None
                &&& e@ == CodecFault::UnknownVariant(name@)
                &&& forall|k: int| 0 <= k < wires@.len() ==> (#[trigger] wires@[k])@ != name@
            },
        },
{
    let mut i: usize = 0;
    assert(wires@.take(0) =~= Seq::empty());
    while i < wires.len()
        invariant
            i <= wires@.len(),
            first_named(wires@.take(i as int), name@) is None,
            forall|k: int| 0 <= k < i ==> (#[trigger] wires@[k])@ != name@,
        decreases wires@.len() - i,
    {
        assert(wires@.take(i + 1).drop_last() =~= wires@.take(i as int));
        if same_text(wires[i], name) {
            proof {
                first_stays(wires@, name@, i + 1);
            }
            return Ok(i);
        }
        i = i + 1;
    }
    assert(wires@.take(i as int) =~= wires@);
    Err(TermCodecError::UnknownVariant { variant: name.to_owned() })
}

/// Picks the variant that the fields of an internally tagged dict name under
/// `tag`, and takes the name out of them.
pub fn tagged_variant<'a>(
    fli: &mut Fli,
    fields: &mut Vec<(String, Term<'a>)>,
    tag: &str,
    wires: &[&str],
) -> (r: Result<usize, TermCodecError>)
    requires
        all_live(field_terms(old(fields)@), old(fli)@),
        !(old(fli)@.verdict is Refuse),
    ensures
        all_live(field_terms(final(fields)@), final(fli)@),
        fields_view(final(fields)@, final(fli)@) == without_field(
            fields_view(old(fields)@, old(fli)@),
            tag@,
        ),
        unnamed(old(fli)@, fields_view(old(fields)@, old(fli)@), tag@) ==> codec_raised(
            old(fli)@,
            final(fli)@,
            r,
        ),
        !unnamed(old(fli)@, fields_view(old(fields)@, old(fli)@), tag@) ==> final(fli)@ == old(
            fli,
        )@ && match variant_name(old(fli)@.trail, fields_view(old(fields)@, old(fli)@), tag@) {
            Ok(name) => match first_named(wires@, name) {
                Some(i) => r matches Ok(picked) && picked == i,
                None => r matches Err(e) && e@ == CodecFault::UnknownVariant(name),
            },
            Err(fault) => r matches Err(e) && e@ == fault,
        },
{
    match read_variant_name(fli, fields, tag) {
        Ok(name) => pick_variant(wires, name.as_str()),
        Err(error) => Err(error),
    }
}

/// A name found among the first ones is the one found among all.
proof fn first_stays(wires: Seq<&str>, name: Seq<char>, n: int)
    requires
        0 <= n <= wires.len(),
        first_named(wires.take(n), name) is Some,
    ensures
        first_named(wires, name) == first_named(wires.take(n), name),
    decreases wires.len(),
{
    if n == wires.len() {
        assert(wires.take(n) =~= wires);
    } else {
        assert(wires.drop_last().take(n) =~= wires.take(n));
        first_stays(wires.drop_last(), name, n);
    }
}

/// The first attempt that decided.
pub open spec fn first_decided<T>(attempts: Seq<Option<Result<T, TermCodecError>>>) -> Option<
    Result<T, TermCodecError>,
>
    decreases attempts.len(),
{
    if attempts.len() == 0 {
        None
    } else {
        match first_decided(attempts.drop_last()) {
            Some(r) => Some(r),
            None => attempts.last(),
        }
    }
}

/// The choice among the variants of an enum, which are tried in order until
/// one decides.
pub struct Choice<T> {
    taken: Option<Result<T, TermCodecError>>,
    tried: Ghost<Seq<Option<Result<T, TermCodecError>>>>,
}

impl<T> Choice<T> {
    #[verifier::type_invariant]
    closed spec fn consistent(self) -> bool {
        self.taken == first_decided(self.tried@)
    }

    /// What the attempts so far came to, in order.
    pub closed spec fn attempts(self) -> Seq<Option<Result<T, TermCodecError>>> {
        self.tried@
    }

    /// A choice before any variant was tried.
    pub fn new() -> (r: Choice<T>)
        ensures
            r.attempts().len() == 0,
    {
        Choice { taken: None, tried: Ghost(Seq::empty()) }
    }

    /// Whether no attempt has decided, so that the next variant is tried.
    pub fn is_open(&self) -> (r: bool)
        ensures
            r == (first_decided(self.attempts()) is None),
    {
        proof {
            use_type_invariant(self);
        }
        self.taken.is_none()
    }

    /// The choice after one more attempt: `None` if it is not that variant.
    pub fn tried(self, attempt: Option<Result<T, TermCodecError>>) -> (r: Choice<T>)
        ensures
            r.attempts() == self.attempts().push(attempt),
    {
        proof {
            use_type_invariant(&self);
        }
        let ghost all = self.tried@.push(attempt);
        assert(all.drop_last() =~= self.tried@);
        let taken: Option<Result<T, TermCodecError>> = match self.taken {
            Some(decided) => Some(decided),
            None => attempt,
        };
        Choice { taken, tried: Ghost(all) }
    }

    /// What the first attempt that decided came to, if one did.
    pub fn outcome(self) -> (r: Option<Result<T, TermCodecError>>)
        ensures
            r == first_decided(self.attempts()),
    {
        proof {
            use_type_invariant(&self);
        }
        self.taken
    }
}

/// What reading the payload of an untagged variant came to, as an attempt.
pub open spec fn payload_attempt<T>(payload: Result<T, TermCodecError>) -> Option<
    Result<T, TermCodecError>,
> {
    match payload {
        Ok(value) => Some(Ok(value)),
        Err(_) => None,
    }
}

/// An attempt at an untagged variant: it decides if its payload is read.
pub fn untagged_attempt<T>(payload: Result<T, TermCodecError>) -> (r: Option<
    Result<T, TermCodecError>,
>)
    ensures
        r == payload_attempt(payload),
{
    match payload {
        Ok(value) => Some(Ok(value)),
        Err(_) => None,
    }
}

/// An untagged enum is the first of its variants whose payload is read, and
/// none if none is.
pub proof fn first_readable_payload_wins<T>(payloads: Seq<Result<T, TermCodecError>>)
    ensures
        match first_decided(payloads.map_values(|p| payload_attempt(p))) {
            Some(r) => exists|i: int|
                0 <= i < payloads.len() && r == #[trigger] payloads[i] && r is Ok && forall|k: int|
                    0 <= k < i ==> (#[trigger] payloads[k]) is Err,
            None => forall|i: int| 0 <= i < payloads.len() ==> (#[trigger] payloads[i]) is Err,
        },
    decreases payloads.len(),
{
    let attempts = payloads.map_values(|p| payload_attempt(p));
    if payloads.len() > 0 {
        let front = payloads.drop_last();
        assert(attempts.drop_last() =~= front.map_values(|p| payload_attempt(p)));
        first_readable_payload_wins(front);
        if first_decided(attempts.drop_last()) is Some {
            let r = first_decided(attempts.drop_last())->0;
            let i = choose|i: int|
                0 <= i < front.len() && r == #[trigger] front[i] && r is Ok && forall|k: int|
                    0 <= k < i ==> (#[trigger] front[k]) is Err;
            assert(payloads[i] == front[i]);
            assert forall|k: int| 0 <= k < i implies (#[trigger] payloads[k]) is Err by {
                assert(front[k] is Err);
            }
        } else {
            assert forall|k: int| 0 <= k < front.len() implies (#[trigger] payloads[k]) is Err by {
                assert(front[k] is Err);
            }
            assert(attempts.last() == payload_attempt(payloads.last()));
            if payloads.last() is Ok {
                assert(payloads[payloads.len() - 1] is Ok);
            }
        }
    }
}

/// Each field of a dict is found under its name: what an encoder put under a
/// name is what a decoder takes from under it.
pub proof fn written_field_is_found(fields: Seq<(Seq<char>, Tree)>, i: int)
    requires
        repeated_key(names(fields)) is None,
        0 <= i < fields.len(),
    ensures
        named_field(
            fields_of(in_order(in_order(zipped(names(fields), values(fields))))),
            fields[i].0,
        ) == Some(fields[i].1),
{
    let plain = zipped(names(fields), values(fields));
    let sorted = in_order(plain);
    order_is_sorted(plain);
    order_is_stable(sorted);
    no_repeated_key(names(fields));
    assert forall|a: int, b: int| 0 <= a < b < plain.len() implies (#[trigger] plain[a]).0 != (
    #[trigger] plain[b]).0 by {
        assert(names(fields)[a] != names(fields)[b]);
    }
    distinct_rearranged(plain, sorted);
    assert forall|k: int| 0 <= k < sorted.len() implies (#[trigger] sorted[k]).0 is Atom by {
        let a = rearranged(sorted, plain, k);
    }
    fields_of_atoms(sorted);
    let read = fields_of(sorted);
    let k = rearranged(plain, sorted, i);
    assert(read[k] == (fields[i].0, fields[i].1));
    field_position_holds(read, fields[i].0);
    if let Some(p) = field_position(read, fields[i].0) {
        if p < k {
            assert(sorted[p as int].0 != sorted[k].0);
        } else if p > k {
            assert(sorted[k].0 != sorted[p as int].0);
        }
        assert(sorted[p as int].0 is Atom && sorted[k].0 is Atom);
    } else {
        assert(read[k].0 == fields[i].0);
    }
}

/// A field that was left out is not found.
pub proof fn omitted_field_is_not_found(fields: Seq<(Seq<char>, Tree)>, name: Seq<char>)
    requires
        repeated_key(names(fields)) is None,
        forall|i: int| 0 <= i < fields.len() ==> (#[trigger] fields[i]).0 != name,
    ensures
        named_field(
            fields_of(in_order(in_order(zipped(names(fields), values(fields))))),
            name,
        ) is None,
{
    let plain = zipped(names(fields), values(fields));
    let sorted = in_order(plain);
    order_is_sorted(plain);
    order_is_stable(sorted);
    no_repeated_key(names(fields));
    assert forall|a: int, b: int| 0 <= a < b < plain.len() implies (#[trigger] plain[a]).0 != (
    #[trigger] plain[b]).0 by {
        assert(names(fields)[a] != names(fields)[b]);
    }
    distinct_rearranged(plain, sorted);
    assert forall|k: int| 0 <= k < sorted.len() implies (#[trigger] sorted[k]).0 is Atom by {
        let a = rearranged(sorted, plain, k);
    }
    fields_of_atoms(sorted);
    let read = fields_of(sorted);
    field_position_holds(read, name);
    if let Some(p) = field_position(read, name) {
        let a = rearranged(sorted, plain, p as int);
        assert(fields[a].0 != name);
    }
}

/// A field is read back from the dict that it was written into, and one that
/// was left out from the dict without it.
pub proof fn struct_field_reads_back<T: RoundTrip>(
    trail: Seq<(usize, Tree)>,
    fields: Seq<(Seq<char>, Tree)>,
    name: Seq<char>,
    value: T,
    back: T,
)
    requires
        repeated_key(names(fields)) is None,
        value.encoded_field() matches Ok(t) && match t {
            Some(t) => fields.contains((name, t)),
            None => forall|i: int| 0 <= i < fields.len() ==> (#[trigger] fields[i]).0 != name,
        },
    ensures
        ({
            let read = fields_of(in_order(in_order(zipped(names(fields), values(fields)))));
            let t = named_field(read, name);
            &&& T::read_field_fault(trail, t, name) is None
            &&& T::reads_field(trail, t, back) ==> value.same(&back)
        }),
{
    let t = value.encoded_field()->Ok_0;
    if let Some(t) = t {
        let i = choose|i: int| 0 <= i < fields.len() && fields[i] == (name, t);
        written_field_is_found(fields, i);
    } else {
        omitted_field_is_not_found(fields, name);
    }
    value.field_reads_back(trail, t, name, back);
}

/// The name of a variant of an internally tagged enum is read back.
pub proof fn variant_name_reads_back(
    trail: Seq<(usize, Tree)>,
    tag: Seq<char>,
    wire: Seq<char>,
    entries: Seq<(Seq<char>, Tree)>,
)
    requires
        repeated_key(names(seq![(tag, Tree::String(wire))] + entries)) is None,
    ensures
        ({
            let fields = seq![(tag, Tree::String(wire))] + entries;
            variant_name(
                trail,
                fields_of(in_order(in_order(zipped(names(fields), values(fields))))),
                tag,
            ) == Ok::<Seq<char>, CodecFault>(wire)
        }),
{
    let fields = seq![(tag, Tree::String(wire))] + entries;
    written_field_is_found(fields, 0);
}

} // verus!
