//! A derived encoder and the decoder derived for the same type speak the same
//! terms.

use vstd::prelude::*;

use crate::derive::attrs::{attrs_of, text_view, AttrsView};
use crate::derive::decode::{
    decodable, decoder_of, decodes_variant, decodes_variants, reads_fields, FieldRead, FromAction,
    FromArm, FromBody, FromPlan, ReadSource,
};
use crate::derive::encode::{
    encoder_of, encodes_variant, encodes_variants, writes_fields, FieldWrite, ToAction, ToArm,
    ToBody, ToPlan,
};
use crate::derive::fields::field_attrs;
use crate::derive::input::{Body, Field, Fields, Input, Variant};

verus! {

/// Whether a field that is both written and read is read as what it is written
/// as: under the same name, or as fields of its own.
pub open spec fn field_agrees(write: FieldWrite, read: FieldRead) -> bool {
    match (write, read.source) {
        (FieldWrite::Skip { name }, _) => name@ == read.name@,
        (FieldWrite::Flatten { name }, ReadSource::Default) => name@ == read.name@,
        (FieldWrite::Put { name, wire }, ReadSource::Default) => name@ == read.name@,
        (FieldWrite::Flatten { name }, ReadSource::Flatten) => name@ == read.name@,
        (FieldWrite::Put { name, wire }, ReadSource::Wire { wire: key, missing }) => name@
            == read.name@ && wire@ == key@,
        _ => false,
    }
}

/// Whether fields that are both written and read are read as what they are
/// written as.
pub open spec fn fields_agree(writes: Seq<FieldWrite>, reads: Seq<FieldRead>) -> bool {
    writes.len() == reads.len() && forall|i: int|
        0 <= i < writes.len() ==> field_agrees(#[trigger] writes[i], reads[i])
}

/// The fields of one type are read as what they are written as.
pub proof fn derived_fields_agree(
    writes: Seq<FieldWrite>,
    reads: Seq<FieldRead>,
    fields: Seq<Field>,
    container: AttrsView,
    inherits: bool,
)
    requires
        writes_fields(writes, fields, container.rename_all),
        reads_fields(reads, fields, container, inherits),
    ensures
        fields_agree(writes, reads),
        forall|i: int|
            0 <= i < fields.len() && !field_attrs(fields[i]).skip && !field_attrs(
                fields[i],
            ).skip_from_term && !field_attrs(fields[i]).skip_to_term ==> !((
            #[trigger] writes[i]) is Skip) && !(reads[i].source is Default),
{
    assert forall|i: int| 0 <= i < writes.len() implies field_agrees(
        #[trigger] writes[i],
        reads[i],
    ) by {
        let a = field_attrs(fields[i]);
        assert(crate::derive::encode::writes_field(writes[i], fields[i], container.rename_all));
        assert(crate::derive::decode::reads_field(reads[i], fields[i], container, inherits));
    }
    assert forall|i: int|
        0 <= i < fields.len() && !field_attrs(fields[i]).skip && !field_attrs(
            fields[i],
        ).skip_from_term && !field_attrs(fields[i]).skip_to_term implies !((
    #[trigger] writes[i]) is Skip) && !(reads[i].source is Default) by {
        assert(crate::derive::encode::writes_field(writes[i], fields[i], container.rename_all));
        assert(crate::derive::decode::reads_field(reads[i], fields[i], container, inherits));
    }
}

/// Whether a variant is recognized and read as what it is written as. A
/// variant that is left out is not written at all.
pub open spec fn actions_agree(to: ToAction, from: FromAction) -> bool {
    match (to, from) {
        (ToAction::Skipped, _) => true,
        (ToAction::Atom { wire }, FromAction::Atom { wire: key }) => wire@ == key@,
        (ToAction::Newtype, FromAction::Newtype) => true,
        (ToAction::List { arity }, FromAction::List { arity: len }) => arity == len,
        (ToAction::Compound { wire, arity }, FromAction::Compound { wire: key, arity: len }) => wire@
            == key@ && arity == len,
        (ToAction::Dict { tag, writes }, FromAction::Dict { tag: key, reads }) => tag@ == key@
            && fields_agree(writes@, reads@),
        (ToAction::Dict { tag, writes }, FromAction::TryDict { reads }) => tag@ == "#"@
            && fields_agree(writes@, reads@),
        (ToAction::TaggedUnit { wire }, FromAction::TaggedUnit { wire: key }) => wire@ == key@,
        (
            ToAction::TaggedInline { wire, writes },
            FromAction::TaggedInline { wire: key, reads },
        ) => wire@ == key@ && fields_agree(writes@, reads@),
        (ToAction::TaggedDict { wire, writes }, FromAction::TaggedDict { wire: key, reads }) => wire@
            == key@ && fields_agree(writes@, reads@),
        (ToAction::TaggedTuple { wire, arity }, FromAction::TaggedNewtype { wire: key }) => wire@
            == key@ && arity == 1,
        (
            ToAction::TaggedTuple { wire, arity },
            FromAction::TaggedTuple { wire: key, arity: len },
        ) => wire@ == key@ && arity == len,
        _ => false,
    }
}

/// A variant is recognized and read as what it is written as.
pub proof fn derived_variants_agree(
    to: ToAction,
    from: FromAction,
    v: Variant,
    container: AttrsView,
)
    requires
        encodes_variant(to, v, container),
        decodes_variant(from, v, container),
        decodable(v, container),
    ensures
        actions_agree(to, from),
{
    if let Fields::Named(fields) = v.fields {
        match (to, from) {
            (ToAction::Dict { tag, writes }, FromAction::Dict { tag: key, reads }) => {
                derived_fields_agree(writes@, reads@, fields@, container, false);
            },
            (ToAction::Dict { tag, writes }, FromAction::TryDict { reads }) => {
                derived_fields_agree(writes@, reads@, fields@, container, false);
            },
            (
                ToAction::TaggedInline { wire, writes },
                FromAction::TaggedInline { wire: key, reads },
            ) => {
                derived_fields_agree(writes@, reads@, fields@, container, false);
            },
            (
                ToAction::TaggedDict { wire, writes },
                FromAction::TaggedDict { wire: key, reads },
            ) => {
                derived_fields_agree(writes@, reads@, fields@, container, false);
            },
            _ => {},
        }
    }
}

/// Whether each variant that a decoder can yield is recognized and read as what
/// it is written as.
pub open spec fn arms_agree(to: Seq<ToArm>, from: Seq<FromArm>) -> bool {
    forall|k: int| 0 <= k < from.len() ==> written_by(to, #[trigger] from[k])
}

/// Whether one of the variants is written as what an arm reads.
pub open spec fn written_by(to: Seq<ToArm>, arm: FromArm) -> bool {
    exists|i: int|
        0 <= i < to.len() && (#[trigger] to[i]).variant@ == arm.variant@ && actions_agree(
            to[i].action,
            arm.action,
        )
}

proof fn derived_arms_agree(
    to: Seq<ToArm>,
    from: Seq<FromArm>,
    all: Seq<Variant>,
    n: int,
    container: AttrsView,
)
    requires
        0 <= n <= all.len(),
        encodes_variants(to, all, container),
        decodes_variants(from, all.take(n), container),
    ensures
        arms_agree(to, from),
    decreases n,
{
    let vs = all.take(n);
    if n > 0 {
        let last = vs.last();
        assert(vs.drop_last() =~= all.take(n - 1));
        assert(to[n - 1].variant@ == all[n - 1].name@);
        if decodable(last, container) {
            derived_arms_agree(to, from.drop_last(), all, n - 1, container);
            derived_variants_agree(to[n - 1].action, from.last().action, last, container);
            assert forall|k: int| 0 <= k < from.len() implies written_by(
                to,
                #[trigger] from[k],
            ) by {
                if k < from.len() - 1 {
                    assert(from.drop_last()[k] == from[k]);
                } else {
                    assert(to[n - 1].variant@ == from[k].variant@);
                }
            }
        } else {
            derived_arms_agree(to, from, all, n - 1, container);
        }
    }
}

/// Whether what one body reads is what the other one writes.
pub open spec fn bodies_agree(to: ToBody, from: FromBody) -> bool {
    match (to, from) {
        (ToBody::Dict { tag, writes }, FromBody::Dict { tag: key, reads }) => tag@ == key@
            && fields_agree(writes@, reads@),
        (ToBody::Compound { tag, arity }, FromBody::Compound { tag: key, arity: len }) => tag@
            == key@ && arity == len,
        (ToBody::Absent, FromBody::Absent) => true,
        (ToBody::Match(arms), FromBody::Attempts(attempts)) => arms_agree(arms@, attempts@),
        (ToBody::Match(arms), FromBody::Tagged(attempts)) => arms_agree(arms@, attempts@),
        _ => false,
    }
}

/// The encoder and the decoder derived for one type agree: on where the codec
/// lives, on the keys of an internally tagged enum, on tags, names and arities,
/// and on which fields go under which names.
pub proof fn derived_codec_agrees(to: ToPlan, from: FromPlan, input: Input)
    requires
        encoder_of(to, input),
        decoder_of(from, input),
    ensures
        to.name@ == from.name@,
        text_view(to.krate) == text_view(from.krate),
        text_view(to.tag) == text_view(from.tag),
        text_view(to.content) == text_view(from.content),
        bodies_agree(to.body, from.body),
{
    let container = attrs_of(input.attributes@)->Ok_0;
    match input.body {
        Body::Struct(Fields::Named(fields)) => {
            derived_fields_agree(
                to.body->Dict_writes@,
                from.body->Dict_reads@,
                fields@,
                container,
                true,
            );
        },
        Body::Enum(vs) => {
            let arms = to.body->Match_0@;
            let attempts = if container.tag is Some {
                from.body->Tagged_0@
            } else {
                from.body->Attempts_0@
            };
            assert(vs@.take(vs@.len() as int) =~= vs@);
            derived_arms_agree(arms, attempts, vs@, vs@.len() as int, container);
        },
        _ => {},
    }
}

} // verus!
