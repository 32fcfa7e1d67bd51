//! Laws of derived encoders and decoders, in terms of the type they are derived
//! for and of its attributes.

use vstd::prelude::*;

use crate::derive::attrs::{attrs_of, text_view, AttrsView, Fault};
use crate::derive::decode::{
    decoder_fault, decoder_of, decodes_variant, decodes_variants, first_arm, first_readable,
    reads_field, reads_fields, FieldRead, FromAction, FromArm, FromBody, FromPlan, Missing, ReadSource,
};
use crate::derive::encode::{
    encoder_fault, encoder_of, encodes_variant, writes_field, writes_fields, FieldWrite, ToAction,
    ToBody, ToPlan,
};
use crate::derive::fields::{
    bounded_params, field_attrs, fields_fault, occurs, type_texts, types_with_role, variant_fault,
    variant_types, variants_fault, variants_types, Role,
};
use crate::derive::input::{Body, Field, Fields, Input, TypeUse, Variant};
use crate::derive::rename::{renamed, texts_view, RenameRule};

verus! {

/// Whether a field is written at all.
pub open spec fn written(f: Field) -> bool {
    !field_attrs(f).skip && !field_attrs(f).skip_to_term
}

/// Whether a field is read at all.
pub open spec fn read(f: Field) -> bool {
    !field_attrs(f).skip && !field_attrs(f).skip_from_term
}

/// The attributes of a variant.
pub open spec fn variant_attrs(v: Variant) -> AttrsView {
    attrs_of(v.attributes@)->Ok_0
}

/// Whether `wire` is the name under which something called `name` travels: its
/// own `rename` if it has one, else its name under the container's rule, and
/// without a rule its name.
pub open spec fn travels_as(
    wire: Seq<char>,
    rename: Option<Seq<char>>,
    name: Seq<char>,
    rule: Option<RenameRule>,
) -> bool {
    &&& rename matches Some(text) ==> wire == text
    &&& rename is None && rule is None ==> wire == name
    &&& rename is None && rule is Some ==> wire == renamed(name, rule)
}

/// A field is left out of what is written exactly if it is skipped, for all or
/// for writing; otherwise its fields are written in its place if it is
/// flattened, and else it is written under its name.
pub proof fn fields_are_written_as_told(w: FieldWrite, f: Field, rule: Option<RenameRule>)
    requires
        writes_field(w, f, rule),
    ensures
        w is Skip <==> !written(f),
        w is Flatten <==> written(f) && field_attrs(f).flatten,
        w is Put <==> written(f) && !field_attrs(f).flatten,
        match w {
            FieldWrite::Skip { name } => name@ == f.name@,
            FieldWrite::Flatten { name } => name@ == f.name@,
            FieldWrite::Put { name, wire } => name@ == f.name@ && travels_as(
                wire@,
                field_attrs(f).rename,
                f.name@,
                rule,
            ),
        },
{
}

/// A field takes the default of its type exactly if it is skipped, for all or
/// for reading; otherwise it is read from all fields if it is flattened, and
/// else from the field of its name.
pub proof fn fields_are_read_as_told(
    rd: FieldRead,
    f: Field,
    container: AttrsView,
    inherits: bool,
)
    requires
        reads_field(rd, f, container, inherits),
    ensures
        rd.name@ == f.name@,
        rd.source is Default <==> !read(f),
        rd.source is Flatten <==> read(f) && field_attrs(f).flatten,
        rd.source is Wire <==> read(f) && !field_attrs(f).flatten,
        rd.source matches ReadSource::Wire { wire, missing } ==> travels_as(
            wire@,
            field_attrs(f).rename,
            f.name@,
            container.rename_all,
        ),
{
}

/// What a missing field is: with a bare `default` the default of its type, with
/// a path what that function gives, without either the default of its type
/// where its struct has a default, and else what its type says.
pub proof fn missing_fields_are_filled_as_told(
    rd: FieldRead,
    f: Field,
    container: AttrsView,
    inherits: bool,
)
    requires
        reads_field(rd, f, container, inherits),
        read(f),
        !field_attrs(f).flatten,
    ensures
        rd.source matches ReadSource::Wire { wire, missing } && {
            &&& field_attrs(f).default == Some(None::<Seq<char>>) ==> missing is Default
            &&& field_attrs(f).default matches Some(Some(path)) ==> (missing matches Missing::Call(
                text,
            ) && text@ == path)
            &&& field_attrs(f).default is None && inherits && container.default is Some
                ==> missing is Default
            &&& field_attrs(f).default is None && !(inherits && container.default is Some)
                ==> missing is Ask
        },
{
}

/// What a struct is written as: its named fields as a dict, its unnamed ones as
/// a compound of as many arguments, and without fields nothing. The tag is the
/// struct's `rename` if it has one, and else its name, whatever its renaming
/// rule for fields is.
pub proof fn structs_are_written_under_their_tag(plan: ToPlan, input: Input, fields: Fields)
    requires
        encoder_of(plan, input),
        input.body == Body::Struct(fields),
    ensures
        ({
            let container = attrs_of(input.attributes@)->Ok_0;
            let tag = if container.rename is Some {
                container.rename->0
            } else {
                input.name@
            };
            match fields {
                Fields::Named(fs) => plan.body matches ToBody::Dict { tag: t, writes } && t@ == tag
                    && writes@.len() == fs@.len() && forall|i: int|
                    0 <= i < fs@.len() ==> writes_field(
                        #[trigger] writes@[i],
                        fs@[i],
                        container.rename_all,
                    ),
                Fields::Unnamed(tys) => plan.body matches ToBody::Compound { tag: t, arity } && t@
                    == tag && arity == tys@.len(),
                Fields::Unit => plan.body is Absent,
            }
        }),
{
}

/// What a struct is read from: the dict or compound that it is written as, each
/// missing field being filled as the struct's own default says.
pub proof fn structs_are_read_under_their_tag(plan: FromPlan, input: Input, fields: Fields)
    requires
        decoder_of(plan, input),
        input.body == Body::Struct(fields),
    ensures
        ({
            let container = attrs_of(input.attributes@)->Ok_0;
            let tag = if container.rename is Some {
                container.rename->0
            } else {
                input.name@
            };
            match fields {
                Fields::Named(fs) => plan.body matches FromBody::Dict { tag: t, reads } && t@ == tag
                    && reads@.len() == fs@.len() && forall|i: int|
                    0 <= i < fs@.len() ==> reads_field(
                        #[trigger] reads@[i],
                        fs@[i],
                        container,
                        true,
                    ),
                Fields::Unnamed(tys) => plan.body matches FromBody::Compound { tag: t, arity } && t@
                    == tag && arity == tys@.len(),
                Fields::Unit => plan.body is Absent,
            }
        }),
{
}

/// Derived code is for the type it was asked for, speaks to the codec at the
/// path given by `crate`, and keeps an internally tagged enum's keys.
pub proof fn plans_carry_the_container(to: ToPlan, from: FromPlan, input: Input)
    requires
        encoder_of(to, input),
        decoder_of(from, input),
    ensures
        to.name@ == input.name@ && from.name@ == input.name@,
        ({
            let container = attrs_of(input.attributes@)->Ok_0;
            &&& text_view(to.krate) == container.crate_path
            &&& text_view(from.krate) == container.crate_path
            &&& text_view(to.tag) == container.tag && text_view(from.tag) == container.tag
            &&& text_view(to.content) == container.content
            &&& text_view(from.content) == container.content
        }),
{
}

/// How an externally tagged enum is written: a unit variant as the atom of its
/// name, a tuple variant as the compound, a variant with named fields as the
/// dict tagged with its name. A variant that is skipped is not written.
pub proof fn external_variants_are_written(action: ToAction, v: Variant, container: AttrsView)
    requires
        encodes_variant(action, v, container),
        container.tag is None,
        !container.untagged,
    ensures
        ({
            let a = variant_attrs(v);
            if a.skip || a.skip_to_term {
                action is Skipped
            } else {
                match v.fields {
                    Fields::Unit => action matches ToAction::Atom { wire } && travels_as(
                        wire@,
                        a.rename,
                        v.name@,
                        container.rename_all,
                    ),
                    Fields::Unnamed(tys) => action matches ToAction::Compound { wire, arity }
                        && arity == tys@.len() && travels_as(
                        wire@,
                        a.rename,
                        v.name@,
                        container.rename_all,
                    ),
                    Fields::Named(fs) => action matches ToAction::Dict { tag, writes }
                        && travels_as(tag@, a.rename, v.name@, container.rename_all)
                        && writes_fields(writes@, fs@, container.rename_all),
                }
            }
        }),
{
}

/// How an untagged enum is written: a unit variant not at all, one field in the
/// variant's place, several as a list, and named fields as the dict tagged `#`.
pub proof fn untagged_variants_are_written(action: ToAction, v: Variant, container: AttrsView)
    requires
        encodes_variant(action, v, container),
        container.tag is None,
        container.untagged,
    ensures
        ({
            let a = variant_attrs(v);
            if a.skip || a.skip_to_term {
                action is Skipped
            } else {
                match v.fields {
                    Fields::Unit => action is Absent,
                    Fields::Unnamed(tys) => if tys@.len() == 1 {
                        action is Newtype
                    } else {
                        action matches ToAction::List { arity } && arity == tys@.len()
                    },
                    Fields::Named(fs) => action matches ToAction::Dict { tag, writes } && tag@
                        == "#"@ && writes_fields(writes@, fs@, container.rename_all),
                }
            }
        }),
{
}

/// How an internally tagged enum is written, whether or not it is also marked
/// untagged: each variant under its name; named fields beside the name, or
/// under the content's key where there is one; tuples under that key.
pub proof fn internal_variants_are_written(action: ToAction, v: Variant, container: AttrsView)
    requires
        encodes_variant(action, v, container),
        container.tag is Some,
    ensures
        ({
            let a = variant_attrs(v);
            if a.skip || a.skip_to_term {
                action is Skipped
            } else {
                match v.fields {
                    Fields::Unit => action matches ToAction::TaggedUnit { wire } && travels_as(
                        wire@,
                        a.rename,
                        v.name@,
                        container.rename_all,
                    ),
                    Fields::Unnamed(tys) => action matches ToAction::TaggedTuple { wire, arity }
                        && arity == tys@.len() && travels_as(
                        wire@,
                        a.rename,
                        v.name@,
                        container.rename_all,
                    ),
                    Fields::Named(fs) => if container.content is Some {
                        action matches ToAction::TaggedDict { wire, writes } && travels_as(
                            wire@,
                            a.rename,
                            v.name@,
                            container.rename_all,
                        ) && writes_fields(writes@, fs@, container.rename_all)
                    } else {
                        action matches ToAction::TaggedInline { wire, writes } && travels_as(
                            wire@,
                            a.rename,
                            v.name@,
                            container.rename_all,
                        ) && writes_fields(writes@, fs@, container.rename_all)
                    },
                }
            }
        }),
{
}

/// How a variant is recognized where the enum has no tag: in the externally
/// tagged form by its name, in the untagged form by its payload. A variant's
/// fields are filled by their own defaults alone.
pub proof fn plain_variants_are_read(action: FromAction, v: Variant, container: AttrsView)
    requires
        decodes_variant(action, v, container),
        container.tag is None,
    ensures
        ({
            let a = variant_attrs(v);
            match v.fields {
                Fields::Unit => action matches FromAction::Atom { wire } && travels_as(
                    wire@,
                    a.rename,
                    v.name@,
                    container.rename_all,
                ),
                Fields::Unnamed(tys) => if !container.untagged {
                    action matches FromAction::Compound { wire, arity } && arity == tys@.len()
                        && travels_as(wire@, a.rename, v.name@, container.rename_all)
                } else if tys@.len() == 1 {
                    action is Newtype
                } else {
                    action matches FromAction::List { arity } && arity == tys@.len()
                },
                Fields::Named(fs) => if container.untagged {
                    action matches FromAction::TryDict { reads } && reads_fields(
                        reads@,
                        fs@,
                        container,
                        false,
                    )
                } else {
                    action matches FromAction::Dict { tag, reads } && travels_as(
                        tag@,
                        a.rename,
                        v.name@,
                        container.rename_all,
                    ) && reads_fields(reads@, fs@, container, false)
                },
            }
        }),
{
}

/// How a variant of an internally tagged enum is read once its name was found:
/// from where it was written.
pub proof fn internal_variants_are_read(action: FromAction, v: Variant, container: AttrsView)
    requires
        decodes_variant(action, v, container),
        container.tag is Some,
    ensures
        ({
            let a = variant_attrs(v);
            match v.fields {
                Fields::Unit => action matches FromAction::TaggedUnit { wire } && travels_as(
                    wire@,
                    a.rename,
                    v.name@,
                    container.rename_all,
                ),
                Fields::Unnamed(tys) => if tys@.len() == 1 {
                    action matches FromAction::TaggedNewtype { wire } && travels_as(
                        wire@,
                        a.rename,
                        v.name@,
                        container.rename_all,
                    )
                } else {
                    action matches FromAction::TaggedTuple { wire, arity } && arity == tys@.len()
                        && travels_as(wire@, a.rename, v.name@, container.rename_all)
                },
                Fields::Named(fs) => if container.content is Some {
                    action matches FromAction::TaggedDict { wire, reads } && travels_as(
                        wire@,
                        a.rename,
                        v.name@,
                        container.rename_all,
                    ) && reads_fields(reads@, fs@, container, false)
                } else {
                    action matches FromAction::TaggedInline { wire, reads } && travels_as(
                        wire@,
                        a.rename,
                        v.name@,
                        container.rename_all,
                    ) && reads_fields(reads@, fs@, container, false)
                },
            }
        }),
{
}

/// An encoder has an arm for every variant, in order. A decoder has one for
/// every variant but those that are skipped for reading and, where the enum is
/// untagged, those without fields; it tries them in order, or goes by the name
/// where there is a tag.
pub proof fn enums_have_an_arm_for_each_variant(
    to: ToPlan,
    from: FromPlan,
    input: Input,
    vs: Seq<Variant>,
    v: Variant,
    arms: Seq<FromArm>,
    container: AttrsView,
)
    ensures
        encoder_of(to, input) && (input.body matches Body::Enum(all) && all@ == vs) ==> (
        to.body matches ToBody::Match(written_arms) && written_arms@.len() == vs.len() && forall|
            i: int,
        |
            0 <= i < vs.len() ==> (#[trigger] written_arms@[i]).variant@ == vs[i].name@
                && encodes_variant(
                written_arms@[i].action,
                vs[i],
                attrs_of(input.attributes@)->Ok_0,
            )),
        decoder_of(from, input) && (input.body matches Body::Enum(all) && all@ == vs) ==> if attrs_of(
            input.attributes@,
        )->Ok_0.tag is Some {
            from.body matches FromBody::Tagged(attempts) && decodes_variants(
                attempts@,
                vs,
                attrs_of(input.attributes@)->Ok_0,
            )
        } else {
            from.body matches FromBody::Attempts(attempts) && decodes_variants(
                attempts@,
                vs,
                attrs_of(input.attributes@)->Ok_0,
            )
        },
        decodes_variants(arms, Seq::empty(), container) <==> arms.len() == 0,
        decodes_variants(arms, vs.push(v), container) <==> if variant_attrs(v).skip
            || variant_attrs(v).skip_from_term || (v.fields is Unit && container.untagged
            && container.tag is None) {
            decodes_variants(arms, vs, container)
        } else {
            &&& arms.len() > 0
            &&& arms.last().variant@ == v.name@
            &&& decodes_variant(arms.last().action, v, container)
            &&& decodes_variants(arms.drop_last(), vs, container)
        },
{
    assert(vs.push(v).drop_last() =~= vs);
    assert(vs.push(v).last() == v);
}

/// A union has neither an encoder nor a decoder; nor has a type with a fault in
/// its own attributes, which is then the fault.
pub proof fn container_faults_come_first(input: Input, fault: Fault)
    ensures
        attrs_of(input.attributes@) == Err::<AttrsView, Fault>(fault) ==> encoder_fault(input)
            == Some(fault) && decoder_fault(input) == Some(fault),
        attrs_of(input.attributes@) is Ok && input.body is Union ==> encoder_fault(input) == Some(
            Fault::ToUnion,
        ) && decoder_fault(input) == Some(Fault::FromUnion),
{
}

/// A struct has an encoder exactly if the attributes of all its named fields
/// are in order, and otherwise the first fault is reported. Its decoder also
/// asks that the struct's own default names no function, which is reported
/// first.
pub proof fn struct_faults_are_the_first_faults(input: Input, fs: Seq<Field>, f: Field)
    requires
        attrs_of(input.attributes@) is Ok,
        input.body matches Body::Struct(fields) && (fields matches Fields::Named(all) ==> all@
            == fs.push(f)),
    ensures
        ({
            let path = attrs_of(input.attributes@)->Ok_0.default matches Some(Some(p));
            let named = input.body->Struct_0 is Named;
            &&& path ==> decoder_fault(input) == Some(Fault::ContainerDefaultPath)
            &&& !path ==> decoder_fault(input) == encoder_fault(input)
            &&& !named ==> encoder_fault(input) is None
            &&& named ==> encoder_fault(input) == match fields_fault(fs) {
                Some(fault) => Some(fault),
                None => match attrs_of(f.attributes@) {
                    Ok(_) => None,
                    Err(fault) => Some(fault),
                },
            }
        }),
        fields_fault(Seq::empty()) is None,
{
    assert(fs.push(f).drop_last() =~= fs);
    assert(fs.push(f).last() == f);
}

/// An enum has an encoder or a decoder exactly if each of its variants can have
/// one, and otherwise the first fault is reported: in a variant's attributes;
/// or, unless the variant is skipped, in those of its named fields, or that a
/// tuple variant of an internally tagged enum has no key for its content.
pub proof fn enum_faults_are_the_first_faults(
    vs: Seq<Variant>,
    v: Variant,
    container: AttrsView,
    to: bool,
)
    ensures
        variants_fault(Seq::empty(), container, to) is None,
        variants_fault(vs.push(v), container, to) == if variants_fault(vs, container, to) is Some {
            variants_fault(vs, container, to)
        } else {
            variant_fault(v, container, to)
        },
        attrs_of(v.attributes@) matches Err(fault) ==> variant_fault(v, container, to) == Some(
            fault,
        ),
        attrs_of(v.attributes@) matches Ok(a) ==> {
            let skipped = a.skip || (to && a.skip_to_term) || (!to && a.skip_from_term);
            &&& skipped || v.fields is Unit ==> variant_fault(v, container, to) is None
            &&& !skipped && v.fields is Unnamed ==> (variant_fault(v, container, to) == Some(
                Fault::ContentRequired,
            ) <==> container.tag is Some && container.content is None)
            &&& !skipped && v.fields is Unnamed && !(container.tag is Some && container.content
                is None) ==> variant_fault(v, container, to) is None
            &&& !skipped && v.fields is Named ==> variant_fault(v, container, to) == fields_fault(
                v.fields->Named_0@,
            )
        },
{
    assert(vs.push(v).drop_last() =~= vs);
    assert(vs.push(v).last() == v);
}

/// A type parameter needs a bound exactly if a path in one of the types starts
/// with it; each is taken up in its turn, behind those before it.
pub proof fn occurring_parameters_are_bounded(params: Seq<Seq<char>>, tys: Seq<TypeUse>, name: Seq<char>)
    ensures
        bounded_params(params, tys).contains(name) <==> params.contains(name) && exists|
            i: int,
            j: int,
        |
            0 <= i < tys.len() && 0 <= j < tys[i].leading@.len() && (
            #[trigger] tys[i].leading@[j])@ == name,
        bounded_params(params.push(name), tys) == if occurs(name, tys) {
            bounded_params(params, tys).push(name)
        } else {
            bounded_params(params, tys)
        },
    decreases params.len(),
{
    assert(params.push(name).drop_last() =~= params);
    assert(params.push(name).last() == name);
    let bounded = bounded_params(params, tys);
    if params.len() > 0 {
        let front = params.drop_last();
        let last = params.last();
        occurring_parameters_are_bounded(front, tys, name);
        let before = bounded_params(front, tys);
        if bounded.contains(name) {
            let k = choose|k: int| 0 <= k < bounded.len() && bounded[k] == name;
            if k < before.len() {
                assert(before[k] == name);
                let i = choose|i: int| 0 <= i < front.len() && front[i] == name;
                assert(params[i] == name);
            } else {
                assert(params[params.len() - 1] == name);
                assert(occurs(name, tys));
            }
        }
        if params.contains(name) && occurs(name, tys) {
            let i = choose|i: int| 0 <= i < params.len() && params[i] == name;
            if i < front.len() {
                assert(front[i] == name);
                let k = choose|k: int| 0 <= k < before.len() && before[k] == name;
                assert(bounded[k] == name);
            } else {
                assert(bounded[bounded.len() - 1] == name);
            }
        }
    }
}

/// The types that must be encodable or decodable are those of the fields that
/// travel under a name; the types whose fields must be are those of the
/// flattened fields; a skipped field asks nothing of its type.
pub proof fn travelling_types_need_codecs(fs: Seq<Field>, f: Field, to: bool)
    ensures
        types_with_role(Seq::empty(), to, Role::Plain).len() == 0,
        types_with_role(Seq::empty(), to, Role::Flatten).len() == 0,
        ({
            let there = if to {
                written(f)
            } else {
                read(f)
            };
            let plain = types_with_role(fs, to, Role::Plain);
            let flat = types_with_role(fs, to, Role::Flatten);
            &&& types_with_role(fs.push(f), to, Role::Plain) == if there && !field_attrs(f).flatten {
                plain.push(f.ty)
            } else {
                plain
            }
            &&& types_with_role(fs.push(f), to, Role::Flatten) == if there && field_attrs(
                f,
            ).flatten {
                flat.push(f.ty)
            } else {
                flat
            }
        }),
{
    assert(fs.push(f).drop_last() =~= fs);
    assert(fs.push(f).last() == f);
}

/// The bounds of derived code are those that the types of its fields ask for.
pub proof fn bounds_come_from_the_fields(
    to: ToPlan,
    from: FromPlan,
    input: Input,
)
    requires
        encoder_of(to, input),
        decoder_of(from, input),
    ensures
        match input.body {
            Body::Struct(Fields::Named(fs)) => {
                &&& texts_view(to.bounded@) == bounded_params(
                    texts_view(input.type_params@),
                    types_with_role(fs@, true, Role::Plain),
                )
                &&& texts_view(from.bounded@) == bounded_params(
                    texts_view(input.type_params@),
                    types_with_role(fs@, false, Role::Plain),
                )
                &&& texts_view(to.predicates@) == type_texts(
                    types_with_role(fs@, true, Role::Flatten),
                )
                &&& texts_view(from.predicates@) == type_texts(
                    types_with_role(fs@, false, Role::Flatten),
                )
            },
            Body::Struct(Fields::Unnamed(tys)) => {
                &&& texts_view(to.bounded@) == bounded_params(
                    texts_view(input.type_params@),
                    tys@,
                )
                &&& texts_view(from.bounded@) == texts_view(to.bounded@)
                &&& to.predicates@.len() == 0 && from.predicates@.len() == 0
            },
            Body::Struct(Fields::Unit) => {
                &&& to.bounded@.len() == 0 && from.bounded@.len() == 0
                &&& to.predicates@.len() == 0 && from.predicates@.len() == 0
            },
            Body::Enum(vs) => {
                &&& texts_view(to.bounded@) == bounded_params(
                    texts_view(input.type_params@),
                    variants_types(vs@, true, Role::Plain),
                )
                &&& texts_view(from.bounded@) == bounded_params(
                    texts_view(input.type_params@),
                    variants_types(vs@, false, Role::Plain),
                )
                &&& texts_view(to.predicates@) == type_texts(
                    variants_types(vs@, true, Role::Flatten),
                )
                &&& texts_view(from.predicates@) == type_texts(
                    variants_types(vs@, false, Role::Flatten),
                )
            },
            Body::Union => false,
        },
{
    match input.body {
        Body::Struct(Fields::Unit) => {
            nothing_bounds_nothing(texts_view(input.type_params@));
            assert(texts_view(to.bounded@).len() == to.bounded@.len());
            assert(texts_view(from.bounded@).len() == from.bounded@.len());
            assert(texts_view(to.predicates@).len() == to.predicates@.len());
            assert(texts_view(from.predicates@).len() == from.predicates@.len());
        },
        Body::Struct(Fields::Unnamed(tys)) => {
            assert(texts_view(to.predicates@).len() == to.predicates@.len());
            assert(texts_view(from.predicates@).len() == from.predicates@.len());
        },
        _ => {},
    }
}

proof fn nothing_bounds_nothing(params: Seq<Seq<char>>)
    ensures
        bounded_params(params, Seq::empty()).len() == 0,
    decreases params.len(),
{
    if params.len() > 0 {
        nothing_bounds_nothing(params.drop_last());
    }
}

/// A variant that is skipped asks nothing of its types; any other asks for
/// those of its tuple, or of its named fields as a struct does.
pub proof fn variant_types_are_those_of_its_fields(vs: Seq<Variant>, v: Variant, to: bool, role: Role)
    ensures
        variants_types(Seq::empty(), to, role).len() == 0,
        variants_types(vs.push(v), to, role) == variants_types(vs, to, role) + variant_types(
            v,
            to,
            role,
        ),
        ({
            let a = variant_attrs(v);
            let skipped = a.skip || (to && a.skip_to_term) || (!to && a.skip_from_term);
            &&& skipped || v.fields is Unit ==> variant_types(v, to, role).len() == 0
            &&& !skipped && v.fields is Unnamed ==> variant_types(v, to, Role::Plain)
                == v.fields->Unnamed_0@ && variant_types(v, to, Role::Flatten).len() == 0
            &&& !skipped && v.fields is Named ==> variant_types(v, to, role) == types_with_role(
                v.fields->Named_0@,
                to,
                role,
            )
        }),
{
    assert(vs.push(v).drop_last() =~= vs);
    assert(vs.push(v).last() == v);
}

/// The first variant of a name that is not skipped for reading is the one that
/// the name stands for.
pub proof fn names_stand_for_the_first_variant(
    vs: Seq<Variant>,
    v: Variant,
    container: AttrsView,
    name: Seq<char>,
    arms: Seq<FromArm>,
    arm: FromArm,
)
    ensures
        first_readable(Seq::empty(), container, name) is None,
        first_readable(vs, container, name) is Some ==> first_readable(
            vs.push(v),
            container,
            name,
        ) == first_readable(vs, container, name),
        first_readable(vs, container, name) is None ==> (first_readable(
            vs.push(v),
            container,
            name,
        ) == Some(vs.len() as int) <==> !variant_attrs(v).skip && !variant_attrs(v).skip_from_term
            && travels_as(name, variant_attrs(v).rename, v.name@, container.rename_all)),
        first_readable(vs, container, name) is None && first_readable(
            vs.push(v),
            container,
            name,
        ) is Some ==> first_readable(vs.push(v), container, name) == Some(vs.len() as int),
        first_arm(Seq::empty(), name) is None,
        first_arm(arms, name) is Some ==> first_arm(arms.push(arm), name) == first_arm(arms, name),
{
    assert(vs.push(v).drop_last() =~= vs);
    assert(vs.push(v).last() == v);
    assert(arms.push(arm).drop_last() =~= arms);
}

} // verus!
