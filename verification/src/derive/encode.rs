//! What a derived encoder does.

use vstd::prelude::*;
use vstd::string::*;

use crate::derive::attrs::{attrs, attrs_of, text_view, Attrs, AttrsView, DeriveError, Fault};
use crate::derive::fields::{
    add_bound, bounded_params, deref_types, field_attrs, field_role, fields_fault,
    fields_fault_stays, role_of, type_texts, types_with_role, variant_fault, variant_skipped,
    variant_types, variants_fault, variants_fault_stays, variants_types, wire_name, wire_text,
    Role,
};
use crate::derive::input::{Body, Field, Fields, Input, TypeUse, Variant};
use crate::derive::rename::{texts_view, RenameRule};

verus! {

/// What an encoder does with one field.
pub enum FieldWrite {
    /// It leaves the field out.
    Skip { name: String },
    /// It writes the fields of the field.
    Flatten { name: String },
    /// It writes the field under a name.
    Put { name: String, wire: String },
}

/// Whether `w` is what an encoder does with field `f`.
pub open spec fn writes_field(w: FieldWrite, f: Field, rule: Option<RenameRule>) -> bool {
    let a = field_attrs(f);
    match role_of(a, true) {
        Role::Skip => w matches FieldWrite::Skip { name } && name@ == f.name@,
        Role::Flatten => w matches FieldWrite::Flatten { name } && name@ == f.name@,
        Role::Plain => w matches FieldWrite::Put { name, wire } && name@ == f.name@ && wire@
            == wire_name(a, f.name@, rule),
    }
}

/// Whether `ws` is what an encoder does with the fields `fs`.
pub open spec fn writes_fields(
    ws: Seq<FieldWrite>,
    fs: Seq<Field>,
    rule: Option<RenameRule>,
) -> bool {
    ws.len() == fs.len() && forall|i: int|
        0 <= i < fs.len() ==> writes_field(#[trigger] ws[i], fs[i], rule)
}

/// What an encoder does with named fields.
pub struct NamedToParts<'a> {
    pub writes: Vec<FieldWrite>,
    /// The types that must be encodable.
    pub tys: Vec<&'a TypeUse>,
    /// The types whose fields must be encodable.
    pub predicates: Vec<String>,
}

/// Works out what an encoder does with named fields.
pub fn named_to_parts<'a>(fields: &'a Vec<Field>, rule: Option<RenameRule>) -> (r: Result<
    NamedToParts<'a>,
    DeriveError,
>)
    ensures
        match r {
            Ok(parts) => {
                &&& fields_fault(fields@) is None
                &&& writes_fields(parts.writes@, fields@, rule)
                &&& deref_types(parts.tys@) == types_with_role(fields@, true, Role::Plain)
                &&& texts_view(parts.predicates@) == type_texts(
                    types_with_role(fields@, true, Role::Flatten),
                )
            },
            Err(e) => fields_fault(fields@) == Some(e@),
        },
{
    let ghost all = fields@;
    let mut writes: Vec<FieldWrite> = Vec::new();
    let mut tys: Vec<&'a TypeUse> = Vec::new();
    let mut predicates: Vec<String> = Vec::new();
    let mut i: usize = 0;
    proof {
        assert(all.take(0) =~= Seq::empty());
        assert(deref_types(tys@) =~= Seq::empty());
        assert(texts_view(predicates@) =~= type_texts(Seq::empty()));
    }
    while i < fields.len()
        invariant
            i <= fields@.len(),
            all == fields@,
            fields_fault(all.take(i as int)) is None,
            writes@.len() == i,
            forall|k: int| 0 <= k < i ==> writes_field(#[trigger] writes@[k], all[k], rule),
            deref_types(tys@) == types_with_role(all.take(i as int), true, Role::Plain),
            texts_view(predicates@) == type_texts(
                types_with_role(all.take(i as int), true, Role::Flatten),
            ),
        decreases fields@.len() - i,
    {
        let field: &'a Field = &fields[i];
        proof {
            assert(all.take(i + 1).drop_last() =~= all.take(i as int));
            assert(all.take(i + 1).last() == *field);
        }
        let a: Attrs = match attrs(&field.attributes) {
            Ok(a) => a,
            Err(error) => {
                proof {
                    fields_fault_stays(all, i + 1);
                }
                return Err(error);
            },
        };
        let ghost tys_before = deref_types(tys@);
        let ghost predicates_before = predicates@;
        let ghost flat = types_with_role(all.take(i as int), true, Role::Flatten);
        match field_role(&a, true) {
            Role::Skip => {
                writes.push(FieldWrite::Skip { name: field.name.clone() });
            },
            Role::Flatten => {
                writes.push(FieldWrite::Flatten { name: field.name.clone() });
                predicates.push(field.ty.text.clone());
                assert(texts_view(predicates@) =~= texts_view(predicates_before).push(
                    field.ty.text@,
                ));
                assert(type_texts(flat.push(field.ty)) =~= type_texts(flat).push(field.ty.text@));
            },
            Role::Plain => {
                let wire: String = wire_text(a, field.name.as_str(), rule);
                writes.push(FieldWrite::Put { name: field.name.clone(), wire });
                tys.push(&field.ty);
                assert(deref_types(tys@) =~= tys_before.push(field.ty));
            },
        }
        i = i + 1;
    }
    assert(all.take(i as int) =~= all);
    Ok(NamedToParts { writes, tys, predicates })
}

/// What an encoder does with a value of one variant.
pub enum ToAction {
    /// It fails: the variant is left out.
    Skipped,
    /// It fails: the variant stands for an absent value.
    Absent,
    /// It writes an atom.
    Atom { wire: String },
    /// It writes the only field in place of the variant.
    Newtype,
    /// It writes the fields as a list.
    List { arity: usize },
    /// It writes the fields as the arguments of a compound term.
    Compound { wire: String, arity: usize },
    /// It writes the fields as a dict.
    Dict { tag: String, writes: Vec<FieldWrite> },
    /// It writes a dict that holds the variant's name.
    TaggedUnit { wire: String },
    /// It writes a dict that holds the variant's name and its fields.
    TaggedInline { wire: String, writes: Vec<FieldWrite> },
    /// It writes a dict that holds the variant's name, and its fields as the
    /// content.
    TaggedDict { wire: String, writes: Vec<FieldWrite> },
    /// It writes a dict that holds the variant's name, and its only field or
    /// the list of its fields as the content.
    TaggedTuple { wire: String, arity: usize },
}

/// Whether `action` is what an encoder does with a value of variant `v`.
pub open spec fn encodes_variant(action: ToAction, v: Variant, container: AttrsView) -> bool {
    let a = attrs_of(v.attributes@)->Ok_0;
    let name = wire_name(a, v.name@, container.rename_all);
    if variant_skipped(v, true) {
        action is Skipped
    } else if container.tag is Some {
        match v.fields {
            Fields::Unit => action matches ToAction::TaggedUnit { wire } && wire@ == name,
            Fields::Named(fields) => if container.content is Some {
                action matches ToAction::TaggedDict { wire, writes } && wire@ == name
                    && writes_fields(writes@, fields@, container.rename_all)
            } else {
                action matches ToAction::TaggedInline { wire, writes } && wire@ == name
                    && writes_fields(writes@, fields@, container.rename_all)
            },
            Fields::Unnamed(tys) => action matches ToAction::TaggedTuple { wire, arity } && wire@
                == name && arity == tys@.len(),
        }
    } else {
        match v.fields {
            Fields::Unit => if container.untagged {
                action is Absent
            } else {
                action matches ToAction::Atom { wire } && wire@ == name
            },
            Fields::Unnamed(tys) => if !container.untagged {
                action matches ToAction::Compound { wire, arity } && wire@ == name && arity
                    == tys@.len()
            } else if tys@.len() == 1 {
                action is Newtype
            } else {
                action matches ToAction::List { arity } && arity == tys@.len()
            },
            Fields::Named(fields) => action matches ToAction::Dict { tag, writes} && tag@ == (
            if container.untagged {
                "#"@
            } else {
                name
            }) && writes_fields(writes@, fields@, container.rename_all),
        }
    }
}

/// What an encoder does with a value of one named variant.
pub struct ToArm {
    pub variant: String,
    pub action: ToAction,
}

/// Whether `arms` are what an encoder does with each variant.
pub open spec fn encodes_variants(
    arms: Seq<ToArm>,
    vs: Seq<Variant>,
    container: AttrsView,
) -> bool {
    arms.len() == vs.len() && forall|i: int|
        0 <= i < vs.len() ==> (#[trigger] arms[i]).variant@ == vs[i].name@ && encodes_variant(
            arms[i].action,
            vs[i],
            container,
        )
}

/// What an encoder does.
pub enum ToBody {
    /// It writes a dict.
    Dict { tag: String, writes: Vec<FieldWrite> },
    /// It writes a compound term.
    Compound { tag: String, arity: usize },
    /// It fails, or leaves the value out where it is a field.
    Absent,
    /// It does what the value's variant says.
    Match(Vec<ToArm>),
}

/// A derived encoder.
pub struct ToPlan {
    /// The type it is for.
    pub name: String,
    /// Where the codec lives, if not in its usual place.
    pub krate: Option<String>,
    /// The dict key of a variant's name, in an internally tagged enum.
    pub tag: Option<String>,
    /// The dict key of a variant's content.
    pub content: Option<String>,
    /// The type parameters that must be encodable.
    pub bounded: Vec<String>,
    /// The types whose fields must be encodable.
    pub predicates: Vec<String>,
    pub body: ToBody,
}

/// What one variant adds to an encoder.
struct VariantToParts<'a> {
    action: ToAction,
    tys: Vec<&'a TypeUse>,
    predicates: Vec<String>,
}

/// Borrows each type.
pub fn borrow_types<'a>(tys: &'a Vec<TypeUse>) -> (r: Vec<&'a TypeUse>)
    ensures
        deref_types(r@) == tys@,
{
    let mut out: Vec<&'a TypeUse> = Vec::new();
    let mut i: usize = 0;
    while i < tys.len()
        invariant
            i <= tys@.len(),
            out@.len() == i,
            forall|k: int| 0 <= k < i ==> *(#[trigger] out@[k]) == tys@[k],
        decreases tys@.len() - i,
    {
        out.push(&tys[i]);
        i = i + 1;
    }
    assert(deref_types(out@) =~= tys@);
    out
}

/// Works out what an encoder does with one variant.
fn variant_to<'a>(v: &'a Variant, container: &Attrs) -> (r: Result<
    VariantToParts<'a>,
    DeriveError,
>)
    ensures
        match r {
            Ok(parts) => {
                &&& variant_fault(*v, container@, true) is None
                &&& encodes_variant(parts.action, *v, container@)
                &&& deref_types(parts.tys@) == variant_types(*v, true, Role::Plain)
                &&& texts_view(parts.predicates@) == type_texts(
                    variant_types(*v, true, Role::Flatten),
                )
            },
            Err(e) => variant_fault(*v, container@, true) == Some(e@),
        },
{
    let a: Attrs = match attrs(&v.attributes) {
        Ok(a) => a,
        Err(error) => {
            return Err(error);
        },
    };
    let none: Vec<&'a TypeUse> = Vec::new();
    let no_texts: Vec<String> = Vec::new();
    proof {
        assert(deref_types(none@) =~= Seq::empty());
        assert(texts_view(no_texts@) =~= type_texts(Seq::empty()));
    }
    match field_role(&a, true) {
        Role::Skip => {
            return Ok(
                VariantToParts { action: ToAction::Skipped, tys: none, predicates: no_texts },
            );
        },
        _ => {},
    }
    let wire: String = wire_text(a, v.name.as_str(), container.rename_all);
    match &v.fields {
        Fields::Unit => {
            let action: ToAction = if container.tag.is_some() {
                ToAction::TaggedUnit { wire }
            } else if container.untagged {
                ToAction::Absent
            } else {
                ToAction::Atom { wire }
            };
            Ok(VariantToParts { action, tys: none, predicates: no_texts })
        },
        Fields::Unnamed(tys) => {
            let arity: usize = tys.len();
            let action: ToAction = if container.tag.is_some() {
                if container.content.is_none() {
                    return Err(DeriveError::ContentRequired);
                }
                ToAction::TaggedTuple { wire, arity }
            } else if !container.untagged {
                ToAction::Compound { wire, arity }
            } else if arity == 1 {
                ToAction::Newtype
            } else {
                ToAction::List { arity }
            };
            Ok(VariantToParts { action, tys: borrow_types(tys), predicates: no_texts })
        },
        Fields::Named(fields) => {
            let parts: NamedToParts<'a> = match named_to_parts(fields, container.rename_all) {
                Ok(parts) => parts,
                Err(error) => {
                    return Err(error);
                },
            };
            let writes: Vec<FieldWrite> = parts.writes;
            let action: ToAction = if container.tag.is_some() {
                if container.content.is_some() {
                    ToAction::TaggedDict { wire, writes }
                } else {
                    ToAction::TaggedInline { wire, writes }
                }
            } else if container.untagged {
                ToAction::Dict { tag: "#".to_owned(), writes }
            } else {
                ToAction::Dict { tag: wire, writes }
            };
            Ok(VariantToParts { action, tys: parts.tys, predicates: parts.predicates })
        },
    }
}

/// Appends the second to the first.
pub fn append_types<'a>(tys: &mut Vec<&'a TypeUse>, more: Vec<&'a TypeUse>)
    ensures
        deref_types(final(tys)@) == deref_types(old(tys)@) + deref_types(more@),
{
    let mut rest: Vec<&'a TypeUse> = more;
    tys.append(&mut rest);
    assert(deref_types(tys@) =~= deref_types(old(tys)@) + deref_types(more@));
}

/// Appends the second to the first.
pub fn append_texts(texts: &mut Vec<String>, more: Vec<String>)
    ensures
        texts_view(final(texts)@) == texts_view(old(texts)@) + texts_view(more@),
{
    let mut rest: Vec<String> = more;
    texts.append(&mut rest);
    assert(texts_view(texts@) =~= texts_view(old(texts)@) + texts_view(more@));
}

/// Copies an optional text.
pub fn copy_text(text: &Option<String>) -> (r: Option<String>)
    ensures
        text_view(r) == text_view(*text),
        r is Some == text is Some,
{
    match text {
        Some(s) => Some(s.clone()),
        None => None,
    }
}

/// Whether `plan` is the encoder of a type with these attributes: its name,
/// where the codec lives, the keys of an internally tagged enum, and the
/// bounds that follow from the types of its fields.
pub open spec fn encoder_frame(
    plan: ToPlan,
    input: Input,
    container: AttrsView,
    plain: Seq<TypeUse>,
    flat: Seq<TypeUse>,
) -> bool {
    &&& plan.name@ == input.name@
    &&& text_view(plan.krate) == container.crate_path
    &&& text_view(plan.tag) == container.tag
    &&& text_view(plan.content) == container.content
    &&& texts_view(plan.bounded@) == bounded_params(texts_view(input.type_params@), plain)
    &&& texts_view(plan.predicates@) == type_texts(flat)
}

/// The tag of a struct: the name it is given, or else its own.
pub open spec fn struct_tag(container: AttrsView, name: Seq<char>) -> Seq<char> {
    match container.rename {
        Some(text) => text,
        None => name,
    }
}

/// Works out [`struct_tag`].
pub fn struct_tag_text(container: &Attrs, name: &String) -> (r: String)
    ensures
        r@ == struct_tag(container@, name@),
{
    match &container.rename {
        Some(text) => text.clone(),
        None => name.clone(),
    }
}

/// The fault of a struct's fields, if they have one.
pub open spec fn struct_fault(fields: Fields) -> Option<Fault> {
    match fields {
        Fields::Named(fs) => fields_fault(fs@),
        _ => None,
    }
}

/// Whether `plan` is the encoder of a struct with these fields.
pub open spec fn encodes_struct(
    plan: ToPlan,
    input: Input,
    container: AttrsView,
    fields: Fields,
) -> bool {
    match fields {
        Fields::Named(fs) => {
            &&& encoder_frame(
                plan,
                input,
                container,
                types_with_role(fs@, true, Role::Plain),
                types_with_role(fs@, true, Role::Flatten),
            )
            &&& plan.body matches ToBody::Dict { tag, writes } && tag@ == struct_tag(
                container,
                input.name@,
            ) && writes_fields(writes@, fs@, container.rename_all)
        },
        Fields::Unnamed(tys) => {
            &&& encoder_frame(plan, input, container, tys@, Seq::empty())
            &&& plan.body matches ToBody::Compound { tag, arity } && tag@ == struct_tag(
                container,
                input.name@,
            ) && arity == tys@.len()
        },
        Fields::Unit => {
            &&& encoder_frame(plan, input, container, Seq::empty(), Seq::empty())
            &&& plan.body is Absent
        },
    }
}

/// Works out the encoder of a struct.
fn struct_to(input: &Input, fields: &Fields, container: &Attrs) -> (r: Result<ToPlan, DeriveError>)
    ensures
        match r {
            Ok(plan) => struct_fault(*fields) is None && encodes_struct(
                plan,
                *input,
                container@,
                *fields,
            ),
            Err(e) => struct_fault(*fields) == Some(e@),
        },
{
    let tag: String = struct_tag_text(container, &input.name);
    let name: String = input.name.clone();
    let krate: Option<String> = copy_text(&container.crate_path);
    let variant_tag: Option<String> = copy_text(&container.tag);
    let content: Option<String> = copy_text(&container.content);
    match fields {
        Fields::Named(fs) => {
            let parts: NamedToParts<'_> = match named_to_parts(fs, container.rename_all) {
                Ok(parts) => parts,
                Err(error) => {
                    return Err(error);
                },
            };
            let bounded: Vec<String> = add_bound(&input.type_params, &parts.tys);
            Ok(
                ToPlan {
                    name,
                    krate,
                    tag: variant_tag,
                    content,
                    bounded,
                    predicates: parts.predicates,
                    body: ToBody::Dict { tag, writes: parts.writes },
                },
            )
        },
        Fields::Unnamed(tys) => {
            let bounded: Vec<String> = add_bound(&input.type_params, &borrow_types(tys));
            let predicates: Vec<String> = Vec::new();
            assert(texts_view(predicates@) =~= type_texts(Seq::empty()));
            Ok(
                ToPlan {
                    name,
                    krate,
                    tag: variant_tag,
                    content,
                    bounded,
                    predicates,
                    body: ToBody::Compound { tag, arity: tys.len() },
                },
            )
        },
        Fields::Unit => {
            let none: Vec<&TypeUse> = Vec::new();
            let bounded: Vec<String> = add_bound(&input.type_params, &none);
            let predicates: Vec<String> = Vec::new();
            assert(deref_types(none@) =~= Seq::empty());
            assert(texts_view(predicates@) =~= type_texts(Seq::empty()));
            Ok(
                ToPlan {
                    name,
                    krate,
                    tag: variant_tag,
                    content,
                    bounded,
                    predicates,
                    body: ToBody::Absent,
                },
            )
        },
    }
}

/// Works out the encoder of an enum.
fn enum_to(input: &Input, variants: &Vec<Variant>, container: &Attrs) -> (r: Result<
    ToPlan,
    DeriveError,
>)
    ensures
        match r {
            Ok(plan) => {
                &&& variants_fault(variants@, container@, true) is None
                &&& encoder_frame(
                    plan,
                    *input,
                    container@,
                    variants_types(variants@, true, Role::Plain),
                    variants_types(variants@, true, Role::Flatten),
                )
                &&& plan.body matches ToBody::Match(arms) && encodes_variants(
                    arms@,
                    variants@,
                    container@,
                )
            },
            Err(e) => variants_fault(variants@, container@, true) == Some(e@),
        },
{
    let ghost all = variants@;
    let mut tys: Vec<&TypeUse> = Vec::new();
    let mut predicates: Vec<String> = Vec::new();
    let mut arms: Vec<ToArm> = Vec::new();
    let mut i: usize = 0;
    proof {
        assert(all.take(0) =~= Seq::empty());
        assert(deref_types(tys@) =~= Seq::empty());
        assert(texts_view(predicates@) =~= type_texts(Seq::empty()));
    }
    while i < variants.len()
        invariant
            i <= variants@.len(),
            all == variants@,
            variants_fault(all.take(i as int), container@, true) is None,
            arms@.len() == i,
            forall|k: int|
                0 <= k < i ==> (#[trigger] arms@[k]).variant@ == all[k].name@ && encodes_variant(
                    arms@[k].action,
                    all[k],
                    container@,
                ),
            deref_types(tys@) == variants_types(all.take(i as int), true, Role::Plain),
            texts_view(predicates@) == type_texts(
                variants_types(all.take(i as int), true, Role::Flatten),
            ),
        decreases variants@.len() - i,
    {
        let v: &Variant = &variants[i];
        proof {
            assert(all.take(i + 1).drop_last() =~= all.take(i as int));
            assert(all.take(i + 1).last() == *v);
        }
        let parts: VariantToParts<'_> = match variant_to(v, container) {
            Ok(parts) => parts,
            Err(error) => {
                proof {
                    variants_fault_stays(all, container@, true, i + 1);
                }
                return Err(error);
            },
        };
        append_types(&mut tys, parts.tys);
        append_texts(&mut predicates, parts.predicates);
        arms.push(ToArm { variant: v.name.clone(), action: parts.action });
        proof {
            let flat = variants_types(all.take(i as int), true, Role::Flatten);
            let more = variant_types(*v, true, Role::Flatten);
            assert(type_texts(flat + more) =~= type_texts(flat) + type_texts(more));
        }
        i = i + 1;
    }
    assert(all.take(i as int) =~= all);
    let bounded: Vec<String> = add_bound(&input.type_params, &tys);
    Ok(
        ToPlan {
            name: input.name.clone(),
            krate: copy_text(&container.crate_path),
            tag: copy_text(&container.tag),
            content: copy_text(&container.content),
            bounded,
            predicates,
            body: ToBody::Match(arms),
        },
    )
}

/// The fault of a type, if an encoder cannot be derived for it.
pub open spec fn encoder_fault(input: Input) -> Option<Fault> {
    match attrs_of(input.attributes@) {
        Err(fault) => Some(fault),
        Ok(container) => match input.body {
            Body::Struct(fields) => struct_fault(fields),
            Body::Enum(vs) => variants_fault(vs@, container, true),
            Body::Union => Some(Fault::ToUnion),
        },
    }
}

/// Whether `plan` is the encoder of `input`.
pub open spec fn encoder_of(plan: ToPlan, input: Input) -> bool {
    let container = attrs_of(input.attributes@)->Ok_0;
    match input.body {
        Body::Struct(fields) => encodes_struct(plan, input, container, fields),
        Body::Enum(vs) => {
            &&& encoder_frame(
                plan,
                input,
                container,
                variants_types(vs@, true, Role::Plain),
                variants_types(vs@, true, Role::Flatten),
            )
            &&& plan.body matches ToBody::Match(arms) && encodes_variants(
                arms@,
                vs@,
                container,
            )
        },
        Body::Union => false,
    }
}

/// Works out the encoder of a type.
pub fn expand_to(input: &Input) -> (r: Result<ToPlan, DeriveError>)
    ensures
        match r {
            Ok(plan) => encoder_fault(*input) is None && encoder_of(plan, *input),
            Err(e) => encoder_fault(*input) == Some(e@),
        },
{
    let container: Attrs = match attrs(&input.attributes) {
        Ok(a) => a,
        Err(error) => {
            return Err(error);
        },
    };
    match &input.body {
        Body::Struct(fields) => struct_to(input, fields, &container),
        Body::Enum(variants) => enum_to(input, variants, &container),
        Body::Union => Err(DeriveError::ToUnion),
    }
}

} // verus!
