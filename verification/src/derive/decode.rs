//! What a derived decoder does.

use vstd::prelude::*;
use vstd::string::*;

use crate::codec::steps::first_named;
use crate::derive::attrs::{attrs, attrs_of, text_view, Attrs, AttrsView, DeriveError, Fault};
use crate::derive::encode::{
    append_texts, append_types, borrow_types, copy_text, struct_fault, struct_tag, struct_tag_text,
};
use crate::derive::fields::{
    add_bound, bounded_params, deref_types, field_attrs, field_role, fields_fault,
    fields_fault_stays, role_of, type_texts, types_with_role, variant_fault, variant_skipped,
    variant_types, variants_fault, variants_fault_stays, variants_types, wire_name, wire_text,
    Role,
};
use crate::derive::input::{Body, Field, Fields, Input, TypeUse, Variant};
use crate::derive::rename::{rename, texts_view};

verus! {

/// What a decoder does for a field that is missing.
pub enum Missing {
    /// It calls the function with this path.
    Call(String),
    /// It takes the default of the field's type.
    Default,
    /// It leaves it to the field's type.
    Ask,
}

/// Where a decoder takes a field from.
pub enum ReadSource {
    /// The default of its type.
    Default,
    /// All fields that are there.
    Flatten,
    /// The field with this name.
    Wire { wire: String, missing: Missing },
}

/// What a decoder does for one field.
pub struct FieldRead {
    pub name: String,
    pub source: ReadSource,
}

/// Whether `missing` is what a decoder does where a field with attributes `a`
/// is missing. A container's default counts where `inherits` is set.
pub open spec fn fills(
    missing: Missing,
    a: AttrsView,
    container: AttrsView,
    inherits: bool,
) -> bool {
    match a.default {
        Some(Some(path)) => missing matches Missing::Call(text) && text@ == path,
        Some(None) => missing is Default,
        None => if inherits && container.default is Some {
            missing is Default
        } else {
            missing is Ask
        },
    }
}

/// Whether `rd` is what a decoder does for field `f`.
pub open spec fn reads_field(
    rd: FieldRead,
    f: Field,
    container: AttrsView,
    inherits: bool,
) -> bool {
    let a = field_attrs(f);
    &&& rd.name@ == f.name@
    &&& match role_of(a, false) {
        Role::Skip => rd.source is Default,
        Role::Flatten => rd.source is Flatten,
        Role::Plain => rd.source matches ReadSource::Wire { wire, missing } && wire@ == wire_name(
            a,
            f.name@,
            container.rename_all,
        ) && fills(missing, a, container, inherits),
    }
}

/// Whether `rs` is what a decoder does for the fields `fs`.
pub open spec fn reads_fields(
    rs: Seq<FieldRead>,
    fs: Seq<Field>,
    container: AttrsView,
    inherits: bool,
) -> bool {
    rs.len() == fs.len() && forall|i: int|
        0 <= i < fs.len() ==> reads_field(#[trigger] rs[i], fs[i], container, inherits)
}

/// What a decoder does for named fields.
pub struct NamedFromParts<'a> {
    pub reads: Vec<FieldRead>,
    /// The types that must be decodable.
    pub tys: Vec<&'a TypeUse>,
    /// The types whose fields must be decodable.
    pub predicates: Vec<String>,
}

/// Works out what a decoder does where a field is missing.
fn missing_of(default: Option<Option<String>>, container: &Attrs, inherits: bool) -> (r: Missing)
    ensures
        forall|a: AttrsView|
            a.default == (match default {
                Some(path) => Some(text_view(path)),
                None => None,
            }) ==> #[trigger] fills(r, a, container@, inherits),
{
    match default {
        Some(Some(path)) => Missing::Call(path),
        Some(None) => Missing::Default,
        None => {
            if inherits && container.default.is_some() {
                Missing::Default
            } else {
                Missing::Ask
            }
        },
    }
}

/// Works out where a decoder takes a field of its own from.
fn plain_source(a: Attrs, name: &str, container: &Attrs, inherits: bool) -> (r: ReadSource)
    ensures
        r matches ReadSource::Wire { wire, missing } && wire@ == wire_name(
            a@,
            name@,
            container@.rename_all,
        ) && fills(missing, a@, container@, inherits),
{
    let wire: String = match a.rename {
        Some(text) => text,
        None => rename(name, container.rename_all),
    };
    let missing: Missing = missing_of(a.default, container, inherits);
    ReadSource::Wire { wire, missing }
}

/// Works out what a decoder does for named fields.
pub fn named_from_parts<'a>(fields: &'a Vec<Field>, container: &Attrs, inherits: bool) -> (r: Result<
    NamedFromParts<'a>,
    DeriveError,
>)
    ensures
        match r {
            Ok(parts) => {
                &&& fields_fault(fields@) is None
                &&& reads_fields(parts.reads@, fields@, container@, inherits)
                &&& deref_types(parts.tys@) == types_with_role(fields@, false, Role::Plain)
                &&& texts_view(parts.predicates@) == type_texts(
                    types_with_role(fields@, false, Role::Flatten),
                )
            },
            Err(e) => fields_fault(fields@) == Some(e@),
        },
{
    let ghost all = fields@;
    let mut reads: Vec<FieldRead> = Vec::new();
    let mut tys: Vec<&'a TypeUse> = Vec::new();
    let mut predicates: Vec<String> = Vec::new();
    let mut i: usize = 0;
    proof {
        assert(all.take(0) =~= Seq::empty());
        assert(deref_types(tys@) =~= Seq::empty());
        assert(texts_view(predicates@) =~= type_texts(Seq::empty()));
    }
    while i < fields.len()
        invariant
            i <= fields@.len(),
            all == fields@,
            fields_fault(all.take(i as int)) is None,
            reads@.len() == i,
            forall|k: int|
                0 <= k < i ==> reads_field(#[trigger] reads@[k], all[k], container@, inherits),
            deref_types(tys@) == types_with_role(all.take(i as int), false, Role::Plain),
            texts_view(predicates@) == type_texts(
                types_with_role(all.take(i as int), false, Role::Flatten),
            ),
        decreases fields@.len() - i,
    {
        let field: &'a Field = &fields[i];
        proof {
            assert(all.take(i + 1).drop_last() =~= all.take(i as int));
            assert(all.take(i + 1).last() == *field);
        }
        let a: Attrs = match attrs(&field.attributes) {
            Ok(a) => a,
            Err(error) => {
                proof {
                    fields_fault_stays(all, i + 1);
                }
                return Err(error);
            },
        };
        let ghost tys_before = deref_types(tys@);
        let ghost predicates_before = predicates@;
        let ghost flat = types_with_role(all.take(i as int), false, Role::Flatten);
        let name: String = field.name.clone();
        match field_role(&a, false) {
            Role::Skip => {
                reads.push(FieldRead { name, source: ReadSource::Default });
            },
            Role::Flatten => {
                reads.push(FieldRead { name, source: ReadSource::Flatten });
                predicates.push(field.ty.text.clone());
                assert(texts_view(predicates@) =~= texts_view(predicates_before).push(
                    field.ty.text@,
                ));
                assert(type_texts(flat.push(field.ty)) =~= type_texts(flat).push(field.ty.text@));
            },
            Role::Plain => {
                let source: ReadSource = plain_source(a, field.name.as_str(), container, inherits);
                reads.push(FieldRead { name, source });
                tys.push(&field.ty);
                assert(deref_types(tys@) =~= tys_before.push(field.ty));
            },
        }
        i = i + 1;
    }
    assert(all.take(i as int) =~= all);
    Ok(NamedFromParts { reads, tys, predicates })
}

/// How a decoder recognizes and reads one variant.
pub enum FromAction {
    /// The term is this atom.
    Atom { wire: String },
    /// The term decodes as the only field.
    Newtype,
    /// The term is a list of this many elements that decode as the fields.
    List { arity: usize },
    /// The term is a compound with this name and arity.
    Compound { wire: String, arity: usize },
    /// The term is an untagged dict whose entries decode as the fields.
    TryDict { reads: Vec<FieldRead> },
    /// The term is a dict with this tag.
    Dict { tag: String, reads: Vec<FieldRead> },
    /// The dict names this variant, which has no fields.
    TaggedUnit { wire: String },
    /// The dict names this variant and holds its fields.
    TaggedInline { wire: String, reads: Vec<FieldRead> },
    /// The dict names this variant and holds a dict of its fields.
    TaggedDict { wire: String, reads: Vec<FieldRead> },
    /// The dict names this variant and holds its only field.
    TaggedNewtype { wire: String },
    /// The dict names this variant and holds a list of its fields.
    TaggedTuple { wire: String, arity: usize },
}

/// Whether a decoder can yield variant `v`.
pub open spec fn decodable(v: Variant, container: AttrsView) -> bool {
    !variant_skipped(v, false) && !(v.fields is Unit && container.untagged && container.tag is None)
}

/// Whether `action` is how a decoder recognizes and reads variant `v`.
pub open spec fn decodes_variant(action: FromAction, v: Variant, container: AttrsView) -> bool {
    let a = attrs_of(v.attributes@)->Ok_0;
    let name = wire_name(a, v.name@, container.rename_all);
    if container.tag is Some {
        match v.fields {
            Fields::Unit => action matches FromAction::TaggedUnit { wire } && wire@ == name,
            Fields::Named(fields) => if container.content is Some {
                action matches FromAction::TaggedDict { wire, reads } && wire@ == name
                    && reads_fields(reads@, fields@, container, false)
            } else {
                action matches FromAction::TaggedInline { wire, reads } && wire@ == name
                    && reads_fields(reads@, fields@, container, false)
            },
            Fields::Unnamed(tys) => if tys@.len() == 1 {
                action matches FromAction::TaggedNewtype { wire } && wire@ == name
            } else {
                action matches FromAction::TaggedTuple { wire, arity } && wire@ == name && arity
                    == tys@.len()
            },
        }
    } else {
        match v.fields {
            Fields::Unit => action matches FromAction::Atom { wire } && wire@ == name,
            Fields::Unnamed(tys) => if !container.untagged {
                action matches FromAction::Compound { wire, arity } && wire@ == name && arity
                    == tys@.len()
            } else if tys@.len() == 1 {
                action is Newtype
            } else {
                action matches FromAction::List { arity } && arity == tys@.len()
            },
            Fields::Named(fields) => if container.untagged {
                action matches FromAction::TryDict { reads } && reads_fields(
                    reads@,
                    fields@,
                    container,
                    false,
                )
            } else {
                action matches FromAction::Dict { tag, reads } && tag@ == name && reads_fields(
                    reads@,
                    fields@,
                    container,
                    false,
                )
            },
        }
    }
}

/// How a decoder recognizes and reads one named variant.
pub struct FromArm {
    pub variant: String,
    pub action: FromAction,
}

/// Whether `arms` are how a decoder recognizes and reads the variants it can
/// yield, in order.
pub open spec fn decodes_variants(
    arms: Seq<FromArm>,
    vs: Seq<Variant>,
    container: AttrsView,
) -> bool
    decreases vs.len(),
{
    if vs.len() == 0 {
        arms.len() == 0
    } else if decodable(vs.last(), container) {
        &&& arms.len() > 0
        &&& arms.last().variant@ == vs.last().name@
        &&& decodes_variant(arms.last().action, vs.last(), container)
        &&& decodes_variants(arms.drop_last(), vs.drop_last(), container)
    } else {
        decodes_variants(arms, vs.drop_last(), container)
    }
}

/// What a decoder does.
pub enum FromBody {
    /// It reads a dict with this tag.
    Dict { tag: String, reads: Vec<FieldRead> },
    /// It reads a compound term with this name and arity.
    Compound { tag: String, arity: usize },
    /// It fails, or takes the value as given where it is a field.
    Absent,
    /// It tries the variants in order.
    Attempts(Vec<FromArm>),
    /// It reads a dict that names a variant.
    Tagged(Vec<FromArm>),
}

/// A derived decoder.
pub struct FromPlan {
    /// The type it is for.
    pub name: String,
    /// Where the codec lives, if not in its usual place.
    pub krate: Option<String>,
    /// The dict key of a variant's name, in an internally tagged enum.
    pub tag: Option<String>,
    /// The dict key of a variant's content.
    pub content: Option<String>,
    /// The type parameters that must be decodable.
    pub bounded: Vec<String>,
    /// The types whose fields must be decodable.
    pub predicates: Vec<String>,
    pub body: FromBody,
}

/// What one variant adds to a decoder.
struct VariantFromParts<'a> {
    action: Option<FromAction>,
    tys: Vec<&'a TypeUse>,
    predicates: Vec<String>,
}

/// Works out how a decoder recognizes and reads one variant.
fn variant_from<'a>(v: &'a Variant, container: &Attrs) -> (r: Result<
    VariantFromParts<'a>,
    DeriveError,
>)
    ensures
        match r {
            Ok(parts) => {
                &&& variant_fault(*v, container@, false) is None
                &&& match parts.action {
                    Some(action) => decodable(*v, container@) && decodes_variant(
                        action,
                        *v,
                        container@,
                    ),
                    None => !decodable(*v, container@),
                }
                &&& deref_types(parts.tys@) == variant_types(*v, false, Role::Plain)
                &&& texts_view(parts.predicates@) == type_texts(
                    variant_types(*v, false, Role::Flatten),
                )
            },
            Err(e) => variant_fault(*v, container@, false) == Some(e@),
        },
{
    let a: Attrs = match attrs(&v.attributes) {
        Ok(a) => a,
        Err(error) => {
            return Err(error);
        },
    };
    let none: Vec<&'a TypeUse> = Vec::new();
    let no_texts: Vec<String> = Vec::new();
    proof {
        assert(deref_types(none@) =~= Seq::empty());
        assert(texts_view(no_texts@) =~= type_texts(Seq::empty()));
    }
    match field_role(&a, false) {
        Role::Skip => {
            return Ok(VariantFromParts { action: None, tys: none, predicates: no_texts });
        },
        _ => {},
    }
    let wire: String = wire_text(a, v.name.as_str(), container.rename_all);
    match &v.fields {
        Fields::Unit => {
            let action: Option<FromAction> = if container.tag.is_some() {
                Some(FromAction::TaggedUnit { wire })
            } else if container.untagged {
                None
            } else {
                Some(FromAction::Atom { wire })
            };
            Ok(VariantFromParts { action, tys: none, predicates: no_texts })
        },
        Fields::Unnamed(tys) => {
            let arity: usize = tys.len();
            let action: FromAction = if container.tag.is_some() {
                if container.content.is_none() {
                    return Err(DeriveError::ContentRequired);
                }
                if arity == 1 {
                    FromAction::TaggedNewtype { wire }
                } else {
                    FromAction::TaggedTuple { wire, arity }
                }
            } else if !container.untagged {
                FromAction::Compound { wire, arity }
            } else if arity == 1 {
                FromAction::Newtype
            } else {
                FromAction::List { arity }
            };
            Ok(
                VariantFromParts {
                    action: Some(action),
                    tys: borrow_types(tys),
                    predicates: no_texts,
                },
            )
        },
        Fields::Named(fields) => {
            let parts: NamedFromParts<'a> = match named_from_parts(fields, container, false) {
                Ok(parts) => parts,
                Err(error) => {
                    return Err(error);
                },
            };
            let reads: Vec<FieldRead> = parts.reads;
            let action: FromAction = if container.tag.is_some() {
                if container.content.is_some() {
                    FromAction::TaggedDict { wire, reads }
                } else {
                    FromAction::TaggedInline { wire, reads }
                }
            } else if container.untagged {
                FromAction::TryDict { reads }
            } else {
                FromAction::Dict { tag: wire, reads }
            };
            Ok(
                VariantFromParts {
                    action: Some(action),
                    tys: parts.tys,
                    predicates: parts.predicates,
                },
            )
        },
    }
}

/// Whether `plan` is the decoder of a type with these attributes: its name,
/// where the codec lives, the keys of an internally tagged enum, and the
/// bounds that follow from the types of its fields.
pub open spec fn decoder_frame(
    plan: FromPlan,
    input: Input,
    container: AttrsView,
    plain: Seq<TypeUse>,
    flat: Seq<TypeUse>,
) -> bool {
    &&& plan.name@ == input.name@
    &&& text_view(plan.krate) == container.crate_path
    &&& text_view(plan.tag) == container.tag
    &&& text_view(plan.content) == container.content
    &&& texts_view(plan.bounded@) == bounded_params(texts_view(input.type_params@), plain)
    &&& texts_view(plan.predicates@) == type_texts(flat)
}

/// Whether `plan` is the decoder of a struct with these fields.
pub open spec fn decodes_struct(
    plan: FromPlan,
    input: Input,
    container: AttrsView,
    fields: Fields,
) -> bool {
    match fields {
        Fields::Named(fs) => {
            &&& decoder_frame(
                plan,
                input,
                container,
                types_with_role(fs@, false, Role::Plain),
                types_with_role(fs@, false, Role::Flatten),
            )
            &&& plan.body matches FromBody::Dict { tag, reads } && tag@ == struct_tag(
                container,
                input.name@,
            ) && reads_fields(reads@, fs@, container, true)
        },
        Fields::Unnamed(tys) => {
            &&& decoder_frame(plan, input, container, tys@, Seq::empty())
            &&& plan.body matches FromBody::Compound { tag, arity } && tag@ == struct_tag(
                container,
                input.name@,
            ) && arity == tys@.len()
        },
        Fields::Unit => {
            &&& decoder_frame(plan, input, container, Seq::empty(), Seq::empty())
            &&& plan.body is Absent
        },
    }
}

/// The fault of a struct, if a decoder cannot be derived for it: its own
/// default takes no function path.
pub open spec fn struct_from_fault(container: AttrsView, fields: Fields) -> Option<Fault> {
    if container.default matches Some(Some(path)) {
        Some(Fault::ContainerDefaultPath)
    } else {
        struct_fault(fields)
    }
}

/// Works out the decoder of a struct.
fn struct_from(input: &Input, fields: &Fields, container: &Attrs) -> (r: Result<
    FromPlan,
    DeriveError,
>)
    ensures
        match r {
            Ok(plan) => struct_from_fault(container@, *fields) is None && decodes_struct(
                plan,
                *input,
                container@,
                *fields,
            ),
            Err(e) => struct_from_fault(container@, *fields) == Some(e@),
        },
{
    if let Some(Some(_)) = &container.default {
        return Err(DeriveError::ContainerDefaultPath);
    }
    let tag: String = struct_tag_text(container, &input.name);
    let name: String = input.name.clone();
    let krate: Option<String> = copy_text(&container.crate_path);
    let variant_tag: Option<String> = copy_text(&container.tag);
    let content: Option<String> = copy_text(&container.content);
    match fields {
        Fields::Named(fs) => {
            let parts: NamedFromParts<'_> = match named_from_parts(fs, container, true) {
                Ok(parts) => parts,
                Err(error) => {
                    return Err(error);
                },
            };
            let bounded: Vec<String> = add_bound(&input.type_params, &parts.tys);
            Ok(
                FromPlan {
                    name,
                    krate,
                    tag: variant_tag,
                    content,
                    bounded,
                    predicates: parts.predicates,
                    body: FromBody::Dict { tag, reads: parts.reads },
                },
            )
        },
        Fields::Unnamed(tys) => {
            let bounded: Vec<String> = add_bound(&input.type_params, &borrow_types(tys));
            let predicates: Vec<String> = Vec::new();
            assert(texts_view(predicates@) =~= type_texts(Seq::empty()));
            Ok(
                FromPlan {
                    name,
                    krate,
                    tag: variant_tag,
                    content,
                    bounded,
                    predicates,
                    body: FromBody::Compound { tag, arity: tys.len() },
                },
            )
        },
        Fields::Unit => {
            let none: Vec<&TypeUse> = Vec::new();
            let bounded: Vec<String> = add_bound(&input.type_params, &none);
            let predicates: Vec<String> = Vec::new();
            assert(deref_types(none@) =~= Seq::empty());
            assert(texts_view(predicates@) =~= type_texts(Seq::empty()));
            Ok(
                FromPlan {
                    name,
                    krate,
                    tag: variant_tag,
                    content,
                    bounded,
                    predicates,
                    body: FromBody::Absent,
                },
            )
        },
    }
}

/// Works out the decoder of an enum.
fn enum_from(input: &Input, variants: &Vec<Variant>, container: &Attrs) -> (r: Result<
    FromPlan,
    DeriveError,
>)
    ensures
        match r {
            Ok(plan) => variants_fault(variants@, container@, false) is None && decodes_enum(
                plan,
                *input,
                container@,
                variants@,
            ),
            Err(e) => variants_fault(variants@, container@, false) == Some(e@),
        },
{
    let ghost all = variants@;
    let mut tys: Vec<&TypeUse> = Vec::new();
    let mut predicates: Vec<String> = Vec::new();
    let mut arms: Vec<FromArm> = Vec::new();
    let mut i: usize = 0;
    proof {
        assert(all.take(0) =~= Seq::empty());
        assert(deref_types(tys@) =~= Seq::empty());
        assert(texts_view(predicates@) =~= type_texts(Seq::empty()));
    }
    while i < variants.len()
        invariant
            i <= variants@.len(),
            all == variants@,
            variants_fault(all.take(i as int), container@, false) is None,
            decodes_variants(arms@, all.take(i as int), container@),
            deref_types(tys@) == variants_types(all.take(i as int), false, Role::Plain),
            texts_view(predicates@) == type_texts(
                variants_types(all.take(i as int), false, Role::Flatten),
            ),
        decreases variants@.len() - i,
    {
        let v: &Variant = &variants[i];
        proof {
            assert(all.take(i + 1).drop_last() =~= all.take(i as int));
            assert(all.take(i + 1).last() == *v);
        }
        let parts: VariantFromParts<'_> = match variant_from(v, container) {
            Ok(parts) => parts,
            Err(error) => {
                proof {
                    variants_fault_stays(all, container@, false, i + 1);
                }
                return Err(error);
            },
        };
        append_types(&mut tys, parts.tys);
        append_texts(&mut predicates, parts.predicates);
        let ghost before = arms@;
        match parts.action {
            Some(action) => {
                arms.push(FromArm { variant: v.name.clone(), action });
                assert(arms@.drop_last() =~= before);
            },
            None => {},
        }
        proof {
            let flat = variants_types(all.take(i as int), false, Role::Flatten);
            let more = variant_types(*v, false, Role::Flatten);
            assert(type_texts(flat + more) =~= type_texts(flat) + type_texts(more));
        }
        i = i + 1;
    }
    assert(all.take(i as int) =~= all);
    let bounded: Vec<String> = add_bound(&input.type_params, &tys);
    let body: FromBody = if container.tag.is_some() {
        FromBody::Tagged(arms)
    } else {
        FromBody::Attempts(arms)
    };
    Ok(
        FromPlan {
            name: input.name.clone(),
            krate: copy_text(&container.crate_path),
            tag: copy_text(&container.tag),
            content: copy_text(&container.content),
            bounded,
            predicates,
            body,
        },
    )
}

/// Whether `plan` is the decoder of an enum with these variants.
pub open spec fn decodes_enum(
    plan: FromPlan,
    input: Input,
    container: AttrsView,
    vs: Seq<Variant>,
) -> bool {
    &&& decoder_frame(
        plan,
        input,
        container,
        variants_types(vs, false, Role::Plain),
        variants_types(vs, false, Role::Flatten),
    )
    &&& if container.tag is Some {
        plan.body matches FromBody::Tagged(arms) && decodes_variants(arms@, vs, container)
    } else {
        plan.body matches FromBody::Attempts(arms) && decodes_variants(arms@, vs, container)
    }
}

/// The name under which an internally tagged dict names an arm's variant.
pub open spec fn arm_wire(arm: FromArm) -> Seq<char> {
    match arm.action {
        FromAction::TaggedUnit { wire } => wire@,
        FromAction::TaggedInline { wire, reads } => wire@,
        FromAction::TaggedDict { wire, reads } => wire@,
        FromAction::TaggedNewtype { wire } => wire@,
        FromAction::TaggedTuple { wire, arity } => wire@,
        _ => Seq::empty(),
    }
}

/// The first arm whose variant is named `name`.
pub open spec fn first_arm(arms: Seq<FromArm>, name: Seq<char>) -> Option<int>
    decreases arms.len(),
{
    if arms.len() == 0 {
        None
    } else {
        match first_arm(arms.drop_last(), name) {
            Some(i) => Some(i),
            None => if arm_wire(arms.last()) == name {
                Some(arms.len() - 1)
            } else {
                None
            },
        }
    }
}

/// The first variant that is not skipped for reading and has this wire name.
pub open spec fn first_readable(vs: Seq<Variant>, container: AttrsView, name: Seq<char>) -> Option<
    int,
>
    decreases vs.len(),
{
    if vs.len() == 0 {
        None
    } else {
        match first_readable(vs.drop_last(), container, name) {
            Some(i) => Some(i),
            None => if !variant_skipped(vs.last(), false) && wire_name(
                attrs_of(vs.last().attributes@)->Ok_0,
                vs.last().name@,
                container.rename_all,
            ) == name {
                Some(vs.len() - 1)
            } else {
                None
            },
        }
    }
}

/// The decoder of an internally tagged enum takes a name for the first variant
/// that has it and is not skipped for reading, and knows no name that no such
/// variant has.
pub proof fn tagged_names_pick_variants(
    arms: Seq<FromArm>,
    vs: Seq<Variant>,
    container: AttrsView,
    name: Seq<char>,
)
    requires
        container.tag is Some,
        decodes_variants(arms, vs, container),
    ensures
        first_arm(arms, name) is Some <==> first_readable(vs, container, name) is Some,
        first_arm(arms, name) matches Some(i) ==> (first_readable(vs, container, name) matches Some(
            j,
        ) && 0 <= i < arms.len() && 0 <= j < vs.len() && arm_wire(arms[i]) == name
            && arms[i].variant@ == vs[j].name@ && decodes_variant(
            arms[i].action,
            vs[j],
            container,
        )),
    decreases vs.len(),
{
    if vs.len() > 0 {
        if decodable(vs.last(), container) {
            tagged_names_pick_variants(arms.drop_last(), vs.drop_last(), container, name);
        } else {
            tagged_names_pick_variants(arms, vs.drop_last(), container, name);
        }
    }
}

/// The names under which an internally tagged dict names the arms' variants.
pub fn arm_wires(arms: &Vec<FromArm>) -> (r: Vec<String>)
    ensures
        r@.len() == arms@.len(),
        forall|i: int| 0 <= i < r@.len() ==> (#[trigger] r@[i])@ == arm_wire(arms@[i]),
{
    let mut out: Vec<String> = Vec::new();
    let mut i: usize = 0;
    while i < arms.len()
        invariant
            i <= arms@.len(),
            out@.len() == i,
            forall|k: int| 0 <= k < i ==> (#[trigger] out@[k])@ == arm_wire(arms@[k]),
        decreases arms@.len() - i,
    {
        let wire: String = match &arms[i].action {
            FromAction::TaggedUnit { wire } => wire.clone(),
            FromAction::TaggedInline { wire, .. } => wire.clone(),
            FromAction::TaggedDict { wire, .. } => wire.clone(),
            FromAction::TaggedNewtype { wire } => wire.clone(),
            FromAction::TaggedTuple { wire, .. } => wire.clone(),
            _ => {
                let none: String = String::new();
                assert(none@ =~= Seq::<char>::empty());
                none
            },
        };
        out.push(wire);
        i = i + 1;
    }
    out
}

/// Picking a variant by the names of the arms picks the first arm with the
/// name.
pub proof fn picked_wire_is_first_arm(arms: Seq<FromArm>, wires: Seq<&str>, name: Seq<char>)
    requires
        wires.len() == arms.len(),
        forall|i: int| 0 <= i < wires.len() ==> (#[trigger] wires[i])@ == arm_wire(arms[i]),
    ensures
        first_named(wires, name) == first_arm(arms, name),
    decreases arms.len(),
{
    if arms.len() > 0 {
        let front = wires.drop_last();
        assert forall|i: int| 0 <= i < front.len() implies (#[trigger] front[i])@ == arm_wire(
            arms.drop_last()[i],
        ) by {
            assert(wires[i]@ == arm_wire(arms[i]));
        }
        picked_wire_is_first_arm(arms.drop_last(), front, name);
        assert(wires[wires.len() - 1]@ == arm_wire(arms[arms.len() - 1]));
    }
}

/// The fault of a type, if a decoder cannot be derived for it.
pub open spec fn decoder_fault(input: Input) -> Option<Fault> {
    match attrs_of(input.attributes@) {
        Err(fault) => Some(fault),
        Ok(container) => match input.body {
            Body::Struct(fields) => struct_from_fault(container, fields),
            Body::Enum(vs) => variants_fault(vs@, container, false),
            Body::Union => Some(Fault::FromUnion),
        },
    }
}

/// Whether `plan` is the decoder of `input`.
pub open spec fn decoder_of(plan: FromPlan, input: Input) -> bool {
    let container = attrs_of(input.attributes@)->Ok_0;
    match input.body {
        Body::Struct(fields) => decodes_struct(plan, input, container, fields),
        Body::Enum(vs) => decodes_enum(plan, input, container, vs@),
        Body::Union => false,
    }
}

/// Works out the decoder of a type.
pub fn expand_from(input: &Input) -> (r: Result<FromPlan, DeriveError>)
    ensures
        match r {
            Ok(plan) => decoder_fault(*input) is None && decoder_of(plan, *input),
            Err(e) => decoder_fault(*input) == Some(e@),
        },
{
    let container: Attrs = match attrs(&input.attributes) {
        Ok(a) => a,
        Err(error) => {
            return Err(error);
        },
    };
    match &input.body {
        Body::Struct(fields) => struct_from(input, fields, &container),
        Body::Enum(variants) => enum_from(input, variants, &container),
        Body::Union => Err(DeriveError::FromUnion),
    }
}

} // verus!
