//! What encoders and decoders of one type have in common: which fields take
//! part, under which names, and which type parameters need a bound.

use vstd::prelude::*;
use vstd::string::*;

use crate::derive::attrs::{attrs_of, Attrs, AttrsView, Fault};
use crate::derive::input::{Field, Fields, TypeUse, Variant};
use crate::derive::rename::{rename, renamed, texts_view, RenameRule};
use crate::text::same_text;

verus! {

/// The part that a field or variant takes.
#[derive(Debug, Clone, Copy, PartialEq, Eq, Structural)]
pub enum Role {
    /// It is left out.
    Skip,
    /// Its own fields take its place.
    Flatten,
    /// It is a field of its own.
    Plain,
}

/// The part that a field with attributes `a` takes, in an encoder (`to`) or in
/// a decoder.
pub open spec fn role_of(a: AttrsView, to: bool) -> Role {
    if a.skip || (to && a.skip_to_term) || (!to && a.skip_from_term) {
        Role::Skip
    } else if a.flatten {
        Role::Flatten
    } else {
        Role::Plain
    }
}

/// Decides [`role_of`].
pub fn field_role(a: &Attrs, to: bool) -> (r: Role)
    ensures
        r == role_of(a@, to),
{
    if a.skip || (to && a.skip_to_term) || (!to && a.skip_from_term) {
        Role::Skip
    } else if a.flatten {
        Role::Flatten
    } else {
        Role::Plain
    }
}

/// The attributes of a field, where they are in order.
pub open spec fn field_attrs(f: Field) -> AttrsView {
    attrs_of(f.attributes@)->Ok_0
}

/// The name under which a field or variant is written and read: the one it is
/// given, or else its own under the renaming rule of its container.
pub open spec fn wire_name(a: AttrsView, name: Seq<char>, rule: Option<RenameRule>) -> Seq<char> {
    match a.rename {
        Some(text) => text,
        None => renamed(name, rule),
    }
}

/// Works out [`wire_name`].
pub fn wire_text(a: Attrs, name: &str, rule: Option<RenameRule>) -> (r: String)
    ensures
        r@ == wire_name(a@, name@, rule),
{
    match a.rename {
        Some(text) => text,
        None => rename(name, rule),
    }
}

/// The first fault in the attributes of fields.
pub open spec fn fields_fault(fields: Seq<Field>) -> Option<Fault>
    decreases fields.len(),
{
    if fields.len() == 0 {
        None
    } else {
        match fields_fault(fields.drop_last()) {
            Some(fault) => Some(fault),
            None => match attrs_of(fields.last().attributes@) {
                Ok(_) => None,
                Err(fault) => Some(fault),
            },
        }
    }
}

/// The types of the fields that take the given part, in order.
pub open spec fn types_with_role(fields: Seq<Field>, to: bool, role: Role) -> Seq<TypeUse>
    decreases fields.len(),
{
    if fields.len() == 0 {
        Seq::empty()
    } else {
        let before = types_with_role(fields.drop_last(), to, role);
        if role_of(field_attrs(fields.last()), to) == role {
            before.push(fields.last().ty)
        } else {
            before
        }
    }
}

/// Where the first fields are faulty, all are, with the same fault.
pub proof fn fields_fault_stays(fields: Seq<Field>, n: int)
    requires
        0 <= n <= fields.len(),
        fields_fault(fields.take(n)) is Some,
    ensures
        fields_fault(fields) == fields_fault(fields.take(n)),
    decreases fields.len(),
{
    if n == fields.len() {
        assert(fields.take(n) =~= fields);
    } else {
        assert(fields.drop_last().take(n) =~= fields.take(n));
        fields_fault_stays(fields.drop_last(), n);
    }
}

/// Where fields have no fault, the attributes of each are in order.
pub proof fn fields_in_order(fields: Seq<Field>)
    requires
        fields_fault(fields) is None,
    ensures
        forall|i: int| 0 <= i < fields.len() ==> attrs_of(#[trigger] fields[i].attributes@) is Ok,
    decreases fields.len(),
{
    if fields.len() > 0 {
        fields_in_order(fields.drop_last());
        assert forall|i: int| 0 <= i < fields.len() implies attrs_of(
            #[trigger] fields[i].attributes@,
        ) is Ok by {
            if i < fields.len() - 1 {
                assert(fields.drop_last()[i] == fields[i]);
            }
        }
    }
}

/// Whether a variant is left out.
pub open spec fn variant_skipped(v: Variant, to: bool) -> bool {
    role_of(attrs_of(v.attributes@)->Ok_0, to) == Role::Skip
}

/// The fault of a variant, if it has one. In an internally tagged enum a tuple
/// variant needs a place for its content.
pub open spec fn variant_fault(v: Variant, container: AttrsView, to: bool) -> Option<Fault> {
    match attrs_of(v.attributes@) {
        Err(fault) => Some(fault),
        Ok(a) => if role_of(a, to) == Role::Skip {
            None
        } else {
            match v.fields {
                Fields::Named(fields) => fields_fault(fields@),
                Fields::Unnamed(tys) => if container.tag is Some && container.content is None {
                    Some(Fault::ContentRequired)
                } else {
                    None
                },
                Fields::Unit => None,
            }
        },
    }
}

/// The first fault of variants.
pub open spec fn variants_fault(vs: Seq<Variant>, container: AttrsView, to: bool) -> Option<Fault>
    decreases vs.len(),
{
    if vs.len() == 0 {
        None
    } else {
        match variants_fault(vs.drop_last(), container, to) {
            Some(fault) => Some(fault),
            None => variant_fault(vs.last(), container, to),
        }
    }
}

/// Where the first variants are faulty, all are, with the same fault.
pub proof fn variants_fault_stays(vs: Seq<Variant>, container: AttrsView, to: bool, n: int)
    requires
        0 <= n <= vs.len(),
        variants_fault(vs.take(n), container, to) is Some,
    ensures
        variants_fault(vs, container, to) == variants_fault(vs.take(n), container, to),
    decreases vs.len(),
{
    if n == vs.len() {
        assert(vs.take(n) =~= vs);
    } else {
        assert(vs.drop_last().take(n) =~= vs.take(n));
        variants_fault_stays(vs.drop_last(), container, to, n);
    }
}

/// The types of a variant's fields that take the given part.
pub open spec fn variant_types(v: Variant, to: bool, role: Role) -> Seq<TypeUse> {
    if variant_skipped(v, to) {
        Seq::empty()
    } else {
        match v.fields {
            Fields::Named(fields) => types_with_role(fields@, to, role),
            Fields::Unnamed(tys) => if role == Role::Plain {
                tys@
            } else {
                Seq::empty()
            },
            Fields::Unit => Seq::empty(),
        }
    }
}

/// The types of all variants' fields that take the given part.
pub open spec fn variants_types(vs: Seq<Variant>, to: bool, role: Role) -> Seq<TypeUse>
    decreases vs.len(),
{
    if vs.len() == 0 {
        Seq::empty()
    } else {
        variants_types(vs.drop_last(), to, role) + variant_types(vs.last(), to, role)
    }
}

/// The texts of types.
pub open spec fn type_texts(tys: Seq<TypeUse>) -> Seq<Seq<char>> {
    Seq::new(tys.len(), |i: int| tys[i].text@)
}

/// Whether a name is one that paths in the types start with.
pub open spec fn occurs(name: Seq<char>, tys: Seq<TypeUse>) -> bool {
    exists|i: int, j: int|
        0 <= i < tys.len() && 0 <= j < tys[i].leading@.len() && (#[trigger] tys[i].leading@[j])@
            == name
}

/// The type parameters that need a bound: those that occur in the types.
pub open spec fn bounded_params(params: Seq<Seq<char>>, tys: Seq<TypeUse>) -> Seq<Seq<char>>
    decreases params.len(),
{
    if params.len() == 0 {
        Seq::empty()
    } else {
        let before = bounded_params(params.drop_last(), tys);
        if occurs(params.last(), tys) {
            before.push(params.last())
        } else {
            before
        }
    }
}

/// What borrowed types are.
pub open spec fn deref_types(tys: Seq<&TypeUse>) -> Seq<TypeUse> {
    Seq::new(tys.len(), |i: int| *tys[i])
}

/// Decides [`occurs`].
fn does_occur(name: &str, tys: &Vec<&TypeUse>) -> (r: bool)
    ensures
        r == occurs(name@, deref_types(tys@)),
{
    let ghost all = deref_types(tys@);
    let mut i: usize = 0;
    while i < tys.len()
        invariant
            i <= tys@.len(),
            all == deref_types(tys@),
            forall|k: int, j: int|
                0 <= k < i && 0 <= j < all[k].leading@.len() ==> (#[trigger] all[k].leading@[j])@
                    != name@,
        decreases tys@.len() - i,
    {
        let leading: &Vec<String> = &tys[i].leading;
        assert(leading@ == all[i as int].leading@);
        let mut j: usize = 0;
        while j < leading.len()
            invariant
                j <= leading@.len(),
                i < tys@.len(),
                all == deref_types(tys@),
                leading@ == all[i as int].leading@,
                forall|k: int|
                    0 <= k < j ==> (#[trigger] all[i as int].leading@[k])@ != name@,
            decreases leading@.len() - j,
        {
            if same_text(leading[j].as_str(), name) {
                assert(all[i as int].leading@[j as int]@ == name@);
                return true;
            }
            j = j + 1;
        }
        i = i + 1;
    }
    false
}

/// The type parameters that need a bound.
pub fn add_bound(params: &Vec<String>, tys: &Vec<&TypeUse>) -> (r: Vec<String>)
    ensures
        texts_view(r@) == bounded_params(texts_view(params@), deref_types(tys@)),
{
    let ghost names = texts_view(params@);
    let ghost all = deref_types(tys@);
    let mut out: Vec<String> = Vec::new();
    let mut i: usize = 0;
    assert(names.take(0) =~= Seq::empty());
    assert(texts_view(out@) =~= Seq::empty());
    while i < params.len()
        invariant
            i <= params@.len(),
            names == texts_view(params@),
            all == deref_types(tys@),
            texts_view(out@) == bounded_params(names.take(i as int), all),
        decreases params@.len() - i,
    {
        proof {
            assert(names.take(i + 1).drop_last() =~= names.take(i as int));
            assert(names.take(i + 1).last() == params@[i as int]@);
        }
        let ghost before = out@;
        if does_occur(params[i].as_str(), tys) {
            out.push(params[i].clone());
            assert(texts_view(out@) =~= texts_view(before).push(params@[i as int]@));
        }
        i = i + 1;
    }
    assert(names.take(i as int) =~= names);
    out
}

} // verus!
