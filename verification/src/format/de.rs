//! Reading values out of terms.

use vstd::prelude::*;
use vstd::string::*;

use crate::codec::tuples::elements;
use crate::codec::{all_live, compound_items, field_terms, fields_view, held_by, key_text};
use crate::data::{Key, Tree};
use crate::dict::{in_order, pairs_view, DictKey};
use crate::exception::Verdict;
use crate::fli::{resolve, Fli, State};
use crate::format::{failed_within, Error, Fault};
use crate::handles::Atom;
use crate::list::{has_shape, shape_is, shape_of};
use crate::term::{
    atomic_text, bool_value, compound_parts, float_value, grows, int_value, FliContext, ListShape,
    Term, TermError, TermKind, TermList,
};
use crate::text::{decimal_text, integer_value, parse_signed, parse_unsigned, same_text};

verus! {

/// What a step of deserialization found, to be shown to the visitor of the
/// value that is being read.
pub enum Visit<'x, 'f, Ctx: FliContext> {
    Unit,
    Bool(bool),
    I64(i64),
    U64(u64),
    /// A floating-point number, by its bit pattern.
    Float(u64),
    Text(String),
    Bytes(Vec<u8>),
    /// A present value, read from the same term.
    Present(TermDeserializer<'x, 'f, Ctx>),
    /// What a newtype struct holds, read from the same term.
    Newtype(TermDeserializer<'x, 'f, Ctx>),
    Sequence(SeqDeserializer<'x, Ctx>),
    Entries(MapDeserializer<'x, Ctx>),
    Compound(CompoundDeserializer<'x, 'f, Ctx>),
    Variant(TermEnumAccess<'x, 'f, Ctx>),
}

/// What a [`Visit`] shows.
#[verifier::ext_equal]
pub enum Shown {
    Unit,
    Bool(bool),
    I64(int),
    U64(int),
    Float(u64),
    Text(Seq<char>),
    Bytes(Seq<u8>),
    Present(Tree),
    Newtype(Tree),
    Sequence(Seq<Tree>),
    Entries(Seq<(Seq<char>, Tree)>),
    Compound(Seq<char>, Seq<Tree>),
    Variant(Shape, Tree),
}

/// How an enum variant is encoded.
pub enum VariantShape {
    Unit(String),
    Compound { variant: String, arity: usize },
    Dict(String),
}

/// What a [`VariantShape`] denotes.
#[verifier::ext_equal]
pub enum Shape {
    Unit(Seq<char>),
    Compound(Seq<char>, nat),
    Dict(Seq<char>),
}

impl View for VariantShape {
    type V = Shape;

    open spec fn view(&self) -> Shape {
        match self {
            VariantShape::Unit(variant) => Shape::Unit(variant@),
            VariantShape::Compound { variant, arity } => Shape::Compound(variant@, *arity as nat),
            VariantShape::Dict(variant) => Shape::Dict(variant@),
        }
    }
}

impl Shape {
    /// The name of the variant.
    pub open spec fn variant(self) -> Seq<char> {
        match self {
            Shape::Unit(variant) => variant,
            Shape::Compound(variant, arity) => variant,
            Shape::Dict(variant) => variant,
        }
    }
}

impl VariantShape {
    /// The name of the variant.
    pub fn variant(&self) -> (r: &str)
        ensures
            r@ == self@.variant(),
    {
        match self {
            VariantShape::Unit(variant) => variant.as_str(),
            VariantShape::Compound { variant, arity: _ } => variant.as_str(),
            VariantShape::Dict(variant) => variant.as_str(),
        }
    }
}

impl<'x, 'f, Ctx: FliContext> Visit<'x, 'f, Ctx> {
    /// What is shown, where references hold what they do in `s`.
    pub open spec fn shown(self, s: State) -> Shown {
        match self {
            Visit::Unit => Shown::Unit,
            Visit::Bool(value) => Shown::Bool(value),
            Visit::I64(value) => Shown::I64(value as int),
            Visit::U64(value) => Shown::U64(value as int),
            Visit::Float(bits) => Shown::Float(bits),
            Visit::Text(text) => Shown::Text(text@),
            Visit::Bytes(bytes) => Shown::Bytes(bytes@),
            Visit::Present(inner) => Shown::Present(s.refs[inner.term.raw() as int]),
            Visit::Newtype(inner) => Shown::Newtype(s.refs[inner.term.raw() as int]),
            Visit::Sequence(items) => Shown::Sequence(items.rest(s)),
            Visit::Entries(entries) => Shown::Entries(entries.rest(s)),
            Visit::Compound(inner) => Shown::Compound(
                inner.name->0@,
                compound_items(s.value(inner.term.raw())),
            ),
            Visit::Variant(access) => Shown::Variant(
                access.shape@,
                s.refs[access.term.raw() as int],
            ),
        }
    }

    /// Whether reading can go on from what is shown, with the given context.
    pub open spec fn goes_on(self, s: State, ctx: &'x Ctx) -> bool {
        match self {
            Visit::Present(inner) => inner.ctx == ctx && inner.term.live(s)
                && !inner.option_allowed,
            Visit::Newtype(inner) => inner.ctx == ctx && inner.term.live(s)
                && !inner.option_allowed,
            Visit::Sequence(items) => items.ctx == ctx && items.ready(s),
            Visit::Entries(entries) => entries.ctx == ctx && entries.ready(s) && entries.value
                is None,
            Visit::Compound(inner) => inner.ctx == ctx && inner.ready(s) && inner.name is Some
                && !inner.value_due,
            Visit::Variant(access) => access.ctx == ctx && access.ready(s),
            _ => true,
        }
    }
}

/// The fault of the pending exception, if there is one.
pub open spec fn pending(s: State) -> Option<Fault> {
    match s.verdict {
        Verdict::Raise(e) => Some(Fault::Term(TermError::Exception(e))),
        _ => None,
    }
}

/// What is shown once the engine was asked.
pub open spec fn unless_pending(s: State, shown: Result<Shown, Fault>) -> Result<Shown, Fault> {
    match pending(s) {
        Some(fault) => Err(fault),
        None => shown,
    }
}

/// The fault of a term of the wrong type.
pub open spec fn mismatch(expected: &'static str) -> Fault {
    Fault::Term(TermError::TypeMismatch { expected })
}

/// What a boolean is read as.
pub open spec fn bool_shown(s: State, t: Tree) -> Result<Shown, Fault> {
    unless_pending(
        s,
        match bool_value(t) {
            Some(value) => Ok(Shown::Bool(value)),
            None => Err(mismatch("a boolean")),
        },
    )
}

/// What a signed integer is read as.
pub open spec fn i64_shown(s: State, t: Tree) -> Result<Shown, Fault> {
    unless_pending(
        s,
        match int_value(t, i64::MIN as int, i64::MAX as int) {
            Some(value) => Ok(Shown::I64(value)),
            None => Err(mismatch("an integer fitting i64")),
        },
    )
}

/// What an unsigned integer is read as.
pub open spec fn u64_shown(s: State, t: Tree) -> Result<Shown, Fault> {
    unless_pending(
        s,
        match int_value(t, 0, u64::MAX as int) {
            Some(value) => Ok(Shown::U64(value)),
            None => Err(mismatch("an integer fitting u64")),
        },
    )
}

/// What a floating-point number is read as, given what the engine converts a
/// number to that is not one.
pub open spec fn float_shown(s: State, t: Tree, converted: Option<u64>) -> Result<Shown, Fault> {
    unless_pending(
        s,
        match float_value(t, converted) {
            Some(bits) => Ok(Shown::Float(bits)),
            None => Err(mismatch("a float")),
        },
    )
}

/// What a text is read as.
pub open spec fn text_shown(s: State, t: Tree) -> Result<Shown, Fault> {
    unless_pending(
        s,
        match atomic_text(t) {
            Some(text) => Ok(Shown::Text(text)),
            None => Err(mismatch("an atomic term with a text representation")),
        },
    )
}

/// The elements of a list, or why there are none.
pub open spec fn list_items(s: State, held: Tree) -> Result<Seq<Tree>, Fault> {
    match shape_of(s.trail, held) {
        ListShape::Proper { len } => match pending(s) {
            Some(fault) => Err(fault),
            None => Ok(elements(s.trail, held, len as nat)),
        },
        other => Err(Fault::Term(TermError::NotAProperList(other))),
    }
}

/// What a sequence is read as.
pub open spec fn seq_shown(s: State, held: Tree) -> Result<Shown, Fault> {
    match list_items(s, held) {
        Ok(items) => Ok(Shown::Sequence(items)),
        Err(fault) => Err(fault),
    }
}

/// The entries of a dict in the order of its keys, which are rendered as
/// texts.
pub open spec fn text_entries(entries: Seq<(Key, Tree)>) -> Seq<(Seq<char>, Tree)> {
    let ordered = in_order(entries);
    Seq::new(ordered.len(), |i: int| (key_text(ordered[i].0), ordered[i].1))
}

/// The entries of a dict, or why there are none.
pub open spec fn dict_items(s: State, t: Tree) -> Result<Seq<(Seq<char>, Tree)>, Fault> {
    match t {
        Tree::Dict(tag, entries) => match pending(s) {
            Some(fault) if entries.len() > 0 => Err(fault),
            _ => Ok(text_entries(entries)),
        },
        _ => Err(mismatch("a dict")),
    }
}

/// What a map is read as.
pub open spec fn map_shown(s: State, t: Tree) -> Result<Shown, Fault> {
    match dict_items(s, t) {
        Ok(entries) => Ok(Shown::Entries(entries)),
        Err(fault) => Err(fault),
    }
}

/// What a term is read as where nothing is known of the target: the kind of
/// the term decides.
pub open spec fn any_shown(s: State, held: Tree) -> Result<Shown, Fault> {
    let t = resolve(s.trail, held);
    match t {
        Tree::Var(id) => Ok(Shown::Unit),
        Tree::Atom(name) => unless_pending(
            s,
            Ok(
                if name == "true"@ {
                    Shown::Bool(true)
                } else if name == "false"@ {
                    Shown::Bool(false)
                } else {
                    Shown::Text(name)
                },
            ),
        ),
        Tree::Integer(value) => if i64_shown(s, t) is Ok {
            i64_shown(s, t)
        } else {
            u64_shown(s.answered(), t)
        },
        Tree::BigInteger(digits) => Err(mismatch("an integer fitting u64")),
        Tree::Float(bits, text) => float_shown(s, t, None),
        Tree::String(text) => text_shown(s, t),
        Tree::Nil => seq_shown(s, held),
        Tree::Pair(head, tail) => seq_shown(s, held),
        Tree::Dict(tag, entries) => map_shown(s, t),
        Tree::Compound(name, args) => unless_pending(s, Ok(Shown::Compound(name, args))),
        Tree::Rational(text) => Err(Fault::UnsupportedTerm(TermKind::Rational)),
        Tree::Blob(text) => Err(Fault::UnsupportedTerm(TermKind::Blob)),
    }
}

/// The byte that a list element is read as.
pub open spec fn byte_of(t: Tree) -> Result<u8, Fault> {
    match int_value(t, 0, u64::MAX as int) {
        None => Err(mismatch("an integer fitting u64")),
        Some(value) => if value <= u8::MAX {
            Ok(value as u8)
        } else {
            Err(Fault::ByteRange(value as u64))
        },
    }
}

/// The bytes that list elements are read as, or why the first element that is
/// none is not.
pub open spec fn bytes_of(trail: Seq<(usize, Tree)>, items: Seq<Tree>) -> Result<Seq<u8>, Fault>
    decreases items.len(),
{
    if items.len() == 0 {
        Ok(Seq::empty())
    } else {
        match bytes_of(trail, items.drop_last()) {
            Err(fault) => Err(fault),
            Ok(bytes) => match byte_of(resolve(trail, items.last())) {
                Err(fault) => Err(fault),
                Ok(byte) => Ok(bytes.push(byte)),
            },
        }
    }
}

/// What bytes are read as.
pub open spec fn bytes_shown(s: State, held: Tree) -> Result<Shown, Fault> {
    match list_items(s, held) {
        Err(fault) => Err(fault),
        Ok(items) => match bytes_of(s.trail, items) {
            Err(fault) => Err(fault),
            Ok(bytes) => Ok(Shown::Bytes(bytes)),
        },
    }
}

/// What a tuple struct is read as: the arguments of the compound with its
/// name and length, or none for the atom of its name.
pub open spec fn tuple_struct_shown(s: State, t: Tree, name: Seq<char>, len: nat) -> Result<
    Shown,
    Fault,
> {
    unless_pending(
        s,
        match t {
            Tree::Atom(actual) => if actual == name && len == 0 {
                Ok(Shown::Sequence(Seq::empty()))
            } else {
                Err(Fault::Functor(name, len, actual, 0))
            },
            _ => match compound_parts(t) {
                None => Err(mismatch("a compound term")),
                Some((actual, args)) => if actual == name && args.len() == len {
                    Ok(Shown::Sequence(args))
                } else {
                    Err(Fault::Functor(name, len, actual, args.len()))
                },
            },
        },
    )
}

/// The tag of a dict: a text, none, or an error.
pub open spec fn dict_tag(s: State, t: Tree) -> Result<Option<Seq<char>>, Fault> {
    match t {
        Tree::Dict(tag, entries) => match pending(s) {
            Some(fault) => Err(fault),
            None => match resolve(s.trail, *tag) {
                Tree::Var(id) => Ok(None),
                Tree::Atom(name) => Ok(Some(name)),
                _ => Err(mismatch("an atom")),
            },
        },
        _ => Err(mismatch("a dict")),
    }
}

/// What a struct is read as: the entries of the dict that is tagged with its
/// name.
pub open spec fn struct_shown(s: State, t: Tree, name: Seq<char>) -> Result<Shown, Fault> {
    match dict_tag(s, t) {
        Err(fault) => Err(fault),
        Ok(actual) => if actual == Some(name) {
            map_shown(s, t)
        } else {
            Err(Fault::DictTag(name, actual))
        },
    }
}

/// How the variant that a term stands for is encoded: an atom, a compound or
/// a tagged dict.
pub open spec fn variant_shape(s: State, t: Tree) -> Result<Shape, Fault> {
    match t {
        Tree::Atom(name) => match pending(s) {
            Some(fault) => Err(fault),
            None => Ok(Shape::Unit(name)),
        },
        Tree::Compound(name, args) => match pending(s) {
            Some(fault) => Err(fault),
            None => Ok(Shape::Compound(name, args.len())),
        },
        Tree::Dict(tag, entries) => match dict_tag(s, t) {
            Err(fault) => Err(fault),
            Ok(None) => Err(Fault::DictTag("an enum variant"@, None)),
            Ok(Some(name)) => Ok(Shape::Dict(name)),
        },
        _ => Err(Fault::Type("enum"@)),
    }
}

/// What an enum is read as.
pub open spec fn enum_shown(s: State, held: Tree) -> Result<Shown, Fault> {
    match variant_shape(s, resolve(s.trail, held)) {
        Err(fault) => Err(fault),
        Ok(shape) => Ok(Shown::Variant(shape, held)),
    }
}

/// The outcome of a step that reads `shown`.
pub open spec fn read_done<'x, 'f, Ctx: FliContext>(
    before: State,
    after: State,
    ctx: &'x Ctx,
    shown: Result<Shown, Fault>,
    r: Result<Visit<'x, 'f, Ctx>, Error>,
) -> bool {
    &&& grows(before, after)
    &&& !(after.verdict is Refuse)
    &&& before.verdict is Grant ==> after.verdict is Grant
    &&& match shown {
        Ok(value) => r matches Ok(visit) && visit.shown(after) == value && visit.goes_on(
            after,
            ctx,
        ),
        Err(fault) => r matches Err(e) && e@ == fault,
    }
}

/// Collects the elements of a list.
fn collect<'x, Ctx: FliContext>(ctx: &'x Ctx, fli: &mut Fli, term: Term<'_>) -> (r: Result<
    Vec<Term<'x>>,
    Error,
>)
    requires
        old(fli)@.at(ctx.place()),
        term.live(old(fli)@),
        !(old(fli)@.verdict is Refuse),
    ensures
        grows(old(fli)@, final(fli)@),
        !(final(fli)@.verdict is Refuse),
        old(fli)@.verdict is Grant ==> final(fli)@.verdict is Grant,
        r is Ok ==> old(fli)@.verdict is Grant,
        match list_items(old(fli)@, old(fli)@.refs[term.raw() as int]) {
            Ok(items) => r matches Ok(terms) && all_live(terms@, final(fli)@) && held_by(
                terms@,
                final(fli)@,
            ) == items,
            Err(fault) => r matches Err(e) && e@ == fault,
        },
{
    let ghost trail = fli@.trail;
    let ghost t = fli@.refs[term.raw() as int];
    let shape: ListShape = term.list_shape(fli);
    proof {
        shape_is(trail, t, shape);
    }
    match term.collect_list(ctx, fli) {
        Ok(items) => {
            proof {
                assert(shape is Proper);
                assert(has_shape(trail, t, ListShape::Proper { len: shape->len }));
                assert(held_by(items@, fli@) =~= elements(trail, t, shape->len as nat));
            }
            Ok(items)
        },
        Err(error) => {
            assert(shape is Proper ==> has_shape(
                trail,
                t,
                ListShape::Proper { len: shape->len },
            ));
            Err(Error::Term(error))
        },
    }
}

/// Reads a dict's entries with the keys rendered as text, matching the
/// serializer's key representation.
fn dict_string_entries<'x, Ctx: FliContext>(ctx: &'x Ctx, fli: &mut Fli, term: Term<'_>) -> (r:
    Result<Vec<(String, Term<'x>)>, Error>)
    requires
        old(fli)@.at(ctx.place()),
        term.live(old(fli)@),
        !(old(fli)@.verdict is Refuse),
    ensures
        grows(old(fli)@, final(fli)@),
        !(final(fli)@.verdict is Refuse),
        old(fli)@.verdict is Grant ==> final(fli)@.verdict is Grant,
        match dict_items(old(fli)@, old(fli)@.value(term.raw())) {
            Ok(entries) => r matches Ok(fields) && all_live(field_terms(fields@), final(fli)@)
                && fields_view(fields@, final(fli)@) == entries,
            Err(fault) => r matches Err(e) && e@ == fault,
        },
{
    let entries: Vec<(DictKey, Term<'x>)> = match term.dict_entries(ctx, fli) {
        Ok(entries) => entries,
        Err(error) => {
            return Err(Error::Term(error));
        },
    };
    let ghost ordered = in_order(old(fli)@.value(term.raw())->Dict_1);
    let mut fields: Vec<(String, Term<'x>)> = Vec::new();
    let mut i: usize = 0;
    while i < entries.len()
        invariant
            i <= entries@.len(),
            fields@.len() == i,
            ordered == pairs_view(entries@, fli@),
            forall|k: int| 0 <= k < entries@.len() ==> (#[trigger] entries@[k]).1.live(fli@),
            forall|k: int|
                0 <= k < i ==> (#[trigger] fields@[k]).1 == entries@[k].1 && fields@[k].0@
                    == key_text(ordered[k].0),
        decreases entries@.len() - i,
    {
        let key: String = match &entries[i].0 {
            DictKey::Atom(atom) => atom.text(),
            DictKey::Int(value) => decimal_text(*value as i128),
        };
        assert(key@ == key_text(ordered[i as int].0));
        fields.push((key, entries[i].1));
        i = i + 1;
    }
    proof {
        assert(fields_view(fields@, fli@) =~= text_entries(
            old(fli)@.value(term.raw())->Dict_1,
        ));
        assert forall|k: int| 0 <= k < field_terms(fields@).len() implies (
        #[trigger] field_terms(fields@)[k]).live(fli@) by {
            assert(fields@[k].1 == entries@[k].1);
        }
    }
    Ok(fields)
}

/// Reads the arguments of a compound into fresh references.
fn collect_arguments<'x, Ctx: FliContext>(
    ctx: &'x Ctx,
    fli: &mut Fli,
    term: Term<'_>,
    arity: usize,
) -> (r: Result<Vec<Term<'x>>, Error>)
    requires
        old(fli)@.at(ctx.place()),
        term.live(old(fli)@),
        !(old(fli)@.verdict is Refuse),
        compound_parts(old(fli)@.value(term.raw())) matches Some((n, args)) && args.len()
            == arity,
    ensures
        grows(old(fli)@, final(fli)@),
        !(final(fli)@.verdict is Refuse),
        old(fli)@.verdict is Grant ==> final(fli)@.verdict is Grant,
        match pending(old(fli)@) {
            Some(fault) if arity > 0 => r matches Err(e) && e@ == fault,
            _ => r matches Ok(terms) && all_live(terms@, final(fli)@) && held_by(
                terms@,
                final(fli)@,
            ) == compound_items(old(fli)@.value(term.raw())),
        },
{
    let ghost value = fli@.value(term.raw());
    let ghost items = compound_items(value);
    let mut args: Vec<Term<'x>> = Vec::new();
    let mut index: usize = 0;
    while index < arity
        invariant
            index <= arity,
            arity == items.len(),
            args@.len() == index,
            compound_parts(value) is Some,
            items == compound_items(value),
            old(fli)@.at(ctx.place()),
            term.live(old(fli)@),
            !(old(fli)@.verdict is Refuse),
            value == old(fli)@.value(term.raw()),
            index == 0 ==> fli@ == old(fli)@,
            index > 0 ==> old(fli)@.verdict is Grant && fli@.verdict is Grant,
            grows(old(fli)@, fli@),
            forall|k: int|
                0 <= k < index ==> (#[trigger] args@[k]).live(fli@)
                    && fli@.refs[args@[k].raw() as int] == items[k],
        decreases arity - index,
    {
        match term.get_arg(ctx, fli, index) {
            Ok(arg) => {
                args.push(arg);
            },
            Err(error) => {
                return Err(Error::Term(error));
            },
        }
        index = index + 1;
    }
    assert(held_by(args@, fli@) =~= items);
    Ok(args)
}

/// Reads one term.
pub struct TermDeserializer<'x, 'f, Ctx: FliContext> {
    pub ctx: &'x Ctx,
    pub term: Term<'f>,
    /// Whether the term is a dict entry, which may stand for an optional
    /// value.
    pub option_allowed: bool,
}

impl<'x, 'f, Ctx: FliContext> TermDeserializer<'x, 'f, Ctx> {
    /// Whether the deserializer can read: its context is the innermost scope
    /// and its term is live.
    pub open spec fn ready(&self, s: State) -> bool {
        &&& s.at(self.ctx.place())
        &&& self.term.live(s)
        &&& !(s.verdict is Refuse)
    }

    /// What the term's reference holds.
    pub open spec fn held(&self, s: State) -> Tree {
        s.refs[self.term.raw() as int]
    }

    /// The deserializer of `term`, outside a dict entry.
    pub fn new(ctx: &'x Ctx, term: Term<'f>) -> (r: TermDeserializer<'x, 'f, Ctx>)
        ensures
            r == (TermDeserializer { ctx, term, option_allowed: false }),
    {
        TermDeserializer { ctx, term, option_allowed: false }
    }

    /// Reads the term as text, accepting an atom, string, or number.
    fn text(&self, fli: &mut Fli) -> (r: Result<Visit<'x, 'f, Ctx>, Error>)
        requires
            self.ready(old(fli)@),
        ensures
            read_done(
                old(fli)@,
                final(fli)@,
                self.ctx,
                text_shown(old(fli)@, old(fli)@.value(self.term.raw())),
                r,
            ),
    {
        match self.term.get_text(fli) {
            Ok(text) => Ok(Visit::Text(text)),
            Err(error) => Err(Error::Term(error)),
        }
    }

    /// Reads whatever the term is.
    pub fn deserialize_any(self, fli: &mut Fli) -> (r: Result<Visit<'x, 'f, Ctx>, Error>)
        requires
            self.ready(old(fli)@),
        ensures
            read_done(
                old(fli)@,
                final(fli)@,
                self.ctx,
                any_shown(old(fli)@, self.held(old(fli)@)),
                r,
            ),
    {
        match self.term.kind(fli) {
            TermKind::Variable => Ok(Visit::Unit),
            TermKind::Atom => {
                match self.term.get_atom(fli) {
                    Ok(atom) => {
                        let text: String = atom.text();
                        if same_text(text.as_str(), "true") {
                            Ok(Visit::Bool(true))
                        } else if same_text(text.as_str(), "false") {
                            Ok(Visit::Bool(false))
                        } else {
                            Ok(Visit::Text(text))
                        }
                    },
                    Err(error) => Err(Error::Term(error)),
                }
            },
            TermKind::Integer => {
                match self.term.get_i64(fli) {
                    Ok(value) => Ok(Visit::I64(value)),
                    Err(_) => {
                        match self.term.get_u64(fli) {
                            Ok(value) => Ok(Visit::U64(value)),
                            Err(error) => Err(Error::Term(error)),
                        }
                    },
                }
            },
            TermKind::Float => self.deserialize_float(fli, None),
            TermKind::String => self.text(fli),
            TermKind::Nil => self.deserialize_seq(fli),
            TermKind::ListPair => self.deserialize_seq(fli),
            TermKind::Dict => self.deserialize_map(fli),
            TermKind::Compound => {
                match self.term.name_arity(fli) {
                    Ok((name, arity)) => Ok(
                        Visit::Compound(
                            CompoundDeserializer {
                                ctx: self.ctx,
                                term: self.term,
                                name: Some(name.text()),
                                arity,
                                value_due: false,
                            },
                        ),
                    ),
                    Err(error) => Err(Error::Term(error)),
                }
            },
            kind => Err(Error::UnsupportedTerm { kind }),
        }
    }

    /// Reads a boolean.
    pub fn deserialize_bool(self, fli: &mut Fli) -> (r: Result<Visit<'x, 'f, Ctx>, Error>)
        requires
            self.ready(old(fli)@),
        ensures
            read_done(
                old(fli)@,
                final(fli)@,
                self.ctx,
                bool_shown(old(fli)@, old(fli)@.value(self.term.raw())),
                r,
            ),
    {
        match self.term.get_bool(fli) {
            Ok(value) => Ok(Visit::Bool(value)),
            Err(error) => Err(Error::Term(error)),
        }
    }

    /// Reads a signed integer of any width.
    pub fn deserialize_i64(self, fli: &mut Fli) -> (r: Result<Visit<'x, 'f, Ctx>, Error>)
        requires
            self.ready(old(fli)@),
        ensures
            read_done(
                old(fli)@,
                final(fli)@,
                self.ctx,
                i64_shown(old(fli)@, old(fli)@.value(self.term.raw())),
                r,
            ),
    {
        match self.term.get_i64(fli) {
            Ok(value) => Ok(Visit::I64(value)),
            Err(error) => Err(Error::Term(error)),
        }
    }

    /// Reads an unsigned integer of any width.
    pub fn deserialize_u64(self, fli: &mut Fli) -> (r: Result<Visit<'x, 'f, Ctx>, Error>)
        requires
            self.ready(old(fli)@),
        ensures
            read_done(
                old(fli)@,
                final(fli)@,
                self.ctx,
                u64_shown(old(fli)@, old(fli)@.value(self.term.raw())),
                r,
            ),
    {
        match self.term.get_u64(fli) {
            Ok(value) => Ok(Visit::U64(value)),
            Err(error) => Err(Error::Term(error)),
        }
    }

    /// Reads a floating-point number, by its bit pattern; `converted` is what
    /// the engine converts a number to that is not one.
    pub fn deserialize_float(self, fli: &mut Fli, converted: Option<u64>) -> (r: Result<
        Visit<'x, 'f, Ctx>,
        Error,
    >)
        requires
            self.ready(old(fli)@),
        ensures
            read_done(
                old(fli)@,
                final(fli)@,
                self.ctx,
                float_shown(old(fli)@, old(fli)@.value(self.term.raw()), converted),
                r,
            ),
    {
        match self.term.get_float(fli, converted) {
            Ok(bits) => Ok(Visit::Float(bits)),
            Err(error) => Err(Error::Term(error)),
        }
    }

    /// Reads a character, as the text it is in.
    pub fn deserialize_char(self, fli: &mut Fli) -> (r: Result<Visit<'x, 'f, Ctx>, Error>)
        requires
            self.ready(old(fli)@),
        ensures
            read_done(
                old(fli)@,
                final(fli)@,
                self.ctx,
                text_shown(old(fli)@, old(fli)@.value(self.term.raw())),
                r,
            ),
    {
        self.text(fli)
    }

    /// Reads a text.
    pub fn deserialize_string(self, fli: &mut Fli) -> (r: Result<Visit<'x, 'f, Ctx>, Error>)
        requires
            self.ready(old(fli)@),
        ensures
            read_done(
                old(fli)@,
                final(fli)@,
                self.ctx,
                text_shown(old(fli)@, old(fli)@.value(self.term.raw())),
                r,
            ),
    {
        self.text(fli)
    }

    /// Reads bytes out of a list of integers.
    pub fn deserialize_bytes(self, fli: &mut Fli) -> (r: Result<Visit<'x, 'f, Ctx>, Error>)
        requires
            self.ready(old(fli)@),
        ensures
            read_done(
                old(fli)@,
                final(fli)@,
                self.ctx,
                bytes_shown(old(fli)@, self.held(old(fli)@)),
                r,
            ),
    {
        let items: Vec<Term<'x>> = match collect(self.ctx, fli, self.term) {
            Ok(items) => items,
            Err(error) => {
                return Err(error);
            },
        };
        let ghost trail = old(fli)@.trail;
        let ghost trees = held_by(items@, fli@);
        let mut bytes: Vec<u8> = Vec::new();
        let mut i: usize = 0;
        proof {
            assert(trees.take(0) =~= Seq::empty());
            assert(bytes@ =~= Seq::empty());
        }
        while i < items.len()
            invariant
                i <= items@.len(),
                trail == old(fli)@.trail,
                grows(old(fli)@, fli@),
                fli@.verdict is Grant,
                old(fli)@.verdict is Grant,
                all_live(items@, fli@),
                trees == held_by(items@, fli@),
                bytes_of(trail, trees.take(i as int)) == Ok::<Seq<u8>, Fault>(bytes@),
                list_items(old(fli)@, self.held(old(fli)@)) == Ok::<Seq<Tree>, Fault>(trees),
            decreases items@.len() - i,
        {
            proof {
                assert(items@[i as int].live(fli@));
                assert(trees.take(i + 1).drop_last() =~= trees.take(i as int));
                assert(trees.take(i + 1).last() == trees[i as int]);
            }
            let value: u64 = match items[i].get_u64(fli) {
                Ok(value) => value,
                Err(error) => {
                    proof {
                        bytes_fault_stays(trail, trees, i + 1);
                    }
                    return Err(Error::Term(error));
                },
            };
            if value > 255 {
                proof {
                    bytes_fault_stays(trail, trees, i + 1);
                }
                return Err(Error::ByteRange { value });
            }
            bytes.push(value as u8);
            i = i + 1;
        }
        assert(trees.take(i as int) =~= trees);
        Ok(Visit::Bytes(bytes))
    }

    /// Reads an optional value, which is only found in a dict entry.
    pub fn deserialize_option(self) -> (r: Result<Visit<'x, 'f, Ctx>, Error>)
        ensures
            r == if self.option_allowed {
                Ok::<Visit<'x, 'f, Ctx>, Error>(
                    Visit::Present((TermDeserializer { option_allowed: false, ..self })),
                )
            } else {
                Err(Error::OptionOutsideDictEntry)
            },
    {
        if !self.option_allowed {
            return Err(Error::OptionOutsideDictEntry);
        }
        Ok(
            Visit::Present(
                TermDeserializer { ctx: self.ctx, term: self.term, option_allowed: false },
            ),
        )
    }

    /// Reads the unit value, which any term stands for.
    pub fn deserialize_unit(self) -> (r: Visit<'x, 'f, Ctx>)
        ensures
            r is Unit,
    {
        Visit::Unit
    }

    /// Reads a newtype struct, which the term of what it holds stands for.
    pub fn deserialize_newtype_struct(self) -> (r: Visit<'x, 'f, Ctx>)
        ensures
            r == Visit::Newtype((TermDeserializer { option_allowed: false, ..self })),
    {
        Visit::Newtype(TermDeserializer { ctx: self.ctx, term: self.term, option_allowed: false })
    }

    /// Reads a sequence, or a tuple, out of a proper list.
    pub fn deserialize_seq(self, fli: &mut Fli) -> (r: Result<Visit<'x, 'f, Ctx>, Error>)
        requires
            self.ready(old(fli)@),
        ensures
            read_done(
                old(fli)@,
                final(fli)@,
                self.ctx,
                seq_shown(old(fli)@, self.held(old(fli)@)),
                r,
            ),
    {
        match collect(self.ctx, fli, self.term) {
            Ok(items) => {
                let seq: SeqDeserializer<'x, Ctx> = SeqDeserializer::new(self.ctx, items);
                assert(seq.rest(fli@) =~= held_by(items@, fli@));
                Ok(Visit::Sequence(seq))
            },
            Err(error) => Err(error),
        }
    }

    /// Reads a tuple struct out of the compound with its name and length, or
    /// out of the atom of its name if it has no fields.
    pub fn deserialize_tuple_struct(self, fli: &mut Fli, name: &str, len: usize) -> (r: Result<
        Visit<'x, 'f, Ctx>,
        Error,
    >)
        requires
            self.ready(old(fli)@),
        ensures
            read_done(
                old(fli)@,
                final(fli)@,
                self.ctx,
                tuple_struct_shown(
                    old(fli)@,
                    old(fli)@.value(self.term.raw()),
                    name@,
                    len as nat,
                ),
                r,
            ),
    {
        let ghost value = fli@.value(self.term.raw());
        if self.term.kind(fli) == TermKind::Atom {
            let actual_name: String = match self.term.get_atom(fli) {
                Ok(atom) => atom.text(),
                Err(error) => {
                    return Err(Error::Term(error));
                },
            };
            if !same_text(actual_name.as_str(), name) || len != 0 {
                return Err(
                    Error::Functor {
                        expected_name: name.to_owned(),
                        expected_arity: len,
                        actual_name,
                        actual_arity: 0,
                    },
                );
            }
            let none: SeqDeserializer<'x, Ctx> = SeqDeserializer::new(self.ctx, Vec::new());
            assert(none.rest(fli@) =~= Seq::empty());
            return Ok(Visit::Sequence(none));
        }
        let (name_atom, arity) = match self.term.name_arity(fli) {
            Ok(parts) => parts,
            Err(error) => {
                return Err(Error::Term(error));
            },
        };
        let actual_name: String = name_atom.text();
        if !same_text(actual_name.as_str(), name) || arity != len {
            return Err(
                Error::Functor {
                    expected_name: name.to_owned(),
                    expected_arity: len,
                    actual_name,
                    actual_arity: arity,
                },
            );
        }
        match collect_arguments(self.ctx, fli, self.term, len) {
            Ok(arguments) => {
                let seq: SeqDeserializer<'x, Ctx> = SeqDeserializer::new(self.ctx, arguments);
                assert(seq.rest(fli@) =~= compound_items(value));
                Ok(Visit::Sequence(seq))
            },
            Err(error) => Err(error),
        }
    }

    /// Reads a map out of a dict.
    pub fn deserialize_map(self, fli: &mut Fli) -> (r: Result<Visit<'x, 'f, Ctx>, Error>)
        requires
            self.ready(old(fli)@),
        ensures
            read_done(
                old(fli)@,
                final(fli)@,
                self.ctx,
                map_shown(old(fli)@, old(fli)@.value(self.term.raw())),
                r,
            ),
    {
        match dict_string_entries(self.ctx, fli, self.term) {
            Ok(entries) => {
                let map: MapDeserializer<'x, Ctx> = MapDeserializer::new(self.ctx, entries);
                assert(map.rest(fli@) =~= fields_view(entries@, fli@));
                Ok(Visit::Entries(map))
            },
            Err(error) => Err(error),
        }
    }

    /// Reads a struct out of the dict that is tagged with its name.
    pub fn deserialize_struct(self, fli: &mut Fli, name: &str) -> (r: Result<
        Visit<'x, 'f, Ctx>,
        Error,
    >)
        requires
            self.ready(old(fli)@),
        ensures
            read_done(
                old(fli)@,
                final(fli)@,
                self.ctx,
                struct_shown(old(fli)@, old(fli)@.value(self.term.raw()), name@),
                r,
            ),
    {
        let actual: Option<String> = match self.term.dict_tag(self.ctx, fli) {
            Ok(Some(atom)) => Some(atom.text()),
            Ok(None) => None,
            Err(error) => {
                return Err(Error::Term(error));
            },
        };
        let matches: bool = match &actual {
            Some(text) => same_text(text.as_str(), name),
            None => false,
        };
        if !matches {
            return Err(Error::DictTag { expected: name.to_owned(), actual });
        }
        self.deserialize_map(fli)
    }

    /// Reads an enum out of an atom, a compound or a tagged dict.
    pub fn deserialize_enum(self, fli: &mut Fli) -> (r: Result<Visit<'x, 'f, Ctx>, Error>)
        requires
            self.ready(old(fli)@),
        ensures
            read_done(
                old(fli)@,
                final(fli)@,
                self.ctx,
                enum_shown(old(fli)@, self.held(old(fli)@)),
                r,
            ),
    {
        let shape: VariantShape = match self.term.kind(fli) {
            TermKind::Atom => {
                match self.term.get_atom(fli) {
                    Ok(atom) => VariantShape::Unit(atom.text()),
                    Err(error) => {
                        return Err(Error::Term(error));
                    },
                }
            },
            TermKind::Compound => {
                match self.term.name_arity(fli) {
                    Ok((name, arity)) => VariantShape::Compound { variant: name.text(), arity },
                    Err(error) => {
                        return Err(Error::Term(error));
                    },
                }
            },
            TermKind::Dict => {
                match self.term.dict_tag(self.ctx, fli) {
                    Ok(Some(tag)) => VariantShape::Dict(tag.text()),
                    Ok(None) => {
                        return Err(
                            Error::DictTag { expected: "an enum variant".to_owned(), actual: None },
                        );
                    },
                    Err(error) => {
                        return Err(Error::Term(error));
                    },
                }
            },
            _ => {
                return Err(Error::Type { expected: "enum" });
            },
        };
        Ok(Visit::Variant(TermEnumAccess { ctx: self.ctx, term: self.term, shape }))
    }
}

/// A fault among the first elements is the fault of all of them.
proof fn bytes_fault_stays(trail: Seq<(usize, Tree)>, items: Seq<Tree>, n: int)
    requires
        0 <= n <= items.len(),
        bytes_of(trail, items.take(n)) is Err,
    ensures
        bytes_of(trail, items) == bytes_of(trail, items.take(n)),
    decreases items.len(),
{
    if n == items.len() {
        assert(items.take(n) =~= items);
    } else {
        assert(items.drop_last().take(n) =~= items.take(n));
        bytes_fault_stays(trail, items.drop_last(), n);
    }
}

/// The elements of a sequence, one by one.
pub struct SeqDeserializer<'x, Ctx: FliContext> {
    pub ctx: &'x Ctx,
    pub items: Vec<Term<'x>>,
    /// How many elements were taken.
    pub taken: usize,
}

impl<'x, Ctx: FliContext> SeqDeserializer<'x, Ctx> {
    /// What the elements that were not taken yet hold.
    pub open spec fn rest(self, s: State) -> Seq<Tree> {
        held_by(self.items@, s).skip(self.taken as int)
    }

    /// Whether elements can be taken.
    pub open spec fn ready(self, s: State) -> bool {
        self.taken <= self.items@.len() && all_live(self.items@, s)
    }

    /// A sequence of the given elements.
    pub fn new(ctx: &'x Ctx, items: Vec<Term<'x>>) -> (r: SeqDeserializer<'x, Ctx>)
        ensures
            r == (SeqDeserializer { ctx, items, taken: 0 }),
    {
        SeqDeserializer { ctx, items, taken: 0 }
    }

    /// The deserializer of the next element, if there is one.
    pub fn next_element(&mut self) -> (r: Option<TermDeserializer<'x, 'x, Ctx>>)
        requires
            old(self).taken <= old(self).items@.len(),
        ensures
            final(self).ctx == old(self).ctx,
            final(self).items == old(self).items,
            if old(self).taken < old(self).items@.len() {
                &&& r == Some(
                    (TermDeserializer {
                        ctx: old(self).ctx,
                        term: old(self).items@[old(self).taken as int],
                        option_allowed: false,
                    }),
                )
                &&& final(self).taken == old(self).taken + 1
            } else {
                r is None && final(self).taken == old(self).taken
            },
    {
        if self.taken < self.items.len() {
            let term: Term<'x> = self.items[self.taken];
            self.taken = self.taken + 1;
            Some(TermDeserializer { ctx: self.ctx, term, option_allowed: false })
        } else {
            None
        }
    }

    /// How many elements are left.
    pub fn size_hint(&self) -> (r: usize)
        requires
            self.taken <= self.items@.len(),
        ensures
            r == self.items@.len() - self.taken,
    {
        self.items.len() - self.taken
    }
}

/// The entries of a map, one by one: first the key, then the value.
pub struct MapDeserializer<'x, Ctx: FliContext> {
    pub ctx: &'x Ctx,
    pub entries: Vec<(String, Term<'x>)>,
    /// How many keys were taken.
    pub taken: usize,
    /// The value of the key that was taken last, until it is taken.
    pub value: Option<Term<'x>>,
}

impl<'x, Ctx: FliContext> MapDeserializer<'x, Ctx> {
    /// The entries that were not taken yet.
    pub open spec fn rest(self, s: State) -> Seq<(Seq<char>, Tree)> {
        fields_view(self.entries@, s).skip(self.taken as int)
    }

    /// Whether entries can be taken.
    pub open spec fn ready(self, s: State) -> bool {
        &&& self.taken <= self.entries@.len()
        &&& all_live(field_terms(self.entries@), s)
        &&& self.value matches Some(term) ==> term.live(s)
    }

    /// A map of the given entries.
    pub fn new(ctx: &'x Ctx, entries: Vec<(String, Term<'x>)>) -> (r: MapDeserializer<'x, Ctx>)
        ensures
            r == (MapDeserializer { ctx, entries, taken: 0, value: None }),
    {
        MapDeserializer { ctx, entries, taken: 0, value: None }
    }

    /// The deserializer of the next key, if there is one, once the preceding
    /// entry's value was taken.
    pub fn next_key(&mut self) -> (r: Result<Option<DictKeyDeserializer>, Error>)
        requires
            old(self).taken <= old(self).entries@.len(),
        ensures
            final(self).ctx == old(self).ctx,
            final(self).entries == old(self).entries,
            if old(self).value is Some {
                r == Err::<Option<DictKeyDeserializer>, Error>(Error::MapKeyOrder("requested"))
                    && *final(self) == *old(self)
            } else if old(self).taken < old(self).entries@.len() {
                let entry = old(self).entries@[old(self).taken as int];
                &&& r matches Ok(Some(key)) && key.key@ == entry.0@
                &&& final(self).value == Some(entry.1)
                &&& final(self).taken == old(self).taken + 1
            } else {
                r == Ok::<Option<DictKeyDeserializer>, Error>(None) && *final(self) == *old(self)
            },
    {
        if self.value.is_some() {
            return Err(Error::MapKeyOrder("requested"));
        }
        if self.taken < self.entries.len() {
            let key: String = self.entries[self.taken].0.clone();
            self.value = Some(self.entries[self.taken].1);
            self.taken = self.taken + 1;
            Ok(Some(DictKeyDeserializer { key }))
        } else {
            Ok(None)
        }
    }

    /// The deserializer of the value whose key was taken last.
    pub fn next_value(&mut self) -> (r: Result<TermDeserializer<'x, 'x, Ctx>, Error>)
        ensures
            *final(self) == (MapDeserializer { value: None, ..*old(self) }),
            r == match old(self).value {
                Some(term) => Ok::<TermDeserializer<'x, 'x, Ctx>, Error>(
                    (TermDeserializer { ctx: old(self).ctx, term, option_allowed: true }),
                ),
                None => Err(Error::MapValueOrder("requested")),
            },
    {
        match self.value.take() {
            Some(term) => Ok(TermDeserializer { ctx: self.ctx, term, option_allowed: true }),
            None => Err(Error::MapValueOrder("requested")),
        }
    }

    /// How many entries are left.
    pub fn size_hint(&self) -> (r: usize)
        requires
            self.taken <= self.entries@.len(),
        ensures
            r == self.entries@.len() - self.taken,
    {
        self.entries.len() - self.taken
    }
}

/// The text between quotation marks that shows `text`, with the characters
/// that need it escaped.
pub uninterp spec fn quoted(text: Seq<char>) -> Seq<char>;

/// `<str as Debug>::fmt`, which `format!` calls for `{:?}`: the text between
/// quotation marks, with escapes, a function of the text alone.
#[verifier::external_body]
fn quote(text: &str) -> (r: String)
    ensures
        r@ == quoted(text@),
{
    format!("{:?}", text)
}

/// Reads dict key text as the requested scalar type.
///
/// Dict keys are atoms or integers, while the serializer represents boolean
/// keys using their atom names.
pub struct DictKeyDeserializer {
    pub key: String,
}

/// What a dict key is read as.
pub enum KeyVisit {
    Bool(bool),
    I64(i64),
    U64(u64),
    Text(String),
}

/// What dict key text is read as where nothing is known of the target.
pub open spec fn key_shown(key: Seq<char>) -> Shown {
    if key == "true"@ {
        Shown::Bool(true)
    } else if key == "false"@ {
        Shown::Bool(false)
    } else {
        match integer_value(key, true) {
            Some(value) if i64::MIN <= value <= i64::MAX => Shown::I64(value),
            _ => match integer_value(key, false) {
                Some(value) if value <= u64::MAX => Shown::U64(value),
                _ => Shown::Text(key),
            },
        }
    }
}

impl KeyVisit {
    /// What is shown.
    pub open spec fn shown(self) -> Shown {
        match self {
            KeyVisit::Bool(value) => Shown::Bool(value),
            KeyVisit::I64(value) => Shown::I64(value as int),
            KeyVisit::U64(value) => Shown::U64(value as int),
            KeyVisit::Text(text) => Shown::Text(text@),
        }
    }
}

/// The fault of a key that is not of the expected type.
pub open spec fn key_fault(key: Seq<char>, expected: Seq<char>) -> Fault {
    Fault::Message("dict key "@ + quoted(key) + " is not a "@ + expected)
}

impl DictKeyDeserializer {
    /// The error for a key that is not of the expected type.
    pub fn invalid_type(&self, expected: &str) -> (r: Error)
        ensures
            r@ == key_fault(self.key@, expected@),
    {
        let mut text: String = "dict key ".to_owned();
        text.append(quote(self.key.as_str()).as_str());
        text.append(" is not a ");
        text.append(expected);
        assert(text@ =~= "dict key "@ + quoted(self.key@) + " is not a "@ + expected@);
        Error::Message(text)
    }

    /// Reads whatever the key is: a boolean, an integer, or else a text.
    pub fn deserialize_any(self) -> (r: KeyVisit)
        ensures
            r.shown() == key_shown(self.key@),
    {
        if same_text(self.key.as_str(), "true") {
            return KeyVisit::Bool(true);
        }
        if same_text(self.key.as_str(), "false") {
            return KeyVisit::Bool(false);
        }
        match parse_signed(self.key.as_str(), i64::MIN, i64::MAX) {
            Some(value) => KeyVisit::I64(value),
            None => {
                match parse_unsigned(self.key.as_str(), u64::MAX) {
                    Some(value) => KeyVisit::U64(value),
                    None => KeyVisit::Text(self.key),
                }
            },
        }
    }

    /// Reads a boolean key.
    pub fn deserialize_bool(self) -> (r: Result<bool, Error>)
        ensures
            if self.key@ == "true"@ {
                r == Ok::<bool, Error>(true)
            } else if self.key@ == "false"@ {
                r == Ok::<bool, Error>(false)
            } else {
                r matches Err(e) && e@ == key_fault(self.key@, "boolean"@)
            },
    {
        if same_text(self.key.as_str(), "true") {
            Ok(true)
        } else if same_text(self.key.as_str(), "false") {
            Ok(false)
        } else {
            Err(self.invalid_type("boolean"))
        }
    }

    /// Reads a signed integer key of the type with the given name and range.
    pub fn deserialize_signed(self, expected: &str, low: i64, high: i64) -> (r: Result<i64, Error>)
        requires
            low <= 0 <= high,
        ensures
            match integer_value(self.key@, true) {
                Some(value) if low <= value <= high => r matches Ok(v) && v == value,
                _ => r matches Err(e) && e@ == key_fault(self.key@, expected@),
            },
    {
        match parse_signed(self.key.as_str(), low, high) {
            Some(value) => Ok(value),
            None => Err(self.invalid_type(expected)),
        }
    }

    /// Reads an unsigned integer key of the type with the given name and
    /// range.
    pub fn deserialize_unsigned(self, expected: &str, high: u64) -> (r: Result<u64, Error>)
        ensures
            match integer_value(self.key@, false) {
                Some(value) if value <= high => r matches Ok(v) && v == value,
                _ => r matches Err(e) && e@ == key_fault(self.key@, expected@),
            },
    {
        match parse_unsigned(self.key.as_str(), high) {
            Some(value) => Ok(value),
            None => Err(self.invalid_type(expected)),
        }
    }

    /// Reads a text key.
    pub fn deserialize_string(self) -> (r: String)
        ensures
            r == self.key,
    {
        self.key
    }
}

/// A compound `name(args..)` as the map of the single entry `{name: args}`.
pub struct CompoundDeserializer<'x, 'f, Ctx: FliContext> {
    pub ctx: &'x Ctx,
    pub term: Term<'f>,
    /// The name, until it is taken.
    pub name: Option<String>,
    pub arity: usize,
    /// Whether the name was taken and the arguments were not.
    pub value_due: bool,
}

/// What the arguments of a compound are read as: a single argument is the
/// value itself.
pub enum CompoundValue<'x, Ctx: FliContext> {
    Single(TermDeserializer<'x, 'x, Ctx>),
    Several(SeqDeserializer<'x, Ctx>),
}

impl<'x, 'f, Ctx: FliContext> CompoundDeserializer<'x, 'f, Ctx> {
    /// Whether the compound can be read.
    pub open spec fn ready(self, s: State) -> bool {
        &&& self.term.live(s)
        &&& compound_parts(s.value(self.term.raw())) matches Some((n, args)) && args.len()
            == self.arity
    }

    /// The name, if it was not taken yet.
    pub fn next_key(&mut self) -> (r: Result<Option<String>, Error>)
        ensures
            if old(self).value_due {
                r == Err::<Option<String>, Error>(Error::MapKeyOrder("requested"))
                    && *final(self) == *old(self)
            } else {
                &&& r == Ok::<Option<String>, Error>(old(self).name)
                &&& *final(self) == (CompoundDeserializer {
                    name: None,
                    value_due: old(self).name is Some,
                    ..*old(self)
                })
            },
    {
        if self.value_due {
            return Err(Error::MapKeyOrder("requested"));
        }
        let name: Option<String> = self.name.take();
        self.value_due = name.is_some();
        Ok(name)
    }

    /// The arguments, after the name was taken.
    pub fn next_value(&mut self, fli: &mut Fli) -> (r: Result<CompoundValue<'x, Ctx>, Error>)
        requires
            old(self).ready(old(fli)@),
            old(fli)@.at(old(self).ctx.place()),
            !(old(fli)@.verdict is Refuse),
        ensures
            *final(self) == (CompoundDeserializer { value_due: false, ..*old(self) }),
            grows(old(fli)@, final(fli)@),
            !(final(fli)@.verdict is Refuse),
            old(fli)@.verdict is Grant ==> final(fli)@.verdict is Grant,
            ({
                let args = compound_items(old(fli)@.value(old(self).term.raw()));
                if !old(self).value_due {
                    r matches Err(e) && e == Error::MapValueOrder("requested") && final(fli)@
                        == old(fli)@
                } else if old(fli)@.verdict is Raise && args.len() > 0 {
                    r matches Err(e) && Some(e@) == pending(old(fli)@)
                } else if args.len() == 1 {
                    r matches Ok(CompoundValue::Single(inner)) && inner.ctx == old(self).ctx
                        && inner.term.live(final(fli)@) && !inner.option_allowed && inner.held(
                        final(fli)@,
                    ) == args[0]
                } else {
                    r matches Ok(CompoundValue::Several(seq)) && seq.ctx == old(self).ctx
                        && seq.ready(final(fli)@) && seq.rest(final(fli)@) == args
                }
            }),
    {
        if !self.value_due {
            return Err(Error::MapValueOrder("requested"));
        }
        self.value_due = false;
        let arguments: Vec<Term<'x>> = match collect_arguments(
            self.ctx,
            fli,
            self.term,
            self.arity,
        ) {
            Ok(arguments) => arguments,
            Err(error) => {
                return Err(error);
            },
        };
        let ghost args = compound_items(old(fli)@.value(self.term.raw()));
        assert(held_by(arguments@, fli@).len() == args.len());
        if arguments.len() == 1 {
            assert(arguments@[0].live(fli@));
            assert(held_by(arguments@, fli@)[0] == args[0]);
            Ok(
                CompoundValue::Single(
                    TermDeserializer { ctx: self.ctx, term: arguments[0], option_allowed: false },
                ),
            )
        } else {
            let seq: SeqDeserializer<'x, Ctx> = SeqDeserializer::new(self.ctx, arguments);
            assert(seq.rest(fli@) =~= args);
            Ok(CompoundValue::Several(seq))
        }
    }
}

/// The references of an argument block as a sequence.
pub fn args_sequence<'x, Ctx: FliContext>(ctx: &'x Ctx, args: &TermList<'x>) -> (r: SeqDeserializer<
    'x,
    Ctx,
>)
    ensures
        r.ctx == ctx,
        r.taken == 0,
        forall|s: State| args.live(s) ==> (#[trigger] r.ready(s)) && r.rest(s) == args.held(s),
{
    let items: Vec<Term<'x>> = args.iter();
    let r: SeqDeserializer<'x, Ctx> = SeqDeserializer::new(ctx, items);
    assert forall|s: State| args.live(s) implies (#[trigger] r.ready(s)) && r.rest(s)
        == args.held(s) by {
        assert(r.rest(s) =~= args.held(s));
    }
    r
}

/// An enum variant in a term.
pub struct TermEnumAccess<'x, 'f, Ctx: FliContext> {
    pub ctx: &'x Ctx,
    pub term: Term<'f>,
    pub shape: VariantShape,
}

impl<'x, 'f, Ctx: FliContext> TermEnumAccess<'x, 'f, Ctx> {
    /// Whether the variant can be read: the term has the shape.
    pub open spec fn ready(self, s: State) -> bool {
        &&& self.term.live(s)
        &&& match self.shape@ {
            Shape::Unit(name) => s.value(self.term.raw()) == Tree::Atom(name),
            Shape::Compound(name, arity) => compound_parts(s.value(self.term.raw())) matches Some(
                (actual, args),
            ) && actual == name && args.len() == arity,
            Shape::Dict(name) => s.value(self.term.raw()) is Dict,
        }
    }

    /// The name of the variant.
    pub fn variant(&self) -> (r: String)
        ensures
            r@ == self.shape@.variant(),
    {
        self.shape.variant().to_owned()
    }

    /// Reads a variant without fields.
    pub fn unit_variant(self) -> (r: Result<(), Error>)
        ensures
            if self.shape is Unit {
                r is Ok
            } else {
                r matches Err(e) && e@ == Fault::Type("unit variant"@)
            },
    {
        match self.shape {
            VariantShape::Unit(_) => Ok(()),
            _ => Err(Error::Type { expected: "unit variant" }),
        }
    }

    /// The deserializer of what a newtype variant holds.
    pub fn newtype_variant(self, fli: &mut Fli) -> (r: Result<TermDeserializer<'x, 'x, Ctx>, Error>)
        requires
            self.ready(old(fli)@),
            old(fli)@.at(self.ctx.place()),
            !(old(fli)@.verdict is Refuse),
        ensures
            grows(old(fli)@, final(fli)@),
            !(final(fli)@.verdict is Refuse),
            old(fli)@.verdict is Grant ==> final(fli)@.verdict is Grant,
            match self.shape@ {
                Shape::Compound(name, arity) if arity == 1 => if old(fli)@.verdict is Raise {
                    failed_within(old(fli)@, final(fli)@, r)
                } else {
                    r matches Ok(inner) && inner.ctx == self.ctx && inner.term.live(final(fli)@)
                        && !inner.option_allowed && inner.held(final(fli)@) == compound_items(
                        old(fli)@.value(self.term.raw()),
                    )[0]
                },
                _ => {
                    &&& r matches Err(e) && e@ == Fault::Type("newtype variant"@)
                    &&& final(fli)@ == old(fli)@
                },
            },
    {
        match self.shape {
            VariantShape::Compound { variant: _, arity } => {
                if arity == 1 {
                    return match self.term.get_arg(self.ctx, fli, 0) {
                        Ok(term) => Ok(
                            TermDeserializer { ctx: self.ctx, term, option_allowed: false },
                        ),
                        Err(error) => Err(Error::Term(error)),
                    };
                }
            },
            _ => {},
        }
        Err(Error::Type { expected: "newtype variant" })
    }

    /// The fields of a tuple variant; without any it is an atom.
    pub fn tuple_variant(self, fli: &mut Fli, len: usize) -> (r: Result<
        SeqDeserializer<'x, Ctx>,
        Error,
    >)
        requires
            self.ready(old(fli)@),
            old(fli)@.at(self.ctx.place()),
            !(old(fli)@.verdict is Refuse),
        ensures
            grows(old(fli)@, final(fli)@),
            !(final(fli)@.verdict is Refuse),
            old(fli)@.verdict is Grant ==> final(fli)@.verdict is Grant,
            match self.shape@ {
                Shape::Compound(name, arity) => if old(fli)@.verdict is Raise && arity > 0 {
                    r matches Err(e) && Some(e@) == pending(old(fli)@)
                } else {
                    r matches Ok(seq) && seq.ctx == self.ctx && seq.ready(final(fli)@) && seq.rest(
                        final(fli)@,
                    ) == compound_items(old(fli)@.value(self.term.raw()))
                },
                Shape::Unit(name) if len == 0 => r matches Ok(seq) && seq.ctx == self.ctx
                    && seq.ready(final(fli)@) && seq.rest(final(fli)@).len() == 0,
                _ => r matches Err(e) && e@ == Fault::Type("tuple variant"@),
            },
    {
        match self.shape {
            VariantShape::Compound { variant: _, arity } => {
                match collect_arguments(self.ctx, fli, self.term, arity) {
                    Ok(arguments) => {
                        let seq: SeqDeserializer<'x, Ctx> = SeqDeserializer::new(
                            self.ctx,
                            arguments,
                        );
                        assert(seq.rest(fli@) =~= held_by(arguments@, fli@));
                        Ok(seq)
                    },
                    Err(error) => Err(error),
                }
            },
            VariantShape::Unit(_) => {
                if len == 0 {
                    Ok(SeqDeserializer::new(self.ctx, Vec::new()))
                } else {
                    Err(Error::Type { expected: "tuple variant" })
                }
            },
            VariantShape::Dict(_) => Err(Error::Type { expected: "tuple variant" }),
        }
    }

    /// The fields of a struct variant.
    pub fn struct_variant(self, fli: &mut Fli) -> (r: Result<MapDeserializer<'x, Ctx>, Error>)
        requires
            self.ready(old(fli)@),
            old(fli)@.at(self.ctx.place()),
            !(old(fli)@.verdict is Refuse),
        ensures
            grows(old(fli)@, final(fli)@),
            !(final(fli)@.verdict is Refuse),
            old(fli)@.verdict is Grant ==> final(fli)@.verdict is Grant,
            if self.shape is Dict {
                match dict_items(old(fli)@, old(fli)@.value(self.term.raw())) {
                    Ok(entries) => r matches Ok(map) && map.ctx == self.ctx && map.ready(
                        final(fli)@,
                    ) && map.rest(final(fli)@) == entries,
                    Err(fault) => r matches Err(e) && e@ == fault,
                }
            } else {
                r matches Err(e) && e@ == Fault::Type("struct variant"@)
            },
    {
        match self.shape {
            VariantShape::Dict(_) => {
                match dict_string_entries(self.ctx, fli, self.term) {
                    Ok(entries) => {
                        let map: MapDeserializer<'x, Ctx> = MapDeserializer::new(
                            self.ctx,
                            entries,
                        );
                        assert(map.rest(fli@) =~= fields_view(entries@, fli@));
                        Ok(map)
                    },
                    Err(error) => Err(error),
                }
            },
            _ => Err(Error::Type { expected: "struct variant" }),
        }
    }
}

} // verus!
