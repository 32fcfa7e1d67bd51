//! Writing values into terms.

use vstd::prelude::*;
use vstd::string::*;

use crate::codec::{
    all_live, cons_items, field_keys, field_terms, held_by, list_tree, overwrites, put_entries,
};
use crate::data::Tree;
use crate::dict::{dict_tree, keys_distinct};
use crate::fli::{Fli, State};
use crate::format::{failed, failed_writing, Error, Fault};
use crate::handles::{Atom, Functor, HandleError};
use crate::term::{compound_tree, grows, FliContext, Term, TermError, TermList};
use crate::text::{decimal, decimal_text, push_char};

verus! {

/// Writes one value into a term.
///
/// The result of a write reports whether a term was written: an absent value
/// in a dict-entry position is not, so that the enclosing dict can leave the
/// entry out.
pub struct TermSerializer<'x, 'f, Ctx: FliContext> {
    pub ctx: &'x Ctx,
    pub term: Term<'f>,
    /// Whether the value is a dict entry, which may be absent.
    pub option_allowed: bool,
}

/// The outcome of writing `t` into reference `raw` and nothing else.
pub open spec fn wrote(
    before: State,
    after: State,
    raw: usize,
    t: Tree,
    r: Result<bool, Error>,
) -> bool {
    &&& before.verdict is Raise ==> failed(before, after, r)
    &&& before.verdict is Grant ==> r == Ok::<bool, Error>(true) && after == before.with_ref(
        raw,
        t,
    )
}

/// The outcome of building `t` in reference `raw`, with the help of new
/// references.
pub open spec fn built(
    before: State,
    after: State,
    raw: usize,
    t: Tree,
    r: Result<bool, Error>,
) -> bool {
    &&& before.verdict is Raise ==> failed_writing(before, after, raw, r)
    &&& before.verdict is Grant ==> {
        &&& r == Ok::<bool, Error>(true)
        &&& overwrites(before, after, raw)
        &&& after.verdict is Grant
        &&& after.refs[raw as int] == t
    }
}

/// The terms of some bytes.
pub open spec fn byte_trees(bytes: Seq<u8>) -> Seq<Tree> {
    Seq::new(bytes.len(), |i: int| Tree::Integer(bytes[i] as int))
}

/// Reports a written term.
fn written(r: Result<(), TermError>) -> (w: Result<bool, Error>)
    ensures
        match r {
            Ok(()) => w == Ok::<bool, Error>(true),
            Err(e) => w == Err::<bool, Error>(Error::Term(e)),
        },
{
    match r {
        Ok(()) => Ok(true),
        Err(error) => Err(Error::Term(error)),
    }
}

impl<'x, 'f, Ctx: FliContext> TermSerializer<'x, 'f, Ctx> {
    /// Whether the serializer can write: its context is the innermost scope
    /// and its term is live.
    pub open spec fn ready(&self, s: State) -> bool {
        &&& s.at(self.ctx.place())
        &&& self.term.live(s)
        &&& !(s.verdict is Refuse)
    }

    /// The serializer of a value in `term`, outside a dict entry.
    pub fn new(ctx: &'x Ctx, term: Term<'f>) -> (r: TermSerializer<'x, 'f, Ctx>)
        ensures
            r == (TermSerializer { ctx, term, option_allowed: false }),
    {
        TermSerializer { ctx, term, option_allowed: false }
    }

    /// Handles an absent value: permitted only in a dict-entry position, where
    /// it reports absence so the entry is dropped.
    fn absent(self) -> (r: Result<bool, Error>)
        ensures
            r == if self.option_allowed {
                Ok::<bool, Error>(false)
            } else {
                Err(Error::OptionOutsideDictEntry)
            },
    {
        if self.option_allowed {
            Ok(false)
        } else {
            Err(Error::OptionOutsideDictEntry)
        }
    }

    /// Writes a boolean.
    pub fn serialize_bool(self, fli: &mut Fli, value: bool) -> (r: Result<bool, Error>)
        requires
            self.ready(old(fli)@),
        ensures
            wrote(
                old(fli)@,
                final(fli)@,
                self.term.raw(),
                Tree::Atom(if value { "true"@ } else { "false"@ }),
                r,
            ),
    {
        written(self.term.put_bool(fli, value))
    }

    /// Writes a signed integer.
    pub fn serialize_i8(self, fli: &mut Fli, value: i8) -> (r: Result<bool, Error>)
        requires
            self.ready(old(fli)@),
        ensures
            wrote(old(fli)@, final(fli)@, self.term.raw(), Tree::Integer(value as int), r),
    {
        self.serialize_i64(fli, value as i64)
    }

    /// Writes a signed integer.
    pub fn serialize_i16(self, fli: &mut Fli, value: i16) -> (r: Result<bool, Error>)
        requires
            self.ready(old(fli)@),
        ensures
            wrote(old(fli)@, final(fli)@, self.term.raw(), Tree::Integer(value as int), r),
    {
        self.serialize_i64(fli, value as i64)
    }

    /// Writes a signed integer.
    pub fn serialize_i32(self, fli: &mut Fli, value: i32) -> (r: Result<bool, Error>)
        requires
            self.ready(old(fli)@),
        ensures
            wrote(old(fli)@, final(fli)@, self.term.raw(), Tree::Integer(value as int), r),
    {
        self.serialize_i64(fli, value as i64)
    }

    /// Writes a signed integer.
    pub fn serialize_i64(self, fli: &mut Fli, value: i64) -> (r: Result<bool, Error>)
        requires
            self.ready(old(fli)@),
        ensures
            wrote(old(fli)@, final(fli)@, self.term.raw(), Tree::Integer(value as int), r),
    {
        written(self.term.put_i64(fli, value))
    }

    /// Writes an unsigned integer.
    pub fn serialize_u8(self, fli: &mut Fli, value: u8) -> (r: Result<bool, Error>)
        requires
            self.ready(old(fli)@),
        ensures
            wrote(old(fli)@, final(fli)@, self.term.raw(), Tree::Integer(value as int), r),
    {
        self.serialize_u64(fli, value as u64)
    }

    /// Writes an unsigned integer.
    pub fn serialize_u16(self, fli: &mut Fli, value: u16) -> (r: Result<bool, Error>)
        requires
            self.ready(old(fli)@),
        ensures
            wrote(old(fli)@, final(fli)@, self.term.raw(), Tree::Integer(value as int), r),
    {
        self.serialize_u64(fli, value as u64)
    }

    /// Writes an unsigned integer.
    pub fn serialize_u32(self, fli: &mut Fli, value: u32) -> (r: Result<bool, Error>)
        requires
            self.ready(old(fli)@),
        ensures
            wrote(old(fli)@, final(fli)@, self.term.raw(), Tree::Integer(value as int), r),
    {
        self.serialize_u64(fli, value as u64)
    }

    /// Writes an unsigned integer.
    pub fn serialize_u64(self, fli: &mut Fli, value: u64) -> (r: Result<bool, Error>)
        requires
            self.ready(old(fli)@),
        ensures
            wrote(old(fli)@, final(fli)@, self.term.raw(), Tree::Integer(value as int), r),
    {
        written(self.term.put_u64(fli, value))
    }

    /// Writes a floating-point number, given by its bit pattern and the text
    /// the engine renders for it.
    pub fn serialize_float(self, fli: &mut Fli, bits: u64, text: &str) -> (r: Result<bool, Error>)
        requires
            self.ready(old(fli)@),
        ensures
            wrote(old(fli)@, final(fli)@, self.term.raw(), Tree::Float(bits, text@), r),
    {
        written(self.term.put_float(fli, bits, text))
    }

    /// Writes a character, as the string of that character.
    pub fn serialize_char(self, fli: &mut Fli, value: char) -> (r: Result<bool, Error>)
        requires
            self.ready(old(fli)@),
        ensures
            wrote(old(fli)@, final(fli)@, self.term.raw(), Tree::String(seq![value]), r),
    {
        let text: String = char_text(value);
        written(self.term.put_string(fli, text.as_str()))
    }

    /// Writes a text, as a string.
    pub fn serialize_str(self, fli: &mut Fli, value: &str) -> (r: Result<bool, Error>)
        requires
            self.ready(old(fli)@),
        ensures
            wrote(old(fli)@, final(fli)@, self.term.raw(), Tree::String(value@), r),
    {
        written(self.term.put_string(fli, value))
    }

    /// Writes bytes, as the list of their values.
    pub fn serialize_bytes(self, fli: &mut Fli, value: &[u8]) -> (r: Result<bool, Error>)
        requires
            self.ready(old(fli)@),
        ensures
            built(
                old(fli)@,
                final(fli)@,
                self.term.raw(),
                list_tree(byte_trees(value@)),
                r,
            ),
    {
        let mut elements: Vec<Term<'x>> = Vec::new();
        let mut i: usize = 0;
        while i < value.len()
            invariant
                i <= value@.len(),
                elements@.len() == i,
                old(fli)@.at(self.ctx.place()),
                self.ready(old(fli)@),
                i == 0 ==> fli@ == old(fli)@,
                i > 0 ==> old(fli)@.verdict is Grant && fli@.verdict is Grant,
                grows(old(fli)@, fli@),
                forall|k: int|
                    0 <= k < i ==> (#[trigger] elements@[k]).live(fli@)
                        && fli@.refs[elements@[k].raw() as int] == byte_trees(value@)[k],
            decreases value@.len() - i,
        {
            let element: Term<'x> = match self.ctx.term(fli) {
                Ok(term) => term,
                Err(error) => {
                    return Err(Error::Term(error));
                },
            };
            match element.put_u64(fli, value[i] as u64) {
                Ok(()) => {},
                Err(error) => {
                    return Err(Error::Term(error));
                },
            }
            elements.push(element);
            i = i + 1;
        }
        assert(held_by(elements@, fli@) =~= byte_trees(value@));
        written(cons_items(self.ctx, fli, self.term, &elements))
    }

    /// Leaves an absent value out.
    pub fn serialize_none(self) -> (r: Result<bool, Error>)
        ensures
            r == if self.option_allowed {
                Ok::<bool, Error>(false)
            } else {
                Err(Error::OptionOutsideDictEntry)
            },
    {
        self.absent()
    }

    /// The serializer of a present value: it goes into the same term, but
    /// cannot be absent itself.
    pub fn serialize_some(self) -> (r: Result<TermSerializer<'x, 'f, Ctx>, Error>)
        ensures
            r == if self.option_allowed {
                Ok::<TermSerializer<'x, 'f, Ctx>, Error>(
                    (TermSerializer { option_allowed: false, ..self }),
                )
            } else {
                Err(Error::OptionOutsideDictEntry)
            },
    {
        if !self.option_allowed {
            return Err(Error::OptionOutsideDictEntry);
        }
        Ok(TermSerializer { ctx: self.ctx, term: self.term, option_allowed: false })
    }

    /// Leaves the unit value out.
    pub fn serialize_unit(self) -> (r: Result<bool, Error>)
        ensures
            r == if self.option_allowed {
                Ok::<bool, Error>(false)
            } else {
                Err(Error::OptionOutsideDictEntry)
            },
    {
        self.absent()
    }

    /// Leaves a unit struct out.
    pub fn serialize_unit_struct(self) -> (r: Result<bool, Error>)
        ensures
            r == if self.option_allowed {
                Ok::<bool, Error>(false)
            } else {
                Err(Error::OptionOutsideDictEntry)
            },
    {
        self.absent()
    }

    /// Writes a unit variant, as the atom of its name.
    pub fn serialize_unit_variant(self, fli: &mut Fli, variant: &str) -> (r: Result<bool, Error>)
        requires
            self.ready(old(fli)@),
        ensures
            wrote(old(fli)@, final(fli)@, self.term.raw(), Tree::Atom(variant@), r),
    {
        written(self.term.put_atom(fli, &Atom::new(self.ctx, variant)))
    }

    /// The serializer of what a newtype struct holds: it goes into the same
    /// term, but cannot be absent.
    pub fn serialize_newtype_struct(self) -> (r: TermSerializer<'x, 'f, Ctx>)
        ensures
            r == (TermSerializer { option_allowed: false, ..self }),
    {
        TermSerializer { ctx: self.ctx, term: self.term, option_allowed: false }
    }

    /// Starts a newtype variant, the compound with one argument.
    pub fn serialize_newtype_variant(self, fli: &mut Fli, variant: &'x str) -> (r: Result<
        SerializeCompound<'x, 'f, Ctx>,
        Error,
    >)
        requires
            self.ready(old(fli)@),
        ensures
            SerializeCompound::opens(old(fli)@, final(fli)@, self.ctx, self.term, variant@, 1, r),
    {
        SerializeCompound::open(self.ctx, fli, self.term, variant, 1)
    }

    /// Starts a sequence.
    pub fn serialize_seq(self) -> (r: SerializeList<'x, 'f, Ctx>)
        ensures
            r.ctx == self.ctx,
            r.term == self.term,
            r.elements@.len() == 0,
    {
        SerializeList { ctx: self.ctx, term: self.term, elements: Vec::new() }
    }

    /// Starts a tuple.
    pub fn serialize_tuple(self) -> (r: SerializeList<'x, 'f, Ctx>)
        ensures
            r.ctx == self.ctx,
            r.term == self.term,
            r.elements@.len() == 0,
    {
        self.serialize_seq()
    }

    /// Starts a tuple struct.
    pub fn serialize_tuple_struct(self, fli: &mut Fli, name: &'x str, len: usize) -> (r: Result<
        SerializeCompound<'x, 'f, Ctx>,
        Error,
    >)
        requires
            self.ready(old(fli)@),
        ensures
            SerializeCompound::opens(
                old(fli)@,
                final(fli)@,
                self.ctx,
                self.term,
                name@,
                len as nat,
                r,
            ),
    {
        SerializeCompound::open(self.ctx, fli, self.term, name, len)
    }

    /// Starts a tuple variant.
    pub fn serialize_tuple_variant(self, fli: &mut Fli, variant: &'x str, len: usize) -> (r: Result<
        SerializeCompound<'x, 'f, Ctx>,
        Error,
    >)
        requires
            self.ready(old(fli)@),
        ensures
            SerializeCompound::opens(
                old(fli)@,
                final(fli)@,
                self.ctx,
                self.term,
                variant@,
                len as nat,
                r,
            ),
    {
        SerializeCompound::open(self.ctx, fli, self.term, variant, len)
    }

    /// Starts a map, the dict tagged `#`.
    pub fn serialize_map(self) -> (r: SerializeDict<'x, 'f, Ctx>)
        ensures
            r.starts(self.ctx, self.term, "#"@),
    {
        SerializeDict::open(self.ctx, self.term, "#")
    }

    /// Starts a struct, the dict tagged with its name.
    pub fn serialize_struct(self, name: &'x str) -> (r: SerializeDict<'x, 'f, Ctx>)
        ensures
            r.starts(self.ctx, self.term, name@),
    {
        SerializeDict::open(self.ctx, self.term, name)
    }

    /// Starts a struct variant, the dict tagged with the variant's name.
    pub fn serialize_struct_variant(self, variant: &'x str) -> (r: SerializeDict<'x, 'f, Ctx>)
        ensures
            r.starts(self.ctx, self.term, variant@),
    {
        SerializeDict::open(self.ctx, self.term, variant)
    }
}

/// The text of one character.
fn char_text(value: char) -> (r: String)
    ensures
        r@ == seq![value],
{
    let mut text: String = "".to_owned();
    proof {
        reveal_strlit("");
    }
    push_char(&mut text, value);
    assert(text@ =~= seq![value]);
    text
}

/// Accumulates elements into a Prolog list (sequences and tuples).
pub struct SerializeList<'x, 'f, Ctx: FliContext> {
    pub ctx: &'x Ctx,
    pub term: Term<'f>,
    pub elements: Vec<Term<'x>>,
}

/// The outcome of handing out the serializer of a nested value: it writes
/// into a fresh reference.
pub open spec fn hands_out<'x, Ctx: FliContext>(
    before: State,
    after: State,
    ctx: &'x Ctx,
    option_allowed: bool,
    r: Result<TermSerializer<'x, 'x, Ctx>, Error>,
) -> bool {
    &&& before.verdict is Raise ==> failed(before, after, r)
    &&& before.verdict is Grant ==> {
        &&& r matches Ok(child) && child.ctx == ctx && child.option_allowed == option_allowed
            && child.term.raw() == before.refs.len() && child.term.gen() == before.gen
        &&& after == before.with_new_var()
    }
}

/// Hands out the serializer of a nested value, which writes into a fresh
/// reference.
fn child<'x, Ctx: FliContext>(ctx: &'x Ctx, fli: &mut Fli, option_allowed: bool) -> (r: Result<
    TermSerializer<'x, 'x, Ctx>,
    Error,
>)
    requires
        old(fli)@.at(ctx.place()),
        !(old(fli)@.verdict is Refuse),
    ensures
        hands_out(old(fli)@, final(fli)@, ctx, option_allowed, r),
{
    match ctx.term(fli) {
        Ok(term) => Ok(TermSerializer { ctx, term, option_allowed }),
        Err(error) => Err(Error::Term(error)),
    }
}

impl<'x, 'f, Ctx: FliContext> SerializeList<'x, 'f, Ctx> {
    /// Hands out the serializer of the next element.
    pub fn element(&self, fli: &mut Fli) -> (r: Result<TermSerializer<'x, 'x, Ctx>, Error>)
        requires
            old(fli)@.at(self.ctx.place()),
            !(old(fli)@.verdict is Refuse),
        ensures
            hands_out(old(fli)@, final(fli)@, self.ctx, false, r),
    {
        child(self.ctx, fli, false)
    }

    /// Takes the element that was written into `term`.
    pub fn push(&mut self, term: Term<'x>)
        ensures
            final(self).ctx == old(self).ctx,
            final(self).term == old(self).term,
            final(self).elements@ == old(self).elements@.push(term),
    {
        self.elements.push(term);
    }

    /// Builds the list of the elements.
    pub fn end(self, fli: &mut Fli) -> (r: Result<bool, Error>)
        requires
            old(fli)@.at(self.ctx.place()),
            self.term.live(old(fli)@),
            all_live(self.elements@, old(fli)@),
            !(old(fli)@.verdict is Refuse),
        ensures
            built(
                old(fli)@,
                final(fli)@,
                self.term.raw(),
                list_tree(held_by(self.elements@, old(fli)@)),
                r,
            ),
    {
        written(cons_items(self.ctx, fli, self.term, &self.elements))
    }
}

/// Fills a compound's argument block (tuple structs and tuple variants).
///
/// The declared length is exact for these shapes, so the block is allocated up
/// front and each field is written straight into its slot.
pub struct SerializeCompound<'x, 'f, Ctx: FliContext> {
    pub ctx: &'x Ctx,
    pub term: Term<'f>,
    pub name: &'x str,
    pub args: TermList<'x>,
    pub index: usize,
}

impl<'x, 'f, Ctx: FliContext> SerializeCompound<'x, 'f, Ctx> {
    /// The outcome of starting a compound of `len` arguments.
    pub open spec fn opens(
        before: State,
        after: State,
        ctx: &'x Ctx,
        term: Term<'f>,
        name: Seq<char>,
        len: nat,
        r: Result<SerializeCompound<'x, 'f, Ctx>, Error>,
    ) -> bool {
        &&& before.verdict is Raise ==> failed(before, after, r)
        &&& before.verdict is Grant ==> {
            &&& after == before.with_new_vars(len)
            &&& r matches Ok(c) && c.ctx == ctx && c.term == term && c.name@ == name && c.index
                == 0 && c.args.first() == before.refs.len() && c.args.count() == len
                && c.args.gen() == before.gen
        }
    }

    /// Starts a compound of `len` arguments.
    fn open(ctx: &'x Ctx, fli: &mut Fli, term: Term<'f>, name: &'x str, len: usize) -> (r: Result<
        SerializeCompound<'x, 'f, Ctx>,
        Error,
    >)
        requires
            old(fli)@.at(ctx.place()),
            !(old(fli)@.verdict is Refuse),
        ensures
            Self::opens(old(fli)@, final(fli)@, ctx, term, name@, len as nat, r),
    {
        match ctx.terms(fli, len) {
            Ok(args) => Ok(SerializeCompound { ctx, term, name, args, index: 0 }),
            Err(error) => Err(Error::Term(error)),
        }
    }

    /// The serializer of the next field, if the declared arity leaves room for
    /// one.
    pub fn field(&self) -> (r: Option<TermSerializer<'x, 'x, Ctx>>)
        ensures
            match r {
                Some(slot) => self.index < self.args.count() && slot.ctx == self.ctx
                    && slot.term.raw() == self.args.first() + self.index && slot.term.gen()
                    == self.args.gen() && !slot.option_allowed,
                None => self.index >= self.args.count(),
            },
    {
        match self.args.get(self.index) {
            Some(term) => Some(TermSerializer { ctx: self.ctx, term, option_allowed: false }),
            None => None,
        }
    }

    /// Goes on after the field that was written into the current slot.
    pub fn push(&mut self)
        requires
            old(self).index < old(self).args.count(),
        ensures
            *final(self) == (SerializeCompound {
                index: (old(self).index + 1) as usize,
                ..*old(self)
            }),
    {
        let count: usize = self.args.len();
        assert(self.index < count);
        self.index = self.index + 1;
    }

    /// Builds the compound, or the atom of the name if there are no arguments.
    pub fn end(self, fli: &mut Fli) -> (r: Result<bool, Error>)
        requires
            old(fli)@.at(self.ctx.place()),
            self.term.live(old(fli)@),
            self.args.live(old(fli)@),
            !(old(fli)@.verdict is Refuse),
        ensures
            if self.index != self.args.count() {
                &&& r matches Err(e) && e@ == Fault::ArityMismatch(
                    self.name@,
                    self.args.count(),
                    self.index as nat,
                )
                &&& final(fli)@ == old(fli)@
            } else if old(fli)@.verdict is Raise && self.args.count() > 0 {
                &&& r matches Err(e) && (e@ == Fault::Handle(
                    HandleError::Exception(old(fli)@.verdict->Raise_0),
                ) || e@ == Fault::Term(TermError::Exception(old(fli)@.verdict->Raise_0)))
                &&& overwrites(old(fli)@, final(fli)@, self.term.raw())
                &&& final(fli)@.verdict is Grant
            } else {
                wrote(
                    old(fli)@,
                    final(fli)@,
                    self.term.raw(),
                    compound_tree(self.name@, self.args.held(old(fli)@)),
                    r,
                )
            },
    {
        if self.index != self.args.len() {
            return Err(
                Error::ArityMismatch {
                    name: self.name.to_owned(),
                    expected: self.args.len(),
                    actual: self.index,
                },
            );
        }
        if self.args.is_empty() {
            return written(self.term.put_atom(fli, &Atom::new(self.ctx, self.name)));
        }
        match Functor::from_name(self.ctx, fli, self.name, self.args.len()) {
            Ok(functor) => written(self.term.cons_functor(fli, &functor, &self.args)),
            Err(error) => Err(Error::Handle(error)),
        }
    }
}

/// Accumulates key/value entries into a Prolog dict (maps, structs and struct
/// variants).
pub struct SerializeDict<'x, 'f, Ctx: FliContext> {
    pub ctx: &'x Ctx,
    pub term: Term<'f>,
    pub tag: &'x str,
    pub entries: Vec<(String, Term<'x>)>,
    /// The key whose value is still to come.
    pub pending_key: Option<String>,
}

impl<'x, 'f, Ctx: FliContext> SerializeDict<'x, 'f, Ctx> {
    /// Whether this is a dict without any entry yet.
    pub open spec fn starts(&self, ctx: &'x Ctx, term: Term<'f>, tag: Seq<char>) -> bool {
        &&& self.ctx == ctx
        &&& self.term == term
        &&& self.tag@ == tag
        &&& self.entries@.len() == 0
        &&& self.pending_key is None
    }

    /// Whether the dict is the same up to its entries and its pending key.
    pub open spec fn same_dict(&self, other: &SerializeDict<'x, 'f, Ctx>) -> bool {
        self.ctx == other.ctx && self.term == other.term && self.tag == other.tag
    }

    /// Starts a dict.
    fn open(ctx: &'x Ctx, term: Term<'f>, tag: &'x str) -> (r: SerializeDict<'x, 'f, Ctx>)
        ensures
            r.starts(ctx, term, tag@),
    {
        SerializeDict { ctx, term, tag, entries: Vec::new(), pending_key: None }
    }

    /// Hands out the serializer of an entry's value, which may be absent.
    pub fn value(&self, fli: &mut Fli) -> (r: Result<TermSerializer<'x, 'x, Ctx>, Error>)
        requires
            old(fli)@.at(self.ctx.place()),
            !(old(fli)@.verdict is Refuse),
        ensures
            hands_out(old(fli)@, final(fli)@, self.ctx, true, r),
    {
        child(self.ctx, fli, true)
    }

    /// Takes the entry whose value was written into `term`, unless the value
    /// is absent.
    pub fn insert(&mut self, key: String, term: Term<'x>, present: bool)
        ensures
            final(self).same_dict(old(self)),
            final(self).pending_key == old(self).pending_key,
            final(self).entries@ == if present {
                old(self).entries@.push((key, term))
            } else {
                old(self).entries@
            },
    {
        if present {
            self.entries.push((key, term));
        }
    }

    /// Takes the key of a map's next entry, once the preceding one is
    /// complete.
    pub fn serialize_key(&mut self, key: String) -> (r: Result<(), Error>)
        ensures
            final(self).same_dict(old(self)),
            final(self).entries == old(self).entries,
            key_taken(old(self).pending_key, final(self).pending_key, key, r),
    {
        if self.pending_key.is_some() {
            return Err(Error::MapKeyOrder("serialized"));
        }
        self.pending_key = Some(key);
        Ok(())
    }

    /// Takes the pending key, for the value that comes now.
    pub fn serialize_value(&mut self) -> (r: Result<String, Error>)
        ensures
            final(self).same_dict(old(self)),
            final(self).entries == old(self).entries,
            final(self).pending_key is None,
            r == match old(self).pending_key {
                Some(key) => Ok::<String, Error>(key),
                None => Err(Error::MapValueOrder("serialized")),
            },
    {
        match self.pending_key.take() {
            Some(key) => Ok(key),
            None => Err(Error::MapValueOrder("serialized")),
        }
    }

    /// Builds the dict of the entries.
    pub fn end(self, fli: &mut Fli) -> (r: Result<bool, Error>)
        requires
            old(fli)@.at(self.ctx.place()),
            self.term.live(old(fli)@),
            all_live(field_terms(self.entries@), old(fli)@),
            !(old(fli)@.verdict is Refuse),
        ensures
            if end_fault(self.pending_key) is Some {
                r == Err::<bool, Error>(end_fault(self.pending_key)->0) && final(fli)@ == old(
                    fli,
                )@
            } else if keys_distinct(field_keys(self.entries@)) {
                built(
                    old(fli)@,
                    final(fli)@,
                    self.term.raw(),
                    dict_tree(
                        self.tag@,
                        field_keys(self.entries@),
                        held_by(field_terms(self.entries@), old(fli)@),
                    ),
                    r,
                )
            } else {
                &&& old(fli)@.verdict is Raise ==> failed_writing(
                    old(fli)@,
                    final(fli)@,
                    self.term.raw(),
                    r,
                )
                &&& old(fli)@.verdict is Grant ==> {
                    &&& grows(old(fli)@, final(fli)@)
                    &&& r matches Err(Error::Term(TermError::Exception(_)))
                }
            },
    {
        if self.pending_key.is_some() {
            return Err(Error::MapKeyWithoutValue);
        }
        written(put_entries(self.ctx, fli, self.term, self.tag, &self.entries))
    }
}

/// The outcome of taking the key of a map's next entry, given the key that was
/// pending before.
pub open spec fn key_taken(
    before: Option<String>,
    after: Option<String>,
    key: String,
    r: Result<(), Error>,
) -> bool {
    match before {
        Some(_) => r == Err::<(), Error>(Error::MapKeyOrder("serialized")) && after == before,
        None => r is Ok && after == Some(key),
    }
}

/// The fault of ending a map, given the key that is pending.
pub open spec fn end_fault(pending_key: Option<String>) -> Option<Error> {
    match pending_key {
        Some(_) => Some(Error::MapKeyWithoutValue),
        None => None,
    }
}

/// A map that is ended right after a key was taken lacks that key's value.
pub proof fn map_needs_the_last_value(
    before: Option<String>,
    after: Option<String>,
    key: String,
    r: Result<(), Error>,
)
    requires
        key_taken(before, after, key, r),
        r is Ok,
    ensures
        end_fault(after) == Some(Error::MapKeyWithoutValue),
{
}

/// Renders a map key as the text used for the dict key. Only scalar keys are
/// supported.
pub struct MapKeySerializer;

impl MapKeySerializer {
    /// The error for a key that is not a scalar.
    pub fn unsupported() -> (r: Error)
        ensures
            r@ == Fault::Message("map keys must be strings, integers, booleans, or chars"@),
    {
        Error::Message("map keys must be strings, integers, booleans, or chars".to_owned())
    }

    /// The text of a boolean key.
    pub fn serialize_bool(self, value: bool) -> (r: String)
        ensures
            r@ == if value { "true"@ } else { "false"@ },
    {
        if value {
            "true".to_owned()
        } else {
            "false".to_owned()
        }
    }

    /// The text of a signed integer key.
    pub fn serialize_i64(self, value: i64) -> (r: String)
        ensures
            r@ == decimal(value as int),
    {
        decimal_text(value as i128)
    }

    /// The text of an unsigned integer key.
    pub fn serialize_u64(self, value: u64) -> (r: String)
        ensures
            r@ == decimal(value as int),
    {
        decimal_text(value as i128)
    }

    /// The text of a character key.
    pub fn serialize_char(self, value: char) -> (r: String)
        ensures
            r@ == seq![value],
    {
        char_text(value)
    }

    /// The text of a text key.
    pub fn serialize_str(self, value: &str) -> (r: String)
        ensures
            r@ == value@,
    {
        value.to_owned()
    }

    /// The text of a unit variant key.
    pub fn serialize_unit_variant(self, variant: &str) -> (r: String)
        ensures
            r@ == variant@,
    {
        variant.to_owned()
    }
}

/// Writes a tuple into consecutive slots of an argument block.
pub struct ArgsSerializer<'x, 'a, 'f, Ctx: FliContext> {
    pub ctx: &'x Ctx,
    pub args: &'a TermList<'f>,
}

/// Writes each tuple element into the next argument slot.
pub struct SerializeArgs<'x, 'a, 'f, Ctx: FliContext> {
    pub ctx: &'x Ctx,
    pub args: &'a TermList<'f>,
    pub index: usize,
}

/// The fault of a tuple whose arity is not that of the argument block.
pub open spec fn args_mismatch(expected: nat, actual: nat) -> Fault {
    Fault::ArityMismatch("the argument list"@, expected, actual)
}

impl<'x, 'a, 'f, Ctx: FliContext> ArgsSerializer<'x, 'a, 'f, Ctx> {
    /// The error for a value that is not a tuple.
    pub fn expects_tuple() -> (r: Error)
        ensures
            r@ == Fault::Message(
                "to_terms expects a tuple whose arity matches the argument list"@,
            ),
    {
        Error::Message("to_terms expects a tuple whose arity matches the argument list".to_owned())
    }

    /// Starts a tuple of `len` elements, which must match the block.
    pub fn serialize_tuple(self, len: usize) -> (r: Result<SerializeArgs<'x, 'a, 'f, Ctx>, Error>)
        ensures
            if len == self.args.count() {
                r == Ok::<SerializeArgs<'x, 'a, 'f, Ctx>, Error>(
                    (SerializeArgs { ctx: self.ctx, args: self.args, index: 0 }),
                )
            } else {
                r matches Err(e) && e@ == args_mismatch(self.args.count(), len as nat)
            },
    {
        if len != self.args.len() {
            return Err(
                Error::ArityMismatch {
                    name: "the argument list".to_owned(),
                    expected: self.args.len(),
                    actual: len,
                },
            );
        }
        Ok(SerializeArgs { ctx: self.ctx, args: self.args, index: 0 })
    }

    /// Writes the unit value, which fills an empty block.
    pub fn serialize_unit(self) -> (r: Result<(), Error>)
        ensures
            if self.args.count() == 0 {
                r is Ok
            } else {
                r matches Err(e) && e@ == args_mismatch(self.args.count(), 0)
            },
    {
        if self.args.is_empty() {
            Ok(())
        } else {
            Err(
                Error::ArityMismatch {
                    name: "the argument list".to_owned(),
                    expected: self.args.len(),
                    actual: 0,
                },
            )
        }
    }
}

impl<'x, 'a, 'f, Ctx: FliContext> SerializeArgs<'x, 'a, 'f, Ctx> {
    /// The serializer of the next element, if there is a slot left for it.
    pub fn element(&self) -> (r: Option<TermSerializer<'x, 'f, Ctx>>)
        ensures
            match r {
                Some(slot) => self.index < self.args.count() && slot.ctx == self.ctx
                    && slot.term.raw() == self.args.first() + self.index && slot.term.gen()
                    == self.args.gen() && !slot.option_allowed,
                None => self.index >= self.args.count(),
            },
    {
        match self.args.get(self.index) {
            Some(term) => Some(TermSerializer { ctx: self.ctx, term, option_allowed: false }),
            None => None,
        }
    }

    /// Goes on after the element that was written into the current slot.
    pub fn push(&mut self)
        requires
            old(self).index < old(self).args.count(),
        ensures
            *final(self) == (SerializeArgs {
                index: (old(self).index + 1) as usize,
                ..*old(self)
            }),
    {
        let count: usize = self.args.len();
        assert(self.index < count);
        self.index = self.index + 1;
    }

    /// Ends the tuple, which must have filled the block.
    pub fn end(self) -> (r: Result<(), Error>)
        ensures
            if self.index == self.args.count() {
                r is Ok
            } else {
                r matches Err(e) && e@ == args_mismatch(self.args.count(), self.index as nat)
            },
    {
        if self.index != self.args.len() {
            return Err(
                Error::ArityMismatch {
                    name: "the argument list".to_owned(),
                    expected: self.args.len(),
                    actual: self.index,
                },
            );
        }
        Ok(())
    }
}

} // verus!
