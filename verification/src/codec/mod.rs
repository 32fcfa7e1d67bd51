//! Type-directed conversion between values and Prolog terms.
//!
//! Named structs map to tagged dicts, tuple structs and tuple variants to
//! compounds, sequences to proper lists, and maps to dicts.

pub mod lists;
pub mod maps;
pub mod records;
pub mod round_trip;
pub mod scalars;
pub mod steps;
pub mod tuples;

use vstd::prelude::*;
use vstd::string::*;

use crate::data::{Key, Tree};
use crate::dict::{dict_tree, in_order, keys_distinct, pairs_view, texts, DictKey};

use crate::fli::{resolve, Fli, State};
use crate::handles::{Atom, Functor, HandleError};
use crate::record::RecordError;
use crate::term::{
    compound_parts, compound_tree, grows, raised_within, FliContext, Term, TermError, TermKind,
    TermList,
};
use crate::text::{decimal, decimal_text, is_text_before, same_text, text_before};

verus! {

/// An error converting a value to or from a Prolog term.
#[derive(Debug, Clone, PartialEq, Eq)]
#[allow(inconsistent_fields)]
pub enum TermCodecError {
    Term(TermError),
    Handle(HandleError),
    Record(RecordError),
    /// The term is not of the expected type.
    Type { expected: &'static str },
    /// The term is a compound with another name or arity.
    Functor {
        expected_name: String,
        expected_arity: usize,
        actual_name: String,
        actual_arity: usize,
    },
    /// The term is a dict with another tag.
    DictTag { expected: String, actual: Option<String> },
    MissingField { field: String },
    DuplicateField { field: String },
    UnknownVariant { variant: String },
    /// Option and unit values are only valid as struct fields or map values.
    OptionOutsideField,
    ArityMismatch { expected: usize, actual: usize },
    Message(String),
}

/// What a [`TermCodecError`] denotes.
#[verifier::ext_equal]
pub enum CodecFault {
    Term(TermError),
    Handle(HandleError),
    Record(RecordError),
    Type(Seq<char>),
    Functor(Seq<char>, nat, Seq<char>, nat),
    DictTag(Seq<char>, Option<Seq<char>>),
    MissingField(Seq<char>),
    DuplicateField(Seq<char>),
    UnknownVariant(Seq<char>),
    OptionOutsideField,
    ArityMismatch(nat, nat),
    Message(Seq<char>),
}

impl View for TermCodecError {
    type V = CodecFault;

    open spec fn view(&self) -> CodecFault {
        match self {
            TermCodecError::Term(e) => CodecFault::Term(*e),
            TermCodecError::Handle(e) => CodecFault::Handle(*e),
            TermCodecError::Record(e) => CodecFault::Record(*e),
            TermCodecError::Type { expected } => CodecFault::Type(expected@),
            TermCodecError::Functor {
                expected_name,
                expected_arity,
                actual_name,
                actual_arity,
            } => CodecFault::Functor(
                expected_name@,
                *expected_arity as nat,
                actual_name@,
                *actual_arity as nat,
            ),
            TermCodecError::DictTag { expected, actual } => CodecFault::DictTag(
                expected@,
                match actual {
                    Some(text) => Some(text@),
                    None => None,
                },
            ),
            TermCodecError::MissingField { field } => CodecFault::MissingField(field@),
            TermCodecError::DuplicateField { field } => CodecFault::DuplicateField(field@),
            TermCodecError::UnknownVariant { variant } => CodecFault::UnknownVariant(variant@),
            TermCodecError::OptionOutsideField => CodecFault::OptionOutsideField,
            TermCodecError::ArityMismatch { expected, actual } => CodecFault::ArityMismatch(
                *expected as nat,
                *actual as nat,
            ),
            TermCodecError::Message(text) => CodecFault::Message(text@),
        }
    }
}

/// Whether `after` differs from `before` at most in reference `raw`, by new
/// term references, by new variables, and in the pending answer.
pub open spec fn overwrites(before: State, after: State, raw: usize) -> bool {
    &&& after.gen == before.gen
    &&& after.newest == before.newest
    &&& after.trail == before.trail
    &&& after.marks == before.marks
    &&& after.log == before.log
    &&& after.fresh >= before.fresh
    &&& after.refs.len() >= before.refs.len()
    &&& forall|i: int|
        0 <= i < before.refs.len() && i != raw ==> #[trigger] after.refs[i] == before.refs[i]
}

/// Whether an operation failed with the pending exception and did nothing
/// else.
pub open spec fn codec_raised<T>(
    before: State,
    after: State,
    r: Result<T, TermCodecError>,
) -> bool {
    &&& before.verdict is Raise
    &&& r matches Err(e) && e@ == CodecFault::Term(
        TermError::Exception(before.verdict->Raise_0),
    )
    &&& after == before.answered()
}

/// Whether an operation of several calls into the engine failed with the
/// pending exception, at whichever of them: the references allocated before
/// may be there.
pub open spec fn codec_raised_within<T>(
    before: State,
    after: State,
    r: Result<T, TermCodecError>,
) -> bool {
    &&& before.verdict is Raise
    &&& r matches Err(e) && e@ == CodecFault::Term(
        TermError::Exception(before.verdict->Raise_0),
    )
    &&& grows(before, after)
    &&& after.verdict is Grant
}

/// Whether an operation of several calls into the engine that writes reference
/// `raw` failed with the pending exception, at whichever of them.
pub open spec fn codec_raised_writing<T>(
    before: State,
    after: State,
    raw: usize,
    r: Result<T, TermCodecError>,
) -> bool {
    &&& before.verdict is Raise
    &&& r matches Err(e) && e@ == CodecFault::Term(
        TermError::Exception(before.verdict->Raise_0),
    )
    &&& overwrites(before, after, raw)
    &&& after.verdict is Grant
}

/// Whether an operation of several calls into the engine that writes reference
/// `raw` failed with the pending exception, at whichever of them.
pub open spec fn raised_writing<T>(
    before: State,
    after: State,
    raw: usize,
    r: Result<T, TermError>,
) -> bool {
    &&& before.verdict is Raise
    &&& r == Err::<T, TermError>(TermError::Exception(before.verdict->Raise_0))
    &&& overwrites(before, after, raw)
    &&& after.verdict is Grant
}

/// Whether an operation failed as it does while an exception is pending: with
/// that exception, or with a fault of its own that it has before it turns to
/// the engine.
pub open spec fn stopped<T>(
    before: State,
    r: Result<T, TermCodecError>,
    own: Option<CodecFault>,
) -> bool {
    r matches Err(e) && (e@ == CodecFault::Term(
        TermError::Exception(before.verdict->Raise_0),
    ) || own == Some(e@))
}

/// Why there is no term, if there is none.
pub open spec fn fault_of(t: Result<Tree, CodecFault>) -> Option<CodecFault> {
    match t {
        Ok(_) => None,
        Err(fault) => Some(fault),
    }
}

/// Writes a value into a Prolog term.
///
/// A type says what term stands for its values. One that is not verified may
/// leave that open by keeping the bodies here, with which no method can be
/// shown to meet its contract.
pub trait ToTerm {
    /// The term that stands for the value, or why none does.
    open spec fn encoded(&self) -> Result<Tree, CodecFault> {
        arbitrary()
    }

    /// The term that stands for the value where it is a field; `None` where
    /// the field is left out.
    open spec fn encoded_field(&self) -> Result<Option<Tree>, CodecFault> {
        arbitrary()
    }

    /// Writes the value into `term`.
    fn to_term<Ctx: FliContext>(&self, ctx: &Ctx, fli: &mut Fli, term: Term<'_>) -> (r: Result<
        (),
        TermCodecError,
    >)
        requires
            old(fli)@.at(ctx.place()),
            term.live(old(fli)@),
            !(old(fli)@.verdict is Refuse),
        ensures
            overwrites(old(fli)@, final(fli)@, term.raw()),
            !(final(fli)@.verdict is Refuse),
            old(fli)@.verdict is Raise ==> stopped(old(fli)@, r, fault_of(self.encoded())),
            old(fli)@.verdict is Grant ==> final(fli)@.verdict is Grant,
            old(fli)@.verdict is Grant ==> match self.encoded() {
                Ok(t) => r is Ok && final(fli)@.refs[term.raw() as int] == t,
                Err(fault) => r matches Err(e) && e@ == fault,
            },
    ;

    /// Writes the value into `term` where it is a field; `false` means that
    /// the field is left out.
    fn __to_field<Ctx: FliContext>(&self, ctx: &Ctx, fli: &mut Fli, term: Term<'_>) -> (r: Result<
        bool,
        TermCodecError,
    >)
        requires
            old(fli)@.at(ctx.place()),
            term.live(old(fli)@),
            !(old(fli)@.verdict is Refuse),
        ensures
            overwrites(old(fli)@, final(fli)@, term.raw()),
            !(final(fli)@.verdict is Refuse),
            old(fli)@.verdict is Grant ==> final(fli)@.verdict is Grant,
            old(fli)@.verdict is Raise ==> match r {
                Ok(written) => !written && final(fli)@.verdict == old(fli)@.verdict
                    && self.encoded_field() == Ok::<Option<Tree>, CodecFault>(None),
                Err(_) => stopped(
                    old(fli)@,
                    r,
                    match self.encoded_field() {
                        Ok(_) => None,
                        Err(fault) => Some(fault),
                    },
                ),
            },
            old(fli)@.verdict is Grant ==> match self.encoded_field() {
                Ok(Some(t)) => r == Ok::<bool, TermCodecError>(true)
                    && final(fli)@.refs[term.raw() as int] == t,
                Ok(None) => r == Ok::<bool, TermCodecError>(false),
                Err(fault) => r matches Err(e) && e@ == fault,
            },
    ;
}

/// What a value that is always written is as a field.
pub open spec fn always_field(encoded: Result<Tree, CodecFault>) -> Result<
    Option<Tree>,
    CodecFault,
> {
    match encoded {
        Ok(t) => Ok(Some(t)),
        Err(fault) => Err(fault),
    }
}

/// Reads a value from a Prolog term.
///
/// A type says which terms stand for its values. One that is not verified may
/// leave that open by keeping the bodies here, with which no method can be
/// shown to meet its contract.
pub trait FromTerm: Sized {
    /// Whether the term `t` stands for `value`.
    open spec fn reads(trail: Seq<(usize, Tree)>, t: Tree, value: Self) -> bool {
        arbitrary()
    }

    /// Why the term `t` stands for no value, if it does for none.
    open spec fn read_fault(trail: Seq<(usize, Tree)>, t: Tree) -> Option<CodecFault> {
        arbitrary()
    }

    /// Whether the field `t`, which may be missing, stands for `value`.
    open spec fn reads_field(trail: Seq<(usize, Tree)>, t: Option<Tree>, value: Self) -> bool {
        arbitrary()
    }

    /// Why the field `t` stands for no value, if it does for none.
    open spec fn read_field_fault(
        trail: Seq<(usize, Tree)>,
        t: Option<Tree>,
        name: Seq<char>,
    ) -> Option<CodecFault> {
        arbitrary()
    }

    /// Reads a value from `term`.
    fn from_term<Ctx: FliContext>(ctx: &Ctx, fli: &mut Fli, term: Term<'_>) -> (r: Result<
        Self,
        TermCodecError,
    >)
        requires
            old(fli)@.at(ctx.place()),
            term.live(old(fli)@),
            !(old(fli)@.verdict is Refuse),
        ensures
            grows(old(fli)@, final(fli)@),
            !(final(fli)@.verdict is Refuse),
            old(fli)@.verdict is Raise ==> match r {
                Ok(v) => final(fli)@.verdict == old(fli)@.verdict && Self::reads(
                    old(fli)@.trail,
                    old(fli)@.refs[term.raw() as int],
                    v,
                ) && Self::read_fault(old(fli)@.trail, old(fli)@.refs[term.raw() as int]) is None,
                Err(_) => stopped(
                    old(fli)@,
                    r,
                    Self::read_fault(old(fli)@.trail, old(fli)@.refs[term.raw() as int]),
                ),
            },
            old(fli)@.verdict is Grant ==> final(fli)@.verdict is Grant,
            old(fli)@.verdict is Grant ==> match Self::read_fault(
                old(fli)@.trail,
                old(fli)@.refs[term.raw() as int],
            ) {
                None => r matches Ok(v) && Self::reads(
                    old(fli)@.trail,
                    old(fli)@.refs[term.raw() as int],
                    v,
                ),
                Some(fault) => r matches Err(e) && e@ == fault,
            },
    ;

    /// Reads a value from a field, which may be missing.
    fn __from_field<Ctx: FliContext>(
        ctx: &Ctx,
        fli: &mut Fli,
        term: Option<Term<'_>>,
        name: &str,
    ) -> (r: Result<Self, TermCodecError>)
        requires
            old(fli)@.at(ctx.place()),
            term matches Some(t) ==> t.live(old(fli)@),
            !(old(fli)@.verdict is Refuse),
        ensures
            grows(old(fli)@, final(fli)@),
            !(final(fli)@.verdict is Refuse),
            old(fli)@.verdict is Grant ==> final(fli)@.verdict is Grant,
            old(fli)@.verdict is Raise ==> match r {
                Ok(v) => final(fli)@.verdict == old(fli)@.verdict && Self::reads_field(
                    old(fli)@.trail,
                    field_tree(old(fli)@, term),
                    v,
                ) && Self::read_field_fault(
                    old(fli)@.trail,
                    field_tree(old(fli)@, term),
                    name@,
                ) is None,
                Err(_) => stopped(
                    old(fli)@,
                    r,
                    Self::read_field_fault(
                        old(fli)@.trail,
                        field_tree(old(fli)@, term),
                        name@,
                    ),
                ),
            },
            old(fli)@.verdict is Grant ==> match Self::read_field_fault(
                old(fli)@.trail,
                field_tree(old(fli)@, term),
                name@,
            ) {
                None => r matches Ok(v) && Self::reads_field(
                    old(fli)@.trail,
                    field_tree(old(fli)@, term),
                    v,
                ),
                Some(fault) => r matches Err(e) && e@ == fault,
            },
    ;
}

/// What a field holds, if it is there.
pub open spec fn field_tree(s: State, term: Option<Term>) -> Option<Tree> {
    match term {
        Some(t) => Some(s.refs[t.raw() as int]),
        None => None,
    }
}

/// Why a field that must be there stands for no value.
pub open spec fn required_field_fault(
    present: Option<CodecFault>,
    t: Option<Tree>,
    name: Seq<char>,
) -> Option<CodecFault> {
    match t {
        Some(_) => present,
        None => Some(CodecFault::MissingField(name)),
    }
}

/// The proper list of the given elements.
pub open spec fn list_tree(items: Seq<Tree>) -> Tree
    decreases items.len(),
{
    if items.len() == 0 {
        Tree::Nil
    } else {
        Tree::Pair(Box::new(items[0]), Box::new(list_tree(items.drop_first())))
    }
}

/// What references hold.
pub open spec fn held_by(terms: Seq<Term>, s: State) -> Seq<Tree> {
    Seq::new(terms.len(), |i: int| s.refs[terms[i].raw() as int])
}

/// Whether all references are live.
pub open spec fn all_live(terms: Seq<Term>, s: State) -> bool {
    forall|i: int| 0 <= i < terms.len() ==> (#[trigger] terms[i]).live(s)
}

/// Builds the proper list of what the references hold, from its end, and
/// makes it `dest`.
pub fn cons_items<Ctx: FliContext>(
    ctx: &Ctx,
    fli: &mut Fli,
    dest: Term<'_>,
    values: &Vec<Term<'_>>,
) -> (r: Result<(), TermError>)
    requires
        old(fli)@.at(ctx.place()),
        dest.live(old(fli)@),
        all_live(values@, old(fli)@),
        !(old(fli)@.verdict is Refuse),
    ensures
        old(fli)@.verdict is Raise ==> raised_writing(
            old(fli)@,
            final(fli)@,
            dest.raw(),
            r,
        ),
        old(fli)@.verdict is Grant ==> {
            &&& r is Ok
            &&& overwrites(old(fli)@, final(fli)@, dest.raw())
            &&& final(fli)@.verdict is Grant
            &&& final(fli)@.refs[dest.raw() as int] == list_tree(held_by(values@, old(fli)@))
        },
{
    let ghost items = held_by(values@, old(fli)@);
    let mut tail: Term<'_> = match ctx.term(fli) {
        Ok(term) => term,
        Err(error) => {
            return Err(error);
        },
    };
    match tail.put_nil(fli) {
        Ok(()) => {},
        Err(error) => {
            return Err(error);
        },
    }
    let mut i: usize = values.len();
    assert(items.skip(i as int) =~= Seq::empty());
    while i > 0
        invariant
            i <= values@.len(),
            old(fli)@.at(ctx.place()),
            old(fli)@.verdict is Grant,
            all_live(values@, old(fli)@),
            items == held_by(values@, old(fli)@),
            grows(old(fli)@, fli@),
            fli@.verdict is Grant,
            tail.live(fli@),
            tail.raw() >= old(fli)@.refs.len(),
            fli@.refs[tail.raw() as int] == list_tree(items.skip(i as int)),
        decreases i,
    {
        i = i - 1;
        let cell: Term<'_> = match ctx.term(fli) {
            Ok(term) => term,
            Err(error) => {
                return Err(error);
            },
        };
        assert(values@[i as int].live(old(fli)@));
        match cell.cons_list(fli, values[i], tail) {
            Ok(()) => {},
            Err(error) => {
                return Err(error);
            },
        }
        proof {
            assert(items.skip(i as int)[0] == items[i as int]);
            assert(items.skip(i as int).drop_first() =~= items.skip(i + 1));
        }
        tail = cell;
    }
    assert(items.skip(0) =~= items);
    dest.put_term(fli, tail)
}

/// Makes `dest` the proper list of what the references hold.
pub fn put_list_terms<Ctx: FliContext>(
    ctx: &Ctx,
    fli: &mut Fli,
    dest: Term<'_>,
    values: &Vec<Term<'_>>,
) -> (r: Result<(), TermCodecError>)
    requires
        old(fli)@.at(ctx.place()),
        dest.live(old(fli)@),
        all_live(values@, old(fli)@),
        !(old(fli)@.verdict is Refuse),
    ensures
        old(fli)@.verdict is Raise ==> codec_raised_writing(
            old(fli)@,
            final(fli)@,
            dest.raw(),
            r,
        ),
        old(fli)@.verdict is Grant ==> {
            &&& r is Ok
            &&& overwrites(old(fli)@, final(fli)@, dest.raw())
            &&& final(fli)@.verdict is Grant
            &&& final(fli)@.refs[dest.raw() as int] == list_tree(held_by(values@, old(fli)@))
        },
{
    match cons_items(ctx, fli, dest, values) {
        Ok(()) => Ok(()),
        Err(error) => Err(TermCodecError::Term(error)),
    }
}

/// Copies what the references hold into a fresh block.
fn put_block<'a, Ctx: FliContext>(ctx: &'a Ctx, fli: &mut Fli, values: &Vec<Term<'_>>) -> (r: Result<
    TermList<'a>,
    TermError,
>)
    requires
        old(fli)@.at(ctx.place()),
        all_live(values@, old(fli)@),
        !(old(fli)@.verdict is Refuse),
    ensures
        old(fli)@.verdict is Raise ==> raised_within(old(fli)@, final(fli)@, r),
        old(fli)@.verdict is Grant ==> {
            &&& grows(old(fli)@, final(fli)@)
            &&& final(fli)@.verdict is Grant
            &&& r matches Ok(block) && block.live(final(fli)@) && block.count() == values@.len()
                && block.first() >= old(fli)@.refs.len() && block.held(final(fli)@) == held_by(
                values@,
                old(fli)@,
            )
        },
{
    let block: TermList<'a> = match ctx.terms(fli, values.len()) {
        Ok(block) => block,
        Err(error) => {
            return Err(error);
        },
    };
    let ghost items = held_by(values@, old(fli)@);
    let mut i: usize = 0;
    while i < values.len()
        invariant
            i <= values@.len(),
            all_live(values@, old(fli)@),
            items == held_by(values@, old(fli)@),
            grows(old(fli)@, fli@),
            fli@.verdict is Grant,
            block.live(fli@),
            block.count() == values@.len(),
            block.first() >= old(fli)@.refs.len(),
            forall|k: int| 0 <= k < i ==> fli@.refs[block.first() + k] == #[trigger] items[k],
        decreases values@.len() - i,
    {
        match block.get(i) {
            Some(slot) => {
                assert(values@[i as int].live(old(fli)@));
                match slot.put_term(fli, values[i]) {
                    Ok(()) => {},
                    Err(error) => {
                        return Err(error);
                    },
                }
            },
            None => {},
        }
        i = i + 1;
    }
    assert(block.held(fli@) =~= items);
    Ok(block)
}

/// The keys of fields.
pub open spec fn field_keys(fields: Seq<(String, Term)>) -> Seq<Seq<char>> {
    Seq::new(fields.len(), |i: int| fields[i].0@)
}

/// The references of fields.
pub open spec fn field_terms(fields: Seq<(String, Term)>) -> Seq<Term> {
    Seq::new(fields.len(), |i: int| fields[i].1)
}

/// The first key that occurs before already.
pub open spec fn repeated_key(keys: Seq<Seq<char>>) -> Option<Seq<char>>
    decreases keys.len(),
{
    if keys.len() == 0 {
        None
    } else {
        match repeated_key(keys.drop_last()) {
            Some(key) => Some(key),
            None => if keys.drop_last().contains(keys.last()) {
                Some(keys.last())
            } else {
                None
            },
        }
    }
}

/// Where no key occurs before already, all keys are distinct.
pub proof fn no_repeated_key(keys: Seq<Seq<char>>)
    requires
        repeated_key(keys) is None,
    ensures
        keys_distinct(keys),
    decreases keys.len(),
{
    if keys.len() > 0 {
        let front = keys.drop_last();
        no_repeated_key(front);
        assert forall|i: int, j: int| 0 <= i < j < keys.len() implies (#[trigger] keys[i]) != (
        #[trigger] keys[j]) by {
            assert(front[i] == keys[i]);
            if j < keys.len() - 1 {
                assert(front[j] == keys[j]);
            }
        }
    }
}

/// Where the first keys hold a repeated one, it is the first of all.
proof fn repeated_key_stays(keys: Seq<Seq<char>>, n: int)
    requires
        0 <= n <= keys.len(),
        repeated_key(keys.take(n)) is Some,
    ensures
        repeated_key(keys) == repeated_key(keys.take(n)),
    decreases keys.len(),
{
    if n == keys.len() {
        assert(keys.take(n) =~= keys);
    } else {
        assert(keys.drop_last().take(n) =~= keys.take(n));
        repeated_key_stays(keys.drop_last(), n);
    }
}

/// Finds the first key that occurs before already.
fn find_repeated(fields: &Vec<(String, Term<'_>)>) -> (r: Option<String>)
    ensures
        match r {
            Some(key) => repeated_key(field_keys(fields@)) == Some(key@),
            None => repeated_key(field_keys(fields@)) is None,
        },
{
    let ghost keys = field_keys(fields@);
    let mut i: usize = 0;
    assert(keys.take(0) =~= Seq::empty());
    while i < fields.len()
        invariant
            i <= fields@.len(),
            keys == field_keys(fields@),
            repeated_key(keys.take(i as int)) is None,
        decreases fields@.len() - i,
    {
        proof {
            assert(keys.take(i + 1).drop_last() =~= keys.take(i as int));
            assert(keys.take(i + 1).last() == fields@[i as int].0@);
        }
        let mut j: usize = 0;
        while j < i
            invariant
                j <= i < fields@.len(),
                keys == field_keys(fields@),
                repeated_key(keys.take(i as int)) is None,
                keys.take(i + 1).drop_last() == keys.take(i as int),
                keys.take(i + 1).last() == fields@[i as int].0@,
                forall|k: int| 0 <= k < j ==> #[trigger] keys[k] != keys[i as int],
            decreases i - j,
        {
            if same_text(fields[j].0.as_str(), fields[i].0.as_str()) {
                proof {
                    assert(keys.take(i as int)[j as int] == keys[i as int]);
                    repeated_key_stays(keys, i + 1);
                }
                return Some(fields[i].0.clone());
            }
            j = j + 1;
        }
        i = i + 1;
    }
    assert(keys.take(i as int) =~= keys);
    None
}

/// Builds the dict of the fields and makes it `dest`; the engine objects to a
/// repeated key.
pub fn put_entries<Ctx: FliContext>(
    ctx: &Ctx,
    fli: &mut Fli,
    dest: Term<'_>,
    tag: &str,
    fields: &Vec<(String, Term<'_>)>,
) -> (r: Result<(), TermError>)
    requires
        old(fli)@.at(ctx.place()),
        dest.live(old(fli)@),
        all_live(field_terms(fields@), old(fli)@),
        !(old(fli)@.verdict is Refuse),
    ensures
        old(fli)@.verdict is Raise ==> raised_writing(
            old(fli)@,
            final(fli)@,
            dest.raw(),
            r,
        ),
        old(fli)@.verdict is Grant ==> {
            &&& overwrites(old(fli)@, final(fli)@, dest.raw())
            &&& final(fli)@.verdict is Grant
            &&& if keys_distinct(field_keys(fields@)) {
                &&& r is Ok
                &&& final(fli)@.refs[dest.raw() as int] == dict_tree(
                    tag@,
                    field_keys(fields@),
                    held_by(field_terms(fields@), old(fli)@),
                )
            } else {
                &&& final(fli)@.refs[dest.raw() as int] == old(fli)@.refs[dest.raw() as int]
                &&& r matches Err(TermError::Exception(_))
            }
        },
{
    let mut terms: Vec<Term<'_>> = Vec::new();
    let mut keys: Vec<Atom> = Vec::new();
    let mut i: usize = 0;
    while i < fields.len()
        invariant
            i <= fields@.len(),
            terms@.len() == i,
            keys@.len() == i,
            forall|k: int| 0 <= k < i ==> #[trigger] terms@[k] == fields@[k].1,
            forall|k: int| 0 <= k < i ==> (#[trigger] keys@[k])@ == fields@[k].0@,
        decreases fields@.len() - i,
    {
        terms.push(fields[i].1);
        keys.push(Atom::new(ctx, fields[i].0.as_str()));
        i = i + 1;
    }
    assert(terms@ =~= field_terms(fields@));
    let block: TermList<'_> = match put_block(ctx, fli, &terms) {
        Ok(block) => block,
        Err(error) => {
            return Err(error);
        },
    };
    let mut key_refs: Vec<&Atom> = Vec::new();
    let mut j: usize = 0;
    while j < keys.len()
        invariant
            j <= keys@.len(),
            key_refs@.len() == j,
            forall|k: int| 0 <= k < j ==> *(#[trigger] key_refs@[k]) == keys@[k],
        decreases keys@.len() - j,
    {
        key_refs.push(&keys[j]);
        j = j + 1;
    }
    assert(texts(key_refs@) =~= field_keys(fields@));
    dest.put_dict(fli, &Atom::new(ctx, tag), key_refs.as_slice(), &block)
}

/// Makes `dest` the dict of the fields. No key may occur twice.
pub fn put_dict<Ctx: FliContext>(
    ctx: &Ctx,
    fli: &mut Fli,
    dest: Term<'_>,
    tag: &str,
    fields: Vec<(String, Term<'_>)>,
) -> (r: Result<(), TermCodecError>)
    requires
        old(fli)@.at(ctx.place()),
        dest.live(old(fli)@),
        all_live(field_terms(fields@), old(fli)@),
        !(old(fli)@.verdict is Refuse),
    ensures
        match repeated_key(field_keys(fields@)) {
            Some(key) => {
                &&& r matches Err(e) && e@ == CodecFault::DuplicateField(key)
                &&& final(fli)@ == old(fli)@
            },
            None => {
                &&& old(fli)@.verdict is Raise ==> codec_raised_writing(
                    old(fli)@,
                    final(fli)@,
                    dest.raw(),
                    r,
                )
                &&& old(fli)@.verdict is Grant ==> {
                    &&& r is Ok
                    &&& overwrites(old(fli)@, final(fli)@, dest.raw())
                    &&& final(fli)@.verdict is Grant
                    &&& final(fli)@.refs[dest.raw() as int] == dict_tree(
                        tag@,
                        field_keys(fields@),
                        held_by(field_terms(fields@), old(fli)@),
                    )
                }
            },
        },
{
    match find_repeated(&fields) {
        Some(field) => {
            return Err(TermCodecError::DuplicateField { field });
        },
        None => {},
    }
    proof {
        no_repeated_key(field_keys(fields@));
    }
    match put_entries(ctx, fli, dest, tag, &fields) {
        Ok(()) => Ok(()),
        Err(error) => Err(TermCodecError::Term(error)),
    }
}

/// Makes `dest` the compound of what the references hold; without any it is
/// the atom.
pub fn put_compound<Ctx: FliContext>(
    ctx: &Ctx,
    fli: &mut Fli,
    dest: Term<'_>,
    name: &str,
    values: &Vec<Term<'_>>,
) -> (r: Result<(), TermCodecError>)
    requires
        old(fli)@.at(ctx.place()),
        dest.live(old(fli)@),
        all_live(values@, old(fli)@),
        !(old(fli)@.verdict is Refuse),
    ensures
        old(fli)@.verdict is Raise ==> {
            &&& overwrites(old(fli)@, final(fli)@, dest.raw())
            &&& final(fli)@.verdict is Grant
            &&& r matches Err(e) && (e@ == CodecFault::Term(
                TermError::Exception(old(fli)@.verdict->Raise_0),
            ) || e@ == CodecFault::Handle(HandleError::Exception(old(fli)@.verdict->Raise_0)))
        },
        old(fli)@.verdict is Grant ==> {
            &&& r is Ok
            &&& overwrites(old(fli)@, final(fli)@, dest.raw())
            &&& final(fli)@.verdict is Grant
            &&& final(fli)@.refs[dest.raw() as int] == compound_tree(
                name@,
                held_by(values@, old(fli)@),
            )
        },
{
    if values.len() == 0 {
        return match dest.put_atom_text(fli, name) {
            Ok(()) => Ok(()),
            Err(error) => Err(TermCodecError::Term(error)),
        };
    }
    let args: TermList<'_> = match put_block(ctx, fli, values) {
        Ok(block) => block,
        Err(error) => {
            return Err(TermCodecError::Term(error));
        },
    };
    let functor: Functor = match Functor::from_name(ctx, fli, name, values.len()) {
        Ok(functor) => functor,
        Err(error) => {
            return Err(TermCodecError::Handle(error));
        },
    };
    match dest.cons_functor(fli, &functor, &args) {
        Ok(()) => Ok(()),
        Err(error) => Err(TermCodecError::Term(error)),
    }
}

/// The text of a dict key.
pub open spec fn key_text(key: Key) -> Seq<char> {
    match key {
        Key::Atom(name) => name,
        Key::Int(value) => decimal(value),
    }
}

/// Where a field stands, if it is there.
pub open spec fn field_position(fields: Seq<(Seq<char>, Tree)>, name: Seq<char>) -> Option<nat>
    decreases fields.len(),
{
    if fields.len() == 0 {
        None
    } else {
        match field_position(fields.drop_last(), name) {
            Some(i) => Some(i),
            None => if fields.last().0 == name {
                Some((fields.len() - 1) as nat)
            } else {
                None
            },
        }
    }
}

/// Where a field with a new name comes to stand: behind the last one whose name
/// is before it.
pub open spec fn field_place(fields: Seq<(Seq<char>, Tree)>, name: Seq<char>) -> nat
    decreases fields.len(),
{
    if fields.len() == 0 {
        0
    } else if text_before(fields.last().0, name) {
        fields.len()
    } else {
        field_place(fields.drop_last(), name)
    }
}

/// The fields once one more was set: one with the same name is replaced, and a
/// new one comes to stand in the order of the names.
pub open spec fn with_field(
    fields: Seq<(Seq<char>, Tree)>,
    name: Seq<char>,
    value: Tree,
) -> Seq<(Seq<char>, Tree)> {
    match field_position(fields, name) {
        Some(i) => fields.update(i as int, (name, value)),
        None => fields.insert(field_place(fields, name) as int, (name, value)),
    }
}

/// The fields of a dict's entries in the order of their names: integer keys
/// become texts, and of keys with the same text the last one counts.
pub open spec fn fields_of(entries: Seq<(Key, Tree)>) -> Seq<(Seq<char>, Tree)>
    decreases entries.len(),
{
    if entries.len() == 0 {
        Seq::empty()
    } else {
        with_field(
            fields_of(entries.drop_last()),
            key_text(entries.last().0),
            entries.last().1,
        )
    }
}

/// What fields denote.
pub open spec fn fields_view(fields: Seq<(String, Term)>, s: State) -> Seq<(Seq<char>, Tree)> {
    Seq::new(fields.len(), |i: int| (fields[i].0@, s.refs[fields[i].1.raw() as int]))
}

/// Finds [`field_place`].
fn find_place(fields: &Vec<(String, Term<'_>)>, name: &str, Ghost(s): Ghost<State>) -> (r: usize)
    ensures
        r == field_place(fields_view(fields@, s), name@),
        r <= fields@.len(),
{
    let ghost view = fields_view(fields@, s);
    let mut n: usize = fields.len();
    assert(view.take(n as int) =~= view);
    while n > 0
        invariant
            n <= fields@.len(),
            view == fields_view(fields@, s),
            field_place(view.take(n as int), name@) == field_place(view, name@),
        decreases n,
    {
        assert(view.take(n as int).drop_last() =~= view.take(n - 1));
        assert(view.take(n as int).last() == view[n - 1]);
        if is_text_before(fields[n - 1].0.as_str(), name) {
            return n;
        }
        n = n - 1;
    }
    n
}

/// Where a field stands, or the number of fields if it is not there.
fn find_field(fields: &Vec<(String, Term<'_>)>, name: &str, Ghost(s): Ghost<State>) -> (r: usize)
    ensures
        r <= fields@.len(),
        field_position(fields_view(fields@, s), name@) == if r < fields@.len() {
            Some(r as nat)
        } else {
            None
        },
{
    let ghost view = fields_view(fields@, s);
    let mut i: usize = 0;
    assert(view.take(0) =~= Seq::empty());
    while i < fields.len()
        invariant
            i <= fields@.len(),
            view == fields_view(fields@, s),
            field_position(view.take(i as int), name@) is None,
        decreases fields@.len() - i,
    {
        proof {
            assert(view.take(i + 1).drop_last() =~= view.take(i as int));
            assert(view.take(i + 1).last() == view[i as int]);
        }
        if same_text(fields[i].0.as_str(), name) {
            proof {
                field_position_stays(view, name@, i + 1);
            }
            return i;
        }
        i = i + 1;
    }
    assert(view.take(i as int) =~= view);
    i
}

/// A field among the first ones stands where it does among all.
proof fn field_position_stays(fields: Seq<(Seq<char>, Tree)>, name: Seq<char>, n: int)
    requires
        0 <= n <= fields.len(),
        field_position(fields.take(n), name) is Some,
    ensures
        field_position(fields, name) == field_position(fields.take(n), name),
    decreases fields.len(),
{
    if n == fields.len() {
        assert(fields.take(n) =~= fields);
    } else {
        assert(fields.drop_last().take(n) =~= fields.take(n));
        field_position_stays(fields.drop_last(), name, n);
    }
}

/// A field stands at its position.
pub proof fn field_position_holds(fields: Seq<(Seq<char>, Tree)>, name: Seq<char>)
    ensures
        field_position(fields, name) matches Some(i) ==> i < fields.len() && fields[i as int].0
            == name,
        field_position(fields, name) is None ==> forall|i: int|
            0 <= i < fields.len() ==> (#[trigger] fields[i]).0 != name,
    decreases fields.len(),
{
    if fields.len() > 0 {
        field_position_holds(fields.drop_last(), name);
        assert forall|i: int|
            field_position(fields, name) is None && 0 <= i < fields.len() implies (
        #[trigger] fields[i]).0 != name by {
            if i < fields.len() - 1 {
                assert(fields.drop_last()[i] == fields[i]);
            }
        }
    }
}

/// The text of a dict key.
fn dict_key_text(key: &DictKey) -> (r: String)
    ensures
        r@ == key_text(key@),
{
    match key {
        DictKey::Atom(atom) => atom.text(),
        DictKey::Int(value) => decimal_text(*value as i128),
    }
}

/// Reads the fields of a dict. Integer keys become texts, and of keys with the
/// same text the last one counts.
pub fn dict_fields<'a, Ctx: FliContext>(ctx: &'a Ctx, fli: &mut Fli, term: Term<'_>) -> (r: Result<
    Vec<(String, Term<'a>)>,
    TermCodecError,
>)
    requires
        old(fli)@.at(ctx.place()),
        term.live(old(fli)@),
        !(old(fli)@.verdict is Refuse),
    ensures
        match old(fli)@.value(term.raw()) {
            Tree::Dict(tag, entries) => if old(fli)@.verdict is Raise && entries.len() > 0 {
                codec_raised_within(old(fli)@, final(fli)@, r)
            } else {
                &&& grows(old(fli)@, final(fli)@)
                &&& final(fli)@.verdict == old(fli)@.verdict
                &&& r matches Ok(fields) && all_live(field_terms(fields@), final(fli)@)
                    && fields_view(fields@, final(fli)@) == fields_of(in_order(entries))
            },
            _ => {
                &&& r matches Err(e) && e@ == CodecFault::Term(
                    TermError::TypeMismatch { expected: "a dict" },
                )
                &&& final(fli)@ == old(fli)@
            },
        },
{
    let mut entries: Vec<(DictKey, Term<'a>)> = match term.dict_entries(ctx, fli) {
        Ok(entries) => entries,
        Err(error) => {
            return Err(TermCodecError::Term(error));
        },
    };
    let ghost pairs = pairs_view(entries@, fli@);
    let mut fields: Vec<(String, Term<'a>)> = Vec::new();
    let mut i: usize = 0;
    proof {
        assert(pairs.take(0) =~= Seq::empty());
        assert(fields_view(fields@, fli@) =~= fields_of(pairs.take(0)));
    }
    while i < entries.len()
        invariant
            i <= entries@.len(),
            pairs == pairs_view(entries@, fli@),
            forall|k: int| 0 <= k < entries@.len() ==> (#[trigger] entries@[k]).1.live(fli@),
            fields_view(fields@, fli@) == fields_of(pairs.take(i as int)),
            all_live(field_terms(fields@), fli@),
        decreases entries@.len() - i,
    {
        let name: String = dict_key_text(&entries[i].0);
        let value: Term<'a> = entries[i].1;
        let ghost before = fields@;
        let ghost view = fields_view(before, fli@);
        proof {
            assert(pairs.take(i + 1).drop_last() =~= pairs.take(i as int));
            assert(pairs.take(i + 1).last() == pairs[i as int]);
        }
        let at: usize = find_field(&fields, name.as_str(), Ghost(fli@));
        if at < fields.len() {
            fields.set(at, (name, value));
            assert(fields_view(fields@, fli@) =~= view.update(
                at as int,
                (name@, fli@.refs[value.raw() as int]),
            ));
        } else {
            let place: usize = find_place(&fields, name.as_str(), Ghost(fli@));
            fields.insert(place, (name, value));
            assert(fields_view(fields@, fli@) =~= view.insert(
                place as int,
                (name@, fli@.refs[value.raw() as int]),
            ));
        }
        assert forall|k: int| 0 <= k < field_terms(fields@).len() implies (
        #[trigger] field_terms(fields@)[k]).live(fli@) by {
            if k < before.len() {
                assert(field_terms(before)[k].live(fli@));
            }
            if k > 0 && k - 1 < before.len() {
                assert(field_terms(before)[k - 1].live(fli@));
            }
        }
        i = i + 1;
    }
    assert(pairs.take(i as int) =~= pairs);
    Ok(fields)
}

/// Takes a field out, if it is there.
pub fn take_field<'a>(fields: &mut Vec<(String, Term<'a>)>, name: &str) -> (r: Option<Term<'a>>)
    ensures
        forall|s: State|
            match field_position(#[trigger] fields_view(old(fields)@, s), name@) {
                Some(i) => {
                    &&& r matches Some(t) && t == old(fields)@[i as int].1
                    &&& final(fields)@ == old(fields)@.remove(i as int)
                },
                None => r is None && final(fields)@ == old(fields)@,
            },
{
    let ghost any = arbitrary::<State>();
    let at: usize = find_field(fields, name, Ghost(any));
    proof {
        assert forall|s: State| field_position(#[trigger] fields_view(fields@, s), name@)
            == field_position(fields_view(fields@, any), name@) by {
            field_position_by_names(fields_view(fields@, s), fields_view(fields@, any), name@);
        }
    }
    if at < fields.len() {
        let (_, term) = fields.remove(at);
        Some(term)
    } else {
        None
    }
}

/// Where a field stands depends on the names alone.
proof fn field_position_by_names(
    a: Seq<(Seq<char>, Tree)>,
    b: Seq<(Seq<char>, Tree)>,
    name: Seq<char>,
)
    requires
        a.len() == b.len(),
        forall|i: int| 0 <= i < a.len() ==> (#[trigger] a[i]).0 == b[i].0,
    ensures
        field_position(a, name) == field_position(b, name),
    decreases a.len(),
{
    if a.len() > 0 {
        assert forall|i: int| 0 <= i < a.drop_last().len() implies (
        #[trigger] a.drop_last()[i]).0 == b.drop_last()[i].0 by {
            assert(a[i].0 == b[i].0);
        }
        field_position_by_names(a.drop_last(), b.drop_last(), name);
        assert(a[a.len() - 1].0 == b[b.len() - 1].0);
    }
}

/// The tag of a dict, as [`require_dict_tag`] sees it: a text, none, or an
/// error.
pub open spec fn tag_of(trail: Seq<(usize, Tree)>, t: Tree) -> Result<
    Option<Seq<char>>,
    CodecFault,
> {
    match t {
        Tree::Dict(tag, entries) => match resolve(trail, *tag) {
            Tree::Var(id) => Ok(None),
            Tree::Atom(name) => Ok(Some(name)),
            _ => Err(CodecFault::Term(TermError::TypeMismatch { expected: "an atom" })),
        },
        _ => Err(CodecFault::Term(TermError::TypeMismatch { expected: "a dict" })),
    }
}

/// Why a term is not a dict with the given tag, if it is none.
pub open spec fn tag_fault(
    trail: Seq<(usize, Tree)>,
    t: Tree,
    expected: Seq<char>,
) -> Option<CodecFault> {
    match tag_of(trail, t) {
        Err(fault) => Some(fault),
        Ok(actual) => if actual == Some(expected) {
            None
        } else {
            Some(CodecFault::DictTag(expected, actual))
        },
    }
}

/// Checks that a term is a dict with the given tag.
pub fn require_dict_tag<Ctx: FliContext>(
    ctx: &Ctx,
    fli: &mut Fli,
    term: Term<'_>,
    expected: &str,
) -> (r: Result<(), TermCodecError>)
    requires
        term.live(old(fli)@),
        old(fli)@.value(term.raw()) is Dict ==> old(fli)@.at(ctx.place()),
        !(old(fli)@.verdict is Refuse),
    ensures
        !(old(fli)@.value(term.raw()) is Dict) ==> final(fli)@ == old(fli)@,
        old(fli)@.value(term.raw()) is Dict ==> grows(old(fli)@, final(fli)@)
            && final(fli)@.verdict is Grant,
        old(fli)@.value(term.raw()) is Dict && old(fli)@.verdict is Grant
            ==> final(fli)@.refs.len() == old(fli)@.refs.len() + 2,
        old(fli)@.verdict is Raise && old(fli)@.value(term.raw()) is Dict ==> codec_raised_within(
            old(fli)@,
            final(fli)@,
            r,
        ),
        old(fli)@.verdict is Grant || !(old(fli)@.value(term.raw()) is Dict) ==> match tag_fault(
            old(fli)@.trail,
            old(fli)@.value(term.raw()),
            expected@,
        ) {
            None => r is Ok,
            Some(fault) => r matches Err(e) && e@ == fault,
        },
{
    let actual: Option<String> = match term.dict_tag(ctx, fli) {
        Ok(Some(atom)) => Some(atom.text()),
        Ok(None) => None,
        Err(error) => {
            return Err(TermCodecError::Term(error));
        },
    };
    match &actual {
        Some(text) => {
            if same_text(text.as_str(), expected) {
                return Ok(());
            }
        },
        None => {},
    }
    Err(TermCodecError::DictTag { expected: expected.to_owned(), actual })
}

/// Why a term is not a compound with the given name and arity (or, without
/// arguments, the atom), if it is none.
pub open spec fn compound_fault(t: Tree, name: Seq<char>, arity: nat) -> Option<CodecFault> {
    if arity == 0 && t is Atom {
        if t->Atom_0 == name {
            None
        } else {
            Some(CodecFault::Functor(name, 0, t->Atom_0, 0))
        }
    } else {
        match compound_parts(t) {
            None => Some(
                CodecFault::Term(TermError::TypeMismatch { expected: "a compound term" }),
            ),
            Some((actual, args)) => if actual != name || args.len() != arity {
                Some(CodecFault::Functor(name, arity, actual, args.len()))
            } else {
                None
            },
        }
    }
}

/// The arguments of a compound, or of an atom.
pub open spec fn compound_items(t: Tree) -> Seq<Tree> {
    match compound_parts(t) {
        Some((name, args)) => args,
        None => Seq::empty(),
    }
}

/// Reads the arguments of a compound with the given name and arity.
pub fn compound_args<'a, Ctx: FliContext>(
    ctx: &'a Ctx,
    fli: &mut Fli,
    term: Term<'_>,
    expected_name: &str,
    expected_arity: usize,
) -> (r: Result<Vec<Term<'a>>, TermCodecError>)
    requires
        old(fli)@.at(ctx.place()),
        term.live(old(fli)@),
        !(old(fli)@.verdict is Refuse),
    ensures
        old(fli)@.verdict is Raise ==> codec_raised_within(old(fli)@, final(fli)@, r),
        old(fli)@.verdict is Grant ==> grows(old(fli)@, final(fli)@) && final(fli)@.verdict
            is Grant,
        old(fli)@.verdict is Grant ==> match compound_fault(
            old(fli)@.value(term.raw()),
            expected_name@,
            expected_arity as nat,
        ) {
            None => r matches Ok(args) && all_live(args@, final(fli)@) && held_by(
                args@,
                final(fli)@,
            ) == compound_items(old(fli)@.value(term.raw())),
            Some(fault) => r matches Err(e) && e@ == fault,
        },
{
    let ghost value = fli@.value(term.raw());
    if expected_arity == 0 && term.kind(fli) == TermKind::Atom {
        let actual_name: String = match term.get_atom(fli) {
            Ok(atom) => atom.text(),
            Err(error) => {
                return Err(TermCodecError::Term(error));
            },
        };
        if same_text(actual_name.as_str(), expected_name) {
            let none: Vec<Term<'a>> = Vec::new();
            assert(held_by(none@, fli@) =~= compound_items(value));
            return Ok(none);
        }
        return Err(
            TermCodecError::Functor {
                expected_name: expected_name.to_owned(),
                expected_arity,
                actual_name,
                actual_arity: 0,
            },
        );
    }
    let (name, arity) = match term.name_arity(fli) {
        Ok(parts) => parts,
        Err(error) => {
            return Err(TermCodecError::Term(error));
        },
    };
    let actual_name: String = name.text();
    if !same_text(actual_name.as_str(), expected_name) || arity != expected_arity {
        return Err(
            TermCodecError::Functor {
                expected_name: expected_name.to_owned(),
                expected_arity,
                actual_name,
                actual_arity: arity,
            },
        );
    }
    let ghost items = compound_items(value);
    let mut args: Vec<Term<'a>> = Vec::new();
    let mut index: usize = 0;
    while index < arity
        invariant
            index <= arity,
            arity == items.len(),
            args@.len() == index,
            compound_parts(value) is Some,
            items == compound_items(value),
            old(fli)@.at(ctx.place()),
            term.live(old(fli)@),
            value == old(fli)@.value(term.raw()),
            grows(old(fli)@, fli@),
            fli@.verdict is Grant,
            forall|k: int|
                0 <= k < index ==> (#[trigger] args@[k]).live(fli@) && fli@.refs[args@[k].raw() as int]
                    == items[k],
        decreases arity - index,
    {
        match term.get_arg(ctx, fli, index) {
            Ok(arg) => {
                args.push(arg);
            },
            Err(error) => {
                return Err(TermCodecError::Term(error));
            },
        }
        index = index + 1;
    }
    assert(held_by(args@, fli@) =~= items);
    Ok(args)
}

/// Whether `after` differs from `before` at most in the block, by new term
/// references, by new variables, and in the pending answer.
pub open spec fn fills_block(before: State, after: State, block: TermList) -> bool {
    &&& after.gen == before.gen
    &&& after.newest == before.newest
    &&& after.trail == before.trail
    &&& after.marks == before.marks
    &&& after.log == before.log
    &&& after.fresh >= before.fresh
    &&& after.refs.len() >= before.refs.len()
    &&& forall|i: int|
        0 <= i < before.refs.len() && !(block.first() <= i < block.first() + block.count())
            ==> #[trigger] after.refs[i] == before.refs[i]
}

/// Writes a tuple into an existing argument block.
pub trait ToTerms {
    /// How many arguments there are.
    spec fn count() -> nat;

    /// The terms that stand for the arguments, or why the first one that has
    /// none has none.
    spec fn encoded_terms(&self) -> Result<Seq<Tree>, CodecFault>;

    /// How many arguments there are.
    fn len() -> (r: usize)
        ensures
            r == Self::count(),
    ;

    /// Writes the arguments into the block.
    fn to_terms<Ctx: FliContext>(&self, ctx: &Ctx, fli: &mut Fli, terms: &TermList<'_>) -> (r: Result<
        (),
        TermCodecError,
    >)
        requires
            old(fli)@.at(ctx.place()),
            terms.live(old(fli)@),
            terms.count() == Self::count(),
            !(old(fli)@.verdict is Refuse),
        ensures
            fills_block(old(fli)@, final(fli)@, *terms),
            !(final(fli)@.verdict is Refuse),
            old(fli)@.verdict is Raise ==> (if Self::count() > 0 {
                stopped(
                    old(fli)@,
                    r,
                    match self.encoded_terms() {
                        Ok(_) => None,
                        Err(fault) => Some(fault),
                    },
                )
            } else {
                r is Ok && final(fli)@ == old(fli)@
            }),
            old(fli)@.verdict is Grant ==> final(fli)@.verdict is Grant,
            old(fli)@.verdict is Grant ==> match self.encoded_terms() {
                Ok(ts) => r is Ok && terms.held(final(fli)@) == ts,
                Err(fault) => r matches Err(e) && e@ == fault,
            },
    ;
}

/// Reads a tuple from an existing argument block.
pub trait FromTerms: Sized {
    /// How many arguments there are.
    spec fn count() -> nat;

    /// Whether the terms stand for the arguments.
    spec fn reads_terms(trail: Seq<(usize, Tree)>, ts: Seq<Tree>, value: Self) -> bool;

    /// Why the terms stand for no arguments, if they do for none.
    spec fn terms_fault(trail: Seq<(usize, Tree)>, ts: Seq<Tree>) -> Option<CodecFault>;

    /// How many arguments there are.
    fn len() -> (r: usize)
        ensures
            r == Self::count(),
    ;

    /// Reads the arguments from the block.
    fn from_terms<Ctx: FliContext>(ctx: &Ctx, fli: &mut Fli, terms: &TermList<'_>) -> (r: Result<
        Self,
        TermCodecError,
    >)
        requires
            old(fli)@.at(ctx.place()),
            terms.live(old(fli)@),
            terms.count() == Self::count(),
            !(old(fli)@.verdict is Refuse),
        ensures
            grows(old(fli)@, final(fli)@),
            !(final(fli)@.verdict is Refuse),
            old(fli)@.verdict is Raise ==> match r {
                Ok(v) => final(fli)@.verdict == old(fli)@.verdict && Self::reads_terms(
                    old(fli)@.trail,
                    terms.held(old(fli)@),
                    v,
                ) && Self::terms_fault(old(fli)@.trail, terms.held(old(fli)@)) is None,
                Err(_) => stopped(
                    old(fli)@,
                    r,
                    Self::terms_fault(old(fli)@.trail, terms.held(old(fli)@)),
                ),
            },
            old(fli)@.verdict is Grant ==> final(fli)@.verdict is Grant,
            old(fli)@.verdict is Grant ==> match Self::terms_fault(
                old(fli)@.trail,
                terms.held(old(fli)@),
            ) {
                None => r matches Ok(v) && Self::reads_terms(
                    old(fli)@.trail,
                    terms.held(old(fli)@),
                    v,
                ),
                Some(fault) => r matches Err(e) && e@ == fault,
            },
    ;
}

impl ToTerms for () {
    open spec fn count() -> nat {
        0
    }

    open spec fn encoded_terms(&self) -> Result<Seq<Tree>, CodecFault> {
        Ok(Seq::empty())
    }

    fn len() -> (r: usize) {
        0
    }

    fn to_terms<Ctx: FliContext>(&self, ctx: &Ctx, fli: &mut Fli, terms: &TermList<'_>) -> (r: Result<
        (),
        TermCodecError,
    >) {
        assert(terms.held(fli@) =~= Seq::empty());
        Ok(())
    }
}

impl FromTerms for () {
    open spec fn count() -> nat {
        0
    }

    open spec fn reads_terms(trail: Seq<(usize, Tree)>, ts: Seq<Tree>, value: Self) -> bool {
        true
    }

    open spec fn terms_fault(trail: Seq<(usize, Tree)>, ts: Seq<Tree>) -> Option<CodecFault> {
        None
    }

    fn len() -> (r: usize) {
        0
    }

    fn from_terms<Ctx: FliContext>(ctx: &Ctx, fli: &mut Fli, terms: &TermList<'_>) -> (r: Result<
        Self,
        TermCodecError,
    >) {
        Ok(())
    }
}

/// Writes a value into `term`.
pub fn to_term<Ctx: FliContext, T: ToTerm + ?Sized>(
    ctx: &Ctx,
    fli: &mut Fli,
    term: Term<'_>,
    value: &T,
) -> (r: Result<(), TermCodecError>)
    requires
        old(fli)@.at(ctx.place()),
        term.live(old(fli)@),
        !(old(fli)@.verdict is Refuse),
    ensures
        overwrites(old(fli)@, final(fli)@, term.raw()),
        !(final(fli)@.verdict is Refuse),
        old(fli)@.verdict is Raise ==> stopped(old(fli)@, r, fault_of(value.encoded())),
        old(fli)@.verdict is Grant ==> final(fli)@.verdict is Grant && match value.encoded() {
            Ok(t) => r is Ok && final(fli)@.refs[term.raw() as int] == t,
            Err(fault) => r matches Err(e) && e@ == fault,
        },
{
    value.to_term(ctx, fli, term)
}

/// Reads a value from `term`.
pub fn from_term<Ctx: FliContext, T: FromTerm>(ctx: &Ctx, fli: &mut Fli, term: Term<'_>) -> (r: Result<
    T,
    TermCodecError,
>)
    requires
        old(fli)@.at(ctx.place()),
        term.live(old(fli)@),
        !(old(fli)@.verdict is Refuse),
    ensures
        grows(old(fli)@, final(fli)@),
        !(final(fli)@.verdict is Refuse),
        old(fli)@.verdict is Raise ==> match r {
            Ok(v) => final(fli)@.verdict == old(fli)@.verdict && T::reads(
                old(fli)@.trail,
                old(fli)@.refs[term.raw() as int],
                v,
            ) && T::read_fault(old(fli)@.trail, old(fli)@.refs[term.raw() as int]) is None,
            Err(_) => stopped(
                old(fli)@,
                r,
                T::read_fault(old(fli)@.trail, old(fli)@.refs[term.raw() as int]),
            ),
        },
        old(fli)@.verdict is Grant ==> final(fli)@.verdict is Grant && match T::read_fault(
            old(fli)@.trail,
            old(fli)@.refs[term.raw() as int],
        ) {
            None => r matches Ok(v) && T::reads(
                old(fli)@.trail,
                old(fli)@.refs[term.raw() as int],
                v,
            ),
            Some(fault) => r matches Err(e) && e@ == fault,
        },
{
    T::from_term(ctx, fli, term)
}

/// Writes a tuple into an argument block, which must have as many references.
pub fn to_terms<Ctx: FliContext, T: ToTerms>(
    ctx: &Ctx,
    fli: &mut Fli,
    terms: &TermList<'_>,
    value: &T,
) -> (r: Result<(), TermCodecError>)
    requires
        old(fli)@.at(ctx.place()),
        terms.live(old(fli)@),
        !(old(fli)@.verdict is Refuse),
    ensures
        terms.count() != T::count() ==> {
            &&& r matches Err(e) && e@ == CodecFault::ArityMismatch(terms.count(), T::count())
            &&& final(fli)@ == old(fli)@
        },
        !(final(fli)@.verdict is Refuse),
        old(fli)@.verdict is Grant ==> final(fli)@.verdict is Grant,
        terms.count() == T::count() ==> fills_block(old(fli)@, final(fli)@, *terms),
        terms.count() == T::count() && old(fli)@.verdict is Raise ==> (if T::count() > 0 {
            stopped(
                old(fli)@,
                r,
                match value.encoded_terms() {
                    Ok(_) => None,
                    Err(fault) => Some(fault),
                },
            )
        } else {
            r is Ok && final(fli)@ == old(fli)@
        }),
        terms.count() == T::count() && old(fli)@.verdict is Grant ==> match value.encoded_terms() {
            Ok(ts) => r is Ok && terms.held(final(fli)@) == ts,
            Err(fault) => r matches Err(e) && e@ == fault,
        },
{
    let count: usize = T::len();
    if terms.len() != count {
        return Err(TermCodecError::ArityMismatch { expected: terms.len(), actual: count });
    }
    value.to_terms(ctx, fli, terms)
}

/// Reads a tuple from an argument block, which must have as many references.
pub fn from_terms<Ctx: FliContext, T: FromTerms>(ctx: &Ctx, fli: &mut Fli, terms: &TermList<'_>) -> (r:
    Result<T, TermCodecError>)
    requires
        old(fli)@.at(ctx.place()),
        terms.live(old(fli)@),
        !(old(fli)@.verdict is Refuse),
    ensures
        terms.count() != T::count() ==> {
            &&& r matches Err(e) && e@ == CodecFault::ArityMismatch(T::count(), terms.count())
            &&& final(fli)@ == old(fli)@
        },
        !(final(fli)@.verdict is Refuse),
        old(fli)@.verdict is Grant ==> final(fli)@.verdict is Grant,
        terms.count() == T::count() ==> grows(old(fli)@, final(fli)@),
        terms.count() == T::count() && old(fli)@.verdict is Raise ==> match r {
            Ok(v) => final(fli)@.verdict == old(fli)@.verdict && T::reads_terms(
                old(fli)@.trail,
                terms.held(old(fli)@),
                v,
            ) && T::terms_fault(old(fli)@.trail, terms.held(old(fli)@)) is None,
            Err(_) => stopped(
                old(fli)@,
                r,
                T::terms_fault(old(fli)@.trail, terms.held(old(fli)@)),
            ),
        },
        terms.count() == T::count() && old(fli)@.verdict is Grant ==> match T::terms_fault(
            old(fli)@.trail,
            terms.held(old(fli)@),
        ) {
            None => r matches Ok(v) && T::reads_terms(
                old(fli)@.trail,
                terms.held(old(fli)@),
                v,
            ),
            Some(fault) => r matches Err(e) && e@ == fault,
        },
{
    let count: usize = T::len();
    if terms.len() != count {
        return Err(TermCodecError::ArityMismatch { expected: count, actual: terms.len() });
    }
    T::from_terms(ctx, fli, terms)
}

} // verus!
