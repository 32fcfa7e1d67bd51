//! Conversion of tuples: to and from lists, and to and from argument blocks.
//!
//! A tuple is taken apart into a chain of pairs, on which the conversion goes
//! element by element.

use vstd::prelude::*;

use crate::codec::lists::write_item;
use crate::codec::{
    all_live, always_field, fills_block, held_by, list_tree, overwrites, put_list_terms,
    required_field_fault, stopped, CodecFault, FromTerm, FromTerms, TermCodecError, ToTerm, ToTerms,
};
use crate::data::Tree;
use crate::fli::Fli;
use crate::list::{element_at, has_shape, shape_is, shape_of};
use crate::term::{grows, FliContext, ListShape, Term, TermError, TermList};

verus! {

/// Values that are written one after another.
pub trait EncodeChain {
    /// How many values there are.
    spec fn width() -> nat;

    /// The terms that stand for the values, or why the first one that has none
    /// has none.
    spec fn chain(&self) -> Result<Seq<Tree>, CodecFault>;

    /// Writes the values into fresh references.
    fn write_chain<'a, Ctx: FliContext>(
        &self,
        ctx: &'a Ctx,
        fli: &mut Fli,
        items: &mut Vec<Term<'a>>,
    ) -> (r: Result<(), TermCodecError>)
        requires
            old(fli)@.at(ctx.place()),
            all_live(old(items)@, old(fli)@),
            !(old(fli)@.verdict is Refuse),
        ensures
            grows(old(fli)@, final(fli)@),
            !(final(fli)@.verdict is Refuse),
            old(fli)@.verdict is Raise ==> (if Self::width() > 0 {
                stopped(old(fli)@, r, None)
            } else {
                r is Ok && final(fli)@ == old(fli)@ && final(items)@ == old(items)@
            }),
            old(fli)@.verdict is Grant ==> final(fli)@.verdict is Grant && match self.chain() {
                Ok(ts) => {
                    &&& r is Ok
                    &&& all_live(final(items)@, final(fli)@)
                    &&& held_by(final(items)@, final(fli)@) == held_by(
                        old(items)@,
                        old(fli)@,
                    ) + ts
                },
                Err(fault) => r matches Err(e) && e@ == fault,
            },
    ;

    /// Writes the values into the references of a block from `at` on.
    fn fill_chain<Ctx: FliContext>(
        &self,
        ctx: &Ctx,
        fli: &mut Fli,
        terms: &TermList<'_>,
        at: usize,
    ) -> (r: Result<(), TermCodecError>)
        requires
            old(fli)@.at(ctx.place()),
            terms.live(old(fli)@),
            at + Self::width() == terms.count(),
            !(old(fli)@.verdict is Refuse),
        ensures
            fills_block(old(fli)@, final(fli)@, *terms),
            terms.held(final(fli)@).take(at as int) == terms.held(old(fli)@).take(at as int),
            !(final(fli)@.verdict is Refuse),
            old(fli)@.verdict is Raise ==> (if Self::width() > 0 {
                stopped(
                    old(fli)@,
                    r,
                    match self.chain() {
                        Ok(_) => None,
                        Err(fault) => Some(fault),
                    },
                )
            } else {
                r is Ok && final(fli)@ == old(fli)@
            }),
            old(fli)@.verdict is Grant ==> final(fli)@.verdict is Grant && match self.chain() {
                Ok(ts) => r is Ok && terms.held(final(fli)@).skip(at as int) == ts,
                Err(fault) => r matches Err(e) && e@ == fault,
            },
    ;
}

impl EncodeChain for () {
    open spec fn width() -> nat {
        0
    }

    open spec fn chain(&self) -> Result<Seq<Tree>, CodecFault> {
        Ok(Seq::empty())
    }

    fn write_chain<'a, Ctx: FliContext>(
        &self,
        ctx: &'a Ctx,
        fli: &mut Fli,
        items: &mut Vec<Term<'a>>,
    ) -> (r: Result<(), TermCodecError>) {
        assert(held_by(items@, fli@) + Seq::empty() =~= held_by(items@, fli@));
        Ok(())
    }

    fn fill_chain<Ctx: FliContext>(
        &self,
        ctx: &Ctx,
        fli: &mut Fli,
        terms: &TermList<'_>,
        at: usize,
    ) -> (r: Result<(), TermCodecError>) {
        assert(terms.held(fli@).skip(at as int) =~= Seq::empty());
        Ok(())
    }
}

impl<H: ToTerm + ?Sized, R: EncodeChain> EncodeChain for (&H, R) {
    open spec fn width() -> nat {
        R::width() + 1
    }

    open spec fn chain(&self) -> Result<Seq<Tree>, CodecFault> {
        match self.0.encoded() {
            Err(fault) => Err(fault),
            Ok(t) => match self.1.chain() {
                Err(fault) => Err(fault),
                Ok(ts) => Ok(seq![t] + ts),
            },
        }
    }

    fn write_chain<'a, Ctx: FliContext>(
        &self,
        ctx: &'a Ctx,
        fli: &mut Fli,
        items: &mut Vec<Term<'a>>,
    ) -> (r: Result<(), TermCodecError>) {
        let ghost before = held_by(items@, fli@);
        match write_item(ctx, fli, items, self.0) {
            Ok(()) => {},
            Err(error) => {
                return Err(error);
            },
        }
        let r: Result<(), TermCodecError> = self.1.write_chain(ctx, fli, items);
        proof {
            if old(fli)@.verdict is Grant && self.chain() is Ok {
                let t = self.0.encoded()->Ok_0;
                let ts = self.1.chain()->Ok_0;
                assert(before.push(t) + ts =~= before + (seq![t] + ts));
            }
        }
        r
    }

    fn fill_chain<Ctx: FliContext>(
        &self,
        ctx: &Ctx,
        fli: &mut Fli,
        terms: &TermList<'_>,
        at: usize,
    ) -> (r: Result<(), TermCodecError>) {
        let _count: usize = terms.len();
        let slot: Term<'_> = match terms.get(at) {
            Some(slot) => slot,
            None => {
                return Ok(());
            },
        };
        match self.0.to_term(ctx, fli, slot) {
            Ok(()) => {},
            Err(error) => {
                assert(terms.held(fli@).take(at as int) =~= terms.held(old(fli)@).take(at as int));
                return Err(error);
            },
        }
        let ghost middle = fli@;
        assert(terms.held(middle).take(at as int) =~= terms.held(old(fli)@).take(at as int));
        let r: Result<(), TermCodecError> = self.1.fill_chain(ctx, fli, terms, at + 1);
        proof {
            let now = terms.held(fli@);
            let then = terms.held(middle);
            assert(now.take(at as int) =~= now.take(at + 1).take(at as int));
            assert(then.take(at as int) =~= then.take(at + 1).take(at as int));
            assert(now[at as int] == now.take(at + 1)[at as int]);
            assert(then[at as int] == then.take(at + 1)[at as int]);
            if old(fli)@.verdict is Grant && self.chain() is Ok {
                assert(now.skip(at as int) =~= seq![self.0.encoded()->Ok_0] + now.skip(at + 1));
            }
        }
        r
    }
}

/// Values that are read one after another.
pub trait DecodeChain: Sized {
    /// Whether the terms stand for the values.
    spec fn chain_reads(trail: Seq<(usize, Tree)>, ts: Seq<Tree>, value: Self) -> bool;

    /// Why the terms stand for no values, if they do for none. There must be
    /// exactly as many terms as values; `total` is how many there are in all.
    spec fn chain_fault(
        trail: Seq<(usize, Tree)>,
        ts: Seq<Tree>,
        total: nat,
        found: nat,
    ) -> Option<CodecFault>;

    /// Reads the values from the references from `at` on.
    fn read_chain<Ctx: FliContext>(
        ctx: &Ctx,
        fli: &mut Fli,
        slots: &Vec<Term<'_>>,
        at: usize,
        total: usize,
    ) -> (r: Result<Self, TermCodecError>)
        requires
            old(fli)@.at(ctx.place()),
            all_live(slots@, old(fli)@),
            at <= slots@.len(),
            total < usize::MAX,
            !(old(fli)@.verdict is Refuse),
        ensures
            grows(old(fli)@, final(fli)@),
            !(final(fli)@.verdict is Refuse),
            old(fli)@.verdict is Raise ==> match r {
                Ok(v) => final(fli)@.verdict == old(fli)@.verdict && Self::chain_reads(
                    old(fli)@.trail,
                    held_by(slots@, old(fli)@).skip(at as int),
                    v,
                ) && Self::chain_fault(
                    old(fli)@.trail,
                    held_by(slots@, old(fli)@).skip(at as int),
                    total as nat,
                    slots@.len(),
                ) is None,
                Err(_) => stopped(
                    old(fli)@,
                    r,
                    Self::chain_fault(
                        old(fli)@.trail,
                        held_by(slots@, old(fli)@).skip(at as int),
                        total as nat,
                        slots@.len(),
                    ),
                ),
            },
            old(fli)@.verdict is Grant ==> final(fli)@.verdict is Grant && match Self::chain_fault(
                old(fli)@.trail,
                held_by(slots@, old(fli)@).skip(at as int),
                total as nat,
                slots@.len(),
            ) {
                None => r matches Ok(v) && Self::chain_reads(
                    old(fli)@.trail,
                    held_by(slots@, old(fli)@).skip(at as int),
                    v,
                ),
                Some(fault) => r matches Err(e) && e@ == fault,
            },
    ;
}

impl DecodeChain for () {
    open spec fn chain_reads(trail: Seq<(usize, Tree)>, ts: Seq<Tree>, value: Self) -> bool {
        ts.len() == 0
    }

    open spec fn chain_fault(
        trail: Seq<(usize, Tree)>,
        ts: Seq<Tree>,
        total: nat,
        found: nat,
    ) -> Option<CodecFault> {
        if ts.len() > 0 {
            Some(CodecFault::ArityMismatch(total, found))
        } else {
            None
        }
    }

    fn read_chain<Ctx: FliContext>(
        ctx: &Ctx,
        fli: &mut Fli,
        slots: &Vec<Term<'_>>,
        at: usize,
        total: usize,
    ) -> (r: Result<Self, TermCodecError>) {
        if at < slots.len() {
            return Err(TermCodecError::ArityMismatch { expected: total, actual: slots.len() });
        }
        Ok(())
    }
}

impl<H: FromTerm, R: DecodeChain> DecodeChain for (H, R) {
    open spec fn chain_reads(trail: Seq<(usize, Tree)>, ts: Seq<Tree>, value: Self) -> bool {
        &&& ts.len() > 0
        &&& H::reads(trail, ts[0], value.0)
        &&& R::chain_reads(trail, ts.drop_first(), value.1)
    }

    open spec fn chain_fault(
        trail: Seq<(usize, Tree)>,
        ts: Seq<Tree>,
        total: nat,
        found: nat,
    ) -> Option<CodecFault> {
        if ts.len() == 0 {
            Some(CodecFault::ArityMismatch(total, found))
        } else {
            match H::read_fault(trail, ts[0]) {
                Some(fault) => Some(fault),
                None => R::chain_fault(trail, ts.drop_first(), total, found),
            }
        }
    }

    fn read_chain<Ctx: FliContext>(
        ctx: &Ctx,
        fli: &mut Fli,
        slots: &Vec<Term<'_>>,
        at: usize,
        total: usize,
    ) -> (r: Result<Self, TermCodecError>) {
        let ghost ts = held_by(slots@, fli@).skip(at as int);
        if at >= slots.len() {
            return Err(TermCodecError::ArityMismatch { expected: total, actual: slots.len() });
        }
        assert(slots@[at as int].live(fli@));
        assert(ts[0] == fli@.refs[slots@[at as int].raw() as int]);
        let first: H = match H::from_term(ctx, fli, slots[at]) {
            Ok(value) => value,
            Err(error) => {
                return Err(error);
            },
        };
        proof {
            assert forall|i: int| 0 <= i < slots@.len() implies (#[trigger] slots@[i]).live(
                fli@,
            ) by {
                assert(slots@[i].live(old(fli)@));
            }
            assert(held_by(slots@, fli@) =~= held_by(slots@, old(fli)@)) by {
                assert forall|i: int| 0 <= i < slots@.len() implies held_by(slots@, fli@)[i]
                    == held_by(slots@, old(fli)@)[i] by {
                    assert(slots@[i].live(old(fli)@));
                }
            }
            assert(held_by(slots@, fli@).skip(at + 1) =~= ts.drop_first());
        }
        match R::read_chain(ctx, fli, slots, at + 1, total) {
            Ok(rest) => Ok((first, rest)),
            Err(error) => Err(error),
        }
    }
}

/// The list that stands for values.
pub open spec fn chain_list<T: EncodeChain>(values: T) -> Result<Tree, CodecFault> {
    match values.chain() {
        Ok(ts) => Ok(list_tree(ts)),
        Err(fault) => Err(fault),
    }
}

/// Makes `dest` the list that stands for values.
fn write_tuple<Ctx: FliContext, T: EncodeChain>(
    ctx: &Ctx,
    fli: &mut Fli,
    dest: Term<'_>,
    values: T,
) -> (r: Result<(), TermCodecError>)
    requires
        old(fli)@.at(ctx.place()),
        dest.live(old(fli)@),
        !(old(fli)@.verdict is Refuse),
    ensures
        overwrites(old(fli)@, final(fli)@, dest.raw()),
        !(final(fli)@.verdict is Refuse),
        old(fli)@.verdict is Raise ==> stopped(old(fli)@, r, None),
        old(fli)@.verdict is Grant ==> final(fli)@.verdict is Grant && match chain_list(values) {
            Ok(t) => r is Ok && final(fli)@.refs[dest.raw() as int] == t,
            Err(fault) => r matches Err(e) && e@ == fault,
        },
{
    let mut items: Vec<Term<'_>> = Vec::new();
    assert(held_by(items@, fli@) =~= Seq::empty());
    match values.write_chain(ctx, fli, &mut items) {
        Ok(()) => {},
        Err(error) => {
            return Err(error);
        },
    }
    proof {
        if old(fli)@.verdict is Grant {
            let ts = values.chain()->Ok_0;
            assert(Seq::<Tree>::empty() + ts =~= ts);
        }
    }
    put_list_terms(ctx, fli, dest, &items)
}

/// The elements of a proper list.
pub open spec fn elements(trail: Seq<(usize, Tree)>, t: Tree, len: nat) -> Seq<Tree> {
    Seq::new(len, |i: int| element_at(trail, t, i as nat)->0)
}

/// Why a term is not the list of `total` values, if it is none.
pub open spec fn tuple_fault<T: DecodeChain>(
    trail: Seq<(usize, Tree)>,
    t: Tree,
    total: nat,
) -> Option<CodecFault> {
    match shape_of(trail, t) {
        ListShape::Proper { len } => T::chain_fault(
            trail,
            elements(trail, t, len as nat),
            total,
            len as nat,
        ),
        other => Some(CodecFault::Term(TermError::NotAProperList(other))),
    }
}

/// Whether a term is the list of values.
pub open spec fn reads_tuple<T: DecodeChain>(
    trail: Seq<(usize, Tree)>,
    t: Tree,
    value: T,
) -> bool {
    &&& shape_of(trail, t) is Proper
    &&& has_shape(trail, t, shape_of(trail, t))
    &&& T::chain_reads(trail, elements(trail, t, shape_of(trail, t)->len as nat), value)
}

/// Reads the list of `total` values.
fn read_tuple<Ctx: FliContext, T: DecodeChain>(
    ctx: &Ctx,
    fli: &mut Fli,
    term: Term<'_>,
    total: usize,
) -> (r: Result<T, TermCodecError>)
    requires
        old(fli)@.at(ctx.place()),
        term.live(old(fli)@),
        total < usize::MAX,
        !(old(fli)@.verdict is Refuse),
    ensures
        grows(old(fli)@, final(fli)@),
        !(final(fli)@.verdict is Refuse),
        old(fli)@.verdict is Raise ==> stopped(
            old(fli)@,
            r,
            tuple_fault::<T>(
                old(fli)@.trail,
                old(fli)@.refs[term.raw() as int],
                total as nat,
            ),
        ),
        old(fli)@.verdict is Grant ==> final(fli)@.verdict is Grant && match tuple_fault::<T>(
            old(fli)@.trail,
            old(fli)@.refs[term.raw() as int],
            total as nat,
        ) {
            None => r matches Ok(v) && reads_tuple(
                old(fli)@.trail,
                old(fli)@.refs[term.raw() as int],
                v,
            ),
            Some(fault) => r matches Err(e) && e@ == fault,
        },
{
    let ghost trail = fli@.trail;
    let ghost t = fli@.refs[term.raw() as int];
    let shape: ListShape = term.list_shape(fli);
    proof {
        shape_is(trail, t, shape);
        if let ListShape::Proper { len } = shape {
            assert(has_shape(trail, t, ListShape::Proper { len }));
        }
    }
    let items: Vec<Term<'_>> = match term.collect_list(ctx, fli) {
        Ok(items) => items,
        Err(error) => {
            return Err(TermCodecError::Term(error));
        },
    };
    proof {
        assert(held_by(items@, fli@).skip(0) =~= elements(trail, t, items@.len()));
    }
    T::read_chain(ctx, fli, &items, 0, total)
}

/// Reads the values of a block.
fn read_block<Ctx: FliContext, T: DecodeChain>(
    ctx: &Ctx,
    fli: &mut Fli,
    terms: &TermList<'_>,
    total: usize,
) -> (r: Result<T, TermCodecError>)
    requires
        old(fli)@.at(ctx.place()),
        terms.live(old(fli)@),
        total < usize::MAX,
        !(old(fli)@.verdict is Refuse),
    ensures
        grows(old(fli)@, final(fli)@),
        !(final(fli)@.verdict is Refuse),
        old(fli)@.verdict is Raise ==> match r {
            Ok(v) => final(fli)@.verdict == old(fli)@.verdict && T::chain_reads(
                old(fli)@.trail,
                terms.held(old(fli)@),
                v,
            ) && T::chain_fault(
                old(fli)@.trail,
                terms.held(old(fli)@),
                total as nat,
                terms.count(),
            ) is None,
            Err(_) => stopped(
                old(fli)@,
                r,
                T::chain_fault(
                    old(fli)@.trail,
                    terms.held(old(fli)@),
                    total as nat,
                    terms.count(),
                ),
            ),
        },
        old(fli)@.verdict is Grant ==> final(fli)@.verdict is Grant && match T::chain_fault(
            old(fli)@.trail,
            terms.held(old(fli)@),
            total as nat,
            terms.count(),
        ) {
            None => r matches Ok(v) && T::chain_reads(
                old(fli)@.trail,
                terms.held(old(fli)@),
                v,
            ),
            Some(fault) => r matches Err(e) && e@ == fault,
        },
{
    let slots: Vec<Term<'_>> = terms.iter();
    proof {
        assert(held_by(slots@, fli@).skip(0) =~= terms.held(fli@));
    }
    T::read_chain(ctx, fli, &slots, 0, total)
}

impl<A: ToTerm> ToTerm for (A,) {
    open spec fn encoded(&self) -> Result<Tree, CodecFault> {
        chain_list((&self.0, ()))
    }

    open spec fn encoded_field(&self) -> Result<Option<Tree>, CodecFault> {
        always_field(self.encoded())
    }

    fn to_term<Ctx: FliContext>(&self, ctx: &Ctx, fli: &mut Fli, term: Term<'_>) -> (r: Result<
        (),
        TermCodecError,
    >) {
        write_tuple(ctx, fli, term, (&self.0, ()))
    }

    fn __to_field<Ctx: FliContext>(&self, ctx: &Ctx, fli: &mut Fli, term: Term<'_>) -> (r: Result<
        bool,
        TermCodecError,
    >) {
        match self.to_term(ctx, fli, term) {
            Ok(()) => Ok(true),
            Err(error) => Err(error),
        }
    }
}

impl<A: FromTerm> FromTerm for (A,) {
    open spec fn reads(trail: Seq<(usize, Tree)>, t: Tree, value: Self) -> bool {
        reads_tuple(trail, t, (value.0, ()))
    }

    open spec fn read_fault(trail: Seq<(usize, Tree)>, t: Tree) -> Option<CodecFault> {
        tuple_fault::<(A, ())>(trail, t, 1)
    }

    open spec fn reads_field(trail: Seq<(usize, Tree)>, t: Option<Tree>, value: Self) -> bool {
        t matches Some(present) && Self::reads(trail, present, value)
    }

    open spec fn read_field_fault(
        trail: Seq<(usize, Tree)>,
        t: Option<Tree>,
        name: Seq<char>,
    ) -> Option<CodecFault> {
        required_field_fault(
            match t {
                Some(present) => Self::read_fault(trail, present),
                None => None,
            },
            t,
            name,
        )
    }

    fn from_term<Ctx: FliContext>(ctx: &Ctx, fli: &mut Fli, term: Term<'_>) -> (r: Result<
        Self,
        TermCodecError,
    >) {
        match read_tuple::<Ctx, (A, ())>(ctx, fli, term, 1) {
            Ok((v0, ())) => Ok((v0,)),
            Err(error) => Err(error),
        }
    }

    fn __from_field<Ctx: FliContext>(
        ctx: &Ctx,
        fli: &mut Fli,
        term: Option<Term<'_>>,
        name: &str,
    ) -> (r: Result<Self, TermCodecError>) {
        match term {
            Some(present) => Self::from_term(ctx, fli, present),
            None => Err(TermCodecError::MissingField { field: name.to_owned() }),
        }
    }
}

impl<A: ToTerm> ToTerms for (A,) {
    open spec fn count() -> nat {
        1
    }

    open spec fn encoded_terms(&self) -> Result<Seq<Tree>, CodecFault> {
        (&self.0, ()).chain()
    }

    fn len() -> (r: usize) {
        1
    }

    fn to_terms<Ctx: FliContext>(&self, ctx: &Ctx, fli: &mut Fli, terms: &TermList<'_>) -> (r: Result<
        (),
        TermCodecError,
    >) {
        let r: Result<(), TermCodecError> = (&self.0, ()).fill_chain(ctx, fli, terms, 0);
        assert(terms.held(fli@).skip(0) =~= terms.held(fli@));
        r
    }
}

impl<A: FromTerm> FromTerms for (A,) {
    open spec fn count() -> nat {
        1
    }

    open spec fn reads_terms(trail: Seq<(usize, Tree)>, ts: Seq<Tree>, value: Self) -> bool {
        <(A, ())>::chain_reads(trail, ts, (value.0, ()))
    }

    open spec fn terms_fault(trail: Seq<(usize, Tree)>, ts: Seq<Tree>) -> Option<CodecFault> {
        <(A, ())>::chain_fault(trail, ts, 1, ts.len())
    }

    fn len() -> (r: usize) {
        1
    }

    fn from_terms<Ctx: FliContext>(ctx: &Ctx, fli: &mut Fli, terms: &TermList<'_>) -> (r: Result<
        Self,
        TermCodecError,
    >) {
        match read_block::<Ctx, (A, ())>(ctx, fli, terms, 1) {
            Ok((v0, ())) => Ok((v0,)),
            Err(error) => Err(error),
        }
    }
}

impl<A: ToTerm, B: ToTerm> ToTerm for (A, B) {
    open spec fn encoded(&self) -> Result<Tree, CodecFault> {
        chain_list((&self.0, (&self.1, ())))
    }

    open spec fn encoded_field(&self) -> Result<Option<Tree>, CodecFault> {
        always_field(self.encoded())
    }

    fn to_term<Ctx: FliContext>(&self, ctx: &Ctx, fli: &mut Fli, term: Term<'_>) -> (r: Result<
        (),
        TermCodecError,
    >) {
        write_tuple(ctx, fli, term, (&self.0, (&self.1, ())))
    }

    fn __to_field<Ctx: FliContext>(&self, ctx: &Ctx, fli: &mut Fli, term: Term<'_>) -> (r: Result<
        bool,
        TermCodecError,
    >) {
        match self.to_term(ctx, fli, term) {
            Ok(()) => Ok(true),
            Err(error) => Err(error),
        }
    }
}

impl<A: FromTerm, B: FromTerm> FromTerm for (A, B) {
    open spec fn reads(trail: Seq<(usize, Tree)>, t: Tree, value: Self) -> bool {
        reads_tuple(trail, t, (value.0, (value.1, ())))
    }

    open spec fn read_fault(trail: Seq<(usize, Tree)>, t: Tree) -> Option<CodecFault> {
        tuple_fault::<(A, (B, ()))>(trail, t, 2)
    }

    open spec fn reads_field(trail: Seq<(usize, Tree)>, t: Option<Tree>, value: Self) -> bool {
        t matches Some(present) && Self::reads(trail, present, value)
    }

    open spec fn read_field_fault(
        trail: Seq<(usize, Tree)>,
        t: Option<Tree>,
        name: Seq<char>,
    ) -> Option<CodecFault> {
        required_field_fault(
            match t {
                Some(present) => Self::read_fault(trail, present),
                None => None,
            },
            t,
            name,
        )
    }

    fn from_term<Ctx: FliContext>(ctx: &Ctx, fli: &mut Fli, term: Term<'_>) -> (r: Result<
        Self,
        TermCodecError,
    >) {
        match read_tuple::<Ctx, (A, (B, ()))>(ctx, fli, term, 2) {
            Ok((v0, (v1, ()))) => Ok((v0, v1)),
            Err(error) => Err(error),
        }
    }

    fn __from_field<Ctx: FliContext>(
        ctx: &Ctx,
        fli: &mut Fli,
        term: Option<Term<'_>>,
        name: &str,
    ) -> (r: Result<Self, TermCodecError>) {
        match term {
            Some(present) => Self::from_term(ctx, fli, present),
            None => Err(TermCodecError::MissingField { field: name.to_owned() }),
        }
    }
}

impl<A: ToTerm, B: ToTerm> ToTerms for (A, B) {
    open spec fn count() -> nat {
        2
    }

    open spec fn encoded_terms(&self) -> Result<Seq<Tree>, CodecFault> {
        (&self.0, (&self.1, ())).chain()
    }

    fn len() -> (r: usize) {
        2
    }

    fn to_terms<Ctx: FliContext>(&self, ctx: &Ctx, fli: &mut Fli, terms: &TermList<'_>) -> (r: Result<
        (),
        TermCodecError,
    >) {
        let r: Result<(), TermCodecError> = (&self.0, (&self.1, ())).fill_chain(ctx, fli, terms, 0);
        assert(terms.held(fli@).skip(0) =~= terms.held(fli@));
        r
    }
}

impl<A: FromTerm, B: FromTerm> FromTerms for (A, B) {
    open spec fn count() -> nat {
        2
    }

    open spec fn reads_terms(trail: Seq<(usize, Tree)>, ts: Seq<Tree>, value: Self) -> bool {
        <(A, (B, ()))>::chain_reads(trail, ts, (value.0, (value.1, ())))
    }

    open spec fn terms_fault(trail: Seq<(usize, Tree)>, ts: Seq<Tree>) -> Option<CodecFault> {
        <(A, (B, ()))>::chain_fault(trail, ts, 2, ts.len())
    }

    fn len() -> (r: usize) {
        2
    }

    fn from_terms<Ctx: FliContext>(ctx: &Ctx, fli: &mut Fli, terms: &TermList<'_>) -> (r: Result<
        Self,
        TermCodecError,
    >) {
        match read_block::<Ctx, (A, (B, ()))>(ctx, fli, terms, 2) {
            Ok((v0, (v1, ()))) => Ok((v0, v1)),
            Err(error) => Err(error),
        }
    }
}

impl<A: ToTerm, B: ToTerm, C: ToTerm> ToTerm for (A, B, C) {
    open spec fn encoded(&self) -> Result<Tree, CodecFault> {
        chain_list((&self.0, (&self.1, (&self.2, ()))))
    }

    open spec fn encoded_field(&self) -> Result<Option<Tree>, CodecFault> {
        always_field(self.encoded())
    }

    fn to_term<Ctx: FliContext>(&self, ctx: &Ctx, fli: &mut Fli, term: Term<'_>) -> (r: Result<
        (),
        TermCodecError,
    >) {
        write_tuple(ctx, fli, term, (&self.0, (&self.1, (&self.2, ()))))
    }

    fn __to_field<Ctx: FliContext>(&self, ctx: &Ctx, fli: &mut Fli, term: Term<'_>) -> (r: Result<
        bool,
        TermCodecError,
    >) {
        match self.to_term(ctx, fli, term) {
            Ok(()) => Ok(true),
            Err(error) => Err(error),
        }
    }
}

impl<A: FromTerm, B: FromTerm, C: FromTerm> FromTerm for (A, B, C) {
    open spec fn reads(trail: Seq<(usize, Tree)>, t: Tree, value: Self) -> bool {
        reads_tuple(trail, t, (value.0, (value.1, (value.2, ()))))
    }

    open spec fn read_fault(trail: Seq<(usize, Tree)>, t: Tree) -> Option<CodecFault> {
        tuple_fault::<(A, (B, (C, ())))>(trail, t, 3)
    }

    open spec fn reads_field(trail: Seq<(usize, Tree)>, t: Option<Tree>, value: Self) -> bool {
        t matches Some(present) && Self::reads(trail, present, value)
    }

    open spec fn read_field_fault(
        trail: Seq<(usize, Tree)>,
        t: Option<Tree>,
        name: Seq<char>,
    ) -> Option<CodecFault> {
        required_field_fault(
            match t {
                Some(present) => Self::read_fault(trail, present),
                None => None,
            },
            t,
            name,
        )
    }

    fn from_term<Ctx: FliContext>(ctx: &Ctx, fli: &mut Fli, term: Term<'_>) -> (r: Result<
        Self,
        TermCodecError,
    >) {
        match read_tuple::<Ctx, (A, (B, (C, ())))>(ctx, fli, term, 3) {
            Ok((v0, (v1, (v2, ())))) => Ok((v0, v1, v2)),
            Err(error) => Err(error),
        }
    }

    fn __from_field<Ctx: FliContext>(
        ctx: &Ctx,
        fli: &mut Fli,
        term: Option<Term<'_>>,
        name: &str,
    ) -> (r: Result<Self, TermCodecError>) {
        match term {
            Some(present) => Self::from_term(ctx, fli, present),
            None => Err(TermCodecError::MissingField { field: name.to_owned() }),
        }
    }
}

impl<A: ToTerm, B: ToTerm, C: ToTerm> ToTerms for (A, B, C) {
    open spec fn count() -> nat {
        3
    }

    open spec fn encoded_terms(&self) -> Result<Seq<Tree>, CodecFault> {
        (&self.0, (&self.1, (&self.2, ()))).chain()
    }

    fn len() -> (r: usize) {
        3
    }

    fn to_terms<Ctx: FliContext>(&self, ctx: &Ctx, fli: &mut Fli, terms: &TermList<'_>) -> (r: Result<
        (),
        TermCodecError,
    >) {
        let r: Result<(), TermCodecError> = (&self.0, (&self.1, (&self.2, ()))).fill_chain(ctx, fli, terms, 0);
        assert(terms.held(fli@).skip(0) =~= terms.held(fli@));
        r
    }
}

impl<A: FromTerm, B: FromTerm, C: FromTerm> FromTerms for (A, B, C) {
    open spec fn count() -> nat {
        3
    }

    open spec fn reads_terms(trail: Seq<(usize, Tree)>, ts: Seq<Tree>, value: Self) -> bool {
        <(A, (B, (C, ())))>::chain_reads(trail, ts, (value.0, (value.1, (value.2, ()))))
    }

    open spec fn terms_fault(trail: Seq<(usize, Tree)>, ts: Seq<Tree>) -> Option<CodecFault> {
        <(A, (B, (C, ())))>::chain_fault(trail, ts, 3, ts.len())
    }

    fn len() -> (r: usize) {
        3
    }

    fn from_terms<Ctx: FliContext>(ctx: &Ctx, fli: &mut Fli, terms: &TermList<'_>) -> (r: Result<
        Self,
        TermCodecError,
    >) {
        match read_block::<Ctx, (A, (B, (C, ())))>(ctx, fli, terms, 3) {
            Ok((v0, (v1, (v2, ())))) => Ok((v0, v1, v2)),
            Err(error) => Err(error),
        }
    }
}

impl<A: ToTerm, B: ToTerm, C: ToTerm, D: ToTerm> ToTerm for (A, B, C, D) {
    open spec fn encoded(&self) -> Result<Tree, CodecFault> {
        chain_list((&self.0, (&self.1, (&self.2, (&self.3, ())))))
    }

    open spec fn encoded_field(&self) -> Result<Option<Tree>, CodecFault> {
        always_field(self.encoded())
    }

    fn to_term<Ctx: FliContext>(&self, ctx: &Ctx, fli: &mut Fli, term: Term<'_>) -> (r: Result<
        (),
        TermCodecError,
    >) {
        write_tuple(ctx, fli, term, (&self.0, (&self.1, (&self.2, (&self.3, ())))))
    }

    fn __to_field<Ctx: FliContext>(&self, ctx: &Ctx, fli: &mut Fli, term: Term<'_>) -> (r: Result<
        bool,
        TermCodecError,
    >) {
        match self.to_term(ctx, fli, term) {
            Ok(()) => Ok(true),
            Err(error) => Err(error),
        }
    }
}

impl<A: FromTerm, B: FromTerm, C: FromTerm, D: FromTerm> FromTerm for (A, B, C, D) {
    open spec fn reads(trail: Seq<(usize, Tree)>, t: Tree, value: Self) -> bool {
        reads_tuple(trail, t, (value.0, (value.1, (value.2, (value.3, ())))))
    }

    open spec fn read_fault(trail: Seq<(usize, Tree)>, t: Tree) -> Option<CodecFault> {
        tuple_fault::<(A, (B, (C, (D, ()))))>(trail, t, 4)
    }

    open spec fn reads_field(trail: Seq<(usize, Tree)>, t: Option<Tree>, value: Self) -> bool {
        t matches Some(present) && Self::reads(trail, present, value)
    }

    open spec fn read_field_fault(
        trail: Seq<(usize, Tree)>,
        t: Option<Tree>,
        name: Seq<char>,
    ) -> Option<CodecFault> {
        required_field_fault(
            match t {
                Some(present) => Self::read_fault(trail, present),
                None => None,
            },
            t,
            name,
        )
    }

    fn from_term<Ctx: FliContext>(ctx: &Ctx, fli: &mut Fli, term: Term<'_>) -> (r: Result<
        Self,
        TermCodecError,
    >) {
        match read_tuple::<Ctx, (A, (B, (C, (D, ()))))>(ctx, fli, term, 4) {
            Ok((v0, (v1, (v2, (v3, ()))))) => Ok((v0, v1, v2, v3)),
            Err(error) => Err(error),
        }
    }

    fn __from_field<Ctx: FliContext>(
        ctx: &Ctx,
        fli: &mut Fli,
        term: Option<Term<'_>>,
        name: &str,
    ) -> (r: Result<Self, TermCodecError>) {
        match term {
            Some(present) => Self::from_term(ctx, fli, present),
            None => Err(TermCodecError::MissingField { field: name.to_owned() }),
        }
    }
}

impl<A: ToTerm, B: ToTerm, C: ToTerm, D: ToTerm> ToTerms for (A, B, C, D) {
    open spec fn count() -> nat {
        4
    }

    open spec fn encoded_terms(&self) -> Result<Seq<Tree>, CodecFault> {
        (&self.0, (&self.1, (&self.2, (&self.3, ())))).chain()
    }

    fn len() -> (r: usize) {
        4
    }

    fn to_terms<Ctx: FliContext>(&self, ctx: &Ctx, fli: &mut Fli, terms: &TermList<'_>) -> (r: Result<
        (),
        TermCodecError,
    >) {
        let r: Result<(), TermCodecError> = (&self.0, (&self.1, (&self.2, (&self.3, ())))).fill_chain(ctx, fli, terms, 0);
        assert(terms.held(fli@).skip(0) =~= terms.held(fli@));
        r
    }
}

impl<A: FromTerm, B: FromTerm, C: FromTerm, D: FromTerm> FromTerms for (A, B, C, D) {
    open spec fn count() -> nat {
        4
    }

    open spec fn reads_terms(trail: Seq<(usize, Tree)>, ts: Seq<Tree>, value: Self) -> bool {
        <(A, (B, (C, (D, ()))))>::chain_reads(trail, ts, (value.0, (value.1, (value.2, (value.3, ())))))
    }

    open spec fn terms_fault(trail: Seq<(usize, Tree)>, ts: Seq<Tree>) -> Option<CodecFault> {
        <(A, (B, (C, (D, ()))))>::chain_fault(trail, ts, 4, ts.len())
    }

    fn len() -> (r: usize) {
        4
    }

    fn from_terms<Ctx: FliContext>(ctx: &Ctx, fli: &mut Fli, terms: &TermList<'_>) -> (r: Result<
        Self,
        TermCodecError,
    >) {
        match read_block::<Ctx, (A, (B, (C, (D, ()))))>(ctx, fli, terms, 4) {
            Ok((v0, (v1, (v2, (v3, ()))))) => Ok((v0, v1, v2, v3)),
            Err(error) => Err(error),
        }
    }
}

impl<A: ToTerm, B: ToTerm, C: ToTerm, D: ToTerm, E: ToTerm> ToTerm for (A, B, C, D, E) {
    open spec fn encoded(&self) -> Result<Tree, CodecFault> {
        chain_list((&self.0, (&self.1, (&self.2, (&self.3, (&self.4, ()))))))
    }

    open spec fn encoded_field(&self) -> Result<Option<Tree>, CodecFault> {
        always_field(self.encoded())
    }

    fn to_term<Ctx: FliContext>(&self, ctx: &Ctx, fli: &mut Fli, term: Term<'_>) -> (r: Result<
        (),
        TermCodecError,
    >) {
        write_tuple(ctx, fli, term, (&self.0, (&self.1, (&self.2, (&self.3, (&self.4, ()))))))
    }

    fn __to_field<Ctx: FliContext>(&self, ctx: &Ctx, fli: &mut Fli, term: Term<'_>) -> (r: Result<
        bool,
        TermCodecError,
    >) {
        match self.to_term(ctx, fli, term) {
            Ok(()) => Ok(true),
            Err(error) => Err(error),
        }
    }
}

impl<A: FromTerm, B: FromTerm, C: FromTerm, D: FromTerm, E: FromTerm> FromTerm for (A, B, C, D, E) {
    open spec fn reads(trail: Seq<(usize, Tree)>, t: Tree, value: Self) -> bool {
        reads_tuple(trail, t, (value.0, (value.1, (value.2, (value.3, (value.4, ()))))))
    }

    open spec fn read_fault(trail: Seq<(usize, Tree)>, t: Tree) -> Option<CodecFault> {
        tuple_fault::<(A, (B, (C, (D, (E, ())))))>(trail, t, 5)
    }

    open spec fn reads_field(trail: Seq<(usize, Tree)>, t: Option<Tree>, value: Self) -> bool {
        t matches Some(present) && Self::reads(trail, present, value)
    }

    open spec fn read_field_fault(
        trail: Seq<(usize, Tree)>,
        t: Option<Tree>,
        name: Seq<char>,
    ) -> Option<CodecFault> {
        required_field_fault(
            match t {
                Some(present) => Self::read_fault(trail, present),
                None => None,
            },
            t,
            name,
        )
    }

    fn from_term<Ctx: FliContext>(ctx: &Ctx, fli: &mut Fli, term: Term<'_>) -> (r: Result<
        Self,
        TermCodecError,
    >) {
        match read_tuple::<Ctx, (A, (B, (C, (D, (E, ())))))>(ctx, fli, term, 5) {
            Ok((v0, (v1, (v2, (v3, (v4, ())))))) => Ok((v0, v1, v2, v3, v4)),
            Err(error) => Err(error),
        }
    }

    fn __from_field<Ctx: FliContext>(
        ctx: &Ctx,
        fli: &mut Fli,
        term: Option<Term<'_>>,
        name: &str,
    ) -> (r: Result<Self, TermCodecError>) {
        match term {
            Some(present) => Self::from_term(ctx, fli, present),
            None => Err(TermCodecError::MissingField { field: name.to_owned() }),
        }
    }
}

impl<A: ToTerm, B: ToTerm, C: ToTerm, D: ToTerm, E: ToTerm> ToTerms for (A, B, C, D, E) {
    open spec fn count() -> nat {
        5
    }

    open spec fn encoded_terms(&self) -> Result<Seq<Tree>, CodecFault> {
        (&self.0, (&self.1, (&self.2, (&self.3, (&self.4, ()))))).chain()
    }

    fn len() -> (r: usize) {
        5
    }

    fn to_terms<Ctx: FliContext>(&self, ctx: &Ctx, fli: &mut Fli, terms: &TermList<'_>) -> (r: Result<
        (),
        TermCodecError,
    >) {
        let r: Result<(), TermCodecError> = (&self.0, (&self.1, (&self.2, (&self.3, (&self.4, ()))))).fill_chain(ctx, fli, terms, 0);
        assert(terms.held(fli@).skip(0) =~= terms.held(fli@));
        r
    }
}

impl<A: FromTerm, B: FromTerm, C: FromTerm, D: FromTerm, E: FromTerm> FromTerms for (A, B, C, D, E) {
    open spec fn count() -> nat {
        5
    }

    open spec fn reads_terms(trail: Seq<(usize, Tree)>, ts: Seq<Tree>, value: Self) -> bool {
        <(A, (B, (C, (D, (E, ())))))>::chain_reads(trail, ts, (value.0, (value.1, (value.2, (value.3, (value.4, ()))))))
    }

    open spec fn terms_fault(trail: Seq<(usize, Tree)>, ts: Seq<Tree>) -> Option<CodecFault> {
        <(A, (B, (C, (D, (E, ())))))>::chain_fault(trail, ts, 5, ts.len())
    }

    fn len() -> (r: usize) {
        5
    }

    fn from_terms<Ctx: FliContext>(ctx: &Ctx, fli: &mut Fli, terms: &TermList<'_>) -> (r: Result<
        Self,
        TermCodecError,
    >) {
        match read_block::<Ctx, (A, (B, (C, (D, (E, ())))))>(ctx, fli, terms, 5) {
            Ok((v0, (v1, (v2, (v3, (v4, ())))))) => Ok((v0, v1, v2, v3, v4)),
            Err(error) => Err(error),
        }
    }
}

impl<A: ToTerm, B: ToTerm, C: ToTerm, D: ToTerm, E: ToTerm, F: ToTerm> ToTerm for (A, B, C, D, E, F) {
    open spec fn encoded(&self) -> Result<Tree, CodecFault> {
        chain_list((&self.0, (&self.1, (&self.2, (&self.3, (&self.4, (&self.5, ())))))))
    }

    open spec fn encoded_field(&self) -> Result<Option<Tree>, CodecFault> {
        always_field(self.encoded())
    }

    fn to_term<Ctx: FliContext>(&self, ctx: &Ctx, fli: &mut Fli, term: Term<'_>) -> (r: Result<
        (),
        TermCodecError,
    >) {
        write_tuple(ctx, fli, term, (&self.0, (&self.1, (&self.2, (&self.3, (&self.4, (&self.5, ())))))))
    }

    fn __to_field<Ctx: FliContext>(&self, ctx: &Ctx, fli: &mut Fli, term: Term<'_>) -> (r: Result<
        bool,
        TermCodecError,
    >) {
        match self.to_term(ctx, fli, term) {
            Ok(()) => Ok(true),
            Err(error) => Err(error),
        }
    }
}

impl<A: FromTerm, B: FromTerm, C: FromTerm, D: FromTerm, E: FromTerm, F: FromTerm> FromTerm for (A, B, C, D, E, F) {
    open spec fn reads(trail: Seq<(usize, Tree)>, t: Tree, value: Self) -> bool {
        reads_tuple(trail, t, (value.0, (value.1, (value.2, (value.3, (value.4, (value.5, ())))))))
    }

    open spec fn read_fault(trail: Seq<(usize, Tree)>, t: Tree) -> Option<CodecFault> {
        tuple_fault::<(A, (B, (C, (D, (E, (F, ()))))))>(trail, t, 6)
    }

    open spec fn reads_field(trail: Seq<(usize, Tree)>, t: Option<Tree>, value: Self) -> bool {
        t matches Some(present) && Self::reads(trail, present, value)
    }

    open spec fn read_field_fault(
        trail: Seq<(usize, Tree)>,
        t: Option<Tree>,
        name: Seq<char>,
    ) -> Option<CodecFault> {
        required_field_fault(
            match t {
                Some(present) => Self::read_fault(trail, present),
                None => None,
            },
            t,
            name,
        )
    }

    fn from_term<Ctx: FliContext>(ctx: &Ctx, fli: &mut Fli, term: Term<'_>) -> (r: Result<
        Self,
        TermCodecError,
    >) {
        match read_tuple::<Ctx, (A, (B, (C, (D, (E, (F, ()))))))>(ctx, fli, term, 6) {
            Ok((v0, (v1, (v2, (v3, (v4, (v5, ()))))))) => Ok((v0, v1, v2, v3, v4, v5)),
            Err(error) => Err(error),
        }
    }

    fn __from_field<Ctx: FliContext>(
        ctx: &Ctx,
        fli: &mut Fli,
        term: Option<Term<'_>>,
        name: &str,
    ) -> (r: Result<Self, TermCodecError>) {
        match term {
            Some(present) => Self::from_term(ctx, fli, present),
            None => Err(TermCodecError::MissingField { field: name.to_owned() }),
        }
    }
}

impl<A: ToTerm, B: ToTerm, C: ToTerm, D: ToTerm, E: ToTerm, F: ToTerm> ToTerms for (A, B, C, D, E, F) {
    open spec fn count() -> nat {
        6
    }

    open spec fn encoded_terms(&self) -> Result<Seq<Tree>, CodecFault> {
        (&self.0, (&self.1, (&self.2, (&self.3, (&self.4, (&self.5, ())))))).chain()
    }

    fn len() -> (r: usize) {
        6
    }

    fn to_terms<Ctx: FliContext>(&self, ctx: &Ctx, fli: &mut Fli, terms: &TermList<'_>) -> (r: Result<
        (),
        TermCodecError,
    >) {
        let r: Result<(), TermCodecError> = (&self.0, (&self.1, (&self.2, (&self.3, (&self.4, (&self.5, ())))))).fill_chain(ctx, fli, terms, 0);
        assert(terms.held(fli@).skip(0) =~= terms.held(fli@));
        r
    }
}

impl<A: FromTerm, B: FromTerm, C: FromTerm, D: FromTerm, E: FromTerm, F: FromTerm> FromTerms for (A, B, C, D, E, F) {
    open spec fn count() -> nat {
        6
    }

    open spec fn reads_terms(trail: Seq<(usize, Tree)>, ts: Seq<Tree>, value: Self) -> bool {
        <(A, (B, (C, (D, (E, (F, ()))))))>::chain_reads(trail, ts, (value.0, (value.1, (value.2, (value.3, (value.4, (value.5, ())))))))
    }

    open spec fn terms_fault(trail: Seq<(usize, Tree)>, ts: Seq<Tree>) -> Option<CodecFault> {
        <(A, (B, (C, (D, (E, (F, ()))))))>::chain_fault(trail, ts, 6, ts.len())
    }

    fn len() -> (r: usize) {
        6
    }

    fn from_terms<Ctx: FliContext>(ctx: &Ctx, fli: &mut Fli, terms: &TermList<'_>) -> (r: Result<
        Self,
        TermCodecError,
    >) {
        match read_block::<Ctx, (A, (B, (C, (D, (E, (F, ()))))))>(ctx, fli, terms, 6) {
            Ok((v0, (v1, (v2, (v3, (v4, (v5, ()))))))) => Ok((v0, v1, v2, v3, v4, v5)),
            Err(error) => Err(error),
        }
    }
}

impl<A: ToTerm, B: ToTerm, C: ToTerm, D: ToTerm, E: ToTerm, F: ToTerm, G: ToTerm> ToTerm for (A, B, C, D, E, F, G) {
    open spec fn encoded(&self) -> Result<Tree, CodecFault> {
        chain_list((&self.0, (&self.1, (&self.2, (&self.3, (&self.4, (&self.5, (&self.6, ()))))))))
    }

    open spec fn encoded_field(&self) -> Result<Option<Tree>, CodecFault> {
        always_field(self.encoded())
    }

    fn to_term<Ctx: FliContext>(&self, ctx: &Ctx, fli: &mut Fli, term: Term<'_>) -> (r: Result<
        (),
        TermCodecError,
    >) {
        write_tuple(ctx, fli, term, (&self.0, (&self.1, (&self.2, (&self.3, (&self.4, (&self.5, (&self.6, ()))))))))
    }

    fn __to_field<Ctx: FliContext>(&self, ctx: &Ctx, fli: &mut Fli, term: Term<'_>) -> (r: Result<
        bool,
        TermCodecError,
    >) {
        match self.to_term(ctx, fli, term) {
            Ok(()) => Ok(true),
            Err(error) => Err(error),
        }
    }
}

impl<A: FromTerm, B: FromTerm, C: FromTerm, D: FromTerm, E: FromTerm, F: FromTerm, G: FromTerm> FromTerm for (A, B, C, D, E, F, G) {
    open spec fn reads(trail: Seq<(usize, Tree)>, t: Tree, value: Self) -> bool {
        reads_tuple(trail, t, (value.0, (value.1, (value.2, (value.3, (value.4, (value.5, (value.6, ()))))))))
    }

    open spec fn read_fault(trail: Seq<(usize, Tree)>, t: Tree) -> Option<CodecFault> {
        tuple_fault::<(A, (B, (C, (D, (E, (F, (G, ())))))))>(trail, t, 7)
    }

    open spec fn reads_field(trail: Seq<(usize, Tree)>, t: Option<Tree>, value: Self) -> bool {
        t matches Some(present) && Self::reads(trail, present, value)
    }

    open spec fn read_field_fault(
        trail: Seq<(usize, Tree)>,
        t: Option<Tree>,
        name: Seq<char>,
    ) -> Option<CodecFault> {
        required_field_fault(
            match t {
                Some(present) => Self::read_fault(trail, present),
                None => None,
            },
            t,
            name,
        )
    }

    fn from_term<Ctx: FliContext>(ctx: &Ctx, fli: &mut Fli, term: Term<'_>) -> (r: Result<
        Self,
        TermCodecError,
    >) {
        match read_tuple::<Ctx, (A, (B, (C, (D, (E, (F, (G, ())))))))>(ctx, fli, term, 7) {
            Ok((v0, (v1, (v2, (v3, (v4, (v5, (v6, ())))))))) => Ok((v0, v1, v2, v3, v4, v5, v6)),
            Err(error) => Err(error),
        }
    }

    fn __from_field<Ctx: FliContext>(
        ctx: &Ctx,
        fli: &mut Fli,
        term: Option<Term<'_>>,
        name: &str,
    ) -> (r: Result<Self, TermCodecError>) {
        match term {
            Some(present) => Self::from_term(ctx, fli, present),
            None => Err(TermCodecError::MissingField { field: name.to_owned() }),
        }
    }
}

impl<A: ToTerm, B: ToTerm, C: ToTerm, D: ToTerm, E: ToTerm, F: ToTerm, G: ToTerm> ToTerms for (A, B, C, D, E, F, G) {
    open spec fn count() -> nat {
        7
    }

    open spec fn encoded_terms(&self) -> Result<Seq<Tree>, CodecFault> {
        (&self.0, (&self.1, (&self.2, (&self.3, (&self.4, (&self.5, (&self.6, ()))))))).chain()
    }

    fn len() -> (r: usize) {
        7
    }

    fn to_terms<Ctx: FliContext>(&self, ctx: &Ctx, fli: &mut Fli, terms: &TermList<'_>) -> (r: Result<
        (),
        TermCodecError,
    >) {
        let r: Result<(), TermCodecError> = (&self.0, (&self.1, (&self.2, (&self.3, (&self.4, (&self.5, (&self.6, ()))))))).fill_chain(ctx, fli, terms, 0);
        assert(terms.held(fli@).skip(0) =~= terms.held(fli@));
        r
    }
}

impl<A: FromTerm, B: FromTerm, C: FromTerm, D: FromTerm, E: FromTerm, F: FromTerm, G: FromTerm> FromTerms for (A, B, C, D, E, F, G) {
    open spec fn count() -> nat {
        7
    }

    open spec fn reads_terms(trail: Seq<(usize, Tree)>, ts: Seq<Tree>, value: Self) -> bool {
        <(A, (B, (C, (D, (E, (F, (G, ())))))))>::chain_reads(trail, ts, (value.0, (value.1, (value.2, (value.3, (value.4, (value.5, (value.6, ()))))))))
    }

    open spec fn terms_fault(trail: Seq<(usize, Tree)>, ts: Seq<Tree>) -> Option<CodecFault> {
        <(A, (B, (C, (D, (E, (F, (G, ())))))))>::chain_fault(trail, ts, 7, ts.len())
    }

    fn len() -> (r: usize) {
        7
    }

    fn from_terms<Ctx: FliContext>(ctx: &Ctx, fli: &mut Fli, terms: &TermList<'_>) -> (r: Result<
        Self,
        TermCodecError,
    >) {
        match read_block::<Ctx, (A, (B, (C, (D, (E, (F, (G, ())))))))>(ctx, fli, terms, 7) {
            Ok((v0, (v1, (v2, (v3, (v4, (v5, (v6, ())))))))) => Ok((v0, v1, v2, v3, v4, v5, v6)),
            Err(error) => Err(error),
        }
    }
}

impl<A: ToTerm, B: ToTerm, C: ToTerm, D: ToTerm, E: ToTerm, F: ToTerm, G: ToTerm, H: ToTerm> ToTerm for (A, B, C, D, E, F, G, H) {
    open spec fn encoded(&self) -> Result<Tree, CodecFault> {
        chain_list((&self.0, (&self.1, (&self.2, (&self.3, (&self.4, (&self.5, (&self.6, (&self.7, ())))))))))
    }

    open spec fn encoded_field(&self) -> Result<Option<Tree>, CodecFault> {
        always_field(self.encoded())
    }

    fn to_term<Ctx: FliContext>(&self, ctx: &Ctx, fli: &mut Fli, term: Term<'_>) -> (r: Result<
        (),
        TermCodecError,
    >) {
        write_tuple(ctx, fli, term, (&self.0, (&self.1, (&self.2, (&self.3, (&self.4, (&self.5, (&self.6, (&self.7, ())))))))))
    }

    fn __to_field<Ctx: FliContext>(&self, ctx: &Ctx, fli: &mut Fli, term: Term<'_>) -> (r: Result<
        bool,
        TermCodecError,
    >) {
        match self.to_term(ctx, fli, term) {
            Ok(()) => Ok(true),
            Err(error) => Err(error),
        }
    }
}

impl<A: FromTerm, B: FromTerm, C: FromTerm, D: FromTerm, E: FromTerm, F: FromTerm, G: FromTerm, H: FromTerm> FromTerm for (A, B, C, D, E, F, G, H) {
    open spec fn reads(trail: Seq<(usize, Tree)>, t: Tree, value: Self) -> bool {
        reads_tuple(trail, t, (value.0, (value.1, (value.2, (value.3, (value.4, (value.5, (value.6, (value.7, ())))))))))
    }

    open spec fn read_fault(trail: Seq<(usize, Tree)>, t: Tree) -> Option<CodecFault> {
        tuple_fault::<(A, (B, (C, (D, (E, (F, (G, (H, ()))))))))>(trail, t, 8)
    }

    open spec fn reads_field(trail: Seq<(usize, Tree)>, t: Option<Tree>, value: Self) -> bool {
        t matches Some(present) && Self::reads(trail, present, value)
    }

    open spec fn read_field_fault(
        trail: Seq<(usize, Tree)>,
        t: Option<Tree>,
        name: Seq<char>,
    ) -> Option<CodecFault> {
        required_field_fault(
            match t {
                Some(present) => Self::read_fault(trail, present),
                None => None,
            },
            t,
            name,
        )
    }

    fn from_term<Ctx: FliContext>(ctx: &Ctx, fli: &mut Fli, term: Term<'_>) -> (r: Result<
        Self,
        TermCodecError,
    >) {
        match read_tuple::<Ctx, (A, (B, (C, (D, (E, (F, (G, (H, ()))))))))>(ctx, fli, term, 8) {
            Ok((v0, (v1, (v2, (v3, (v4, (v5, (v6, (v7, ()))))))))) => Ok((v0, v1, v2, v3, v4, v5, v6, v7)),
            Err(error) => Err(error),
        }
    }

    fn __from_field<Ctx: FliContext>(
        ctx: &Ctx,
        fli: &mut Fli,
        term: Option<Term<'_>>,
        name: &str,
    ) -> (r: Result<Self, TermCodecError>) {
        match term {
            Some(present) => Self::from_term(ctx, fli, present),
            None => Err(TermCodecError::MissingField { field: name.to_owned() }),
        }
    }
}

impl<A: ToTerm, B: ToTerm, C: ToTerm, D: ToTerm, E: ToTerm, F: ToTerm, G: ToTerm, H: ToTerm> ToTerms for (A, B, C, D, E, F, G, H) {
    open spec fn count() -> nat {
        8
    }

    open spec fn encoded_terms(&self) -> Result<Seq<Tree>, CodecFault> {
        (&self.0, (&self.1, (&self.2, (&self.3, (&self.4, (&self.5, (&self.6, (&self.7, ())))))))).chain()
    }

    fn len() -> (r: usize) {
        8
    }

    fn to_terms<Ctx: FliContext>(&self, ctx: &Ctx, fli: &mut Fli, terms: &TermList<'_>) -> (r: Result<
        (),
        TermCodecError,
    >) {
        let r: Result<(), TermCodecError> = (&self.0, (&self.1, (&self.2, (&self.3, (&self.4, (&self.5, (&self.6, (&self.7, ())))))))).fill_chain(ctx, fli, terms, 0);
        assert(terms.held(fli@).skip(0) =~= terms.held(fli@));
        r
    }
}

impl<A: FromTerm, B: FromTerm, C: FromTerm, D: FromTerm, E: FromTerm, F: FromTerm, G: FromTerm, H: FromTerm> FromTerms for (A, B, C, D, E, F, G, H) {
    open spec fn count() -> nat {
        8
    }

    open spec fn reads_terms(trail: Seq<(usize, Tree)>, ts: Seq<Tree>, value: Self) -> bool {
        <(A, (B, (C, (D, (E, (F, (G, (H, ()))))))))>::chain_reads(trail, ts, (value.0, (value.1, (value.2, (value.3, (value.4, (value.5, (value.6, (value.7, ())))))))))
    }

    open spec fn terms_fault(trail: Seq<(usize, Tree)>, ts: Seq<Tree>) -> Option<CodecFault> {
        <(A, (B, (C, (D, (E, (F, (G, (H, ()))))))))>::chain_fault(trail, ts, 8, ts.len())
    }

    fn len() -> (r: usize) {
        8
    }

    fn from_terms<Ctx: FliContext>(ctx: &Ctx, fli: &mut Fli, terms: &TermList<'_>) -> (r: Result<
        Self,
        TermCodecError,
    >) {
        match read_block::<Ctx, (A, (B, (C, (D, (E, (F, (G, (H, ()))))))))>(ctx, fli, terms, 8) {
            Ok((v0, (v1, (v2, (v3, (v4, (v5, (v6, (v7, ()))))))))) => Ok((v0, v1, v2, v3, v4, v5, v6, v7)),
            Err(error) => Err(error),
        }
    }
}

impl<A: ToTerm, B: ToTerm, C: ToTerm, D: ToTerm, E: ToTerm, F: ToTerm, G: ToTerm, H: ToTerm, I: ToTerm> ToTerm for (A, B, C, D, E, F, G, H, I) {
    open spec fn encoded(&self) -> Result<Tree, CodecFault> {
        chain_list((&self.0, (&self.1, (&self.2, (&self.3, (&self.4, (&self.5, (&self.6, (&self.7, (&self.8, ()))))))))))
    }

    open spec fn encoded_field(&self) -> Result<Option<Tree>, CodecFault> {
        always_field(self.encoded())
    }

    fn to_term<Ctx: FliContext>(&self, ctx: &Ctx, fli: &mut Fli, term: Term<'_>) -> (r: Result<
        (),
        TermCodecError,
    >) {
        write_tuple(ctx, fli, term, (&self.0, (&self.1, (&self.2, (&self.3, (&self.4, (&self.5, (&self.6, (&self.7, (&self.8, ()))))))))))
    }

    fn __to_field<Ctx: FliContext>(&self, ctx: &Ctx, fli: &mut Fli, term: Term<'_>) -> (r: Result<
        bool,
        TermCodecError,
    >) {
        match self.to_term(ctx, fli, term) {
            Ok(()) => Ok(true),
            Err(error) => Err(error),
        }
    }
}

impl<A: FromTerm, B: FromTerm, C: FromTerm, D: FromTerm, E: FromTerm, F: FromTerm, G: FromTerm, H: FromTerm, I: FromTerm> FromTerm for (A, B, C, D, E, F, G, H, I) {
    open spec fn reads(trail: Seq<(usize, Tree)>, t: Tree, value: Self) -> bool {
        reads_tuple(trail, t, (value.0, (value.1, (value.2, (value.3, (value.4, (value.5, (value.6, (value.7, (value.8, ()))))))))))
    }

    open spec fn read_fault(trail: Seq<(usize, Tree)>, t: Tree) -> Option<CodecFault> {
        tuple_fault::<(A, (B, (C, (D, (E, (F, (G, (H, (I, ())))))))))>(trail, t, 9)
    }

    open spec fn reads_field(trail: Seq<(usize, Tree)>, t: Option<Tree>, value: Self) -> bool {
        t matches Some(present) && Self::reads(trail, present, value)
    }

    open spec fn read_field_fault(
        trail: Seq<(usize, Tree)>,
        t: Option<Tree>,
        name: Seq<char>,
    ) -> Option<CodecFault> {
        required_field_fault(
            match t {
                Some(present) => Self::read_fault(trail, present),
                None => None,
            },
            t,
            name,
        )
    }

    fn from_term<Ctx: FliContext>(ctx: &Ctx, fli: &mut Fli, term: Term<'_>) -> (r: Result<
        Self,
        TermCodecError,
    >) {
        match read_tuple::<Ctx, (A, (B, (C, (D, (E, (F, (G, (H, (I, ())))))))))>(ctx, fli, term, 9) {
            Ok((v0, (v1, (v2, (v3, (v4, (v5, (v6, (v7, (v8, ())))))))))) => Ok((v0, v1, v2, v3, v4, v5, v6, v7, v8)),
            Err(error) => Err(error),
        }
    }

    fn __from_field<Ctx: FliContext>(
        ctx: &Ctx,
        fli: &mut Fli,
        term: Option<Term<'_>>,
        name: &str,
    ) -> (r: Result<Self, TermCodecError>) {
        match term {
            Some(present) => Self::from_term(ctx, fli, present),
            None => Err(TermCodecError::MissingField { field: name.to_owned() }),
        }
    }
}

impl<A: ToTerm, B: ToTerm, C: ToTerm, D: ToTerm, E: ToTerm, F: ToTerm, G: ToTerm, H: ToTerm, I: ToTerm> ToTerms for (A, B, C, D, E, F, G, H, I) {
    open spec fn count() -> nat {
        9
    }

    open spec fn encoded_terms(&self) -> Result<Seq<Tree>, CodecFault> {
        (&self.0, (&self.1, (&self.2, (&self.3, (&self.4, (&self.5, (&self.6, (&self.7, (&self.8, ()))))))))).chain()
    }

    fn len() -> (r: usize) {
        9
    }

    fn to_terms<Ctx: FliContext>(&self, ctx: &Ctx, fli: &mut Fli, terms: &TermList<'_>) -> (r: Result<
        (),
        TermCodecError,
    >) {
        let r: Result<(), TermCodecError> = (&self.0, (&self.1, (&self.2, (&self.3, (&self.4, (&self.5, (&self.6, (&self.7, (&self.8, ()))))))))).fill_chain(ctx, fli, terms, 0);
        assert(terms.held(fli@).skip(0) =~= terms.held(fli@));
        r
    }
}

impl<A: FromTerm, B: FromTerm, C: FromTerm, D: FromTerm, E: FromTerm, F: FromTerm, G: FromTerm, H: FromTerm, I: FromTerm> FromTerms for (A, B, C, D, E, F, G, H, I) {
    open spec fn count() -> nat {
        9
    }

    open spec fn reads_terms(trail: Seq<(usize, Tree)>, ts: Seq<Tree>, value: Self) -> bool {
        <(A, (B, (C, (D, (E, (F, (G, (H, (I, ())))))))))>::chain_reads(trail, ts, (value.0, (value.1, (value.2, (value.3, (value.4, (value.5, (value.6, (value.7, (value.8, ()))))))))))
    }

    open spec fn terms_fault(trail: Seq<(usize, Tree)>, ts: Seq<Tree>) -> Option<CodecFault> {
        <(A, (B, (C, (D, (E, (F, (G, (H, (I, ())))))))))>::chain_fault(trail, ts, 9, ts.len())
    }

    fn len() -> (r: usize) {
        9
    }

    fn from_terms<Ctx: FliContext>(ctx: &Ctx, fli: &mut Fli, terms: &TermList<'_>) -> (r: Result<
        Self,
        TermCodecError,
    >) {
        match read_block::<Ctx, (A, (B, (C, (D, (E, (F, (G, (H, (I, ())))))))))>(ctx, fli, terms, 9) {
            Ok((v0, (v1, (v2, (v3, (v4, (v5, (v6, (v7, (v8, ())))))))))) => Ok((v0, v1, v2, v3, v4, v5, v6, v7, v8)),
            Err(error) => Err(error),
        }
    }
}

impl<A: ToTerm, B: ToTerm, C: ToTerm, D: ToTerm, E: ToTerm, F: ToTerm, G: ToTerm, H: ToTerm, I: ToTerm, J: ToTerm> ToTerm for (A, B, C, D, E, F, G, H, I, J) {
    open spec fn encoded(&self) -> Result<Tree, CodecFault> {
        chain_list((&self.0, (&self.1, (&self.2, (&self.3, (&self.4, (&self.5, (&self.6, (&self.7, (&self.8, (&self.9, ())))))))))))
    }

    open spec fn encoded_field(&self) -> Result<Option<Tree>, CodecFault> {
        always_field(self.encoded())
    }

    fn to_term<Ctx: FliContext>(&self, ctx: &Ctx, fli: &mut Fli, term: Term<'_>) -> (r: Result<
        (),
        TermCodecError,
    >) {
        write_tuple(ctx, fli, term, (&self.0, (&self.1, (&self.2, (&self.3, (&self.4, (&self.5, (&self.6, (&self.7, (&self.8, (&self.9, ())))))))))))
    }

    fn __to_field<Ctx: FliContext>(&self, ctx: &Ctx, fli: &mut Fli, term: Term<'_>) -> (r: Result<
        bool,
        TermCodecError,
    >) {
        match self.to_term(ctx, fli, term) {
            Ok(()) => Ok(true),
            Err(error) => Err(error),
        }
    }
}

impl<A: FromTerm, B: FromTerm, C: FromTerm, D: FromTerm, E: FromTerm, F: FromTerm, G: FromTerm, H: FromTerm, I: FromTerm, J: FromTerm> FromTerm for (A, B, C, D, E, F, G, H, I, J) {
    open spec fn reads(trail: Seq<(usize, Tree)>, t: Tree, value: Self) -> bool {
        reads_tuple(trail, t, (value.0, (value.1, (value.2, (value.3, (value.4, (value.5, (value.6, (value.7, (value.8, (value.9, ())))))))))))
    }

    open spec fn read_fault(trail: Seq<(usize, Tree)>, t: Tree) -> Option<CodecFault> {
        tuple_fault::<(A, (B, (C, (D, (E, (F, (G, (H, (I, (J, ()))))))))))>(trail, t, 10)
    }

    open spec fn reads_field(trail: Seq<(usize, Tree)>, t: Option<Tree>, value: Self) -> bool {
        t matches Some(present) && Self::reads(trail, present, value)
    }

    open spec fn read_field_fault(
        trail: Seq<(usize, Tree)>,
        t: Option<Tree>,
        name: Seq<char>,
    ) -> Option<CodecFault> {
        required_field_fault(
            match t {
                Some(present) => Self::read_fault(trail, present),
                None => None,
            },
            t,
            name,
        )
    }

    fn from_term<Ctx: FliContext>(ctx: &Ctx, fli: &mut Fli, term: Term<'_>) -> (r: Result<
        Self,
        TermCodecError,
    >) {
        match read_tuple::<Ctx, (A, (B, (C, (D, (E, (F, (G, (H, (I, (J, ()))))))))))>(ctx, fli, term, 10) {
            Ok((v0, (v1, (v2, (v3, (v4, (v5, (v6, (v7, (v8, (v9, ()))))))))))) => Ok((v0, v1, v2, v3, v4, v5, v6, v7, v8, v9)),
            Err(error) => Err(error),
        }
    }

    fn __from_field<Ctx: FliContext>(
        ctx: &Ctx,
        fli: &mut Fli,
        term: Option<Term<'_>>,
        name: &str,
    ) -> (r: Result<Self, TermCodecError>) {
        match term {
            Some(present) => Self::from_term(ctx, fli, present),
            None => Err(TermCodecError::MissingField { field: name.to_owned() }),
        }
    }
}

impl<A: ToTerm, B: ToTerm, C: ToTerm, D: ToTerm, E: ToTerm, F: ToTerm, G: ToTerm, H: ToTerm, I: ToTerm, J: ToTerm> ToTerms for (A, B, C, D, E, F, G, H, I, J) {
    open spec fn count() -> nat {
        10
    }

    open spec fn encoded_terms(&self) -> Result<Seq<Tree>, CodecFault> {
        (&self.0, (&self.1, (&self.2, (&self.3, (&self.4, (&self.5, (&self.6, (&self.7, (&self.8, (&self.9, ())))))))))).chain()
    }

    fn len() -> (r: usize) {
        10
    }

    fn to_terms<Ctx: FliContext>(&self, ctx: &Ctx, fli: &mut Fli, terms: &TermList<'_>) -> (r: Result<
        (),
        TermCodecError,
    >) {
        let r: Result<(), TermCodecError> = (&self.0, (&self.1, (&self.2, (&self.3, (&self.4, (&self.5, (&self.6, (&self.7, (&self.8, (&self.9, ())))))))))).fill_chain(ctx, fli, terms, 0);
        assert(terms.held(fli@).skip(0) =~= terms.held(fli@));
        r
    }
}

impl<A: FromTerm, B: FromTerm, C: FromTerm, D: FromTerm, E: FromTerm, F: FromTerm, G: FromTerm, H: FromTerm, I: FromTerm, J: FromTerm> FromTerms for (A, B, C, D, E, F, G, H, I, J) {
    open spec fn count() -> nat {
        10
    }

    open spec fn reads_terms(trail: Seq<(usize, Tree)>, ts: Seq<Tree>, value: Self) -> bool {
        <(A, (B, (C, (D, (E, (F, (G, (H, (I, (J, ()))))))))))>::chain_reads(trail, ts, (value.0, (value.1, (value.2, (value.3, (value.4, (value.5, (value.6, (value.7, (value.8, (value.9, ())))))))))))
    }

    open spec fn terms_fault(trail: Seq<(usize, Tree)>, ts: Seq<Tree>) -> Option<CodecFault> {
        <(A, (B, (C, (D, (E, (F, (G, (H, (I, (J, ()))))))))))>::chain_fault(trail, ts, 10, ts.len())
    }

    fn len() -> (r: usize) {
        10
    }

    fn from_terms<Ctx: FliContext>(ctx: &Ctx, fli: &mut Fli, terms: &TermList<'_>) -> (r: Result<
        Self,
        TermCodecError,
    >) {
        match read_block::<Ctx, (A, (B, (C, (D, (E, (F, (G, (H, (I, (J, ()))))))))))>(ctx, fli, terms, 10) {
            Ok((v0, (v1, (v2, (v3, (v4, (v5, (v6, (v7, (v8, (v9, ()))))))))))) => Ok((v0, v1, v2, v3, v4, v5, v6, v7, v8, v9)),
            Err(error) => Err(error),
        }
    }
}

impl<A: ToTerm, B: ToTerm, C: ToTerm, D: ToTerm, E: ToTerm, F: ToTerm, G: ToTerm, H: ToTerm, I: ToTerm, J: ToTerm, K: ToTerm> ToTerm for (A, B, C, D, E, F, G, H, I, J, K) {
    open spec fn encoded(&self) -> Result<Tree, CodecFault> {
        chain_list((&self.0, (&self.1, (&self.2, (&self.3, (&self.4, (&self.5, (&self.6, (&self.7, (&self.8, (&self.9, (&self.10, ()))))))))))))
    }

    open spec fn encoded_field(&self) -> Result<Option<Tree>, CodecFault> {
        always_field(self.encoded())
    }

    fn to_term<Ctx: FliContext>(&self, ctx: &Ctx, fli: &mut Fli, term: Term<'_>) -> (r: Result<
        (),
        TermCodecError,
    >) {
        write_tuple(ctx, fli, term, (&self.0, (&self.1, (&self.2, (&self.3, (&self.4, (&self.5, (&self.6, (&self.7, (&self.8, (&self.9, (&self.10, ()))))))))))))
    }

    fn __to_field<Ctx: FliContext>(&self, ctx: &Ctx, fli: &mut Fli, term: Term<'_>) -> (r: Result<
        bool,
        TermCodecError,
    >) {
        match self.to_term(ctx, fli, term) {
            Ok(()) => Ok(true),
            Err(error) => Err(error),
        }
    }
}

impl<A: FromTerm, B: FromTerm, C: FromTerm, D: FromTerm, E: FromTerm, F: FromTerm, G: FromTerm, H: FromTerm, I: FromTerm, J: FromTerm, K: FromTerm> FromTerm for (A, B, C, D, E, F, G, H, I, J, K) {
    open spec fn reads(trail: Seq<(usize, Tree)>, t: Tree, value: Self) -> bool {
        reads_tuple(trail, t, (value.0, (value.1, (value.2, (value.3, (value.4, (value.5, (value.6, (value.7, (value.8, (value.9, (value.10, ()))))))))))))
    }

    open spec fn read_fault(trail: Seq<(usize, Tree)>, t: Tree) -> Option<CodecFault> {
        tuple_fault::<(A, (B, (C, (D, (E, (F, (G, (H, (I, (J, (K, ())))))))))))>(trail, t, 11)
    }

    open spec fn reads_field(trail: Seq<(usize, Tree)>, t: Option<Tree>, value: Self) -> bool {
        t matches Some(present) && Self::reads(trail, present, value)
    }

    open spec fn read_field_fault(
        trail: Seq<(usize, Tree)>,
        t: Option<Tree>,
        name: Seq<char>,
    ) -> Option<CodecFault> {
        required_field_fault(
            match t {
                Some(present) => Self::read_fault(trail, present),
                None => None,
            },
            t,
            name,
        )
    }

    fn from_term<Ctx: FliContext>(ctx: &Ctx, fli: &mut Fli, term: Term<'_>) -> (r: Result<
        Self,
        TermCodecError,
    >) {
        match read_tuple::<Ctx, (A, (B, (C, (D, (E, (F, (G, (H, (I, (J, (K, ())))))))))))>(ctx, fli, term, 11) {
            Ok((v0, (v1, (v2, (v3, (v4, (v5, (v6, (v7, (v8, (v9, (v10, ())))))))))))) => Ok((v0, v1, v2, v3, v4, v5, v6, v7, v8, v9, v10)),
            Err(error) => Err(error),
        }
    }

    fn __from_field<Ctx: FliContext>(
        ctx: &Ctx,
        fli: &mut Fli,
        term: Option<Term<'_>>,
        name: &str,
    ) -> (r: Result<Self, TermCodecError>) {
        match term {
            Some(present) => Self::from_term(ctx, fli, present),
            None => Err(TermCodecError::MissingField { field: name.to_owned() }),
        }
    }
}

impl<A: ToTerm, B: ToTerm, C: ToTerm, D: ToTerm, E: ToTerm, F: ToTerm, G: ToTerm, H: ToTerm, I: ToTerm, J: ToTerm, K: ToTerm> ToTerms for (A, B, C, D, E, F, G, H, I, J, K) {
    open spec fn count() -> nat {
        11
    }

    open spec fn encoded_terms(&self) -> Result<Seq<Tree>, CodecFault> {
        (&self.0, (&self.1, (&self.2, (&self.3, (&self.4, (&self.5, (&self.6, (&self.7, (&self.8, (&self.9, (&self.10, ()))))))))))).chain()
    }

    fn len() -> (r: usize) {
        11
    }

    fn to_terms<Ctx: FliContext>(&self, ctx: &Ctx, fli: &mut Fli, terms: &TermList<'_>) -> (r: Result<
        (),
        TermCodecError,
    >) {
        let r: Result<(), TermCodecError> = (&self.0, (&self.1, (&self.2, (&self.3, (&self.4, (&self.5, (&self.6, (&self.7, (&self.8, (&self.9, (&self.10, ()))))))))))).fill_chain(ctx, fli, terms, 0);
        assert(terms.held(fli@).skip(0) =~= terms.held(fli@));
        r
    }
}

impl<A: FromTerm, B: FromTerm, C: FromTerm, D: FromTerm, E: FromTerm, F: FromTerm, G: FromTerm, H: FromTerm, I: FromTerm, J: FromTerm, K: FromTerm> FromTerms for (A, B, C, D, E, F, G, H, I, J, K) {
    open spec fn count() -> nat {
        11
    }

    open spec fn reads_terms(trail: Seq<(usize, Tree)>, ts: Seq<Tree>, value: Self) -> bool {
        <(A, (B, (C, (D, (E, (F, (G, (H, (I, (J, (K, ())))))))))))>::chain_reads(trail, ts, (value.0, (value.1, (value.2, (value.3, (value.4, (value.5, (value.6, (value.7, (value.8, (value.9, (value.10, ()))))))))))))
    }

    open spec fn terms_fault(trail: Seq<(usize, Tree)>, ts: Seq<Tree>) -> Option<CodecFault> {
        <(A, (B, (C, (D, (E, (F, (G, (H, (I, (J, (K, ())))))))))))>::chain_fault(trail, ts, 11, ts.len())
    }

    fn len() -> (r: usize) {
        11
    }

    fn from_terms<Ctx: FliContext>(ctx: &Ctx, fli: &mut Fli, terms: &TermList<'_>) -> (r: Result<
        Self,
        TermCodecError,
    >) {
        match read_block::<Ctx, (A, (B, (C, (D, (E, (F, (G, (H, (I, (J, (K, ())))))))))))>(ctx, fli, terms, 11) {
            Ok((v0, (v1, (v2, (v3, (v4, (v5, (v6, (v7, (v8, (v9, (v10, ())))))))))))) => Ok((v0, v1, v2, v3, v4, v5, v6, v7, v8, v9, v10)),
            Err(error) => Err(error),
        }
    }
}

impl<A: ToTerm, B: ToTerm, C: ToTerm, D: ToTerm, E: ToTerm, F: ToTerm, G: ToTerm, H: ToTerm, I: ToTerm, J: ToTerm, K: ToTerm, L: ToTerm> ToTerm for (A, B, C, D, E, F, G, H, I, J, K, L) {
    open spec fn encoded(&self) -> Result<Tree, CodecFault> {
        chain_list((&self.0, (&self.1, (&self.2, (&self.3, (&self.4, (&self.5, (&self.6, (&self.7, (&self.8, (&self.9, (&self.10, (&self.11, ())))))))))))))
    }

    open spec fn encoded_field(&self) -> Result<Option<Tree>, CodecFault> {
        always_field(self.encoded())
    }

    fn to_term<Ctx: FliContext>(&self, ctx: &Ctx, fli: &mut Fli, term: Term<'_>) -> (r: Result<
        (),
        TermCodecError,
    >) {
        write_tuple(ctx, fli, term, (&self.0, (&self.1, (&self.2, (&self.3, (&self.4, (&self.5, (&self.6, (&self.7, (&self.8, (&self.9, (&self.10, (&self.11, ())))))))))))))
    }

    fn __to_field<Ctx: FliContext>(&self, ctx: &Ctx, fli: &mut Fli, term: Term<'_>) -> (r: Result<
        bool,
        TermCodecError,
    >) {
        match self.to_term(ctx, fli, term) {
            Ok(()) => Ok(true),
            Err(error) => Err(error),
        }
    }
}

impl<A: FromTerm, B: FromTerm, C: FromTerm, D: FromTerm, E: FromTerm, F: FromTerm, G: FromTerm, H: FromTerm, I: FromTerm, J: FromTerm, K: FromTerm, L: FromTerm> FromTerm for (A, B, C, D, E, F, G, H, I, J, K, L) {
    open spec fn reads(trail: Seq<(usize, Tree)>, t: Tree, value: Self) -> bool {
        reads_tuple(trail, t, (value.0, (value.1, (value.2, (value.3, (value.4, (value.5, (value.6, (value.7, (value.8, (value.9, (value.10, (value.11, ())))))))))))))
    }

    open spec fn read_fault(trail: Seq<(usize, Tree)>, t: Tree) -> Option<CodecFault> {
        tuple_fault::<(A, (B, (C, (D, (E, (F, (G, (H, (I, (J, (K, (L, ()))))))))))))>(trail, t, 12)
    }

    open spec fn reads_field(trail: Seq<(usize, Tree)>, t: Option<Tree>, value: Self) -> bool {
        t matches Some(present) && Self::reads(trail, present, value)
    }

    open spec fn read_field_fault(
        trail: Seq<(usize, Tree)>,
        t: Option<Tree>,
        name: Seq<char>,
    ) -> Option<CodecFault> {
        required_field_fault(
            match t {
                Some(present) => Self::read_fault(trail, present),
                None => None,
            },
            t,
            name,
        )
    }

    fn from_term<Ctx: FliContext>(ctx: &Ctx, fli: &mut Fli, term: Term<'_>) -> (r: Result<
        Self,
        TermCodecError,
    >) {
        match read_tuple::<Ctx, (A, (B, (C, (D, (E, (F, (G, (H, (I, (J, (K, (L, ()))))))))))))>(ctx, fli, term, 12) {
            Ok((v0, (v1, (v2, (v3, (v4, (v5, (v6, (v7, (v8, (v9, (v10, (v11, ()))))))))))))) => Ok((v0, v1, v2, v3, v4, v5, v6, v7, v8, v9, v10, v11)),
            Err(error) => Err(error),
        }
    }

    fn __from_field<Ctx: FliContext>(
        ctx: &Ctx,
        fli: &mut Fli,
        term: Option<Term<'_>>,
        name: &str,
    ) -> (r: Result<Self, TermCodecError>) {
        match term {
            Some(present) => Self::from_term(ctx, fli, present),
            None => Err(TermCodecError::MissingField { field: name.to_owned() }),
        }
    }
}

impl<A: ToTerm, B: ToTerm, C: ToTerm, D: ToTerm, E: ToTerm, F: ToTerm, G: ToTerm, H: ToTerm, I: ToTerm, J: ToTerm, K: ToTerm, L: ToTerm> ToTerms for (A, B, C, D, E, F, G, H, I, J, K, L) {
    open spec fn count() -> nat {
        12
    }

    open spec fn encoded_terms(&self) -> Result<Seq<Tree>, CodecFault> {
        (&self.0, (&self.1, (&self.2, (&self.3, (&self.4, (&self.5, (&self.6, (&self.7, (&self.8, (&self.9, (&self.10, (&self.11, ())))))))))))).chain()
    }

    fn len() -> (r: usize) {
        12
    }

    fn to_terms<Ctx: FliContext>(&self, ctx: &Ctx, fli: &mut Fli, terms: &TermList<'_>) -> (r: Result<
        (),
        TermCodecError,
    >) {
        let r: Result<(), TermCodecError> = (&self.0, (&self.1, (&self.2, (&self.3, (&self.4, (&self.5, (&self.6, (&self.7, (&self.8, (&self.9, (&self.10, (&self.11, ())))))))))))).fill_chain(ctx, fli, terms, 0);
        assert(terms.held(fli@).skip(0) =~= terms.held(fli@));
        r
    }
}

impl<A: FromTerm, B: FromTerm, C: FromTerm, D: FromTerm, E: FromTerm, F: FromTerm, G: FromTerm, H: FromTerm, I: FromTerm, J: FromTerm, K: FromTerm, L: FromTerm> FromTerms for (A, B, C, D, E, F, G, H, I, J, K, L) {
    open spec fn count() -> nat {
        12
    }

    open spec fn reads_terms(trail: Seq<(usize, Tree)>, ts: Seq<Tree>, value: Self) -> bool {
        <(A, (B, (C, (D, (E, (F, (G, (H, (I, (J, (K, (L, ()))))))))))))>::chain_reads(trail, ts, (value.0, (value.1, (value.2, (value.3, (value.4, (value.5, (value.6, (value.7, (value.8, (value.9, (value.10, (value.11, ())))))))))))))
    }

    open spec fn terms_fault(trail: Seq<(usize, Tree)>, ts: Seq<Tree>) -> Option<CodecFault> {
        <(A, (B, (C, (D, (E, (F, (G, (H, (I, (J, (K, (L, ()))))))))))))>::chain_fault(trail, ts, 12, ts.len())
    }

    fn len() -> (r: usize) {
        12
    }

    fn from_terms<Ctx: FliContext>(ctx: &Ctx, fli: &mut Fli, terms: &TermList<'_>) -> (r: Result<
        Self,
        TermCodecError,
    >) {
        match read_block::<Ctx, (A, (B, (C, (D, (E, (F, (G, (H, (I, (J, (K, (L, ()))))))))))))>(ctx, fli, terms, 12) {
            Ok((v0, (v1, (v2, (v3, (v4, (v5, (v6, (v7, (v8, (v9, (v10, (v11, ()))))))))))))) => Ok((v0, v1, v2, v3, v4, v5, v6, v7, v8, v9, v10, v11)),
            Err(error) => Err(error),
        }
    }
}

impl<A: ToTerm, B: ToTerm, C: ToTerm, D: ToTerm, E: ToTerm, F: ToTerm, G: ToTerm, H: ToTerm, I: ToTerm, J: ToTerm, K: ToTerm, L: ToTerm, M: ToTerm> ToTerm for (A, B, C, D, E, F, G, H, I, J, K, L, M) {
    open spec fn encoded(&self) -> Result<Tree, CodecFault> {
        chain_list((&self.0, (&self.1, (&self.2, (&self.3, (&self.4, (&self.5, (&self.6, (&self.7, (&self.8, (&self.9, (&self.10, (&self.11, (&self.12, ()))))))))))))))
    }

    open spec fn encoded_field(&self) -> Result<Option<Tree>, CodecFault> {
        always_field(self.encoded())
    }

    fn to_term<Ctx: FliContext>(&self, ctx: &Ctx, fli: &mut Fli, term: Term<'_>) -> (r: Result<
        (),
        TermCodecError,
    >) {
        write_tuple(ctx, fli, term, (&self.0, (&self.1, (&self.2, (&self.3, (&self.4, (&self.5, (&self.6, (&self.7, (&self.8, (&self.9, (&self.10, (&self.11, (&self.12, ()))))))))))))))
    }

    fn __to_field<Ctx: FliContext>(&self, ctx: &Ctx, fli: &mut Fli, term: Term<'_>) -> (r: Result<
        bool,
        TermCodecError,
    >) {
        match self.to_term(ctx, fli, term) {
            Ok(()) => Ok(true),
            Err(error) => Err(error),
        }
    }
}

impl<A: FromTerm, B: FromTerm, C: FromTerm, D: FromTerm, E: FromTerm, F: FromTerm, G: FromTerm, H: FromTerm, I: FromTerm, J: FromTerm, K: FromTerm, L: FromTerm, M: FromTerm> FromTerm for (A, B, C, D, E, F, G, H, I, J, K, L, M) {
    open spec fn reads(trail: Seq<(usize, Tree)>, t: Tree, value: Self) -> bool {
        reads_tuple(trail, t, (value.0, (value.1, (value.2, (value.3, (value.4, (value.5, (value.6, (value.7, (value.8, (value.9, (value.10, (value.11, (value.12, ()))))))))))))))
    }

    open spec fn read_fault(trail: Seq<(usize, Tree)>, t: Tree) -> Option<CodecFault> {
        tuple_fault::<(A, (B, (C, (D, (E, (F, (G, (H, (I, (J, (K, (L, (M, ())))))))))))))>(trail, t, 13)
    }

    open spec fn reads_field(trail: Seq<(usize, Tree)>, t: Option<Tree>, value: Self) -> bool {
        t matches Some(present) && Self::reads(trail, present, value)
    }

    open spec fn read_field_fault(
        trail: Seq<(usize, Tree)>,
        t: Option<Tree>,
        name: Seq<char>,
    ) -> Option<CodecFault> {
        required_field_fault(
            match t {
                Some(present) => Self::read_fault(trail, present),
                None => None,
            },
            t,
            name,
        )
    }

    fn from_term<Ctx: FliContext>(ctx: &Ctx, fli: &mut Fli, term: Term<'_>) -> (r: Result<
        Self,
        TermCodecError,
    >) {
        match read_tuple::<Ctx, (A, (B, (C, (D, (E, (F, (G, (H, (I, (J, (K, (L, (M, ())))))))))))))>(ctx, fli, term, 13) {
            Ok((v0, (v1, (v2, (v3, (v4, (v5, (v6, (v7, (v8, (v9, (v10, (v11, (v12, ())))))))))))))) => Ok((v0, v1, v2, v3, v4, v5, v6, v7, v8, v9, v10, v11, v12)),
            Err(error) => Err(error),
        }
    }

    fn __from_field<Ctx: FliContext>(
        ctx: &Ctx,
        fli: &mut Fli,
        term: Option<Term<'_>>,
        name: &str,
    ) -> (r: Result<Self, TermCodecError>) {
        match term {
            Some(present) => Self::from_term(ctx, fli, present),
            None => Err(TermCodecError::MissingField { field: name.to_owned() }),
        }
    }
}

impl<A: ToTerm, B: ToTerm, C: ToTerm, D: ToTerm, E: ToTerm, F: ToTerm, G: ToTerm, H: ToTerm, I: ToTerm, J: ToTerm, K: ToTerm, L: ToTerm, M: ToTerm> ToTerms for (A, B, C, D, E, F, G, H, I, J, K, L, M) {
    open spec fn count() -> nat {
        13
    }

    open spec fn encoded_terms(&self) -> Result<Seq<Tree>, CodecFault> {
        (&self.0, (&self.1, (&self.2, (&self.3, (&self.4, (&self.5, (&self.6, (&self.7, (&self.8, (&self.9, (&self.10, (&self.11, (&self.12, ()))))))))))))).chain()
    }

    fn len() -> (r: usize) {
        13
    }

    fn to_terms<Ctx: FliContext>(&self, ctx: &Ctx, fli: &mut Fli, terms: &TermList<'_>) -> (r: Result<
        (),
        TermCodecError,
    >) {
        let r: Result<(), TermCodecError> = (&self.0, (&self.1, (&self.2, (&self.3, (&self.4, (&self.5, (&self.6, (&self.7, (&self.8, (&self.9, (&self.10, (&self.11, (&self.12, ()))))))))))))).fill_chain(ctx, fli, terms, 0);
        assert(terms.held(fli@).skip(0) =~= terms.held(fli@));
        r
    }
}

impl<A: FromTerm, B: FromTerm, C: FromTerm, D: FromTerm, E: FromTerm, F: FromTerm, G: FromTerm, H: FromTerm, I: FromTerm, J: FromTerm, K: FromTerm, L: FromTerm, M: FromTerm> FromTerms for (A, B, C, D, E, F, G, H, I, J, K, L, M) {
    open spec fn count() -> nat {
        13
    }

    open spec fn reads_terms(trail: Seq<(usize, Tree)>, ts: Seq<Tree>, value: Self) -> bool {
        <(A, (B, (C, (D, (E, (F, (G, (H, (I, (J, (K, (L, (M, ())))))))))))))>::chain_reads(trail, ts, (value.0, (value.1, (value.2, (value.3, (value.4, (value.5, (value.6, (value.7, (value.8, (value.9, (value.10, (value.11, (value.12, ()))))))))))))))
    }

    open spec fn terms_fault(trail: Seq<(usize, Tree)>, ts: Seq<Tree>) -> Option<CodecFault> {
        <(A, (B, (C, (D, (E, (F, (G, (H, (I, (J, (K, (L, (M, ())))))))))))))>::chain_fault(trail, ts, 13, ts.len())
    }

    fn len() -> (r: usize) {
        13
    }

    fn from_terms<Ctx: FliContext>(ctx: &Ctx, fli: &mut Fli, terms: &TermList<'_>) -> (r: Result<
        Self,
        TermCodecError,
    >) {
        match read_block::<Ctx, (A, (B, (C, (D, (E, (F, (G, (H, (I, (J, (K, (L, (M, ())))))))))))))>(ctx, fli, terms, 13) {
            Ok((v0, (v1, (v2, (v3, (v4, (v5, (v6, (v7, (v8, (v9, (v10, (v11, (v12, ())))))))))))))) => Ok((v0, v1, v2, v3, v4, v5, v6, v7, v8, v9, v10, v11, v12)),
            Err(error) => Err(error),
        }
    }
}

impl<A: ToTerm, B: ToTerm, C: ToTerm, D: ToTerm, E: ToTerm, F: ToTerm, G: ToTerm, H: ToTerm, I: ToTerm, J: ToTerm, K: ToTerm, L: ToTerm, M: ToTerm, N: ToTerm> ToTerm for (A, B, C, D, E, F, G, H, I, J, K, L, M, N) {
    open spec fn encoded(&self) -> Result<Tree, CodecFault> {
        chain_list((&self.0, (&self.1, (&self.2, (&self.3, (&self.4, (&self.5, (&self.6, (&self.7, (&self.8, (&self.9, (&self.10, (&self.11, (&self.12, (&self.13, ())))))))))))))))
    }

    open spec fn encoded_field(&self) -> Result<Option<Tree>, CodecFault> {
        always_field(self.encoded())
    }

    fn to_term<Ctx: FliContext>(&self, ctx: &Ctx, fli: &mut Fli, term: Term<'_>) -> (r: Result<
        (),
        TermCodecError,
    >) {
        write_tuple(ctx, fli, term, (&self.0, (&self.1, (&self.2, (&self.3, (&self.4, (&self.5, (&self.6, (&self.7, (&self.8, (&self.9, (&self.10, (&self.11, (&self.12, (&self.13, ())))))))))))))))
    }

    fn __to_field<Ctx: FliContext>(&self, ctx: &Ctx, fli: &mut Fli, term: Term<'_>) -> (r: Result<
        bool,
        TermCodecError,
    >) {
        match self.to_term(ctx, fli, term) {
            Ok(()) => Ok(true),
            Err(error) => Err(error),
        }
    }
}

impl<A: FromTerm, B: FromTerm, C: FromTerm, D: FromTerm, E: FromTerm, F: FromTerm, G: FromTerm, H: FromTerm, I: FromTerm, J: FromTerm, K: FromTerm, L: FromTerm, M: FromTerm, N: FromTerm> FromTerm for (A, B, C, D, E, F, G, H, I, J, K, L, M, N) {
    open spec fn reads(trail: Seq<(usize, Tree)>, t: Tree, value: Self) -> bool {
        reads_tuple(trail, t, (value.0, (value.1, (value.2, (value.3, (value.4, (value.5, (value.6, (value.7, (value.8, (value.9, (value.10, (value.11, (value.12, (value.13, ())))))))))))))))
    }

    open spec fn read_fault(trail: Seq<(usize, Tree)>, t: Tree) -> Option<CodecFault> {
        tuple_fault::<(A, (B, (C, (D, (E, (F, (G, (H, (I, (J, (K, (L, (M, (N, ()))))))))))))))>(trail, t, 14)
    }

    open spec fn reads_field(trail: Seq<(usize, Tree)>, t: Option<Tree>, value: Self) -> bool {
        t matches Some(present) && Self::reads(trail, present, value)
    }

    open spec fn read_field_fault(
        trail: Seq<(usize, Tree)>,
        t: Option<Tree>,
        name: Seq<char>,
    ) -> Option<CodecFault> {
        required_field_fault(
            match t {
                Some(present) => Self::read_fault(trail, present),
                None => None,
            },
            t,
            name,
        )
    }

    fn from_term<Ctx: FliContext>(ctx: &Ctx, fli: &mut Fli, term: Term<'_>) -> (r: Result<
        Self,
        TermCodecError,
    >) {
        match read_tuple::<Ctx, (A, (B, (C, (D, (E, (F, (G, (H, (I, (J, (K, (L, (M, (N, ()))))))))))))))>(ctx, fli, term, 14) {
            Ok((v0, (v1, (v2, (v3, (v4, (v5, (v6, (v7, (v8, (v9, (v10, (v11, (v12, (v13, ()))))))))))))))) => Ok((v0, v1, v2, v3, v4, v5, v6, v7, v8, v9, v10, v11, v12, v13)),
            Err(error) => Err(error),
        }
    }

    fn __from_field<Ctx: FliContext>(
        ctx: &Ctx,
        fli: &mut Fli,
        term: Option<Term<'_>>,
        name: &str,
    ) -> (r: Result<Self, TermCodecError>) {
        match term {
            Some(present) => Self::from_term(ctx, fli, present),
            None => Err(TermCodecError::MissingField { field: name.to_owned() }),
        }
    }
}

impl<A: ToTerm, B: ToTerm, C: ToTerm, D: ToTerm, E: ToTerm, F: ToTerm, G: ToTerm, H: ToTerm, I: ToTerm, J: ToTerm, K: ToTerm, L: ToTerm, M: ToTerm, N: ToTerm> ToTerms for (A, B, C, D, E, F, G, H, I, J, K, L, M, N) {
    open spec fn count() -> nat {
        14
    }

    open spec fn encoded_terms(&self) -> Result<Seq<Tree>, CodecFault> {
        (&self.0, (&self.1, (&self.2, (&self.3, (&self.4, (&self.5, (&self.6, (&self.7, (&self.8, (&self.9, (&self.10, (&self.11, (&self.12, (&self.13, ())))))))))))))).chain()
    }

    fn len() -> (r: usize) {
        14
    }

    fn to_terms<Ctx: FliContext>(&self, ctx: &Ctx, fli: &mut Fli, terms: &TermList<'_>) -> (r: Result<
        (),
        TermCodecError,
    >) {
        let r: Result<(), TermCodecError> = (&self.0, (&self.1, (&self.2, (&self.3, (&self.4, (&self.5, (&self.6, (&self.7, (&self.8, (&self.9, (&self.10, (&self.11, (&self.12, (&self.13, ())))))))))))))).fill_chain(ctx, fli, terms, 0);
        assert(terms.held(fli@).skip(0) =~= terms.held(fli@));
        r
    }
}

impl<A: FromTerm, B: FromTerm, C: FromTerm, D: FromTerm, E: FromTerm, F: FromTerm, G: FromTerm, H: FromTerm, I: FromTerm, J: FromTerm, K: FromTerm, L: FromTerm, M: FromTerm, N: FromTerm> FromTerms for (A, B, C, D, E, F, G, H, I, J, K, L, M, N) {
    open spec fn count() -> nat {
        14
    }

    open spec fn reads_terms(trail: Seq<(usize, Tree)>, ts: Seq<Tree>, value: Self) -> bool {
        <(A, (B, (C, (D, (E, (F, (G, (H, (I, (J, (K, (L, (M, (N, ()))))))))))))))>::chain_reads(trail, ts, (value.0, (value.1, (value.2, (value.3, (value.4, (value.5, (value.6, (value.7, (value.8, (value.9, (value.10, (value.11, (value.12, (value.13, ())))))))))))))))
    }

    open spec fn terms_fault(trail: Seq<(usize, Tree)>, ts: Seq<Tree>) -> Option<CodecFault> {
        <(A, (B, (C, (D, (E, (F, (G, (H, (I, (J, (K, (L, (M, (N, ()))))))))))))))>::chain_fault(trail, ts, 14, ts.len())
    }

    fn len() -> (r: usize) {
        14
    }

    fn from_terms<Ctx: FliContext>(ctx: &Ctx, fli: &mut Fli, terms: &TermList<'_>) -> (r: Result<
        Self,
        TermCodecError,
    >) {
        match read_block::<Ctx, (A, (B, (C, (D, (E, (F, (G, (H, (I, (J, (K, (L, (M, (N, ()))))))))))))))>(ctx, fli, terms, 14) {
            Ok((v0, (v1, (v2, (v3, (v4, (v5, (v6, (v7, (v8, (v9, (v10, (v11, (v12, (v13, ()))))))))))))))) => Ok((v0, v1, v2, v3, v4, v5, v6, v7, v8, v9, v10, v11, v12, v13)),
            Err(error) => Err(error),
        }
    }
}

impl<A: ToTerm, B: ToTerm, C: ToTerm, D: ToTerm, E: ToTerm, F: ToTerm, G: ToTerm, H: ToTerm, I: ToTerm, J: ToTerm, K: ToTerm, L: ToTerm, M: ToTerm, N: ToTerm, O: ToTerm> ToTerm for (A, B, C, D, E, F, G, H, I, J, K, L, M, N, O) {
    open spec fn encoded(&self) -> Result<Tree, CodecFault> {
        chain_list((&self.0, (&self.1, (&self.2, (&self.3, (&self.4, (&self.5, (&self.6, (&self.7, (&self.8, (&self.9, (&self.10, (&self.11, (&self.12, (&self.13, (&self.14, ()))))))))))))))))
    }

    open spec fn encoded_field(&self) -> Result<Option<Tree>, CodecFault> {
        always_field(self.encoded())
    }

    fn to_term<Ctx: FliContext>(&self, ctx: &Ctx, fli: &mut Fli, term: Term<'_>) -> (r: Result<
        (),
        TermCodecError,
    >) {
        write_tuple(ctx, fli, term, (&self.0, (&self.1, (&self.2, (&self.3, (&self.4, (&self.5, (&self.6, (&self.7, (&self.8, (&self.9, (&self.10, (&self.11, (&self.12, (&self.13, (&self.14, ()))))))))))))))))
    }

    fn __to_field<Ctx: FliContext>(&self, ctx: &Ctx, fli: &mut Fli, term: Term<'_>) -> (r: Result<
        bool,
        TermCodecError,
    >) {
        match self.to_term(ctx, fli, term) {
            Ok(()) => Ok(true),
            Err(error) => Err(error),
        }
    }
}

impl<A: FromTerm, B: FromTerm, C: FromTerm, D: FromTerm, E: FromTerm, F: FromTerm, G: FromTerm, H: FromTerm, I: FromTerm, J: FromTerm, K: FromTerm, L: FromTerm, M: FromTerm, N: FromTerm, O: FromTerm> FromTerm for (A, B, C, D, E, F, G, H, I, J, K, L, M, N, O) {
    open spec fn reads(trail: Seq<(usize, Tree)>, t: Tree, value: Self) -> bool {
        reads_tuple(trail, t, (value.0, (value.1, (value.2, (value.3, (value.4, (value.5, (value.6, (value.7, (value.8, (value.9, (value.10, (value.11, (value.12, (value.13, (value.14, ()))))))))))))))))
    }

    open spec fn read_fault(trail: Seq<(usize, Tree)>, t: Tree) -> Option<CodecFault> {
        tuple_fault::<(A, (B, (C, (D, (E, (F, (G, (H, (I, (J, (K, (L, (M, (N, (O, ())))))))))))))))>(trail, t, 15)
    }

    open spec fn reads_field(trail: Seq<(usize, Tree)>, t: Option<Tree>, value: Self) -> bool {
        t matches Some(present) && Self::reads(trail, present, value)
    }

    open spec fn read_field_fault(
        trail: Seq<(usize, Tree)>,
        t: Option<Tree>,
        name: Seq<char>,
    ) -> Option<CodecFault> {
        required_field_fault(
            match t {
                Some(present) => Self::read_fault(trail, present),
                None => None,
            },
            t,
            name,
        )
    }

    fn from_term<Ctx: FliContext>(ctx: &Ctx, fli: &mut Fli, term: Term<'_>) -> (r: Result<
        Self,
        TermCodecError,
    >) {
        match read_tuple::<Ctx, (A, (B, (C, (D, (E, (F, (G, (H, (I, (J, (K, (L, (M, (N, (O, ())))))))))))))))>(ctx, fli, term, 15) {
            Ok((v0, (v1, (v2, (v3, (v4, (v5, (v6, (v7, (v8, (v9, (v10, (v11, (v12, (v13, (v14, ())))))))))))))))) => Ok((v0, v1, v2, v3, v4, v5, v6, v7, v8, v9, v10, v11, v12, v13, v14)),
            Err(error) => Err(error),
        }
    }

    fn __from_field<Ctx: FliContext>(
        ctx: &Ctx,
        fli: &mut Fli,
        term: Option<Term<'_>>,
        name: &str,
    ) -> (r: Result<Self, TermCodecError>) {
        match term {
            Some(present) => Self::from_term(ctx, fli, present),
            None => Err(TermCodecError::MissingField { field: name.to_owned() }),
        }
    }
}

impl<A: ToTerm, B: ToTerm, C: ToTerm, D: ToTerm, E: ToTerm, F: ToTerm, G: ToTerm, H: ToTerm, I: ToTerm, J: ToTerm, K: ToTerm, L: ToTerm, M: ToTerm, N: ToTerm, O: ToTerm> ToTerms for (A, B, C, D, E, F, G, H, I, J, K, L, M, N, O) {
    open spec fn count() -> nat {
        15
    }

    open spec fn encoded_terms(&self) -> Result<Seq<Tree>, CodecFault> {
        (&self.0, (&self.1, (&self.2, (&self.3, (&self.4, (&self.5, (&self.6, (&self.7, (&self.8, (&self.9, (&self.10, (&self.11, (&self.12, (&self.13, (&self.14, ()))))))))))))))).chain()
    }

    fn len() -> (r: usize) {
        15
    }

    fn to_terms<Ctx: FliContext>(&self, ctx: &Ctx, fli: &mut Fli, terms: &TermList<'_>) -> (r: Result<
        (),
        TermCodecError,
    >) {
        let r: Result<(), TermCodecError> = (&self.0, (&self.1, (&self.2, (&self.3, (&self.4, (&self.5, (&self.6, (&self.7, (&self.8, (&self.9, (&self.10, (&self.11, (&self.12, (&self.13, (&self.14, ()))))))))))))))).fill_chain(ctx, fli, terms, 0);
        assert(terms.held(fli@).skip(0) =~= terms.held(fli@));
        r
    }
}

impl<A: FromTerm, B: FromTerm, C: FromTerm, D: FromTerm, E: FromTerm, F: FromTerm, G: FromTerm, H: FromTerm, I: FromTerm, J: FromTerm, K: FromTerm, L: FromTerm, M: FromTerm, N: FromTerm, O: FromTerm> FromTerms for (A, B, C, D, E, F, G, H, I, J, K, L, M, N, O) {
    open spec fn count() -> nat {
        15
    }

    open spec fn reads_terms(trail: Seq<(usize, Tree)>, ts: Seq<Tree>, value: Self) -> bool {
        <(A, (B, (C, (D, (E, (F, (G, (H, (I, (J, (K, (L, (M, (N, (O, ())))))))))))))))>::chain_reads(trail, ts, (value.0, (value.1, (value.2, (value.3, (value.4, (value.5, (value.6, (value.7, (value.8, (value.9, (value.10, (value.11, (value.12, (value.13, (value.14, ()))))))))))))))))
    }

    open spec fn terms_fault(trail: Seq<(usize, Tree)>, ts: Seq<Tree>) -> Option<CodecFault> {
        <(A, (B, (C, (D, (E, (F, (G, (H, (I, (J, (K, (L, (M, (N, (O, ())))))))))))))))>::chain_fault(trail, ts, 15, ts.len())
    }

    fn len() -> (r: usize) {
        15
    }

    fn from_terms<Ctx: FliContext>(ctx: &Ctx, fli: &mut Fli, terms: &TermList<'_>) -> (r: Result<
        Self,
        TermCodecError,
    >) {
        match read_block::<Ctx, (A, (B, (C, (D, (E, (F, (G, (H, (I, (J, (K, (L, (M, (N, (O, ())))))))))))))))>(ctx, fli, terms, 15) {
            Ok((v0, (v1, (v2, (v3, (v4, (v5, (v6, (v7, (v8, (v9, (v10, (v11, (v12, (v13, (v14, ())))))))))))))))) => Ok((v0, v1, v2, v3, v4, v5, v6, v7, v8, v9, v10, v11, v12, v13, v14)),
            Err(error) => Err(error),
        }
    }
}

impl<A: ToTerm, B: ToTerm, C: ToTerm, D: ToTerm, E: ToTerm, F: ToTerm, G: ToTerm, H: ToTerm, I: ToTerm, J: ToTerm, K: ToTerm, L: ToTerm, M: ToTerm, N: ToTerm, O: ToTerm, P: ToTerm> ToTerm for (A, B, C, D, E, F, G, H, I, J, K, L, M, N, O, P) {
    open spec fn encoded(&self) -> Result<Tree, CodecFault> {
        chain_list((&self.0, (&self.1, (&self.2, (&self.3, (&self.4, (&self.5, (&self.6, (&self.7, (&self.8, (&self.9, (&self.10, (&self.11, (&self.12, (&self.13, (&self.14, (&self.15, ())))))))))))))))))
    }

    open spec fn encoded_field(&self) -> Result<Option<Tree>, CodecFault> {
        always_field(self.encoded())
    }

    fn to_term<Ctx: FliContext>(&self, ctx: &Ctx, fli: &mut Fli, term: Term<'_>) -> (r: Result<
        (),
        TermCodecError,
    >) {
        write_tuple(ctx, fli, term, (&self.0, (&self.1, (&self.2, (&self.3, (&self.4, (&self.5, (&self.6, (&self.7, (&self.8, (&self.9, (&self.10, (&self.11, (&self.12, (&self.13, (&self.14, (&self.15, ())))))))))))))))))
    }

    fn __to_field<Ctx: FliContext>(&self, ctx: &Ctx, fli: &mut Fli, term: Term<'_>) -> (r: Result<
        bool,
        TermCodecError,
    >) {
        match self.to_term(ctx, fli, term) {
            Ok(()) => Ok(true),
            Err(error) => Err(error),
        }
    }
}

impl<A: FromTerm, B: FromTerm, C: FromTerm, D: FromTerm, E: FromTerm, F: FromTerm, G: FromTerm, H: FromTerm, I: FromTerm, J: FromTerm, K: FromTerm, L: FromTerm, M: FromTerm, N: FromTerm, O: FromTerm, P: FromTerm> FromTerm for (A, B, C, D, E, F, G, H, I, J, K, L, M, N, O, P) {
    open spec fn reads(trail: Seq<(usize, Tree)>, t: Tree, value: Self) -> bool {
        reads_tuple(trail, t, (value.0, (value.1, (value.2, (value.3, (value.4, (value.5, (value.6, (value.7, (value.8, (value.9, (value.10, (value.11, (value.12, (value.13, (value.14, (value.15, ())))))))))))))))))
    }

    open spec fn read_fault(trail: Seq<(usize, Tree)>, t: Tree) -> Option<CodecFault> {
        tuple_fault::<(A, (B, (C, (D, (E, (F, (G, (H, (I, (J, (K, (L, (M, (N, (O, (P, ()))))))))))))))))>(trail, t, 16)
    }

    open spec fn reads_field(trail: Seq<(usize, Tree)>, t: Option<Tree>, value: Self) -> bool {
        t matches Some(present) && Self::reads(trail, present, value)
    }

    open spec fn read_field_fault(
        trail: Seq<(usize, Tree)>,
        t: Option<Tree>,
        name: Seq<char>,
    ) -> Option<CodecFault> {
        required_field_fault(
            match t {
                Some(present) => Self::read_fault(trail, present),
                None => None,
            },
            t,
            name,
        )
    }

    fn from_term<Ctx: FliContext>(ctx: &Ctx, fli: &mut Fli, term: Term<'_>) -> (r: Result<
        Self,
        TermCodecError,
    >) {
        match read_tuple::<Ctx, (A, (B, (C, (D, (E, (F, (G, (H, (I, (J, (K, (L, (M, (N, (O, (P, ()))))))))))))))))>(ctx, fli, term, 16) {
            Ok((v0, (v1, (v2, (v3, (v4, (v5, (v6, (v7, (v8, (v9, (v10, (v11, (v12, (v13, (v14, (v15, ()))))))))))))))))) => Ok((v0, v1, v2, v3, v4, v5, v6, v7, v8, v9, v10, v11, v12, v13, v14, v15)),
            Err(error) => Err(error),
        }
    }

    fn __from_field<Ctx: FliContext>(
        ctx: &Ctx,
        fli: &mut Fli,
        term: Option<Term<'_>>,
        name: &str,
    ) -> (r: Result<Self, TermCodecError>) {
        match term {
            Some(present) => Self::from_term(ctx, fli, present),
            None => Err(TermCodecError::MissingField { field: name.to_owned() }),
        }
    }
}

impl<A: ToTerm, B: ToTerm, C: ToTerm, D: ToTerm, E: ToTerm, F: ToTerm, G: ToTerm, H: ToTerm, I: ToTerm, J: ToTerm, K: ToTerm, L: ToTerm, M: ToTerm, N: ToTerm, O: ToTerm, P: ToTerm> ToTerms for (A, B, C, D, E, F, G, H, I, J, K, L, M, N, O, P) {
    open spec fn count() -> nat {
        16
    }

    open spec fn encoded_terms(&self) -> Result<Seq<Tree>, CodecFault> {
        (&self.0, (&self.1, (&self.2, (&self.3, (&self.4, (&self.5, (&self.6, (&self.7, (&self.8, (&self.9, (&self.10, (&self.11, (&self.12, (&self.13, (&self.14, (&self.15, ())))))))))))))))).chain()
    }

    fn len() -> (r: usize) {
        16
    }

    fn to_terms<Ctx: FliContext>(&self, ctx: &Ctx, fli: &mut Fli, terms: &TermList<'_>) -> (r: Result<
        (),
        TermCodecError,
    >) {
        let r: Result<(), TermCodecError> = (&self.0, (&self.1, (&self.2, (&self.3, (&self.4, (&self.5, (&self.6, (&self.7, (&self.8, (&self.9, (&self.10, (&self.11, (&self.12, (&self.13, (&self.14, (&self.15, ())))))))))))))))).fill_chain(ctx, fli, terms, 0);
        assert(terms.held(fli@).skip(0) =~= terms.held(fli@));
        r
    }
}

impl<A: FromTerm, B: FromTerm, C: FromTerm, D: FromTerm, E: FromTerm, F: FromTerm, G: FromTerm, H: FromTerm, I: FromTerm, J: FromTerm, K: FromTerm, L: FromTerm, M: FromTerm, N: FromTerm, O: FromTerm, P: FromTerm> FromTerms for (A, B, C, D, E, F, G, H, I, J, K, L, M, N, O, P) {
    open spec fn count() -> nat {
        16
    }

    open spec fn reads_terms(trail: Seq<(usize, Tree)>, ts: Seq<Tree>, value: Self) -> bool {
        <(A, (B, (C, (D, (E, (F, (G, (H, (I, (J, (K, (L, (M, (N, (O, (P, ()))))))))))))))))>::chain_reads(trail, ts, (value.0, (value.1, (value.2, (value.3, (value.4, (value.5, (value.6, (value.7, (value.8, (value.9, (value.10, (value.11, (value.12, (value.13, (value.14, (value.15, ())))))))))))))))))
    }

    open spec fn terms_fault(trail: Seq<(usize, Tree)>, ts: Seq<Tree>) -> Option<CodecFault> {
        <(A, (B, (C, (D, (E, (F, (G, (H, (I, (J, (K, (L, (M, (N, (O, (P, ()))))))))))))))))>::chain_fault(trail, ts, 16, ts.len())
    }

    fn len() -> (r: usize) {
        16
    }

    fn from_terms<Ctx: FliContext>(ctx: &Ctx, fli: &mut Fli, terms: &TermList<'_>) -> (r: Result<
        Self,
        TermCodecError,
    >) {
        match read_block::<Ctx, (A, (B, (C, (D, (E, (F, (G, (H, (I, (J, (K, (L, (M, (N, (O, (P, ()))))))))))))))))>(ctx, fli, terms, 16) {
            Ok((v0, (v1, (v2, (v3, (v4, (v5, (v6, (v7, (v8, (v9, (v10, (v11, (v12, (v13, (v14, (v15, ()))))))))))))))))) => Ok((v0, v1, v2, v3, v4, v5, v6, v7, v8, v9, v10, v11, v12, v13, v14, v15)),
            Err(error) => Err(error),
        }
    }
}

} // verus!
