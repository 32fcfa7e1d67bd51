//! Prepared predicate arguments.

use std::marker::PhantomData;

use vstd::prelude::*;

use crate::call::ScopedCallError;
use crate::codec::{fills_block, overwrites, CodecFault, TermCodecError};
use crate::data::Tree;
use crate::exception::Verdict;
use crate::fli::{binding_none, resolve, Fli, State};
use crate::handles::HandleError;
use crate::query::{end_result, QueryError};
use crate::term::{grows, FliContext, Term, TermError, TermList};

verus! {

/// An error from preparing or reading a predicate argument.
#[derive(Debug, Clone, PartialEq, Eq)]
pub enum ArgumentError {
    /// A term allocation or copy failed.
    Term(TermError),
    /// Converting between a value and a Prolog term failed.
    Codec(TermCodecError),
}

/// What an [`ArgumentError`] denotes.
#[verifier::ext_equal]
pub enum ArgumentFault {
    Term(TermError),
    Codec(CodecFault),
}

impl View for ArgumentError {
    type V = ArgumentFault;

    open spec fn view(&self) -> ArgumentFault {
        match self {
            ArgumentError::Term(e) => ArgumentFault::Term(*e),
            ArgumentError::Codec(e) => ArgumentFault::Codec(e@),
        }
    }
}

/// An error from preparing arguments or executing a prepared predicate call.
#[derive(Debug)]
pub enum CallError {
    /// Resolving a predicate or another global handle failed.
    Handle(HandleError),
    /// Allocating or populating the argument block failed.
    Arguments(ArgumentError),
    /// Opening, advancing, or ending the query failed.
    Query(QueryError),
    /// Reading the final argument bindings failed.
    ResultDecoding(ArgumentError),
    /// A prepared call made while a query solution was current failed, and
    /// ending the outer query then failed independently.
    CallAndCleanup { call: Box<CallError>, cleanup: QueryError },
}

/// The error of a call whose body failed once the query was closed.
pub open spec fn call_cleaned(call: CallError, verdict: Verdict) -> CallError {
    match end_result(verdict) {
        Ok(_) => call,
        Err(cleanup) => CallError::CallAndCleanup { call: Box::new(call), cleanup },
    }
}

/// What a scoped error is as the error of a call.
pub open spec fn scoped_call_error(error: ScopedCallError<QueryError, CallError>) -> CallError {
    match error {
        ScopedCallError::Operation(e) => CallError::Query(e),
        ScopedCallError::Body(e) => e,
        ScopedCallError::BodyAndCleanup { body, cleanup } => CallError::CallAndCleanup {
            call: Box::new(body),
            cleanup,
        },
    }
}

impl CallError {
    /// Turns a scoped error into the error of a call. No failure is lost.
    pub fn from_scoped(error: ScopedCallError<QueryError, CallError>) -> (r: CallError)
        ensures
            r == scoped_call_error(error),
    {
        match error {
            ScopedCallError::Operation(error) => CallError::Query(error),
            ScopedCallError::Body(error) => error,
            ScopedCallError::BodyAndCleanup { body, cleanup } => CallError::CallAndCleanup {
                call: Box::new(body),
                cleanup,
            },
        }
    }
}

/// A prepared, contiguous predicate argument block. The type parameter records
/// the argument specification, which determines the result of a call.
pub struct Args<'f, Spec> {
    terms: TermList<'f>,
    spec: PhantomData<Spec>,
}

impl<'f, Spec> Args<'f, Spec> {
    /// The argument block.
    pub closed spec fn block(&self) -> TermList<'f> {
        self.terms
    }

    /// The argument block.
    pub fn terms(&self) -> (r: TermList<'f>)
        ensures
            r == self.block(),
    {
        self.terms
    }
}

/// Whether a fault is the one of an argument while an exception is pending:
/// that exception, or a fault of its own that it has before it turns to the
/// engine.
pub open spec fn arg_stopped(before: State, fault: ArgumentFault, own: Option<ArgumentFault>) -> bool {
    let exception = TermError::Exception(before.verdict->Raise_0);
    ||| fault == ArgumentFault::Term(exception)
    ||| fault == ArgumentFault::Codec(CodecFault::Term(exception))
    ||| own == Some(fault)
}

/// One argument of a call.
pub trait Argument: Sized {
    /// What the argument is read as after the call.
    type Value;

    /// Whether the argument can be written; `limit` is where the argument
    /// block starts.
    spec fn ready(&self, s: State, limit: nat) -> bool;

    /// What the argument is before the call: a term, nothing yet, or why it
    /// has no term.
    spec fn seeded(&self, s: State) -> Result<Option<Tree>, ArgumentFault>;

    /// Whether the term stands for the value after the call.
    spec fn decodes(trail: Seq<(usize, Tree)>, t: Tree, value: Self::Value) -> bool;

    /// Why the term stands for no value after the call, if it does for none.
    spec fn decode_fault(trail: Seq<(usize, Tree)>, t: Tree) -> Option<ArgumentFault>;

    /// What an argument is does not depend on the argument block.
    proof fn seeded_outside(&self, a: State, b: State, limit: nat)
        requires
            self.ready(a, limit),
            a.gen == b.gen,
            a.refs.len() <= b.refs.len(),
            limit <= a.refs.len(),
            forall|i: int| 0 <= i < limit ==> a.refs[i] == b.refs[i],
        ensures
            self.ready(b, limit),
            self.seeded(a) == self.seeded(b),
    ;

    /// An argument that can be written into a block can be written into any
    /// later place.
    proof fn ready_further(&self, s: State, limit: nat, further: nat)
        requires
            self.ready(s, limit),
            limit <= further,
        ensures
            self.ready(s, further),
    ;

    /// Writes the argument into its place.
    fn seed<Ctx: FliContext>(self, ctx: &Ctx, fli: &mut Fli, term: Term<'_>) -> (r: Result<
        (),
        ArgumentError,
    >)
        requires
            old(fli)@.at(ctx.place()),
            term.live(old(fli)@),
            self.ready(old(fli)@, term.raw() as nat),
            !(old(fli)@.verdict is Refuse),
        ensures
            overwrites(old(fli)@, final(fli)@, term.raw()),
            !(final(fli)@.verdict is Refuse),
            old(fli)@.verdict is Raise ==> match r {
                Ok(_) => final(fli)@.verdict == old(fli)@.verdict && self.seeded(old(fli)@) is Ok,
                Err(e) => arg_stopped(
                    old(fli)@,
                    e@,
                    match self.seeded(old(fli)@) {
                        Ok(_) => None,
                        Err(fault) => Some(fault),
                    },
                ),
            },
            old(fli)@.verdict is Grant ==> final(fli)@.verdict is Grant && match self.seeded(
                old(fli)@,
            ) {
                Ok(Some(t)) => r is Ok && final(fli)@.refs[term.raw() as int] == t,
                Ok(None) => r is Ok && final(fli)@.refs[term.raw() as int] == old(fli)@.refs[term.raw() as int],
                Err(fault) => r matches Err(e) && e@ == fault,
            },
    ;

    /// Reads the argument after the call.
    fn decode<Ctx: FliContext>(ctx: &Ctx, fli: &mut Fli, term: Term<'_>) -> (r: Result<
        Self::Value,
        ArgumentError,
    >)
        requires
            old(fli)@.at(ctx.place()),
            term.live(old(fli)@),
            !(old(fli)@.verdict is Refuse),
        ensures
            grows(old(fli)@, final(fli)@),
            !(final(fli)@.verdict is Refuse),
            old(fli)@.verdict is Raise ==> match r {
                Ok(v) => final(fli)@.verdict == old(fli)@.verdict && Self::decodes(
                    old(fli)@.trail,
                    old(fli)@.refs[term.raw() as int],
                    v,
                ) && Self::decode_fault(old(fli)@.trail, old(fli)@.refs[term.raw() as int]) is None,
                Err(e) => arg_stopped(
                    old(fli)@,
                    e@,
                    Self::decode_fault(old(fli)@.trail, old(fli)@.refs[term.raw() as int]),
                ),
            },
            old(fli)@.verdict is Grant ==> final(fli)@.verdict is Grant && match Self::decode_fault(
                old(fli)@.trail,
                old(fli)@.refs[term.raw() as int],
            ) {
                None => r matches Ok(v) && Self::decodes(
                    old(fli)@.trail,
                    old(fli)@.refs[term.raw() as int],
                    v,
                ),
                Some(fault) => r matches Err(e) && e@ == fault,
            },
    ;
}

impl<'t> Argument for Term<'t> {
    type Value = ();

    open spec fn ready(&self, s: State, limit: nat) -> bool {
        self.live(s) && self.raw() < limit
    }

    open spec fn seeded(&self, s: State) -> Result<Option<Tree>, ArgumentFault> {
        Ok(Some(s.refs[self.raw() as int]))
    }

    open spec fn decodes(trail: Seq<(usize, Tree)>, t: Tree, value: ()) -> bool {
        true
    }

    open spec fn decode_fault(trail: Seq<(usize, Tree)>, t: Tree) -> Option<ArgumentFault> {
        None
    }

    proof fn seeded_outside(&self, a: State, b: State, limit: nat) {
    }

    proof fn ready_further(&self, s: State, limit: nat, further: nat) {
    }

    fn seed<Ctx: FliContext>(self, ctx: &Ctx, fli: &mut Fli, term: Term<'_>) -> (r: Result<
        (),
        ArgumentError,
    >) {
        match term.put_term(fli, self) {
            Ok(()) => Ok(()),
            Err(error) => Err(ArgumentError::Term(error)),
        }
    }

    fn decode<Ctx: FliContext>(ctx: &Ctx, fli: &mut Fli, term: Term<'_>) -> (r: Result<
        (),
        ArgumentError,
    >) {
        Ok(())
    }
}

/// The part of argument tuples that callers cannot add to.
pub trait Tuple {

}

/// Arguments one after another.
pub trait ArgChain: Sized {
    /// What the arguments are read as after the call.
    type Values;

    spec fn width() -> nat;

    spec fn all_ready(&self, s: State, limit: nat) -> bool;

    spec fn all_seeded(&self, s: State) -> Result<Seq<Option<Tree>>, ArgumentFault>;

    spec fn all_decode(trail: Seq<(usize, Tree)>, ts: Seq<Tree>, values: Self::Values) -> bool;

    spec fn all_fault(trail: Seq<(usize, Tree)>, ts: Seq<Tree>) -> Option<ArgumentFault>;

    proof fn all_seeded_outside(&self, a: State, b: State, limit: nat)
        requires
            self.all_ready(a, limit),
            a.gen == b.gen,
            a.refs.len() <= b.refs.len(),
            limit <= a.refs.len(),
            forall|i: int| 0 <= i < limit ==> a.refs[i] == b.refs[i],
        ensures
            self.all_ready(b, limit),
            self.all_seeded(a) == self.all_seeded(b),
            self.all_seeded(a) matches Ok(ts) ==> ts.len() == Self::width(),
    ;

    fn seed_chain<Ctx: FliContext>(
        self,
        ctx: &Ctx,
        fli: &mut Fli,
        terms: &TermList<'_>,
        at: usize,
    ) -> (r: Result<(), ArgumentError>)
        requires
            old(fli)@.at(ctx.place()),
            terms.live(old(fli)@),
            at + Self::width() == terms.count(),
            self.all_ready(old(fli)@, terms.first()),
            !(old(fli)@.verdict is Refuse),
        ensures
            fills_block(old(fli)@, final(fli)@, *terms),
            terms.held(final(fli)@).take(at as int) == terms.held(old(fli)@).take(at as int),
            !(final(fli)@.verdict is Refuse),
            old(fli)@.verdict is Raise ==> match r {
                Ok(_) => final(fli)@.verdict == old(fli)@.verdict && self.all_seeded(old(fli)@) is Ok,
                Err(e) => arg_stopped(
                    old(fli)@,
                    e@,
                    match self.all_seeded(old(fli)@) {
                        Ok(_) => None,
                        Err(fault) => Some(fault),
                    },
                ),
            },
            old(fli)@.verdict is Grant ==> final(fli)@.verdict is Grant && match self.all_seeded(
                old(fli)@,
            ) {
                Ok(ts) => r is Ok && terms.held(final(fli)@).skip(at as int) == filled(
                    terms.held(old(fli)@).skip(at as int),
                    ts,
                ),
                Err(fault) => r matches Err(e) && e@ == fault,
            },
    ;

    fn decode_chain<Ctx: FliContext>(
        ctx: &Ctx,
        fli: &mut Fli,
        terms: &TermList<'_>,
        at: usize,
    ) -> (r: Result<Self::Values, ArgumentError>)
        requires
            old(fli)@.at(ctx.place()),
            terms.live(old(fli)@),
            at + Self::width() == terms.count(),
            !(old(fli)@.verdict is Refuse),
        ensures
            grows(old(fli)@, final(fli)@),
            !(final(fli)@.verdict is Refuse),
            old(fli)@.verdict is Raise ==> match r {
                Ok(v) => final(fli)@.verdict == old(fli)@.verdict && Self::all_decode(
                    old(fli)@.trail,
                    terms.held(old(fli)@).skip(at as int),
                    v,
                ) && Self::all_fault(old(fli)@.trail, terms.held(old(fli)@).skip(at as int)) is None,
                Err(e) => arg_stopped(
                    old(fli)@,
                    e@,
                    Self::all_fault(old(fli)@.trail, terms.held(old(fli)@).skip(at as int)),
                ),
            },
            old(fli)@.verdict is Grant ==> final(fli)@.verdict is Grant && match Self::all_fault(
                old(fli)@.trail,
                terms.held(old(fli)@).skip(at as int),
            ) {
                None => r matches Ok(v) && Self::all_decode(
                    old(fli)@.trail,
                    terms.held(old(fli)@).skip(at as int),
                    v,
                ),
                Some(fault) => r matches Err(e) && e@ == fault,
            },
    ;
}

/// What a block holds once what is seeded was written.
pub open spec fn filled(before: Seq<Tree>, seeds: Seq<Option<Tree>>) -> Seq<Tree> {
    Seq::new(
        seeds.len(),
        |i: int|
            match seeds[i] {
                Some(t) => t,
                None => before[i],
            },
    )
}

impl ArgChain for () {
    type Values = ();

    open spec fn width() -> nat {
        0
    }

    open spec fn all_ready(&self, s: State, limit: nat) -> bool {
        true
    }

    open spec fn all_seeded(&self, s: State) -> Result<Seq<Option<Tree>>, ArgumentFault> {
        Ok(Seq::empty())
    }

    open spec fn all_decode(trail: Seq<(usize, Tree)>, ts: Seq<Tree>, values: ()) -> bool {
        true
    }

    open spec fn all_fault(trail: Seq<(usize, Tree)>, ts: Seq<Tree>) -> Option<ArgumentFault> {
        None
    }

    proof fn all_seeded_outside(&self, a: State, b: State, limit: nat) {
    }

    fn seed_chain<Ctx: FliContext>(
        self,
        ctx: &Ctx,
        fli: &mut Fli,
        terms: &TermList<'_>,
        at: usize,
    ) -> (r: Result<(), ArgumentError>)
        ensures
            r is Ok,
            final(fli)@ == old(fli)@,
    {
        proof {
            assert(terms.held(fli@).skip(at as int) =~= filled(
                terms.held(fli@).skip(at as int),
                Seq::empty(),
            ));
        }
        Ok(())
    }

    fn decode_chain<Ctx: FliContext>(
        ctx: &Ctx,
        fli: &mut Fli,
        terms: &TermList<'_>,
        at: usize,
    ) -> (r: Result<(), ArgumentError>)
        ensures
            r is Ok,
            final(fli)@ == old(fli)@,
    {
        Ok(())
    }
}

impl<H: Argument, R: ArgChain> ArgChain for (H, R) {
    type Values = (H::Value, R::Values);

    open spec fn width() -> nat {
        R::width() + 1
    }

    open spec fn all_ready(&self, s: State, limit: nat) -> bool {
        self.0.ready(s, limit) && self.1.all_ready(s, limit)
    }

    open spec fn all_seeded(&self, s: State) -> Result<Seq<Option<Tree>>, ArgumentFault> {
        match self.0.seeded(s) {
            Err(fault) => Err(fault),
            Ok(t) => match self.1.all_seeded(s) {
                Err(fault) => Err(fault),
                Ok(ts) => Ok(seq![t] + ts),
            },
        }
    }

    open spec fn all_decode(
        trail: Seq<(usize, Tree)>,
        ts: Seq<Tree>,
        values: (H::Value, R::Values),
    ) -> bool {
        &&& H::decodes(trail, ts[0], values.0)
        &&& R::all_decode(trail, ts.drop_first(), values.1)
    }

    open spec fn all_fault(trail: Seq<(usize, Tree)>, ts: Seq<Tree>) -> Option<ArgumentFault> {
        match H::decode_fault(trail, ts[0]) {
            Some(fault) => Some(fault),
            None => R::all_fault(trail, ts.drop_first()),
        }
    }

    proof fn all_seeded_outside(&self, a: State, b: State, limit: nat) {
        self.0.seeded_outside(a, b, limit);
        self.1.all_seeded_outside(a, b, limit);
    }

    fn seed_chain<Ctx: FliContext>(
        self,
        ctx: &Ctx,
        fli: &mut Fli,
        terms: &TermList<'_>,
        at: usize,
    ) -> (r: Result<(), ArgumentError>) {
        let _count: usize = terms.len();
        let (head, rest) = self;
        let slot: Term<'_> = match terms.get(at) {
            Some(slot) => slot,
            None => {
                return Ok(());
            },
        };
        proof {
            head.ready_further(fli@, terms.first(), slot.raw() as nat);
        }
        match head.seed(ctx, fli, slot) {
            Ok(()) => {},
            Err(error) => {
                assert(terms.held(fli@).take(at as int) =~= terms.held(old(fli)@).take(at as int));
                return Err(error);
            },
        }
        let ghost middle = fli@;
        proof {
            assert(terms.held(middle).take(at as int) =~= terms.held(old(fli)@).take(at as int));
            rest.all_seeded_outside(old(fli)@, middle, terms.first());
        }
        let r: Result<(), ArgumentError> = rest.seed_chain(ctx, fli, terms, at + 1);
        proof {
            let now = terms.held(fli@);
            let then = terms.held(middle);
            let first = terms.held(old(fli)@);
            assert(now.take(at as int) =~= now.take(at + 1).take(at as int));
            assert(then.take(at as int) =~= then.take(at + 1).take(at as int));
            assert(now[at as int] == now.take(at + 1)[at as int]);
            assert(then[at as int] == then.take(at + 1)[at as int]);
            if old(fli)@.verdict is Grant && self.all_seeded(old(fli)@) is Ok {
                let ts = rest.all_seeded(old(fli)@)->Ok_0;
                let all = seq![head.seeded(old(fli)@)->Ok_0] + ts;
                assert(then.skip(at + 1) =~= first.skip(at + 1));
                assert(now.skip(at as int) =~= filled(first.skip(at as int), all)) by {
                    assert forall|i: int| 0 <= i < now.skip(at as int).len() implies now.skip(
                        at as int,
                    )[i] == filled(first.skip(at as int), all)[i] by {
                        if i > 0 {
                            assert(now.skip(at as int)[i] == now.skip(at + 1)[i - 1]);
                            assert(first.skip(at as int)[i] == first.skip(at + 1)[i - 1]);
                            assert(all[i] == ts[i - 1]);
                        }
                    }
                }
            }
        }
        r
    }

    fn decode_chain<Ctx: FliContext>(
        ctx: &Ctx,
        fli: &mut Fli,
        terms: &TermList<'_>,
        at: usize,
    ) -> (r: Result<(H::Value, R::Values), ArgumentError>) {
        let _count: usize = terms.len();
        let ghost ts = terms.held(fli@).skip(at as int);
        let slot: Term<'_> = match terms.get(at) {
            Some(slot) => slot,
            None => {
                return Err(
                    ArgumentError::Codec(
                        TermCodecError::ArityMismatch { expected: at, actual: terms.len() },
                    ),
                );
            },
        };
        assert(ts[0] == fli@.refs[slot.raw() as int]);
        let first: H::Value = match H::decode(ctx, fli, slot) {
            Ok(value) => value,
            Err(error) => {
                return Err(error);
            },
        };
        proof {
            assert(terms.held(fli@) =~= terms.held(old(fli)@));
            assert(terms.held(fli@).skip(at + 1) =~= ts.drop_first());
        }
        match R::decode_chain(ctx, fli, terms, at + 1) {
            Ok(rest) => Ok((first, rest)),
            Err(error) => Err(error),
        }
    }
}

/// A tuple of predicate arguments.
pub trait ArgsSpec: Tuple + Sized {
    /// What the arguments are read as after the call.
    type Values;

    /// How many arguments there are.
    spec fn count() -> nat;

    /// Whether the arguments can be written; `limit` is where the argument
    /// block starts.
    spec fn ready(&self, s: State, limit: nat) -> bool;

    /// What each argument is before the call, or why the first one that has no
    /// term has none.
    spec fn seeded(&self, s: State) -> Result<Seq<Option<Tree>>, ArgumentFault>;

    /// Whether the terms stand for the values after the call.
    spec fn decodes(trail: Seq<(usize, Tree)>, ts: Seq<Tree>, values: Self::Values) -> bool;

    /// Why the terms stand for no values after the call, if they do for none.
    spec fn decode_fault(trail: Seq<(usize, Tree)>, ts: Seq<Tree>) -> Option<ArgumentFault>;

    /// What arguments are does not depend on the argument block.
    proof fn seeded_outside(&self, a: State, b: State, limit: nat)
        requires
            self.ready(a, limit),
            a.gen == b.gen,
            a.refs.len() <= b.refs.len(),
            limit <= a.refs.len(),
            forall|i: int| 0 <= i < limit ==> a.refs[i] == b.refs[i],
        ensures
            self.ready(b, limit),
            self.seeded(a) == self.seeded(b),
    ;

    /// How many arguments there are.
    fn len() -> (r: usize)
        ensures
            r == Self::count(),
    ;

    /// Writes the arguments into a block.
    fn seed<Ctx: FliContext>(self, ctx: &Ctx, fli: &mut Fli, terms: &TermList<'_>) -> (r: Result<
        (),
        ArgumentError,
    >)
        requires
            old(fli)@.at(ctx.place()),
            terms.live(old(fli)@),
            terms.count() == Self::count(),
            self.ready(old(fli)@, terms.first()),
            !(old(fli)@.verdict is Refuse),
        ensures
            fills_block(old(fli)@, final(fli)@, *terms),
            !(final(fli)@.verdict is Refuse),
            old(fli)@.verdict is Raise ==> match r {
                Ok(_) => final(fli)@.verdict == old(fli)@.verdict && self.seeded(old(fli)@) is Ok,
                Err(e) => arg_stopped(
                    old(fli)@,
                    e@,
                    match self.seeded(old(fli)@) {
                        Ok(_) => None,
                        Err(fault) => Some(fault),
                    },
                ),
            },
            old(fli)@.verdict is Grant ==> final(fli)@.verdict is Grant && match self.seeded(
                old(fli)@,
            ) {
                Ok(ts) => r is Ok && terms.held(final(fli)@) == filled(
                    terms.held(old(fli)@),
                    ts,
                ),
                Err(fault) => r matches Err(e) && e@ == fault,
            },
    ;

    /// Reads the arguments after the call.
    fn decode<Ctx: FliContext>(ctx: &Ctx, fli: &mut Fli, terms: &TermList<'_>) -> (r: Result<
        Self::Values,
        ArgumentError,
    >)
        requires
            old(fli)@.at(ctx.place()),
            terms.live(old(fli)@),
            terms.count() == Self::count(),
            !(old(fli)@.verdict is Refuse),
        ensures
            grows(old(fli)@, final(fli)@),
            !(final(fli)@.verdict is Refuse),
            old(fli)@.verdict is Raise ==> match r {
                Ok(v) => final(fli)@.verdict == old(fli)@.verdict && Self::decodes(
                    old(fli)@.trail,
                    terms.held(old(fli)@),
                    v,
                ) && Self::decode_fault(old(fli)@.trail, terms.held(old(fli)@)) is None,
                Err(e) => arg_stopped(
                    old(fli)@,
                    e@,
                    Self::decode_fault(old(fli)@.trail, terms.held(old(fli)@)),
                ),
            },
            old(fli)@.verdict is Grant ==> final(fli)@.verdict is Grant && match Self::decode_fault(
                old(fli)@.trail,
                terms.held(old(fli)@),
            ) {
                None => r matches Ok(v) && Self::decodes(
                    old(fli)@.trail,
                    terms.held(old(fli)@),
                    v,
                ),
                Some(fault) => r matches Err(e) && e@ == fault,
            },
    ;
}

/// Prepares the arguments of a call: a fresh block with each argument written
/// into its place.
pub fn prepare_args<'a, Ctx: FliContext, S: ArgsSpec>(ctx: &'a Ctx, fli: &mut Fli, spec: S) -> (r:
    Result<Args<'a, S>, CallError>)
    requires
        old(fli)@.at(ctx.place()),
        spec.ready(old(fli)@, old(fli)@.refs.len()),
        !(old(fli)@.verdict is Refuse),
    ensures
        grows(old(fli)@, final(fli)@),
        !(final(fli)@.verdict is Refuse),
        old(fli)@.verdict is Raise ==> (r matches Err(CallError::Arguments(e)) && arg_stopped(
            old(fli)@,
            e@,
            match spec.seeded(old(fli)@) {
                Ok(_) => None,
                Err(fault) => Some(fault),
            },
        )),
        old(fli)@.verdict is Grant ==> final(fli)@.verdict is Grant && match spec.seeded(
            old(fli)@,
        ) {
            Ok(ts) => {
                &&& r matches Ok(args) && args.block().live(final(fli)@) && args.block().first()
                    == old(fli)@.refs.len() && args.block().count() == S::count() && args.block().held(final(fli)@) == filled(
                    args.block().held(old(fli)@.with_new_vars(S::count())),
                    ts,
                )
            },
            Err(fault) => r matches Err(CallError::Arguments(e)) && e@ == fault,
        },
{
    let terms: TermList<'a> = match ctx.terms(fli, S::len()) {
        Ok(terms) => terms,
        Err(error) => {
            return Err(CallError::Arguments(ArgumentError::Term(error)));
        },
    };
    proof {
        spec.seeded_outside(old(fli)@, fli@, old(fli)@.refs.len());
    }
    match spec.seed(ctx, fli, &terms) {
        Ok(()) => Ok(Args { terms, spec: PhantomData }),
        Err(error) => Err(CallError::Arguments(error)),
    }
}

/// A place that nothing was written into is unbound before the call: it holds
/// a new variable, which stands for itself.
pub proof fn empty_places_are_unbound(
    s: State,
    count: nat,
    seeds: Seq<Option<Tree>>,
    held: Seq<Tree>,
    i: int,
)
    requires
        s.valid(),
        s.fresh + count <= usize::MAX,
        seeds.len() == count,
        held == filled(s.with_new_vars(count).refs.skip(s.refs.len() as int), seeds),
        0 <= i < count,
        seeds[i] is None,
    ensures
        held[i] == Tree::Var((s.fresh + i) as usize),
        resolve(s.trail, held[i]) == held[i],
{
    binding_none(s.trail, 0, (s.fresh + i) as usize);
}

/// The contexts in which argument blocks are prepared: all of them.
pub trait ContextArgs: FliContext + Sized {
    /// Allocates an argument block and writes the arguments into it, as
    /// [`prepare_args`] does.
    fn args<'a, S: ArgsSpec>(&'a self, fli: &mut Fli, spec: S) -> (r: Result<
        Args<'a, S>,
        CallError,
    >)
        requires
            old(fli)@.at(self.place()),
            spec.ready(old(fli)@, old(fli)@.refs.len()),
            !(old(fli)@.verdict is Refuse),
        ensures
            grows(old(fli)@, final(fli)@),
            !(final(fli)@.verdict is Refuse),
            old(fli)@.verdict is Raise ==> (r matches Err(CallError::Arguments(e)) && arg_stopped(
                old(fli)@,
                e@,
                match spec.seeded(old(fli)@) {
                    Ok(_) => None,
                    Err(fault) => Some(fault),
                },
            )),
            old(fli)@.verdict is Grant ==> final(fli)@.verdict is Grant && match spec.seeded(
                old(fli)@,
            ) {
                Ok(ts) => {
                    &&& r matches Ok(args) && args.block().live(final(fli)@)
                        && args.block().first() == old(fli)@.refs.len() && args.block().count() == S::count() && args.block().held(final(fli)@)
                        == filled(args.block().held(old(fli)@.with_new_vars(S::count())), ts)
                },
                Err(fault) => r matches Err(CallError::Arguments(e)) && e@ == fault,
            },
    ;
}

impl<C: FliContext> ContextArgs for C {
    fn args<'a, S: ArgsSpec>(&'a self, fli: &mut Fli, spec: S) -> (r: Result<
        Args<'a, S>,
        CallError,
    >) {
        prepare_args(self, fli, spec)
    }
}

/// Reads the arguments after a call.
pub fn decode_args<Ctx: FliContext, S: ArgsSpec>(ctx: &Ctx, fli: &mut Fli, terms: &TermList<'_>) -> (r:
    Result<S::Values, CallError>)
    requires
        old(fli)@.at(ctx.place()),
        terms.live(old(fli)@),
        terms.count() == S::count(),
        !(old(fli)@.verdict is Refuse),
    ensures
        grows(old(fli)@, final(fli)@),
        !(final(fli)@.verdict is Refuse),
        old(fli)@.verdict is Raise ==> match r {
            Ok(v) => final(fli)@.verdict == old(fli)@.verdict && S::decodes(
                old(fli)@.trail,
                terms.held(old(fli)@),
                v,
            ) && S::decode_fault(old(fli)@.trail, terms.held(old(fli)@)) is None,
            Err(error) => error matches CallError::ResultDecoding(e) && arg_stopped(
                old(fli)@,
                e@,
                S::decode_fault(old(fli)@.trail, terms.held(old(fli)@)),
            ),
        },
        old(fli)@.verdict is Grant ==> final(fli)@.verdict is Grant && match S::decode_fault(
            old(fli)@.trail,
            terms.held(old(fli)@),
        ) {
            None => r matches Ok(v) && S::decodes(old(fli)@.trail, terms.held(old(fli)@), v),
            Some(fault) => r matches Err(CallError::ResultDecoding(e)) && e@ == fault,
        },
{
    match S::decode(ctx, fli, terms) {
        Ok(values) => Ok(values),
        Err(error) => Err(CallError::ResultDecoding(error)),
    }
}

impl Tuple for () {

}

impl ArgsSpec for () {
    type Values = ();

    open spec fn count() -> nat {
        0
    }

    open spec fn ready(&self, s: State, limit: nat) -> bool {
        ().all_ready(s, limit)
    }

    open spec fn seeded(&self, s: State) -> Result<Seq<Option<Tree>>, ArgumentFault> {
        ().all_seeded(s)
    }

    open spec fn decodes(trail: Seq<(usize, Tree)>, ts: Seq<Tree>, values: ()) -> bool {
        <()>::all_decode(trail, ts, ())
    }

    open spec fn decode_fault(trail: Seq<(usize, Tree)>, ts: Seq<Tree>) -> Option<ArgumentFault> {
        <()>::all_fault(trail, ts)
    }

    proof fn seeded_outside(&self, a: State, b: State, limit: nat) {
        ().all_seeded_outside(a, b, limit);
    }

    fn len() -> (r: usize) {
        0
    }

    fn seed<Ctx: FliContext>(self, ctx: &Ctx, fli: &mut Fli, terms: &TermList<'_>) -> (r: Result<
        (),
        ArgumentError,
    >)
        ensures
            r is Ok,
            final(fli)@ == old(fli)@,
    {
        let r: Result<(), ArgumentError> = ().seed_chain(ctx, fli, terms, 0);
        proof {
            assert(terms.held(fli@).skip(0) =~= terms.held(fli@));
            assert(terms.held(old(fli)@).skip(0) =~= terms.held(old(fli)@));
        }
        r
    }

    fn decode<Ctx: FliContext>(ctx: &Ctx, fli: &mut Fli, terms: &TermList<'_>) -> (r: Result<
        (),
        ArgumentError,
    >)
        ensures
            r is Ok,
            final(fli)@ == old(fli)@,
    {
        proof {
            assert(terms.held(fli@).skip(0) =~= terms.held(fli@));
        }
        match <()>::decode_chain(ctx, fli, terms, 0) {
            Ok(()) => Ok(()),
            Err(error) => Err(error),
        }
    }
}

impl<A: Argument> Tuple for (A,) {

}

impl<A: Argument> ArgsSpec for (A,) {
    type Values = (A::Value,);

    open spec fn count() -> nat {
        1
    }

    open spec fn ready(&self, s: State, limit: nat) -> bool {
        (self.0, ()).all_ready(s, limit)
    }

    open spec fn seeded(&self, s: State) -> Result<Seq<Option<Tree>>, ArgumentFault> {
        (self.0, ()).all_seeded(s)
    }

    open spec fn decodes(trail: Seq<(usize, Tree)>, ts: Seq<Tree>, values: (A::Value,)) -> bool {
        <(A, ())>::all_decode(trail, ts, (values.0, ()))
    }

    open spec fn decode_fault(trail: Seq<(usize, Tree)>, ts: Seq<Tree>) -> Option<ArgumentFault> {
        <(A, ())>::all_fault(trail, ts)
    }

    proof fn seeded_outside(&self, a: State, b: State, limit: nat) {
        (self.0, ()).all_seeded_outside(a, b, limit);
    }

    fn len() -> (r: usize) {
        1
    }

    fn seed<Ctx: FliContext>(self, ctx: &Ctx, fli: &mut Fli, terms: &TermList<'_>) -> (r: Result<
        (),
        ArgumentError,
    >) {
        let r: Result<(), ArgumentError> = (self.0, ()).seed_chain(ctx, fli, terms, 0);
        proof {
            assert(terms.held(fli@).skip(0) =~= terms.held(fli@));
            assert(terms.held(old(fli)@).skip(0) =~= terms.held(old(fli)@));
        }
        r
    }

    fn decode<Ctx: FliContext>(ctx: &Ctx, fli: &mut Fli, terms: &TermList<'_>) -> (r: Result<
        (A::Value,),
        ArgumentError,
    >) {
        proof {
            assert(terms.held(fli@).skip(0) =~= terms.held(fli@));
        }
        match <(A, ())>::decode_chain(ctx, fli, terms, 0) {
            Ok((v0, ())) => Ok((v0,)),
            Err(error) => Err(error),
        }
    }
}

impl<A: Argument, B: Argument> Tuple for (A, B) {

}

impl<A: Argument, B: Argument> ArgsSpec for (A, B) {
    type Values = (A::Value, B::Value);

    open spec fn count() -> nat {
        2
    }

    open spec fn ready(&self, s: State, limit: nat) -> bool {
        (self.0, (self.1, ())).all_ready(s, limit)
    }

    open spec fn seeded(&self, s: State) -> Result<Seq<Option<Tree>>, ArgumentFault> {
        (self.0, (self.1, ())).all_seeded(s)
    }

    open spec fn decodes(trail: Seq<(usize, Tree)>, ts: Seq<Tree>, values: (A::Value, B::Value)) -> bool {
        <(A, (B, ()))>::all_decode(trail, ts, (values.0, (values.1, ())))
    }

    open spec fn decode_fault(trail: Seq<(usize, Tree)>, ts: Seq<Tree>) -> Option<ArgumentFault> {
        <(A, (B, ()))>::all_fault(trail, ts)
    }

    proof fn seeded_outside(&self, a: State, b: State, limit: nat) {
        (self.0, (self.1, ())).all_seeded_outside(a, b, limit);
    }

    fn len() -> (r: usize) {
        2
    }

    fn seed<Ctx: FliContext>(self, ctx: &Ctx, fli: &mut Fli, terms: &TermList<'_>) -> (r: Result<
        (),
        ArgumentError,
    >) {
        let r: Result<(), ArgumentError> = (self.0, (self.1, ())).seed_chain(ctx, fli, terms, 0);
        proof {
            assert(terms.held(fli@).skip(0) =~= terms.held(fli@));
            assert(terms.held(old(fli)@).skip(0) =~= terms.held(old(fli)@));
        }
        r
    }

    fn decode<Ctx: FliContext>(ctx: &Ctx, fli: &mut Fli, terms: &TermList<'_>) -> (r: Result<
        (A::Value, B::Value),
        ArgumentError,
    >) {
        proof {
            assert(terms.held(fli@).skip(0) =~= terms.held(fli@));
        }
        match <(A, (B, ()))>::decode_chain(ctx, fli, terms, 0) {
            Ok((v0, (v1, ()))) => Ok((v0, v1)),
            Err(error) => Err(error),
        }
    }
}

impl<A: Argument, B: Argument, C: Argument> Tuple for (A, B, C) {

}

impl<A: Argument, B: Argument, C: Argument> ArgsSpec for (A, B, C) {
    type Values = (A::Value, B::Value, C::Value);

    open spec fn count() -> nat {
        3
    }

    open spec fn ready(&self, s: State, limit: nat) -> bool {
        (self.0, (self.1, (self.2, ()))).all_ready(s, limit)
    }

    open spec fn seeded(&self, s: State) -> Result<Seq<Option<Tree>>, ArgumentFault> {
        (self.0, (self.1, (self.2, ()))).all_seeded(s)
    }

    open spec fn decodes(trail: Seq<(usize, Tree)>, ts: Seq<Tree>, values: (A::Value, B::Value, C::Value)) -> bool {
        <(A, (B, (C, ())))>::all_decode(trail, ts, (values.0, (values.1, (values.2, ()))))
    }

    open spec fn decode_fault(trail: Seq<(usize, Tree)>, ts: Seq<Tree>) -> Option<ArgumentFault> {
        <(A, (B, (C, ())))>::all_fault(trail, ts)
    }

    proof fn seeded_outside(&self, a: State, b: State, limit: nat) {
        (self.0, (self.1, (self.2, ()))).all_seeded_outside(a, b, limit);
    }

    fn len() -> (r: usize) {
        3
    }

    fn seed<Ctx: FliContext>(self, ctx: &Ctx, fli: &mut Fli, terms: &TermList<'_>) -> (r: Result<
        (),
        ArgumentError,
    >) {
        let r: Result<(), ArgumentError> = (self.0, (self.1, (self.2, ()))).seed_chain(ctx, fli, terms, 0);
        proof {
            assert(terms.held(fli@).skip(0) =~= terms.held(fli@));
            assert(terms.held(old(fli)@).skip(0) =~= terms.held(old(fli)@));
        }
        r
    }

    fn decode<Ctx: FliContext>(ctx: &Ctx, fli: &mut Fli, terms: &TermList<'_>) -> (r: Result<
        (A::Value, B::Value, C::Value),
        ArgumentError,
    >) {
        proof {
            assert(terms.held(fli@).skip(0) =~= terms.held(fli@));
        }
        match <(A, (B, (C, ())))>::decode_chain(ctx, fli, terms, 0) {
            Ok((v0, (v1, (v2, ())))) => Ok((v0, v1, v2)),
            Err(error) => Err(error),
        }
    }
}

impl<A: Argument, B: Argument, C: Argument, D: Argument> Tuple for (A, B, C, D) {

}

impl<A: Argument, B: Argument, C: Argument, D: Argument> ArgsSpec for (A, B, C, D) {
    type Values = (A::Value, B::Value, C::Value, D::Value);

    open spec fn count() -> nat {
        4
    }

    open spec fn ready(&self, s: State, limit: nat) -> bool {
        (self.0, (self.1, (self.2, (self.3, ())))).all_ready(s, limit)
    }

    open spec fn seeded(&self, s: State) -> Result<Seq<Option<Tree>>, ArgumentFault> {
        (self.0, (self.1, (self.2, (self.3, ())))).all_seeded(s)
    }

    open spec fn decodes(trail: Seq<(usize, Tree)>, ts: Seq<Tree>, values: (A::Value, B::Value, C::Value, D::Value)) -> bool {
        <(A, (B, (C, (D, ()))))>::all_decode(trail, ts, (values.0, (values.1, (values.2, (values.3, ())))))
    }

    open spec fn decode_fault(trail: Seq<(usize, Tree)>, ts: Seq<Tree>) -> Option<ArgumentFault> {
        <(A, (B, (C, (D, ()))))>::all_fault(trail, ts)
    }

    proof fn seeded_outside(&self, a: State, b: State, limit: nat) {
        (self.0, (self.1, (self.2, (self.3, ())))).all_seeded_outside(a, b, limit);
    }

    fn len() -> (r: usize) {
        4
    }

    fn seed<Ctx: FliContext>(self, ctx: &Ctx, fli: &mut Fli, terms: &TermList<'_>) -> (r: Result<
        (),
        ArgumentError,
    >) {
        let r: Result<(), ArgumentError> = (self.0, (self.1, (self.2, (self.3, ())))).seed_chain(ctx, fli, terms, 0);
        proof {
            assert(terms.held(fli@).skip(0) =~= terms.held(fli@));
            assert(terms.held(old(fli)@).skip(0) =~= terms.held(old(fli)@));
        }
        r
    }

    fn decode<Ctx: FliContext>(ctx: &Ctx, fli: &mut Fli, terms: &TermList<'_>) -> (r: Result<
        (A::Value, B::Value, C::Value, D::Value),
        ArgumentError,
    >) {
        proof {
            assert(terms.held(fli@).skip(0) =~= terms.held(fli@));
        }
        match <(A, (B, (C, (D, ()))))>::decode_chain(ctx, fli, terms, 0) {
            Ok((v0, (v1, (v2, (v3, ()))))) => Ok((v0, v1, v2, v3)),
            Err(error) => Err(error),
        }
    }
}

impl<A: Argument, B: Argument, C: Argument, D: Argument, E: Argument> Tuple for (A, B, C, D, E) {

}

impl<A: Argument, B: Argument, C: Argument, D: Argument, E: Argument> ArgsSpec for (A, B, C, D, E) {
    type Values = (A::Value, B::Value, C::Value, D::Value, E::Value);

    open spec fn count() -> nat {
        5
    }

    open spec fn ready(&self, s: State, limit: nat) -> bool {
        (self.0, (self.1, (self.2, (self.3, (self.4, ()))))).all_ready(s, limit)
    }

    open spec fn seeded(&self, s: State) -> Result<Seq<Option<Tree>>, ArgumentFault> {
        (self.0, (self.1, (self.2, (self.3, (self.4, ()))))).all_seeded(s)
    }

    open spec fn decodes(trail: Seq<(usize, Tree)>, ts: Seq<Tree>, values: (A::Value, B::Value, C::Value, D::Value, E::Value)) -> bool {
        <(A, (B, (C, (D, (E, ())))))>::all_decode(trail, ts, (values.0, (values.1, (values.2, (values.3, (values.4, ()))))))
    }

    open spec fn decode_fault(trail: Seq<(usize, Tree)>, ts: Seq<Tree>) -> Option<ArgumentFault> {
        <(A, (B, (C, (D, (E, ())))))>::all_fault(trail, ts)
    }

    proof fn seeded_outside(&self, a: State, b: State, limit: nat) {
        (self.0, (self.1, (self.2, (self.3, (self.4, ()))))).all_seeded_outside(a, b, limit);
    }

    fn len() -> (r: usize) {
        5
    }

    fn seed<Ctx: FliContext>(self, ctx: &Ctx, fli: &mut Fli, terms: &TermList<'_>) -> (r: Result<
        (),
        ArgumentError,
    >) {
        let r: Result<(), ArgumentError> = (self.0, (self.1, (self.2, (self.3, (self.4, ()))))).seed_chain(ctx, fli, terms, 0);
        proof {
            assert(terms.held(fli@).skip(0) =~= terms.held(fli@));
            assert(terms.held(old(fli)@).skip(0) =~= terms.held(old(fli)@));
        }
        r
    }

    fn decode<Ctx: FliContext>(ctx: &Ctx, fli: &mut Fli, terms: &TermList<'_>) -> (r: Result<
        (A::Value, B::Value, C::Value, D::Value, E::Value),
        ArgumentError,
    >) {
        proof {
            assert(terms.held(fli@).skip(0) =~= terms.held(fli@));
        }
        match <(A, (B, (C, (D, (E, ())))))>::decode_chain(ctx, fli, terms, 0) {
            Ok((v0, (v1, (v2, (v3, (v4, ())))))) => Ok((v0, v1, v2, v3, v4)),
            Err(error) => Err(error),
        }
    }
}

impl<A: Argument, B: Argument, C: Argument, D: Argument, E: Argument, F: Argument> Tuple for (A, B, C, D, E, F) {

}

impl<A: Argument, B: Argument, C: Argument, D: Argument, E: Argument, F: Argument> ArgsSpec for (A, B, C, D, E, F) {
    type Values = (A::Value, B::Value, C::Value, D::Value, E::Value, F::Value);

    open spec fn count() -> nat {
        6
    }

    open spec fn ready(&self, s: State, limit: nat) -> bool {
        (self.0, (self.1, (self.2, (self.3, (self.4, (self.5, ())))))).all_ready(s, limit)
    }

    open spec fn seeded(&self, s: State) -> Result<Seq<Option<Tree>>, ArgumentFault> {
        (self.0, (self.1, (self.2, (self.3, (self.4, (self.5, ())))))).all_seeded(s)
    }

    open spec fn decodes(trail: Seq<(usize, Tree)>, ts: Seq<Tree>, values: (A::Value, B::Value, C::Value, D::Value, E::Value, F::Value)) -> bool {
        <(A, (B, (C, (D, (E, (F, ()))))))>::all_decode(trail, ts, (values.0, (values.1, (values.2, (values.3, (values.4, (values.5, ())))))))
    }

    open spec fn decode_fault(trail: Seq<(usize, Tree)>, ts: Seq<Tree>) -> Option<ArgumentFault> {
        <(A, (B, (C, (D, (E, (F, ()))))))>::all_fault(trail, ts)
    }

    proof fn seeded_outside(&self, a: State, b: State, limit: nat) {
        (self.0, (self.1, (self.2, (self.3, (self.4, (self.5, ())))))).all_seeded_outside(a, b, limit);
    }

    fn len() -> (r: usize) {
        6
    }

    fn seed<Ctx: FliContext>(self, ctx: &Ctx, fli: &mut Fli, terms: &TermList<'_>) -> (r: Result<
        (),
        ArgumentError,
    >) {
        let r: Result<(), ArgumentError> = (self.0, (self.1, (self.2, (self.3, (self.4, (self.5, ())))))).seed_chain(ctx, fli, terms, 0);
        proof {
            assert(terms.held(fli@).skip(0) =~= terms.held(fli@));
            assert(terms.held(old(fli)@).skip(0) =~= terms.held(old(fli)@));
        }
        r
    }

    fn decode<Ctx: FliContext>(ctx: &Ctx, fli: &mut Fli, terms: &TermList<'_>) -> (r: Result<
        (A::Value, B::Value, C::Value, D::Value, E::Value, F::Value),
        ArgumentError,
    >) {
        proof {
            assert(terms.held(fli@).skip(0) =~= terms.held(fli@));
        }
        match <(A, (B, (C, (D, (E, (F, ()))))))>::decode_chain(ctx, fli, terms, 0) {
            Ok((v0, (v1, (v2, (v3, (v4, (v5, ()))))))) => Ok((v0, v1, v2, v3, v4, v5)),
            Err(error) => Err(error),
        }
    }
}

impl<A: Argument, B: Argument, C: Argument, D: Argument, E: Argument, F: Argument, G: Argument> Tuple for (A, B, C, D, E, F, G) {

}

impl<A: Argument, B: Argument, C: Argument, D: Argument, E: Argument, F: Argument, G: Argument> ArgsSpec for (A, B, C, D, E, F, G) {
    type Values = (A::Value, B::Value, C::Value, D::Value, E::Value, F::Value, G::Value);

    open spec fn count() -> nat {
        7
    }

    open spec fn ready(&self, s: State, limit: nat) -> bool {
        (self.0, (self.1, (self.2, (self.3, (self.4, (self.5, (self.6, ()))))))).all_ready(s, limit)
    }

    open spec fn seeded(&self, s: State) -> Result<Seq<Option<Tree>>, ArgumentFault> {
        (self.0, (self.1, (self.2, (self.3, (self.4, (self.5, (self.6, ()))))))).all_seeded(s)
    }

    open spec fn decodes(trail: Seq<(usize, Tree)>, ts: Seq<Tree>, values: (A::Value, B::Value, C::Value, D::Value, E::Value, F::Value, G::Value)) -> bool {
        <(A, (B, (C, (D, (E, (F, (G, ())))))))>::all_decode(trail, ts, (values.0, (values.1, (values.2, (values.3, (values.4, (values.5, (values.6, ()))))))))
    }

    open spec fn decode_fault(trail: Seq<(usize, Tree)>, ts: Seq<Tree>) -> Option<ArgumentFault> {
        <(A, (B, (C, (D, (E, (F, (G, ())))))))>::all_fault(trail, ts)
    }

    proof fn seeded_outside(&self, a: State, b: State, limit: nat) {
        (self.0, (self.1, (self.2, (self.3, (self.4, (self.5, (self.6, ()))))))).all_seeded_outside(a, b, limit);
    }

    fn len() -> (r: usize) {
        7
    }

    fn seed<Ctx: FliContext>(self, ctx: &Ctx, fli: &mut Fli, terms: &TermList<'_>) -> (r: Result<
        (),
        ArgumentError,
    >) {
        let r: Result<(), ArgumentError> = (self.0, (self.1, (self.2, (self.3, (self.4, (self.5, (self.6, ()))))))).seed_chain(ctx, fli, terms, 0);
        proof {
            assert(terms.held(fli@).skip(0) =~= terms.held(fli@));
            assert(terms.held(old(fli)@).skip(0) =~= terms.held(old(fli)@));
        }
        r
    }

    fn decode<Ctx: FliContext>(ctx: &Ctx, fli: &mut Fli, terms: &TermList<'_>) -> (r: Result<
        (A::Value, B::Value, C::Value, D::Value, E::Value, F::Value, G::Value),
        ArgumentError,
    >) {
        proof {
            assert(terms.held(fli@).skip(0) =~= terms.held(fli@));
        }
        match <(A, (B, (C, (D, (E, (F, (G, ())))))))>::decode_chain(ctx, fli, terms, 0) {
            Ok((v0, (v1, (v2, (v3, (v4, (v5, (v6, ())))))))) => Ok((v0, v1, v2, v3, v4, v5, v6)),
            Err(error) => Err(error),
        }
    }
}

impl<A: Argument, B: Argument, C: Argument, D: Argument, E: Argument, F: Argument, G: Argument, H: Argument> Tuple for (A, B, C, D, E, F, G, H) {

}

impl<A: Argument, B: Argument, C: Argument, D: Argument, E: Argument, F: Argument, G: Argument, H: Argument> ArgsSpec for (A, B, C, D, E, F, G, H) {
    type Values = (A::Value, B::Value, C::Value, D::Value, E::Value, F::Value, G::Value, H::Value);

    open spec fn count() -> nat {
        8
    }

    open spec fn ready(&self, s: State, limit: nat) -> bool {
        (self.0, (self.1, (self.2, (self.3, (self.4, (self.5, (self.6, (self.7, ())))))))).all_ready(s, limit)
    }

    open spec fn seeded(&self, s: State) -> Result<Seq<Option<Tree>>, ArgumentFault> {
        (self.0, (self.1, (self.2, (self.3, (self.4, (self.5, (self.6, (self.7, ())))))))).all_seeded(s)
    }

    open spec fn decodes(trail: Seq<(usize, Tree)>, ts: Seq<Tree>, values: (A::Value, B::Value, C::Value, D::Value, E::Value, F::Value, G::Value, H::Value)) -> bool {
        <(A, (B, (C, (D, (E, (F, (G, (H, ()))))))))>::all_decode(trail, ts, (values.0, (values.1, (values.2, (values.3, (values.4, (values.5, (values.6, (values.7, ())))))))))
    }

    open spec fn decode_fault(trail: Seq<(usize, Tree)>, ts: Seq<Tree>) -> Option<ArgumentFault> {
        <(A, (B, (C, (D, (E, (F, (G, (H, ()))))))))>::all_fault(trail, ts)
    }

    proof fn seeded_outside(&self, a: State, b: State, limit: nat) {
        (self.0, (self.1, (self.2, (self.3, (self.4, (self.5, (self.6, (self.7, ())))))))).all_seeded_outside(a, b, limit);
    }

    fn len() -> (r: usize) {
        8
    }

    fn seed<Ctx: FliContext>(self, ctx: &Ctx, fli: &mut Fli, terms: &TermList<'_>) -> (r: Result<
        (),
        ArgumentError,
    >) {
        let r: Result<(), ArgumentError> = (self.0, (self.1, (self.2, (self.3, (self.4, (self.5, (self.6, (self.7, ())))))))).seed_chain(ctx, fli, terms, 0);
        proof {
            assert(terms.held(fli@).skip(0) =~= terms.held(fli@));
            assert(terms.held(old(fli)@).skip(0) =~= terms.held(old(fli)@));
        }
        r
    }

    fn decode<Ctx: FliContext>(ctx: &Ctx, fli: &mut Fli, terms: &TermList<'_>) -> (r: Result<
        (A::Value, B::Value, C::Value, D::Value, E::Value, F::Value, G::Value, H::Value),
        ArgumentError,
    >) {
        proof {
            assert(terms.held(fli@).skip(0) =~= terms.held(fli@));
        }
        match <(A, (B, (C, (D, (E, (F, (G, (H, ()))))))))>::decode_chain(ctx, fli, terms, 0) {
            Ok((v0, (v1, (v2, (v3, (v4, (v5, (v6, (v7, ()))))))))) => Ok((v0, v1, v2, v3, v4, v5, v6, v7)),
            Err(error) => Err(error),
        }
    }
}

impl<A: Argument, B: Argument, C: Argument, D: Argument, E: Argument, F: Argument, G: Argument, H: Argument, I: Argument> Tuple for (A, B, C, D, E, F, G, H, I) {

}

impl<A: Argument, B: Argument, C: Argument, D: Argument, E: Argument, F: Argument, G: Argument, H: Argument, I: Argument> ArgsSpec for (A, B, C, D, E, F, G, H, I) {
    type Values = (A::Value, B::Value, C::Value, D::Value, E::Value, F::Value, G::Value, H::Value, I::Value);

    open spec fn count() -> nat {
        9
    }

    open spec fn ready(&self, s: State, limit: nat) -> bool {
        (self.0, (self.1, (self.2, (self.3, (self.4, (self.5, (self.6, (self.7, (self.8, ()))))))))).all_ready(s, limit)
    }

    open spec fn seeded(&self, s: State) -> Result<Seq<Option<Tree>>, ArgumentFault> {
        (self.0, (self.1, (self.2, (self.3, (self.4, (self.5, (self.6, (self.7, (self.8, ()))))))))).all_seeded(s)
    }

    open spec fn decodes(trail: Seq<(usize, Tree)>, ts: Seq<Tree>, values: (A::Value, B::Value, C::Value, D::Value, E::Value, F::Value, G::Value, H::Value, I::Value)) -> bool {
        <(A, (B, (C, (D, (E, (F, (G, (H, (I, ())))))))))>::all_decode(trail, ts, (values.0, (values.1, (values.2, (values.3, (values.4, (values.5, (values.6, (values.7, (values.8, ()))))))))))
    }

    open spec fn decode_fault(trail: Seq<(usize, Tree)>, ts: Seq<Tree>) -> Option<ArgumentFault> {
        <(A, (B, (C, (D, (E, (F, (G, (H, (I, ())))))))))>::all_fault(trail, ts)
    }

    proof fn seeded_outside(&self, a: State, b: State, limit: nat) {
        (self.0, (self.1, (self.2, (self.3, (self.4, (self.5, (self.6, (self.7, (self.8, ()))))))))).all_seeded_outside(a, b, limit);
    }

    fn len() -> (r: usize) {
        9
    }

    fn seed<Ctx: FliContext>(self, ctx: &Ctx, fli: &mut Fli, terms: &TermList<'_>) -> (r: Result<
        (),
        ArgumentError,
    >) {
        let r: Result<(), ArgumentError> = (self.0, (self.1, (self.2, (self.3, (self.4, (self.5, (self.6, (self.7, (self.8, ()))))))))).seed_chain(ctx, fli, terms, 0);
        proof {
            assert(terms.held(fli@).skip(0) =~= terms.held(fli@));
            assert(terms.held(old(fli)@).skip(0) =~= terms.held(old(fli)@));
        }
        r
    }

    fn decode<Ctx: FliContext>(ctx: &Ctx, fli: &mut Fli, terms: &TermList<'_>) -> (r: Result<
        (A::Value, B::Value, C::Value, D::Value, E::Value, F::Value, G::Value, H::Value, I::Value),
        ArgumentError,
    >) {
        proof {
            assert(terms.held(fli@).skip(0) =~= terms.held(fli@));
        }
        match <(A, (B, (C, (D, (E, (F, (G, (H, (I, ())))))))))>::decode_chain(ctx, fli, terms, 0) {
            Ok((v0, (v1, (v2, (v3, (v4, (v5, (v6, (v7, (v8, ())))))))))) => Ok((v0, v1, v2, v3, v4, v5, v6, v7, v8)),
            Err(error) => Err(error),
        }
    }
}

impl<A: Argument, B: Argument, C: Argument, D: Argument, E: Argument, F: Argument, G: Argument, H: Argument, I: Argument, J: Argument> Tuple for (A, B, C, D, E, F, G, H, I, J) {

}

impl<A: Argument, B: Argument, C: Argument, D: Argument, E: Argument, F: Argument, G: Argument, H: Argument, I: Argument, J: Argument> ArgsSpec for (A, B, C, D, E, F, G, H, I, J) {
    type Values = (A::Value, B::Value, C::Value, D::Value, E::Value, F::Value, G::Value, H::Value, I::Value, J::Value);

    open spec fn count() -> nat {
        10
    }

    open spec fn ready(&self, s: State, limit: nat) -> bool {
        (self.0, (self.1, (self.2, (self.3, (self.4, (self.5, (self.6, (self.7, (self.8, (self.9, ())))))))))).all_ready(s, limit)
    }

    open spec fn seeded(&self, s: State) -> Result<Seq<Option<Tree>>, ArgumentFault> {
        (self.0, (self.1, (self.2, (self.3, (self.4, (self.5, (self.6, (self.7, (self.8, (self.9, ())))))))))).all_seeded(s)
    }

    open spec fn decodes(trail: Seq<(usize, Tree)>, ts: Seq<Tree>, values: (A::Value, B::Value, C::Value, D::Value, E::Value, F::Value, G::Value, H::Value, I::Value, J::Value)) -> bool {
        <(A, (B, (C, (D, (E, (F, (G, (H, (I, (J, ()))))))))))>::all_decode(trail, ts, (values.0, (values.1, (values.2, (values.3, (values.4, (values.5, (values.6, (values.7, (values.8, (values.9, ())))))))))))
    }

    open spec fn decode_fault(trail: Seq<(usize, Tree)>, ts: Seq<Tree>) -> Option<ArgumentFault> {
        <(A, (B, (C, (D, (E, (F, (G, (H, (I, (J, ()))))))))))>::all_fault(trail, ts)
    }

    proof fn seeded_outside(&self, a: State, b: State, limit: nat) {
        (self.0, (self.1, (self.2, (self.3, (self.4, (self.5, (self.6, (self.7, (self.8, (self.9, ())))))))))).all_seeded_outside(a, b, limit);
    }

    fn len() -> (r: usize) {
        10
    }

    fn seed<Ctx: FliContext>(self, ctx: &Ctx, fli: &mut Fli, terms: &TermList<'_>) -> (r: Result<
        (),
        ArgumentError,
    >) {
        let r: Result<(), ArgumentError> = (self.0, (self.1, (self.2, (self.3, (self.4, (self.5, (self.6, (self.7, (self.8, (self.9, ())))))))))).seed_chain(ctx, fli, terms, 0);
        proof {
            assert(terms.held(fli@).skip(0) =~= terms.held(fli@));
            assert(terms.held(old(fli)@).skip(0) =~= terms.held(old(fli)@));
        }
        r
    }

    fn decode<Ctx: FliContext>(ctx: &Ctx, fli: &mut Fli, terms: &TermList<'_>) -> (r: Result<
        (A::Value, B::Value, C::Value, D::Value, E::Value, F::Value, G::Value, H::Value, I::Value, J::Value),
        ArgumentError,
    >) {
        proof {
            assert(terms.held(fli@).skip(0) =~= terms.held(fli@));
        }
        match <(A, (B, (C, (D, (E, (F, (G, (H, (I, (J, ()))))))))))>::decode_chain(ctx, fli, terms, 0) {
            Ok((v0, (v1, (v2, (v3, (v4, (v5, (v6, (v7, (v8, (v9, ()))))))))))) => Ok((v0, v1, v2, v3, v4, v5, v6, v7, v8, v9)),
            Err(error) => Err(error),
        }
    }
}

impl<A: Argument, B: Argument, C: Argument, D: Argument, E: Argument, F: Argument, G: Argument, H: Argument, I: Argument, J: Argument, K: Argument> Tuple for (A, B, C, D, E, F, G, H, I, J, K) {

}

impl<A: Argument, B: Argument, C: Argument, D: Argument, E: Argument, F: Argument, G: Argument, H: Argument, I: Argument, J: Argument, K: Argument> ArgsSpec for (A, B, C, D, E, F, G, H, I, J, K) {
    type Values = (A::Value, B::Value, C::Value, D::Value, E::Value, F::Value, G::Value, H::Value, I::Value, J::Value, K::Value);

    open spec fn count() -> nat {
        11
    }

    open spec fn ready(&self, s: State, limit: nat) -> bool {
        (self.0, (self.1, (self.2, (self.3, (self.4, (self.5, (self.6, (self.7, (self.8, (self.9, (self.10, ()))))))))))).all_ready(s, limit)
    }

    open spec fn seeded(&self, s: State) -> Result<Seq<Option<Tree>>, ArgumentFault> {
        (self.0, (self.1, (self.2, (self.3, (self.4, (self.5, (self.6, (self.7, (self.8, (self.9, (self.10, ()))))))))))).all_seeded(s)
    }

    open spec fn decodes(trail: Seq<(usize, Tree)>, ts: Seq<Tree>, values: (A::Value, B::Value, C::Value, D::Value, E::Value, F::Value, G::Value, H::Value, I::Value, J::Value, K::Value)) -> bool {
        <(A, (B, (C, (D, (E, (F, (G, (H, (I, (J, (K, ())))))))))))>::all_decode(trail, ts, (values.0, (values.1, (values.2, (values.3, (values.4, (values.5, (values.6, (values.7, (values.8, (values.9, (values.10, ()))))))))))))
    }

    open spec fn decode_fault(trail: Seq<(usize, Tree)>, ts: Seq<Tree>) -> Option<ArgumentFault> {
        <(A, (B, (C, (D, (E, (F, (G, (H, (I, (J, (K, ())))))))))))>::all_fault(trail, ts)
    }

    proof fn seeded_outside(&self, a: State, b: State, limit: nat) {
        (self.0, (self.1, (self.2, (self.3, (self.4, (self.5, (self.6, (self.7, (self.8, (self.9, (self.10, ()))))))))))).all_seeded_outside(a, b, limit);
    }

    fn len() -> (r: usize) {
        11
    }

    fn seed<Ctx: FliContext>(self, ctx: &Ctx, fli: &mut Fli, terms: &TermList<'_>) -> (r: Result<
        (),
        ArgumentError,
    >) {
        let r: Result<(), ArgumentError> = (self.0, (self.1, (self.2, (self.3, (self.4, (self.5, (self.6, (self.7, (self.8, (self.9, (self.10, ()))))))))))).seed_chain(ctx, fli, terms, 0);
        proof {
            assert(terms.held(fli@).skip(0) =~= terms.held(fli@));
            assert(terms.held(old(fli)@).skip(0) =~= terms.held(old(fli)@));
        }
        r
    }

    fn decode<Ctx: FliContext>(ctx: &Ctx, fli: &mut Fli, terms: &TermList<'_>) -> (r: Result<
        (A::Value, B::Value, C::Value, D::Value, E::Value, F::Value, G::Value, H::Value, I::Value, J::Value, K::Value),
        ArgumentError,
    >) {
        proof {
            assert(terms.held(fli@).skip(0) =~= terms.held(fli@));
        }
        match <(A, (B, (C, (D, (E, (F, (G, (H, (I, (J, (K, ())))))))))))>::decode_chain(ctx, fli, terms, 0) {
            Ok((v0, (v1, (v2, (v3, (v4, (v5, (v6, (v7, (v8, (v9, (v10, ())))))))))))) => Ok((v0, v1, v2, v3, v4, v5, v6, v7, v8, v9, v10)),
            Err(error) => Err(error),
        }
    }
}

impl<A: Argument, B: Argument, C: Argument, D: Argument, E: Argument, F: Argument, G: Argument, H: Argument, I: Argument, J: Argument, K: Argument, L: Argument> Tuple for (A, B, C, D, E, F, G, H, I, J, K, L) {

}

impl<A: Argument, B: Argument, C: Argument, D: Argument, E: Argument, F: Argument, G: Argument, H: Argument, I: Argument, J: Argument, K: Argument, L: Argument> ArgsSpec for (A, B, C, D, E, F, G, H, I, J, K, L) {
    type Values = (A::Value, B::Value, C::Value, D::Value, E::Value, F::Value, G::Value, H::Value, I::Value, J::Value, K::Value, L::Value);

    open spec fn count() -> nat {
        12
    }

    open spec fn ready(&self, s: State, limit: nat) -> bool {
        (self.0, (self.1, (self.2, (self.3, (self.4, (self.5, (self.6, (self.7, (self.8, (self.9, (self.10, (self.11, ())))))))))))).all_ready(s, limit)
    }

    open spec fn seeded(&self, s: State) -> Result<Seq<Option<Tree>>, ArgumentFault> {
        (self.0, (self.1, (self.2, (self.3, (self.4, (self.5, (self.6, (self.7, (self.8, (self.9, (self.10, (self.11, ())))))))))))).all_seeded(s)
    }

    open spec fn decodes(trail: Seq<(usize, Tree)>, ts: Seq<Tree>, values: (A::Value, B::Value, C::Value, D::Value, E::Value, F::Value, G::Value, H::Value, I::Value, J::Value, K::Value, L::Value)) -> bool {
        <(A, (B, (C, (D, (E, (F, (G, (H, (I, (J, (K, (L, ()))))))))))))>::all_decode(trail, ts, (values.0, (values.1, (values.2, (values.3, (values.4, (values.5, (values.6, (values.7, (values.8, (values.9, (values.10, (values.11, ())))))))))))))
    }

    open spec fn decode_fault(trail: Seq<(usize, Tree)>, ts: Seq<Tree>) -> Option<ArgumentFault> {
        <(A, (B, (C, (D, (E, (F, (G, (H, (I, (J, (K, (L, ()))))))))))))>::all_fault(trail, ts)
    }

    proof fn seeded_outside(&self, a: State, b: State, limit: nat) {
        (self.0, (self.1, (self.2, (self.3, (self.4, (self.5, (self.6, (self.7, (self.8, (self.9, (self.10, (self.11, ())))))))))))).all_seeded_outside(a, b, limit);
    }

    fn len() -> (r: usize) {
        12
    }

    fn seed<Ctx: FliContext>(self, ctx: &Ctx, fli: &mut Fli, terms: &TermList<'_>) -> (r: Result<
        (),
        ArgumentError,
    >) {
        let r: Result<(), ArgumentError> = (self.0, (self.1, (self.2, (self.3, (self.4, (self.5, (self.6, (self.7, (self.8, (self.9, (self.10, (self.11, ())))))))))))).seed_chain(ctx, fli, terms, 0);
        proof {
            assert(terms.held(fli@).skip(0) =~= terms.held(fli@));
            assert(terms.held(old(fli)@).skip(0) =~= terms.held(old(fli)@));
        }
        r
    }

    fn decode<Ctx: FliContext>(ctx: &Ctx, fli: &mut Fli, terms: &TermList<'_>) -> (r: Result<
        (A::Value, B::Value, C::Value, D::Value, E::Value, F::Value, G::Value, H::Value, I::Value, J::Value, K::Value, L::Value),
        ArgumentError,
    >) {
        proof {
            assert(terms.held(fli@).skip(0) =~= terms.held(fli@));
        }
        match <(A, (B, (C, (D, (E, (F, (G, (H, (I, (J, (K, (L, ()))))))))))))>::decode_chain(ctx, fli, terms, 0) {
            Ok((v0, (v1, (v2, (v3, (v4, (v5, (v6, (v7, (v8, (v9, (v10, (v11, ()))))))))))))) => Ok((v0, v1, v2, v3, v4, v5, v6, v7, v8, v9, v10, v11)),
            Err(error) => Err(error),
        }
    }
}

impl<A: Argument, B: Argument, C: Argument, D: Argument, E: Argument, F: Argument, G: Argument, H: Argument, I: Argument, J: Argument, K: Argument, L: Argument, M: Argument> Tuple for (A, B, C, D, E, F, G, H, I, J, K, L, M) {

}

impl<A: Argument, B: Argument, C: Argument, D: Argument, E: Argument, F: Argument, G: Argument, H: Argument, I: Argument, J: Argument, K: Argument, L: Argument, M: Argument> ArgsSpec for (A, B, C, D, E, F, G, H, I, J, K, L, M) {
    type Values = (A::Value, B::Value, C::Value, D::Value, E::Value, F::Value, G::Value, H::Value, I::Value, J::Value, K::Value, L::Value, M::Value);

    open spec fn count() -> nat {
        13
    }

    open spec fn ready(&self, s: State, limit: nat) -> bool {
        (self.0, (self.1, (self.2, (self.3, (self.4, (self.5, (self.6, (self.7, (self.8, (self.9, (self.10, (self.11, (self.12, ()))))))))))))).all_ready(s, limit)
    }

    open spec fn seeded(&self, s: State) -> Result<Seq<Option<Tree>>, ArgumentFault> {
        (self.0, (self.1, (self.2, (self.3, (self.4, (self.5, (self.6, (self.7, (self.8, (self.9, (self.10, (self.11, (self.12, ()))))))))))))).all_seeded(s)
    }

    open spec fn decodes(trail: Seq<(usize, Tree)>, ts: Seq<Tree>, values: (A::Value, B::Value, C::Value, D::Value, E::Value, F::Value, G::Value, H::Value, I::Value, J::Value, K::Value, L::Value, M::Value)) -> bool {
        <(A, (B, (C, (D, (E, (F, (G, (H, (I, (J, (K, (L, (M, ())))))))))))))>::all_decode(trail, ts, (values.0, (values.1, (values.2, (values.3, (values.4, (values.5, (values.6, (values.7, (values.8, (values.9, (values.10, (values.11, (values.12, ()))))))))))))))
    }

    open spec fn decode_fault(trail: Seq<(usize, Tree)>, ts: Seq<Tree>) -> Option<ArgumentFault> {
        <(A, (B, (C, (D, (E, (F, (G, (H, (I, (J, (K, (L, (M, ())))))))))))))>::all_fault(trail, ts)
    }

    proof fn seeded_outside(&self, a: State, b: State, limit: nat) {
        (self.0, (self.1, (self.2, (self.3, (self.4, (self.5, (self.6, (self.7, (self.8, (self.9, (self.10, (self.11, (self.12, ()))))))))))))).all_seeded_outside(a, b, limit);
    }

    fn len() -> (r: usize) {
        13
    }

    fn seed<Ctx: FliContext>(self, ctx: &Ctx, fli: &mut Fli, terms: &TermList<'_>) -> (r: Result<
        (),
        ArgumentError,
    >) {
        let r: Result<(), ArgumentError> = (self.0, (self.1, (self.2, (self.3, (self.4, (self.5, (self.6, (self.7, (self.8, (self.9, (self.10, (self.11, (self.12, ()))))))))))))).seed_chain(ctx, fli, terms, 0);
        proof {
            assert(terms.held(fli@).skip(0) =~= terms.held(fli@));
            assert(terms.held(old(fli)@).skip(0) =~= terms.held(old(fli)@));
        }
        r
    }

    fn decode<Ctx: FliContext>(ctx: &Ctx, fli: &mut Fli, terms: &TermList<'_>) -> (r: Result<
        (A::Value, B::Value, C::Value, D::Value, E::Value, F::Value, G::Value, H::Value, I::Value, J::Value, K::Value, L::Value, M::Value),
        ArgumentError,
    >) {
        proof {
            assert(terms.held(fli@).skip(0) =~= terms.held(fli@));
        }
        match <(A, (B, (C, (D, (E, (F, (G, (H, (I, (J, (K, (L, (M, ())))))))))))))>::decode_chain(ctx, fli, terms, 0) {
            Ok((v0, (v1, (v2, (v3, (v4, (v5, (v6, (v7, (v8, (v9, (v10, (v11, (v12, ())))))))))))))) => Ok((v0, v1, v2, v3, v4, v5, v6, v7, v8, v9, v10, v11, v12)),
            Err(error) => Err(error),
        }
    }
}

impl<A: Argument, B: Argument, C: Argument, D: Argument, E: Argument, F: Argument, G: Argument, H: Argument, I: Argument, J: Argument, K: Argument, L: Argument, M: Argument, N: Argument> Tuple for (A, B, C, D, E, F, G, H, I, J, K, L, M, N) {

}

impl<A: Argument, B: Argument, C: Argument, D: Argument, E: Argument, F: Argument, G: Argument, H: Argument, I: Argument, J: Argument, K: Argument, L: Argument, M: Argument, N: Argument> ArgsSpec for (A, B, C, D, E, F, G, H, I, J, K, L, M, N) {
    type Values = (A::Value, B::Value, C::Value, D::Value, E::Value, F::Value, G::Value, H::Value, I::Value, J::Value, K::Value, L::Value, M::Value, N::Value);

    open spec fn count() -> nat {
        14
    }

    open spec fn ready(&self, s: State, limit: nat) -> bool {
        (self.0, (self.1, (self.2, (self.3, (self.4, (self.5, (self.6, (self.7, (self.8, (self.9, (self.10, (self.11, (self.12, (self.13, ())))))))))))))).all_ready(s, limit)
    }

    open spec fn seeded(&self, s: State) -> Result<Seq<Option<Tree>>, ArgumentFault> {
        (self.0, (self.1, (self.2, (self.3, (self.4, (self.5, (self.6, (self.7, (self.8, (self.9, (self.10, (self.11, (self.12, (self.13, ())))))))))))))).all_seeded(s)
    }

    open spec fn decodes(trail: Seq<(usize, Tree)>, ts: Seq<Tree>, values: (A::Value, B::Value, C::Value, D::Value, E::Value, F::Value, G::Value, H::Value, I::Value, J::Value, K::Value, L::Value, M::Value, N::Value)) -> bool {
        <(A, (B, (C, (D, (E, (F, (G, (H, (I, (J, (K, (L, (M, (N, ()))))))))))))))>::all_decode(trail, ts, (values.0, (values.1, (values.2, (values.3, (values.4, (values.5, (values.6, (values.7, (values.8, (values.9, (values.10, (values.11, (values.12, (values.13, ())))))))))))))))
    }

    open spec fn decode_fault(trail: Seq<(usize, Tree)>, ts: Seq<Tree>) -> Option<ArgumentFault> {
        <(A, (B, (C, (D, (E, (F, (G, (H, (I, (J, (K, (L, (M, (N, ()))))))))))))))>::all_fault(trail, ts)
    }

    proof fn seeded_outside(&self, a: State, b: State, limit: nat) {
        (self.0, (self.1, (self.2, (self.3, (self.4, (self.5, (self.6, (self.7, (self.8, (self.9, (self.10, (self.11, (self.12, (self.13, ())))))))))))))).all_seeded_outside(a, b, limit);
    }

    fn len() -> (r: usize) {
        14
    }

    fn seed<Ctx: FliContext>(self, ctx: &Ctx, fli: &mut Fli, terms: &TermList<'_>) -> (r: Result<
        (),
        ArgumentError,
    >) {
        let r: Result<(), ArgumentError> = (self.0, (self.1, (self.2, (self.3, (self.4, (self.5, (self.6, (self.7, (self.8, (self.9, (self.10, (self.11, (self.12, (self.13, ())))))))))))))).seed_chain(ctx, fli, terms, 0);
        proof {
            assert(terms.held(fli@).skip(0) =~= terms.held(fli@));
            assert(terms.held(old(fli)@).skip(0) =~= terms.held(old(fli)@));
        }
        r
    }

    fn decode<Ctx: FliContext>(ctx: &Ctx, fli: &mut Fli, terms: &TermList<'_>) -> (r: Result<
        (A::Value, B::Value, C::Value, D::Value, E::Value, F::Value, G::Value, H::Value, I::Value, J::Value, K::Value, L::Value, M::Value, N::Value),
        ArgumentError,
    >) {
        proof {
            assert(terms.held(fli@).skip(0) =~= terms.held(fli@));
        }
        match <(A, (B, (C, (D, (E, (F, (G, (H, (I, (J, (K, (L, (M, (N, ()))))))))))))))>::decode_chain(ctx, fli, terms, 0) {
            Ok((v0, (v1, (v2, (v3, (v4, (v5, (v6, (v7, (v8, (v9, (v10, (v11, (v12, (v13, ()))))))))))))))) => Ok((v0, v1, v2, v3, v4, v5, v6, v7, v8, v9, v10, v11, v12, v13)),
            Err(error) => Err(error),
        }
    }
}

impl<A: Argument, B: Argument, C: Argument, D: Argument, E: Argument, F: Argument, G: Argument, H: Argument, I: Argument, J: Argument, K: Argument, L: Argument, M: Argument, N: Argument, O: Argument> Tuple for (A, B, C, D, E, F, G, H, I, J, K, L, M, N, O) {

}

impl<A: Argument, B: Argument, C: Argument, D: Argument, E: Argument, F: Argument, G: Argument, H: Argument, I: Argument, J: Argument, K: Argument, L: Argument, M: Argument, N: Argument, O: Argument> ArgsSpec for (A, B, C, D, E, F, G, H, I, J, K, L, M, N, O) {
    type Values = (A::Value, B::Value, C::Value, D::Value, E::Value, F::Value, G::Value, H::Value, I::Value, J::Value, K::Value, L::Value, M::Value, N::Value, O::Value);

    open spec fn count() -> nat {
        15
    }

    open spec fn ready(&self, s: State, limit: nat) -> bool {
        (self.0, (self.1, (self.2, (self.3, (self.4, (self.5, (self.6, (self.7, (self.8, (self.9, (self.10, (self.11, (self.12, (self.13, (self.14, ()))))))))))))))).all_ready(s, limit)
    }

    open spec fn seeded(&self, s: State) -> Result<Seq<Option<Tree>>, ArgumentFault> {
        (self.0, (self.1, (self.2, (self.3, (self.4, (self.5, (self.6, (self.7, (self.8, (self.9, (self.10, (self.11, (self.12, (self.13, (self.14, ()))))))))))))))).all_seeded(s)
    }

    open spec fn decodes(trail: Seq<(usize, Tree)>, ts: Seq<Tree>, values: (A::Value, B::Value, C::Value, D::Value, E::Value, F::Value, G::Value, H::Value, I::Value, J::Value, K::Value, L::Value, M::Value, N::Value, O::Value)) -> bool {
        <(A, (B, (C, (D, (E, (F, (G, (H, (I, (J, (K, (L, (M, (N, (O, ())))))))))))))))>::all_decode(trail, ts, (values.0, (values.1, (values.2, (values.3, (values.4, (values.5, (values.6, (values.7, (values.8, (values.9, (values.10, (values.11, (values.12, (values.13, (values.14, ()))))))))))))))))
    }

    open spec fn decode_fault(trail: Seq<(usize, Tree)>, ts: Seq<Tree>) -> Option<ArgumentFault> {
        <(A, (B, (C, (D, (E, (F, (G, (H, (I, (J, (K, (L, (M, (N, (O, ())))))))))))))))>::all_fault(trail, ts)
    }

    proof fn seeded_outside(&self, a: State, b: State, limit: nat) {
        (self.0, (self.1, (self.2, (self.3, (self.4, (self.5, (self.6, (self.7, (self.8, (self.9, (self.10, (self.11, (self.12, (self.13, (self.14, ()))))))))))))))).all_seeded_outside(a, b, limit);
    }

    fn len() -> (r: usize) {
        15
    }

    fn seed<Ctx: FliContext>(self, ctx: &Ctx, fli: &mut Fli, terms: &TermList<'_>) -> (r: Result<
        (),
        ArgumentError,
    >) {
        let r: Result<(), ArgumentError> = (self.0, (self.1, (self.2, (self.3, (self.4, (self.5, (self.6, (self.7, (self.8, (self.9, (self.10, (self.11, (self.12, (self.13, (self.14, ()))))))))))))))).seed_chain(ctx, fli, terms, 0);
        proof {
            assert(terms.held(fli@).skip(0) =~= terms.held(fli@));
            assert(terms.held(old(fli)@).skip(0) =~= terms.held(old(fli)@));
        }
        r
    }

    fn decode<Ctx: FliContext>(ctx: &Ctx, fli: &mut Fli, terms: &TermList<'_>) -> (r: Result<
        (A::Value, B::Value, C::Value, D::Value, E::Value, F::Value, G::Value, H::Value, I::Value, J::Value, K::Value, L::Value, M::Value, N::Value, O::Value),
        ArgumentError,
    >) {
        proof {
            assert(terms.held(fli@).skip(0) =~= terms.held(fli@));
        }
        match <(A, (B, (C, (D, (E, (F, (G, (H, (I, (J, (K, (L, (M, (N, (O, ())))))))))))))))>::decode_chain(ctx, fli, terms, 0) {
            Ok((v0, (v1, (v2, (v3, (v4, (v5, (v6, (v7, (v8, (v9, (v10, (v11, (v12, (v13, (v14, ())))))))))))))))) => Ok((v0, v1, v2, v3, v4, v5, v6, v7, v8, v9, v10, v11, v12, v13, v14)),
            Err(error) => Err(error),
        }
    }
}

impl<A: Argument, B: Argument, C: Argument, D: Argument, E: Argument, F: Argument, G: Argument, H: Argument, I: Argument, J: Argument, K: Argument, L: Argument, M: Argument, N: Argument, O: Argument, P: Argument> Tuple for (A, B, C, D, E, F, G, H, I, J, K, L, M, N, O, P) {

}

impl<A: Argument, B: Argument, C: Argument, D: Argument, E: Argument, F: Argument, G: Argument, H: Argument, I: Argument, J: Argument, K: Argument, L: Argument, M: Argument, N: Argument, O: Argument, P: Argument> ArgsSpec for (A, B, C, D, E, F, G, H, I, J, K, L, M, N, O, P) {
    type Values = (A::Value, B::Value, C::Value, D::Value, E::Value, F::Value, G::Value, H::Value, I::Value, J::Value, K::Value, L::Value, M::Value, N::Value, O::Value, P::Value);

    open spec fn count() -> nat {
        16
    }

    open spec fn ready(&self, s: State, limit: nat) -> bool {
        (self.0, (self.1, (self.2, (self.3, (self.4, (self.5, (self.6, (self.7, (self.8, (self.9, (self.10, (self.11, (self.12, (self.13, (self.14, (self.15, ())))))))))))))))).all_ready(s, limit)
    }

    open spec fn seeded(&self, s: State) -> Result<Seq<Option<Tree>>, ArgumentFault> {
        (self.0, (self.1, (self.2, (self.3, (self.4, (self.5, (self.6, (self.7, (self.8, (self.9, (self.10, (self.11, (self.12, (self.13, (self.14, (self.15, ())))))))))))))))).all_seeded(s)
    }

    open spec fn decodes(trail: Seq<(usize, Tree)>, ts: Seq<Tree>, values: (A::Value, B::Value, C::Value, D::Value, E::Value, F::Value, G::Value, H::Value, I::Value, J::Value, K::Value, L::Value, M::Value, N::Value, O::Value, P::Value)) -> bool {
        <(A, (B, (C, (D, (E, (F, (G, (H, (I, (J, (K, (L, (M, (N, (O, (P, ()))))))))))))))))>::all_decode(trail, ts, (values.0, (values.1, (values.2, (values.3, (values.4, (values.5, (values.6, (values.7, (values.8, (values.9, (values.10, (values.11, (values.12, (values.13, (values.14, (values.15, ())))))))))))))))))
    }

    open spec fn decode_fault(trail: Seq<(usize, Tree)>, ts: Seq<Tree>) -> Option<ArgumentFault> {
        <(A, (B, (C, (D, (E, (F, (G, (H, (I, (J, (K, (L, (M, (N, (O, (P, ()))))))))))))))))>::all_fault(trail, ts)
    }

    proof fn seeded_outside(&self, a: State, b: State, limit: nat) {
        (self.0, (self.1, (self.2, (self.3, (self.4, (self.5, (self.6, (self.7, (self.8, (self.9, (self.10, (self.11, (self.12, (self.13, (self.14, (self.15, ())))))))))))))))).all_seeded_outside(a, b, limit);
    }

    fn len() -> (r: usize) {
        16
    }

    fn seed<Ctx: FliContext>(self, ctx: &Ctx, fli: &mut Fli, terms: &TermList<'_>) -> (r: Result<
        (),
        ArgumentError,
    >) {
        let r: Result<(), ArgumentError> = (self.0, (self.1, (self.2, (self.3, (self.4, (self.5, (self.6, (self.7, (self.8, (self.9, (self.10, (self.11, (self.12, (self.13, (self.14, (self.15, ())))))))))))))))).seed_chain(ctx, fli, terms, 0);
        proof {
            assert(terms.held(fli@).skip(0) =~= terms.held(fli@));
            assert(terms.held(old(fli)@).skip(0) =~= terms.held(old(fli)@));
        }
        r
    }

    fn decode<Ctx: FliContext>(ctx: &Ctx, fli: &mut Fli, terms: &TermList<'_>) -> (r: Result<
        (A::Value, B::Value, C::Value, D::Value, E::Value, F::Value, G::Value, H::Value, I::Value, J::Value, K::Value, L::Value, M::Value, N::Value, O::Value, P::Value),
        ArgumentError,
    >) {
        proof {
            assert(terms.held(fli@).skip(0) =~= terms.held(fli@));
        }
        match <(A, (B, (C, (D, (E, (F, (G, (H, (I, (J, (K, (L, (M, (N, (O, (P, ()))))))))))))))))>::decode_chain(ctx, fli, terms, 0) {
            Ok((v0, (v1, (v2, (v3, (v4, (v5, (v6, (v7, (v8, (v9, (v10, (v11, (v12, (v13, (v14, (v15, ()))))))))))))))))) => Ok((v0, v1, v2, v3, v4, v5, v6, v7, v8, v9, v10, v11, v12, v13, v14, v15)),
            Err(error) => Err(error),
        }
    }
}

} // verus!
