//! Terms, term blocks and foreign frames.

use std::marker::PhantomData;
use std::rc::Rc;

use vstd::prelude::*;
use vstd::string::*;

use crate::call::ScopedCallError;
use crate::data::{Tree, TermData};
use crate::exception::{PrologException, Verdict};
use crate::exchange::bindings_view;
use crate::fli::{Fli, State};
use crate::handles::{Atom, Functor};
use crate::list::{element_at, has_shape, shape_is_unique, spine, tail_after};
use crate::scope::{close_scope, open_scope, try_close_scope, Activation};
use crate::sealed::Sealed;
use crate::text::{decimal, decimal_text, same_text};

verus! {

/// How [`Term::list_shape`] classifies a term's list spine.
#[derive(Debug, Clone, Copy, PartialEq, Eq, Structural)]
pub enum ListShape {
    /// A proper list ending in `[]`; `len` is the number of elements (`0` for
    /// the empty list itself).
    Proper { len: usize },
    /// A partial list ending in an unbound variable (e.g. `[a | _]`).
    Partial,
    /// An improper list ending in a non-list, non-`[]` term (e.g. `[a | b]`).
    Improper,
    /// A cyclic list, whose spine would loop forever if followed naively.
    Cyclic,
    /// Not a list at all: neither `[]` nor a list cell.
    NotAList,
}

/// The classification of a term.
#[derive(Debug, Clone, Copy, PartialEq, Eq, Structural)]
pub enum TermKind {
    Variable,
    Atom,
    Integer,
    Rational,
    Float,
    String,
    /// A compound term that is not a list cell.
    Compound,
    Nil,
    Blob,
    /// A non-empty list cell (`'[|]'/2`).
    ListPair,
    Dict,
}

/// An error from a term operation.
#[derive(Debug, Clone, PartialEq, Eq)]
#[allow(inconsistent_fields)]
pub enum TermError {
    /// The term does not have the shape the operation requires. This is the
    /// normal, recoverable "wrong type" outcome.
    TypeMismatch { expected: &'static str },
    /// The number of argument terms does not match the functor's arity.
    ArityMismatch { expected: usize, actual: usize },
    /// A dict was given a different number of keys than values.
    DictLengthMismatch { keys: usize, values: usize },
    /// An argument index has no 1-based counterpart in the engine's range.
    ArgumentIndexOutOfRange { index: usize },
    /// A list operation required a proper, acyclic list ending in `[]`, but
    /// the term's spine was something else.
    NotAProperList(ListShape),
    /// The operation raised a Prolog exception; it has been cleared from the
    /// engine.
    Exception(PrologException),
}

/// An error from opening a foreign frame.
#[derive(Debug, Clone, PartialEq, Eq)]
pub enum FrameError {
    /// The engine reported failure and left no exception.
    OpenFailed,
    /// Opening the frame raised a Prolog exception; it has been cleared from
    /// the engine.
    Exception(PrologException),
}

/// Whether an operation failed with the pending exception and did nothing
/// else.
pub open spec fn raised<T>(before: State, after: State, r: Result<T, TermError>) -> bool {
    &&& before.verdict is Raise
    &&& r == Err::<T, TermError>(TermError::Exception(before.verdict->Raise_0))
    &&& after == before.answered()
}

/// Whether an operation of several calls into the engine failed with the
/// pending exception, at whichever of them: the references allocated before
/// may be there.
pub open spec fn raised_within<T>(before: State, after: State, r: Result<T, TermError>) -> bool {
    &&& before.verdict is Raise
    &&& r == Err::<T, TermError>(TermError::Exception(before.verdict->Raise_0))
    &&& grows(before, after)
    &&& after.verdict is Grant
}

/// The outcome of an operation that overwrites reference `raw` with `t`.
pub open spec fn put_done(
    before: State,
    after: State,
    raw: usize,
    t: Tree,
    r: Result<(), TermError>,
) -> bool {
    &&& before.verdict is Raise ==> raised(before, after, r)
    &&& before.verdict is Grant ==> r is Ok && after == before.with_ref(raw, t)
}

/// The error of an operation that reads a term: the pending exception, or
/// else the wrong shape.
pub open spec fn get_error(before: State, expected: &'static str) -> TermError {
    match before.verdict {
        Verdict::Raise(e) => TermError::Exception(e),
        _ => TermError::TypeMismatch { expected },
    }
}

/// The outcome of an operation that reads `found` out of a term.
pub open spec fn get_done<T>(
    before: State,
    after: State,
    found: Option<T>,
    expected: &'static str,
    r: Result<T, TermError>,
) -> bool {
    &&& after == before.answered()
    &&& match found {
        Some(value) => if before.verdict is Grant {
            r == Ok::<T, TermError>(value)
        } else {
            r == Err::<T, TermError>(get_error(before, expected))
        },
        None => r == Err::<T, TermError>(get_error(before, expected)),
    }
}

/// The outcome of an operation that reads the text `found` out of a term.
pub open spec fn get_text_done(
    before: State,
    after: State,
    found: Option<Seq<char>>,
    expected: &'static str,
    r: Result<String, TermError>,
) -> bool {
    &&& after == before.answered()
    &&& match found {
        Some(text) => if before.verdict is Grant {
            r matches Ok(s) && s@ == text
        } else {
            r == Err::<String, TermError>(get_error(before, expected))
        },
        None => r == Err::<String, TermError>(get_error(before, expected)),
    }
}

/// Interprets the engine's answer to an operation that writes a term.
fn check_put(fli: &mut Fli) -> (r: Result<(), TermError>)
    requires
        !(old(fli)@.verdict is Refuse),
    ensures
        old(fli)@.verdict is Raise ==> raised(old(fli)@, final(fli)@, r),
        old(fli)@.verdict is Grant ==> r is Ok && final(fli)@ == old(fli)@,
{
    match fli.take_verdict() {
        Verdict::Raise(exception) => Err(TermError::Exception(exception)),
        _ => Ok(()),
    }
}

/// Interprets the engine's answer to an operation that reads a term: failure
/// without a pending exception is the normal "wrong shape" outcome.
fn check_get(fli: &mut Fli, ok: bool, expected: &'static str) -> (r: Result<(), TermError>)
    ensures
        final(fli)@ == old(fli)@.answered(),
        ok && old(fli)@.verdict is Grant ==> r is Ok,
        !(ok && old(fli)@.verdict is Grant) ==> r == Err::<(), TermError>(
            get_error(old(fli)@, expected),
        ),
{
    match fli.take_verdict() {
        Verdict::Raise(exception) => Err(TermError::Exception(exception)),
        Verdict::Refuse => Err(TermError::TypeMismatch { expected }),
        Verdict::Grant => {
            if ok {
                Ok(())
            } else {
                Err(TermError::TypeMismatch { expected })
            }
        },
    }
}

/// Whether `inner` is the place of a scope opened at `outer`.
pub open spec fn nested(outer: Activation, inner: Activation) -> bool {
    inner.gen == outer.gen && inner.depth == outer.depth + 1
}

/// A witness that an engine is current on the calling thread, through which
/// term references, term blocks and frames are created.
///
/// What a context contributes is its place: allocations land in the innermost
/// open scope, so an operation asks that its context is that scope.
pub trait FliContext: Sealed {
    /// Allocates a fresh term reference, initially an unbound variable, valid
    /// until this context's scope ends.
    fn term<'a>(&'a self, fli: &mut Fli) -> (r: Result<Term<'a>, TermError>)
        requires
            old(fli)@.at(self.place()),
            !(old(fli)@.verdict is Refuse),
        ensures
            old(fli)@.verdict is Raise ==> raised(old(fli)@, final(fli)@, r),
            old(fli)@.verdict is Grant ==> (r matches Ok(t) && t.raw() == old(fli)@.refs.len()
                && t.gen() == old(fli)@.gen && final(fli)@ == old(fli)@.with_new_var()),
    {
        match check_put(fli) {
            Err(error) => Err(error),
            Ok(()) => {
                let gen: u64 = fli.activation().gen;
                let raw: usize = fli.push_var();
                Ok(Term { raw, gen, scope: PhantomData })
            },
        }
    }

    /// Allocates `len` contiguous fresh term references, the argument vector
    /// shape that compound terms and queries require.
    fn terms<'a>(&'a self, fli: &mut Fli, len: usize) -> (r: Result<TermList<'a>, TermError>)
        requires
            old(fli)@.at(self.place()),
            !(old(fli)@.verdict is Refuse),
        ensures
            old(fli)@.verdict is Raise ==> raised(old(fli)@, final(fli)@, r),
            old(fli)@.verdict is Grant ==> (r matches Ok(list) && list.first()
                == old(fli)@.refs.len() && list.count() == len && list.gen() == old(fli)@.gen
                && final(fli)@ == old(fli)@.with_new_vars(len as nat)),
    {
        match check_put(fli) {
            Err(error) => Err(error),
            Ok(()) => {
                let gen: u64 = fli.activation().gen;
                let first: usize = fli.refs_len();
                push_vars(fli, len);
                fli.attest();
                Ok(TermList { first, len, gen, scope: PhantomData })
            },
        }
    }

    /// Opens a nested foreign frame.
    fn frame<'a>(&'a self, fli: &mut Fli) -> (r: Result<Frame<'a>, FrameError>) where Self: Sized
        requires
            old(fli)@.at(self.place()),
        ensures
            frame_opened(old(fli)@, final(fli)@, self.place(), r),
    {
        open_frame(self.activation(), fli)
    }

    /// Runs `body` in a nested foreign frame and keeps its bindings.
    ///
    /// The callback gets the frame by shared reference, so it cannot close,
    /// discard, or leak the frame managed by this method. Use
    /// [`FliContext::try_with_frame`] when a callback error should roll the
    /// frame back.
    fn with_frame<R, F: for<'a> FnOnce(&mut Fli, &'a Frame<'a>) -> R>(
        &self,
        fli: &mut Fli,
        body: F,
    ) -> (r: Result<R, FrameError>) where Self: Sized
        requires
            old(fli)@.at(self.place()),
            forall|f: &mut Fli, frame: &Frame|
                (*f)@ == old(fli)@.opened() && nested(self.place(), frame.place())
                    ==> call_requires(body, (f, frame)),
            forall|f: &mut Fli, frame: &Frame, v: R|
                (*f)@ == old(fli)@.opened() && nested(self.place(), frame.place())
                    && #[trigger] call_ensures(body, (f, frame), v) ==> (*f)@.leads_to(
                    (*final(f))@,
                ),
        ensures
            !(old(fli)@.verdict is Grant) ==> r == Err::<R, FrameError>(
                frame_error(old(fli)@.verdict),
            ) && final(fli)@ == old(fli)@.answered(),
            old(fli)@.verdict is Grant ==> exists|f: &mut Fli, frame: &Frame, v: R|
                {
                    &&& (*f)@ == old(fli)@.opened()
                    &&& nested(self.place(), frame.place())
                    &&& #[trigger] call_ensures(body, (f, frame), v)
                    &&& r == Ok::<R, FrameError>(v)
                    &&& final(fli)@ == (*final(f))@.closed(true)
                },
    {
        match self.frame(fli) {
            Err(error) => Err(error),
            Ok(frame) => {
                let result: R = body(fli, &frame);
                frame.close(fli);
                Ok(result)
            },
        }
    }

    /// Runs a fallible callback in a nested foreign frame: `Ok` keeps its
    /// bindings, `Err` undoes them.
    fn try_with_frame<R, E, F: for<'a> FnOnce(&mut Fli, &'a Frame<'a>) -> Result<R, E>>(
        &self,
        fli: &mut Fli,
        body: F,
    ) -> (r: Result<R, ScopedCallError<FrameError, E>>) where Self: Sized
        requires
            old(fli)@.at(self.place()),
            forall|f: &mut Fli, frame: &Frame|
                (*f)@ == old(fli)@.opened() && nested(self.place(), frame.place())
                    ==> call_requires(body, (f, frame)),
            forall|f: &mut Fli, frame: &Frame, v: Result<R, E>|
                (*f)@ == old(fli)@.opened() && nested(self.place(), frame.place())
                    && #[trigger] call_ensures(body, (f, frame), v) ==> (*f)@.leads_to(
                    (*final(f))@,
                ),
        ensures
            !(old(fli)@.verdict is Grant) ==> r == Err::<R, ScopedCallError<FrameError, E>>(
                ScopedCallError::Operation(frame_error(old(fli)@.verdict)),
            ) && final(fli)@ == old(fli)@.answered(),
            old(fli)@.verdict is Grant ==> exists|f: &mut Fli, frame: &Frame, v: Result<R, E>|
                {
                    &&& (*f)@ == old(fli)@.opened()
                    &&& nested(self.place(), frame.place())
                    &&& #[trigger] call_ensures(body, (f, frame), v)
                    &&& match v {
                        Ok(x) => r == Ok::<R, ScopedCallError<FrameError, E>>(x) && final(fli)@ == (
                        *final(f))@.closed(true),
                        Err(e) => r == Err::<R, ScopedCallError<FrameError, E>>(
                            ScopedCallError::Body(e),
                        ) && final(fli)@ == (*final(f))@.closed(false),
                    }
                },
    {
        match self.frame(fli) {
            Err(error) => Err(ScopedCallError::Operation(error)),
            Ok(frame) => {
                match body(fli, &frame) {
                    Ok(result) => {
                        frame.close(fli);
                        Ok(result)
                    },
                    Err(error) => {
                        frame.discard(fli);
                        Err(ScopedCallError::Body(error))
                    },
                }
            },
        }
    }
}

/// Allocates `len` references to new variables.
fn push_vars(fli: &mut Fli, len: usize)
    ensures
        final(fli)@ == old(fli)@.with_new_vars(len as nat),
{
    let mut i: usize = 0;
    assert(fli@.with_new_vars(0).refs =~= fli@.refs);
    while i < len
        invariant
            i <= len,
            fli@ == old(fli)@.with_new_vars(i as nat),
        decreases len - i,
    {
        fli.push_var();
        i = i + 1;
        assert(fli@.refs =~= old(fli)@.with_new_vars(i as nat).refs);
    }
}

/// The error of opening a frame.
pub open spec fn frame_error(verdict: Verdict) -> FrameError {
    match verdict {
        Verdict::Raise(e) => FrameError::Exception(e),
        _ => FrameError::OpenFailed,
    }
}

/// The outcome of opening a frame in a context at `outer`.
pub open spec fn frame_opened(
    before: State,
    after: State,
    outer: Activation,
    r: Result<Frame, FrameError>,
) -> bool {
    if before.verdict is Grant {
        r matches Ok(frame) && nested(outer, frame.place()) && after == before.opened()
    } else {
        r == Err::<Frame, FrameError>(frame_error(before.verdict)) && after == before.answered()
    }
}

/// Opens a frame as the new innermost scope of the context at `outer`.
fn open_frame<'c>(outer: Activation, fli: &mut Fli) -> (r: Result<Frame<'c>, FrameError>)
    requires
        old(fli)@.at(outer),
    ensures
        frame_opened(old(fli)@, final(fli)@, outer, r),
{
    fli.attest();
    let depth: usize = open_scope(fli, outer);
    match fli.take_verdict() {
        Verdict::Grant => Ok(Frame { at: fli.activation(), ctx: PhantomData }),
        Verdict::Refuse => {
            close_scope(fli, outer.gen, depth, true);
            proof {
                old(fli)@.opened_then_closed(true);
            }
            Err(FrameError::OpenFailed)
        },
        Verdict::Raise(exception) => {
            close_scope(fli, outer.gen, depth, true);
            proof {
                old(fli)@.opened_then_closed(true);
            }
            Err(FrameError::Exception(exception))
        },
    }
}

/// An open foreign frame: the unit of term reference allocation and
/// backtracking.
///
/// Term references allocated inside the frame die with it; bindings made
/// inside it survive only [`Frame::close`].
pub struct Frame<'c> {
    at: Activation,
    ctx: PhantomData<(&'c (), Rc<()>)>,
}

impl<'c> Sealed for Frame<'c> {
    closed spec fn place(&self) -> Activation {
        self.at
    }

    fn activation(&self) -> (r: Activation) {
        self.at
    }
}

impl<'c> FliContext for Frame<'c> {

}

impl<'c> Frame<'c> {
    /// Opens a frame as the new innermost scope of `ctx`'s engine.
    pub fn open<C: FliContext>(ctx: &'c C, fli: &mut Fli) -> (r: Result<Frame<'c>, FrameError>)
        requires
            old(fli)@.at(ctx.place()),
        ensures
            frame_opened(old(fli)@, final(fli)@, ctx.place(), r),
    {
        open_frame(ctx.activation(), fli)
    }

    /// Closes the frame and keeps the bindings made inside it. Term references
    /// allocated inside the frame are gone.
    pub fn close(self, fli: &mut Fli)
        requires
            old(fli)@.at(self.place()),
            old(fli)@.marks.len() > 0,
        ensures
            final(fli)@ == old(fli)@.closed(true),
    {
        close_scope(fli, self.at.gen, self.at.depth - 1, true);
    }

    /// Discards the frame: undoes all bindings made inside it, and drops the
    /// term references allocated inside it.
    pub fn discard(self, fli: &mut Fli)
        requires
            old(fli)@.at(self.place()),
            old(fli)@.marks.len() > 0,
        ensures
            final(fli)@ == old(fli)@.closed(false),
    {
        close_scope(fli, self.at.gen, self.at.depth - 1, false);
    }

    /// Undoes all bindings and drops all term references made since the frame
    /// was opened or last rewound, without closing it.
    pub fn rewind(&mut self, fli: &mut Fli)
        requires
            old(fli)@.at(old(self).place()),
            old(fli)@.marks.len() > 0,
        ensures
            final(fli)@ == old(fli)@.rewound(false),
            final(self).place() == old(self).place(),
    {
        fli.rewind_mark(false);
    }

    /// Discards the frame if it is the innermost open scope. Otherwise leaves
    /// everything as it is and returns `false`: the frame was left out of
    /// order.
    pub fn abandon(self, fli: &mut Fli) -> (r: bool)
        ensures
            r == (old(fli)@.at(self.place()) && old(fli)@.marks.len() > 0),
            r ==> final(fli)@ == old(fli)@.closed(false),
            !r ==> final(fli)@ == old(fli)@,
    {
        if self.at.depth == 0 {
            return false;
        }
        try_close_scope(fli, self.at.gen, self.at.depth - 1)
    }

    /// The raw frame number: how many scopes were open once it was.
    pub fn as_raw(&self) -> (r: usize)
        ensures
            r == self.place().depth,
    {
        self.at.depth
    }
}

/// A handle to a Prolog term: a term reference allocated from an
/// [`FliContext`].
///
/// `Term` is a small `Copy` value; copies alias the same reference. The
/// lifetime ties the handle to the scope that allocated it, and the handle
/// stays on the thread that made it.
#[derive(Clone, Copy)]
pub struct Term<'f> {
    raw: usize,
    gen: u64,
    scope: PhantomData<(&'f (), Rc<()>)>,
}

/// A contiguous block of term references, as required for compound-term
/// arguments and query argument vectors.
#[derive(Clone, Copy)]
pub struct TermList<'f> {
    first: usize,
    len: usize,
    gen: u64,
    scope: PhantomData<(&'f (), Rc<()>)>,
}

impl<'f> TermList<'f> {
    pub closed spec fn first(self) -> nat {
        self.first as nat
    }

    pub closed spec fn count(self) -> nat {
        self.len as nat
    }

    pub closed spec fn gen(self) -> u64 {
        self.gen
    }

    #[verifier::type_invariant]
    closed spec fn in_range(self) -> bool {
        self.first + self.len <= usize::MAX
    }

    /// Whether the whole block is live.
    pub open spec fn live(self, s: State) -> bool {
        self.gen() == s.gen && self.first() + self.count() <= s.refs.len()
    }

    /// What the references of the block hold.
    pub open spec fn held(self, s: State) -> Seq<Tree> {
        s.refs.subrange(self.first() as int, (self.first() + self.count()) as int)
    }

    /// Whether the whole block is live; what every use of it asks.
    pub fn is_live(&self, fli: &Fli) -> (r: bool)
        ensures
            r == self.live(fli@),
    {
        proof {
            use_type_invariant(self);
        }
        self.gen == fli.activation().gen && self.first + self.len <= fli.refs_len()
    }

    /// How many references the block has.
    pub fn len(&self) -> (r: usize)
        ensures
            r == self.count(),
    {
        self.len
    }

    /// Whether the block has no references.
    pub fn is_empty(&self) -> (r: bool)
        ensures
            r == (self.count() == 0),
    {
        self.len == 0
    }

    /// The `index`-th term of the block (0-based), if it has that many.
    pub fn get(&self, index: usize) -> (r: Option<Term<'f>>)
        ensures
            match r {
                Some(t) => index < self.count() && t.raw() == self.first() + index && t.gen()
                    == self.gen(),
                None => index >= self.count(),
            },
    {
        proof {
            use_type_invariant(self);
        }
        if index < self.len {
            Some(Term { raw: self.first + index, gen: self.gen, scope: PhantomData })
        } else {
            None
        }
    }

    /// The terms of the block, in order.
    pub fn iter(&self) -> (r: Vec<Term<'f>>)
        ensures
            r@.len() == self.count(),
            forall|i: int|
                0 <= i < r@.len() ==> (#[trigger] r@[i]).raw() == self.first() + i && r@[i].gen()
                    == self.gen(),
    {
        proof {
            use_type_invariant(self);
        }
        let mut out: Vec<Term<'f>> = Vec::new();
        let mut i: usize = 0;
        while i < self.len
            invariant
                i <= self.len,
                self.first() + self.count() <= usize::MAX,
                out@.len() == i,
                forall|k: int|
                    0 <= k < i ==> (#[trigger] out@[k]).raw() == self.first() + k && out@[k].gen()
                        == self.gen(),
            decreases self.len - i,
        {
            out.push(Term { raw: self.first + i, gen: self.gen, scope: PhantomData });
            i = i + 1;
        }
        out
    }

    /// The raw base term reference.
    pub fn as_raw(&self) -> (r: usize)
        ensures
            r == self.first(),
    {
        self.first
    }
}

/// The text that an atomic term denotes.
pub open spec fn atomic_text(t: Tree) -> Option<Seq<char>> {
    match t {
        Tree::Atom(name) => Some(name),
        Tree::String(text) => Some(text),
        Tree::Integer(value) => Some(decimal(value)),
        Tree::BigInteger(digits) => Some(digits),
        Tree::Rational(text) => Some(text),
        Tree::Float(bits, text) => Some(text),
        Tree::Nil => Some("[]"@),
        _ => None,
    }
}

/// The boolean that a term denotes: the atoms `true`/`on` and `false`/`off`.
pub open spec fn bool_value(t: Tree) -> Option<bool> {
    match t {
        Tree::Atom(name) => if name == "true"@ || name == "on"@ {
            Some(true)
        } else if name == "false"@ || name == "off"@ {
            Some(false)
        } else {
            None
        },
        _ => None,
    }
}

/// The integer that a term denotes, if it is in the given range.
pub open spec fn int_value(t: Tree, low: int, high: int) -> Option<int> {
    match t {
        Tree::Integer(value) => if low <= value <= high {
            Some(value)
        } else {
            None
        },
        _ => None,
    }
}

/// The bit pattern of the float that a term denotes, given what the engine
/// converts a number to that is not one.
pub open spec fn float_value(t: Tree, converted: Option<u64>) -> Option<u64> {
    match t {
        Tree::Float(bits, text) => Some(bits),
        Tree::Integer(value) => converted,
        Tree::BigInteger(digits) => converted,
        Tree::Rational(text) => converted,
        _ => None,
    }
}

/// The compound term with this name and these arguments: without arguments it
/// is the atom, and `'[|]'/2` is the list cell.
pub open spec fn compound_tree(name: Seq<char>, args: Seq<Tree>) -> Tree {
    if args.len() == 0 {
        Tree::Atom(name)
    } else if args.len() == 2 && name == "[|]"@ {
        Tree::Pair(Box::new(args[0]), Box::new(args[1]))
    } else {
        Tree::Compound(name, args)
    }
}

/// The name and arguments of a compound term, a list cell being `'[|]'/2`.
pub open spec fn compound_parts(t: Tree) -> Option<(Seq<char>, Seq<Tree>)> {
    match t {
        Tree::Compound(name, args) => Some((name, args)),
        Tree::Pair(head, tail) => Some(("[|]"@, seq![*head, *tail])),
        _ => None,
    }
}

/// A compound with arguments has the name and the arguments it was built
/// with.
pub proof fn compound_reads_back(name: Seq<char>, args: Seq<Tree>)
    requires
        args.len() > 0,
    ensures
        compound_parts(compound_tree(name, args)) == Some((name, args)),
{
    if args.len() == 2 && name == "[|]"@ {
        assert(seq![args[0], args[1]] =~= args);
    }
}

/// The classification of a term.
pub open spec fn kind_of(t: Tree) -> TermKind {
    match t {
        Tree::Var(id) => TermKind::Variable,
        Tree::Atom(name) => TermKind::Atom,
        Tree::Integer(value) => TermKind::Integer,
        Tree::BigInteger(digits) => TermKind::Integer,
        Tree::Rational(text) => TermKind::Rational,
        Tree::Float(bits, text) => TermKind::Float,
        Tree::String(text) => TermKind::String,
        Tree::Nil => TermKind::Nil,
        Tree::Blob(text) => TermKind::Blob,
        Tree::Pair(head, tail) => TermKind::ListPair,
        Tree::Compound(name, args) => TermKind::Compound,
        Tree::Dict(tag, entries) => TermKind::Dict,
    }
}

/// Whether `after` differs from `before` at most by new term references and
/// new variables.
pub open spec fn grows(before: State, after: State) -> bool {
    &&& after.gen == before.gen
    &&& after.newest == before.newest
    &&& after.trail == before.trail
    &&& after.marks == before.marks
    &&& after.log == before.log
    &&& after.fresh >= before.fresh
    &&& after.refs.len() >= before.refs.len()
    &&& forall|i: int|
        0 <= i < before.refs.len() ==> #[trigger] after.refs[i] == before.refs[i]
}

impl<'f> Term<'f> {
    pub closed spec fn raw(self) -> usize {
        self.raw
    }

    pub closed spec fn gen(self) -> u64 {
        self.gen
    }

    /// Whether the handle names a live reference of the current engine.
    pub open spec fn live(self, s: State) -> bool {
        self.gen() == s.gen && self.raw() < s.refs.len()
    }

    /// Whether the handle names a live reference of the current engine; what
    /// every operation on the term asks of it.
    pub fn is_live(&self, fli: &Fli) -> (r: bool)
        ensures
            r == self.live(fli@),
    {
        self.gen == fli.activation().gen && self.raw < fli.refs_len()
    }

    /// Resets the term to a fresh unbound variable.
    pub fn put_variable(&self, fli: &mut Fli) -> (r: Result<(), TermError>)
        requires
            self.live(old(fli)@),
            !(old(fli)@.verdict is Refuse),
        ensures
            old(fli)@.verdict is Raise ==> raised(old(fli)@, final(fli)@, r),
            old(fli)@.verdict is Grant ==> r is Ok && final(fli)@ == (State {
                fresh: old(fli)@.fresh + 1,
                ..old(fli)@.with_ref(self.raw(), Tree::Var(old(fli)@.fresh as usize))
            }),
    {
        match check_put(fli) {
            Err(error) => Err(error),
            Ok(()) => {
                let id: usize = fli.new_var();
                fli.set_ref(self.raw, TermData::Var(id));
                Ok(())
            },
        }
    }

    /// Makes the term hold `data`.
    fn put_data(&self, fli: &mut Fli, data: TermData) -> (r: Result<(), TermError>)
        requires
            self.live(old(fli)@),
            !(old(fli)@.verdict is Refuse),
        ensures
            put_done(old(fli)@, final(fli)@, self.raw(), data@, r),
    {
        match check_put(fli) {
            Err(error) => Err(error),
            Ok(()) => {
                fli.set_ref(self.raw, data);
                Ok(())
            },
        }
    }

    /// Makes the term reference the given atom.
    pub fn put_atom(&self, fli: &mut Fli, atom: &Atom) -> (r: Result<(), TermError>)
        requires
            self.live(old(fli)@),
            !(old(fli)@.verdict is Refuse),
        ensures
            put_done(old(fli)@, final(fli)@, self.raw(), Tree::Atom(atom@), r),
    {
        self.put_data(fli, TermData::Atom(atom.text()))
    }

    /// Makes the term an atom with the given text.
    pub fn put_atom_text(&self, fli: &mut Fli, text: &str) -> (r: Result<(), TermError>)
        requires
            self.live(old(fli)@),
            !(old(fli)@.verdict is Refuse),
        ensures
            put_done(old(fli)@, final(fli)@, self.raw(), Tree::Atom(text@), r),
    {
        self.put_data(fli, TermData::Atom(text.to_owned()))
    }

    /// Makes the term a Prolog string.
    pub fn put_string(&self, fli: &mut Fli, text: &str) -> (r: Result<(), TermError>)
        requires
            self.live(old(fli)@),
            !(old(fli)@.verdict is Refuse),
        ensures
            put_done(old(fli)@, final(fli)@, self.raw(), Tree::String(text@), r),
    {
        self.put_data(fli, TermData::String(text.to_owned()))
    }

    /// Makes the term an integer.
    pub fn put_i64(&self, fli: &mut Fli, value: i64) -> (r: Result<(), TermError>)
        requires
            self.live(old(fli)@),
            !(old(fli)@.verdict is Refuse),
        ensures
            put_done(old(fli)@, final(fli)@, self.raw(), Tree::Integer(value as int), r),
    {
        self.put_data(fli, TermData::Integer(value as i128))
    }

    /// Makes the term an integer.
    pub fn put_u64(&self, fli: &mut Fli, value: u64) -> (r: Result<(), TermError>)
        requires
            self.live(old(fli)@),
            !(old(fli)@.verdict is Refuse),
        ensures
            put_done(old(fli)@, final(fli)@, self.raw(), Tree::Integer(value as int), r),
    {
        self.put_data(fli, TermData::Integer(value as i128))
    }

    /// Makes the term a float, given by its bit pattern and the text that the
    /// engine renders for it.
    pub fn put_float(&self, fli: &mut Fli, bits: u64, text: &str) -> (r: Result<(), TermError>)
        requires
            self.live(old(fli)@),
            !(old(fli)@.verdict is Refuse),
        ensures
            put_done(old(fli)@, final(fli)@, self.raw(), Tree::Float(bits, text@), r),
    {
        self.put_data(fli, TermData::Float(bits, text.to_owned()))
    }

    /// Makes the term `true` or `false`.
    pub fn put_bool(&self, fli: &mut Fli, value: bool) -> (r: Result<(), TermError>)
        requires
            self.live(old(fli)@),
            !(old(fli)@.verdict is Refuse),
        ensures
            put_done(
                old(fli)@,
                final(fli)@,
                self.raw(),
                Tree::Atom(
                    if value {
                        "true"@
                    } else {
                        "false"@
                    },
                ),
                r,
            ),
    {
        if value {
            self.put_atom_text(fli, "true")
        } else {
            self.put_atom_text(fli, "false")
        }
    }

    /// Makes the term the empty list.
    pub fn put_nil(&self, fli: &mut Fli) -> (r: Result<(), TermError>)
        requires
            self.live(old(fli)@),
            !(old(fli)@.verdict is Refuse),
        ensures
            put_done(old(fli)@, final(fli)@, self.raw(), Tree::Nil, r),
    {
        self.put_data(fli, TermData::Nil)
    }

    /// Makes the term reference the same value as `other`.
    pub fn put_term(&self, fli: &mut Fli, other: Term<'_>) -> (r: Result<(), TermError>)
        requires
            self.live(old(fli)@),
            other.live(old(fli)@),
            !(old(fli)@.verdict is Refuse),
        ensures
            put_done(
                old(fli)@,
                final(fli)@,
                self.raw(),
                old(fli)@.refs[other.raw() as int],
                r,
            ),
    {
        let data: TermData = fli.held(other.raw).copy();
        self.put_data(fli, data)
    }

    /// Makes the term what the engine parsed out of a text. A syntax error
    /// surfaces as [`TermError::Exception`].
    pub fn put_term_from_text(&self, fli: &mut Fli, parsed: TermData) -> (r: Result<(), TermError>)
        requires
            self.live(old(fli)@),
            !(old(fli)@.verdict is Refuse),
        ensures
            put_done(old(fli)@, final(fli)@, self.raw(), parsed@, r),
    {
        self.put_data(fli, parsed)
    }

    /// Builds the compound `functor(args...)` in this reference. `args` must
    /// have exactly the functor's arity.
    pub fn cons_functor(&self, fli: &mut Fli, functor: &Functor, args: &TermList<'_>) -> (r: Result<
        (),
        TermError,
    >)
        requires
            self.live(old(fli)@),
            args.live(old(fli)@),
            !(old(fli)@.verdict is Refuse),
        ensures
            if args.count() != functor.spec_arity() {
                r == Err::<(), TermError>(
                    TermError::ArityMismatch {
                        expected: functor.spec_arity(),
                        actual: args.count() as usize,
                    },
                ) && final(fli)@ == old(fli)@
            } else {
                put_done(
                    old(fli)@,
                    final(fli)@,
                    self.raw(),
                    compound_tree(functor.spec_name(), args.held(old(fli)@)),
                    r,
                )
            },
    {
        if args.len != functor.arity() {
            return Err(
                TermError::ArityMismatch { expected: functor.arity(), actual: args.len },
            );
        }
        fli.attest();
        let name: String = functor.name().text();
        if args.len == 0 {
            return self.put_data(fli, TermData::Atom(name));
        }
        if args.len == 2 && same_text(name.as_str(), "[|]") {
            let head: TermData = fli.held(args.first).copy();
            let tail: TermData = fli.held(args.first + 1).copy();
            return self.put_data(fli, TermData::Pair(Box::new(head), Box::new(tail)));
        }
        let mut items: Vec<TermData> = Vec::new();
        let mut i: usize = 0;
        while i < args.len
            invariant
                i <= args.len,
                args.live(old(fli)@),
                old(fli)@.refs.len() <= usize::MAX,
                fli@ == old(fli)@,
                items@.len() == i,
                forall|k: int| 0 <= k < i ==> (#[trigger] items@[k])@ == fli@.refs[args.first + k],
            decreases args.len - i,
        {
            items.push(fli.held(args.first + i).copy());
            i = i + 1;
        }
        let data = TermData::Compound(name, items);
        assert(data@->Compound_1 =~= args.held(old(fli)@));
        self.put_data(fli, data)
    }

    /// Builds the list cell `[head | tail]` in this reference.
    pub fn cons_list(&self, fli: &mut Fli, head: Term<'_>, tail: Term<'_>) -> (r: Result<
        (),
        TermError,
    >)
        requires
            self.live(old(fli)@),
            head.live(old(fli)@),
            tail.live(old(fli)@),
            !(old(fli)@.verdict is Refuse),
        ensures
            put_done(
                old(fli)@,
                final(fli)@,
                self.raw(),
                Tree::Pair(
                    Box::new(old(fli)@.refs[head.raw() as int]),
                    Box::new(old(fli)@.refs[tail.raw() as int]),
                ),
                r,
            ),
    {
        let first: TermData = fli.held(head.raw).copy();
        let rest: TermData = fli.held(tail.raw).copy();
        self.put_data(fli, TermData::Pair(Box::new(first), Box::new(rest)))
    }

    /// Reads the term as an `i64`.
    pub fn get_i64(&self, fli: &mut Fli) -> (r: Result<i64, TermError>)
        requires
            self.live(old(fli)@),
        ensures
            get_done(
                old(fli)@,
                final(fli)@,
                match int_value(old(fli)@.value(self.raw()), i64::MIN as int, i64::MAX as int) {
                    Some(n) => Some(n as i64),
                    None => None,
                },
                "an integer fitting i64",
                r,
            ),
    {
        let found: Option<i64> = match fli.value(self.raw) {
            TermData::Integer(n) => {
                if i64::MIN as i128 <= *n && *n <= i64::MAX as i128 {
                    Some(*n as i64)
                } else {
                    None
                }
            },
            _ => None,
        };
        match check_get(fli, found.is_some(), "an integer fitting i64") {
            Err(error) => Err(error),
            Ok(()) => Ok(found.unwrap()),
        }
    }

    /// Reads the term as a `u64`.
    pub fn get_u64(&self, fli: &mut Fli) -> (r: Result<u64, TermError>)
        requires
            self.live(old(fli)@),
        ensures
            get_done(
                old(fli)@,
                final(fli)@,
                match int_value(old(fli)@.value(self.raw()), 0, u64::MAX as int) {
                    Some(n) => Some(n as u64),
                    None => None,
                },
                "an integer fitting u64",
                r,
            ),
    {
        let found: Option<u64> = match fli.value(self.raw) {
            TermData::Integer(n) => {
                if 0 <= *n && *n <= u64::MAX as i128 {
                    Some(*n as u64)
                } else {
                    None
                }
            },
            _ => None,
        };
        match check_get(fli, found.is_some(), "an integer fitting u64") {
            Err(error) => Err(error),
            Ok(()) => Ok(found.unwrap()),
        }
    }

    /// Reads the bit pattern of the float that a number is. For a number that
    /// is not a float this is what the engine converts it to, if it can.
    pub fn get_float(&self, fli: &mut Fli, converted: Option<u64>) -> (r: Result<u64, TermError>)
        requires
            self.live(old(fli)@),
        ensures
            get_done(
                old(fli)@,
                final(fli)@,
                float_value(old(fli)@.value(self.raw()), converted),
                "a float",
                r,
            ),
    {
        let found: Option<u64> = match fli.value(self.raw) {
            TermData::Float(bits, _) => Some(*bits),
            TermData::Integer(_) => converted,
            TermData::BigInteger(_) => converted,
            TermData::Rational(_) => converted,
            _ => None,
        };
        match check_get(fli, found.is_some(), "a float") {
            Err(error) => Err(error),
            Ok(()) => Ok(found.unwrap()),
        }
    }

    /// Reads the term as a boolean: the atoms `true`/`on` and `false`/`off`.
    pub fn get_bool(&self, fli: &mut Fli) -> (r: Result<bool, TermError>)
        requires
            self.live(old(fli)@),
        ensures
            get_done(
                old(fli)@,
                final(fli)@,
                bool_value(old(fli)@.value(self.raw())),
                "a boolean",
                r,
            ),
    {
        let found: Option<bool> = match fli.value(self.raw) {
            TermData::Atom(name) => {
                if same_text(name.as_str(), "true") || same_text(name.as_str(), "on") {
                    Some(true)
                } else if same_text(name.as_str(), "false") || same_text(name.as_str(), "off") {
                    Some(false)
                } else {
                    None
                }
            },
            _ => None,
        };
        match check_get(fli, found.is_some(), "a boolean") {
            Err(error) => Err(error),
            Ok(()) => Ok(found.unwrap()),
        }
    }

    /// Reads the term as an atom.
    pub fn get_atom(&self, fli: &mut Fli) -> (r: Result<Atom, TermError>)
        requires
            self.live(old(fli)@),
        ensures
            final(fli)@ == old(fli)@.answered(),
            match old(fli)@.value(self.raw()) {
                Tree::Atom(name) => if old(fli)@.verdict is Grant {
                    r matches Ok(atom) && atom@ == name
                } else {
                    r == Err::<Atom, TermError>(get_error(old(fli)@, "an atom"))
                },
                _ => r == Err::<Atom, TermError>(get_error(old(fli)@, "an atom")),
            },
    {
        let found: Option<String> = match fli.value(self.raw) {
            TermData::Atom(name) => Some(name.clone()),
            _ => None,
        };
        match check_get(fli, found.is_some(), "an atom") {
            Err(error) => Err(error),
            Ok(()) => Ok(Atom::from_text(found.unwrap())),
        }
    }

    /// Reads the text an atomic term denotes: atoms, strings, and numbers.
    /// Compounds and variables are a [`TermError::TypeMismatch`]; use
    /// [`Term::write_to_string`] to render arbitrary terms.
    pub fn get_text(&self, fli: &mut Fli) -> (r: Result<String, TermError>)
        requires
            self.live(old(fli)@),
        ensures
            get_text_done(
                old(fli)@,
                final(fli)@,
                atomic_text(old(fli)@.value(self.raw())),
                "an atomic term with a text representation",
                r,
            ),
    {
        let found: Option<String> = match fli.value(self.raw) {
            TermData::Atom(name) => Some(name.clone()),
            TermData::String(text) => Some(text.clone()),
            TermData::Integer(value) => Some(decimal_text(*value)),
            TermData::BigInteger(digits) => Some(digits.clone()),
            TermData::Rational(text) => Some(text.clone()),
            TermData::Float(_, text) => Some(text.clone()),
            TermData::Nil => Some("[]".to_owned()),
            _ => None,
        };
        match check_get(fli, found.is_some(), "an atomic term with a text representation") {
            Err(error) => Err(error),
            Ok(()) => Ok(found.unwrap()),
        }
    }

    /// The text that the engine rendered for this term as `writeq/1` would,
    /// if it could render it.
    pub fn write_to_string(&self, fli: &mut Fli, rendered: Option<String>) -> (r: Result<
        String,
        TermError,
    >)
        requires
            self.live(old(fli)@),
        ensures
            get_done(old(fli)@, final(fli)@, rendered, "a writable term", r),
    {
        match check_get(fli, rendered.is_some(), "a writable term") {
            Err(error) => Err(error),
            Ok(()) => Ok(rendered.unwrap()),
        }
    }

    /// Reads a compound term's name and arity.
    pub fn name_arity(&self, fli: &mut Fli) -> (r: Result<(Atom, usize), TermError>)
        requires
            self.live(old(fli)@),
        ensures
            final(fli)@ == old(fli)@.answered(),
            match compound_parts(old(fli)@.value(self.raw())) {
                Some((name, args)) => if old(fli)@.verdict is Grant {
                    r matches Ok((atom, arity)) && atom@ == name && arity == args.len()
                } else {
                    r == Err::<(Atom, usize), TermError>(get_error(old(fli)@, "a compound term"))
                },
                None => r == Err::<(Atom, usize), TermError>(
                    get_error(old(fli)@, "a compound term"),
                ),
            },
    {
        let found: Option<(String, usize)> = match fli.value(self.raw) {
            TermData::Compound(name, args) => Some((name.clone(), args.len())),
            TermData::Pair(_, _) => Some(("[|]".to_owned(), 2)),
            _ => None,
        };
        match check_get(fli, found.is_some(), "a compound term") {
            Err(error) => Err(error),
            Ok(()) => {
                let (name, arity) = found.unwrap();
                Ok((Atom::from_text(name), arity))
            },
        }
    }

    /// Reads the functor of a compound term, or of an atom as its arity-0
    /// functor.
    pub fn get_functor(&self, fli: &mut Fli) -> (r: Result<Functor, TermError>)
        requires
            self.live(old(fli)@),
        ensures
            final(fli)@ == old(fli)@.answered(),
            match (match old(fli)@.value(self.raw()) {
                Tree::Atom(name) => Some((name, Seq::<Tree>::empty())),
                t => compound_parts(t),
            }) {
                Some((name, args)) => if old(fli)@.verdict is Grant {
                    r matches Ok(functor) && functor.spec_name() == name && functor.spec_arity()
                        == args.len()
                } else {
                    r == Err::<Functor, TermError>(get_error(old(fli)@, "a compound term or atom"))
                },
                None => r == Err::<Functor, TermError>(
                    get_error(old(fli)@, "a compound term or atom"),
                ),
            },
    {
        let found: Option<(String, usize)> = match fli.value(self.raw) {
            TermData::Atom(name) => Some((name.clone(), 0)),
            TermData::Compound(name, args) => Some((name.clone(), args.len())),
            TermData::Pair(_, _) => Some(("[|]".to_owned(), 2)),
            _ => None,
        };
        match check_get(fli, found.is_some(), "a compound term or atom") {
            Err(error) => Err(error),
            Ok(()) => {
                let (name, arity) = found.unwrap();
                Ok(Functor::of_term(Atom::from_text(name), arity))
            },
        }
    }

    /// Whether the term is the empty list.
    pub fn is_nil(&self, fli: &Fli) -> (r: bool)
        requires
            self.live(fli@),
        ensures
            r == (fli@.value(self.raw()) is Nil),
    {
        match fli.value(self.raw) {
            TermData::Nil => true,
            _ => false,
        }
    }

    /// Whether the term is an unbound variable.
    pub fn is_variable(&self, fli: &Fli) -> (r: bool)
        requires
            self.live(fli@),
        ensures
            r == (fli@.value(self.raw()) is Var),
    {
        match fli.value(self.raw) {
            TermData::Var(_) => true,
            _ => false,
        }
    }

    /// Classifies the term.
    pub fn kind(&self, fli: &Fli) -> (r: TermKind)
        requires
            self.live(fli@),
        ensures
            r == kind_of(fli@.value(self.raw())),
    {
        match fli.value(self.raw) {
            TermData::Var(_) => TermKind::Variable,
            TermData::Atom(_) => TermKind::Atom,
            TermData::Integer(_) => TermKind::Integer,
            TermData::BigInteger(_) => TermKind::Integer,
            TermData::Rational(_) => TermKind::Rational,
            TermData::Float(_, _) => TermKind::Float,
            TermData::String(_) => TermKind::String,
            TermData::Nil => TermKind::Nil,
            TermData::Blob(_) => TermKind::Blob,
            TermData::Pair(_, _) => TermKind::ListPair,
            TermData::Compound(_, _) => TermKind::Compound,
            TermData::Dict(_, _) => TermKind::Dict,
        }
    }

    /// Classifies the term's list spine, distinguishing a proper list from a
    /// partial (`[a|_]`), improper (`[a|b]`), or cyclic one. Unlike following
    /// [`Term::get_list`] in a loop, this terminates on a cyclic list.
    pub fn list_shape(&self, fli: &Fli) -> (r: ListShape)
        requires
            self.live(fli@),
        ensures
            has_shape(fli@.trail, fli@.refs[self.raw() as int], r),
    {
        spine(fli, fli.held(self.raw)).1
    }

    /// Reads the `index`-th argument (0-based) of a compound term into a
    /// fresh reference allocated from `ctx`.
    pub fn get_arg<'a, C: FliContext>(&self, ctx: &'a C, fli: &mut Fli, index: usize) -> (r: Result<
        Term<'a>,
        TermError,
    >)
        requires
            self.live(old(fli)@),
            old(fli)@.at(ctx.place()),
            !(old(fli)@.verdict is Refuse),
        ensures
            index == usize::MAX ==> r == Err::<Term<'a>, TermError>(
                TermError::ArgumentIndexOutOfRange { index },
            ) && final(fli)@ == old(fli)@,
            index < usize::MAX && old(fli)@.verdict is Raise ==> raised_within(
                old(fli)@,
                final(fli)@,
                r,
            ),
            index < usize::MAX && old(fli)@.verdict is Grant ==> match compound_parts(
                old(fli)@.value(self.raw()),
            ) {
                Some((name, args)) if index < args.len() => r matches Ok(t) && t.raw()
                    == old(fli)@.refs.len() && t.gen() == old(fli)@.gen && final(fli)@ == (State {
                    fresh: old(fli)@.fresh + 1,
                    ..old(fli)@.with_new_ref(args[index as int])
                }),
                _ => r == Err::<Term<'a>, TermError>(
                    TermError::TypeMismatch { expected: "a compound term with enough arguments" },
                ) && final(fli)@ == old(fli)@.with_new_var(),
            },
    {
        if index == usize::MAX {
            return Err(TermError::ArgumentIndexOutOfRange { index });
        }
        let found: Option<TermData> = match fli.value(self.raw) {
            TermData::Compound(_, args) => {
                if index < args.len() {
                    Some(args[index].copy())
                } else {
                    None
                }
            },
            TermData::Pair(head, tail) => {
                if index == 0 {
                    Some(head.copy())
                } else if index == 1 {
                    Some(tail.copy())
                } else {
                    None
                }
            },
            _ => None,
        };
        match ctx.term(fli) {
            Err(error) => Err(error),
            Ok(dest) => {
                match check_get(fli, found.is_some(), "a compound term with enough arguments") {
                    Err(error) => Err(error),
                    Ok(()) => {
                        fli.set_ref(dest.raw, found.unwrap());
                        assert(fli@.refs =~= old(fli)@.refs.push(found->0@));
                        Ok(dest)
                    },
                }
            },
        }
    }

    /// Decomposes a non-empty list into head and tail references allocated
    /// from `ctx`.
    pub fn get_list<'a, C: FliContext>(&self, ctx: &'a C, fli: &mut Fli) -> (r: Result<
        (Term<'a>, Term<'a>),
        TermError,
    >)
        requires
            self.live(old(fli)@),
            old(fli)@.at(ctx.place()),
            !(old(fli)@.verdict is Refuse),
        ensures
            old(fli)@.verdict is Raise ==> raised_within(old(fli)@, final(fli)@, r),
            old(fli)@.verdict is Grant ==> match old(fli)@.value(self.raw()) {
                Tree::Pair(head, tail) => r matches Ok((h, t)) && h.raw() == old(fli)@.refs.len()
                    && t.raw() == old(fli)@.refs.len() + 1 && h.gen() == old(fli)@.gen && t.gen()
                    == old(fli)@.gen && final(fli)@ == (State {
                    fresh: old(fli)@.fresh + 2,
                    ..old(fli)@.with_new_ref(*head).with_new_ref(*tail)
                }),
                _ => r == Err::<(Term<'a>, Term<'a>), TermError>(
                    TermError::TypeMismatch { expected: "a non-empty list" },
                ) && final(fli)@ == old(fli)@.with_new_var().with_new_var(),
            },
    {
        let found: Option<(TermData, TermData)> = match fli.value(self.raw) {
            TermData::Pair(head, tail) => Some((head.copy(), tail.copy())),
            _ => None,
        };
        let head: Term<'a> = match ctx.term(fli) {
            Err(error) => {
                return Err(error);
            },
            Ok(term) => term,
        };
        let tail: Term<'a> = match ctx.term(fli) {
            Err(error) => {
                return Err(error);
            },
            Ok(term) => term,
        };
        match check_get(fli, found.is_some(), "a non-empty list") {
            Err(error) => Err(error),
            Ok(()) => {
                let (first, rest) = found.unwrap();
                fli.set_ref(head.raw, first);
                fli.set_ref(tail.raw, rest);
                assert(fli@.refs =~= old(fli)@.refs.push(first@).push(rest@));
                Ok((head, tail))
            },
        }
    }

    /// Collects a proper, acyclic list into a vector of element references
    /// allocated from `ctx`. Any other spine is a
    /// [`TermError::NotAProperList`]; this never loops on a cyclic list.
    pub fn collect_list<'a, C: FliContext>(&self, ctx: &'a C, fli: &mut Fli) -> (r: Result<
        Vec<Term<'a>>,
        TermError,
    >)
        requires
            self.live(old(fli)@),
            old(fli)@.at(ctx.place()),
            !(old(fli)@.verdict is Refuse),
        ensures
            forall|shape: ListShape| #[trigger]
                has_shape(old(fli)@.trail, old(fli)@.refs[self.raw() as int], shape) && !(
                shape is Proper) ==> r == Err::<Vec<Term<'a>>, TermError>(
                    TermError::NotAProperList(shape),
                ) && final(fli)@ == old(fli)@,
            forall|len: usize| #[trigger]
                has_shape(
                    old(fli)@.trail,
                    old(fli)@.refs[self.raw() as int],
                    ListShape::Proper { len },
                ) ==> if old(fli)@.verdict is Raise {
                    raised_within(old(fli)@, final(fli)@, r)
                } else {
                    r matches Ok(items) && items@.len() == len && grows(old(fli)@, final(fli)@)
                        && final(fli)@.verdict is Grant && forall|i: int|
                        0 <= i < len ==> (#[trigger] items@[i]).live(final(fli)@) && Some(
                            final(fli)@.refs[items@[i].raw() as int],
                        ) == element_at(
                            old(fli)@.trail,
                            old(fli)@.refs[self.raw() as int],
                            i as nat,
                        )
                },
    {
        let ghost trail = fli@.trail;
        let ghost t = fli@.refs[self.raw as int];
        let shape: ListShape = self.list_shape(fli);
        proof {
            assert forall|other: ListShape| #[trigger] has_shape(trail, t, other) implies other
                == shape by {
                shape_is_unique(trail, t, other, shape);
            }
        }
        let len: usize = match shape {
            ListShape::Proper { len } => len,
            other => {
                return Err(TermError::NotAProperList(other));
            },
        };
        let mut items: Vec<Term<'a>> = Vec::new();
        let mut cursor: Term<'a> = match self.copy_term_ref(ctx, fli) {
            Err(error) => {
                return Err(error);
            },
            Ok(term) => term,
        };
        let mut i: usize = 0;
        while i < len
            invariant
                i <= len,
                items@.len() == i,
                old(fli)@.at(ctx.place()),
                trail == old(fli)@.trail,
                grows(old(fli)@, fli@),
                fli@.verdict is Grant,
                cursor.live(fli@),
                tail_after(trail, t, i as nat) == Some(fli@.refs[cursor.raw as int]),
                has_shape(trail, t, ListShape::Proper { len }),
                forall|k: int|
                    0 <= k < i ==> (#[trigger] items@[k]).live(fli@) && Some(
                        fli@.refs[items@[k].raw as int],
                    ) == element_at(trail, t, k as nat),
            decreases len - i,
        {
            proof {
                crate::list::spine_goes_on(trail, t, i as nat, len as nat);
            }
            match cursor.get_list(ctx, fli) {
                Err(error) => {
                    return Err(error);
                },
                Ok((head, tail)) => {
                    items.push(head);
                    cursor = tail;
                },
            }
            i = i + 1;
        }
        Ok(items)
    }

    /// Allocates a fresh reference from `ctx` pointing at the same term.
    pub fn copy_term_ref<'a, C: FliContext>(&self, ctx: &'a C, fli: &mut Fli) -> (r: Result<
        Term<'a>,
        TermError,
    >)
        requires
            self.live(old(fli)@),
            old(fli)@.at(ctx.place()),
            !(old(fli)@.verdict is Refuse),
        ensures
            old(fli)@.verdict is Raise ==> raised(old(fli)@, final(fli)@, r),
            old(fli)@.verdict is Grant ==> (r matches Ok(t) && t.raw() == old(fli)@.refs.len()
                && t.gen() == old(fli)@.gen && final(fli)@ == old(fli)@.with_new_ref(
                old(fli)@.refs[self.raw() as int],
            )),
    {
        match check_put(fli) {
            Err(error) => Err(error),
            Ok(()) => {
                let data: TermData = fli.held(self.raw).copy();
                let gen: u64 = ctx.activation().gen;
                let raw: usize = fli.push_ref(data);
                Ok(Term { raw, gen, scope: PhantomData })
            },
        }
    }

    /// Applies what the engine's unification of the two terms did: the
    /// bindings it made, and whether it succeeded. `Ok(false)` is clean
    /// non-unification; bindings made by a partially successful unification
    /// are only undone by the enclosing frame or query.
    pub fn unify(&self, fli: &mut Fli, other: Term<'_>, outcome: Unification) -> (r: Result<
        bool,
        TermError,
    >)
        requires
            self.live(old(fli)@),
            other.live(old(fli)@),
        ensures
            final(fli)@ == old(fli)@.answered().with_bindings(bindings_view(outcome.bindings@)),
            match old(fli)@.verdict {
                Verdict::Raise(e) => r == Err::<bool, TermError>(TermError::Exception(e)),
                Verdict::Refuse => r == Ok::<bool, TermError>(false),
                Verdict::Grant => r == Ok::<bool, TermError>(outcome.unified),
            },
    {
        bind_all(fli, outcome.bindings);
        match fli.take_verdict() {
            Verdict::Raise(exception) => Err(TermError::Exception(exception)),
            Verdict::Refuse => Ok(false),
            Verdict::Grant => Ok(outcome.unified),
        }
    }

    /// The raw term reference.
    pub fn as_raw(&self) -> (r: usize)
        ensures
            r == self.raw(),
    {
        self.raw
    }
}

/// What the engine reports of a unification.
pub struct Unification {
    /// Whether the terms unified.
    pub unified: bool,
    /// The bindings that were made, in order.
    pub bindings: Vec<(usize, TermData)>,
}

/// Makes bindings, in order. A variable that is bound already keeps its
/// binding, and one is bound to what the given term stands for.
pub fn bind_all(fli: &mut Fli, bindings: Vec<(usize, TermData)>)
    ensures
        final(fli)@ == old(fli)@.with_bindings(bindings_view(bindings@)),
{
    let ghost view = bindings_view(bindings@);
    let mut i: usize = 0;
    assert(view.take(0) =~= Seq::empty());
    while i < bindings.len()
        invariant
            i <= bindings@.len(),
            view == bindings_view(bindings@),
            fli@ == old(fli)@.with_bindings(view.take(i as int)),
        decreases bindings@.len() - i,
    {
        let id: usize = bindings[i].0;
        proof {
            assert(view.take(i + 1).drop_last() =~= view.take(i as int));
        }
        if !fli.is_bound(id) {
            let value: TermData = fli.resolved(&bindings[i].1).0.copy();
            let itself: bool = match &value {
                TermData::Var(other) => *other == id,
                _ => false,
            };
            if !itself {
                fli.bind(id, value);
            }
        }
        i = i + 1;
    }
    assert(view.take(i as int) =~= view);
}

/// Binds more variables to terms as they stand; one that is bound already keeps
/// its binding.
pub(crate) fn bind_recorded(fli: &mut Fli, bindings: Vec<(usize, TermData)>)
    ensures
        final(fli)@ == old(fli)@.with_recorded(bindings_view(bindings@)),
{
    let ghost view = bindings_view(bindings@);
    let mut i: usize = 0;
    assert(view.take(0) =~= Seq::empty());
    while i < bindings.len()
        invariant
            i <= bindings@.len(),
            view == bindings_view(bindings@),
            fli@ == old(fli)@.with_recorded(view.take(i as int)),
        decreases bindings@.len() - i,
    {
        let id: usize = bindings[i].0;
        proof {
            assert(view.take(i + 1).drop_last() =~= view.take(i as int));
        }
        if !fli.is_bound(id) {
            fli.bind(id, bindings[i].1.copy());
        }
        i = i + 1;
    }
    assert(view.take(i as int) =~= view);
}

} // verus!
