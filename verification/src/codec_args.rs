//! Typed predicate arguments.

use std::marker::PhantomData;

use vstd::prelude::*;

use crate::args::{arg_stopped, Argument, ArgumentError, ArgumentFault};
use crate::codec::round_trip::RoundTrip;
use crate::codec::{CodecFault, FromTerm, ToTerm};
use crate::data::Tree;
use crate::fli::{Fli, State};
use crate::term::{grows, FliContext, Term};

verus! {

/// An input that is read after the call as the same type.
pub struct Input<T> {
    value: T,
}

/// An input that is read after the call as another type.
pub struct InputAs<I, O> {
    value: I,
    output: PhantomData<O>,
}

/// A fresh unbound argument that is read as `T` after a successful call.
pub struct Output<T> {
    output: PhantomData<T>,
}

/// An existing [`Term`] passed through and read as `T` after the call.
pub struct TermArg<'f, T> {
    term: Term<'f>,
    value: PhantomData<T>,
}

impl<T> Input<T> {
    pub closed spec fn given(&self) -> T {
        self.value
    }
}

impl<I, O> InputAs<I, O> {
    pub closed spec fn given(&self) -> I {
        self.value
    }
}

impl<'f, T> TermArg<'f, T> {
    pub closed spec fn passed(&self) -> Term<'f> {
        self.term
    }
}

/// Marks `value` as an input and reads its final binding as the same type.
pub fn input<T>(value: T) -> (r: Input<T>)
    ensures
        r.given() == value,
{
    Input { value }
}

/// Marks `value` as an input and reads its final binding as `O`.
pub fn input_as<O, I>(value: I) -> (r: InputAs<I, O>)
    ensures
        r.given() == value,
{
    InputAs { value, output: PhantomData }
}

/// A fresh unbound argument, read after the call as `T`.
pub fn output<T>() -> (r: Output<T>)
    ensures
        r == Output::<T>::unbound(),
{
    Output { output: PhantomData }
}

impl<T> Output<T> {
    /// The only value of its type: an output says nothing of what the argument
    /// is before the call.
    pub closed spec fn unbound() -> Output<T> {
        Output { output: PhantomData }
    }
}

impl<'f> Term<'f> {
    /// Passes this term as an argument that is read as `T` after the call.
    pub fn as_arg<T>(&self) -> (r: TermArg<'f, T>)
        ensures
            r.passed() == *self,
    {
        TermArg { term: *self, value: PhantomData }
    }
}

/// The fault of a conversion as that of an argument.
pub open spec fn codec_fault(fault: Option<CodecFault>) -> Option<ArgumentFault> {
    match fault {
        Some(f) => Some(ArgumentFault::Codec(f)),
        None => None,
    }
}

/// What an encoded value is as an argument.
pub open spec fn codec_seed(encoded: Result<Tree, CodecFault>) -> Result<
    Option<Tree>,
    ArgumentFault,
> {
    match encoded {
        Ok(t) => Ok(Some(t)),
        Err(fault) => Err(ArgumentFault::Codec(fault)),
    }
}

/// Reads an argument.
fn decode_value<Ctx: FliContext, T: FromTerm>(ctx: &Ctx, fli: &mut Fli, term: Term<'_>) -> (r:
    Result<T, ArgumentError>)
    requires
        old(fli)@.at(ctx.place()),
        term.live(old(fli)@),
        !(old(fli)@.verdict is Refuse),
    ensures
        grows(old(fli)@, final(fli)@),
        !(final(fli)@.verdict is Refuse),
        old(fli)@.verdict is Raise ==> match r {
            Ok(v) => final(fli)@.verdict == old(fli)@.verdict && T::reads(
                old(fli)@.trail,
                old(fli)@.refs[term.raw() as int],
                v,
            ) && T::read_fault(old(fli)@.trail, old(fli)@.refs[term.raw() as int]) is None,
            Err(e) => arg_stopped(
                old(fli)@,
                e@,
                codec_fault(T::read_fault(old(fli)@.trail, old(fli)@.refs[term.raw() as int])),
            ),
        },
        old(fli)@.verdict is Grant ==> final(fli)@.verdict is Grant && match codec_fault(
            T::read_fault(old(fli)@.trail, old(fli)@.refs[term.raw() as int]),
        ) {
            None => r matches Ok(v) && T::reads(
                old(fli)@.trail,
                old(fli)@.refs[term.raw() as int],
                v,
            ),
            Some(fault) => r matches Err(e) && e@ == fault,
        },
{
    match T::from_term(ctx, fli, term) {
        Ok(value) => Ok(value),
        Err(error) => Err(ArgumentError::Codec(error)),
    }
}

impl<T: ToTerm + FromTerm> Argument for Input<T> {
    type Value = T;

    open spec fn ready(&self, s: State, limit: nat) -> bool {
        true
    }

    open spec fn seeded(&self, s: State) -> Result<Option<Tree>, ArgumentFault> {
        codec_seed(self.given().encoded())
    }

    open spec fn decodes(trail: Seq<(usize, Tree)>, t: Tree, value: T) -> bool {
        T::reads(trail, t, value)
    }

    open spec fn decode_fault(trail: Seq<(usize, Tree)>, t: Tree) -> Option<ArgumentFault> {
        codec_fault(T::read_fault(trail, t))
    }

    proof fn seeded_outside(&self, a: State, b: State, limit: nat) {
    }

    proof fn ready_further(&self, s: State, limit: nat, further: nat) {
    }

    fn seed<Ctx: FliContext>(self, ctx: &Ctx, fli: &mut Fli, term: Term<'_>) -> (r: Result<
        (),
        ArgumentError,
    >) {
        match self.value.to_term(ctx, fli, term) {
            Ok(()) => Ok(()),
            Err(error) => Err(ArgumentError::Codec(error)),
        }
    }

    fn decode<Ctx: FliContext>(ctx: &Ctx, fli: &mut Fli, term: Term<'_>) -> (r: Result<
        T,
        ArgumentError,
    >) {
        decode_value(ctx, fli, term)
    }
}

impl<I: ToTerm, O: FromTerm> Argument for InputAs<I, O> {
    type Value = O;

    open spec fn ready(&self, s: State, limit: nat) -> bool {
        true
    }

    open spec fn seeded(&self, s: State) -> Result<Option<Tree>, ArgumentFault> {
        codec_seed(self.given().encoded())
    }

    open spec fn decodes(trail: Seq<(usize, Tree)>, t: Tree, value: O) -> bool {
        O::reads(trail, t, value)
    }

    open spec fn decode_fault(trail: Seq<(usize, Tree)>, t: Tree) -> Option<ArgumentFault> {
        codec_fault(O::read_fault(trail, t))
    }

    proof fn seeded_outside(&self, a: State, b: State, limit: nat) {
    }

    proof fn ready_further(&self, s: State, limit: nat, further: nat) {
    }

    fn seed<Ctx: FliContext>(self, ctx: &Ctx, fli: &mut Fli, term: Term<'_>) -> (r: Result<
        (),
        ArgumentError,
    >) {
        match self.value.to_term(ctx, fli, term) {
            Ok(()) => Ok(()),
            Err(error) => Err(ArgumentError::Codec(error)),
        }
    }

    fn decode<Ctx: FliContext>(ctx: &Ctx, fli: &mut Fli, term: Term<'_>) -> (r: Result<
        O,
        ArgumentError,
    >) {
        decode_value(ctx, fli, term)
    }
}

impl<T: FromTerm> Argument for Output<T> {
    type Value = T;

    open spec fn ready(&self, s: State, limit: nat) -> bool {
        true
    }

    open spec fn seeded(&self, s: State) -> Result<Option<Tree>, ArgumentFault> {
        Ok(None)
    }

    open spec fn decodes(trail: Seq<(usize, Tree)>, t: Tree, value: T) -> bool {
        T::reads(trail, t, value)
    }

    open spec fn decode_fault(trail: Seq<(usize, Tree)>, t: Tree) -> Option<ArgumentFault> {
        codec_fault(T::read_fault(trail, t))
    }

    proof fn seeded_outside(&self, a: State, b: State, limit: nat) {
    }

    proof fn ready_further(&self, s: State, limit: nat, further: nat) {
    }

    fn seed<Ctx: FliContext>(self, ctx: &Ctx, fli: &mut Fli, term: Term<'_>) -> (r: Result<
        (),
        ArgumentError,
    >) {
        Ok(())
    }

    fn decode<Ctx: FliContext>(ctx: &Ctx, fli: &mut Fli, term: Term<'_>) -> (r: Result<
        T,
        ArgumentError,
    >) {
        decode_value(ctx, fli, term)
    }
}

impl<'f, T: FromTerm> Argument for TermArg<'f, T> {
    type Value = T;

    open spec fn ready(&self, s: State, limit: nat) -> bool {
        self.passed().live(s) && self.passed().raw() < limit
    }

    open spec fn seeded(&self, s: State) -> Result<Option<Tree>, ArgumentFault> {
        Ok(Some(s.refs[self.passed().raw() as int]))
    }

    open spec fn decodes(trail: Seq<(usize, Tree)>, t: Tree, value: T) -> bool {
        T::reads(trail, t, value)
    }

    open spec fn decode_fault(trail: Seq<(usize, Tree)>, t: Tree) -> Option<ArgumentFault> {
        codec_fault(T::read_fault(trail, t))
    }

    proof fn seeded_outside(&self, a: State, b: State, limit: nat) {
    }

    proof fn ready_further(&self, s: State, limit: nat, further: nat) {
    }

    fn seed<Ctx: FliContext>(self, ctx: &Ctx, fli: &mut Fli, term: Term<'_>) -> (r: Result<
        (),
        ArgumentError,
    >) {
        match term.put_term(fli, self.term) {
            Ok(()) => Ok(()),
            Err(error) => Err(ArgumentError::Term(error)),
        }
    }

    fn decode<Ctx: FliContext>(ctx: &Ctx, fli: &mut Fli, term: Term<'_>) -> (r: Result<
        T,
        ArgumentError,
    >) {
        decode_value(ctx, fli, term)
    }
}

/// An input whose place a call left as it was is read back after the call.
pub proof fn input_reads_back<T: RoundTrip>(
    argument: Input<T>,
    s: State,
    trail: Seq<(usize, Tree)>,
    t: Tree,
    value: T,
)
    requires
        argument.seeded(s) == Ok::<Option<Tree>, ArgumentFault>(Some(t)),
    ensures
        Input::<T>::decode_fault(trail, t) is None,
        Input::<T>::decodes(trail, t, value) ==> argument.given().same(&value),
{
    argument.given().reads_back(trail, t, value);
}

} // verus!
