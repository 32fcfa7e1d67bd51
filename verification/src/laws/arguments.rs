//! Laws of call arguments: what is written into the block before a call, and
//! what is read out of it afterwards.

use vstd::prelude::*;

use crate::args::{arg_stopped, filled, ArgChain, ArgsSpec, Argument, ArgumentFault};
use crate::codec::{CodecFault, FromTerm, ToTerm};
use crate::codec_args::{codec_fault, codec_seed, Input, InputAs, Output, TermArg};
use crate::data::Tree;
use crate::exception::{PrologException, Verdict};
use crate::fli::State;
use crate::term::{Term, TermError};

verus! {

/// An input is written as the term of its value and read as the same type; its
/// faults are those of the conversion.
pub proof fn inputs_are_written_and_read<T: ToTerm + FromTerm>(
    arg: Input<T>,
    s: State,
    trail: Seq<(usize, Tree)>,
    t: Tree,
    value: T,
    fault: CodecFault,
)
    ensures
        arg.given().encoded() == Ok::<Tree, CodecFault>(t) ==> arg.seeded(s) == Ok::<
            Option<Tree>,
            ArgumentFault,
        >(Some(t)),
        arg.given().encoded() == Err::<Tree, CodecFault>(fault) ==> arg.seeded(s) == Err::<
            Option<Tree>,
            ArgumentFault,
        >(ArgumentFault::Codec(fault)),
        <Input<T> as Argument>::decodes(trail, t, value) <==> T::reads(trail, t, value),
        T::read_fault(trail, t) is None <==> <Input<T> as Argument>::decode_fault(trail, t) is None,
        T::read_fault(trail, t) == Some(fault) ==> <Input<T> as Argument>::decode_fault(trail, t)
            == Some(ArgumentFault::Codec(fault)),
{
}

/// An input of one type can be read as another.
pub proof fn inputs_are_read_as_other_types<I: ToTerm, O: FromTerm>(
    arg: InputAs<I, O>,
    s: State,
    trail: Seq<(usize, Tree)>,
    t: Tree,
    value: O,
    fault: CodecFault,
)
    ensures
        arg.given().encoded() == Ok::<Tree, CodecFault>(t) ==> arg.seeded(s) == Ok::<
            Option<Tree>,
            ArgumentFault,
        >(Some(t)),
        arg.given().encoded() == Err::<Tree, CodecFault>(fault) ==> arg.seeded(s) == Err::<
            Option<Tree>,
            ArgumentFault,
        >(ArgumentFault::Codec(fault)),
        <InputAs<I, O> as Argument>::decodes(trail, t, value) <==> O::reads(trail, t, value),
        O::read_fault(trail, t) is None <==> <InputAs<I, O> as Argument>::decode_fault(trail, t)
            is None,
        O::read_fault(trail, t) == Some(fault) ==> <InputAs<I, O> as Argument>::decode_fault(
            trail,
            t,
        ) == Some(ArgumentFault::Codec(fault)),
{
}

/// Nothing is written for an output, and what stands there after the call is
/// read.
pub proof fn outputs_are_only_read<T: FromTerm>(
    arg: Output<T>,
    s: State,
    trail: Seq<(usize, Tree)>,
    t: Tree,
    value: T,
    fault: CodecFault,
)
    ensures
        arg.seeded(s) == Ok::<Option<Tree>, ArgumentFault>(None),
        <Output<T> as Argument>::decodes(trail, t, value) <==> T::reads(trail, t, value),
        T::read_fault(trail, t) is None <==> <Output<T> as Argument>::decode_fault(trail, t)
            is None,
        T::read_fault(trail, t) == Some(fault) ==> <Output<T> as Argument>::decode_fault(trail, t)
            == Some(ArgumentFault::Codec(fault)),
{
}

/// A term is passed as what its reference holds; it is read only if a type was
/// given for it.
pub proof fn terms_are_passed_through<T: FromTerm>(
    term: Term,
    arg: TermArg<T>,
    s: State,
    trail: Seq<(usize, Tree)>,
    t: Tree,
    value: T,
    fault: CodecFault,
)
    ensures
        term.seeded(s) == Ok::<Option<Tree>, ArgumentFault>(Some(s.refs[term.raw() as int])),
        arg.seeded(s) == Ok::<Option<Tree>, ArgumentFault>(
            Some(s.refs[arg.passed().raw() as int]),
        ),
        <Term as Argument>::decode_fault(trail, t) is None,
        <TermArg<T> as Argument>::decodes(trail, t, value) <==> T::reads(trail, t, value),
        T::read_fault(trail, t) is None <==> <TermArg<T> as Argument>::decode_fault(trail, t)
            is None,
        T::read_fault(trail, t) == Some(fault) ==> <TermArg<T> as Argument>::decode_fault(trail, t)
            == Some(ArgumentFault::Codec(fault)),
{
}

/// The faults of conversions are told as such.
pub proof fn conversion_faults_are_told(t: Tree, fault: CodecFault)
    ensures
        codec_fault(None) is None,
        codec_fault(Some(fault)) == Some(ArgumentFault::Codec(fault)),
        codec_seed(Ok(t)) == Ok::<Option<Tree>, ArgumentFault>(Some(t)),
        codec_seed(Err(fault)) == Err::<Option<Tree>, ArgumentFault>(ArgumentFault::Codec(fault)),
{
}

/// A place of the block holds what was written into it, and otherwise what it
/// held.
pub proof fn blocks_hold_what_was_written(
    before: Seq<Tree>,
    seeds: Seq<Option<Tree>>,
    i: int,
    t: Tree,
)
    requires
        0 <= i < seeds.len(),
    ensures
        filled(before, seeds).len() == seeds.len(),
        seeds[i] == Some(t) ==> filled(before, seeds)[i] == t,
        seeds[i] is None ==> filled(before, seeds)[i] == before[i],
{
}

/// While an exception is pending the fault of an argument is that exception, or
/// its own.
pub proof fn argument_faults_are_the_exception_or_their_own(
    s: State,
    fault: ArgumentFault,
    e: PrologException,
)
    requires
        s.verdict == Verdict::Raise(e),
        arg_stopped(s, fault, None),
    ensures
        fault == ArgumentFault::Term(TermError::Exception(e)) || fault == ArgumentFault::Codec(
            CodecFault::Term(TermError::Exception(e)),
        ),
{
}

/// Arguments are written and read one after another, each into and out of its
/// own place; the first that fails decides which error comes.
pub proof fn arguments_are_taken_in_turn<H: Argument, R: ArgChain>(
    first: H,
    rest: R,
    s: State,
    t: Option<Tree>,
    ts: Seq<Option<Tree>>,
    trail: Seq<(usize, Tree)>,
    u: Tree,
    us: Seq<Tree>,
    values: (H::Value, R::Values),
)
    ensures
        ().all_seeded(s) == Ok::<Seq<Option<Tree>>, ArgumentFault>(Seq::empty()),
        first.seeded(s) == Ok::<Option<Tree>, ArgumentFault>(t) && rest.all_seeded(s) == Ok::<
            Seq<Option<Tree>>,
            ArgumentFault,
        >(ts) ==> (first, rest).all_seeded(s) == Ok::<Seq<Option<Tree>>, ArgumentFault>(
            seq![t] + ts,
        ),
        first.seeded(s) matches Err(fault) ==> (first, rest).all_seeded(s) == Err::<
            Seq<Option<Tree>>,
            ArgumentFault,
        >(fault),
        first.seeded(s) is Ok ==> (rest.all_seeded(s) matches Err(fault) ==> (
        first,
        rest,
        ).all_seeded(s) == Err::<Seq<Option<Tree>>, ArgumentFault>(fault)),
        <() as ArgChain>::all_fault(trail, us) is None,
        H::decode_fault(trail, u) matches Some(fault) ==> <(H, R) as ArgChain>::all_fault(
            trail,
            seq![u] + us,
        ) == Some(fault),
        H::decode_fault(trail, u) is None ==> <(H, R) as ArgChain>::all_fault(trail, seq![u] + us)
            == R::all_fault(trail, us),
        <(H, R) as ArgChain>::all_decode(trail, seq![u] + us, values) <==> H::decodes(
            trail,
            u,
            values.0,
        ) && R::all_decode(trail, us, values.1),
        <(H, R) as ArgChain>::width() == R::width() + 1,
        <() as ArgChain>::width() == 0,
{
    assert((seq![u] + us).drop_first() =~= us);
    assert((seq![u] + us)[0] == u);
}

/// No arguments take no places.
pub proof fn no_arguments(s: State, trail: Seq<(usize, Tree)>, ts: Seq<Tree>)
    ensures
        <() as ArgsSpec>::count() == 0,
        ArgsSpec::seeded(&(), s) == Ok::<Seq<Option<Tree>>, ArgumentFault>(Seq::empty()),
        <() as ArgsSpec>::decode_fault(trail, ts) is None,
{
}


/// One argument takes one place.
pub proof fn arguments_of_one<A: Argument>(
    args: (A,),
    s: State,
    seeds: Seq<Option<Tree>>,
    trail: Seq<(usize, Tree)>,
    ts: Seq<Tree>,
    values: (A::Value,),
)
    requires
        seeds.len() == 1,
        ts.len() == 1,
    ensures
        <(A,) as ArgsSpec>::count() == 1,
        args.0.seeded(s) == Ok::<Option<Tree>, ArgumentFault>(seeds[0]) ==> ArgsSpec::seeded(&args, s) == Ok::<Seq<Option<Tree>>, ArgumentFault>(seeds),
        ArgsSpec::seeded(&args, s) is Ok <==> args.0.seeded(s) is Ok,
        <(A,) as ArgsSpec>::decodes(trail, ts, values) <==> A::decodes(trail, ts[0], values.0),
        <(A,) as ArgsSpec>::decode_fault(trail, ts) is None <==> A::decode_fault(trail, ts[0]) is None,
        A::decode_fault(trail, ts[0]) matches Some(fault) ==> <(A,) as ArgsSpec>::decode_fault(trail, ts) == Some(fault),
{
    let d1 = ts.skip(1);
    assert(ts.drop_first() =~= d1 && ts[0] == ts[0]);
    assert((args.0, ()).all_seeded(s) is Ok <==> args.0.seeded(s) is Ok);
    if args.0.seeded(s) == Ok::<Option<Tree>, ArgumentFault>(seeds[0]) {
        assert(seeds.skip(1) =~= Seq::empty());
        assert(seq![seeds[0]] + seeds.skip(1) =~= seeds.skip(0));
        assert((args.0, ()).all_seeded(s) == Ok::<Seq<Option<Tree>>, ArgumentFault>(seeds.skip(0)));
        assert(seeds.skip(0) =~= seeds);
    }
}

/// Two arguments take two places in their order.
pub proof fn arguments_of_two<A: Argument, B: Argument>(
    args: (A, B),
    s: State,
    seeds: Seq<Option<Tree>>,
    trail: Seq<(usize, Tree)>,
    ts: Seq<Tree>,
    values: (A::Value, B::Value),
)
    requires
        seeds.len() == 2,
        ts.len() == 2,
    ensures
        <(A, B) as ArgsSpec>::count() == 2,
        args.0.seeded(s) == Ok::<Option<Tree>, ArgumentFault>(seeds[0]) && args.1.seeded(s) == Ok::<Option<Tree>, ArgumentFault>(seeds[1]) ==> ArgsSpec::seeded(&args, s) == Ok::<Seq<Option<Tree>>, ArgumentFault>(seeds),
        ArgsSpec::seeded(&args, s) is Ok <==> args.0.seeded(s) is Ok && args.1.seeded(s) is Ok,
        <(A, B) as ArgsSpec>::decodes(trail, ts, values) <==> A::decodes(trail, ts[0], values.0) && B::decodes(trail, ts[1], values.1),
        <(A, B) as ArgsSpec>::decode_fault(trail, ts) is None <==> A::decode_fault(trail, ts[0]) is None && B::decode_fault(trail, ts[1]) is None,
        A::decode_fault(trail, ts[0]) matches Some(fault) ==> <(A, B) as ArgsSpec>::decode_fault(trail, ts) == Some(fault),
{
    let d1 = ts.skip(1);
    assert(ts.drop_first() =~= d1 && ts[0] == ts[0]);
    let d2 = ts.skip(2);
    assert(d1.drop_first() =~= d2 && d1[0] == ts[1]);
    assert((args.1, ()).all_seeded(s) is Ok <==> args.1.seeded(s) is Ok);
    assert((args.0, (args.1, ())).all_seeded(s) is Ok <==> args.0.seeded(s) is Ok && args.1.seeded(s) is Ok);
    if args.0.seeded(s) == Ok::<Option<Tree>, ArgumentFault>(seeds[0]) && args.1.seeded(s) == Ok::<Option<Tree>, ArgumentFault>(seeds[1]) {
        assert(seeds.skip(2) =~= Seq::empty());
        assert(seq![seeds[1]] + seeds.skip(2) =~= seeds.skip(1));
        assert((args.1, ()).all_seeded(s) == Ok::<Seq<Option<Tree>>, ArgumentFault>(seeds.skip(1)));
        assert(seq![seeds[0]] + seeds.skip(1) =~= seeds.skip(0));
        assert((args.0, (args.1, ())).all_seeded(s) == Ok::<Seq<Option<Tree>>, ArgumentFault>(seeds.skip(0)));
        assert(seeds.skip(0) =~= seeds);
    }
}

/// Three arguments take three places in their order.
pub proof fn arguments_of_three<A: Argument, B: Argument, C: Argument>(
    args: (A, B, C),
    s: State,
    seeds: Seq<Option<Tree>>,
    trail: Seq<(usize, Tree)>,
    ts: Seq<Tree>,
    values: (A::Value, B::Value, C::Value),
)
    requires
        seeds.len() == 3,
        ts.len() == 3,
    ensures
        <(A, B, C) as ArgsSpec>::count() == 3,
        args.0.seeded(s) == Ok::<Option<Tree>, ArgumentFault>(seeds[0]) && args.1.seeded(s) == Ok::<Option<Tree>, ArgumentFault>(seeds[1]) && args.2.seeded(s) == Ok::<Option<Tree>, ArgumentFault>(seeds[2]) ==> ArgsSpec::seeded(&args, s) == Ok::<Seq<Option<Tree>>, ArgumentFault>(seeds),
        ArgsSpec::seeded(&args, s) is Ok <==> args.0.seeded(s) is Ok && args.1.seeded(s) is Ok && args.2.seeded(s) is Ok,
        <(A, B, C) as ArgsSpec>::decodes(trail, ts, values) <==> A::decodes(trail, ts[0], values.0) && B::decodes(trail, ts[1], values.1) && C::decodes(trail, ts[2], values.2),
        <(A, B, C) as ArgsSpec>::decode_fault(trail, ts) is None <==> A::decode_fault(trail, ts[0]) is None && B::decode_fault(trail, ts[1]) is None && C::decode_fault(trail, ts[2]) is None,
        A::decode_fault(trail, ts[0]) matches Some(fault) ==> <(A, B, C) as ArgsSpec>::decode_fault(trail, ts) == Some(fault),
{
    let d1 = ts.skip(1);
    assert(ts.drop_first() =~= d1 && ts[0] == ts[0]);
    let d2 = ts.skip(2);
    assert(d1.drop_first() =~= d2 && d1[0] == ts[1]);
    let d3 = ts.skip(3);
    assert(d2.drop_first() =~= d3 && d2[0] == ts[2]);
    assert((args.2, ()).all_seeded(s) is Ok <==> args.2.seeded(s) is Ok);
    assert((args.1, (args.2, ())).all_seeded(s) is Ok <==> args.1.seeded(s) is Ok && args.2.seeded(s) is Ok);
    assert((args.0, (args.1, (args.2, ()))).all_seeded(s) is Ok <==> args.0.seeded(s) is Ok && args.1.seeded(s) is Ok && args.2.seeded(s) is Ok);
    if args.0.seeded(s) == Ok::<Option<Tree>, ArgumentFault>(seeds[0]) && args.1.seeded(s) == Ok::<Option<Tree>, ArgumentFault>(seeds[1]) && args.2.seeded(s) == Ok::<Option<Tree>, ArgumentFault>(seeds[2]) {
        assert(seeds.skip(3) =~= Seq::empty());
        assert(seq![seeds[2]] + seeds.skip(3) =~= seeds.skip(2));
        assert((args.2, ()).all_seeded(s) == Ok::<Seq<Option<Tree>>, ArgumentFault>(seeds.skip(2)));
        assert(seq![seeds[1]] + seeds.skip(2) =~= seeds.skip(1));
        assert((args.1, (args.2, ())).all_seeded(s) == Ok::<Seq<Option<Tree>>, ArgumentFault>(seeds.skip(1)));
        assert(seq![seeds[0]] + seeds.skip(1) =~= seeds.skip(0));
        assert((args.0, (args.1, (args.2, ()))).all_seeded(s) == Ok::<Seq<Option<Tree>>, ArgumentFault>(seeds.skip(0)));
        assert(seeds.skip(0) =~= seeds);
    }
}

/// Four arguments take four places in their order.
pub proof fn arguments_of_four<A: Argument, B: Argument, C: Argument, D: Argument>(
    args: (A, B, C, D),
    s: State,
    seeds: Seq<Option<Tree>>,
    trail: Seq<(usize, Tree)>,
    ts: Seq<Tree>,
    values: (A::Value, B::Value, C::Value, D::Value),
)
    requires
        seeds.len() == 4,
        ts.len() == 4,
    ensures
        <(A, B, C, D) as ArgsSpec>::count() == 4,
        args.0.seeded(s) == Ok::<Option<Tree>, ArgumentFault>(seeds[0]) && args.1.seeded(s) == Ok::<Option<Tree>, ArgumentFault>(seeds[1]) && args.2.seeded(s) == Ok::<Option<Tree>, ArgumentFault>(seeds[2]) && args.3.seeded(s) == Ok::<Option<Tree>, ArgumentFault>(seeds[3]) ==> ArgsSpec::seeded(&args, s) == Ok::<Seq<Option<Tree>>, ArgumentFault>(seeds),
        ArgsSpec::seeded(&args, s) is Ok <==> args.0.seeded(s) is Ok && args.1.seeded(s) is Ok && args.2.seeded(s) is Ok && args.3.seeded(s) is Ok,
        <(A, B, C, D) as ArgsSpec>::decodes(trail, ts, values) <==> A::decodes(trail, ts[0], values.0) && B::decodes(trail, ts[1], values.1) && C::decodes(trail, ts[2], values.2) && D::decodes(trail, ts[3], values.3),
        <(A, B, C, D) as ArgsSpec>::decode_fault(trail, ts) is None <==> A::decode_fault(trail, ts[0]) is None && B::decode_fault(trail, ts[1]) is None && C::decode_fault(trail, ts[2]) is None && D::decode_fault(trail, ts[3]) is None,
        A::decode_fault(trail, ts[0]) matches Some(fault) ==> <(A, B, C, D) as ArgsSpec>::decode_fault(trail, ts) == Some(fault),
{
    let d1 = ts.skip(1);
    assert(ts.drop_first() =~= d1 && ts[0] == ts[0]);
    let d2 = ts.skip(2);
    assert(d1.drop_first() =~= d2 && d1[0] == ts[1]);
    let d3 = ts.skip(3);
    assert(d2.drop_first() =~= d3 && d2[0] == ts[2]);
    let d4 = ts.skip(4);
    assert(d3.drop_first() =~= d4 && d3[0] == ts[3]);
    assert((args.3, ()).all_seeded(s) is Ok <==> args.3.seeded(s) is Ok);
    assert((args.2, (args.3, ())).all_seeded(s) is Ok <==> args.2.seeded(s) is Ok && args.3.seeded(s) is Ok);
    assert((args.1, (args.2, (args.3, ()))).all_seeded(s) is Ok <==> args.1.seeded(s) is Ok && args.2.seeded(s) is Ok && args.3.seeded(s) is Ok);
    assert((args.0, (args.1, (args.2, (args.3, ())))).all_seeded(s) is Ok <==> args.0.seeded(s) is Ok && args.1.seeded(s) is Ok && args.2.seeded(s) is Ok && args.3.seeded(s) is Ok);
    if args.0.seeded(s) == Ok::<Option<Tree>, ArgumentFault>(seeds[0]) && args.1.seeded(s) == Ok::<Option<Tree>, ArgumentFault>(seeds[1]) && args.2.seeded(s) == Ok::<Option<Tree>, ArgumentFault>(seeds[2]) && args.3.seeded(s) == Ok::<Option<Tree>, ArgumentFault>(seeds[3]) {
        assert(seeds.skip(4) =~= Seq::empty());
        assert(seq![seeds[3]] + seeds.skip(4) =~= seeds.skip(3));
        assert((args.3, ()).all_seeded(s) == Ok::<Seq<Option<Tree>>, ArgumentFault>(seeds.skip(3)));
        assert(seq![seeds[2]] + seeds.skip(3) =~= seeds.skip(2));
        assert((args.2, (args.3, ())).all_seeded(s) == Ok::<Seq<Option<Tree>>, ArgumentFault>(seeds.skip(2)));
        assert(seq![seeds[1]] + seeds.skip(2) =~= seeds.skip(1));
        assert((args.1, (args.2, (args.3, ()))).all_seeded(s) == Ok::<Seq<Option<Tree>>, ArgumentFault>(seeds.skip(1)));
        assert(seq![seeds[0]] + seeds.skip(1) =~= seeds.skip(0));
        assert((args.0, (args.1, (args.2, (args.3, ())))).all_seeded(s) == Ok::<Seq<Option<Tree>>, ArgumentFault>(seeds.skip(0)));
        assert(seeds.skip(0) =~= seeds);
    }
}

/// Five arguments take five places in their order.
pub proof fn arguments_of_five<A: Argument, B: Argument, C: Argument, D: Argument, E: Argument>(
    args: (A, B, C, D, E),
    s: State,
    seeds: Seq<Option<Tree>>,
    trail: Seq<(usize, Tree)>,
    ts: Seq<Tree>,
    values: (A::Value, B::Value, C::Value, D::Value, E::Value),
)
    requires
        seeds.len() == 5,
        ts.len() == 5,
    ensures
        <(A, B, C, D, E) as ArgsSpec>::count() == 5,
        args.0.seeded(s) == Ok::<Option<Tree>, ArgumentFault>(seeds[0]) && args.1.seeded(s) == Ok::<Option<Tree>, ArgumentFault>(seeds[1]) && args.2.seeded(s) == Ok::<Option<Tree>, ArgumentFault>(seeds[2]) && args.3.seeded(s) == Ok::<Option<Tree>, ArgumentFault>(seeds[3]) && args.4.seeded(s) == Ok::<Option<Tree>, ArgumentFault>(seeds[4]) ==> ArgsSpec::seeded(&args, s) == Ok::<Seq<Option<Tree>>, ArgumentFault>(seeds),
        ArgsSpec::seeded(&args, s) is Ok <==> args.0.seeded(s) is Ok && args.1.seeded(s) is Ok && args.2.seeded(s) is Ok && args.3.seeded(s) is Ok && args.4.seeded(s) is Ok,
        <(A, B, C, D, E) as ArgsSpec>::decodes(trail, ts, values) <==> A::decodes(trail, ts[0], values.0) && B::decodes(trail, ts[1], values.1) && C::decodes(trail, ts[2], values.2) && D::decodes(trail, ts[3], values.3) && E::decodes(trail, ts[4], values.4),
        <(A, B, C, D, E) as ArgsSpec>::decode_fault(trail, ts) is None <==> A::decode_fault(trail, ts[0]) is None && B::decode_fault(trail, ts[1]) is None && C::decode_fault(trail, ts[2]) is None && D::decode_fault(trail, ts[3]) is None && E::decode_fault(trail, ts[4]) is None,
        A::decode_fault(trail, ts[0]) matches Some(fault) ==> <(A, B, C, D, E) as ArgsSpec>::decode_fault(trail, ts) == Some(fault),
{
    let d1 = ts.skip(1);
    assert(ts.drop_first() =~= d1 && ts[0] == ts[0]);
    let d2 = ts.skip(2);
    assert(d1.drop_first() =~= d2 && d1[0] == ts[1]);
    let d3 = ts.skip(3);
    assert(d2.drop_first() =~= d3 && d2[0] == ts[2]);
    let d4 = ts.skip(4);
    assert(d3.drop_first() =~= d4 && d3[0] == ts[3]);
    let d5 = ts.skip(5);
    assert(d4.drop_first() =~= d5 && d4[0] == ts[4]);
    assert((args.4, ()).all_seeded(s) is Ok <==> args.4.seeded(s) is Ok);
    assert((args.3, (args.4, ())).all_seeded(s) is Ok <==> args.3.seeded(s) is Ok && args.4.seeded(s) is Ok);
    assert((args.2, (args.3, (args.4, ()))).all_seeded(s) is Ok <==> args.2.seeded(s) is Ok && args.3.seeded(s) is Ok && args.4.seeded(s) is Ok);
    assert((args.1, (args.2, (args.3, (args.4, ())))).all_seeded(s) is Ok <==> args.1.seeded(s) is Ok && args.2.seeded(s) is Ok && args.3.seeded(s) is Ok && args.4.seeded(s) is Ok);
    assert((args.0, (args.1, (args.2, (args.3, (args.4, ()))))).all_seeded(s) is Ok <==> args.0.seeded(s) is Ok && args.1.seeded(s) is Ok && args.2.seeded(s) is Ok && args.3.seeded(s) is Ok && args.4.seeded(s) is Ok);
    if args.0.seeded(s) == Ok::<Option<Tree>, ArgumentFault>(seeds[0]) && args.1.seeded(s) == Ok::<Option<Tree>, ArgumentFault>(seeds[1]) && args.2.seeded(s) == Ok::<Option<Tree>, ArgumentFault>(seeds[2]) && args.3.seeded(s) == Ok::<Option<Tree>, ArgumentFault>(seeds[3]) && args.4.seeded(s) == Ok::<Option<Tree>, ArgumentFault>(seeds[4]) {
        assert(seeds.skip(5) =~= Seq::empty());
        assert(seq![seeds[4]] + seeds.skip(5) =~= seeds.skip(4));
        assert((args.4, ()).all_seeded(s) == Ok::<Seq<Option<Tree>>, ArgumentFault>(seeds.skip(4)));
        assert(seq![seeds[3]] + seeds.skip(4) =~= seeds.skip(3));
        assert((args.3, (args.4, ())).all_seeded(s) == Ok::<Seq<Option<Tree>>, ArgumentFault>(seeds.skip(3)));
        assert(seq![seeds[2]] + seeds.skip(3) =~= seeds.skip(2));
        assert((args.2, (args.3, (args.4, ()))).all_seeded(s) == Ok::<Seq<Option<Tree>>, ArgumentFault>(seeds.skip(2)));
        assert(seq![seeds[1]] + seeds.skip(2) =~= seeds.skip(1));
        assert((args.1, (args.2, (args.3, (args.4, ())))).all_seeded(s) == Ok::<Seq<Option<Tree>>, ArgumentFault>(seeds.skip(1)));
        assert(seq![seeds[0]] + seeds.skip(1) =~= seeds.skip(0));
        assert((args.0, (args.1, (args.2, (args.3, (args.4, ()))))).all_seeded(s) == Ok::<Seq<Option<Tree>>, ArgumentFault>(seeds.skip(0)));
        assert(seeds.skip(0) =~= seeds);
    }
}

/// Six arguments take six places in their order.
pub proof fn arguments_of_six<A: Argument, B: Argument, C: Argument, D: Argument, E: Argument, F: Argument>(
    args: (A, B, C, D, E, F),
    s: State,
    seeds: Seq<Option<Tree>>,
    trail: Seq<(usize, Tree)>,
    ts: Seq<Tree>,
    values: (A::Value, B::Value, C::Value, D::Value, E::Value, F::Value),
)
    requires
        seeds.len() == 6,
        ts.len() == 6,
    ensures
        <(A, B, C, D, E, F) as ArgsSpec>::count() == 6,
        args.0.seeded(s) == Ok::<Option<Tree>, ArgumentFault>(seeds[0]) && args.1.seeded(s) == Ok::<Option<Tree>, ArgumentFault>(seeds[1]) && args.2.seeded(s) == Ok::<Option<Tree>, ArgumentFault>(seeds[2]) && args.3.seeded(s) == Ok::<Option<Tree>, ArgumentFault>(seeds[3]) && args.4.seeded(s) == Ok::<Option<Tree>, ArgumentFault>(seeds[4]) && args.5.seeded(s) == Ok::<Option<Tree>, ArgumentFault>(seeds[5]) ==> ArgsSpec::seeded(&args, s) == Ok::<Seq<Option<Tree>>, ArgumentFault>(seeds),
        ArgsSpec::seeded(&args, s) is Ok <==> args.0.seeded(s) is Ok && args.1.seeded(s) is Ok && args.2.seeded(s) is Ok && args.3.seeded(s) is Ok && args.4.seeded(s) is Ok && args.5.seeded(s) is Ok,
        <(A, B, C, D, E, F) as ArgsSpec>::decodes(trail, ts, values) <==> A::decodes(trail, ts[0], values.0) && B::decodes(trail, ts[1], values.1) && C::decodes(trail, ts[2], values.2) && D::decodes(trail, ts[3], values.3) && E::decodes(trail, ts[4], values.4) && F::decodes(trail, ts[5], values.5),
        <(A, B, C, D, E, F) as ArgsSpec>::decode_fault(trail, ts) is None <==> A::decode_fault(trail, ts[0]) is None && B::decode_fault(trail, ts[1]) is None && C::decode_fault(trail, ts[2]) is None && D::decode_fault(trail, ts[3]) is None && E::decode_fault(trail, ts[4]) is None && F::decode_fault(trail, ts[5]) is None,
        A::decode_fault(trail, ts[0]) matches Some(fault) ==> <(A, B, C, D, E, F) as ArgsSpec>::decode_fault(trail, ts) == Some(fault),
{
    let d1 = ts.skip(1);
    assert(ts.drop_first() =~= d1 && ts[0] == ts[0]);
    let d2 = ts.skip(2);
    assert(d1.drop_first() =~= d2 && d1[0] == ts[1]);
    let d3 = ts.skip(3);
    assert(d2.drop_first() =~= d3 && d2[0] == ts[2]);
    let d4 = ts.skip(4);
    assert(d3.drop_first() =~= d4 && d3[0] == ts[3]);
    let d5 = ts.skip(5);
    assert(d4.drop_first() =~= d5 && d4[0] == ts[4]);
    let d6 = ts.skip(6);
    assert(d5.drop_first() =~= d6 && d5[0] == ts[5]);
    assert((args.5, ()).all_seeded(s) is Ok <==> args.5.seeded(s) is Ok);
    assert((args.4, (args.5, ())).all_seeded(s) is Ok <==> args.4.seeded(s) is Ok && args.5.seeded(s) is Ok);
    assert((args.3, (args.4, (args.5, ()))).all_seeded(s) is Ok <==> args.3.seeded(s) is Ok && args.4.seeded(s) is Ok && args.5.seeded(s) is Ok);
    assert((args.2, (args.3, (args.4, (args.5, ())))).all_seeded(s) is Ok <==> args.2.seeded(s) is Ok && args.3.seeded(s) is Ok && args.4.seeded(s) is Ok && args.5.seeded(s) is Ok);
    assert((args.1, (args.2, (args.3, (args.4, (args.5, ()))))).all_seeded(s) is Ok <==> args.1.seeded(s) is Ok && args.2.seeded(s) is Ok && args.3.seeded(s) is Ok && args.4.seeded(s) is Ok && args.5.seeded(s) is Ok);
    assert((args.0, (args.1, (args.2, (args.3, (args.4, (args.5, ())))))).all_seeded(s) is Ok <==> args.0.seeded(s) is Ok && args.1.seeded(s) is Ok && args.2.seeded(s) is Ok && args.3.seeded(s) is Ok && args.4.seeded(s) is Ok && args.5.seeded(s) is Ok);
    if args.0.seeded(s) == Ok::<Option<Tree>, ArgumentFault>(seeds[0]) && args.1.seeded(s) == Ok::<Option<Tree>, ArgumentFault>(seeds[1]) && args.2.seeded(s) == Ok::<Option<Tree>, ArgumentFault>(seeds[2]) && args.3.seeded(s) == Ok::<Option<Tree>, ArgumentFault>(seeds[3]) && args.4.seeded(s) == Ok::<Option<Tree>, ArgumentFault>(seeds[4]) && args.5.seeded(s) == Ok::<Option<Tree>, ArgumentFault>(seeds[5]) {
        assert(seeds.skip(6) =~= Seq::empty());
        assert(seq![seeds[5]] + seeds.skip(6) =~= seeds.skip(5));
        assert((args.5, ()).all_seeded(s) == Ok::<Seq<Option<Tree>>, ArgumentFault>(seeds.skip(5)));
        assert(seq![seeds[4]] + seeds.skip(5) =~= seeds.skip(4));
        assert((args.4, (args.5, ())).all_seeded(s) == Ok::<Seq<Option<Tree>>, ArgumentFault>(seeds.skip(4)));
        assert(seq![seeds[3]] + seeds.skip(4) =~= seeds.skip(3));
        assert((args.3, (args.4, (args.5, ()))).all_seeded(s) == Ok::<Seq<Option<Tree>>, ArgumentFault>(seeds.skip(3)));
        assert(seq![seeds[2]] + seeds.skip(3) =~= seeds.skip(2));
        assert((args.2, (args.3, (args.4, (args.5, ())))).all_seeded(s) == Ok::<Seq<Option<Tree>>, ArgumentFault>(seeds.skip(2)));
        assert(seq![seeds[1]] + seeds.skip(2) =~= seeds.skip(1));
        assert((args.1, (args.2, (args.3, (args.4, (args.5, ()))))).all_seeded(s) == Ok::<Seq<Option<Tree>>, ArgumentFault>(seeds.skip(1)));
        assert(seq![seeds[0]] + seeds.skip(1) =~= seeds.skip(0));
        assert((args.0, (args.1, (args.2, (args.3, (args.4, (args.5, ())))))).all_seeded(s) == Ok::<Seq<Option<Tree>>, ArgumentFault>(seeds.skip(0)));
        assert(seeds.skip(0) =~= seeds);
    }
}

/// Seven arguments take seven places in their order.
pub proof fn arguments_of_seven<A: Argument, B: Argument, C: Argument, D: Argument, E: Argument, F: Argument, G: Argument>(
    args: (A, B, C, D, E, F, G),
    s: State,
    seeds: Seq<Option<Tree>>,
    trail: Seq<(usize, Tree)>,
    ts: Seq<Tree>,
    values: (A::Value, B::Value, C::Value, D::Value, E::Value, F::Value, G::Value),
)
    requires
        seeds.len() == 7,
        ts.len() == 7,
    ensures
        <(A, B, C, D, E, F, G) as ArgsSpec>::count() == 7,
        args.0.seeded(s) == Ok::<Option<Tree>, ArgumentFault>(seeds[0]) && args.1.seeded(s) == Ok::<Option<Tree>, ArgumentFault>(seeds[1]) && args.2.seeded(s) == Ok::<Option<Tree>, ArgumentFault>(seeds[2]) && args.3.seeded(s) == Ok::<Option<Tree>, ArgumentFault>(seeds[3]) && args.4.seeded(s) == Ok::<Option<Tree>, ArgumentFault>(seeds[4]) && args.5.seeded(s) == Ok::<Option<Tree>, ArgumentFault>(seeds[5]) && args.6.seeded(s) == Ok::<Option<Tree>, ArgumentFault>(seeds[6]) ==> ArgsSpec::seeded(&args, s) == Ok::<Seq<Option<Tree>>, ArgumentFault>(seeds),
        ArgsSpec::seeded(&args, s) is Ok <==> args.0.seeded(s) is Ok && args.1.seeded(s) is Ok && args.2.seeded(s) is Ok && args.3.seeded(s) is Ok && args.4.seeded(s) is Ok && args.5.seeded(s) is Ok && args.6.seeded(s) is Ok,
        <(A, B, C, D, E, F, G) as ArgsSpec>::decodes(trail, ts, values) <==> A::decodes(trail, ts[0], values.0) && B::decodes(trail, ts[1], values.1) && C::decodes(trail, ts[2], values.2) && D::decodes(trail, ts[3], values.3) && E::decodes(trail, ts[4], values.4) && F::decodes(trail, ts[5], values.5) && G::decodes(trail, ts[6], values.6),
        <(A, B, C, D, E, F, G) as ArgsSpec>::decode_fault(trail, ts) is None <==> A::decode_fault(trail, ts[0]) is None && B::decode_fault(trail, ts[1]) is None && C::decode_fault(trail, ts[2]) is None && D::decode_fault(trail, ts[3]) is None && E::decode_fault(trail, ts[4]) is None && F::decode_fault(trail, ts[5]) is None && G::decode_fault(trail, ts[6]) is None,
        A::decode_fault(trail, ts[0]) matches Some(fault) ==> <(A, B, C, D, E, F, G) as ArgsSpec>::decode_fault(trail, ts) == Some(fault),
{
    let d1 = ts.skip(1);
    assert(ts.drop_first() =~= d1 && ts[0] == ts[0]);
    let d2 = ts.skip(2);
    assert(d1.drop_first() =~= d2 && d1[0] == ts[1]);
    let d3 = ts.skip(3);
    assert(d2.drop_first() =~= d3 && d2[0] == ts[2]);
    let d4 = ts.skip(4);
    assert(d3.drop_first() =~= d4 && d3[0] == ts[3]);
    let d5 = ts.skip(5);
    assert(d4.drop_first() =~= d5 && d4[0] == ts[4]);
    let d6 = ts.skip(6);
    assert(d5.drop_first() =~= d6 && d5[0] == ts[5]);
    let d7 = ts.skip(7);
    assert(d6.drop_first() =~= d7 && d6[0] == ts[6]);
    assert((args.6, ()).all_seeded(s) is Ok <==> args.6.seeded(s) is Ok);
    assert((args.5, (args.6, ())).all_seeded(s) is Ok <==> args.5.seeded(s) is Ok && args.6.seeded(s) is Ok);
    assert((args.4, (args.5, (args.6, ()))).all_seeded(s) is Ok <==> args.4.seeded(s) is Ok && args.5.seeded(s) is Ok && args.6.seeded(s) is Ok);
    assert((args.3, (args.4, (args.5, (args.6, ())))).all_seeded(s) is Ok <==> args.3.seeded(s) is Ok && args.4.seeded(s) is Ok && args.5.seeded(s) is Ok && args.6.seeded(s) is Ok);
    assert((args.2, (args.3, (args.4, (args.5, (args.6, ()))))).all_seeded(s) is Ok <==> args.2.seeded(s) is Ok && args.3.seeded(s) is Ok && args.4.seeded(s) is Ok && args.5.seeded(s) is Ok && args.6.seeded(s) is Ok);
    assert((args.1, (args.2, (args.3, (args.4, (args.5, (args.6, ())))))).all_seeded(s) is Ok <==> args.1.seeded(s) is Ok && args.2.seeded(s) is Ok && args.3.seeded(s) is Ok && args.4.seeded(s) is Ok && args.5.seeded(s) is Ok && args.6.seeded(s) is Ok);
    assert((args.0, (args.1, (args.2, (args.3, (args.4, (args.5, (args.6, ()))))))).all_seeded(s) is Ok <==> args.0.seeded(s) is Ok && args.1.seeded(s) is Ok && args.2.seeded(s) is Ok && args.3.seeded(s) is Ok && args.4.seeded(s) is Ok && args.5.seeded(s) is Ok && args.6.seeded(s) is Ok);
    if args.0.seeded(s) == Ok::<Option<Tree>, ArgumentFault>(seeds[0]) && args.1.seeded(s) == Ok::<Option<Tree>, ArgumentFault>(seeds[1]) && args.2.seeded(s) == Ok::<Option<Tree>, ArgumentFault>(seeds[2]) && args.3.seeded(s) == Ok::<Option<Tree>, ArgumentFault>(seeds[3]) && args.4.seeded(s) == Ok::<Option<Tree>, ArgumentFault>(seeds[4]) && args.5.seeded(s) == Ok::<Option<Tree>, ArgumentFault>(seeds[5]) && args.6.seeded(s) == Ok::<Option<Tree>, ArgumentFault>(seeds[6]) {
        assert(seeds.skip(7) =~= Seq::empty());
        assert(seq![seeds[6]] + seeds.skip(7) =~= seeds.skip(6));
        assert((args.6, ()).all_seeded(s) == Ok::<Seq<Option<Tree>>, ArgumentFault>(seeds.skip(6)));
        assert(seq![seeds[5]] + seeds.skip(6) =~= seeds.skip(5));
        assert((args.5, (args.6, ())).all_seeded(s) == Ok::<Seq<Option<Tree>>, ArgumentFault>(seeds.skip(5)));
        assert(seq![seeds[4]] + seeds.skip(5) =~= seeds.skip(4));
        assert((args.4, (args.5, (args.6, ()))).all_seeded(s) == Ok::<Seq<Option<Tree>>, ArgumentFault>(seeds.skip(4)));
        assert(seq![seeds[3]] + seeds.skip(4) =~= seeds.skip(3));
        assert((args.3, (args.4, (args.5, (args.6, ())))).all_seeded(s) == Ok::<Seq<Option<Tree>>, ArgumentFault>(seeds.skip(3)));
        assert(seq![seeds[2]] + seeds.skip(3) =~= seeds.skip(2));
        assert((args.2, (args.3, (args.4, (args.5, (args.6, ()))))).all_seeded(s) == Ok::<Seq<Option<Tree>>, ArgumentFault>(seeds.skip(2)));
        assert(seq![seeds[1]] + seeds.skip(2) =~= seeds.skip(1));
        assert((args.1, (args.2, (args.3, (args.4, (args.5, (args.6, ())))))).all_seeded(s) == Ok::<Seq<Option<Tree>>, ArgumentFault>(seeds.skip(1)));
        assert(seq![seeds[0]] + seeds.skip(1) =~= seeds.skip(0));
        assert((args.0, (args.1, (args.2, (args.3, (args.4, (args.5, (args.6, ()))))))).all_seeded(s) == Ok::<Seq<Option<Tree>>, ArgumentFault>(seeds.skip(0)));
        assert(seeds.skip(0) =~= seeds);
    }
}

/// Eight arguments take eight places in their order.
pub proof fn arguments_of_eight<A: Argument, B: Argument, C: Argument, D: Argument, E: Argument, F: Argument, G: Argument, H: Argument>(
    args: (A, B, C, D, E, F, G, H),
    s: State,
    seeds: Seq<Option<Tree>>,
    trail: Seq<(usize, Tree)>,
    ts: Seq<Tree>,
    values: (A::Value, B::Value, C::Value, D::Value, E::Value, F::Value, G::Value, H::Value),
)
    requires
        seeds.len() == 8,
        ts.len() == 8,
    ensures
        <(A, B, C, D, E, F, G, H) as ArgsSpec>::count() == 8,
        args.0.seeded(s) == Ok::<Option<Tree>, ArgumentFault>(seeds[0]) && args.1.seeded(s) == Ok::<Option<Tree>, ArgumentFault>(seeds[1]) && args.2.seeded(s) == Ok::<Option<Tree>, ArgumentFault>(seeds[2]) && args.3.seeded(s) == Ok::<Option<Tree>, ArgumentFault>(seeds[3]) && args.4.seeded(s) == Ok::<Option<Tree>, ArgumentFault>(seeds[4]) && args.5.seeded(s) == Ok::<Option<Tree>, ArgumentFault>(seeds[5]) && args.6.seeded(s) == Ok::<Option<Tree>, ArgumentFault>(seeds[6]) && args.7.seeded(s) == Ok::<Option<Tree>, ArgumentFault>(seeds[7]) ==> ArgsSpec::seeded(&args, s) == Ok::<Seq<Option<Tree>>, ArgumentFault>(seeds),
        ArgsSpec::seeded(&args, s) is Ok <==> args.0.seeded(s) is Ok && args.1.seeded(s) is Ok && args.2.seeded(s) is Ok && args.3.seeded(s) is Ok && args.4.seeded(s) is Ok && args.5.seeded(s) is Ok && args.6.seeded(s) is Ok && args.7.seeded(s) is Ok,
        <(A, B, C, D, E, F, G, H) as ArgsSpec>::decodes(trail, ts, values) <==> A::decodes(trail, ts[0], values.0) && B::decodes(trail, ts[1], values.1) && C::decodes(trail, ts[2], values.2) && D::decodes(trail, ts[3], values.3) && E::decodes(trail, ts[4], values.4) && F::decodes(trail, ts[5], values.5) && G::decodes(trail, ts[6], values.6) && H::decodes(trail, ts[7], values.7),
        <(A, B, C, D, E, F, G, H) as ArgsSpec>::decode_fault(trail, ts) is None <==> A::decode_fault(trail, ts[0]) is None && B::decode_fault(trail, ts[1]) is None && C::decode_fault(trail, ts[2]) is None && D::decode_fault(trail, ts[3]) is None && E::decode_fault(trail, ts[4]) is None && F::decode_fault(trail, ts[5]) is None && G::decode_fault(trail, ts[6]) is None && H::decode_fault(trail, ts[7]) is None,
        A::decode_fault(trail, ts[0]) matches Some(fault) ==> <(A, B, C, D, E, F, G, H) as ArgsSpec>::decode_fault(trail, ts) == Some(fault),
{
    let d1 = ts.skip(1);
    assert(ts.drop_first() =~= d1 && ts[0] == ts[0]);
    let d2 = ts.skip(2);
    assert(d1.drop_first() =~= d2 && d1[0] == ts[1]);
    let d3 = ts.skip(3);
    assert(d2.drop_first() =~= d3 && d2[0] == ts[2]);
    let d4 = ts.skip(4);
    assert(d3.drop_first() =~= d4 && d3[0] == ts[3]);
    let d5 = ts.skip(5);
    assert(d4.drop_first() =~= d5 && d4[0] == ts[4]);
    let d6 = ts.skip(6);
    assert(d5.drop_first() =~= d6 && d5[0] == ts[5]);
    let d7 = ts.skip(7);
    assert(d6.drop_first() =~= d7 && d6[0] == ts[6]);
    let d8 = ts.skip(8);
    assert(d7.drop_first() =~= d8 && d7[0] == ts[7]);
    assert((args.7, ()).all_seeded(s) is Ok <==> args.7.seeded(s) is Ok);
    assert((args.6, (args.7, ())).all_seeded(s) is Ok <==> args.6.seeded(s) is Ok && args.7.seeded(s) is Ok);
    assert((args.5, (args.6, (args.7, ()))).all_seeded(s) is Ok <==> args.5.seeded(s) is Ok && args.6.seeded(s) is Ok && args.7.seeded(s) is Ok);
    assert((args.4, (args.5, (args.6, (args.7, ())))).all_seeded(s) is Ok <==> args.4.seeded(s) is Ok && args.5.seeded(s) is Ok && args.6.seeded(s) is Ok && args.7.seeded(s) is Ok);
    assert((args.3, (args.4, (args.5, (args.6, (args.7, ()))))).all_seeded(s) is Ok <==> args.3.seeded(s) is Ok && args.4.seeded(s) is Ok && args.5.seeded(s) is Ok && args.6.seeded(s) is Ok && args.7.seeded(s) is Ok);
    assert((args.2, (args.3, (args.4, (args.5, (args.6, (args.7, ())))))).all_seeded(s) is Ok <==> args.2.seeded(s) is Ok && args.3.seeded(s) is Ok && args.4.seeded(s) is Ok && args.5.seeded(s) is Ok && args.6.seeded(s) is Ok && args.7.seeded(s) is Ok);
    assert((args.1, (args.2, (args.3, (args.4, (args.5, (args.6, (args.7, ()))))))).all_seeded(s) is Ok <==> args.1.seeded(s) is Ok && args.2.seeded(s) is Ok && args.3.seeded(s) is Ok && args.4.seeded(s) is Ok && args.5.seeded(s) is Ok && args.6.seeded(s) is Ok && args.7.seeded(s) is Ok);
    assert((args.0, (args.1, (args.2, (args.3, (args.4, (args.5, (args.6, (args.7, ())))))))).all_seeded(s) is Ok <==> args.0.seeded(s) is Ok && args.1.seeded(s) is Ok && args.2.seeded(s) is Ok && args.3.seeded(s) is Ok && args.4.seeded(s) is Ok && args.5.seeded(s) is Ok && args.6.seeded(s) is Ok && args.7.seeded(s) is Ok);
    if args.0.seeded(s) == Ok::<Option<Tree>, ArgumentFault>(seeds[0]) && args.1.seeded(s) == Ok::<Option<Tree>, ArgumentFault>(seeds[1]) && args.2.seeded(s) == Ok::<Option<Tree>, ArgumentFault>(seeds[2]) && args.3.seeded(s) == Ok::<Option<Tree>, ArgumentFault>(seeds[3]) && args.4.seeded(s) == Ok::<Option<Tree>, ArgumentFault>(seeds[4]) && args.5.seeded(s) == Ok::<Option<Tree>, ArgumentFault>(seeds[5]) && args.6.seeded(s) == Ok::<Option<Tree>, ArgumentFault>(seeds[6]) && args.7.seeded(s) == Ok::<Option<Tree>, ArgumentFault>(seeds[7]) {
        assert(seeds.skip(8) =~= Seq::empty());
        assert(seq![seeds[7]] + seeds.skip(8) =~= seeds.skip(7));
        assert((args.7, ()).all_seeded(s) == Ok::<Seq<Option<Tree>>, ArgumentFault>(seeds.skip(7)));
        assert(seq![seeds[6]] + seeds.skip(7) =~= seeds.skip(6));
        assert((args.6, (args.7, ())).all_seeded(s) == Ok::<Seq<Option<Tree>>, ArgumentFault>(seeds.skip(6)));
        assert(seq![seeds[5]] + seeds.skip(6) =~= seeds.skip(5));
        assert((args.5, (args.6, (args.7, ()))).all_seeded(s) == Ok::<Seq<Option<Tree>>, ArgumentFault>(seeds.skip(5)));
        assert(seq![seeds[4]] + seeds.skip(5) =~= seeds.skip(4));
        assert((args.4, (args.5, (args.6, (args.7, ())))).all_seeded(s) == Ok::<Seq<Option<Tree>>, ArgumentFault>(seeds.skip(4)));
        assert(seq![seeds[3]] + seeds.skip(4) =~= seeds.skip(3));
        assert((args.3, (args.4, (args.5, (args.6, (args.7, ()))))).all_seeded(s) == Ok::<Seq<Option<Tree>>, ArgumentFault>(seeds.skip(3)));
        assert(seq![seeds[2]] + seeds.skip(3) =~= seeds.skip(2));
        assert((args.2, (args.3, (args.4, (args.5, (args.6, (args.7, ())))))).all_seeded(s) == Ok::<Seq<Option<Tree>>, ArgumentFault>(seeds.skip(2)));
        assert(seq![seeds[1]] + seeds.skip(2) =~= seeds.skip(1));
        assert((args.1, (args.2, (args.3, (args.4, (args.5, (args.6, (args.7, ()))))))).all_seeded(s) == Ok::<Seq<Option<Tree>>, ArgumentFault>(seeds.skip(1)));
        assert(seq![seeds[0]] + seeds.skip(1) =~= seeds.skip(0));
        assert((args.0, (args.1, (args.2, (args.3, (args.4, (args.5, (args.6, (args.7, ())))))))).all_seeded(s) == Ok::<Seq<Option<Tree>>, ArgumentFault>(seeds.skip(0)));
        assert(seeds.skip(0) =~= seeds);
    }
}

/// Nine arguments take nine places in their order.
pub proof fn arguments_of_nine<A: Argument, B: Argument, C: Argument, D: Argument, E: Argument, F: Argument, G: Argument, H: Argument, I: Argument>(
    args: (A, B, C, D, E, F, G, H, I),
    s: State,
    seeds: Seq<Option<Tree>>,
    trail: Seq<(usize, Tree)>,
    ts: Seq<Tree>,
    values: (A::Value, B::Value, C::Value, D::Value, E::Value, F::Value, G::Value, H::Value, I::Value),
)
    requires
        seeds.len() == 9,
        ts.len() == 9,
    ensures
        <(A, B, C, D, E, F, G, H, I) as ArgsSpec>::count() == 9,
        args.0.seeded(s) == Ok::<Option<Tree>, ArgumentFault>(seeds[0]) && args.1.seeded(s) == Ok::<Option<Tree>, ArgumentFault>(seeds[1]) && args.2.seeded(s) == Ok::<Option<Tree>, ArgumentFault>(seeds[2]) && args.3.seeded(s) == Ok::<Option<Tree>, ArgumentFault>(seeds[3]) && args.4.seeded(s) == Ok::<Option<Tree>, ArgumentFault>(seeds[4]) && args.5.seeded(s) == Ok::<Option<Tree>, ArgumentFault>(seeds[5]) && args.6.seeded(s) == Ok::<Option<Tree>, ArgumentFault>(seeds[6]) && args.7.seeded(s) == Ok::<Option<Tree>, ArgumentFault>(seeds[7]) && args.8.seeded(s) == Ok::<Option<Tree>, ArgumentFault>(seeds[8]) ==> ArgsSpec::seeded(&args, s) == Ok::<Seq<Option<Tree>>, ArgumentFault>(seeds),
        ArgsSpec::seeded(&args, s) is Ok <==> args.0.seeded(s) is Ok && args.1.seeded(s) is Ok && args.2.seeded(s) is Ok && args.3.seeded(s) is Ok && args.4.seeded(s) is Ok && args.5.seeded(s) is Ok && args.6.seeded(s) is Ok && args.7.seeded(s) is Ok && args.8.seeded(s) is Ok,
        <(A, B, C, D, E, F, G, H, I) as ArgsSpec>::decodes(trail, ts, values) <==> A::decodes(trail, ts[0], values.0) && B::decodes(trail, ts[1], values.1) && C::decodes(trail, ts[2], values.2) && D::decodes(trail, ts[3], values.3) && E::decodes(trail, ts[4], values.4) && F::decodes(trail, ts[5], values.5) && G::decodes(trail, ts[6], values.6) && H::decodes(trail, ts[7], values.7) && I::decodes(trail, ts[8], values.8),
        <(A, B, C, D, E, F, G, H, I) as ArgsSpec>::decode_fault(trail, ts) is None <==> A::decode_fault(trail, ts[0]) is None && B::decode_fault(trail, ts[1]) is None && C::decode_fault(trail, ts[2]) is None && D::decode_fault(trail, ts[3]) is None && E::decode_fault(trail, ts[4]) is None && F::decode_fault(trail, ts[5]) is None && G::decode_fault(trail, ts[6]) is None && H::decode_fault(trail, ts[7]) is None && I::decode_fault(trail, ts[8]) is None,
        A::decode_fault(trail, ts[0]) matches Some(fault) ==> <(A, B, C, D, E, F, G, H, I) as ArgsSpec>::decode_fault(trail, ts) == Some(fault),
{
    let d1 = ts.skip(1);
    assert(ts.drop_first() =~= d1 && ts[0] == ts[0]);
    let d2 = ts.skip(2);
    assert(d1.drop_first() =~= d2 && d1[0] == ts[1]);
    let d3 = ts.skip(3);
    assert(d2.drop_first() =~= d3 && d2[0] == ts[2]);
    let d4 = ts.skip(4);
    assert(d3.drop_first() =~= d4 && d3[0] == ts[3]);
    let d5 = ts.skip(5);
    assert(d4.drop_first() =~= d5 && d4[0] == ts[4]);
    let d6 = ts.skip(6);
    assert(d5.drop_first() =~= d6 && d5[0] == ts[5]);
    let d7 = ts.skip(7);
    assert(d6.drop_first() =~= d7 && d6[0] == ts[6]);
    let d8 = ts.skip(8);
    assert(d7.drop_first() =~= d8 && d7[0] == ts[7]);
    let d9 = ts.skip(9);
    assert(d8.drop_first() =~= d9 && d8[0] == ts[8]);
    assert((args.8, ()).all_seeded(s) is Ok <==> args.8.seeded(s) is Ok);
    assert((args.7, (args.8, ())).all_seeded(s) is Ok <==> args.7.seeded(s) is Ok && args.8.seeded(s) is Ok);
    assert((args.6, (args.7, (args.8, ()))).all_seeded(s) is Ok <==> args.6.seeded(s) is Ok && args.7.seeded(s) is Ok && args.8.seeded(s) is Ok);
    assert((args.5, (args.6, (args.7, (args.8, ())))).all_seeded(s) is Ok <==> args.5.seeded(s) is Ok && args.6.seeded(s) is Ok && args.7.seeded(s) is Ok && args.8.seeded(s) is Ok);
    assert((args.4, (args.5, (args.6, (args.7, (args.8, ()))))).all_seeded(s) is Ok <==> args.4.seeded(s) is Ok && args.5.seeded(s) is Ok && args.6.seeded(s) is Ok && args.7.seeded(s) is Ok && args.8.seeded(s) is Ok);
    assert((args.3, (args.4, (args.5, (args.6, (args.7, (args.8, ())))))).all_seeded(s) is Ok <==> args.3.seeded(s) is Ok && args.4.seeded(s) is Ok && args.5.seeded(s) is Ok && args.6.seeded(s) is Ok && args.7.seeded(s) is Ok && args.8.seeded(s) is Ok);
    assert((args.2, (args.3, (args.4, (args.5, (args.6, (args.7, (args.8, ()))))))).all_seeded(s) is Ok <==> args.2.seeded(s) is Ok && args.3.seeded(s) is Ok && args.4.seeded(s) is Ok && args.5.seeded(s) is Ok && args.6.seeded(s) is Ok && args.7.seeded(s) is Ok && args.8.seeded(s) is Ok);
    assert((args.1, (args.2, (args.3, (args.4, (args.5, (args.6, (args.7, (args.8, ())))))))).all_seeded(s) is Ok <==> args.1.seeded(s) is Ok && args.2.seeded(s) is Ok && args.3.seeded(s) is Ok && args.4.seeded(s) is Ok && args.5.seeded(s) is Ok && args.6.seeded(s) is Ok && args.7.seeded(s) is Ok && args.8.seeded(s) is Ok);
    assert((args.0, (args.1, (args.2, (args.3, (args.4, (args.5, (args.6, (args.7, (args.8, ()))))))))).all_seeded(s) is Ok <==> args.0.seeded(s) is Ok && args.1.seeded(s) is Ok && args.2.seeded(s) is Ok && args.3.seeded(s) is Ok && args.4.seeded(s) is Ok && args.5.seeded(s) is Ok && args.6.seeded(s) is Ok && args.7.seeded(s) is Ok && args.8.seeded(s) is Ok);
    if args.0.seeded(s) == Ok::<Option<Tree>, ArgumentFault>(seeds[0]) && args.1.seeded(s) == Ok::<Option<Tree>, ArgumentFault>(seeds[1]) && args.2.seeded(s) == Ok::<Option<Tree>, ArgumentFault>(seeds[2]) && args.3.seeded(s) == Ok::<Option<Tree>, ArgumentFault>(seeds[3]) && args.4.seeded(s) == Ok::<Option<Tree>, ArgumentFault>(seeds[4]) && args.5.seeded(s) == Ok::<Option<Tree>, ArgumentFault>(seeds[5]) && args.6.seeded(s) == Ok::<Option<Tree>, ArgumentFault>(seeds[6]) && args.7.seeded(s) == Ok::<Option<Tree>, ArgumentFault>(seeds[7]) && args.8.seeded(s) == Ok::<Option<Tree>, ArgumentFault>(seeds[8]) {
        assert(seeds.skip(9) =~= Seq::empty());
        assert(seq![seeds[8]] + seeds.skip(9) =~= seeds.skip(8));
        assert((args.8, ()).all_seeded(s) == Ok::<Seq<Option<Tree>>, ArgumentFault>(seeds.skip(8)));
        assert(seq![seeds[7]] + seeds.skip(8) =~= seeds.skip(7));
        assert((args.7, (args.8, ())).all_seeded(s) == Ok::<Seq<Option<Tree>>, ArgumentFault>(seeds.skip(7)));
        assert(seq![seeds[6]] + seeds.skip(7) =~= seeds.skip(6));
        assert((args.6, (args.7, (args.8, ()))).all_seeded(s) == Ok::<Seq<Option<Tree>>, ArgumentFault>(seeds.skip(6)));
        assert(seq![seeds[5]] + seeds.skip(6) =~= seeds.skip(5));
        assert((args.5, (args.6, (args.7, (args.8, ())))).all_seeded(s) == Ok::<Seq<Option<Tree>>, ArgumentFault>(seeds.skip(5)));
        assert(seq![seeds[4]] + seeds.skip(5) =~= seeds.skip(4));
        assert((args.4, (args.5, (args.6, (args.7, (args.8, ()))))).all_seeded(s) == Ok::<Seq<Option<Tree>>, ArgumentFault>(seeds.skip(4)));
        assert(seq![seeds[3]] + seeds.skip(4) =~= seeds.skip(3));
        assert((args.3, (args.4, (args.5, (args.6, (args.7, (args.8, ())))))).all_seeded(s) == Ok::<Seq<Option<Tree>>, ArgumentFault>(seeds.skip(3)));
        assert(seq![seeds[2]] + seeds.skip(3) =~= seeds.skip(2));
        assert((args.2, (args.3, (args.4, (args.5, (args.6, (args.7, (args.8, ()))))))).all_seeded(s) == Ok::<Seq<Option<Tree>>, ArgumentFault>(seeds.skip(2)));
        assert(seq![seeds[1]] + seeds.skip(2) =~= seeds.skip(1));
        assert((args.1, (args.2, (args.3, (args.4, (args.5, (args.6, (args.7, (args.8, ())))))))).all_seeded(s) == Ok::<Seq<Option<Tree>>, ArgumentFault>(seeds.skip(1)));
        assert(seq![seeds[0]] + seeds.skip(1) =~= seeds.skip(0));
        assert((args.0, (args.1, (args.2, (args.3, (args.4, (args.5, (args.6, (args.7, (args.8, ()))))))))).all_seeded(s) == Ok::<Seq<Option<Tree>>, ArgumentFault>(seeds.skip(0)));
        assert(seeds.skip(0) =~= seeds);
    }
}

/// Ten arguments take ten places in their order.
pub proof fn arguments_of_ten<A: Argument, B: Argument, C: Argument, D: Argument, E: Argument, F: Argument, G: Argument, H: Argument, I: Argument, J: Argument>(
    args: (A, B, C, D, E, F, G, H, I, J),
    s: State,
    seeds: Seq<Option<Tree>>,
    trail: Seq<(usize, Tree)>,
    ts: Seq<Tree>,
    values: (A::Value, B::Value, C::Value, D::Value, E::Value, F::Value, G::Value, H::Value, I::Value, J::Value),
)
    requires
        seeds.len() == 10,
        ts.len() == 10,
    ensures
        <(A, B, C, D, E, F, G, H, I, J) as ArgsSpec>::count() == 10,
        args.0.seeded(s) == Ok::<Option<Tree>, ArgumentFault>(seeds[0]) && args.1.seeded(s) == Ok::<Option<Tree>, ArgumentFault>(seeds[1]) && args.2.seeded(s) == Ok::<Option<Tree>, ArgumentFault>(seeds[2]) && args.3.seeded(s) == Ok::<Option<Tree>, ArgumentFault>(seeds[3]) && args.4.seeded(s) == Ok::<Option<Tree>, ArgumentFault>(seeds[4]) && args.5.seeded(s) == Ok::<Option<Tree>, ArgumentFault>(seeds[5]) && args.6.seeded(s) == Ok::<Option<Tree>, ArgumentFault>(seeds[6]) && args.7.seeded(s) == Ok::<Option<Tree>, ArgumentFault>(seeds[7]) && args.8.seeded(s) == Ok::<Option<Tree>, ArgumentFault>(seeds[8]) && args.9.seeded(s) == Ok::<Option<Tree>, ArgumentFault>(seeds[9]) ==> ArgsSpec::seeded(&args, s) == Ok::<Seq<Option<Tree>>, ArgumentFault>(seeds),
        ArgsSpec::seeded(&args, s) is Ok <==> args.0.seeded(s) is Ok && args.1.seeded(s) is Ok && args.2.seeded(s) is Ok && args.3.seeded(s) is Ok && args.4.seeded(s) is Ok && args.5.seeded(s) is Ok && args.6.seeded(s) is Ok && args.7.seeded(s) is Ok && args.8.seeded(s) is Ok && args.9.seeded(s) is Ok,
        <(A, B, C, D, E, F, G, H, I, J) as ArgsSpec>::decodes(trail, ts, values) <==> A::decodes(trail, ts[0], values.0) && B::decodes(trail, ts[1], values.1) && C::decodes(trail, ts[2], values.2) && D::decodes(trail, ts[3], values.3) && E::decodes(trail, ts[4], values.4) && F::decodes(trail, ts[5], values.5) && G::decodes(trail, ts[6], values.6) && H::decodes(trail, ts[7], values.7) && I::decodes(trail, ts[8], values.8) && J::decodes(trail, ts[9], values.9),
        <(A, B, C, D, E, F, G, H, I, J) as ArgsSpec>::decode_fault(trail, ts) is None <==> A::decode_fault(trail, ts[0]) is None && B::decode_fault(trail, ts[1]) is None && C::decode_fault(trail, ts[2]) is None && D::decode_fault(trail, ts[3]) is None && E::decode_fault(trail, ts[4]) is None && F::decode_fault(trail, ts[5]) is None && G::decode_fault(trail, ts[6]) is None && H::decode_fault(trail, ts[7]) is None && I::decode_fault(trail, ts[8]) is None && J::decode_fault(trail, ts[9]) is None,
        A::decode_fault(trail, ts[0]) matches Some(fault) ==> <(A, B, C, D, E, F, G, H, I, J) as ArgsSpec>::decode_fault(trail, ts) == Some(fault),
{
    let d1 = ts.skip(1);
    assert(ts.drop_first() =~= d1 && ts[0] == ts[0]);
    let d2 = ts.skip(2);
    assert(d1.drop_first() =~= d2 && d1[0] == ts[1]);
    let d3 = ts.skip(3);
    assert(d2.drop_first() =~= d3 && d2[0] == ts[2]);
    let d4 = ts.skip(4);
    assert(d3.drop_first() =~= d4 && d3[0] == ts[3]);
    let d5 = ts.skip(5);
    assert(d4.drop_first() =~= d5 && d4[0] == ts[4]);
    let d6 = ts.skip(6);
    assert(d5.drop_first() =~= d6 && d5[0] == ts[5]);
    let d7 = ts.skip(7);
    assert(d6.drop_first() =~= d7 && d6[0] == ts[6]);
    let d8 = ts.skip(8);
    assert(d7.drop_first() =~= d8 && d7[0] == ts[7]);
    let d9 = ts.skip(9);
    assert(d8.drop_first() =~= d9 && d8[0] == ts[8]);
    let d10 = ts.skip(10);
    assert(d9.drop_first() =~= d10 && d9[0] == ts[9]);
    assert((args.9, ()).all_seeded(s) is Ok <==> args.9.seeded(s) is Ok);
    assert((args.8, (args.9, ())).all_seeded(s) is Ok <==> args.8.seeded(s) is Ok && args.9.seeded(s) is Ok);
    assert((args.7, (args.8, (args.9, ()))).all_seeded(s) is Ok <==> args.7.seeded(s) is Ok && args.8.seeded(s) is Ok && args.9.seeded(s) is Ok);
    assert((args.6, (args.7, (args.8, (args.9, ())))).all_seeded(s) is Ok <==> args.6.seeded(s) is Ok && args.7.seeded(s) is Ok && args.8.seeded(s) is Ok && args.9.seeded(s) is Ok);
    assert((args.5, (args.6, (args.7, (args.8, (args.9, ()))))).all_seeded(s) is Ok <==> args.5.seeded(s) is Ok && args.6.seeded(s) is Ok && args.7.seeded(s) is Ok && args.8.seeded(s) is Ok && args.9.seeded(s) is Ok);
    assert((args.4, (args.5, (args.6, (args.7, (args.8, (args.9, ())))))).all_seeded(s) is Ok <==> args.4.seeded(s) is Ok && args.5.seeded(s) is Ok && args.6.seeded(s) is Ok && args.7.seeded(s) is Ok && args.8.seeded(s) is Ok && args.9.seeded(s) is Ok);
    assert((args.3, (args.4, (args.5, (args.6, (args.7, (args.8, (args.9, ()))))))).all_seeded(s) is Ok <==> args.3.seeded(s) is Ok && args.4.seeded(s) is Ok && args.5.seeded(s) is Ok && args.6.seeded(s) is Ok && args.7.seeded(s) is Ok && args.8.seeded(s) is Ok && args.9.seeded(s) is Ok);
    assert((args.2, (args.3, (args.4, (args.5, (args.6, (args.7, (args.8, (args.9, ())))))))).all_seeded(s) is Ok <==> args.2.seeded(s) is Ok && args.3.seeded(s) is Ok && args.4.seeded(s) is Ok && args.5.seeded(s) is Ok && args.6.seeded(s) is Ok && args.7.seeded(s) is Ok && args.8.seeded(s) is Ok && args.9.seeded(s) is Ok);
    assert((args.1, (args.2, (args.3, (args.4, (args.5, (args.6, (args.7, (args.8, (args.9, ()))))))))).all_seeded(s) is Ok <==> args.1.seeded(s) is Ok && args.2.seeded(s) is Ok && args.3.seeded(s) is Ok && args.4.seeded(s) is Ok && args.5.seeded(s) is Ok && args.6.seeded(s) is Ok && args.7.seeded(s) is Ok && args.8.seeded(s) is Ok && args.9.seeded(s) is Ok);
    assert((args.0, (args.1, (args.2, (args.3, (args.4, (args.5, (args.6, (args.7, (args.8, (args.9, ())))))))))).all_seeded(s) is Ok <==> args.0.seeded(s) is Ok && args.1.seeded(s) is Ok && args.2.seeded(s) is Ok && args.3.seeded(s) is Ok && args.4.seeded(s) is Ok && args.5.seeded(s) is Ok && args.6.seeded(s) is Ok && args.7.seeded(s) is Ok && args.8.seeded(s) is Ok && args.9.seeded(s) is Ok);
    if args.0.seeded(s) == Ok::<Option<Tree>, ArgumentFault>(seeds[0]) && args.1.seeded(s) == Ok::<Option<Tree>, ArgumentFault>(seeds[1]) && args.2.seeded(s) == Ok::<Option<Tree>, ArgumentFault>(seeds[2]) && args.3.seeded(s) == Ok::<Option<Tree>, ArgumentFault>(seeds[3]) && args.4.seeded(s) == Ok::<Option<Tree>, ArgumentFault>(seeds[4]) && args.5.seeded(s) == Ok::<Option<Tree>, ArgumentFault>(seeds[5]) && args.6.seeded(s) == Ok::<Option<Tree>, ArgumentFault>(seeds[6]) && args.7.seeded(s) == Ok::<Option<Tree>, ArgumentFault>(seeds[7]) && args.8.seeded(s) == Ok::<Option<Tree>, ArgumentFault>(seeds[8]) && args.9.seeded(s) == Ok::<Option<Tree>, ArgumentFault>(seeds[9]) {
        assert(seeds.skip(10) =~= Seq::empty());
        assert(seq![seeds[9]] + seeds.skip(10) =~= seeds.skip(9));
        assert((args.9, ()).all_seeded(s) == Ok::<Seq<Option<Tree>>, ArgumentFault>(seeds.skip(9)));
        assert(seq![seeds[8]] + seeds.skip(9) =~= seeds.skip(8));
        assert((args.8, (args.9, ())).all_seeded(s) == Ok::<Seq<Option<Tree>>, ArgumentFault>(seeds.skip(8)));
        assert(seq![seeds[7]] + seeds.skip(8) =~= seeds.skip(7));
        assert((args.7, (args.8, (args.9, ()))).all_seeded(s) == Ok::<Seq<Option<Tree>>, ArgumentFault>(seeds.skip(7)));
        assert(seq![seeds[6]] + seeds.skip(7) =~= seeds.skip(6));
        assert((args.6, (args.7, (args.8, (args.9, ())))).all_seeded(s) == Ok::<Seq<Option<Tree>>, ArgumentFault>(seeds.skip(6)));
        assert(seq![seeds[5]] + seeds.skip(6) =~= seeds.skip(5));
        assert((args.5, (args.6, (args.7, (args.8, (args.9, ()))))).all_seeded(s) == Ok::<Seq<Option<Tree>>, ArgumentFault>(seeds.skip(5)));
        assert(seq![seeds[4]] + seeds.skip(5) =~= seeds.skip(4));
        assert((args.4, (args.5, (args.6, (args.7, (args.8, (args.9, ())))))).all_seeded(s) == Ok::<Seq<Option<Tree>>, ArgumentFault>(seeds.skip(4)));
        assert(seq![seeds[3]] + seeds.skip(4) =~= seeds.skip(3));
        assert((args.3, (args.4, (args.5, (args.6, (args.7, (args.8, (args.9, ()))))))).all_seeded(s) == Ok::<Seq<Option<Tree>>, ArgumentFault>(seeds.skip(3)));
        assert(seq![seeds[2]] + seeds.skip(3) =~= seeds.skip(2));
        assert((args.2, (args.3, (args.4, (args.5, (args.6, (args.7, (args.8, (args.9, ())))))))).all_seeded(s) == Ok::<Seq<Option<Tree>>, ArgumentFault>(seeds.skip(2)));
        assert(seq![seeds[1]] + seeds.skip(2) =~= seeds.skip(1));
        assert((args.1, (args.2, (args.3, (args.4, (args.5, (args.6, (args.7, (args.8, (args.9, ()))))))))).all_seeded(s) == Ok::<Seq<Option<Tree>>, ArgumentFault>(seeds.skip(1)));
        assert(seq![seeds[0]] + seeds.skip(1) =~= seeds.skip(0));
        assert((args.0, (args.1, (args.2, (args.3, (args.4, (args.5, (args.6, (args.7, (args.8, (args.9, ())))))))))).all_seeded(s) == Ok::<Seq<Option<Tree>>, ArgumentFault>(seeds.skip(0)));
        assert(seeds.skip(0) =~= seeds);
    }
}

/// Eleven arguments take eleven places in their order.
pub proof fn arguments_of_eleven<A: Argument, B: Argument, C: Argument, D: Argument, E: Argument, F: Argument, G: Argument, H: Argument, I: Argument, J: Argument, K: Argument>(
    args: (A, B, C, D, E, F, G, H, I, J, K),
    s: State,
    seeds: Seq<Option<Tree>>,
    trail: Seq<(usize, Tree)>,
    ts: Seq<Tree>,
    values: (A::Value, B::Value, C::Value, D::Value, E::Value, F::Value, G::Value, H::Value, I::Value, J::Value, K::Value),
)
    requires
        seeds.len() == 11,
        ts.len() == 11,
    ensures
        <(A, B, C, D, E, F, G, H, I, J, K) as ArgsSpec>::count() == 11,
        args.0.seeded(s) == Ok::<Option<Tree>, ArgumentFault>(seeds[0]) && args.1.seeded(s) == Ok::<Option<Tree>, ArgumentFault>(seeds[1]) && args.2.seeded(s) == Ok::<Option<Tree>, ArgumentFault>(seeds[2]) && args.3.seeded(s) == Ok::<Option<Tree>, ArgumentFault>(seeds[3]) && args.4.seeded(s) == Ok::<Option<Tree>, ArgumentFault>(seeds[4]) && args.5.seeded(s) == Ok::<Option<Tree>, ArgumentFault>(seeds[5]) && args.6.seeded(s) == Ok::<Option<Tree>, ArgumentFault>(seeds[6]) && args.7.seeded(s) == Ok::<Option<Tree>, ArgumentFault>(seeds[7]) && args.8.seeded(s) == Ok::<Option<Tree>, ArgumentFault>(seeds[8]) && args.9.seeded(s) == Ok::<Option<Tree>, ArgumentFault>(seeds[9]) && args.10.seeded(s) == Ok::<Option<Tree>, ArgumentFault>(seeds[10]) ==> ArgsSpec::seeded(&args, s) == Ok::<Seq<Option<Tree>>, ArgumentFault>(seeds),
        ArgsSpec::seeded(&args, s) is Ok <==> args.0.seeded(s) is Ok && args.1.seeded(s) is Ok && args.2.seeded(s) is Ok && args.3.seeded(s) is Ok && args.4.seeded(s) is Ok && args.5.seeded(s) is Ok && args.6.seeded(s) is Ok && args.7.seeded(s) is Ok && args.8.seeded(s) is Ok && args.9.seeded(s) is Ok && args.10.seeded(s) is Ok,
        <(A, B, C, D, E, F, G, H, I, J, K) as ArgsSpec>::decodes(trail, ts, values) <==> A::decodes(trail, ts[0], values.0) && B::decodes(trail, ts[1], values.1) && C::decodes(trail, ts[2], values.2) && D::decodes(trail, ts[3], values.3) && E::decodes(trail, ts[4], values.4) && F::decodes(trail, ts[5], values.5) && G::decodes(trail, ts[6], values.6) && H::decodes(trail, ts[7], values.7) && I::decodes(trail, ts[8], values.8) && J::decodes(trail, ts[9], values.9) && K::decodes(trail, ts[10], values.10),
        <(A, B, C, D, E, F, G, H, I, J, K) as ArgsSpec>::decode_fault(trail, ts) is None <==> A::decode_fault(trail, ts[0]) is None && B::decode_fault(trail, ts[1]) is None && C::decode_fault(trail, ts[2]) is None && D::decode_fault(trail, ts[3]) is None && E::decode_fault(trail, ts[4]) is None && F::decode_fault(trail, ts[5]) is None && G::decode_fault(trail, ts[6]) is None && H::decode_fault(trail, ts[7]) is None && I::decode_fault(trail, ts[8]) is None && J::decode_fault(trail, ts[9]) is None && K::decode_fault(trail, ts[10]) is None,
        A::decode_fault(trail, ts[0]) matches Some(fault) ==> <(A, B, C, D, E, F, G, H, I, J, K) as ArgsSpec>::decode_fault(trail, ts) == Some(fault),
{
    let d1 = ts.skip(1);
    assert(ts.drop_first() =~= d1 && ts[0] == ts[0]);
    let d2 = ts.skip(2);
    assert(d1.drop_first() =~= d2 && d1[0] == ts[1]);
    let d3 = ts.skip(3);
    assert(d2.drop_first() =~= d3 && d2[0] == ts[2]);
    let d4 = ts.skip(4);
    assert(d3.drop_first() =~= d4 && d3[0] == ts[3]);
    let d5 = ts.skip(5);
    assert(d4.drop_first() =~= d5 && d4[0] == ts[4]);
    let d6 = ts.skip(6);
    assert(d5.drop_first() =~= d6 && d5[0] == ts[5]);
    let d7 = ts.skip(7);
    assert(d6.drop_first() =~= d7 && d6[0] == ts[6]);
    let d8 = ts.skip(8);
    assert(d7.drop_first() =~= d8 && d7[0] == ts[7]);
    let d9 = ts.skip(9);
    assert(d8.drop_first() =~= d9 && d8[0] == ts[8]);
    let d10 = ts.skip(10);
    assert(d9.drop_first() =~= d10 && d9[0] == ts[9]);
    let d11 = ts.skip(11);
    assert(d10.drop_first() =~= d11 && d10[0] == ts[10]);
    assert((args.10, ()).all_seeded(s) is Ok <==> args.10.seeded(s) is Ok);
    assert((args.9, (args.10, ())).all_seeded(s) is Ok <==> args.9.seeded(s) is Ok && args.10.seeded(s) is Ok);
    assert((args.8, (args.9, (args.10, ()))).all_seeded(s) is Ok <==> args.8.seeded(s) is Ok && args.9.seeded(s) is Ok && args.10.seeded(s) is Ok);
    assert((args.7, (args.8, (args.9, (args.10, ())))).all_seeded(s) is Ok <==> args.7.seeded(s) is Ok && args.8.seeded(s) is Ok && args.9.seeded(s) is Ok && args.10.seeded(s) is Ok);
    assert((args.6, (args.7, (args.8, (args.9, (args.10, ()))))).all_seeded(s) is Ok <==> args.6.seeded(s) is Ok && args.7.seeded(s) is Ok && args.8.seeded(s) is Ok && args.9.seeded(s) is Ok && args.10.seeded(s) is Ok);
    assert((args.5, (args.6, (args.7, (args.8, (args.9, (args.10, ())))))).all_seeded(s) is Ok <==> args.5.seeded(s) is Ok && args.6.seeded(s) is Ok && args.7.seeded(s) is Ok && args.8.seeded(s) is Ok && args.9.seeded(s) is Ok && args.10.seeded(s) is Ok);
    assert((args.4, (args.5, (args.6, (args.7, (args.8, (args.9, (args.10, ()))))))).all_seeded(s) is Ok <==> args.4.seeded(s) is Ok && args.5.seeded(s) is Ok && args.6.seeded(s) is Ok && args.7.seeded(s) is Ok && args.8.seeded(s) is Ok && args.9.seeded(s) is Ok && args.10.seeded(s) is Ok);
    assert((args.3, (args.4, (args.5, (args.6, (args.7, (args.8, (args.9, (args.10, ())))))))).all_seeded(s) is Ok <==> args.3.seeded(s) is Ok && args.4.seeded(s) is Ok && args.5.seeded(s) is Ok && args.6.seeded(s) is Ok && args.7.seeded(s) is Ok && args.8.seeded(s) is Ok && args.9.seeded(s) is Ok && args.10.seeded(s) is Ok);
    assert((args.2, (args.3, (args.4, (args.5, (args.6, (args.7, (args.8, (args.9, (args.10, ()))))))))).all_seeded(s) is Ok <==> args.2.seeded(s) is Ok && args.3.seeded(s) is Ok && args.4.seeded(s) is Ok && args.5.seeded(s) is Ok && args.6.seeded(s) is Ok && args.7.seeded(s) is Ok && args.8.seeded(s) is Ok && args.9.seeded(s) is Ok && args.10.seeded(s) is Ok);
    assert((args.1, (args.2, (args.3, (args.4, (args.5, (args.6, (args.7, (args.8, (args.9, (args.10, ())))))))))).all_seeded(s) is Ok <==> args.1.seeded(s) is Ok && args.2.seeded(s) is Ok && args.3.seeded(s) is Ok && args.4.seeded(s) is Ok && args.5.seeded(s) is Ok && args.6.seeded(s) is Ok && args.7.seeded(s) is Ok && args.8.seeded(s) is Ok && args.9.seeded(s) is Ok && args.10.seeded(s) is Ok);
    assert((args.0, (args.1, (args.2, (args.3, (args.4, (args.5, (args.6, (args.7, (args.8, (args.9, (args.10, ()))))))))))).all_seeded(s) is Ok <==> args.0.seeded(s) is Ok && args.1.seeded(s) is Ok && args.2.seeded(s) is Ok && args.3.seeded(s) is Ok && args.4.seeded(s) is Ok && args.5.seeded(s) is Ok && args.6.seeded(s) is Ok && args.7.seeded(s) is Ok && args.8.seeded(s) is Ok && args.9.seeded(s) is Ok && args.10.seeded(s) is Ok);
    if args.0.seeded(s) == Ok::<Option<Tree>, ArgumentFault>(seeds[0]) && args.1.seeded(s) == Ok::<Option<Tree>, ArgumentFault>(seeds[1]) && args.2.seeded(s) == Ok::<Option<Tree>, ArgumentFault>(seeds[2]) && args.3.seeded(s) == Ok::<Option<Tree>, ArgumentFault>(seeds[3]) && args.4.seeded(s) == Ok::<Option<Tree>, ArgumentFault>(seeds[4]) && args.5.seeded(s) == Ok::<Option<Tree>, ArgumentFault>(seeds[5]) && args.6.seeded(s) == Ok::<Option<Tree>, ArgumentFault>(seeds[6]) && args.7.seeded(s) == Ok::<Option<Tree>, ArgumentFault>(seeds[7]) && args.8.seeded(s) == Ok::<Option<Tree>, ArgumentFault>(seeds[8]) && args.9.seeded(s) == Ok::<Option<Tree>, ArgumentFault>(seeds[9]) && args.10.seeded(s) == Ok::<Option<Tree>, ArgumentFault>(seeds[10]) {
        assert(seeds.skip(11) =~= Seq::empty());
        assert(seq![seeds[10]] + seeds.skip(11) =~= seeds.skip(10));
        assert((args.10, ()).all_seeded(s) == Ok::<Seq<Option<Tree>>, ArgumentFault>(seeds.skip(10)));
        assert(seq![seeds[9]] + seeds.skip(10) =~= seeds.skip(9));
        assert((args.9, (args.10, ())).all_seeded(s) == Ok::<Seq<Option<Tree>>, ArgumentFault>(seeds.skip(9)));
        assert(seq![seeds[8]] + seeds.skip(9) =~= seeds.skip(8));
        assert((args.8, (args.9, (args.10, ()))).all_seeded(s) == Ok::<Seq<Option<Tree>>, ArgumentFault>(seeds.skip(8)));
        assert(seq![seeds[7]] + seeds.skip(8) =~= seeds.skip(7));
        assert((args.7, (args.8, (args.9, (args.10, ())))).all_seeded(s) == Ok::<Seq<Option<Tree>>, ArgumentFault>(seeds.skip(7)));
        assert(seq![seeds[6]] + seeds.skip(7) =~= seeds.skip(6));
        assert((args.6, (args.7, (args.8, (args.9, (args.10, ()))))).all_seeded(s) == Ok::<Seq<Option<Tree>>, ArgumentFault>(seeds.skip(6)));
        assert(seq![seeds[5]] + seeds.skip(6) =~= seeds.skip(5));
        assert((args.5, (args.6, (args.7, (args.8, (args.9, (args.10, ())))))).all_seeded(s) == Ok::<Seq<Option<Tree>>, ArgumentFault>(seeds.skip(5)));
        assert(seq![seeds[4]] + seeds.skip(5) =~= seeds.skip(4));
        assert((args.4, (args.5, (args.6, (args.7, (args.8, (args.9, (args.10, ()))))))).all_seeded(s) == Ok::<Seq<Option<Tree>>, ArgumentFault>(seeds.skip(4)));
        assert(seq![seeds[3]] + seeds.skip(4) =~= seeds.skip(3));
        assert((args.3, (args.4, (args.5, (args.6, (args.7, (args.8, (args.9, (args.10, ())))))))).all_seeded(s) == Ok::<Seq<Option<Tree>>, ArgumentFault>(seeds.skip(3)));
        assert(seq![seeds[2]] + seeds.skip(3) =~= seeds.skip(2));
        assert((args.2, (args.3, (args.4, (args.5, (args.6, (args.7, (args.8, (args.9, (args.10, ()))))))))).all_seeded(s) == Ok::<Seq<Option<Tree>>, ArgumentFault>(seeds.skip(2)));
        assert(seq![seeds[1]] + seeds.skip(2) =~= seeds.skip(1));
        assert((args.1, (args.2, (args.3, (args.4, (args.5, (args.6, (args.7, (args.8, (args.9, (args.10, ())))))))))).all_seeded(s) == Ok::<Seq<Option<Tree>>, ArgumentFault>(seeds.skip(1)));
        assert(seq![seeds[0]] + seeds.skip(1) =~= seeds.skip(0));
        assert((args.0, (args.1, (args.2, (args.3, (args.4, (args.5, (args.6, (args.7, (args.8, (args.9, (args.10, ()))))))))))).all_seeded(s) == Ok::<Seq<Option<Tree>>, ArgumentFault>(seeds.skip(0)));
        assert(seeds.skip(0) =~= seeds);
    }
}

/// Twelve arguments take twelve places in their order.
pub proof fn arguments_of_twelve<A: Argument, B: Argument, C: Argument, D: Argument, E: Argument, F: Argument, G: Argument, H: Argument, I: Argument, J: Argument, K: Argument, L: Argument>(
    args: (A, B, C, D, E, F, G, H, I, J, K, L),
    s: State,
    seeds: Seq<Option<Tree>>,
    trail: Seq<(usize, Tree)>,
    ts: Seq<Tree>,
    values: (A::Value, B::Value, C::Value, D::Value, E::Value, F::Value, G::Value, H::Value, I::Value, J::Value, K::Value, L::Value),
)
    requires
        seeds.len() == 12,
        ts.len() == 12,
    ensures
        <(A, B, C, D, E, F, G, H, I, J, K, L) as ArgsSpec>::count() == 12,
        args.0.seeded(s) == Ok::<Option<Tree>, ArgumentFault>(seeds[0]) && args.1.seeded(s) == Ok::<Option<Tree>, ArgumentFault>(seeds[1]) && args.2.seeded(s) == Ok::<Option<Tree>, ArgumentFault>(seeds[2]) && args.3.seeded(s) == Ok::<Option<Tree>, ArgumentFault>(seeds[3]) && args.4.seeded(s) == Ok::<Option<Tree>, ArgumentFault>(seeds[4]) && args.5.seeded(s) == Ok::<Option<Tree>, ArgumentFault>(seeds[5]) && args.6.seeded(s) == Ok::<Option<Tree>, ArgumentFault>(seeds[6]) && args.7.seeded(s) == Ok::<Option<Tree>, ArgumentFault>(seeds[7]) && args.8.seeded(s) == Ok::<Option<Tree>, ArgumentFault>(seeds[8]) && args.9.seeded(s) == Ok::<Option<Tree>, ArgumentFault>(seeds[9]) && args.10.seeded(s) == Ok::<Option<Tree>, ArgumentFault>(seeds[10]) && args.11.seeded(s) == Ok::<Option<Tree>, ArgumentFault>(seeds[11]) ==> ArgsSpec::seeded(&args, s) == Ok::<Seq<Option<Tree>>, ArgumentFault>(seeds),
        ArgsSpec::seeded(&args, s) is Ok <==> args.0.seeded(s) is Ok && args.1.seeded(s) is Ok && args.2.seeded(s) is Ok && args.3.seeded(s) is Ok && args.4.seeded(s) is Ok && args.5.seeded(s) is Ok && args.6.seeded(s) is Ok && args.7.seeded(s) is Ok && args.8.seeded(s) is Ok && args.9.seeded(s) is Ok && args.10.seeded(s) is Ok && args.11.seeded(s) is Ok,
        <(A, B, C, D, E, F, G, H, I, J, K, L) as ArgsSpec>::decodes(trail, ts, values) <==> A::decodes(trail, ts[0], values.0) && B::decodes(trail, ts[1], values.1) && C::decodes(trail, ts[2], values.2) && D::decodes(trail, ts[3], values.3) && E::decodes(trail, ts[4], values.4) && F::decodes(trail, ts[5], values.5) && G::decodes(trail, ts[6], values.6) && H::decodes(trail, ts[7], values.7) && I::decodes(trail, ts[8], values.8) && J::decodes(trail, ts[9], values.9) && K::decodes(trail, ts[10], values.10) && L::decodes(trail, ts[11], values.11),
        <(A, B, C, D, E, F, G, H, I, J, K, L) as ArgsSpec>::decode_fault(trail, ts) is None <==> A::decode_fault(trail, ts[0]) is None && B::decode_fault(trail, ts[1]) is None && C::decode_fault(trail, ts[2]) is None && D::decode_fault(trail, ts[3]) is None && E::decode_fault(trail, ts[4]) is None && F::decode_fault(trail, ts[5]) is None && G::decode_fault(trail, ts[6]) is None && H::decode_fault(trail, ts[7]) is None && I::decode_fault(trail, ts[8]) is None && J::decode_fault(trail, ts[9]) is None && K::decode_fault(trail, ts[10]) is None && L::decode_fault(trail, ts[11]) is None,
        A::decode_fault(trail, ts[0]) matches Some(fault) ==> <(A, B, C, D, E, F, G, H, I, J, K, L) as ArgsSpec>::decode_fault(trail, ts) == Some(fault),
{
    let d1 = ts.skip(1);
    assert(ts.drop_first() =~= d1 && ts[0] == ts[0]);
    let d2 = ts.skip(2);
    assert(d1.drop_first() =~= d2 && d1[0] == ts[1]);
    let d3 = ts.skip(3);
    assert(d2.drop_first() =~= d3 && d2[0] == ts[2]);
    let d4 = ts.skip(4);
    assert(d3.drop_first() =~= d4 && d3[0] == ts[3]);
    let d5 = ts.skip(5);
    assert(d4.drop_first() =~= d5 && d4[0] == ts[4]);
    let d6 = ts.skip(6);
    assert(d5.drop_first() =~= d6 && d5[0] == ts[5]);
    let d7 = ts.skip(7);
    assert(d6.drop_first() =~= d7 && d6[0] == ts[6]);
    let d8 = ts.skip(8);
    assert(d7.drop_first() =~= d8 && d7[0] == ts[7]);
    let d9 = ts.skip(9);
    assert(d8.drop_first() =~= d9 && d8[0] == ts[8]);
    let d10 = ts.skip(10);
    assert(d9.drop_first() =~= d10 && d9[0] == ts[9]);
    let d11 = ts.skip(11);
    assert(d10.drop_first() =~= d11 && d10[0] == ts[10]);
    let d12 = ts.skip(12);
    assert(d11.drop_first() =~= d12 && d11[0] == ts[11]);
    assert((args.11, ()).all_seeded(s) is Ok <==> args.11.seeded(s) is Ok);
    assert((args.10, (args.11, ())).all_seeded(s) is Ok <==> args.10.seeded(s) is Ok && args.11.seeded(s) is Ok);
    assert((args.9, (args.10, (args.11, ()))).all_seeded(s) is Ok <==> args.9.seeded(s) is Ok && args.10.seeded(s) is Ok && args.11.seeded(s) is Ok);
    assert((args.8, (args.9, (args.10, (args.11, ())))).all_seeded(s) is Ok <==> args.8.seeded(s) is Ok && args.9.seeded(s) is Ok && args.10.seeded(s) is Ok && args.11.seeded(s) is Ok);
    assert((args.7, (args.8, (args.9, (args.10, (args.11, ()))))).all_seeded(s) is Ok <==> args.7.seeded(s) is Ok && args.8.seeded(s) is Ok && args.9.seeded(s) is Ok && args.10.seeded(s) is Ok && args.11.seeded(s) is Ok);
    assert((args.6, (args.7, (args.8, (args.9, (args.10, (args.11, ())))))).all_seeded(s) is Ok <==> args.6.seeded(s) is Ok && args.7.seeded(s) is Ok && args.8.seeded(s) is Ok && args.9.seeded(s) is Ok && args.10.seeded(s) is Ok && args.11.seeded(s) is Ok);
    assert((args.5, (args.6, (args.7, (args.8, (args.9, (args.10, (args.11, ()))))))).all_seeded(s) is Ok <==> args.5.seeded(s) is Ok && args.6.seeded(s) is Ok && args.7.seeded(s) is Ok && args.8.seeded(s) is Ok && args.9.seeded(s) is Ok && args.10.seeded(s) is Ok && args.11.seeded(s) is Ok);
    assert((args.4, (args.5, (args.6, (args.7, (args.8, (args.9, (args.10, (args.11, ())))))))).all_seeded(s) is Ok <==> args.4.seeded(s) is Ok && args.5.seeded(s) is Ok && args.6.seeded(s) is Ok && args.7.seeded(s) is Ok && args.8.seeded(s) is Ok && args.9.seeded(s) is Ok && args.10.seeded(s) is Ok && args.11.seeded(s) is Ok);
    assert((args.3, (args.4, (args.5, (args.6, (args.7, (args.8, (args.9, (args.10, (args.11, ()))))))))).all_seeded(s) is Ok <==> args.3.seeded(s) is Ok && args.4.seeded(s) is Ok && args.5.seeded(s) is Ok && args.6.seeded(s) is Ok && args.7.seeded(s) is Ok && args.8.seeded(s) is Ok && args.9.seeded(s) is Ok && args.10.seeded(s) is Ok && args.11.seeded(s) is Ok);
    assert((args.2, (args.3, (args.4, (args.5, (args.6, (args.7, (args.8, (args.9, (args.10, (args.11, ())))))))))).all_seeded(s) is Ok <==> args.2.seeded(s) is Ok && args.3.seeded(s) is Ok && args.4.seeded(s) is Ok && args.5.seeded(s) is Ok && args.6.seeded(s) is Ok && args.7.seeded(s) is Ok && args.8.seeded(s) is Ok && args.9.seeded(s) is Ok && args.10.seeded(s) is Ok && args.11.seeded(s) is Ok);
    assert((args.1, (args.2, (args.3, (args.4, (args.5, (args.6, (args.7, (args.8, (args.9, (args.10, (args.11, ()))))))))))).all_seeded(s) is Ok <==> args.1.seeded(s) is Ok && args.2.seeded(s) is Ok && args.3.seeded(s) is Ok && args.4.seeded(s) is Ok && args.5.seeded(s) is Ok && args.6.seeded(s) is Ok && args.7.seeded(s) is Ok && args.8.seeded(s) is Ok && args.9.seeded(s) is Ok && args.10.seeded(s) is Ok && args.11.seeded(s) is Ok);
    assert((args.0, (args.1, (args.2, (args.3, (args.4, (args.5, (args.6, (args.7, (args.8, (args.9, (args.10, (args.11, ())))))))))))).all_seeded(s) is Ok <==> args.0.seeded(s) is Ok && args.1.seeded(s) is Ok && args.2.seeded(s) is Ok && args.3.seeded(s) is Ok && args.4.seeded(s) is Ok && args.5.seeded(s) is Ok && args.6.seeded(s) is Ok && args.7.seeded(s) is Ok && args.8.seeded(s) is Ok && args.9.seeded(s) is Ok && args.10.seeded(s) is Ok && args.11.seeded(s) is Ok);
    if args.0.seeded(s) == Ok::<Option<Tree>, ArgumentFault>(seeds[0]) && args.1.seeded(s) == Ok::<Option<Tree>, ArgumentFault>(seeds[1]) && args.2.seeded(s) == Ok::<Option<Tree>, ArgumentFault>(seeds[2]) && args.3.seeded(s) == Ok::<Option<Tree>, ArgumentFault>(seeds[3]) && args.4.seeded(s) == Ok::<Option<Tree>, ArgumentFault>(seeds[4]) && args.5.seeded(s) == Ok::<Option<Tree>, ArgumentFault>(seeds[5]) && args.6.seeded(s) == Ok::<Option<Tree>, ArgumentFault>(seeds[6]) && args.7.seeded(s) == Ok::<Option<Tree>, ArgumentFault>(seeds[7]) && args.8.seeded(s) == Ok::<Option<Tree>, ArgumentFault>(seeds[8]) && args.9.seeded(s) == Ok::<Option<Tree>, ArgumentFault>(seeds[9]) && args.10.seeded(s) == Ok::<Option<Tree>, ArgumentFault>(seeds[10]) && args.11.seeded(s) == Ok::<Option<Tree>, ArgumentFault>(seeds[11]) {
        assert(seeds.skip(12) =~= Seq::empty());
        assert(seq![seeds[11]] + seeds.skip(12) =~= seeds.skip(11));
        assert((args.11, ()).all_seeded(s) == Ok::<Seq<Option<Tree>>, ArgumentFault>(seeds.skip(11)));
        assert(seq![seeds[10]] + seeds.skip(11) =~= seeds.skip(10));
        assert((args.10, (args.11, ())).all_seeded(s) == Ok::<Seq<Option<Tree>>, ArgumentFault>(seeds.skip(10)));
        assert(seq![seeds[9]] + seeds.skip(10) =~= seeds.skip(9));
        assert((args.9, (args.10, (args.11, ()))).all_seeded(s) == Ok::<Seq<Option<Tree>>, ArgumentFault>(seeds.skip(9)));
        assert(seq![seeds[8]] + seeds.skip(9) =~= seeds.skip(8));
        assert((args.8, (args.9, (args.10, (args.11, ())))).all_seeded(s) == Ok::<Seq<Option<Tree>>, ArgumentFault>(seeds.skip(8)));
        assert(seq![seeds[7]] + seeds.skip(8) =~= seeds.skip(7));
        assert((args.7, (args.8, (args.9, (args.10, (args.11, ()))))).all_seeded(s) == Ok::<Seq<Option<Tree>>, ArgumentFault>(seeds.skip(7)));
        assert(seq![seeds[6]] + seeds.skip(7) =~= seeds.skip(6));
        assert((args.6, (args.7, (args.8, (args.9, (args.10, (args.11, ())))))).all_seeded(s) == Ok::<Seq<Option<Tree>>, ArgumentFault>(seeds.skip(6)));
        assert(seq![seeds[5]] + seeds.skip(6) =~= seeds.skip(5));
        assert((args.5, (args.6, (args.7, (args.8, (args.9, (args.10, (args.11, ()))))))).all_seeded(s) == Ok::<Seq<Option<Tree>>, ArgumentFault>(seeds.skip(5)));
        assert(seq![seeds[4]] + seeds.skip(5) =~= seeds.skip(4));
        assert((args.4, (args.5, (args.6, (args.7, (args.8, (args.9, (args.10, (args.11, ())))))))).all_seeded(s) == Ok::<Seq<Option<Tree>>, ArgumentFault>(seeds.skip(4)));
        assert(seq![seeds[3]] + seeds.skip(4) =~= seeds.skip(3));
        assert((args.3, (args.4, (args.5, (args.6, (args.7, (args.8, (args.9, (args.10, (args.11, ()))))))))).all_seeded(s) == Ok::<Seq<Option<Tree>>, ArgumentFault>(seeds.skip(3)));
        assert(seq![seeds[2]] + seeds.skip(3) =~= seeds.skip(2));
        assert((args.2, (args.3, (args.4, (args.5, (args.6, (args.7, (args.8, (args.9, (args.10, (args.11, ())))))))))).all_seeded(s) == Ok::<Seq<Option<Tree>>, ArgumentFault>(seeds.skip(2)));
        assert(seq![seeds[1]] + seeds.skip(2) =~= seeds.skip(1));
        assert((args.1, (args.2, (args.3, (args.4, (args.5, (args.6, (args.7, (args.8, (args.9, (args.10, (args.11, ()))))))))))).all_seeded(s) == Ok::<Seq<Option<Tree>>, ArgumentFault>(seeds.skip(1)));
        assert(seq![seeds[0]] + seeds.skip(1) =~= seeds.skip(0));
        assert((args.0, (args.1, (args.2, (args.3, (args.4, (args.5, (args.6, (args.7, (args.8, (args.9, (args.10, (args.11, ())))))))))))).all_seeded(s) == Ok::<Seq<Option<Tree>>, ArgumentFault>(seeds.skip(0)));
        assert(seeds.skip(0) =~= seeds);
    }
}

/// Thirteen arguments take thirteen places in their order.
pub proof fn arguments_of_thirteen<A: Argument, B: Argument, C: Argument, D: Argument, E: Argument, F: Argument, G: Argument, H: Argument, I: Argument, J: Argument, K: Argument, L: Argument, M: Argument>(
    args: (A, B, C, D, E, F, G, H, I, J, K, L, M),
    s: State,
    seeds: Seq<Option<Tree>>,
    trail: Seq<(usize, Tree)>,
    ts: Seq<Tree>,
    values: (A::Value, B::Value, C::Value, D::Value, E::Value, F::Value, G::Value, H::Value, I::Value, J::Value, K::Value, L::Value, M::Value),
)
    requires
        seeds.len() == 13,
        ts.len() == 13,
    ensures
        <(A, B, C, D, E, F, G, H, I, J, K, L, M) as ArgsSpec>::count() == 13,
        args.0.seeded(s) == Ok::<Option<Tree>, ArgumentFault>(seeds[0]) && args.1.seeded(s) == Ok::<Option<Tree>, ArgumentFault>(seeds[1]) && args.2.seeded(s) == Ok::<Option<Tree>, ArgumentFault>(seeds[2]) && args.3.seeded(s) == Ok::<Option<Tree>, ArgumentFault>(seeds[3]) && args.4.seeded(s) == Ok::<Option<Tree>, ArgumentFault>(seeds[4]) && args.5.seeded(s) == Ok::<Option<Tree>, ArgumentFault>(seeds[5]) && args.6.seeded(s) == Ok::<Option<Tree>, ArgumentFault>(seeds[6]) && args.7.seeded(s) == Ok::<Option<Tree>, ArgumentFault>(seeds[7]) && args.8.seeded(s) == Ok::<Option<Tree>, ArgumentFault>(seeds[8]) && args.9.seeded(s) == Ok::<Option<Tree>, ArgumentFault>(seeds[9]) && args.10.seeded(s) == Ok::<Option<Tree>, ArgumentFault>(seeds[10]) && args.11.seeded(s) == Ok::<Option<Tree>, ArgumentFault>(seeds[11]) && args.12.seeded(s) == Ok::<Option<Tree>, ArgumentFault>(seeds[12]) ==> ArgsSpec::seeded(&args, s) == Ok::<Seq<Option<Tree>>, ArgumentFault>(seeds),
        ArgsSpec::seeded(&args, s) is Ok <==> args.0.seeded(s) is Ok && args.1.seeded(s) is Ok && args.2.seeded(s) is Ok && args.3.seeded(s) is Ok && args.4.seeded(s) is Ok && args.5.seeded(s) is Ok && args.6.seeded(s) is Ok && args.7.seeded(s) is Ok && args.8.seeded(s) is Ok && args.9.seeded(s) is Ok && args.10.seeded(s) is Ok && args.11.seeded(s) is Ok && args.12.seeded(s) is Ok,
        <(A, B, C, D, E, F, G, H, I, J, K, L, M) as ArgsSpec>::decodes(trail, ts, values) <==> A::decodes(trail, ts[0], values.0) && B::decodes(trail, ts[1], values.1) && C::decodes(trail, ts[2], values.2) && D::decodes(trail, ts[3], values.3) && E::decodes(trail, ts[4], values.4) && F::decodes(trail, ts[5], values.5) && G::decodes(trail, ts[6], values.6) && H::decodes(trail, ts[7], values.7) && I::decodes(trail, ts[8], values.8) && J::decodes(trail, ts[9], values.9) && K::decodes(trail, ts[10], values.10) && L::decodes(trail, ts[11], values.11) && M::decodes(trail, ts[12], values.12),
        <(A, B, C, D, E, F, G, H, I, J, K, L, M) as ArgsSpec>::decode_fault(trail, ts) is None <==> A::decode_fault(trail, ts[0]) is None && B::decode_fault(trail, ts[1]) is None && C::decode_fault(trail, ts[2]) is None && D::decode_fault(trail, ts[3]) is None && E::decode_fault(trail, ts[4]) is None && F::decode_fault(trail, ts[5]) is None && G::decode_fault(trail, ts[6]) is None && H::decode_fault(trail, ts[7]) is None && I::decode_fault(trail, ts[8]) is None && J::decode_fault(trail, ts[9]) is None && K::decode_fault(trail, ts[10]) is None && L::decode_fault(trail, ts[11]) is None && M::decode_fault(trail, ts[12]) is None,
        A::decode_fault(trail, ts[0]) matches Some(fault) ==> <(A, B, C, D, E, F, G, H, I, J, K, L, M) as ArgsSpec>::decode_fault(trail, ts) == Some(fault),
{
    let d1 = ts.skip(1);
    assert(ts.drop_first() =~= d1 && ts[0] == ts[0]);
    let d2 = ts.skip(2);
    assert(d1.drop_first() =~= d2 && d1[0] == ts[1]);
    let d3 = ts.skip(3);
    assert(d2.drop_first() =~= d3 && d2[0] == ts[2]);
    let d4 = ts.skip(4);
    assert(d3.drop_first() =~= d4 && d3[0] == ts[3]);
    let d5 = ts.skip(5);
    assert(d4.drop_first() =~= d5 && d4[0] == ts[4]);
    let d6 = ts.skip(6);
    assert(d5.drop_first() =~= d6 && d5[0] == ts[5]);
    let d7 = ts.skip(7);
    assert(d6.drop_first() =~= d7 && d6[0] == ts[6]);
    let d8 = ts.skip(8);
    assert(d7.drop_first() =~= d8 && d7[0] == ts[7]);
    let d9 = ts.skip(9);
    assert(d8.drop_first() =~= d9 && d8[0] == ts[8]);
    let d10 = ts.skip(10);
    assert(d9.drop_first() =~= d10 && d9[0] == ts[9]);
    let d11 = ts.skip(11);
    assert(d10.drop_first() =~= d11 && d10[0] == ts[10]);
    let d12 = ts.skip(12);
    assert(d11.drop_first() =~= d12 && d11[0] == ts[11]);
    let d13 = ts.skip(13);
    assert(d12.drop_first() =~= d13 && d12[0] == ts[12]);
    assert((args.12, ()).all_seeded(s) is Ok <==> args.12.seeded(s) is Ok);
    assert((args.11, (args.12, ())).all_seeded(s) is Ok <==> args.11.seeded(s) is Ok && args.12.seeded(s) is Ok);
    assert((args.10, (args.11, (args.12, ()))).all_seeded(s) is Ok <==> args.10.seeded(s) is Ok && args.11.seeded(s) is Ok && args.12.seeded(s) is Ok);
    assert((args.9, (args.10, (args.11, (args.12, ())))).all_seeded(s) is Ok <==> args.9.seeded(s) is Ok && args.10.seeded(s) is Ok && args.11.seeded(s) is Ok && args.12.seeded(s) is Ok);
    assert((args.8, (args.9, (args.10, (args.11, (args.12, ()))))).all_seeded(s) is Ok <==> args.8.seeded(s) is Ok && args.9.seeded(s) is Ok && args.10.seeded(s) is Ok && args.11.seeded(s) is Ok && args.12.seeded(s) is Ok);
    assert((args.7, (args.8, (args.9, (args.10, (args.11, (args.12, ())))))).all_seeded(s) is Ok <==> args.7.seeded(s) is Ok && args.8.seeded(s) is Ok && args.9.seeded(s) is Ok && args.10.seeded(s) is Ok && args.11.seeded(s) is Ok && args.12.seeded(s) is Ok);
    assert((args.6, (args.7, (args.8, (args.9, (args.10, (args.11, (args.12, ()))))))).all_seeded(s) is Ok <==> args.6.seeded(s) is Ok && args.7.seeded(s) is Ok && args.8.seeded(s) is Ok && args.9.seeded(s) is Ok && args.10.seeded(s) is Ok && args.11.seeded(s) is Ok && args.12.seeded(s) is Ok);
    assert((args.5, (args.6, (args.7, (args.8, (args.9, (args.10, (args.11, (args.12, ())))))))).all_seeded(s) is Ok <==> args.5.seeded(s) is Ok && args.6.seeded(s) is Ok && args.7.seeded(s) is Ok && args.8.seeded(s) is Ok && args.9.seeded(s) is Ok && args.10.seeded(s) is Ok && args.11.seeded(s) is Ok && args.12.seeded(s) is Ok);
    assert((args.4, (args.5, (args.6, (args.7, (args.8, (args.9, (args.10, (args.11, (args.12, ()))))))))).all_seeded(s) is Ok <==> args.4.seeded(s) is Ok && args.5.seeded(s) is Ok && args.6.seeded(s) is Ok && args.7.seeded(s) is Ok && args.8.seeded(s) is Ok && args.9.seeded(s) is Ok && args.10.seeded(s) is Ok && args.11.seeded(s) is Ok && args.12.seeded(s) is Ok);
    assert((args.3, (args.4, (args.5, (args.6, (args.7, (args.8, (args.9, (args.10, (args.11, (args.12, ())))))))))).all_seeded(s) is Ok <==> args.3.seeded(s) is Ok && args.4.seeded(s) is Ok && args.5.seeded(s) is Ok && args.6.seeded(s) is Ok && args.7.seeded(s) is Ok && args.8.seeded(s) is Ok && args.9.seeded(s) is Ok && args.10.seeded(s) is Ok && args.11.seeded(s) is Ok && args.12.seeded(s) is Ok);
    assert((args.2, (args.3, (args.4, (args.5, (args.6, (args.7, (args.8, (args.9, (args.10, (args.11, (args.12, ()))))))))))).all_seeded(s) is Ok <==> args.2.seeded(s) is Ok && args.3.seeded(s) is Ok && args.4.seeded(s) is Ok && args.5.seeded(s) is Ok && args.6.seeded(s) is Ok && args.7.seeded(s) is Ok && args.8.seeded(s) is Ok && args.9.seeded(s) is Ok && args.10.seeded(s) is Ok && args.11.seeded(s) is Ok && args.12.seeded(s) is Ok);
    assert((args.1, (args.2, (args.3, (args.4, (args.5, (args.6, (args.7, (args.8, (args.9, (args.10, (args.11, (args.12, ())))))))))))).all_seeded(s) is Ok <==> args.1.seeded(s) is Ok && args.2.seeded(s) is Ok && args.3.seeded(s) is Ok && args.4.seeded(s) is Ok && args.5.seeded(s) is Ok && args.6.seeded(s) is Ok && args.7.seeded(s) is Ok && args.8.seeded(s) is Ok && args.9.seeded(s) is Ok && args.10.seeded(s) is Ok && args.11.seeded(s) is Ok && args.12.seeded(s) is Ok);
    assert((args.0, (args.1, (args.2, (args.3, (args.4, (args.5, (args.6, (args.7, (args.8, (args.9, (args.10, (args.11, (args.12, ()))))))))))))).all_seeded(s) is Ok <==> args.0.seeded(s) is Ok && args.1.seeded(s) is Ok && args.2.seeded(s) is Ok && args.3.seeded(s) is Ok && args.4.seeded(s) is Ok && args.5.seeded(s) is Ok && args.6.seeded(s) is Ok && args.7.seeded(s) is Ok && args.8.seeded(s) is Ok && args.9.seeded(s) is Ok && args.10.seeded(s) is Ok && args.11.seeded(s) is Ok && args.12.seeded(s) is Ok);
    if args.0.seeded(s) == Ok::<Option<Tree>, ArgumentFault>(seeds[0]) && args.1.seeded(s) == Ok::<Option<Tree>, ArgumentFault>(seeds[1]) && args.2.seeded(s) == Ok::<Option<Tree>, ArgumentFault>(seeds[2]) && args.3.seeded(s) == Ok::<Option<Tree>, ArgumentFault>(seeds[3]) && args.4.seeded(s) == Ok::<Option<Tree>, ArgumentFault>(seeds[4]) && args.5.seeded(s) == Ok::<Option<Tree>, ArgumentFault>(seeds[5]) && args.6.seeded(s) == Ok::<Option<Tree>, ArgumentFault>(seeds[6]) && args.7.seeded(s) == Ok::<Option<Tree>, ArgumentFault>(seeds[7]) && args.8.seeded(s) == Ok::<Option<Tree>, ArgumentFault>(seeds[8]) && args.9.seeded(s) == Ok::<Option<Tree>, ArgumentFault>(seeds[9]) && args.10.seeded(s) == Ok::<Option<Tree>, ArgumentFault>(seeds[10]) && args.11.seeded(s) == Ok::<Option<Tree>, ArgumentFault>(seeds[11]) && args.12.seeded(s) == Ok::<Option<Tree>, ArgumentFault>(seeds[12]) {
        assert(seeds.skip(13) =~= Seq::empty());
        assert(seq![seeds[12]] + seeds.skip(13) =~= seeds.skip(12));
        assert((args.12, ()).all_seeded(s) == Ok::<Seq<Option<Tree>>, ArgumentFault>(seeds.skip(12)));
        assert(seq![seeds[11]] + seeds.skip(12) =~= seeds.skip(11));
        assert((args.11, (args.12, ())).all_seeded(s) == Ok::<Seq<Option<Tree>>, ArgumentFault>(seeds.skip(11)));
        assert(seq![seeds[10]] + seeds.skip(11) =~= seeds.skip(10));
        assert((args.10, (args.11, (args.12, ()))).all_seeded(s) == Ok::<Seq<Option<Tree>>, ArgumentFault>(seeds.skip(10)));
        assert(seq![seeds[9]] + seeds.skip(10) =~= seeds.skip(9));
        assert((args.9, (args.10, (args.11, (args.12, ())))).all_seeded(s) == Ok::<Seq<Option<Tree>>, ArgumentFault>(seeds.skip(9)));
        assert(seq![seeds[8]] + seeds.skip(9) =~= seeds.skip(8));
        assert((args.8, (args.9, (args.10, (args.11, (args.12, ()))))).all_seeded(s) == Ok::<Seq<Option<Tree>>, ArgumentFault>(seeds.skip(8)));
        assert(seq![seeds[7]] + seeds.skip(8) =~= seeds.skip(7));
        assert((args.7, (args.8, (args.9, (args.10, (args.11, (args.12, ())))))).all_seeded(s) == Ok::<Seq<Option<Tree>>, ArgumentFault>(seeds.skip(7)));
        assert(seq![seeds[6]] + seeds.skip(7) =~= seeds.skip(6));
        assert((args.6, (args.7, (args.8, (args.9, (args.10, (args.11, (args.12, ()))))))).all_seeded(s) == Ok::<Seq<Option<Tree>>, ArgumentFault>(seeds.skip(6)));
        assert(seq![seeds[5]] + seeds.skip(6) =~= seeds.skip(5));
        assert((args.5, (args.6, (args.7, (args.8, (args.9, (args.10, (args.11, (args.12, ())))))))).all_seeded(s) == Ok::<Seq<Option<Tree>>, ArgumentFault>(seeds.skip(5)));
        assert(seq![seeds[4]] + seeds.skip(5) =~= seeds.skip(4));
        assert((args.4, (args.5, (args.6, (args.7, (args.8, (args.9, (args.10, (args.11, (args.12, ()))))))))).all_seeded(s) == Ok::<Seq<Option<Tree>>, ArgumentFault>(seeds.skip(4)));
        assert(seq![seeds[3]] + seeds.skip(4) =~= seeds.skip(3));
        assert((args.3, (args.4, (args.5, (args.6, (args.7, (args.8, (args.9, (args.10, (args.11, (args.12, ())))))))))).all_seeded(s) == Ok::<Seq<Option<Tree>>, ArgumentFault>(seeds.skip(3)));
        assert(seq![seeds[2]] + seeds.skip(3) =~= seeds.skip(2));
        assert((args.2, (args.3, (args.4, (args.5, (args.6, (args.7, (args.8, (args.9, (args.10, (args.11, (args.12, ()))))))))))).all_seeded(s) == Ok::<Seq<Option<Tree>>, ArgumentFault>(seeds.skip(2)));
        assert(seq![seeds[1]] + seeds.skip(2) =~= seeds.skip(1));
        assert((args.1, (args.2, (args.3, (args.4, (args.5, (args.6, (args.7, (args.8, (args.9, (args.10, (args.11, (args.12, ())))))))))))).all_seeded(s) == Ok::<Seq<Option<Tree>>, ArgumentFault>(seeds.skip(1)));
        assert(seq![seeds[0]] + seeds.skip(1) =~= seeds.skip(0));
        assert((args.0, (args.1, (args.2, (args.3, (args.4, (args.5, (args.6, (args.7, (args.8, (args.9, (args.10, (args.11, (args.12, ()))))))))))))).all_seeded(s) == Ok::<Seq<Option<Tree>>, ArgumentFault>(seeds.skip(0)));
        assert(seeds.skip(0) =~= seeds);
    }
}

/// Fourteen arguments take fourteen places in their order.
pub proof fn arguments_of_fourteen<A: Argument, B: Argument, C: Argument, D: Argument, E: Argument, F: Argument, G: Argument, H: Argument, I: Argument, J: Argument, K: Argument, L: Argument, M: Argument, N: Argument>(
    args: (A, B, C, D, E, F, G, H, I, J, K, L, M, N),
    s: State,
    seeds: Seq<Option<Tree>>,
    trail: Seq<(usize, Tree)>,
    ts: Seq<Tree>,
    values: (A::Value, B::Value, C::Value, D::Value, E::Value, F::Value, G::Value, H::Value, I::Value, J::Value, K::Value, L::Value, M::Value, N::Value),
)
    requires
        seeds.len() == 14,
        ts.len() == 14,
    ensures
        <(A, B, C, D, E, F, G, H, I, J, K, L, M, N) as ArgsSpec>::count() == 14,
        args.0.seeded(s) == Ok::<Option<Tree>, ArgumentFault>(seeds[0]) && args.1.seeded(s) == Ok::<Option<Tree>, ArgumentFault>(seeds[1]) && args.2.seeded(s) == Ok::<Option<Tree>, ArgumentFault>(seeds[2]) && args.3.seeded(s) == Ok::<Option<Tree>, ArgumentFault>(seeds[3]) && args.4.seeded(s) == Ok::<Option<Tree>, ArgumentFault>(seeds[4]) && args.5.seeded(s) == Ok::<Option<Tree>, ArgumentFault>(seeds[5]) && args.6.seeded(s) == Ok::<Option<Tree>, ArgumentFault>(seeds[6]) && args.7.seeded(s) == Ok::<Option<Tree>, ArgumentFault>(seeds[7]) && args.8.seeded(s) == Ok::<Option<Tree>, ArgumentFault>(seeds[8]) && args.9.seeded(s) == Ok::<Option<Tree>, ArgumentFault>(seeds[9]) && args.10.seeded(s) == Ok::<Option<Tree>, ArgumentFault>(seeds[10]) && args.11.seeded(s) == Ok::<Option<Tree>, ArgumentFault>(seeds[11]) && args.12.seeded(s) == Ok::<Option<Tree>, ArgumentFault>(seeds[12]) && args.13.seeded(s) == Ok::<Option<Tree>, ArgumentFault>(seeds[13]) ==> ArgsSpec::seeded(&args, s) == Ok::<Seq<Option<Tree>>, ArgumentFault>(seeds),
        ArgsSpec::seeded(&args, s) is Ok <==> args.0.seeded(s) is Ok && args.1.seeded(s) is Ok && args.2.seeded(s) is Ok && args.3.seeded(s) is Ok && args.4.seeded(s) is Ok && args.5.seeded(s) is Ok && args.6.seeded(s) is Ok && args.7.seeded(s) is Ok && args.8.seeded(s) is Ok && args.9.seeded(s) is Ok && args.10.seeded(s) is Ok && args.11.seeded(s) is Ok && args.12.seeded(s) is Ok && args.13.seeded(s) is Ok,
        <(A, B, C, D, E, F, G, H, I, J, K, L, M, N) as ArgsSpec>::decodes(trail, ts, values) <==> A::decodes(trail, ts[0], values.0) && B::decodes(trail, ts[1], values.1) && C::decodes(trail, ts[2], values.2) && D::decodes(trail, ts[3], values.3) && E::decodes(trail, ts[4], values.4) && F::decodes(trail, ts[5], values.5) && G::decodes(trail, ts[6], values.6) && H::decodes(trail, ts[7], values.7) && I::decodes(trail, ts[8], values.8) && J::decodes(trail, ts[9], values.9) && K::decodes(trail, ts[10], values.10) && L::decodes(trail, ts[11], values.11) && M::decodes(trail, ts[12], values.12) && N::decodes(trail, ts[13], values.13),
        <(A, B, C, D, E, F, G, H, I, J, K, L, M, N) as ArgsSpec>::decode_fault(trail, ts) is None <==> A::decode_fault(trail, ts[0]) is None && B::decode_fault(trail, ts[1]) is None && C::decode_fault(trail, ts[2]) is None && D::decode_fault(trail, ts[3]) is None && E::decode_fault(trail, ts[4]) is None && F::decode_fault(trail, ts[5]) is None && G::decode_fault(trail, ts[6]) is None && H::decode_fault(trail, ts[7]) is None && I::decode_fault(trail, ts[8]) is None && J::decode_fault(trail, ts[9]) is None && K::decode_fault(trail, ts[10]) is None && L::decode_fault(trail, ts[11]) is None && M::decode_fault(trail, ts[12]) is None && N::decode_fault(trail, ts[13]) is None,
        A::decode_fault(trail, ts[0]) matches Some(fault) ==> <(A, B, C, D, E, F, G, H, I, J, K, L, M, N) as ArgsSpec>::decode_fault(trail, ts) == Some(fault),
{
    let d1 = ts.skip(1);
    assert(ts.drop_first() =~= d1 && ts[0] == ts[0]);
    let d2 = ts.skip(2);
    assert(d1.drop_first() =~= d2 && d1[0] == ts[1]);
    let d3 = ts.skip(3);
    assert(d2.drop_first() =~= d3 && d2[0] == ts[2]);
    let d4 = ts.skip(4);
    assert(d3.drop_first() =~= d4 && d3[0] == ts[3]);
    let d5 = ts.skip(5);
    assert(d4.drop_first() =~= d5 && d4[0] == ts[4]);
    let d6 = ts.skip(6);
    assert(d5.drop_first() =~= d6 && d5[0] == ts[5]);
    let d7 = ts.skip(7);
    assert(d6.drop_first() =~= d7 && d6[0] == ts[6]);
    let d8 = ts.skip(8);
    assert(d7.drop_first() =~= d8 && d7[0] == ts[7]);
    let d9 = ts.skip(9);
    assert(d8.drop_first() =~= d9 && d8[0] == ts[8]);
    let d10 = ts.skip(10);
    assert(d9.drop_first() =~= d10 && d9[0] == ts[9]);
    let d11 = ts.skip(11);
    assert(d10.drop_first() =~= d11 && d10[0] == ts[10]);
    let d12 = ts.skip(12);
    assert(d11.drop_first() =~= d12 && d11[0] == ts[11]);
    let d13 = ts.skip(13);
    assert(d12.drop_first() =~= d13 && d12[0] == ts[12]);
    let d14 = ts.skip(14);
    assert(d13.drop_first() =~= d14 && d13[0] == ts[13]);
    assert((args.13, ()).all_seeded(s) is Ok <==> args.13.seeded(s) is Ok);
    assert((args.12, (args.13, ())).all_seeded(s) is Ok <==> args.12.seeded(s) is Ok && args.13.seeded(s) is Ok);
    assert((args.11, (args.12, (args.13, ()))).all_seeded(s) is Ok <==> args.11.seeded(s) is Ok && args.12.seeded(s) is Ok && args.13.seeded(s) is Ok);
    assert((args.10, (args.11, (args.12, (args.13, ())))).all_seeded(s) is Ok <==> args.10.seeded(s) is Ok && args.11.seeded(s) is Ok && args.12.seeded(s) is Ok && args.13.seeded(s) is Ok);
    assert((args.9, (args.10, (args.11, (args.12, (args.13, ()))))).all_seeded(s) is Ok <==> args.9.seeded(s) is Ok && args.10.seeded(s) is Ok && args.11.seeded(s) is Ok && args.12.seeded(s) is Ok && args.13.seeded(s) is Ok);
    assert((args.8, (args.9, (args.10, (args.11, (args.12, (args.13, ())))))).all_seeded(s) is Ok <==> args.8.seeded(s) is Ok && args.9.seeded(s) is Ok && args.10.seeded(s) is Ok && args.11.seeded(s) is Ok && args.12.seeded(s) is Ok && args.13.seeded(s) is Ok);
    assert((args.7, (args.8, (args.9, (args.10, (args.11, (args.12, (args.13, ()))))))).all_seeded(s) is Ok <==> args.7.seeded(s) is Ok && args.8.seeded(s) is Ok && args.9.seeded(s) is Ok && args.10.seeded(s) is Ok && args.11.seeded(s) is Ok && args.12.seeded(s) is Ok && args.13.seeded(s) is Ok);
    assert((args.6, (args.7, (args.8, (args.9, (args.10, (args.11, (args.12, (args.13, ())))))))).all_seeded(s) is Ok <==> args.6.seeded(s) is Ok && args.7.seeded(s) is Ok && args.8.seeded(s) is Ok && args.9.seeded(s) is Ok && args.10.seeded(s) is Ok && args.11.seeded(s) is Ok && args.12.seeded(s) is Ok && args.13.seeded(s) is Ok);
    assert((args.5, (args.6, (args.7, (args.8, (args.9, (args.10, (args.11, (args.12, (args.13, ()))))))))).all_seeded(s) is Ok <==> args.5.seeded(s) is Ok && args.6.seeded(s) is Ok && args.7.seeded(s) is Ok && args.8.seeded(s) is Ok && args.9.seeded(s) is Ok && args.10.seeded(s) is Ok && args.11.seeded(s) is Ok && args.12.seeded(s) is Ok && args.13.seeded(s) is Ok);
    assert((args.4, (args.5, (args.6, (args.7, (args.8, (args.9, (args.10, (args.11, (args.12, (args.13, ())))))))))).all_seeded(s) is Ok <==> args.4.seeded(s) is Ok && args.5.seeded(s) is Ok && args.6.seeded(s) is Ok && args.7.seeded(s) is Ok && args.8.seeded(s) is Ok && args.9.seeded(s) is Ok && args.10.seeded(s) is Ok && args.11.seeded(s) is Ok && args.12.seeded(s) is Ok && args.13.seeded(s) is Ok);
    assert((args.3, (args.4, (args.5, (args.6, (args.7, (args.8, (args.9, (args.10, (args.11, (args.12, (args.13, ()))))))))))).all_seeded(s) is Ok <==> args.3.seeded(s) is Ok && args.4.seeded(s) is Ok && args.5.seeded(s) is Ok && args.6.seeded(s) is Ok && args.7.seeded(s) is Ok && args.8.seeded(s) is Ok && args.9.seeded(s) is Ok && args.10.seeded(s) is Ok && args.11.seeded(s) is Ok && args.12.seeded(s) is Ok && args.13.seeded(s) is Ok);
    assert((args.2, (args.3, (args.4, (args.5, (args.6, (args.7, (args.8, (args.9, (args.10, (args.11, (args.12, (args.13, ())))))))))))).all_seeded(s) is Ok <==> args.2.seeded(s) is Ok && args.3.seeded(s) is Ok && args.4.seeded(s) is Ok && args.5.seeded(s) is Ok && args.6.seeded(s) is Ok && args.7.seeded(s) is Ok && args.8.seeded(s) is Ok && args.9.seeded(s) is Ok && args.10.seeded(s) is Ok && args.11.seeded(s) is Ok && args.12.seeded(s) is Ok && args.13.seeded(s) is Ok);
    assert((args.1, (args.2, (args.3, (args.4, (args.5, (args.6, (args.7, (args.8, (args.9, (args.10, (args.11, (args.12, (args.13, ()))))))))))))).all_seeded(s) is Ok <==> args.1.seeded(s) is Ok && args.2.seeded(s) is Ok && args.3.seeded(s) is Ok && args.4.seeded(s) is Ok && args.5.seeded(s) is Ok && args.6.seeded(s) is Ok && args.7.seeded(s) is Ok && args.8.seeded(s) is Ok && args.9.seeded(s) is Ok && args.10.seeded(s) is Ok && args.11.seeded(s) is Ok && args.12.seeded(s) is Ok && args.13.seeded(s) is Ok);
    assert((args.0, (args.1, (args.2, (args.3, (args.4, (args.5, (args.6, (args.7, (args.8, (args.9, (args.10, (args.11, (args.12, (args.13, ())))))))))))))).all_seeded(s) is Ok <==> args.0.seeded(s) is Ok && args.1.seeded(s) is Ok && args.2.seeded(s) is Ok && args.3.seeded(s) is Ok && args.4.seeded(s) is Ok && args.5.seeded(s) is Ok && args.6.seeded(s) is Ok && args.7.seeded(s) is Ok && args.8.seeded(s) is Ok && args.9.seeded(s) is Ok && args.10.seeded(s) is Ok && args.11.seeded(s) is Ok && args.12.seeded(s) is Ok && args.13.seeded(s) is Ok);
    if args.0.seeded(s) == Ok::<Option<Tree>, ArgumentFault>(seeds[0]) && args.1.seeded(s) == Ok::<Option<Tree>, ArgumentFault>(seeds[1]) && args.2.seeded(s) == Ok::<Option<Tree>, ArgumentFault>(seeds[2]) && args.3.seeded(s) == Ok::<Option<Tree>, ArgumentFault>(seeds[3]) && args.4.seeded(s) == Ok::<Option<Tree>, ArgumentFault>(seeds[4]) && args.5.seeded(s) == Ok::<Option<Tree>, ArgumentFault>(seeds[5]) && args.6.seeded(s) == Ok::<Option<Tree>, ArgumentFault>(seeds[6]) && args.7.seeded(s) == Ok::<Option<Tree>, ArgumentFault>(seeds[7]) && args.8.seeded(s) == Ok::<Option<Tree>, ArgumentFault>(seeds[8]) && args.9.seeded(s) == Ok::<Option<Tree>, ArgumentFault>(seeds[9]) && args.10.seeded(s) == Ok::<Option<Tree>, ArgumentFault>(seeds[10]) && args.11.seeded(s) == Ok::<Option<Tree>, ArgumentFault>(seeds[11]) && args.12.seeded(s) == Ok::<Option<Tree>, ArgumentFault>(seeds[12]) && args.13.seeded(s) == Ok::<Option<Tree>, ArgumentFault>(seeds[13]) {
        assert(seeds.skip(14) =~= Seq::empty());
        assert(seq![seeds[13]] + seeds.skip(14) =~= seeds.skip(13));
        assert((args.13, ()).all_seeded(s) == Ok::<Seq<Option<Tree>>, ArgumentFault>(seeds.skip(13)));
        assert(seq![seeds[12]] + seeds.skip(13) =~= seeds.skip(12));
        assert((args.12, (args.13, ())).all_seeded(s) == Ok::<Seq<Option<Tree>>, ArgumentFault>(seeds.skip(12)));
        assert(seq![seeds[11]] + seeds.skip(12) =~= seeds.skip(11));
        assert((args.11, (args.12, (args.13, ()))).all_seeded(s) == Ok::<Seq<Option<Tree>>, ArgumentFault>(seeds.skip(11)));
        assert(seq![seeds[10]] + seeds.skip(11) =~= seeds.skip(10));
        assert((args.10, (args.11, (args.12, (args.13, ())))).all_seeded(s) == Ok::<Seq<Option<Tree>>, ArgumentFault>(seeds.skip(10)));
        assert(seq![seeds[9]] + seeds.skip(10) =~= seeds.skip(9));
        assert((args.9, (args.10, (args.11, (args.12, (args.13, ()))))).all_seeded(s) == Ok::<Seq<Option<Tree>>, ArgumentFault>(seeds.skip(9)));
        assert(seq![seeds[8]] + seeds.skip(9) =~= seeds.skip(8));
        assert((args.8, (args.9, (args.10, (args.11, (args.12, (args.13, ())))))).all_seeded(s) == Ok::<Seq<Option<Tree>>, ArgumentFault>(seeds.skip(8)));
        assert(seq![seeds[7]] + seeds.skip(8) =~= seeds.skip(7));
        assert((args.7, (args.8, (args.9, (args.10, (args.11, (args.12, (args.13, ()))))))).all_seeded(s) == Ok::<Seq<Option<Tree>>, ArgumentFault>(seeds.skip(7)));
        assert(seq![seeds[6]] + seeds.skip(7) =~= seeds.skip(6));
        assert((args.6, (args.7, (args.8, (args.9, (args.10, (args.11, (args.12, (args.13, ())))))))).all_seeded(s) == Ok::<Seq<Option<Tree>>, ArgumentFault>(seeds.skip(6)));
        assert(seq![seeds[5]] + seeds.skip(6) =~= seeds.skip(5));
        assert((args.5, (args.6, (args.7, (args.8, (args.9, (args.10, (args.11, (args.12, (args.13, ()))))))))).all_seeded(s) == Ok::<Seq<Option<Tree>>, ArgumentFault>(seeds.skip(5)));
        assert(seq![seeds[4]] + seeds.skip(5) =~= seeds.skip(4));
        assert((args.4, (args.5, (args.6, (args.7, (args.8, (args.9, (args.10, (args.11, (args.12, (args.13, ())))))))))).all_seeded(s) == Ok::<Seq<Option<Tree>>, ArgumentFault>(seeds.skip(4)));
        assert(seq![seeds[3]] + seeds.skip(4) =~= seeds.skip(3));
        assert((args.3, (args.4, (args.5, (args.6, (args.7, (args.8, (args.9, (args.10, (args.11, (args.12, (args.13, ()))))))))))).all_seeded(s) == Ok::<Seq<Option<Tree>>, ArgumentFault>(seeds.skip(3)));
        assert(seq![seeds[2]] + seeds.skip(3) =~= seeds.skip(2));
        assert((args.2, (args.3, (args.4, (args.5, (args.6, (args.7, (args.8, (args.9, (args.10, (args.11, (args.12, (args.13, ())))))))))))).all_seeded(s) == Ok::<Seq<Option<Tree>>, ArgumentFault>(seeds.skip(2)));
        assert(seq![seeds[1]] + seeds.skip(2) =~= seeds.skip(1));
        assert((args.1, (args.2, (args.3, (args.4, (args.5, (args.6, (args.7, (args.8, (args.9, (args.10, (args.11, (args.12, (args.13, ()))))))))))))).all_seeded(s) == Ok::<Seq<Option<Tree>>, ArgumentFault>(seeds.skip(1)));
        assert(seq![seeds[0]] + seeds.skip(1) =~= seeds.skip(0));
        assert((args.0, (args.1, (args.2, (args.3, (args.4, (args.5, (args.6, (args.7, (args.8, (args.9, (args.10, (args.11, (args.12, (args.13, ())))))))))))))).all_seeded(s) == Ok::<Seq<Option<Tree>>, ArgumentFault>(seeds.skip(0)));
        assert(seeds.skip(0) =~= seeds);
    }
}

/// Fifteen arguments take fifteen places in their order.
pub proof fn arguments_of_fifteen<A: Argument, B: Argument, C: Argument, D: Argument, E: Argument, F: Argument, G: Argument, H: Argument, I: Argument, J: Argument, K: Argument, L: Argument, M: Argument, N: Argument, O: Argument>(
    args: (A, B, C, D, E, F, G, H, I, J, K, L, M, N, O),
    s: State,
    seeds: Seq<Option<Tree>>,
    trail: Seq<(usize, Tree)>,
    ts: Seq<Tree>,
    values: (A::Value, B::Value, C::Value, D::Value, E::Value, F::Value, G::Value, H::Value, I::Value, J::Value, K::Value, L::Value, M::Value, N::Value, O::Value),
)
    requires
        seeds.len() == 15,
        ts.len() == 15,
    ensures
        <(A, B, C, D, E, F, G, H, I, J, K, L, M, N, O) as ArgsSpec>::count() == 15,
        args.0.seeded(s) == Ok::<Option<Tree>, ArgumentFault>(seeds[0]) && args.1.seeded(s) == Ok::<Option<Tree>, ArgumentFault>(seeds[1]) && args.2.seeded(s) == Ok::<Option<Tree>, ArgumentFault>(seeds[2]) && args.3.seeded(s) == Ok::<Option<Tree>, ArgumentFault>(seeds[3]) && args.4.seeded(s) == Ok::<Option<Tree>, ArgumentFault>(seeds[4]) && args.5.seeded(s) == Ok::<Option<Tree>, ArgumentFault>(seeds[5]) && args.6.seeded(s) == Ok::<Option<Tree>, ArgumentFault>(seeds[6]) && args.7.seeded(s) == Ok::<Option<Tree>, ArgumentFault>(seeds[7]) && args.8.seeded(s) == Ok::<Option<Tree>, ArgumentFault>(seeds[8]) && args.9.seeded(s) == Ok::<Option<Tree>, ArgumentFault>(seeds[9]) && args.10.seeded(s) == Ok::<Option<Tree>, ArgumentFault>(seeds[10]) && args.11.seeded(s) == Ok::<Option<Tree>, ArgumentFault>(seeds[11]) && args.12.seeded(s) == Ok::<Option<Tree>, ArgumentFault>(seeds[12]) && args.13.seeded(s) == Ok::<Option<Tree>, ArgumentFault>(seeds[13]) && args.14.seeded(s) == Ok::<Option<Tree>, ArgumentFault>(seeds[14]) ==> ArgsSpec::seeded(&args, s) == Ok::<Seq<Option<Tree>>, ArgumentFault>(seeds),
        ArgsSpec::seeded(&args, s) is Ok <==> args.0.seeded(s) is Ok && args.1.seeded(s) is Ok && args.2.seeded(s) is Ok && args.3.seeded(s) is Ok && args.4.seeded(s) is Ok && args.5.seeded(s) is Ok && args.6.seeded(s) is Ok && args.7.seeded(s) is Ok && args.8.seeded(s) is Ok && args.9.seeded(s) is Ok && args.10.seeded(s) is Ok && args.11.seeded(s) is Ok && args.12.seeded(s) is Ok && args.13.seeded(s) is Ok && args.14.seeded(s) is Ok,
        <(A, B, C, D, E, F, G, H, I, J, K, L, M, N, O) as ArgsSpec>::decodes(trail, ts, values) <==> A::decodes(trail, ts[0], values.0) && B::decodes(trail, ts[1], values.1) && C::decodes(trail, ts[2], values.2) && D::decodes(trail, ts[3], values.3) && E::decodes(trail, ts[4], values.4) && F::decodes(trail, ts[5], values.5) && G::decodes(trail, ts[6], values.6) && H::decodes(trail, ts[7], values.7) && I::decodes(trail, ts[8], values.8) && J::decodes(trail, ts[9], values.9) && K::decodes(trail, ts[10], values.10) && L::decodes(trail, ts[11], values.11) && M::decodes(trail, ts[12], values.12) && N::decodes(trail, ts[13], values.13) && O::decodes(trail, ts[14], values.14),
        <(A, B, C, D, E, F, G, H, I, J, K, L, M, N, O) as ArgsSpec>::decode_fault(trail, ts) is None <==> A::decode_fault(trail, ts[0]) is None && B::decode_fault(trail, ts[1]) is None && C::decode_fault(trail, ts[2]) is None && D::decode_fault(trail, ts[3]) is None && E::decode_fault(trail, ts[4]) is None && F::decode_fault(trail, ts[5]) is None && G::decode_fault(trail, ts[6]) is None && H::decode_fault(trail, ts[7]) is None && I::decode_fault(trail, ts[8]) is None && J::decode_fault(trail, ts[9]) is None && K::decode_fault(trail, ts[10]) is None && L::decode_fault(trail, ts[11]) is None && M::decode_fault(trail, ts[12]) is None && N::decode_fault(trail, ts[13]) is None && O::decode_fault(trail, ts[14]) is None,
        A::decode_fault(trail, ts[0]) matches Some(fault) ==> <(A, B, C, D, E, F, G, H, I, J, K, L, M, N, O) as ArgsSpec>::decode_fault(trail, ts) == Some(fault),
{
    let d1 = ts.skip(1);
    assert(ts.drop_first() =~= d1 && ts[0] == ts[0]);
    let d2 = ts.skip(2);
    assert(d1.drop_first() =~= d2 && d1[0] == ts[1]);
    let d3 = ts.skip(3);
    assert(d2.drop_first() =~= d3 && d2[0] == ts[2]);
    let d4 = ts.skip(4);
    assert(d3.drop_first() =~= d4 && d3[0] == ts[3]);
    let d5 = ts.skip(5);
    assert(d4.drop_first() =~= d5 && d4[0] == ts[4]);
    let d6 = ts.skip(6);
    assert(d5.drop_first() =~= d6 && d5[0] == ts[5]);
    let d7 = ts.skip(7);
    assert(d6.drop_first() =~= d7 && d6[0] == ts[6]);
    let d8 = ts.skip(8);
    assert(d7.drop_first() =~= d8 && d7[0] == ts[7]);
    let d9 = ts.skip(9);
    assert(d8.drop_first() =~= d9 && d8[0] == ts[8]);
    let d10 = ts.skip(10);
    assert(d9.drop_first() =~= d10 && d9[0] == ts[9]);
    let d11 = ts.skip(11);
    assert(d10.drop_first() =~= d11 && d10[0] == ts[10]);
    let d12 = ts.skip(12);
    assert(d11.drop_first() =~= d12 && d11[0] == ts[11]);
    let d13 = ts.skip(13);
    assert(d12.drop_first() =~= d13 && d12[0] == ts[12]);
    let d14 = ts.skip(14);
    assert(d13.drop_first() =~= d14 && d13[0] == ts[13]);
    let d15 = ts.skip(15);
    assert(d14.drop_first() =~= d15 && d14[0] == ts[14]);
    assert((args.14, ()).all_seeded(s) is Ok <==> args.14.seeded(s) is Ok);
    assert((args.13, (args.14, ())).all_seeded(s) is Ok <==> args.13.seeded(s) is Ok && args.14.seeded(s) is Ok);
    assert((args.12, (args.13, (args.14, ()))).all_seeded(s) is Ok <==> args.12.seeded(s) is Ok && args.13.seeded(s) is Ok && args.14.seeded(s) is Ok);
    assert((args.11, (args.12, (args.13, (args.14, ())))).all_seeded(s) is Ok <==> args.11.seeded(s) is Ok && args.12.seeded(s) is Ok && args.13.seeded(s) is Ok && args.14.seeded(s) is Ok);
    assert((args.10, (args.11, (args.12, (args.13, (args.14, ()))))).all_seeded(s) is Ok <==> args.10.seeded(s) is Ok && args.11.seeded(s) is Ok && args.12.seeded(s) is Ok && args.13.seeded(s) is Ok && args.14.seeded(s) is Ok);
    assert((args.9, (args.10, (args.11, (args.12, (args.13, (args.14, ())))))).all_seeded(s) is Ok <==> args.9.seeded(s) is Ok && args.10.seeded(s) is Ok && args.11.seeded(s) is Ok && args.12.seeded(s) is Ok && args.13.seeded(s) is Ok && args.14.seeded(s) is Ok);
    assert((args.8, (args.9, (args.10, (args.11, (args.12, (args.13, (args.14, ()))))))).all_seeded(s) is Ok <==> args.8.seeded(s) is Ok && args.9.seeded(s) is Ok && args.10.seeded(s) is Ok && args.11.seeded(s) is Ok && args.12.seeded(s) is Ok && args.13.seeded(s) is Ok && args.14.seeded(s) is Ok);
    assert((args.7, (args.8, (args.9, (args.10, (args.11, (args.12, (args.13, (args.14, ())))))))).all_seeded(s) is Ok <==> args.7.seeded(s) is Ok && args.8.seeded(s) is Ok && args.9.seeded(s) is Ok && args.10.seeded(s) is Ok && args.11.seeded(s) is Ok && args.12.seeded(s) is Ok && args.13.seeded(s) is Ok && args.14.seeded(s) is Ok);
    assert((args.6, (args.7, (args.8, (args.9, (args.10, (args.11, (args.12, (args.13, (args.14, ()))))))))).all_seeded(s) is Ok <==> args.6.seeded(s) is Ok && args.7.seeded(s) is Ok && args.8.seeded(s) is Ok && args.9.seeded(s) is Ok && args.10.seeded(s) is Ok && args.11.seeded(s) is Ok && args.12.seeded(s) is Ok && args.13.seeded(s) is Ok && args.14.seeded(s) is Ok);
    assert((args.5, (args.6, (args.7, (args.8, (args.9, (args.10, (args.11, (args.12, (args.13, (args.14, ())))))))))).all_seeded(s) is Ok <==> args.5.seeded(s) is Ok && args.6.seeded(s) is Ok && args.7.seeded(s) is Ok && args.8.seeded(s) is Ok && args.9.seeded(s) is Ok && args.10.seeded(s) is Ok && args.11.seeded(s) is Ok && args.12.seeded(s) is Ok && args.13.seeded(s) is Ok && args.14.seeded(s) is Ok);
    assert((args.4, (args.5, (args.6, (args.7, (args.8, (args.9, (args.10, (args.11, (args.12, (args.13, (args.14, ()))))))))))).all_seeded(s) is Ok <==> args.4.seeded(s) is Ok && args.5.seeded(s) is Ok && args.6.seeded(s) is Ok && args.7.seeded(s) is Ok && args.8.seeded(s) is Ok && args.9.seeded(s) is Ok && args.10.seeded(s) is Ok && args.11.seeded(s) is Ok && args.12.seeded(s) is Ok && args.13.seeded(s) is Ok && args.14.seeded(s) is Ok);
    assert((args.3, (args.4, (args.5, (args.6, (args.7, (args.8, (args.9, (args.10, (args.11, (args.12, (args.13, (args.14, ())))))))))))).all_seeded(s) is Ok <==> args.3.seeded(s) is Ok && args.4.seeded(s) is Ok && args.5.seeded(s) is Ok && args.6.seeded(s) is Ok && args.7.seeded(s) is Ok && args.8.seeded(s) is Ok && args.9.seeded(s) is Ok && args.10.seeded(s) is Ok && args.11.seeded(s) is Ok && args.12.seeded(s) is Ok && args.13.seeded(s) is Ok && args.14.seeded(s) is Ok);
    assert((args.2, (args.3, (args.4, (args.5, (args.6, (args.7, (args.8, (args.9, (args.10, (args.11, (args.12, (args.13, (args.14, ()))))))))))))).all_seeded(s) is Ok <==> args.2.seeded(s) is Ok && args.3.seeded(s) is Ok && args.4.seeded(s) is Ok && args.5.seeded(s) is Ok && args.6.seeded(s) is Ok && args.7.seeded(s) is Ok && args.8.seeded(s) is Ok && args.9.seeded(s) is Ok && args.10.seeded(s) is Ok && args.11.seeded(s) is Ok && args.12.seeded(s) is Ok && args.13.seeded(s) is Ok && args.14.seeded(s) is Ok);
    assert((args.1, (args.2, (args.3, (args.4, (args.5, (args.6, (args.7, (args.8, (args.9, (args.10, (args.11, (args.12, (args.13, (args.14, ())))))))))))))).all_seeded(s) is Ok <==> args.1.seeded(s) is Ok && args.2.seeded(s) is Ok && args.3.seeded(s) is Ok && args.4.seeded(s) is Ok && args.5.seeded(s) is Ok && args.6.seeded(s) is Ok && args.7.seeded(s) is Ok && args.8.seeded(s) is Ok && args.9.seeded(s) is Ok && args.10.seeded(s) is Ok && args.11.seeded(s) is Ok && args.12.seeded(s) is Ok && args.13.seeded(s) is Ok && args.14.seeded(s) is Ok);
    assert((args.0, (args.1, (args.2, (args.3, (args.4, (args.5, (args.6, (args.7, (args.8, (args.9, (args.10, (args.11, (args.12, (args.13, (args.14, ()))))))))))))))).all_seeded(s) is Ok <==> args.0.seeded(s) is Ok && args.1.seeded(s) is Ok && args.2.seeded(s) is Ok && args.3.seeded(s) is Ok && args.4.seeded(s) is Ok && args.5.seeded(s) is Ok && args.6.seeded(s) is Ok && args.7.seeded(s) is Ok && args.8.seeded(s) is Ok && args.9.seeded(s) is Ok && args.10.seeded(s) is Ok && args.11.seeded(s) is Ok && args.12.seeded(s) is Ok && args.13.seeded(s) is Ok && args.14.seeded(s) is Ok);
    if args.0.seeded(s) == Ok::<Option<Tree>, ArgumentFault>(seeds[0]) && args.1.seeded(s) == Ok::<Option<Tree>, ArgumentFault>(seeds[1]) && args.2.seeded(s) == Ok::<Option<Tree>, ArgumentFault>(seeds[2]) && args.3.seeded(s) == Ok::<Option<Tree>, ArgumentFault>(seeds[3]) && args.4.seeded(s) == Ok::<Option<Tree>, ArgumentFault>(seeds[4]) && args.5.seeded(s) == Ok::<Option<Tree>, ArgumentFault>(seeds[5]) && args.6.seeded(s) == Ok::<Option<Tree>, ArgumentFault>(seeds[6]) && args.7.seeded(s) == Ok::<Option<Tree>, ArgumentFault>(seeds[7]) && args.8.seeded(s) == Ok::<Option<Tree>, ArgumentFault>(seeds[8]) && args.9.seeded(s) == Ok::<Option<Tree>, ArgumentFault>(seeds[9]) && args.10.seeded(s) == Ok::<Option<Tree>, ArgumentFault>(seeds[10]) && args.11.seeded(s) == Ok::<Option<Tree>, ArgumentFault>(seeds[11]) && args.12.seeded(s) == Ok::<Option<Tree>, ArgumentFault>(seeds[12]) && args.13.seeded(s) == Ok::<Option<Tree>, ArgumentFault>(seeds[13]) && args.14.seeded(s) == Ok::<Option<Tree>, ArgumentFault>(seeds[14]) {
        assert(seeds.skip(15) =~= Seq::empty());
        assert(seq![seeds[14]] + seeds.skip(15) =~= seeds.skip(14));
        assert((args.14, ()).all_seeded(s) == Ok::<Seq<Option<Tree>>, ArgumentFault>(seeds.skip(14)));
        assert(seq![seeds[13]] + seeds.skip(14) =~= seeds.skip(13));
        assert((args.13, (args.14, ())).all_seeded(s) == Ok::<Seq<Option<Tree>>, ArgumentFault>(seeds.skip(13)));
        assert(seq![seeds[12]] + seeds.skip(13) =~= seeds.skip(12));
        assert((args.12, (args.13, (args.14, ()))).all_seeded(s) == Ok::<Seq<Option<Tree>>, ArgumentFault>(seeds.skip(12)));
        assert(seq![seeds[11]] + seeds.skip(12) =~= seeds.skip(11));
        assert((args.11, (args.12, (args.13, (args.14, ())))).all_seeded(s) == Ok::<Seq<Option<Tree>>, ArgumentFault>(seeds.skip(11)));
        assert(seq![seeds[10]] + seeds.skip(11) =~= seeds.skip(10));
        assert((args.10, (args.11, (args.12, (args.13, (args.14, ()))))).all_seeded(s) == Ok::<Seq<Option<Tree>>, ArgumentFault>(seeds.skip(10)));
        assert(seq![seeds[9]] + seeds.skip(10) =~= seeds.skip(9));
        assert((args.9, (args.10, (args.11, (args.12, (args.13, (args.14, ())))))).all_seeded(s) == Ok::<Seq<Option<Tree>>, ArgumentFault>(seeds.skip(9)));
        assert(seq![seeds[8]] + seeds.skip(9) =~= seeds.skip(8));
        assert((args.8, (args.9, (args.10, (args.11, (args.12, (args.13, (args.14, ()))))))).all_seeded(s) == Ok::<Seq<Option<Tree>>, ArgumentFault>(seeds.skip(8)));
        assert(seq![seeds[7]] + seeds.skip(8) =~= seeds.skip(7));
        assert((args.7, (args.8, (args.9, (args.10, (args.11, (args.12, (args.13, (args.14, ())))))))).all_seeded(s) == Ok::<Seq<Option<Tree>>, ArgumentFault>(seeds.skip(7)));
        assert(seq![seeds[6]] + seeds.skip(7) =~= seeds.skip(6));
        assert((args.6, (args.7, (args.8, (args.9, (args.10, (args.11, (args.12, (args.13, (args.14, ()))))))))).all_seeded(s) == Ok::<Seq<Option<Tree>>, ArgumentFault>(seeds.skip(6)));
        assert(seq![seeds[5]] + seeds.skip(6) =~= seeds.skip(5));
        assert((args.5, (args.6, (args.7, (args.8, (args.9, (args.10, (args.11, (args.12, (args.13, (args.14, ())))))))))).all_seeded(s) == Ok::<Seq<Option<Tree>>, ArgumentFault>(seeds.skip(5)));
        assert(seq![seeds[4]] + seeds.skip(5) =~= seeds.skip(4));
        assert((args.4, (args.5, (args.6, (args.7, (args.8, (args.9, (args.10, (args.11, (args.12, (args.13, (args.14, ()))))))))))).all_seeded(s) == Ok::<Seq<Option<Tree>>, ArgumentFault>(seeds.skip(4)));
        assert(seq![seeds[3]] + seeds.skip(4) =~= seeds.skip(3));
        assert((args.3, (args.4, (args.5, (args.6, (args.7, (args.8, (args.9, (args.10, (args.11, (args.12, (args.13, (args.14, ())))))))))))).all_seeded(s) == Ok::<Seq<Option<Tree>>, ArgumentFault>(seeds.skip(3)));
        assert(seq![seeds[2]] + seeds.skip(3) =~= seeds.skip(2));
        assert((args.2, (args.3, (args.4, (args.5, (args.6, (args.7, (args.8, (args.9, (args.10, (args.11, (args.12, (args.13, (args.14, ()))))))))))))).all_seeded(s) == Ok::<Seq<Option<Tree>>, ArgumentFault>(seeds.skip(2)));
        assert(seq![seeds[1]] + seeds.skip(2) =~= seeds.skip(1));
        assert((args.1, (args.2, (args.3, (args.4, (args.5, (args.6, (args.7, (args.8, (args.9, (args.10, (args.11, (args.12, (args.13, (args.14, ())))))))))))))).all_seeded(s) == Ok::<Seq<Option<Tree>>, ArgumentFault>(seeds.skip(1)));
        assert(seq![seeds[0]] + seeds.skip(1) =~= seeds.skip(0));
        assert((args.0, (args.1, (args.2, (args.3, (args.4, (args.5, (args.6, (args.7, (args.8, (args.9, (args.10, (args.11, (args.12, (args.13, (args.14, ()))))))))))))))).all_seeded(s) == Ok::<Seq<Option<Tree>>, ArgumentFault>(seeds.skip(0)));
        assert(seeds.skip(0) =~= seeds);
    }
}

/// Sixteen arguments take sixteen places in their order.
pub proof fn arguments_of_sixteen<A: Argument, B: Argument, C: Argument, D: Argument, E: Argument, F: Argument, G: Argument, H: Argument, I: Argument, J: Argument, K: Argument, L: Argument, M: Argument, N: Argument, O: Argument, P: Argument>(
    args: (A, B, C, D, E, F, G, H, I, J, K, L, M, N, O, P),
    s: State,
    seeds: Seq<Option<Tree>>,
    trail: Seq<(usize, Tree)>,
    ts: Seq<Tree>,
    values: (A::Value, B::Value, C::Value, D::Value, E::Value, F::Value, G::Value, H::Value, I::Value, J::Value, K::Value, L::Value, M::Value, N::Value, O::Value, P::Value),
)
    requires
        seeds.len() == 16,
        ts.len() == 16,
    ensures
        <(A, B, C, D, E, F, G, H, I, J, K, L, M, N, O, P) as ArgsSpec>::count() == 16,
        args.0.seeded(s) == Ok::<Option<Tree>, ArgumentFault>(seeds[0]) && args.1.seeded(s) == Ok::<Option<Tree>, ArgumentFault>(seeds[1]) && args.2.seeded(s) == Ok::<Option<Tree>, ArgumentFault>(seeds[2]) && args.3.seeded(s) == Ok::<Option<Tree>, ArgumentFault>(seeds[3]) && args.4.seeded(s) == Ok::<Option<Tree>, ArgumentFault>(seeds[4]) && args.5.seeded(s) == Ok::<Option<Tree>, ArgumentFault>(seeds[5]) && args.6.seeded(s) == Ok::<Option<Tree>, ArgumentFault>(seeds[6]) && args.7.seeded(s) == Ok::<Option<Tree>, ArgumentFault>(seeds[7]) && args.8.seeded(s) == Ok::<Option<Tree>, ArgumentFault>(seeds[8]) && args.9.seeded(s) == Ok::<Option<Tree>, ArgumentFault>(seeds[9]) && args.10.seeded(s) == Ok::<Option<Tree>, ArgumentFault>(seeds[10]) && args.11.seeded(s) == Ok::<Option<Tree>, ArgumentFault>(seeds[11]) && args.12.seeded(s) == Ok::<Option<Tree>, ArgumentFault>(seeds[12]) && args.13.seeded(s) == Ok::<Option<Tree>, ArgumentFault>(seeds[13]) && args.14.seeded(s) == Ok::<Option<Tree>, ArgumentFault>(seeds[14]) && args.15.seeded(s) == Ok::<Option<Tree>, ArgumentFault>(seeds[15]) ==> ArgsSpec::seeded(&args, s) == Ok::<Seq<Option<Tree>>, ArgumentFault>(seeds),
        ArgsSpec::seeded(&args, s) is Ok <==> args.0.seeded(s) is Ok && args.1.seeded(s) is Ok && args.2.seeded(s) is Ok && args.3.seeded(s) is Ok && args.4.seeded(s) is Ok && args.5.seeded(s) is Ok && args.6.seeded(s) is Ok && args.7.seeded(s) is Ok && args.8.seeded(s) is Ok && args.9.seeded(s) is Ok && args.10.seeded(s) is Ok && args.11.seeded(s) is Ok && args.12.seeded(s) is Ok && args.13.seeded(s) is Ok && args.14.seeded(s) is Ok && args.15.seeded(s) is Ok,
        <(A, B, C, D, E, F, G, H, I, J, K, L, M, N, O, P) as ArgsSpec>::decodes(trail, ts, values) <==> A::decodes(trail, ts[0], values.0) && B::decodes(trail, ts[1], values.1) && C::decodes(trail, ts[2], values.2) && D::decodes(trail, ts[3], values.3) && E::decodes(trail, ts[4], values.4) && F::decodes(trail, ts[5], values.5) && G::decodes(trail, ts[6], values.6) && H::decodes(trail, ts[7], values.7) && I::decodes(trail, ts[8], values.8) && J::decodes(trail, ts[9], values.9) && K::decodes(trail, ts[10], values.10) && L::decodes(trail, ts[11], values.11) && M::decodes(trail, ts[12], values.12) && N::decodes(trail, ts[13], values.13) && O::decodes(trail, ts[14], values.14) && P::decodes(trail, ts[15], values.15),
        <(A, B, C, D, E, F, G, H, I, J, K, L, M, N, O, P) as ArgsSpec>::decode_fault(trail, ts) is None <==> A::decode_fault(trail, ts[0]) is None && B::decode_fault(trail, ts[1]) is None && C::decode_fault(trail, ts[2]) is None && D::decode_fault(trail, ts[3]) is None && E::decode_fault(trail, ts[4]) is None && F::decode_fault(trail, ts[5]) is None && G::decode_fault(trail, ts[6]) is None && H::decode_fault(trail, ts[7]) is None && I::decode_fault(trail, ts[8]) is None && J::decode_fault(trail, ts[9]) is None && K::decode_fault(trail, ts[10]) is None && L::decode_fault(trail, ts[11]) is None && M::decode_fault(trail, ts[12]) is None && N::decode_fault(trail, ts[13]) is None && O::decode_fault(trail, ts[14]) is None && P::decode_fault(trail, ts[15]) is None,
        A::decode_fault(trail, ts[0]) matches Some(fault) ==> <(A, B, C, D, E, F, G, H, I, J, K, L, M, N, O, P) as ArgsSpec>::decode_fault(trail, ts) == Some(fault),
{
    let d1 = ts.skip(1);
    assert(ts.drop_first() =~= d1 && ts[0] == ts[0]);
    let d2 = ts.skip(2);
    assert(d1.drop_first() =~= d2 && d1[0] == ts[1]);
    let d3 = ts.skip(3);
    assert(d2.drop_first() =~= d3 && d2[0] == ts[2]);
    let d4 = ts.skip(4);
    assert(d3.drop_first() =~= d4 && d3[0] == ts[3]);
    let d5 = ts.skip(5);
    assert(d4.drop_first() =~= d5 && d4[0] == ts[4]);
    let d6 = ts.skip(6);
    assert(d5.drop_first() =~= d6 && d5[0] == ts[5]);
    let d7 = ts.skip(7);
    assert(d6.drop_first() =~= d7 && d6[0] == ts[6]);
    let d8 = ts.skip(8);
    assert(d7.drop_first() =~= d8 && d7[0] == ts[7]);
    let d9 = ts.skip(9);
    assert(d8.drop_first() =~= d9 && d8[0] == ts[8]);
    let d10 = ts.skip(10);
    assert(d9.drop_first() =~= d10 && d9[0] == ts[9]);
    let d11 = ts.skip(11);
    assert(d10.drop_first() =~= d11 && d10[0] == ts[10]);
    let d12 = ts.skip(12);
    assert(d11.drop_first() =~= d12 && d11[0] == ts[11]);
    let d13 = ts.skip(13);
    assert(d12.drop_first() =~= d13 && d12[0] == ts[12]);
    let d14 = ts.skip(14);
    assert(d13.drop_first() =~= d14 && d13[0] == ts[13]);
    let d15 = ts.skip(15);
    assert(d14.drop_first() =~= d15 && d14[0] == ts[14]);
    let d16 = ts.skip(16);
    assert(d15.drop_first() =~= d16 && d15[0] == ts[15]);
    assert((args.15, ()).all_seeded(s) is Ok <==> args.15.seeded(s) is Ok);
    assert((args.14, (args.15, ())).all_seeded(s) is Ok <==> args.14.seeded(s) is Ok && args.15.seeded(s) is Ok);
    assert((args.13, (args.14, (args.15, ()))).all_seeded(s) is Ok <==> args.13.seeded(s) is Ok && args.14.seeded(s) is Ok && args.15.seeded(s) is Ok);
    assert((args.12, (args.13, (args.14, (args.15, ())))).all_seeded(s) is Ok <==> args.12.seeded(s) is Ok && args.13.seeded(s) is Ok && args.14.seeded(s) is Ok && args.15.seeded(s) is Ok);
    assert((args.11, (args.12, (args.13, (args.14, (args.15, ()))))).all_seeded(s) is Ok <==> args.11.seeded(s) is Ok && args.12.seeded(s) is Ok && args.13.seeded(s) is Ok && args.14.seeded(s) is Ok && args.15.seeded(s) is Ok);
    assert((args.10, (args.11, (args.12, (args.13, (args.14, (args.15, ())))))).all_seeded(s) is Ok <==> args.10.seeded(s) is Ok && args.11.seeded(s) is Ok && args.12.seeded(s) is Ok && args.13.seeded(s) is Ok && args.14.seeded(s) is Ok && args.15.seeded(s) is Ok);
    assert((args.9, (args.10, (args.11, (args.12, (args.13, (args.14, (args.15, ()))))))).all_seeded(s) is Ok <==> args.9.seeded(s) is Ok && args.10.seeded(s) is Ok && args.11.seeded(s) is Ok && args.12.seeded(s) is Ok && args.13.seeded(s) is Ok && args.14.seeded(s) is Ok && args.15.seeded(s) is Ok);
    assert((args.8, (args.9, (args.10, (args.11, (args.12, (args.13, (args.14, (args.15, ())))))))).all_seeded(s) is Ok <==> args.8.seeded(s) is Ok && args.9.seeded(s) is Ok && args.10.seeded(s) is Ok && args.11.seeded(s) is Ok && args.12.seeded(s) is Ok && args.13.seeded(s) is Ok && args.14.seeded(s) is Ok && args.15.seeded(s) is Ok);
    assert((args.7, (args.8, (args.9, (args.10, (args.11, (args.12, (args.13, (args.14, (args.15, ()))))))))).all_seeded(s) is Ok <==> args.7.seeded(s) is Ok && args.8.seeded(s) is Ok && args.9.seeded(s) is Ok && args.10.seeded(s) is Ok && args.11.seeded(s) is Ok && args.12.seeded(s) is Ok && args.13.seeded(s) is Ok && args.14.seeded(s) is Ok && args.15.seeded(s) is Ok);
    assert((args.6, (args.7, (args.8, (args.9, (args.10, (args.11, (args.12, (args.13, (args.14, (args.15, ())))))))))).all_seeded(s) is Ok <==> args.6.seeded(s) is Ok && args.7.seeded(s) is Ok && args.8.seeded(s) is Ok && args.9.seeded(s) is Ok && args.10.seeded(s) is Ok && args.11.seeded(s) is Ok && args.12.seeded(s) is Ok && args.13.seeded(s) is Ok && args.14.seeded(s) is Ok && args.15.seeded(s) is Ok);
    assert((args.5, (args.6, (args.7, (args.8, (args.9, (args.10, (args.11, (args.12, (args.13, (args.14, (args.15, ()))))))))))).all_seeded(s) is Ok <==> args.5.seeded(s) is Ok && args.6.seeded(s) is Ok && args.7.seeded(s) is Ok && args.8.seeded(s) is Ok && args.9.seeded(s) is Ok && args.10.seeded(s) is Ok && args.11.seeded(s) is Ok && args.12.seeded(s) is Ok && args.13.seeded(s) is Ok && args.14.seeded(s) is Ok && args.15.seeded(s) is Ok);
    assert((args.4, (args.5, (args.6, (args.7, (args.8, (args.9, (args.10, (args.11, (args.12, (args.13, (args.14, (args.15, ())))))))))))).all_seeded(s) is Ok <==> args.4.seeded(s) is Ok && args.5.seeded(s) is Ok && args.6.seeded(s) is Ok && args.7.seeded(s) is Ok && args.8.seeded(s) is Ok && args.9.seeded(s) is Ok && args.10.seeded(s) is Ok && args.11.seeded(s) is Ok && args.12.seeded(s) is Ok && args.13.seeded(s) is Ok && args.14.seeded(s) is Ok && args.15.seeded(s) is Ok);
    assert((args.3, (args.4, (args.5, (args.6, (args.7, (args.8, (args.9, (args.10, (args.11, (args.12, (args.13, (args.14, (args.15, ()))))))))))))).all_seeded(s) is Ok <==> args.3.seeded(s) is Ok && args.4.seeded(s) is Ok && args.5.seeded(s) is Ok && args.6.seeded(s) is Ok && args.7.seeded(s) is Ok && args.8.seeded(s) is Ok && args.9.seeded(s) is Ok && args.10.seeded(s) is Ok && args.11.seeded(s) is Ok && args.12.seeded(s) is Ok && args.13.seeded(s) is Ok && args.14.seeded(s) is Ok && args.15.seeded(s) is Ok);
    assert((args.2, (args.3, (args.4, (args.5, (args.6, (args.7, (args.8, (args.9, (args.10, (args.11, (args.12, (args.13, (args.14, (args.15, ())))))))))))))).all_seeded(s) is Ok <==> args.2.seeded(s) is Ok && args.3.seeded(s) is Ok && args.4.seeded(s) is Ok && args.5.seeded(s) is Ok && args.6.seeded(s) is Ok && args.7.seeded(s) is Ok && args.8.seeded(s) is Ok && args.9.seeded(s) is Ok && args.10.seeded(s) is Ok && args.11.seeded(s) is Ok && args.12.seeded(s) is Ok && args.13.seeded(s) is Ok && args.14.seeded(s) is Ok && args.15.seeded(s) is Ok);
    assert((args.1, (args.2, (args.3, (args.4, (args.5, (args.6, (args.7, (args.8, (args.9, (args.10, (args.11, (args.12, (args.13, (args.14, (args.15, ()))))))))))))))).all_seeded(s) is Ok <==> args.1.seeded(s) is Ok && args.2.seeded(s) is Ok && args.3.seeded(s) is Ok && args.4.seeded(s) is Ok && args.5.seeded(s) is Ok && args.6.seeded(s) is Ok && args.7.seeded(s) is Ok && args.8.seeded(s) is Ok && args.9.seeded(s) is Ok && args.10.seeded(s) is Ok && args.11.seeded(s) is Ok && args.12.seeded(s) is Ok && args.13.seeded(s) is Ok && args.14.seeded(s) is Ok && args.15.seeded(s) is Ok);
    assert((args.0, (args.1, (args.2, (args.3, (args.4, (args.5, (args.6, (args.7, (args.8, (args.9, (args.10, (args.11, (args.12, (args.13, (args.14, (args.15, ())))))))))))))))).all_seeded(s) is Ok <==> args.0.seeded(s) is Ok && args.1.seeded(s) is Ok && args.2.seeded(s) is Ok && args.3.seeded(s) is Ok && args.4.seeded(s) is Ok && args.5.seeded(s) is Ok && args.6.seeded(s) is Ok && args.7.seeded(s) is Ok && args.8.seeded(s) is Ok && args.9.seeded(s) is Ok && args.10.seeded(s) is Ok && args.11.seeded(s) is Ok && args.12.seeded(s) is Ok && args.13.seeded(s) is Ok && args.14.seeded(s) is Ok && args.15.seeded(s) is Ok);
    if args.0.seeded(s) == Ok::<Option<Tree>, ArgumentFault>(seeds[0]) && args.1.seeded(s) == Ok::<Option<Tree>, ArgumentFault>(seeds[1]) && args.2.seeded(s) == Ok::<Option<Tree>, ArgumentFault>(seeds[2]) && args.3.seeded(s) == Ok::<Option<Tree>, ArgumentFault>(seeds[3]) && args.4.seeded(s) == Ok::<Option<Tree>, ArgumentFault>(seeds[4]) && args.5.seeded(s) == Ok::<Option<Tree>, ArgumentFault>(seeds[5]) && args.6.seeded(s) == Ok::<Option<Tree>, ArgumentFault>(seeds[6]) && args.7.seeded(s) == Ok::<Option<Tree>, ArgumentFault>(seeds[7]) && args.8.seeded(s) == Ok::<Option<Tree>, ArgumentFault>(seeds[8]) && args.9.seeded(s) == Ok::<Option<Tree>, ArgumentFault>(seeds[9]) && args.10.seeded(s) == Ok::<Option<Tree>, ArgumentFault>(seeds[10]) && args.11.seeded(s) == Ok::<Option<Tree>, ArgumentFault>(seeds[11]) && args.12.seeded(s) == Ok::<Option<Tree>, ArgumentFault>(seeds[12]) && args.13.seeded(s) == Ok::<Option<Tree>, ArgumentFault>(seeds[13]) && args.14.seeded(s) == Ok::<Option<Tree>, ArgumentFault>(seeds[14]) && args.15.seeded(s) == Ok::<Option<Tree>, ArgumentFault>(seeds[15]) {
        assert(seeds.skip(16) =~= Seq::empty());
        assert(seq![seeds[15]] + seeds.skip(16) =~= seeds.skip(15));
        assert((args.15, ()).all_seeded(s) == Ok::<Seq<Option<Tree>>, ArgumentFault>(seeds.skip(15)));
        assert(seq![seeds[14]] + seeds.skip(15) =~= seeds.skip(14));
        assert((args.14, (args.15, ())).all_seeded(s) == Ok::<Seq<Option<Tree>>, ArgumentFault>(seeds.skip(14)));
        assert(seq![seeds[13]] + seeds.skip(14) =~= seeds.skip(13));
        assert((args.13, (args.14, (args.15, ()))).all_seeded(s) == Ok::<Seq<Option<Tree>>, ArgumentFault>(seeds.skip(13)));
        assert(seq![seeds[12]] + seeds.skip(13) =~= seeds.skip(12));
        assert((args.12, (args.13, (args.14, (args.15, ())))).all_seeded(s) == Ok::<Seq<Option<Tree>>, ArgumentFault>(seeds.skip(12)));
        assert(seq![seeds[11]] + seeds.skip(12) =~= seeds.skip(11));
        assert((args.11, (args.12, (args.13, (args.14, (args.15, ()))))).all_seeded(s) == Ok::<Seq<Option<Tree>>, ArgumentFault>(seeds.skip(11)));
        assert(seq![seeds[10]] + seeds.skip(11) =~= seeds.skip(10));
        assert((args.10, (args.11, (args.12, (args.13, (args.14, (args.15, ())))))).all_seeded(s) == Ok::<Seq<Option<Tree>>, ArgumentFault>(seeds.skip(10)));
        assert(seq![seeds[9]] + seeds.skip(10) =~= seeds.skip(9));
        assert((args.9, (args.10, (args.11, (args.12, (args.13, (args.14, (args.15, ()))))))).all_seeded(s) == Ok::<Seq<Option<Tree>>, ArgumentFault>(seeds.skip(9)));
        assert(seq![seeds[8]] + seeds.skip(9) =~= seeds.skip(8));
        assert((args.8, (args.9, (args.10, (args.11, (args.12, (args.13, (args.14, (args.15, ())))))))).all_seeded(s) == Ok::<Seq<Option<Tree>>, ArgumentFault>(seeds.skip(8)));
        assert(seq![seeds[7]] + seeds.skip(8) =~= seeds.skip(7));
        assert((args.7, (args.8, (args.9, (args.10, (args.11, (args.12, (args.13, (args.14, (args.15, ()))))))))).all_seeded(s) == Ok::<Seq<Option<Tree>>, ArgumentFault>(seeds.skip(7)));
        assert(seq![seeds[6]] + seeds.skip(7) =~= seeds.skip(6));
        assert((args.6, (args.7, (args.8, (args.9, (args.10, (args.11, (args.12, (args.13, (args.14, (args.15, ())))))))))).all_seeded(s) == Ok::<Seq<Option<Tree>>, ArgumentFault>(seeds.skip(6)));
        assert(seq![seeds[5]] + seeds.skip(6) =~= seeds.skip(5));
        assert((args.5, (args.6, (args.7, (args.8, (args.9, (args.10, (args.11, (args.12, (args.13, (args.14, (args.15, ()))))))))))).all_seeded(s) == Ok::<Seq<Option<Tree>>, ArgumentFault>(seeds.skip(5)));
        assert(seq![seeds[4]] + seeds.skip(5) =~= seeds.skip(4));
        assert((args.4, (args.5, (args.6, (args.7, (args.8, (args.9, (args.10, (args.11, (args.12, (args.13, (args.14, (args.15, ())))))))))))).all_seeded(s) == Ok::<Seq<Option<Tree>>, ArgumentFault>(seeds.skip(4)));
        assert(seq![seeds[3]] + seeds.skip(4) =~= seeds.skip(3));
        assert((args.3, (args.4, (args.5, (args.6, (args.7, (args.8, (args.9, (args.10, (args.11, (args.12, (args.13, (args.14, (args.15, ()))))))))))))).all_seeded(s) == Ok::<Seq<Option<Tree>>, ArgumentFault>(seeds.skip(3)));
        assert(seq![seeds[2]] + seeds.skip(3) =~= seeds.skip(2));
        assert((args.2, (args.3, (args.4, (args.5, (args.6, (args.7, (args.8, (args.9, (args.10, (args.11, (args.12, (args.13, (args.14, (args.15, ())))))))))))))).all_seeded(s) == Ok::<Seq<Option<Tree>>, ArgumentFault>(seeds.skip(2)));
        assert(seq![seeds[1]] + seeds.skip(2) =~= seeds.skip(1));
        assert((args.1, (args.2, (args.3, (args.4, (args.5, (args.6, (args.7, (args.8, (args.9, (args.10, (args.11, (args.12, (args.13, (args.14, (args.15, ()))))))))))))))).all_seeded(s) == Ok::<Seq<Option<Tree>>, ArgumentFault>(seeds.skip(1)));
        assert(seq![seeds[0]] + seeds.skip(1) =~= seeds.skip(0));
        assert((args.0, (args.1, (args.2, (args.3, (args.4, (args.5, (args.6, (args.7, (args.8, (args.9, (args.10, (args.11, (args.12, (args.13, (args.14, (args.15, ())))))))))))))))).all_seeded(s) == Ok::<Seq<Option<Tree>>, ArgumentFault>(seeds.skip(0)));
        assert(seeds.skip(0) =~= seeds);
    }
}

/// A value can always be passed; a term if it is live and was made before the
/// block.
pub proof fn values_can_always_be_passed<T: ToTerm + FromTerm, O: FromTerm>(
    value: Input<T>,
    other: InputAs<T, O>,
    out: Output<T>,
    term: Term,
    arg: TermArg<T>,
    s: State,
    limit: nat,
)
    ensures
        Argument::ready(&value, s, limit),
        Argument::ready(&other, s, limit),
        Argument::ready(&out, s, limit),
        Argument::ready(&term, s, limit) <==> term.live(s) && term.raw() < limit,
        Argument::ready(&arg, s, limit) <==> arg.passed().live(s) && arg.passed().raw() < limit,
{
}

} // verus!
