//! Laws of scopes, references and the outcomes of single operations.

use vstd::prelude::*;

use crate::codec::{
    codec_raised, codec_raised_within, codec_raised_writing, fills_block, overwrites,
    raised_writing, stopped, CodecFault, TermCodecError,
};
use crate::data::Tree;
use crate::dict::{dict_kept, dict_put};
use crate::engine::{attach_error, attached, AttachError, AttachedEngine, Engine, EngineStatus};
use crate::exception::{PrologException, Verdict};
use crate::fli::{binding_none, cut, extended, resolve, State};
use crate::handles::{constructed, first_nul, nul_position, HandleError, Predicate};
use crate::record::{record_error, shifted, shifted_bindings, RecordError, RecordView};
use crate::runtime::{argv_fault, booted, is_argv, started, InitError, Runtime, RuntimeState};
use crate::scope::{closable, Activation};
use crate::sealed::Sealed;
use crate::term::{
    frame_error, frame_opened, get_done, get_error, get_text_done, grows, nested, put_done, raised,
    raised_within, Frame, FrameError, Term, TermError, TermList,
};

verus! {

/// A scope that is opened at a place is the new innermost one, one deeper, and
/// closing it leads back to that place.
pub proof fn scopes_nest(s: State, outer: Activation, inner: Activation)
    requires
        s.at(outer),
        nested(outer, inner),
        s.refs.len() <= usize::MAX,
        s.trail.len() <= usize::MAX,
    ensures
        s.opened().at(inner),
        !s.at(inner),
        !s.opened().at(outer),
        s.opened().closed(true).at(outer),
        s.opened().closed(false).at(outer),
        s.opened().refs == s.refs,
        s.opened().trail == s.trail,
{
    s.opened_then_closed(true);
    s.opened_then_closed(false);
}

/// Only the innermost scope of the engine that it was opened in can be closed.
pub proof fn only_the_innermost_scope_closes(s: State, gen: u64, depth: usize)
    requires
        depth < usize::MAX,
    ensures
        closable(s, gen, depth) <==> s.at(Activation { gen, depth: (depth + 1) as usize }),
{
}

/// Cutting keeps what stands before the place, and everything if there is no
/// more.
pub proof fn cutting_keeps_the_front<A>(s: Seq<A>, n: nat, i: int)
    ensures
        cut(s, n).len() == if n <= s.len() { n } else { s.len() },
        0 <= i < cut(s, n).len() ==> cut(s, n)[i] == s[i],
{
}

/// Using up the engine's answer changes nothing else.
pub proof fn answers_are_used_once(s: State)
    ensures
        s.answered().verdict is Grant,
        s.answered().refs == s.refs,
        s.answered().trail == s.trail,
        s.answered().marks == s.marks,
        s.answered().log == s.log,
        s.answered().gen == s.gen,
        s.answered().newest == s.newest,
        s.answered().fresh == s.fresh,
{
}

/// A recorded binding is added where the variable has none, and is not added
/// where it has one.
pub proof fn recorded_bindings_are_added_once(
    trail: Seq<(usize, Tree)>,
    more: Seq<(usize, Tree)>,
    id: usize,
    t: Tree,
)
    ensures
        extended(trail, Seq::empty()) == trail,
        (forall|i: int| 0 <= i < extended(trail, more).len() ==> (#[trigger] extended(
            trail,
            more,
        )[i]).0 != id) ==> extended(trail, more.push((id, t))) == extended(trail, more).push(
            (id, t),
        ),
        (exists|i: int| 0 <= i < extended(trail, more).len() && (#[trigger] extended(
            trail,
            more,
        )[i]).0 == id) ==> extended(trail, more.push((id, t))) == extended(trail, more),
{
    assert(more.push((id, t)).drop_last() =~= more);
    assert(more.push((id, t)).last() == (id, t));
    binding_none(extended(trail, more), 0, id);
}

/// Terms are live in the engine that they were made in, as long as their
/// reference is; a block as long as all of its references are.
pub proof fn live_references_are_there(term: Term, block: TermList, s: State, i: int)
    ensures
        term.live(s) <==> term.gen() == s.gen && term.raw() < s.refs.len(),
        block.live(s) <==> block.gen() == s.gen && block.first() + block.count() <= s.refs.len(),
        block.live(s) ==> block.held(s).len() == block.count(),
        block.live(s) && 0 <= i < block.count() ==> block.held(s)[i] == s.refs[block.first() + i],
{
}

/// An operation that only adds references leaves what every earlier one stands
/// for.
pub proof fn growth_keeps_values(a: State, b: State, c: State, raw: usize)
    requires
        grows(a, b),
        grows(b, c),
        raw < a.refs.len(),
    ensures
        grows(a, c),
        grows(a, a),
        b.value(raw) == a.value(raw),
        b.trail == a.trail,
        b.marks == a.marks,
        b.gen == a.gen,
        b.log == a.log,
{
    assert forall|i: int| 0 <= i < a.refs.len() implies #[trigger] c.refs[i] == a.refs[i] by {
        assert(b.refs[i] == a.refs[i]);
    }
}

/// An operation that writes one reference leaves what every other one stands
/// for, and one that fills a block those outside it.
pub proof fn writing_keeps_other_values(
    a: State,
    b: State,
    raw: usize,
    other: usize,
    block: TermList,
)
    requires
        other < a.refs.len(),
    ensures
        overwrites(a, b, raw) && other != raw ==> b.value(other) == a.value(other),
        overwrites(a, b, raw) ==> b.marks == a.marks && b.trail == a.trail && b.log == a.log,
        fills_block(a, b, block) && !(block.first() <= other < block.first() + block.count())
            ==> b.value(other) == a.value(other),
        fills_block(a, b, block) ==> b.marks == a.marks && b.trail == a.trail && b.log == a.log,
        grows(a, b) ==> overwrites(a, b, raw),
        overwrites(a, a, raw),
{
}

/// Building a dict puts it into its reference, uses up the values, and leaves
/// the other references.
pub proof fn dicts_are_put_into_their_reference(
    a: State,
    b: State,
    raw: usize,
    values: TermList,
    t: Tree,
    other: usize,
)
    requires
        other < a.refs.len(),
        !(values.first() <= other < values.first() + values.count()),
    ensures
        dict_put(a, b, raw, values, t) ==> b.refs[raw as int] == t && b.trail == a.trail && b.marks
            == a.marks && b.log == a.log,
        dict_put(a, b, raw, values, t) && other != raw ==> b.value(other) == a.value(other),
        dict_kept(a, b, values) ==> b.value(other) == a.value(other) && b.verdict is Grant
            && b.trail == a.trail,
{
}

/// What is read is what is found, if the engine lets it be read; a pending
/// exception is handed on, and otherwise the wrong shape is told.
pub proof fn reading_yields_what_is_found<T>(
    a: State,
    b: State,
    found: Option<T>,
    value: T,
    expected: &'static str,
    e: PrologException,
    r: Result<T, TermError>,
)
    requires
        get_done(a, b, found, expected, r),
    ensures
        a.verdict is Grant && found == Some(value) ==> r == Ok::<T, TermError>(value),
        a.verdict is Grant && found is None ==> r == Err::<T, TermError>(
            TermError::TypeMismatch { expected },
        ),
        a.verdict is Refuse ==> r == Err::<T, TermError>(TermError::TypeMismatch { expected }),
        a.verdict == Verdict::Raise(e) ==> r == Err::<T, TermError>(TermError::Exception(e)),
        b.verdict is Grant,
        b.refs == a.refs,
        b.trail == a.trail,
        get_error(a, expected) == match a.verdict {
            Verdict::Raise(e) => TermError::Exception(e),
            _ => TermError::TypeMismatch { expected },
        },
{
}

/// A text that is read is the text that is found.
pub proof fn reading_yields_the_text(
    a: State,
    b: State,
    found: Option<Seq<char>>,
    text: Seq<char>,
    expected: &'static str,
    e: PrologException,
    r: Result<String, TermError>,
)
    requires
        get_text_done(a, b, found, expected, r),
    ensures
        a.verdict is Grant && found == Some(text) ==> (r matches Ok(s) && s@ == text),
        a.verdict is Grant && found is None ==> r == Err::<String, TermError>(
            TermError::TypeMismatch { expected },
        ),
        a.verdict == Verdict::Raise(e) ==> r == Err::<String, TermError>(TermError::Exception(e)),
        b.verdict is Grant,
        b.refs == a.refs,
        b.trail == a.trail,
{
}

/// What is put is there, and nothing else has changed; a pending exception is
/// handed on, and then nothing has.
pub proof fn putting_changes_one_reference(
    a: State,
    b: State,
    raw: usize,
    other: usize,
    t: Tree,
    e: PrologException,
    r: Result<(), TermError>,
)
    requires
        put_done(a, b, raw, t, r),
        raw < a.refs.len(),
        other < a.refs.len(),
    ensures
        a.verdict is Grant ==> r is Ok && b.value(raw) == resolve(a.trail, t) && b.trail == a.trail,
        a.verdict is Grant && other != raw ==> b.value(other) == a.value(other),
        a.verdict == Verdict::Raise(e) ==> r == Err::<(), TermError>(TermError::Exception(e))
            && b.refs == a.refs && b.trail == a.trail && b.verdict is Grant,
{
}

/// A failed operation hands the pending exception on and takes it from the
/// engine; no binding is made and no scope opened or closed.
pub proof fn failures_hand_the_exception_on<T>(
    a: State,
    b: State,
    raw: usize,
    e: PrologException,
    r: Result<T, TermError>,
    c: Result<T, TermCodecError>,
)
    requires
        a.verdict == Verdict::Raise(e),
    ensures
        raised(a, b, r) || raised_within(a, b, r) || raised_writing(a, b, raw, r) ==> r == Err::<
            T,
            TermError,
        >(TermError::Exception(e)) && b.verdict is Grant && b.trail == a.trail && b.marks
            == a.marks,
        codec_raised(a, b, c) || codec_raised_within(a, b, c) || codec_raised_writing(a, b, raw, c)
            ==> (c matches Err(error) && error@ == CodecFault::Term(TermError::Exception(e)))
            && b.verdict is Grant && b.trail == a.trail && b.marks == a.marks,
        stopped(a, c, None) ==> (c matches Err(error) && error@ == CodecFault::Term(
            TermError::Exception(e),
        )),
{
}

/// A frame is one more scope if the engine grants it; otherwise the error is the
/// pending exception or a plain failure, and nothing has changed.
pub proof fn frames_are_scopes(
    a: State,
    b: State,
    outer: Activation,
    e: PrologException,
    r: Result<Frame, FrameError>,
)
    requires
        frame_opened(a, b, outer, r),
        a.at(outer),
    ensures
        a.verdict is Grant ==> (r matches Ok(frame) && b.at(frame.place()) && b.refs == a.refs
            && b.trail == a.trail && b.marks.len() == a.marks.len() + 1),
        a.verdict is Refuse ==> r == Err::<Frame, FrameError>(FrameError::OpenFailed),
        a.verdict == Verdict::Raise(e) ==> r == Err::<Frame, FrameError>(FrameError::Exception(e)),
        !(a.verdict is Grant) ==> b == a.answered(),
        frame_error(Verdict::Raise(e)) == FrameError::Exception(e),
        frame_error(Verdict::Refuse) == FrameError::OpenFailed,
{
}

/// Each status of an attachment is an error of its own, but for the one that
/// says that the engine is current.
pub proof fn attachments_fail_as_told(code: i32)
    ensures
        attach_error(EngineStatus::Current) is None,
        attach_error(EngineStatus::Invalid) == Some(AttachError::Invalid),
        attach_error(EngineStatus::InUse) == Some(AttachError::InUse),
        attach_error(EngineStatus::Other(code)) == Some(AttachError::Unknown(code)),
{
}

/// A failed attachment changes nothing; one that succeeds is the current
/// activation, with no scope open, and ending it restores what was current.
pub proof fn attachments_are_activations(
    engine_before: Engine,
    engine_after: Engine,
    a: State,
    b: State,
    gen: u64,
    error: Option<AttachError>,
    r: Result<AttachedEngine, AttachError>,
    inner: State,
)
    requires
        attached(engine_before, engine_after, a, b, gen, error, r),
    ensures
        error matches Some(e) ==> r == Err::<AttachedEngine, AttachError>(e) && b == a
            && engine_after == engine_before,
        error is None ==> {
            &&& r matches Ok(guard)
            &&& guard.place() == (Activation { gen, depth: 0 })
            &&& b.at(guard.place())
            &&& guard.restored(inner).refs == a.refs
            &&& guard.restored(inner).trail == a.trail
            &&& guard.restored(inner).marks == a.marks
            &&& guard.restored(inner).gen == a.gen
            &&& guard.restored(inner).log == inner.log
            &&& guard.restored(inner).verdict == inner.verdict
            &&& guard.restored(inner).newest == inner.newest
        },
{
}

/// A text has a NUL position exactly if its bytes hold a zero, and then it is
/// the place of the first one.
pub proof fn nul_positions_are_the_first(text: Seq<char>)
    ensures
        ({
            let bytes = vstd::utf8::encode_utf8(text);
            match nul_position(text) {
                Some(p) => 0 <= p < bytes.len() && bytes[p] == 0 && forall|i: int|
                    0 <= i < p ==> bytes[i] != 0,
                None => forall|i: int| 0 <= i < bytes.len() ==> bytes[i] != 0,
            }
        }),
{
    let bytes = vstd::utf8::encode_utf8(text);
    if exists|i: int| 0 <= i < bytes.len() && bytes[i] == 0 {
        let i = choose|i: int| 0 <= i < bytes.len() && bytes[i] == 0;
        let p = first_zero(bytes, i);
        assert(first_nul(bytes, p));
    }
}

proof fn first_zero(bytes: Seq<u8>, i: int) -> (p: int)
    requires
        0 <= i < bytes.len(),
        bytes[i] == 0,
    ensures
        first_nul(bytes, p),
        p <= i,
    decreases i,
{
    if exists|j: int| 0 <= j < i && bytes[j] == 0 {
        let j = choose|j: int| 0 <= j < i && bytes[j] == 0;
        first_zero(bytes, j)
    } else {
        i
    }
}

/// The name of a predicate is looked at before its module, and both before the
/// arity: each fault comes exactly where none of the earlier ones does.
pub proof fn predicate_names_are_checked_in_order(
    name: Seq<char>,
    arity: usize,
    module: Option<&str>,
    p: int,
)
    requires
        0 <= p <= usize::MAX,
    ensures
        nul_position(name) == Some(p) ==> Predicate::name_fault(name, arity, module) == Some(
            HandleError::InteriorNul { position: p as usize },
        ),
        nul_position(name) is None ==> (module matches Some(m) ==> nul_position(m@) == Some(p)
            ==> Predicate::name_fault(name, arity, module) == Some(
            HandleError::InteriorNul { position: p as usize },
        )),
        nul_position(name) is None && (module matches Some(m) ==> nul_position(m@) is None) ==> (
        Predicate::name_fault(name, arity, module) is None <==> arity <= 0x7fff_ffff),
        nul_position(name) is None && (module matches Some(m) ==> nul_position(m@) is None)
            && arity > 0x7fff_ffff ==> Predicate::name_fault(name, arity, module) == Some(
            HandleError::PredicateArityOutOfRange { arity },
        ),
{
}

/// A handle is made if the engine grants it; otherwise the error is the pending
/// exception or the given refusal, and nothing has changed.
pub proof fn handles_are_made_as_answered<T>(
    a: State,
    b: State,
    made: spec_fn(T) -> bool,
    refusal: HandleError,
    e: PrologException,
    r: Result<T, HandleError>,
)
    requires
        constructed(a, b, made, refusal, r),
    ensures
        a.verdict is Grant ==> (r matches Ok(handle) && made(handle)),
        a.verdict is Refuse ==> r == Err::<T, HandleError>(refusal),
        a.verdict == Verdict::Raise(e) ==> r == Err::<T, HandleError>(HandleError::Exception(e)),
        b == a.answered(),
{
}

/// Recording fails with the exception that the engine left, and otherwise
/// plainly.
pub proof fn records_fail_as_told(e: PrologException)
    ensures
        record_error(Verdict::Raise(e)) == RecordError::Exception(e),
        record_error(Verdict::Refuse) == RecordError::Failed,
        record_error(Verdict::Grant) == RecordError::Failed,
{
}

/// Recalling renames variables and nothing else: each is moved by the same
/// amount, so that different ones stay different.
pub proof fn recalling_renames_variables(
    id: usize,
    other: usize,
    base: nat,
    text: Seq<char>,
    value: int,
    bits: u64,
    head: Tree,
    tail: Tree,
    args: Seq<Tree>,
    trail: Seq<(usize, Tree)>,
    i: int,
)
    requires
        id + base <= usize::MAX,
        other + base <= usize::MAX,
    ensures
        shifted(Tree::Var(id), base) == Tree::Var((id + base) as usize),
        shifted(Tree::Var(id), base) == shifted(Tree::Var(other), base) ==> id == other,
        shifted(Tree::Atom(text), base) == Tree::Atom(text),
        shifted(Tree::String(text), base) == Tree::String(text),
        shifted(Tree::Integer(value), base) == Tree::Integer(value),
        shifted(Tree::Float(bits, text), base) == Tree::Float(bits, text),
        shifted(Tree::Nil, base) == Tree::Nil,
        shifted(Tree::Pair(Box::new(head), Box::new(tail)), base) == Tree::Pair(
            Box::new(shifted(head, base)),
            Box::new(shifted(tail, base)),
        ),
        shifted(Tree::Compound(text, args), base) matches Tree::Compound(name, moved) && name
            == text && moved.len() == args.len() && (0 <= i < args.len() ==> moved[i] == shifted(
            args[i],
            base,
        )),
        shifted_bindings(trail, base).len() == trail.len(),
        0 <= i < trail.len() && trail[i].0 + base <= usize::MAX ==> shifted_bindings(
            trail,
            base,
        )[i].0 == trail[i].0 + base && shifted_bindings(trail, base)[i].1 == shifted(
            trail[i].1,
            base,
        ),
{
}

/// A record is recalled into its reference, with the variables renamed beyond
/// all that there are; every other reference holds what it held.
pub proof fn records_are_recalled_into_a_reference(
    record: RecordView,
    s: State,
    raw: usize,
    other: usize,
)
    requires
        raw < s.refs.len(),
        other < s.refs.len(),
        other != raw,
    ensures
        record.recalled(s, raw).refs[raw as int] == shifted(record.tree, s.fresh),
        record.recalled(s, raw).refs[other as int] == s.refs[other as int],
        record.recalled(s, raw).refs.len() == s.refs.len(),
        record.recalled(s, raw).fresh == s.fresh + record.vars,
        record.recalled(s, raw).marks == s.marks,
        record.recalled(s, raw).trail == extended(
            s.trail,
            shifted_bindings(record.trail, s.fresh),
        ),
{
}

/// Arguments are accepted exactly if none holds a zero byte and there are not
/// too many; a refused one is the first that holds one, at its first place.
pub proof fn arguments_hold_no_zero_bytes(args: Seq<Vec<u8>>, index: usize, position: usize)
    ensures
        argv_fault(args, None) <==> args.len() <= 0x7fff_ffff && forall|i: int, p: int|
            0 <= i < args.len() && 0 <= p < args[i]@.len() ==> #[trigger] args[i]@[p] != 0,
        argv_fault(args, Some(InitError::InvalidArgument { index, position })) <==> index
            < args.len() && position < args[index as int]@.len()
            && args[index as int]@[position as int] == 0 && (forall|p: int|
            0 <= p < position ==> #[trigger] args[index as int]@[p] != 0) && forall|i: int, p: int|
            0 <= i < index && 0 <= p < args[i]@.len() ==> #[trigger] args[i]@[p] != 0,
        argv_fault(args, Some(InitError::TooManyArguments)) <==> args.len() > 0x7fff_ffff
            && forall|i: int, p: int|
            0 <= i < args.len() && 0 <= p < args[i]@.len() ==> #[trigger] args[i]@[p] != 0,
        !argv_fault(args, Some(InitError::AlreadyInitialized)),
        !argv_fault(args, Some(InitError::InitialiseFailed)),
        !argv_fault(args, Some(InitError::InvalidSavedState)),
{
    no_zero_bytes(args, args.len() as int);
    if index < args.len() {
        no_zero_bytes(args, index as int);
    }
}

proof fn no_zero_bytes(args: Seq<Vec<u8>>, n: int)
    requires
        0 <= n <= args.len(),
    ensures
        (forall|i: int, p: int| 0 <= i < n ==> !#[trigger] first_nul(args[i]@, p)) <==> (forall|
            i: int,
            p: int,
        |
            0 <= i < n && 0 <= p < args[i]@.len() ==> #[trigger] args[i]@[p] != 0),
{
    if forall|i: int, p: int| 0 <= i < n ==> !#[trigger] first_nul(args[i]@, p) {
        assert forall|i: int, p: int| 0 <= i < n && 0 <= p < args[i]@.len() implies #[trigger] args[
        i]@[p] != 0 by {
            if args[i]@[p] == 0 {
                let q = first_zero(args[i]@, p);
                assert(first_nul(args[i]@, q));
            }
        }
    }
}

/// Each argument is handed over as its bytes and a final zero byte.
pub proof fn arguments_end_in_a_zero_byte(args: Seq<Vec<u8>>, argv: Seq<Vec<u8>>, i: int, p: int)
    requires
        is_argv(args, argv),
        0 <= i < args.len(),
    ensures
        argv.len() == args.len(),
        argv[i]@.len() == args[i]@.len() + 1,
        argv[i]@.last() == 0,
        0 <= p < args[i]@.len() ==> argv[i]@[p] == args[i]@[p],
{
}

/// The engine starts exactly if it could be initialised and its saved state, if
/// one was given, was not refused; a refused saved state is told before all.
pub proof fn engines_boot_as_answered(
    saved_state: Option<bool>,
    initialised: bool,
    r: Result<Runtime, InitError>,
)
    requires
        booted(saved_state, initialised, r),
    ensures
        r is Ok <==> saved_state != Some(false) && initialised,
        saved_state == Some(false) ==> r == Err::<Runtime, InitError>(InitError::InvalidSavedState),
        saved_state != Some(false) && !initialised ==> r == Err::<Runtime, InitError>(
            InitError::InitialiseFailed,
        ),
{
}

/// There is at most one runtime: a second one is refused whatever the
/// arguments, and faulty arguments are refused before anything is started. Only
/// success changes whether there is one.
pub proof fn runtimes_start_once(
    before: RuntimeState,
    after: RuntimeState,
    args: Seq<Vec<u8>>,
    r: Result<Runtime, InitError>,
)
    requires
        started(before, after, args, r),
    ensures
        before == RuntimeState::Initialized ==> r == Err::<Runtime, InitError>(
            InitError::AlreadyInitialized,
        ) && after == RuntimeState::Initialized,
        before == RuntimeState::Uninitialized && !argv_fault(args, None) ==> (r matches Err(e)
            && argv_fault(args, Some(e))),
        r is Err ==> after == before,
        r is Ok ==> after == RuntimeState::Initialized && before == RuntimeState::Uninitialized
            && argv_fault(args, None),
{
}

} // verus!
