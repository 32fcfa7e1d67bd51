//! Laws of queries: what each answer of the engine becomes.

use vstd::prelude::*;

use crate::args::{call_cleaned, scoped_call_error, CallError};
use crate::call::ScopedCallError;
use crate::exception::{PrologException, Verdict};
use crate::exchange::{Event, Goal, Status, StepView};
use crate::fli::{bound_by, State};
use crate::handles::Predicate;
use crate::query::{
    asked_next, asked_once, body_cleaned, cleaned, end_result, end_verdict, ends, first_step,
    flags_of, found, goal_of, next_step, no_solution, not_opened, open_error, opened_for,
    opening_step, started, step_after, step_result, step_spends, step_state, QueryError,
    QueryOptions,
};
use crate::term::TermList;
use crate::typed::{call_kept, call_no_solution, call_not_opened};

verus! {

/// A query asks for the goal it was given, on the block it was given; it can
/// always be enumerated, its exceptions are always surfaced, and the debugger is
/// off exactly if that was asked for.
pub proof fn queries_ask_for_their_goal(
    predicate: Predicate,
    args: TermList,
    options: QueryOptions,
)
    ensures
        ({
            let goal = goal_of(predicate, args, options);
            &&& goal.predicate == predicate
            &&& goal.first == args.first()
            &&& goal.count == args.count()
            &&& goal.flags.ext_status
            &&& goal.flags.catch_exception
            &&& goal.flags.nodebug == options.nodebug
            &&& goal.flags == flags_of(options)
        }),
{
}

/// A step finds a solution if the engine reports one, the last one or not; it
/// finds none if the engine reports that there is none, and fails with the
/// exception of the goal, or with the code where there is none.
pub proof fn steps_find_what_the_engine_reports(
    bindings: Seq<(usize, crate::data::Tree)>,
    vars: nat,
    code: i32,
    e: PrologException,
)
    ensures
        step_result(StepView { status: Status::True, bindings, vars }) == Ok::<bool, QueryError>(
            true,
        ),
        step_result(StepView { status: Status::Last, bindings, vars }) == Ok::<bool, QueryError>(
            true,
        ),
        step_result(StepView { status: Status::False, bindings, vars }) == Ok::<bool, QueryError>(
            false,
        ),
        step_result(
            StepView {
                status: Status::Exception { code, exception: Some(e) },
                bindings,
                vars,
            },
        ) == Err::<bool, QueryError>(QueryError::Exception(e)),
        step_result(
            StepView { status: Status::Exception { code, exception: None }, bindings, vars },
        ) == Err::<bool, QueryError>(QueryError::Unknown(code)),
        step_result(StepView { status: Status::Other(code), bindings, vars }) == Err::<
            bool,
            QueryError,
        >(QueryError::Unknown(code)),
{
}

/// A query is spent by its last solution, by there being none, and by an
/// exception; a solution that others may follow and an unknown status leave it
/// to be asked again.
pub proof fn queries_are_spent_at_their_end(
    bindings: Seq<(usize, crate::data::Tree)>,
    vars: nat,
    code: i32,
    exception: Option<PrologException>,
)
    ensures
        !step_spends(StepView { status: Status::True, bindings, vars }),
        step_spends(StepView { status: Status::Last, bindings, vars }),
        step_spends(StepView { status: Status::False, bindings, vars }),
        step_spends(
            StepView { status: Status::Exception { code, exception }, bindings, vars },
        ),
        !step_spends(StepView { status: Status::Other(code), bindings, vars }),
{
}

/// A solution replaces the one before it: its bindings are made where the query
/// was opened. Where there is no solution nothing is left of the one before.
pub proof fn solutions_replace_each_other(s: State, step: StepView)
    requires
        s.marks.len() > 0,
        s.marks.last().refs <= s.refs.len(),
        s.marks.last().trail <= s.trail.len(),
    ensures
        step_state(s, step).marks == s.marks,
        step_state(s, step).gen == s.gen,
        step_state(s, step).log == s.log,
        step_state(s, step).refs == s.refs.take(s.marks.last().refs as int),
        step_result(step) == Ok::<bool, QueryError>(true) ==> step_state(s, step).trail == bound_by(
            s.trail.take(s.marks.last().trail as int),
            step.bindings,
        ) && step_state(s, step).fresh == s.fresh + step.vars,
        step_result(step) != Ok::<bool, QueryError>(true) ==> step_state(s, step).trail
            == s.trail.take(s.marks.last().trail as int) && step_state(s, step).fresh == s.fresh,
        next_step(s, step).log == s.log.push(Event::Advanced(step)),
        next_step(s, step).trail == step_state(s, step).trail,
{
}

/// Opening a query fails with the exception that the engine left, and otherwise
/// plainly; ending one fails with the exception and otherwise not at all.
pub proof fn exceptions_surface(e: PrologException)
    ensures
        open_error(Verdict::Raise(e)) == QueryError::Exception(e),
        open_error(Verdict::Refuse) == QueryError::OpenFailed,
        end_result(Verdict::Grant) == Ok::<(), QueryError>(()),
        end_result(Verdict::Refuse) == Ok::<(), QueryError>(()),
        end_result(Verdict::Raise(e)) == Err::<(), QueryError>(QueryError::Exception(e)),
{
}

/// Neither of two failures is lost: where ending a query fails after something
/// else failed, both are in the error; where it does not, the first one is it.
pub proof fn no_failure_is_lost<E>(
    operation: QueryError,
    body: E,
    call: CallError,
    e: PrologException,
)
    ensures
        cleaned(operation, Verdict::Grant) == operation,
        cleaned(operation, Verdict::Refuse) == operation,
        cleaned(operation, Verdict::Raise(e)) == (QueryError::OperationAndCleanup {
            operation: Box::new(operation),
            cleanup: Box::new(QueryError::Exception(e)),
        }),
        body_cleaned(body, Verdict::Grant) == ScopedCallError::<QueryError, E>::Body(body),
        body_cleaned(body, Verdict::Refuse) == ScopedCallError::<QueryError, E>::Body(body),
        body_cleaned(body, Verdict::Raise(e)) == (ScopedCallError::<QueryError, E>::BodyAndCleanup {
            body,
            cleanup: QueryError::Exception(e),
        }),
        call_cleaned(call, Verdict::Grant) == call,
        call_cleaned(call, Verdict::Refuse) == call,
        call_cleaned(call, Verdict::Raise(e)) == (CallError::CallAndCleanup {
            call: Box::new(call),
            cleanup: QueryError::Exception(e),
        }),
        scoped_call_error(ScopedCallError::Operation(operation)) == CallError::Query(operation),
        scoped_call_error(ScopedCallError::Body(call)) == call,
        scoped_call_error(body_cleaned(call, Verdict::Raise(e))) == call_cleaned(
            call,
            Verdict::Raise(e),
        ),
{
}

/// What a call whose solution is kept yields is that solution, unless ending the
/// query fails.
pub proof fn kept_solutions_are_yielded<R>(value: R, e: PrologException)
    ensures
        call_kept(Verdict::Grant, value) == Ok::<Option<R>, CallError>(Some(value)),
        call_kept(Verdict::Refuse, value) == Ok::<Option<R>, CallError>(Some(value)),
        call_kept(Verdict::Raise(e), value) == Err::<Option<R>, CallError>(
            CallError::Query(QueryError::Exception(e)),
        ),
{
}

/// Ending a query closes its scope, takes its references away, undoes its
/// bindings exactly if they are not kept, uses up the engine's answer, and is
/// told with that answer.
pub proof fn ended_queries_are_closed(s: State, after: State, keep: bool)
    requires
        ends(s, after, keep),
        s.marks.len() > 0,
        s.marks.last().refs <= s.refs.len(),
        s.marks.last().trail <= s.trail.len(),
    ensures
        after.marks == s.marks.drop_last(),
        after.refs == s.refs.take(s.marks.last().refs as int),
        keep ==> after.trail == s.trail,
        !keep ==> after.trail == s.trail.take(s.marks.last().trail as int),
        after.verdict is Grant,
        after.log == s.log.push(Event::Ended(keep, end_verdict(after))),
        after.gen == s.gen,
        after.fresh == s.fresh,
{
    assert(after.log.last() == Event::Ended(keep, end_verdict(after)));
}

/// A query that could not be opened leaves everything as it was but for the
/// engine's answer, which is told.
pub proof fn refused_queries_change_nothing(s: State, goal: Goal, after: State)
    requires
        not_opened(s, goal, after),
    ensures
        after.refs == s.refs,
        after.trail == s.trail,
        after.marks == s.marks,
        after.verdict is Grant,
        after.log.len() == s.log.len() + 1,
        after.log[s.log.len() as int] matches Event::Opened(asked, answer) && asked == goal
            && !(answer is Grant),
        !started(s, goal, after),
{
}

/// An opened query is one more scope, and its first step is the next thing told.
pub proof fn opened_queries_are_scopes(s: State, goal: Goal, step: StepView)
    requires
        s.refs.len() <= usize::MAX,
        s.trail.len() <= usize::MAX,
    ensures
        opened_for(s, goal).marks.len() == s.marks.len() + 1,
        opened_for(s, goal).refs == s.refs,
        opened_for(s, goal).trail == s.trail,
        opened_for(s, goal).log == s.log.push(Event::Opened(goal, Verdict::Grant)),
        opened_for(s, goal).verdict is Grant,
        first_step(s, goal, step).log == s.log.push(Event::Opened(goal, Verdict::Grant)).push(
            Event::Advanced(step),
        ),
        first_step(s, goal, step).refs == s.refs,
        step_result(step) == Ok::<bool, QueryError>(true) ==> first_step(s, goal, step).trail
            == bound_by(s.trail, step.bindings),
        step_result(step) != Ok::<bool, QueryError>(true) ==> first_step(s, goal, step).trail
            == s.trail,
        started(s, goal, first_step(s, goal, step).logged(Event::Advanced(step))),
        opening_step(s, first_step(s, goal, step)) == step,
{
    assert(s.refs.take(s.refs.len() as int) =~= s.refs);
    assert(s.trail.take(s.trail.len() as int) =~= s.trail);
}

/// A solver that is asked once is told that the query was opened, the one step,
/// and what came last; one that refuses, its refusal alone.
pub proof fn solvers_are_told_everything(
    before: Seq<Event>,
    after: Seq<Event>,
    s: State,
    goal: Goal,
    end: State,
)
    requires
        asked_once(before, after, s, goal, end),
    ensures
        started(s, goal, end) ==> after.len() == before.len() + 3 && after[before.len() as int]
            == Event::Opened(goal, Verdict::Grant) && after[before.len() as int + 1]
            == Event::Advanced(opening_step(s, end)) && after.last() == end.log.last(),
        !started(s, goal, end) ==> after.len() == before.len() + 1 && after.last()
            == end.log.last(),
        forall|i: int| 0 <= i < before.len() ==> #[trigger] after[i] == before[i],
{
}

/// A solver is asked for a further step exactly if the query is not spent, and
/// told of its end exactly if the query does not stay open.
pub proof fn spent_queries_are_not_asked(
    before: Seq<Event>,
    after: Seq<Event>,
    s: State,
    end: State,
    spent: bool,
    open: bool,
)
    requires
        asked_next(before, after, s, end, spent, open),
    ensures
        spent && open ==> after == before,
        spent && !open ==> after == before.push(end.log.last()),
        !spent && open ==> after == before.push(Event::Advanced(step_after(s, end))),
        !spent && !open ==> after == before.push(Event::Advanced(step_after(s, end))).push(
            end.log.last(),
        ),
{
}

/// Where no solution is left the query ends without keeping anything, and the
/// only error is that of the step or of the end, or both.
pub proof fn exhausted_queries_end(
    s: State,
    after: State,
    spent: bool,
    error: Option<QueryError>,
    e: PrologException,
)
    requires
        no_solution(s, after, spent, error),
    ensures
        spent ==> ends(s, after, false),
        !spent ==> ends(next_step(s, step_after(s, after)), after, false) && !found(s, after),
        after.log.last() matches Event::Ended(keep, answer) && !keep,
        spent && end_verdict(after) is Grant ==> error is None,
        end_verdict(after) == Verdict::Raise(e) ==> error is Some,
        spent && end_verdict(after) == Verdict::Raise(e) ==> error == Some(
            QueryError::Exception(e),
        ),
        !spent && step_result(step_after(s, after)) == Ok::<bool, QueryError>(false) && !(
        end_verdict(after) is Raise) ==> error is None,
        !spent && !(end_verdict(after) is Raise) ==> (step_result(step_after(s, after)) matches Err(
            operation,
        ) ==> error == Some(operation)),
{
}

/// A prepared call on the wrong number of arguments is refused before the
/// engine is asked; the error tells both numbers.
pub proof fn calls_need_the_arity<R>(
    s: State,
    after: State,
    goal: Goal,
    r: Result<R, CallError>,
    e: PrologException,
)
    requires
        call_not_opened(s, after, goal, r),
        goal.count <= usize::MAX,
    ensures
        goal.count != goal.predicate.spec_arity() ==> after == s && r == Err::<R, CallError>(
            CallError::Query(
                QueryError::ArityMismatch {
                    expected: goal.predicate.spec_arity(),
                    actual: goal.count as usize,
                },
            ),
        ),
        goal.count == goal.predicate.spec_arity() ==> not_opened(s, goal, after),
        goal.count == goal.predicate.spec_arity() && after.log.last() == Event::Opened(
            goal,
            Verdict::Raise(e),
        ) ==> r == Err::<R, CallError>(CallError::Query(QueryError::Exception(e))),
        goal.count == goal.predicate.spec_arity() && after.log.last() == Event::Opened(
            goal,
            Verdict::Refuse,
        ) ==> r == Err::<R, CallError>(CallError::Query(QueryError::OpenFailed)),
{
}

/// A call without a solution yields nothing, closes its query without keeping
/// anything, and fails only as the step or the end does.
pub proof fn calls_without_a_solution_yield_nothing<R>(
    s: State,
    after: State,
    goal: Goal,
    r: Result<Option<R>, CallError>,
    e: PrologException,
)
    requires
        call_no_solution(s, after, goal, r),
    ensures
        ends(first_step(s, goal, opening_step(s, after)), after, false),
        step_result(opening_step(s, after)) is Ok && !(end_verdict(after) is Raise) ==> r == Ok::<
            Option<R>,
            CallError,
        >(None),
        step_result(opening_step(s, after)) is Ok && end_verdict(after) == Verdict::Raise(e)
            ==> r == Err::<Option<R>, CallError>(CallError::Query(QueryError::Exception(e))),
        step_result(opening_step(s, after)) matches Err(operation) ==> !(end_verdict(after)
            is Raise) ==> r == Err::<Option<R>, CallError>(CallError::Query(operation)),
{
}

} // verus!
