//! Queries: opening a goal, stepping through its solutions, ending it.

use std::marker::PhantomData;
use std::rc::Rc;

use vstd::prelude::*;

use crate::call::ScopedCallError;
use crate::exception::{PrologException, Verdict};
use crate::exchange::{Event, Goal, Status, Step, StepView};
use crate::fli::{Fli, State};
use crate::handles::Predicate;
use crate::rollback::bound_prefix;
use crate::scope::{close_scope, open_scope, try_close_scope, Activation};
use crate::sealed::Sealed;
use crate::term::{bind_all, nested, FliContext, TermList};

verus! {

/// Options of the [`Query`] methods. Create this non-exhaustive value with
/// [`QueryOptions::default`] and then set the desired fields.
#[derive(Debug, Clone, Copy, PartialEq, Eq, Structural)]
#[non_exhaustive]
pub struct QueryOptions {
    /// Run the goal with the debugger disabled.
    pub nodebug: bool,
}

impl Default for QueryOptions {
    fn default() -> (r: Self)
        ensures
            r == (QueryOptions { nodebug: false }),
    {
        QueryOptions { nodebug: false }
    }
}

/// The flags that a query is opened with.
#[derive(Debug, Clone, Copy, PartialEq, Eq, Structural)]
pub struct QueryFlags {
    /// Report the last solution as such.
    pub ext_status: bool,
    /// Hand an uncaught exception to the caller of the query.
    pub catch_exception: bool,
    /// Run with the debugger disabled.
    pub nodebug: bool,
}

/// The flags of a query with the given options: solutions can always be
/// enumerated, and exceptions are always surfaced.
pub open spec fn flags_of(options: QueryOptions) -> QueryFlags {
    QueryFlags { ext_status: true, catch_exception: true, nodebug: options.nodebug }
}

/// The goal of a query.
pub open spec fn goal_of(predicate: Predicate, args: TermList, options: QueryOptions) -> Goal {
    Goal { predicate, first: args.first(), count: args.count(), flags: flags_of(options) }
}

impl QueryOptions {
    /// The flags of a query with these options: solutions can always be
    /// enumerated, and exceptions are always surfaced.
    pub fn into_raw(self) -> (r: QueryFlags)
        ensures
            r == flags_of(self),
    {
        QueryFlags { ext_status: true, catch_exception: true, nodebug: self.nodebug }
    }
}

/// An error from opening or running a query.
#[derive(Debug)]
pub enum QueryError {
    /// The argument block's length does not match the predicate's arity.
    ArityMismatch { expected: usize, actual: usize },
    /// The engine did not open the query and left no exception.
    OpenFailed,
    /// The goal (or closing it) raised a Prolog exception; it has been
    /// cleared from the engine.
    Exception(PrologException),
    /// The engine reported a status code that is not known.
    Unknown(i32),
    /// Advancing a query failed, and closing it then failed independently.
    OperationAndCleanup { operation: Box<QueryError>, cleanup: Box<QueryError> },
}

/// The engine's side of one query.
///
/// The engine decides what it answers; nothing is assumed of its answers. What
/// it was told, and what it answered, is all that [`Solver::told`] holds, so
/// that a query can state what it asked of the engine and in which order.
pub trait Solver {
    /// Everything the engine was asked for this query so far, each with the
    /// answer, oldest first. An implementation that is verified gives this a
    /// body of its own; with the one here no method can be shown to meet its
    /// contract.
    open spec fn told(&self) -> Seq<Event> {
        arbitrary()
    }

    /// Opens the query.
    fn open(
        &mut self,
        fli: &Fli,
        predicate: &Predicate,
        args: &TermList<'_>,
        flags: QueryFlags,
    ) -> (v: Verdict)
        ensures
            final(self).told() == old(self).told().push(
                Event::Opened(
                    Goal { predicate: *predicate, first: args.first(), count: args.count(), flags },
                    v,
                ),
            ),
    ;

    /// Finds the next solution.
    fn next(&mut self, fli: &Fli) -> (step: Step)
        ensures
            final(self).told() == old(self).told().push(Event::Advanced(step@)),
    ;

    /// Ends the query and keeps its bindings. Refusing means that the query
    /// was ended without success and without an exception.
    fn cut(&mut self, fli: &Fli) -> (v: Verdict)
        ensures
            final(self).told() == old(self).told().push(Event::Ended(true, v)),
    ;

    /// Ends the query and undoes its bindings.
    fn close(&mut self, fli: &Fli) -> (v: Verdict)
        ensures
            final(self).told() == old(self).told().push(Event::Ended(false, v)),
    ;
}

/// The error of opening a query.
pub open spec fn open_error(verdict: Verdict) -> QueryError {
    match verdict {
        Verdict::Raise(e) => QueryError::Exception(e),
        _ => QueryError::OpenFailed,
    }
}

/// What a step means: whether there is a solution, or which error there is.
pub open spec fn step_result(step: StepView) -> Result<bool, QueryError> {
    match step.status {
        Status::True => Ok(true),
        Status::Last => Ok(true),
        Status::False => Ok(false),
        Status::Exception { code, exception } => match exception {
            Some(e) => Err(QueryError::Exception(e)),
            None => Err(QueryError::Unknown(code)),
        },
        Status::Other(code) => Err(QueryError::Unknown(code)),
    }
}

/// Whether no further solution can follow a step.
pub open spec fn step_spends(step: StepView) -> bool {
    match step.status {
        Status::True => false,
        Status::Last => true,
        Status::False => true,
        Status::Exception { code, exception } => true,
        Status::Other(code) => false,
    }
}

/// The state after a step: the engine backtracks to where the query was
/// opened, and makes the bindings of the solution if there is one.
pub open spec fn step_state(before: State, step: StepView) -> State {
    match step.status {
        Status::True => solution_state(before, step),
        Status::Last => solution_state(before, step),
        _ => before.rewound(false),
    }
}

/// The state of a solution: its bindings are made, and its variables are
/// there.
pub open spec fn solution_state(before: State, step: StepView) -> State {
    State {
        fresh: before.fresh + step.vars,
        ..before.rewound(false).with_bindings(step.bindings)
    }
}

/// The result of ending a query.
pub open spec fn end_result(verdict: Verdict) -> Result<(), QueryError> {
    match verdict {
        Verdict::Raise(e) => Err(QueryError::Exception(e)),
        _ => Ok(()),
    }
}

/// The error after an operation failed and the query was closed.
pub open spec fn cleaned(operation: QueryError, verdict: Verdict) -> QueryError {
    match end_result(verdict) {
        Ok(_) => operation,
        Err(cleanup) => QueryError::OperationAndCleanup {
            operation: Box::new(operation),
            cleanup: Box::new(cleanup),
        },
    }
}

/// The error after a callback failed and the query was closed.
pub open spec fn body_cleaned<E>(body: E, verdict: Verdict) -> ScopedCallError<QueryError, E> {
    match end_result(verdict) {
        Ok(_) => ScopedCallError::Body(body),
        Err(cleanup) => ScopedCallError::BodyAndCleanup { body, cleanup },
    }
}

/// Whether `after` comes from `before` by ending the innermost query, and the
/// exchange was noted.
pub open spec fn ends(before: State, after: State, keep: bool) -> bool {
    &&& after.log.len() == before.log.len() + 1
    &&& after.log.last() is Ended
    &&& after.log.last()->Ended_0 == keep
    &&& after == before.closed(keep).answered().logged(after.log.last())
}

/// The engine's answer to the end of the query.
pub open spec fn end_verdict(after: State) -> Verdict {
    after.log.last()->Ended_1
}

/// The state in which a query for a goal was opened.
pub open spec fn opened_for(before: State, goal: Goal) -> State {
    before.opened().answered().logged(Event::Opened(goal, Verdict::Grant))
}

/// The state in which a query that was opened at `before` has taken its first
/// step.
pub open spec fn first_step(before: State, goal: Goal, step: StepView) -> State {
    step_state(
        opened_for(before, goal),
        step,
    ).logged(Event::Advanced(step))
}

/// Whether a query that was asked for at `before` could not be opened.
pub open spec fn not_opened(before: State, goal: Goal, after: State) -> bool {
    &&& after.log.len() == before.log.len() + 1
    &&& after.log.last() is Opened
    &&& after.log.last()->Opened_0 == goal
    &&& !(after.log.last()->Opened_1 is Grant)
    &&& after == before.answered().logged(after.log.last())
}

/// Whether a query that was asked for at `before` was opened and took a first
/// step.
pub open spec fn started(before: State, goal: Goal, after: State) -> bool {
    &&& after.log.len() > before.log.len() + 1
    &&& after.log[before.log.len() as int] == Event::Opened(goal, Verdict::Grant)
    &&& after.log[before.log.len() as int + 1] is Advanced
}

/// The first step of a query that was asked for at `before`.
pub open spec fn opening_step(before: State, after: State) -> StepView {
    after.log[before.log.len() as int + 1]->Advanced_0
}

/// Whether exactly this was asked of the engine, in this order, by a call that
/// runs a goal once: to open the query, and, if it was opened, to find a
/// solution and to end the query.
pub open spec fn asked_once(
    told_before: Seq<Event>,
    told_after: Seq<Event>,
    before: State,
    goal: Goal,
    after: State,
) -> bool {
    told_after == if started(before, goal, after) {
        told_before.push(Event::Opened(goal, Verdict::Grant)).push(
            Event::Advanced(opening_step(before, after)),
        ).push(after.log.last())
    } else {
        told_before.push(after.log.last())
    }
}

/// A callback-scoped view of the current solution of a Prolog query.
///
/// The query is also an [`FliContext`], so that solution-local scratch terms
/// can be allocated without letting them escape into the next solution.
pub struct Query<'c> {
    at: Activation,
    /// Set once the engine reported that no further solution can follow;
    /// further steps short-circuit. The query must still be ended.
    exhausted: bool,
    ctx: PhantomData<(&'c (), Rc<()>)>,
}

impl<'c> Sealed for Query<'c> {
    closed spec fn place(&self) -> Activation {
        self.at
    }

    fn activation(&self) -> (r: Activation) {
        self.at
    }
}

impl<'c> FliContext for Query<'c> {

}

impl<'c> Query<'c> {
    /// Whether no further solution can follow.
    pub closed spec fn spent(&self) -> bool {
        self.exhausted
    }

    /// Opens a query calling `predicate` with the argument block `args`.
    pub fn open<C: FliContext>(
        ctx: &'c C,
        fli: &mut Fli,
        predicate: &Predicate,
        args: &TermList<'_>,
    ) -> (r: Result<Query<'c>, QueryError>)
        requires
            args.count() == predicate.spec_arity() ==> args.gen() == old(fli)@.gen && old(fli)@.at(
                ctx.place(),
            ),
        ensures
            if args.count() != predicate.spec_arity() {
                r == Err::<Query<'c>, QueryError>(
                    QueryError::ArityMismatch {
                        expected: predicate.spec_arity(),
                        actual: args.count() as usize,
                    },
                ) && final(fli)@ == old(fli)@
            } else if old(fli)@.verdict is Grant {
                r matches Ok(query) && nested(ctx.place(), query.place()) && !query.spent()
                    && final(fli)@ == old(fli)@.opened()
            } else {
                r == Err::<Query<'c>, QueryError>(open_error(old(fli)@.verdict)) && final(fli)@
                    == old(fli)@.answered()
            },
    {
        if args.len() != predicate.arity() {
            return Err(
                QueryError::ArityMismatch { expected: predicate.arity(), actual: args.len() },
            );
        }
        fli.attest();
        let outer: Activation = ctx.activation();
        let depth: usize = open_scope(fli, outer);
        match fli.take_verdict() {
            Verdict::Grant => Ok(
                Query { at: fli.activation(), exhausted: false, ctx: PhantomData },
            ),
            Verdict::Refuse => {
                close_scope(fli, outer.gen, depth, true);
                proof {
                    old(fli)@.opened_then_closed(true);
                }
                Err(QueryError::OpenFailed)
            },
            Verdict::Raise(exception) => {
                close_scope(fli, outer.gen, depth, true);
                proof {
                    old(fli)@.opened_then_closed(true);
                }
                Err(QueryError::Exception(exception))
            },
        }
    }

    /// Takes the step that the engine reports.
    ///
    /// `Ok(true)` means the argument block now holds a solution; `Ok(false)`
    /// means the goal has no (more) solutions. Either way the query must
    /// still be ended.
    pub fn next_solution(&mut self, fli: &mut Fli, step: Step) -> (r: Result<bool, QueryError>)
        requires
            !old(self).spent() ==> old(fli)@.at(old(self).place()) && old(fli)@.marks.len() > 0,
        ensures
            final(self).place() == old(self).place(),
            old(self).spent() ==> r == Ok::<bool, QueryError>(false) && final(self).spent()
                && final(fli)@ == old(fli)@,
            !old(self).spent() ==> r == step_result(step@) && final(self).spent() == step_spends(
                step@,
            ) && final(fli)@ == step_state(old(fli)@, step@),
    {
        if self.exhausted {
            return Ok(false);
        }
        fli.rewind_mark(false);
        match step.status {
            Status::True => {
                bind_all(fli, step.bindings);
                fli.new_vars(step.vars);
                Ok(true)
            },
            Status::Last => {
                bind_all(fli, step.bindings);
                fli.new_vars(step.vars);
                self.exhausted = true;
                Ok(true)
            },
            Status::False => {
                self.exhausted = true;
                Ok(false)
            },
            Status::Exception { code, exception } => {
                self.exhausted = true;
                match exception {
                    Some(e) => Err(QueryError::Exception(e)),
                    None => Err(QueryError::Unknown(code)),
                }
            },
            Status::Other(code) => Err(QueryError::Unknown(code)),
        }
    }

    /// Ends the query, keeping the bindings of the current solution.
    pub fn cut(self, fli: &mut Fli) -> (r: Result<(), QueryError>)
        requires
            old(fli)@.at(self.place()),
            old(fli)@.marks.len() > 0,
        ensures
            final(fli)@ == old(fli)@.closed(true).answered(),
            r == end_result(old(fli)@.verdict),
    {
        close_scope(fli, self.at.gen, self.at.depth - 1, true);
        finish(fli)
    }

    /// Ends the query, discarding the bindings made since it was opened.
    pub fn close(self, fli: &mut Fli) -> (r: Result<(), QueryError>)
        requires
            old(fli)@.at(self.place()),
            old(fli)@.marks.len() > 0,
        ensures
            final(fli)@ == old(fli)@.closed(false).answered(),
            r == end_result(old(fli)@.verdict),
    {
        close_scope(fli, self.at.gen, self.at.depth - 1, false);
        finish(fli)
    }

    /// Ends the query if it is the innermost open scope, discarding its
    /// bindings and whatever ending it raised. Otherwise leaves everything as
    /// it is and returns `false`: the query was left out of order.
    pub fn abandon(self, fli: &mut Fli) -> (r: bool)
        ensures
            r == (old(fli)@.at(self.place()) && old(fli)@.marks.len() > 0),
            r ==> final(fli)@ == old(fli)@.closed(false).answered(),
            !r ==> final(fli)@ == old(fli)@,
    {
        if self.at.depth == 0 {
            return false;
        }
        if try_close_scope(fli, self.at.gen, self.at.depth - 1) {
            let _ = fli.take_verdict();
            true
        } else {
            false
        }
    }

    /// Asks the engine to open a query, and opens it.
    pub(crate) fn ask_open<C: FliContext, S: Solver>(
        ctx: &'c C,
        fli: &mut Fli,
        solver: &mut S,
        predicate: &Predicate,
        args: &TermList<'_>,
        options: QueryOptions,
    ) -> (r: Result<Query<'c>, QueryError>)
        requires
            args.count() == predicate.spec_arity() ==> args.gen() == old(fli)@.gen && old(fli)@.at(
                ctx.place(),
            ),
        ensures
            if args.count() != predicate.spec_arity() {
                r == Err::<Query<'c>, QueryError>(
                    QueryError::ArityMismatch {
                        expected: predicate.spec_arity(),
                        actual: args.count() as usize,
                    },
                ) && final(fli)@ == old(fli)@ && final(solver).told() == old(solver).told()
            } else {
                &&& final(solver).told() == old(solver).told().push(final(fli)@.log.last())
                &&& match r {
                    Ok(query) => nested(ctx.place(), query.place()) && !query.spent() && final(fli)@ == opened_for(old(fli)@, goal_of(*predicate, *args, options)),
                    Err(e) => not_opened(old(fli)@, goal_of(*predicate, *args, options), final(fli)@) && e == open_error(
                        final(fli)@.log.last()->Opened_1,
                    ),
                }
            },
    {
        if args.len() != predicate.arity() {
            return Err(
                QueryError::ArityMismatch { expected: predicate.arity(), actual: args.len() },
            );
        }
        let verdict: Verdict = solver.open(fli, predicate, args, options.into_raw());
        fli.note(Ghost(Event::Opened(goal_of(*predicate, *args, options), verdict)));
        fli.answer(verdict);
        Query::open(ctx, fli, predicate, args)
    }

    /// Asks the engine for a step, and takes it.
    pub(crate) fn ask_next<S: Solver>(&mut self, fli: &mut Fli, solver: &mut S) -> (r: Result<
        bool,
        QueryError,
    >)
        requires
            !old(self).spent() ==> old(fli)@.at(old(self).place()) && old(fli)@.marks.len() > 0,
        ensures
            final(self).place() == old(self).place(),
            old(self).spent() ==> r == Ok::<bool, QueryError>(false) && final(self).spent()
                && final(fli)@ == old(fli)@ && final(solver).told() == old(solver).told(),
            !old(self).spent() ==> {
                &&& final(solver).told() == old(solver).told().push(final(fli)@.log.last())
                &&& final(fli)@.log.len() == old(fli)@.log.len() + 1
                &&& final(fli)@.log.last() is Advanced
                &&& r == step_result(final(fli)@.log.last()->Advanced_0)
                &&& final(self).spent() == step_spends(final(fli)@.log.last()->Advanced_0)
                &&& final(fli)@ == step_state(
                    old(fli)@,
                    final(fli)@.log.last()->Advanced_0,
                ).logged(final(fli)@.log.last())
            },
    {
        if self.exhausted {
            return Ok(false);
        }
        fli.rewind_mark(false);
        proof {
            old(fli)@.rewound_twice(false);
        }
        let step: Step = solver.next(fli);
        let ghost view = step@;
        let r: Result<bool, QueryError> = self.next_solution(fli, step);
        fli.note(Ghost(Event::Advanced(view)));
        r
    }

    /// Asks the engine to end the query, and ends it.
    pub(crate) fn ask_end<S: Solver>(self, fli: &mut Fli, solver: &mut S, keep: bool) -> (r: Result<
        (),
        QueryError,
    >)
        requires
            old(fli)@.at(self.place()),
            old(fli)@.marks.len() > 0,
        ensures
            ends(old(fli)@, final(fli)@, keep),
            final(solver).told() == old(solver).told().push(final(fli)@.log.last()),
            r == end_result(end_verdict(final(fli)@)),
    {
        let verdict: Verdict = if keep {
            solver.cut(fli)
        } else {
            solver.close(fli)
        };
        fli.note(Ghost(Event::Ended(keep, verdict)));
        fli.answer(verdict);
        if keep {
            self.cut(fli)
        } else {
            self.close(fli)
        }
    }

    /// Runs `body` against the first solution of a newly opened query.
    ///
    /// A solution's bindings are kept. No solution closes the query and
    /// returns `Ok(None)`.
    pub fn once<C: FliContext, S: Solver, R, F: for<'a> FnOnce(&mut Fli, &'a Query<'c>) -> R>(
        ctx: &'c C,
        fli: &mut Fli,
        solver: &mut S,
        predicate: &Predicate,
        args: &TermList<'_>,
        options: QueryOptions,
        body: F,
    ) -> (r: Result<Option<R>, QueryError>)
        requires
            args.count() == predicate.spec_arity() ==> args.gen() == old(fli)@.gen && old(fli)@.at(
                ctx.place(),
            ),
            forall|f: &mut Fli, q: &Query<'c>, step: StepView|
                (*f)@ == #[trigger] first_step(old(fli)@, goal_of(*predicate, *args, options), step) && nested(ctx.place(), q.place())
                    && step_result(step) == Ok::<bool, QueryError>(true) ==> #[trigger]
                call_requires(body, (f, q)),
            forall|f: &mut Fli, q: &Query<'c>, step: StepView, v: R|
                (*f)@ == #[trigger] first_step(old(fli)@, goal_of(*predicate, *args, options), step) && nested(ctx.place(), q.place())
                    && #[trigger] call_ensures(body, (f, q), v) ==> (*f)@.leads_to((*final(f))@),
        ensures
            args.count() != predicate.spec_arity() ==> r == Err::<Option<R>, QueryError>(
                QueryError::ArityMismatch {
                    expected: predicate.spec_arity(),
                    actual: args.count() as usize,
                },
            ) && final(fli)@ == old(fli)@ && final(solver).told() == old(solver).told(),
            args.count() == predicate.spec_arity() ==> asked_once(
                old(solver).told(),
                final(solver).told(),
                old(fli)@,
                goal_of(*predicate, *args, options),
                final(fli)@,
            ),
            args.count() == predicate.spec_arity() ==> not_opened(old(fli)@, goal_of(*predicate, *args, options), final(fli)@)
                || started(old(fli)@, goal_of(*predicate, *args, options), final(fli)@),
            args.count() == predicate.spec_arity() && not_opened(old(fli)@, goal_of(*predicate, *args, options), final(fli)@) ==> r
                == Err::<Option<R>, QueryError>(open_error(final(fli)@.log.last()->Opened_1)),
            args.count() == predicate.spec_arity() && started(old(fli)@, goal_of(*predicate, *args, options), final(fli)@) ==> match step_result(
                opening_step(old(fli)@, final(fli)@),
            ) {
                Ok(true) => exists|f: &mut Fli, q: &Query<'c>, v: R|
                    {
                        &&& (*f)@ == first_step(old(fli)@, goal_of(*predicate, *args, options), opening_step(old(fli)@, final(fli)@))
                        &&& nested(ctx.place(), q.place())
                        &&& #[trigger] call_ensures(body, (f, q), v)
                        &&& ends((*final(f))@, final(fli)@, true)
                        &&& match end_result(end_verdict(final(fli)@)) {
                            Ok(_) => r == Ok::<Option<R>, QueryError>(Some(v)),
                            Err(e) => r == Err::<Option<R>, QueryError>(e),
                        }
                    },
                Ok(false) => {
                    &&& ends(
                        first_step(old(fli)@, goal_of(*predicate, *args, options), opening_step(old(fli)@, final(fli)@)),
                        final(fli)@,
                        false,
                    )
                    &&& match end_result(end_verdict(final(fli)@)) {
                        Ok(_) => r == Ok::<Option<R>, QueryError>(None),
                        Err(e) => r == Err::<Option<R>, QueryError>(e),
                    }
                },
                Err(operation) => {
                    &&& ends(
                        first_step(old(fli)@, goal_of(*predicate, *args, options), opening_step(old(fli)@, final(fli)@)),
                        final(fli)@,
                        false,
                    )
                    &&& r == Err::<Option<R>, QueryError>(
                        cleaned(operation, end_verdict(final(fli)@)),
                    )
                },
            },
    {
        let mut query: Query<'c> = match Query::ask_open(
            ctx,
            fli,
            solver,
            predicate,
            args,
            options,
        ) {
            Err(error) => {
                return Err(error);
            },
            Ok(query) => query,
        };
        match query.ask_next(fli, solver) {
            Ok(true) => {
                let ghost here = fli@;
                let ghost step = fli@.log.last()->Advanced_0;
                assert(here == first_step(old(fli)@, goal_of(*predicate, *args, options), step));
                let result: R = body(fli, &query);
                proof {
                    here.notes_kept(fli@);
                }
                match query.ask_end(fli, solver, true) {
                    Ok(()) => Ok(Some(result)),
                    Err(error) => Err(error),
                }
            },
            Ok(false) => {
                match query.ask_end(fli, solver, false) {
                    Ok(()) => Ok(None),
                    Err(error) => Err(error),
                }
            },
            Err(operation) => Err(cleanup_after_operation(query, fli, solver, operation)),
        }
    }

    /// Fallible counterpart to [`Query::once`]: `Ok` keeps the first
    /// solution, `Err` closes the query and rolls its bindings back.
    pub fn try_once<
        C: FliContext,
        S: Solver,
        R,
        E,
        F: for<'a> FnOnce(&mut Fli, &'a Query<'c>) -> Result<R, E>,
    >(
        ctx: &'c C,
        fli: &mut Fli,
        solver: &mut S,
        predicate: &Predicate,
        args: &TermList<'_>,
        options: QueryOptions,
        body: F,
    ) -> (r: Result<Option<R>, ScopedCallError<QueryError, E>>)
        requires
            args.count() == predicate.spec_arity() ==> args.gen() == old(fli)@.gen && old(fli)@.at(
                ctx.place(),
            ),
            forall|f: &mut Fli, q: &Query<'c>, step: StepView|
                (*f)@ == #[trigger] first_step(old(fli)@, goal_of(*predicate, *args, options), step) && nested(ctx.place(), q.place())
                    && step_result(step) == Ok::<bool, QueryError>(true) ==> #[trigger]
                call_requires(body, (f, q)),
            forall|f: &mut Fli, q: &Query<'c>, step: StepView, v: Result<R, E>|
                (*f)@ == #[trigger] first_step(old(fli)@, goal_of(*predicate, *args, options), step) && nested(ctx.place(), q.place())
                    && #[trigger] call_ensures(body, (f, q), v) ==> (*f)@.leads_to((*final(f))@),
        ensures
            args.count() != predicate.spec_arity() ==> r == Err::<
                Option<R>,
                ScopedCallError<QueryError, E>,
            >(
                ScopedCallError::Operation(
                    QueryError::ArityMismatch {
                        expected: predicate.spec_arity(),
                        actual: args.count() as usize,
                    },
                ),
            ) && final(fli)@ == old(fli)@ && final(solver).told() == old(solver).told(),
            args.count() == predicate.spec_arity() ==> asked_once(
                old(solver).told(),
                final(solver).told(),
                old(fli)@,
                goal_of(*predicate, *args, options),
                final(fli)@,
            ),
            args.count() == predicate.spec_arity() ==> not_opened(old(fli)@, goal_of(*predicate, *args, options), final(fli)@)
                || started(old(fli)@, goal_of(*predicate, *args, options), final(fli)@),
            args.count() == predicate.spec_arity() && not_opened(old(fli)@, goal_of(*predicate, *args, options), final(fli)@) ==> r
                == Err::<Option<R>, ScopedCallError<QueryError, E>>(
                ScopedCallError::Operation(open_error(final(fli)@.log.last()->Opened_1)),
            ),
            args.count() == predicate.spec_arity() && started(old(fli)@, goal_of(*predicate, *args, options), final(fli)@) ==> match step_result(
                opening_step(old(fli)@, final(fli)@),
            ) {
                Ok(true) => exists|f: &mut Fli, q: &Query<'c>, v: Result<R, E>|
                    {
                        &&& (*f)@ == first_step(old(fli)@, goal_of(*predicate, *args, options), opening_step(old(fli)@, final(fli)@))
                        &&& nested(ctx.place(), q.place())
                        &&& #[trigger] call_ensures(body, (f, q), v)
                        &&& match v {
                            Ok(x) => {
                                &&& ends((*final(f))@, final(fli)@, true)
                                &&& match end_result(end_verdict(final(fli)@)) {
                                    Ok(_) => r == Ok::<Option<R>, ScopedCallError<QueryError, E>>(
                                        Some(x),
                                    ),
                                    Err(e) => r == Err::<Option<R>, ScopedCallError<QueryError, E>>(
                                        ScopedCallError::Operation(e),
                                    ),
                                }
                            },
                            Err(body_error) => {
                                &&& ends((*final(f))@, final(fli)@, false)
                                &&& r == Err::<Option<R>, ScopedCallError<QueryError, E>>(
                                    body_cleaned(body_error, end_verdict(final(fli)@)),
                                )
                            },
                        }
                    },
                Ok(false) => {
                    &&& ends(
                        first_step(old(fli)@, goal_of(*predicate, *args, options), opening_step(old(fli)@, final(fli)@)),
                        final(fli)@,
                        false,
                    )
                    &&& match end_result(end_verdict(final(fli)@)) {
                        Ok(_) => r == Ok::<Option<R>, ScopedCallError<QueryError, E>>(None),
                        Err(e) => r == Err::<Option<R>, ScopedCallError<QueryError, E>>(
                            ScopedCallError::Operation(e),
                        ),
                    }
                },
                Err(operation) => {
                    &&& ends(
                        first_step(old(fli)@, goal_of(*predicate, *args, options), opening_step(old(fli)@, final(fli)@)),
                        final(fli)@,
                        false,
                    )
                    &&& r == Err::<Option<R>, ScopedCallError<QueryError, E>>(
                        ScopedCallError::Operation(cleaned(operation, end_verdict(final(fli)@))),
                    )
                },
            },
    {
        let mut query: Query<'c> = match Query::ask_open(
            ctx,
            fli,
            solver,
            predicate,
            args,
            options,
        ) {
            Err(error) => {
                return Err(ScopedCallError::Operation(error));
            },
            Ok(query) => query,
        };
        match query.ask_next(fli, solver) {
            Ok(true) => {
                let ghost here = fli@;
                let ghost step = fli@.log.last()->Advanced_0;
                assert(here == first_step(old(fli)@, goal_of(*predicate, *args, options), step));
                let result: Result<R, E> = body(fli, &query);
                proof {
                    here.notes_kept(fli@);
                }
                match result {
                    Ok(value) => {
                        match query.ask_end(fli, solver, true) {
                            Ok(()) => Ok(Some(value)),
                            Err(error) => Err(ScopedCallError::Operation(error)),
                        }
                    },
                    Err(error) => Err(close_after_body(query, fli, solver, error)),
                }
            },
            Ok(false) => {
                match query.ask_end(fli, solver, false) {
                    Ok(()) => Ok(None),
                    Err(error) => Err(ScopedCallError::Operation(error)),
                }
            },
            Err(operation) => Err(
                ScopedCallError::Operation(cleanup_after_operation(query, fli, solver, operation)),
            ),
        }
    }

    /// Opens a query whose solutions are taken one by one with
    /// [`Solutions::next`].
    pub fn solutions<C: FliContext, S: Solver>(
        ctx: &'c C,
        fli: &mut Fli,
        solver: &mut S,
        predicate: &Predicate,
        args: &TermList<'_>,
        options: QueryOptions,
    ) -> (r: Result<Solutions<'c>, QueryError>)
        requires
            args.count() == predicate.spec_arity() ==> args.gen() == old(fli)@.gen && old(fli)@.at(
                ctx.place(),
            ),
        ensures
            if args.count() != predicate.spec_arity() {
                r == Err::<Solutions<'c>, QueryError>(
                    QueryError::ArityMismatch {
                        expected: predicate.spec_arity(),
                        actual: args.count() as usize,
                    },
                ) && final(fli)@ == old(fli)@ && final(solver).told() == old(solver).told()
            } else {
                &&& final(solver).told() == old(solver).told().push(final(fli)@.log.last())
                &&& match r {
                    Ok(solutions) => solutions.query() matches Some(query) && nested(
                        ctx.place(),
                        query.place(),
                    ) && !query.spent() && final(fli)@ == opened_for(old(fli)@, goal_of(*predicate, *args, options)),
                    Err(e) => not_opened(old(fli)@, goal_of(*predicate, *args, options), final(fli)@) && e == open_error(
                        final(fli)@.log.last()->Opened_1,
                    ),
                }
            },
    {
        match Query::ask_open(ctx, fli, solver, predicate, args, options) {
            Ok(query) => Ok(Solutions { inner: SolutionIter { query: Some(query) } }),
            Err(error) => Err(error),
        }
    }

    /// Fallible counterpart to [`Query::solutions`].
    pub fn try_solutions<C: FliContext, S: Solver>(
        ctx: &'c C,
        fli: &mut Fli,
        solver: &mut S,
        predicate: &Predicate,
        args: &TermList<'_>,
        options: QueryOptions,
    ) -> (r: Result<TrySolutions<'c>, QueryError>)
        requires
            args.count() == predicate.spec_arity() ==> args.gen() == old(fli)@.gen && old(fli)@.at(
                ctx.place(),
            ),
        ensures
            if args.count() != predicate.spec_arity() {
                r == Err::<TrySolutions<'c>, QueryError>(
                    QueryError::ArityMismatch {
                        expected: predicate.spec_arity(),
                        actual: args.count() as usize,
                    },
                ) && final(fli)@ == old(fli)@ && final(solver).told() == old(solver).told()
            } else {
                &&& final(solver).told() == old(solver).told().push(final(fli)@.log.last())
                &&& match r {
                    Ok(solutions) => solutions.query() matches Some(query) && nested(
                        ctx.place(),
                        query.place(),
                    ) && !query.spent() && final(fli)@ == opened_for(old(fli)@, goal_of(*predicate, *args, options)),
                    Err(e) => not_opened(old(fli)@, goal_of(*predicate, *args, options), final(fli)@) && e == open_error(
                        final(fli)@.log.last()->Opened_1,
                    ),
                }
            },
    {
        match Query::ask_open(ctx, fli, solver, predicate, args, options) {
            Ok(query) => Ok(TrySolutions { inner: SolutionIter { query: Some(query) } }),
            Err(error) => Err(error),
        }
    }
}

/// The state after one more step of an open query, which was noted.
pub open spec fn next_step(before: State, step: StepView) -> State {
    step_state(before, step).logged(Event::Advanced(step))
}

/// The step that the engine took after `before`.
pub open spec fn step_after(before: State, after: State) -> StepView {
    after.log[before.log.len() as int]->Advanced_0
}

/// Whether the engine took a step after `before` that found a solution.
pub open spec fn found(before: State, after: State) -> bool {
    &&& after.log.len() > before.log.len()
    &&& after.log[before.log.len() as int] is Advanced
    &&& step_result(step_after(before, after)) == Ok::<bool, QueryError>(true)
}

/// Whether exactly this was asked of the engine, in this order, by a call that
/// moves to the next solution: a step, unless none can follow, and then the
/// end of the query, unless it stays open.
pub open spec fn asked_next(
    told_before: Seq<Event>,
    told_after: Seq<Event>,
    before: State,
    after: State,
    spent: bool,
    open: bool,
) -> bool {
    let stepped = if spent {
        told_before
    } else {
        told_before.push(Event::Advanced(step_after(before, after)))
    };
    told_after == if open {
        stepped
    } else {
        stepped.push(after.log.last())
    }
}

/// The outcome of asking an open query for a solution when there was none:
/// the query was closed.
pub open spec fn no_solution(
    before: State,
    after: State,
    spent: bool,
    error: Option<QueryError>,
) -> bool {
    if spent {
        &&& ends(before, after, false)
        &&& error == match end_result(end_verdict(after)) {
            Ok(_) => None,
            Err(e) => Some(e),
        }
    } else {
        &&& after.log.len() == before.log.len() + 2
        &&& after.log[before.log.len() as int] is Advanced
        &&& ends(next_step(before, step_after(before, after)), after, false)
        &&& match step_result(step_after(before, after)) {
            Ok(more) => !more && error == match end_result(end_verdict(after)) {
                Ok(_) => None,
                Err(e) => Some(e),
            },
            Err(operation) => error == Some(cleaned(operation, end_verdict(after))),
        }
    }
}

/// Whether the bindings from before the innermost scope was opened are there.
pub open spec fn base_kept(s: State) -> bool {
    s.marks.len() > 0 && s.marks.last().trail <= s.trail.len()
}

/// Whether `after` is what is left of `within` once its innermost scope was
/// ended and all bindings made in it were undone.
pub open spec fn undone(within: State, after: State) -> bool {
    &&& after.gen == within.gen
    &&& after.marks == within.marks.drop_last()
    &&& after.trail == within.trail.take(within.marks.last().trail as int)
}

/// Ending a query undoes the bindings of its solution.
proof fn plain_end_undoes(before: State, after: State)
    requires
        base_kept(before),
        ends(before, after, false),
    ensures
        undone(before, after),
{
}

/// Ending a query undoes the bindings of its solution and of what was done with
/// it.
pub(crate) proof fn end_undoes(before: State, step: StepView, inner: State, after: State)
    requires
        base_kept(before),
        next_step(before, step).leads_to(inner),
        ends(inner, after, false),
    ensures
        undone(before, after),
{
    let base = before.marks.last().trail as int;
    let rewound = before.rewound(false);
    let stepped = next_step(before, step);
    assert(rewound.trail =~= before.trail.take(base));
    bound_prefix(rewound.trail, step.bindings);
    assert(rewound.trail.is_prefix_of(stepped.trail));
    assert(stepped.trail.subrange(0, base) =~= before.trail.take(base));
    assert(inner.trail.subrange(0, stepped.trail.len() as int) =~= stepped.trail);
    assert(inner.trail.take(base) =~= before.trail.take(base));
}

/// The outcome of asking for a solution once the query was closed: nothing is
/// asked of the engine, no callback runs and nothing changes.
pub open spec fn next_when_closed(
    before: State,
    after: State,
    told_before: Seq<Event>,
    told_after: Seq<Event>,
    open: bool,
    yields: bool,
) -> bool {
    !open && !yields && after == before && told_after == told_before
}

/// One of several calls for a solution: what the query was before and after it
/// (open or not), the states, what the engine was told, and whether the call
/// yielded anything.
pub struct NextCall {
    pub was_open: bool,
    pub open: bool,
    pub before: State,
    pub after: State,
    pub told_before: Seq<Event>,
    pub told_after: Seq<Event>,
    pub yields: bool,
}

/// Once a call for a solution left the query closed (it found none, or it or
/// its callback failed), every later call yields nothing, asks nothing of the
/// engine, runs no callback and changes nothing.
pub proof fn closed_iteration_stays_closed(calls: Seq<NextCall>)
    requires
        calls.len() > 0 ==> !calls[0].was_open,
        forall|i: int|
            0 <= i < calls.len() && !(#[trigger] calls[i]).was_open ==> next_when_closed(
                calls[i].before,
                calls[i].after,
                calls[i].told_before,
                calls[i].told_after,
                calls[i].open,
                calls[i].yields,
            ),
        forall|i: int|
            0 < i < calls.len() ==> (#[trigger] calls[i]).was_open == calls[i - 1].open
                && calls[i].before == calls[i - 1].after && calls[i].told_before == calls[i
                - 1].told_after,
    ensures
        forall|i: int|
            0 <= i < calls.len() ==> !(#[trigger] calls[i]).open && !calls[i].yields
                && calls[i].after == calls[0].before && calls[i].told_after
                == calls[0].told_before,
    decreases calls.len(),
{
    if calls.len() > 0 {
        let front = calls.drop_last();
        assert forall|i: int| 0 <= i < front.len() && !(#[trigger] front[i]).was_open implies
            next_when_closed(
            front[i].before,
            front[i].after,
            front[i].told_before,
            front[i].told_after,
            front[i].open,
            front[i].yields,
        ) by {
            assert(!calls[i].was_open);
        }
        assert forall|i: int| 0 < i < front.len() implies (#[trigger] front[i]).was_open == front[i
            - 1].open && front[i].before == front[i - 1].after && front[i].told_before == front[i
            - 1].told_after by {
            assert(calls[i].was_open == calls[i - 1].open);
        }
        closed_iteration_stays_closed(front);
        assert forall|i: int| 0 <= i < calls.len() implies !(#[trigger] calls[i]).open
            && !calls[i].yields && calls[i].after == calls[0].before && calls[i].told_after
            == calls[0].told_before by {
            if i < front.len() {
                assert(!front[i].open);
            } else if i > 0 {
                assert(!front[i - 1].open);
                assert(!calls[i].was_open);
            } else {
                assert(!calls[0].was_open);
            }
        }
    }
}

pub(crate) struct SolutionIter<'c> {
    pub(crate) query: Option<Query<'c>>,
}

impl<'c> SolutionIter<'c> {
    pub(crate) fn cut<S: Solver>(self, fli: &mut Fli, solver: &mut S) -> (r: Result<(), QueryError>)
        requires
            self.query matches Some(q) ==> old(fli)@.at(q.place()) && old(fli)@.marks.len() > 0,
        ensures
            match self.query {
                Some(q) => {
                    &&& ends(old(fli)@, final(fli)@, true)
                    &&& final(solver).told() == old(solver).told().push(final(fli)@.log.last())
                    &&& r == end_result(end_verdict(final(fli)@))
                },
                None => r is Ok && final(fli)@ == old(fli)@ && final(solver).told()
                    == old(solver).told(),
            },
    {
        match self.query {
            Some(query) => query.ask_end(fli, solver, true),
            None => Ok(()),
        }
    }

    pub(crate) fn close<S: Solver>(self, fli: &mut Fli, solver: &mut S) -> (r: Result<(), QueryError>)
        requires
            self.query matches Some(q) ==> old(fli)@.at(q.place()) && old(fli)@.marks.len() > 0,
        ensures
            match self.query {
                Some(q) => {
                    &&& ends(old(fli)@, final(fli)@, false)
                    &&& final(solver).told() == old(solver).told().push(final(fli)@.log.last())
                    &&& r == end_result(end_verdict(final(fli)@))
                },
                None => r is Ok && final(fli)@ == old(fli)@ && final(solver).told()
                    == old(solver).told(),
            },
    {
        match self.query {
            Some(query) => query.ask_end(fli, solver, false),
            None => Ok(()),
        }
    }

    /// Moves to the next solution. Where there is none, the query is closed.
    pub(crate) fn advance<S: Solver>(&mut self, fli: &mut Fli, solver: &mut S) -> (r: Option<
        Result<(), QueryError>,
    >)
        requires
            old(self).query matches Some(q) ==> old(fli)@.at(q.place()) && old(fli)@.marks.len()
                > 0,
        ensures
            old(self).query is Some && final(self).query is None && base_kept(old(fli)@)
                ==> undone(old(fli)@, final(fli)@),
            old(self).query matches Some(q) ==> asked_next(
                old(solver).told(),
                final(solver).told(),
                old(fli)@,
                final(fli)@,
                q.spent(),
                final(self).query is Some,
            ),
            match old(self).query {
                None => next_when_closed(
                    old(fli)@,
                    final(fli)@,
                    old(solver).told(),
                    final(solver).told(),
                    final(self).query is Some,
                    r is Some,
                ),
                Some(q) => match r {
                    Some(Ok(_)) => {
                        &&& !q.spent()
                        &&& found(old(fli)@, final(fli)@)
                        &&& final(fli)@ == next_step(
                            old(fli)@,
                            step_after(old(fli)@, final(fli)@),
                        )
                        &&& final(self).query matches Some(now) && now.place() == q.place()
                            && now.spent() == step_spends(step_after(old(fli)@, final(fli)@))
                    },
                    Some(Err(e)) => final(self).query is None && no_solution(
                        old(fli)@,
                        final(fli)@,
                        q.spent(),
                        Some(e),
                    ),
                    None => final(self).query is None && no_solution(
                        old(fli)@,
                        final(fli)@,
                        q.spent(),
                        None,
                    ),
                },
            },
    {
        let mut query: Query<'c> = match self.query.take() {
            None => {
                return None;
            },
            Some(query) => query,
        };
        let ghost spent = query.spent();
        let next: Result<bool, QueryError> = query.ask_next(fli, solver);
        let ghost here = fli@;
        match next {
            Ok(true) => {
                self.query = Some(query);
                Some(Ok(()))
            },
            Ok(false) => {
                let ended: Result<(), QueryError> = query.ask_end(fli, solver, false);
                proof {
                    if base_kept(old(fli)@) {
                        if spent {
                            plain_end_undoes(old(fli)@, fli@);
                        } else {
                            assert(here.trail.is_prefix_of(here.trail));
                            assert(here.log.is_prefix_of(here.log));
                            end_undoes(old(fli)@, here.log.last()->Advanced_0, here, fli@);
                        }
                    }
                }
                match ended {
                    Ok(()) => None,
                    Err(error) => Some(Err(error)),
                }
            },
            Err(operation) => {
                let error: QueryError = cleanup_after_operation(query, fli, solver, operation);
                proof {
                    if base_kept(old(fli)@) {
                        assert(here.trail.is_prefix_of(here.trail));
                        assert(here.log.is_prefix_of(here.log));
                        end_undoes(old(fli)@, here.log.last()->Advanced_0, here, fli@);
                    }
                }
                Some(Err(error))
            },
        }
    }
}

/// The solutions of a query, one by one.
///
/// The query stays open between solutions. Moving on backtracks from the
/// previous solution before finding another one. Exhaustion closes the query
/// and discards bindings; [`Solutions::cut`] is the explicit early-success
/// path that keeps the current solution.
pub struct Solutions<'c> {
    inner: SolutionIter<'c>,
}

impl<'c> Solutions<'c> {
    /// The query, while it is open.
    pub closed spec fn query(&self) -> Option<Query<'c>> {
        self.inner.query
    }

    /// Ends iteration, keeping the current solution's bindings.
    ///
    /// Calling this before a solution was yielded simply ends the query. If
    /// iteration has already finished, it is a no-op.
    pub fn cut<S: Solver>(self, fli: &mut Fli, solver: &mut S) -> (r: Result<(), QueryError>)
        requires
            self.query() matches Some(q) ==> old(fli)@.at(q.place()) && old(fli)@.marks.len() > 0,
        ensures
            match self.query() {
                Some(q) => {
                    &&& ends(old(fli)@, final(fli)@, true)
                    &&& final(solver).told() == old(solver).told().push(final(fli)@.log.last())
                    &&& r == end_result(end_verdict(final(fli)@))
                },
                None => r is Ok && final(fli)@ == old(fli)@ && final(solver).told()
                    == old(solver).told(),
            },
    {
        self.inner.cut(fli, solver)
    }

    /// Ends iteration early and discards the query's bindings.
    pub fn close<S: Solver>(self, fli: &mut Fli, solver: &mut S) -> (r: Result<(), QueryError>)
        requires
            self.query() matches Some(q) ==> old(fli)@.at(q.place()) && old(fli)@.marks.len() > 0,
        ensures
            match self.query() {
                Some(q) => {
                    &&& ends(old(fli)@, final(fli)@, false)
                    &&& final(solver).told() == old(solver).told().push(final(fli)@.log.last())
                    &&& r == end_result(end_verdict(final(fli)@))
                },
                None => r is Ok && final(fli)@ == old(fli)@ && final(solver).told()
                    == old(solver).told(),
            },
    {
        self.inner.close(fli, solver)
    }

    /// Moves to the next solution and maps it to a value. `None` means that
    /// there are no more solutions.
    pub fn next<S: Solver, R, F: for<'a> FnOnce(&mut Fli, &'a Query<'c>) -> R>(
        &mut self,
        fli: &mut Fli,
        solver: &mut S,
        mapper: F,
    ) -> (r: Option<Result<R, QueryError>>)
        requires
            old(self).query() matches Some(q) ==> old(fli)@.at(q.place()) && old(fli)@.marks.len()
                > 0,
            forall|f: &mut Fli, q: &Query<'c>, step: StepView|
                (*f)@ == #[trigger] next_step(old(fli)@, step) && old(self).query() is Some
                    && q.place() == (old(self).query()->0).place() && step_result(step) == Ok::<
                    bool,
                    QueryError,
                >(true)
                    ==> #[trigger] call_requires(mapper, (f, q)),
            forall|f: &mut Fli, q: &Query<'c>, step: StepView, v: R|
                (*f)@ == #[trigger] next_step(old(fli)@, step) && #[trigger] call_ensures(
                    mapper,
                    (f, q),
                    v,
                ) ==> (*f)@.leads_to((*final(f))@),
        ensures
            old(self).query() is Some && final(self).query() is None && base_kept(old(fli)@)
                ==> undone(old(fli)@, final(fli)@),
            old(self).query() matches Some(q) ==> asked_next(
                old(solver).told(),
                final(solver).told(),
                old(fli)@,
                final(fli)@,
                q.spent(),
                final(self).query() is Some,
            ),
            match old(self).query() {
                None => next_when_closed(
                    old(fli)@,
                    final(fli)@,
                    old(solver).told(),
                    final(solver).told(),
                    final(self).query() is Some,
                    r is Some,
                ),
                Some(q) => match r {
                    Some(Ok(_)) => {
                        &&& !q.spent()
                        &&& found(old(fli)@, final(fli)@)
                        &&& final(self).query() matches Some(now) && now.place() == q.place()
                            && now.spent() == step_spends(step_after(old(fli)@, final(fli)@))
                        &&& exists|f: &mut Fli, now: &Query<'c>, v: R|
                            {
                                &&& (*f)@ == next_step(
                                    old(fli)@,
                                    step_after(old(fli)@, final(fli)@),
                                )
                                &&& now.place() == q.place()
                                &&& #[trigger] call_ensures(mapper, (f, now), v)
                                &&& final(fli)@ == (*final(f))@
                                &&& r == Some(Ok::<R, QueryError>(v))
                            }
                    },
                    Some(Err(e)) => final(self).query() is None && no_solution(
                        old(fli)@,
                        final(fli)@,
                        q.spent(),
                        Some(e),
                    ),
                    None => final(self).query() is None && no_solution(
                        old(fli)@,
                        final(fli)@,
                        q.spent(),
                        None,
                    ),
                },
            },
    {
        match self.inner.advance(fli, solver) {
            None => None,
            Some(Err(error)) => Some(Err(error)),
            Some(Ok(())) => {
                match &self.inner.query {
                    None => None,
                    Some(query) => {
                        let ghost here = fli@;
                        assert(here == next_step(old(fli)@, step_after(old(fli)@, here)));
                        let value: R = mapper(fli, query);
                        proof {
                            here.notes_kept(fli@);
                        }
                        Some(Ok(value))
                    },
                }
            },
        }
    }
}

/// The solutions of a query, one by one, mapped by a callback that may fail.
///
/// It has the same query-lifetime behavior as [`Solutions`], while preserving
/// mapper failures in [`ScopedCallError`].
pub struct TrySolutions<'c> {
    inner: SolutionIter<'c>,
}

impl<'c> TrySolutions<'c> {
    /// The query, while it is open.
    pub closed spec fn query(&self) -> Option<Query<'c>> {
        self.inner.query
    }

    /// Ends iteration, keeping the current solution's bindings.
    pub fn cut<S: Solver>(self, fli: &mut Fli, solver: &mut S) -> (r: Result<(), QueryError>)
        requires
            self.query() matches Some(q) ==> old(fli)@.at(q.place()) && old(fli)@.marks.len() > 0,
        ensures
            match self.query() {
                Some(q) => {
                    &&& ends(old(fli)@, final(fli)@, true)
                    &&& final(solver).told() == old(solver).told().push(final(fli)@.log.last())
                    &&& r == end_result(end_verdict(final(fli)@))
                },
                None => r is Ok && final(fli)@ == old(fli)@ && final(solver).told()
                    == old(solver).told(),
            },
    {
        self.inner.cut(fli, solver)
    }

    /// Ends iteration early and discards the query's bindings.
    pub fn close<S: Solver>(self, fli: &mut Fli, solver: &mut S) -> (r: Result<(), QueryError>)
        requires
            self.query() matches Some(q) ==> old(fli)@.at(q.place()) && old(fli)@.marks.len() > 0,
        ensures
            match self.query() {
                Some(q) => {
                    &&& ends(old(fli)@, final(fli)@, false)
                    &&& final(solver).told() == old(solver).told().push(final(fli)@.log.last())
                    &&& r == end_result(end_verdict(final(fli)@))
                },
                None => r is Ok && final(fli)@ == old(fli)@ && final(solver).told()
                    == old(solver).told(),
            },
    {
        self.inner.close(fli, solver)
    }

    /// Moves to the next solution and maps it to a value. A mapper error
    /// closes the query before the error is yielded; if closing fails too,
    /// both errors are preserved.
    pub fn next<S: Solver, R, E, F: for<'a> FnOnce(&mut Fli, &'a Query<'c>) -> Result<R, E>>(
        &mut self,
        fli: &mut Fli,
        solver: &mut S,
        mapper: F,
    ) -> (r: Option<Result<R, ScopedCallError<QueryError, E>>>)
        requires
            old(self).query() matches Some(q) ==> old(fli)@.at(q.place()) && old(fli)@.marks.len()
                > 0,
            forall|f: &mut Fli, q: &Query<'c>, step: StepView|
                (*f)@ == #[trigger] next_step(old(fli)@, step) && old(self).query() is Some
                    && q.place() == (old(self).query()->0).place() && step_result(step) == Ok::<
                    bool,
                    QueryError,
                >(true)
                    ==> #[trigger] call_requires(mapper, (f, q)),
            forall|f: &mut Fli, q: &Query<'c>, step: StepView, v: Result<R, E>|
                (*f)@ == #[trigger] next_step(old(fli)@, step) && #[trigger] call_ensures(
                    mapper,
                    (f, q),
                    v,
                ) ==> (*f)@.leads_to((*final(f))@),
        ensures
            old(self).query() is Some && final(self).query() is None && base_kept(old(fli)@)
                ==> undone(old(fli)@, final(fli)@),
            old(self).query() matches Some(q) ==> asked_next(
                old(solver).told(),
                final(solver).told(),
                old(fli)@,
                final(fli)@,
                q.spent(),
                final(self).query() is Some,
            ),
            match old(self).query() {
                None => next_when_closed(
                    old(fli)@,
                    final(fli)@,
                    old(solver).told(),
                    final(solver).told(),
                    final(self).query() is Some,
                    r is Some,
                ),
                Some(q) => if !q.spent() && found(old(fli)@, final(fli)@) {
                    exists|f: &mut Fli, now: &Query<'c>, v: Result<R, E>|
                        {
                            &&& (*f)@ == next_step(old(fli)@, step_after(old(fli)@, final(fli)@))
                            &&& now.place() == q.place()
                            &&& #[trigger] call_ensures(mapper, (f, now), v)
                            &&& match v {
                                Ok(x) => {
                                    &&& final(self).query() matches Some(open) && open.place()
                                        == q.place() && open.spent() == step_spends(
                                        step_after(old(fli)@, final(fli)@),
                                    )
                                    &&& final(fli)@ == (*final(f))@
                                    &&& r == Some(Ok::<R, ScopedCallError<QueryError, E>>(x))
                                },
                                Err(body) => {
                                    &&& final(self).query() is None
                                    &&& ends((*final(f))@, final(fli)@, false)
                                    &&& r == Some(
                                        Err::<R, ScopedCallError<QueryError, E>>(
                                            body_cleaned(body, end_verdict(final(fli)@)),
                                        ),
                                    )
                                },
                            }
                        }
                } else {
                    &&& final(self).query() is None
                    &&& match r {
                        None => no_solution(old(fli)@, final(fli)@, q.spent(), None),
                        Some(Err(ScopedCallError::Operation(e))) => no_solution(
                            old(fli)@,
                            final(fli)@,
                            q.spent(),
                            Some(e),
                        ),
                        _ => false,
                    }
                },
            },
    {
        match self.inner.advance(fli, solver) {
            None => None,
            Some(Err(error)) => Some(Err(ScopedCallError::Operation(error))),
            Some(Ok(())) => {
                match self.inner.query.take() {
                    None => None,
                    Some(query) => {
                        let ghost here = fli@;
                        assert(here == next_step(old(fli)@, step_after(old(fli)@, here)));
                        let mapped: Result<R, E> = mapper(fli, &query);
                        proof {
                            here.notes_kept(fli@);
                        }
                        match mapped {
                            Ok(value) => {
                                self.inner.query = Some(query);
                                Some(Ok(value))
                            },
                            Err(body) => {
                                let ghost inner = fli@;
                                let error: ScopedCallError<QueryError, E> = close_after_body(
                                    query,
                                    fli,
                                    solver,
                                    body,
                                );
                                proof {
                                    if base_kept(old(fli)@) {
                                        end_undoes(
                                            old(fli)@,
                                            step_after(old(fli)@, here),
                                            inner,
                                            fli@,
                                        );
                                    }
                                }
                                Some(Err(error))
                            },
                        }
                    },
                }
            },
        }
    }
}


/// Interprets the engine's answer to the end of a query: the query was ended
/// in any case, but ending it may have raised a fresh exception.
fn finish(fli: &mut Fli) -> (r: Result<(), QueryError>)
    ensures
        final(fli)@ == old(fli)@.answered(),
        r == end_result(old(fli)@.verdict),
{
    match fli.take_verdict() {
        Verdict::Raise(exception) => Err(QueryError::Exception(exception)),
        _ => Ok(()),
    }
}

/// Closes a query on which an operation failed, and reports both failures if
/// closing fails too.
pub(crate) fn cleanup_after_operation<'c, S: Solver>(
    query: Query<'c>,
    fli: &mut Fli,
    solver: &mut S,
    operation: QueryError,
) -> (r: QueryError)
    requires
        old(fli)@.at(query.place()),
        old(fli)@.marks.len() > 0,
    ensures
        ends(old(fli)@, final(fli)@, false),
        final(solver).told() == old(solver).told().push(final(fli)@.log.last()),
        r == cleaned(operation, end_verdict(final(fli)@)),
{
    match query.ask_end(fli, solver, false) {
        Ok(()) => operation,
        Err(cleanup) => QueryError::OperationAndCleanup {
            operation: Box::new(operation),
            cleanup: Box::new(cleanup),
        },
    }
}

/// Closes a query whose callback failed, and reports both failures if closing
/// fails too.
fn close_after_body<'c, S: Solver, E>(
    query: Query<'c>,
    fli: &mut Fli,
    solver: &mut S,
    body: E,
) -> (r: ScopedCallError<QueryError, E>)
    requires
        old(fli)@.at(query.place()),
        old(fli)@.marks.len() > 0,
    ensures
        ends(old(fli)@, final(fli)@, false),
        final(solver).told() == old(solver).told().push(final(fli)@.log.last()),
        r == body_cleaned(body, end_verdict(final(fli)@)),
{
    match query.ask_end(fli, solver, false) {
        Ok(()) => ScopedCallError::Body(body),
        Err(cleanup) => ScopedCallError::BodyAndCleanup { body, cleanup },
    }
}

} // verus!
