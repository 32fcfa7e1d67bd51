//! Queries with prepared arguments.

use std::marker::PhantomData;

use vstd::prelude::*;

use crate::args::{call_cleaned, decode_args, Args, ArgsSpec, CallError};
use crate::exception::Verdict;
use crate::exchange::{Goal, StepView};
use crate::fli::{Fli, State};
use crate::handles::Predicate;
use crate::query::{
    asked_next, asked_once, base_kept, cleaned, cleanup_after_operation, end_result, end_undoes, end_verdict, ends, first_step, found, goal_of,
    next_step, next_when_closed, no_solution, not_opened, open_error, opened_for, opening_step, started, step_after,
    step_result, step_spends, undone, Query, QueryError, QueryOptions, SolutionIter, Solver,
};
use crate::sealed::Sealed;
use crate::term::{grows, nested, FliContext, TermList};

verus! {

/// Closes a query whose callback failed, and reports both failures if closing
/// fails too.
fn close_after_call<'c, S: Solver>(
    query: Query<'c>,
    fli: &mut Fli,
    solver: &mut S,
    call: CallError,
) -> (r: CallError)
    requires
        old(fli)@.at(query.place()),
        old(fli)@.marks.len() > 0,
    ensures
        ends(old(fli)@, final(fli)@, false),
        final(solver).told() == old(solver).told().push(final(fli)@.log.last()),
        r == call_cleaned(call, end_verdict(final(fli)@)),
{
    match query.ask_end(fli, solver, false) {
        Ok(()) => call,
        Err(cleanup) => CallError::CallAndCleanup { call: Box::new(call), cleanup },
    }
}

/// A query that was opened and took a step still has the references from before
/// it was opened.
proof fn first_step_keeps(before: State, goal: Goal, step: StepView)
    requires
        before.refs.len() <= usize::MAX,
        before.trail.len() <= usize::MAX,
    ensures
        first_step(before, goal, step).refs == before.refs,
        first_step(before, goal, step).gen == before.gen,
        first_step(before, goal, step).marks.len() == before.marks.len() + 1,
        first_step(before, goal, step).verdict is Grant,
{
    assert(before.refs.take(before.refs.len() as int) =~= before.refs);
}

/// What the call of a query with prepared arguments led to where it could not
/// be opened.
pub open spec fn call_not_opened<R>(
    before: State,
    after: State,
    goal: Goal,
    r: Result<R, CallError>,
) -> bool {
    if goal.count != goal.predicate.spec_arity() {
        &&& r == Err::<R, CallError>(
            CallError::Query(
                QueryError::ArityMismatch {
                    expected: goal.predicate.spec_arity(),
                    actual: goal.count as usize,
                },
            ),
        )
        &&& after == before
    } else {
        &&& not_opened(before, goal, after)
        &&& r == Err::<R, CallError>(
            CallError::Query(open_error(after.log.last()->Opened_1)),
        )
    }
}

/// What the call of a query led to where its first step found no solution.
pub open spec fn call_no_solution<R>(
    before: State,
    after: State,
    goal: Goal,
    r: Result<Option<R>, CallError>,
) -> bool {
    let step = opening_step(before, after);
    &&& ends(first_step(before, goal, step), after, false)
    &&& match step_result(step) {
        Ok(_) => match end_result(end_verdict(after)) {
            Ok(_) => r == Ok::<Option<R>, CallError>(None),
            Err(e) => r == Err::<Option<R>, CallError>(CallError::Query(e)),
        },
        Err(operation) => r == Err::<Option<R>, CallError>(
            CallError::Query(cleaned(operation, end_verdict(after))),
        ),
    }
}

/// The result of a call whose solution was kept.
pub open spec fn call_kept<R>(verdict: Verdict, value: R) -> Result<Option<R>, CallError> {
    match end_result(verdict) {
        Ok(_) => Ok(Some(value)),
        Err(e) => Err(CallError::Query(e)),
    }
}

impl<'c> Query<'c> {
    /// Runs a call with prepared arguments once, and reads the arguments of its
    /// first solution.
    ///
    /// A solution's bindings are kept, unless an argument cannot be read: then
    /// the query is closed. No solution closes the query and returns
    /// `Ok(None)`.
    pub fn once_with<Ctx: FliContext, S: Solver, Spec: ArgsSpec>(
        ctx: &'c Ctx,
        fli: &mut Fli,
        solver: &mut S,
        predicate: &Predicate,
        args: Args<'_, Spec>,
        options: QueryOptions,
    ) -> (r: Result<Option<Spec::Values>, CallError>)
        requires
            old(fli)@.at(ctx.place()),
            args.block().live(old(fli)@),
            args.block().count() == Spec::count(),
        ensures
            if args.block().count() != predicate.spec_arity() {
                final(solver).told() == old(solver).told()
            } else {
                asked_once(
                    old(solver).told(),
                    final(solver).told(),
                    old(fli)@,
                    goal_of(*predicate, args.block(), options),
                    final(fli)@,
                )
            },
            !started(old(fli)@, goal_of(*predicate, args.block(), options), final(fli)@) || args.block().count() != predicate.spec_arity()
                ==> call_not_opened(
                old(fli)@,
                final(fli)@,
                goal_of(*predicate, args.block(), options),
                r,
            ),
            args.block().count() == predicate.spec_arity() && started(old(fli)@, goal_of(*predicate, args.block(), options), final(fli)@) ==> {
                let step = opening_step(old(fli)@, final(fli)@);
                let here = first_step(old(fli)@, goal_of(*predicate, args.block(), options), step);
                if step_result(step) != Ok::<bool, QueryError>(true) {
                    call_no_solution(old(fli)@, final(fli)@, goal_of(*predicate, args.block(), options), r)
                } else {
                    match Spec::decode_fault(here.trail, args.block().held(here)) {
                        None => exists|middle: State, v: Spec::Values| #[trigger]
                            grows(here, middle) && ends(middle, final(fli)@, true) && #[trigger]
                            Spec::decodes(here.trail, args.block().held(here), v) && r == call_kept(
                                end_verdict(final(fli)@),
                                v,
                            ),
                        Some(fault) => exists|middle: State, call: CallError| #[trigger]
                            grows(here, middle) && ends(middle, final(fli)@, false) && (call matches CallError::ResultDecoding(
                                e,
                            ) && e@ == fault) && r == Err::<Option<Spec::Values>, CallError>(
                                #[trigger] call_cleaned(call, end_verdict(final(fli)@)),
                            ),
                    }
                }
            },
    {
        fli.attest();
        let terms: TermList<'_> = args.terms();
        let mut query: Query<'c> = match Query::ask_open(
            ctx,
            fli,
            solver,
            predicate,
            &terms,
            options,
        ) {
            Err(error) => {
                return Err(CallError::Query(error));
            },
            Ok(query) => query,
        };
        let step: Result<bool, QueryError> = query.ask_next(fli, solver);
        let ghost here = fli@;
        let ghost taken = fli@.log.last()->Advanced_0;
        proof {
            assert(here == first_step(old(fli)@, goal_of(*predicate, args.block(), options), taken));
            first_step_keeps(old(fli)@, goal_of(*predicate, args.block(), options), taken);
        }
        match step {
            Ok(true) => {
                assert(terms.held(here) =~= terms.held(old(fli)@));
                match decode_args::<Query<'c>, Spec>(&query, fli, &terms) {
                    Ok(values) => {
                        assert(grows(here, fli@));
                        match query.ask_end(fli, solver, true) {
                            Ok(()) => Ok(Some(values)),
                            Err(error) => Err(CallError::Query(error)),
                        }
                    },
                    Err(call) => {
                        assert(grows(here, fli@));
                        Err(close_after_call(query, fli, solver, call))
                    },
                }
            },
            Ok(false) => {
                match query.ask_end(fli, solver, false) {
                    Ok(()) => Ok(None),
                    Err(error) => Err(CallError::Query(error)),
                }
            },
            Err(operation) => Err(
                CallError::Query(cleanup_after_operation(query, fli, solver, operation)),
            ),
        }
    }

    /// Runs a call with prepared arguments once, and hands the arguments of its
    /// first solution to `body`: `Ok` keeps the solution, `Err` closes the
    /// query and rolls its bindings back.
    pub fn try_once_with<
        Ctx: FliContext,
        S: Solver,
        Spec: ArgsSpec,
        R,
        F: for<'a> FnOnce(&mut Fli, &'a Query<'c>, Spec::Values) -> Result<R, CallError>,
    >(
        ctx: &'c Ctx,
        fli: &mut Fli,
        solver: &mut S,
        predicate: &Predicate,
        args: Args<'_, Spec>,
        options: QueryOptions,
        body: F,
    ) -> (r: Result<Option<R>, CallError>)
        requires
            old(fli)@.at(ctx.place()),
            args.block().live(old(fli)@),
            args.block().count() == Spec::count(),
            forall|f: &mut Fli, q: &Query<'c>, v: Spec::Values, step: StepView|
                #![trigger call_requires(body, (f, q, v)), first_step(old(fli)@, goal_of(*predicate, args.block(), options), step)]
                grows(first_step(old(fli)@, goal_of(*predicate, args.block(), options), step), (*f)@) && (*f)@.verdict is Grant && nested(
                    ctx.place(),
                    q.place(),
                ) && step_result(step) == Ok::<bool, QueryError>(true) && Spec::decodes(
                    first_step(old(fli)@, goal_of(*predicate, args.block(), options), step).trail,
                    args.block().held(first_step(old(fli)@, goal_of(*predicate, args.block(), options), step)),
                    v,
                ) ==> call_requires(body, (f, q, v)),
            forall|f: &mut Fli, q: &Query<'c>, v: Spec::Values, w: Result<R, CallError>|
                nested(ctx.place(), q.place()) && #[trigger] call_ensures(body, (f, q, v), w)
                    ==> (*f)@.leads_to((*final(f))@),
        ensures
            if args.block().count() != predicate.spec_arity() {
                final(solver).told() == old(solver).told()
            } else {
                asked_once(
                    old(solver).told(),
                    final(solver).told(),
                    old(fli)@,
                    goal_of(*predicate, args.block(), options),
                    final(fli)@,
                )
            },
            !started(old(fli)@, goal_of(*predicate, args.block(), options), final(fli)@) || args.block().count() != predicate.spec_arity()
                ==> call_not_opened(
                old(fli)@,
                final(fli)@,
                goal_of(*predicate, args.block(), options),
                r,
            ),
            args.block().count() == predicate.spec_arity() && started(old(fli)@, goal_of(*predicate, args.block(), options), final(fli)@) ==> {
                let step = opening_step(old(fli)@, final(fli)@);
                let here = first_step(old(fli)@, goal_of(*predicate, args.block(), options), step);
                if step_result(step) != Ok::<bool, QueryError>(true) {
                    call_no_solution(old(fli)@, final(fli)@, goal_of(*predicate, args.block(), options), r)
                } else {
                    match Spec::decode_fault(here.trail, args.block().held(here)) {
                        None => exists|
                            f: &mut Fli,
                            q: &Query<'c>,
                            v: Spec::Values,
                            w: Result<R, CallError>,
                        |
                            {
                                &&& grows(here, (*f)@)
                                &&& nested(ctx.place(), q.place())
                                &&& Spec::decodes(here.trail, args.block().held(here), v)
                                &&& #[trigger] call_ensures(body, (f, q, v), w)
                                &&& match w {
                                    Ok(x) => ends((*final(f))@, final(fli)@, true) && r
                                        == call_kept(end_verdict(final(fli)@), x),
                                    Err(call) => ends((*final(f))@, final(fli)@, false) && r
                                        == Err::<Option<R>, CallError>(
                                        call_cleaned(call, end_verdict(final(fli)@)),
                                    ),
                                }
                            },
                        Some(fault) => exists|middle: State, call: CallError| #[trigger]
                            grows(here, middle) && ends(middle, final(fli)@, false) && (call matches CallError::ResultDecoding(
                                e,
                            ) && e@ == fault) && r == Err::<Option<R>, CallError>(
                                #[trigger] call_cleaned(call, end_verdict(final(fli)@)),
                            ),
                    }
                }
            },
    {
        fli.attest();
        let terms: TermList<'_> = args.terms();
        let mut query: Query<'c> = match Query::ask_open(
            ctx,
            fli,
            solver,
            predicate,
            &terms,
            options,
        ) {
            Err(error) => {
                return Err(CallError::Query(error));
            },
            Ok(query) => query,
        };
        let step: Result<bool, QueryError> = query.ask_next(fli, solver);
        let ghost here = fli@;
        let ghost taken = fli@.log.last()->Advanced_0;
        proof {
            assert(here == first_step(old(fli)@, goal_of(*predicate, args.block(), options), taken));
            first_step_keeps(old(fli)@, goal_of(*predicate, args.block(), options), taken);
        }
        match step {
            Ok(true) => {
                assert(terms.held(here) =~= terms.held(old(fli)@));
                match decode_args::<Query<'c>, Spec>(&query, fli, &terms) {
                    Ok(values) => {
                        let ghost middle = fli@;
                        assert(grows(first_step(old(fli)@, goal_of(*predicate, args.block(), options), taken), middle));
                        let outcome: Result<R, CallError> = body(fli, &query, values);
                        proof {
                            middle.notes_kept(fli@);
                        }
                        match outcome {
                            Ok(value) => {
                                match query.ask_end(fli, solver, true) {
                                    Ok(()) => Ok(Some(value)),
                                    Err(error) => Err(CallError::Query(error)),
                                }
                            },
                            Err(call) => Err(close_after_call(query, fli, solver, call)),
                        }
                    },
                    Err(call) => {
                        assert(grows(here, fli@));
                        Err(close_after_call(query, fli, solver, call))
                    },
                }
            },
            Ok(false) => {
                match query.ask_end(fli, solver, false) {
                    Ok(()) => Ok(None),
                    Err(error) => Err(CallError::Query(error)),
                }
            },
            Err(operation) => Err(
                CallError::Query(cleanup_after_operation(query, fli, solver, operation)),
            ),
        }
    }

    /// Opens a call with prepared arguments whose solutions are taken one by
    /// one with [`CallSolutions::next`] or [`CallSolutions::try_next`].
    pub fn solutions_with<'f, Ctx: FliContext, S: Solver, Spec: ArgsSpec>(
        ctx: &'c Ctx,
        fli: &mut Fli,
        solver: &mut S,
        predicate: &Predicate,
        args: Args<'f, Spec>,
        options: QueryOptions,
    ) -> (r: Result<CallSolutions<'c, 'f, Spec>, CallError>)
        requires
            old(fli)@.at(ctx.place()),
            args.block().live(old(fli)@),
            args.block().count() == Spec::count(),
        ensures
            final(solver).told() == if args.block().count() != predicate.spec_arity() {
                old(solver).told()
            } else {
                old(solver).told().push(final(fli)@.log.last())
            },
            match r {
                Ok(solutions) => {
                    &&& solutions.query() matches Some(query) && nested(ctx.place(), query.place())
                        && !query.spent()
                    &&& solutions.block() == args.block()
                    &&& solutions.ready(final(fli)@)
                    &&& final(fli)@ == opened_for(old(fli)@, goal_of(*predicate, args.block(), options))
                },
                Err(_) => call_not_opened(
                    old(fli)@,
                    final(fli)@,
                    goal_of(*predicate, args.block(), options),
                r,
                ),
            },
    {
        fli.attest();
        let terms: TermList<'f> = args.terms();
        match Query::ask_open(ctx, fli, solver, predicate, &terms, options) {
            Ok(query) => Ok(
                CallSolutions {
                    inner: SolutionIter { query: Some(query) },
                    terms,
                    spec: PhantomData,
                },
            ),
            Err(error) => Err(CallError::Query(error)),
        }
    }

    /// Fallible counterpart to [`Query::solutions_with`], which differs in how
    /// its solutions are taken.
    pub fn try_solutions_with<'f, Ctx: FliContext, S: Solver, Spec: ArgsSpec>(
        ctx: &'c Ctx,
        fli: &mut Fli,
        solver: &mut S,
        predicate: &Predicate,
        args: Args<'f, Spec>,
        options: QueryOptions,
    ) -> (r: Result<CallSolutions<'c, 'f, Spec>, CallError>)
        requires
            old(fli)@.at(ctx.place()),
            args.block().live(old(fli)@),
            args.block().count() == Spec::count(),
        ensures
            final(solver).told() == if args.block().count() != predicate.spec_arity() {
                old(solver).told()
            } else {
                old(solver).told().push(final(fli)@.log.last())
            },
            match r {
                Ok(solutions) => {
                    &&& solutions.query() matches Some(query) && nested(ctx.place(), query.place())
                        && !query.spent()
                    &&& solutions.block() == args.block()
                    &&& solutions.ready(final(fli)@)
                    &&& final(fli)@ == opened_for(old(fli)@, goal_of(*predicate, args.block(), options))
                },
                Err(_) => call_not_opened(
                    old(fli)@,
                    final(fli)@,
                    goal_of(*predicate, args.block(), options),
                r,
                ),
            },
    {
        Query::solutions_with(ctx, fli, solver, predicate, args, options)
    }
}

/// The solutions of a call with prepared arguments, one by one.
pub struct CallSolutions<'c, 'f, Spec> {
    inner: SolutionIter<'c>,
    terms: TermList<'f>,
    spec: PhantomData<Spec>,
}

impl<'c, 'f, Spec: ArgsSpec> CallSolutions<'c, 'f, Spec> {
    /// The query, while it is open.
    pub closed spec fn query(&self) -> Option<Query<'c>> {
        self.inner.query
    }

    /// The argument block.
    pub closed spec fn block(&self) -> TermList<'f> {
        self.terms
    }

    /// Whether solutions can be taken: the query is the innermost open scope,
    /// and the argument block is older than it.
    pub open spec fn ready(&self, s: State) -> bool {
        self.query() matches Some(q) ==> {
            &&& s.at(q.place())
            &&& s.marks.len() > 0
            &&& s.verdict is Grant
            &&& self.block().gen() == s.gen
            &&& self.block().count() == Spec::count()
            &&& self.block().first() + self.block().count() <= s.marks.last().refs
            &&& s.marks.last().refs <= s.refs.len()
        }
    }

    /// Ends iteration, keeping the current solution's bindings.
    pub fn cut<S: Solver>(self, fli: &mut Fli, solver: &mut S) -> (r: Result<(), QueryError>)
        requires
            self.ready(old(fli)@),
        ensures
            match self.query() {
                Some(q) => {
                    &&& ends(old(fli)@, final(fli)@, true)
                    &&& final(solver).told() == old(solver).told().push(final(fli)@.log.last())
                    &&& r == end_result(end_verdict(final(fli)@))
                },
                None => r is Ok && final(fli)@ == old(fli)@ && final(solver).told()
                    == old(solver).told(),
            },
    {
        self.inner.cut(fli, solver)
    }

    /// Ends iteration early and discards the query's bindings.
    pub fn close<S: Solver>(self, fli: &mut Fli, solver: &mut S) -> (r: Result<(), QueryError>)
        requires
            self.ready(old(fli)@),
        ensures
            match self.query() {
                Some(q) => {
                    &&& ends(old(fli)@, final(fli)@, false)
                    &&& final(solver).told() == old(solver).told().push(final(fli)@.log.last())
                    &&& r == end_result(end_verdict(final(fli)@))
                },
                None => r is Ok && final(fli)@ == old(fli)@ && final(solver).told()
                    == old(solver).told(),
            },
    {
        self.inner.close(fli, solver)
    }

    /// Moves to the next solution and reads its arguments. An argument that
    /// cannot be read closes the query.
    pub fn next<S: Solver>(&mut self, fli: &mut Fli, solver: &mut S) -> (r: Option<
        Result<Spec::Values, CallError>,
    >)
        requires
            old(self).ready(old(fli)@),
        ensures
            final(self).block() == old(self).block(),
            old(self).query() is Some && final(self).query() is None && base_kept(old(fli)@)
                ==> undone(old(fli)@, final(fli)@),
            old(self).query() matches Some(q) ==> asked_next(
                old(solver).told(),
                final(solver).told(),
                old(fli)@,
                final(fli)@,
                q.spent(),
                final(self).query() is Some,
            ),
            match old(self).query() {
                None => next_when_closed(
                    old(fli)@,
                    final(fli)@,
                    old(solver).told(),
                    final(solver).told(),
                    final(self).query() is Some,
                    r is Some,
                ),
                Some(q) => if !q.spent() && found(old(fli)@, final(fli)@) {
                    let here = next_step(old(fli)@, step_after(old(fli)@, final(fli)@));
                    match Spec::decode_fault(here.trail, old(self).block().held(here)) {
                        None => {
                            &&& r matches Some(Ok(v)) && Spec::decodes(
                                here.trail,
                                old(self).block().held(here),
                                v,
                            )
                            &&& grows(here, final(fli)@)
                            &&& final(self).ready(final(fli)@)
                            &&& final(self).query() matches Some(now) && now.place() == q.place()
                                && now.spent() == step_spends(
                                step_after(old(fli)@, final(fli)@),
                            )
                        },
                        Some(fault) => {
                            &&& final(self).query() is None
                            &&& exists|middle: State, call: CallError| #[trigger]
                                grows(here, middle) && ends(middle, final(fli)@, false) && (
                                call matches CallError::ResultDecoding(e) && e@ == fault) && r
                                    == Some(
                                    Err::<Spec::Values, CallError>(
                                        #[trigger] call_cleaned(call, end_verdict(final(fli)@)),
                                    ),
                                )
                        },
                    }
                } else {
                    &&& final(self).query() is None
                    &&& match r {
                        None => no_solution(old(fli)@, final(fli)@, q.spent(), None),
                        Some(Err(CallError::Query(e))) => no_solution(
                            old(fli)@,
                            final(fli)@,
                            q.spent(),
                            Some(e),
                        ),
                        _ => false,
                    }
                },
            },
    {
        match self.inner.advance(fli, solver) {
            None => None,
            Some(Err(error)) => Some(Err(CallError::Query(error))),
            Some(Ok(())) => {
                match self.inner.query.take() {
                    None => None,
                    Some(query) => {
                        let ghost here = fli@;
                        let terms: TermList<'f> = self.terms;
                        assert(here == next_step(old(fli)@, step_after(old(fli)@, here)));
                        match decode_args::<Query<'c>, Spec>(&query, fli, &terms) {
                            Ok(values) => {
                                self.inner.query = Some(query);
                                Some(Ok(values))
                            },
                            Err(call) => {
                                assert(grows(here, fli@));
                                let ghost inner = fli@;
                                let error: CallError = close_after_call(query, fli, solver, call);
                                proof {
                                    if base_kept(old(fli)@) {
                                        assert(here.trail.is_prefix_of(inner.trail));
                                        assert(here.log.is_prefix_of(inner.log));
                                        end_undoes(
                                            old(fli)@,
                                            step_after(old(fli)@, here),
                                            inner,
                                            fli@,
                                        );
                                    }
                                }
                                Some(Err(error))
                            },
                        }
                    },
                }
            },
        }
    }

    /// Moves to the next solution, reads its arguments and hands them to
    /// `mapper`. An argument that cannot be read, and a mapper error, closes
    /// the query.
    pub fn try_next<
        S: Solver,
        R,
        F: for<'a> FnOnce(&mut Fli, &'a Query<'c>, Spec::Values) -> Result<R, CallError>,
    >(&mut self, fli: &mut Fli, solver: &mut S, mapper: F) -> (r: Option<Result<R, CallError>>)
        requires
            old(self).ready(old(fli)@),
            forall|f: &mut Fli, q: &Query<'c>, v: Spec::Values, step: StepView|
                #![trigger call_requires(mapper, (f, q, v)), next_step(old(fli)@, step)]
                grows(next_step(old(fli)@, step), (*f)@) && (*f)@.verdict is Grant
                    && old(self).query() is Some && q.place() == (old(self).query()->0).place()
                    && step_result(step) == Ok::<bool, QueryError>(true) && Spec::decodes(
                    next_step(old(fli)@, step).trail,
                    old(self).block().held(next_step(old(fli)@, step)),
                    v,
                ) ==> call_requires(mapper, (f, q, v)),
            forall|f: &mut Fli, q: &Query<'c>, v: Spec::Values, w: Result<R, CallError>|
                #[trigger] call_ensures(mapper, (f, q, v), w) ==> (*f)@.leads_to((*final(f))@),
        ensures
            final(self).block() == old(self).block(),
            old(self).query() is Some && final(self).query() is None && base_kept(old(fli)@)
                ==> undone(old(fli)@, final(fli)@),
            old(self).query() matches Some(q) ==> asked_next(
                old(solver).told(),
                final(solver).told(),
                old(fli)@,
                final(fli)@,
                q.spent(),
                final(self).query() is Some,
            ),
            match old(self).query() {
                None => next_when_closed(
                    old(fli)@,
                    final(fli)@,
                    old(solver).told(),
                    final(solver).told(),
                    final(self).query() is Some,
                    r is Some,
                ),
                Some(q) => if !q.spent() && found(old(fli)@, final(fli)@) {
                    let here = next_step(old(fli)@, step_after(old(fli)@, final(fli)@));
                    match Spec::decode_fault(here.trail, old(self).block().held(here)) {
                        None => exists|
                            f: &mut Fli,
                            now: &Query<'c>,
                            v: Spec::Values,
                            w: Result<R, CallError>,
                        |
                            {
                                &&& grows(here, (*f)@)
                                &&& now.place() == q.place()
                                &&& Spec::decodes(here.trail, old(self).block().held(here), v)
                                &&& #[trigger] call_ensures(mapper, (f, now, v), w)
                                &&& match w {
                                    Ok(x) => {
                                        &&& final(self).query() matches Some(open) && open.place()
                                            == q.place() && open.spent() == step_spends(
                                            step_after(old(fli)@, final(fli)@),
                                        )
                                        &&& final(fli)@ == (*final(f))@
                                        &&& r == Some(Ok::<R, CallError>(x))
                                    },
                                    Err(call) => {
                                        &&& final(self).query() is None
                                        &&& ends((*final(f))@, final(fli)@, false)
                                        &&& r == Some(
                                            Err::<R, CallError>(
                                                call_cleaned(call, end_verdict(final(fli)@)),
                                            ),
                                        )
                                    },
                                }
                            },
                        Some(fault) => {
                            &&& final(self).query() is None
                            &&& exists|middle: State, call: CallError| #[trigger]
                                grows(here, middle) && ends(middle, final(fli)@, false) && (
                                call matches CallError::ResultDecoding(e) && e@ == fault) && r
                                    == Some(
                                    Err::<R, CallError>(
                                        #[trigger] call_cleaned(call, end_verdict(final(fli)@)),
                                    ),
                                )
                        },
                    }
                } else {
                    &&& final(self).query() is None
                    &&& match r {
                        None => no_solution(old(fli)@, final(fli)@, q.spent(), None),
                        Some(Err(CallError::Query(e))) => no_solution(
                            old(fli)@,
                            final(fli)@,
                            q.spent(),
                            Some(e),
                        ),
                        _ => false,
                    }
                },
            },
    {
        match self.inner.advance(fli, solver) {
            None => None,
            Some(Err(error)) => Some(Err(CallError::Query(error))),
            Some(Ok(())) => {
                match self.inner.query.take() {
                    None => None,
                    Some(query) => {
                        let ghost here = fli@;
                        let terms: TermList<'f> = self.terms;
                        let ghost step = step_after(old(fli)@, here);
                        assert(here == next_step(old(fli)@, step));
                        match decode_args::<Query<'c>, Spec>(&query, fli, &terms) {
                            Ok(values) => {
                                let ghost middle = fli@;
                                assert(grows(next_step(old(fli)@, step), middle));
                                let mapped: Result<R, CallError> = mapper(fli, &query, values);
                                proof {
                                    middle.notes_kept(fli@);
                                }
                                match mapped {
                                    Ok(value) => {
                                        self.inner.query = Some(query);
                                        Some(Ok(value))
                                    },
                                    Err(call) => {
                                        let ghost inner = fli@;
                                        let error: CallError = close_after_call(
                                            query,
                                            fli,
                                            solver,
                                            call,
                                        );
                                        proof {
                                            if base_kept(old(fli)@) {
                                                assert(middle.trail.is_prefix_of(inner.trail));
                                                assert(here.log.is_prefix_of(middle.log));
                                                end_undoes(old(fli)@, step, inner, fli@);
                                            }
                                        }
                                        Some(Err(error))
                                    },
                                }
                            },
                            Err(call) => {
                                assert(grows(here, fli@));
                                let ghost inner = fli@;
                                let error: CallError = close_after_call(query, fli, solver, call);
                                proof {
                                    if base_kept(old(fli)@) {
                                        assert(here.trail.is_prefix_of(inner.trail));
                                        assert(here.log.is_prefix_of(inner.log));
                                        end_undoes(
                                            old(fli)@,
                                            step_after(old(fli)@, here),
                                            inner,
                                            fli@,
                                        );
                                    }
                                }
                                Some(Err(error))
                            },
                        }
                    },
                }
            },
        }
    }
}

} // verus!
