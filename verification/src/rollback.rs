//! What scopes undo and what they keep.

use vstd::prelude::*;

use crate::data::Tree;
use crate::exchange::{Event, StepView};
use crate::fli::{
    binding, binding_none, bound_by, cut, followed, resolve, resolved_to_the_end, State,
};
use crate::query::{
    base_kept, closed_iteration_stays_closed, ends, next_step, next_when_closed, no_solution,
    step_after, step_state, undone, NextCall, QueryError,
};

verus! {

/// Whether `now` is a state within the scope that was opened at `outer`: that
/// scope is the innermost one, what was bound is still bound in the same way,
/// and no reference is gone.
pub open spec fn inside(outer: State, now: State) -> bool {
    &&& now.gen == outer.gen
    &&& now.marks == outer.opened().marks
    &&& outer.trail.is_prefix_of(now.trail)
    &&& outer.refs.len() <= now.refs.len()
    &&& outer.refs.len() <= usize::MAX
    &&& outer.trail.len() <= usize::MAX
}

/// A scope that was just opened is entered, and what a term operation, an
/// allocation, a binding or a rewind leads to is still within it.
pub proof fn steps_stay_inside(
    outer: State,
    now: State,
    raw: usize,
    t: Tree,
    n: nat,
    more: Seq<(usize, Tree)>,
    event: Event,
    keep: bool,
)
    requires
        outer.refs.len() <= usize::MAX,
        outer.trail.len() <= usize::MAX,
    ensures
        inside(outer, outer.opened()),
        inside(outer, now) ==> {
            &&& inside(outer, now.answered())
            &&& inside(outer, now.logged(event))
            &&& raw < now.refs.len() ==> inside(outer, now.with_ref(raw, t))
            &&& inside(outer, now.with_new_ref(t))
            &&& inside(outer, now.with_new_var())
            &&& inside(outer, now.with_new_vars(n))
            &&& inside(outer, now.with_bindings(more))
            &&& inside(outer, now.rewound(keep))
        },
{
    if inside(outer, now) {
        bound_prefix(now.trail, more);
        prefix_transitive(outer.trail, now.trail, bound_by(now.trail, more));
        assert(outer.opened().marks.last() == now.marks.last());
        assert(cut(now.trail, outer.trail.len()) =~= outer.trail) by {
            assert(now.trail.subrange(0, outer.trail.len() as int) =~= outer.trail);
        }
    }
    assert(outer.trail.is_prefix_of(outer.trail));
}

/// A further step of a query stays within the query.
pub proof fn query_steps_stay_inside(outer: State, now: State, step: StepView)
    requires
        inside(outer, now),
    ensures
        inside(outer, next_step(now, step)),
{
    let rewound = now.rewound(false);
    steps_stay_inside(outer, now, 0, Tree::Nil, 0, step.bindings, Event::Advanced(step), false);
    steps_stay_inside(outer, rewound, 0, Tree::Nil, 0, step.bindings, Event::Advanced(step), false);
    steps_stay_inside(
        outer,
        rewound.answered(),
        0,
        Tree::Nil,
        0,
        step.bindings,
        Event::Advanced(step),
        false,
    );
    steps_stay_inside(
        outer,
        step_state(now, step),
        0,
        Tree::Nil,
        0,
        step.bindings,
        Event::Advanced(step),
        false,
    );
}

/// Discarding a scope undoes every binding that was made in it: the scopes and
/// bindings are those from before it was opened, its references are gone, and
/// an older reference that was not overwritten stands for what it stood for.
pub proof fn discard_undoes(outer: State, now: State)
    requires
        inside(outer, now),
    ensures
        now.closed(false).trail == outer.trail,
        now.closed(false).marks == outer.marks,
        now.closed(false).refs == now.refs.take(outer.refs.len() as int),
        forall|raw: usize|
            raw < outer.refs.len() && now.refs[raw as int] == outer.refs[raw as int]
                ==> #[trigger] now.closed(false).value(raw) == outer.value(raw),
{
    assert(now.marks.last() == outer.opened().marks.last());
    assert(now.marks.drop_last() =~= outer.marks);
    assert(now.trail.subrange(0, outer.trail.len() as int) =~= outer.trail);
    assert(cut(now.trail, outer.trail.len()) =~= outer.trail);
    assert(now.closed(false).trail == outer.trail);
}

/// Closing a scope keeps every binding that was made in it: the scopes are
/// those from before it was opened, its references are gone, and an older
/// reference stands for what it stood for in the scope.
pub proof fn close_keeps(outer: State, now: State)
    requires
        inside(outer, now),
    ensures
        now.closed(true).trail == now.trail,
        now.closed(true).marks == outer.marks,
        now.closed(true).refs == now.refs.take(outer.refs.len() as int),
        forall|raw: usize|
            raw < outer.refs.len() ==> #[trigger] now.closed(true).value(raw) == now.value(raw),
{
    assert(now.marks.last() == outer.opened().marks.last());
    assert(now.marks.drop_last() =~= outer.marks);
}

/// Rewinding a scope undoes every binding that was made in it, and leaves it
/// open.
pub proof fn rewind_undoes(outer: State, now: State)
    requires
        inside(outer, now),
    ensures
        inside(outer, now.rewound(false)),
        now.rewound(false).trail == outer.trail,
        now.rewound(false).refs == now.refs.take(outer.refs.len() as int),
        now.rewound(false).marks == now.marks,
{
    assert(now.marks.last() == outer.opened().marks.last());
    assert(now.trail.subrange(0, outer.trail.len() as int) =~= outer.trail);
    assert(cut(now.trail, outer.trail.len()) =~= outer.trail);
}

/// Ending a query without keeping its solution leaves the scopes and bindings
/// from before it was opened; keeping it keeps the bindings.
pub proof fn query_end_undoes_or_keeps(outer: State, now: State, after: State, keep: bool)
    requires
        inside(outer, now),
        ends(now, after, keep),
    ensures
        after.marks == outer.marks,
        after.trail == if keep {
            now.trail
        } else {
            outer.trail
        },
{
    discard_undoes(outer, now);
    close_keeps(outer, now);
}

/// A call for a solution that finds none leaves the scopes and bindings from
/// before the query was opened.
pub proof fn finished_query_is_undone(
    outer: State,
    now: State,
    after: State,
    spent: bool,
    error: Option<QueryError>,
)
    requires
        inside(outer, now),
        no_solution(now, after, spent, error),
    ensures
        after.marks == outer.marks,
        after.trail == outer.trail,
{
    if spent {
        query_end_undoes_or_keeps(outer, now, after, false);
    } else {
        let step = step_after(now, after);
        query_steps_stay_inside(outer, now, step);
        query_end_undoes_or_keeps(outer, next_step(now, step), after, false);
    }
}

/// What ending a query leaves of its scope is what there was before it was
/// opened.
pub proof fn undone_is_before(outer: State, now: State, after: State)
    requires
        inside(outer, now),
        undone(now, after),
    ensures
        base_kept(now),
        after.gen == outer.gen,
        after.marks == outer.marks,
        after.trail == outer.trail,
{
    assert(now.marks.last() == outer.opened().marks.last());
    assert(now.marks.drop_last() =~= outer.marks);
    assert(now.trail.subrange(0, outer.trail.len() as int) =~= outer.trail);
    assert(now.trail.take(outer.trail.len() as int) =~= outer.trail);
}

/// Binding more variables leaves the bindings there are as they are.
pub proof fn bound_prefix(trail: Seq<(usize, Tree)>, more: Seq<(usize, Tree)>)
    ensures
        trail.is_prefix_of(bound_by(trail, more)),
        bound_by(trail, more).len() >= trail.len(),
    decreases more.len(),
{
    if more.len() > 0 {
        let front = bound_by(trail, more.drop_last());
        bound_prefix(trail, more.drop_last());
        prefix_transitive(trail, front, bound_by(trail, more));
    }
}

proof fn prefix_transitive(
    a: Seq<(usize, Tree)>,
    b: Seq<(usize, Tree)>,
    c: Seq<(usize, Tree)>,
)
    requires
        a.is_prefix_of(b),
        b.is_prefix_of(c) || c == b || (c.len() > 0 && c.drop_last() == b),
    ensures
        a.is_prefix_of(c),
{
    assert(b.subrange(0, a.len() as int) =~= a);
    if c != b && !b.is_prefix_of(c) {
        assert(c.subrange(0, a.len() as int) =~= b.subrange(0, a.len() as int));
    } else if c != b {
        assert(c.subrange(0, b.len() as int) =~= b);
        assert(c.subrange(0, a.len() as int) =~= b.subrange(0, a.len() as int));
    }
}

/// A variable that is bound keeps its binding when more variables are bound.
pub proof fn binding_stays(trail: Seq<(usize, Tree)>, more: Seq<(usize, Tree)>, id: usize)
    requires
        binding(trail, 0, id) is Some,
    ensures
        binding(bound_by(trail, more), 0, id) == binding(trail, 0, id),
{
    bound_prefix(trail, more);
    binding_in_prefix(trail, bound_by(trail, more), 0, id);
}

proof fn binding_in_prefix(
    trail: Seq<(usize, Tree)>,
    longer: Seq<(usize, Tree)>,
    from: nat,
    id: usize,
)
    requires
        trail.is_prefix_of(longer),
        binding(trail, from, id) is Some,
    ensures
        binding(longer, from, id) == binding(trail, from, id),
    decreases trail.len() - from,
{
    assert(longer.subrange(0, trail.len() as int)[from as int] == trail[from as int]);
    if trail[from as int].0 != id {
        binding_in_prefix(trail, longer, from + 1, id);
    }
}

/// Bindings of different variables stay bindings of different variables when
/// more variables are bound, and none comes to be bound to one that was bound
/// before.
proof fn bound_keeps(trail: Seq<(usize, Tree)>, more: Seq<(usize, Tree)>)
    requires
        forall|i: int, j: int|
            0 <= i < j < trail.len() ==> (#[trigger] trail[i]).0 != (#[trigger] trail[j]).0,
        followed(trail),
    ensures
        forall|i: int, j: int|
            0 <= i < j < bound_by(trail, more).len() ==> (#[trigger] bound_by(trail, more)[i]).0
                != (#[trigger] bound_by(trail, more)[j]).0,
        followed(bound_by(trail, more)),
    decreases more.len(),
{
    if more.len() > 0 {
        let front = bound_by(trail, more.drop_last());
        let all = bound_by(trail, more);
        let t = resolve(front, more.last().1);
        bound_keeps(trail, more.drop_last());
        binding_none(front, 0, more.last().0);
        resolved_to_the_end(front, more.last().1);
        if let Tree::Var(id) = t {
            binding_none(front, 0, id);
        }
        if all != front {
            assert forall|i: int, j: int| 0 <= i < j < all.len() implies (#[trigger] all[i]).0 != (
            #[trigger] all[j]).0 by {
                assert(all[i] == front[i]);
                if j < front.len() {
                    assert(front[i].0 != front[j].0);
                }
            }
            assert forall|i: int, k: int|
                0 <= k <= i < all.len() && (#[trigger] all[i]).1 is Var implies (
            #[trigger] all[k]).0 != all[i].1->Var_0 by {
                if i < front.len() {
                    assert(front[i].1 is Var);
                    assert(front[k].0 != front[i].1->Var_0);
                } else if k < front.len() {
                    assert(front[k].0 != t->Var_0);
                }
            }
        }
    }
}

/// Only variables that were bound, or were to be bound, are bound.
proof fn bound_ids(trail: Seq<(usize, Tree)>, more: Seq<(usize, Tree)>, limit: nat)
    requires
        forall|i: int| 0 <= i < trail.len() ==> (#[trigger] trail[i]).0 < limit,
        forall|i: int| 0 <= i < more.len() ==> (#[trigger] more[i]).0 < limit,
    ensures
        forall|i: int|
            0 <= i < bound_by(trail, more).len() ==> (#[trigger] bound_by(trail, more)[i]).0
                < limit,
    decreases more.len(),
{
    if more.len() > 0 {
        let front = more.drop_last();
        assert forall|i: int| 0 <= i < front.len() implies (#[trigger] front[i]).0 < limit by {
            assert(more[i].0 < limit);
        }
        bound_ids(trail, front, limit);
        assert(more[more.len() - 1].0 < limit);
        let before = bound_by(trail, front);
        let all = bound_by(trail, more);
        assert forall|i: int| 0 <= i < all.len() implies (#[trigger] all[i]).0 < limit by {
            if i < before.len() {
                assert(all[i] == before[i]);
            }
        }
    }
}

/// Every operation leads from a valid state to a valid state; what the engine
/// binds must be variables that were created.
pub proof fn operations_keep_validity(
    s: State,
    raw: usize,
    t: Tree,
    n: nat,
    more: Seq<(usize, Tree)>,
    event: Event,
    keep: bool,
)
    requires
        s.valid(),
        s.refs.len() <= usize::MAX,
        s.trail.len() <= usize::MAX,
    ensures
        s.answered().valid(),
        s.logged(event).valid(),
        raw < s.refs.len() ==> s.with_ref(raw, t).valid(),
        s.with_new_ref(t).valid(),
        s.with_new_var().valid(),
        s.with_new_vars(n).valid(),
        (forall|i: int| 0 <= i < more.len() ==> (#[trigger] more[i]).0 < s.fresh)
            ==> s.with_bindings(more).valid(),
        s.opened().valid(),
        s.marks.len() > 0 ==> s.rewound(keep).valid(),
        s.marks.len() > 0 ==> s.closed(keep).valid(),
{
    bound_prefix(s.trail, more);
    bound_keeps(s.trail, more);
    if forall|i: int| 0 <= i < more.len() ==> (#[trigger] more[i]).0 < s.fresh {
        bound_ids(s.trail, more, s.fresh);
    }
    let inner = s.opened();
    assert forall|i: int, j: int| 0 <= i <= j < inner.marks.len() implies (
    #[trigger] inner.marks[i]).refs <= (#[trigger] inner.marks[j]).refs && inner.marks[i].trail
        <= inner.marks[j].trail by {
        if i < s.marks.len() {
            assert(inner.marks[i] == s.marks[i]);
        }
    }
    if s.marks.len() > 0 {
        let last = s.marks[s.marks.len() - 1];
        assert(s.marks.last() == last);
        let now = s.rewound(keep);
        assert forall|i: int| 0 <= i < now.marks.len() implies (#[trigger] now.marks[i]).refs
            <= now.refs.len() && now.marks[i].trail <= now.trail.len() by {
            assert(s.marks[i].refs <= last.refs && s.marks[i].trail <= last.trail);
        }
        assert forall|i: int, j: int| 0 <= i < j < now.trail.len() implies (
        #[trigger] now.trail[i]).0 != (#[trigger] now.trail[j]).0 by {
            assert(s.trail[i].0 != s.trail[j].0);
        }
        let outer = s.closed(keep);
        assert forall|i: int| 0 <= i < outer.marks.len() implies (#[trigger] outer.marks[i]).refs
            <= outer.refs.len() && outer.marks[i].trail <= outer.trail.len() by {
            assert(outer.marks[i] == now.marks[i]);
        }
        assert forall|i: int, j: int| 0 <= i <= j < outer.marks.len() implies (
        #[trigger] outer.marks[i]).refs <= (#[trigger] outer.marks[j]).refs
            && outer.marks[i].trail <= outer.marks[j].trail by {
            assert(outer.marks[i] == s.marks[i] && outer.marks[j] == s.marks[j]);
        }
    }
}

/// A step of a query leads from a valid state to a valid state; what the engine
/// binds must be variables that were created, or that the step brings.
pub proof fn query_steps_keep_validity(s: State, step: StepView)
    requires
        s.valid(),
        s.marks.len() > 0,
        s.refs.len() <= usize::MAX,
        s.trail.len() <= usize::MAX,
        forall|i: int|
            0 <= i < step.bindings.len() ==> (#[trigger] step.bindings[i]).0 < s.fresh + step.vars,
    ensures
        next_step(s, step).valid(),
{
    let event = Event::Advanced(step);
    operations_keep_validity(s, 0, Tree::Nil, 0, Seq::empty(), event, false);
    let ready = State { fresh: s.fresh + step.vars, ..s.rewound(false) };
    assert(ready.valid());
    operations_keep_validity(ready, 0, Tree::Nil, 0, step.bindings, event, false);
    operations_keep_validity(s.rewound(false), 0, Tree::Nil, 0, Seq::empty(), event, false);
}

/// Once a call for a solution has ended the query, for whatever reason, its
/// bindings are undone and the scopes are those from before it was opened, and
/// every later call yields nothing, asks nothing of the engine, runs no
/// callback and changes nothing.
pub proof fn iteration_ends_for_good(outer: State, calls: Seq<NextCall>)
    requires
        calls.len() > 0,
        inside(outer, calls[0].before),
        calls[0].was_open && !calls[0].open,
        undone(calls[0].before, calls[0].after),
        forall|i: int|
            0 < i < calls.len() && !(#[trigger] calls[i]).was_open ==> next_when_closed(
                calls[i].before,
                calls[i].after,
                calls[i].told_before,
                calls[i].told_after,
                calls[i].open,
                calls[i].yields,
            ),
        forall|i: int|
            0 < i < calls.len() ==> (#[trigger] calls[i]).was_open == calls[i - 1].open
                && calls[i].before == calls[i - 1].after && calls[i].told_before == calls[i
                - 1].told_after,
    ensures
        forall|i: int|
            0 <= i < calls.len() ==> !(#[trigger] calls[i]).open && calls[i].after.gen == outer.gen
                && calls[i].after.marks == outer.marks && calls[i].after.trail == outer.trail
                && calls[i].told_after == calls[0].told_after,
        forall|i: int|
            0 < i < calls.len() ==> !(#[trigger] calls[i]).yields && calls[i].after
                == calls[0].after,
{
    undone_is_before(outer, calls[0].before, calls[0].after);
    let later = calls.drop_first();
    assert forall|i: int| 0 <= i < later.len() && !(#[trigger] later[i]).was_open implies
        next_when_closed(
        later[i].before,
        later[i].after,
        later[i].told_before,
        later[i].told_after,
        later[i].open,
        later[i].yields,
    ) by {
        assert(!calls[i + 1].was_open);
    }
    assert forall|i: int| 0 < i < later.len() implies (#[trigger] later[i]).was_open == later[i
        - 1].open && later[i].before == later[i - 1].after && later[i].told_before == later[i
        - 1].told_after by {
        assert(calls[i + 1].was_open == calls[i].open);
    }
    if later.len() > 0 {
        assert(calls[1].was_open == calls[0].open);
        closed_iteration_stays_closed(later);
    }
    assert forall|i: int| 0 < i < calls.len() implies !(#[trigger] calls[i]).open
        && !calls[i].yields && calls[i].after == calls[0].after && calls[i].told_after
        == calls[0].told_after by {
        assert(!later[i - 1].open);
        assert(later[0] == calls[1]);
    }
}

} // verus!
