//! The engine state that terms, frames and queries act on.

use vstd::prelude::*;

use crate::data::{Tree, TermData};
use crate::exception::Verdict;
use crate::exchange::{bindings_view, Event};
use crate::scope::Activation;

verus! {

/// How many term references and bindings there were when a scope was opened.
#[derive(Debug, Clone, Copy, PartialEq, Eq, Structural)]
pub struct Mark {
    pub refs: usize,
    pub trail: usize,
}

/// What the engine state denotes.
#[verifier::ext_equal]
pub struct State {
    /// The current engine activation; 0 where no engine was attached.
    pub gen: u64,
    /// The latest engine activation there has been on this thread; every
    /// earlier one has a smaller number.
    pub newest: u64,
    /// What each live term reference holds.
    pub refs: Seq<Tree>,
    /// The bindings of variables, oldest first.
    pub trail: Seq<(usize, Tree)>,
    /// The open scopes, outermost first.
    pub marks: Seq<Mark>,
    /// How many variables have been created; the next one gets this number.
    pub fresh: nat,
    /// How the engine answers the next operation that it decides.
    pub verdict: Verdict,
    /// What queries and the engine have told each other, oldest first.
    pub log: Seq<Event>,
}

/// The first binding of variable `id` at or after position `from`.
pub open spec fn binding(trail: Seq<(usize, Tree)>, from: nat, id: usize) -> Option<nat>
    decreases trail.len() - from,
{
    if from >= trail.len() {
        None
    } else if trail[from as int].0 == id {
        Some(from)
    } else {
        binding(trail, from + 1, id)
    }
}

/// What `t` stands for once the bindings at or after position `from` are
/// followed.
pub open spec fn walk(trail: Seq<(usize, Tree)>, from: nat, t: Tree) -> Tree
    decreases trail.len() - from,
{
    match t {
        Tree::Var(id) => {
            match binding(trail, from, id) {
                Some(i) => if from <= i < trail.len() {
                    walk(trail, i + 1, trail[i as int].1)
                } else {
                    t
                },
                None => t,
            }
        },
        _ => t,
    }
}

/// The last binding that [`walk`] follows, if it follows any.
pub open spec fn landing(trail: Seq<(usize, Tree)>, from: nat, t: Tree) -> Option<nat>
    decreases trail.len() - from,
{
    match t {
        Tree::Var(id) => {
            match binding(trail, from, id) {
                Some(i) => if from <= i < trail.len() {
                    match landing(trail, i + 1, trail[i as int].1) {
                        Some(last) => Some(last),
                        None => Some(i),
                    }
                } else {
                    None
                },
                None => None,
            }
        },
        _ => None,
    }
}

/// What `t` stands for: a variable that is bound stands for what it is bound
/// to, and that for what it was bound to afterwards. Since a variable is bound
/// only to what a term stands for, no earlier binding says more of it.
pub open spec fn resolve(trail: Seq<(usize, Tree)>, t: Tree) -> Tree {
    walk(trail, 0, t)
}

/// The bindings together with more: a variable that is bound already keeps its
/// binding.
pub open spec fn extended(trail: Seq<(usize, Tree)>, more: Seq<(usize, Tree)>) -> Seq<
    (usize, Tree),
>
    decreases more.len(),
{
    if more.len() == 0 {
        trail
    } else {
        let before = extended(trail, more.drop_last());
        if binding(before, 0, more.last().0) is None {
            before.push(more.last())
        } else {
            before
        }
    }
}

/// The bindings once the engine made more: a variable that is bound already
/// keeps its binding, and a variable is bound to what the given term stands
/// for, unless that is the variable itself.
pub open spec fn bound_by(trail: Seq<(usize, Tree)>, more: Seq<(usize, Tree)>) -> Seq<
    (usize, Tree),
>
    decreases more.len(),
{
    if more.len() == 0 {
        trail
    } else {
        let before = bound_by(trail, more.drop_last());
        let id = more.last().0;
        let t = resolve(before, more.last().1);
        if binding(before, 0, id) is None && t != Tree::Var(id) {
            before.push((id, t))
        } else {
            before
        }
    }
}

/// Whether no variable is bound to one that was bound before, or to itself.
pub open spec fn followed(trail: Seq<(usize, Tree)>) -> bool {
    forall|i: int, k: int|
        0 <= k <= i < trail.len() && (#[trigger] trail[i]).1 is Var ==> (#[trigger] trail[k]).0
            != trail[i].1->Var_0
}

/// What a term stands for is never a variable that is bound.
pub proof fn resolved_to_the_end(trail: Seq<(usize, Tree)>, t: Tree)
    requires
        followed(trail),
    ensures
        resolve(trail, t) matches Tree::Var(id) ==> binding(trail, 0, id) is None,
{
    walked_to_the_end(trail, 0, t);
    if let Tree::Var(id) = resolve(trail, t) {
        binding_none(trail, 0, id);
    }
}

proof fn walked_to_the_end(trail: Seq<(usize, Tree)>, from: nat, t: Tree)
    requires
        followed(trail),
        from <= trail.len(),
        t matches Tree::Var(id) ==> forall|k: int|
            0 <= k < from ==> (#[trigger] trail[k]).0 != id,
    ensures
        walk(trail, from, t) matches Tree::Var(id) ==> forall|k: int|
            0 <= k < trail.len() ==> (#[trigger] trail[k]).0 != id,
    decreases trail.len() - from,
{
    if let Tree::Var(id) = t {
        binding_none(trail, from, id);
        binding_some(trail, from, id);
        if let Some(i) = binding(trail, from, id) {
            let next = trail[i as int].1;
            if let Tree::Var(v) = next {
                assert forall|k: int| 0 <= k < i + 1 implies (#[trigger] trail[k]).0 != v by {
                    assert(trail[i as int].1 is Var);
                }
            }
            walked_to_the_end(trail, i + 1, next);
        }
    }
}

/// The first `n` elements, or all where there are fewer.
pub open spec fn cut<A>(s: Seq<A>, n: nat) -> Seq<A> {
    if n <= s.len() {
        s.take(n as int)
    } else {
        s
    }
}

impl State {
    /// Whether `activation` is the current one.
    pub open spec fn at(self, activation: Activation) -> bool {
        activation.gen == self.gen && activation.depth == self.marks.len()
    }

    /// What term reference `raw` stands for.
    pub open spec fn value(self, raw: usize) -> Tree {
        resolve(self.trail, self.refs[raw as int])
    }

    /// The state in which one more exchange was noted.
    pub open spec fn logged(self, event: Event) -> State {
        State { log: self.log.push(event), ..self }
    }

    /// Whether `after` is a state to which code within one scope can lead
    /// from here: the same scopes of the same engine are open, no reference or
    /// binding is gone, nothing noted was forgotten, and no activation came
    /// back.
    pub open spec fn leads_to(self, after: State) -> bool {
        &&& after.gen == self.gen
        &&& after.marks == self.marks
        &&& self.trail.is_prefix_of(after.trail)
        &&& self.refs.len() <= after.refs.len()
        &&& self.newest <= after.newest
        &&& self.log.is_prefix_of(after.log)
    }

    /// What was noted stays where it was.
    pub proof fn notes_kept(self, after: State)
        requires
            self.leads_to(after),
        ensures
            after.log.len() >= self.log.len(),
            forall|i: int| 0 <= i < self.log.len() ==> #[trigger] after.log[i] == self.log[i],
    {
        assert forall|i: int| 0 <= i < self.log.len() implies #[trigger] after.log[i]
            == self.log[i] by {
            assert(after.log.subrange(0, self.log.len() as int)[i] == self.log[i]);
        }
    }

    /// The state with more bindings that the engine made.
    pub open spec fn with_bindings(self, more: Seq<(usize, Tree)>) -> State {
        State { trail: bound_by(self.trail, more), ..self }
    }

    /// The state with more bindings as they stand.
    pub open spec fn with_recorded(self, more: Seq<(usize, Tree)>) -> State {
        State { trail: extended(self.trail, more), ..self }
    }

    /// The state in which the pending answer was used up.
    pub open spec fn answered(self) -> State {
        State { verdict: Verdict::Grant, ..self }
    }

    /// The state in which term reference `raw` holds `t`.
    pub open spec fn with_ref(self, raw: usize, t: Tree) -> State {
        State { refs: self.refs.update(raw as int, t), ..self }
    }

    /// The state with one more term reference, which holds `t`.
    pub open spec fn with_new_ref(self, t: Tree) -> State {
        State { refs: self.refs.push(t), ..self }
    }

    /// The state with one more term reference, which holds a new variable.
    pub open spec fn with_new_var(self) -> State {
        State { refs: self.refs.push(Tree::Var(self.fresh as usize)), fresh: self.fresh + 1, ..self }
    }

    /// The state with `n` more term references, each of which holds a new
    /// variable.
    pub open spec fn with_new_vars(self, n: nat) -> State {
        State {
            refs: self.refs + Seq::new(n, |i: int| Tree::Var((self.fresh + i) as usize)),
            fresh: self.fresh + n,
            ..self
        }
    }

    /// The state with one more open scope.
    pub open spec fn opened(self) -> State {
        State {
            marks: self.marks.push(
                Mark { refs: self.refs.len() as usize, trail: self.trail.len() as usize },
            ),
            ..self
        }
    }

    /// The state in which the innermost scope is still open but what was made
    /// in it is gone: its term references, and its bindings unless `keep`.
    pub open spec fn rewound(self, keep: bool) -> State {
        State {
            refs: cut(self.refs, self.marks.last().refs as nat),
            trail: if keep {
                self.trail
            } else {
                cut(self.trail, self.marks.last().trail as nat)
            },
            ..self
        }
    }

    /// The state in which the innermost scope was closed.
    pub open spec fn closed(self, keep: bool) -> State {
        State { marks: self.marks.drop_last(), ..self.rewound(keep) }
    }

    /// Undoing what was made in a scope a second time changes nothing.
    pub proof fn rewound_twice(self, keep: bool)
        ensures
            self.rewound(keep).rewound(keep) == self.rewound(keep),
    {
        let once = self.rewound(keep);
        assert(once.rewound(keep).refs =~= once.refs);
        assert(once.rewound(keep).trail =~= once.trail);
    }

    /// A scope in which nothing happened leaves no trace, whether it is kept
    /// or undone.
    pub proof fn opened_then_closed(self, keep: bool)
        requires
            self.refs.len() <= usize::MAX,
            self.trail.len() <= usize::MAX,
        ensures
            self.opened().closed(keep) == self,
            self.opened().answered().closed(keep) == self.answered(),
    {
        assert(self.opened().marks.drop_last() =~= self.marks);
        assert(self.refs.take(self.refs.len() as int) =~= self.refs);
        assert(self.trail.take(self.trail.len() as int) =~= self.trail);
    }

    /// What holds of every state: the current activation is not later than the
    /// latest one, no scope was opened with more references or
    /// bindings than an inner one or than there are now, every variable is
    /// bound at most once and after it was created, and none to one that was
    /// bound before.
    pub open spec fn valid(self) -> bool {
        &&& self.gen <= self.newest
        &&& followed(self.trail)
        &&& forall|i: int| 0 <= i < self.trail.len() ==> (#[trigger] self.trail[i]).0 < self.fresh
        &&& forall|i: int|
            0 <= i < self.marks.len() ==> (#[trigger] self.marks[i]).refs <= self.refs.len()
                && self.marks[i].trail <= self.trail.len()
        &&& forall|i: int, j: int|
            0 <= i <= j < self.marks.len() ==> (#[trigger] self.marks[i]).refs <= (
            #[trigger] self.marks[j]).refs && self.marks[i].trail <= self.marks[j].trail
        &&& forall|i: int, j: int|
            0 <= i < j < self.trail.len() ==> (#[trigger] self.trail[i]).0 != (
            #[trigger] self.trail[j]).0
    }
}

/// The stacks of one engine.
pub struct Stacks {
    refs: Vec<TermData>,
    trail: Vec<(usize, TermData)>,
    marks: Vec<Mark>,
    /// One element for each variable that has been created.
    vars: Vec<()>,
}

impl Stacks {
    spec fn refs_view(&self) -> Seq<Tree> {
        Seq::new(self.refs@.len(), |i: int| self.refs@[i]@)
    }

    spec fn trail_view(&self) -> Seq<(usize, Tree)> {
        Seq::new(self.trail@.len(), |i: int| (self.trail@[i].0, self.trail@[i].1@))
    }

    /// The stacks as part of an engine state.
    pub closed spec fn put_in(&self, gen: u64, newest: u64, verdict: Verdict, log: Seq<Event>) -> State {
        State {
            gen,
            newest,
            refs: self.refs_view(),
            trail: self.trail_view(),
            marks: self.marks@,
            fresh: self.vars@.len(),
            verdict,
            log,
        }
    }

    /// The same stacks make up the same state but for what is given.
    pub proof fn put_in_uniform(&self, gen: u64, newest: u64, verdict: Verdict, log: Seq<Event>)
        ensures
            forall|g: u64, n: u64, v: Verdict, l: Seq<Event>| #[trigger]
                self.put_in(g, n, v, l) == (State {
                    gen: g,
                    newest: n,
                    verdict: v,
                    log: l,
                    ..self.put_in(gen, newest, verdict, log)
                }),
    {
    }

    /// The stacks of an engine on which nothing has been done.
    pub fn new() -> (r: Stacks)
        ensures
            forall|gen: u64, newest: u64, verdict: Verdict, log: Seq<Event>| #[trigger]
                r.put_in(gen, newest, verdict, log) == (State {
                    gen,
                    newest,
                    refs: Seq::empty(),
                    trail: Seq::empty(),
                    marks: Seq::empty(),
                    fresh: 0,
                    verdict,
                    log,
                }),
    {
        let r = Stacks { refs: Vec::new(), trail: Vec::new(), marks: Vec::new(), vars: Vec::new() };
        proof {
            assert(r.refs_view() =~= Seq::empty());
            assert(r.trail_view() =~= Seq::empty());
        }
        r
    }

    /// The first binding of `id` at or after `from`, or the number of
    /// bindings if there is none.
    fn find(&self, from: usize, id: usize) -> (r: usize)
        requires
            from <= self.trail@.len(),
        ensures
            from <= r <= self.trail@.len(),
            binding(self.trail_view(), from as nat, id) == if r < self.trail@.len() {
                Some(r as nat)
            } else {
                None
            },
    {
        let mut i: usize = from;
        while i < self.trail.len()
            invariant
                from <= i <= self.trail@.len(),
                binding(self.trail_view(), from as nat, id) == binding(
                    self.trail_view(),
                    i as nat,
                    id,
                ),
            decreases self.trail@.len() - i,
        {
            if self.trail[i].0 == id {
                return i;
            }
            i = i + 1;
        }
        i
    }

    fn resolved<'a>(&'a self, data: &'a TermData) -> (r: (&'a TermData, Option<usize>))
        ensures
            r.0@ == resolve(self.trail_view(), data@),
            match landing(self.trail_view(), 0, data@) {
                Some(i) => r.1 matches Some(j) && i == j && j < self.trail@.len(),
                None => r.1 is None && r.0 == data,
            },
    {
        let mut cursor: &'a TermData = data;
        let mut from: usize = 0;
        let mut last: Option<usize> = None;
        loop
            invariant
                from <= self.trail@.len(),
                walk(self.trail_view(), from as nat, cursor@) == resolve(
                    self.trail_view(),
                    data@,
                ),
                last is None ==> from == 0 && cursor == data,
                last matches Some(j) ==> j < self.trail@.len() && landing(
                    self.trail_view(),
                    0,
                    data@,
                ) == match landing(self.trail_view(), from as nat, cursor@) {
                    Some(i) => Some(i),
                    None => Some(j as nat),
                },
            decreases self.trail@.len() - from,
        {
            match cursor {
                TermData::Var(id) => {
                    let i: usize = self.find(from, *id);
                    if i >= self.trail.len() {
                        return (cursor, last);
                    }
                    cursor = &self.trail[i].1;
                    from = i + 1;
                    last = Some(i);
                },
                _ => {
                    return (cursor, last);
                },
            }
        }
    }

    fn set_ref(&mut self, raw: usize, data: TermData)
        requires
            raw < old(self).refs@.len(),
        ensures
            final(self).refs_view() == old(self).refs_view().update(raw as int, data@),
            final(self).trail_view() == old(self).trail_view(),
            final(self).marks == old(self).marks,
            final(self).vars == old(self).vars,
    {
        self.refs.set(raw, data);
        assert(self.refs_view() =~= old(self).refs_view().update(raw as int, data@));
    }

    fn push_ref(&mut self, data: TermData)
        ensures
            final(self).refs_view() == old(self).refs_view().push(data@),
            final(self).trail_view() == old(self).trail_view(),
            final(self).marks == old(self).marks,
            final(self).vars == old(self).vars,
    {
        self.refs.push(data);
        assert(self.refs_view() =~= old(self).refs_view().push(data@));
    }

    fn new_var(&mut self) -> (id: usize)
        ensures
            id == old(self).vars@.len(),
            final(self).vars@.len() == id + 1,
            final(self).refs_view() == old(self).refs_view(),
            final(self).trail_view() == old(self).trail_view(),
            final(self).marks == old(self).marks,
    {
        let id: usize = self.vars.len();
        self.vars.push(());
        id
    }

    fn bind(&mut self, id: usize, data: TermData)
        requires
            binding(old(self).trail_view(), 0, id) is None,
        ensures
            final(self).trail_view() == old(self).trail_view().push((id, data@)),
            final(self).refs_view() == old(self).refs_view(),
            final(self).marks == old(self).marks,
            final(self).vars == old(self).vars,
    {
        self.trail.push((id, data));
        assert(self.trail_view() =~= old(self).trail_view().push((id, data@)));
    }

    fn open_mark(&mut self)
        ensures
            forall|gen: u64, newest: u64, verdict: Verdict, log: Seq<Event>| #[trigger]
                final(self).put_in(gen, newest, verdict, log) == old(self).put_in(gen, newest, verdict, log).opened(),
    {
        let refs: usize = self.refs.len();
        let trail: usize = self.trail.len();
        self.marks.push(Mark { refs, trail });
        assert(self.refs_view() =~= old(self).refs_view());
        assert(self.trail_view() =~= old(self).trail_view());
    }

    fn rewind_mark(&mut self, keep: bool)
        requires
            old(self).marks@.len() > 0,
        ensures
            forall|gen: u64, newest: u64, verdict: Verdict, log: Seq<Event>| #[trigger]
                final(self).put_in(gen, newest, verdict, log) == old(self).put_in(gen, newest, verdict, log).rewound(keep),
            final(self).marks == old(self).marks,
    {
        let mark: Mark = self.marks[self.marks.len() - 1];
        self.refs.truncate(mark.refs);
        if !keep {
            self.trail.truncate(mark.trail);
        }
        assert(self.refs_view() =~= cut(old(self).refs_view(), mark.refs as nat));
        assert(self.trail_view() =~= if keep {
            old(self).trail_view()
        } else {
            cut(old(self).trail_view(), mark.trail as nat)
        });
    }

    fn close_mark(&mut self, keep: bool)
        requires
            old(self).marks@.len() > 0,
        ensures
            forall|gen: u64, newest: u64, verdict: Verdict, log: Seq<Event>| #[trigger]
                final(self).put_in(gen, newest, verdict, log) == old(self).put_in(gen, newest, verdict, log).closed(keep),
    {
        self.rewind_mark(keep);
        let ghost rewound = *self;
        self.marks.pop();
        assert forall|gen: u64, newest: u64, verdict: Verdict, log: Seq<Event>| #[trigger]
            self.put_in(gen, newest, verdict, log) == old(self).put_in(gen, newest, verdict, log).closed(keep) by {
            assert(rewound.put_in(gen, newest, verdict, log) == old(self).put_in(gen, newest, verdict, log).rewound(keep));
            assert(self.marks@ =~= rewound.marks@.drop_last());
            assert(self.put_in(gen, newest, verdict, log).refs =~= rewound.put_in(gen, newest, verdict, log).refs);
            assert(self.put_in(gen, newest, verdict, log).trail =~= rewound.put_in(gen, newest, verdict, log).trail);
        }
    }
}

/// The calling thread's engine state: the current activation, the stacks of
/// the current engine, and the engine's pending answer.
pub struct Fli {
    gen: u64,
    newest: u64,
    stacks: Stacks,
    verdict: Verdict,
    log: Ghost<Seq<Event>>,
}

impl View for Fli {
    type V = State;

    closed spec fn view(&self) -> State {
        self.stacks.put_in(self.gen, self.newest, self.verdict, self.log@)
    }
}

impl Fli {
    /// A thread on which no engine was attached.
    pub fn new() -> (r: Fli)
        ensures
            r@ == (State {
                gen: 0,
                newest: 0,
                refs: Seq::empty(),
                trail: Seq::empty(),
                marks: Seq::empty(),
                fresh: 0,
                verdict: Verdict::Grant,
                log: Seq::empty(),
            }),
    {
        Fli {
            gen: 0,
            newest: 0,
            stacks: Stacks::new(),
            verdict: Verdict::Grant,
            log: Ghost(Seq::empty()),
        }
    }

    /// Shows that all counts are within the machine's range.
    pub fn attest(&self)
        ensures
            self@.refs.len() <= usize::MAX,
            self@.trail.len() <= usize::MAX,
            self@.marks.len() <= usize::MAX,
            self@.fresh <= usize::MAX,
    {
        let _refs: usize = self.stacks.refs.len();
        let _trail: usize = self.stacks.trail.len();
        let _marks: usize = self.stacks.marks.len();
        let _vars: usize = self.stacks.vars.len();
    }

    /// Sets how the engine answers the next operation that it decides.
    pub fn answer(&mut self, verdict: Verdict)
        ensures
            final(self)@ == (State { verdict, ..old(self)@ }),
    {
        self.verdict = verdict;
    }

    /// Captures and clears the engine's pending answer.
    pub(crate) fn take_verdict(&mut self) -> (r: Verdict)
        ensures
            r == old(self)@.verdict,
            final(self)@ == old(self)@.answered(),
    {
        let mut verdict = Verdict::Grant;
        std::mem::swap(&mut verdict, &mut self.verdict);
        verdict
    }

    /// Notes what a query and the engine told each other.
    pub(crate) fn note(&mut self, event: Ghost<Event>)
        ensures
            final(self)@ == old(self)@.logged(event@),
    {
        self.log = Ghost(self.log@.push(event@));
    }

    /// The current activation.
    pub fn activation(&self) -> (r: Activation)
        ensures
            self@.at(r),
    {
        Activation { gen: self.gen, depth: self.stacks.marks.len() }
    }

    /// The latest engine activation there has been on this thread.
    pub fn newest(&self) -> (r: u64)
        ensures
            r == self@.newest,
    {
        self.newest
    }

    /// How many term references are live.
    pub fn refs_len(&self) -> (r: usize)
        ensures
            r == self@.refs.len(),
    {
        self.stacks.refs.len()
    }

    /// What a term reference stands for.
    pub fn value(&self, raw: usize) -> (r: &TermData)
        requires
            raw < self@.refs.len(),
        ensures
            r@ == self@.value(raw),
    {
        let held: &TermData = &self.stacks.refs[raw];
        self.stacks.resolved(held).0
    }

    /// What `data` stands for under the current bindings, and the last binding
    /// that leads there.
    pub fn resolved<'a>(&'a self, data: &'a TermData) -> (r: (&'a TermData, Option<usize>))
        ensures
            r.0@ == resolve(self@.trail, data@),
            match landing(self@.trail, 0, data@) {
                Some(i) => r.1 matches Some(j) && i == j && j < self@.trail.len(),
                None => r.1 is None && r.0 == data,
            },
    {
        self.stacks.resolved(data)
    }

    /// How many bindings there are.
    pub(crate) fn trail_len(&self) -> (r: usize)
        ensures
            r == self@.trail.len(),
    {
        self.stacks.trail.len()
    }

    /// What a term reference holds.
    pub fn held(&self, raw: usize) -> (r: &TermData)
        requires
            raw < self@.refs.len(),
        ensures
            r@ == self@.refs[raw as int],
    {
        &self.stacks.refs[raw]
    }

    /// Overwrites a term reference.
    pub(crate) fn set_ref(&mut self, raw: usize, data: TermData)
        requires
            raw < old(self)@.refs.len(),
        ensures
            final(self)@ == old(self)@.with_ref(raw, data@),
    {
        self.stacks.set_ref(raw, data);
        assert(self@.refs =~= old(self)@.refs.update(raw as int, data@));
    }

    /// Allocates a term reference that holds `data`.
    pub(crate) fn push_ref(&mut self, data: TermData) -> (raw: usize)
        ensures
            raw == old(self)@.refs.len(),
            final(self)@ == old(self)@.with_new_ref(data@),
    {
        let raw: usize = self.stacks.refs.len();
        self.stacks.push_ref(data);
        assert(self@.refs =~= old(self)@.refs.push(data@));
        raw
    }

    /// A new variable.
    pub fn new_var(&mut self) -> (id: usize)
        ensures
            id == old(self)@.fresh,
            final(self)@ == (State { fresh: old(self)@.fresh + 1, ..old(self)@ }),
    {
        self.stacks.new_var()
    }

    /// How many variables have been created.
    pub fn var_count(&self) -> (r: usize)
        ensures
            r == self@.fresh,
    {
        self.stacks.vars.len()
    }

    /// Makes `n` new variables.
    pub fn new_vars(&mut self, n: usize)
        ensures
            final(self)@ == (State { fresh: old(self)@.fresh + n as nat, ..old(self)@ }),
    {
        let mut i: usize = 0;
        while i < n
            invariant
                i <= n,
                self@ == (State { fresh: old(self)@.fresh + i as nat, ..old(self)@ }),
            decreases n - i,
        {
            self.new_var();
            i = i + 1;
        }
    }

    /// A copy of all bindings, oldest first.
    pub(crate) fn copy_trail(&self) -> (r: Vec<(usize, TermData)>)
        ensures
            bindings_view(r@) == self@.trail,
    {
        let mut out: Vec<(usize, TermData)> = Vec::new();
        let mut i: usize = 0;
        while i < self.stacks.trail.len()
            invariant
                i <= self.stacks.trail@.len(),
                out@.len() == i,
                forall|k: int|
                    0 <= k < i ==> (#[trigger] out@[k]).0 == self.stacks.trail@[k].0 && out@[k].1@
                        == self.stacks.trail@[k].1@,
            decreases self.stacks.trail@.len() - i,
        {
            out.push((self.stacks.trail[i].0, self.stacks.trail[i].1.copy()));
            i = i + 1;
        }
        assert(bindings_view(out@) =~= self@.trail);
        out
    }

    /// Allocates a term reference that holds a new variable.
    pub(crate) fn push_var(&mut self) -> (raw: usize)
        ensures
            raw == old(self)@.refs.len(),
            final(self)@ == old(self)@.with_new_var(),
    {
        let id: usize = self.new_var();
        self.push_ref(TermData::Var(id))
    }

    /// Whether a variable is bound.
    pub fn is_bound(&self, id: usize) -> (r: bool)
        ensures
            r == (binding(self@.trail, 0, id) is Some),
    {
        self.stacks.find(0, id) < self.stacks.trail.len()
    }

    /// Binds an unbound variable.
    pub(crate) fn bind(&mut self, id: usize, data: TermData)
        requires
            binding(old(self)@.trail, 0, id) is None,
        ensures
            final(self)@ == (State { trail: old(self)@.trail.push((id, data@)), ..old(self)@ }),
    {
        self.stacks.bind(id, data);
        assert(self@.trail =~= old(self)@.trail.push((id, data@)));
    }

    /// Opens a scope.
    pub(crate) fn open_mark(&mut self)
        ensures
            final(self)@ == old(self)@.opened(),
    {
        self.stacks.open_mark();
    }

    /// Undoes what was made in the innermost scope without closing it.
    pub(crate) fn rewind_mark(&mut self, keep: bool)
        requires
            old(self)@.marks.len() > 0,
        ensures
            final(self)@ == old(self)@.rewound(keep),
    {
        self.stacks.rewind_mark(keep);
    }

    /// Closes the innermost scope.
    pub(crate) fn close_mark(&mut self, keep: bool)
        requires
            old(self)@.marks.len() > 0,
        ensures
            final(self)@ == old(self)@.closed(keep),
    {
        self.stacks.close_mark(keep);
    }

    /// Makes another engine current: its stacks take the place of the current
    /// ones, which are returned.
    pub(crate) fn switch(&mut self, gen: u64, newest: u64, stacks: Stacks) -> (outer: Stacks)
        ensures
            final(self)@ == stacks.put_in(gen, newest, old(self)@.verdict, old(self)@.log),
            forall|n: u64, v: Verdict, log: Seq<Event>| #[trigger]
                outer.put_in(old(self)@.gen, n, v, log) == (State {
                    newest: n,
                    verdict: v,
                    log,
                    ..old(self)@
                }),
    {
        let mut held = stacks;
        std::mem::swap(&mut held, &mut self.stacks);
        self.gen = gen;
        self.newest = newest;
        held
    }
}

/// A variable that has no binding from `from` on is not bound there.
pub proof fn binding_none(trail: Seq<(usize, Tree)>, from: nat, id: usize)
    ensures
        binding(trail, from, id) is None <==> forall|i: int|
            from <= i < trail.len() ==> (#[trigger] trail[i]).0 != id,
    decreases trail.len() - from,
{
    if from < trail.len() {
        binding_none(trail, from + 1, id);
    }
}

/// A position that [`binding`] finds is one at or after `from` that binds the
/// variable.
pub proof fn binding_some(trail: Seq<(usize, Tree)>, from: nat, id: usize)
    ensures
        binding(trail, from, id) matches Some(i) ==> from <= i < trail.len() && trail[i as int].0
            == id,
    decreases trail.len() - from,
{
    if from < trail.len() && trail[from as int].0 != id {
        binding_some(trail, from + 1, id);
    }
}

} // verus!
