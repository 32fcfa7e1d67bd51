//! Terms recorded outside of any engine.

use vstd::prelude::*;

use crate::data::{Key, KeyData, TermData, Tree};
use crate::exception::{PrologException, Verdict};
use crate::exchange::bindings_view;
use crate::fli::{
    binding, binding_none, binding_some, extended, followed, resolve, walk, Fli, State,
};
use crate::term::{bind_recorded, grows, FliContext, Term, TermError};

verus! {

/// An error from recording or recalling a term.
#[derive(Debug, Clone, PartialEq, Eq)]
pub enum RecordError {
    /// The engine reported failure and left no exception.
    Failed,
    /// Recording or recalling raised a Prolog exception; it has been cleared
    /// from the engine.
    Exception(PrologException),
}

/// The error that the engine's answer stands for.
pub open spec fn record_error(verdict: Verdict) -> RecordError {
    match verdict {
        Verdict::Raise(e) => RecordError::Exception(e),
        _ => RecordError::Failed,
    }
}

/// The term with every variable renamed to the one `base` further on.
pub open spec fn shifted(t: Tree, base: nat) -> Tree
    decreases t,
{
    match t {
        Tree::Var(id) => Tree::Var((id + base) as usize),
        Tree::Pair(head, tail) => Tree::Pair(
            Box::new(shifted(*head, base)),
            Box::new(shifted(*tail, base)),
        ),
        Tree::Compound(name, args) => Tree::Compound(
            name,
            Seq::new(
                args.len(),
                |i: int|
                    if 0 <= i < args.len() {
                        shifted(args[i], base)
                    } else {
                        Tree::Nil
                    },
            ),
        ),
        Tree::Dict(tag, entries) => Tree::Dict(
            Box::new(shifted(*tag, base)),
            Seq::new(
                entries.len(),
                |i: int|
                    if 0 <= i < entries.len() {
                        (entries[i].0, shifted(entries[i].1, base))
                    } else {
                        (Key::Int(0), Tree::Nil)
                    },
            ),
        ),
        _ => t,
    }
}

/// Whether every variable has one `base` further on.
pub open spec fn shiftable(t: Tree, base: nat) -> bool
    decreases t,
{
    match t {
        Tree::Var(id) => id + base <= usize::MAX,
        Tree::Pair(head, tail) => shiftable(*head, base) && shiftable(*tail, base),
        Tree::Compound(name, args) => forall|i: int|
            0 <= i < args.len() ==> shiftable(#[trigger] args[i], base),
        Tree::Dict(tag, entries) => shiftable(*tag, base) && forall|i: int|
            0 <= i < entries.len() ==> shiftable((#[trigger] entries[i]).1, base),
        _ => true,
    }
}

/// Whether a term has no variables.
pub open spec fn ground(t: Tree) -> bool
    decreases t,
{
    match t {
        Tree::Var(id) => false,
        Tree::Pair(head, tail) => ground(*head) && ground(*tail),
        Tree::Compound(name, args) => forall|i: int|
            0 <= i < args.len() ==> ground(#[trigger] args[i]),
        Tree::Dict(tag, entries) => ground(*tag) && forall|i: int|
            0 <= i < entries.len() ==> ground((#[trigger] entries[i]).1),
        _ => true,
    }
}

/// Bindings with every variable renamed.
pub open spec fn shifted_bindings(trail: Seq<(usize, Tree)>, base: nat) -> Seq<(usize, Tree)> {
    Seq::new(trail.len(), |i: int| ((trail[i].0 + base) as usize, shifted(trail[i].1, base)))
}

/// Whether every variable in bindings has one `base` further on.
pub open spec fn shiftable_bindings(trail: Seq<(usize, Tree)>, base: nat) -> bool {
    forall|i: int|
        0 <= i < trail.len() ==> (#[trigger] trail[i]).0 + base <= usize::MAX && shiftable(
            trail[i].1,
            base,
        )
}

fn shift(data: &TermData, base: usize) -> (r: Option<TermData>)
    ensures
        match r {
            Some(moved) => shiftable(data@, base as nat) && moved@ == shifted(data@, base as nat),
            None => !shiftable(data@, base as nat),
        },
    decreases data,
{
    match data {
        TermData::Var(id) => {
            if *id <= usize::MAX - base {
                Some(TermData::Var(*id + base))
            } else {
                None
            }
        },
        TermData::Pair(head, tail) => {
            match (shift(head, base), shift(tail, base)) {
                (Some(first), Some(rest)) => Some(
                    TermData::Pair(Box::new(first), Box::new(rest)),
                ),
                _ => None,
            }
        },
        TermData::Compound(name, args) => {
            let mut out: Vec<TermData> = Vec::new();
            let mut i: usize = 0;
            while i < args.len()
                invariant
                    i <= args.len(),
                    out.len() == i,
                    *data == TermData::Compound(*name, *args),
                    forall|k: int|
                        0 <= k < i ==> (#[trigger] out@[k])@ == shifted(args@[k]@, base as nat),
                    forall|k: int| 0 <= k < i ==> shiftable((#[trigger] args@[k])@, base as nat),
                decreases args.len() - i,
            {
                assert(decreases_to!(*data => data->Compound_1));
                assert(decreases_to!(args => args@));
                assert(decreases_to!(args@ => args@[i as int]));
                match shift(&args[i], base) {
                    Some(moved) => {
                        out.push(moved);
                    },
                    None => {
                        assert((data@->Compound_1)[i as int] == args@[i as int]@);
                        return None;
                    },
                }
                i = i + 1;
            }
            let r = TermData::Compound(name.clone(), out);
            assert forall|k: int| 0 <= k < (data@->Compound_1).len() implies shiftable(
                #[trigger] (data@->Compound_1)[k],
                base as nat,
            ) by {
                assert((data@->Compound_1)[k] == args@[k]@);
            }
            assert(r@->Compound_1 =~= shifted(data@, base as nat)->Compound_1);
            Some(r)
        },
        TermData::Dict(tag, entries) => {
            let label: TermData = match shift(tag, base) {
                Some(label) => label,
                None => {
                    return None;
                },
            };
            let mut out: Vec<(KeyData, TermData)> = Vec::new();
            let mut i: usize = 0;
            while i < entries.len()
                invariant
                    i <= entries.len(),
                    out.len() == i,
                    *data == TermData::Dict(*tag, *entries),
                    forall|k: int|
                        0 <= k < i ==> (#[trigger] out@[k]).0@ == entries@[k].0@ && out@[k].1@
                            == shifted(entries@[k].1@, base as nat),
                    forall|k: int|
                        0 <= k < i ==> shiftable((#[trigger] entries@[k]).1@, base as nat),
                decreases entries.len() - i,
            {
                assert(decreases_to!(*data => data->Dict_1));
                assert(decreases_to!(entries => entries@));
                assert(decreases_to!(entries@ => entries@[i as int]));
                assert(decreases_to!(entries@[i as int] => entries@[i as int].1));
                match shift(&entries[i].1, base) {
                    Some(moved) => {
                        out.push((entries[i].0.copy(), moved));
                    },
                    None => {
                        assert((data@->Dict_1)[i as int].1 == entries@[i as int].1@);
                        return None;
                    },
                }
                i = i + 1;
            }
            let r = TermData::Dict(Box::new(label), out);
            assert forall|k: int| 0 <= k < (data@->Dict_1).len() implies shiftable(
                (#[trigger] (data@->Dict_1)[k]).1,
                base as nat,
            ) by {
                assert((data@->Dict_1)[k].1 == entries@[k].1@);
            }
            assert(r@->Dict_1 =~= shifted(data@, base as nat)->Dict_1);
            Some(r)
        },
        other => {
            let r: TermData = other.copy();
            Some(r)
        },
    }
}

/// A term copied out of its engine.
///
/// Unlike a [`Term`], whose value dies with its frame or query, a record holds
/// an independent copy that survives frame close, backtracking, and engine
/// switches, and may be recalled into any engine on any thread. Clones share
/// one identity.
#[derive(Debug)]
pub struct Record {
    raw: u64,
    data: TermData,
    bindings: Vec<(usize, TermData)>,
    vars: usize,
}

/// What a [`Record`] denotes: what tells it from others, the term, the bindings that hold for it, and how
/// many variables it may use.
#[verifier::ext_equal]
pub struct RecordView {
    pub identity: u64,
    pub tree: Tree,
    pub trail: Seq<(usize, Tree)>,
    pub vars: nat,
}

impl View for Record {
    type V = RecordView;

    closed spec fn view(&self) -> RecordView {
        RecordView {
            identity: self.raw,
            tree: self.data@,
            trail: bindings_view(self.bindings@),
            vars: self.vars as nat,
        }
    }
}

impl RecordView {
    /// Whether the record can be recalled under the bindings of `s`.
    pub open spec fn fits(self, s: State) -> bool {
        &&& shiftable(self.tree, s.fresh)
        &&& shiftable_bindings(self.trail, s.fresh)
    }

    /// The state in which a record was recalled into reference `raw`: its
    /// variables are new ones.
    pub open spec fn recalled(self, s: State, raw: usize) -> State {
        State {
            fresh: s.fresh + self.vars,
            ..s.with_recorded(shifted_bindings(self.trail, s.fresh)).with_ref(
                raw,
                shifted(self.tree, s.fresh),
            )
        }
    }
}

fn copy_bindings(bindings: &Vec<(usize, TermData)>) -> (r: Vec<(usize, TermData)>)
    ensures
        bindings_view(r@) == bindings_view(bindings@),
{
    let mut out: Vec<(usize, TermData)> = Vec::new();
    let mut i: usize = 0;
    while i < bindings.len()
        invariant
            i <= bindings@.len(),
            out@.len() == i,
            forall|k: int|
                0 <= k < i ==> (#[trigger] out@[k]).0 == bindings@[k].0 && out@[k].1@
                    == bindings@[k].1@,
        decreases bindings@.len() - i,
    {
        out.push((bindings[i].0, bindings[i].1.copy()));
        i = i + 1;
    }
    assert(bindings_view(out@) =~= bindings_view(bindings@));
    out
}

impl Clone for Record {
    fn clone(&self) -> (r: Self)
        ensures
            r@ == self@,
    {
        Record {
            raw: self.raw,
            data: self.data.copy(),
            bindings: copy_bindings(&self.bindings),
            vars: self.vars,
        }
    }
}

impl Record {
    /// What tells this record and its clones from other records.
    pub open spec fn identity(&self) -> u64 {
        self@.identity
    }

    /// Whether the two are clones of one record. Two records of the same term
    /// are different ones.
    pub fn ptr_eq(&self, other: &Record) -> (r: bool)
        ensures
            r == (self.identity() == other.identity()),
    {
        self.raw == other.raw
    }

    /// The number that clones of one record share.
    pub fn ptr_token(&self) -> (r: u64)
        ensures
            r == self.identity(),
    {
        self.raw
    }

    /// Recalls the recorded term into a fresh reference allocated from `ctx`.
    pub fn recall<'a, C: FliContext>(&self, ctx: &'a C, fli: &mut Fli) -> (r: Result<
        Term<'a>,
        RecordError,
    >)
        requires
            old(fli)@.at(ctx.place()),
            !(old(fli)@.verdict is Refuse),
        ensures
            old(fli)@.verdict is Raise ==> r == Err::<Term<'a>, RecordError>(
                record_error(old(fli)@.verdict),
            ) && grows(old(fli)@, final(fli)@) && final(fli)@.verdict is Grant,
            old(fli)@.verdict is Grant ==> match r {
                Ok(t) => {
                    &&& self@.fits(old(fli)@.with_new_var())
                    &&& t.raw() == old(fli)@.refs.len()
                    &&& t.gen() == old(fli)@.gen
                    &&& final(fli)@ == self@.recalled(old(fli)@.with_new_var(), t.raw())
                },
                Err(e) => e == RecordError::Failed && !self@.fits(old(fli)@.with_new_var())
                    && final(fli)@ == old(fli)@.with_new_var(),
            },
    {
        match ctx.term(fli) {
            Err(TermError::Exception(exception)) => Err(RecordError::Exception(exception)),
            Err(_) => Err(RecordError::Failed),
            Ok(dest) => {
                match self.recall_into(fli, dest) {
                    Ok(()) => Ok(dest),
                    Err(error) => Err(error),
                }
            },
        }
    }

    /// Recalls the recorded term into the existing reference `term`,
    /// overwriting whatever it held.
    pub fn recall_into(&self, fli: &mut Fli, term: Term<'_>) -> (r: Result<(), RecordError>)
        requires
            term.live(old(fli)@),
        ensures
            match r {
                Ok(_) => old(fli)@.verdict is Grant && self@.fits(old(fli)@) && final(fli)@
                    == self@.recalled(old(fli)@, term.raw()),
                Err(e) => e == record_error(old(fli)@.verdict) && final(fli)@
                    == old(fli)@.answered() && !(old(fli)@.verdict is Grant && self@.fits(
                    old(fli)@,
                )),
            },
    {
        match fli.take_verdict() {
            Verdict::Raise(exception) => {
                return Err(RecordError::Exception(exception));
            },
            Verdict::Refuse => {
                return Err(RecordError::Failed);
            },
            Verdict::Grant => {},
        }
        let base: usize = fli.var_count();
        let data: TermData = match shift(&self.data, base) {
            Some(data) => data,
            None => {
                return Err(RecordError::Failed);
            },
        };
        let ghost trail = bindings_view(self.bindings@);
        let mut more: Vec<(usize, TermData)> = Vec::new();
        let mut i: usize = 0;
        while i < self.bindings.len()
            invariant
                i <= self.bindings@.len(),
                more@.len() == i,
                trail == bindings_view(self.bindings@),
                self@.trail == trail,
                base == fli@.fresh,
                fli@ == old(fli)@.answered(),
                old(fli)@.verdict is Grant,
                forall|k: int|
                    0 <= k < i ==> (#[trigger] more@[k]).0 == trail[k].0 + base && more@[k].1@
                        == shifted(trail[k].1, base as nat),
                forall|k: int|
                    0 <= k < i ==> (#[trigger] trail[k]).0 + base <= usize::MAX && shiftable(
                        trail[k].1,
                        base as nat,
                    ),
            decreases self.bindings@.len() - i,
        {
            let id: usize = self.bindings[i].0;
            if id > usize::MAX - base {
                assert(trail[i as int].0 + base > usize::MAX);
                return Err(RecordError::Failed);
            }
            match shift(&self.bindings[i].1, base) {
                Some(moved) => {
                    more.push((id + base, moved));
                },
                None => {
                    assert(!shiftable(trail[i as int].1, base as nat));
                    return Err(RecordError::Failed);
                },
            }
            i = i + 1;
        }
        proof {
            assert(bindings_view(more@) =~= shifted_bindings(trail, base as nat));
        }
        bind_recorded(fli, more);
        fli.new_vars(self.vars);
        fli.set_ref(term.as_raw(), data);
        Ok(())
    }
}

impl<'f> Term<'f> {
    /// Records this term. The record is an independent copy bound to no scope;
    /// `handle` tells it from every other record.
    pub fn record(&self, fli: &mut Fli, handle: u64) -> (r: Result<Record, RecordError>)
        requires
            self.live(old(fli)@),
        ensures
            final(fli)@ == old(fli)@.answered(),
            if old(fli)@.verdict is Grant {
                r matches Ok(record) && record@ == (RecordView {
                    identity: handle,
                    tree: old(fli)@.refs[self.raw() as int],
                    trail: old(fli)@.trail,
                    vars: old(fli)@.fresh,
                })
            } else {
                r == Err::<Record, RecordError>(record_error(old(fli)@.verdict))
            },
    {
        match fli.take_verdict() {
            Verdict::Raise(exception) => Err(RecordError::Exception(exception)),
            Verdict::Refuse => Err(RecordError::Failed),
            Verdict::Grant => Ok(
                Record {
                    raw: handle,
                    data: fli.held(self.as_raw()).copy(),
                    bindings: fli.copy_trail(),
                    vars: fli.var_count(),
                },
            ),
        }
    }
}

/// A term without variables is recalled as it was.
pub proof fn ground_recalled_unchanged(t: Tree, base: nat)
    requires
        ground(t),
    ensures
        shifted(t, base) == t,
        shiftable(t, base),
    decreases t,
{
    match t {
        Tree::Pair(head, tail) => {
            ground_recalled_unchanged(*head, base);
            ground_recalled_unchanged(*tail, base);
        },
        Tree::Compound(name, args) => {
            assert forall|i: int| 0 <= i < args.len() implies shifted(#[trigger] args[i], base)
                == args[i] && shiftable(args[i], base) by {
                ground_recalled_unchanged(args[i], base);
            }
            assert(shifted(t, base)->Compound_1 =~= args);
        },
        Tree::Dict(tag, entries) => {
            ground_recalled_unchanged(*tag, base);
            assert forall|i: int| 0 <= i < entries.len() implies shifted(
                (#[trigger] entries[i]).1,
                base,
            ) == entries[i].1 && shiftable(entries[i].1, base) by {
                ground_recalled_unchanged(entries[i].1, base);
            }
            assert(shifted(t, base)->Dict_1 =~= entries);
        },
        _ => {},
    }
}

/// Renamed variables are bound where the original ones are.
proof fn shifted_binding(trail: Seq<(usize, Tree)>, base: nat, from: nat, id: usize)
    requires
        shiftable_bindings(trail, base),
        id + base <= usize::MAX,
    ensures
        binding(shifted_bindings(trail, base), from, (id + base) as usize) == binding(
            trail,
            from,
            id,
        ),
    decreases trail.len() - from,
{
    if from < trail.len() {
        assert(trail[from as int].0 + base <= usize::MAX);
        shifted_binding(trail, base, from + 1, id);
    }
}

/// Following renamed bindings from a renamed term leads to what following the
/// original ones from the original term leads to, renamed.
proof fn shifted_walk(trail: Seq<(usize, Tree)>, base: nat, from: nat, t: Tree)
    requires
        shiftable_bindings(trail, base),
        shiftable(t, base),
    ensures
        walk(shifted_bindings(trail, base), from, shifted(t, base)) == shifted(
            walk(trail, from, t),
            base,
        ),
    decreases trail.len() - from,
{
    if let Tree::Var(id) = t {
        shifted_binding(trail, base, from, id);
        binding_some(trail, from, id);
        if let Some(i) = binding(trail, from, id) {
            assert(shiftable(trail[i as int].1, base));
            shifted_walk(trail, base, i + 1, trail[i as int].1);
        }
    }
}

/// Behind bindings of other variables, bindings are found as before.
proof fn binding_behind(
    front: Seq<(usize, Tree)>,
    back: Seq<(usize, Tree)>,
    from: nat,
    id: usize,
)
    requires
        from <= front.len(),
        forall|i: int| from <= i < front.len() ==> (#[trigger] front[i]).0 != id,
    ensures
        binding(front + back, from, id) == match binding(back, 0, id) {
            Some(i) => Some(front.len() + i),
            None => None,
        },
    decreases front.len() - from,
{
    if from < front.len() {
        assert((front + back)[from as int] == front[from as int]);
        binding_behind(front, back, from + 1, id);
    } else {
        binding_within(front, back, 0, id);
    }
}

proof fn binding_within(
    front: Seq<(usize, Tree)>,
    back: Seq<(usize, Tree)>,
    from: nat,
    id: usize,
)
    requires
        from <= back.len(),
    ensures
        binding(front + back, front.len() + from, id) == match binding(back, from, id) {
            Some(i) => Some(front.len() + i),
            None => None,
        },
    decreases back.len() - from,
{
    if from < back.len() {
        assert((front + back)[(front.len() + from) as int] == back[from as int]);
        binding_within(front, back, from + 1, id);
    }
}

/// Following bindings from within the later ones is following these.
proof fn walk_within(front: Seq<(usize, Tree)>, back: Seq<(usize, Tree)>, from: nat, t: Tree)
    requires
        from <= back.len(),
    ensures
        walk(front + back, front.len() + from, t) == walk(back, from, t),
    decreases back.len() - from,
{
    if let Tree::Var(id) = t {
        binding_within(front, back, from, id);
        binding_some(back, from, id);
        if let Some(i) = binding(back, from, id) {
            walk_within(front, back, i + 1, back[i as int].1);
        }
    }
}

/// Bindings of new and different variables are all added.
proof fn extended_by_new(trail: Seq<(usize, Tree)>, more: Seq<(usize, Tree)>)
    requires
        forall|i: int, j: int|
            0 <= i < trail.len() && 0 <= j < more.len() ==> (#[trigger] trail[i]).0 != (
            #[trigger] more[j]).0,
        forall|i: int, j: int|
            0 <= i < j < more.len() ==> (#[trigger] more[i]).0 != (#[trigger] more[j]).0,
    ensures
        extended(trail, more) == trail + more,
    decreases more.len(),
{
    if more.len() > 0 {
        let front = more.drop_last();
        assert forall|i: int, j: int|
            0 <= i < trail.len() && 0 <= j < front.len() implies (#[trigger] trail[i]).0 != (
        #[trigger] front[j]).0 by {
            assert(trail[i].0 != more[j].0);
        }
        assert forall|i: int, j: int| 0 <= i < j < front.len() implies (#[trigger] front[i]).0 != (
        #[trigger] front[j]).0 by {
            assert(more[i].0 != more[j].0);
        }
        extended_by_new(trail, front);
        let before = trail + front;
        binding_none(before, 0, more.last().0);
        assert forall|i: int| 0 <= i < before.len() implies (#[trigger] before[i]).0
            != more.last().0 by {
            if i < trail.len() {
                assert(trail[i].0 != more[more.len() - 1].0);
            } else {
                assert(more[i - trail.len()].0 != more[more.len() - 1].0);
            }
        }
        assert(before.push(more.last()) =~= trail + more);
    } else {
        assert(trail + more =~= trail);
    }
}

/// Recalling a record gives the recorded term back, with new variables in place
/// of the recorded ones: each part `u` of what was recorded stands for what it
/// stood for, renamed. The bindings of a record bind different variables, and
/// no variable that is yet to come is bound.
pub proof fn recall_gives_recorded(record: RecordView, s: State, raw: usize, u: Tree)
    requires
        record.fits(s),
        forall|i: int, j: int|
            0 <= i < j < record.trail.len() ==> (#[trigger] record.trail[i]).0 != (
            #[trigger] record.trail[j]).0,
        forall|i: int| 0 <= i < s.trail.len() ==> (#[trigger] s.trail[i]).0 < s.fresh,
        raw < s.refs.len(),
        shiftable(u, s.fresh),
    ensures
        record.recalled(s, raw).refs[raw as int] == shifted(record.tree, s.fresh),
        resolve(record.recalled(s, raw).trail, shifted(u, s.fresh)) == shifted(
            resolve(record.trail, u),
            s.fresh,
        ),
        record.recalled(s, raw).value(raw) == shifted(
            resolve(record.trail, record.tree),
            s.fresh,
        ),
{
    let more = shifted_bindings(record.trail, s.fresh);
    assert forall|i: int, j: int|
        0 <= i < s.trail.len() && 0 <= j < more.len() implies (#[trigger] s.trail[i]).0 != (
    #[trigger] more[j]).0 by {
        assert(record.trail[j].0 + s.fresh <= usize::MAX);
    }
    assert forall|i: int, j: int| 0 <= i < j < more.len() implies (#[trigger] more[i]).0 != (
    #[trigger] more[j]).0 by {
        assert(record.trail[i].0 != record.trail[j].0);
        assert(record.trail[i].0 + s.fresh <= usize::MAX);
        assert(record.trail[j].0 + s.fresh <= usize::MAX);
    }
    extended_by_new(s.trail, more);
    recalled_resolves(record, s, u);
    recalled_resolves(record, s, record.tree);
}

proof fn recalled_resolves(record: RecordView, s: State, u: Tree)
    requires
        record.fits(s),
        forall|i: int| 0 <= i < s.trail.len() ==> (#[trigger] s.trail[i]).0 < s.fresh,
        shiftable(u, s.fresh),
    ensures
        resolve(
            s.trail + shifted_bindings(record.trail, s.fresh),
            shifted(u, s.fresh),
        ) == shifted(resolve(record.trail, u), s.fresh),
{
    let more = shifted_bindings(record.trail, s.fresh);
    shifted_walk(record.trail, s.fresh, 0, u);
    if let Tree::Var(id) = u {
        let renamed = (id + s.fresh) as usize;
        binding_behind(s.trail, more, 0, renamed);
        binding_some(more, 0, renamed);
        if let Some(i) = binding(more, 0, renamed) {
            walk_within(s.trail, more, i + 1, more[i as int].1);
            assert((s.trail + more)[(s.trail.len() + i) as int] == more[i as int]);
        }
    }
}

/// A term recorded and recalled in one engine: the reference stands for the
/// recorded term with new variables, and for the very term if it has none.
pub proof fn recorded_then_recalled(s: State, from: usize, raw: usize, identity: u64)
    requires
        s.valid(),
        from < s.refs.len(),
        raw < s.refs.len(),
        (RecordView { identity, tree: s.refs[from as int], trail: s.trail, vars: s.fresh }).fits(s),
    ensures
        ({
            let record = RecordView { identity, tree: s.refs[from as int], trail: s.trail, vars: s.fresh };
            &&& record.recalled(s, raw).value(raw) == shifted(s.value(from), s.fresh)
            &&& ground(s.value(from)) ==> record.recalled(s, raw).value(raw) == s.value(from)
        }),
{
    let record = RecordView { identity, tree: s.refs[from as int], trail: s.trail, vars: s.fresh };
    recall_gives_recorded(record, s, raw, record.tree);
    if ground(s.value(from)) {
        ground_recalled_unchanged(s.value(from), s.fresh);
    }
}

/// Recalling a record leads from a valid state to a valid state.
pub proof fn recall_keeps_validity(record: RecordView, s: State, raw: usize)
    requires
        s.valid(),
        record.fits(s),
        followed(record.trail),
        forall|i: int, j: int|
            0 <= i < j < record.trail.len() ==> (#[trigger] record.trail[i]).0 != (
            #[trigger] record.trail[j]).0,
        forall|i: int|
            0 <= i < record.trail.len() ==> (#[trigger] record.trail[i]).0 < record.vars,
        raw < s.refs.len(),
    ensures
        record.recalled(s, raw).valid(),
{
    let more = shifted_bindings(record.trail, s.fresh);
    let all = s.trail + more;
    assert forall|j: int| 0 <= j < more.len() implies (#[trigger] more[j]).0 == record.trail[j].0
        + s.fresh && more[j].1 == shifted(record.trail[j].1, s.fresh) by {
        assert(record.trail[j].0 + s.fresh <= usize::MAX);
    }
    assert forall|i: int, j: int| 0 <= i < j < more.len() implies (#[trigger] more[i]).0 != (
    #[trigger] more[j]).0 by {
        assert(record.trail[i].0 != record.trail[j].0);
    }
    extended_by_new(s.trail, more);
    assert forall|i: int, j: int| 0 <= i < j < all.len() implies (#[trigger] all[i]).0 != (
    #[trigger] all[j]).0 by {
        if i >= s.trail.len() {
            assert(more[i - s.trail.len()].0 != more[j - s.trail.len()].0);
        } else if j < s.trail.len() {
            assert(s.trail[i].0 != s.trail[j].0);
        } else {
            assert(s.trail[i].0 < s.fresh);
            assert(all[j] == more[j - s.trail.len()]);
        }
    }
    assert forall|i: int, k: int| 0 <= k <= i < all.len() && (#[trigger] all[i]).1 is Var implies (
    #[trigger] all[k]).0 != all[i].1->Var_0 by {
        if i < s.trail.len() {
            assert(s.trail[i].1 is Var);
            assert(s.trail[k].0 != s.trail[i].1->Var_0);
        } else {
            let j = i - s.trail.len();
            assert(all[i] == more[j]);
            assert(record.trail[j].1 is Var);
            assert(shiftable(record.trail[j].1, s.fresh));
            if k < s.trail.len() {
                assert(s.trail[k].0 < s.fresh);
            } else {
                let m = k - s.trail.len();
                assert(all[k] == more[m]);
                assert(record.trail[m].0 != record.trail[j].1->Var_0);
            }
        }
    }
}

} // verus!
