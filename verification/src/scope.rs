//! Per-thread activation bookkeeping for terms, frames and queries.
//!
//! Three hazards are invisible to the borrow checker: sibling frames or
//! queries closed out of order, allocation through a context that is not the
//! innermost one, and use of a handle after another engine became current.
//! Every operation states the activation it needs, and the tests in this
//! module decide whether it holds.

use vstd::prelude::*;

use crate::fli::{Fli, State};

verus! {

/// A point in the thread's engine and scope history: which engine activation
/// is current (`gen`) and how many frame and query scopes are open within it
/// (`depth`).
#[derive(Debug, Clone, Copy, PartialEq, Eq, Structural)]
pub struct Activation {
    pub gen: u64,
    pub depth: usize,
}

/// Mints engine generations, so that a generation observed in one activation
/// is never confused with a later one.
pub struct GenMint {
    next: u64,
}

impl GenMint {
    /// The generation that comes next.
    pub closed spec fn upcoming(&self) -> u64 {
        self.next
    }

    /// A mint whose first generation is 1; generation 0 stands for a thread
    /// without an engine.
    pub fn new() -> (r: GenMint)
        ensures
            r.upcoming() == 1,
    {
        GenMint { next: 1 }
    }

    /// Whether there is a generation left to mint.
    pub fn can_mint(&self) -> (r: bool)
        ensures
            r == (self.upcoming() < u64::MAX),
    {
        self.next < u64::MAX
    }

    /// Mints a generation that this mint has not given out before.
    pub fn mint(&mut self) -> (gen: u64)
        requires
            old(self).upcoming() < u64::MAX,
        ensures
            gen == old(self).upcoming(),
            final(self).upcoming() == gen + 1,
    {
        let gen: u64 = self.next;
        self.next = gen + 1;
        gen
    }
}

/// The generations that one mint gives out, one after another and to whichever
/// thread, are different from each other and from 0.
pub proof fn generations_are_distinct(gens: Seq<u64>, upcoming: Seq<u64>)
    requires
        upcoming.len() == gens.len() + 1,
        upcoming[0] >= 1,
        forall|i: int|
            0 <= i < gens.len() ==> #[trigger] gens[i] == upcoming[i] && upcoming[i + 1] == gens[i]
                + 1,
    ensures
        forall|i: int| 0 <= i < gens.len() ==> #[trigger] gens[i] != 0,
        forall|i: int, j: int|
            0 <= i < j < gens.len() ==> #[trigger] gens[i] < #[trigger] gens[j],
    decreases gens.len(),
{
    if gens.len() > 0 {
        let front = gens.drop_last();
        let ups = upcoming.drop_last();
        assert forall|i: int| 0 <= i < front.len() implies #[trigger] front[i] == ups[i] && ups[i
            + 1] == front[i] + 1 by {
            assert(gens[i] == upcoming[i]);
        }
        generations_are_distinct(front, ups);
        let last = gens.len() - 1;
        assert(gens[last] == upcoming[last]);
        assert forall|i: int, j: int| 0 <= i < j < gens.len() implies #[trigger] gens[i]
            < #[trigger] gens[j] by {
            if j < last {
                assert(front[i] < front[j]);
            } else if i < last - 1 {
                assert(front[i] < front[last - 1]);
                assert(gens[last - 1] == upcoming[last - 1]);
            } else {
                assert(gens[last - 1] == upcoming[last - 1]);
            }
        }
        assert forall|i: int| 0 <= i < gens.len() implies #[trigger] gens[i] != 0 by {
            if i < last {
                assert(front[i] != 0);
            } else if last > 0 {
                assert(front[last - 1] != 0);
                assert(gens[last - 1] == upcoming[last - 1]);
            }
        }
    }
}

/// The calling thread's current activation.
pub fn current(fli: &Fli) -> (now: Activation)
    ensures
        fli@.at(now),
{
    fli.activation()
}

/// Whether generation `gen` is the thread's current engine activation; what
/// every operation on a term asks of it.
pub fn is_current_gen(fli: &Fli, gen: u64) -> (r: bool)
    ensures
        r == (fli@.gen == gen),
{
    fli.activation().gen == gen
}

/// Whether the context with activation `ctx` is the innermost open scope of
/// the current activation; what every allocation and every new scope asks of
/// its context.
pub fn is_innermost(fli: &Fli, ctx: Activation) -> (r: bool)
    ensures
        r == fli@.at(ctx),
{
    fli.activation() == ctx
}

/// Whether the scope opened at `depth` within generation `gen` is the
/// innermost open one.
pub open spec fn closable(now: State, gen: u64, depth: usize) -> bool {
    now.gen == gen && now.marks.len() == depth + 1
}

/// Decides [`closable`].
pub fn is_closable(fli: &Fli, gen: u64, depth: usize) -> (r: bool)
    ensures
        r == closable(fli@, gen, depth),
{
    let now: Activation = fli.activation();
    now.gen == gen && now.depth > 0 && now.depth - 1 == depth
}

/// Registers a newly opened scope of the context with activation `ctx`, and
/// returns the depth it must be closed at.
pub fn open_scope(fli: &mut Fli, ctx: Activation) -> (depth: usize)
    requires
        old(fli)@.at(ctx),
    ensures
        depth == ctx.depth,
        final(fli)@ == old(fli)@.opened(),
{
    fli.open_mark();
    ctx.depth
}

/// Closes the scope opened at `depth` within generation `gen`: its term
/// references are gone, and so are its bindings unless `keep`.
pub fn close_scope(fli: &mut Fli, gen: u64, depth: usize, keep: bool)
    requires
        closable(old(fli)@, gen, depth),
    ensures
        final(fli)@ == old(fli)@.closed(keep),
        final(fli)@.at(Activation { gen, depth }),
{
    fli.close_mark(keep);
}

/// Closes the scope opened at `depth` within generation `gen` and undoes its
/// bindings; leaves everything as it is, and returns `false`, if that scope
/// is not the innermost open one.
pub fn try_close_scope(fli: &mut Fli, gen: u64, depth: usize) -> (r: bool)
    ensures
        r == closable(old(fli)@, gen, depth),
        r ==> final(fli)@ == old(fli)@.closed(false),
        !r ==> final(fli)@ == old(fli)@,
{
    if is_closable(fli, gen, depth) {
        fli.close_mark(false);
        true
    } else {
        false
    }
}

} // verus!
