//! Engines and their attachment to the calling thread.

use std::marker::PhantomData;
use std::rc::Rc;

use vstd::prelude::*;

use crate::call::ScopedCallError;
use crate::exception::Verdict;
use crate::exchange::Event;
use crate::fli::{Fli, Stacks, State};
use crate::runtime::Runtime;
use crate::scope::Activation;
use crate::sealed::Sealed;
use crate::term::FliContext;

verus! {

/// Errors from creating an engine.
#[derive(Debug, Clone, Copy, PartialEq, Eq, Structural)]
pub enum EngineCreateError {
    /// Engine creation or thread attachment failed, e.g. because of resource
    /// limits.
    Failed,
    /// The engine was built without native-thread support.
    ThreadingUnavailable,
}

/// Errors from attaching an engine.
#[derive(Debug, Clone, Copy, PartialEq, Eq, Structural)]
pub enum AttachError {
    /// The engine no longer exists.
    Invalid,
    /// The engine is attached to another thread.
    InUse,
    /// The calling thread already has an engine attached; nesting requires
    /// [`Engine::with_attached_within`].
    AlreadyAttached,
    /// The given witness is not the calling thread's innermost attachment.
    NotInnermost,
    /// The status code of the attachment is not known.
    Unknown(i32),
}

/// Creation attributes for an [`Engine`]. Create this non-exhaustive value
/// with [`EngineAttributes::default`] and then set the desired fields.
#[derive(Debug, Clone, Copy, PartialEq, Eq, Hash, Structural)]
#[non_exhaustive]
pub struct EngineAttributes {
    /// Total stack limit in bytes. `None` uses the default.
    pub stack_limit: Option<usize>,
    /// Total tabling space limit in bytes. `None` uses the default.
    pub table_space: Option<usize>,
}

impl Default for EngineAttributes {
    fn default() -> (r: Self)
        ensures
            r.stack_limit is None,
            r.table_space is None,
    {
        EngineAttributes { stack_limit: None, table_space: None }
    }
}

/// The limits that an engine is created with; 0 uses the default.
#[derive(Debug, Clone, Copy, PartialEq, Eq, Structural)]
pub struct ThreadLimits {
    pub stack_limit: usize,
    pub table_space: usize,
}

impl EngineAttributes {
    /// The limits to create an engine with, or `None` where all attributes
    /// are the default ones.
    pub fn limits(&self) -> (r: Option<ThreadLimits>)
        ensures
            r == if self.stack_limit is None && self.table_space is None {
                None
            } else {
                Some(
                    ThreadLimits {
                        stack_limit: match self.stack_limit {
                            Some(n) => n,
                            None => 0,
                        },
                        table_space: match self.table_space {
                            Some(n) => n,
                            None => 0,
                        },
                    },
                )
            },
    {
        match (self.stack_limit, self.table_space) {
            (None, None) => None,
            (stack_limit, table_space) => Some(
                ThreadLimits {
                    stack_limit: stack_limit.unwrap_or(0),
                    table_space: table_space.unwrap_or(0),
                },
            ),
        }
    }
}

/// What making an engine current on the calling thread led to.
#[derive(Debug, Clone, Copy, PartialEq, Eq, Structural)]
pub enum EngineStatus {
    /// The engine is current.
    Current,
    /// There is no such engine.
    Invalid,
    /// The engine is current on another thread.
    InUse,
    /// A status code that is none of these.
    Other(i32),
}

/// The error of an attachment, if it failed.
pub open spec fn attach_error(status: EngineStatus) -> Option<AttachError> {
    match status {
        EngineStatus::Current => None,
        EngineStatus::Invalid => Some(AttachError::Invalid),
        EngineStatus::InUse => Some(AttachError::InUse),
        EngineStatus::Other(code) => Some(AttachError::Unknown(code)),
    }
}

/// The stacks of an engine that is not attached: no scope is open on them.
struct Detached {
    stacks: Stacks,
}

impl Detached {
    #[verifier::type_invariant]
    closed spec fn settled(self) -> bool {
        self.stacks.put_in(0, 0, Verdict::Grant, Seq::empty()).marks.len() == 0
    }

    /// The stacks of an engine on which nothing has been done.
    fn new() -> (r: Detached)
        ensures
            forall|gen: u64, newest: u64, verdict: Verdict, log: Seq<Event>| #[trigger]
                r.stacks.put_in(gen, newest, verdict, log) == (State {
                    gen,
                    newest,
                    refs: Seq::empty(),
                    trail: Seq::empty(),
                    marks: Seq::empty(),
                    fresh: 0,
                    verdict,
                    log,
                }),
    {
        Detached { stacks: Stacks::new() }
    }
}

/// An owned engine.
///
/// A freshly created engine is not attached to any thread. Use
/// [`Engine::with_attached`] to bind it to the calling thread for the
/// duration of a callback.
pub struct Engine<'r> {
    rest: Detached,
    runtime: PhantomData<&'r Runtime>,
}

/// A callback-scoped witness that an engine is attached to the current
/// thread. It keeps what was current before, to be restored afterwards.
pub struct AttachedEngine<'e> {
    at: Activation,
    saved: u64,
    outer: Stacks,
    borrow: PhantomData<(&'e (), Rc<()>)>,
}

impl<'e> Sealed for AttachedEngine<'e> {
    closed spec fn place(&self) -> Activation {
        self.at
    }

    fn activation(&self) -> (r: Activation) {
        self.at
    }
}

impl<'e> FliContext for AttachedEngine<'e> {

}

impl<'r> Engine<'r> {
    /// The engine state while this engine is current.
    pub closed spec fn inside(&self, gen: u64, newest: u64, verdict: Verdict, log: Seq<Event>) -> State {
        self.rest.stacks.put_in(gen, newest, verdict, log)
    }

    /// A new, unattached engine, if it could be created.
    pub fn new(_runtime: &'r Runtime, created: bool) -> (r: Result<Self, EngineCreateError>)
        ensures
            match r {
                Ok(engine) => created && forall|gen: u64, newest: u64, verdict: Verdict, log: Seq<Event>|
                    #[trigger]
                    engine.inside(gen, newest, verdict, log) == (State {
                        gen,
                        newest,
                        refs: Seq::empty(),
                        trail: Seq::empty(),
                        marks: Seq::empty(),
                        fresh: 0,
                        verdict,
                        log,
                    }),
                Err(e) => !created && e == EngineCreateError::Failed,
            },
    {
        if created {
            Ok(Engine { rest: Detached::new(), runtime: PhantomData })
        } else {
            Err(EngineCreateError::Failed)
        }
    }

    /// Attaches this engine to the calling thread, on which no engine may be
    /// attached.
    fn attach<'e>(&mut self, fli: &mut Fli, gen: u64, status: EngineStatus) -> (r: Result<
        AttachedEngine<'e>,
        AttachError,
    >)
        ensures
            attached(
                *old(self),
                *final(self),
                old(fli)@,
                final(fli)@,
                gen,
                if old(fli)@.gen != 0 {
                    Some(AttachError::AlreadyAttached)
                } else {
                    attach_error(status)
                },
                r,
            ),
    {
        if fli.activation().gen != 0 {
            return Err(AttachError::AlreadyAttached);
        }
        self.attach_unchecked(fli, gen, status)
    }

    /// Attaches this engine to the calling thread, nested inside the
    /// attachment `outer`.
    fn attach_within<'e>(
        &mut self,
        fli: &mut Fli,
        outer: &AttachedEngine<'_>,
        gen: u64,
        status: EngineStatus,
    ) -> (r: Result<AttachedEngine<'e>, AttachError>)
        ensures
            attached(
                *old(self),
                *final(self),
                old(fli)@,
                final(fli)@,
                gen,
                if old(fli)@.gen != outer.place().gen {
                    Some(AttachError::NotInnermost)
                } else {
                    attach_error(status)
                },
                r,
            ),
    {
        if fli.activation().gen != outer.at.gen {
            return Err(AttachError::NotInnermost);
        }
        self.attach_unchecked(fli, gen, status)
    }

    fn attach_unchecked<'e>(&mut self, fli: &mut Fli, gen: u64, status: EngineStatus) -> (r: Result<
        AttachedEngine<'e>,
        AttachError,
    >)
        ensures
            attached(
                *old(self),
                *final(self),
                old(fli)@,
                final(fli)@,
                gen,
                attach_error(status),
                r,
            ),
    {
        match status {
            EngineStatus::Current => {
                let saved: u64 = fli.activation().gen;
                let mut rest: Detached = Detached::new();
                std::mem::swap(&mut rest, &mut self.rest);
                proof {
                    use_type_invariant(&rest);
                    rest.stacks.put_in_uniform(0, 0, Verdict::Grant, Seq::empty());
                }
                let outer: Stacks = fli.switch(gen, gen, rest.stacks);
                Ok(AttachedEngine { at: fli.activation(), saved, outer, borrow: PhantomData })
            },
            EngineStatus::Invalid => Err(AttachError::Invalid),
            EngineStatus::InUse => Err(AttachError::InUse),
            EngineStatus::Other(code) => Err(AttachError::Unknown(code)),
        }
    }

    /// Ends an attachment of this engine and restores what was current
    /// before.
    fn detach(&mut self, fli: &mut Fli, guard: AttachedEngine<'_>)
        requires
            old(fli)@.gen == guard.place().gen,
            old(fli)@.marks.len() == 0,
        ensures
            final(fli)@ == guard.restored(old(fli)@),
            forall|gen: u64, newest: u64, verdict: Verdict, log: Seq<Event>| #[trigger]
                final(self).inside(gen, newest, verdict, log) == (State {
                    gen,
                    newest,
                    verdict,
                    log,
                    ..old(fli)@
                }),
    {
        let ghost before = fli@;
        let newest: u64 = fli.newest();
        let stacks: Stacks = fli.switch(guard.saved, newest, guard.outer);
        proof {
            stacks.put_in_uniform(before.gen, newest, Verdict::Grant, Seq::empty());
        }
        let mut rest: Detached = Detached { stacks };
        std::mem::swap(&mut rest, &mut self.rest);
        proof {
            assert forall|gen: u64, newest: u64, verdict: Verdict, log: Seq<Event>| #[trigger]
                self.inside(gen, newest, verdict, log) == (State {
                gen,
                newest,
                verdict,
                log,
                ..before
            }) by {
                self.rest.stacks.put_in_uniform(before.gen, newest, verdict, log);
            }
        }
    }

    /// Attaches this engine for the duration of `body`, under the fresh
    /// generation `gen`. The previous engine is restored afterwards.
    pub fn with_attached<R, F: for<'a> FnOnce(&mut Fli, &'a AttachedEngine<'a>) -> R>(
        &mut self,
        fli: &mut Fli,
        gen: u64,
        status: EngineStatus,
        body: F,
    ) -> (r: Result<R, AttachError>)
        requires
            old(fli)@.newest < gen,
            forall|f: &mut Fli, a: &AttachedEngine|
                (*f)@ == old(self).inside(gen, gen, old(fli)@.verdict, old(fli)@.log) && a.place() == (
                Activation { gen, depth: 0 }) && (*f)@.at(a.place()) ==> call_requires(body, (f, a)),
            forall|f: &mut Fli, a: &AttachedEngine, v: R|
                (*f)@ == old(self).inside(gen, gen, old(fli)@.verdict, old(fli)@.log) && #[trigger]
                call_ensures(body, (f, a), v) ==> (*f)@.leads_to((*final(f))@),
        ensures
            match (if old(fli)@.gen != 0 {
                Some(AttachError::AlreadyAttached)
            } else {
                attach_error(status)
            }) {
                Some(e) => r == Err::<R, AttachError>(e) && final(fli)@ == old(fli)@ && *final(self)
                    == *old(self),
                None => exists|f: &mut Fli, a: &AttachedEngine, v: R|
                    {
                        &&& (*f)@ == old(self).inside(gen, gen, old(fli)@.verdict, old(fli)@.log)
                        &&& a.place() == (Activation { gen, depth: 0 })
                        &&& (*f)@.at(a.place())
                        &&& #[trigger] call_ensures(body, (f, a), v)
                        &&& r == Ok::<R, AttachError>(v)
                        &&& final(fli)@ == (State {
                            newest: (*final(f))@.newest,
                            verdict: (*final(f))@.verdict,
                            log: (*final(f))@.log,
                            ..old(fli)@
                        })
                        &&& keeps_stacks(*final(self), (*final(f))@)
                    },
            },
    {
        proof {
            self.rest.stacks.put_in_uniform(0, gen, fli@.verdict, fli@.log);
        }
        match self.attach(fli, gen, status) {
            Err(error) => Err(error),
            Ok(guard) => {
                let result: R = body(fli, &guard);
                let ghost inner = fli@;
                self.detach(fli, guard);
                assert(keeps_stacks(*self, inner));
                Ok(result)
            },
        }
    }

    /// Fallible counterpart to [`Engine::with_attached`].
    pub fn try_with_attached<R, E, F: for<'a> FnOnce(&mut Fli, &'a AttachedEngine<'a>) -> Result<R, E>>(
        &mut self,
        fli: &mut Fli,
        gen: u64,
        status: EngineStatus,
        body: F,
    ) -> (r: Result<R, ScopedCallError<AttachError, E>>)
        requires
            old(fli)@.newest < gen,
            forall|f: &mut Fli, a: &AttachedEngine|
                (*f)@ == old(self).inside(gen, gen, old(fli)@.verdict, old(fli)@.log) && a.place() == (
                Activation { gen, depth: 0 }) && (*f)@.at(a.place()) ==> call_requires(body, (f, a)),
            forall|f: &mut Fli, a: &AttachedEngine, v: Result<R, E>|
                (*f)@ == old(self).inside(gen, gen, old(fli)@.verdict, old(fli)@.log) && #[trigger]
                call_ensures(body, (f, a), v) ==> (*f)@.leads_to((*final(f))@),
        ensures
            match (if old(fli)@.gen != 0 {
                Some(AttachError::AlreadyAttached)
            } else {
                attach_error(status)
            }) {
                Some(e) => r == Err::<R, ScopedCallError<AttachError, E>>(
                    ScopedCallError::Operation(e),
                ) && final(fli)@ == old(fli)@ && *final(self)
                    == *old(self),
                None => exists|f: &mut Fli, a: &AttachedEngine, v: Result<R, E>|
                    {
                        &&& (*f)@ == old(self).inside(gen, gen, old(fli)@.verdict, old(fli)@.log)
                        &&& a.place() == (Activation { gen, depth: 0 })
                        &&& (*f)@.at(a.place())
                        &&& #[trigger] call_ensures(body, (f, a), v)
                        &&& match v {
                            Ok(x) => r == Ok::<R, ScopedCallError<AttachError, E>>(x),
                            Err(e) => r == Err::<R, ScopedCallError<AttachError, E>>(
                                ScopedCallError::Body(e),
                            ),
                        }
                        &&& final(fli)@ == (State {
                            newest: (*final(f))@.newest,
                            verdict: (*final(f))@.verdict,
                            log: (*final(f))@.log,
                            ..old(fli)@
                        })
                        &&& keeps_stacks(*final(self), (*final(f))@)
                    },
            },
    {
        proof {
            self.rest.stacks.put_in_uniform(0, gen, fli@.verdict, fli@.log);
        }
        match self.attach(fli, gen, status) {
            Err(error) => Err(ScopedCallError::Operation(error)),
            Ok(guard) => {
                let result: Result<R, E> = body(fli, &guard);
                let ghost inner = fli@;
                self.detach(fli, guard);
                assert(keeps_stacks(*self, inner));
                match result {
                    Ok(value) => Ok(value),
                    Err(error) => Err(ScopedCallError::Body(error)),
                }
            },
        }
    }

    /// Attaches this engine within the attachment `outer` for the duration of
    /// `body`.
    pub fn with_attached_within<R, F: for<'a> FnOnce(&mut Fli, &'a AttachedEngine<'a>) -> R>(
        &mut self,
        fli: &mut Fli,
        outer: &AttachedEngine<'_>,
        gen: u64,
        status: EngineStatus,
        body: F,
    ) -> (r: Result<R, AttachError>)
        requires
            old(fli)@.newest < gen,
            forall|f: &mut Fli, a: &AttachedEngine|
                (*f)@ == old(self).inside(gen, gen, old(fli)@.verdict, old(fli)@.log) && a.place() == (
                Activation { gen, depth: 0 }) && (*f)@.at(a.place()) ==> call_requires(body, (f, a)),
            forall|f: &mut Fli, a: &AttachedEngine, v: R|
                (*f)@ == old(self).inside(gen, gen, old(fli)@.verdict, old(fli)@.log) && #[trigger]
                call_ensures(body, (f, a), v) ==> (*f)@.leads_to((*final(f))@),
        ensures
            match (if old(fli)@.gen != outer.place().gen {
                Some(AttachError::NotInnermost)
            } else {
                attach_error(status)
            }) {
                Some(e) => r == Err::<R, AttachError>(e) && final(fli)@ == old(fli)@ && *final(self)
                    == *old(self),
                None => exists|f: &mut Fli, a: &AttachedEngine, v: R|
                    {
                        &&& (*f)@ == old(self).inside(gen, gen, old(fli)@.verdict, old(fli)@.log)
                        &&& a.place() == (Activation { gen, depth: 0 })
                        &&& (*f)@.at(a.place())
                        &&& #[trigger] call_ensures(body, (f, a), v)
                        &&& r == Ok::<R, AttachError>(v)
                        &&& final(fli)@ == (State {
                            newest: (*final(f))@.newest,
                            verdict: (*final(f))@.verdict,
                            log: (*final(f))@.log,
                            ..old(fli)@
                        })
                        &&& keeps_stacks(*final(self), (*final(f))@)
                    },
            },
    {
        proof {
            self.rest.stacks.put_in_uniform(0, gen, fli@.verdict, fli@.log);
        }
        match self.attach_within(fli, outer, gen, status) {
            Err(error) => Err(error),
            Ok(guard) => {
                let result: R = body(fli, &guard);
                let ghost inner = fli@;
                self.detach(fli, guard);
                assert(keeps_stacks(*self, inner));
                Ok(result)
            },
        }
    }

    /// Fallible counterpart to [`Engine::with_attached_within`].
    pub fn try_with_attached_within<R, E, F: for<'a> FnOnce(&mut Fli, &'a AttachedEngine<'a>) -> Result<R, E>>(
        &mut self,
        fli: &mut Fli,
        outer: &AttachedEngine<'_>,
        gen: u64,
        status: EngineStatus,
        body: F,
    ) -> (r: Result<R, ScopedCallError<AttachError, E>>)
        requires
            old(fli)@.newest < gen,
            forall|f: &mut Fli, a: &AttachedEngine|
                (*f)@ == old(self).inside(gen, gen, old(fli)@.verdict, old(fli)@.log) && a.place() == (
                Activation { gen, depth: 0 }) && (*f)@.at(a.place()) ==> call_requires(body, (f, a)),
            forall|f: &mut Fli, a: &AttachedEngine, v: Result<R, E>|
                (*f)@ == old(self).inside(gen, gen, old(fli)@.verdict, old(fli)@.log) && #[trigger]
                call_ensures(body, (f, a), v) ==> (*f)@.leads_to((*final(f))@),
        ensures
            match (if old(fli)@.gen != outer.place().gen {
                Some(AttachError::NotInnermost)
            } else {
                attach_error(status)
            }) {
                Some(e) => r == Err::<R, ScopedCallError<AttachError, E>>(
                    ScopedCallError::Operation(e),
                ) && final(fli)@ == old(fli)@ && *final(self)
                    == *old(self),
                None => exists|f: &mut Fli, a: &AttachedEngine, v: Result<R, E>|
                    {
                        &&& (*f)@ == old(self).inside(gen, gen, old(fli)@.verdict, old(fli)@.log)
                        &&& a.place() == (Activation { gen, depth: 0 })
                        &&& (*f)@.at(a.place())
                        &&& #[trigger] call_ensures(body, (f, a), v)
                        &&& match v {
                            Ok(x) => r == Ok::<R, ScopedCallError<AttachError, E>>(x),
                            Err(e) => r == Err::<R, ScopedCallError<AttachError, E>>(
                                ScopedCallError::Body(e),
                            ),
                        }
                        &&& final(fli)@ == (State {
                            newest: (*final(f))@.newest,
                            verdict: (*final(f))@.verdict,
                            log: (*final(f))@.log,
                            ..old(fli)@
                        })
                        &&& keeps_stacks(*final(self), (*final(f))@)
                    },
            },
    {
        proof {
            self.rest.stacks.put_in_uniform(0, gen, fli@.verdict, fli@.log);
        }
        match self.attach_within(fli, outer, gen, status) {
            Err(error) => Err(ScopedCallError::Operation(error)),
            Ok(guard) => {
                let result: Result<R, E> = body(fli, &guard);
                let ghost inner = fli@;
                self.detach(fli, guard);
                assert(keeps_stacks(*self, inner));
                match result {
                    Ok(value) => Ok(value),
                    Err(error) => Err(ScopedCallError::Body(error)),
                }
            },
        }
    }
}

/// Whether a detached engine has the stacks that were current in `inner`, on
/// which no scope is open.
pub open spec fn keeps_stacks(engine: Engine, inner: State) -> bool {
    &&& inner.marks.len() == 0
    &&& forall|gen: u64, newest: u64, verdict: Verdict, log: Seq<Event>| #[trigger]
        engine.inside(gen, newest, verdict, log) == (State { gen, newest, verdict, log, ..inner })
}

/// The outcome of attaching an engine.
pub open spec fn attached(
    engine_before: Engine,
    engine_after: Engine,
    before: State,
    after: State,
    gen: u64,
    error: Option<AttachError>,
    r: Result<AttachedEngine, AttachError>,
) -> bool {
    match error {
        Some(e) => r == Err::<AttachedEngine, AttachError>(e) && after == before && engine_after
            == engine_before,
        None => {
            &&& r matches Ok(guard) && guard.place() == (Activation { gen, depth: 0 }) && after.at(
                guard.place(),
            ) && forall|inner: State|
                #[trigger] guard.restored(inner) == (State {
                    newest: inner.newest,
                    verdict: inner.verdict,
                    log: inner.log,
                    ..before
                })
            &&& after == engine_before.inside(gen, gen, before.verdict, before.log)
        },
    }
}

impl<'e> AttachedEngine<'e> {
    /// The state once this attachment ends in state `inner`.
    pub closed spec fn restored(&self, inner: State) -> State {
        self.outer.put_in(self.saved, inner.newest, inner.verdict, inner.log)
    }
}

/// A non-owning witness that some engine is attached to the calling thread,
/// for example the main engine on the thread that initialized the runtime. It
/// restores nothing; it only observes an attachment it does not own.
pub struct CurrentEngine<'a> {
    at: Activation,
    borrow: PhantomData<(&'a Runtime, Rc<()>)>,
}

impl<'a> Sealed for CurrentEngine<'a> {
    closed spec fn place(&self) -> Activation {
        self.at
    }

    fn activation(&self) -> (r: Activation) {
        self.at
    }
}

impl<'a> FliContext for CurrentEngine<'a> {

}

impl<'a> CurrentEngine<'a> {
    /// A witness of whatever is current on the calling thread.
    pub fn new(_runtime: &'a Runtime, fli: &Fli) -> (r: CurrentEngine<'a>)
        ensures
            fli@.at(r.place()),
    {
        CurrentEngine { at: fli.activation(), borrow: PhantomData }
    }
}

/// While an attachment lasts, every handle from before it belongs to another
/// activation than the current one, and is refused.
pub proof fn earlier_handles_are_refused(
    before: State,
    engine: Engine,
    gen: u64,
    handle: u64,
    verdict: Verdict,
    log: Seq<Event>,
)
    requires
        before.newest < gen,
        handle <= before.newest,
    ensures
        engine.inside(gen, gen, verdict, log).gen != handle,
{
    engine.rest.stacks.put_in_uniform(0, gen, verdict, log);
}

/// Once an attachment has ended, its handles are refused for good: neither
/// what was current before nor any later attachment has its activation.
pub proof fn ended_attachments_stay_ended(
    before: State,
    gen: u64,
    inner: State,
    later: State,
    engine: Engine,
    next: u64,
    verdict: Verdict,
    log: Seq<Event>,
)
    requires
        before.valid(),
        before.newest < gen,
        gen <= inner.newest,
        (State { newest: inner.newest, verdict: inner.verdict, log: inner.log, ..before }).leads_to(
            later,
        ),
        later.newest < next,
    ensures
        later.gen != gen,
        engine.inside(next, next, verdict, log).gen != gen,
{
    engine.rest.stacks.put_in_uniform(0, next, verdict, log);
}

/// Attaching an engine whose stacks are valid leads to a valid state, and
/// ending the attachment in a valid state restores a valid one.
pub proof fn attachments_keep_validity(
    before: State,
    engine: Engine,
    detached: State,
    gen: u64,
    inner: State,
)
    requires
        before.valid(),
        before.newest < gen,
        engine.inside(detached.gen, detached.newest, detached.verdict, detached.log).valid(),
        inner.valid(),
        gen <= inner.newest,
    ensures
        engine.inside(gen, gen, before.verdict, before.log).valid(),
        (State { newest: inner.newest, verdict: inner.verdict, log: inner.log, ..before }).valid(),
{
    engine.rest.stacks.put_in_uniform(
        detached.gen,
        detached.newest,
        detached.verdict,
        detached.log,
    );
}

/// Two attachments, one within the other: each starts at depth 0 of its own
/// activation, and ending them one after the other makes current again what
/// was current before each.
pub proof fn nested_attachments_restore(
    a: Engine,
    a_attached: Engine,
    b: Engine,
    b_attached: Engine,
    before: State,
    outer: State,
    outer_now: State,
    inner: State,
    first: u64,
    second: u64,
    guard: AttachedEngine,
    inner_guard: AttachedEngine,
    inner_end: State,
    outer_end: State,
)
    requires
        before.valid(),
        before.newest < first,
        attached(a, a_attached, before, outer, first, None, Ok(guard)),
        outer.leads_to(outer_now),
        outer_now.newest < second,
        attached(b, b_attached, outer_now, inner, second, None, Ok(inner_guard)),
    ensures
        first != second && first != 0 && first != before.gen && second != before.gen,
        guard.place() == (Activation { gen: first, depth: 0 }) && outer.at(guard.place()),
        outer_now.at(guard.place()),
        inner_guard.place() == (Activation { gen: second, depth: 0 }) && inner.at(
            inner_guard.place(),
        ),
        inner_guard.restored(inner_end).at(guard.place()),
        guard.restored(outer_end).gen == before.gen && guard.restored(outer_end).marks
            == before.marks,
{
    a.rest.stacks.put_in_uniform(first, first, before.verdict, before.log);
    b.rest.stacks.put_in_uniform(second, second, outer_now.verdict, outer_now.log);
}

} // verus!
