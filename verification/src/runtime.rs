//! Starting the runtime, and the engine of the calling thread.

use vstd::prelude::*;

use crate::engine::{CurrentEngine, EngineCreateError};
use crate::fli::Fli;
use crate::handles::first_nul;
use crate::sealed::Sealed;

verus! {

/// Errors from [`Runtime::initialize`] and [`Runtime::initialize_from_state`].
#[derive(Debug, Clone, Copy, PartialEq, Eq, Structural)]
pub enum InitError {
    /// A [`Runtime`] already exists in this process.
    AlreadyInitialized,
    /// The engine reported failure (invalid options, missing boot state, or a
    /// resource error).
    InitialiseFailed,
    /// The saved state is not a valid resource archive.
    InvalidSavedState,
    /// The argument at `index` contains a NUL byte, at `position`.
    InvalidArgument { index: usize, position: usize },
    /// More arguments were supplied than fit in a C `int`.
    TooManyArguments,
}

/// Whether the runtime was initialized in this process.
#[derive(Debug, Clone, Copy, PartialEq, Eq, Structural)]
pub enum RuntimeState {
    Uninitialized,
    Initialized,
}

/// A witness that the runtime is initialized in this process. Once
/// initialized it stays so for the remainder of the process.
#[derive(Debug)]
pub struct Runtime {
    private: (),
}

/// The largest number of arguments that fits in a C `int`.
pub const MAX_ARGUMENTS: usize = 0x7fff_ffff;

/// Whether argument `index` is the first one with a NUL byte, which stands at
/// `position`.
pub open spec fn faulty_argument(args: Seq<Vec<u8>>, index: int, position: int) -> bool {
    &&& 0 <= index < args.len()
    &&& first_nul(args[index]@, position)
    &&& forall|i: int, p: int| 0 <= i < index ==> !#[trigger] first_nul(args[i]@, p)
}

/// Whether the arguments make an argument vector, or which fault they have.
pub open spec fn argv_fault(args: Seq<Vec<u8>>, fault: Option<InitError>) -> bool {
    match fault {
        Some(InitError::InvalidArgument { index, position }) => faulty_argument(
            args,
            index as int,
            position as int,
        ),
        Some(InitError::TooManyArguments) => args.len() > MAX_ARGUMENTS && forall|i: int, p: int|
            0 <= i < args.len() ==> !#[trigger] first_nul(args[i]@, p),
        Some(_) => false,
        None => args.len() <= MAX_ARGUMENTS && forall|i: int, p: int|
            0 <= i < args.len() ==> !#[trigger] first_nul(args[i]@, p),
    }
}

/// The position of the first NUL byte.
fn find_nul_byte(bytes: &Vec<u8>) -> (r: Option<usize>)
    ensures
        match r {
            Some(p) => first_nul(bytes@, p as int),
            None => forall|p: int| !#[trigger] first_nul(bytes@, p),
        },
{
    let mut i: usize = 0;
    while i < bytes.len()
        invariant
            i <= bytes@.len(),
            forall|j: int| 0 <= j < i ==> bytes@[j] != 0,
        decreases bytes@.len() - i,
    {
        if bytes[i] == 0 {
            return Some(i);
        }
        i = i + 1;
    }
    None
}

/// Whether `argv` is the argument vector for the arguments: each of them with
/// a NUL byte behind it.
pub open spec fn is_argv(args: Seq<Vec<u8>>, argv: Seq<Vec<u8>>) -> bool {
    &&& argv.len() == args.len()
    &&& forall|i: int| 0 <= i < argv.len() ==> (#[trigger] argv[i])@ == args[i]@.push(0)
}

/// The argument vector for the arguments.
pub fn leak_argv(args: &Vec<Vec<u8>>) -> (r: Result<Vec<Vec<u8>>, InitError>)
    ensures
        match r {
            Ok(argv) => argv_fault(args@, None) && is_argv(args@, argv@),
            Err(e) => argv_fault(args@, Some(e)),
        },
{
    let mut argv: Vec<Vec<u8>> = Vec::new();
    let mut i: usize = 0;
    while i < args.len()
        invariant
            i <= args@.len(),
            argv@.len() == i,
            forall|k: int| 0 <= k < i ==> (#[trigger] argv@[k])@ == args@[k]@.push(0),
            forall|k: int, p: int| 0 <= k < i ==> !#[trigger] first_nul(args@[k]@, p),
        decreases args@.len() - i,
    {
        if let Some(position) = find_nul_byte(&args[i]) {
            return Err(InitError::InvalidArgument { index: i, position });
        }
        let mut arg: Vec<u8> = args[i].clone();
        assert(arg@ =~= args@[i as int]@);
        arg.push(0);
        argv.push(arg);
        i = i + 1;
    }
    if args.len() > MAX_ARGUMENTS {
        return Err(InitError::TooManyArguments);
    }
    Ok(argv)
}

/// What starting the runtime leads to, given how the engine took the saved
/// state (if there is one) and the initialization.
pub fn boot_outcome(state: &mut RuntimeState, saved_state: Option<bool>, initialised: bool) -> (r:
    Result<Runtime, InitError>)
    ensures
        booted(saved_state, initialised, r),
        *final(state) == if r is Ok {
            RuntimeState::Initialized
        } else {
            *old(state)
        },
{
    if let Some(ok) = saved_state {
        if !ok {
            return Err(InitError::InvalidSavedState);
        }
    }
    if !initialised {
        return Err(InitError::InitialiseFailed);
    }
    *state = RuntimeState::Initialized;
    Ok(Runtime { private: () })
}

/// What the calling thread's engine is.
#[derive(Debug, Clone, Copy, PartialEq, Eq, Structural)]
pub enum EngineProbe {
    /// An engine is current.
    Current,
    /// None was current, and attaching one gave this number.
    Attached(i32),
}

/// The argument vector to start the runtime with, unless there is one already
/// or the arguments are faulty.
pub fn prepare(state: RuntimeState, args: &Vec<Vec<u8>>) -> (r: Result<Vec<Vec<u8>>, InitError>)
    ensures
        match r {
            Ok(argv) => state == RuntimeState::Uninitialized && argv_fault(args@, None) && is_argv(
                args@,
                argv@,
            ),
            Err(e) => refused(state, args@, e),
        },
{
    if state == RuntimeState::Initialized {
        return Err(InitError::AlreadyInitialized);
    }
    leak_argv(args)
}

impl Runtime {
    /// Initializes the runtime. The first argument is the program name, and
    /// the rest are command-line options; `initialise` hands the argument
    /// vector to the engine and tells whether it went through.
    ///
    /// A runtime is initialized at most once per process; a second call is
    /// refused.
    pub fn initialize<I: FnOnce(&Vec<Vec<u8>>) -> bool>(
        state: &mut RuntimeState,
        args: &Vec<Vec<u8>>,
        initialise: I,
    ) -> (r: Result<Runtime, InitError>)
        requires
            forall|argv: &Vec<Vec<u8>>| is_argv(args@, argv@) ==> call_requires(initialise, (argv,)),
        ensures
            started(*old(state), *final(state), args@, r),
            !old(state).refuses(args@) ==> exists|argv: &Vec<Vec<u8>>, ok: bool|
                is_argv(args@, argv@) && #[trigger] call_ensures(initialise, (argv,), ok)
                    && booted(None, ok, r),
    {
        match prepare(*state, args) {
            Err(error) => Err(error),
            Ok(argv) => {
                let initialised: bool = initialise(&argv);
                boot_outcome(state, None, initialised)
            },
        }
    }

    /// Initializes the runtime, booting from an in-memory saved state instead
    /// of the default one; `set_saved_state` hands it to the engine and tells
    /// whether it is one.
    pub fn initialize_from_state<S: FnOnce(&[u8]) -> bool, I: FnOnce(&Vec<Vec<u8>>) -> bool>(
        state: &mut RuntimeState,
        args: &Vec<Vec<u8>>,
        saved_state: &[u8],
        set_saved_state: S,
        initialise: I,
    ) -> (r: Result<Runtime, InitError>)
        requires
            call_requires(set_saved_state, (saved_state,)),
            forall|argv: &Vec<Vec<u8>>| is_argv(args@, argv@) ==> call_requires(initialise, (argv,)),
        ensures
            started(*old(state), *final(state), args@, r),
            !old(state).refuses(args@) ==> {
                ||| call_ensures(set_saved_state, (saved_state,), false) && booted(
                    Some(false),
                    false,
                    r,
                )
                ||| call_ensures(set_saved_state, (saved_state,), true) && exists|
                    argv: &Vec<Vec<u8>>,
                    ok: bool,
                |
                    is_argv(args@, argv@) && #[trigger] call_ensures(initialise, (argv,), ok)
                        && booted(Some(true), ok, r)
            },
    {
        match prepare(*state, args) {
            Err(error) => Err(error),
            Ok(argv) => {
                if !set_saved_state(saved_state) {
                    return boot_outcome(state, Some(false), false);
                }
                let initialised: bool = initialise(&argv);
                boot_outcome(state, Some(true), initialised)
            },
        }
    }

    /// A witness for the calling thread's current engine, given that there
    /// is one or that attaching one was tried.
    pub fn engine<'a>(&'a self, fli: &Fli, probe: EngineProbe) -> (r: Result<
        CurrentEngine<'a>,
        EngineCreateError,
    >)
        ensures
            match probe {
                EngineProbe::Current => r matches Ok(witness) && fli@.at(witness.place()),
                EngineProbe::Attached(id) => if id >= 0 {
                    r matches Ok(witness) && fli@.at(witness.place())
                } else if id == -2 {
                    r == Err::<CurrentEngine<'a>, EngineCreateError>(
                        EngineCreateError::ThreadingUnavailable,
                    )
                } else {
                    r == Err::<CurrentEngine<'a>, EngineCreateError>(EngineCreateError::Failed)
                },
            },
    {
        match probe {
            EngineProbe::Current => Ok(CurrentEngine::new(self, fli)),
            EngineProbe::Attached(id) => {
                if id >= 0 {
                    Ok(CurrentEngine::new(self, fli))
                } else if id == -2 {
                    Err(EngineCreateError::ThreadingUnavailable)
                } else {
                    Err(EngineCreateError::Failed)
                }
            },
        }
    }

    /// A witness for the engine attached to the calling thread, if there is
    /// one.
    pub fn current_engine<'a>(&'a self, fli: &Fli, attached: bool) -> (r: Option<
        CurrentEngine<'a>,
    >)
        ensures
            r is Some == attached,
            r matches Some(witness) ==> fli@.at(witness.place()),
    {
        if attached {
            Some(CurrentEngine::new(self, fli))
        } else {
            None
        }
    }
}

/// What the engine's answers lead to: a runtime exactly if it took the saved
/// state, where there is one, and the initialization went through.
pub open spec fn booted(
    saved_state: Option<bool>,
    initialised: bool,
    r: Result<Runtime, InitError>,
) -> bool {
    match r {
        Ok(_) => saved_state != Some(false) && initialised,
        Err(e) => if saved_state == Some(false) {
            e == InitError::InvalidSavedState
        } else {
            !initialised && e == InitError::InitialiseFailed
        },
    }
}

impl RuntimeState {
    /// Whether starting the runtime is refused before the engine is asked.
    pub open spec fn refuses(self, args: Seq<Vec<u8>>) -> bool {
        self == RuntimeState::Initialized || !argv_fault(args, None)
    }
}

/// Whether starting the runtime is refused with this error before the engine
/// is asked: there is a runtime already, or else the arguments are faulty.
pub open spec fn refused(state: RuntimeState, args: Seq<Vec<u8>>, error: InitError) -> bool {
    if state == RuntimeState::Initialized {
        error == InitError::AlreadyInitialized
    } else {
        argv_fault(args, Some(error))
    }
}

/// What holds of every attempt to start the runtime: it is refused where one
/// exists or the arguments are faulty, and the process has a new runtime
/// exactly if the attempt succeeded.
pub open spec fn started(
    before: RuntimeState,
    after: RuntimeState,
    args: Seq<Vec<u8>>,
    r: Result<Runtime, InitError>,
) -> bool {
    &&& before.refuses(args) ==> (r matches Err(e) && refused(before, args, e))
    &&& after == if r is Ok {
        RuntimeState::Initialized
    } else {
        before
    }
}

} // verus!
