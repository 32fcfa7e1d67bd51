use splint::engine::EngineStatus;
use splint::runtime::{boot_outcome, prepare, EngineProbe, RuntimeState};
use splint::scope::{is_current_gen, GenMint};
use splint::{
    AttachError, Engine, EngineAttributes, EngineCreateError, Fli, FliContext, InitError, Runtime,
    ScopedCallError,
};

fn arguments(texts: &[&str]) -> Vec<Vec<u8>> {
    texts.iter().map(|text| text.as_bytes().to_vec()).collect()
}

fn runtime() -> Runtime {
    let mut state = RuntimeState::Uninitialized;
    Runtime::initialize(&mut state, &arguments(&["splint-test", "-q"]), |_| true)
        .expect("runtime initialize failed")
}

/// Once the runtime exists, a second initialization must be refused.
#[test]
fn second_initialize_is_refused() {
    let mut state = RuntimeState::Uninitialized;
    assert!(
        Runtime::initialize(&mut state, &arguments(&["splint-test", "-q"]), |_| true).is_ok()
    );
    assert!(matches!(
        Runtime::initialize(&mut state, &arguments(&["splint-test"]), |_| true),
        Err(InitError::AlreadyInitialized)
    ));
}

#[test]
fn lifecycle() {
    let mut state = RuntimeState::Uninitialized;
    let is_archive = |state: &[u8]| state == b"a saved state";

    // 1. A garbage saved-state buffer is rejected before initialization, so
    //    the runtime is still uninitialized afterwards.
    assert!(matches!(
        Runtime::initialize_from_state(
            &mut state,
            &arguments(&["splint-test", "-q"]),
            b"definitely not a zip archive",
            is_archive,
            |_| unreachable!()
        ),
        Err(InitError::InvalidSavedState)
    ));

    // 2. Boot from a real saved state.
    let mut told = Vec::new();
    let runtime = Runtime::initialize_from_state(
        &mut state,
        &arguments(&["splint-test", "-q"]),
        b"a saved state",
        is_archive,
        |argv| {
            told = argv.clone();
            true
        },
    )
    .expect("initialize from saved state failed");
    assert_eq!(told, [b"splint-test\0".to_vec(), b"-q\0".to_vec()]);

    // 3. A second initialization must be refused.
    assert!(matches!(
        Runtime::initialize(&mut state, &arguments(&["splint-test"]), |_| true),
        Err(InitError::AlreadyInitialized)
    ));

    // 4. The initializing thread has the main engine attached.
    let mut fli = Fli::new();
    assert!(
        runtime.current_engine(&fli, true).is_some(),
        "main engine missing on init thread"
    );

    // 5. The required accessor reuses the main engine.
    let current = runtime
        .engine(&fli, EngineProbe::Current)
        .expect("reuse main engine failed");
    let term = current.term(&mut fli).expect("term allocation failed");
    term.put_i64(&mut fli, 42).expect("term write failed");
    assert_eq!(term.get_i64(&mut fli).expect("term read failed"), 42);
}

#[test]
fn initialization_failures_are_told_apart() {
    let mut state = RuntimeState::Uninitialized;
    assert!(matches!(
        Runtime::initialize(&mut state, &arguments(&["splint-test"]), |_| false),
        Err(InitError::InitialiseFailed)
    ));
    assert!(matches!(
        Runtime::initialize(&mut state, &arguments(&["a\0b"]), |_| true),
        Err(InitError::InvalidArgument { index: 0, position: 1 })
    ));
    assert!(Runtime::initialize(&mut state, &arguments(&["splint-test"]), |_| true).is_ok());
}

#[test]
fn the_engine_is_asked_only_where_it_decides() {
    let args = arguments(&["splint-test"]);
    assert_eq!(
        prepare(RuntimeState::Uninitialized, &args),
        Ok(vec![b"splint-test\0".to_vec()])
    );
    assert_eq!(
        prepare(RuntimeState::Initialized, &args),
        Err(InitError::AlreadyInitialized)
    );
    assert_eq!(
        prepare(RuntimeState::Uninitialized, &arguments(&["ok", "b\0"])),
        Err(InitError::InvalidArgument { index: 1, position: 1 })
    );
    let mut state = RuntimeState::Uninitialized;
    assert!(matches!(
        boot_outcome(&mut state, Some(false), false),
        Err(InitError::InvalidSavedState)
    ));
    assert!(matches!(
        boot_outcome(&mut state, Some(true), false),
        Err(InitError::InitialiseFailed)
    ));
    assert_eq!(state, RuntimeState::Uninitialized);
    assert!(boot_outcome(&mut state, None, true).is_ok());
    assert_eq!(state, RuntimeState::Initialized);
}

#[test]
fn a_thread_without_an_engine_gets_one_or_an_error() {
    let runtime = runtime();
    let fli = Fli::new();
    assert!(runtime.current_engine(&fli, false).is_none());
    assert!(runtime.engine(&fli, EngineProbe::Attached(3)).is_ok());
    assert!(matches!(
        runtime.engine(&fli, EngineProbe::Attached(-2)),
        Err(EngineCreateError::ThreadingUnavailable)
    ));
    assert!(matches!(
        runtime.engine(&fli, EngineProbe::Attached(-1)),
        Err(EngineCreateError::Failed)
    ));
    assert!(matches!(
        Engine::new(&runtime, false),
        Err(EngineCreateError::Failed)
    ));
}

#[test]
fn attachments_restore_after_return_and_error() {
    let runtime = runtime();
    let mut fli = Fli::new();
    let before = fli.activation();
    let mut engine = Engine::new(&runtime, true).expect("create failed");

    engine
        .with_attached(&mut fli, 1, EngineStatus::Current, |fli, _| {
            assert!(is_current_gen(fli, 1));
        })
        .expect("attach failed");
    assert_eq!(fli.activation(), before);

    let error = engine
        .try_with_attached(&mut fli, 2, EngineStatus::Current, |_, _| {
            Err::<(), _>("body failed")
        })
        .unwrap_err();
    assert!(matches!(error, ScopedCallError::Body("body failed")));
    assert_eq!(fli.activation(), before);
}

#[test]
fn attach_failures_are_told_apart() {
    let runtime = runtime();
    let mut fli = Fli::new();
    let mut engine = Engine::new(&runtime, true).expect("create failed");
    assert!(matches!(
        engine.with_attached(&mut fli, 1, EngineStatus::Invalid, |_, _| ()),
        Err(AttachError::Invalid)
    ));
    assert!(matches!(
        engine.with_attached(&mut fli, 1, EngineStatus::InUse, |_, _| ()),
        Err(AttachError::InUse)
    ));
    assert!(matches!(
        engine.with_attached(&mut fli, 1, EngineStatus::Other(9), |_, _| ()),
        Err(AttachError::Unknown(9))
    ));
}

/// An engine keeps its terms while it is detached.
#[test]
fn an_engine_keeps_its_stacks_between_attachments() {
    let runtime = runtime();
    let mut fli = Fli::new();
    let mut engine = Engine::new(&runtime, true).expect("create failed");
    engine
        .with_attached(&mut fli, 1, EngineStatus::Current, |fli, ctx| {
            let term = ctx.term(fli).unwrap();
            term.put_i64(fli, 11).unwrap();
            assert_eq!(fli.refs_len(), 1);
        })
        .expect("attach failed");
    assert_eq!(fli.refs_len(), 0);
    engine
        .with_attached(&mut fli, 2, EngineStatus::Current, |fli, _| {
            assert_eq!(fli.refs_len(), 1);
        })
        .expect("attach failed");
}

#[test]
fn nested_attachment_restores_the_outer_engine() {
    let runtime = runtime();
    let mut fli = Fli::new();
    let before = fli.activation();
    let mut a = Engine::new(&runtime, true).expect("create a failed");
    let mut b = Engine::new(&runtime, true).expect("create b failed");

    a.with_attached(&mut fli, 1, EngineStatus::Current, |fli, outer| {
        assert!(is_current_gen(fli, 1));
        let term = outer.term(fli).unwrap();
        term.put_i64(fli, 11).unwrap();
        b.with_attached_within(fli, outer, 2, EngineStatus::Current, |fli, _| {
            assert!(is_current_gen(fli, 2));
            // The outer engine's handles belong to another generation.
            assert!(!is_current_gen(fli, 1));
        })
        .expect("nested attach failed");
        assert!(is_current_gen(fli, 1));
        let error = b
            .try_with_attached_within(fli, outer, 3, EngineStatus::Current, |_, _| {
                Err::<(), _>("body failed")
            })
            .unwrap_err();
        assert!(matches!(error, ScopedCallError::Body("body failed")));
        assert!(is_current_gen(fli, 1));
        // With the original engine current again, the term works.
        assert_eq!(term.get_i64(fli).unwrap(), 11);
    })
    .expect("outer attach failed");
    assert_eq!(fli.activation(), before);
}

#[test]
fn plain_nested_attachment_is_refused() {
    let runtime = runtime();
    let mut fli = Fli::new();
    let mut a = Engine::new(&runtime, true).expect("create a failed");
    let mut b = Engine::new(&runtime, true).expect("create b failed");

    a.with_attached(&mut fli, 1, EngineStatus::Current, |fli, _| {
        assert!(matches!(
            b.with_attached(fli, 2, EngineStatus::Current, |_, _| ()),
            Err(AttachError::AlreadyAttached)
        ));
    })
    .expect("attach a failed");
}

#[test]
fn nested_attachment_requires_the_innermost_witness() {
    let runtime = runtime();
    let mut fli = Fli::new();
    let mut a = Engine::new(&runtime, true).expect("create a failed");
    let mut b = Engine::new(&runtime, true).expect("create b failed");
    let mut c = Engine::new(&runtime, true).expect("create c failed");

    a.with_attached(&mut fli, 1, EngineStatus::Current, |fli, outer| {
        b.with_attached_within(fli, outer, 2, EngineStatus::Current, |fli, _| {
            assert!(matches!(
                c.with_attached_within(fli, outer, 3, EngineStatus::Current, |_, _| ()),
                Err(AttachError::NotInnermost)
            ));
        })
        .expect("attach b failed");
    })
    .expect("attach a failed");
}

#[test]
fn engine_attributes_become_limits_only_where_one_is_set() {
    let none = EngineAttributes::default();
    assert!(none.limits().is_none());
    let mut some = EngineAttributes::default();
    some.stack_limit = Some(4096);
    let limits = some.limits().unwrap();
    assert_eq!(limits.stack_limit, 4096);
    assert_eq!(limits.table_space, 0);
}

#[test]
fn generations_are_never_minted_twice() {
    let mut mint = GenMint::new();
    assert!(mint.can_mint());
    let first = mint.mint();
    let second = mint.mint();
    assert_eq!(first, 1);
    assert_ne!(first, second);
}

/// No attachment has the activation of an earlier one, and the latest one is
/// remembered after it ended.
#[test]
fn the_latest_activation_is_remembered() {
    let runtime = runtime();
    let mut fli = Fli::new();
    assert_eq!(fli.newest(), 0);
    let mut mint = GenMint::new();
    let mut engine = Engine::new(&runtime, true).expect("create failed");
    let first = mint.mint();
    let stale = engine
        .with_attached(&mut fli, first, EngineStatus::Current, |fli, _| fli.activation())
        .expect("attach failed");
    assert_eq!(fli.newest(), first);
    assert!(!is_current_gen(&fli, stale.gen));
    let second = mint.mint();
    engine
        .with_attached(&mut fli, second, EngineStatus::Current, |fli, _| {
            assert!(!is_current_gen(fli, stale.gen));
        })
        .expect("attach failed");
    assert_eq!(fli.newest(), second);
}
