use rivect::contracts::{EffectClass, ErrorCode, TaskId};
use rivect::executor::legs::{
    artifact_verdict, cross_boundary, egress_verdict, gate_verdict, observation_of,
    probe_conformance, probe_words, write_size, ConformantScopes, LegAnswer, LegRun, LegStep,
    OpenOutcome, ProbeAnswer, ProbeStep,
};
use rivect::executor::observe::{
    drain_pipe, drain_to_end, feed_pipe, observe_confined_child, ChildState, Drain, PipeRead,
    PipeWrite, WatchStep,
};
use rivect::executor::run::{Answer, ClosingState, Planned, Progress, WorkerCall};
use rivect::executor::{
    backend, budget_has_remaining, checkpoint_boundary_id, helper_io_bytes, inspect_regular_target,
    parent_dir, path_within, read_result, same_regular_file, worker_error_code, AdmittedEffect,
    BudgetStatus, ContextFacts, EffectOutcome, EffectRequest, Executor, ExecutorError, FileFacts,
    FileIdentity, InspectedTarget, ObservedChild, ReadObservation, WorkerError,
};
use rivect::policy::paths::CanonicalPath;
use rivect::policy::{PermissionMode, Policy, PolicyError};
use rivect::state::StoreError;

const DIGEST: &str = "ba7816bf8f01cfea414140de5dae2223b00361a396177a9cb410ff61f20015ad";

fn facts() -> ContextFacts {
    ContextFacts {
        scope: Some("/s".to_string()),
        canonical_target: Some("/s/f".to_string()),
        budget: Ok(BudgetStatus { limit_units: 10, spent: 1, reserved: 1 }),
        checkpoint: Ok(false),
        approved: Ok(false),
    }
}

fn resolved() -> Result<CanonicalPath, PolicyError> {
    Ok(CanonicalPath {
        components: vec!["s".to_string(), "f".to_string()],
        collapsed_missing_tail: false,
    })
}

fn granted() -> (Policy, String) {
    let mut policy = Policy::default();
    let grant = policy.grant_read("/s".to_string());
    (policy, grant)
}

fn read(grant: &str) -> EffectRequest {
    EffectRequest::Read { grant_id: grant.to_string(), path: "/s/f".to_string() }
}

fn admitted(executor: &Executor, grant: &str) -> AdmittedEffect {
    let decided = executor
        .admit_decide(
            &read(grant),
            PermissionMode::Manual,
            facts(),
            Err(WorkerError::WriteUnavailable),
            resolved(),
        )
        .map_err(|e| e.message())
        .expect("decided");
    match executor.admit_effect(
        &TaskId("t1".to_string()),
        read(grant),
        PermissionMode::Manual,
        decided,
        Ok("a1".to_string()),
        None,
    ) {
        Planned::Admitted { effect, .. } => effect,
        other => panic!("{other:?}"),
    }
}

#[test]
fn an_admitted_read_runs_behind_every_gate() {
    let (policy, grant) = granted();
    let executor = Executor::new(&policy);
    let effect = admitted(&executor, &grant);
    assert_eq!(effect.scope_root, "/s");
    let step = |at, answer| executor.execute(&effect, at, answer);
    let at = step(Progress::Start, Answer::Go);
    assert!(matches!(at, Progress::AskCancelled));
    let at = step(at, Answer::Cancelled(Ok(false)));
    assert!(matches!(at, Progress::Consult));
    let at = step(at, Answer::Facts { facts: facts(), resolved: resolved() });
    assert!(matches!(at, Progress::MarkRunning));
    let at = step(at, Answer::Marked(Ok(())));
    assert!(matches!(&at, Progress::Perform(WorkerCall::Read { path, .. }) if path == "/s/f"));
    let at = step(
        at,
        Answer::Observed(Ok(ReadObservation { bytes: b"abc".to_vec(), digest: DIGEST.to_string() })),
    );
    match &at {
        Progress::Record(closing) => {
            assert_eq!(closing.state, ClosingState::Confirmed);
            assert_eq!(
                closing.detail.as_deref(),
                Some(format!("read-performed sha256={DIGEST}").as_str())
            );
        }
        other => panic!("{other:?}"),
    }
    let at = step(at, Answer::Recorded(Ok(())));
    assert!(matches!(
        at,
        Progress::Return { result: Ok(EffectOutcome::Read { .. }), .. }
    ));
}

#[test]
fn a_lost_receipt_keeps_the_digest_and_stays_unknown() {
    let (policy, grant) = granted();
    let executor = Executor::new(&policy);
    let effect = admitted(&executor, &grant);
    let at = executor.execute_unconfirmed(
        &effect,
        Progress::Perform(WorkerCall::Read { scope_root: "/s".to_string(), path: "/s/f".to_string() }),
        Answer::Observed(Ok(ReadObservation { bytes: Vec::new(), digest: DIGEST.to_string() })),
    );
    match at {
        Progress::Record(closing) => {
            assert_eq!(closing.state, ClosingState::Unknown);
            assert_eq!(
                closing.detail,
                Some(format!("read-performed sha256={DIGEST}; receipt lost after dispatch"))
            );
        }
        other => panic!("{other:?}"),
    }
}

#[test]
fn a_cancelled_task_and_a_denied_target_reach_no_worker() {
    let (mut policy, grant) = granted();
    let effect = admitted(&Executor::new(&policy), &grant);
    let executor = Executor::new(&policy);
    let at = executor.execute(
        &effect,
        Progress::AskCancelled,
        Answer::Cancelled(Ok(true)),
    );
    assert!(!matches!(at, Progress::Perform(_) | Progress::Consult), "{at:?}");
    policy.enroll_deny(resolved()).expect("enrolled");
    let executor = Executor::new(&policy);
    let at = executor.execute(
        &effect,
        Progress::Consult,
        Answer::Facts { facts: facts(), resolved: resolved() },
    );
    assert!(!matches!(at, Progress::MarkRunning | Progress::Perform(_)), "{at:?}");
}

#[test]
fn an_unknown_grant_admits_no_effect() {
    let (policy, _) = granted();
    let executor = Executor::new(&policy);
    let refused = executor.admit_decide(
        &read("nobody"),
        PermissionMode::Manual,
        facts(),
        Err(WorkerError::WriteUnavailable),
        resolved(),
    );
    assert!(matches!(
        refused.map(|_| ()),
        Err(ExecutorError::Policy(PolicyError::UnknownGrant { .. }))
    ));
}

#[test]
fn executor_errors_have_words_and_codes() {
    let cases: Vec<(ExecutorError, ErrorCode)> = vec![
        (ExecutorError::Cancelled, ErrorCode::Cancelled),
        (ExecutorError::ModeAsk, ErrorCode::Denied),
        (ExecutorError::ModeDenied, ErrorCode::Denied),
        (ExecutorError::PolicyDenied, ErrorCode::Denied),
        (ExecutorError::Readonly { class: EffectClass::Egress }, ErrorCode::Denied),
        (ExecutorError::Worker(WorkerError::ConfinedRunTimedOut), ErrorCode::CapabilityUnavailable),
        (ExecutorError::Worker(WorkerError::TooLarge), ErrorCode::Denied),
        (
            ExecutorError::Store(StoreError::Storage("x".to_string())),
            ErrorCode::StorageUnavailable,
        ),
    ];
    for (error, code) in cases {
        assert_eq!(error.error_code(), code, "{error:?}");
    }
    let readonly: ExecutorError = ExecutorError::Readonly { class: EffectClass::Egress };
    assert_eq!(
        readonly.message(),
        "effect denied: read-only worker rejects direct egress effects; no ambient fallback"
    );
    let cancelled: ExecutorError = ExecutorError::Cancelled;
    assert_eq!(cancelled.message(), "effect denied: task cancelled");
    assert_eq!(
        worker_error_code(&WorkerError::SandboxUnavailable { reason: "x".to_string() }),
        ErrorCode::CapabilityUnavailable
    );
}

#[test]
fn budgets_and_scopes() {
    let left = |limit, spent, reserved| {
        budget_has_remaining(Ok(BudgetStatus { limit_units: limit, spent, reserved }))
            .map_err(|e| e.message())
            .expect("readable")
    };
    assert!(left(3, 1, 1));
    assert!(!left(2, 1, 1));
    assert!(path_within("/s", "/s/f"));
    assert!(path_within("/s", "/s"));
    assert!(!path_within("/s", "/sf"));
    assert_eq!(parent_dir("/s/f").as_deref(), Some("/s"));
    assert_eq!(parent_dir("/"), None);
    assert_eq!(backend(true), "linux");
    assert_ne!(backend(true), backend(false));
    assert_ne!(checkpoint_boundary_id("/a"), checkpoint_boundary_id("/b"));
}

fn file(ino: u64, len: u64) -> FileFacts {
    FileFacts { regular: true, dev: 1, ino, len }
}

#[test]
fn target_identity_is_the_same_regular_file() {
    assert!(same_regular_file(file(1, 5), file(1, 9)));
    assert!(!same_regular_file(file(1, 5), file(2, 5)));
    assert!(!same_regular_file(file(1, 5), FileFacts { regular: false, ..file(1, 5) }));
}

#[test]
fn a_target_is_inspected_inside_its_scope() {
    let scope = Ok(Some("/s".to_string()));
    let found = inspect_regular_target("/s/f", &scope, Some("/s/f".to_string()), Ok(file(1, 5)))
        .map_err(|e| e.message())
        .expect("inspected");
    assert_eq!(found.canonical, "/s/f");
    assert!(matches!(
        inspect_regular_target("/s/f", &scope, None, Ok(file(1, 5))),
        Err(WorkerError::TargetMissing { .. })
    ));
    assert!(matches!(
        inspect_regular_target("/s/l", &scope, Some("/etc/f".to_string()), Ok(file(1, 5))),
        Err(WorkerError::OutsideScope { .. })
    ));
    assert!(matches!(
        inspect_regular_target(
            "/s/d",
            &scope,
            Some("/s/d".to_string()),
            Ok(FileFacts { regular: false, ..file(1, 5) })
        ),
        Err(WorkerError::NotRegularFile { .. })
    ));
    assert!(matches!(
        inspect_regular_target("/s/f", &Err("gone".to_string()), None, Ok(file(1, 5))),
        Err(WorkerError::ScopeRootUnavailable { .. })
    ));
}

fn inspected() -> LegAnswer {
    LegAnswer::Inspected(Ok(InspectedTarget { canonical: "/s/f".to_string(), facts: file(7, 3) }))
}

#[test]
fn bytes_move_only_through_the_proven_boundary() {
    let step = |at, answer| cross_boundary("/s/f", None, at, answer);
    let at = step(LegStep::Inspect, inspected());
    assert!(matches!(at, LegStep::Probe { .. }));
    let at = step(at, LegAnswer::Crossed(Ok(())));
    assert!(matches!(at, LegStep::Gate { .. }));
    let at = step(at, LegAnswer::Crossed(Ok(())));
    assert!(matches!(at, LegStep::Open { .. }));
    let at = step(at, LegAnswer::Opened(OpenOutcome::Opened(file(7, 3))));
    assert!(matches!(at, LegStep::Move));
    let at = step(at, LegAnswer::Moved(Ok(b"abc".to_vec())));
    assert!(matches!(at, LegStep::Return(Ok(bytes)) if bytes == b"abc"));
    let swapped = step(
        LegStep::Open { facts: file(7, 3) },
        LegAnswer::Opened(OpenOutcome::Opened(file(8, 3))),
    );
    assert!(matches!(swapped, LegStep::Return(Err(WorkerError::TargetChanged { .. }))));
    let other = cross_boundary(
        "/s/f",
        Some(FileIdentity { dev: 1, ino: 9 }),
        LegStep::Inspect,
        inspected(),
    );
    assert!(!matches!(other, LegStep::Move), "{other:?}");
}

#[test]
fn a_probe_wants_a_denial_before_an_admission() {
    let words = probe_words(true, true);
    let ran = |ok| ProbeAnswer::Ran(Ok(LegRun { exit_ok: ok, stderr: String::new() }));
    let at = probe_conformance(true, &words, ProbeStep::RunDenied, ran(true));
    assert!(matches!(at, ProbeStep::Verdict(Err(_))), "an admitted denied leg proves nothing");
    let at = probe_conformance(true, &words, ProbeStep::RunAdmitted, ran(true));
    assert!(matches!(at, ProbeStep::Verdict(Ok(()))));
    let mut scopes = ConformantScopes::new();
    assert!(!scopes.contains("/l", "/s"));
    scopes.remember("/l", "/s");
    assert!(scopes.contains("/l", "/s"));
    assert!(!scopes.contains("/s", "/l"));
}

#[test]
fn only_a_passed_probe_is_remembered() {
    let mut scopes = ConformantScopes::new();
    let failed = scopes.settle("/l", "/s", Err(WorkerError::ConfinedRunTimedOut));
    assert!(matches!(failed, Err(WorkerError::ConfinedRunTimedOut)));
    assert!(!scopes.contains("/l", "/s"));
    assert!(scopes.settle("/l", "/s", Ok(())).is_ok());
    assert!(scopes.contains("/l", "/s"));
}

#[test]
fn verdicts_of_gates_and_legs() {
    assert!(gate_verdict(Ok(true), "/s/f").is_ok());
    assert!(matches!(
        gate_verdict(Ok(false), "/s/f"),
        Err(WorkerError::SandboxDenied { target }) if target == "/s/f"
    ));
    assert!(artifact_verdict(Ok(()), "/s/f").is_ok());
    assert!(write_size(&vec![0; 1048576]).is_ok());
    assert!(matches!(write_size(&vec![0; 1048577]), Err(WorkerError::WriteTooLarge)));
    let o = observation_of(b"abc".to_vec());
    assert_eq!(o.digest, DIGEST);
    let reported = read_result(o);
    assert_eq!(reported.detail, format!("read-performed sha256={DIGEST}"));
    let denied = egress_verdict(Ok(80), Ok(false), "open", "https://x");
    assert!(matches!(denied, WorkerError::SandboxDenied { target } if target == "https://x"));
    let open = egress_verdict(Ok(80), Ok(true), "open", "https://x");
    assert!(matches!(open, WorkerError::SandboxUnavailable { .. }));
}

#[test]
fn a_child_is_watched_until_it_exits_or_its_time_is_up() {
    assert!(matches!(
        observe_confined_child(ChildState::Exited { code: Some(0) }, false),
        WatchStep::Finish { code: Some(0) }
    ));
    assert!(matches!(observe_confined_child(ChildState::Running, false), WatchStep::Again));
    assert!(matches!(
        observe_confined_child(ChildState::Running, true),
        WatchStep::Kill(WorkerError::ConfinedRunTimedOut)
    ));
    let mut drain = Drain { open: true, retained: Vec::new() };
    drain_pipe(&mut drain, PipeRead::Bytes(vec![1, 2, 3]), 2).expect("read");
    assert_eq!(drain.retained, vec![1, 2]);
    drain_pipe(&mut drain, PipeRead::Again, 2).expect("nothing yet");
    assert!(drain.open);
    drain_pipe(&mut drain, PipeRead::End, 2).expect("end");
    assert!(!drain.open);
    assert!(matches!(feed_pipe(0, 5, PipeWrite::Accepted(3)), Ok(3)));
    assert!(matches!(feed_pipe(3, 5, PipeWrite::Again), Ok(3)));
    assert!(matches!(drain_to_end(false, false), Ok(_)));
}

#[test]
fn a_helper_reports_by_its_exit_code() {
    let child = |code, stdout: &[u8]| ObservedChild {
        code: Some(code),
        stdout: stdout.to_vec(),
        stderr: Vec::new(),
    };
    assert_eq!(
        helper_io_bytes(child(0, b"abc"), true).map_err(|e| e.message()).expect("read"),
        b"abc"
    );
    assert!(matches!(
        helper_io_bytes(child(20, b""), true),
        Err(WorkerError::ReadFailed { .. })
    ));
    assert!(matches!(
        helper_io_bytes(child(20, b""), false),
        Err(WorkerError::WriteFailed { .. })
    ));
    assert!(matches!(
        helper_io_bytes(child(21, b""), false),
        Err(WorkerError::WriteMutationFailed { .. })
    ));
}

#[test]
fn what_is_kept_does_not_depend_on_the_pieces() {
    let mut whole = Drain { open: true, retained: Vec::new() };
    drain_pipe(&mut whole, PipeRead::Bytes(b"abcdef".to_vec()), 4).expect("drained");
    let mut pieces = Drain { open: true, retained: Vec::new() };
    for piece in [b"ab".to_vec(), b"cde".to_vec(), b"f".to_vec()] {
        drain_pipe(&mut pieces, PipeRead::Bytes(piece), 4).expect("drained");
    }
    assert_eq!(whole.retained, b"abcd");
    assert_eq!(pieces.retained, whole.retained);
}

#[test]
fn only_identical_reads_share_a_flight() {
    let (policy, grant) = granted();
    let plan = |executor: &Executor, snapshot: Option<FileIdentity>| {
        let decided = executor
            .admit_decide(
                &read(&grant),
                PermissionMode::Manual,
                facts(),
                Err(WorkerError::WriteUnavailable),
                resolved(),
            )
            .map_err(|e| e.message())
            .expect("decided");
        let task = TaskId("t".to_string());
        let attempt = Ok("a".to_string());
        let mode = PermissionMode::Manual;
        match executor.admit_effect(&task, read(&grant), mode, decided, attempt, snapshot) {
            Planned::Admitted { flight, .. } => flight,
            other => panic!("{other:?}"),
        }
    };
    let file = Some(FileIdentity { dev: 1, ino: 7 });
    let merged = Executor::with_flights(&policy);
    let key = plan(&merged, file).expect("shared");
    assert_eq!(key.target, "/s/f");
    assert_eq!(key.snapshot.ino, 7);
    assert_eq!(key.grant_id, grant);
    assert!(plan(&merged, None).is_none(), "a file that was not seen is not shared");
    assert!(plan(&Executor::new(&policy), file).is_none());
}
