use rivect::commands::{ConfigFile, Runtime};
use rivect::contracts::{AnswerSelection, ErrorCode, OptionId};
use rivect::controller::{
    answer_text, evidence_subject, find_read, node_release, read_performed_digest, AttemptRow,
    Conclusion, ControllerError, Decision, NodeRelease, Outcome, PassStep, KNOWN_READY_OPTION,
};
use rivect::executor::{BudgetStatus, ContextFacts, EffectOutcome, ExecutorError, WorkerError};
use rivect::model::ModelError;
use rivect::policy::paths::CanonicalPath;
use rivect::policy::PolicyError;
use rivect::providers::{LoopbackProvider, ToolCall};
use rivect::state::{ConflictCause, InvalidCause, StoreError};

const DIGEST: &str = "ba7816bf8f01cfea414140de5dae2223b00361a396177a9cb410ff61f20015ad";

fn runtime() -> (Runtime<LoopbackProvider>, String) {
    let mut runtime =
        Runtime::open("/data", LoopbackProvider::new(), &Vec::new(), ConfigFile::Absent)
            .expect("opens");
    let grant = runtime.set_read_scope("/scope".to_string(), "/scope/file".to_string());
    (runtime, grant)
}

fn facts() -> ContextFacts {
    ContextFacts {
        scope: Some("/scope".to_string()),
        canonical_target: Some("/scope/file".to_string()),
        budget: Ok(BudgetStatus { limit_units: 10, spent: 0, reserved: 0 }),
        checkpoint: Ok(false),
        approved: Ok(false),
    }
}

fn resolved(path: &[&str]) -> Result<CanonicalPath, PolicyError> {
    Ok(CanonicalPath {
        components: path.iter().map(|p| p.to_string()).collect(),
        collapsed_missing_tail: false,
    })
}

fn known_ready() -> AnswerSelection {
    AnswerSelection::Option { option_id: OptionId(KNOWN_READY_OPTION.to_string()) }
}

fn custom() -> AnswerSelection {
    AnswerSelection::Custom { text: "go on".to_string() }
}

struct Run {
    runtime: Runtime<LoopbackProvider>,
    grant: String,
    answer: AnswerSelection,
    crash: bool,
    at: Decision,
}

impl Run {
    fn start(answer: AnswerSelection, crash: bool) -> Run {
        let (runtime, grant) = runtime();
        Run { runtime, grant, answer, crash, at: Decision::Start }
    }

    fn hand(&mut self, outcome: Outcome) {
        let at = std::mem::replace(&mut self.at, Decision::Start);
        let grant = self.grant.clone();
        self.at = self.runtime.run_decision_step(&self.answer, &grant, self.crash, at, outcome);
    }

    fn pass_gates(&mut self) {
        self.hand(Outcome::Snapshot(Ok(false)));
        assert!(matches!(self.at, Decision::AskUnresolved));
        self.hand(Outcome::Unresolved(Ok(None)));
        assert!(matches!(self.at, Decision::Consult));
        self.hand(Outcome::Facts { facts: facts(), resolved: resolved(&["scope", "file"]) });
        assert!(matches!(self.at, Decision::AskCancelled), "{:?}", self.at);
        self.hand(Outcome::Cancelled(Ok(false)));
        assert!(matches!(self.at, Decision::Materialize));
    }
}

#[test]
fn a_known_ready_answer_reads_without_a_model() {
    let mut run = Run::start(known_ready(), false);
    run.pass_gates();
    run.hand(Outcome::Stored(Ok(())));
    assert!(matches!(&run.at, Decision::Admit { path, dispatched: None } if path == "/scope/file"));
    run.hand(Outcome::Admitted(Ok("a1".to_string())));
    assert!(matches!(
        &run.at,
        Decision::RetainRead { attempt_id, cause }
            if attempt_id == "a1" && cause == "known ready admitted read"
    ));
    run.hand(Outcome::Stored(Ok(())));
    assert!(matches!(&run.at, Decision::Execute { attempt_id, dispatched: None } if attempt_id == "a1"));
    run.hand(Outcome::Executed(Ok(EffectOutcome::Read {
        bytes: b"abc".to_vec(),
        digest: DIGEST.to_string(),
    })));
    match &run.at {
        Decision::Evidence { observation, digest, attempt_id } => {
            assert_eq!(
                observation,
                &format!("read 3 bytes from /scope/file; sha256={DIGEST}")
            );
            assert_eq!(digest, DIGEST);
            assert_eq!(attempt_id, "a1");
        }
        other => panic!("{other:?}"),
    }
    run.hand(Outcome::Stored(Ok(())));
    assert!(matches!(&run.at, Decision::RetainTerminal { attempt_id, .. } if attempt_id == "a1"));
    run.hand(Outcome::Stored(Ok(())));
    assert!(matches!(run.at, Decision::Complete));
    run.hand(Outcome::Stored(Ok(())));
    assert!(matches!(run.at, Decision::Conclude(Conclusion::Completed)));
    assert_eq!(run.runtime.provider_calls, 0);
}

#[test]
fn a_custom_answer_dispatches_once_and_reads_what_the_reply_names() {
    let mut run = Run::start(custom(), false);
    run.pass_gates();
    run.hand(Outcome::Stored(Ok(())));
    assert!(matches!(run.at, Decision::ReadGoal));
    run.hand(Outcome::Goal(Ok(b"see\xff".to_vec())));
    match &run.at {
        Decision::Prepare { inputs } => {
            assert_eq!(inputs, "goal: see\u{fffd}\nanswer: go on\nread /scope/file");
        }
        other => panic!("{other:?}"),
    }
    run.hand(Outcome::Prepared(Ok("m1".to_string())));
    assert!(matches!(
        &run.at,
        Decision::RetainDispatch { attempt_id, cause }
            if attempt_id == "m1" && cause == "first useful offline dispatch"
    ));
    run.hand(Outcome::Stored(Ok(())));
    assert!(matches!(&run.at, Decision::Dispatch { attempt_id } if attempt_id == "m1"));
    run.hand(Outcome::Dispatched(Ok(vec![
        ToolCall { tool: "other".to_string(), path: Some("x".to_string()) },
        ToolCall { tool: "read_file".to_string(), path: Some("file".to_string()) },
    ])));
    assert_eq!(run.runtime.provider_calls, 1);
    assert!(matches!(
        &run.at,
        Decision::Admit { path, dispatched: Some(d) } if path == "/scope/file" && d == "m1"
    ));
    run.hand(Outcome::Admitted(Ok("e1".to_string())));
    run.hand(Outcome::Executed(Ok(EffectOutcome::Read {
        bytes: Vec::new(),
        digest: DIGEST.to_string(),
    })));
    assert!(matches!(&run.at, Decision::Evidence { attempt_id, .. } if attempt_id == "m1"));
}

#[test]
fn a_reply_without_a_read_waits() {
    let mut run = Run::start(custom(), false);
    run.pass_gates();
    run.hand(Outcome::Stored(Ok(())));
    run.hand(Outcome::Goal(Ok(Vec::new())));
    run.hand(Outcome::Prepared(Ok("m1".to_string())));
    run.hand(Outcome::Stored(Ok(())));
    run.hand(Outcome::Dispatched(Ok(Vec::new())));
    assert!(matches!(run.at, Decision::MarkNoReady));
    run.hand(Outcome::Stored(Ok(())));
    assert!(matches!(run.at, Decision::Conclude(Conclusion::Waiting)));
}

#[test]
fn a_lost_receipt_leaves_the_outcome_unknown() {
    let mut run = Run::start(known_ready(), true);
    run.pass_gates();
    run.hand(Outcome::Stored(Ok(())));
    run.hand(Outcome::Admitted(Ok("a1".to_string())));
    run.hand(Outcome::Stored(Ok(())));
    run.hand(Outcome::Executed(Ok(EffectOutcome::Read {
        bytes: Vec::new(),
        digest: DIGEST.to_string(),
    })));
    assert!(matches!(&run.at, Decision::MarkUnknown { attempt_id } if attempt_id == "a1"));
    run.hand(Outcome::Stored(Ok(())));
    assert!(matches!(
        &run.at,
        Decision::Conclude(Conclusion::OutcomeUnknown { attempt_id }) if attempt_id == "a1"
    ));
}

#[test]
fn every_gate_stops_a_decision_before_the_broker() {
    let mut run = Run::start(custom(), false);
    run.hand(Outcome::Snapshot(Ok(true)));
    assert!(matches!(run.at, Decision::Conclude(Conclusion::NoAction)));

    let mut run = Run::start(custom(), false);
    run.hand(Outcome::Snapshot(Ok(false)));
    run.hand(Outcome::Unresolved(Ok(Some("old".to_string()))));
    assert!(matches!(
        &run.at,
        Decision::Conclude(Conclusion::OutcomeUnknown { attempt_id }) if attempt_id == "old"
    ));

    let mut run = Run::start(custom(), false);
    run.grant = "grant-none".to_string();
    run.hand(Outcome::Snapshot(Ok(false)));
    run.hand(Outcome::Unresolved(Ok(None)));
    assert!(matches!(
        &run.at,
        Decision::Fail(ControllerError::Policy(PolicyError::UnknownGrant { .. }))
    ));

    let mut run = Run::start(custom(), false);
    run.hand(Outcome::Snapshot(Ok(false)));
    run.hand(Outcome::Unresolved(Ok(None)));
    let outside = ContextFacts { canonical_target: Some("/etc/file".to_string()), ..facts() };
    run.hand(Outcome::Facts { facts: outside, resolved: resolved(&["etc", "file"]) });
    assert!(matches!(
        &run.at,
        Decision::Fail(ControllerError::Executor(ExecutorError::Worker(
            WorkerError::OutsideScope { .. }
        )))
    ));

    let mut run = Run::start(custom(), false);
    run.hand(Outcome::Snapshot(Ok(false)));
    run.hand(Outcome::Unresolved(Ok(None)));
    let unresolved = ContextFacts { canonical_target: None, ..facts() };
    run.hand(Outcome::Facts { facts: unresolved, resolved: resolved(&["scope", "file"]) });
    assert!(matches!(
        &run.at,
        Decision::Conclude(Conclusion::EffectDenied { reason })
            if reason == "mode ask: permission required"
    ));

    let mut run = Run::start(custom(), false);
    run.runtime.policy.enroll_deny(resolved(&["scope"])).expect("enrolled");
    run.hand(Outcome::Snapshot(Ok(false)));
    run.hand(Outcome::Unresolved(Ok(None)));
    run.hand(Outcome::Facts { facts: facts(), resolved: resolved(&["scope", "file"]) });
    assert!(matches!(
        &run.at,
        Decision::Conclude(Conclusion::EffectDenied { reason }) if reason == "mode deny"
    ));

    let mut run = Run::start(custom(), false);
    run.hand(Outcome::Snapshot(Ok(false)));
    run.hand(Outcome::Unresolved(Ok(None)));
    run.hand(Outcome::Facts { facts: facts(), resolved: resolved(&["scope", "file"]) });
    run.hand(Outcome::Cancelled(Ok(true)));
    assert!(matches!(
        &run.at,
        Decision::Conclude(Conclusion::EffectDenied { reason }) if reason == "task cancelled"
    ));
}

#[test]
fn failures_keep_their_words() {
    let mut run = Run::start(custom(), false);
    run.hand(Outcome::Snapshot(Err(StoreError::Storage("disk".to_string()))));
    match &run.at {
        Decision::Fail(e) => assert!(e.message().contains("disk")),
        other => panic!("{other:?}"),
    }
    let model: ControllerError = ControllerError::Model(ModelError::NoEligibleCandidate {
        purpose: "main".to_string(),
    });
    assert!(model.message().contains("main"));
    let executor: ControllerError = ControllerError::Executor(ExecutorError::ModeAsk);
    assert_eq!(executor.message(), ExecutorError::<String>::ModeAsk.message());
    let serial: ControllerError = ControllerError::Serialization("eof".to_string());
    assert_eq!(serial.message(), "serialization failed: eof");
}

#[test]
fn a_controller_error_has_the_code_of_its_cause() {
    let code = |e: ControllerError| e.error_code();
    assert!(matches!(
        code(ControllerError::Store(StoreError::AlreadyTerminal)),
        ErrorCode::AlreadyTerminal
    ));
    assert!(matches!(
        code(ControllerError::Executor(ExecutorError::Cancelled)),
        ErrorCode::Cancelled
    ));
    assert!(matches!(
        code(ControllerError::Scheduler("gone".to_string())),
        ErrorCode::InternalError
    ));
}

#[test]
fn a_performed_read_is_proven_by_its_digest() {
    let marked = format!("read-performed sha256={DIGEST}");
    assert_eq!(read_performed_digest(&marked).as_deref(), Some(DIGEST));
    let lost = format!("{marked}; receipt lost after dispatch");
    assert_eq!(read_performed_digest(&lost).as_deref(), Some(DIGEST));
    assert_eq!(read_performed_digest(&format!("{marked}0")), None);
    assert_eq!(read_performed_digest(&marked[..80]), None);
    assert_eq!(read_performed_digest(&marked.to_uppercase()), None);
    assert_eq!(read_performed_digest(DIGEST), None);
}

fn row(task: &str, state: &str, detail: Option<String>) -> AttemptRow {
    AttemptRow { owner_task: task.to_string(), state: state.to_string(), detail }
}

#[test]
fn only_an_unknown_attempt_with_a_marker_is_reconciled() {
    let (runtime, _) = runtime();
    let marked = Some(format!("read-performed sha256={DIGEST}; receipt lost after dispatch"));
    let done = runtime
        .reconcile_unknown("a1", "t1", Ok(Some(row("t1", "unknown", marked.clone()))))
        .expect("reconciled");
    assert_eq!(done.marker, DIGEST);
    assert_eq!(
        done.cause,
        format!("attempt a1 reconciled as executed from sha256={DIGEST}")
    );
    assert_eq!(done.detail, format!("read-performed sha256={DIGEST}"));
    assert_eq!(done.evidence, format!("reconciled attempt a1 from sha256={DIGEST}"));
    assert!(matches!(
        runtime.reconcile_unknown("a1", "t1", Ok(None)),
        Err(StoreError::NotFound(_))
    ));
    assert!(matches!(
        runtime.reconcile_unknown("a1", "t1", Ok(Some(row("t2", "unknown", marked.clone())))),
        Err(StoreError::InvalidInput(InvalidCause::AttemptTaskMismatch { .. }))
    ));
    assert!(matches!(
        runtime.reconcile_unknown("a1", "t1", Ok(Some(row("t1", "confirmed", marked)))),
        Err(StoreError::Conflict(ConflictCause::AttemptNotReconcileable { .. }))
    ));
    assert!(matches!(
        runtime.reconcile_unknown("a1", "t1", Ok(Some(row("t1", "unknown", None)))),
        Err(StoreError::InvalidInput(InvalidCause::MissingReadMarker { .. }))
    ));
    assert_eq!(evidence_subject("t1"), "task:t1");
}

#[test]
fn answers_and_tool_calls_are_spelled() {
    assert_eq!(answer_text(&known_ready()), "option:known_ready");
    assert_eq!(answer_text(&custom()), "go on");
    assert_eq!(find_read(&Vec::new()), None);
    let bare = vec![ToolCall { tool: "read_file".to_string(), path: None }];
    assert_eq!(find_read(&bare).as_deref(), Some(""));
}

#[test]
fn a_pass_runs_the_first_node_that_need_not_wait() {
    let (runtime, _) = runtime();
    let admitted = runtime.scheduler_step(PassStep::AdmitNext, Some(3), false);
    assert!(matches!(admitted, PassStep::BeginWait { node: 3 }));
    let waits = runtime.scheduler_step(admitted, None, true);
    assert!(matches!(waits, PassStep::AdmitNext));
    let idle = runtime.scheduler_step(waits, None, false);
    assert!(matches!(idle, PassStep::Idle));
    let ready = runtime.scheduler_step(PassStep::BeginWait { node: 4 }, None, false);
    assert!(matches!(ready, PassStep::Run { node: 4 }));
    assert_eq!(node_release(&Ok(Conclusion::Completed)), NodeRelease::Complete);
    assert_eq!(node_release(&Ok(Conclusion::Waiting)), NodeRelease::Settle);
    let failed = Err(ControllerError::Scheduler("gone".to_string()));
    assert_eq!(node_release(&failed), NodeRelease::Settle);
}

#[test]
fn a_runtime_prepares_and_dispatches_through_its_broker() {
    let document = "config_version = 1\n\
         [connections.local]\nkind = \"local\"\nendpoint = \"http://127.0.0.1:11434\"\n\
         [models.defaults]\n\
         model = { mode = \"fixed\", connection = \"local\", model_id = \"m\" }\n\
         effort = { mode = \"auto\" }\nfallback = { mode = \"auto\" }\n";
    let mut runtime = Runtime::open(
        "/data",
        LoopbackProvider::new(),
        &Vec::new(),
        ConfigFile::Bytes(document.as_bytes().to_vec()),
    )
    .expect("opens");
    runtime.purpose = "main".to_string();
    let manifest = runtime
        .prepare_request("/w", "goal: x\nread /scope/file")
        .map_err(|e| e.message())
        .expect("prepared");
    assert_eq!(manifest.purpose, "main");
    let reply = runtime.dispatch_request("/w", &manifest).map_err(|e| e.message()).expect("sent");
    assert_eq!(find_read(&reply.tool_calls).as_deref(), Some("/scope/file"));
    assert_eq!(runtime.broker.accounted_requests(), 1);
    assert!(matches!(
        runtime.dispatch_request("/w", &manifest),
        Err(ModelError::AttemptAlreadyAccounted { .. })
    ));
    let (mut bare, _) = self::runtime();
    assert!(bare.prepare_request("/w", "x").is_err());
}
