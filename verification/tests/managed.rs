use rivect::commands::carrier::{
    admit_config_command, commit_config_edit, config_error, local_command, recovery_diagnostic,
    CarrierFailure, EditRequest, LocalKind,
};
use rivect::commands::methods::{question_reply, status_reply, Revisions, StoredQuestion};
use rivect::commands::{RequestError, Runtime};
use rivect::config::publication::{observe_target, TargetRead};
use rivect::config::{
    recover_publications, resolve_effective, stage_publication, Config, ConfigValue,
    EffectiveConfig, PublicationError, PublicationIntent,
};
use rivect::contracts::{EffectClass, ErrorCode, RpcResponse, TaskId};
use rivect::executor::artifacts::{
    denied_exec_control, denied_write_candidate, denied_write_dir, exec_control_dir,
    exec_control_source, fresh_probe_artifact, fresh_write_artifact, loader_candidates,
    net_deny_filter_dir, net_deny_filter_file, ControlMade, FilterMade,
};
use rivect::executor::run::{Answer, ClosingState, Progress, WorkerCall};
use rivect::executor::{
    AdmittedManagedWrite, ContextFacts, EffectRequest, Executor, ExecutorError, FileFacts,
    FileIdentity, WorkerError, BudgetStatus, DRY_RUN_REASON,
};
use rivect::json::{parse_json, Json};
use rivect::policy::paths::CanonicalPath;
use rivect::policy::{AdmissionContext, ModeDecision, PermissionMode, Policy, PolicyError};
use rivect::state::StoreError;

type TestResult = Result<(), Box<dyn std::error::Error>>;

const BASE_CONFIG: &str = "config_version = 1\n\
     [connections.primary]\n\
     kind = \"api_key\"\n\
     endpoint = \"https://api.openai.com/v1\"\n\
     credential_ref = \"keyring:primary\"\n\
     [models.defaults]\n\
     model = { mode = \"auto\" }\n\
     effort = { mode = \"auto\" }\n\
     fallback = { mode = \"auto\" }\n";

fn opened(bytes: &[u8]) -> TargetRead {
    TargetRead::Opened {
        facts: FileFacts { regular: true, dev: 1, ino: 7, len: bytes.len() as u64 },
        bytes: Ok(bytes.to_vec()),
    }
}

#[test]
fn recovery_diagnostics_compose_over_a_seeded_journal() -> TestResult {
    let target = "/tmp/rivect-recovery-diag/config.toml";
    let mut parsed = Config::parse_validated(BASE_CONFIG).map_err(|e| e.message())?;
    let edit = parsed
        .set("workflow.enabled", ConfigValue::Bool(false))
        .map_err(|e| e.message())?;
    let intent = stage_publication("cli", Some(target), opened(BASE_CONFIG.as_bytes()), &edit)
        .map_err(|e| e.message())?
        .journaled(Ok(1))
        .map_err(|e| e.message())?;
    let journal = vec![intent];

    let held = vec![observe_target(opened(BASE_CONFIG.as_bytes()))];
    let lines: Vec<String> = recover_publications(&journal, &held)
        .iter()
        .filter_map(recovery_diagnostic)
        .collect();
    assert_eq!(lines.len(), 1, "one unresolved verdict, one line");
    assert!(lines[0].contains("old"));
    assert!(lines[0].contains(target));

    let healed = vec![observe_target(opened(&edit.bytes))];
    let silent: Vec<String> = recover_publications(&journal, &healed)
        .iter()
        .filter_map(recovery_diagnostic)
        .collect();
    assert!(
        silent.is_empty(),
        "the receipted verdict emits no diagnostic: {silent:?}"
    );
    Ok(())
}

fn granted() -> (Policy, String) {
    let mut policy = Policy::default();
    let grant = policy.grant_read("/s".to_string());
    (policy, grant)
}

fn write(grant: &str) -> EffectRequest {
    EffectRequest::Write {
        grant_id: grant.to_string(),
        path: "/s/f".to_string(),
        bytes: b"new".to_vec(),
    }
}

fn resolved() -> Result<CanonicalPath, PolicyError> {
    Ok(CanonicalPath {
        components: vec!["s".to_string(), "f".to_string()],
        collapsed_missing_tail: false,
    })
}

fn facts() -> ContextFacts {
    ContextFacts {
        scope: Some("/s".to_string()),
        canonical_target: Some("/s/f".to_string()),
        budget: Ok(BudgetStatus { limit_units: 10, spent: 1, reserved: 1 }),
        checkpoint: Ok(false),
        approved: Ok(false),
    }
}

fn context(mode: PermissionMode) -> AdmissionContext {
    AdmissionContext {
        mode,
        in_grant_scope: true,
        budget_remaining: true,
        in_trusted_scope: true,
        has_checkpoint: true,
        previously_approved: true,
        within_declared_bounds: true,
        dry_run: false,
    }
}

#[test]
fn a_preview_performs_nothing_and_says_so() {
    let (mut policy, grant) = granted();
    let preview = Executor::with_flights(&policy).submit_preview(
        &write(&grant),
        &context(PermissionMode::Yolo),
        resolved(),
    );
    assert_eq!(preview.class, EffectClass::Write);
    assert_eq!(preview.reason, DRY_RUN_REASON);
    assert!(preview.description.contains("/s/f"));
    policy.enroll_deny(resolved()).expect("enrolled");
    let denied = Executor::new(&policy).submit_preview(
        &write(&grant),
        &context(PermissionMode::Yolo),
        resolved(),
    );
    assert_eq!(denied.decision, ModeDecision::Deny);
}

fn managed(grant: &str) -> AdmittedManagedWrite {
    AdmittedManagedWrite {
        task_id: TaskId("t".to_string()),
        attempt_id: "a".to_string(),
        grant_id: grant.to_string(),
        scope_root: "/s".to_string(),
        path: "/s/f".to_string(),
        bytes: b"new".to_vec(),
        expected_identity: FileIdentity { dev: 1, ino: 7 },
    }
}

#[test]
fn a_control_write_is_admitted_against_its_read_grant() {
    let (policy, grant) = granted();
    let executor = Executor::new(&policy);
    let plan = executor
        .admit_managed_write(write(&grant), Ok(FileIdentity { dev: 1, ino: 7 }))
        .map_err(|e| e.message())
        .expect("admitted");
    assert_eq!(plan.scope_root, "/s");
    assert_eq!(plan.bytes, b"new");
    assert!(matches!(
        executor.admit_managed_write(write("nobody"), Ok(FileIdentity { dev: 1, ino: 7 })),
        Err(ExecutorError::Policy(_))
    ));
    assert!(matches!(
        executor.admit_managed_write(write(&grant), Err(WorkerError::WriteUnavailable)),
        Err(ExecutorError::Worker(_))
    ));
    let read = EffectRequest::Read { grant_id: grant, path: "/s/f".to_string() };
    assert!(matches!(
        executor.admit_managed_write(read, Ok(FileIdentity { dev: 1, ino: 7 })),
        Err(ExecutorError::Readonly { class: EffectClass::Read })
    ));
}

#[test]
fn a_control_write_passes_every_gate() {
    let (mut policy, grant) = granted();
    let admitted = managed(&grant);
    let executor = Executor::new(&policy);
    let step = |at, answer| executor.execute_managed_write(&admitted, at, answer);
    let at = step(Progress::Start, Answer::Go);
    assert!(matches!(at, Progress::AskCancelled));
    let at = step(at, Answer::Cancelled(Ok(false)));
    assert!(matches!(at, Progress::Consult));
    let at = step(at, Answer::Facts { facts: facts(), resolved: resolved() });
    assert!(matches!(at, Progress::MarkRunning));
    let at = step(at, Answer::Marked(Ok(())));
    assert!(matches!(
        &at,
        Progress::Perform(WorkerCall::Write { path, expected, .. })
            if path == "/s/f" && expected.ino == 7
    ));
    let at = step(at, Answer::Done(Ok(())));
    assert!(matches!(&at, Progress::Record(c) if c.state == ClosingState::Confirmed));
    let at = step(at, Answer::Recorded(Ok(())));
    assert!(matches!(at, Progress::Return { result: Ok(()), .. }));
    let mutated = step(
        Progress::Perform(WorkerCall::Write {
            scope_root: "/s".to_string(),
            path: "/s/f".to_string(),
            expected: FileIdentity { dev: 1, ino: 7 },
        }),
        Answer::Done(Err(WorkerError::WriteMutationFailed { source: "torn".to_string() })),
    );
    assert!(matches!(&mutated, Progress::Record(c) if c.state == ClosingState::Unknown));
    policy.enroll_deny(resolved()).expect("enrolled");
    let denied = Executor::new(&policy).execute_managed_write(
        &admitted,
        Progress::Consult,
        Answer::Facts { facts: facts(), resolved: resolved() },
    );
    assert!(matches!(
        &denied,
        Progress::Record(c) if c.state == ClosingState::Rejected
            && c.detail.as_deref() == Some("policy deny")
    ));
}

fn effective() -> EffectiveConfig {
    resolve_effective(Some(BASE_CONFIG)).map_err(|e| e.message()).expect("valid")
}

fn switch(effective: &EffectiveConfig) -> Option<bool> {
    effective.parsed.as_ref().and_then(|c| c.workflow.enabled)
}

fn code(response: &RpcResponse) -> Option<ErrorCode> {
    response.error.as_ref().map(|e| e.data.code)
}

#[test]
fn an_edit_is_served_only_where_its_bytes_landed() {
    let id = || Json::Number("1".to_string());
    let request = EditRequest::Assign {
        key: "workflow.enabled".to_string(),
        value: Json::Bool(false),
    };
    let intent = || PublicationIntent {
        owner: "cli".to_string(),
        target: "/c".to_string(),
        admission_seq: 9,
        intended_digest: "d".to_string(),
        base_digest: None,
        publish_identity: None,
    };
    let mut landed = effective();
    let accepted = commit_config_edit(&mut landed, &request).map_err(|e| e.message()).expect("ok");
    let response = admit_config_command(&mut landed, id(), &request, accepted, Ok(intent()));
    let result = response.result.expect("a result");
    assert_eq!(result.get_text("command"), Some("config.set"));
    assert_eq!(result.get_text("key"), Some("workflow.enabled"));
    assert_eq!(result.get_text("owner"), Some("cli"));
    assert_eq!(result.get_u64("admission_seq"), Some(9));
    assert_eq!(switch(&landed), Some(false));

    let mut lost = effective();
    let accepted = commit_config_edit(&mut lost, &request).map_err(|e| e.message()).expect("ok");
    let response = admit_config_command(
        &mut lost,
        id(),
        &request,
        accepted,
        Err(CarrierFailure { admitted: true, error: PublicationError::IdentityMissing }),
    );
    assert_eq!(code(&response), Some(ErrorCode::InternalError));
    assert_eq!(switch(&lost), None, "an edit that did not land is not served");

    let mut unreceipted = effective();
    let accepted =
        commit_config_edit(&mut unreceipted, &request).map_err(|e| e.message()).expect("ok");
    let failure = CarrierFailure {
        admitted: true,
        error: PublicationError::Journal(StoreError::Storage("full".to_string())),
    };
    let response = admit_config_command(&mut unreceipted, id(), &request, accepted, Err(failure));
    assert_eq!(code(&response), Some(ErrorCode::StorageUnavailable));
    assert_eq!(switch(&unreceipted), Some(false), "its bytes are on disk");

    let refused = commit_config_edit(
        &mut unreceipted,
        &EditRequest::Unset { key: "nothing.here".to_string() },
    )
    .map(|_| ())
    .expect_err("refused");
    assert_eq!(code(&config_error(id(), &refused)), Some(ErrorCode::InvalidInput));
}

#[test]
fn local_commands_are_edits_or_refused() {
    let p = |text: &str| parse_json(text).expect("json");
    let full = p("{\"session_id\": \"s\", \"key\": \"k\", \"value\": true}");
    let planned = |local, params: &Json| local_command(local, "config.set".to_string(), params);
    assert!(matches!(
        planned(LocalKind::ConfigSet, &full),
        Ok(EditRequest::Assign { key, value: Json::Bool(true) }) if key == "k"
    ));
    assert!(matches!(
        planned(LocalKind::ConfigUnset, &full),
        Ok(EditRequest::Unset { key }) if key == "k"
    ));
    assert!(matches!(
        planned(LocalKind::ConfigSet, &p("{\"session_id\": \"s\", \"key\": \"k\"}")),
        Err(RequestError::Required { field: "value" })
    ));
    assert!(matches!(
        planned(LocalKind::ConfigUnset, &p("{\"key\": \"k\"}")),
        Err(RequestError::Required { field: "session_id" })
    ));
    assert!(matches!(
        planned(LocalKind::PlannedUnimplemented, &full),
        Err(RequestError::KnownCommandUnavailable { .. })
    ));
    assert!(matches!(
        planned(LocalKind::Unknown, &full),
        Err(RequestError::UnknownLocalCommand { .. })
    ));
}

#[test]
fn reads_report_what_the_store_holds() {
    let id = || Json::Number("1".to_string());
    let effective = effective();
    let list = || Ok(Json::Array(Vec::new()));
    let status =
        status_reply(id(), "s", 2, &effective.workflow_entry, list(), list(), list());
    let result = status.result.expect("a result");
    assert_eq!(result.get_text("state"), Some("ready"));
    assert_eq!(result.get_u64("owner_generation"), Some(2));
    let failed = status_reply(
        id(),
        "s",
        2,
        &effective.workflow_entry,
        list(),
        Err(StoreError::Storage("x".to_string())),
        list(),
    );
    assert_eq!(code(&failed), Some(ErrorCode::StorageUnavailable));
    let asked = StoredQuestion {
        question: Json::Text("why".to_string()),
        intent_revision: 3,
        task_revision: 4,
    };
    let revisions = || Ok(Revisions { task: 8, intent: 9 });
    let open = question_reply(id(), "t", Ok(Some(asked)), revisions()).result.expect("result");
    assert_eq!(open.get_text("question"), Some("why"));
    assert_eq!(open.get_u64("intent_revision"), Some(3));
    let none = question_reply(id(), "t", Ok(None), revisions()).result.expect("result");
    assert!(matches!(none.get("question"), Some(Json::Null)));
    assert_eq!(none.get_u64("task_revision"), Some(8));
}

#[test]
fn a_read_scope_is_granted_to_the_runtime() {
    let mut runtime = Runtime::open(
        "/data",
        rivect::providers::LoopbackProvider::new(),
        &Vec::new(),
        rivect::commands::ConfigFile::Bytes(BASE_CONFIG.as_bytes().to_vec()),
    )
    .expect("opens");
    assert_eq!(runtime.config_for_broker().connections.len(), 1);
    let grant = runtime.set_read_scope("/s".to_string(), "/s/f".to_string());
    assert_eq!(runtime.scoped_grant, grant);
    assert!(runtime.policy.admit_class(&grant, EffectClass::Read).is_ok());
    assert!(runtime.policy.admit_class(&grant, EffectClass::Write).is_err());
}

#[test]
fn artifacts_have_fresh_names_and_typed_failures() {
    assert_eq!(fresh_probe_artifact("/s", 12, "id"), "/s/.rivect-write-probe-12-id");
    assert_eq!(fresh_write_artifact("/s", 12, "id"), "/s/.rivect-write-gate-12-id");
    let root = Some("/tmp".to_string());
    assert_eq!(
        denied_write_dir("/s", &root, 12, "id").as_deref(),
        Some("/tmp/rivect-sandbox-probe-12-id")
    );
    assert_eq!(denied_write_dir("/tmp", &root, 12, "id"), None, "the scope covers the root");
    assert_eq!(denied_write_dir("/s", &None, 12, "id"), None);
    assert!(matches!(
        denied_write_candidate(true, Some("/tmp/d".to_string())),
        Ok(path) if path == "/tmp/d/deny"
    ));
    assert!(matches!(
        denied_write_candidate(true, None),
        Err(WorkerError::SandboxUnavailable { reason }) if reason.contains("no securable")
    ));
    assert_eq!(loader_candidates().len(), 3);
    let dir = exec_control_dir("/tmp", 12);
    assert_eq!(dir, "/tmp/rivect-denied-exec-12");
    assert_eq!(exec_control_source(true), "/usr/bin/true");
    assert_eq!(exec_control_source(false), "/bin/true");
    assert!(matches!(
        denied_exec_control(&dir, ControlMade::Ready),
        Ok(path) if path == "/tmp/rivect-denied-exec-12/denied-exec"
    ));
    let steps = vec![
        ControlMade::NoDirectory("e".to_string()),
        ControlMade::NotPrivate,
        ControlMade::NotCopied("e".to_string()),
        ControlMade::NotExecutable("e".to_string()),
    ];
    for step in steps {
        assert!(matches!(
            denied_exec_control(&dir, step),
            Err(WorkerError::SandboxUnavailable { reason }) if reason.starts_with("denied-exec control")
        ));
    }
    let filters = net_deny_filter_dir("/tmp", 12, "id");
    assert_eq!(filters, "/tmp/rivect-seccomp-filter-12-id");
    assert!(matches!(
        net_deny_filter_file(&filters, FilterMade::Ready),
        Ok(path) if path == "/tmp/rivect-seccomp-filter-12-id/net-deny.bpf"
    ));
    for step in [FilterMade::NoDirectory("e".to_string()), FilterMade::NotPrivate] {
        assert!(net_deny_filter_file(&filters, step).is_err());
    }
    assert!(matches!(
        net_deny_filter_file(&filters, FilterMade::NotWritten("full".to_string())),
        Err(WorkerError::SandboxUnavailable { reason })
            if reason == "linux seccomp: the filter file cannot be written: full"
    ));
}
