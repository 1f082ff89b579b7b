use rivect::commands::carrier::{admitted_step, commit_config_edit, CarrierStep, EditRequest};
use rivect::config::publication::{
    classify_intent, observe_target, receipted, spelled_same_file, written, PublishStep,
    TargetRead, TargetSight,
};
use rivect::config::{
    admit_publication, publish_intent, recover_publications, resolve_effective,
    resolve_pending_publication, stage_publication, Config, ConfigEdit, ConfigValue,
    PublicationAdmission, PublicationError, PublicationIntent, PublicationVerdict,
    PublishIdentity,
};
use rivect::digest::digest_hex;
use rivect::executor::{FileFacts, WorkerError};
use rivect::json::Json;
use rivect::state::StoreError;

const BASE: &str = "config_version = 1\n\
    [workflow]\nenabled = true\n\
    [connections.local]\nkind = \"local\"\nendpoint = \"http://127.0.0.1:11434\"\n\
    [models.defaults]\n\
    model = { mode = \"auto\" }\n\
    effort = { mode = \"auto\" }\n\
    fallback = { mode = \"off\" }\n";

fn edit() -> ConfigEdit {
    let mut config = Config::parse_validated(BASE).map_err(|e| e.message()).expect("valid");
    config.set("workflow.enabled", ConfigValue::Bool(false)).map_err(|e| e.message()).expect("edit")
}

fn opened(bytes: &[u8], ino: u64) -> TargetRead {
    TargetRead::Opened {
        facts: FileFacts { regular: true, dev: 1, ino, len: bytes.len() as u64 },
        bytes: Ok(bytes.to_vec()),
    }
}

fn staged() -> PublicationIntent {
    stage_publication("cli", Some("/data/config.toml"), opened(BASE.as_bytes(), 7), &edit())
        .map_err(|e| e.message())
        .expect("staged")
        .journaled(Ok(4))
        .map_err(|e| e.message())
        .expect("journaled")
}

#[test]
fn a_staged_write_is_recovered_by_its_bytes_and_file() {
    let intent = staged();
    assert_eq!(intent.admission_seq, 4);
    assert_eq!(intent.base_digest.as_deref(), Some(digest_hex(BASE.as_bytes()).as_str()));
    let before = observe_target(opened(BASE.as_bytes(), 7));
    assert_eq!(classify_intent(&intent, &before), PublicationVerdict::Old);
    let after = observe_target(opened(&edit().bytes, 7));
    assert_eq!(classify_intent(&intent, &after), PublicationVerdict::ExactlyNew);
    let replaced = observe_target(opened(&edit().bytes, 8));
    assert_eq!(classify_intent(&intent, &replaced), PublicationVerdict::ByteIdenticalThird);
    let torn = observe_target(opened(b"config_version = ", 7));
    assert_eq!(classify_intent(&intent, &torn), PublicationVerdict::TornOrUnparseable);
    let other = observe_target(opened(b"config_version = 3\n", 7));
    assert_eq!(classify_intent(&intent, &other), PublicationVerdict::Conflicting);
    assert_eq!(classify_intent(&intent, &TargetSight::Absent), PublicationVerdict::Absent);
    assert_eq!(classify_intent(&intent, &TargetSight::Unknown), PublicationVerdict::Unknown);
    let recoveries = recover_publications(&vec![intent], &vec![after]);
    assert!(matches!(
        recoveries[0].receipt(),
        Some(PublishStep::Receipt { admission_seq: 4, .. })
    ));
}

#[test]
fn staging_needs_a_regular_target() {
    let absent = stage_publication("cli", Some("/data/config.toml"), TargetRead::NotFound, &edit());
    assert!(matches!(absent.map(|_| ()), Err(PublicationError::TargetAbsent(_))));
    let failed = stage_publication(
        "cli",
        Some("/data/config.toml"),
        TargetRead::Failed("denied".to_string()),
        &edit(),
    );
    assert!(matches!(failed.map(|_| ()), Err(PublicationError::Target(t)) if t == "denied"));
    let nameless = stage_publication("cli", None, opened(b"", 7), &edit());
    assert!(matches!(nameless.map(|_| ()), Err(PublicationError::TargetNotUtf8)));
    let unjournaled = stage_publication("cli", Some("/c"), opened(BASE.as_bytes(), 7), &edit())
        .map_err(|e| e.message())
        .expect("staged")
        .journaled(Err(StoreError::Storage("full".to_string())));
    assert!(matches!(unjournaled, Err(PublicationError::Journal(_))));
}

#[test]
fn a_pending_command_is_not_journaled_twice() {
    let pending = admit_publication(
        Some("/data/config.toml"),
        &None,
        &observe_target(opened(BASE.as_bytes(), 7)),
        Ok(vec![staged()]),
        Ok(Vec::new()),
        &edit(),
    )
    .map_err(|e| e.message())
    .expect("admitted")
    .expect("answered from the journal");
    assert!(matches!(&pending, PublicationAdmission::Pending(i) if i.admission_seq == 4));
    assert!(matches!(admitted_step(pending), CarrierStep::Resolve(_)));
    let fresh = admit_publication(
        Some("/data/config.toml"),
        &None,
        &observe_target(opened(BASE.as_bytes(), 7)),
        Ok(Vec::new()),
        Ok(Vec::new()),
        &edit(),
    )
    .map_err(|e| e.message())
    .expect("admitted");
    assert!(fresh.is_none(), "nothing answers it, so it is staged");
}

#[test]
fn a_finished_row_answers_only_while_its_bytes_hold() {
    let holds = admit_publication(
        Some("/data/config.toml"),
        &None,
        &observe_target(opened(&edit().bytes, 7)),
        Ok(Vec::new()),
        Ok(vec![staged()]),
        &edit(),
    )
    .map_err(|e| e.message())
    .expect("admitted");
    assert!(matches!(holds, Some(PublicationAdmission::Applied(_))));
    let gone = admit_publication(
        Some("/data/config.toml"),
        &None,
        &observe_target(opened(BASE.as_bytes(), 7)),
        Ok(Vec::new()),
        Ok(vec![staged()]),
        &edit(),
    )
    .map_err(|e| e.message())
    .expect("admitted");
    assert!(gone.is_none());
}

#[test]
fn publishing_writes_then_records_the_receipt() {
    let intent = staged();
    match publish_intent(&intent) {
        PublishStep::Write { scope_root, target, expected } => {
            assert_eq!(scope_root, "/data");
            assert_eq!(target, "/data/config.toml");
            assert_eq!((expected.dev, expected.ino), (1, 7));
        }
        other => panic!("{other:?}"),
    }
    assert!(matches!(written(&intent, Ok(())), PublishStep::Receipt { .. }));
    assert!(matches!(
        written(&intent, Err(WorkerError::WriteUnavailable)),
        PublishStep::Return(Err(PublicationError::Write(WorkerError::WriteUnavailable)))
    ));
    assert!(matches!(receipted(Ok(())), PublishStep::Return(Ok(()))));
    let anonymous = PublicationIntent { publish_identity: None, ..intent };
    assert!(matches!(
        publish_intent(&anonymous),
        PublishStep::Return(Err(PublicationError::IdentityMissing))
    ));
}

#[test]
fn a_foreign_row_is_left_alone() {
    let intent = staged();
    let after = observe_target(opened(&edit().bytes, 7));
    assert!(matches!(
        resolve_pending_publication("other", &intent, &after),
        PublishStep::Return(_)
    ));
    assert!(matches!(
        resolve_pending_publication("cli", &intent, &after),
        PublishStep::Receipt { .. }
    ));
}

#[test]
fn spellings_of_one_file_compare_equal() {
    assert!(spelled_same_file("/data/./config.toml", "/data/config.toml", &None));
    assert!(spelled_same_file("config.toml", "/data/config.toml", &Some("/data".to_string())));
    assert!(!spelled_same_file("/a", "/b", &None));
    let identity = PublishIdentity { dev: 1, ino: 2 };
    assert_eq!(identity.ino, 2);
}

#[test]
fn the_effective_entry_follows_its_source() {
    let shipped = resolve_effective(None).map_err(|e| e.message()).expect("shipped");
    assert!(shipped.parsed.is_none());
    assert_eq!(shipped.workflow_entry.key, "workflow.enabled");
    let user = resolve_effective(Some(BASE)).map_err(|e| e.message()).expect("user");
    assert_ne!(user.sources_digest, shipped.sources_digest);
    assert!(user.parsed.is_some());
    assert!(resolve_effective(Some("config_version = ")).is_err());
}

#[test]
fn a_committed_edit_moves_the_retained_view() {
    let mut effective = resolve_effective(Some(BASE)).map_err(|e| e.message()).expect("user");
    let request = EditRequest::Assign {
        key: "workflow.enabled".to_string(),
        value: Json::Bool(false),
    };
    let accepted = commit_config_edit(&mut effective, &request).map_err(|e| e.message()).expect("ok");
    assert_eq!(
        effective.parsed.as_ref().expect("parsed").workflow.enabled,
        Some(false)
    );
    assert_eq!(
        accepted.before.parsed.as_ref().expect("before").workflow.enabled,
        Some(true)
    );
    let refused = commit_config_edit(
        &mut effective,
        &EditRequest::Unset { key: "models.defaults.model".to_string() },
    );
    assert!(refused.is_err());
}
