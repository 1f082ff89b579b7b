use rivect::commands::carrier::{publication_error, recovery_diagnostic, sanitize_status_cause};
use rivect::config::{
    PublicationError, PublicationIntent, PublicationRecovery, PublicationVerdict,
};
use rivect::contracts::ErrorCode;
use rivect::executor::WorkerError;
use rivect::json::Json;
use rivect::state::StoreError;

fn wire_code(err: &PublicationError) -> Option<ErrorCode> {
    publication_error(Json::Number("1".to_string()), err)
        .error
        .map(|error| error.data.code)
}

#[test]
fn publication_error_maps_each_variant_to_its_own_wire_code() {
    assert_eq!(
        wire_code(&PublicationError::TargetAbsent("/data/config.toml".to_string())),
        Some(ErrorCode::NotFound),
        "an absent publication target is not_found, not a generic fault"
    );
    assert_eq!(
        wire_code(&PublicationError::TargetNotUtf8),
        Some(ErrorCode::InvalidInput)
    );
    assert_eq!(
        wire_code(&PublicationError::Target("permission denied".to_string())),
        Some(ErrorCode::StorageUnavailable)
    );
    assert_eq!(
        wire_code(&PublicationError::IdentityMissing),
        Some(ErrorCode::InternalError)
    );
    assert_eq!(
        wire_code(&PublicationError::Write(WorkerError::SandboxSpawnFailed {
            source: "spawn failed".to_string()
        })),
        Some(ErrorCode::CapabilityUnavailable),
        "a sandbox that cannot start is a capability failure, not internal"
    );
    assert_eq!(
        wire_code(&PublicationError::Write(WorkerError::WriteFailed {
            source: "denied".to_string()
        })),
        Some(ErrorCode::Denied),
        "a denied managed write surfaces the executor's denied code"
    );
}

#[test]
fn publication_journal_error_keeps_the_store_code_and_recovery_text() {
    let response = publication_error(
        Json::Number("1".to_string()),
        &PublicationError::Journal(StoreError::Storage("disk full".to_string())),
    );
    let Some(error) = response.error else {
        unreachable!("journal arm must answer an error: {response:?}");
    };
    assert_eq!(error.data.code, ErrorCode::StorageUnavailable);
    assert!(
        error.data.message.contains("retry after checking local storage"),
        "the journal arm keeps the store recovery text: {error:?}"
    );
}

fn recovery(verdict: PublicationVerdict, target: &str) -> PublicationRecovery {
    PublicationRecovery {
        intent: PublicationIntent {
            owner: "cli".to_string(),
            target: target.to_string(),
            admission_seq: 1,
            intended_digest: "digest".to_string(),
            base_digest: None,
            publish_identity: None,
        },
        verdict,
    }
}

#[test]
fn recovery_diagnostic_names_verdict_and_target_only_when_unhealed() {
    for (found, token) in [
        (PublicationVerdict::Old, "old"),
        (PublicationVerdict::ByteIdenticalThird, "byte_identical_third"),
        (PublicationVerdict::Conflicting, "conflicting"),
        (PublicationVerdict::TornOrUnparseable, "torn_or_unparseable"),
        (PublicationVerdict::Absent, "absent"),
        (PublicationVerdict::Unknown, "unknown"),
    ] {
        let line = recovery_diagnostic(&recovery(found, "/data/config.toml"));
        let Some(text) = line else {
            unreachable!("{found:?} must surface a diagnostic");
        };
        assert!(
            text.contains(token),
            "{found:?} diagnostic names what was found: {text}"
        );
        assert!(
            text.contains("/data/config.toml"),
            "{found:?} diagnostic names the target: {text}"
        );
        assert!(
            text.contains("resolution:"),
            "{found:?} diagnostic names the resolution: {text}"
        );
    }
    assert_eq!(
        recovery_diagnostic(&recovery(PublicationVerdict::ExactlyNew, "/data/config.toml")),
        None,
        "the healed receipted verdict stays silent"
    );
}

#[test]
fn recovery_diagnostic_sanitizes_the_target() {
    let line = recovery_diagnostic(&recovery(
        PublicationVerdict::Conflicting,
        "/data/evil\u{7}\u{1b}[2J.toml",
    ));
    let Some(text) = line else {
        unreachable!("an unhealed verdict must surface a diagnostic");
    };
    for ch in text.chars() {
        assert!(
            !ch.is_control(),
            "no control character reaches the diagnostic: {text:?}"
        );
    }
    assert!(
        text.contains("^G"),
        "the bell survives as visible, inert data: {text}"
    );
}

#[test]
fn plain_text_is_kept_and_controls_are_spelled() {
    assert_eq!(sanitize_status_cause("a plain line"), "a plain line");
    assert_eq!(sanitize_status_cause("a\u{1b}b\u{7f}"), "a^[b^?");
}
