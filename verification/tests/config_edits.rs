use rivect::config::{
    Config, ConfigIssue, ConfigValue, ConnKind, EffortAssign, EffortLevel, FallbackAssign,
    FixedModel, ModelAssign, Stage,
};
use rivect::digest::digest_hex;
use rivect::json::parse_json;

const BASE: &str = "config_version = 1\n\
    [workflow]\nenabled = true # on\n\
    [connections.local]\nkind = \"local\"\nendpoint = \"http://127.0.0.1:11434\"\n\
    [connections.api]\nkind = \"api_key\"\nendpoint = \"https://api.example.org\"\n\
    credential_ref = \"keyring:acme/main\"\n\
    [models.defaults]\n\
    model = { mode = \"auto\", pool = [\"local\"] } # the pool\n\
    effort = { mode = \"auto\" }\n\
    fallback = { mode = \"auto\", chain = [{ connection = \"local\", model_id = \"m\" }] }\n\
    [models.groups.deep]\n\
    model = { mode = \"fixed\", connection = \"api\", model_id = \"big\" }\n\
    [models.purposes.review]\n\
    group = \"deep\"\n\
    effort = { mode = \"fixed\", value = \"high\" }\n";

fn base() -> Config {
    Config::parse_validated(BASE).map_err(|e| e.message()).expect("valid")
}

fn rejected(text: &str) -> rivect::config::ConfigError {
    Config::parse_validated(text).map(|_| ()).expect_err("rejected")
}

#[test]
fn a_valid_document_reads_as_a_whole() {
    let config = base();
    assert_eq!(config.version, 1);
    assert_eq!(config.workflow.enabled, Some(true));
    assert_eq!(config.connections.len(), 2);
    assert_eq!(config.connections.get("api").expect("api").kind, ConnKind::ApiKey);
    let review = config.resolve_purpose("review").map_err(|e| e.message()).expect("resolves");
    assert!(matches!(&review.model, ModelAssign::Fixed(m) if m.model_id == "big"));
    assert!(matches!(review.effort, EffortAssign::Fixed { value: EffortLevel::High }));
    let other = config.resolve_purpose("anything").map_err(|e| e.message()).expect("resolves");
    assert!(matches!(&other.model, ModelAssign::Auto { pool: Some(p) } if p.len() == 1));
}

#[test]
fn a_document_is_rejected_with_its_key() {
    let parse = rejected("config_version = ");
    assert_eq!(parse.stage, Stage::Parse);
    let version = rejected(&BASE.replace("config_version = 1", "config_version = 2"));
    assert!(matches!(version.issue, ConfigIssue::UnsupportedConfigVersion));
    let missing = rejected(&BASE.replace("config_version = 1\n", ""));
    assert!(matches!(missing.issue, ConfigIssue::Required { .. }));
    let root = rejected(&format!("{BASE}[other]\n"));
    assert!(matches!(root.issue, ConfigIssue::UnknownRootKey { .. }));
    let kind = rejected(&BASE.replace("\"local\"\nendpoint", "\"cloud\"\nendpoint"));
    assert!(matches!(kind.issue, ConfigIssue::UnsupportedConnectionKind { .. }));
    let secret = rejected(&BASE.replace("credential_ref = \"keyring:acme/main\"\n", ""));
    assert!(matches!(secret.issue, ConfigIssue::CredentialRefRequired { kind: ConnKind::ApiKey }));
    let inline = rejected(&BASE.replace(
        "credential_ref = \"keyring:acme/main\"",
        "api_key = \"SECRET-REDACTED\"",
    ));
    assert!(inline.key.as_deref().unwrap_or("").contains("connections.api"));
    let reference = rejected(&BASE.replace("pool = [\"local\"]", "pool = [\"nowhere\"]"));
    assert!(matches!(reference.issue, ConfigIssue::UnknownConnectionReference { .. }));
    let group = rejected(&BASE.replace("group = \"deep\"", "group = \"none\""));
    assert!(matches!(group.issue, ConfigIssue::UnknownGroupReference { .. }));
    let mode = rejected(&BASE.replace("effort = { mode = \"auto\" }", "effort = { mode = \"x\" }"));
    assert!(matches!(mode.issue, ConfigIssue::UnsupportedEffortMode { .. }));
    assert_eq!(mode.key.as_deref(), Some("models.defaults.effort.mode"));
    assert_eq!(mode.stage, Stage::Schema);
    let workflow = rejected(&BASE.replace("enabled = true", "enabled = 1"));
    assert!(matches!(workflow.issue, ConfigIssue::WorkflowEnabledNotBoolean));
    let local = rejected(&BASE.replace(
        "endpoint = \"http://127.0.0.1:11434\"\n",
        "endpoint = \"http://127.0.0.1:11434\"\ncredential_ref = \"keyring:a/b\"\n",
    ));
    assert!(matches!(local.issue, ConfigIssue::LocalCredentialsForbidden));
}

#[test]
fn an_accepted_edit_reads_back_and_moves_nothing_else() {
    let mut config = base();
    let edit = config
        .set("workflow.enabled", ConfigValue::Bool(false))
        .map_err(|e| e.message())
        .expect("accepted");
    let text = String::from_utf8(edit.bytes.clone()).expect("text");
    assert_eq!(text, BASE.replace("enabled = true # on", "enabled = false # on"));
    assert_eq!(edit.digest, digest_hex(&edit.bytes));
    assert_eq!(config.workflow.enabled, Some(false));
    let again = Config::parse_validated(&text).map_err(|e| e.message()).expect("still valid");
    assert_eq!(again.workflow.enabled, Some(false));
}

#[test]
fn a_merged_assignment_keeps_the_comments() {
    let mut config = base();
    let edit = config
        .set("models.defaults.model", ConfigValue::Model(ModelAssign::Inherit))
        .map_err(|e| e.message())
        .expect("accepted");
    let text = String::from_utf8(edit.bytes).expect("text");
    assert!(text.contains("model = { mode = \"inherit\" } # the pool"), "{text}");
    assert!(Config::parse_validated(&text).is_ok());
}

#[test]
fn every_target_takes_its_own_kind_of_value() {
    let mut config = base();
    let fixed = FixedModel { connection: "local".to_string(), model_id: "m2".to_string() };
    let edits = vec![
        ("models.defaults.model", ConfigValue::Model(ModelAssign::Fixed(fixed.clone()))),
        ("models.defaults.effort", ConfigValue::Effort(EffortAssign::Inherit)),
        ("models.defaults.fallback", ConfigValue::Fallback(FallbackAssign::Off)),
        ("models.groups.fast.model", ConfigValue::Model(ModelAssign::Auto { pool: None })),
        ("models.purposes.main.model", ConfigValue::Model(ModelAssign::Inherit)),
        ("models.purposes.main.effort", ConfigValue::Effort(EffortAssign::Auto)),
        (
            "models.purposes.main.fallback",
            ConfigValue::Fallback(FallbackAssign::Auto { chain: vec![fixed] }),
        ),
        ("models.purposes.main.eligible", ConfigValue::Names(vec!["local".to_string()])),
    ];
    for (key, value) in edits {
        let edit = config.set(key, value).map_err(|e| e.message()).expect(key);
        let text = String::from_utf8(edit.bytes).expect("text");
        assert!(Config::parse_validated(&text).is_ok(), "{key} leaves a valid document: {text}");
    }
    let wrong = config.set("workflow.enabled", ConfigValue::Names(Vec::new()));
    assert!(matches!(
        wrong.map(|_| ()).expect_err("mismatch").issue,
        ConfigIssue::ValueTypeMismatch { .. }
    ));
}

#[test]
fn a_refused_edit_changes_nothing() {
    let mut config = base();
    let before = String::from_utf8(
        config.set("workflow.enabled", ConfigValue::Bool(true)).map_err(|e| e.message()).expect("ok").bytes,
    )
    .expect("text");
    let nowhere = FixedModel { connection: "nowhere".to_string(), model_id: "m".to_string() };
    let refused = config.set("models.defaults.model", ConfigValue::Model(ModelAssign::Fixed(nowhere)));
    assert!(matches!(
        refused.map(|_| ()).expect_err("refused").issue,
        ConfigIssue::UnknownConnectionReference { .. }
    ));
    for key in ["config_version", "models", "workflow.", "other.x", "models.defaults.pool"] {
        assert!(config.set(key, ConfigValue::Bool(true)).is_err(), "{key}");
    }
    let after = String::from_utf8(
        config.set("workflow.enabled", ConfigValue::Bool(true)).map_err(|e| e.message()).expect("ok").bytes,
    )
    .expect("text");
    assert_eq!(before, after);
    let mut empty = Config::default();
    assert!(matches!(
        empty.set("workflow.enabled", ConfigValue::Bool(true)).map(|_| ()).expect_err("none").issue,
        ConfigIssue::NoRetainedDocument
    ));
}

#[test]
fn a_reset_removes_an_override_and_keeps_the_document_valid() {
    let mut config = base();
    let edit = config
        .reset("models.purposes.review.effort")
        .map_err(|e| e.message())
        .expect("reset");
    let text = String::from_utf8(edit.bytes).expect("text");
    assert!(!text.contains("value = \"high\""));
    assert!(Config::parse_validated(&text).is_ok());
    assert!(matches!(
        config.reset("models.defaults.model").map(|_| ()).expect_err("required").issue,
        ConfigIssue::RequiredNotResettable { .. }
    ));
    let unchanged = config
        .reset("models.purposes.nobody.model")
        .map_err(|e| e.message())
        .expect("nothing to reset");
    assert_eq!(String::from_utf8(unchanged.bytes).expect("text"), text);
}

#[test]
fn wire_values_are_read_for_their_key() {
    let mut config = base();
    let value = parse_json("{\"mode\": \"fixed\", \"value\": \"low\"}").expect("json");
    config.set_wire("models.defaults.effort", &value).map_err(|e| e.message()).expect("accepted");
    assert!(matches!(
        config.models.defaults.as_ref().expect("defaults").effort,
        EffortAssign::Fixed { value: EffortLevel::Low }
    ));
    let wrong = parse_json("true").expect("json");
    assert!(config.set_wire("models.defaults.effort", &wrong).is_err());
    assert!(config.set_wire("workflow.enabled", &wrong).is_ok());
}

#[test]
fn purposes_merge_unless_they_disagree() {
    let mut config = base();
    let mut other = Config::parse_validated(&BASE.replace("purposes.review", "purposes.extra"))
        .map_err(|e| e.message())
        .expect("valid");
    config.merge_purposes(&other).map_err(|e| e.message()).expect("merged");
    assert!(config.models.purposes.contains("extra"));
    other
        .set("models.purposes.extra.effort", ConfigValue::Effort(EffortAssign::Auto))
        .map_err(|e| e.message())
        .expect("edited");
    assert!(matches!(
        config.merge_purposes(&other).expect_err("conflict").issue,
        ConfigIssue::ConflictingPurposeDefinitions
    ));
}

#[test]
fn levels_and_kinds_have_names() {
    for level in ["low", "medium", "high"] {
        assert!(EffortLevel::parse(level).is_some(), "{level}");
    }
    assert!(EffortLevel::parse("extreme").is_none());
    assert_eq!(ConnKind::Subscription.name(), "subscription");
    assert_eq!(Stage::Resolve.name(), "resolve");
}

#[test]
fn a_replaced_value_keeps_the_text_around_it() {
    let spaced = BASE.replace("enabled = true # on", "enabled =   true   # on");
    let mut config = Config::parse_validated(&spaced).map_err(|e| e.message()).expect("valid");
    let edit = config
        .set("workflow.enabled", ConfigValue::Bool(false))
        .map_err(|e| e.message())
        .expect("accepted");
    let text = String::from_utf8(edit.bytes).expect("text");
    assert_eq!(text, spaced.replace("=   true   # on", "=   false   # on"));
}
