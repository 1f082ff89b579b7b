use rivect::config::{Config, Connection, ModelAssign};
use rivect::model::broker::MANDATORY_INSTRUCTIONS;
use rivect::model::{sent_cost_bound, Broker, ModelError, RejectionCause, RequestManifest};
use rivect::names::NameMap;
use rivect::providers::{LoopbackProvider, Provider, ProviderError, ProviderReply};

const LOCAL: &str = "config_version = 1\n\
     [connections.local]\nkind = \"local\"\nendpoint = \"http://127.0.0.1:11434\"\n\
     [models.defaults]\n\
     model = { mode = \"fixed\", connection = \"local\", model_id = \"fixture-model\" }\n\
     effort = { mode = \"auto\" }\n\
     fallback = { mode = \"auto\" }\n";

#[test]
fn dispatch_blocks_a_same_version_rights_drift_on_allows_alone()
-> Result<(), Box<dyn std::error::Error>> {
    let config = Config::parse_validated(LOCAL).map_err(|e| e.message())?;
    let mut broker = Broker::new(LoopbackProvider::new());
    let manifest = broker
        .prepare("main", &config, "/world/drift", "goal: fixture")
        .map_err(|e| e.message())?;
    broker.entitlements.rights = Some(vec!["reserve".to_string()]);
    match broker.dispatch("/world/drift", &manifest) {
        Err(ModelError::EligibilityStale {
            connection,
            frozen: 0,
            current: 0,
            ..
        }) => assert_eq!(connection, "local"),
        Err(other) => return Err(other.message().into()),
        Ok(reply) => {
            return Err(format!("the drifted dispatch must not send: {reply:?}").into());
        }
    }
    Ok(())
}

fn config() -> Config {
    Config::parse_validated(LOCAL).map_err(|e| e.message()).expect("valid")
}

#[test]
fn an_admitted_manifest_is_sent_once_and_accounted_once() {
    let mut broker = Broker::new(LoopbackProvider::new());
    assert_eq!(broker.provider_name(), "loopback");
    let manifest = broker
        .prepare("main", &config(), "/world", "goal: x\nread /a")
        .map_err(|e| e.message())
        .expect("prepared");
    assert_eq!(broker.admitted_attempts(), 1);
    assert_eq!(
        manifest.wire_bytes(),
        format!(
            "{MANDATORY_INSTRUCTIONS}\nmodel: fixed:local/fixture-model\ntools: read_file\n\
             output-reserve: 16384\n\ngoal: x\nread /a"
        )
    );
    let reply = broker.dispatch("/world", &manifest).map_err(|e| e.message()).expect("sent");
    assert_eq!(reply.tool_calls[0].path.as_deref(), Some("/a"));
    assert_eq!(broker.accounted_requests(), 1);
    assert_eq!(broker.admitted_attempts(), 0);
    let again = broker.dispatch("/world", &manifest);
    assert!(matches!(again, Err(ModelError::AttemptAlreadyAccounted { .. })));
    assert_eq!(broker.accounted_requests(), 1);
    let cost = broker.sent_cost_explain(&manifest);
    assert_eq!(cost.bound, 2);
}

#[test]
fn the_cost_bound_counts_started_slices() {
    assert_eq!(sent_cost_bound(""), 1);
    assert_eq!(sent_cost_bound("a"), 2);
    assert_eq!(sent_cost_bound(&"a".repeat(4096)), 2);
    assert_eq!(sent_cost_bound(&"a".repeat(4097)), 3);
}

#[test]
fn only_the_admitted_manifest_is_sent_from_its_own_world() {
    let mut broker = Broker::new(LoopbackProvider::new());
    let manifest = broker
        .prepare("main", &config(), "/world", "goal: x")
        .map_err(|e| e.message())
        .expect("prepared");
    assert!(matches!(
        broker.dispatch("/elsewhere", &manifest),
        Err(ModelError::WorldMismatch { .. })
    ));
    let mut forged = manifest.clone();
    forged.inputs = "goal: y".to_string();
    assert!(matches!(
        broker.dispatch("/world", &forged),
        Err(ModelError::AdmissionMismatch { .. })
    ));
    let mut unknown = manifest.clone();
    unknown.attempt_id = "nobody".to_string();
    assert!(matches!(
        broker.dispatch("/world", &unknown),
        Err(ModelError::NoAdmission { .. })
    ));
}

#[test]
fn a_cancelled_attempt_is_never_sent() {
    let mut broker = Broker::new(LoopbackProvider::new());
    let manifest = broker
        .prepare("main", &config(), "/world", "goal: x")
        .map_err(|e| e.message())
        .expect("prepared");
    assert!(broker.cancel_attempt(&manifest.attempt_id));
    assert!(!broker.cancel_attempt("nobody"));
    assert!(matches!(
        broker.dispatch("/world", &manifest),
        Err(ModelError::AttemptCancelled { .. })
    ));
    assert_eq!(broker.accounted_requests(), 0);
}

#[test]
fn an_unchanged_prefix_keeps_its_epoch() {
    let mut broker = Broker::new(LoopbackProvider::new());
    let a = broker.prepare("main", &config(), "/w", "one").map_err(|e| e.message()).expect("a");
    let b = broker.prepare("main", &config(), "/w", "two").map_err(|e| e.message()).expect("b");
    assert_eq!(a.epoch_id, b.epoch_id);
    assert_eq!(b.mutation_reason, None);
    let other = Config::parse_validated(&LOCAL.replace("fixture-model", "other-model"))
        .map_err(|e| e.message())
        .expect("valid");
    let c = broker.prepare("main", &other, "/w", "three").map_err(|e| e.message()).expect("c");
    assert_ne!(a.epoch_id, c.epoch_id);
    assert_eq!(c.mutation_reason.as_deref(), Some("model switch"));
}

#[test]
fn rights_move_the_entitlement_version() {
    let mut broker = Broker::new(LoopbackProvider::new());
    let manifest = broker
        .prepare("main", &config(), "/w", "goal")
        .map_err(|e| e.message())
        .expect("prepared");
    let before = broker.entitlement_version();
    broker.set_account_rights(&vec!["reserve".to_string()]);
    assert_eq!(broker.entitlement_version(), before + 1);
    broker.set_account_rights(&vec!["reserve".to_string()]);
    assert_eq!(broker.entitlement_version(), before + 1);
    assert!(matches!(
        broker.dispatch("/w", &manifest),
        Err(ModelError::EligibilityStale { .. })
    ));
    assert!(matches!(
        broker.prepare("main", &config(), "/w", "goal"),
        Err(ModelError::NoEligibleCandidate { .. })
    ));
}

#[test]
fn an_oversized_request_is_rejected_not_cut() {
    let mut broker = Broker::new(LoopbackProvider::new());
    let huge = "a".repeat(1048577);
    match broker.prepare("main", &config(), "/w", &huge) {
        Err(ModelError::RequestTooLarge { limit, actual }) => assert!(actual > limit),
        other => panic!("{other:?}"),
    }
    assert_eq!(broker.admitted_attempts(), 0);
}

/// Fails for the connections it is told to fail for.
struct Flaky {
    failing: Vec<String>,
    sent: Vec<String>,
}

impl Provider for Flaky {
    fn name(&self) -> &'static str {
        "flaky"
    }

    fn serves(&self, connection: &str, _entry: &Connection) -> bool {
        connection != "foreign"
    }

    fn send(&mut self, manifest: &RequestManifest) -> Result<ProviderReply, ProviderError> {
        let connection = match &manifest.model {
            ModelAssign::Fixed(f) => f.connection.clone(),
            ModelAssign::Auto { pool } => pool.as_ref().expect("narrowed")[0].clone(),
            ModelAssign::Inherit => panic!("resolved before it is sent"),
        };
        self.sent.push(connection.clone());
        if self.failing.contains(&connection) {
            return Err(ProviderError::DialectMismatch { connection });
        }
        Ok(LoopbackProvider::answer(&manifest.inputs))
    }
}

fn several(fallback: &str) -> Config {
    let mut text = "config_version = 1\n".to_string();
    for name in ["backup", "foreign", "local", "spare"] {
        text.push_str(&format!(
            "[connections.{name}]\nkind = \"local\"\nendpoint = \"http://127.0.0.1:1/{name}\"\n"
        ));
    }
    text.push_str(&format!(
        "[models.defaults]\n\
         model = {{ mode = \"fixed\", connection = \"local\", model_id = \"m\" }}\n\
         effort = {{ mode = \"auto\" }}\n\
         fallback = {fallback}\n"
    ));
    Config::parse_validated(&text).map_err(|e| e.message()).expect("valid")
}

const CHAIN: &str = "{ mode = \"auto\", chain = [\
    { connection = \"foreign\", model_id = \"f\" }, \
    { connection = \"backup\", model_id = \"b\" }, \
    { connection = \"spare\", model_id = \"s\" }] }";

fn failing(names: &[&str]) -> Broker<Flaky> {
    Broker::new(Flaky {
        failing: names.iter().map(|n| n.to_string()).collect(),
        sent: Vec::new(),
    })
}

#[test]
fn a_chain_is_walked_in_order_to_the_first_answer() {
    let mut broker = failing(&["local", "backup"]);
    let manifest = broker
        .prepare("main", &several(CHAIN), "/w", "read /a")
        .map_err(|e| e.message())
        .expect("prepared");
    let reply = broker.dispatch("/w", &manifest).map_err(|e| e.message()).expect("answered");
    assert_eq!(reply.tool_calls[0].path.as_deref(), Some("/a"));
    assert_eq!(broker.provider.sent, ["local", "backup", "spare"]);
    assert_eq!(broker.accounted_requests(), 1);
    assert_eq!(broker.admitted_attempts(), 0);
}

#[test]
fn an_exhausted_chain_names_every_entry() {
    let mut broker = failing(&["local", "backup", "spare"]);
    let manifest = broker
        .prepare("main", &several(CHAIN), "/w", "read /a")
        .map_err(|e| e.message())
        .expect("prepared");
    match broker.dispatch("/w", &manifest) {
        Err(ModelError::FallbackExhausted { rejected, attempted, .. }) => {
            assert_eq!(attempted, ["backup", "spare"]);
            assert_eq!(rejected.len(), 3);
            assert!(matches!(rejected[0].cause, RejectionCause::DialectMismatch));
            assert!(matches!(rejected[1].cause, RejectionCause::SendFailed(_)));
        }
        other => panic!("{other:?}"),
    }
    assert_eq!(broker.accounted_requests(), 0);
    assert_eq!(broker.admitted_attempts(), 1, "the attempt itself stays admitted");
}

#[test]
fn without_a_fallback_the_error_of_the_provider_stands() {
    let mut broker = failing(&["local"]);
    let manifest = broker
        .prepare("main", &several("{ mode = \"off\" }"), "/w", "x")
        .map_err(|e| e.message())
        .expect("prepared");
    assert!(matches!(broker.dispatch("/w", &manifest), Err(ModelError::Provider(_))));
    assert_eq!(broker.provider.sent, ["local"]);
}

#[test]
fn a_manual_choice_is_confined_to_what_was_offered() {
    let mut broker = failing(&["local", "spare"]);
    let manifest = broker
        .prepare("main", &several("{ mode = \"manual\" }"), "/w", "read /a")
        .map_err(|e| e.message())
        .expect("prepared");
    assert!(matches!(
        broker.dispatch("/w", &manifest),
        Err(ModelError::ManualFallbackPending { .. })
    ));
    let offered = broker.pending_choice(&manifest.attempt_id).expect("pending").candidates.clone();
    assert_eq!(offered, ["backup", "spare"]);
    let choose = |broker: &mut Broker<Flaky>, world: &str, name: &str| {
        broker.dispatch_fallback_choice(world, &manifest.attempt_id, name)
    };
    assert!(matches!(
        choose(&mut broker, "/w", "local"),
        Err(ModelError::ManualChoiceRejected { cause: RejectionCause::NotOffered, .. })
    ));
    assert!(matches!(
        choose(&mut broker, "/v", "backup"),
        Err(ModelError::WorldMismatch { .. })
    ));
    assert!(matches!(choose(&mut broker, "/w", "spare"), Err(ModelError::Provider(_))));
    let reply = choose(&mut broker, "/w", "backup").map_err(|e| e.message()).expect("answered");
    assert_eq!(reply.tool_calls[0].path.as_deref(), Some("/a"));
    assert!(broker.take_pending_choice(&manifest.attempt_id).is_none());
    assert!(choose(&mut broker, "/w", "backup").is_err(), "the attempt is spent");
    assert_eq!(broker.provider.sent, ["local", "spare", "backup"]);
    assert_eq!(broker.effort_explain(&manifest).confirmed, None);
    assert!(broker.accounting_record(&manifest.attempt_id).is_none());
    assert_eq!(broker.accounted_requests(), 1);
}

#[test]
fn a_manifest_binds_the_profile_of_its_connection() {
    let mut broker = Broker::new(LoopbackProvider::new());
    broker.prepare("main", &config(), "/w", "goal").map_err(|e| e.message()).expect("prepared");
    let bare = broker.bound_profile().expect("bound");
    assert_eq!((bare.connection.as_str(), bare.profile), ("local", None));
    let mut profiles = NameMap::new();
    profiles.insert("local".to_string(), "work".to_string());
    profiles.insert("other".to_string(), "home".to_string());
    broker.set_profiles(profiles);
    broker.prepare("main", &config(), "/w", "goal").map_err(|e| e.message()).expect("prepared");
    let bound = broker.bound_profile().expect("bound");
    assert_eq!(bound.profile.as_deref(), Some("work"));
}
