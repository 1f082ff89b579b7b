use rivect::config::{ConnKind, FixedModel, ModelAssign};
use rivect::providers::{
    native_store, native_store_kind, offline_eligible, offline_usable, resolve_credential,
    CredentialBinding, FlightedStore, KeyringBackend, LoopbackProvider, ProviderError,
    RefreshSlot, SecretRef, SecretRefError, StoreCondition, StoreKind, StorePlatform, UsageDelta,
};

fn reference(raw: &str) -> SecretRef {
    SecretRef::parse(raw, StoreKind::SecretService).expect("a scoped reference")
}

#[test]
fn references_name_an_admitted_store_and_a_scope() {
    let r = reference("keyring:acme/api/main");
    assert_eq!(r.store(), StoreKind::SecretService);
    assert_eq!(r.scope(), "acme/api/main");
    assert_eq!(r.raw(), "keyring:acme/api/main");
    assert_eq!(r.profile(), "main");
    assert_eq!(reference("keychain:a/b").store(), StoreKind::Keychain);
    assert_eq!(reference("secret-service:a/b").store(), StoreKind::SecretService);
    assert_eq!(reference("secret_service:a/b").store(), StoreKind::SecretService);
    for raw in ["token", "env:HOME/x", "file:/etc/x", "keyring:", ":a/b"] {
        assert!(SecretRef::parse(raw, StoreKind::Keychain).is_err(), "{raw}");
    }
    assert!(matches!(
        SecretRef::parse("env:HOME/x", StoreKind::Keychain),
        Err(SecretRefError::UnsupportedStore { store }) if store == "env"
    ));
    assert!(matches!(
        SecretRef::parse("token", StoreKind::Keychain),
        Err(SecretRefError::NotScoped)
    ));
}

#[test]
fn a_native_class_has_no_fallback() {
    assert_eq!(native_store_kind(StorePlatform::Linux), StoreKind::SecretService);
    assert_eq!(native_store_kind(StorePlatform::Macos), StoreKind::Keychain);
    let (rules, flights) =
        native_store(StoreKind::SecretService, "rivect", StorePlatform::Linux, Ok(()))
            .expect("opens");
    assert_eq!(rules.namespace, "rivect");
    assert_eq!(flights.refresh_waiters(), 0);
    assert!(matches!(
        native_store(StoreKind::Keychain, "rivect", StorePlatform::Linux, Ok(())),
        Err(ProviderError::StoreUnavailable { reason, .. })
            if reason == "the keychain store class exists only on macOS"
    ));
    assert!(matches!(
        native_store(StoreKind::SecretService, "rivect", StorePlatform::Macos, Ok(())),
        Err(ProviderError::StoreUnavailable { reason, .. })
            if reason == "the secret service store class exists only on linux"
    ));
    assert!(matches!(
        native_store(
            StoreKind::SecretService,
            "rivect",
            StorePlatform::Linux,
            Err("no bus".to_string())
        ),
        Err(ProviderError::StoreUnavailable { reason, .. }) if reason == "no bus"
    ));
}

#[test]
fn a_backend_serves_its_namespace_only() {
    let rules = KeyringBackend::new(StoreKind::SecretService, "acme");
    assert!(rules.in_namespace("acme"));
    assert!(rules.in_namespace("acme.api"));
    assert!(!rules.in_namespace("acmeapi"));
    assert!(!rules.in_namespace("other"));
    assert!(matches!(
        rules.check(&reference("keychain:acme/main")),
        Err(ProviderError::CredentialOutsideNamespace { .. })
    ));
}

#[test]
fn store_conditions_keep_their_meaning() {
    let rules = KeyringBackend::new(StoreKind::SecretService, "acme");
    let r = reference("keyring:acme/main");
    assert!(matches!(
        rules.map_error(&r, StoreCondition::NoEntry),
        ProviderError::CredentialAbsent { scope } if scope == "acme/main"
    ));
    assert!(matches!(
        rules.map_error(&r, StoreCondition::Ambiguous),
        ProviderError::StoreAmbiguous { store: StoreKind::SecretService }
    ));
    assert!(matches!(
        rules.map_error(&r, StoreCondition::Failed("locked".to_string())),
        ProviderError::StoreUnavailable { reason, .. } if reason == "locked"
    ));
    assert!(matches!(rules.entry_occupied(&r, Ok(())), Ok(true)));
    assert!(matches!(rules.entry_occupied(&r, Err(StoreCondition::NoEntry)), Ok(false)));
    assert!(rules.entry_occupied(&r, Err(StoreCondition::Ambiguous)).is_err());
    assert!(rules.enrollment(&r, Ok(false)).is_ok());
    assert!(matches!(
        rules.enrollment(&r, Ok(true)),
        Err(ProviderError::CredentialOccupied { .. })
    ));
}

#[test]
fn accounts_come_out_sorted_and_once() {
    let rules = KeyringBackend::new(StoreKind::SecretService, "acme");
    let entries = vec![
        ("acme.api".to_string(), "b".to_string()),
        ("acme.api".to_string(), "a".to_string()),
        ("other".to_string(), "x".to_string()),
        ("acme.api".to_string(), "b".to_string()),
    ];
    assert_eq!(rules.accounts("acme.api", &entries).expect("inside"), vec!["a", "b"]);
    assert!(rules.accounts("other", &entries).is_err());
}

#[test]
fn one_refresh_flies_per_scope() {
    let mut store = FlightedStore::new(StoreKind::SecretService);
    let r = reference("keyring:acme/main");
    assert_eq!(store.select(&r).expect("leads"), RefreshSlot::Lead);
    assert_eq!(store.select(&r).expect("joins"), RefreshSlot::Join);
    assert_eq!(store.refresh_waiters(), 1);
    assert_eq!(store.select(&reference("keyring:acme/two")).expect("leads"), RefreshSlot::Lead);
    store.leave();
    assert_eq!(store.refresh_waiters(), 0);
    assert!(store.land("acme/main", Some(Ok(()))).is_ok());
    assert_eq!(store.select(&r).expect("leads again"), RefreshSlot::Lead);
    assert!(store.select(&reference("keychain:acme/main")).is_err());
}

#[test]
fn a_credential_comes_from_its_binding() {
    let native = StoreKind::SecretService;
    let plain = CredentialBinding {
        profile: None,
        credential_ref: Some("keyring:acme/main".to_string()),
    };
    let r = resolve_credential("api", Some(&plain), None, native).expect("own reference");
    assert_eq!(r.scope(), "acme/main");
    let bound = CredentialBinding { profile: Some("work".to_string()), credential_ref: None };
    let r = resolve_credential("api", Some(&bound), Some("keyring:acme/work"), native)
        .expect("profile reference");
    assert_eq!(r.profile(), "work");
    assert!(matches!(
        resolve_credential("api", Some(&bound), Some("keyring:acme/home"), native),
        Err(ProviderError::CredentialProfileMismatch { .. })
    ));
    assert!(matches!(
        resolve_credential("api", None, None, native),
        Err(ProviderError::UnknownConnection)
    ));
    assert!(matches!(
        resolve_credential("api", Some(&bound), None, native),
        Err(ProviderError::CredentialUnresolved { .. })
    ));
    let inline = CredentialBinding { profile: None, credential_ref: Some("token".to_string()) };
    assert!(matches!(
        resolve_credential("api", Some(&inline), None, native),
        Err(ProviderError::CredentialUnresolved {
            cause: Some(SecretRefError::NotScoped),
            ..
        })
    ));
}

#[test]
fn only_local_connections_work_offline() {
    let fixed = ModelAssign::Fixed(FixedModel {
        connection: "local".to_string(),
        model_id: "m".to_string(),
    });
    assert!(offline_eligible(&fixed, Some(ConnKind::Local)).is_ok());
    assert!(matches!(
        offline_eligible(&fixed, Some(ConnKind::ApiKey)),
        Err(ProviderError::LiveGrantRequired { kind: ConnKind::ApiKey })
    ));
    assert!(matches!(
        offline_eligible(&fixed, None),
        Err(ProviderError::UnknownConnection)
    ));
    assert!(offline_usable(Some(ConnKind::Local)));
    assert!(!offline_usable(Some(ConnKind::Subscription)));
}

#[test]
fn the_fixture_provider_answers_the_last_read_line() {
    let reply = LoopbackProvider::answer("goal: x\nread /a\nread /b");
    assert_eq!(reply.tool_calls.len(), 1);
    assert_eq!(reply.tool_calls[0].tool, "read_file");
    assert_eq!(reply.tool_calls[0].path.as_deref(), Some("/b"));
    let none = LoopbackProvider::answer("goal: x");
    assert!(none.tool_calls.is_empty());
    assert_eq!(none.text, "no permitted action; waiting for a decision");
    assert_eq!(UsageDelta::Unknown.confirmed_total(), None);
    assert_eq!(UsageDelta::Reported { units: 5 }.confirmed_total(), Some(5));
}
