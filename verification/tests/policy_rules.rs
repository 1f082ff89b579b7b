use rivect::contracts::EffectClass;
use rivect::policy::address::{loopback_v6, v4_number, v6_groups};
use rivect::policy::paths::{
    covers_identity, normalize_component, CanonicalPath, Inspection, PathSight, PathWalk, WalkStep,
};
use rivect::policy::url::{
    decoded_identity, egress_filesystem_shape, normalize_egress_url, percent_decode,
    same_decoded_identity, EgressFsShape, SchemeKnowledge,
};
use rivect::policy::{
    preapproval_scope, AdmissionContext, CanonicalScope, DenyConsult, ModeDecision,
    PermissionMode, Policy, PolicyError,
};

fn identity(parts: &[&str]) -> CanonicalPath {
    CanonicalPath {
        components: parts.iter().map(|p| p.to_string()).collect(),
        collapsed_missing_tail: false,
    }
}

fn context(mode: PermissionMode) -> AdmissionContext {
    AdmissionContext {
        mode,
        in_grant_scope: true,
        budget_remaining: true,
        in_trusted_scope: true,
        has_checkpoint: true,
        previously_approved: true,
        within_declared_bounds: true,
        dry_run: false,
    }
}

#[test]
fn modes_read_back_from_their_ids() {
    for mode in PermissionMode::all() {
        assert_eq!(PermissionMode::from_id(mode.id()), Some(mode));
    }
    assert_eq!(PermissionMode::from_id("root"), None);
    assert_eq!(PermissionMode::default(), PermissionMode::Manual);
    assert_eq!(ModeDecision::Ask.token(), "ask");
}

#[test]
fn a_revoked_grant_admits_nothing() {
    let mut policy = Policy::default();
    let grant = policy.grant_classes("/s".to_string(), vec![EffectClass::Read, EffectClass::Exec]);
    assert_eq!(policy.admit_class(&grant, EffectClass::Exec).expect("admitted").scope_root, "/s");
    assert!(matches!(
        policy.admit_class(&grant, EffectClass::Write),
        Err(PolicyError::ClassNotAdmitted { .. })
    ));
    policy.revoke(&grant);
    assert!(matches!(
        policy.admit_class(&grant, EffectClass::Read),
        Err(PolicyError::Revoked { .. })
    ));
    assert!(matches!(
        policy.admit_class("nobody", EffectClass::Read),
        Err(PolicyError::UnknownGrant { .. })
    ));
    assert!(policy.grant(&grant).is_some());
}

#[test]
fn a_deny_rule_outranks_every_mode() {
    let mut policy = Policy::default();
    policy.enroll_deny(Ok(identity(&["s", "secret"]))).expect("enrolled");
    for mode in PermissionMode::all() {
        let inside = policy.decide(
            "/s/secret/key",
            EffectClass::Read,
            &context(mode),
            Ok(identity(&["s", "secret", "key"])),
        );
        assert_eq!(inside, ModeDecision::Deny, "{mode:?}");
        let unresolved =
            policy.decide("/s/x", EffectClass::Read, &context(mode), Err(PolicyError::InvalidPath));
        assert_eq!(unresolved, ModeDecision::Deny, "{mode:?}");
    }
    let beside = policy.decide(
        "/s/open",
        EffectClass::Read,
        &context(PermissionMode::Manual),
        Ok(identity(&["s", "open"])),
    );
    assert_eq!(beside, ModeDecision::Allow);
    policy.revoke_deny(Ok(identity(&["s", "secret"]))).expect("revoked");
    assert!(!policy.covers(Ok(identity(&["s", "secret", "key"]))));
    assert!(matches!(
        policy.covers_report(Err(PolicyError::SymlinkLoop)),
        Err(PolicyError::SymlinkLoop)
    ));
    assert!(policy.covers(Err(PolicyError::SymlinkLoop)));
}

#[test]
fn the_read_only_mode_lets_only_reads_through() {
    let policy = Policy::default();
    for class in [EffectClass::Write, EffectClass::Exec, EffectClass::Egress] {
        let verdict = policy.decide(
            "/s/x",
            class,
            &context(PermissionMode::ReadOnly),
            Ok(identity(&["s", "x"])),
        );
        assert_eq!(verdict, ModeDecision::Deny);
    }
    let outside = AdmissionContext { in_grant_scope: false, ..context(PermissionMode::Manual) };
    assert_eq!(
        policy.decide("/s/x", EffectClass::Read, &outside, Ok(identity(&["s", "x"]))),
        ModeDecision::Ask
    );
}

#[test]
fn a_collapsed_rule_covers_what_lies_below_only() {
    let denied = CanonicalPath { collapsed_missing_tail: true, ..identity(&["s"]) };
    assert!(!covers_identity(&denied, &identity(&["s"])));
    assert!(covers_identity(&denied, &identity(&["s", "x"])));
    assert!(covers_identity(&identity(&["s"]), &identity(&["s"])));
    assert!(!covers_identity(&identity(&["s", "x"]), &identity(&["s"])));
    assert!(covers_identity(&identity(&["S"]), &identity(&["s", "x"])), "case does not matter");
}

#[test]
fn components_are_decomposed() {
    assert_eq!(normalize_component("caf\u{e9}"), "cafe\u{301}");
    assert_eq!(normalize_component("plain"), "plain");
    let composed = CanonicalPath {
        components: vec![normalize_component("caf\u{e9}")],
        collapsed_missing_tail: false,
    };
    let spelled = CanonicalPath {
        components: vec![normalize_component("cafe\u{301}")],
        collapsed_missing_tail: false,
    };
    assert!(covers_identity(&composed, &spelled));
}

fn walk(path: &str, mut see: impl FnMut(&str) -> PathSight) -> Result<CanonicalPath, PolicyError> {
    let mut at = PathWalk::start(&path.as_bytes().to_vec())?;
    loop {
        match at.advance() {
            WalkStep::Done(p) => return Ok(p),
            WalkStep::NotText => return Err(PolicyError::InvalidPath),
            WalkStep::Inspect(i) => {
                let i: Inspection = i;
                let candidate = i.candidate();
                at = i.observe(see(&candidate))?;
            }
        }
    }
}

#[test]
fn a_walk_resolves_links_dots_and_parents() {
    let found = walk("/a/./b/../link/x", |p| match p {
        "/a/link" => PathSight::Link(b"/real".to_vec()),
        _ => PathSight::Present,
    })
    .expect("resolved");
    assert_eq!(found.components, vec!["real", "x"]);
    assert!(!found.collapsed_missing_tail);
    let looped = walk("/l", |_| PathSight::Link(b"/l".to_vec()));
    assert!(matches!(looped, Err(PolicyError::SymlinkLoop)));
    let unreadable = walk("/l", |_| PathSight::Unreadable("denied".to_string()));
    assert!(matches!(unreadable, Err(PolicyError::PathInspection { .. })));
    let broken = walk("/l", |_| PathSight::LinkUnreadable("denied".to_string()));
    assert!(matches!(broken, Err(PolicyError::SymlinkRead { .. })));
    let missing = walk("/gone/x", |_| PathSight::Missing).expect("a missing tail is kept");
    assert_eq!(missing.components, vec!["gone", "x"]);
    assert!(PathWalk::start(&b"relative".to_vec()).is_err());
}

#[test]
fn addresses_are_read_in_every_notation() {
    assert_eq!(v4_number("127.0.0.1"), Some(0x7f00_0001));
    assert_eq!(v4_number("0x7f.1"), Some(0x7f00_0001));
    assert_eq!(v4_number("017700000001"), Some(0x7f00_0001));
    assert_eq!(v4_number("127.1"), Some(0x7f00_0001));
    assert_eq!(v4_number("+127.1"), None);
    assert_eq!(v4_number("0x+7f.1"), None);
    assert_eq!(v4_number("0+177.1"), None);
    assert_eq!(v4_number("256.0.0.1"), None);
    assert_eq!(v4_number("example.org"), None);
    assert_eq!(v6_groups("::1"), Some(vec![0, 0, 0, 0, 0, 0, 0, 1]));
    assert!(v6_groups("::1::").is_none());
    assert!(loopback_v6("::1"));
    assert!(!loopback_v6("::2"));
}

#[test]
fn percent_escapes_are_decoded() {
    assert_eq!(percent_decode("a%20b").as_deref(), Some("a b"));
    assert_eq!(percent_decode("%zz"), None);
    assert_eq!(percent_decode("%ff"), None);
    assert_eq!(decoded_identity("a%2e"), "a.");
    assert!(same_decoded_identity("a%20b", "a b"));
    assert!(!same_decoded_identity("a", "b"));
}

#[test]
fn spellings_of_one_target_are_denied_together() {
    let mut policy = Policy::default();
    policy.enroll_deny_target("https://example.org/");
    for spelling in [
        "https://example.org/",
        "HTTPS://EXAMPLE.ORG/",
        "https://example.org:443/",
        " https://example.org/",
    ] {
        assert!(matches!(
            policy.deny_consult(spelling, EffectClass::Egress),
            DenyConsult::Denied
        ));
    }
    assert!(policy.egress_denied("HTTPS://example.org:443/"));
    assert!(!policy.egress_denied("https://example.com/"));
    assert!(policy.target_denied(
        "https://example.org/",
        EffectClass::Egress,
        Err(PolicyError::InvalidPath)
    ));
}

#[test]
fn urls_normalize() {
    let known = normalize_egress_url("HTTP://Example.ORG:80/a", SchemeKnowledge::Carried);
    assert_eq!(known.as_deref(), Some("http://example.org/a"));
    assert!(matches!(
        egress_filesystem_shape("file:///etc/hosts"),
        EgressFsShape::Absolute(p) if p == "/etc/hosts"
    ));
}

#[test]
fn preapproval_keys_keep_classes_apart() {
    let read = preapproval_scope(
        EffectClass::Read,
        "/s",
        CanonicalScope::Path("/s".to_string()),
    );
    let write = preapproval_scope(
        EffectClass::Write,
        "/s",
        CanonicalScope::Path("/s".to_string()),
    );
    assert!(read.is_some());
    assert_ne!(read, write);
    assert_eq!(preapproval_scope(EffectClass::Read, "/s", CanonicalScope::NotUnicode), None);
}

#[test]
fn a_default_port_folds_away_and_another_stays() {
    let form = |raw: &str| normalize_egress_url(raw, SchemeKnowledge::Carried);
    assert_eq!(form("http://[::1]:80/a").as_deref(), Some("http://[::1]/a"));
    assert_eq!(form("https://[::1]:+443/x").as_deref(), Some("https://[::1]/x"));
    assert_eq!(form("https://[::1]:+80/x").as_deref(), Some("https://[::1]:80/x"));
    assert_eq!(form("http://h:+80/a").as_deref(), Some("http://h:+80/a"));
    assert_eq!(form("http://h:99999/a").as_deref(), Some("http://h:99999/a"));
}
