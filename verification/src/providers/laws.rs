//! What the credential seam and the fixture provider promise, over the texts
//! themselves.

use crate::config::{self, ConnKind};
use crate::executor;
use crate::policy::scan;
use crate::policy::spelling;
use crate::providers::{
    self, CredentialBinding, ProviderError, ReplyView, SecretRef, SecretRefError, StoreCondition,
    StoreKind, StorePlatform, UsageDelta,
};
use crate::text;
use vstd::prelude::*;

verus! {

/// One segment of a scope: some characters, no slash, no white space.
pub open spec fn segment(s: Seq<char>) -> bool {
    &&& s.len() > 0
    &&& !s.contains('/')
    &&& forall|i: int| 0 <= i < s.len() ==> !text::is_white_space(#[trigger] s[i])
}

/// A label that holds no colon is parted from its scope at the colon behind
/// it.
proof fn lemma_parted(label: Seq<char>, scope: Seq<char>)
    requires
        !label.contains(':'),
    ensures
        scan::parted(label + seq![':'] + scope, ':') == Some((label, scope)),
{
    let raw = label + seq![':'] + scope;
    let n = label.len() as int;
    assert(raw[n] == ':');
    assert(seq![':'].contains(raw[n])) by {
        assert(seq![':'][0] == ':');
    }
    assert forall|i: int| 0 <= i < n implies !seq![':'].contains(#[trigger] raw[i]) by {
        assert(raw[i] == label[i]);
    }
    spelling::lemma_first_is(raw, seq![':'], n);
    assert(raw.take(n) =~= label);
    assert(raw.skip(n + 1) =~= scope);
}

proof fn lemma_last_at(a: Seq<char>, c: char, b: Seq<char>)
    requires
        !b.contains(c),
    ensures
        scan::last_at(a + seq![c] + b, c) == a.len(),
    decreases b.len(),
{
    let whole = a + seq![c] + b;
    if b.len() > 0 {
        let d = b.drop_last();
        assert(whole.drop_last() =~= a + seq![c] + d);
        assert(whole.last() == b[b.len() - 1]);
        assert(!d.contains(c)) by {
            if d.contains(c) {
                let k = choose|k: int| 0 <= k < d.len() && d[k] == c;
                assert(b[k] == c);
            }
        }
        lemma_last_at(a, c, d);
    }
}

/// The trailing segment of a scope is its profile, and the leading one its
/// service.
pub proof fn law_scope_has_its_ends(service: Seq<char>, between: Seq<char>, profile: Seq<char>)
    requires
        !service.contains('/'),
        !profile.contains('/'),
    ensures
        providers::service_of(service + seq!['/'] + between) == service,
        providers::profile_of(between + seq!['/'] + profile) == profile,
        providers::service_of(service) == service,
        providers::profile_of(profile) == profile,
{
    reveal_strlit("/");
    let marks = "/"@;
    assert(marks.contains('/')) by {
        assert(marks[0] == '/');
    }
    let s = service + seq!['/'] + between;
    let n = service.len() as int;
    assert forall|i: int| 0 <= i < n implies !marks.contains(#[trigger] s[i]) by {
        assert(s[i] == service[i]);
    }
    spelling::lemma_first_is(s, marks, n);
    assert(s.take(n) =~= service);
    assert forall|i: int| 0 <= i < n implies !marks.contains(#[trigger] service[i]) by {}
    spelling::lemma_first_is(service, marks, n);
    assert(service.take(n) =~= service);
    lemma_last_at(between, '/', profile);
    let p = between + seq!['/'] + profile;
    assert(p.skip(between.len() as int + 1) =~= profile);
    lemma_no_last(profile, '/');
}

proof fn lemma_no_last(s: Seq<char>, c: char)
    requires
        !s.contains(c),
    ensures
        scan::last_at(s, c) == -1,
    decreases s.len(),
{
    if s.len() > 0 {
        let d = s.drop_last();
        assert(s[s.len() - 1] == s.last());
        assert(!d.contains(c)) by {
            if d.contains(c) {
                let k = choose|k: int| 0 <= k < d.len() && d[k] == c;
                assert(s[k] == c);
            }
        }
        lemma_no_last(d, c);
    }
}

proof fn lemma_two_segments(service: Seq<char>, profile: Seq<char>)
    requires
        segment(service),
        segment(profile),
    ensures
        providers::is_scope(service + seq!['/'] + profile),
{
    let s = service + seq!['/'] + profile;
    executor::laws::lemma_split_join(service, '/', profile);
    executor::laws::lemma_split_one(service, '/');
    executor::laws::lemma_split_one(profile, '/');
    assert(text::split(s, '/') =~= seq![service, profile]);
    assert forall|i: int| 0 <= i < s.len() implies !text::is_white_space(#[trigger] s[i]) by {
        if i < service.len() {
            assert(s[i] == service[i]);
        } else if i > service.len() {
            assert(s[i] == profile[i - service.len() - 1]);
        }
    }
}

proof fn lemma_label_text(label: Seq<char>)
    requires
        label == "keyring"@ || label == "keychain"@ || label == "secret-service"@ || label
            == "secret_service"@,
    ensures
        providers::is_store_label(label),
        !label.contains(':'),
{
    reveal_strlit("keyring");
    reveal_strlit("keychain");
    reveal_strlit("secret-service");
    reveal_strlit("secret_service");
    assert forall|i: int| 0 <= i < label.len() implies providers::is_label_char(
        #[trigger] label[i],
    ) && label[i] != ':' by {}
}

proof fn lemma_labels_differ()
    ensures
        "keyring"@ != "keychain"@,
        "keyring"@ != "secret-service"@,
        "keyring"@ != "secret_service"@,
        "keychain"@ != "secret-service"@,
        "keychain"@ != "secret_service"@,
{
    reveal_strlit("keyring");
    reveal_strlit("keychain");
    reveal_strlit("secret-service");
    reveal_strlit("secret_service");
    assert("keyring"@.len() == 7 && "keychain"@.len() == 8 && "secret-service"@.len() == 14
        && "secret_service"@.len() == 14);
}

/// A reference names its store in front of the first colon and its scope
/// behind it: `keyring` is the native store, the other labels one class on
/// every platform. Nothing of the text is lost.
pub proof fn law_reference_reads_as_spelled(
    service: Seq<char>,
    profile: Seq<char>,
    native: StoreKind,
)
    requires
        segment(service),
        segment(profile),
    ensures
        ({
            let scope = service + seq!['/'] + profile;
            let keyring = "keyring"@ + seq![':'] + scope;
            let keychain = "keychain"@ + seq![':'] + scope;
            let hyphen = "secret-service"@ + seq![':'] + scope;
            let under = "secret_service"@ + seq![':'] + scope;
            &&& providers::parsed_ref(keyring, native) == Ok::<
                SecretRef<Seq<char>>,
                SecretRefError<Seq<char>>,
            >(SecretRef { store: native, raw: keyring, scope })
            &&& providers::parsed_ref(keychain, native) == Ok::<
                SecretRef<Seq<char>>,
                SecretRefError<Seq<char>>,
            >(SecretRef { store: StoreKind::Keychain, raw: keychain, scope })
            &&& providers::parsed_ref(hyphen, native) == Ok::<
                SecretRef<Seq<char>>,
                SecretRefError<Seq<char>>,
            >(SecretRef { store: StoreKind::SecretService, raw: hyphen, scope })
            &&& providers::parsed_ref(under, native) == Ok::<
                SecretRef<Seq<char>>,
                SecretRefError<Seq<char>>,
            >(SecretRef { store: StoreKind::SecretService, raw: under, scope })
        }),
{
    let scope = service + seq!['/'] + profile;
    lemma_two_segments(service, profile);
    lemma_label_text("keyring"@);
    lemma_label_text("keychain"@);
    lemma_label_text("secret-service"@);
    lemma_label_text("secret_service"@);
    lemma_labels_differ();
    lemma_parted("keyring"@, scope);
    lemma_parted("keychain"@, scope);
    lemma_parted("secret-service"@, scope);
    lemma_parted("secret_service"@, scope);
}

/// A text without a colon, and one with white space or an empty segment in its
/// scope, is no reference.
pub proof fn law_loose_text_is_no_reference(
    raw: Seq<char>,
    label: Seq<char>,
    scope: Seq<char>,
    native: StoreKind,
)
    requires
        !raw.contains(':'),
        !label.contains(':'),
        scope.len() == 0 || scope[0] == '/' || scope.last() == '/' || (exists|i: int|
            0 <= i < scope.len() && text::is_white_space(#[trigger] scope[i])),
    ensures
        providers::parsed_ref(raw, native) matches Err(SecretRefError::NotScoped),
        providers::parsed_ref(label + seq![':'] + scope, native) matches Err(
            SecretRefError::NotScoped,
        ),
{
    assert forall|i: int| 0 <= i < raw.len() implies !seq![':'].contains(#[trigger] raw[i]) by {
        if seq![':'].contains(raw[i]) {
            assert(raw[i] == ':');
        }
    }
    spelling::lemma_first_is(raw, seq![':'], raw.len() as int);
    lemma_parted(label, scope);
    if scope.len() > 0 && scope.last() == '/' {
        let d = scope.drop_last();
        assert(scope =~= d + seq!['/'] + Seq::<char>::empty());
        executor::laws::lemma_split_join(d, '/', Seq::empty());
        let pieces = text::split(scope, '/');
        assert(text::split(Seq::<char>::empty(), '/') =~= seq![Seq::<char>::empty()]);
        assert(pieces[pieces.len() - 1].len() == 0);
    } else if scope.len() > 0 && scope[0] == '/' {
        let d = scope.skip(1);
        assert(scope =~= Seq::<char>::empty() + seq!['/'] + d);
        executor::laws::lemma_split_join(Seq::empty(), '/', d);
        assert(text::split(Seq::<char>::empty(), '/') =~= seq![Seq::<char>::empty()]);
        assert(text::split(scope, '/')[0].len() == 0);
    }
}

/// A connection with a profile takes the reference of that profile, whatever
/// reference of its own it carries; one without a profile takes its own,
/// whatever any profile says.
pub proof fn law_profile_reference_comes_first(
    connection: Seq<char>,
    service: Seq<char>,
    profile: Seq<char>,
    own: Option<Seq<char>>,
    declared: Option<Seq<char>>,
    native: StoreKind,
)
    requires
        segment(service),
        segment(profile),
    ensures
        ({
            let scope = service + seq!['/'] + profile;
            let raw = "keyring"@ + seq![':'] + scope;
            let expected = Ok::<SecretRef<Seq<char>>, ProviderError<Seq<char>>>(
                SecretRef { store: native, raw, scope },
            );
            &&& providers::credential_of(
                connection,
                Some(CredentialBinding { profile: Some(profile), credential_ref: own }),
                Some(raw),
                native,
            ) == expected
            &&& providers::credential_of(
                connection,
                Some(CredentialBinding { profile: None, credential_ref: Some(raw) }),
                declared,
                native,
            ) == expected
        }),
{
    law_reference_reads_as_spelled(service, profile, native);
    law_scope_has_its_ends(service, service, profile);
}

/// What keeps a connection from its credential is told apart: no such
/// connection, no reference where it is looked for, and a reference for
/// another profile.
pub proof fn law_missing_credential_is_named(
    connection: Seq<char>,
    service: Seq<char>,
    profile: Seq<char>,
    other: Seq<char>,
    own: Option<Seq<char>>,
    declared: Option<Seq<char>>,
    native: StoreKind,
)
    requires
        segment(service),
        segment(other),
        other != profile,
    ensures
        providers::credential_of(connection, None, declared, native) matches Err(
            ProviderError::UnknownConnection,
        ),
        providers::credential_of(
            connection,
            Some(CredentialBinding { profile: Some(profile), credential_ref: own }),
            None,
            native,
        ) matches Err(ProviderError::CredentialUnresolved { connection: c, scope, cause }) && c
            == connection && scope == "profiles."@ + profile + ".credential_ref"@ && cause is None,
        providers::credential_of(
            connection,
            Some(CredentialBinding { profile: None, credential_ref: None }),
            declared,
            native,
        ) matches Err(ProviderError::CredentialUnresolved { connection: c, scope, cause }) && c
            == connection && scope == "connections."@ + connection + ".credential_ref"@
            && cause is None,
        providers::credential_of(
            connection,
            Some(CredentialBinding { profile: Some(profile), credential_ref: own }),
            Some("keyring"@ + seq![':'] + (service + seq!['/'] + other)),
            native,
        ) matches Err(ProviderError::CredentialProfileMismatch { connection: c, profile: p }) && c
            == connection && p == profile,
{
    law_reference_reads_as_spelled(service, other, native);
    law_scope_has_its_ends(service, service, other);
}

/// A backend admits its namespace and what extends it by a dot, and nothing
/// that merely begins with the same characters.
pub proof fn law_namespace_ends_at_a_dot(namespace: Seq<char>, service: Seq<char>, more: Seq<char>)
    ensures
        providers::within_namespace(namespace, service) <==> (service == namespace || exists|
            rest: Seq<char>,
        |
            service == #[trigger] (namespace + seq!['.'] + rest)),
        more.len() > 0 && more[0] != '.' ==> !providers::within_namespace(
            namespace,
            namespace + more,
        ),
        providers::within_namespace(namespace, namespace + seq!['.'] + more),
{
    let dotted = namespace + seq!['.'] + more;
    assert(text::has_prefix(dotted, namespace)) by {
        assert(dotted.take(namespace.len() as int) =~= namespace);
    }
    assert(dotted[namespace.len() as int] == '.');
    if providers::within_namespace(namespace, service) && service != namespace {
        let n = namespace.len() as int;
        let rest = service.skip(n + 1);
        assert(service =~= namespace + seq!['.'] + rest);
    }
    if exists|rest: Seq<char>| service == #[trigger] (namespace + seq!['.'] + rest) {
        let rest = choose|rest: Seq<char>| service == #[trigger] (namespace + seq!['.'] + rest);
        assert(service.take(namespace.len() as int) =~= namespace);
        assert(service[namespace.len() as int] == '.');
    }
    if more.len() > 0 && more[0] != '.' {
        let s = namespace + more;
        assert(s.len() > namespace.len());
        assert(s[namespace.len() as int] == more[0]);
    }
}

/// A store class is there on its own platform and nowhere else.
pub proof fn law_store_class_has_one_platform(kind: StoreKind, platform: StorePlatform)
    ensures
        providers::missing_class(kind, platform) is None <==> (kind is Keychain
            && platform is Macos) || (kind is SecretService && platform is Linux),
{
}

/// What a native store reported is told apart, each with what it is about.
pub proof fn law_store_report_keeps_its_meaning(
    kind: StoreKind,
    scope: Seq<char>,
    reason: Seq<char>,
)
    ensures
        providers::condition_error(kind, scope, StoreCondition::NoEntry) matches
            ProviderError::CredentialAbsent { scope: s } && s == scope,
        providers::condition_error(kind, scope, StoreCondition::Ambiguous) matches
            ProviderError::StoreAmbiguous { store } && store == kind,
        providers::condition_error(kind, scope, StoreCondition::Failed(reason)) matches
            ProviderError::StoreUnavailable { store, reason: r } && store == kind && r == reason,
{
}

proof fn lemma_last_read(lines: Seq<Seq<char>>, i: int, path: Seq<char>)
    requires
        0 <= i < lines.len(),
        lines[i] == "read "@ + path,
        forall|k: int|
            i < k < lines.len() ==> !text::has_prefix(#[trigger] lines[k], "read "@),
    ensures
        providers::last_read(lines) == Some(path),
    decreases lines.len(),
{
    let n = "read "@.len() as int;
    if i == lines.len() - 1 {
        assert(lines.last().take(n) =~= "read "@);
        assert(lines.last().skip(n) =~= path);
    } else {
        assert(!text::has_prefix(lines[lines.len() - 1], "read "@));
        lemma_last_read(lines.drop_last(), i, path);
    }
}

proof fn lemma_no_read(lines: Seq<Seq<char>>)
    requires
        forall|k: int|
            0 <= k < lines.len() ==> !text::has_prefix(#[trigger] lines[k], "read "@),
    ensures
        providers::last_read(lines) is None,
    decreases lines.len(),
{
    if lines.len() > 0 {
        assert(!text::has_prefix(lines[lines.len() - 1], "read "@));
        lemma_no_read(lines.drop_last());
    }
}

/// The fixture provider asks for exactly one read, of the path that the last
/// read line of the inputs names; it reports no usage.
pub proof fn law_last_read_line_is_asked_for(inputs: Seq<char>, i: int, path: Seq<char>)
    requires
        0 <= i < text::lines(inputs).len(),
        text::lines(inputs)[i] == "read "@ + path,
        forall|k: int|
            i < k < text::lines(inputs).len() ==> !text::has_prefix(
                #[trigger] text::lines(inputs)[k],
                "read "@,
            ),
    ensures
        ({
            let r: ReplyView = providers::fixture_reply(inputs);
            &&& r.tool_calls.len() == 1
            &&& r.tool_calls[0].tool == "read_file"@
            &&& r.tool_calls[0].path == Some(path)
            &&& r.usage is Unknown
        }),
{
    lemma_last_read(text::lines(inputs), i, path);
}

/// Inputs without a read line are answered without a tool call.
pub proof fn law_no_read_line_asks_for_nothing(inputs: Seq<char>)
    requires
        forall|k: int|
            0 <= k < text::lines(inputs).len() ==> !text::has_prefix(
                #[trigger] text::lines(inputs)[k],
                "read "@,
            ),
    ensures
        providers::fixture_reply(inputs).tool_calls.len() == 0,
        providers::fixture_reply(inputs).usage is Unknown,
{
    lemma_no_read(text::lines(inputs));
}

/// A fixed model is used offline only over a local connection that is
/// declared; a model that fixes none needs no grant.
pub proof fn law_only_local_models_run_offline(model: config::ModelView, kind: Option<ConnKind>)
    ensures
        providers::offline_verdict(model, kind) is Ok <==> (!(model is Fixed) || (kind matches Some(
            k,
        ) && k is Local)),
        model is Fixed && kind is None ==> (providers::offline_verdict(model, kind) matches Err(
            ProviderError::UnknownConnection,
        )),
        model is Fixed && (kind matches Some(k) && !(k is Local)) ==> (providers::offline_verdict(
            model,
            kind,
        ) matches Err(ProviderError::LiveGrantRequired { kind: g }) && Some(g) == kind),
{
}

/// Only reported units are confirmed, and all of them.
pub proof fn law_reported_units_are_confirmed(units: u64)
    ensures
        providers::confirmed_units(UsageDelta::Reported { units }) == Some(units),
        providers::confirmed_units(UsageDelta::Unknown) is None,
{
}

} // verus!
