//! Provider adapters and the credential seam. A [`SecretRef`] is the only
//! token that crosses from a credential store into configuration, adapters
//! and diagnostics; it names where material lives and never holds any.

use crate::config::{self, ConnKind, Connection, ModelAssign};
use crate::json;
use crate::model::{ManifestView, RequestManifest};
use crate::names::{self, less};
use crate::policy::scan::{self, split_once, strip_prefix};
use crate::table::Table;
use crate::text::{
    self, chars_of, lines_of, owned, same, split_text, starts_with_char, text2, text3, text4, text5,
    white_space_char,
};
use vstd::prelude::*;

pub mod laws;

verus! {

/// A tool call a provider asks for.
#[derive(Debug)]
pub struct ToolCall<T = String> {
    pub tool: T,
    pub path: Option<T>,
}

impl View for ToolCall {
    type V = ToolCall<Seq<char>>;

    open spec fn view(&self) -> ToolCall<Seq<char>> {
        ToolCall { tool: self.tool@, path: text::opt_text(self.path) }
    }
}

/// The physical usage a provider reported for one send.
#[derive(Debug, Clone, Copy, PartialEq, Eq, Structural)]
pub enum UsageDelta {
    /// It reported none.
    Unknown,
    /// It reported these units.
    Reported { units: u64 },
}

pub open spec fn confirmed_units(u: UsageDelta) -> Option<u64> {
    match u {
        UsageDelta::Unknown => None,
        UsageDelta::Reported { units } => Some(units),
    }
}

impl UsageDelta {
    /// The units the provider confirmed.
    pub fn confirmed_total(self) -> (r: Option<u64>)
        ensures
            r == confirmed_units(self),
    {
        match self {
            UsageDelta::Unknown => None,
            UsageDelta::Reported { units } => Some(units),
        }
    }
}

/// What a provider answers.
#[derive(Debug)]
pub struct ProviderReply {
    pub text: String,
    pub tool_calls: Vec<ToolCall>,
    pub usage: UsageDelta,
}

/// The mathematical value of a reply.
pub struct ReplyView {
    pub text: Seq<char>,
    pub tool_calls: Seq<ToolCall<Seq<char>>>,
    pub usage: UsageDelta,
}

pub open spec fn call_views(c: Seq<ToolCall>) -> Seq<ToolCall<Seq<char>>> {
    c.map_values(|t: ToolCall| t@)
}

impl View for ProviderReply {
    type V = ReplyView;

    open spec fn view(&self) -> ReplyView {
        ReplyView {
            text: self.text@,
            tool_calls: call_views(self.tool_calls@),
            usage: self.usage,
        }
    }
}

/// The native secret-store class a credential reference resolves to.
#[derive(Debug, Clone, Copy, PartialEq, Eq, Structural)]
pub enum StoreKind {
    Keychain,
    SecretService,
}

pub open spec fn store_name(s: StoreKind) -> Seq<char> {
    match s {
        StoreKind::Keychain => "keychain"@,
        StoreKind::SecretService => "secret-service"@,
    }
}

impl StoreKind {
    /// The name of this class.
    pub fn name(self) -> (r: &'static str)
        ensures
            r@ == store_name(self),
    {
        match self {
            StoreKind::Keychain => "keychain",
            StoreKind::SecretService => "secret-service",
        }
    }
}

/// Why a text is no usable credential reference.
#[derive(Debug)]
pub enum SecretRefError<T = String> {
    NotScoped,
    UnsupportedStore { store: T },
}

impl View for SecretRefError {
    type V = SecretRefError<Seq<char>>;

    open spec fn view(&self) -> SecretRefError<Seq<char>> {
        match self {
            SecretRefError::NotScoped => SecretRefError::NotScoped,
            SecretRefError::UnsupportedStore { store } => SecretRefError::UnsupportedStore {
                store: store@,
            },
        }
    }
}

/// The diagnostic line of a reference error.
pub open spec fn ref_message(e: SecretRefError<Seq<char>>) -> Seq<char> {
    match e {
        SecretRefError::NotScoped =>
            "credential reference is not a scoped store:scope reference"@,
        SecretRefError::UnsupportedStore { store } =>
            "credential reference names an unsupported credential store: "@ + store,
    }
}

impl SecretRefError {
    /// The diagnostic line of this error.
    pub fn message(&self) -> (r: String)
        ensures
            r@ == ref_message(self@),
    {
        match self {
            SecretRefError::NotScoped => owned(
                "credential reference is not a scoped store:scope reference",
            ),
            SecretRefError::UnsupportedStore { store } => text2(
                "credential reference names an unsupported credential store: ",
                store.as_str(),
            ),
        }
    }
}

impl Clone for SecretRefError {
    fn clone(&self) -> (r: Self)
        ensures
            r@ == self@,
    {
        match self {
            SecretRefError::NotScoped => SecretRefError::NotScoped,
            SecretRefError::UnsupportedStore { store } => SecretRefError::UnsupportedStore {
                store: store.clone(),
            },
        }
    }
}

/// Why a provider call did not succeed.
#[derive(Debug)]
pub enum ProviderError<T = String> {
    UnknownConnection,
    LiveGrantRequired { kind: ConnKind },
    DialectMismatch { connection: T },
    StoreUnavailable { store: StoreKind, reason: T },
    StoreAmbiguous { store: StoreKind },
    CredentialUnresolved { connection: T, scope: T, cause: Option<SecretRefError<T>> },
    CredentialProfileMismatch { connection: T, profile: T },
    CredentialOutsideNamespace { store: StoreKind, scope: T },
    CredentialOccupied { scope: T },
    CredentialAbsent { scope: T },
}

impl View for ProviderError {
    type V = ProviderError<Seq<char>>;

    open spec fn view(&self) -> ProviderError<Seq<char>> {
        match self {
            ProviderError::UnknownConnection => ProviderError::UnknownConnection,
            ProviderError::LiveGrantRequired { kind } => ProviderError::LiveGrantRequired {
                kind: *kind,
            },
            ProviderError::DialectMismatch { connection } => ProviderError::DialectMismatch {
                connection: connection@,
            },
            ProviderError::StoreUnavailable { store, reason } => ProviderError::StoreUnavailable {
                store: *store,
                reason: reason@,
            },
            ProviderError::StoreAmbiguous { store } => ProviderError::StoreAmbiguous {
                store: *store,
            },
            ProviderError::CredentialUnresolved { connection, scope, cause } =>
                ProviderError::CredentialUnresolved {
                connection: connection@,
                scope: scope@,
                cause: match cause {
                    Some(c) => Some(c@),
                    None => None,
                },
            },
            ProviderError::CredentialProfileMismatch { connection, profile } =>
                ProviderError::CredentialProfileMismatch {
                connection: connection@,
                profile: profile@,
            },
            ProviderError::CredentialOutsideNamespace { store, scope } =>
                ProviderError::CredentialOutsideNamespace { store: *store, scope: scope@ },
            ProviderError::CredentialOccupied { scope } => ProviderError::CredentialOccupied {
                scope: scope@,
            },
            ProviderError::CredentialAbsent { scope } => ProviderError::CredentialAbsent {
                scope: scope@,
            },
        }
    }
}

/// The diagnostic line of a provider error.
pub open spec fn provider_message(e: ProviderError<Seq<char>>) -> Seq<char> {
    match e {
        ProviderError::UnknownConnection =>
            "provider capability unavailable: model references unknown connection"@,
        ProviderError::LiveGrantRequired { kind } => "provider capability unavailable: "@
            + config::kind_name(kind) + " connection requires a separate live grant"@,
        ProviderError::DialectMismatch { connection } => "no adapter serves connection "@
            + connection,
        ProviderError::StoreUnavailable { store, reason } => "credential store "@ + store_name(
            store,
        ) + " is unavailable: "@ + reason,
        ProviderError::StoreAmbiguous { store } => "credential store "@ + store_name(store)
            + " answered ambiguously for the scope"@,
        ProviderError::CredentialUnresolved { connection, scope, .. } =>
            "credential for connection "@ + connection + " is unresolved at "@ + scope,
        ProviderError::CredentialProfileMismatch { connection, profile } => "connection "@
            + connection + " binds profile "@ + profile
            + " but the credential scope names another profile"@,
        ProviderError::CredentialOutsideNamespace { store, scope } => "credential scope "@ + scope
            + " is outside the "@ + store_name(store) + " store's admitted namespace"@,
        ProviderError::CredentialOccupied { scope } => "credential scope "@ + scope
            + " already holds material"@,
        ProviderError::CredentialAbsent { scope } => "no credential material at scope "@ + scope,
    }
}

impl ProviderError {
    /// The diagnostic line of this error.
    pub fn message(&self) -> (r: String)
        ensures
            r@ == provider_message(self@),
    {
        match self {
            ProviderError::UnknownConnection => owned(
                "provider capability unavailable: model references unknown connection",
            ),
            ProviderError::LiveGrantRequired { kind } => text3(
                "provider capability unavailable: ",
                kind.name(),
                " connection requires a separate live grant",
            ),
            ProviderError::DialectMismatch { connection } => text2(
                "no adapter serves connection ",
                connection.as_str(),
            ),
            ProviderError::StoreUnavailable { store, reason } => text4(
                "credential store ",
                store.name(),
                " is unavailable: ",
                reason.as_str(),
            ),
            ProviderError::StoreAmbiguous { store } => text3(
                "credential store ",
                store.name(),
                " answered ambiguously for the scope",
            ),
            ProviderError::CredentialUnresolved { connection, scope, .. } => text4(
                "credential for connection ",
                connection.as_str(),
                " is unresolved at ",
                scope.as_str(),
            ),
            ProviderError::CredentialProfileMismatch { connection, profile } => text5(
                "connection ",
                connection.as_str(),
                " binds profile ",
                profile.as_str(),
                " but the credential scope names another profile",
            ),
            ProviderError::CredentialOutsideNamespace { store, scope } => text5(
                "credential scope ",
                scope.as_str(),
                " is outside the ",
                store.name(),
                " store's admitted namespace",
            ),
            ProviderError::CredentialOccupied { scope } => text3(
                "credential scope ",
                scope.as_str(),
                " already holds material",
            ),
            ProviderError::CredentialAbsent { scope } => text2(
                "no credential material at scope ",
                scope.as_str(),
            ),
        }
    }
}

impl Clone for ProviderError {
    fn clone(&self) -> (r: Self)
        ensures
            r@ == self@,
    {
        match self {
            ProviderError::UnknownConnection => ProviderError::UnknownConnection,
            ProviderError::LiveGrantRequired { kind } => ProviderError::LiveGrantRequired {
                kind: *kind,
            },
            ProviderError::DialectMismatch { connection } => ProviderError::DialectMismatch {
                connection: connection.clone(),
            },
            ProviderError::StoreUnavailable { store, reason } => ProviderError::StoreUnavailable {
                store: *store,
                reason: reason.clone(),
            },
            ProviderError::StoreAmbiguous { store } => ProviderError::StoreAmbiguous {
                store: *store,
            },
            ProviderError::CredentialUnresolved { connection, scope, cause } =>
                ProviderError::CredentialUnresolved {
                connection: connection.clone(),
                scope: scope.clone(),
                cause: match cause {
                    Some(c) => Some(c.clone()),
                    None => None,
                },
            },
            ProviderError::CredentialProfileMismatch { connection, profile } =>
                ProviderError::CredentialProfileMismatch {
                connection: connection.clone(),
                profile: profile.clone(),
            },
            ProviderError::CredentialOutsideNamespace { store, scope } =>
                ProviderError::CredentialOutsideNamespace { store: *store, scope: scope.clone() },
            ProviderError::CredentialOccupied { scope } => ProviderError::CredentialOccupied {
                scope: scope.clone(),
            },
            ProviderError::CredentialAbsent { scope } => ProviderError::CredentialAbsent {
                scope: scope.clone(),
            },
        }
    }
}

/// A scoped credential reference.
#[derive(Debug)]
pub struct SecretRef<T = String> {
    pub store: StoreKind,
    pub raw: T,
    pub scope: T,
}

impl View for SecretRef {
    type V = SecretRef<Seq<char>>;

    open spec fn view(&self) -> SecretRef<Seq<char>> {
        SecretRef { store: self.store, raw: self.raw@, scope: self.scope@ }
    }
}

/// The shape of a store label: a letter, then letters, digits, `_`, `-`.
pub open spec fn is_store_label(s: Seq<char>) -> bool {
    &&& s.len() > 0
    &&& scan::is_ascii_letter(s[0])
    &&& forall|i: int| 0 <= i < s.len() ==> is_label_char(#[trigger] s[i])
}

pub open spec fn is_label_char(c: char) -> bool {
    scan::is_ascii_letter(c) || text::is_digit(c) || c == '_' || c == '-'
}

/// The shape of a scope: segments between slashes, none empty, and no white
/// space anywhere.
pub open spec fn is_scope(s: Seq<char>) -> bool {
    &&& s.len() > 0
    &&& forall|i: int| 0 <= i < s.len() ==> !text::is_white_space(#[trigger] s[i])
    &&& forall|i: int|
        0 <= i < text::split(s, '/').len() ==> (#[trigger] text::split(
            s,
            '/',
        )[i]).len() > 0
}

/// The store class a label names; `native` is what `keyring` binds.
pub open spec fn store_class(label: Seq<char>, native: StoreKind) -> Option<StoreKind> {
    if label == "keyring"@ {
        Some(native)
    } else if label == "keychain"@ {
        Some(StoreKind::Keychain)
    } else if label == "secret-service"@ || label == "secret_service"@ {
        Some(StoreKind::SecretService)
    } else {
        None
    }
}

/// The reference that a text spells.
pub open spec fn parsed_ref(raw: Seq<char>, native: StoreKind) -> Result<
    SecretRef<Seq<char>>,
    SecretRefError<Seq<char>>,
> {
    match scan::parted(raw, ':') {
        None => Err(SecretRefError::NotScoped),
        Some((label, scope)) => if !is_store_label(label) || !is_scope(scope) {
            Err(SecretRefError::NotScoped)
        } else {
            match store_class(label, native) {
                Some(store) => Ok(SecretRef { store, raw, scope }),
                None => Err(SecretRefError::UnsupportedStore { store: label }),
            }
        },
    }
}

pub open spec fn ref_outcome(r: Result<SecretRef, SecretRefError>) -> Result<
    SecretRef<Seq<char>>,
    SecretRefError<Seq<char>>,
> {
    match r {
        Ok(s) => Ok(s@),
        Err(e) => Err(e@),
    }
}

fn store_label(s: &str) -> (r: bool)
    ensures
        r == is_store_label(s@),
{
    let chars: Vec<char> = chars_of(s);
    if chars.len() == 0 || !scan::ascii_letter(chars[0]) {
        return false;
    }
    let mut i: usize = 0;
    while i < chars.len()
        invariant
            i <= chars.len(),
            chars@ == s@,
            forall|j: int| 0 <= j < i ==> is_label_char(#[trigger] s@[j]),
        decreases chars.len() - i,
    {
        let c: char = chars[i];
        if !(scan::ascii_letter(c) || (c >= '0' && c <= '9') || c == '_' || c
            == '-') {
            assert(!is_label_char(s@[i as int]));
            return false;
        }
        i = i + 1;
    }
    true
}

fn scope_shaped(s: &str) -> (r: bool)
    ensures
        r == is_scope(s@),
{
    let chars: Vec<char> = chars_of(s);
    if chars.len() == 0 {
        return false;
    }
    let mut i: usize = 0;
    while i < chars.len()
        invariant
            i <= chars.len(),
            chars@ == s@,
            forall|j: int| 0 <= j < i ==> !text::is_white_space(#[trigger] s@[j]),
        decreases chars.len() - i,
    {
        if white_space_char(chars[i]) {
            assert(text::is_white_space(s@[i as int]));
            return false;
        }
        i = i + 1;
    }
    let segments: Vec<String> = split_text(s, '/');
    let ghost views = text::split(s@, '/');
    assert(views == text::texts(segments@));
    let mut k: usize = 0;
    while k < segments.len()
        invariant
            k <= segments.len(),
            views == text::texts(segments@),
            views == text::split(s@, '/'),
            forall|j: int| 0 <= j < k ==> (#[trigger] views[j]).len() > 0,
        decreases segments.len() - k,
    {
        assert(views[k as int] == segments@[k as int]@);
        let n: usize = chars_of(segments[k].as_str()).len();
        if n == 0 {
            assert(text::split(s@, '/')[k as int].len() == 0);
            return false;
        }
        k = k + 1;
    }
    true
}

/// The leading segment of a scope.
pub open spec fn service_of(scope: Seq<char>) -> Seq<char> {
    scan::until(scope, "/"@)
}

/// The trailing segment of a scope.
pub open spec fn profile_of(scope: Seq<char>) -> Seq<char> {
    match scan::parted_last(scope, '/') {
        Some((_, tail)) => tail,
        None => scope,
    }
}

impl SecretRef {
    /// Reads a `store:scope` reference. `keyring` resolves to the native
    /// store class of the platform; any label but the admitted ones is
    /// refused.
    pub fn parse(raw: &str, native: StoreKind) -> (r: Result<SecretRef, SecretRefError>)
        ensures
            ref_outcome(r) == parsed_ref(raw@, native),
    {
        let (label, scope): (String, String) = match split_once(raw, ':') {
            Some(p) => p,
            None => {
                return Err(SecretRefError::NotScoped);
            },
        };
        if !store_label(label.as_str()) || !scope_shaped(scope.as_str()) {
            return Err(SecretRefError::NotScoped);
        }
        let l: &str = label.as_str();
        let store: StoreKind = if same(l, "keyring") {
            native
        } else if same(l, "keychain") {
            StoreKind::Keychain
        } else if same(l, "secret-service") || same(l, "secret_service") {
            StoreKind::SecretService
        } else {
            return Err(SecretRefError::UnsupportedStore { store: label });
        };
        Ok(SecretRef { store, raw: owned(raw), scope })
    }

    /// The resolved store class.
    pub fn store(&self) -> (r: StoreKind)
        ensures
            r == self@.store,
    {
        self.store
    }

    /// The scope path.
    pub fn scope(&self) -> (r: &str)
        ensures
            r@ == self@.scope,
    {
        self.scope.as_str()
    }

    /// The reference as it was written.
    pub fn raw(&self) -> (r: &str)
        ensures
            r@ == self@.raw,
    {
        self.raw.as_str()
    }

    /// The leading scope segment: the account namespace.
    pub fn service(&self) -> (r: String)
        ensures
            r@ == service_of(self@.scope),
    {
        scan::until_first(self.scope.as_str(), "/")
    }

    /// The trailing scope segment: the credential profile.
    pub fn profile(&self) -> (r: String)
        ensures
            r@ == profile_of(self@.scope),
    {
        match scan::split_last(self.scope.as_str(), '/') {
            Some((_, tail)) => tail,
            None => self.scope.clone(),
        }
    }
}

/// The credential-store seam: the only path between a native secret store
/// and an adapter.
pub trait CredentialStore {
    /// The store class this backend serves.
    fn kind(&self) -> StoreKind;

    /// Whether material exists at the scope.
    fn occupied(&self, credential: &SecretRef) -> Result<bool, ProviderError>;

    /// The scope paths under a service.
    fn entry_accounts(&self, service: &str) -> Result<Vec<String>, ProviderError>;

    /// Enrolls material at a scope that holds none.
    fn login(&self, credential: &SecretRef, secret: &[u8]) -> Result<(), ProviderError>;

    /// Reads the material at the scope.
    fn resolve(&self, credential: &SecretRef) -> Result<Vec<u8>, ProviderError>;

    /// Replaces the material at the scope.
    fn refresh(&self, credential: &SecretRef, secret: &[u8]) -> Result<(), ProviderError>;

    /// Deletes the material at the scope.
    fn revoke(&self, credential: &SecretRef) -> Result<(), ProviderError>;

    /// Deletes the material at the scope with its profile.
    fn logout(&self, credential: &SecretRef) -> Result<(), ProviderError>;
}

/// What a native store reported.
#[derive(Debug)]
pub enum StoreCondition<T = String> {
    /// There is no entry.
    NoEntry,
    /// There is more than one entry.
    Ambiguous,
    /// Anything else, in the words of the platform.
    Failed(T),
}

pub open spec fn condition_error(
    kind: StoreKind,
    scope: Seq<char>,
    condition: StoreCondition<Seq<char>>,
) -> ProviderError<Seq<char>> {
    match condition {
        StoreCondition::NoEntry => ProviderError::CredentialAbsent { scope },
        StoreCondition::Ambiguous => ProviderError::StoreAmbiguous { store: kind },
        StoreCondition::Failed(reason) => ProviderError::StoreUnavailable { store: kind, reason },
    }
}

pub open spec fn condition_view(c: StoreCondition) -> StoreCondition<Seq<char>> {
    match c {
        StoreCondition::NoEntry => StoreCondition::NoEntry,
        StoreCondition::Ambiguous => StoreCondition::Ambiguous,
        StoreCondition::Failed(r) => StoreCondition::Failed(r@),
    }
}

/// A service is inside a namespace when it is the namespace or extends it by
/// a component after a dot.
pub open spec fn within_namespace(namespace: Seq<char>, service: Seq<char>) -> bool {
    service == namespace || (text::has_prefix(service, namespace) && service.len()
        > namespace.len() && service[namespace.len() as int] == '.')
}

/// The rules of one native backend: its class and the namespace it admits.
#[derive(Debug)]
pub struct KeyringBackend {
    pub kind: StoreKind,
    pub namespace: String,
}

impl KeyringBackend {
    /// The rules for a class and a namespace.
    pub fn new(kind: StoreKind, namespace: &str) -> (r: Self)
        ensures
            r.kind == kind,
            r.namespace@ == namespace@,
    {
        KeyringBackend { kind, namespace: owned(namespace) }
    }

    /// Whether a service is inside the namespace.
    pub fn in_namespace(&self, service: &str) -> (r: bool)
        ensures
            r == within_namespace(self.namespace@, service@),
    {
        if same(service, self.namespace.as_str()) {
            return true;
        }
        match strip_prefix(service, self.namespace.as_str()) {
            Some(rest) => {
                let dotted: bool = starts_with_char(rest.as_str(), '.');
                assert(rest@ == service@.skip(self.namespace@.len() as int));
                dotted
            },
            None => false,
        }
    }

    /// Refuses a reference of another class or outside the namespace, before
    /// the store is asked.
    pub fn check(&self, credential: &SecretRef) -> (r: Result<(), ProviderError>)
        ensures
            match r {
                Ok(_) => credential@.store == self.kind && within_namespace(
                    self.namespace@,
                    service_of(credential@.scope),
                ),
                Err(e) => !(credential@.store == self.kind && within_namespace(
                    self.namespace@,
                    service_of(credential@.scope),
                )) && e@ == (ProviderError::CredentialOutsideNamespace {
                    store: self.kind,
                    scope: credential@.scope,
                }),
            },
    {
        let service: String = credential.service();
        if credential.store() != self.kind || !self.in_namespace(service.as_str()) {
            return Err(
                ProviderError::CredentialOutsideNamespace {
                    store: self.kind,
                    scope: owned(credential.scope()),
                },
            );
        }
        Ok(())
    }

    /// The error that a store condition is reported as.
    pub fn map_error(&self, credential: &SecretRef, condition: StoreCondition) -> (r: ProviderError)
        ensures
            r@ == condition_error(self.kind, credential@.scope, condition_view(condition)),
    {
        match condition {
            StoreCondition::NoEntry => ProviderError::CredentialAbsent {
                scope: owned(credential.scope()),
            },
            StoreCondition::Ambiguous => ProviderError::StoreAmbiguous { store: self.kind },
            StoreCondition::Failed(reason) => ProviderError::StoreUnavailable {
                store: self.kind,
                reason,
            },
        }
    }

    /// Whether an entry holds material, from what reading it gave: no entry
    /// is an empty slot, every other condition an error.
    pub fn entry_occupied(
        &self,
        credential: &SecretRef,
        read: Result<(), StoreCondition>,
    ) -> (r: Result<bool, ProviderError>)
        ensures
            match read {
                Ok(_) => r == Ok::<bool, ProviderError>(true),
                Err(StoreCondition::NoEntry) => r == Ok::<bool, ProviderError>(false),
                Err(c) => r matches Err(e) && e@ == condition_error(
                    self.kind,
                    credential@.scope,
                    condition_view(c),
                ),
            },
    {
        match read {
            Ok(_) => Ok(true),
            Err(StoreCondition::NoEntry) => Ok(false),
            Err(c) => Err(self.map_error(credential, c)),
        }
    }

    /// Whether enrollment may write: an occupied scope is refused.
    pub fn enrollment(
        &self,
        credential: &SecretRef,
        occupied: Result<bool, ProviderError>,
    ) -> (r: Result<(), ProviderError>)
        ensures
            match occupied {
                Err(e) => r matches Err(x) && x@ == e@,
                Ok(true) => r matches Err(x) && x@ == (ProviderError::CredentialOccupied {
                    scope: credential@.scope,
                }),
                Ok(false) => r is Ok,
            },
    {
        match occupied {
            Err(e) => Err(e),
            Ok(true) => Err(
                ProviderError::CredentialOccupied { scope: owned(credential.scope()) },
            ),
            Ok(false) => Ok(()),
        }
    }

    /// The accounts among the entries of a service: sorted, each once.
    pub fn accounts(
        &self,
        service: &str,
        entries: &Vec<(String, String)>,
    ) -> (r: Result<Vec<String>, ProviderError>)
        ensures
            match r {
                Err(e) => !within_namespace(self.namespace@, service@) && e@ == (
                ProviderError::CredentialOutsideNamespace { store: self.kind, scope: service@ }),
                Ok(accounts) => {
                    &&& within_namespace(self.namespace@, service@)
                    &&& ascending(text::texts(accounts@))
                    &&& forall|a: Seq<char>|
                        text::texts(accounts@).contains(a) <==> listed(entries@, service@, a)
                },
            },
    {
        if !self.in_namespace(service) {
            return Err(
                ProviderError::CredentialOutsideNamespace {
                    store: self.kind,
                    scope: owned(service),
                },
            );
        }
        let mut out: Vec<String> = Vec::new();
        let mut i: usize = 0;
        while i < entries.len()
            invariant
                i <= entries.len(),
                ascending(text::texts(out@)),
                forall|a: Seq<char>| #[trigger]
                    text::texts(out@).contains(a) <==> listed(
                        entries@.take(i as int),
                        service@,
                        a,
                    ),
            decreases entries.len() - i,
        {
            let ghost seen = entries@.take(i as int);
            let ghost next = entries@.take(i as int + 1);
            let ghost held = text::texts(out@);
            assert(next.len() == seen.len() + 1);
            if same(entries[i].0.as_str(), service) {
                let account: String = entries[i].1.clone();
                let ghost name = account@;
                insert_account(&mut out, account);
                assert forall|a: Seq<char>| #[trigger]
                    text::texts(out@).contains(a) <==> listed(next, service@, a) by {
                    if listed(seen, service@, a) {
                        let k = choose|k: int|
                            0 <= k < seen.len() && (#[trigger] seen[k]).0@ == service@
                                && seen[k].1@ == a;
                        assert(next[k] == seen[k]);
                    }
                    assert(next[i as int] == entries@[i as int]);
                    if listed(next, service@, a) {
                        let k = choose|k: int|
                            0 <= k < next.len() && (#[trigger] next[k]).0@ == service@
                                && next[k].1@ == a;
                        if k < seen.len() {
                            assert(seen[k] == next[k]);
                        }
                    }
                    assert(held.contains(a) <==> listed(seen, service@, a));
                }
            } else {
                assert forall|a: Seq<char>| #[trigger]
                    text::texts(out@).contains(a) <==> listed(next, service@, a) by {
                    if listed(seen, service@, a) {
                        let k = choose|k: int|
                            0 <= k < seen.len() && (#[trigger] seen[k]).0@ == service@
                                && seen[k].1@ == a;
                        assert(next[k] == seen[k]);
                    }
                    if listed(next, service@, a) {
                        let k = choose|k: int|
                            0 <= k < next.len() && (#[trigger] next[k]).0@ == service@
                                && next[k].1@ == a;
                        assert(k < seen.len());
                        assert(seen[k] == next[k]);
                    }
                }
            }
            i = i + 1;
        }
        assert(entries@.take(entries@.len() as int) =~= entries@);
        Ok(out)
    }
}

/// An account is listed under a service.
pub open spec fn listed(
    entries: Seq<(String, String)>,
    service: Seq<char>,
    account: Seq<char>,
) -> bool {
    exists|i: int|
        0 <= i < entries.len() && (#[trigger] entries[i]).0@ == service && entries[i].1@ == account
}

/// Strictly ascending texts.
pub open spec fn ascending(s: Seq<Seq<char>>) -> bool {
    forall|i: int, j: int|
        0 <= i < j < s.len() ==> names::text_less(#[trigger] s[i], #[trigger] s[j])
}

/// Puts an account where the order wants it; one that is there stays once.
fn insert_account(out: &mut Vec<String>, account: String)
    requires
        ascending(text::texts(old(out)@)),
    ensures
        ascending(text::texts(final(out)@)),
        forall|a: Seq<char>|
            text::texts(final(out)@).contains(a) <==> (a == account@ || text::texts(
                old(out)@,
            ).contains(a)),
{
    let ghost before = text::texts(out@);
    let ghost name = account@;
    let mut i: usize = 0;
    while i < out.len() && less(out[i].as_str(), account.as_str())
        invariant
            i <= out.len(),
            out@ == old(out)@,
            name == account@,
            before == text::texts(out@),
            forall|j: int| 0 <= j < i ==> names::text_less(#[trigger] before[j], name),
        decreases out.len() - i,
    {
        assert(before[i as int] == out@[i as int]@);
        i = i + 1;
    }
    if i < out.len() {
        assert(before[i as int] == out@[i as int]@);
        if same(out[i].as_str(), account.as_str()) {
            assert(before.contains(name)) by {
                assert(before[i as int] == name);
            }
            return;
        }
    }
    proof {
        if i < before.len() {
            names::lemma_less_total(before[i as int], name);
        }
    }
    out.insert(i, account);
    let ghost after = text::texts(out@);
    proof {
        assert(after =~= before.insert(i as int, name));
        assert forall|x: int, y: int| 0 <= x < y < after.len() implies names::text_less(
            #[trigger] after[x],
            #[trigger] after[y],
        ) by {
            if x < i && y == i {
            } else if x == i && y > i {
                assert(after[y] == before[y - 1]);
                if y - 1 > i {
                    assert(names::text_less(before[i as int], before[y - 1]));
                    names::lemma_less_transitive(name, before[i as int], before[y - 1]);
                }
            } else {
                let a = if x < i {
                    x
                } else {
                    x - 1
                };
                let b = if y < i {
                    y
                } else {
                    y - 1
                };
                assert(after[x] == before[a] && after[y] == before[b]);
            }
        }
        assert forall|a: Seq<char>| after.contains(a) <==> (a == name || before.contains(a)) by {
            if after.contains(a) {
                let k = choose|k: int| 0 <= k < after.len() && after[k] == a;
                if k < i {
                    assert(before[k] == a);
                } else if k > i {
                    assert(before[k - 1] == a);
                }
            }
            if before.contains(a) {
                let k = choose|k: int| 0 <= k < before.len() && before[k] == a;
                if k < i {
                    assert(after[k] == a);
                } else {
                    assert(after[k + 1] == a);
                }
            }
            assert(after[i as int] == name);
        }
    }
}

/// What a refresh caller does.
#[derive(Debug, Clone, Copy, PartialEq, Eq, Structural)]
pub enum RefreshSlot {
    /// It runs the one store write for the scope.
    Lead,
    /// It waits for the outcome of the refresh in flight.
    Join,
}

/// What a refresh of a scope does, given the scopes with one in flight.
pub open spec fn slot_for(flights: Map<Seq<char>, ()>, scope: Seq<char>) -> RefreshSlot {
    if flights.dom().contains(scope) {
        RefreshSlot::Join
    } else {
        RefreshSlot::Lead
    }
}

/// One refresh flies per scope: while one does, every other for the scope
/// joins it; once it landed the next one leads; other scopes are untouched.
pub proof fn law_one_refresh_flies_per_scope(
    flights: Map<Seq<char>, ()>,
    scope: Seq<char>,
    other: Seq<char>,
)
    ensures
        slot_for(flights.insert(scope, ()), scope) == RefreshSlot::Join,
        slot_for(flights.insert(scope, ()).remove(scope), scope) == RefreshSlot::Lead,
        other != scope ==> slot_for(flights.insert(scope, ()), other) == slot_for(flights, other),
        other != scope ==> slot_for(flights.remove(scope), other) == slot_for(flights, other),
{
}

/// Refresh single-flight per scope: while a refresh for one scope is in
/// flight, another refresh for it joins and takes the outcome of the leader.
#[derive(Debug)]
pub struct FlightedStore {
    pub kind: StoreKind,
    /// The scopes with a refresh in flight.
    pub flights: Table<()>,
    pub waiters: u64,
}

impl FlightedStore {
    /// No flight in the air, over a backend of a class.
    pub fn new(kind: StoreKind) -> (r: Self)
        ensures
            r.kind == kind,
            r.flights@ == Map::<Seq<char>, ()>::empty(),
            r.waiters == 0,
    {
        FlightedStore { kind, flights: Table::new(), waiters: 0 }
    }

    /// The callers that wait for a refresh in flight.
    pub fn refresh_waiters(&self) -> (r: u64)
        ensures
            r == self.waiters,
    {
        self.waiters
    }

    /// What a refresh of a credential does. A reference of another class is
    /// refused before a slot is chosen.
    pub fn select(&mut self, credential: &SecretRef) -> (r: Result<RefreshSlot, ProviderError>)
        requires
            old(self).waiters < u64::MAX,
        ensures
            final(self).kind == old(self).kind,
            ({
                let scope = credential@.scope;
                let foreign = credential@.store != old(self).kind;
                let slot = slot_for(old(self).flights@, scope);
                if foreign {
                    &&& r matches Err(e) && e@ == (ProviderError::CredentialOutsideNamespace {
                        store: old(self).kind,
                        scope,
                    })
                    &&& final(self).flights@ == old(self).flights@
                    &&& final(self).waiters == old(self).waiters
                } else if slot == RefreshSlot::Join {
                    &&& r == Ok::<RefreshSlot, ProviderError>(slot)
                    &&& final(self).flights@ == old(self).flights@
                    &&& final(self).waiters == old(self).waiters + 1
                } else {
                    &&& r == Ok::<RefreshSlot, ProviderError>(slot)
                    &&& final(self).flights@ == old(self).flights@.insert(scope, ())
                    &&& final(self).waiters == old(self).waiters
                }
            }),
    {
        if credential.store() != self.kind {
            return Err(
                ProviderError::CredentialOutsideNamespace {
                    store: self.kind,
                    scope: owned(credential.scope()),
                },
            );
        }
        if self.flights.contains(credential.scope()) {
            self.waiters = self.waiters + 1;
            Ok(RefreshSlot::Join)
        } else {
            self.flights.insert(owned(credential.scope()), ());
            Ok(RefreshSlot::Lead)
        }
    }

    /// The leader landed: the flight is gone before its outcome is
    /// published, so a later refresh leads again. Returns the outcome for
    /// the waiters; a leader that never finished leaves them an error.
    pub fn land(&mut self, scope: &str, outcome: Option<Result<(), ProviderError>>) -> (r: Result<
        (),
        ProviderError,
    >)
        ensures
            final(self).kind == old(self).kind,
            final(self).flights@ == old(self).flights@.remove(scope@),
            final(self).waiters == old(self).waiters,
            match outcome {
                Some(Ok(_)) => r is Ok,
                Some(Err(e)) => r matches Err(x) && x@ == e@,
                None => r matches Err(x) && x@ == (ProviderError::StoreUnavailable {
                    store: old(self).kind,
                    reason: "refresh leader panicked"@,
                }),
            },
    {
        let gone: Option<()> = self.flights.remove(scope);
        match outcome {
            Some(result) => result,
            None => Err(
                ProviderError::StoreUnavailable {
                    store: self.kind,
                    reason: owned("refresh leader panicked"),
                },
            ),
        }
    }

    /// A waiter took the outcome.
    pub fn leave(&mut self)
        requires
            old(self).waiters > 0,
        ensures
            final(self).waiters == old(self).waiters - 1,
            final(self).kind == old(self).kind,
            final(self).flights@ == old(self).flights@,
    {
        self.waiters = self.waiters - 1;
    }
}

/// How a connection binds its credential: through a profile or by itself.
#[derive(Debug)]
pub struct CredentialBinding<T = String> {
    pub profile: Option<T>,
    pub credential_ref: Option<T>,
}

pub open spec fn binding_view(b: CredentialBinding) -> CredentialBinding<Seq<char>> {
    CredentialBinding {
        profile: text::opt_text(b.profile),
        credential_ref: text::opt_text(b.credential_ref),
    }
}

/// The platforms that have a native store class.
#[derive(Debug, Clone, Copy, PartialEq, Eq, Structural)]
pub enum StorePlatform {
    Macos,
    Linux,
    Other,
}

/// The class that `keyring` binds on a platform. Where there is no native
/// store the class still resolves, and opening it fails.
pub fn native_store_kind(platform: StorePlatform) -> (r: StoreKind)
    ensures
        r == (if platform == StorePlatform::Linux {
            StoreKind::SecretService
        } else {
            StoreKind::Keychain
        }),
{
    match platform {
        StorePlatform::Linux => StoreKind::SecretService,
        StorePlatform::Macos => StoreKind::Keychain,
        StorePlatform::Other => StoreKind::Keychain,
    }
}

/// Why a class has no backend on a platform at all.
pub open spec fn missing_class(kind: StoreKind, platform: StorePlatform) -> Option<Seq<char>> {
    match kind {
        StoreKind::Keychain => if platform == StorePlatform::Macos {
            None
        } else {
            Some("the keychain store class exists only on macOS"@)
        },
        StoreKind::SecretService => if platform == StorePlatform::Linux {
            None
        } else {
            Some("the secret service store class exists only on linux"@)
        },
    }
}

/// Executable [`missing_class`].
pub fn unavailable_class(kind: StoreKind, platform: StorePlatform) -> (r: Option<&'static str>)
    ensures
        match r {
            Some(reason) => missing_class(kind, platform) == Some(reason@),
            None => missing_class(kind, platform) is None,
        },
{
    match (kind, platform) {
        (StoreKind::Keychain, StorePlatform::Macos) => None,
        (StoreKind::SecretService, StorePlatform::Linux) => None,
        (StoreKind::Keychain, _) => Some("the keychain store class exists only on macOS"),
        (StoreKind::SecretService, _) => Some(
            "the secret service store class exists only on linux",
        ),
    }
}

/// The native store of a class, behind the refresh serializer; `opened` is
/// what opening its backend gave. There is no fallback: a class that the
/// platform does not have, or that does not open, is unavailable.
pub fn native_store(
    kind: StoreKind,
    namespace: &str,
    platform: StorePlatform,
    opened: Result<(), String>,
) -> (r: Result<(KeyringBackend, FlightedStore), ProviderError>)
    ensures
        match missing_class(kind, platform) {
            Some(reason) => r matches Err(e) && e@ == (ProviderError::StoreUnavailable {
                store: kind,
                reason,
            }),
            None => match opened {
                Err(reason) => r matches Err(e) && e@ == (ProviderError::StoreUnavailable {
                    store: kind,
                    reason: reason@,
                }),
                Ok(_) => r matches Ok(s) && s.0.kind == kind && s.0.namespace@ == namespace@
                    && s.1.kind == kind && s.1.flights@ == Map::<Seq<char>, ()>::empty()
                    && s.1.waiters == 0,
            },
        },
{
    match unavailable_class(kind, platform) {
        Some(reason) => Err(
            ProviderError::StoreUnavailable { store: kind, reason: owned(reason) },
        ),
        None => match opened {
            Err(reason) => Err(ProviderError::StoreUnavailable { store: kind, reason }),
            Ok(_) => Ok((KeyringBackend::new(kind, namespace), FlightedStore::new(kind))),
        },
    }
}

/// The credential of a connection: the reference of its profile, or its own
/// when it binds none. The trailing segment of a profile's reference must be
/// the profile's name.
pub open spec fn credential_of(
    connection: Seq<char>,
    binding: Option<CredentialBinding<Seq<char>>>,
    profile_ref: Option<Seq<char>>,
    native: StoreKind,
) -> Result<SecretRef<Seq<char>>, ProviderError<Seq<char>>> {
    match binding {
        None => Err(ProviderError::UnknownConnection),
        Some(b) => {
            let (scope, raw) = match b.profile {
                Some(profile) => ("profiles."@ + profile + ".credential_ref"@, profile_ref),
                None => ("connections."@ + connection + ".credential_ref"@, b.credential_ref),
            };
            match raw {
                None => Err(ProviderError::CredentialUnresolved { connection, scope, cause: None }),
                Some(text) => match parsed_ref(text, native) {
                    Err(e) => Err(
                        ProviderError::CredentialUnresolved { connection, scope, cause: Some(e) },
                    ),
                    Ok(credential) => match b.profile {
                        Some(profile) => if profile_of(credential.scope) != profile {
                            Err(ProviderError::CredentialProfileMismatch { connection, profile })
                        } else {
                            Ok(credential)
                        },
                        None => Ok(credential),
                    },
                },
            }
        },
    }
}

pub open spec fn credential_outcome(r: Result<SecretRef, ProviderError>) -> Result<
    SecretRef<Seq<char>>,
    ProviderError<Seq<char>>,
> {
    match r {
        Ok(s) => Ok(s@),
        Err(e) => Err(e@),
    }
}

pub open spec fn opt_binding(b: Option<&CredentialBinding>) -> Option<
    CredentialBinding<Seq<char>>,
> {
    match b {
        Some(x) => Some(binding_view(*x)),
        None => None,
    }
}

/// Executable [`credential_of`]: `profile_ref` is the reference of the bound
/// profile, when that profile is declared and has one.
pub fn resolve_credential(
    connection: &str,
    binding: Option<&CredentialBinding>,
    profile_ref: Option<&str>,
    native: StoreKind,
) -> (r: Result<SecretRef, ProviderError>)
    ensures
        credential_outcome(r) == credential_of(
            connection@,
            opt_binding(binding),
            json::opt_str(profile_ref),
            native,
        ),
{
    let b: &CredentialBinding = match binding {
        Some(b) => b,
        None => {
            return Err(ProviderError::UnknownConnection);
        },
    };
    match &b.profile {
        Some(profile) => {
            let key: String = text3("profiles.", profile.as_str(), ".credential_ref");
            let raw: &str = match profile_ref {
                Some(t) => t,
                None => {
                    return Err(
                        ProviderError::CredentialUnresolved {
                            connection: owned(connection),
                            scope: key,
                            cause: None,
                        },
                    );
                },
            };
            match SecretRef::parse(raw, native) {
                Err(e) => Err(
                    ProviderError::CredentialUnresolved {
                        connection: owned(connection),
                        scope: key,
                        cause: Some(e),
                    },
                ),
                Ok(credential) => {
                    let named: String = credential.profile();
                    if !same(named.as_str(), profile.as_str()) {
                        return Err(
                            ProviderError::CredentialProfileMismatch {
                                connection: owned(connection),
                                profile: profile.clone(),
                            },
                        );
                    }
                    Ok(credential)
                },
            }
        },
        None => {
            let key: String = text3("connections.", connection, ".credential_ref");
            match &b.credential_ref {
                None => Err(
                    ProviderError::CredentialUnresolved {
                        connection: owned(connection),
                        scope: key,
                        cause: None,
                    },
                ),
                Some(raw) => match SecretRef::parse(raw.as_str(), native) {
                    Err(e) => Err(
                        ProviderError::CredentialUnresolved {
                            connection: owned(connection),
                            scope: key,
                            cause: Some(e),
                        },
                    ),
                    Ok(credential) => Ok(credential),
                },
            }
        },
    }
}

/// A credential never comes from anything but a declared connection, and a
/// profile-bound one always carries the name of its profile.
pub proof fn law_credential_matches_its_binding(
    connection: Seq<char>,
    binding: Option<CredentialBinding<Seq<char>>>,
    profile_ref: Option<Seq<char>>,
    native: StoreKind,
)
    ensures
        credential_of(connection, binding, profile_ref, native) matches Ok(c) ==> binding is Some
            && (binding->0.profile matches Some(p) ==> profile_of(c.scope) == p),
{
}

/// A reference that reads names one of the admitted stores: environment
/// variables, files and bare tokens are refused.
pub proof fn law_no_plaintext_reference(raw: Seq<char>, native: StoreKind)
    ensures
        parsed_ref(raw, native) is Ok ==> match scan::parted(raw, ':') {
            Some((label, _)) => label == "keyring"@ || label == "keychain"@ || label
                == "secret-service"@ || label == "secret_service"@,
            None => false,
        },
{
}

/// A model provider. An implementation may say which connections it serves and
/// what its sends can come to; what it does not say is left open.
pub trait Provider: Sized {
    /// The connections whose dialect this provider speaks.
    open spec fn serving(&self, connection: Seq<char>, entry: Connection<Seq<char>>) -> bool {
        arbitrary()
    }

    /// What the provider is called.
    open spec fn named(&self) -> Seq<char> {
        arbitrary()
    }

    /// The name of the provider.
    fn name(&self) -> (r: &'static str)
        ensures
            r@ == self.named(),
    ;

    /// Whether this provider speaks the dialect of a connection.
    fn serves(&self, connection: &str, entry: &Connection) -> (r: bool)
        ensures
            r == self.serving(connection@, entry@),
    ;

    /// Whether sending a manifest may come to this outcome and leave the
    /// provider like this.
    open spec fn sends(&self, manifest: ManifestView, outcome: SendOutcome, after: Self) -> bool {
        true
    }

    /// Sends one request.
    fn send(&mut self, manifest: &RequestManifest) -> (r: Result<ProviderReply, ProviderError>)
        ensures
            old(self).sends(manifest@, send_outcome(r), *final(self)),
    ;
}

/// What a send comes to.
pub type SendOutcome = Result<ReplyView, ProviderError<Seq<char>>>;

pub open spec fn send_outcome(r: Result<ProviderReply, ProviderError>) -> SendOutcome {
    match r {
        Ok(reply) => Ok(reply@),
        Err(e) => Err(e@),
    }
}

/// Answers from local fixtures only: the last `read <path>` line of the
/// inputs comes back as a tool call.
#[derive(Debug)]
pub struct LoopbackProvider {
    pub calls: u64,
}

/// What the last line with the prefix `read ` asks for.
pub open spec fn last_read(lines: Seq<Seq<char>>) -> Option<Seq<char>>
    decreases lines.len(),
{
    if lines.len() == 0 {
        None
    } else {
        match scan::stripped(lines.last(), "read "@) {
            Some(path) => Some(path),
            None => last_read(lines.drop_last()),
        }
    }
}

/// The answer of the fixture provider.
pub open spec fn fixture_reply(inputs: Seq<char>) -> ReplyView {
    match last_read(text::lines(inputs)) {
        Some(path) => ReplyView {
            text: "performing the admitted read"@,
            tool_calls: seq![ToolCall { tool: "read_file"@, path: Some(path) }],
            usage: UsageDelta::Unknown,
        },
        None => ReplyView {
            text: "no permitted action; waiting for a decision"@,
            tool_calls: Seq::empty(),
            usage: UsageDelta::Unknown,
        },
    }
}

impl LoopbackProvider {
    /// A provider that was not called.
    pub fn new() -> (r: Self)
        ensures
            r.calls == 0,
    {
        LoopbackProvider { calls: 0 }
    }

    /// How often the provider was called.
    pub fn calls(&self) -> (r: u64)
        ensures
            r == self.calls,
    {
        self.calls
    }

    /// The answer to some inputs.
    pub fn answer(inputs: &str) -> (r: ProviderReply)
        ensures
            r@ == fixture_reply(inputs@),
    {
        let lines: Vec<String> = lines_of(inputs);
        let ghost all = text::texts(lines@);
        let mut i: usize = lines.len();
        assert(all.take(all.len() as int) =~= all);
        while i > 0
            invariant
                i <= lines.len(),
                all == text::texts(lines@),
                all == text::lines(inputs@),
                last_read(all) == last_read(all.take(i as int)),
            decreases i,
        {
            i = i - 1;
            assert(all.take(i as int + 1).last() == lines@[i as int]@);
            assert(all.take(i as int + 1).drop_last() =~= all.take(i as int));
            match strip_prefix(lines[i].as_str(), "read ") {
                Some(path) => {
                    let mut tool_calls: Vec<ToolCall> = Vec::new();
                    let call: ToolCall = ToolCall { tool: owned("read_file"), path: Some(path) };
                    let ghost v = call@;
                    tool_calls.push(call);
                    assert(call_views(tool_calls@) =~= seq![v]);
                    return ProviderReply {
                        text: owned("performing the admitted read"),
                        tool_calls,
                        usage: UsageDelta::Unknown,
                    };
                },
                None => {},
            }
        }
        let tool_calls: Vec<ToolCall> = Vec::new();
        assert(call_views(tool_calls@) =~= Seq::empty());
        ProviderReply {
            text: owned("no permitted action; waiting for a decision"),
            tool_calls,
            usage: UsageDelta::Unknown,
        }
    }
}

impl Default for LoopbackProvider {
    fn default() -> (r: Self)
        ensures
            r.calls == 0,
    {
        LoopbackProvider::new()
    }
}

impl Provider for LoopbackProvider {
    open spec fn serving(&self, connection: Seq<char>, entry: Connection<Seq<char>>) -> bool {
        entry.kind == ConnKind::Local
    }

    open spec fn named(&self) -> Seq<char> {
        "loopback"@
    }

    fn name(&self) -> (r: &'static str) {
        "loopback"
    }

    fn serves(&self, connection: &str, entry: &Connection) -> (r: bool) {
        entry.kind == ConnKind::Local
    }

    open spec fn sends(
        &self,
        manifest: ManifestView,
        outcome: SendOutcome,
        after: Self,
    ) -> bool {
        &&& outcome == Ok::<ReplyView, ProviderError<Seq<char>>>(fixture_reply(manifest.inputs))
        &&& after.calls == (if self.calls < u64::MAX {
            (self.calls + 1) as u64
        } else {
            self.calls
        })
    }

    fn send(&mut self, manifest: &RequestManifest) -> (r: Result<ProviderReply, ProviderError>) {
        if self.calls < u64::MAX {
            self.calls = self.calls + 1;
        }
        Ok(LoopbackProvider::answer(manifest.inputs.as_str()))
    }
}

/// Whether a fixed model may be used without a live grant: its connection
/// must be declared and local.
pub open spec fn offline_verdict(
    model: config::ModelView,
    kind: Option<ConnKind>,
) -> Result<(), ProviderError<Seq<char>>> {
    match (model, kind) {
        (config::ModelView::Fixed(_), Some(ConnKind::Local)) => Ok(()),
        (config::ModelView::Fixed(_), Some(kind)) => Err(
            ProviderError::LiveGrantRequired { kind },
        ),
        (config::ModelView::Fixed(_), None) => Err(ProviderError::UnknownConnection),
        _ => Ok(()),
    }
}

pub open spec fn unit_outcome(r: Result<(), ProviderError>) -> Result<
    (),
    ProviderError<Seq<char>>,
> {
    match r {
        Ok(_) => Ok(()),
        Err(e) => Err(e@),
    }
}

/// Executable [`offline_verdict`].
pub fn offline_eligible(model: &ModelAssign, connection_kind: Option<ConnKind>) -> (r: Result<
    (),
    ProviderError,
>)
    ensures
        unit_outcome(r) == offline_verdict(model@, connection_kind),
{
    match (model, connection_kind) {
        (ModelAssign::Fixed(_), Some(ConnKind::Local)) => Ok(()),
        (ModelAssign::Fixed(_), Some(kind)) => Err(ProviderError::LiveGrantRequired { kind }),
        (ModelAssign::Fixed(_), None) => Err(ProviderError::UnknownConnection),
        _ => Ok(()),
    }
}

/// Whether a connection of a kind is usable without a live grant.
pub fn offline_usable(connection_kind: Option<ConnKind>) -> (r: bool)
    ensures
        r == (connection_kind == Some(ConnKind::Local)),
{
    match connection_kind {
        Some(ConnKind::Local) => true,
        _ => false,
    }
}

} // verus!
