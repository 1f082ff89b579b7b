//! Configuration owner: one schema, typed validation of the TOML document,
//! purpose resolution, targeted edits and the public entry projection.

use crate::names::{self, NameMap};
use crate::text::{self, copy_names, copy_opt, owned, same, text2, text3, text4, text5};
use vstd::prelude::*;

pub use crate::config::effective::{
    resolve_effective, ConfigEntry, ConfigSource, ConfigViewValue, EffectiveConfig,
};
pub use crate::config::publication::{
    admit_publication, publish_intent, recover_publications, resolve_pending_publication,
    stage_publication, PublicationAdmission, PublicationError, PublicationIntent,
    PublicationRecovery, PublicationVerdict, PublishIdentity,
};
pub use crate::config::settings::{Config, ConfigEdit, ConfigValue, ResolvedPurpose};
pub use crate::digest::hex;

pub mod document;
pub mod edit;
pub mod effective;
pub mod fields;
pub mod journal;
pub mod laws;
pub mod places;
pub mod precedence;
pub mod publication;
pub mod reading;
pub mod schema;
pub mod settings;
pub mod sources;
pub mod upkeep;
pub mod values;
pub mod wire;

verus! {

/// The one setting the read surface serves.
pub const WORKFLOW_KEY: &'static str = "workflow.enabled";

/// The document every installation starts from.
pub const SHIPPED_DEFAULTS_TOML: &'static str = "config_version = 1\n[workflow]\nenabled = true\n[models.defaults]\nmodel = { mode = \"auto\" }\neffort = { mode = \"auto\" }\nfallback = { mode = \"auto\" }\n";

/// Where in the pipeline a configuration was rejected.
#[derive(Debug, Clone, Copy, PartialEq, Eq, Structural)]
pub enum Stage {
    Parse,
    Schema,
    Resolve,
}

pub open spec fn stage_name(s: Stage) -> Seq<char> {
    match s {
        Stage::Parse => "parse"@,
        Stage::Schema => "schema"@,
        Stage::Resolve => "resolve"@,
    }
}

impl Stage {
    /// The name of this stage.
    pub fn name(self) -> (r: &'static str)
        ensures
            r@ == stage_name(self),
    {
        match self {
            Stage::Parse => "parse",
            Stage::Schema => "schema",
            Stage::Resolve => "resolve",
        }
    }
}

/// How a connection authenticates.
#[derive(Debug, Clone, Copy, PartialEq, Eq, Structural)]
pub enum ConnKind {
    ApiKey,
    Local,
    Subscription,
}

pub open spec fn kind_name(k: ConnKind) -> Seq<char> {
    match k {
        ConnKind::ApiKey => "api_key"@,
        ConnKind::Local => "local"@,
        ConnKind::Subscription => "subscription"@,
    }
}

impl ConnKind {
    /// The name of this kind in the document.
    pub fn name(self) -> (r: &'static str)
        ensures
            r@ == kind_name(self),
    {
        match self {
            ConnKind::ApiKey => "api_key",
            ConnKind::Local => "local",
            ConnKind::Subscription => "subscription",
        }
    }
}

/// A scope of the schema whose legal keys a rejection lists.
#[derive(Debug, Clone, Copy, PartialEq, Eq, Structural)]
pub enum KeyScope {
    Workflow,
    Connection,
    Models,
    ModelSlot,
    Group,
    Purpose,
    ChainEntry,
}

/// The legal keys of a scope, as a rejection lists them.
pub open spec fn scope_keys(s: KeyScope) -> Seq<char> {
    match s {
        KeyScope::Workflow => "enabled"@,
        KeyScope::Connection => "kind, endpoint, credential_ref"@,
        KeyScope::Models => "defaults, groups, purposes"@,
        KeyScope::ModelSlot => "model, effort, fallback"@,
        KeyScope::Group => "model"@,
        KeyScope::Purpose => "group, model, effort, fallback, pool, eligible"@,
        KeyScope::ChainEntry => "mode, connection, model_id"@,
    }
}

impl KeyScope {
    /// The legal keys of this scope, as a rejection lists them.
    pub fn keys(self) -> (r: &'static str)
        ensures
            r@ == scope_keys(self),
    {
        match self {
            KeyScope::Workflow => "enabled",
            KeyScope::Connection => "kind, endpoint, credential_ref",
            KeyScope::Models => "defaults, groups, purposes",
            KeyScope::ModelSlot => "model, effort, fallback",
            KeyScope::Group => "model",
            KeyScope::Purpose => "group, model, effort, fallback, pool, eligible",
            KeyScope::ChainEntry => "mode, connection, model_id",
        }
    }
}

/// What is wrong with a configuration.
#[derive(Debug)]
pub enum ConfigIssue<T = String> {
    Parser { message: T },
    ConfigVersionNotNonNegativeInteger,
    KeyNotEditable { key: T },
    EmptyKeySegment { key: T },
    UnknownRootKey { key: T },
    Required { field: T },
    UnsupportedConfigVersion,
    MissingConnections,
    CredentialRefRequired { kind: ConnKind },
    LocalCredentialsForbidden,
    UnknownGroupReference { group: T },
    UnknownConnectionReference { connection: T },
    ConflictingPurposeDefinitions,
    ExpectedTable { key: T },
    ExpectedString { field: T },
    UnsupportedConnectionKind { kind: T },
    InlineCredential,
    UnknownKey { key: T, known: KeyScope },
    GroupReferenceNotString,
    PoolNotArray,
    PoolEntryNotString,
    EligibleNotArray,
    EligibleEntryNotString,
    FixedModelMissingConnection,
    FixedModelMissingId,
    UnsupportedModelMode { mode: T },
    FixedEffortMissingValue,
    UnsupportedEffortValue { value: T },
    UnsupportedEffortMode { mode: T },
    ChainNotArray,
    ChainEntryNotTable,
    FixedChainEntryMissingConnection,
    FixedChainEntryMissingModelId,
    UnsupportedFallbackMode { mode: T },
    WorkflowEnabledNotBoolean,
    RequiredNotResettable { key: T },
    NoRetainedDocument,
    ValueTypeMismatch { key: T },
}

impl View for ConfigIssue {
    type V = ConfigIssue<Seq<char>>;

    open spec fn view(&self) -> ConfigIssue<Seq<char>> {
        match self {
            ConfigIssue::Parser { message } => ConfigIssue::Parser { message: message@ },
            ConfigIssue::ConfigVersionNotNonNegativeInteger =>
                ConfigIssue::ConfigVersionNotNonNegativeInteger,
            ConfigIssue::KeyNotEditable { key } => ConfigIssue::KeyNotEditable { key: key@ },
            ConfigIssue::EmptyKeySegment { key } => ConfigIssue::EmptyKeySegment { key: key@ },
            ConfigIssue::UnknownRootKey { key } => ConfigIssue::UnknownRootKey { key: key@ },
            ConfigIssue::Required { field } => ConfigIssue::Required { field: field@ },
            ConfigIssue::UnsupportedConfigVersion => ConfigIssue::UnsupportedConfigVersion,
            ConfigIssue::MissingConnections => ConfigIssue::MissingConnections,
            ConfigIssue::CredentialRefRequired { kind } => ConfigIssue::CredentialRefRequired {
                kind: *kind,
            },
            ConfigIssue::LocalCredentialsForbidden => ConfigIssue::LocalCredentialsForbidden,
            ConfigIssue::UnknownGroupReference { group } => ConfigIssue::UnknownGroupReference {
                group: group@,
            },
            ConfigIssue::UnknownConnectionReference { connection } =>
                ConfigIssue::UnknownConnectionReference { connection: connection@ },
            ConfigIssue::ConflictingPurposeDefinitions =>
                ConfigIssue::ConflictingPurposeDefinitions,
            ConfigIssue::ExpectedTable { key } => ConfigIssue::ExpectedTable { key: key@ },
            ConfigIssue::ExpectedString { field } => ConfigIssue::ExpectedString { field: field@ },
            ConfigIssue::UnsupportedConnectionKind { kind } =>
                ConfigIssue::UnsupportedConnectionKind { kind: kind@ },
            ConfigIssue::InlineCredential => ConfigIssue::InlineCredential,
            ConfigIssue::UnknownKey { key, known } => ConfigIssue::UnknownKey {
                key: key@,
                known: *known,
            },
            ConfigIssue::GroupReferenceNotString => ConfigIssue::GroupReferenceNotString,
            ConfigIssue::PoolNotArray => ConfigIssue::PoolNotArray,
            ConfigIssue::PoolEntryNotString => ConfigIssue::PoolEntryNotString,
            ConfigIssue::EligibleNotArray => ConfigIssue::EligibleNotArray,
            ConfigIssue::EligibleEntryNotString => ConfigIssue::EligibleEntryNotString,
            ConfigIssue::FixedModelMissingConnection => ConfigIssue::FixedModelMissingConnection,
            ConfigIssue::FixedModelMissingId => ConfigIssue::FixedModelMissingId,
            ConfigIssue::UnsupportedModelMode { mode } => ConfigIssue::UnsupportedModelMode {
                mode: mode@,
            },
            ConfigIssue::FixedEffortMissingValue => ConfigIssue::FixedEffortMissingValue,
            ConfigIssue::UnsupportedEffortValue { value } => ConfigIssue::UnsupportedEffortValue {
                value: value@,
            },
            ConfigIssue::UnsupportedEffortMode { mode } => ConfigIssue::UnsupportedEffortMode {
                mode: mode@,
            },
            ConfigIssue::ChainNotArray => ConfigIssue::ChainNotArray,
            ConfigIssue::ChainEntryNotTable => ConfigIssue::ChainEntryNotTable,
            ConfigIssue::FixedChainEntryMissingConnection =>
                ConfigIssue::FixedChainEntryMissingConnection,
            ConfigIssue::FixedChainEntryMissingModelId =>
                ConfigIssue::FixedChainEntryMissingModelId,
            ConfigIssue::UnsupportedFallbackMode { mode } => ConfigIssue::UnsupportedFallbackMode {
                mode: mode@,
            },
            ConfigIssue::WorkflowEnabledNotBoolean => ConfigIssue::WorkflowEnabledNotBoolean,
            ConfigIssue::RequiredNotResettable { key } => ConfigIssue::RequiredNotResettable {
                key: key@,
            },
            ConfigIssue::NoRetainedDocument => ConfigIssue::NoRetainedDocument,
            ConfigIssue::ValueTypeMismatch { key } => ConfigIssue::ValueTypeMismatch { key: key@ },
        }
    }
}

/// The diagnostic of an issue.
pub open spec fn issue_message(i: ConfigIssue<Seq<char>>) -> Seq<char> {
    match i {
        ConfigIssue::Parser { message } => "invalid TOML: "@ + message,
        ConfigIssue::ConfigVersionNotNonNegativeInteger =>
            "config_version must be a non-negative integer"@,
        ConfigIssue::KeyNotEditable { key } => "key "@ + key + " is not editable"@,
        ConfigIssue::EmptyKeySegment { key } => "malformed key "@ + key + ": empty segment"@,
        ConfigIssue::UnknownRootKey { key } => "unknown root key "@ + key,
        ConfigIssue::Required { field } => field + " is required"@,
        ConfigIssue::UnsupportedConfigVersion => "unsupported config_version"@,
        ConfigIssue::MissingConnections => "at least one connection is required"@,
        ConfigIssue::CredentialRefRequired { kind } => kind_name(kind)
            + " connection requires credential_ref"@,
        ConfigIssue::LocalCredentialsForbidden => "local connection must not carry credentials"@,
        ConfigIssue::UnknownGroupReference { group } => "unknown group reference: models.groups."@
            + group,
        ConfigIssue::UnknownConnectionReference { connection } =>
            "unknown connection reference: connections."@ + connection,
        ConfigIssue::ConflictingPurposeDefinitions => "conflicting definitions for one purpose"@,
        ConfigIssue::ExpectedTable { key } => key + " must be a table"@,
        ConfigIssue::ExpectedString { field } => field + " must be a string"@,
        ConfigIssue::UnsupportedConnectionKind { kind } => "unsupported connection kind "@ + kind,
        ConfigIssue::InlineCredential =>
            "inline credential values are rejected; use credential_ref"@,
        ConfigIssue::UnknownKey { key, known } => "unknown key "@ + key + "; known keys: "@
            + scope_keys(known),
        ConfigIssue::GroupReferenceNotString => "group must be a single string reference"@,
        ConfigIssue::PoolNotArray => "pool must be an array of connection names"@,
        ConfigIssue::PoolEntryNotString => "pool entries must be strings"@,
        ConfigIssue::EligibleNotArray => "eligible must be an array of connection names"@,
        ConfigIssue::EligibleEntryNotString => "eligible entries must be strings"@,
        ConfigIssue::FixedModelMissingConnection => "fixed model requires connection"@,
        ConfigIssue::FixedModelMissingId => "fixed model requires model_id"@,
        ConfigIssue::UnsupportedModelMode { mode } => "unsupported model mode "@ + mode,
        ConfigIssue::FixedEffortMissingValue => "fixed effort requires value"@,
        ConfigIssue::UnsupportedEffortValue { value } => "unsupported effort value "@ + value,
        ConfigIssue::UnsupportedEffortMode { mode } => "unsupported effort mode "@ + mode,
        ConfigIssue::ChainNotArray => "chain must be an array of fixed models"@,
        ConfigIssue::ChainEntryNotTable => "chain entries must be tables"@,
        ConfigIssue::FixedChainEntryMissingConnection => "fixed chain entry requires connection"@,
        ConfigIssue::FixedChainEntryMissingModelId => "fixed chain entry requires model_id"@,
        ConfigIssue::UnsupportedFallbackMode { mode } => "unsupported fallback mode "@ + mode,
        ConfigIssue::WorkflowEnabledNotBoolean => "workflow.enabled must be a boolean"@,
        ConfigIssue::RequiredNotResettable { key } => key
            + " is required, not an override; reset removes overrides only"@,
        ConfigIssue::NoRetainedDocument =>
            "no configuration document is retained; parse one before editing"@,
        ConfigIssue::ValueTypeMismatch { key } => "value type does not match "@ + key,
    }
}

impl ConfigIssue {
    /// The diagnostic of this issue.
    #[verifier::rlimit(40)]
    pub fn message(&self) -> (r: String)
        ensures
            r@ == issue_message(self@),
    {
        match self {
            ConfigIssue::Parser { message } => text2("invalid TOML: ", message.as_str()),
            ConfigIssue::ConfigVersionNotNonNegativeInteger => owned(
                "config_version must be a non-negative integer",
            ),
            ConfigIssue::KeyNotEditable { key } => text3("key ", key.as_str(), " is not editable"),
            ConfigIssue::EmptyKeySegment { key } => text3(
                "malformed key ",
                key.as_str(),
                ": empty segment",
            ),
            ConfigIssue::UnknownRootKey { key } => text2("unknown root key ", key.as_str()),
            ConfigIssue::Required { field } => text2(field.as_str(), " is required"),
            ConfigIssue::UnsupportedConfigVersion => owned("unsupported config_version"),
            ConfigIssue::MissingConnections => owned("at least one connection is required"),
            ConfigIssue::CredentialRefRequired { kind } => text2(
                kind.name(),
                " connection requires credential_ref",
            ),
            ConfigIssue::LocalCredentialsForbidden => owned(
                "local connection must not carry credentials",
            ),
            ConfigIssue::UnknownGroupReference { group } => text2(
                "unknown group reference: models.groups.",
                group.as_str(),
            ),
            ConfigIssue::UnknownConnectionReference { connection } => text2(
                "unknown connection reference: connections.",
                connection.as_str(),
            ),
            ConfigIssue::ConflictingPurposeDefinitions => owned(
                "conflicting definitions for one purpose",
            ),
            ConfigIssue::ExpectedTable { key } => text2(key.as_str(), " must be a table"),
            ConfigIssue::ExpectedString { field } => text2(field.as_str(), " must be a string"),
            ConfigIssue::UnsupportedConnectionKind { kind } => text2(
                "unsupported connection kind ",
                kind.as_str(),
            ),
            ConfigIssue::InlineCredential => owned(
                "inline credential values are rejected; use credential_ref",
            ),
            ConfigIssue::UnknownKey { key, known } => text4(
                "unknown key ",
                key.as_str(),
                "; known keys: ",
                known.keys(),
            ),
            ConfigIssue::GroupReferenceNotString => owned(
                "group must be a single string reference",
            ),
            ConfigIssue::PoolNotArray => owned("pool must be an array of connection names"),
            ConfigIssue::PoolEntryNotString => owned("pool entries must be strings"),
            ConfigIssue::EligibleNotArray => owned("eligible must be an array of connection names"),
            ConfigIssue::EligibleEntryNotString => owned("eligible entries must be strings"),
            ConfigIssue::FixedModelMissingConnection => owned("fixed model requires connection"),
            ConfigIssue::FixedModelMissingId => owned("fixed model requires model_id"),
            ConfigIssue::UnsupportedModelMode { mode } => text2(
                "unsupported model mode ",
                mode.as_str(),
            ),
            ConfigIssue::FixedEffortMissingValue => owned("fixed effort requires value"),
            ConfigIssue::UnsupportedEffortValue { value } => text2(
                "unsupported effort value ",
                value.as_str(),
            ),
            ConfigIssue::UnsupportedEffortMode { mode } => text2(
                "unsupported effort mode ",
                mode.as_str(),
            ),
            ConfigIssue::ChainNotArray => owned("chain must be an array of fixed models"),
            ConfigIssue::ChainEntryNotTable => owned("chain entries must be tables"),
            ConfigIssue::FixedChainEntryMissingConnection => owned(
                "fixed chain entry requires connection",
            ),
            ConfigIssue::FixedChainEntryMissingModelId => owned(
                "fixed chain entry requires model_id",
            ),
            ConfigIssue::UnsupportedFallbackMode { mode } => text2(
                "unsupported fallback mode ",
                mode.as_str(),
            ),
            ConfigIssue::WorkflowEnabledNotBoolean => owned("workflow.enabled must be a boolean"),
            ConfigIssue::RequiredNotResettable { key } => text2(
                key.as_str(),
                " is required, not an override; reset removes overrides only",
            ),
            ConfigIssue::NoRetainedDocument => owned(
                "no configuration document is retained; parse one before editing",
            ),
            ConfigIssue::ValueTypeMismatch { key } => text2(
                "value type does not match ",
                key.as_str(),
            ),
        }
    }
}

/// A rejected configuration: the stage, the key it names and the issue.
#[derive(Debug)]
pub struct ConfigError<T = String> {
    pub stage: Stage,
    pub key: Option<T>,
    pub issue: ConfigIssue<T>,
}

/// A rejection over character sequences.
pub type Rejection = ConfigError<Seq<char>>;

impl View for ConfigError {
    type V = ConfigError<Seq<char>>;

    open spec fn view(&self) -> ConfigError<Seq<char>> {
        ConfigError {
            stage: self.stage,
            key: text::opt_text(self.key),
            issue: self.issue@,
        }
    }
}

/// A rejection at the parse stage names no key.
pub open spec fn parse_rejection(message: Seq<char>) -> Rejection {
    ConfigError { stage: Stage::Parse, key: None, issue: ConfigIssue::Parser { message } }
}

/// A rejection at the schema stage.
pub open spec fn schema_rejection(key: Seq<char>, issue: ConfigIssue<Seq<char>>) -> Rejection {
    ConfigError { stage: Stage::Schema, key: Some(key), issue }
}

/// A rejection while resolving references.
pub open spec fn resolve_rejection(key: Seq<char>, issue: ConfigIssue<Seq<char>>) -> Rejection {
    ConfigError { stage: Stage::Resolve, key: Some(key), issue }
}

/// The diagnostic line of a rejection.
pub open spec fn error_message(e: Rejection) -> Seq<char> {
    match e.key {
        Some(key) => stage_name(e.stage) + " "@ + key + ": "@ + issue_message(e.issue),
        None => stage_name(e.stage) + ": "@ + issue_message(e.issue),
    }
}

impl ConfigError {
    /// A rejection at the parse stage.
    pub fn parse(message: String) -> (r: Self)
        ensures
            r@ == parse_rejection(message@),
    {
        ConfigError { stage: Stage::Parse, key: None, issue: ConfigIssue::Parser { message } }
    }

    /// A rejection at the schema stage.
    pub fn schema(key: &str, issue: ConfigIssue) -> (r: Self)
        ensures
            r@ == schema_rejection(key@, issue@),
    {
        ConfigError { stage: Stage::Schema, key: Some(owned(key)), issue }
    }

    /// A rejection while resolving references.
    pub fn resolve(key: &str, issue: ConfigIssue) -> (r: Self)
        ensures
            r@ == resolve_rejection(key@, issue@),
    {
        ConfigError { stage: Stage::Resolve, key: Some(owned(key)), issue }
    }

    /// The diagnostic line of this rejection.
    pub fn message(&self) -> (r: String)
        ensures
            r@ == error_message(self@),
    {
        let issue: String = self.issue.message();
        match &self.key {
            Some(key) => text5(self.stage.name(), " ", key.as_str(), ": ", issue.as_str()),
            None => text3(self.stage.name(), ": ", issue.as_str()),
        }
    }
}

/// One declared connection.
#[derive(Debug)]
pub struct Connection<T = String> {
    pub kind: ConnKind,
    pub endpoint: T,
    pub credential_ref: Option<T>,
}

impl View for Connection {
    type V = Connection<Seq<char>>;

    open spec fn view(&self) -> Connection<Seq<char>> {
        Connection {
            kind: self.kind,
            endpoint: self.endpoint@,
            credential_ref: text::opt_text(self.credential_ref),
        }
    }
}

impl Clone for Connection {
    fn clone(&self) -> (r: Self)
        ensures
            r@ == self@,
    {
        Connection {
            kind: self.kind,
            endpoint: self.endpoint.clone(),
            credential_ref: copy_opt(&self.credential_ref),
        }
    }
}

/// How much thought a model spends.
#[derive(Debug, Clone, Copy, PartialEq, Eq, Structural)]
pub enum EffortLevel {
    Minimal,
    Low,
    Medium,
    High,
    Xhigh,
}

/// The name of a level in the document.
pub open spec fn level_name(l: EffortLevel) -> Seq<char> {
    match l {
        EffortLevel::Minimal => "minimal"@,
        EffortLevel::Low => "low"@,
        EffortLevel::Medium => "medium"@,
        EffortLevel::High => "high"@,
        EffortLevel::Xhigh => "xhigh"@,
    }
}

/// The level a name denotes.
pub open spec fn level_of(raw: Seq<char>) -> Option<EffortLevel> {
    if raw == "minimal"@ {
        Some(EffortLevel::Minimal)
    } else if raw == "low"@ {
        Some(EffortLevel::Low)
    } else if raw == "medium"@ {
        Some(EffortLevel::Medium)
    } else if raw == "high"@ {
        Some(EffortLevel::High)
    } else if raw == "xhigh"@ {
        Some(EffortLevel::Xhigh)
    } else {
        None
    }
}

/// Every level reads back from its name.
pub proof fn law_level_reads_back(l: EffortLevel)
    ensures
        level_of(level_name(l)) == Some(l),
{
    reveal_strlit("minimal");
    reveal_strlit("low");
    reveal_strlit("medium");
    reveal_strlit("high");
    reveal_strlit("xhigh");
    assert("minimal"@[0] == 'm' && "low"@[0] == 'l' && "medium"@[0] == 'm' && "high"@[0] == 'h'
        && "xhigh"@[0] == 'x');
    assert("minimal"@[1] == 'i' && "medium"@[1] == 'e');
}

impl EffortLevel {
    /// The level a name denotes.
    pub fn parse(raw: &str) -> (r: Option<Self>)
        ensures
            r == level_of(raw@),
    {
        if same(raw, "minimal") {
            Some(EffortLevel::Minimal)
        } else if same(raw, "low") {
            Some(EffortLevel::Low)
        } else if same(raw, "medium") {
            Some(EffortLevel::Medium)
        } else if same(raw, "high") {
            Some(EffortLevel::High)
        } else if same(raw, "xhigh") {
            Some(EffortLevel::Xhigh)
        } else {
            None
        }
    }
}

/// The name of a level in the document.
pub fn effort_level_name(level: EffortLevel) -> (r: &'static str)
    ensures
        r@ == level_name(level),
{
    match level {
        EffortLevel::Minimal => "minimal",
        EffortLevel::Low => "low",
        EffortLevel::Medium => "medium",
        EffortLevel::High => "high",
        EffortLevel::Xhigh => "xhigh",
    }
}

/// One model on one connection.
#[derive(Debug)]
pub struct FixedModel<T = String> {
    pub connection: T,
    pub model_id: T,
}

/// A fixed model over character sequences.
pub type FixedView = FixedModel<Seq<char>>;

impl View for FixedModel {
    type V = FixedModel<Seq<char>>;

    open spec fn view(&self) -> FixedModel<Seq<char>> {
        FixedModel { connection: self.connection@, model_id: self.model_id@ }
    }
}

impl Clone for FixedModel {
    fn clone(&self) -> (r: Self)
        ensures
            r@ == self@,
    {
        FixedModel { connection: self.connection.clone(), model_id: self.model_id.clone() }
    }
}

/// The fixed models behind a list.
pub open spec fn fixed_views(chain: Seq<FixedModel>) -> Seq<FixedView> {
    chain.map_values(|m: FixedModel| m@)
}

/// Copies a chain of fixed models.
pub fn copy_chain(chain: &Vec<FixedModel>) -> (r: Vec<FixedModel>)
    ensures
        fixed_views(r@) == fixed_views(chain@),
{
    let mut r: Vec<FixedModel> = Vec::new();
    let mut i: usize = 0;
    while i < chain.len()
        invariant
            i <= chain.len(),
            fixed_views(r@) == fixed_views(chain@.take(i as int)),
        decreases chain.len() - i,
    {
        let m: FixedModel = chain[i].clone();
        let ghost before = r@;
        r.push(m);
        assert(fixed_views(r@) =~= fixed_views(before).push(m@));
        assert(fixed_views(chain@.take(i as int + 1)) =~= fixed_views(chain@.take(i as int)).push(
            chain@[i as int]@,
        ));
        i = i + 1;
    }
    assert(chain@.take(chain@.len() as int) =~= chain@);
    r
}

/// Which model a scope runs.
#[derive(Debug)]
pub enum ModelAssign {
    Inherit,
    Auto { pool: Option<Vec<String>> },
    Fixed(FixedModel),
}

/// The value of a [`ModelAssign`].
pub enum ModelView {
    Inherit,
    Auto { pool: Option<Seq<Seq<char>>> },
    Fixed(FixedModel<Seq<char>>),
}

/// The names behind an optional list.
pub open spec fn opt_names(names: Option<Vec<String>>) -> Option<Seq<Seq<char>>> {
    match names {
        Some(v) => Some(text::texts(v@)),
        None => None,
    }
}

/// Copies an optional list of names.
pub fn copy_opt_names(names: &Option<Vec<String>>) -> (r: Option<Vec<String>>)
    ensures
        opt_names(r) == opt_names(*names),
{
    match names {
        Some(v) => Some(copy_names(v)),
        None => None,
    }
}

impl View for ModelAssign {
    type V = ModelView;

    open spec fn view(&self) -> ModelView {
        match self {
            ModelAssign::Inherit => ModelView::Inherit,
            ModelAssign::Auto { pool } => ModelView::Auto { pool: opt_names(*pool) },
            ModelAssign::Fixed(fixed) => ModelView::Fixed(fixed@),
        }
    }
}

impl Clone for ModelAssign {
    fn clone(&self) -> (r: Self)
        ensures
            r@ == self@,
    {
        match self {
            ModelAssign::Inherit => ModelAssign::Inherit,
            ModelAssign::Auto { pool } => ModelAssign::Auto { pool: copy_opt_names(pool) },
            ModelAssign::Fixed(fixed) => ModelAssign::Fixed(fixed.clone()),
        }
    }
}

/// Which effort a scope spends.
#[derive(Debug, Clone, Copy, PartialEq, Eq, Structural)]
pub enum EffortAssign {
    Inherit,
    Auto,
    Fixed { value: EffortLevel },
}

/// What happens when the assigned model is unavailable.
#[derive(Debug)]
pub enum FallbackAssign {
    Auto { chain: Vec<FixedModel> },
    Manual,
    Off,
}

/// The value of a [`FallbackAssign`].
pub enum FallbackView {
    Auto { chain: Seq<FixedModel<Seq<char>>> },
    Manual,
    Off,
}

impl View for FallbackAssign {
    type V = FallbackView;

    open spec fn view(&self) -> FallbackView {
        match self {
            FallbackAssign::Auto { chain } => FallbackView::Auto { chain: fixed_views(chain@) },
            FallbackAssign::Manual => FallbackView::Manual,
            FallbackAssign::Off => FallbackView::Off,
        }
    }
}

impl Clone for FallbackAssign {
    fn clone(&self) -> (r: Self)
        ensures
            r@ == self@,
    {
        match self {
            FallbackAssign::Auto { chain } => FallbackAssign::Auto { chain: copy_chain(chain) },
            FallbackAssign::Manual => FallbackAssign::Manual,
            FallbackAssign::Off => FallbackAssign::Off,
        }
    }
}

/// The assignments every purpose starts from.
#[derive(Debug)]
pub struct Defaults {
    pub model: ModelAssign,
    pub effort: EffortAssign,
    pub fallback: FallbackAssign,
}

/// The value of [`Defaults`].
pub struct DefaultsView {
    pub model: ModelView,
    pub effort: EffortAssign,
    pub fallback: FallbackView,
}

impl View for Defaults {
    type V = DefaultsView;

    open spec fn view(&self) -> DefaultsView {
        DefaultsView { model: self.model@, effort: self.effort, fallback: self.fallback@ }
    }
}

impl Clone for Defaults {
    fn clone(&self) -> (r: Self)
        ensures
            r@ == self@,
    {
        Defaults { model: self.model.clone(), effort: self.effort, fallback: self.fallback.clone() }
    }
}

/// A named group of purposes.
#[derive(Debug)]
pub struct GroupDef {
    pub model: ModelAssign,
}

impl View for GroupDef {
    type V = ModelView;

    open spec fn view(&self) -> ModelView {
        self.model@
    }
}

impl Clone for GroupDef {
    fn clone(&self) -> (r: Self)
        ensures
            r@ == self@,
    {
        GroupDef { model: self.model.clone() }
    }
}

/// The overrides of one purpose. `pool` is settable in the file only,
/// `eligible` through the edit surface too.
#[derive(Debug)]
pub struct PurposeDef {
    pub group: Option<String>,
    pub model: Option<ModelAssign>,
    pub effort: Option<EffortAssign>,
    pub fallback: Option<FallbackAssign>,
    pub pool: Option<Vec<String>>,
    pub eligible: Option<Vec<String>>,
}

/// The value of a [`PurposeDef`].
pub struct PurposeView {
    pub group: Option<Seq<char>>,
    pub model: Option<ModelView>,
    pub effort: Option<EffortAssign>,
    pub fallback: Option<FallbackView>,
    pub pool: Option<Seq<Seq<char>>>,
    pub eligible: Option<Seq<Seq<char>>>,
}

pub open spec fn opt_model(m: Option<ModelAssign>) -> Option<ModelView> {
    match m {
        Some(v) => Some(v@),
        None => None,
    }
}

pub open spec fn opt_fallback(m: Option<FallbackAssign>) -> Option<FallbackView> {
    match m {
        Some(v) => Some(v@),
        None => None,
    }
}

impl View for PurposeDef {
    type V = PurposeView;

    open spec fn view(&self) -> PurposeView {
        PurposeView {
            group: text::opt_text(self.group),
            model: opt_model(self.model),
            effort: self.effort,
            fallback: opt_fallback(self.fallback),
            pool: opt_names(self.pool),
            eligible: opt_names(self.eligible),
        }
    }
}

/// A purpose without overrides.
pub open spec fn empty_purpose() -> PurposeView {
    PurposeView {
        group: None,
        model: None,
        effort: None,
        fallback: None,
        pool: None,
        eligible: None,
    }
}

impl Default for PurposeDef {
    fn default() -> (r: Self)
        ensures
            r@ == empty_purpose(),
    {
        PurposeDef {
            group: None,
            model: None,
            effort: None,
            fallback: None,
            pool: None,
            eligible: None,
        }
    }
}

impl Clone for PurposeDef {
    fn clone(&self) -> (r: Self)
        ensures
            r@ == self@,
    {
        PurposeDef {
            group: copy_opt(&self.group),
            model: match &self.model {
                Some(m) => Some(m.clone()),
                None => None,
            },
            effort: self.effort,
            fallback: match &self.fallback {
                Some(f) => Some(f.clone()),
                None => None,
            },
            pool: copy_opt_names(&self.pool),
            eligible: copy_opt_names(&self.eligible),
        }
    }
}

/// Every model assignment of a configuration.
#[derive(Debug)]
pub struct Models {
    pub defaults: Option<Defaults>,
    pub groups: NameMap<GroupDef>,
    pub purposes: NameMap<PurposeDef>,
}

/// The value of [`Models`].
pub struct ModelsView {
    pub defaults: Option<DefaultsView>,
    pub groups: Seq<(Seq<char>, ModelView)>,
    pub purposes: Seq<(Seq<char>, PurposeView)>,
}

pub open spec fn opt_defaults(d: Option<Defaults>) -> Option<DefaultsView> {
    match d {
        Some(v) => Some(v@),
        None => None,
    }
}

pub open spec fn group_view() -> spec_fn(GroupDef) -> ModelView {
    |g: GroupDef| g@
}

pub open spec fn purpose_view() -> spec_fn(PurposeDef) -> PurposeView {
    |p: PurposeDef| p@
}

pub open spec fn connection_view() -> spec_fn(Connection) -> Connection<Seq<char>> {
    |c: Connection| c@
}

pub open spec fn groups_of(m: NameMap<GroupDef>) -> Seq<(Seq<char>, ModelView)> {
    names::values_through(m@, group_view())
}

pub open spec fn purposes_of(m: NameMap<PurposeDef>) -> Seq<(Seq<char>, PurposeView)> {
    names::values_through(m@, purpose_view())
}

pub open spec fn connections_of(m: NameMap<Connection>) -> Seq<
    (Seq<char>, Connection<Seq<char>>),
> {
    names::values_through(m@, connection_view())
}

impl View for Models {
    type V = ModelsView;

    open spec fn view(&self) -> ModelsView {
        ModelsView {
            defaults: opt_defaults(self.defaults),
            groups: groups_of(self.groups),
            purposes: purposes_of(self.purposes),
        }
    }
}

/// No assignment at all.
pub open spec fn empty_models() -> ModelsView {
    ModelsView { defaults: None, groups: Seq::empty(), purposes: Seq::empty() }
}

impl Default for Models {
    fn default() -> (r: Self)
        ensures
            r@ == empty_models(),
    {
        let r: Models = Models { defaults: None, groups: NameMap::new(), purposes: NameMap::new() };
        assert(groups_of(r.groups) =~= Seq::empty());
        assert(purposes_of(r.purposes) =~= Seq::empty());
        r
    }
}

/// The workflow switch.
#[derive(Debug, Clone, Copy, PartialEq, Eq, Structural)]
pub struct Workflow {
    pub enabled: Option<bool>,
}

impl Default for Workflow {
    fn default() -> (r: Self)
        ensures
            r.enabled is None,
    {
        Workflow { enabled: None }
    }
}

} // verus!
