//! Model broker: immutable request manifests and owner-brokered dispatch.
//! A manifest is frozen when it is prepared; later configuration changes
//! never rewrite a request in flight.

use crate::config::{
    self, ConfigError, ConnKind, Connection, EffortAssign, EffortLevel, ModelAssign,
};
use crate::config::settings::{same_model, same_names, same_opt_text};
use crate::digest::{self, bytes_of};
use crate::names::{self, NameMap};
use crate::providers::{
    self, offline_eligible, offline_usable, ProviderError, ProviderReply, UsageDelta,
};
use crate::text::{
    self, copy_names, copy_opt, decimal_text, join_names, names_contain, owned, same, text2, text3,
    text4, text5,
};
use vstd::prelude::*;

pub use crate::model::broker::Broker;

pub mod broker;
pub mod choices;
pub mod laws;
pub mod promises;

verus! {

/// One frozen model request.
#[derive(Debug)]
pub struct RequestManifest {
    pub attempt_id: String,
    pub purpose: String,
    /// The execution world the request belongs to.
    pub world: String,
    pub model: ModelAssign,
    pub effort: EffortAssign,
    pub instructions: String,
    pub tools: Vec<String>,
    pub output_reserve: usize,
    pub inputs: String,
    pub inputs_digest: String,
    /// The context epoch of the prefix the model sees.
    pub epoch_id: String,
    pub mutation_reason: Option<String>,
    /// The admission bound of this request.
    pub cost_bound: u64,
}

/// The mathematical value of a manifest.
pub struct ManifestView {
    pub attempt_id: Seq<char>,
    pub purpose: Seq<char>,
    pub world: Seq<char>,
    pub model: config::ModelView,
    pub effort: EffortAssign,
    pub instructions: Seq<char>,
    pub tools: Seq<Seq<char>>,
    pub output_reserve: usize,
    pub inputs: Seq<char>,
    pub inputs_digest: Seq<char>,
    pub epoch_id: Seq<char>,
    pub mutation_reason: Option<Seq<char>>,
    pub cost_bound: u64,
}

impl View for RequestManifest {
    type V = ManifestView;

    open spec fn view(&self) -> ManifestView {
        ManifestView {
            attempt_id: self.attempt_id@,
            purpose: self.purpose@,
            world: self.world@,
            model: self.model@,
            effort: self.effort,
            instructions: self.instructions@,
            tools: text::texts(self.tools@),
            output_reserve: self.output_reserve,
            inputs: self.inputs@,
            inputs_digest: self.inputs_digest@,
            epoch_id: self.epoch_id@,
            mutation_reason: text::opt_text(self.mutation_reason),
            cost_bound: self.cost_bound,
        }
    }
}

impl Clone for RequestManifest {
    fn clone(&self) -> (r: Self)
        ensures
            r@ == self@,
    {
        RequestManifest {
            attempt_id: self.attempt_id.clone(),
            purpose: self.purpose.clone(),
            world: self.world.clone(),
            model: self.model.clone(),
            effort: self.effort,
            instructions: self.instructions.clone(),
            tools: copy_names(&self.tools),
            output_reserve: self.output_reserve,
            inputs: self.inputs.clone(),
            inputs_digest: self.inputs_digest.clone(),
            epoch_id: self.epoch_id.clone(),
            mutation_reason: copy_opt(&self.mutation_reason),
            cost_bound: self.cost_bound,
        }
    }
}

/// Whether two manifests agree in every field.
pub fn same_manifest(a: &RequestManifest, b: &RequestManifest) -> (r: bool)
    ensures
        r == (a@ == b@),
{
    same(a.attempt_id.as_str(), b.attempt_id.as_str()) && same(
        a.purpose.as_str(),
        b.purpose.as_str(),
    ) && same(a.world.as_str(), b.world.as_str()) && same_model(&a.model, &b.model) && a.effort
        == b.effort && same(a.instructions.as_str(), b.instructions.as_str()) && same_names(
        &a.tools,
        &b.tools,
    ) && a.output_reserve == b.output_reserve && same(a.inputs.as_str(), b.inputs.as_str()) && same(
        a.inputs_digest.as_str(),
        b.inputs_digest.as_str(),
    ) && same(a.epoch_id.as_str(), b.epoch_id.as_str()) && same_opt_text(
        &a.mutation_reason,
        &b.mutation_reason,
    ) && a.cost_bound == b.cost_bound
}

/// The identity of a model assignment inside the prefix the model sees.
pub open spec fn model_id_text(model: config::ModelView) -> Seq<char> {
    match model {
        config::ModelView::Inherit => "inherit"@,
        config::ModelView::Auto { pool: None } => "auto"@,
        config::ModelView::Auto { pool: Some(names) } => "auto:"@ + text::join(
            names,
            "+"@,
        ),
        config::ModelView::Fixed(f) => "fixed:"@ + f.connection + "/"@ + f.model_id,
    }
}

/// Executable [`model_id_text`].
pub fn model_wire_id(model: &ModelAssign) -> (r: String)
    ensures
        r@ == model_id_text(model@),
{
    match model {
        ModelAssign::Inherit => owned("inherit"),
        ModelAssign::Auto { pool } => match pool {
            None => owned("auto"),
            Some(names) => {
                let list: String = join_names(names, "+");
                text2("auto:", list.as_str())
            },
        },
        ModelAssign::Fixed(f) => text4("fixed:", f.connection.as_str(), "/", f.model_id.as_str()),
    }
}

/// The text that goes over the wire: instructions, model, tools, reserve and
/// inputs.
pub open spec fn wire_text(
    instructions: Seq<char>,
    model: config::ModelView,
    tools: Seq<Seq<char>>,
    output_reserve: nat,
    inputs: Seq<char>,
) -> Seq<char> {
    instructions + "\nmodel: "@ + model_id_text(model) + "\ntools: "@ + text::join(
        tools,
        ", "@,
    ) + ("\noutput-reserve: "@ + text::decimal(output_reserve) + "\n\n"@ + inputs)
}

/// Executable [`wire_text`].
pub fn wire_composition(
    instructions: &str,
    model: &ModelAssign,
    tools: &Vec<String>,
    output_reserve: usize,
    inputs: &str,
) -> (r: String)
    ensures
        r@ == wire_text(
            instructions@,
            model@,
            text::texts(tools@),
            output_reserve as nat,
            inputs@,
        ),
{
    let id: String = model_wire_id(model);
    let list: String = join_names(tools, ", ");
    let reserve: String = decimal_text(output_reserve as u64);
    let head: String = text5(instructions, "\nmodel: ", id.as_str(), "\ntools: ", list.as_str());
    let tail: String = text4("\noutput-reserve: ", reserve.as_str(), "\n\n", inputs);
    text2(head.as_str(), tail.as_str())
}

impl RequestManifest {
    /// The text the provider receives: nothing that is not frozen on the
    /// manifest.
    pub fn wire_bytes(&self) -> (r: String)
        ensures
            r@ == wire_text(
                self@.instructions,
                self@.model,
                self@.tools,
                self@.output_reserve as nat,
                self@.inputs,
            ),
    {
        wire_composition(
            self.instructions.as_str(),
            &self.model,
            &self.tools,
            self.output_reserve,
            self.inputs.as_str(),
        )
    }
}

/// The effort an assignment transmitted and the level a provider confirmed.
#[derive(Debug, Clone, Copy, PartialEq, Eq, Structural)]
pub struct EffortExplain {
    pub transmitted: EffortAssign,
    pub confirmed: Option<EffortLevel>,
}

/// The bound a request was admitted under and the units a provider
/// confirmed.
#[derive(Debug, Clone, Copy, PartialEq, Eq, Structural)]
pub struct SentCostExplain {
    pub bound: u64,
    pub confirmed: Option<u64>,
}

/// Why one fallback candidate was refused.
#[derive(Debug)]
pub enum RejectionCause<T = String> {
    UnknownConnection,
    LiveGrantRequired { kind: ConnKind },
    NotEntitled,
    NotPurposeEligible,
    NotOffered,
    DialectMismatch,
    SendFailed(ProviderError<T>),
}

impl View for RejectionCause {
    type V = RejectionCause<Seq<char>>;

    open spec fn view(&self) -> RejectionCause<Seq<char>> {
        match self {
            RejectionCause::UnknownConnection => RejectionCause::UnknownConnection,
            RejectionCause::LiveGrantRequired { kind } => RejectionCause::LiveGrantRequired {
                kind: *kind,
            },
            RejectionCause::NotEntitled => RejectionCause::NotEntitled,
            RejectionCause::NotPurposeEligible => RejectionCause::NotPurposeEligible,
            RejectionCause::NotOffered => RejectionCause::NotOffered,
            RejectionCause::DialectMismatch => RejectionCause::DialectMismatch,
            RejectionCause::SendFailed(e) => RejectionCause::SendFailed(e@),
        }
    }
}

/// The diagnostic line of a cause.
pub open spec fn cause_message(c: RejectionCause<Seq<char>>) -> Seq<char> {
    match c {
        RejectionCause::UnknownConnection => "connection no longer declared"@,
        RejectionCause::LiveGrantRequired { kind } => config::kind_name(kind)
            + " connection requires a separate live grant"@,
        RejectionCause::NotEntitled => "outside the account entitlement"@,
        RejectionCause::NotPurposeEligible => "outside the purpose's eligible list"@,
        RejectionCause::NotOffered => "not among the candidates the pending choice served"@,
        RejectionCause::DialectMismatch => "no adapter serves this connection's dialect"@,
        RejectionCause::SendFailed(e) => "send failed: "@ + providers::provider_message(e),
    }
}

impl RejectionCause {
    /// The diagnostic line of this cause.
    pub fn message(&self) -> (r: String)
        ensures
            r@ == cause_message(self@),
    {
        match self {
            RejectionCause::UnknownConnection => owned("connection no longer declared"),
            RejectionCause::LiveGrantRequired { kind } => text2(
                kind.name(),
                " connection requires a separate live grant",
            ),
            RejectionCause::NotEntitled => owned("outside the account entitlement"),
            RejectionCause::NotPurposeEligible => owned("outside the purpose's eligible list"),
            RejectionCause::NotOffered => owned(
                "not among the candidates the pending choice served",
            ),
            RejectionCause::DialectMismatch => owned("no adapter serves this connection's dialect"),
            RejectionCause::SendFailed(e) => {
                let m: String = e.message();
                text2("send failed: ", m.as_str())
            },
        }
    }
}

/// One fallback candidate that was skipped, and why.
#[derive(Debug)]
pub struct CandidateRejection<T = String> {
    pub connection: T,
    pub cause: RejectionCause<T>,
}

impl View for CandidateRejection {
    type V = CandidateRejection<Seq<char>>;

    open spec fn view(&self) -> CandidateRejection<Seq<char>> {
        CandidateRejection { connection: self.connection@, cause: self.cause@ }
    }
}

pub open spec fn rejection_views(v: Seq<CandidateRejection>) -> Seq<
    CandidateRejection<Seq<char>>,
> {
    v.map_values(|c: CandidateRejection| c@)
}

pub proof fn lemma_rejection_push(v: Seq<CandidateRejection>, c: CandidateRejection)
    ensures
        rejection_views(v.push(c)) == rejection_views(v).push(c@),
{
    assert(rejection_views(v.push(c)) =~= rejection_views(v).push(c@));
}

/// Why a model request did not complete.
#[derive(Debug)]
pub enum ModelError<T = String, L = Vec<String>, R = Vec<CandidateRejection>> {
    Config(ConfigError<T>),
    Provider(ProviderError<T>),
    RequestTooLarge { limit: usize, actual: usize },
    WorldMismatch { frozen: T, current: T },
    NoEligibleCandidate { purpose: T },
    EligibilityStale { attempt_id: T, connection: T, frozen: u64, current: u64 },
    NoAdmission { attempt_id: T },
    AdmissionMismatch { attempt_id: T },
    AttemptAlreadyAccounted { attempt_id: T },
    AttemptCancelled { attempt_id: T },
    ManualFallbackPending { attempt_id: T, purpose: T },
    NoPendingChoice { attempt_id: T },
    ManualChoiceRejected { attempt_id: T, connection: T, cause: RejectionCause<T> },
    FallbackExhausted {
        attempt_id: T,
        purpose: T,
        /// Every chain entry that was skipped or failed, in order.
        rejected: R,
        /// The connections that received a send.
        attempted: L,
        source: ProviderError<T>,
    },
}

/// A model error over mathematical values.
pub type ModelErrorView = ModelError<
    Seq<char>,
    Seq<Seq<char>>,
    Seq<CandidateRejection<Seq<char>>>,
>;

impl View for ModelError {
    type V = ModelErrorView;

    open spec fn view(&self) -> ModelErrorView {
        match self {
            ModelError::Config(e) => ModelError::Config(e@),
            ModelError::Provider(e) => ModelError::Provider(e@),
            ModelError::RequestTooLarge { limit, actual } => ModelError::RequestTooLarge {
                limit: *limit,
                actual: *actual,
            },
            ModelError::WorldMismatch { frozen, current } => ModelError::WorldMismatch {
                frozen: frozen@,
                current: current@,
            },
            ModelError::NoEligibleCandidate { purpose } => ModelError::NoEligibleCandidate {
                purpose: purpose@,
            },
            ModelError::EligibilityStale { attempt_id, connection, frozen, current } =>
                ModelError::EligibilityStale {
                attempt_id: attempt_id@,
                connection: connection@,
                frozen: *frozen,
                current: *current,
            },
            ModelError::NoAdmission { attempt_id } => ModelError::NoAdmission {
                attempt_id: attempt_id@,
            },
            ModelError::AdmissionMismatch { attempt_id } => ModelError::AdmissionMismatch {
                attempt_id: attempt_id@,
            },
            ModelError::AttemptAlreadyAccounted { attempt_id } =>
                ModelError::AttemptAlreadyAccounted { attempt_id: attempt_id@ },
            ModelError::AttemptCancelled { attempt_id } => ModelError::AttemptCancelled {
                attempt_id: attempt_id@,
            },
            ModelError::ManualFallbackPending { attempt_id, purpose } =>
                ModelError::ManualFallbackPending { attempt_id: attempt_id@, purpose: purpose@ },
            ModelError::NoPendingChoice { attempt_id } => ModelError::NoPendingChoice {
                attempt_id: attempt_id@,
            },
            ModelError::ManualChoiceRejected { attempt_id, connection, cause } =>
                ModelError::ManualChoiceRejected {
                attempt_id: attempt_id@,
                connection: connection@,
                cause: cause@,
            },
            ModelError::FallbackExhausted { attempt_id, purpose, rejected, attempted, source } =>
                ModelError::FallbackExhausted {
                attempt_id: attempt_id@,
                purpose: purpose@,
                rejected: rejection_views(rejected@),
                attempted: text::texts(attempted@),
                source: source@,
            },
        }
    }
}

/// The diagnostic line of a model error. The lines of the two pause errors
/// never carry the attempt id, so equivalent failures read identically.
pub open spec fn model_message(e: ModelErrorView) -> Seq<char> {
    match e {
        ModelError::Config(c) => "model configuration: "@ + config::error_message(c),
        ModelError::Provider(p) => "model provider: "@ + providers::provider_message(p),
        ModelError::RequestTooLarge { limit, actual } =>
            "model request exceeds wire limit: accounted "@ + text::decimal(actual as nat)
            + " bytes with mandatory instructions, tools and output reserve exceeds "@
            + text::decimal(limit as nat),
        ModelError::WorldMismatch { frozen, current } =>
            "dispatch world mismatch: manifest froze "@ + frozen + ", dispatch attempted from "@
            + current,
        ModelError::NoEligibleCandidate { purpose } => "no eligible connection for purpose "@
            + purpose + ": every candidate failed eligibility before ranking"@,
        ModelError::EligibilityStale { attempt_id, connection, frozen, current } =>
            "dispatch blocked for attempt "@ + attempt_id
            + ": eligibility snapshot changed since ranking (connection "@ + connection
            + " admitted at version "@ + (text::decimal(frozen as nat)
            + ", current version "@ + text::decimal(current as nat) + ")"@),
        ModelError::NoAdmission { attempt_id } => "dispatch rejected for attempt "@ + attempt_id
            + ": no admission record for the manifest in this broker"@,
        ModelError::AdmissionMismatch { attempt_id } => "dispatch rejected for attempt "@
            + attempt_id + ": presented manifest does not match the admitted one"@,
        ModelError::AttemptAlreadyAccounted { attempt_id } => "attempt "@ + attempt_id
            + " already accounted: one physical request per attempt id"@,
        ModelError::AttemptCancelled { attempt_id } => "attempt "@ + attempt_id
            + " was cancelled; a late retry or provider callback never resurrects it"@,
        ModelError::ManualFallbackPending { purpose, .. } => "manual fallback for purpose "@
            + purpose + " awaits the pending choice on question.current"@,
        ModelError::NoPendingChoice { .. } =>
            "no pending manual fallback choice is recorded for this attempt"@,
        ModelError::ManualChoiceRejected { connection, cause, .. } => "manual fallback choice "@
            + connection + " rejected: "@ + cause_message(cause),
        ModelError::FallbackExhausted { purpose, source, .. } => "fallback for purpose "@ + purpose
            + " exhausted: "@ + providers::provider_message(source),
    }
}

impl ModelError {
    /// The diagnostic line of this error.
    pub fn message(&self) -> (r: String)
        ensures
            r@ == model_message(self@),
    {
        match self {
            ModelError::Config(c) => {
                let m: String = c.message();
                text2("model configuration: ", m.as_str())
            },
            ModelError::Provider(p) => {
                let m: String = p.message();
                text2("model provider: ", m.as_str())
            },
            ModelError::RequestTooLarge { limit, actual } => {
                let a: String = decimal_text(*actual as u64);
                let l: String = decimal_text(*limit as u64);
                text4(
                    "model request exceeds wire limit: accounted ",
                    a.as_str(),
                    " bytes with mandatory instructions, tools and output reserve exceeds ",
                    l.as_str(),
                )
            },
            ModelError::WorldMismatch { frozen, current } => text4(
                "dispatch world mismatch: manifest froze ",
                frozen.as_str(),
                ", dispatch attempted from ",
                current.as_str(),
            ),
            ModelError::NoEligibleCandidate { purpose } => text3(
                "no eligible connection for purpose ",
                purpose.as_str(),
                ": every candidate failed eligibility before ranking",
            ),
            ModelError::EligibilityStale { attempt_id, connection, frozen, current } => {
                let f: String = decimal_text(*frozen);
                let c: String = decimal_text(*current);
                let head: String = text5(
                    "dispatch blocked for attempt ",
                    attempt_id.as_str(),
                    ": eligibility snapshot changed since ranking (connection ",
                    connection.as_str(),
                    " admitted at version ",
                );
                let tail: String = text4(f.as_str(), ", current version ", c.as_str(), ")");
                text2(head.as_str(), tail.as_str())
            },
            ModelError::NoAdmission { attempt_id } => text3(
                "dispatch rejected for attempt ",
                attempt_id.as_str(),
                ": no admission record for the manifest in this broker",
            ),
            ModelError::AdmissionMismatch { attempt_id } => text3(
                "dispatch rejected for attempt ",
                attempt_id.as_str(),
                ": presented manifest does not match the admitted one",
            ),
            ModelError::AttemptAlreadyAccounted { attempt_id } => text3(
                "attempt ",
                attempt_id.as_str(),
                " already accounted: one physical request per attempt id",
            ),
            ModelError::AttemptCancelled { attempt_id } => text3(
                "attempt ",
                attempt_id.as_str(),
                " was cancelled; a late retry or provider callback never resurrects it",
            ),
            ModelError::ManualFallbackPending { purpose, .. } => text3(
                "manual fallback for purpose ",
                purpose.as_str(),
                " awaits the pending choice on question.current",
            ),
            ModelError::NoPendingChoice { .. } => owned(
                "no pending manual fallback choice is recorded for this attempt",
            ),
            ModelError::ManualChoiceRejected { connection, cause, .. } => {
                let m: String = cause.message();
                text4("manual fallback choice ", connection.as_str(), " rejected: ", m.as_str())
            },
            ModelError::FallbackExhausted { purpose, source, .. } => {
                let m: String = source.message();
                text4("fallback for purpose ", purpose.as_str(), " exhausted: ", m.as_str())
            },
        }
    }
}

/// A manual fallback choice that waits for an answer.
#[derive(Debug)]
pub struct PendingFallback {
    pub attempt_id: String,
    pub purpose: String,
    /// The connections that may be chosen, in order.
    pub candidates: Vec<String>,
}

/// The mathematical value of a pending choice.
pub struct PendingView {
    pub attempt_id: Seq<char>,
    pub purpose: Seq<char>,
    pub candidates: Seq<Seq<char>>,
}

impl View for PendingFallback {
    type V = PendingView;

    open spec fn view(&self) -> PendingView {
        PendingView {
            attempt_id: self.attempt_id@,
            purpose: self.purpose@,
            candidates: text::texts(self.candidates@),
        }
    }
}

/// The credential profile that the latest manifest bound.
#[derive(Debug)]
pub struct ProfileBinding<T = String> {
    pub connection: T,
    pub profile: Option<T>,
}

impl View for ProfileBinding {
    type V = ProfileBinding<Seq<char>>;

    open spec fn view(&self) -> ProfileBinding<Seq<char>> {
        ProfileBinding {
            connection: self.connection@,
            profile: text::opt_text(self.profile),
        }
    }
}

/// What one physical request was admitted through.
#[derive(Debug)]
pub struct AdmissionRecord {
    pub purpose: String,
    /// The effective connection.
    pub connection: String,
    pub model_id: Option<String>,
    pub model_source: String,
    /// The entitlement snapshot the ranking ran under.
    pub snapshot_version: u64,
    /// The manifest as it was frozen.
    pub manifest: RequestManifest,
    pub fallback: config::FallbackAssign,
    pub fallback_source: String,
}

/// The mathematical value of an admission.
pub struct AdmissionView {
    pub purpose: Seq<char>,
    pub connection: Seq<char>,
    pub model_id: Option<Seq<char>>,
    pub model_source: Seq<char>,
    pub snapshot_version: u64,
    pub manifest: ManifestView,
    pub fallback: config::FallbackView,
    pub fallback_source: Seq<char>,
}

impl View for AdmissionRecord {
    type V = AdmissionView;

    open spec fn view(&self) -> AdmissionView {
        AdmissionView {
            purpose: self.purpose@,
            connection: self.connection@,
            model_id: text::opt_text(self.model_id),
            model_source: self.model_source@,
            snapshot_version: self.snapshot_version,
            manifest: self.manifest@,
            fallback: self.fallback@,
            fallback_source: self.fallback_source@,
        }
    }
}

impl Clone for AdmissionRecord {
    fn clone(&self) -> (r: Self)
        ensures
            r@ == self@,
    {
        AdmissionRecord {
            purpose: self.purpose.clone(),
            connection: self.connection.clone(),
            model_id: copy_opt(&self.model_id),
            model_source: self.model_source.clone(),
            snapshot_version: self.snapshot_version,
            manifest: self.manifest.clone(),
            fallback: self.fallback.clone(),
            fallback_source: self.fallback_source.clone(),
        }
    }
}

/// The one accounting record of a physical request.
#[derive(Debug)]
pub struct AccountingRecord<T = String> {
    pub attempt_id: T,
    pub purpose: T,
    pub connection: T,
    pub cost_bound: u64,
    pub usage: UsageDelta,
}

impl View for AccountingRecord {
    type V = AccountingRecord<Seq<char>>;

    open spec fn view(&self) -> AccountingRecord<Seq<char>> {
        AccountingRecord {
            attempt_id: self.attempt_id@,
            purpose: self.purpose@,
            connection: self.connection@,
            cost_bound: self.cost_bound,
            usage: self.usage,
        }
    }
}

/// The outcome of one dispatched request.
#[derive(Debug)]
pub enum ModelOutcome {
    /// A provider reply and the usage its send reported.
    Reply { reply: ProviderReply, usage: UsageDelta },
}

impl ModelOutcome {
    /// The usage the accounting record charges.
    pub fn usage(&self) -> (r: UsageDelta)
        ensures
            self matches ModelOutcome::Reply { usage, .. } && r == *usage,
    {
        match self {
            ModelOutcome::Reply { usage, .. } => *usage,
        }
    }

    /// The reply the caller goes on with.
    pub fn into_reply(self) -> (r: ProviderReply)
        ensures
            self matches ModelOutcome::Reply { reply, .. } && r == reply,
    {
        match self {
            ModelOutcome::Reply { reply, .. } => reply,
        }
    }
}

/// The connections an account holds rights to. Without a list every
/// connection is allowed.
#[derive(Debug)]
pub struct Entitlements {
    pub version: u64,
    pub rights: Option<Vec<String>>,
}

/// The mathematical value of entitlements.
pub struct RightsView {
    pub version: u64,
    pub rights: Option<Set<Seq<char>>>,
}

pub open spec fn rights_set(rights: Option<Vec<String>>) -> Option<Set<Seq<char>>> {
    match rights {
        Some(names) => Some(text::texts(names@).to_set()),
        None => None,
    }
}

impl View for Entitlements {
    type V = RightsView;

    open spec fn view(&self) -> RightsView {
        RightsView { version: self.version, rights: rights_set(self.rights) }
    }
}

pub open spec fn allowed(rights: Option<Set<Seq<char>>>, connection: Seq<char>) -> bool {
    match rights {
        Some(set) => set.contains(connection),
        None => true,
    }
}

impl Entitlements {
    /// Everything is allowed.
    pub fn unrestricted() -> (r: Self)
        ensures
            r@ == (RightsView { version: 0, rights: None }),
    {
        Entitlements { version: 0, rights: None }
    }

    /// Whether a connection is allowed.
    pub fn allows(&self, connection: &str) -> (r: bool)
        ensures
            r == allowed(self@.rights, connection@),
    {
        match &self.rights {
            Some(names) => names_contain(names, connection),
            None => true,
        }
    }
}

/// Whether the eligible list of a purpose lets a connection through; without
/// a list every connection passes.
pub open spec fn eligible_for(eligible: Option<Seq<Seq<char>>>, connection: Seq<char>) -> bool {
    match eligible {
        Some(list) => list.contains(connection),
        None => true,
    }
}

/// Executable [`eligible_for`].
pub fn purpose_entitled(eligible: &Option<Vec<String>>, connection: &str) -> (r: bool)
    ensures
        r == eligible_for(config::opt_names(*eligible), connection@),
{
    match eligible {
        Some(list) => names_contain(list, connection),
        None => true,
    }
}

/// Account entitlement and the eligible list of the purpose together.
pub fn entitled(
    entitlements: &Entitlements,
    eligible: &Option<Vec<String>>,
    connection: &str,
) -> (r: bool)
    ensures
        r == (allowed(entitlements@.rights, connection@) && eligible_for(
            config::opt_names(*eligible),
            connection@,
        )),
{
    entitlements.allows(connection) && purpose_entitled(eligible, connection)
}

/// The kind of a declared connection.
pub open spec fn kind_of(
    connections: Seq<(Seq<char>, Connection<Seq<char>>)>,
    name: Seq<char>,
) -> Option<ConnKind> {
    match names::lookup(connections, name) {
        Some(c) => Some(c.kind),
        None => None,
    }
}

/// Executable [`kind_of`].
pub fn declared_kind(connections: &NameMap<Connection>, name: &str) -> (r: Option<ConnKind>)
    ensures
        r == kind_of(config::connections_of(*connections), name@),
{
    proof {
        names::lemma_lookup_through(
            connections@,
            name@,
            config::connection_view(),
        );
    }
    match connections.get(name) {
        Some(c) => Some(c.kind),
        None => None,
    }
}

/// A connection that passes every gate of the ranking.
pub open spec fn passes(
    connections: Seq<(Seq<char>, Connection<Seq<char>>)>,
    rights: Option<Set<Seq<char>>>,
    eligible: Option<Seq<Seq<char>>>,
    name: Seq<char>,
) -> bool {
    kind_of(connections, name) == Some(ConnKind::Local) && allowed(rights, name) && eligible_for(
        eligible,
        name,
    )
}

/// The first candidate that passes.
pub open spec fn first_passing(
    candidates: Seq<Seq<char>>,
    connections: Seq<(Seq<char>, Connection<Seq<char>>)>,
    rights: Option<Set<Seq<char>>>,
    eligible: Option<Seq<Seq<char>>>,
) -> Option<Seq<char>>
    decreases candidates.len(),
{
    if candidates.len() == 0 {
        None
    } else if passes(connections, rights, eligible, candidates[0]) {
        Some(candidates[0])
    } else {
        first_passing(candidates.skip(1), connections, rights, eligible)
    }
}

/// The names of the declared connections, in order.
pub open spec fn names_of<A>(s: Seq<(Seq<char>, A)>) -> Seq<Seq<char>> {
    s.map_values(|e: (Seq<char>, A)| e.0)
}

/// The chosen connection, with the model id of a fixed pin.
pub struct Choice {
    pub connection: Seq<char>,
    pub model_id: Option<Seq<char>>,
}

/// The connection an assignment is ranked to: a fixed pin must be usable and
/// entitled; an automatic assignment takes the first candidate that passes,
/// from the pool of the purpose, the pool of the assignment, or every
/// declared connection.
pub open spec fn ranking(
    purpose: Seq<char>,
    assignment: config::ModelView,
    pool: Option<Seq<Seq<char>>>,
    eligible: Option<Seq<Seq<char>>>,
    connections: Seq<(Seq<char>, Connection<Seq<char>>)>,
    rights: Option<Set<Seq<char>>>,
) -> Result<Choice, ModelErrorView> {
    match assignment {
        config::ModelView::Fixed(f) => match providers::offline_verdict(
            assignment,
            kind_of(connections, f.connection),
        ) {
            Err(e) => Err(ModelError::Provider(e)),
            Ok(_) => if allowed(rights, f.connection) && eligible_for(eligible, f.connection) {
                Ok(Choice { connection: f.connection, model_id: Some(f.model_id) })
            } else {
                Err(ModelError::NoEligibleCandidate { purpose })
            },
        },
        config::ModelView::Auto { pool: own } => {
            let candidates = match pool {
                Some(p) => p,
                None => match own {
                    Some(p) => p,
                    None => names_of(connections),
                },
            };
            match first_passing(candidates, connections, rights, eligible) {
                Some(c) => Ok(Choice { connection: c, model_id: None }),
                None => Err(ModelError::NoEligibleCandidate { purpose }),
            }
        },
        config::ModelView::Inherit => Err(ModelError::NoEligibleCandidate { purpose }),
    }
}

/// The connection chosen for a request.
#[derive(Debug)]
pub struct Ranked {
    pub connection: String,
    pub model_id: Option<String>,
}

pub open spec fn ranked_view(r: Result<Ranked, ModelError>) -> Result<Choice, ModelErrorView> {
    match r {
        Ok(c) => Ok(
            Choice { connection: c.connection@, model_id: text::opt_text(c.model_id) },
        ),
        Err(e) => Err(e@),
    }
}

fn first_candidate(
    candidates: &Vec<String>,
    connections: &NameMap<Connection>,
    entitlements: &Entitlements,
    eligible: &Option<Vec<String>>,
) -> (r: Option<String>)
    ensures
        text::opt_text(r) == first_passing(
            text::texts(candidates@),
            config::connections_of(*connections),
            entitlements@.rights,
            config::opt_names(*eligible),
        ),
{
    let ghost all = text::texts(candidates@);
    let ghost conns = config::connections_of(*connections);
    let ghost rights = entitlements@.rights;
    let ghost list = config::opt_names(*eligible);
    let mut i: usize = 0;
    assert(all.skip(0) =~= all);
    while i < candidates.len()
        invariant
            i <= candidates.len(),
            all == text::texts(candidates@),
            conns == config::connections_of(*connections),
            rights == entitlements@.rights,
            list == config::opt_names(*eligible),
            first_passing(all, conns, rights, list) == first_passing(
                all.skip(i as int),
                conns,
                rights,
                list,
            ),
        decreases candidates.len() - i,
    {
        assert(all.skip(i as int)[0] == candidates@[i as int]@);
        assert(all.skip(i as int).skip(1) =~= all.skip(i as int + 1));
        let name: &str = candidates[i].as_str();
        if offline_usable(declared_kind(connections, name)) && entitled(
            entitlements,
            eligible,
            name,
        ) {
            return Some(candidates[i].clone());
        }
        i = i + 1;
    }
    None
}

/// The names of a map, in order.
pub fn map_names<A>(m: &NameMap<A>) -> (r: Vec<String>)
    ensures
        text::texts(r@) == names_of(m@),
{
    let mut out: Vec<String> = Vec::new();
    let ghost all = names_of(m@);
    let n: usize = m.len();
    let mut i: usize = 0;
    assert(all.take(0) =~= text::texts(out@));
    while i < n
        invariant
            i <= n,
            n == m@.len(),
            all == names_of(m@),
            text::texts(out@) == all.take(i as int),
        decreases n - i,
    {
        let name: String = m.name(i).clone();
        proof {
            text::lemma_texts_push(out@, name);
        }
        out.push(name);
        i = i + 1;
        assert(all.take(i as int) =~= all.take(i as int - 1).push(all[i as int - 1]));
    }
    assert(all.take(all.len() as int) =~= all);
    out
}

/// Executable [`ranking`].
pub fn rank_connection(
    purpose: &str,
    assignment: &ModelAssign,
    pool: &Option<Vec<String>>,
    eligible: &Option<Vec<String>>,
    connections: &NameMap<Connection>,
    entitlements: &Entitlements,
) -> (r: Result<Ranked, ModelError>)
    ensures
        ranked_view(r) == ranking(
            purpose@,
            assignment@,
            config::opt_names(*pool),
            config::opt_names(*eligible),
            config::connections_of(*connections),
            entitlements@.rights,
        ),
{
    match assignment {
        ModelAssign::Fixed(f) => {
            match offline_eligible(assignment, declared_kind(connections, f.connection.as_str())) {
                Err(e) => {
                    return Err(ModelError::Provider(e));
                },
                Ok(_) => {},
            }
            if !entitled(entitlements, eligible, f.connection.as_str()) {
                return Err(ModelError::NoEligibleCandidate { purpose: owned(purpose) });
            }
            Ok(
                Ranked { connection: f.connection.clone(), model_id: Some(f.model_id.clone()) },
            )
        },
        ModelAssign::Auto { pool: own } => {
            let candidates: Vec<String> = match pool {
                Some(p) => copy_names(p),
                None => match own {
                    Some(p) => copy_names(p),
                    None => {
                        let names: Vec<String> = map_names(connections);
                        assert(names_of(connections@) =~= names_of(
                            config::connections_of(*connections),
                        ));
                        names
                    },
                },
            };
            match first_candidate(&candidates, connections, entitlements, eligible) {
                Some(connection) => Ok(Ranked { connection, model_id: None }),
                None => Err(ModelError::NoEligibleCandidate { purpose: owned(purpose) }),
            }
        },
        ModelAssign::Inherit => Err(ModelError::NoEligibleCandidate { purpose: owned(purpose) }),
    }
}

/// Bytes of input one budget unit stands for.
pub const BUDGET_UNIT_INPUT_BYTES: u64 = 4096;

/// The cost bound of a request: one unit for every started slice of input
/// and one for the request itself.
pub open spec fn cost_bound_of(input_bytes: nat) -> nat {
    1 + (input_bytes + 4095) / 4096
}

/// Executable [`cost_bound_of`].
pub fn sent_cost_bound(inputs: &str) -> (r: u64)
    ensures
        r == cost_bound_of(vstd::utf8::encode_utf8(inputs@).len()),
{
    let bytes: Vec<u8> = bytes_of(inputs);
    let n: u64 = bytes.len() as u64;
    let slices: u64 = n / BUDGET_UNIT_INPUT_BYTES;
    if n % BUDGET_UNIT_INPUT_BYTES == 0 {
        1 + slices
    } else {
        2 + slices
    }
}

/// Lower-case hexadecimal notation.
pub fn hex(bytes: &[u8]) -> (r: String)
    ensures
        r@ == digest::hex_text(bytes@),
{
    digest::hex(bytes)
}

/// The ranking only ever chooses a declared local connection that the
/// account and the purpose allow.
pub proof fn law_ranking_is_eligible(
    purpose: Seq<char>,
    assignment: config::ModelView,
    pool: Option<Seq<Seq<char>>>,
    eligible: Option<Seq<Seq<char>>>,
    connections: Seq<(Seq<char>, Connection<Seq<char>>)>,
    rights: Option<Set<Seq<char>>>,
)
    ensures
        ranking(purpose, assignment, pool, eligible, connections, rights) matches Ok(c) ==> passes(
            connections,
            rights,
            eligible,
            c.connection,
        ),
{
    match assignment {
        config::ModelView::Auto { pool: own } => {
            let candidates = match pool {
                Some(p) => p,
                None => match own {
                    Some(p) => p,
                    None => names_of(connections),
                },
            };
            lemma_first_passing(candidates, connections, rights, eligible);
        },
        _ => {},
    }
}

proof fn lemma_first_passing(
    candidates: Seq<Seq<char>>,
    connections: Seq<(Seq<char>, Connection<Seq<char>>)>,
    rights: Option<Set<Seq<char>>>,
    eligible: Option<Seq<Seq<char>>>,
)
    ensures
        first_passing(candidates, connections, rights, eligible) matches Some(c) ==> passes(
            connections,
            rights,
            eligible,
            c,
        ) && candidates.contains(c),
        first_passing(candidates, connections, rights, eligible) is None ==> forall|i: int|
            0 <= i < candidates.len() ==> !passes(
                connections,
                rights,
                eligible,
                #[trigger] candidates[i],
            ),
    decreases candidates.len(),
{
    if candidates.len() > 0 {
        if passes(connections, rights, eligible, candidates[0]) {
            assert(candidates.contains(candidates[0]));
        } else {
            let t = candidates.skip(1);
            lemma_first_passing(t, connections, rights, eligible);
            match first_passing(t, connections, rights, eligible) {
                Some(c) => {
                    let k = choose|k: int| 0 <= k < t.len() && t[k] == c;
                    assert(candidates[k + 1] == c);
                },
                None => {
                    assert forall|i: int| 0 <= i < candidates.len() implies !passes(
                        connections,
                        rights,
                        eligible,
                        #[trigger] candidates[i],
                    ) by {
                        if i > 0 {
                            assert(t[i - 1] == candidates[i]);
                        }
                    }
                },
            }
        }
    }
}

} // verus!
