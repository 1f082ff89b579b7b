//! The broker: it prepares manifests, dispatches them and accounts every
//! physical request exactly once.

use crate::config::{
    self, copy_opt_names, ConnKind, Connection, FallbackAssign, FixedModel, ModelAssign, PurposeDef,
};
use crate::config::settings::{self, Config, ResolvedPurpose};
use crate::contracts::{self, AttemptId, MODEL_WIRE_MAX_BYTES};
use crate::digest::{self, bytes_of, digest_hex};
use crate::model::{
    self, map_names, purpose_entitled, rank_connection, same_manifest, sent_cost_bound,
    wire_composition, AccountingRecord, AdmissionRecord, AdmissionView, CandidateRejection,
    EffortExplain, Entitlements, ManifestView, ModelError, ModelErrorView, ModelOutcome,
    PendingFallback, PendingView, ProfileBinding, Ranked, RejectionCause, RequestManifest,
    RightsView, SentCostExplain,
};
use crate::names::{self, NameMap};
use crate::providers::{
    self, offline_usable, Provider, ProviderError, ProviderReply, ReplyView, SendOutcome,
    UsageDelta,
};
use crate::table::{self, Table};
use crate::text::{
    self, chars_of, copy_names, copy_opt, join_names, names_contain, owned, same, text2, text3,
    text5, text_of,
};
use vstd::prelude::*;

verus! {

broadcast use {table::lemma_mapped_insert, table::lemma_mapped_remove};

/// The recorded reason of an epoch change.
pub const MODEL_SWITCH: &'static str = "model switch";

/// The instructions every request carries.
pub const MANDATORY_INSTRUCTIONS: &'static str = "You are the Rivect decision core. The only permitted action is one scoped file read; request it as `read <path>` on its own line.";

/// The tool every request declares.
pub const DECLARED_TOOL: &'static str = "read_file";

/// Reply bytes every request leaves room for.
pub const OUTPUT_RESERVE_BYTES: usize = 16384;

/// The broker of one owner.
#[derive(Debug)]
pub struct Broker<P> {
    pub provider: P,
    /// The digest of the last prefix of every purpose.
    pub epochs: Table<String>,
    pub entitlements: Entitlements,
    /// One entry per attempt in flight.
    pub admissions: Table<AdmissionRecord>,
    /// One entry per completed send.
    pub accounting: Table<AccountingRecord>,
    /// The connections of the latest observed configuration.
    pub view_connections: NameMap<Connection>,
    /// The eligible list of every purpose of that configuration.
    pub view_purposes: NameMap<Option<Vec<String>>>,
    /// The credential profile that each connection binds, where it binds one.
    pub view_profiles: NameMap<String>,
    /// Attempts that were cancelled.
    pub cancelled: Table<()>,
    /// Manual choices that wait to be published.
    pub pending: Table<PendingFallback>,
    /// Attempts that wait for a manual choice, with what may be chosen.
    pub paused: Table<Vec<String>>,
    pub bound_profile: Option<ProfileBinding>,
}

/// The mathematical value of a broker, its provider aside.
#[verifier::ext_equal]
pub struct BrokerView {
    pub epochs: Map<Seq<char>, Seq<char>>,
    pub rights: RightsView,
    pub admissions: Map<Seq<char>, AdmissionView>,
    pub accounting: Map<Seq<char>, AccountingRecord<Seq<char>>>,
    pub connections: Seq<(Seq<char>, Connection<Seq<char>>)>,
    pub purposes: Seq<(Seq<char>, Option<Seq<Seq<char>>>)>,
    pub profiles: Seq<(Seq<char>, Seq<char>)>,
    pub cancelled: Set<Seq<char>>,
    pub pending: Map<Seq<char>, PendingView>,
    pub paused: Map<Seq<char>, Seq<Seq<char>>>,
    pub bound: Option<ProfileBinding<Seq<char>>>,
}

pub open spec fn text_fn() -> spec_fn(String) -> Seq<char> {
    |s: String| s@
}

pub open spec fn admission_fn() -> spec_fn(AdmissionRecord) -> AdmissionView {
    |a: AdmissionRecord| a@
}

pub open spec fn accounting_fn() -> spec_fn(AccountingRecord) -> AccountingRecord<Seq<char>> {
    |a: AccountingRecord| a@
}

pub open spec fn pending_fn() -> spec_fn(PendingFallback) -> PendingView {
    |p: PendingFallback| p@
}

pub open spec fn list_fn() -> spec_fn(Vec<String>) -> Seq<Seq<char>> {
    |v: Vec<String>| text::texts(v@)
}

pub open spec fn eligible_fn() -> spec_fn(Option<Vec<String>>) -> Option<Seq<Seq<char>>> {
    |v: Option<Vec<String>>| config::opt_names(v)
}

pub open spec fn def_eligible_fn() -> spec_fn(config::PurposeView) -> Option<
    Seq<Seq<char>>,
> {
    |p: config::PurposeView| p.eligible
}

pub open spec fn opt_binding(b: Option<ProfileBinding>) -> Option<ProfileBinding<Seq<char>>> {
    match b {
        Some(x) => Some(x@),
        None => None,
    }
}

impl<P> Broker<P> {
    /// The value of this broker.
    pub open spec fn state(self) -> BrokerView {
        BrokerView {
            epochs: table::mapped(self.epochs@, text_fn()),
            rights: self.entitlements@,
            admissions: table::mapped(self.admissions@, admission_fn()),
            accounting: table::mapped(self.accounting@, accounting_fn()),
            connections: config::connections_of(self.view_connections),
            purposes: names::values_through(self.view_purposes@, eligible_fn()),
            profiles: names::values_through(self.view_profiles@, text_fn()),
            cancelled: self.cancelled@.dom(),
            pending: table::mapped(self.pending@, pending_fn()),
            paused: table::mapped(self.paused@, list_fn()),
            bound: opt_binding(self.bound_profile),
        }
    }
}

/// The digest of the prefix a model sees.
pub open spec fn prefix_digest(
    purpose: Seq<char>,
    model: config::ModelView,
    instructions: Seq<char>,
    tools: Seq<Seq<char>>,
) -> Seq<char> {
    digest::digest_text(
        vstd::utf8::encode_utf8(
            "purpose:"@ + purpose + "\nmodel:"@ + model::model_id_text(model)
                + "\ninstructions:"@ + (instructions + "\ntools:"@ + text::join(
                tools,
                ", "@,
            )),
        ),
    )
}

/// The name of an epoch.
pub open spec fn epoch_name(digest: Seq<char>) -> Seq<char> {
    "epoch-"@ + digest.take(16)
}

/// Why a purpose enters an epoch: an unchanged prefix replays the last one,
/// a changed one is a model switch.
pub open spec fn epoch_reason(
    epochs: Map<Seq<char>, Seq<char>>,
    purpose: Seq<char>,
    digest: Seq<char>,
) -> Option<Seq<char>> {
    if epochs.dom().contains(purpose) && epochs[purpose] != digest {
        Some(MODEL_SWITCH@)
    } else {
        None
    }
}

/// The eligible list of a purpose.
pub open spec fn eligible_in(
    purposes: Seq<(Seq<char>, Option<Seq<Seq<char>>>)>,
    purpose: Seq<char>,
) -> Option<Seq<Seq<char>>> {
    match names::lookup(purposes, purpose) {
        Some(list) => list,
        None => None,
    }
}

/// Why a connection may not take a request now.
pub open spec fn rejection<P: Provider>(
    p: P,
    v: BrokerView,
    purpose: Seq<char>,
    connection: Seq<char>,
) -> Option<RejectionCause<Seq<char>>> {
    match names::lookup(v.connections, connection) {
        None => Some(RejectionCause::UnknownConnection),
        Some(entry) => if entry.kind != ConnKind::Local {
            Some(RejectionCause::LiveGrantRequired { kind: entry.kind })
        } else if !p.serving(connection, entry) {
            Some(RejectionCause::DialectMismatch)
        } else if !model::allowed(v.rights.rights, connection) {
            Some(RejectionCause::NotEntitled)
        } else if !model::eligible_for(eligible_in(v.purposes, purpose), connection) {
            Some(RejectionCause::NotPurposeEligible)
        } else {
            None
        },
    }
}

/// The connections that may take a request now, in order.
pub open spec fn eligible<P: Provider>(
    p: P,
    v: BrokerView,
    names: Seq<Seq<char>>,
    purpose: Seq<char>,
) -> Seq<Seq<char>>
    decreases names.len(),
{
    if names.len() == 0 {
        Seq::empty()
    } else if rejection(p, v, purpose, names.last()) is None {
        eligible(p, v, names.drop_last(), purpose).push(names.last())
    } else {
        eligible(p, v, names.drop_last(), purpose)
    }
}

/// A list without one name.
pub open spec fn without_name(names: Seq<Seq<char>>, name: Seq<char>) -> Seq<Seq<char>>
    decreases names.len(),
{
    if names.len() == 0 {
        Seq::empty()
    } else if names.last() == name {
        without_name(names.drop_last(), name)
    } else {
        without_name(names.drop_last(), name).push(names.last())
    }
}

/// Why every connection but the primary is refused.
pub open spec fn refusals<P: Provider>(
    p: P,
    v: BrokerView,
    names: Seq<Seq<char>>,
    purpose: Seq<char>,
    primary: Seq<char>,
) -> Seq<CandidateRejection<Seq<char>>>
    decreases names.len(),
{
    if names.len() == 0 {
        Seq::empty()
    } else {
        let before = refusals(p, v, names.drop_last(), purpose, primary);
        match rejection(p, v, purpose, names.last()) {
            Some(cause) => if names.last() != primary {
                before.push(CandidateRejection { connection: names.last(), cause })
            } else {
                before
            },
            None => before,
        }
    }
}

/// The eligible lists of the purposes of a configuration.
pub open spec fn eligible_lists(models: config::ModelsView) -> Seq<
    (Seq<char>, Option<Seq<Seq<char>>>),
> {
    names::values_through(models.purposes, def_eligible_fn())
}

pub open spec fn declared_tools() -> Seq<Seq<char>> {
    seq![DECLARED_TOOL@]
}

/// The size a request is accounted with: its wire bytes and the reserve.
pub open spec fn accounted_size(
    model: config::ModelView,
    inputs: Seq<char>,
) -> usize {
    let n = vstd::utf8::encode_utf8(
        model::wire_text(
            MANDATORY_INSTRUCTIONS@,
            model,
            declared_tools(),
            OUTPUT_RESERVE_BYTES as nat,
            inputs,
        ),
    ).len();
    if n + OUTPUT_RESERVE_BYTES > usize::MAX {
        usize::MAX
    } else {
        (n + OUTPUT_RESERVE_BYTES) as usize
    }
}

/// A broker that has seen nothing yet.
pub open spec fn started() -> BrokerView {
    BrokerView {
        epochs: Map::empty(),
        rights: RightsView { version: 0, rights: None },
        admissions: Map::empty(),
        accounting: Map::empty(),
        connections: Seq::empty(),
        purposes: Seq::empty(),
        profiles: Seq::empty(),
        cancelled: Set::empty(),
        pending: Map::empty(),
        paused: Map::empty(),
        bound: None,
    }
}

/// A broker that looks at a configuration.
pub open spec fn observing(
    v: BrokerView,
    connections: Seq<(Seq<char>, Connection<Seq<char>>)>,
    models: config::ModelsView,
) -> BrokerView {
    BrokerView { connections, purposes: eligible_lists(models), ..v }
}

/// An attempt that was admitted and is not accounted yet.
pub open spec fn in_flight(v: BrokerView, attempt_id: Seq<char>) -> bool {
    !v.accounting.dom().contains(attempt_id) && v.admissions.dom().contains(attempt_id)
}

/// A broker after an attempt was cancelled: nothing of it is left but the mark
/// that it was cancelled. Only an attempt in flight can be.
pub open spec fn cancelling(v: BrokerView, attempt_id: Seq<char>) -> BrokerView {
    if in_flight(v, attempt_id) {
        BrokerView {
            admissions: v.admissions.remove(attempt_id),
            pending: v.pending.remove(attempt_id),
            paused: v.paused.remove(attempt_id),
            cancelled: v.cancelled.insert(attempt_id),
            ..v
        }
    } else {
        v
    }
}

/// A broker after the rights of the account were installed: their version
/// moves exactly when they do.
pub open spec fn entitled_to(v: BrokerView, rights: Set<Seq<char>>) -> BrokerView {
    if v.rights.rights == Some(rights) {
        v
    } else {
        BrokerView {
            rights: RightsView { version: (v.rights.version + 1) as u64, rights: Some(rights) },
            ..v
        }
    }
}

/// What preparing a request does, given the id of the attempt.
pub open spec fn prepared(
    v: BrokerView,
    connections: Seq<(Seq<char>, Connection<Seq<char>>)>,
    models: config::ModelsView,
    purpose: Seq<char>,
    world: Seq<char>,
    inputs: Seq<char>,
    id: Seq<char>,
) -> (BrokerView, Result<ManifestView, ModelErrorView>) {
    match settings::purpose_resolution(models, purpose) {
        Err(e) => (v, Err(ModelError::Config(e))),
        Ok(res) => {
            let def = names::lookup(models.purposes, purpose);
            let pool = match def {
                Some(d) => d.pool,
                None => None,
            };
            let list = match def {
                Some(d) => d.eligible,
                None => None,
            };
            match model::ranking(
                purpose,
                res.model,
                pool,
                list,
                connections,
                v.rights.rights,
            ) {
                Err(e) => (v, Err(e)),
                Ok(choice) => {
                    let size = accounted_size(res.model, inputs);
                    if size > MODEL_WIRE_MAX_BYTES {
                        (
                            v,
                            Err(
                                ModelError::RequestTooLarge {
                                    limit: MODEL_WIRE_MAX_BYTES,
                                    actual: size,
                                },
                            ),
                        )
                    } else {
                        let digest = prefix_digest(
                            purpose,
                            res.model,
                            MANDATORY_INSTRUCTIONS@,
                            declared_tools(),
                        );
                        let bytes = vstd::utf8::encode_utf8(inputs);
                        let manifest = ManifestView {
                            attempt_id: id,
                            purpose,
                            world,
                            model: res.model,
                            effort: res.effort,
                            instructions: MANDATORY_INSTRUCTIONS@,
                            tools: declared_tools(),
                            output_reserve: OUTPUT_RESERVE_BYTES,
                            inputs,
                            inputs_digest: digest::digest_text(bytes),
                            epoch_id: epoch_name(digest),
                            mutation_reason: epoch_reason(v.epochs, purpose, digest),
                            cost_bound: model::cost_bound_of(bytes.len()) as u64,
                        };
                        let admission = AdmissionView {
                            purpose,
                            connection: choice.connection,
                            model_id: choice.model_id,
                            model_source: res.model_source,
                            snapshot_version: v.rights.version,
                            manifest,
                            fallback: res.fallback,
                            fallback_source: res.fallback_source,
                        };
                        (
                            BrokerView {
                                epochs: v.epochs.insert(purpose, digest),
                                admissions: v.admissions.insert(id, admission),
                                bound: Some(
                                    ProfileBinding {
                                        connection: choice.connection,
                                        profile: names::lookup(v.profiles, choice.connection),
                                    },
                                ),
                                ..observing(v, connections, models)
                            },
                            Ok(manifest),
                        )
                    }
                },
            }
        },
    }
}

pub open spec fn manifest_outcome(r: Result<RequestManifest, ModelError>) -> Result<
    ManifestView,
    ModelErrorView,
> {
    match r {
        Ok(m) => Ok(m@),
        Err(e) => Err(e@),
    }
}

/// Whether a manifest may be sent from a world: it belongs to the world, was
/// never spent nor cancelled, is the manifest that was admitted, and the
/// rights did not move since.
pub open spec fn gate(v: BrokerView, world: Seq<char>, m: ManifestView) -> Result<
    AdmissionView,
    ModelErrorView,
> {
    if m.world != world {
        Err(ModelError::WorldMismatch { frozen: m.world, current: world })
    } else if v.accounting.dom().contains(m.attempt_id) {
        Err(ModelError::AttemptAlreadyAccounted { attempt_id: m.attempt_id })
    } else if v.cancelled.contains(m.attempt_id) {
        Err(ModelError::AttemptCancelled { attempt_id: m.attempt_id })
    } else if !v.admissions.dom().contains(m.attempt_id) {
        Err(ModelError::NoAdmission { attempt_id: m.attempt_id })
    } else {
        let a = v.admissions[m.attempt_id];
        if a.manifest != m {
            Err(ModelError::AdmissionMismatch { attempt_id: m.attempt_id })
        } else if v.rights.version != a.snapshot_version || !model::allowed(
            v.rights.rights,
            a.connection,
        ) {
            Err(
                ModelError::EligibilityStale {
                    attempt_id: m.attempt_id,
                    connection: a.connection,
                    frozen: a.snapshot_version,
                    current: v.rights.version,
                },
            )
        } else {
            Ok(a)
        }
    }
}

/// The manifest as it goes to the provider: an automatic assignment is
/// narrowed to the connection the broker routed to. Nothing is sent to a
/// connection that is not declared or that the provider does not serve.
pub open spec fn send_form<P: Provider>(
    p: P,
    v: BrokerView,
    m: ManifestView,
    connection: Seq<char>,
) -> Result<ManifestView, ProviderError<Seq<char>>> {
    match names::lookup(v.connections, connection) {
        None => Err(ProviderError::UnknownConnection),
        Some(entry) => if !p.serving(connection, entry) {
            Err(ProviderError::DialectMismatch { connection })
        } else {
            match m.model {
                config::ModelView::Auto { .. } => Ok(
                    ManifestView {
                        model: config::ModelView::Auto { pool: Some(seq![connection]) },
                        ..m
                    },
                ),
                _ => Ok(m),
            }
        },
    }
}

/// One send of a manifest to a connection: it is refused before the provider
/// sees it, or the provider gets its send form and nothing else.
pub open spec fn send_step<P: Provider>(
    before: P,
    v: BrokerView,
    m: ManifestView,
    connection: Seq<char>,
    outcome: SendOutcome,
    after: P,
) -> bool {
    match send_form(before, v, m, connection) {
        Err(e) => outcome == Err::<ReplyView, ProviderError<Seq<char>>>(e) && after == before,
        Ok(frozen) => before.sends(frozen, outcome, after),
    }
}

/// A broker after a manifest was sent: the request is accounted and nothing
/// of the attempt is left.
pub open spec fn spent(
    v: BrokerView,
    m: ManifestView,
    connection: Seq<char>,
    usage: UsageDelta,
) -> BrokerView {
    BrokerView {
        accounting: v.accounting.insert(
            m.attempt_id,
            AccountingRecord {
                attempt_id: m.attempt_id,
                purpose: m.purpose,
                connection,
                cost_bound: m.cost_bound,
                usage,
            },
        ),
        admissions: v.admissions.remove(m.attempt_id),
        pending: v.pending.remove(m.attempt_id),
        paused: v.paused.remove(m.attempt_id),
        ..v
    }
}

/// The substitute of a failed attempt: the same task data under an id of its
/// own, on another model.
pub open spec fn substitute_of(
    v: BrokerView,
    a: AdmissionView,
    model: config::ModelView,
    id: Seq<char>,
) -> ManifestView {
    let digest = prefix_digest(a.purpose, model, a.manifest.instructions, a.manifest.tools);
    ManifestView {
        attempt_id: id,
        model,
        epoch_id: epoch_name(digest),
        mutation_reason: epoch_reason(v.epochs, a.purpose, digest),
        ..a.manifest
    }
}

/// A broker that admitted a substitute; a substitute never falls back again.
pub open spec fn minted(
    v: BrokerView,
    a: AdmissionView,
    model: config::ModelView,
    connection: Seq<char>,
    leg: Seq<char>,
    id: Seq<char>,
) -> BrokerView {
    let digest = prefix_digest(a.purpose, model, a.manifest.instructions, a.manifest.tools);
    BrokerView {
        epochs: v.epochs.insert(a.purpose, digest),
        admissions: v.admissions.insert(
            id,
            AdmissionView {
                purpose: a.purpose,
                connection,
                model_id: match model {
                    config::ModelView::Fixed(f) => Some(f.model_id),
                    _ => None,
                },
                model_source: a.fallback_source + "."@ + leg,
                snapshot_version: v.rights.version,
                manifest: substitute_of(v, a, model, id),
                fallback: config::FallbackView::Off,
                fallback_source: a.fallback_source,
            },
        ),
        ..v
    }
}

/// A broker without the admissions of some attempts.
pub open spec fn forgetting(v: BrokerView, ids: Set<Seq<char>>) -> BrokerView {
    BrokerView { admissions: v.admissions.remove_keys(ids), ..v }
}

/// The connections among some rejections that received a send.
pub open spec fn sent_among(rejected: Seq<CandidateRejection<Seq<char>>>) -> Seq<Seq<char>>
    decreases rejected.len(),
{
    if rejected.len() == 0 {
        Seq::empty()
    } else if rejected.last().cause is SendFailed {
        sent_among(rejected.drop_last()).push(rejected.last().connection)
    } else {
        sent_among(rejected.drop_last())
    }
}

/// How a walk along a chain went: the provider before and after every entry,
/// the id of the substitute that was sent to an entry, and why the entry was
/// left behind.
pub struct WalkTrace<P> {
    pub providers: Seq<P>,
    pub ids: Seq<Option<Seq<char>>>,
    pub rejected: Seq<CandidateRejection<Seq<char>>>,
}

/// The ids under which something was sent.
pub open spec fn sent_ids(ids: Seq<Option<Seq<char>>>) -> Set<Seq<char>> {
    Set::new(|id: Seq<char>| ids.contains(Some(id)))
}

/// A chain entry was left behind: it is not eligible, which is the cause,
/// or the substitute for it was sent and failed.
pub open spec fn left_behind<P: Provider>(
    before: P,
    after: P,
    v: BrokerView,
    a: AdmissionView,
    entry: FixedModel<Seq<char>>,
    id: Option<Seq<char>>,
    refused: CandidateRejection<Seq<char>>,
) -> bool {
    &&& refused.connection == entry.connection
    &&& match rejection(before, v, a.purpose, entry.connection) {
        Some(cause) => refused.cause == cause && id is None && after == before,
        None => match (id, refused.cause) {
            (Some(fresh), RejectionCause::SendFailed(e)) => contracts::is_uuid_v4(fresh)
                && send_step(
                before,
                v,
                substitute_of(v, a, config::ModelView::Fixed(entry), fresh),
                entry.connection,
                Err(e),
                after,
            ),
            _ => false,
        },
    }
}

/// Every entry of a chain was left behind, in order, by a walk that started
/// with the provider `before`.
pub open spec fn walked<P: Provider>(
    before: P,
    v: BrokerView,
    a: AdmissionView,
    chain: Seq<FixedModel<Seq<char>>>,
    t: WalkTrace<P>,
) -> bool {
    &&& t.providers.len() == chain.len() + 1
    &&& t.providers[0] == before
    &&& t.ids.len() == chain.len()
    &&& t.rejected.len() == chain.len()
    &&& forall|i: int|
        0 <= i < chain.len() ==> left_behind(
            t.providers[i],
            t.providers[i + 1],
            v,
            a,
            chain[i],
            t.ids[i],
            #[trigger] t.rejected[i],
        )
}

/// The chain was walked to its end: every entry was refused or failed, in
/// order, nothing was accounted, and nothing of the walk is left.
pub open spec fn walked_in_vain<P: Provider>(
    before: P,
    after: P,
    v: BrokerView,
    a: AdmissionView,
    m: ManifestView,
    chain: Seq<FixedModel<Seq<char>>>,
    source: ProviderError<Seq<char>>,
    r: Result<ReplyView, ModelErrorView>,
    w: BrokerView,
    t: WalkTrace<P>,
) -> bool {
    &&& walked(before, v, a, chain, t)
    &&& after == t.providers.last()
    &&& w == forgetting(v, sent_ids(t.ids))
    &&& r == Err::<ReplyView, ModelErrorView>(
        ModelError::FallbackExhausted {
            attempt_id: m.attempt_id,
            purpose: a.purpose,
            rejected: t.rejected,
            attempted: sent_among(t.rejected),
            source,
        },
    )
}

/// An entry of the chain answered after those in front of it were left
/// behind: it is eligible, its substitute is accounted once, under the cost
/// bound of the failed attempt, and neither attempt can be sent again.
pub open spec fn walk_answered<P: Provider>(
    before: P,
    after: P,
    v: BrokerView,
    a: AdmissionView,
    m: ManifestView,
    chain: Seq<FixedModel<Seq<char>>>,
    r: Result<ReplyView, ModelErrorView>,
    w: BrokerView,
    t: WalkTrace<P>,
    id: Seq<char>,
    k: int,
) -> bool {
    &&& 0 <= k < chain.len()
    &&& walked(before, v, a, chain.take(k), t)
    &&& contracts::is_uuid_v4(id)
    &&& rejection(t.providers.last(), v, a.purpose, chain[k].connection) is None
    &&& r is Ok
    &&& send_step(
        t.providers.last(),
        v,
        substitute_of(v, a, config::ModelView::Fixed(chain[k]), id),
        chain[k].connection,
        Ok(r->Ok_0),
        after,
    )
    &&& w == (BrokerView {
        epochs: v.epochs.insert(
            a.purpose,
            prefix_digest(
                a.purpose,
                config::ModelView::Fixed(chain[k]),
                a.manifest.instructions,
                a.manifest.tools,
            ),
        ),
        accounting: v.accounting.insert(
            id,
            AccountingRecord {
                attempt_id: id,
                purpose: a.manifest.purpose,
                connection: chain[k].connection,
                cost_bound: a.manifest.cost_bound,
                usage: r->Ok_0.usage,
            },
        ),
        admissions: v.admissions.remove_keys(sent_ids(t.ids).insert(id).insert(m.attempt_id)),
        pending: v.pending.remove(id),
        paused: v.paused.remove(id),
        ..v
    })
}

/// What a failed send leads to: without a fallback the error of the
/// provider; with a manual one a choice to make, or the honest exhaustion
/// when there is none; with an automatic one the walk along its chain. Only
/// the walk calls the provider again.
pub open spec fn fell_back<P: Provider>(
    before: P,
    after: P,
    v: BrokerView,
    a: AdmissionView,
    m: ManifestView,
    source: ProviderError<Seq<char>>,
    r: Result<ReplyView, ModelErrorView>,
    w: BrokerView,
) -> bool {
    match a.fallback {
        config::FallbackView::Off => r == Err::<ReplyView, ModelErrorView>(
            ModelError::Provider(source),
        ) && w == v && after == before,
        config::FallbackView::Manual => {
            let names = model::names_of(v.connections);
            let offer = without_name(eligible(before, v, names, a.purpose), a.connection);
            &&& after == before
            &&& if offer.len() == 0 {
                &&& r == Err::<ReplyView, ModelErrorView>(
                    ModelError::FallbackExhausted {
                        attempt_id: m.attempt_id,
                        purpose: a.purpose,
                        rejected: refusals(before, v, names, a.purpose, a.connection),
                        attempted: Seq::empty(),
                        source,
                    },
                )
                &&& w == v
            } else {
                &&& r == Err::<ReplyView, ModelErrorView>(
                    ModelError::ManualFallbackPending {
                        attempt_id: m.attempt_id,
                        purpose: a.purpose,
                    },
                )
                &&& w == (BrokerView {
                    paused: v.paused.insert(m.attempt_id, offer),
                    pending: v.pending.insert(
                        m.attempt_id,
                        PendingView {
                            attempt_id: m.attempt_id,
                            purpose: a.purpose,
                            candidates: offer,
                        },
                    ),
                    ..v
                })
            }
        },
        config::FallbackView::Auto { chain } => {
            ||| exists|t: WalkTrace<P>| #[trigger]
                walked_in_vain(before, after, v, a, m, chain, source, r, w, t)
            ||| exists|t: WalkTrace<P>, id: Seq<char>, k: int| #[trigger]
                walk_answered(before, after, v, a, m, chain, r, w, t, id, k)
        },
    }
}

pub open spec fn reply_outcome(r: Result<ProviderReply, ModelError>) -> Result<
    ReplyView,
    ModelErrorView,
> {
    match r {
        Ok(reply) => Ok(reply@),
        Err(e) => Err(e@),
    }
}

/// Whether a manual choice may be sent: its attempt is admitted and paused,
/// the world is the frozen one, the connection was offered and is still
/// eligible.
pub open spec fn choice_gate<P: Provider>(
    p: P,
    v: BrokerView,
    world: Seq<char>,
    attempt_id: Seq<char>,
    connection: Seq<char>,
) -> Result<AdmissionView, ModelErrorView> {
    if !v.admissions.dom().contains(attempt_id) {
        if v.cancelled.contains(attempt_id) {
            Err(ModelError::AttemptCancelled { attempt_id })
        } else if v.accounting.dom().contains(attempt_id) {
            Err(ModelError::AttemptAlreadyAccounted { attempt_id })
        } else {
            Err(ModelError::NoAdmission { attempt_id })
        }
    } else if !v.paused.dom().contains(attempt_id) {
        Err(ModelError::NoPendingChoice { attempt_id })
    } else {
        let a = v.admissions[attempt_id];
        if a.manifest.world != world {
            Err(ModelError::WorldMismatch { frozen: a.manifest.world, current: world })
        } else if !v.paused[attempt_id].contains(connection) {
            Err(
                ModelError::ManualChoiceRejected {
                    attempt_id,
                    connection,
                    cause: RejectionCause::NotOffered,
                },
            )
        } else {
            match rejection(p, v, a.purpose, connection) {
                Some(cause) => Err(
                    ModelError::ManualChoiceRejected { attempt_id, connection, cause },
                ),
                None => Ok(a),
            }
        }
    }
}

/// The model a manual choice is sent with: a fixed model keeps its id, any
/// other is narrowed to the choice.
pub open spec fn chosen_model(
    model: config::ModelView,
    connection: Seq<char>,
) -> config::ModelView {
    match model {
        config::ModelView::Fixed(f) => config::ModelView::Fixed(
            FixedModel { connection, model_id: f.model_id },
        ),
        _ => config::ModelView::Auto { pool: Some(seq![connection]) },
    }
}

/// A broker after a manual choice was sent under the id `id`.
pub open spec fn choice_spent(
    v: BrokerView,
    a: AdmissionView,
    attempt_id: Seq<char>,
    connection: Seq<char>,
    id: Seq<char>,
    usage: UsageDelta,
) -> BrokerView {
    let model = chosen_model(a.manifest.model, connection);
    let w = spent(
        minted(v, a, model, connection, "manual"@, id),
        substitute_of(v, a, model, id),
        connection,
        usage,
    );
    BrokerView {
        admissions: w.admissions.remove(attempt_id),
        pending: w.pending.remove(attempt_id),
        paused: w.paused.remove(attempt_id),
        ..w
    }
}

/// What sending a manual choice under the id `id` led to.
pub open spec fn chosen<P: Provider>(
    before: P,
    after: P,
    v: BrokerView,
    a: AdmissionView,
    attempt_id: Seq<char>,
    connection: Seq<char>,
    r: Result<ReplyView, ModelErrorView>,
    w: BrokerView,
    id: Seq<char>,
) -> bool {
    let substitute = substitute_of(v, a, chosen_model(a.manifest.model, connection), id);
    &&& contracts::is_uuid_v4(id)
    &&& match r {
        Ok(reply) => send_step(before, v, substitute, connection, Ok(reply), after) && w
            == choice_spent(v, a, attempt_id, connection, id, reply.usage),
        Err(ModelError::Provider(e)) => send_step(
            before,
            v,
            substitute,
            connection,
            Err(e),
            after,
        ) && w == forgetting(v, set![id]),
        _ => false,
    }
}

/// The primary failed, and the fallback decided from the provider it left.
pub open spec fn failed_over<P: Provider>(
    before: P,
    mid: P,
    after: P,
    v: BrokerView,
    a: AdmissionView,
    m: ManifestView,
    source: ProviderError<Seq<char>>,
    r: Result<ReplyView, ModelErrorView>,
    w: BrokerView,
) -> bool {
    &&& send_step(before, v, m, a.connection, Err(source), mid)
    &&& fell_back(mid, after, v, a, m, source, r, w)
}

/// What dispatching an admitted manifest led to: the primary answered and is
/// accounted, or it failed and the fallback decided.
pub open spec fn dispatched<P: Provider>(
    before: P,
    after: P,
    v: BrokerView,
    a: AdmissionView,
    m: ManifestView,
    r: Result<ReplyView, ModelErrorView>,
    w: BrokerView,
) -> bool {
    ||| r is Ok && send_step(before, v, m, a.connection, Ok(r->Ok_0), after) && w == spent(
        v,
        m,
        a.connection,
        r->Ok_0.usage,
    )
    ||| exists|mid: P, source: ProviderError<Seq<char>>| #[trigger]
        failed_over(before, mid, after, v, a, m, source, r, w)
}

/// What a dispatch from a world comes to: a manifest that may not be sent
/// changes nothing.
pub open spec fn dispatch_ends<P: Provider>(
    before: P,
    after: P,
    v: BrokerView,
    world: Seq<char>,
    m: ManifestView,
    r: Result<ReplyView, ModelErrorView>,
    w: BrokerView,
) -> bool {
    match gate(v, world, m) {
        Err(e) => r == Err::<ReplyView, ModelErrorView>(e) && w == v && after == before,
        Ok(a) => dispatched(before, after, v, a, m, r, w),
    }
}

proof fn lemma_append<A>(s: Seq<(Seq<char>, A)>, i: int)
    requires
        names::increasing(s),
        0 <= i < s.len(),
    ensures
        names::set_key(s.take(i), s[i].0, s[i].1) == s.take(i + 1),
{
    let t = s.take(i);
    if t.len() > 0 {
        assert(names::text_less(s[i - 1].0, s[i].0));
        assert(t.last() == s[i - 1]);
    }
    assert(s.take(i + 1) =~= t.push(s[i]));
}

fn copy_connections(m: &NameMap<Connection>) -> (r: NameMap<Connection>)
    ensures
        config::connections_of(r) == config::connections_of(*m),
{
    let mut out: NameMap<Connection> = NameMap::new();
    let n: usize = m.len();
    let ghost all = config::connections_of(*m);
    let mut i: usize = 0;
    assert(config::connections_of(out) =~= all.take(0));
    while i < n
        invariant
            i <= n,
            n == m@.len(),
            names::increasing(m@),
            all == config::connections_of(*m),
            config::connections_of(out) == all.take(i as int),
        decreases n - i,
    {
        let name: String = m.name(i).clone();
        let value: Connection = m.value(i).clone();
        proof {
            names::lemma_set_key_through(
                out@,
                name@,
                value,
                config::connection_view(),
            );
            assert(all[i as int] == (name@, value@));
            assert(names::increasing(all)) by {
                assert forall|x: int, y: int| 0 <= x < y < all.len() implies names::text_less(
                    (#[trigger] all[x]).0,
                    (#[trigger] all[y]).0,
                ) by {
                    assert(all[x].0 == m@[x].0 && all[y].0 == m@[y].0);
                }
            }
            lemma_append(all, i as int);
        }
        out.insert(name, value);
        i = i + 1;
    }
    assert(all.take(all.len() as int) =~= all);
    out
}

fn copy_eligible(m: &NameMap<PurposeDef>) -> (r: NameMap<Option<Vec<String>>>)
    ensures
        names::values_through(r@, eligible_fn()) == names::values_through(
            config::purposes_of(*m),
            def_eligible_fn(),
        ),
{
    let mut out: NameMap<Option<Vec<String>>> = NameMap::new();
    let n: usize = m.len();
    let ghost all = names::values_through(
        config::purposes_of(*m),
        def_eligible_fn(),
    );
    let mut i: usize = 0;
    assert(names::values_through(out@, eligible_fn()) =~= all.take(0));
    while i < n
        invariant
            i <= n,
            n == m@.len(),
            names::increasing(m@),
            all == names::values_through(
                config::purposes_of(*m),
                def_eligible_fn(),
            ),
            names::values_through(out@, eligible_fn()) == all.take(i as int),
        decreases n - i,
    {
        let name: String = m.name(i).clone();
        let value: Option<Vec<String>> = copy_opt_names(&m.value(i).eligible);
        proof {
            names::lemma_set_key_through(out@, name@, value, eligible_fn());
            assert(config::purposes_of(*m)[i as int].1 == m@[i as int].1@);
            assert(all[i as int] == (name@, config::opt_names(value)));
            assert(names::increasing(all)) by {
                assert forall|x: int, y: int| 0 <= x < y < all.len() implies names::text_less(
                    (#[trigger] all[x]).0,
                    (#[trigger] all[y]).0,
                ) by {
                    assert(all[x].0 == m@[x].0 && all[y].0 == m@[y].0);
                }
            }
            lemma_append(all, i as int);
        }
        out.insert(name, value);
        i = i + 1;
    }
    assert(all.take(all.len() as int) =~= all);
    out
}

fn subset_of(a: &Vec<String>, b: &Vec<String>) -> (r: bool)
    ensures
        r == text::texts(a@).to_set().subset_of(text::texts(b@).to_set()),
{
    let ghost x = text::texts(a@);
    let ghost y = text::texts(b@);
    let mut i: usize = 0;
    while i < a.len()
        invariant
            i <= a.len(),
            x == text::texts(a@),
            y == text::texts(b@),
            forall|j: int| 0 <= j < i ==> y.contains(#[trigger] x[j]),
        decreases a.len() - i,
    {
        assert(x[i as int] == a@[i as int]@);
        if !names_contain(b, a[i].as_str()) {
            assert(x.to_set().contains(x[i as int]));
            assert(!y.to_set().contains(x[i as int]));
            return false;
        }
        i = i + 1;
    }
    assert forall|n: Seq<char>| x.to_set().contains(n) implies y.to_set().contains(n) by {
        let j = choose|j: int| 0 <= j < x.len() && x[j] == n;
        assert(y.contains(x[j]));
    }
    true
}

fn same_set(a: &Vec<String>, b: &Vec<String>) -> (r: bool)
    ensures
        r == (text::texts(a@).to_set() == text::texts(b@).to_set()),
{
    let r: bool = subset_of(a, b) && subset_of(b, a);
    proof {
        let x = text::texts(a@).to_set();
        let y = text::texts(b@).to_set();
        if r {
            assert(x =~= y);
        } else if x == y {
            assert(x.subset_of(y) && y.subset_of(x));
        }
    }
    r
}

fn one_name(name: &str) -> (r: Vec<String>)
    ensures
        text::texts(r@) == seq![name@],
{
    let mut v: Vec<String> = Vec::new();
    v.push(owned(name));
    assert(text::texts(v@) =~= seq![name@]);
    v
}

proof fn lemma_sent_ids(ids: Seq<Option<Seq<char>>>, id: Option<Seq<char>>)
    ensures
        sent_ids(ids.push(id)) == (match id {
            Some(fresh) => sent_ids(ids).insert(fresh),
            None => sent_ids(ids),
        }),
{
    let more = ids.push(id);
    assert forall|x: Seq<char>| more.contains(Some(x)) == (ids.contains(Some(x)) || id == Some(
        x,
    )) by {
        if ids.contains(Some(x)) {
            let j = choose|j: int| 0 <= j < ids.len() && ids[j] == Some(x);
            assert(more[j] == Some(x));
        }
        if id == Some(x) {
            assert(more[ids.len() as int] == Some(x));
        }
    }
    match id {
        Some(fresh) => {
            assert(sent_ids(more) =~= sent_ids(ids).insert(fresh));
        },
        None => {
            assert(sent_ids(more) =~= sent_ids(ids));
        },
    }
}

/// A walk goes on by the next entry of its chain.
proof fn lemma_walk_on<P: Provider>(
    before: P,
    v: BrokerView,
    a: AdmissionView,
    chain: Seq<FixedModel<Seq<char>>>,
    t: WalkTrace<P>,
    id: Option<Seq<char>>,
    refused: CandidateRejection<Seq<char>>,
    after: P,
)
    requires
        t.rejected.len() < chain.len(),
        walked(before, v, a, chain.take(t.rejected.len() as int), t),
        left_behind(
            t.providers.last(),
            after,
            v,
            a,
            chain[t.rejected.len() as int],
            id,
            refused,
        ),
    ensures
        walked(
            before,
            v,
            a,
            chain.take(t.rejected.len() as int + 1),
            WalkTrace {
                providers: t.providers.push(after),
                ids: t.ids.push(id),
                rejected: t.rejected.push(refused),
            },
        ),
{
    let n = t.rejected.len() as int;
    let more = WalkTrace {
        providers: t.providers.push(after),
        ids: t.ids.push(id),
        rejected: t.rejected.push(refused),
    };
    assert forall|i: int| 0 <= i < n + 1 implies left_behind(
        more.providers[i],
        more.providers[i + 1],
        v,
        a,
        chain.take(n + 1)[i],
        more.ids[i],
        #[trigger] more.rejected[i],
    ) by {
        if i < n {
            assert(chain.take(n)[i] == chain[i]);
            assert(more.rejected[i] == t.rejected[i]);
        }
    }
}

impl<P: Provider> Broker<P> {
    /// A broker that admitted nothing yet.
    pub fn new(provider: P) -> (r: Self)
        ensures
            r.provider == provider,
            r.state() == started(),
    {
        let r: Self = Broker {
            provider,
            epochs: Table::new(),
            entitlements: Entitlements::unrestricted(),
            admissions: Table::new(),
            accounting: Table::new(),
            view_connections: NameMap::new(),
            view_purposes: NameMap::new(),
            view_profiles: NameMap::new(),
            cancelled: Table::new(),
            pending: Table::new(),
            paused: Table::new(),
            bound_profile: None,
        };
        assert(r.state() =~= started());
        r
    }

    /// The name of the provider.
    pub fn provider_name(&self) -> (r: &'static str)
        ensures
            r@ == self.provider.named(),
    {
        self.provider.name()
    }

    /// Looks at a configuration: the checks at dispatch time read it.
    pub fn set_config(&mut self, config: &Config)
        ensures
            final(self).provider == old(self).provider,
            final(self).state() == observing(
                old(self).state(),
                config::connections_of(config.connections),
                config.models@,
            ),
    {
        self.view_connections = copy_connections(&config.connections);
        self.view_purposes = copy_eligible(&config.models.purposes);
    }

    /// Looks at the profiles that the connections of a configuration bind: the
    /// next manifest binds the profile of its connection.
    pub fn set_profiles(&mut self, profiles: NameMap<String>)
        ensures
            final(self).provider == old(self).provider,
            final(self).state() == (BrokerView {
                profiles: names::values_through(profiles@, text_fn()),
                ..old(self).state()
            }),
    {
        self.view_profiles = profiles;
    }

    /// The choice that waits for one attempt.
    pub fn pending_choice(&self, attempt_id: &str) -> (r: Option<&PendingFallback>)
        ensures
            match r {
                Some(p) => self.state().pending.dom().contains(attempt_id@)
                    && self.state().pending[attempt_id@] == p@,
                None => !self.state().pending.dom().contains(attempt_id@),
            },
    {
        self.pending.get(attempt_id)
    }

    /// Takes the choice that waits for one attempt; the pause stays.
    pub fn take_pending_choice(&mut self, attempt_id: &str) -> (r: Option<PendingFallback>)
        ensures
            final(self).provider == old(self).provider,
            final(self).state() == (BrokerView {
                pending: old(self).state().pending.remove(attempt_id@),
                ..old(self).state()
            }),
            match r {
                Some(p) => old(self).state().pending.dom().contains(attempt_id@)
                    && old(self).state().pending[attempt_id@] == p@,
                None => !old(self).state().pending.dom().contains(attempt_id@),
            },
    {
        self.pending.remove(attempt_id)
    }

    /// Cancels an admitted attempt for good. An attempt that was never
    /// admitted or is already accounted is not cancelled.
    pub fn cancel_attempt(&mut self, attempt_id: &str) -> (r: bool)
        ensures
            final(self).provider == old(self).provider,
            r == (!old(self).state().accounting.dom().contains(attempt_id@)
                && old(self).state().admissions.dom().contains(attempt_id@)),
            r == in_flight(old(self).state(), attempt_id@),
            final(self).state() == cancelling(old(self).state(), attempt_id@),
    {
        if self.accounting.contains(attempt_id) {
            return false;
        }
        let ghost before = self.admissions@;
        let gone: Option<AdmissionRecord> = self.admissions.remove(attempt_id);
        if gone.is_none() {
            assert(self.admissions@ =~= before);
            return false;
        }
        let choice: Option<PendingFallback> = self.pending.remove(attempt_id);
        let pause: Option<Vec<String>> = self.paused.remove(attempt_id);
        self.cancelled.insert(owned(attempt_id), ());
        true
    }

    /// The profile that the latest manifest bound.
    pub fn bound_profile(&self) -> (r: Option<ProfileBinding>)
        ensures
            opt_binding(r) == self.state().bound,
    {
        match &self.bound_profile {
            Some(b) => Some(
                ProfileBinding { connection: b.connection.clone(), profile: copy_opt(&b.profile) },
            ),
            None => None,
        }
    }

    /// Installs the rights of the account. The version moves exactly when
    /// the rights do.
    pub fn set_account_rights(&mut self, rights: &Vec<String>)
        requires
            old(self).entitlements.version < u64::MAX,
        ensures
            final(self).provider == old(self).provider,
            final(self).state() == entitled_to(
                old(self).state(),
                text::texts(rights@).to_set(),
            ),
    {
        let unchanged: bool = match &self.entitlements.rights {
            Some(held) => same_set(held, rights),
            None => false,
        };
        if !unchanged {
            self.entitlements = Entitlements {
                version: self.entitlements.version + 1,
                rights: Some(copy_names(rights)),
            };
        }
    }

    /// The version of the entitlement snapshot.
    pub fn entitlement_version(&self) -> (r: u64)
        ensures
            r == self.state().rights.version,
    {
        self.entitlements.version
    }

    /// The admission of an attempt.
    pub fn admission(&self, attempt_id: &str) -> (r: Option<&AdmissionRecord>)
        ensures
            match r {
                Some(a) => self.state().admissions.dom().contains(attempt_id@)
                    && self.state().admissions[attempt_id@] == a@,
                None => !self.state().admissions.dom().contains(attempt_id@),
            },
    {
        self.admissions.get(attempt_id)
    }

    /// The accounting record of an attempt.
    pub fn accounting_record(&self, attempt_id: &str) -> (r: Option<&AccountingRecord>)
        ensures
            match r {
                Some(a) => self.state().accounting.dom().contains(attempt_id@)
                    && self.state().accounting[attempt_id@] == a@,
                None => !self.state().accounting.dom().contains(attempt_id@),
            },
    {
        self.accounting.get(attempt_id)
    }

    /// How many physical requests were accounted.
    pub fn accounted_requests(&self) -> (r: usize)
        ensures
            r == self.state().accounting.dom().len(),
    {
        assert(self.state().accounting.dom() =~= self.accounting@.dom());
        self.accounting.len()
    }

    /// How many attempts are in flight.
    pub fn admitted_attempts(&self) -> (r: usize)
        ensures
            r == self.state().admissions.dom().len(),
    {
        assert(self.state().admissions.dom() =~= self.admissions@.dom());
        self.admissions.len()
    }

    /// Enters the epoch of a prefix and says why, when it changed.
    pub fn context_epoch(
        &mut self,
        purpose: &str,
        model: &ModelAssign,
        instructions: &str,
        tools: &Vec<String>,
    ) -> (r: (String, Option<String>))
        ensures
            final(self).provider == old(self).provider,
            ({
                let digest = prefix_digest(
                    purpose@,
                    model@,
                    instructions@,
                    text::texts(tools@),
                );
                &&& r.0@ == epoch_name(digest)
                &&& text::opt_text(r.1) == epoch_reason(
                    old(self).state().epochs,
                    purpose@,
                    digest,
                )
                &&& final(self).state() == (BrokerView {
                    epochs: old(self).state().epochs.insert(purpose@, digest),
                    ..old(self).state()
                })
            }),
    {
        let id: String = model::model_wire_id(model);
        let list: String = join_names(tools, ", ");
        let tail: String = text3(instructions, "\ntools:", list.as_str());
        let head: String = text5("purpose:", purpose, "\nmodel:", id.as_str(), "\ninstructions:");
        let prefix: String = text2(head.as_str(), tail.as_str());
        let bytes: Vec<u8> = bytes_of(prefix.as_str());
        let digest: String = digest_hex(bytes.as_slice());
        let chars: Vec<char> = chars_of(digest.as_str());
        let short: String = text_of(&chars, 0, 16);
        assert(short@ =~= digest@.take(16));
        let epoch_id: String = text2("epoch-", short.as_str());
        let reason: Option<String> = match self.epochs.get(purpose) {
            Some(previous) => if same(previous.as_str(), digest.as_str()) {
                None
            } else {
                Some(owned(MODEL_SWITCH))
            },
            None => None,
        };
        self.epochs.insert(owned(purpose), digest);
        (epoch_id, reason)
    }

    /// Freezes a request under a given attempt id.
    pub fn prepare_as(
        &mut self,
        purpose: &str,
        config: &Config,
        world: &str,
        inputs: &str,
        attempt_id: String,
    ) -> (r: Result<RequestManifest, ModelError>)
        ensures
            final(self).provider == old(self).provider,
            (final(self).state(), manifest_outcome(r)) == prepared(
                old(self).state(),
                config::connections_of(config.connections),
                config.models@,
                purpose@,
                world@,
                inputs@,
                attempt_id@,
            ),
    {
        let ghost v = self.state();
        let resolved: ResolvedPurpose = match config.resolve_purpose(purpose) {
            Ok(res) => res,
            Err(e) => {
                return Err(ModelError::Config(e));
            },
        };
        proof {
            names::lemma_lookup_through(
                config.models.purposes@,
                purpose@,
                config::purpose_view(),
            );
        }
        let (pool, eligible): (Option<Vec<String>>, Option<Vec<String>>) =
            match config.models.purposes.get(purpose) {
            Some(def) => (copy_opt_names(&def.pool), copy_opt_names(&def.eligible)),
            None => (None, None),
        };
        let ranked: Ranked = match rank_connection(
            purpose,
            &resolved.model,
            &pool,
            &eligible,
            &config.connections,
            &self.entitlements,
        ) {
            Ok(c) => c,
            Err(e) => {
                return Err(e);
            },
        };
        let instructions: String = owned(MANDATORY_INSTRUCTIONS);
        let tools: Vec<String> = one_name(DECLARED_TOOL);
        let wire: String = wire_composition(
            instructions.as_str(),
            &resolved.model,
            &tools,
            OUTPUT_RESERVE_BYTES,
            inputs,
        );
        let size: usize = bytes_of(wire.as_str()).len();
        let accounted: usize = if size > usize::MAX - OUTPUT_RESERVE_BYTES {
            usize::MAX
        } else {
            size + OUTPUT_RESERVE_BYTES
        };
        assert(accounted == accounted_size(resolved.model@, inputs@));
        if accounted > MODEL_WIRE_MAX_BYTES {
            return Err(
                ModelError::RequestTooLarge { limit: MODEL_WIRE_MAX_BYTES, actual: accounted },
            );
        }
        let (epoch_id, mutation_reason): (String, Option<String>) = self.context_epoch(
            purpose,
            &resolved.model,
            instructions.as_str(),
            &tools,
        );
        let bytes: Vec<u8> = bytes_of(inputs);
        let manifest: RequestManifest = RequestManifest {
            attempt_id,
            purpose: owned(purpose),
            world: owned(world),
            model: resolved.model,
            effort: resolved.effort,
            instructions,
            tools,
            output_reserve: OUTPUT_RESERVE_BYTES,
            inputs: owned(inputs),
            inputs_digest: digest_hex(bytes.as_slice()),
            epoch_id,
            mutation_reason,
            cost_bound: sent_cost_bound(inputs),
        };
        self.set_config(config);
        let admission: AdmissionRecord = AdmissionRecord {
            purpose: owned(purpose),
            connection: ranked.connection.clone(),
            model_id: ranked.model_id,
            model_source: resolved.model_source,
            snapshot_version: self.entitlements.version,
            manifest: manifest.clone(),
            fallback: resolved.fallback,
            fallback_source: resolved.fallback_source,
        };
        self.admissions.insert(manifest.attempt_id.clone(), admission);
        proof {
            names::lemma_lookup_through(
                self.view_profiles@,
                ranked.connection@,
                text_fn(),
            );
        }
        let profile: Option<String> = match self.view_profiles.get(ranked.connection.as_str()) {
            Some(name) => Some(name.clone()),
            None => None,
        };
        self.bound_profile = Some(ProfileBinding { connection: ranked.connection, profile });
        Ok(manifest)
    }

    /// Freezes a request under a fresh attempt id.
    pub fn prepare(
        &mut self,
        purpose: &str,
        config: &Config,
        world: &str,
        inputs: &str,
    ) -> (r: Result<RequestManifest, ModelError>)
        ensures
            final(self).provider == old(self).provider,
            exists|id: Seq<char>|
                contracts::is_uuid_v4(id) && (final(self).state(), manifest_outcome(r))
                    == #[trigger] prepared(
                    old(self).state(),
                    config::connections_of(config.connections),
                    config.models@,
                    purpose@,
                    world@,
                    inputs@,
                    id,
                ),
    {
        let id: AttemptId = AttemptId::generate();
        self.prepare_as(purpose, config, world, inputs, id.0)
    }

    /// Why a connection may not take a request now.
    pub fn candidate_rejection(&self, purpose: &str, connection: &str) -> (r: Option<
        RejectionCause,
    >)
        ensures
            (match r {
                Some(c) => Some(c@),
                None => None,
            }) == rejection(self.provider, self.state(), purpose@, connection@),
    {
        proof {
            names::lemma_lookup_through(
                self.view_connections@,
                connection@,
                config::connection_view(),
            );
            names::lemma_lookup_through(self.view_purposes@, purpose@, eligible_fn());
        }
        let entry: &Connection = match self.view_connections.get(connection) {
            Some(e) => e,
            None => {
                return Some(RejectionCause::UnknownConnection);
            },
        };
        if !offline_usable(Some(entry.kind)) {
            return Some(RejectionCause::LiveGrantRequired { kind: entry.kind });
        }
        if !self.provider.serves(connection, entry) {
            return Some(RejectionCause::DialectMismatch);
        }
        if !self.entitlements.allows(connection) {
            return Some(RejectionCause::NotEntitled);
        }
        let listed: bool = match self.view_purposes.get(purpose) {
            Some(list) => purpose_entitled(list, connection),
            None => true,
        };
        if !listed {
            return Some(RejectionCause::NotPurposeEligible);
        }
        None
    }

    fn connection_names(&self) -> (r: Vec<String>)
        ensures
            text::texts(r@) == model::names_of(self.state().connections),
    {
        let names: Vec<String> = map_names(&self.view_connections);
        assert(model::names_of(self.view_connections@) =~= model::names_of(
            self.state().connections,
        ));
        names
    }

    /// The connections that may take a request now, in order.
    pub fn eligible_candidates(&self, purpose: &str) -> (r: Vec<String>)
        ensures
            text::texts(r@) == eligible(
                self.provider,
                self.state(),
                model::names_of(self.state().connections),
                purpose@,
            ),
    {
        let names: Vec<String> = self.connection_names();
        let ghost all = text::texts(names@);
        let mut out: Vec<String> = Vec::new();
        let mut i: usize = 0;
        assert(all.take(0) =~= Seq::empty());
        assert(text::texts(out@) =~= Seq::empty());
        while i < names.len()
            invariant
                i <= names.len(),
                all == text::texts(names@),
                text::texts(out@) == eligible(
                    self.provider,
                    self.state(),
                    all.take(i as int),
                    purpose@,
                ),
            decreases names.len() - i,
        {
            assert(all.take(i as int + 1).drop_last() =~= all.take(i as int));
            assert(all.take(i as int + 1).last() == names@[i as int]@);
            let refused: Option<RejectionCause> = self.candidate_rejection(
                purpose,
                names[i].as_str(),
            );
            if refused.is_none() {
                let name: String = names[i].clone();
                proof {
                    text::lemma_texts_push(out@, name);
                }
                out.push(name);
            }
            i = i + 1;
        }
        assert(all.take(all.len() as int) =~= all);
        out
    }

    fn refused_candidates(&self, purpose: &str, primary: &str) -> (r: Vec<CandidateRejection>)
        ensures
            model::rejection_views(r@) == refusals(
                self.provider,
                self.state(),
                model::names_of(self.state().connections),
                purpose@,
                primary@,
            ),
    {
        let names: Vec<String> = self.connection_names();
        let ghost all = text::texts(names@);
        let mut out: Vec<CandidateRejection> = Vec::new();
        let mut i: usize = 0;
        assert(all.take(0) =~= Seq::empty());
        assert(model::rejection_views(out@) =~= Seq::empty());
        while i < names.len()
            invariant
                i <= names.len(),
                all == text::texts(names@),
                model::rejection_views(out@) == refusals(
                    self.provider,
                    self.state(),
                    all.take(i as int),
                    purpose@,
                    primary@,
                ),
            decreases names.len() - i,
        {
            assert(all.take(i as int + 1).drop_last() =~= all.take(i as int));
            assert(all.take(i as int + 1).last() == names@[i as int]@);
            if !same(names[i].as_str(), primary) {
                match self.candidate_rejection(purpose, names[i].as_str()) {
                    Some(cause) => {
                        let entry: CandidateRejection = CandidateRejection {
                            connection: names[i].clone(),
                            cause,
                        };
                        proof {
                            model::lemma_rejection_push(out@, entry);
                        }
                        out.push(entry);
                    },
                    None => {},
                }
            }
            i = i + 1;
        }
        assert(all.take(all.len() as int) =~= all);
        out
    }

    /// Sends a frozen manifest once and accounts it. A failed send leaves
    /// the broker as it was.
    pub fn complete_send(&mut self, manifest: &RequestManifest, connection: &str) -> (r: Result<
        ProviderReply,
        ProviderError,
    >)
        ensures
            send_step(
                old(self).provider,
                old(self).state(),
                manifest@,
                connection@,
                providers::send_outcome(r),
                final(self).provider,
            ),
            final(self).state() == (match r {
                Ok(reply) => spent(old(self).state(), manifest@, connection@, reply.usage),
                Err(_) => old(self).state(),
            }),
    {
        proof {
            names::lemma_lookup_through(
                self.view_connections@,
                connection@,
                config::connection_view(),
            );
        }
        let served: bool = match self.view_connections.get(connection) {
            Some(entry) => self.provider.serves(connection, entry),
            None => {
                return Err(ProviderError::UnknownConnection);
            },
        };
        if !served {
            return Err(ProviderError::DialectMismatch { connection: owned(connection) });
        }
        let mut frozen: RequestManifest = manifest.clone();
        match &manifest.model {
            ModelAssign::Auto { .. } => {
                frozen.model = ModelAssign::Auto { pool: Some(one_name(connection)) };
            },
            _ => {},
        }
        let reply: ProviderReply = match self.provider.send(&frozen) {
            Ok(reply) => reply,
            Err(e) => {
                return Err(e);
            },
        };
        let outcome: ModelOutcome = ModelOutcome::Reply { usage: reply.usage, reply };
        let record: AccountingRecord = AccountingRecord {
            attempt_id: manifest.attempt_id.clone(),
            purpose: manifest.purpose.clone(),
            connection: owned(connection),
            cost_bound: manifest.cost_bound,
            usage: outcome.usage(),
        };
        self.accounting.insert(manifest.attempt_id.clone(), record);
        let spent_admission: Option<AdmissionRecord> = self.admissions.remove(
            manifest.attempt_id.as_str(),
        );
        let choice: Option<PendingFallback> = self.pending.remove(manifest.attempt_id.as_str());
        let pause: Option<Vec<String>> = self.paused.remove(manifest.attempt_id.as_str());
        Ok(outcome.into_reply())
    }

    /// Admits a substitute under a given attempt id and returns it with the
    /// epoch digest it displaced.
    pub fn mint_substitute(
        &mut self,
        admission: &AdmissionRecord,
        model: ModelAssign,
        connection: &str,
        leg: &str,
        attempt_id: String,
    ) -> (r: (RequestManifest, Option<String>))
        ensures
            final(self).provider == old(self).provider,
            final(self).state() == minted(
                old(self).state(),
                admission@,
                model@,
                connection@,
                leg@,
                attempt_id@,
            ),
            r.0@ == substitute_of(old(self).state(), admission@, model@, attempt_id@),
            match r.1 {
                Some(d) => old(self).state().epochs.dom().contains(admission@.purpose)
                    && old(self).state().epochs[admission@.purpose] == d@,
                None => !old(self).state().epochs.dom().contains(admission@.purpose),
            },
    {
        let displaced: Option<String> = match self.epochs.get(admission.purpose.as_str()) {
            Some(d) => Some(d.clone()),
            None => None,
        };
        let (epoch_id, mutation_reason): (String, Option<String>) = self.context_epoch(
            admission.purpose.as_str(),
            &model,
            admission.manifest.instructions.as_str(),
            &admission.manifest.tools,
        );
        let model_id: Option<String> = match &model {
            ModelAssign::Fixed(f) => Some(f.model_id.clone()),
            _ => None,
        };
        let mut substitute: RequestManifest = admission.manifest.clone();
        substitute.attempt_id = attempt_id;
        substitute.model = model;
        substitute.epoch_id = epoch_id;
        substitute.mutation_reason = mutation_reason;
        let record: AdmissionRecord = AdmissionRecord {
            purpose: admission.purpose.clone(),
            connection: owned(connection),
            model_id,
            model_source: text3(admission.fallback_source.as_str(), ".", leg),
            snapshot_version: self.entitlements.version,
            manifest: substitute.clone(),
            fallback: FallbackAssign::Off,
            fallback_source: admission.fallback_source.clone(),
        };
        self.admissions.insert(substitute.attempt_id.clone(), record);
        (substitute, displaced)
    }

    /// Puts back the epoch that a substitute displaced.
    pub fn restore_epoch(&mut self, purpose: &str, displaced: Option<String>)
        ensures
            final(self).provider == old(self).provider,
            final(self).state() == (BrokerView {
                epochs: match displaced {
                    Some(d) => old(self).state().epochs.insert(purpose@, d@),
                    None => old(self).state().epochs.remove(purpose@),
                },
                ..old(self).state()
            }),
    {
        match displaced {
            Some(previous) => {
                self.epochs.insert(owned(purpose), previous);
            },
            None => {
                let gone: Option<String> = self.epochs.remove(purpose);
            },
        }
    }

    /// Forgets a substitute whose send failed: its admission goes and the
    /// epoch it displaced comes back.
    fn retract(
        &mut self,
        purpose: &str,
        attempt_id: &str,
        displaced: Option<String>,
        Ghost(v): Ghost<BrokerView>,
        Ghost(digest): Ghost<Seq<char>>,
    )
        requires
            old(self).state().epochs == v.epochs.insert(purpose@, digest),
            match displaced {
                Some(d) => v.epochs.dom().contains(purpose@) && v.epochs[purpose@] == d@,
                None => !v.epochs.dom().contains(purpose@),
            },
        ensures
            final(self).provider == old(self).provider,
            final(self).state() == (BrokerView {
                epochs: v.epochs,
                admissions: old(self).state().admissions.remove(attempt_id@),
                ..old(self).state()
            }),
    {
        let gone: Option<AdmissionRecord> = self.admissions.remove(attempt_id);
        self.restore_epoch(purpose, displaced);
        assert(self.state().epochs =~= v.epochs);
    }

    /// What a failed send leads to.
    pub fn fallback_or_fail(
        &mut self,
        manifest: &RequestManifest,
        admission: &AdmissionRecord,
        source: ProviderError,
    ) -> (r: Result<ProviderReply, ModelError>)
        ensures
            fell_back(
                old(self).provider,
                final(self).provider,
                old(self).state(),
                admission@,
                manifest@,
                source@,
                reply_outcome(r),
                final(self).state(),
            ),
    {
        match &admission.fallback {
            FallbackAssign::Off => Err(ModelError::Provider(source)),
            FallbackAssign::Manual => self.pause(manifest, admission, source),
            FallbackAssign::Auto { chain } => self.walk_chain(manifest, admission, chain, source),
        }
    }

    fn pause(
        &mut self,
        manifest: &RequestManifest,
        admission: &AdmissionRecord,
        source: ProviderError,
    ) -> (r: Result<ProviderReply, ModelError>)
        requires
            admission@.fallback is Manual,
        ensures
            fell_back(
                old(self).provider,
                final(self).provider,
                old(self).state(),
                admission@,
                manifest@,
                source@,
                reply_outcome(r),
                final(self).state(),
            ),
    {
        let ghost v = self.state();
        let all: Vec<String> = self.eligible_candidates(admission.purpose.as_str());
        let candidates: Vec<String> = leave_out(&all, admission.connection.as_str());
        if candidates.len() == 0 {
            assert(text::texts(candidates@).len() == 0);
            let rejected: Vec<CandidateRejection> = self.refused_candidates(
                admission.purpose.as_str(),
                admission.connection.as_str(),
            );
            let attempted: Vec<String> = Vec::new();
            assert(text::texts(attempted@) =~= Seq::empty());
            return Err(
                ModelError::FallbackExhausted {
                    attempt_id: manifest.attempt_id.clone(),
                    purpose: admission.purpose.clone(),
                    rejected,
                    attempted,
                    source,
                },
            );
        }
        assert(text::texts(candidates@).len() > 0);
        let offer: Vec<String> = copy_names(&candidates);
        let pending: PendingFallback = PendingFallback {
            attempt_id: manifest.attempt_id.clone(),
            purpose: admission.purpose.clone(),
            candidates,
        };
        self.paused.insert(manifest.attempt_id.clone(), offer);
        self.pending.insert(manifest.attempt_id.clone(), pending);
        Err(
            ModelError::ManualFallbackPending {
                attempt_id: manifest.attempt_id.clone(),
                purpose: admission.purpose.clone(),
            },
        )
    }

    fn walk_chain(
        &mut self,
        manifest: &RequestManifest,
        admission: &AdmissionRecord,
        chain: &Vec<FixedModel>,
        source: ProviderError,
    ) -> (r: Result<ProviderReply, ModelError>)
        requires
            admission@.fallback == (config::FallbackView::Auto {
                chain: config::fixed_views(chain@),
            }),
        ensures
            fell_back(
                old(self).provider,
                final(self).provider,
                old(self).state(),
                admission@,
                manifest@,
                source@,
                reply_outcome(r),
                final(self).state(),
            ),
    {
        let ghost v = self.state();
        let ghost a = admission@;
        let ghost m = manifest@;
        let ghost before = self.provider;
        let ghost views = config::fixed_views(chain@);
        let ghost mut providers: Seq<P> = seq![self.provider];
        let ghost mut ids: Seq<Option<Seq<char>>> = Seq::empty();
        let mut rejected: Vec<CandidateRejection> = Vec::new();
        let mut attempted: Vec<String> = Vec::new();
        let mut i: usize = 0;
        proof {
            assert(sent_ids(ids) =~= Set::empty());
            assert(forgetting(v, sent_ids(ids)) =~= v);
            assert(text::texts(attempted@) =~= sent_among(model::rejection_views(rejected@)));
        }
        while i < chain.len()
            invariant
                i <= chain.len(),
                v == old(self).state(),
                before == old(self).provider,
                a == admission@,
                m == manifest@,
                views == config::fixed_views(chain@),
                a.fallback == (config::FallbackView::Auto { chain: views }),
                self.state() == forgetting(v, sent_ids(ids)),
                rejected@.len() == i,
                self.provider == providers.last(),
                walked(
                    before,
                    v,
                    a,
                    views.take(i as int),
                    WalkTrace {
                        providers,
                        ids,
                        rejected: model::rejection_views(rejected@),
                    },
                ),
                text::texts(attempted@) == sent_among(
                    model::rejection_views(rejected@),
                ),
            decreases chain.len() - i,
        {
            let entry: &FixedModel = &chain[i];
            assert(views[i as int] == entry@);
            let ghost held = model::rejection_views(rejected@);
            let ghost at = WalkTrace { providers, ids, rejected: held };
            match self.candidate_rejection(admission.purpose.as_str(), entry.connection.as_str()) {
                Some(cause) => {
                    let refused: CandidateRejection = CandidateRejection {
                        connection: entry.connection.clone(),
                        cause,
                    };
                    proof {
                        model::lemma_rejection_push(rejected@, refused);
                        assert(held.push(refused@).drop_last() =~= held);
                        assert(!(refused@.cause is SendFailed));
                        lemma_sent_ids(ids, None);
                        lemma_walk_on(before, v, a, views, at, None, refused@, self.provider);
                        providers = providers.push(self.provider);
                        ids = ids.push(None);
                    }
                    rejected.push(refused);
                },
                None => {
                    let model: ModelAssign = ModelAssign::Fixed(entry.clone());
                    let fresh: AttemptId = AttemptId::generate();
                    let ghost id = fresh@;
                    let ghost s0 = self.state();
                    let ghost asked = self.provider;
                    let ghost digest = prefix_digest(
                        a.purpose,
                        model@,
                        a.manifest.instructions,
                        a.manifest.tools,
                    );
                    let (substitute, displaced): (RequestManifest, Option<String>) =
                        self.mint_substitute(
                        admission,
                        model,
                        entry.connection.as_str(),
                        "fallback",
                        fresh.0,
                    );
                    assert(substitute@ == substitute_of(
                        v,
                        a,
                        config::ModelView::Fixed(views[i as int]),
                        id,
                    ));
                    match self.complete_send(&substitute, entry.connection.as_str()) {
                        Ok(reply) => {
                            let spent_primary: Option<AdmissionRecord> = self.admissions.remove(
                                manifest.attempt_id.as_str(),
                            );
                            let r: Result<ProviderReply, ModelError> = Ok(reply);
                            proof {
                                let all = sent_ids(ids).insert(id).insert(m.attempt_id);
                                assert(self.state().admissions =~= v.admissions.remove_keys(all));
                                assert(walk_answered(
                                    before,
                                    self.provider,
                                    v,
                                    a,
                                    m,
                                    views,
                                    reply_outcome(r),
                                    self.state(),
                                    at,
                                    id,
                                    i as int,
                                ));
                                assert(a.fallback->chain == views);
                            }
                            return r;
                        },
                        Err(send_error) => {
                            self.retract(
                                admission.purpose.as_str(),
                                substitute.attempt_id.as_str(),
                                displaced,
                                Ghost(s0),
                                Ghost(digest),
                            );
                            let refused: CandidateRejection = CandidateRejection {
                                connection: entry.connection.clone(),
                                cause: RejectionCause::SendFailed(send_error),
                            };
                            let name: String = entry.connection.clone();
                            proof {
                                lemma_sent_ids(ids, Some(id));
                                assert(self.state().admissions =~= v.admissions.remove_keys(
                                    sent_ids(ids).insert(id),
                                ));
                                assert(self.state() =~= forgetting(v, sent_ids(ids.push(Some(id)))));
                                model::lemma_rejection_push(rejected@, refused);
                                assert(held.push(refused@).drop_last() =~= held);
                                text::lemma_texts_push(attempted@, name);
                                lemma_walk_on(
                                    before,
                                    v,
                                    a,
                                    views,
                                    at,
                                    Some(id),
                                    refused@,
                                    self.provider,
                                );
                                providers = providers.push(self.provider);
                                ids = ids.push(Some(id));
                            }
                            rejected.push(refused);
                            attempted.push(name);
                        },
                    }
                },
            }
            i = i + 1;
        }
        let ghost left = model::rejection_views(rejected@);
        let r: Result<ProviderReply, ModelError> = Err(
            ModelError::FallbackExhausted {
                attempt_id: manifest.attempt_id.clone(),
                purpose: admission.purpose.clone(),
                rejected,
                attempted,
                source,
            },
        );
        proof {
            assert(views.take(views.len() as int) =~= views);
            assert(a.fallback->chain == views);
            assert(walked_in_vain(
                before,
                self.provider,
                v,
                a,
                m,
                views,
                source@,
                reply_outcome(r),
                self.state(),
                WalkTrace { providers, ids, rejected: left },
            ));
        }
        r
    }

    /// Whether a manifest may be sent from a world.
    pub fn dispatch_gate(&self, world: &str, manifest: &RequestManifest) -> (r: Result<
        AdmissionRecord,
        ModelError,
    >)
        ensures
            (match r {
                Ok(a) => Ok(a@),
                Err(e) => Err(e@),
            }) == gate(self.state(), world@, manifest@),
    {
        if !same(manifest.world.as_str(), world) {
            return Err(
                ModelError::WorldMismatch {
                    frozen: manifest.world.clone(),
                    current: owned(world),
                },
            );
        }
        if self.accounting.contains(manifest.attempt_id.as_str()) {
            return Err(
                ModelError::AttemptAlreadyAccounted { attempt_id: manifest.attempt_id.clone() },
            );
        }
        if self.cancelled.contains(manifest.attempt_id.as_str()) {
            return Err(ModelError::AttemptCancelled { attempt_id: manifest.attempt_id.clone() });
        }
        let admission: AdmissionRecord = match self.admissions.get(manifest.attempt_id.as_str()) {
            Some(a) => a.clone(),
            None => {
                return Err(ModelError::NoAdmission { attempt_id: manifest.attempt_id.clone() });
            },
        };
        if !same_manifest(&admission.manifest, manifest) {
            return Err(ModelError::AdmissionMismatch { attempt_id: manifest.attempt_id.clone() });
        }
        let current: u64 = self.entitlements.version;
        if current != admission.snapshot_version || !self.entitlements.allows(
            admission.connection.as_str(),
        ) {
            return Err(
                ModelError::EligibilityStale {
                    attempt_id: manifest.attempt_id.clone(),
                    connection: admission.connection.clone(),
                    frozen: admission.snapshot_version,
                    current,
                },
            );
        }
        Ok(admission)
    }

    /// Sends an admitted manifest; every gate comes before the provider.
    pub fn dispatch(&mut self, world: &str, manifest: &RequestManifest) -> (r: Result<
        ProviderReply,
        ModelError,
    >)
        ensures
            dispatch_ends(
                old(self).provider,
                final(self).provider,
                old(self).state(),
                world@,
                manifest@,
                reply_outcome(r),
                final(self).state(),
            ),
    {
        let ghost v = self.state();
        let ghost p = self.provider;
        let admission: AdmissionRecord = match self.dispatch_gate(world, manifest) {
            Ok(a) => a,
            Err(e) => {
                return Err(e);
            },
        };
        match self.complete_send(manifest, admission.connection.as_str()) {
            Ok(reply) => Ok(reply),
            Err(source) => {
                let ghost s = source@;
                let ghost mid = self.provider;
                let r: Result<ProviderReply, ModelError> = self.fallback_or_fail(
                    manifest,
                    &admission,
                    source,
                );
                assert(failed_over(
                    p,
                    mid,
                    self.provider,
                    v,
                    admission@,
                    manifest@,
                    s,
                    reply_outcome(r),
                    self.state(),
                ));
                r
            },
        }
    }

    fn choice_admission(&self, world: &str, attempt_id: &str, connection: &str) -> (r: Result<
        AdmissionRecord,
        ModelError,
    >)
        ensures
            (match r {
                Ok(a) => Ok(a@),
                Err(e) => Err(e@),
            }) == choice_gate(
                self.provider,
                self.state(),
                world@,
                attempt_id@,
                connection@,
            ),
    {
        let admission: AdmissionRecord = match self.admissions.get(attempt_id) {
            Some(a) => a.clone(),
            None => {
                if self.cancelled.contains(attempt_id) {
                    return Err(ModelError::AttemptCancelled { attempt_id: owned(attempt_id) });
                }
                if self.accounting.contains(attempt_id) {
                    return Err(
                        ModelError::AttemptAlreadyAccounted { attempt_id: owned(attempt_id) },
                    );
                }
                return Err(ModelError::NoAdmission { attempt_id: owned(attempt_id) });
            },
        };
        let offered: bool = match self.paused.get(attempt_id) {
            Some(served) => names_contain(served, connection),
            None => {
                return Err(ModelError::NoPendingChoice { attempt_id: owned(attempt_id) });
            },
        };
        if !same(admission.manifest.world.as_str(), world) {
            return Err(
                ModelError::WorldMismatch {
                    frozen: admission.manifest.world.clone(),
                    current: owned(world),
                },
            );
        }
        if !offered {
            return Err(
                ModelError::ManualChoiceRejected {
                    attempt_id: owned(attempt_id),
                    connection: owned(connection),
                    cause: RejectionCause::NotOffered,
                },
            );
        }
        match self.candidate_rejection(admission.purpose.as_str(), connection) {
            Some(cause) => Err(
                ModelError::ManualChoiceRejected {
                    attempt_id: owned(attempt_id),
                    connection: owned(connection),
                    cause,
                },
            ),
            None => Ok(admission),
        }
    }

    /// Sends the manual choice for a paused attempt.
    pub fn dispatch_fallback_choice(
        &mut self,
        world: &str,
        attempt_id: &str,
        connection: &str,
    ) -> (r: Result<ProviderReply, ModelError>)
        ensures
            match choice_gate(
                old(self).provider,
                old(self).state(),
                world@,
                attempt_id@,
                connection@,
            ) {
                Err(e) => reply_outcome(r) == Err::<ReplyView, ModelErrorView>(e)
                    && final(self).state() == old(self).state() && final(self).provider
                    == old(self).provider,
                Ok(a) => exists|id: Seq<char>| #[trigger]
                    chosen(
                        old(self).provider,
                        final(self).provider,
                        old(self).state(),
                        a,
                        attempt_id@,
                        connection@,
                        reply_outcome(r),
                        final(self).state(),
                        id,
                    ),
            },
    {
        let ghost v = self.state();
        let ghost p = self.provider;
        let admission: AdmissionRecord = match self.choice_admission(
            world,
            attempt_id,
            connection,
        ) {
            Ok(a) => a,
            Err(e) => {
                return Err(e);
            },
        };
        let ghost a = admission@;
        let model: ModelAssign = match &admission.manifest.model {
            ModelAssign::Fixed(f) => ModelAssign::Fixed(
                FixedModel { connection: owned(connection), model_id: f.model_id.clone() },
            ),
            _ => ModelAssign::Auto { pool: Some(one_name(connection)) },
        };
        let ghost chosen_as = model@;
        assert(chosen_as == chosen_model(a.manifest.model, connection@));
        let ghost digest = prefix_digest(
            a.purpose,
            model@,
            a.manifest.instructions,
            a.manifest.tools,
        );
        let fresh: AttemptId = AttemptId::generate();
        let ghost id = fresh@;
        let (substitute, displaced): (RequestManifest, Option<String>) = self.mint_substitute(
            &admission,
            model,
            connection,
            "manual",
            fresh.0,
        );
        match self.complete_send(&substitute, connection) {
            Ok(reply) => {
                let gone: Option<AdmissionRecord> = self.admissions.remove(attempt_id);
                let choice: Option<PendingFallback> = self.pending.remove(attempt_id);
                let pause: Option<Vec<String>> = self.paused.remove(attempt_id);
                assert(chosen(
                    p,
                    self.provider,
                    v,
                    a,
                    attempt_id@,
                    connection@,
                    Ok(reply@),
                    self.state(),
                    id,
                ));
                Ok(reply)
            },
            Err(source) => {
                self.retract(
                    admission.purpose.as_str(),
                    substitute.attempt_id.as_str(),
                    displaced,
                    Ghost(v),
                    Ghost(digest),
                );
                let r: Result<ProviderReply, ModelError> = Err(ModelError::Provider(source));
                proof {
                    assert(self.state().admissions =~= v.admissions.remove_keys(set![id]));
                    assert(self.state() =~= forgetting(v, set![id]));
                    assert(chosen(
                        p,
                        self.provider,
                        v,
                        a,
                        attempt_id@,
                        connection@,
                        reply_outcome(r),
                        self.state(),
                        id,
                    ));
                }
                r
            },
        }
    }

    /// The effort a manifest transmitted; nothing confirms it.
    pub fn effort_explain(&self, manifest: &RequestManifest) -> (r: EffortExplain)
        ensures
            r == (EffortExplain { transmitted: manifest@.effort, confirmed: None }),
    {
        EffortExplain { transmitted: manifest.effort, confirmed: None }
    }

    /// The bound of a manifest, and the units its accounted send confirmed.
    pub fn sent_cost_explain(&self, manifest: &RequestManifest) -> (r: SentCostExplain)
        ensures
            r == (SentCostExplain {
                bound: manifest@.cost_bound,
                confirmed: if self.state().accounting.dom().contains(manifest@.attempt_id) {
                    providers::confirmed_units(
                        self.state().accounting[manifest@.attempt_id].usage,
                    )
                } else {
                    None
                },
            }),
    {
        SentCostExplain {
            bound: manifest.cost_bound,
            confirmed: match self.accounting.get(manifest.attempt_id.as_str()) {
                Some(record) => record.usage.confirmed_total(),
                None => None,
            },
        }
    }
}

fn leave_out(names: &Vec<String>, name: &str) -> (r: Vec<String>)
    ensures
        text::texts(r@) == without_name(text::texts(names@), name@),
{
    let ghost all = text::texts(names@);
    let mut out: Vec<String> = Vec::new();
    let mut i: usize = 0;
    assert(all.take(0) =~= Seq::empty());
    assert(text::texts(out@) =~= Seq::empty());
    while i < names.len()
        invariant
            i <= names.len(),
            all == text::texts(names@),
            text::texts(out@) == without_name(all.take(i as int), name@),
        decreases names.len() - i,
    {
        assert(all.take(i as int + 1).drop_last() =~= all.take(i as int));
        assert(all.take(i as int + 1).last() == names@[i as int]@);
        if !same(names[i].as_str(), name) {
            let kept: String = names[i].clone();
            proof {
                text::lemma_texts_push(out@, kept);
            }
            out.push(kept);
        }
        i = i + 1;
    }
    assert(all.take(all.len() as int) =~= all);
    out
}

/// A prepare that is rejected changes nothing: neither what is admitted nor
/// the configuration that later checks look at.
pub proof fn law_rejected_prepare_changes_nothing(
    v: BrokerView,
    connections: Seq<(Seq<char>, Connection<Seq<char>>)>,
    models: config::ModelsView,
    purpose: Seq<char>,
    world: Seq<char>,
    inputs: Seq<char>,
    id: Seq<char>,
)
    ensures
        prepared(v, connections, models, purpose, world, inputs, id).1 is Err ==> prepared(
            v,
            connections,
            models,
            purpose,
            world,
            inputs,
            id,
        ).0 == v,
{
}

/// A prepared request carries its inputs whole, and the text that goes over
/// the wire is the text that was measured: with the reserve it fits the limit.
pub proof fn law_prepared_request_was_measured(
    v: BrokerView,
    connections: Seq<(Seq<char>, Connection<Seq<char>>)>,
    models: config::ModelsView,
    purpose: Seq<char>,
    world: Seq<char>,
    inputs: Seq<char>,
    id: Seq<char>,
)
    ensures
        prepared(v, connections, models, purpose, world, inputs, id).1 matches Ok(m) ==> {
            &&& m.inputs == inputs
            &&& vstd::utf8::encode_utf8(
                model::wire_text(m.instructions, m.model, m.tools, m.output_reserve as nat, m.inputs),
            ).len() + m.output_reserve <= MODEL_WIRE_MAX_BYTES
        },
{
}

/// A spent attempt is never sent again: its replay reports the accounting it
/// already has, whatever else moved.
pub proof fn law_spent_attempt_never_sends_again(
    v: BrokerView,
    m: ManifestView,
    connection: Seq<char>,
    usage: UsageDelta,
)
    ensures
        gate(spent(v, m, connection, usage), m.world, m) == Err::<AdmissionView, ModelErrorView>(
            ModelError::AttemptAlreadyAccounted { attempt_id: m.attempt_id },
        ),
{
}

/// A cancelled attempt is never sent again, neither by a late retry nor by a
/// late choice.
pub proof fn law_cancelled_attempt_never_sends<P: Provider>(
    p: P,
    v: BrokerView,
    world: Seq<char>,
    m: ManifestView,
    connection: Seq<char>,
)
    requires
        v.cancelled.contains(m.attempt_id),
        !v.admissions.dom().contains(m.attempt_id),
    ensures
        gate(v, world, m) is Err,
        choice_gate(p, v, world, m.attempt_id, connection) == Err::<AdmissionView, ModelErrorView>(
            ModelError::AttemptCancelled { attempt_id: m.attempt_id },
        ),
{
}

/// Only the manifest that was admitted is ever sent, from its own world and
/// under the rights it was ranked with.
pub proof fn law_only_the_admitted_manifest_is_sent(
    v: BrokerView,
    world: Seq<char>,
    m: ManifestView,
)
    ensures
        gate(v, world, m) matches Ok(a) ==> {
            &&& m.world == world
            &&& a == v.admissions[m.attempt_id]
            &&& a.manifest == m
            &&& a.snapshot_version == v.rights.version
            &&& model::allowed(v.rights.rights, a.connection)
            &&& !v.cancelled.contains(m.attempt_id)
            &&& !v.accounting.dom().contains(m.attempt_id)
        },
{
}

/// A dispatch that fails accounts nothing and leaves no trace in the epochs:
/// every provisional step of the fallback is taken back.
pub proof fn law_failed_dispatch_leaves_no_trace<P: Provider>(
    before: P,
    after: P,
    v: BrokerView,
    a: AdmissionView,
    m: ManifestView,
    r: Result<ReplyView, ModelErrorView>,
    w: BrokerView,
)
    requires
        dispatched(before, after, v, a, m, r, w),
        r is Err,
    ensures
        w.accounting == v.accounting,
        w.epochs == v.epochs,
        w.cancelled == v.cancelled,
        w.rights == v.rights,
        forall|k: Seq<char>| #[trigger]
            w.admissions.dom().contains(k) ==> v.admissions.dom().contains(k) && w.admissions[k]
                == v.admissions[k],
        forall|k: Seq<char>|
            !contracts::is_uuid_v4(k) && #[trigger] v.admissions.dom().contains(k)
                ==> w.admissions.dom().contains(k),
{
    let (mid, source) = choose|mid: P, source: ProviderError<Seq<char>>| #[trigger]
        failed_over(before, mid, after, v, a, m, source, r, w);
    match a.fallback {
        config::FallbackView::Auto { chain } => {
            let t = choose|t: WalkTrace<P>| #[trigger]
                walked_in_vain(mid, after, v, a, m, chain, source, r, w, t);
            assert(walked_in_vain(mid, after, v, a, m, chain, source, r, w, t));
            assert forall|k: Seq<char>| sent_ids(t.ids).contains(k) implies contracts::is_uuid_v4(
                k,
            ) by {
                lemma_sent_ids_are_fresh(mid, v, a, chain, t, k);
            }
        },
        _ => {},
    }
}

proof fn lemma_sent_ids_are_fresh<P: Provider>(
    before: P,
    v: BrokerView,
    a: AdmissionView,
    chain: Seq<FixedModel<Seq<char>>>,
    t: WalkTrace<P>,
    id: Seq<char>,
)
    requires
        walked(before, v, a, chain, t),
        sent_ids(t.ids).contains(id),
    ensures
        contracts::is_uuid_v4(id),
{
    let j = choose|j: int| 0 <= j < t.ids.len() && t.ids[j] == Some(id);
    let entry = t.rejected[j];
    assert(left_behind(t.providers[j], t.providers[j + 1], v, a, chain[j], t.ids[j], entry));
}

/// A dispatch that succeeds accounts exactly one request, at the cost bound
/// that was frozen, and the attempt is no longer admitted.
pub proof fn law_dispatch_accounts_once<P: Provider>(
    before: P,
    after: P,
    v: BrokerView,
    a: AdmissionView,
    m: ManifestView,
    r: Result<ReplyView, ModelErrorView>,
    w: BrokerView,
)
    requires
        dispatched(before, after, v, a, m, r, w),
        a.manifest == m,
        r is Ok,
    ensures
        !w.admissions.dom().contains(m.attempt_id),
        exists|id: Seq<char>, record: AccountingRecord<Seq<char>>|
            #![trigger v.accounting.insert(id, record)]
            w.accounting == v.accounting.insert(id, record) && record.attempt_id == id
                && record.cost_bound == m.cost_bound && record.usage == r->Ok_0.usage,
{
    if send_step(before, v, m, a.connection, Ok(r->Ok_0), after) && w == spent(
        v,
        m,
        a.connection,
        r->Ok_0.usage,
    ) {
        let record = AccountingRecord {
            attempt_id: m.attempt_id,
            purpose: m.purpose,
            connection: a.connection,
            cost_bound: m.cost_bound,
            usage: r->Ok_0.usage,
        };
        assert(w.accounting == v.accounting.insert(m.attempt_id, record));
    } else {
        let (mid, source) = choose|mid: P, source: ProviderError<Seq<char>>| #[trigger]
            failed_over(before, mid, after, v, a, m, source, r, w);
        match a.fallback {
            config::FallbackView::Auto { chain } => {
                let (t, id, k) = choose|t: WalkTrace<P>, id: Seq<char>, k: int| #[trigger]
                    walk_answered(mid, after, v, a, m, chain, r, w, t, id, k);
                assert(walk_answered(mid, after, v, a, m, chain, r, w, t, id, k));
                let record = AccountingRecord {
                    attempt_id: id,
                    purpose: a.manifest.purpose,
                    connection: chain[k].connection,
                    cost_bound: a.manifest.cost_bound,
                    usage: r->Ok_0.usage,
                };
                assert(w.accounting == v.accounting.insert(id, record));
            },
            _ => {},
        }
    }
}

/// An answer is the reply of the provider to one send: of the admitted
/// manifest in its send form, or of a substitute for it that keeps all of the
/// task's data, to a connection that is eligible for the purpose.
pub proof fn law_answer_is_the_reply_to_one_send<P: Provider>(
    before: P,
    after: P,
    v: BrokerView,
    a: AdmissionView,
    m: ManifestView,
    r: Result<ReplyView, ModelErrorView>,
    w: BrokerView,
)
    requires
        dispatched(before, after, v, a, m, r, w),
        a.manifest == m,
        r is Ok,
    ensures
        exists|asked: P, s: ManifestView, connection: Seq<char>| #[trigger]
            send_step(asked, v, s, connection, Ok(r->Ok_0), after) && s.inputs == m.inputs
                && s.world == m.world && s.instructions == m.instructions && s.tools == m.tools
                && s.purpose == m.purpose && s.cost_bound == m.cost_bound && s.effort == m.effort
                && ((s == m && connection == a.connection) || rejection(
                asked,
                v,
                a.purpose,
                connection,
            ) is None),
{
    if !(send_step(before, v, m, a.connection, Ok(r->Ok_0), after) && w == spent(
        v,
        m,
        a.connection,
        r->Ok_0.usage,
    )) {
        let (mid, source) = choose|mid: P, source: ProviderError<Seq<char>>| #[trigger]
            failed_over(before, mid, after, v, a, m, source, r, w);
        match a.fallback {
            config::FallbackView::Auto { chain } => {
                let (t, id, k) = choose|t: WalkTrace<P>, id: Seq<char>, k: int| #[trigger]
                    walk_answered(mid, after, v, a, m, chain, r, w, t, id, k);
                assert(walk_answered(mid, after, v, a, m, chain, r, w, t, id, k));
                let s = substitute_of(v, a, config::ModelView::Fixed(chain[k]), id);
                assert(send_step(
                    t.providers.last(),
                    v,
                    s,
                    chain[k].connection,
                    Ok(r->Ok_0),
                    after,
                ));
            },
            _ => {},
        }
    }
}

/// A walk sends to an entry of its chain exactly when the entry is eligible,
/// and it never goes past an eligible entry without a send.
pub proof fn law_walk_sends_to_every_eligible_entry<P: Provider>(
    before: P,
    v: BrokerView,
    a: AdmissionView,
    chain: Seq<FixedModel<Seq<char>>>,
    t: WalkTrace<P>,
    i: int,
)
    requires
        walked(before, v, a, chain, t),
        0 <= i < chain.len(),
    ensures
        t.rejected[i].connection == chain[i].connection,
        (t.rejected[i].cause is SendFailed) == (rejection(
            t.providers[i],
            v,
            a.purpose,
            chain[i].connection,
        ) is None),
        !(t.rejected[i].cause is SendFailed) ==> rejection(
            t.providers[i],
            v,
            a.purpose,
            chain[i].connection,
        ) == Some(t.rejected[i].cause),
{
    let entry = t.rejected[i];
    assert(left_behind(t.providers[i], t.providers[i + 1], v, a, chain[i], t.ids[i], entry));
}

/// A manual choice is confined to what the pause offered, and the connection
/// must still be eligible when it is chosen.
pub proof fn law_choice_is_confined<P: Provider>(
    p: P,
    v: BrokerView,
    world: Seq<char>,
    attempt_id: Seq<char>,
    connection: Seq<char>,
)
    ensures
        choice_gate(p, v, world, attempt_id, connection) matches Ok(a) ==> {
            &&& v.paused.dom().contains(attempt_id)
            &&& v.paused[attempt_id].contains(connection)
            &&& rejection(p, v, a.purpose, connection) is None
            &&& a.manifest.world == world
        },
{
}

/// What a pause offers is eligible and never the connection that failed.
pub proof fn law_offer_is_eligible<P: Provider>(
    p: P,
    v: BrokerView,
    names: Seq<Seq<char>>,
    purpose: Seq<char>,
    primary: Seq<char>,
)
    ensures
        forall|i: int|
            0 <= i < without_name(eligible(p, v, names, purpose), primary).len() ==> {
                let name = #[trigger] without_name(eligible(p, v, names, purpose), primary)[i];
                name != primary && rejection(p, v, purpose, name) is None
            },
{
    lemma_eligible(p, v, names, purpose);
    lemma_without_name(eligible(p, v, names, purpose), primary);
}

proof fn lemma_eligible<P: Provider>(
    p: P,
    v: BrokerView,
    names: Seq<Seq<char>>,
    purpose: Seq<char>,
)
    ensures
        forall|i: int|
            0 <= i < eligible(p, v, names, purpose).len() ==> rejection(
                p,
                v,
                purpose,
                #[trigger] eligible(p, v, names, purpose)[i],
            ) is None,
    decreases names.len(),
{
    if names.len() > 0 {
        lemma_eligible(p, v, names.drop_last(), purpose);
    }
}

proof fn lemma_without_name(names: Seq<Seq<char>>, name: Seq<char>)
    ensures
        forall|i: int|
            0 <= i < without_name(names, name).len() ==> #[trigger] without_name(names, name)[i]
                != name && names.contains(without_name(names, name)[i]),
    decreases names.len(),
{
    if names.len() > 0 {
        let d = names.drop_last();
        lemma_without_name(d, name);
        assert forall|i: int| 0 <= i < without_name(names, name).len() implies #[trigger] without_name(
            names,
            name,
        )[i] != name && names.contains(without_name(names, name)[i]) by {
            let u = without_name(d, name);
            if i < u.len() {
                assert(without_name(names, name)[i] == u[i]);
                let k = choose|k: int| 0 <= k < d.len() && d[k] == u[i];
                assert(names[k] == u[i]);
            } else {
                assert(names[names.len() - 1] == names.last());
            }
        }
    }
}

/// An unchanged prefix replays its epoch without a reason; a changed one is
/// recorded as a model switch.
pub proof fn law_unchanged_prefix_replays_its_epoch(
    epochs: Map<Seq<char>, Seq<char>>,
    purpose: Seq<char>,
    digest: Seq<char>,
    other: Seq<char>,
)
    ensures
        epoch_reason(epochs.insert(purpose, digest), purpose, digest) is None,
        other != digest ==> epoch_reason(epochs.insert(purpose, digest), purpose, other) == Some(
            MODEL_SWITCH@,
        ),
{
}

} // verus!
