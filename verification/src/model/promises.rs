//! What the broker promises of a request: when it is admitted, when it may be
//! sent, and where a failed send leads.

use crate::config::precedence;
use crate::config::settings;
use crate::config::{self, ConnKind, Connection};
use crate::contracts::MODEL_WIRE_MAX_BYTES;
use crate::model::broker::{self, BrokerView, WalkTrace};
use crate::model::{
    self, AccountingRecord, AdmissionView, ManifestView, ModelError, ModelErrorView, RejectionCause,
    UsageDelta,
};
use crate::providers::{Provider, ProviderError, ReplyView};
use vstd::prelude::*;

verus! {

/// A manifest may be sent exactly where it comes from its own world, was
/// neither accounted nor cancelled, is the very manifest that was admitted,
/// and the rights are those it was admitted under and still name its
/// connection.
pub proof fn law_gate_is_exact(v: BrokerView, world: Seq<char>, m: ManifestView)
    ensures
        broker::gate(v, world, m) is Ok <==> {
            &&& m.world == world
            &&& !v.accounting.dom().contains(m.attempt_id)
            &&& !v.cancelled.contains(m.attempt_id)
            &&& v.admissions.dom().contains(m.attempt_id)
            &&& v.admissions[m.attempt_id].manifest == m
            &&& v.admissions[m.attempt_id].snapshot_version == v.rights.version
            &&& v.rights.rights is Some ==> v.rights.rights->0.contains(
                v.admissions[m.attempt_id].connection,
            )
        },
        broker::gate(v, world, m) matches Ok(a) ==> a == v.admissions[m.attempt_id],
        m.world != world ==> (broker::gate(v, world, m) matches Err(ModelError::WorldMismatch {
            frozen,
            current,
        }) && frozen == m.world && current == world),
        m.world == world && !v.accounting.dom().contains(m.attempt_id) && v.cancelled.contains(
            m.attempt_id,
        ) ==> (broker::gate(v, world, m) matches Err(ModelError::AttemptCancelled { .. })),
        m.world == world && broker::in_flight(v, m.attempt_id) && !v.cancelled.contains(
            m.attempt_id,
        ) && v.admissions[m.attempt_id].manifest != m ==> (broker::gate(v, world, m) matches Err(
            ModelError::AdmissionMismatch { .. },
        )),
{
}

/// A prepared request carries what it was prepared from: its purpose, world
/// and inputs, and the model and effort that the configuration resolves for
/// the purpose. It is the one new admission, for the connection that the
/// ranking chose, with the fallback of the purpose; nothing is accounted.
pub proof fn law_prepared_request_is_the_one_asked_for(
    v: BrokerView,
    connections: Seq<(Seq<char>, Connection<Seq<char>>)>,
    models: config::ModelsView,
    purpose: Seq<char>,
    world: Seq<char>,
    inputs: Seq<char>,
    id: Seq<char>,
    i: int,
)
    requires
        precedence::stands_for(models.purposes, i, purpose),
    ensures
        ({
            let (w, r) = broker::prepared(v, connections, models, purpose, world, inputs, id);
            r matches Ok(m) ==> {
                let resolved = settings::purpose_resolution(models, purpose);
                let def = models.purposes[i].1;
                &&& m.attempt_id == id && m.purpose == purpose && m.world == world && m.inputs
                    == inputs
                &&& resolved is Ok && m.model == resolved->Ok_0.model && m.effort
                    == resolved->Ok_0.effort
                &&& w.admissions.dom() == v.admissions.dom().insert(id)
                &&& w.admissions[id].manifest == m
                &&& w.admissions[id].purpose == purpose
                &&& w.admissions[id].snapshot_version == v.rights.version
                &&& w.admissions[id].fallback == resolved->Ok_0.fallback
                &&& w.admissions[id].model_source == resolved->Ok_0.model_source
                &&& w.admissions[id].fallback_source == resolved->Ok_0.fallback_source
                &&& (model::ranking(
                    purpose,
                    m.model,
                    def.pool,
                    def.eligible,
                    connections,
                    v.rights.rights,
                ) matches Ok(c) && w.admissions[id].connection == c.connection
                    && w.admissions[id].model_id == c.model_id)
                &&& forall|k: Seq<char>|
                    k != id && v.admissions.dom().contains(k) ==> #[trigger] w.admissions[k]
                        == v.admissions[k]
                &&& w.accounting == v.accounting && w.cancelled == v.cancelled && w.rights
                    == v.rights && w.paused == v.paused && w.pending == v.pending
            }
        }),
{
    precedence::law_lookup_finds_the_entry(models.purposes, i, purpose);
}

/// Preparing fails only for a reason: the purpose does not resolve, no
/// connection is eligible, or the request is over the limit, which is then
/// named with the size.
pub proof fn law_prepare_fails_for_a_reason(
    v: BrokerView,
    connections: Seq<(Seq<char>, Connection<Seq<char>>)>,
    models: config::ModelsView,
    purpose: Seq<char>,
    world: Seq<char>,
    inputs: Seq<char>,
    id: Seq<char>,
    i: int,
)
    requires
        precedence::stands_for(models.purposes, i, purpose),
        settings::purpose_resolution(models, purpose) is Ok,
        model::ranking(
            purpose,
            settings::purpose_resolution(models, purpose)->Ok_0.model,
            models.purposes[i].1.pool,
            models.purposes[i].1.eligible,
            connections,
            v.rights.rights,
        ) is Ok,
    ensures
        ({
            let r = broker::prepared(v, connections, models, purpose, world, inputs, id).1;
            let size = broker::accounted_size(
                settings::purpose_resolution(models, purpose)->Ok_0.model,
                inputs,
            );
            &&& size <= MODEL_WIRE_MAX_BYTES ==> r is Ok
            &&& size > MODEL_WIRE_MAX_BYTES ==> (r matches Err(
                ModelError::RequestTooLarge { limit, actual },
            ) && limit == MODEL_WIRE_MAX_BYTES && actual == size)
        }),
{
    precedence::law_lookup_finds_the_entry(models.purposes, i, purpose);
}

/// A prepared request may be sent at once from its world: it is let
/// through under an id that was never used.
pub proof fn law_prepared_request_may_be_sent(
    v: BrokerView,
    connections: Seq<(Seq<char>, Connection<Seq<char>>)>,
    models: config::ModelsView,
    purpose: Seq<char>,
    world: Seq<char>,
    inputs: Seq<char>,
    id: Seq<char>,
)
    requires
        !v.accounting.dom().contains(id),
        !v.cancelled.contains(id),
    ensures
        ({
            let (w, r) = broker::prepared(v, connections, models, purpose, world, inputs, id);
            r matches Ok(m) ==> broker::gate(w, world, m) is Ok
        }),
{
    if settings::purpose_resolution(models, purpose) is Ok {
        let res = settings::purpose_resolution(models, purpose)->Ok_0;
        let def = crate::names::lookup(models.purposes, purpose);
        let pool = match def {
            Some(d) => d.pool,
            None => None,
        };
        let list = match def {
            Some(d) => d.eligible,
            None => None,
        };
        model::law_ranking_is_eligible(
            purpose,
            res.model,
            pool,
            list,
            connections,
            v.rights.rights,
        );
    }
}

/// A cancelled attempt is gone: nothing of it can be sent or chosen any more,
/// every other attempt is untouched, and an attempt that is not in flight is
/// not cancelled.
pub proof fn law_cancelling_ends_one_attempt(v: BrokerView, id: Seq<char>, other: Seq<char>)
    ensures
        ({
            let w = broker::cancelling(v, id);
            &&& !v.accounting.dom().contains(id) && v.admissions.dom().contains(id) ==> {
                &&& w.cancelled.contains(id)
                &&& !w.admissions.dom().contains(id)
                &&& !w.pending.dom().contains(id)
                &&& !w.paused.dom().contains(id)
            }
            &&& v.accounting.dom().contains(id) || !v.admissions.dom().contains(id) ==> w == v
            &&& w.accounting == v.accounting && w.epochs == v.epochs && w.rights == v.rights
            &&& other != id ==> w.admissions.dom().contains(other) == v.admissions.dom().contains(
                other,
            ) && w.cancelled.contains(other) == v.cancelled.contains(other) && (
            v.admissions.dom().contains(other) ==> w.admissions[other] == v.admissions[other])
                && w.paused.dom().contains(other) == v.paused.dom().contains(other)
        }),
{
}

/// New rights make every earlier admission stale: after the rights moved, no
/// manifest that was admitted before may be sent; the same rights change
/// nothing.
pub proof fn law_new_rights_make_admissions_stale(
    v: BrokerView,
    rights: Set<Seq<char>>,
    world: Seq<char>,
    m: ManifestView,
)
    requires
        v.rights.version < u64::MAX,
        broker::gate(v, world, m) is Ok,
    ensures
        v.rights.rights == Some(rights) ==> broker::gate(broker::entitled_to(v, rights), world, m)
            == broker::gate(v, world, m),
        v.rights.rights != Some(rights) ==> (broker::gate(
            broker::entitled_to(v, rights),
            world,
            m,
        ) matches Err(ModelError::EligibilityStale { frozen, current, .. }) && frozen
            == v.rights.version && current == v.rights.version + 1),
        broker::entitled_to(v, rights).rights.rights == Some(rights),
{
}

/// A connection is refused exactly where it is not declared, needs a live
/// grant, speaks another dialect, or is left out by the account or by the list
/// of the purpose; the first of these in that order is the cause.
pub proof fn law_refusal_has_its_cause<P: Provider>(
    p: P,
    v: BrokerView,
    purpose: Seq<char>,
    connection: Seq<char>,
    k: int,
    i: int,
)
    requires
        precedence::stands_for(v.connections, k, connection),
        precedence::stands_for(v.purposes, i, purpose),
    ensures
        ({
            let r = broker::rejection(p, v, purpose, connection);
            let entry = v.connections[k].1;
            let local = entry.kind == ConnKind::Local;
            let served = p.serving(connection, entry);
            let entitled = v.rights.rights is Some ==> v.rights.rights->0.contains(connection);
            let listed = v.purposes[i].1 is Some ==> v.purposes[i].1->0.contains(connection);
            &&& r is None <==> local && served && entitled && listed
            &&& !local ==> r == Some(
                RejectionCause::<Seq<char>>::LiveGrantRequired { kind: entry.kind },
            )
            &&& local && !served ==> r == Some(RejectionCause::<Seq<char>>::DialectMismatch)
            &&& local && served && !entitled ==> r == Some(
                RejectionCause::<Seq<char>>::NotEntitled,
            )
            &&& local && served && entitled && !listed ==> r == Some(
                RejectionCause::<Seq<char>>::NotPurposeEligible,
            )
        }),
{
    precedence::law_lookup_finds_the_entry(v.connections, k, connection);
    precedence::law_lookup_finds_the_entry(v.purposes, i, purpose);
}

/// An undeclared connection is refused as unknown, and nothing is ever sent
/// to it.
pub proof fn law_unknown_connection_is_refused<P: Provider>(
    p: P,
    v: BrokerView,
    m: ManifestView,
    purpose: Seq<char>,
    connection: Seq<char>,
)
    requires
        precedence::unnamed(v.connections, connection),
    ensures
        broker::rejection(p, v, purpose, connection) == Some(
            RejectionCause::<Seq<char>>::UnknownConnection,
        ),
        broker::send_form(p, v, m, connection) == Err::<ManifestView, ProviderError<Seq<char>>>(
            ProviderError::UnknownConnection,
        ),
{
    precedence::law_lookup_finds_the_entry(v.connections, 0, connection);
}

/// What is sent is the manifest: a pinned one as it is, an automatic one with
/// its model narrowed to the connection it goes to, and nothing else changed.
pub proof fn law_sent_form_is_the_manifest<P: Provider>(
    p: P,
    v: BrokerView,
    m: ManifestView,
    connection: Seq<char>,
    k: int,
)
    requires
        precedence::stands_for(v.connections, k, connection),
    ensures
        broker::send_form(p, v, m, connection) is Ok <==> p.serving(connection, v.connections[k].1),
        broker::send_form(p, v, m, connection) matches Ok(f) ==> {
            &&& m.model is Fixed ==> f == m
            &&& m.model is Auto ==> (f.model matches config::ModelView::Auto { pool: Some(names) }
                && names == seq![connection])
            &&& f.attempt_id == m.attempt_id && f.purpose == m.purpose && f.world == m.world
            &&& f.inputs == m.inputs && f.inputs_digest == m.inputs_digest
            &&& f.instructions == m.instructions && f.tools == m.tools
            &&& f.effort == m.effort && f.output_reserve == m.output_reserve
            &&& f.cost_bound == m.cost_bound
        },
{
    precedence::law_lookup_finds_the_entry(v.connections, k, connection);
}

/// A substitute is the same task on another model: only the id, the model and
/// what the epoch says of it are new.
pub proof fn law_substitute_keeps_the_task(
    v: BrokerView,
    a: AdmissionView,
    model: config::ModelView,
    connection: Seq<char>,
    leg: Seq<char>,
    id: Seq<char>,
)
    ensures
        ({
            let s = broker::substitute_of(v, a, model, id);
            let w = broker::minted(v, a, model, connection, leg, id);
            &&& s.attempt_id == id && s.model == model
            &&& s.purpose == a.manifest.purpose && s.world == a.manifest.world
            &&& s.inputs == a.manifest.inputs && s.inputs_digest == a.manifest.inputs_digest
            &&& s.instructions == a.manifest.instructions && s.tools == a.manifest.tools
            &&& s.effort == a.manifest.effort && s.cost_bound == a.manifest.cost_bound
            &&& s.output_reserve == a.manifest.output_reserve
            &&& w.admissions.dom() == v.admissions.dom().insert(id)
            &&& w.admissions[id].manifest == s
            &&& w.admissions[id].connection == connection
            &&& w.admissions[id].fallback == config::FallbackView::Off
            &&& w.admissions[id].snapshot_version == v.rights.version
            &&& w.accounting == v.accounting && w.cancelled == v.cancelled
        }),
{
}

/// Without a fallback a failed send ends the attempt with the error of the
/// provider, and nothing else happens.
pub proof fn law_no_fallback_ends_with_the_error<P: Provider>(
    before: P,
    after: P,
    v: BrokerView,
    a: AdmissionView,
    m: ManifestView,
    source: ProviderError<Seq<char>>,
    r: Result<ReplyView, ModelErrorView>,
    w: BrokerView,
)
    requires
        a.fallback == config::FallbackView::Off,
        broker::fell_back(before, after, v, a, m, source, r, w),
    ensures
        r == Err::<ReplyView, ModelErrorView>(ModelError::Provider(source)),
        w == v,
        after == before,
{
}

proof fn lemma_eligible_complete<P: Provider>(
    p: P,
    v: BrokerView,
    names: Seq<Seq<char>>,
    purpose: Seq<char>,
    primary: Seq<char>,
    i: int,
)
    requires
        0 <= i < names.len(),
        broker::rejection(p, v, purpose, names[i]) is None,
        names[i] != primary,
    ensures
        broker::without_name(broker::eligible(p, v, names, purpose), primary).contains(names[i]),
    decreases names.len(),
{
    let e = broker::eligible(p, v, names, purpose);
    lemma_eligible_has(p, v, names, purpose, i);
    let k = choose|k: int| 0 <= k < e.len() && e[k] == names[i];
    lemma_kept(e, primary, k);
}

proof fn lemma_eligible_has<P: Provider>(
    p: P,
    v: BrokerView,
    names: Seq<Seq<char>>,
    purpose: Seq<char>,
    i: int,
)
    requires
        0 <= i < names.len(),
        broker::rejection(p, v, purpose, names[i]) is None,
    ensures
        broker::eligible(p, v, names, purpose).contains(names[i]),
    decreases names.len(),
{
    let e = broker::eligible(p, v, names, purpose);
    if i == names.len() - 1 {
        assert(e[e.len() - 1] == names[i]);
    } else {
        let d = names.drop_last();
        lemma_eligible_has(p, v, d, purpose, i);
        let f = broker::eligible(p, v, d, purpose);
        let k = choose|k: int| 0 <= k < f.len() && f[k] == d[i];
        assert(e[k] == names[i]);
    }
}

proof fn lemma_kept(names: Seq<Seq<char>>, name: Seq<char>, i: int)
    requires
        0 <= i < names.len(),
        names[i] != name,
    ensures
        broker::without_name(names, name).contains(names[i]),
    decreases names.len(),
{
    let e = broker::without_name(names, name);
    if i == names.len() - 1 {
        assert(e[e.len() - 1] == names[i]);
    } else {
        let d = names.drop_last();
        lemma_kept(d, name, i);
        let f = broker::without_name(d, name);
        let k = choose|k: int| 0 <= k < f.len() && f[k] == d[i];
        assert(e[k] == names[i]);
    }
}

/// A manual fallback never sends by itself. Where a declared connection other
/// than the failed one is eligible, the attempt pauses and every such
/// connection is offered; where there is none, the attempt ends with the
/// reasons and nothing changes.
pub proof fn law_manual_fallback_offers_a_choice<P: Provider>(
    before: P,
    after: P,
    v: BrokerView,
    a: AdmissionView,
    m: ManifestView,
    source: ProviderError<Seq<char>>,
    r: Result<ReplyView, ModelErrorView>,
    w: BrokerView,
    i: int,
)
    requires
        a.fallback == config::FallbackView::Manual,
        broker::fell_back(before, after, v, a, m, source, r, w),
    ensures
        after == before,
        w.accounting == v.accounting && w.epochs == v.epochs && w.admissions == v.admissions,
        0 <= i < v.connections.len() && v.connections[i].0 != a.connection && broker::rejection(
            before,
            v,
            a.purpose,
            v.connections[i].0,
        ) is None ==> {
            &&& (r matches Err(ModelError::ManualFallbackPending { attempt_id, purpose })
                && attempt_id == m.attempt_id && purpose == a.purpose)
            &&& w.paused.dom().contains(m.attempt_id) && w.paused[m.attempt_id].contains(
                v.connections[i].0,
            )
            &&& w.pending.dom().contains(m.attempt_id)
                && w.pending[m.attempt_id].candidates.contains(v.connections[i].0)
        },
        (r matches Err(ModelError::FallbackExhausted { .. })) ==> w == v,
        (r matches Err(ModelError::FallbackExhausted { .. })) || (r matches Err(
            ModelError::ManualFallbackPending { .. },
        )),
        (r matches Err(ModelError::ManualFallbackPending { .. })) ==> w.paused.dom().contains(
            m.attempt_id,
        ) && w.paused[m.attempt_id].len() > 0 && w.pending[m.attempt_id].candidates
            == w.paused[m.attempt_id],
{
    let names = model::names_of(v.connections);
    if 0 <= i < v.connections.len() && v.connections[i].0 != a.connection && broker::rejection(
        before,
        v,
        a.purpose,
        v.connections[i].0,
    ) is None {
        assert(names[i] == v.connections[i].0);
        lemma_eligible_complete(before, v, names, a.purpose, a.connection, i);
    }
}

/// An automatic fallback answers from its chain: the entry that answered is
/// eligible, every entry in front of it was refused or failed, and exactly one
/// request is accounted, for that entry.
pub proof fn law_chain_answers_in_order<P: Provider>(
    before: P,
    after: P,
    v: BrokerView,
    a: AdmissionView,
    m: ManifestView,
    chain: Seq<config::FixedView>,
    source: ProviderError<Seq<char>>,
    r: Result<ReplyView, ModelErrorView>,
    w: BrokerView,
)
    requires
        a.fallback == (config::FallbackView::Auto { chain }),
        broker::fell_back(before, after, v, a, m, source, r, w),
        r is Ok,
    ensures
        exists|t: WalkTrace<P>, k: int, id: Seq<char>, record: AccountingRecord<Seq<char>>|
            #![trigger broker::walked(before, v, a, chain.take(k), t), v.accounting.insert(id, record)]
            {
                &&& 0 <= k < chain.len()
                &&& broker::walked(before, v, a, chain.take(k), t)
                &&& broker::rejection(t.providers.last(), v, a.purpose, chain[k].connection) is None
                &&& w.accounting == v.accounting.insert(id, record)
                &&& record.connection == chain[k].connection
                &&& record.attempt_id == id
                &&& record.cost_bound == a.manifest.cost_bound
                &&& record.usage == r->Ok_0.usage
                &&& !w.admissions.dom().contains(m.attempt_id)
                &&& !w.admissions.dom().contains(id)
            },
{
    let (t, id, k) = choose|t: WalkTrace<P>, id: Seq<char>, k: int| #[trigger]
        broker::walk_answered(before, after, v, a, m, chain, r, w, t, id, k);
    assert(broker::walk_answered(before, after, v, a, m, chain, r, w, t, id, k));
    let record = AccountingRecord {
        attempt_id: id,
        purpose: a.manifest.purpose,
        connection: chain[k].connection,
        cost_bound: a.manifest.cost_bound,
        usage: r->Ok_0.usage,
    };
    assert(broker::walked(before, v, a, chain.take(k), t));
    assert(w.accounting == v.accounting.insert(id, record));
}

/// A sent attempt is accounted under its own id, on the connection it went to,
/// at its frozen bound and with the usage of the reply, and nothing else of it
/// is left.
pub proof fn law_sent_attempt_is_accounted(
    v: BrokerView,
    m: ManifestView,
    connection: Seq<char>,
    usage: UsageDelta,
    other: Seq<char>,
)
    ensures
        ({
            let w = broker::spent(v, m, connection, usage);
            let record = w.accounting[m.attempt_id];
            &&& w.accounting.dom() == v.accounting.dom().insert(m.attempt_id)
            &&& record.attempt_id == m.attempt_id && record.purpose == m.purpose
            &&& record.connection == connection && record.cost_bound == m.cost_bound
                && record.usage == usage
            &&& !w.admissions.dom().contains(m.attempt_id) && !w.pending.dom().contains(
                m.attempt_id,
            ) && !w.paused.dom().contains(m.attempt_id)
            &&& other != m.attempt_id && v.admissions.dom().contains(other)
                ==> w.admissions.dom().contains(other) && w.admissions[other]
                == v.admissions[other]
            &&& other != m.attempt_id && v.accounting.dom().contains(other) ==> w.accounting[other]
                == v.accounting[other]
        }),
{
}

/// A paused attempt that is still admitted may be sent to any connection that
/// was offered and is still eligible; the substitute keeps the model id of a
/// pin and otherwise names the choice alone.
pub proof fn law_offered_choice_may_be_sent<P: Provider>(
    p: P,
    v: BrokerView,
    world: Seq<char>,
    attempt_id: Seq<char>,
    connection: Seq<char>,
    model: config::ModelView,
)
    ensures
        v.admissions.dom().contains(attempt_id) && v.paused.dom().contains(attempt_id)
            && v.admissions[attempt_id].manifest.world == world
            && v.paused[attempt_id].contains(connection) && broker::rejection(
            p,
            v,
            v.admissions[attempt_id].purpose,
            connection,
        ) is None ==> broker::choice_gate(p, v, world, attempt_id, connection) == Ok::<
            AdmissionView,
            ModelErrorView,
        >(v.admissions[attempt_id]),
        v.admissions.dom().contains(attempt_id) && !v.paused.dom().contains(attempt_id) ==> (
        broker::choice_gate(p, v, world, attempt_id, connection) matches Err(
            ModelError::NoPendingChoice { .. },
        )),
        broker::chosen_model(model, connection) matches config::ModelView::Fixed(f) ==> (
        model matches config::ModelView::Fixed(g) && f.model_id == g.model_id && f.connection
            == connection),
        !(model is Fixed) ==> (broker::chosen_model(model, connection)
            matches config::ModelView::Auto { pool: Some(names) } && names == seq![connection]),
        model is Fixed ==> broker::chosen_model(model, connection) is Fixed,
{
}

/// The cost bound counts started slices of input and the request itself: the
/// bound is the least number whose slices, but for one, hold the input.
pub proof fn law_cost_bound_is_least(input_bytes: nat)
    ensures
        (model::cost_bound_of(input_bytes) - 1) * 4096 >= input_bytes,
        model::cost_bound_of(input_bytes) > 1 ==> (model::cost_bound_of(input_bytes) - 2) * 4096
            < input_bytes,
        model::cost_bound_of(0) == 1,
{
}

/// Looking at a configuration changes nothing but what later checks read.
pub proof fn law_observing_changes_only_the_view(
    v: BrokerView,
    connections: Seq<(Seq<char>, Connection<Seq<char>>)>,
    models: config::ModelsView,
    i: int,
    purpose: Seq<char>,
)
    requires
        precedence::stands_for(models.purposes, i, purpose),
    ensures
        ({
            let w = broker::observing(v, connections, models);
            &&& w.connections == connections
            &&& w.admissions == v.admissions && w.accounting == v.accounting && w.cancelled
                == v.cancelled && w.paused == v.paused && w.pending == v.pending && w.rights
                == v.rights && w.epochs == v.epochs
            &&& broker::eligible_in(w.purposes, purpose) == models.purposes[i].1.eligible
        }),
{
    let w = broker::observing(v, connections, models);
    assert(precedence::stands_for(w.purposes, i, purpose)) by {
        assert forall|j: int| i < j < w.purposes.len() implies (#[trigger] w.purposes[j]).0
            != purpose by {
            assert(models.purposes[j].0 != purpose);
        }
    }
    precedence::law_lookup_finds_the_entry(w.purposes, i, purpose);
}

} // verus!
