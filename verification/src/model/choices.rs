//! What a choice after a failed send promises, and what the lists around it
//! hold.

use crate::config::{self, Connection};
use crate::model::broker::{self, BrokerView};
use crate::model::{AdmissionView, CandidateRejection, ModelError, ModelErrorView};
use crate::names;
use crate::providers::{Provider, UsageDelta};
use vstd::prelude::*;

verus! {

/// A choice is taken exactly where the attempt is admitted and waits for one,
/// the world is still the frozen one, the connection was offered, and nothing
/// speaks against it now.
pub proof fn law_choice_must_be_offered<P: Provider>(
    p: P,
    v: BrokerView,
    world: Seq<char>,
    id: Seq<char>,
    connection: Seq<char>,
)
    ensures
        ({
            let r = broker::choice_gate(p, v, world, id, connection);
            let admitted = v.admissions.dom().contains(id);
            let waits = admitted && v.paused.dom().contains(id);
            let here = waits && v.admissions[id].manifest.world == world;
            let offered = here && v.paused[id].contains(connection);
            let fine = offered && broker::rejection(
                p,
                v,
                v.admissions[id].purpose,
                connection,
            ) is None;
            &&& r is Ok <==> fine
            &&& fine ==> r == Ok::<AdmissionView, ModelErrorView>(v.admissions[id])
            &&& offered && !fine ==> (r matches Err(
                ModelError::ManualChoiceRejected { attempt_id, connection: c, cause },
            ) && attempt_id == id && c == connection && broker::rejection(
                p,
                v,
                v.admissions[id].purpose,
                connection,
            ) == Some(cause))
            &&& here && !offered ==> (r matches Err(
                ModelError::ManualChoiceRejected { attempt_id, connection: c, cause },
            ) && attempt_id == id && c == connection && cause is NotOffered)
            &&& waits && !here ==> (r matches Err(ModelError::WorldMismatch { frozen, current })
                && frozen == v.admissions[id].manifest.world && current == world)
            &&& admitted && !waits ==> (r matches Err(ModelError::NoPendingChoice { attempt_id })
                && attempt_id == id)
            &&& !admitted && v.cancelled.contains(id) ==> (r matches Err(
                ModelError::AttemptCancelled { attempt_id },
            ) && attempt_id == id)
            &&& !admitted && !v.cancelled.contains(id) && v.accounting.dom().contains(id) ==> (
            r matches Err(ModelError::AttemptAlreadyAccounted { attempt_id }) && attempt_id == id)
            &&& !admitted && !v.cancelled.contains(id) && !v.accounting.dom().contains(id) ==> (
            r matches Err(ModelError::NoAdmission { attempt_id }) && attempt_id == id)
        }),
{
}

/// A choice that was answered ends the attempt it was made for: nothing of it
/// is admitted, pending or paused, and neither is its substitute. The
/// substitute is accounted under the chosen connection; every other attempt
/// stays as it was.
pub proof fn law_answered_choice_ends_the_attempt(
    v: BrokerView,
    a: AdmissionView,
    attempt: Seq<char>,
    connection: Seq<char>,
    id: Seq<char>,
    usage: UsageDelta,
    other: Seq<char>,
)
    requires
        other != attempt,
        other != id,
    ensures
        ({
            let w = broker::choice_spent(v, a, attempt, connection, id, usage);
            &&& !w.admissions.dom().contains(attempt) && !w.admissions.dom().contains(id)
            &&& !w.pending.dom().contains(attempt) && !w.pending.dom().contains(id)
            &&& !w.paused.dom().contains(attempt) && !w.paused.dom().contains(id)
            &&& w.accounting.dom().contains(id) && w.accounting[id].connection == connection
                && w.accounting[id].usage == usage && w.accounting[id].attempt_id == id
                && w.accounting[id].cost_bound == a.manifest.cost_bound
                && w.accounting[id].purpose == a.manifest.purpose
            &&& v.admissions.dom().contains(other) <==> w.admissions.dom().contains(other)
            &&& v.admissions.dom().contains(other) ==> w.admissions[other] == v.admissions[other]
            &&& v.pending.dom().contains(other) <==> w.pending.dom().contains(other)
            &&& v.paused.dom().contains(other) <==> w.paused.dom().contains(other)
            &&& v.accounting.dom().contains(other) <==> w.accounting.dom().contains(other)
            &&& w.rights == v.rights && w.cancelled == v.cancelled && w.connections
                == v.connections
        }),
{
}

/// Attempts that failed on the way are forgotten, and only those.
pub proof fn law_only_failed_attempts_are_forgotten(
    v: BrokerView,
    ids: Set<Seq<char>>,
    id: Seq<char>,
)
    ensures
        ({
            let w = broker::forgetting(v, ids);
            &&& w.admissions.dom().contains(id) <==> v.admissions.dom().contains(id)
                && !ids.contains(id)
            &&& w.admissions.dom().contains(id) ==> w.admissions[id] == v.admissions[id]
            &&& w.accounting == v.accounting && w.pending == v.pending && w.paused == v.paused
                && w.epochs == v.epochs && w.rights == v.rights && w.cancelled == v.cancelled
        }),
{
}

/// An offer keeps every other connection, in its order, and leaves the one
/// that failed out.
pub proof fn law_offer_leaves_the_failed_one_out(
    names: Seq<Seq<char>>,
    more: Seq<Seq<char>>,
    failed: Seq<char>,
    x: Seq<char>,
)
    ensures
        broker::without_name(names + more, failed) == broker::without_name(names, failed)
            + broker::without_name(more, failed),
        x != failed ==> broker::without_name(seq![x], failed) == seq![x],
        broker::without_name(seq![failed], failed).len() == 0,
        broker::without_name(Seq::empty(), failed).len() == 0,
    decreases more.len(),
{
    reveal_with_fuel(broker::without_name, 2);
    assert(seq![x].drop_last() =~= Seq::<Seq<char>>::empty());
    assert(seq![failed].drop_last() =~= Seq::<Seq<char>>::empty());
    assert(Seq::<Seq<char>>::empty().push(x) =~= seq![x]);
    let all = names + more;
    if more.len() == 0 {
        assert(all =~= names);
        assert(broker::without_name(names, failed) + Seq::<Seq<char>>::empty()
            =~= broker::without_name(names, failed));
    } else {
        law_offer_leaves_the_failed_one_out(names, more.drop_last(), failed, x);
        assert(all.drop_last() =~= names + more.drop_last());
        assert(all.last() == more.last());
        assert(broker::without_name(all, failed) =~= broker::without_name(names, failed)
            + broker::without_name(more, failed));
    }
}

/// The connections that were tried are those whose send failed, in their
/// order; one that was refused before a send was not tried.
pub proof fn law_tried_are_those_that_failed(
    rejected: Seq<CandidateRejection<Seq<char>>>,
    more: Seq<CandidateRejection<Seq<char>>>,
    x: CandidateRejection<Seq<char>>,
)
    ensures
        broker::sent_among(rejected + more) == broker::sent_among(rejected) + broker::sent_among(
            more,
        ),
        x.cause is SendFailed ==> broker::sent_among(seq![x]) == seq![x.connection],
        !(x.cause is SendFailed) ==> broker::sent_among(seq![x]).len() == 0,
    decreases more.len(),
{
    reveal_with_fuel(broker::sent_among, 2);
    assert(seq![x].drop_last() =~= Seq::<CandidateRejection<Seq<char>>>::empty());
    assert(Seq::<Seq<char>>::empty().push(x.connection) =~= seq![x.connection]);
    let all = rejected + more;
    if more.len() == 0 {
        assert(all =~= rejected);
        assert(broker::sent_among(rejected) + Seq::<Seq<char>>::empty() =~= broker::sent_among(
            rejected,
        ));
    } else {
        law_tried_are_those_that_failed(rejected, more.drop_last(), x);
        assert(all.drop_last() =~= rejected + more.drop_last());
        assert(all.last() == more.last());
        assert(broker::sent_among(all) =~= broker::sent_among(rejected) + broker::sent_among(more));
    }
}

/// Every connection but the primary that may not take the request is refused
/// with its own cause, in its order; nothing else is.
pub proof fn law_refusals_name_the_causes<P: Provider>(
    p: P,
    v: BrokerView,
    names: Seq<Seq<char>>,
    more: Seq<Seq<char>>,
    purpose: Seq<char>,
    primary: Seq<char>,
    x: Seq<char>,
)
    ensures
        broker::refusals(p, v, names + more, purpose, primary) == broker::refusals(
            p,
            v,
            names,
            purpose,
            primary,
        ) + broker::refusals(p, v, more, purpose, primary),
        ({
            let one = broker::refusals(p, v, seq![x], purpose, primary);
            match broker::rejection(p, v, purpose, x) {
                Some(cause) => if x != primary {
                    one.len() == 1 && one[0].connection == x && one[0].cause == cause
                } else {
                    one.len() == 0
                },
                None => one.len() == 0,
            }
        }),
        broker::refusals(p, v, Seq::empty(), purpose, primary).len() == 0,
    decreases more.len(),
{
    reveal_with_fuel(broker::refusals, 2);
    assert(seq![x].drop_last() =~= Seq::<Seq<char>>::empty());
    assert(seq![x].last() == x);
    let all = names + more;
    let head = broker::refusals(p, v, names, purpose, primary);
    if more.len() == 0 {
        assert(all =~= names);
        assert(head + broker::refusals(p, v, more, purpose, primary) =~= head);
    } else {
        law_refusals_name_the_causes(p, v, names, more.drop_last(), purpose, primary, x);
        assert(all.drop_last() =~= names + more.drop_last());
        assert(all.last() == more.last());
        assert(broker::refusals(p, v, all, purpose, primary) =~= head + broker::refusals(
            p,
            v,
            more,
            purpose,
            primary,
        ));
    }
}

/// The connections that may take a request are those nothing speaks against,
/// in the order of the list.
pub proof fn law_eligible_are_those_not_refused<P: Provider>(
    p: P,
    v: BrokerView,
    names: Seq<Seq<char>>,
    more: Seq<Seq<char>>,
    purpose: Seq<char>,
    x: Seq<char>,
)
    ensures
        broker::eligible(p, v, names + more, purpose) == broker::eligible(p, v, names, purpose)
            + broker::eligible(p, v, more, purpose),
        broker::rejection(p, v, purpose, x) is None ==> broker::eligible(p, v, seq![x], purpose)
            == seq![x],
        broker::rejection(p, v, purpose, x) is Some ==> broker::eligible(
            p,
            v,
            seq![x],
            purpose,
        ).len() == 0,
    decreases more.len(),
{
    reveal_with_fuel(broker::eligible, 2);
    assert(seq![x].drop_last() =~= Seq::<Seq<char>>::empty());
    assert(seq![x].last() == x);
    assert(Seq::<Seq<char>>::empty().push(x) =~= seq![x]);
    let all = names + more;
    let head = broker::eligible(p, v, names, purpose);
    if more.len() == 0 {
        assert(all =~= names);
        assert(head + broker::eligible(p, v, more, purpose) =~= head);
    } else {
        law_eligible_are_those_not_refused(p, v, names, more.drop_last(), purpose, x);
        assert(all.drop_last() =~= names + more.drop_last());
        assert(all.last() == more.last());
        assert(broker::eligible(p, v, all, purpose) =~= head + broker::eligible(
            p,
            v,
            more,
            purpose,
        ));
    }
}

/// A prepared request binds the profile of the connection it was routed to, if
/// that connection has one.
pub proof fn law_prepared_request_binds_its_profile(
    v: BrokerView,
    connections: Seq<(Seq<char>, Connection<Seq<char>>)>,
    models: config::ModelsView,
    purpose: Seq<char>,
    world: Seq<char>,
    inputs: Seq<char>,
    id: Seq<char>,
)
    requires
        broker::prepared(v, connections, models, purpose, world, inputs, id).1 is Ok,
    ensures
        ({
            let w = broker::prepared(v, connections, models, purpose, world, inputs, id).0;
            &&& w.admissions.dom().contains(id)
            &&& w.bound matches Some(b) && b.connection == w.admissions[id].connection && b.profile
                == names::lookup(v.profiles, b.connection)
        }),
{
}

} // verus!
