//! Which connection a request is ranked to.

use crate::config::precedence;
use crate::config::{self, ConnKind, Connection};
use crate::model::{self, Choice, ModelError, ModelErrorView};
use crate::providers::ProviderError;
use vstd::prelude::*;

verus! {

/// A connection that a request may go to: it is declared as a local one, the
/// account allows it, and so does the list of the purpose, where there is one.
pub open spec fn admissible(
    connections: Seq<(Seq<char>, Connection<Seq<char>>)>,
    rights: Option<Set<Seq<char>>>,
    eligible: Option<Seq<Seq<char>>>,
    name: Seq<char>,
) -> bool {
    &&& exists|k: int|
        #[trigger] precedence::stands_for(connections, k, name) && connections[k].1.kind
            == ConnKind::Local
    &&& rights is Some ==> rights->0.contains(name)
    &&& eligible is Some ==> eligible->0.contains(name)
}

/// The outcome of taking the first admissible one of some candidates.
pub open spec fn first_admissible(
    outcome: Result<Choice, ModelErrorView>,
    purpose: Seq<char>,
    candidates: Seq<Seq<char>>,
    connections: Seq<(Seq<char>, Connection<Seq<char>>)>,
    rights: Option<Set<Seq<char>>>,
    eligible: Option<Seq<Seq<char>>>,
) -> bool {
    match outcome {
        Ok(c) => c.model_id is None && exists|i: int|
            0 <= i < candidates.len() && #[trigger] candidates[i] == c.connection && admissible(
                connections,
                rights,
                eligible,
                candidates[i],
            ) && forall|j: int|
                0 <= j < i ==> !admissible(
                    connections,
                    rights,
                    eligible,
                    #[trigger] candidates[j],
                ),
        Err(e) => e matches ModelError::NoEligibleCandidate { purpose: p } && p == purpose && forall|j: int|
            0 <= j < candidates.len() ==> !admissible(
                connections,
                rights,
                eligible,
                #[trigger] candidates[j],
            ),
    }
}

proof fn lemma_standing<A>(s: Seq<(Seq<char>, A)>, name: Seq<char>) -> (i: int)
    ensures
        precedence::stands_for(s, i, name) || precedence::unnamed(s, name),
    decreases s.len(),
{
    if s.len() == 0 {
        0
    } else if s.last().0 == name {
        s.len() - 1
    } else {
        let d = s.drop_last();
        let i = lemma_standing(d, name);
        assert(s[s.len() - 1] == s.last());
        if precedence::stands_for(d, i, name) {
            assert forall|j: int| i < j < s.len() implies (#[trigger] s[j]).0 != name by {
                if j < d.len() {
                    assert(d[j].0 != name);
                }
            }
        } else {
            assert forall|j: int| 0 <= j < s.len() implies (#[trigger] s[j]).0 != name by {
                if j < d.len() {
                    assert(d[j].0 != name);
                }
            }
        }
        i
    }
}

proof fn lemma_admissible(
    connections: Seq<(Seq<char>, Connection<Seq<char>>)>,
    rights: Option<Set<Seq<char>>>,
    eligible: Option<Seq<Seq<char>>>,
    name: Seq<char>,
)
    ensures
        model::passes(connections, rights, eligible, name) == admissible(
            connections,
            rights,
            eligible,
            name,
        ),
{
    let i = lemma_standing(connections, name);
    precedence::law_lookup_finds_the_entry(connections, i, name);
    if admissible(connections, rights, eligible, name) {
        let k = choose|k: int|
            #[trigger] precedence::stands_for(connections, k, name) && connections[k].1.kind
                == ConnKind::Local;
        precedence::law_lookup_finds_the_entry(connections, k, name);
    }
    if model::passes(connections, rights, eligible, name) {
        assert(precedence::stands_for(connections, i, name));
    }
}

proof fn lemma_first(
    purpose: Seq<char>,
    candidates: Seq<Seq<char>>,
    connections: Seq<(Seq<char>, Connection<Seq<char>>)>,
    rights: Option<Set<Seq<char>>>,
    eligible: Option<Seq<Seq<char>>>,
)
    ensures
        first_admissible(
            match model::first_passing(candidates, connections, rights, eligible) {
                Some(c) => Ok(Choice { connection: c, model_id: None }),
                None => Err(ModelError::NoEligibleCandidate { purpose }),
            },
            purpose,
            candidates,
            connections,
            rights,
            eligible,
        ),
    decreases candidates.len(),
{
    if candidates.len() > 0 {
        lemma_admissible(connections, rights, eligible, candidates[0]);
        if model::passes(connections, rights, eligible, candidates[0]) {
            assert(candidates[0] == candidates[0]);
        } else {
            let t = candidates.skip(1);
            lemma_first(purpose, t, connections, rights, eligible);
            match model::first_passing(t, connections, rights, eligible) {
                Some(c) => {
                    let i = choose|i: int|
                        0 <= i < t.len() && #[trigger] t[i] == c && admissible(
                            connections,
                            rights,
                            eligible,
                            t[i],
                        ) && forall|j: int|
                            0 <= j < i ==> !admissible(
                                connections,
                                rights,
                                eligible,
                                #[trigger] t[j],
                            );
                    assert(candidates[i + 1] == c);
                    assert forall|j: int| 0 <= j < i + 1 implies !admissible(
                        connections,
                        rights,
                        eligible,
                        #[trigger] candidates[j],
                    ) by {
                        if j > 0 {
                            assert(t[j - 1] == candidates[j]);
                        }
                    }
                },
                None => {
                    assert forall|j: int| 0 <= j < candidates.len() implies !admissible(
                        connections,
                        rights,
                        eligible,
                        #[trigger] candidates[j],
                    ) by {
                        if j > 0 {
                            assert(t[j - 1] == candidates[j]);
                        }
                    }
                },
            }
        }
    }
}

/// A purpose that declares a pool is ranked within that pool: the first
/// admissible connection of it is taken, and where there is none the request
/// fails. A pool of the assignment does not matter then.
pub proof fn law_pool_of_the_purpose_is_taken(
    purpose: Seq<char>,
    own: Option<Seq<Seq<char>>>,
    pool: Seq<Seq<char>>,
    eligible: Option<Seq<Seq<char>>>,
    connections: Seq<(Seq<char>, Connection<Seq<char>>)>,
    rights: Option<Set<Seq<char>>>,
)
    ensures
        first_admissible(
            model::ranking(
                purpose,
                config::ModelView::Auto { pool: own },
                Some(pool),
                eligible,
                connections,
                rights,
            ),
            purpose,
            pool,
            connections,
            rights,
            eligible,
        ),
{
    lemma_first(purpose, pool, connections, rights, eligible);
}

/// Where only the assignment declares a pool, that pool is taken in its order.
pub proof fn law_pool_of_the_assignment_is_taken(
    purpose: Seq<char>,
    own: Seq<Seq<char>>,
    eligible: Option<Seq<Seq<char>>>,
    connections: Seq<(Seq<char>, Connection<Seq<char>>)>,
    rights: Option<Set<Seq<char>>>,
)
    ensures
        first_admissible(
            model::ranking(
                purpose,
                config::ModelView::Auto { pool: Some(own) },
                None,
                eligible,
                connections,
                rights,
            ),
            purpose,
            own,
            connections,
            rights,
            eligible,
        ),
{
    lemma_first(purpose, own, connections, rights, eligible);
}

/// Without any pool the declared connections are taken in their order.
pub proof fn law_declared_connections_are_taken(
    purpose: Seq<char>,
    eligible: Option<Seq<Seq<char>>>,
    connections: Seq<(Seq<char>, Connection<Seq<char>>)>,
    rights: Option<Set<Seq<char>>>,
)
    ensures
        first_admissible(
            model::ranking(
                purpose,
                config::ModelView::Auto { pool: None },
                None,
                eligible,
                connections,
                rights,
            ),
            purpose,
            Seq::new(connections.len(), |i: int| connections[i].0),
            connections,
            rights,
            eligible,
        ),
{
    let all = Seq::new(connections.len(), |i: int| connections[i].0);
    assert(all =~= model::names_of(connections));
    lemma_first(purpose, all, connections, rights, eligible);
}

/// A pin is never replaced: a fixed assignment goes to its own connection with
/// its own model id, whatever pools there are, or it fails. An undeclared
/// connection and one that needs a live grant are told apart from one that the
/// account or the purpose does not allow.
pub proof fn law_pin_is_kept(
    purpose: Seq<char>,
    pin: config::FixedView,
    pool: Option<Seq<Seq<char>>>,
    eligible: Option<Seq<Seq<char>>>,
    connections: Seq<(Seq<char>, Connection<Seq<char>>)>,
    rights: Option<Set<Seq<char>>>,
    k: int,
)
    ensures
        ({
            let r = model::ranking(
                purpose,
                config::ModelView::Fixed(pin),
                pool,
                eligible,
                connections,
                rights,
            );
            &&& r is Ok <==> admissible(connections, rights, eligible, pin.connection)
            &&& r matches Ok(c) ==> c.connection == pin.connection && c.model_id == Some(
                pin.model_id,
            )
            &&& precedence::unnamed(connections, pin.connection) ==> r == Err::<
                Choice,
                ModelErrorView,
            >(ModelError::Provider(ProviderError::UnknownConnection))
            &&& precedence::stands_for(connections, k, pin.connection) && connections[k].1.kind
                != ConnKind::Local ==> r == Err::<Choice, ModelErrorView>(
                ModelError::Provider(
                    ProviderError::LiveGrantRequired { kind: connections[k].1.kind },
                ),
            )
            &&& precedence::stands_for(connections, k, pin.connection) && connections[k].1.kind
                == ConnKind::Local && r is Err ==> r == Err::<Choice, ModelErrorView>(
                ModelError::NoEligibleCandidate { purpose },
            )
        }),
{
    lemma_admissible(connections, rights, eligible, pin.connection);
    let i = lemma_standing(connections, pin.connection);
    precedence::law_lookup_finds_the_entry(connections, i, pin.connection);
    precedence::law_lookup_finds_the_entry(connections, k, pin.connection);
}

/// An assignment that still inherits names no connection, and the request
/// fails.
pub proof fn law_inherit_names_no_connection(
    purpose: Seq<char>,
    pool: Option<Seq<Seq<char>>>,
    eligible: Option<Seq<Seq<char>>>,
    connections: Seq<(Seq<char>, Connection<Seq<char>>)>,
    rights: Option<Set<Seq<char>>>,
)
    ensures
        model::ranking(
            purpose,
            config::ModelView::Inherit,
            pool,
            eligible,
            connections,
            rights,
        ) == Err::<Choice, ModelErrorView>(ModelError::NoEligibleCandidate { purpose }),
{
}

} // verus!
