//! What the configuration in force and a merge of two configurations promise.

use crate::config::effective::{self, EffectiveConfig};
use crate::config::settings;
use crate::config::{precedence, ConfigError, PurposeView, SHIPPED_DEFAULTS_TOML};
use crate::json;
use crate::names;
use vstd::prelude::*;

verus! {

/// The switch that the user's document sets is served as the user's, with the
/// digest of that document; where the document is silent, or there is none,
/// the shipped switch is served: on, as shipped.
pub proof fn law_user_switch_comes_before_the_shipped_one(
    document: Option<Seq<char>>,
    r: Result<EffectiveConfig, ConfigError>,
)
    requires
        effective::in_force(document, r),
        r is Ok,
    ensures
        ({
            let e = r->Ok_0;
            let entry = e.workflow_entry@;
            let chosen = match e.parsed {
                Some(c) => c.typed().workflow.enabled,
                None => None,
            };
            &&& document is None <==> e.parsed is None
            &&& entry.source.target is None
            &&& chosen matches Some(value) ==> entry.effective == Some(json::JsonView::Bool(value))
                && entry.source.kind == "user"@ && entry.source.revision == effective::text_digest(
                document->0,
            )
            &&& chosen is None ==> entry.effective == Some(json::JsonView::Bool(true))
                && entry.source.kind == "shipped"@ && entry.source.revision
                == effective::text_digest(SHIPPED_DEFAULTS_TOML@)
        }),
{
}

/// A name of the other side that the merge met before stays the only one: the
/// names met so far are those of both sides.
proof fn lemma_merged_names(
    own: Seq<(Seq<char>, PurposeView)>,
    other: Seq<(Seq<char>, PurposeView)>,
    n: nat,
)
    requires
        n <= other.len(),
        names::increasing(own),
        forall|i: int, j: int|
            0 <= i < j < other.len() ==> (#[trigger] other[i]).0 != (#[trigger] other[j]).0,
    ensures
        ({
            let (merged, problem) = settings::purposes_merged(own, other, n);
            &&& names::increasing(merged)
            &&& forall|k: Seq<char>| #[trigger]
                names::lookup(own, k) is Some ==> names::lookup(merged, k) == names::lookup(own, k)
            &&& problem is None <==> forall|i: int|
                0 <= i < n ==> agrees(own, (#[trigger] other[i]).0, other[i].1)
            &&& problem is None ==> forall|i: int|
                0 <= i < n ==> names::lookup(merged, (#[trigger] other[i]).0) == Some(other[i].1)
            &&& forall|k: Seq<char>| #[trigger]
                names::lookup(merged, k) is Some ==> names::lookup(own, k) is Some || exists|
                    i: int,
                |
                    0 <= i < n && (#[trigger] other[i]).0 == k
        }),
    decreases n,
{
    if n > 0 {
        let m = (n - 1) as nat;
        lemma_merged_names(own, other, m);
        let (before, problem) = settings::purposes_merged(own, other, m);
        let (merged, after) = settings::purposes_merged(own, other, n);
        let (name, def) = other[n - 1];
        assert(names::lookup(before, name) is Some ==> names::lookup(own, name) is Some);
        assert(names::lookup(own, name) is Some ==> names::lookup(before, name) == names::lookup(
            own,
            name,
        ));
        if problem is None {
            if names::lookup(before, name) is None {
                names::lemma_set_key_increasing(before, name, def);
                assert forall|k: Seq<char>| k != name implies #[trigger] names::lookup(merged, k)
                    == names::lookup(before, k) by {
                    names::lemma_set_key_lookup(before, name, def, k);
                }
                names::lemma_set_key_lookup(before, name, def, name);
            }
            assert(after is None <==> agrees(own, name, def));
        }
        assert((after is None) <==> forall|i: int|
            0 <= i < n ==> agrees(own, (#[trigger] other[i]).0, other[i].1)) by {
            if after is None {
                assert forall|i: int| 0 <= i < n implies agrees(
                    own,
                    (#[trigger] other[i]).0,
                    other[i].1,
                ) by {
                    if i < m {
                    }
                }
            } else if problem is None {
                assert(!agrees(own, other[n - 1].0, other[n - 1].1));
            }
        }
        assert forall|k: Seq<char>| #[trigger]
            names::lookup(merged, k) is Some implies names::lookup(own, k) is Some || exists|i: int|
            0 <= i < n && (#[trigger] other[i]).0 == k by {
            if k == name {
                assert(other[n - 1].0 == k);
            } else {
                assert(names::lookup(before, k) is Some);
            }
        }
    }
}

/// A definition does not contradict what is declared under a name.
pub open spec fn agrees(
    own: Seq<(Seq<char>, PurposeView)>,
    name: Seq<char>,
    def: PurposeView,
) -> bool {
    names::lookup(own, name) is None || names::lookup(own, name) == Some(def)
}

/// Merging keeps every purpose that was declared and adds the others; it fails
/// exactly where one name has two different definitions, and brings in no
/// name of its own.
pub proof fn law_merge_keeps_both_sides(
    own: Seq<(Seq<char>, PurposeView)>,
    other: Seq<(Seq<char>, PurposeView)>,
)
    requires
        names::increasing(own),
        forall|i: int, j: int|
            0 <= i < j < other.len() ==> (#[trigger] other[i]).0 != (#[trigger] other[j]).0,
    ensures
        ({
            let (merged, problem) = settings::purposes_merged(own, other, other.len());
            &&& forall|k: Seq<char>| #[trigger]
                names::lookup(own, k) is Some ==> names::lookup(merged, k) == names::lookup(own, k)
            &&& problem is None <==> forall|i: int|
                0 <= i < other.len() ==> agrees(own, (#[trigger] other[i]).0, other[i].1)
            &&& problem is None ==> forall|i: int|
                0 <= i < other.len() ==> names::lookup(merged, (#[trigger] other[i]).0) == Some(
                    other[i].1,
                )
            &&& forall|k: Seq<char>| #[trigger]
                names::lookup(merged, k) is Some ==> names::lookup(own, k) is Some || exists|
                    i: int,
                |
                    0 <= i < other.len() && (#[trigger] other[i]).0 == k
        }),
{
    lemma_merged_names(own, other, other.len());
}

/// Merging a configuration with purposes it already has changes nothing.
pub proof fn law_merge_of_the_same_is_quiet(own: Seq<(Seq<char>, PurposeView)>, n: nat)
    requires
        names::increasing(own),
        n <= own.len(),
    ensures
        settings::purposes_merged(own, own, n).0 == own,
        settings::purposes_merged(own, own, n).1 is None,
    decreases n,
{
    if n > 0 {
        law_merge_of_the_same_is_quiet(own, (n - 1) as nat);
        assert forall|i: int, j: int| 0 <= i < j < own.len() implies (#[trigger] own[i]).0 != (
        #[trigger] own[j]).0 by {
            names::lemma_less_irreflexive(own[i].0);
        }
        precedence::law_lookup_finds_the_entry(own, n - 1, own[n - 1].0);
    }
}

} // verus!
