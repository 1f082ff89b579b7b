//! What the values of a configuration request are read as.

use crate::config::places::{self, key_name};
use crate::config::reading;
use crate::config::schema;
use crate::config::settings::ConfigValueView;
use crate::config::wire::{self, Fields};
use crate::config::{self, EffortAssign, FallbackView, FixedView, ModelView};
use crate::json::{self, JsonView};
use vstd::prelude::*;

verus! {

/// A field holds a text.
pub open spec fn says(fields: Fields, key: Seq<char>, word: Seq<char>) -> bool {
    json::field(fields, key) == Some(JsonView::Text(word))
}

/// An array holds these names, in this order.
pub open spec fn lists(items: Seq<JsonView>, names: Seq<Seq<char>>) -> bool {
    &&& items.len() == names.len()
    &&& forall|i: int| 0 <= i < items.len() ==> (#[trigger] items[i]) == JsonView::Text(names[i])
}

proof fn lemma_words_differ()
    ensures
        "inherit"@ != "auto"@,
        "inherit"@ != "fixed"@,
        "auto"@ != "fixed"@,
        "auto"@ != "manual"@,
        "auto"@ != "off"@,
        "manual"@ != "off"@,
{
    reveal_strlit("inherit");
    reveal_strlit("auto");
    reveal_strlit("fixed");
    reveal_strlit("manual");
    reveal_strlit("off");
    assert("inherit"@.len() == 7 && "auto"@.len() == 4 && "fixed"@.len() == 5 && "manual"@.len()
        == 6 && "off"@.len() == 3);
}

proof fn lemma_listed(items: Seq<JsonView>, names: Seq<Seq<char>>)
    ensures
        wire::all_text(items) && wire::texts_in(items) == names <==> lists(items, names),
{
    let read = wire::texts_in(items);
    if wire::all_text(items) && read == names {
        assert forall|i: int| 0 <= i < items.len() implies (#[trigger] items[i]) == JsonView::Text(
            names[i],
        ) by {
            assert(items[i] is Text);
            assert(read[i] == names[i]);
        }
    }
    if lists(items, names) {
        assert(wire::all_text(items));
        assert(read =~= names);
    }
}

/// A model assignment is read exactly as its mode says it.
pub proof fn law_model_value_reads_as_sent(fields: Fields, key: Seq<char>, m: ModelView)
    ensures
        wire::model_wire(fields, key) == Ok::<ModelView, config::Rejection>(m) <==> match m {
            ModelView::Inherit => says(fields, "mode"@, "inherit"@),
            ModelView::Auto { pool: None } => says(fields, "mode"@, "auto"@) && json::field(
                fields,
                "pool"@,
            ) is None,
            ModelView::Auto { pool: Some(names) } => says(fields, "mode"@, "auto"@) && (
            json::field(fields, "pool"@) matches Some(JsonView::Array(items)) && lists(
                items,
                names,
            )),
            ModelView::Fixed(f) => says(fields, "mode"@, "fixed"@) && says(
                fields,
                "connection"@,
                f.connection,
            ) && says(fields, "model_id"@, f.model_id),
        },
{
    lemma_words_differ();
    if let Some(JsonView::Array(items)) = json::field(fields, "pool"@) {
        if let ModelView::Auto { pool: Some(names) } = m {
            lemma_listed(items, names);
        }
    }
}

/// An effort assignment is read exactly as its mode says it.
pub proof fn law_effort_value_reads_as_sent(fields: Fields, key: Seq<char>, a: EffortAssign)
    ensures
        wire::effort_wire(fields, key) == Ok::<EffortAssign, config::Rejection>(a) <==> match a {
            EffortAssign::Inherit => says(fields, "mode"@, "inherit"@),
            EffortAssign::Auto => says(fields, "mode"@, "auto"@),
            EffortAssign::Fixed { value } => says(fields, "mode"@, "fixed"@) && says(
                fields,
                "value"@,
                reading::level_word(value),
            ),
        },
{
    lemma_words_differ();
    reveal_strlit("minimal");
    reveal_strlit("low");
    reveal_strlit("medium");
    reveal_strlit("high");
    reveal_strlit("xhigh");
    assert("minimal"@.len() == 7 && "low"@.len() == 3 && "medium"@.len() == 6 && "high"@.len() == 4
        && "xhigh"@.len() == 5);
}

/// One entry of a chain is read exactly where it names a connection and a
/// model, says no other mode, and holds nothing else.
pub proof fn law_chain_value_reads_as_sent(item: JsonView, key: Seq<char>, m: FixedView)
    ensures
        wire::chain_entry_wire(item, key) == Ok::<FixedView, config::Rejection>(m) <==> (
        item matches JsonView::Object(e) && says(e, "connection"@, m.connection) && says(
            e,
            "model_id"@,
            m.model_id,
        ) && (json::field(e, "mode"@) is None || says(e, "mode"@, "fixed"@)) && forall|i: int|
            0 <= i < e.len() ==> (#[trigger] e[i]).0 == "mode"@ || e[i].0 == "connection"@ || e[i].0
                == "model_id"@),
{
    if let JsonView::Object(e) = item {
        let check = wire::chain_field_check(key);
        schema::lemma_nothing_found(e, check);
        assert(schema::first_found(e, check) is None <==> forall|i: int|
            0 <= i < e.len() ==> (#[trigger] e[i]).0 == "mode"@ || e[i].0 == "connection"@ || e[i].0
                == "model_id"@) by {
            if schema::first_found(e, check) is None {
                assert forall|i: int| 0 <= i < e.len() implies (#[trigger] e[i]).0 == "mode"@
                    || e[i].0 == "connection"@ || e[i].0 == "model_id"@ by {
                    assert(check(e[i]) is None);
                }
            } else if forall|i: int|
                0 <= i < e.len() ==> (#[trigger] e[i]).0 == "mode"@ || e[i].0 == "connection"@
                    || e[i].0 == "model_id"@ {
                assert forall|i: int| 0 <= i < e.len() implies check(#[trigger] e[i]) is None by {}
            }
        }
    }
}

/// A chain is read entry by entry, in its order.
pub proof fn law_chain_values_keep_their_order(
    items: Seq<JsonView>,
    key: Seq<char>,
    chain: Seq<FixedView>,
)
    ensures
        wire::chain_wire(items, key) == Ok::<Seq<FixedView>, config::Rejection>(chain) ==> (
        items.len() == chain.len() && forall|i: int|
            0 <= i < items.len() ==> wire::chain_entry_wire(#[trigger] items[i], key) == Ok::<
                FixedView,
                config::Rejection,
            >(chain[i])),
        items.len() == chain.len() && (forall|i: int|
            0 <= i < items.len() ==> wire::chain_entry_wire(#[trigger] items[i], key) == Ok::<
                FixedView,
                config::Rejection,
            >(chain[i])) ==> wire::chain_wire(items, key) == Ok::<
            Seq<FixedView>,
            config::Rejection,
        >(chain),
    decreases items.len(),
{
    if items.len() == 0 {
        assert(chain.len() == 0 ==> chain =~= Seq::<FixedView>::empty());
    } else {
        let d = items.drop_last();
        if wire::chain_wire(items, key) == Ok::<Seq<FixedView>, config::Rejection>(chain) {
            let b = wire::chain_wire(d, key)->Ok_0;
            law_chain_values_keep_their_order(d, key, b);
            assert(chain == b.push(chain.last()));
            assert forall|i: int| 0 <= i < items.len() implies wire::chain_entry_wire(
                #[trigger] items[i],
                key,
            ) == Ok::<FixedView, config::Rejection>(chain[i]) by {
                if i < d.len() {
                    assert(d[i] == items[i]);
                    assert(b[i] == chain[i]);
                }
            }
        }
        if items.len() == chain.len() && forall|i: int|
            0 <= i < items.len() ==> wire::chain_entry_wire(#[trigger] items[i], key) == Ok::<
                FixedView,
                config::Rejection,
            >(chain[i]) {
            let b = chain.drop_last();
            assert forall|i: int| 0 <= i < d.len() implies wire::chain_entry_wire(
                #[trigger] d[i],
                key,
            ) == Ok::<FixedView, config::Rejection>(b[i]) by {
                assert(d[i] == items[i]);
            }
            law_chain_values_keep_their_order(d, key, b);
            assert(wire::chain_entry_wire(items[items.len() - 1], key) == Ok::<
                FixedView,
                config::Rejection,
            >(chain[items.len() - 1]));
            assert(b.push(chain.last()) =~= chain);
        }
    }
}

/// A fallback is read exactly as its mode says it.
pub proof fn law_fallback_value_reads_as_sent(fields: Fields, key: Seq<char>, f: FallbackView)
    ensures
        wire::fallback_wire(fields, key) == Ok::<FallbackView, config::Rejection>(f) <==> match f {
            FallbackView::Manual => says(fields, "mode"@, "manual"@),
            FallbackView::Off => says(fields, "mode"@, "off"@),
            FallbackView::Auto { chain } => says(fields, "mode"@, "auto"@) && match json::field(
                fields,
                "chain"@,
            ) {
                None => chain.len() == 0,
                Some(JsonView::Array(items)) => items.len() == chain.len() && forall|i: int|
                    0 <= i < items.len() ==> wire::chain_entry_wire(#[trigger] items[i], key)
                        == Ok::<FixedView, config::Rejection>(chain[i]),
                Some(_) => false,
            },
        },
{
    lemma_words_differ();
    if let FallbackView::Auto { chain } = f {
        assert(chain.len() == 0 ==> chain =~= Seq::<FixedView>::empty());
        if let Some(JsonView::Array(items)) = json::field(fields, "chain"@) {
            law_chain_values_keep_their_order(items, key, chain);
        }
    }
}

/// Each setting reads its own sort of value and no other: the switch a flag, a
/// model, an effort and a fallback an object, the eligible names an array.
pub proof fn law_setting_reads_its_own_sort(name: Seq<char>, value: JsonView)
    requires
        key_name(name),
    ensures
        ({
            let switch = wire::value_wire(places::key2("workflow"@, "enabled"@), value);
            let key = places::key4("models"@, "purposes"@, name, "model"@);
            let model = wire::value_wire(key, value);
            let eligible = wire::value_wire(
                places::key4("models"@, "purposes"@, name, "eligible"@),
                value,
            );
            &&& value matches JsonView::Bool(b) ==> switch == Ok::<
                ConfigValueView,
                config::Rejection,
            >(ConfigValueView::Bool(b))
            &&& !(value is Bool) ==> (switch matches Err(r) && r.issue is ValueTypeMismatch)
            &&& value matches JsonView::Object(fields) ==> match wire::model_wire(fields, key) {
                Ok(m) => model == Ok::<ConfigValueView, config::Rejection>(
                    ConfigValueView::Model(m),
                ),
                Err(e) => model == Err::<ConfigValueView, config::Rejection>(e),
            }
            &&& !(value is Object) ==> (model matches Err(r) && r.issue is ValueTypeMismatch)
            &&& value matches JsonView::Array(items) ==> (forall|names: Seq<Seq<char>>| #[trigger]
                lists(items, names) ==> eligible == Ok::<ConfigValueView, config::Rejection>(
                    ConfigValueView::Names(names),
                ))
            &&& !(value is Array) ==> (eligible matches Err(r) && r.issue is ValueTypeMismatch)
        }),
{
    places::law_keys_name_their_targets(name);
    if let JsonView::Array(items) = value {
        let eligible = wire::value_wire(
            places::key4("models"@, "purposes"@, name, "eligible"@),
            value,
        );
        assert forall|names: Seq<Seq<char>>| #[trigger] lists(items, names) implies eligible == Ok::<
            ConfigValueView,
            config::Rejection,
        >(ConfigValueView::Names(names)) by {
            lemma_listed(items, names);
        }
    }
}

/// An effort and a fallback are read for the setting they are sent to, with
/// the key of that setting in every refusal of theirs.
pub proof fn law_efforts_and_fallbacks_go_to_their_settings(
    name: Seq<char>,
    fields: Fields,
)
    requires
        key_name(name),
    ensures
        ({
            let key = places::key4("models"@, "purposes"@, name, "effort"@);
            wire::value_wire(key, JsonView::Object(fields)) == match wire::effort_wire(fields, key) {
                Ok(a) => Ok(ConfigValueView::Effort(a)),
                Err(e) => Err(e),
            }
        }),
        ({
            let key = places::key4("models"@, "purposes"@, name, "fallback"@);
            wire::value_wire(key, JsonView::Object(fields)) == match wire::fallback_wire(
                fields,
                key,
            ) {
                Ok(a) => Ok(ConfigValueView::Fallback(a)),
                Err(e) => Err(e),
            }
        }),
        ({
            let key = places::key3("models"@, "defaults"@, "effort"@);
            wire::value_wire(key, JsonView::Object(fields)) == match wire::effort_wire(fields, key) {
                Ok(a) => Ok(ConfigValueView::Effort(a)),
                Err(e) => Err(e),
            }
        }),
        ({
            let key = places::key3("models"@, "defaults"@, "fallback"@);
            wire::value_wire(key, JsonView::Object(fields)) == match wire::fallback_wire(
                fields,
                key,
            ) {
                Ok(a) => Ok(ConfigValueView::Fallback(a)),
                Err(e) => Err(e),
            }
        }),
        ({
            let key = places::key4("models"@, "groups"@, name, "model"@);
            wire::value_wire(key, JsonView::Object(fields)) == match wire::model_wire(fields, key) {
                Ok(a) => Ok(ConfigValueView::Model(a)),
                Err(e) => Err(e),
            }
        }),
        ({
            let key = places::key3("models"@, "defaults"@, "model"@);
            wire::value_wire(key, JsonView::Object(fields)) == match wire::model_wire(fields, key) {
                Ok(a) => Ok(ConfigValueView::Model(a)),
                Err(e) => Err(e),
            }
        }),
{
    places::law_keys_name_their_targets(name);
}

} // verus!
