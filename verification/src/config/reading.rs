//! What the reading of a configuration document promises, entry by entry.

use crate::config::document::{self, Entries, TomlView};
use crate::config::schema;
use crate::config::{
    self, ConfigIssue, ConnKind, Connection, EffortAssign, EffortLevel, FallbackView, FixedView,
    ModelView, PurposeView,
};
use crate::names;
use vstd::prelude::*;

verus! {

/// The word of a connection kind.
pub open spec fn kind_word(kind: ConnKind) -> Seq<char> {
    match kind {
        ConnKind::ApiKey => "api_key"@,
        ConnKind::Local => "local"@,
        ConnKind::Subscription => "subscription"@,
    }
}

/// The word of an effort level.
pub open spec fn level_word(level: EffortLevel) -> Seq<char> {
    match level {
        EffortLevel::Minimal => "minimal"@,
        EffortLevel::Low => "low"@,
        EffortLevel::Medium => "medium"@,
        EffortLevel::High => "high"@,
        EffortLevel::Xhigh => "xhigh"@,
    }
}

/// A key holds a text.
pub open spec fn says(e: Entries, key: Seq<char>, word: Seq<char>) -> bool {
    document::entry(e, key) == Some(TomlView::Text(word))
}

proof fn lemma_words_differ()
    ensures
        "api_key"@ != "local"@,
        "api_key"@ != "subscription"@,
        "local"@ != "subscription"@,
        "inherit"@ != "auto"@,
        "inherit"@ != "fixed"@,
        "auto"@ != "fixed"@,
        "auto"@ != "manual"@,
        "auto"@ != "off"@,
        "manual"@ != "off"@,
{
    reveal_strlit("api_key");
    reveal_strlit("local");
    reveal_strlit("subscription");
    reveal_strlit("inherit");
    reveal_strlit("auto");
    reveal_strlit("fixed");
    reveal_strlit("manual");
    reveal_strlit("off");
    assert("api_key"@.len() == 7 && "local"@.len() == 5 && "subscription"@.len() == 12);
    assert("inherit"@.len() == 7 && "auto"@.len() == 4 && "fixed"@.len() == 5 && "manual"@.len()
        == 6 && "off"@.len() == 3);
}

/// A connection is read exactly where its table says its kind, its endpoint
/// and, if at all, its credential reference as texts, and holds nothing else;
/// what it says is what is read.
pub proof fn law_connection_reads_as_written(
    name: Seq<char>,
    item: TomlView,
    c: Connection<Seq<char>>,
)
    ensures
        schema::connection_reading(name, item) == Ok::<Connection<Seq<char>>, config::Rejection>(c)
            <==> {
            let e = document::entries_of(item);
            &&& item is Table || item is Inline
            &&& says(e, "kind"@, kind_word(c.kind))
            &&& says(e, "endpoint"@, c.endpoint)
            &&& match c.credential_ref {
                Some(r) => says(e, "credential_ref"@, r),
                None => document::entry(e, "credential_ref"@) is None,
            }
            &&& forall|i: int|
                0 <= i < e.len() ==> (#[trigger] e[i]).0 == "kind"@ || e[i].0 == "endpoint"@
                    || e[i].0 == "credential_ref"@
        },
{
    lemma_words_differ();
    let e = document::entries_of(item);
    let key = "connections."@ + name;
    let check = schema::connection_field_check(key);
    schema::lemma_nothing_found(e, check);
    assert(schema::first_found(e, check) is None <==> forall|i: int|
        0 <= i < e.len() ==> (#[trigger] e[i]).0 == "kind"@ || e[i].0 == "endpoint"@ || e[i].0
            == "credential_ref"@) by {
        if schema::first_found(e, check) is None {
            assert forall|i: int| 0 <= i < e.len() implies (#[trigger] e[i]).0 == "kind"@
                || e[i].0 == "endpoint"@ || e[i].0 == "credential_ref"@ by {
                assert(check(e[i]) is None);
            }
        } else if forall|i: int|
            0 <= i < e.len() ==> (#[trigger] e[i]).0 == "kind"@ || e[i].0 == "endpoint"@ || e[i].0
                == "credential_ref"@ {
            assert forall|i: int| 0 <= i < e.len() implies check(#[trigger] e[i]) is None by {}
        }
    }
}

/// A secret that stands in a connection itself is refused by that name, as
/// long as nothing before it is wrong.
pub proof fn law_inline_secret_is_refused(name: Seq<char>, e: Entries, i: int, c: Connection<Seq<char>>)
    requires
        says(e, "kind"@, kind_word(c.kind)),
        says(e, "endpoint"@, c.endpoint),
        document::entry(e, "credential_ref"@) is None,
        0 <= i < e.len(),
        e[i].0 == "api_key"@ || e[i].0 == "secret"@ || e[i].0 == "token"@ || e[i].0 == "password"@,
        forall|k: int|
            0 <= k < i ==> (#[trigger] e[k]).0 == "kind"@ || e[k].0 == "endpoint"@ || e[k].0
                == "credential_ref"@,
    ensures
        schema::connection_reading(name, TomlView::Table(e)) matches Err(r) && r.issue
            is InlineCredential && r.key == Some("connections."@ + name + "."@ + e[i].0),
{
    lemma_words_differ();
    reveal_strlit("api_key");
    reveal_strlit("secret");
    reveal_strlit("token");
    reveal_strlit("password");
    reveal_strlit("kind");
    reveal_strlit("endpoint");
    reveal_strlit("credential_ref");
    assert("kind"@.len() == 4 && "endpoint"@.len() == 8 && "credential_ref"@.len() == 14);
    assert("api_key"@.len() == 7 && "secret"@.len() == 6 && "token"@.len() == 5
        && "password"@.len() == 8);
    assert("endpoint"@[0] == 'e' && "password"@[0] == 'p');
    let key = "connections."@ + name;
    let check = schema::connection_field_check(key);
    let head = e.take(i);
    schema::lemma_nothing_found(head, check);
    assert forall|k: int| 0 <= k < head.len() implies check(#[trigger] head[k]) is None by {
        assert(head[k] == e[k]);
    }
    schema::lemma_found_step(e, i, check);
    schema::lemma_first_found(e, i + 1, check);
}

/// A list of names is read in its order, and only where every entry is a
/// text.
pub proof fn law_names_are_read_in_order(
    item: TomlView,
    key: Seq<char>,
    shape: ConfigIssue<Seq<char>>,
    word: ConfigIssue<Seq<char>>,
    names: Seq<Seq<char>>,
)
    ensures
        schema::names_reading(item, key, shape, word) == Ok::<Seq<Seq<char>>, config::Rejection>(
            names,
        ) <==> (item matches TomlView::List(items) && items.len() == names.len() && forall|i: int|
            0 <= i < items.len() ==> (#[trigger] items[i]) == TomlView::Text(names[i])),
        !(item is List) ==> (schema::names_reading(item, key, shape, word) matches Err(r)
            && r.issue == shape && r.key == Some(key)),
        (item matches TomlView::List(items) && exists|i: int|
            0 <= i < items.len() && !((#[trigger] items[i]) is Text)) ==> (schema::names_reading(
            item,
            key,
            shape,
            word,
        ) matches Err(r) && r.issue == word && r.key == Some(key)),
{
    if let TomlView::List(items) = item {
        let read = schema::texts_in(items);
        if schema::all_text(items) && read == names {
            assert forall|i: int| 0 <= i < items.len() implies (#[trigger] items[i])
                == TomlView::Text(names[i]) by {
                assert(items[i] is Text);
                assert(read[i] == names[i]);
            }
        }
        if items.len() == names.len() && forall|i: int|
            0 <= i < items.len() ==> (#[trigger] items[i]) == TomlView::Text(names[i]) {
            assert(schema::all_text(items));
            assert(read =~= names);
        }
    }
}

/// A model assignment is read exactly as its mode says it.
pub proof fn law_model_reads_as_written(item: TomlView, key: Seq<char>, m: ModelView)
    requires
        item is Table || item is Inline,
    ensures
        schema::model_reading(item, key) == Ok::<ModelView, config::Rejection>(m) <==> {
            let e = document::entries_of(item);
            match m {
                ModelView::Inherit => says(e, "mode"@, "inherit"@),
                ModelView::Auto { pool: None } => says(e, "mode"@, "auto"@) && document::entry(
                    e,
                    "pool"@,
                ) is None,
                ModelView::Auto { pool: Some(names) } => says(e, "mode"@, "auto"@) && (
                document::entry(e, "pool"@) matches Some(TomlView::List(items)) && items.len()
                    == names.len() && forall|i: int|
                    0 <= i < items.len() ==> (#[trigger] items[i]) == TomlView::Text(names[i])),
                ModelView::Fixed(f) => says(e, "mode"@, "fixed"@) && says(
                    e,
                    "connection"@,
                    f.connection,
                ) && says(e, "model_id"@, f.model_id),
            }
        },
{
    lemma_words_differ();
    let e = document::entries_of(item);
    if let Some(v) = document::entry(e, "pool"@) {
        if let ModelView::Auto { pool: Some(names) } = m {
            law_names_are_read_in_order(
                v,
                schema::dotted(key, "pool"@),
                schema::pool_not_array(),
                schema::pool_entry_not_string(),
                names,
            );
        }
    }
}

/// An effort assignment is read exactly as its mode says it, and a fixed one
/// only at one of the five levels.
pub proof fn law_effort_reads_as_written(item: TomlView, key: Seq<char>, a: EffortAssign)
    requires
        item is Table || item is Inline,
    ensures
        schema::effort_reading(item, key) == Ok::<EffortAssign, config::Rejection>(a) <==> {
            let e = document::entries_of(item);
            match a {
                EffortAssign::Inherit => says(e, "mode"@, "inherit"@),
                EffortAssign::Auto => says(e, "mode"@, "auto"@),
                EffortAssign::Fixed { value } => says(e, "mode"@, "fixed"@) && says(
                    e,
                    "value"@,
                    level_word(value),
                ),
            }
        },
{
    lemma_words_differ();
    reveal_strlit("minimal");
    reveal_strlit("low");
    reveal_strlit("medium");
    reveal_strlit("high");
    reveal_strlit("xhigh");
    assert("minimal"@.len() == 7 && "low"@.len() == 3 && "medium"@.len() == 6 && "high"@.len() == 4
        && "xhigh"@.len() == 5);
}

/// One entry of a chain is read exactly where it names a connection and a
/// model, says no other mode, and holds nothing else.
pub proof fn law_chain_entry_reads_as_written(item: TomlView, key: Seq<char>, m: FixedView)
    ensures
        schema::chain_entry_reading(item, key) == Ok::<FixedView, config::Rejection>(m) <==> (
        item matches TomlView::Inline(e) && says(e, "connection"@, m.connection) && says(
            e,
            "model_id"@,
            m.model_id,
        ) && (document::entry(e, "mode"@) is None || says(e, "mode"@, "fixed"@)) && forall|i: int|
            0 <= i < e.len() ==> (#[trigger] e[i]).0 == "mode"@ || e[i].0 == "connection"@ || e[i].0
                == "model_id"@),
{
    if let TomlView::Inline(e) = item {
        let check = schema::chain_field_check(key);
        schema::lemma_nothing_found(e, check);
        assert(schema::first_found(e, check) is None <==> forall|i: int|
            0 <= i < e.len() ==> (#[trigger] e[i]).0 == "mode"@ || e[i].0 == "connection"@ || e[i].0
                == "model_id"@) by {
            if schema::first_found(e, check) is None {
                assert forall|i: int| 0 <= i < e.len() implies (#[trigger] e[i]).0 == "mode"@
                    || e[i].0 == "connection"@ || e[i].0 == "model_id"@ by {
                    assert(check(e[i]) is None);
                }
            } else if forall|i: int|
                0 <= i < e.len() ==> (#[trigger] e[i]).0 == "mode"@ || e[i].0 == "connection"@
                    || e[i].0 == "model_id"@ {
                assert forall|i: int| 0 <= i < e.len() implies check(#[trigger] e[i]) is None by {}
            }
        }
    }
}

/// A chain is read entry by entry, in its order; one entry that does not read
/// refuses it.
pub proof fn law_chain_is_read_in_order(items: Seq<TomlView>, key: Seq<char>, chain: Seq<FixedView>)
    ensures
        schema::chain_reading(items, key) == Ok::<Seq<FixedView>, config::Rejection>(chain) <==> (
        items.len() == chain.len() && forall|i: int|
            0 <= i < items.len() ==> schema::chain_entry_reading(#[trigger] items[i], key) == Ok::<
                FixedView,
                config::Rejection,
            >(chain[i])),
    decreases items.len(),
{
    let step = schema::chain_step(key);
    let start = Seq::<FixedView>::empty();
    if items.len() == 0 {
        assert(chain.len() == 0 ==> chain =~= start);
    } else {
        let d = items.drop_last();
        let all = schema::chain_reading(items, key);
        let before = schema::chain_reading(d, key);
        if all == Ok::<Seq<FixedView>, config::Rejection>(chain) {
            let b = before->Ok_0;
            law_chain_is_read_in_order(d, key, b);
            assert(chain == b.push(chain.last()));
            assert forall|i: int| 0 <= i < items.len() implies schema::chain_entry_reading(
                #[trigger] items[i],
                key,
            ) == Ok::<FixedView, config::Rejection>(chain[i]) by {
                if i < d.len() {
                    assert(d[i] == items[i]);
                    assert(b[i] == chain[i]);
                }
            }
        }
        if items.len() == chain.len() && forall|i: int|
            0 <= i < items.len() ==> schema::chain_entry_reading(#[trigger] items[i], key) == Ok::<
                FixedView,
                config::Rejection,
            >(chain[i]) {
            let b = chain.drop_last();
            assert forall|i: int| 0 <= i < d.len() implies schema::chain_entry_reading(
                #[trigger] d[i],
                key,
            ) == Ok::<FixedView, config::Rejection>(b[i]) by {
                assert(d[i] == items[i]);
            }
            law_chain_is_read_in_order(d, key, b);
            assert(schema::chain_entry_reading(items[items.len() - 1], key) == Ok::<
                FixedView,
                config::Rejection,
            >(chain[items.len() - 1]));
            assert(b.push(chain.last()) =~= chain);
        }
    }
}

/// A fallback is read exactly as its mode says it.
pub proof fn law_fallback_reads_as_written(item: TomlView, key: Seq<char>, f: FallbackView)
    requires
        item is Table || item is Inline,
    ensures
        schema::fallback_reading(item, key) == Ok::<FallbackView, config::Rejection>(f) <==> {
            let e = document::entries_of(item);
            match f {
                FallbackView::Manual => says(e, "mode"@, "manual"@),
                FallbackView::Off => says(e, "mode"@, "off"@),
                FallbackView::Auto { chain } => says(e, "mode"@, "auto"@) && match document::entry(
                    e,
                    "chain"@,
                ) {
                    None => chain.len() == 0,
                    Some(TomlView::List(items)) => items.len() == chain.len() && forall|i: int|
                        0 <= i < items.len() ==> schema::chain_entry_reading(
                            #[trigger] items[i],
                            key,
                        ) == Ok::<FixedView, config::Rejection>(chain[i]),
                    Some(_) => false,
                },
            }
        },
{
    lemma_words_differ();
    let e = document::entries_of(item);
    if let FallbackView::Auto { chain } = f {
        assert(chain.len() == 0 ==> chain =~= Seq::<FixedView>::empty());
        if let Some(TomlView::List(items)) = document::entry(e, "chain"@) {
            law_chain_is_read_in_order(items, key, chain);
        }
    }
}

/// The models are nothing but what the three readings say of them: no
/// assignment is read from anything but a table.
pub proof fn law_assignments_are_tables(item: TomlView, key: Seq<char>)
    requires
        !(item is Table || item is Inline),
    ensures
        schema::model_reading(item, key) matches Err(r) && r.issue is ExpectedTable,
        schema::effort_reading(item, key) matches Err(r) && r.issue is ExpectedTable,
        schema::fallback_reading(item, key) matches Err(r) && r.issue is ExpectedTable,
        schema::connection_reading(key, item) matches Err(r) && r.issue is ExpectedTable,
        schema::group_reading(key, item) matches Err(r) && r.issue is ExpectedTable,
        schema::purpose_reading(key, item) matches Err(r) && r.issue is ExpectedTable,
        schema::defaults_reading(item) matches Err(r) && r.issue is ExpectedTable,
{
}

/// Each setting of a purpose comes from the key of its own name, and a key that
/// is not there leaves its setting open.
pub open spec fn purpose_holds(e: Entries, key: Seq<char>, p: PurposeView) -> bool {
    &&& match document::entry(e, "group"@) {
        None => p.group is None,
        Some(v) => p.group matches Some(g) && v == TomlView::Text(g),
    }
    &&& match document::entry(e, "model"@) {
        None => p.model is None,
        Some(v) => p.model matches Some(m) && schema::model_reading(
            v,
            schema::dotted(key, "model"@),
        ) == Ok::<ModelView, config::Rejection>(m),
    }
    &&& match document::entry(e, "effort"@) {
        None => p.effort is None,
        Some(v) => p.effort matches Some(m) && schema::effort_reading(
            v,
            schema::dotted(key, "effort"@),
        ) == Ok::<EffortAssign, config::Rejection>(m),
    }
    &&& match document::entry(e, "fallback"@) {
        None => p.fallback is None,
        Some(v) => p.fallback matches Some(m) && schema::fallback_reading(
            v,
            schema::dotted(key, "fallback"@),
        ) == Ok::<FallbackView, config::Rejection>(m),
    }
    &&& match document::entry(e, "pool"@) {
        None => p.pool is None,
        Some(v) => p.pool matches Some(names) && (v matches TomlView::List(items) && items.len()
            == names.len() && forall|i: int|
            0 <= i < items.len() ==> (#[trigger] items[i]) == TomlView::Text(names[i])),
    }
    &&& match document::entry(e, "eligible"@) {
        None => p.eligible is None,
        Some(v) => p.eligible matches Some(names) && (v matches TomlView::List(items)
            && items.len() == names.len() && forall|i: int|
            0 <= i < items.len() ==> (#[trigger] items[i]) == TomlView::Text(names[i])),
    }
}

proof fn lemma_slots_differ()
    ensures
        "group"@ != "model"@ && "group"@ != "effort"@ && "group"@ != "fallback"@ && "group"@
            != "pool"@ && "group"@ != "eligible"@,
        "model"@ != "effort"@ && "model"@ != "fallback"@ && "model"@ != "pool"@ && "model"@
            != "eligible"@,
        "effort"@ != "fallback"@ && "effort"@ != "pool"@ && "effort"@ != "eligible"@,
        "fallback"@ != "pool"@ && "fallback"@ != "eligible"@,
        "pool"@ != "eligible"@,
{
    reveal_strlit("group");
    reveal_strlit("model");
    reveal_strlit("effort");
    reveal_strlit("fallback");
    reveal_strlit("pool");
    reveal_strlit("eligible");
    assert("group"@.len() == 5 && "model"@.len() == 5 && "effort"@.len() == 6 && "fallback"@.len()
        == 8 && "pool"@.len() == 4 && "eligible"@.len() == 8);
    assert("group"@[0] == 'g' && "model"@[0] == 'm' && "fallback"@[0] == 'f' && "eligible"@[0]
        == 'e');
}

proof fn lemma_purpose_walk(e: Entries, key: Seq<char>)
    requires
        schema::walk(e, config::empty_purpose(), schema::purpose_step(key)) is Ok,
    ensures
        purpose_holds(
            e,
            key,
            schema::walk(e, config::empty_purpose(), schema::purpose_step(key))->Ok_0,
        ),
        forall|i: int|
            0 <= i < e.len() ==> (#[trigger] e[i]).0 == "group"@ || e[i].0 == "model"@ || e[i].0
                == "effort"@ || e[i].0 == "fallback"@ || e[i].0 == "pool"@ || e[i].0
                == "eligible"@,
    decreases e.len(),
{
    lemma_slots_differ();
    if e.len() > 0 {
        let d = e.drop_last();
        lemma_purpose_walk(d, key);
        let (field, value) = e.last();
        let p = schema::walk(e, config::empty_purpose(), schema::purpose_step(key))->Ok_0;
        if field == "pool"@ {
            law_names_are_read_in_order(
                value,
                schema::dotted(key, "pool"@),
                schema::pool_not_array(),
                schema::pool_entry_not_string(),
                p.pool->0,
            );
        } else if field == "eligible"@ {
            law_names_are_read_in_order(
                value,
                schema::dotted(key, "eligible"@),
                schema::eligible_not_array(),
                schema::eligible_entry_not_string(),
                p.eligible->0,
            );
        }
        assert forall|i: int| 0 <= i < e.len() implies (#[trigger] e[i]).0 == "group"@ || e[i].0
            == "model"@ || e[i].0 == "effort"@ || e[i].0 == "fallback"@ || e[i].0 == "pool"@
            || e[i].0 == "eligible"@ by {
            if i < d.len() {
                assert(d[i] == e[i]);
            }
        }
    }
}

/// A purpose that reads holds what its keys say, each setting from the key of
/// its own name, and has no other key.
pub proof fn law_purpose_reads_as_written(name: Seq<char>, item: TomlView)
    requires
        schema::purpose_reading(name, item) is Ok,
    ensures
        purpose_holds(
            document::entries_of(item),
            "models.purposes."@ + name,
            schema::purpose_reading(name, item)->Ok_0,
        ),
        forall|i: int|
            0 <= i < document::entries_of(item).len() ==> {
                let key = (#[trigger] document::entries_of(item)[i]).0;
                key == "group"@ || key == "model"@ || key == "effort"@ || key == "fallback"@ || key
                    == "pool"@ || key == "eligible"@
            },
{
    lemma_purpose_walk(document::entries_of(item), "models.purposes."@ + name);
}

/// The defaults are read from all three keys, each from the one of its name;
/// a group from its model. Nothing else stands there.
pub proof fn law_defaults_and_groups_read_as_written(name: Seq<char>, item: TomlView)
    requires
        item is Table || item is Inline,
    ensures
        ({
            let e = document::entries_of(item);
            &&& schema::defaults_reading(item) matches Ok(d) ==> {
                &&& document::entry(e, "model"@) matches Some(v) && schema::model_reading(
                    v,
                    "models.defaults.model"@,
                ) == Ok::<ModelView, config::Rejection>(d.model)
                &&& document::entry(e, "effort"@) matches Some(v) && schema::effort_reading(
                    v,
                    "models.defaults.effort"@,
                ) == Ok::<EffortAssign, config::Rejection>(d.effort)
                &&& document::entry(e, "fallback"@) matches Some(v) && schema::fallback_reading(
                    v,
                    "models.defaults.fallback"@,
                ) == Ok::<FallbackView, config::Rejection>(d.fallback)
                &&& forall|i: int|
                    0 <= i < e.len() ==> (#[trigger] e[i]).0 == "model"@ || e[i].0 == "effort"@
                        || e[i].0 == "fallback"@
            }
            &&& schema::group_reading(name, item) matches Ok(m) ==> {
                &&& document::entry(e, "model"@) matches Some(v) && schema::model_reading(
                    v,
                    "models.groups."@ + name + ".model"@,
                ) == Ok::<ModelView, config::Rejection>(m)
                &&& forall|i: int| 0 <= i < e.len() ==> (#[trigger] e[i]).0 == "model"@
            }
        }),
{
    let e = document::entries_of(item);
    let slots = schema::defaults_field_check();
    let group = schema::group_field_check(name);
    schema::lemma_nothing_found(e, slots);
    schema::lemma_nothing_found(e, group);
    if schema::defaults_reading(item) is Ok {
        assert forall|i: int| 0 <= i < e.len() implies (#[trigger] e[i]).0 == "model"@ || e[i].0
            == "effort"@ || e[i].0 == "fallback"@ by {
            assert(slots(e[i]) is None);
        }
    }
    if schema::group_reading(name, item) is Ok {
        assert forall|i: int| 0 <= i < e.len() implies (#[trigger] e[i]).0 == "model"@ by {
            assert(group(e[i]) is None);
        }
    }
}

/// No key stands twice.
pub open spec fn single_keys(e: Entries) -> bool {
    forall|i: int, j: int| 0 <= i < j < e.len() ==> (#[trigger] e[i]).0 != (#[trigger] e[j]).0
}

proof fn lemma_connections_walk(e: Entries, i: int)
    requires
        single_keys(e),
        schema::walk(
            e,
            Seq::<(Seq<char>, Connection<Seq<char>>)>::empty(),
            schema::connections_step(),
        ) is Ok,
    ensures
        ({
            let m = schema::walk(
                e,
                Seq::<(Seq<char>, Connection<Seq<char>>)>::empty(),
                schema::connections_step(),
            )->Ok_0;
            &&& names::increasing(m)
            &&& 0 <= i < e.len() ==> (schema::connection_reading(e[i].0, e[i].1) matches Ok(c)
                && names::lookup(m, e[i].0) == Some(c))
            &&& forall|k: Seq<char>| #[trigger]
                names::lookup(m, k) is Some ==> exists|j: int|
                    0 <= j < e.len() && (#[trigger] e[j]).0 == k
        }),
    decreases e.len(),
{
    if e.len() > 0 {
        let start = Seq::<(Seq<char>, Connection<Seq<char>>)>::empty();
        let d = e.drop_last();
        assert(single_keys(d)) by {
            assert forall|a: int, b: int| 0 <= a < b < d.len() implies (#[trigger] d[a]).0 != (
            #[trigger] d[b]).0 by {
                assert(e[a].0 != e[b].0);
            }
        }
        lemma_connections_walk(d, i);
        let before = schema::walk(d, start, schema::connections_step())->Ok_0;
        let m = schema::walk(e, start, schema::connections_step())->Ok_0;
        let (name, item) = e.last();
        let c = schema::connection_reading(name, item)->Ok_0;
        names::lemma_set_key_increasing(before, name, c);
        assert forall|k: Seq<char>| #[trigger] names::lookup(m, k) is Some implies exists|j: int|
            0 <= j < e.len() && (#[trigger] e[j]).0 == k by {
            names::lemma_set_key_lookup(before, name, c, k);
            if k == name {
                assert(e[e.len() - 1].0 == k);
            } else {
                let j = choose|j: int| 0 <= j < d.len() && (#[trigger] d[j]).0 == k;
                assert(e[j].0 == k);
            }
        }
        if 0 <= i < e.len() {
            names::lemma_set_key_lookup(before, name, c, e[i].0);
            if i < d.len() {
                assert(d[i] == e[i]);
                assert(e[i].0 != e[e.len() - 1].0);
            }
        }
    }
}

/// Every connection of a document is declared under its own name, as its table
/// says, and no other is.
pub proof fn law_connections_are_declared_by_name(e: Entries, i: int, k: Seq<char>)
    requires
        single_keys(e),
        schema::walk(
            e,
            Seq::<(Seq<char>, Connection<Seq<char>>)>::empty(),
            schema::connections_step(),
        ) is Ok,
    ensures
        ({
            let m = schema::walk(
                e,
                Seq::<(Seq<char>, Connection<Seq<char>>)>::empty(),
                schema::connections_step(),
            )->Ok_0;
            &&& 0 <= i < e.len() ==> (schema::connection_reading(e[i].0, e[i].1) matches Ok(c)
                && names::lookup(m, e[i].0) == Some(c))
            &&& (forall|j: int| 0 <= j < e.len() ==> (#[trigger] e[j]).0 != k) ==> names::lookup(
                m,
                k,
            ) is None
        }),
{
    lemma_connections_walk(e, i);
}

proof fn lemma_root_walk(e: Entries)
    requires
        schema::walk(e, schema::empty_draft(), schema::root_step()) is Ok,
    ensures
        forall|i: int|
            0 <= i < e.len() ==> (#[trigger] e[i]).0 == "config_version"@ || e[i].0 == "workflow"@
                || e[i].0 == "connections"@ || e[i].0 == "models"@,
        ({
            let d = schema::walk(e, schema::empty_draft(), schema::root_step())->Ok_0;
            match document::entry(e, "config_version"@) {
                None => d.version is None,
                Some(v) => v matches TomlView::Int(n) && n >= 0 && d.version == Some(n as u64),
            }
        }),
    decreases e.len(),
{
    lemma_roots_differ();
    if e.len() > 0 {
        let d = e.drop_last();
        lemma_root_walk(d);
        assert forall|i: int| 0 <= i < e.len() implies (#[trigger] e[i]).0 == "config_version"@
            || e[i].0 == "workflow"@ || e[i].0 == "connections"@ || e[i].0 == "models"@ by {
            if i < d.len() {
                assert(d[i] == e[i]);
            }
        }
    }
}

proof fn lemma_roots_differ()
    ensures
        "config_version"@ != "workflow"@ && "config_version"@ != "connections"@
            && "config_version"@ != "models"@,
        "workflow"@ != "connections"@ && "workflow"@ != "models"@ && "connections"@ != "models"@,
{
    reveal_strlit("config_version");
    reveal_strlit("workflow");
    reveal_strlit("connections");
    reveal_strlit("models");
    assert("config_version"@.len() == 14 && "workflow"@.len() == 8 && "connections"@.len() == 11
        && "models"@.len() == 6);
}

/// A document that is accepted says version one and has no root key but the
/// four known ones.
pub proof fn law_accepted_document_is_known(e: Entries)
    requires
        schema::document_reading(e) is Ok,
    ensures
        document::entry(e, "config_version"@) == Some(TomlView::Int(1)),
        forall|i: int|
            0 <= i < e.len() ==> (#[trigger] e[i]).0 == "config_version"@ || e[i].0 == "workflow"@
                || e[i].0 == "connections"@ || e[i].0 == "models"@,
{
    lemma_root_walk(e);
}

/// The switch of the workflow is the flag under its key, and nothing else may
/// stand beside it.
pub proof fn law_workflow_switch_is_its_flag(d: schema::Draft, item: TomlView, flag: bool)
    requires
        item is Table || item is Inline,
        document::entries_of(item) == seq![("enabled"@, TomlView::Flag(flag))],
    ensures
        schema::root_entry_reading(d, "workflow"@, item) matches Ok(x) && x.workflow.enabled
            == Some(flag) && x.version == d.version && x.connections == d.connections && x.models
            == d.models,
{
    lemma_roots_differ();
    let e = document::entries_of(item);
    reveal_with_fuel(schema::walk, 2);
    assert(e.drop_last() =~= Seq::<(Seq<char>, TomlView)>::empty());
    assert(e.last() == e[0]);
}

/// A draft is accepted where its version is one, every connection carries a
/// reference exactly when its kind needs one, the defaults are there, and
/// every connection and every group that is referred to is declared.
pub proof fn law_sound_draft_is_accepted(d: schema::Draft)
    requires
        d.version == Some(1u64),
        d.connections.len() > 0,
        forall|i: int|
            0 <= i < d.connections.len() ==> ((#[trigger] d.connections[i]).1.credential_ref is Some
                <==> !(d.connections[i].1.kind is Local)),
        d.models.defaults is Some,
        schema::all_declared(d.connections, schema::referenced(d.models.defaults->0.model)),
        schema::all_declared(
            d.connections,
            schema::chain_referenced(d.models.defaults->0.fallback),
        ),
        forall|i: int|
            0 <= i < d.models.groups.len() ==> schema::all_declared(
                d.connections,
                schema::referenced((#[trigger] d.models.groups[i]).1),
            ),
        forall|i: int|
            0 <= i < d.models.purposes.len() ==> {
                let p = (#[trigger] d.models.purposes[i]).1;
                &&& p.group matches Some(g) ==> names::lookup(d.models.groups, g) is Some
                &&& p.model matches Some(m) ==> schema::all_declared(
                    d.connections,
                    schema::referenced(m),
                )
                &&& p.fallback matches Some(f) ==> schema::all_declared(
                    d.connections,
                    schema::chain_referenced(f),
                )
            },
    ensures
        schema::draft_problem(d) is None,
{
    let c = d.connections;
    let defaults = d.models.defaults->0;
    schema::lemma_nothing_found(c, schema::credential_check());
    assert forall|i: int| 0 <= i < c.len() implies schema::credential_check()(
        #[trigger] c[i],
    ) is None by {}
    lemma_references(c, schema::referenced(defaults.model), "models.defaults.model"@);
    lemma_references(
        c,
        schema::chain_referenced(defaults.fallback),
        "models.defaults.fallback.chain"@,
    );
    let g = d.models.groups;
    let groups = schema::group_check(c);
    schema::lemma_nothing_found(g, groups);
    assert forall|i: int| 0 <= i < g.len() implies groups(#[trigger] g[i]) is None by {
        lemma_references(
            c,
            schema::referenced(g[i].1),
            "models.groups."@ + g[i].0 + ".model"@,
        );
    }
    let p = d.models.purposes;
    let purposes = schema::purpose_check(c, g);
    schema::lemma_nothing_found(p, purposes);
    assert forall|i: int| 0 <= i < p.len() implies purposes(#[trigger] p[i]) is None by {
        let key = "models.purposes."@ + p[i].0;
        if let Some(m) = p[i].1.model {
            lemma_references(c, schema::referenced(m), key + ".model"@);
        }
        if let Some(f) = p[i].1.fallback {
            lemma_references(c, schema::chain_referenced(f), key + ".fallback.chain"@);
        }
    }
}

proof fn lemma_references(
    connections: schema::ConnectionMap,
    list: Seq<Seq<char>>,
    key: Seq<char>,
)
    requires
        schema::all_declared(connections, list),
    ensures
        schema::first_found(list, schema::reference_check(connections, key)) is None,
{
    let check = schema::reference_check(connections, key);
    schema::lemma_nothing_found(list, check);
    assert forall|i: int| 0 <= i < list.len() implies check(#[trigger] list[i]) is None by {}
}

/// What an assignment refers to: the connection of a fixed model, the pool of
/// an automatic one, and the connections of a chain in its order.
pub proof fn law_references_are_those_named(
    fixed: FixedView,
    pool: Seq<Seq<char>>,
    chain: Seq<FixedView>,
    i: int,
)
    ensures
        schema::referenced(ModelView::Fixed(fixed)) == seq![fixed.connection],
        schema::referenced(ModelView::Auto { pool: Some(pool) }) == pool,
        schema::referenced(ModelView::Auto { pool: None }).len() == 0,
        schema::referenced(ModelView::Inherit).len() == 0,
        schema::chain_referenced(FallbackView::Auto { chain }).len() == chain.len(),
        0 <= i < chain.len() ==> schema::chain_referenced(FallbackView::Auto { chain })[i]
            == chain[i].connection,
        schema::chain_referenced(FallbackView::Manual).len() == 0,
        schema::chain_referenced(FallbackView::Off).len() == 0,
{
}

} // verus!
