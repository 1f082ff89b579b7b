//! What edits promise: a written value reads back, and nothing else moves.

use crate::config::document::{self, DocState, Path, TomlView};
use crate::config::edit;
use crate::config::fields;
use crate::config::schema;
use crate::config::{self, EffortAssign, FallbackView, FixedView, ModelView, Rejection};
use crate::config::settings::{self, ConfigValueView};
use toml_edit::DocumentMut;
use vstd::prelude::*;

verus! {

/// Lookup in a table of one entry.
proof fn lemma_entry1(a: Seq<char>, x: TomlView, k: Seq<char>)
    ensures
        document::entry(seq![(a, x)], k) == (if k == a {
            Some(x)
        } else {
            None
        }),
{
    reveal_with_fuel(document::entry, 2);
    assert(seq![(a, x)].drop_last() =~= Seq::empty());
}

/// Lookup in a table of two entries.
proof fn lemma_entry2(a: Seq<char>, x: TomlView, b: Seq<char>, y: TomlView, k: Seq<char>)
    ensures
        document::entry(seq![(a, x), (b, y)], k) == (if k == b {
            Some(y)
        } else if k == a {
            Some(x)
        } else {
            None
        }),
{
    lemma_entry1(a, x, k);
    assert(seq![(a, x), (b, y)].drop_last() =~= seq![(a, x)]);
}

/// Lookup in a table of three entries.
proof fn lemma_entry3(
    a: Seq<char>,
    x: TomlView,
    b: Seq<char>,
    y: TomlView,
    c: Seq<char>,
    z: TomlView,
    k: Seq<char>,
)
    ensures
        document::entry(seq![(a, x), (b, y), (c, z)], k) == (if k == c {
            Some(z)
        } else if k == b {
            Some(y)
        } else if k == a {
            Some(x)
        } else {
            None
        }),
{
    lemma_entry2(a, x, b, y, k);
    assert(seq![(a, x), (b, y), (c, z)].drop_last() =~= seq![(a, x), (b, y)]);
}

/// The words of the assignment tables differ.
proof fn lemma_words()
    ensures
        "mode"@ != "connection"@,
        "mode"@ != "model_id"@,
        "connection"@ != "model_id"@,
        "mode"@ != "pool"@,
        "mode"@ != "value"@,
        "mode"@ != "chain"@,
        "inherit"@ != "auto"@,
        "inherit"@ != "fixed"@,
        "auto"@ != "fixed"@,
        "auto"@ != "manual"@,
        "auto"@ != "off"@,
        "manual"@ != "off"@,
{
    settings::lemma_distinct_names();
    reveal_strlit("inherit");
    reveal_strlit("auto");
    reveal_strlit("fixed");
    reveal_strlit("manual");
    reveal_strlit("off");
    assert("inherit"@.len() == 7 && "auto"@.len() == 4 && "fixed"@.len() == 5 && "manual"@.len()
        == 6 && "off"@.len() == 3);
}

proof fn lemma_fixed_entry(m: FixedView, k: Seq<char>)
    ensures
        document::entry(settings::fixed_entries(m), k) == (if k
            == "model_id"@ {
            Some(TomlView::Text(m.model_id))
        } else if k == "connection"@ {
            Some(TomlView::Text(m.connection))
        } else if k == "mode"@ {
            Some(TomlView::Text("fixed"@))
        } else {
            None
        }),
{
    lemma_entry3(
        "mode"@,
        TomlView::Text("fixed"@),
        "connection"@,
        TomlView::Text(m.connection),
        "model_id"@,
        TomlView::Text(m.model_id),
        k,
    );
}

/// A written list of words reads back.
pub proof fn law_words_read_back(
    names: Seq<Seq<char>>,
    key: Seq<char>,
    not_array: config::ConfigIssue<Seq<char>>,
    bad_entry: config::ConfigIssue<Seq<char>>,
)
    ensures
        schema::names_reading(
            settings::words(names),
            key,
            not_array,
            bad_entry,
        ) == Ok::<Seq<Seq<char>>, Rejection>(names),
{
    match settings::words(names) {
        TomlView::List(items) => {
            assert(schema::all_text(items));
            assert(schema::texts_in(items) =~= names);
        },
        _ => {},
    }
}

/// A written model assignment reads back, whatever the key it is read under.
pub proof fn law_model_reads_back(m: ModelView, key: Seq<char>)
    ensures
        schema::model_reading(settings::model_written(m), key)
            == Ok::<ModelView, Rejection>(m),
{
    lemma_words();
    match m {
        ModelView::Inherit => {
            lemma_entry1("mode"@, TomlView::Text("inherit"@), "mode"@);
        },
        ModelView::Auto { pool: None } => {
            lemma_entry1("mode"@, TomlView::Text("auto"@), "mode"@);
            lemma_entry1("mode"@, TomlView::Text("auto"@), "pool"@);
        },
        ModelView::Auto { pool: Some(names) } => {
            let w = settings::words(names);
            lemma_entry2("mode"@, TomlView::Text("auto"@), "pool"@, w, "mode"@);
            lemma_entry2("mode"@, TomlView::Text("auto"@), "pool"@, w, "pool"@);
            law_words_read_back(
                names,
                schema::dotted(key, "pool"@),
                schema::pool_not_array(),
                schema::pool_entry_not_string(),
            );
        },
        ModelView::Fixed(fixed) => {
            lemma_fixed_entry(fixed, "mode"@);
            lemma_fixed_entry(fixed, "connection"@);
            lemma_fixed_entry(fixed, "model_id"@);
        },
    }
}

/// A written effort assignment reads back.
pub proof fn law_effort_reads_back(e: EffortAssign, key: Seq<char>)
    ensures
        schema::effort_reading(settings::effort_written(e), key)
            == Ok::<EffortAssign, Rejection>(e),
{
    lemma_words();
    match e {
        EffortAssign::Inherit => {
            lemma_entry1("mode"@, TomlView::Text("inherit"@), "mode"@);
        },
        EffortAssign::Auto => {
            lemma_entry1("mode"@, TomlView::Text("auto"@), "mode"@);
        },
        EffortAssign::Fixed { value } => {
            let w = TomlView::Text(config::level_name(value));
            lemma_entry2("mode"@, TomlView::Text("fixed"@), "value"@, w, "mode"@);
            lemma_entry2("mode"@, TomlView::Text("fixed"@), "value"@, w, "value"@);
            config::law_level_reads_back(value);
        },
    }
}

proof fn lemma_chain_entry_reads_back(m: FixedView, key: Seq<char>)
    ensures
        schema::chain_entry_reading(
            TomlView::Inline(settings::fixed_entries(m)),
            key,
        ) == Ok::<FixedView, Rejection>(m),
{
    lemma_words();
    let e = settings::fixed_entries(m);
    let f = schema::chain_field_check(key);
    lemma_fixed_entry(m, "mode"@);
    lemma_fixed_entry(m, "connection"@);
    lemma_fixed_entry(m, "model_id"@);
    assert forall|i: int| 0 <= i < e.len() implies f(#[trigger] e[i]) is None by {
        assert(e[i].0 == "mode"@ || e[i].0 == "connection"@ || e[i].0 == "model_id"@);
    }
    schema::lemma_nothing_found(e, f);
}

proof fn lemma_chain_reads_back(chain: Seq<FixedView>, key: Seq<char>)
    ensures
        schema::chain_reading(
            chain.map_values(
                |m: FixedView| TomlView::Inline(settings::fixed_entries(m)),
            ),
            key,
        ) == Ok::<Seq<FixedView>, Rejection>(chain),
    decreases chain.len(),
{
    let g = |m: FixedView| TomlView::Inline(settings::fixed_entries(m));
    let items = chain.map_values(g);
    if chain.len() == 0 {
        assert(chain =~= Seq::empty());
    } else {
        let d = chain.drop_last();
        lemma_chain_reads_back(d, key);
        assert(items.drop_last() =~= d.map_values(g));
        lemma_chain_entry_reads_back(chain.last(), key);
        assert(items.last() == TomlView::Inline(
            settings::fixed_entries(chain.last()),
        ));
        assert(d.push(chain.last()) =~= chain);
    }
}

/// A written fallback assignment reads back.
pub proof fn law_fallback_reads_back(f: FallbackView, key: Seq<char>)
    ensures
        schema::fallback_reading(settings::fallback_written(f), key)
            == Ok::<FallbackView, Rejection>(f),
{
    lemma_words();
    match f {
        FallbackView::Auto { chain } => {
            let w = TomlView::List(
                chain.map_values(
                    |m: FixedView| TomlView::Inline(settings::fixed_entries(m)),
                ),
            );
            lemma_entry2("mode"@, TomlView::Text("auto"@), "chain"@, w, "mode"@);
            lemma_entry2("mode"@, TomlView::Text("auto"@), "chain"@, w, "chain"@);
            lemma_chain_reads_back(chain, key);
        },
        FallbackView::Manual => {
            lemma_entry1("mode"@, TomlView::Text("manual"@), "mode"@);
        },
        FallbackView::Off => {
            lemma_entry1("mode"@, TomlView::Text("off"@), "mode"@);
        },
    }
}

/// What stands at a target reads as a typed value.
pub open spec fn reads_as(node: TomlView, v: ConfigValueView, key: Seq<char>) -> bool {
    match v {
        ConfigValueView::Bool(b) => node == TomlView::Flag(b),
        ConfigValueView::Model(m) => schema::model_reading(node, key) == Ok::<
            ModelView,
            Rejection,
        >(m),
        ConfigValueView::Effort(e) => schema::effort_reading(node, key) == Ok::<
            EffortAssign,
            Rejection,
        >(e),
        ConfigValueView::Fallback(f) => schema::fallback_reading(node, key) == Ok::<
            FallbackView,
            Rejection,
        >(f),
        ConfigValueView::Names(names) => schema::names_reading(
            node,
            key,
            schema::eligible_not_array(),
            schema::eligible_entry_not_string(),
        ) == Ok::<Seq<Seq<char>>, Rejection>(names),
    }
}

pub proof fn lemma_written_is_flat(v: ConfigValueView)
    ensures
        document::flat(settings::written(v)),
{
    let w = settings::written(v);
    let e = document::entries_of(w);
    assert forall|i: int| 0 <= i < e.len() implies !(#[trigger] e[i].1 is Inline) by {}
}

/// `q` is `p` or a path that leads to it.
pub open spec fn leads_to(q: Path, p: Path) -> bool {
    q.len() <= p.len() && p.take(q.len() as int) == q
}

proof fn lemma_tables_frame(s: DocState, path: Path, n: nat, q: Path)
    requires
        n <= path.len(),
        document::with_tables(s, path, n) is Some,
        !leads_to(q, path),
    ensures
        document::node_at(
            document::with_tables(s, path, n)->0.tree,
            q,
        ) == document::node_at(s.tree, q),
    decreases n,
{
    if n > 0 {
        let t = document::with_tables(s, path, (n - 1) as nat)->0;
        lemma_tables_frame(s, path, (n - 1) as nat, q);
        let parent = path.take(n - 1);
        let here = path.take(n as int);
        assert(here.drop_last() =~= parent);
        if document::node_at(t.tree, here) is None {
            let v = if document::inline_at(t.tree, parent) {
                TomlView::Inline(Seq::empty())
            } else {
                TomlView::Table(Seq::empty())
            };
            document::lemma_put_at(t.tree, here, v, q);
            if document::related(here, q) {
                if q.len() <= here.len() && here.take(q.len() as int) == q {
                    assert(path.take(q.len() as int) =~= q) by {
                        assert forall|j: int| 0 <= j < q.len() implies q[j] == path[j] by {
                            assert(here.take(q.len() as int)[j] == q[j]);
                        }
                    }
                    assert(false);
                } else {
                    if q.len() == here.len() {
                        assert(q.take(here.len() as int) =~= q);
                    }
                    let u = document::put_at(t.tree, here, v);
                    lemma_below_missing(t.tree, here, q);
                    lemma_below_empty(u, here, q, v);
                }
            }
        }
    }
}

/// Nothing stands below a missing node.
proof fn lemma_below_missing(t: TomlView, p: Path, q: Path)
    requires
        document::node_at(t, p) is None,
        p.len() <= q.len(),
        q.take(p.len() as int) == p,
    ensures
        document::node_at(t, q) is None,
    decreases p.len(),
{
    if p.len() > 0 {
        assert(q[0] == q.take(p.len() as int)[0]);
        match document::child(t, p[0]) {
            Some(c) => {
                assert(q.skip(1).take(p.skip(1).len() as int) =~= p.skip(1)) by {
                    assert forall|j: int| 0 <= j < p.len() - 1 implies #[trigger] q.skip(1)[j]
                        == p.skip(1)[j] by {
                        assert(q.take(p.len() as int)[j + 1] == p[j + 1]);
                    }
                }
                lemma_below_missing(c, p.skip(1), q.skip(1));
            },
            None => {},
        }
    }
}

/// Nothing stands below an empty table.
proof fn lemma_below_empty(t: TomlView, p: Path, q: Path, v: TomlView)
    requires
        document::node_at(t, p) == Some(v),
        document::entries_of(v).len() == 0,
        p.len() < q.len(),
        q.take(p.len() as int) == p,
    ensures
        document::node_at(t, q) is None,
    decreases p.len(),
{
    if p.len() == 0 {
        assert(document::child(v, q[0]) is None);
    } else {
        assert(q[0] == q.take(p.len() as int)[0]);
        let c = document::child(t, p[0])->0;
        assert(q.skip(1).take(p.skip(1).len() as int) =~= p.skip(1)) by {
            assert forall|j: int| 0 <= j < p.len() - 1 implies #[trigger] q.skip(1)[j] == p.skip(
                1,
            )[j] by {
                assert(q.take(p.len() as int)[j + 1] == p[j + 1]);
            }
        }
        lemma_below_empty(c, p.skip(1), q.skip(1), v);
    }
}

/// An accepted edit reads back as the value that was set, and no node whose
/// path is unrelated to the target moves.
pub proof fn law_set_reads_back(raw: Option<DocumentMut>, key: Seq<char>, v: ConfigValueView, q: Path)
    requires
        settings::set_outcome(raw, key, v) is Ok,
    ensures
        ({
            let target = edit::target_reading(key)->Ok_0;
            let p = edit::target_table(target).push(
                edit::target_field(target),
            );
            let after = settings::set_outcome(raw, key, v)->Ok_0.tree;
            let before = document::document_state(raw->0).tree;
            &&& document::node_at(after, p) is Some
            &&& reads_as(document::node_at(after, p)->0, v, key)
            &&& !document::related(p, q) ==> document::node_at(
                after,
                q,
            ) == document::node_at(before, q)
        }),
{
    let target = edit::target_reading(key)->Ok_0;
    let table = edit::target_table(target);
    let p = table.push(edit::target_field(target));
    let s0 = document::document_state(raw->0);
    let s = document::with_table(s0, table)->0;
    let w = settings::written(v);
    assert(p.drop_last() =~= table);
    lemma_written_is_flat(v);
    fields::law_set_field(s, p, w, "mode"@, q);
    fields::law_set_field(s, p, w, "pool"@, q);
    fields::law_set_field(s, p, w, "connection"@, q);
    fields::law_set_field(s, p, w, "model_id"@, q);
    fields::law_set_field(s, p, w, "value"@, q);
    fields::law_set_field(s, p, w, "chain"@, q);
    match v {
        ConfigValueView::Bool(_) => {},
        ConfigValueView::Model(m) => {
            law_model_reads_back(m, key);
        },
        ConfigValueView::Effort(e) => {
            law_effort_reads_back(e, key);
        },
        ConfigValueView::Fallback(f) => {
            law_fallback_reads_back(f, key);
        },
        ConfigValueView::Names(names) => {
            law_words_read_back(
                names,
                key,
                schema::eligible_not_array(),
                schema::eligible_entry_not_string(),
            );
        },
    }
    if !document::related(p, q) {
        if leads_to(q, table) {
            assert(p.take(q.len() as int) =~= table.take(q.len() as int));
        }
        lemma_tables_frame(s0, table, table.len(), q);
    }
}

proof fn lemma_drop_at(t: TomlView, p: Path, q: Path)
    requires
        p.len() > 0,
    ensures
        document::node_at(document::drop_at(t, p), p) is None,
        !document::related(p, q) ==> document::node_at(
            document::drop_at(t, p),
            q,
        ) == document::node_at(t, q),
    decreases p.len(),
{
    let e = document::entries_of(t);
    let unrelated = !document::related(p, q);
    if unrelated {
        assert(p.take(0) =~= Seq::empty());
        assert(q.len() > 0) by {
            if q.len() == 0 {
                assert(q =~= p.take(0));
            }
        }
    }
    if !document::table_like(t) {
        assert(document::child(t, p[0]) is None);
    } else if p.len() == 1 {
        fields::lemma_drop_key_lookup(e, p[0], p[0]);
        if unrelated {
            fields::lemma_drop_key_lookup(e, p[0], q[0]);
            if q[0] == p[0] {
                assert(q.take(1) =~= p);
            }
        }
    } else {
        match document::child(t, p[0]) {
            Some(c) => {
                let below = document::drop_at(c, p.skip(1));
                document::lemma_put(e, p[0], below, p[0]);
                lemma_drop_at(c, p.skip(1), q.skip(1));
                if unrelated {
                    document::lemma_put(e, p[0], below, q[0]);
                    if q[0] == p[0] {
                        lemma_tails_unrelated(p, q);
                    }
                }
            },
            None => {},
        }
    }
}

proof fn lemma_tails_unrelated(p: Path, q: Path)
    requires
        p.len() > 0,
        q.len() > 0,
        p[0] == q[0],
        !document::related(p, q),
    ensures
        !document::related(p.skip(1), q.skip(1)),
{
    let a = p.skip(1);
    let b = q.skip(1);
    if a.len() <= b.len() && b.take(a.len() as int) == a {
        assert(q.take(p.len() as int) =~= p) by {
            assert forall|j: int| 0 <= j < p.len() implies q[j] == p[j] by {
                if j > 0 {
                    assert(b.take(a.len() as int)[j - 1] == a[j - 1]);
                }
            }
        }
    }
    if b.len() <= a.len() && a.take(b.len() as int) == b {
        assert(p.take(q.len() as int) =~= q) by {
            assert forall|j: int| 0 <= j < q.len() implies q[j] == p[j] by {
                if j > 0 {
                    assert(a.take(b.len() as int)[j - 1] == b[j - 1]);
                }
            }
        }
    }
}

/// An accepted reset leaves nothing at its target, and no node whose path is
/// unrelated to the target moves.
pub proof fn law_reset_removes(raw: Option<DocumentMut>, key: Seq<char>, q: Path)
    requires
        settings::reset_outcome(raw, key) is Ok,
    ensures
        ({
            let target = edit::target_reading(key)->Ok_0;
            let p = edit::target_table(target).push(
                edit::target_field(target),
            );
            let after = settings::reset_outcome(raw, key)->Ok_0.tree;
            let before = document::document_state(raw->0).tree;
            &&& document::node_at(after, p) is None
            &&& !document::related(p, q) ==> document::node_at(
                after,
                q,
            ) == document::node_at(before, q)
        }),
{
    let target = edit::target_reading(key)->Ok_0;
    let table = edit::target_table(target);
    let field = edit::target_field(target);
    let tree = document::document_state(raw->0).tree;
    lemma_drop_at(tree, table.push(field), q);
    if !document::table_at(tree, table) {
        document::lemma_child_path(tree, table, field);
    }
}

} // verus!
