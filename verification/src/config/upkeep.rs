//! An accepted edit keeps a valid document valid.

use crate::config::{Connection, ModelView, ModelsView, PurposeView, Rejection, Workflow};
use crate::config::document::{DocState, Entries, Path, TomlView};
use crate::config::edit::EditTarget;
use crate::config::{self, document, edit, fields, laws, schema, settings};
use crate::names;
use toml_edit::DocumentMut;
use vstd::prelude::*;

verus! {

// ----- entries under a set key ----------------------------------------------

proof fn lemma_put_same(e: Entries, k: Seq<char>)
    requires
        document::entry(e, k) is Some,
    ensures
        document::put(e, k, document::entry(e, k)->0) == e,
{
    document::lemma_entry_index(e, k);
    assert(document::put(e, k, document::entry(e, k)->0) =~= e);
}

/// Every entry of a set is the one that was set or was there before.
proof fn lemma_put_members(e: Entries, k: Seq<char>, v: TomlView, i: int)
    requires
        0 <= i < document::put(e, k, v).len(),
    ensures
        document::put(e, k, v)[i] == (k, v) || (i < e.len() && document::put(e, k, v)[i] == e[i]),
{
    document::lemma_entry_index(e, k);
}

/// A set behind an entry of another key.
proof fn lemma_put_push(e: Entries, k: Seq<char>, v: TomlView)
    requires
        e.len() > 0,
    ensures
        e.last().0 == k ==> document::put(e, k, v) == e.drop_last().push((k, v)),
        e.last().0 != k && document::key_index(e, k) >= 0 ==> document::put(e, k, v) == document::put(
            e.drop_last(),
            k,
            v,
        ).push(e.last()) && document::key_index(e.drop_last(), k) >= 0,
{
    document::lemma_entry_index(e, k);
    document::lemma_entry_index(e.drop_last(), k);
    if e.last().0 == k {
        assert(document::put(e, k, v) =~= e.drop_last().push((k, v)));
    } else if document::key_index(e, k) >= 0 {
        assert(document::put(e, k, v) =~= document::put(e.drop_last(), k, v).push(e.last()));
    }
}

// ----- what an edit leaves of a tree ----------------------------------------

/// The node of a key; an empty table where there is none.
pub open spec fn base(t: TomlView, k: Seq<char>) -> TomlView {
    match document::child(t, k) {
        Some(c) => c,
        None => TomlView::Table(Seq::empty()),
    }
}

/// `u` is `t` with something set at a path: every table on the way has the
/// one entry set that leads on, and a missing one counts as empty. With
/// `kept` the node at the path has the entries it had.
pub open spec fn grown(t: TomlView, u: TomlView, p: Path, kept: bool) -> bool
    decreases p.len(),
{
    if p.len() == 0 {
        kept ==> document::entries_of(t) == document::entries_of(u)
    } else {
        &&& document::table_like(u)
        &&& document::child(u, p[0]) is Some
        &&& document::entries_of(u) == document::put(document::entries_of(t), p[0], document::child(u, p[0])->0)
        &&& grown(base(t, p[0]), document::child(u, p[0])->0, p.skip(1), kept)
    }
}

proof fn lemma_grown_put(t: TomlView, p: Path, v: TomlView, kept: bool)
    requires
        p.len() > 0,
        document::table_at(t, p.drop_last()),
        kept ==> document::node_at(t, p) is None && document::entries_of(v).len() == 0,
    ensures
        grown(t, document::put_at(t, p, v), p, kept),
    decreases p.len(),
{
    let e = document::entries_of(t);
    let rest = p.skip(1);
    if p.len() == 1 {
        assert(p.drop_last() =~= Seq::<Seq<char>>::empty());
        assert(rest =~= Seq::<Seq<char>>::empty());
        document::lemma_put(e, p[0], v, p[0]);
        if kept {
            assert(document::node_at(t, p) == (match document::child(t, p[0]) {
                Some(c) => document::node_at(c, rest),
                None => None,
            }));
            assert(document::entries_of(v) =~= Seq::empty());
        }
        assert(grown(base(t, p[0]), v, rest, kept));
    } else {
        assert(p.drop_last()[0] == p[0]);
        assert(p.drop_last().skip(1) =~= rest.drop_last());
        let c = document::child(t, p[0])->0;
        document::lemma_put(e, p[0], document::put_at(c, rest, v), p[0]);
        lemma_grown_put(c, rest, v, kept);
    }
}

proof fn lemma_grown_same(t: TomlView, p: Path)
    requires
        document::node_at(t, p) is Some,
    ensures
        grown(t, t, p, true),
    decreases p.len(),
{
    if p.len() > 0 {
        lemma_put_same(document::entries_of(t), p[0]);
        lemma_grown_same(document::child(t, p[0])->0, p.skip(1));
    }
}

proof fn lemma_grown_then(t: TomlView, u: TomlView, w: TomlView, q: Path, p: Path, kept: bool)
    requires
        q.len() <= p.len(),
        p.take(q.len() as int) == q,
        grown(t, u, q, true),
        grown(u, w, p, kept),
    ensures
        grown(t, w, p, kept),
    decreases q.len(),
{
    if q.len() > 0 {
        let k = q[0];
        assert(p.take(q.len() as int)[0] == p[0]);
        document::lemma_put_twice(document::entries_of(t), k, document::child(u, k)->0, document::child(w, k)->0);
        assert(p.skip(1).take(q.skip(1).len() as int) =~= q.skip(1)) by {
            assert forall|j: int| 0 <= j < q.len() - 1 implies #[trigger] p.skip(1)[j] == q.skip(
                1,
            )[j] by {
                assert(p.take(q.len() as int)[j + 1] == q[j + 1]);
            }
        }
        lemma_grown_then(
            base(t, k),
            document::child(u, k)->0,
            document::child(w, k)->0,
            q.skip(1),
            p.skip(1),
            kept,
        );
    }
}

proof fn lemma_grown_tables(s: DocState, path: Path, n: nat)
    requires
        n <= path.len(),
        document::with_tables(s, path, n) is Some,
    ensures
        grown(s.tree, document::with_tables(s, path, n)->0.tree, path.take(n as int), true),
        document::node_at(document::with_tables(s, path, n)->0.tree, path.take(n as int)) is Some,
    decreases n,
{
    if n == 0 {
        assert(path.take(0) =~= Seq::<Seq<char>>::empty());
    } else {
        let t = document::with_tables(s, path, (n - 1) as nat)->0;
        lemma_grown_tables(s, path, (n - 1) as nat);
        let parent = path.take(n - 1);
        let here = path.take(n as int);
        let u = document::with_tables(s, path, n)->0;
        assert(here.drop_last() =~= parent);
        assert(here.take(parent.len() as int) =~= parent);
        if document::node_at(t.tree, here) is Some {
            lemma_grown_same(t.tree, here);
        } else {
            let v = if document::inline_at(t.tree, parent) {
                TomlView::Inline(Seq::empty())
            } else {
                TomlView::Table(Seq::empty())
            };
            assert(u.tree == document::put_at(t.tree, here, v));
            document::lemma_put_at(t.tree, here, v, here);
            lemma_grown_put(t.tree, here, v, true);
        }
        lemma_grown_then(s.tree, t.tree, u.tree, parent, here, true);
    }
}

proof fn lemma_grown_at(t: TomlView, p: Path, v: TomlView)
    requires
        p.len() > 0,
        document::node_at(t, p) is Some,
    ensures
        grown(t, document::put_at(t, p, v), p, false),
{
    let d = p.drop_last();
    assert(d.push(p.last()) =~= p);
    document::lemma_child_path(t, d, p.last());
    lemma_grown_put(t, p, v, false);
}

proof fn lemma_grown_field(s: DocState, p: Path, v: TomlView)
    requires
        p.len() > 0,
        document::table_at(s.tree, p.drop_last()),
    ensures
        grown(s.tree, fields::field_set(s, p, v).tree, p, false),
{
    fields::lemma_field_confined(s, p, v);
    lemma_grown_put(
        s.tree,
        p,
        document::node_at(fields::field_set(s, p, v).tree, p)->0,
        false,
    );
}

// ----- what a walk over entries comes to ------------------------------------

/// A walk succeeds exactly when every entry is acceptable by itself.
proof fn lemma_walk_ok<A>(
    e: Entries,
    init: A,
    step: spec_fn(A, (Seq<char>, TomlView)) -> Result<A, Rejection>,
    ok: spec_fn((Seq<char>, TomlView)) -> bool,
)
    requires
        forall|a: A, x: (Seq<char>, TomlView)| (#[trigger] step(a, x)) is Ok == ok(x),
    ensures
        schema::walk(e, init, step) is Ok <==> forall|i: int| 0 <= i < e.len() ==> ok(#[trigger] e[i]),
    decreases e.len(),
{
    if e.len() > 0 {
        let d = e.drop_last();
        lemma_walk_ok(d, init, step, ok);
        assert(forall|i: int| 0 <= i < d.len() ==> #[trigger] d[i] == e[i]);
        if schema::walk(e, init, step) is Ok {
            assert forall|i: int| 0 <= i < e.len() implies ok(#[trigger] e[i]) by {
                if i < d.len() {
                    assert(ok(d[i]));
                }
            }
        } else if forall|i: int| 0 <= i < e.len() ==> ok(#[trigger] e[i]) {
            assert forall|i: int| 0 <= i < d.len() implies ok(#[trigger] d[i]) by {
                assert(ok(e[i]));
            }
            assert(ok(e[e.len() - 1]));
        }
    }
}

/// A walk that succeeds still does once an acceptable entry is set.
proof fn lemma_walk_put<A>(
    e: Entries,
    k: Seq<char>,
    v: TomlView,
    a: A,
    b: A,
    step: spec_fn(A, (Seq<char>, TomlView)) -> Result<A, Rejection>,
    ok: spec_fn((Seq<char>, TomlView)) -> bool,
)
    requires
        forall|c: A, x: (Seq<char>, TomlView)| (#[trigger] step(c, x)) is Ok == ok(x),
        schema::walk(e, a, step) is Ok,
        ok((k, v)),
    ensures
        schema::walk(document::put(e, k, v), b, step) is Ok,
{
    let p = document::put(e, k, v);
    lemma_walk_ok(e, a, step, ok);
    lemma_walk_ok(p, b, step, ok);
    assert forall|i: int| 0 <= i < p.len() implies ok(#[trigger] p[i]) by {
        lemma_put_members(e, k, v, i);
        if p[i] != (k, v) {
            assert(ok(e[i]));
        }
    }
}

/// What a walk that reads every entry into a map leaves under a name: the
/// reading of the last entry of that name.
proof fn lemma_walk_map<A>(
    e: Entries,
    init: Seq<(Seq<char>, A)>,
    step: spec_fn(Seq<(Seq<char>, A)>, (Seq<char>, TomlView)) -> Result<
        Seq<(Seq<char>, A)>,
        Rejection,
    >,
    read: spec_fn((Seq<char>, TomlView)) -> Result<A, Rejection>,
    n: Seq<char>,
)
    requires
        forall|m: Seq<(Seq<char>, A)>, x: (Seq<char>, TomlView)| #[trigger]
            step(m, x) == (match read(x) {
                Ok(a) => Ok::<Seq<(Seq<char>, A)>, Rejection>(names::set_key(m, x.0, a)),
                Err(r) => Err(r),
            }),
        names::increasing(init),
        schema::walk(e, init, step) is Ok,
    ensures
        names::increasing(schema::walk(e, init, step)->Ok_0),
        names::lookup(schema::walk(e, init, step)->Ok_0, n) == (match document::entry(e, n) {
            Some(v) => Some(read((n, v))->Ok_0),
            None => names::lookup(init, n),
        }),
        document::entry(e, n) is Some ==> read((n, document::entry(e, n)->0)) is Ok,
    decreases e.len(),
{
    if e.len() > 0 {
        let d = e.drop_last();
        lemma_walk_map(d, init, step, read, n);
        let m = schema::walk(d, init, step)->Ok_0;
        let x = e.last();
        assert(step(m, x) is Ok);
        let a = read(x)->Ok_0;
        names::lemma_set_key_increasing(m, x.0, a);
        names::lemma_set_key_lookup(m, x.0, a, n);
        assert(x == (x.0, x.1));
    }
}

/// A map holds what its lookup gives.
proof fn lemma_lookup_at<A>(m: Seq<(Seq<char>, A)>, i: int)
    requires
        names::increasing(m),
        0 <= i < m.len(),
    ensures
        names::lookup(m, m[i].0) == Some(m[i].1),
    decreases m.len(),
{
    let d = m.drop_last();
    assert(names::increasing(d)) by {
        assert forall|a: int, b: int| 0 <= a < b < d.len() implies names::text_less(
            (#[trigger] d[a]).0,
            (#[trigger] d[b]).0,
        ) by {
            assert(d[a] == m[a] && d[b] == m[b]);
        }
    }
    if i < d.len() {
        assert(names::text_less(m[i].0, m[m.len() - 1].0));
        names::lemma_less_irreflexive(m[i].0);
        assert(d[i] == m[i]);
        lemma_lookup_at(d, i);
    }
}

proof fn lemma_lookup_found<A>(m: Seq<(Seq<char>, A)>, n: Seq<char>) -> (i: int)
    requires
        names::lookup(m, n) is Some,
    ensures
        0 <= i < m.len(),
        m[i] == (n, names::lookup(m, n)->0),
    decreases m.len(),
{
    if m.last().0 == n {
        m.len() - 1
    } else {
        let i = lemma_lookup_found(m.drop_last(), n);
        assert(m.drop_last()[i] == m[i]);
        i
    }
}

// ----- one purpose ----------------------------------------------------------

proof fn lemma_words()
    ensures
        "workflow"@ != "connections"@,
        "workflow"@ != "models"@,
        "workflow"@ != "config_version"@,
        "models"@ != "connections"@,
        "models"@ != "config_version"@,
        "connections"@ != "config_version"@,
        "defaults"@ != "groups"@,
        "defaults"@ != "purposes"@,
        "groups"@ != "purposes"@,
        "model"@ != "effort"@,
        "model"@ != "fallback"@,
        "model"@ != "group"@,
        "model"@ != "pool"@,
        "model"@ != "eligible"@,
        "effort"@ != "fallback"@,
        "effort"@ != "group"@,
        "effort"@ != "pool"@,
        "effort"@ != "eligible"@,
        "fallback"@ != "group"@,
        "fallback"@ != "pool"@,
        "fallback"@ != "eligible"@,
        "group"@ != "pool"@,
        "group"@ != "eligible"@,
        "pool"@ != "eligible"@,
{
    reveal_strlit("workflow");
    reveal_strlit("connections");
    reveal_strlit("models");
    reveal_strlit("config_version");
    reveal_strlit("defaults");
    reveal_strlit("groups");
    reveal_strlit("purposes");
    reveal_strlit("model");
    reveal_strlit("effort");
    reveal_strlit("fallback");
    reveal_strlit("group");
    reveal_strlit("pool");
    reveal_strlit("eligible");
    assert("workflow"@.len() == 8);
    assert("connections"@.len() == 11);
    assert("models"@.len() == 6);
    assert("config_version"@.len() == 14);
    assert("defaults"@.len() == 8);
    assert("groups"@.len() == 6);
    assert("purposes"@.len() == 8);
    assert("model"@.len() == 5);
    assert("effort"@.len() == 6);
    assert("fallback"@.len() == 8);
    assert("group"@.len() == 5);
    assert("pool"@.len() == 4);
    assert("eligible"@.len() == 8);
    assert("defaults"@[0] == 'd' && "purposes"@[0] == 'p');
    assert("model"@[0] == 'm' && "group"@[0] == 'g');
    assert("fallback"@[0] == 'f' && "eligible"@[0] == 'e');
    assert("models"@[0] == 'm' && "groups"@[0] == 'g');
}

/// Setting a field of a purpose sets that field of its reading.
proof fn lemma_purpose_put(e: Entries, key: Seq<char>, field: Seq<char>, x: TomlView)
    requires
        schema::walk(e, config::empty_purpose(), schema::purpose_step(key)) is Ok,
        forall|def: PurposeView| (#[trigger] schema::purpose_field_reading(def, key, field, x)) is Ok,
    ensures
        schema::walk(document::put(e, field, x), config::empty_purpose(), schema::purpose_step(key))
            == schema::purpose_field_reading(
            schema::walk(e, config::empty_purpose(), schema::purpose_step(key))->Ok_0,
            key,
            field,
            x,
        ),
    decreases e.len(),
{
    let init = config::empty_purpose();
    let f = schema::purpose_step(key);
    let p = schema::walk(e, init, f)->Ok_0;
    let n = document::put(e, field, x);
    lemma_words();
    document::lemma_entry_index(e, field);
    if document::key_index(e, field) < 0 {
        assert(n.drop_last() =~= e);
        assert(n.last() == (field, x));
    } else {
        let d = e.drop_last();
        let p0 = schema::walk(d, init, f)->Ok_0;
        lemma_put_push(e, field, x);
        if e.last().0 == field {
            assert(n.drop_last() =~= d);
            assert(n.last() == (field, x));
            assert(schema::purpose_field_reading(p0, key, field, x) is Ok);
            assert(schema::purpose_field_reading(p, key, field, x) == schema::purpose_field_reading(
                p0,
                key,
                field,
                x,
            ));
        } else {
            lemma_purpose_put(d, key, field, x);
            assert(n.drop_last() =~= document::put(d, field, x));
            assert(n.last() == e.last());
            let last = e.last();
            let q0 = schema::purpose_field_reading(p0, key, field, x)->Ok_0;
            assert(schema::purpose_field_reading(p0, key, field, x) is Ok);
            assert(schema::purpose_field_reading(p, key, field, x) is Ok);
            assert(schema::purpose_field_reading(q0, key, last.0, last.1)
                == schema::purpose_field_reading(p, key, field, x));
        }
    }
}

// ----- the models table -----------------------------------------------------

pub open spec fn group_reader() -> spec_fn((Seq<char>, TomlView)) -> Result<ModelView, Rejection> {
    |x: (Seq<char>, TomlView)| schema::group_reading(x.0, x.1)
}

pub open spec fn purpose_reader() -> spec_fn((Seq<char>, TomlView)) -> Result<
    PurposeView,
    Rejection,
> {
    |x: (Seq<char>, TomlView)| schema::purpose_reading(x.0, x.1)
}

/// Setting one entry of a table that is read into a map sets that name of the
/// map.
proof fn lemma_map_put<A>(
    e: Entries,
    n: Seq<char>,
    c: TomlView,
    init: Seq<(Seq<char>, A)>,
    step: spec_fn(Seq<(Seq<char>, A)>, (Seq<char>, TomlView)) -> Result<
        Seq<(Seq<char>, A)>,
        Rejection,
    >,
    read: spec_fn((Seq<char>, TomlView)) -> Result<A, Rejection>,
)
    requires
        forall|m: Seq<(Seq<char>, A)>, x: (Seq<char>, TomlView)| #[trigger]
            step(m, x) == (match read(x) {
                Ok(a) => Ok::<Seq<(Seq<char>, A)>, Rejection>(names::set_key(m, x.0, a)),
                Err(r) => Err(r),
            }),
        names::increasing(init),
        schema::walk(e, init, step) is Ok,
        read((n, c)) is Ok,
    ensures
        schema::walk(document::put(e, n, c), init, step) is Ok,
        names::increasing(schema::walk(e, init, step)->Ok_0),
        names::increasing(schema::walk(document::put(e, n, c), init, step)->Ok_0),
        names::lookup(schema::walk(document::put(e, n, c), init, step)->Ok_0, n) == Some(read((n, c))->Ok_0),
        forall|x: Seq<char>|
            x != n ==> #[trigger] names::lookup(schema::walk(document::put(e, n, c), init, step)->Ok_0, x)
                == names::lookup(schema::walk(e, init, step)->Ok_0, x),
{
    let ok = |x: (Seq<char>, TomlView)| read(x) is Ok;
    lemma_walk_put(e, n, c, init, init, step, ok);
    lemma_walk_map(e, init, step, read, n);
    lemma_walk_map(document::put(e, n, c), init, step, read, n);
    document::lemma_put(e, n, c, n);
    assert forall|x: Seq<char>| x != n implies #[trigger] names::lookup(
        schema::walk(document::put(e, n, c), init, step)->Ok_0,
        x,
    ) == names::lookup(schema::walk(e, init, step)->Ok_0, x) by {
        lemma_walk_map(e, init, step, read, x);
        lemma_walk_map(document::put(e, n, c), init, step, read, x);
        document::lemma_put(e, n, c, x);
    }
}

pub open spec fn ordered(m: ModelsView) -> bool {
    names::increasing(m.groups) && names::increasing(m.purposes)
}

/// `w` is `m` with one part read anew: the defaults, one group or one purpose.
pub open spec fn models_changed(
    m: ModelsView,
    w: ModelsView,
    k: Seq<char>,
    v: TomlView,
    n: Seq<char>,
) -> bool {
    if k == "defaults"@ {
        w.groups == m.groups && w.purposes == m.purposes && w.defaults == Some(
            schema::defaults_reading(v)->Ok_0,
        )
    } else if k == "groups"@ {
        &&& w.defaults == m.defaults
        &&& w.purposes == m.purposes
        &&& names::lookup(w.groups, n) == Some(schema::group_reading(n, document::child(v, n)->0)->Ok_0)
        &&& forall|x: Seq<char>|
            x != n ==> #[trigger] names::lookup(w.groups, x) == names::lookup(m.groups, x)
    } else {
        &&& w.defaults == m.defaults
        &&& w.groups == m.groups
        &&& names::lookup(w.purposes, n) == Some(schema::purpose_reading(n, document::child(v, n)->0)->Ok_0)
        &&& forall|x: Seq<char>|
            x != n ==> #[trigger] names::lookup(w.purposes, x) == names::lookup(m.purposes, x)
    }
}

/// The part that is read anew is well formed.
pub open spec fn part_reads(k: Seq<char>, v: TomlView, n: Seq<char>, before: TomlView) -> bool {
    &&& document::table_like(v)
    &&& k == "defaults"@ || k == "groups"@ || k == "purposes"@
    &&& k == "defaults"@ ==> schema::defaults_reading(v) is Ok
    &&& k != "defaults"@ ==> document::child(v, n) is Some && document::entries_of(v) == document::put(
        document::entries_of(before),
        n,
        document::child(v, n)->0,
    )
    &&& k == "groups"@ ==> schema::group_reading(n, document::child(v, n)->0) is Ok
    &&& k == "purposes"@ ==> schema::purpose_reading(n, document::child(v, n)->0) is Ok
}

/// One entry of the models table, read behind the others, in the place of an
/// old one or in that of none.
proof fn lemma_models_last(m: ModelsView, k: Seq<char>, old: TomlView, v: TomlView, n: Seq<char>)
    requires
        ordered(m),
        part_reads(k, v, n, old),
        schema::models_entry_reading(m, k, old) is Ok,
    ensures
        schema::models_entry_reading(m, k, v) is Ok,
        ordered(schema::models_entry_reading(m, k, v)->Ok_0),
        ordered(schema::models_entry_reading(m, k, old)->Ok_0),
        models_changed(
            schema::models_entry_reading(m, k, old)->Ok_0,
            schema::models_entry_reading(m, k, v)->Ok_0,
            k,
            v,
            n,
        ),
{
    lemma_words();
    if k == "groups"@ {
        lemma_map_put(
            document::entries_of(old),
            n,
            document::child(v, n)->0,
            m.groups,
            schema::groups_step(),
            group_reader(),
        );
    } else if k == "purposes"@ {
        lemma_map_put(
            document::entries_of(old),
            n,
            document::child(v, n)->0,
            m.purposes,
            schema::purposes_step(),
            purpose_reader(),
        );
    }
}

proof fn lemma_models_keep(m: ModelsView, w: ModelsView, k: Seq<char>, v: TomlView, n: Seq<char>, x: (Seq<char>, TomlView))
    requires
        ordered(m),
        ordered(w),
        models_changed(m, w, k, v, n),
        k == "defaults"@ || k == "groups"@ || k == "purposes"@,
        x.0 != k,
        schema::models_entry_reading(m, x.0, x.1) is Ok,
    ensures
        schema::models_entry_reading(w, x.0, x.1) is Ok,
        ordered(schema::models_entry_reading(m, x.0, x.1)->Ok_0),
        ordered(schema::models_entry_reading(w, x.0, x.1)->Ok_0),
        models_changed(
            schema::models_entry_reading(m, x.0, x.1)->Ok_0,
            schema::models_entry_reading(w, x.0, x.1)->Ok_0,
            k,
            v,
            n,
        ),
{
    lemma_words();
    let e = document::entries_of(x.1);
    if x.0 == "groups"@ {
        lemma_walk_map(e, m.groups, schema::groups_step(), group_reader(), n);
    } else if x.0 == "purposes"@ {
        lemma_walk_map(e, m.purposes, schema::purposes_step(), purpose_reader(), n);
    }
}

proof fn lemma_models_put(e: Entries, k: Seq<char>, v: TomlView, n: Seq<char>)
    requires
        schema::models_reading(e) is Ok,
        part_reads(k, v, n, base(TomlView::Table(e), k)),
    ensures
        schema::models_reading(document::put(e, k, v)) is Ok,
        ordered(schema::models_reading(e)->Ok_0),
        ordered(schema::models_reading(document::put(e, k, v))->Ok_0),
        models_changed(
            schema::models_reading(e)->Ok_0,
            schema::models_reading(document::put(e, k, v))->Ok_0,
            k,
            v,
            n,
        ),
    decreases e.len(),
{
    lemma_words();
    let p = document::put(e, k, v);
    let none = TomlView::Table(Seq::empty());
    document::lemma_entry_index(e, k);
    lemma_models_ordered(e);
    if document::key_index(e, k) < 0 {
        let m = schema::models_reading(e)->Ok_0;
        assert(p.drop_last() =~= e);
        assert(p.last() == (k, v));
        if k == "defaults"@ {
        } else {
            assert(schema::models_entry_reading(m, k, none) == Ok::<ModelsView, Rejection>(m));
            lemma_models_last(m, k, none, v, n);
        }
    } else {
        let d = e.drop_last();
        let m0 = schema::models_reading(d)->Ok_0;
        lemma_put_push(e, k, v);
        lemma_models_ordered(d);
        if e.last().0 == k {
            assert(p.drop_last() =~= d);
            assert(p.last() == (k, v));
            lemma_models_last(m0, k, e.last().1, v, n);
        } else {
            assert(base(TomlView::Table(e), k) == base(TomlView::Table(d), k));
            lemma_models_put(d, k, v, n);
            assert(p.drop_last() =~= document::put(d, k, v));
            assert(p.last() == e.last());
            let w0 = schema::models_reading(document::put(d, k, v))->Ok_0;
            lemma_models_keep(m0, w0, k, v, n, e.last());
        }
    }
}

/// The maps of a models table are in order, and what the last entry of each
/// part holds is read.
proof fn lemma_models_ordered(e: Entries)
    requires
        schema::models_reading(e) is Ok,
    ensures
        ordered(schema::models_reading(e)->Ok_0),
        match document::entry(e, "defaults"@) {
            None => schema::models_reading(e)->Ok_0.defaults is None,
            Some(t) => schema::defaults_reading(t) is Ok && schema::models_reading(e)->Ok_0.defaults == Some(
                schema::defaults_reading(t)->Ok_0,
            ),
        },
        match document::entry(e, "groups"@) {
            None => true,
            Some(t) => document::table_like(t) && forall|n: Seq<char>| #[trigger]
                document::entry(document::entries_of(t), n) is Some ==> schema::group_reading(
                    n,
                    document::entry(document::entries_of(t), n)->0,
                ) is Ok,
        },
        match document::entry(e, "purposes"@) {
            None => true,
            Some(t) => document::table_like(t) && forall|n: Seq<char>| #[trigger]
                document::entry(document::entries_of(t), n) is Some ==> {
                    let r = schema::purpose_reading(n, document::entry(document::entries_of(t), n)->0);
                    r is Ok && names::lookup(schema::models_reading(e)->Ok_0.purposes, n) == Some(r->Ok_0)
                },
        },
    decreases e.len(),
{
    lemma_words();
    if e.len() > 0 {
        let d = e.drop_last();
        lemma_models_ordered(d);
        let m = schema::models_reading(d)->Ok_0;
        let x = e.last();
        let t = document::entries_of(x.1);
        if x.0 == "groups"@ {
            lemma_walk_map(t, m.groups, schema::groups_step(), group_reader(), Seq::empty());
            assert forall|n: Seq<char>| #[trigger]
                document::entry(t, n) is Some implies schema::group_reading(n, document::entry(t, n)->0) is Ok by {
                lemma_walk_map(t, m.groups, schema::groups_step(), group_reader(), n);
            }
        } else if x.0 == "purposes"@ {
            lemma_walk_map(t, m.purposes, schema::purposes_step(), purpose_reader(), Seq::empty());
            assert forall|n: Seq<char>| #[trigger] document::entry(t, n) is Some implies {
                let r = schema::purpose_reading(n, document::entry(t, n)->0);
                r is Ok && names::lookup(schema::models_reading(e)->Ok_0.purposes, n) == Some(r->Ok_0)
            } by {
                lemma_walk_map(t, m.purposes, schema::purposes_step(), purpose_reader(), n);
            }
        }
    }
}

// ----- the root -------------------------------------------------------------

pub open spec fn connection_reader() -> spec_fn((Seq<char>, TomlView)) -> Result<
    Connection<Seq<char>>,
    Rejection,
> {
    |x: (Seq<char>, TomlView)| schema::connection_reading(x.0, x.1)
}

/// What the last root entry of each kind holds is read.
proof fn lemma_root_last(e: Entries)
    requires
        schema::walk(e, schema::empty_draft(), schema::root_step()) is Ok,
    ensures
        ({
            let d = schema::walk(e, schema::empty_draft(), schema::root_step())->Ok_0;
            &&& names::increasing(d.connections)
            &&& match document::entry(e, "connections"@) {
                None => d.connections.len() == 0,
                Some(t) => document::table_like(t) && forall|n: Seq<char>| #[trigger]
                    document::entry(document::entries_of(t), n) is Some ==> names::lookup(d.connections, n) is Some,
            }
            &&& match document::entry(e, "models"@) {
                None => d.models == config::empty_models(),
                Some(t) => document::table_like(t) && schema::models_reading(document::entries_of(t)) == Ok::<
                    ModelsView,
                    Rejection,
                >(d.models),
            }
            &&& match document::entry(e, "workflow"@) {
                None => true,
                Some(t) => document::table_like(t) && exists|w: Workflow|
                    (#[trigger] schema::walk(document::entries_of(t), w, schema::workflow_step())) is Ok,
            }
        }),
    decreases e.len(),
{
    lemma_words();
    if e.len() > 0 {
        let r = e.drop_last();
        lemma_root_last(r);
        let d = schema::walk(r, schema::empty_draft(), schema::root_step())->Ok_0;
        let x = e.last();
        let t = document::entries_of(x.1);
        if x.0 == "connections"@ {
            lemma_walk_map(t, d.connections, schema::connections_step(), connection_reader(), Seq::empty());
            let c = schema::walk(t, d.connections, schema::connections_step())->Ok_0;
            assert forall|n: Seq<char>| #[trigger] document::entry(t, n) is Some implies names::lookup(
                c,
                n,
            ) is Some by {
                lemma_walk_map(t, d.connections, schema::connections_step(), connection_reader(), n);
            }
        } else if x.0 == "workflow"@ {
            assert(schema::walk(t, d.workflow, schema::workflow_step()) is Ok);
        }
    }
}

proof fn lemma_root_put(e: Entries, k: Seq<char>, v: TomlView)
    requires
        schema::walk(e, schema::empty_draft(), schema::root_step()) is Ok,
        k == "workflow"@ || k == "models"@,
        forall|d: schema::Draft| (#[trigger] schema::root_entry_reading(d, k, v)) is Ok,
    ensures
        schema::walk(document::put(e, k, v), schema::empty_draft(), schema::root_step()) is Ok,
        ({
            let d = schema::walk(e, schema::empty_draft(), schema::root_step())->Ok_0;
            let w = schema::walk(document::put(e, k, v), schema::empty_draft(), schema::root_step())->Ok_0;
            &&& w.version == d.version
            &&& w.connections == d.connections
            &&& k == "models"@ ==> w.workflow == d.workflow && schema::models_reading(document::entries_of(v))
                == Ok::<ModelsView, Rejection>(w.models)
            &&& k == "workflow"@ ==> w.models == d.models
        }),
    decreases e.len(),
{
    lemma_words();
    let p = document::put(e, k, v);
    let init = schema::empty_draft();
    let f = schema::root_step();
    document::lemma_entry_index(e, k);
    if document::key_index(e, k) < 0 {
        assert(p.drop_last() =~= e);
        assert(p.last() == (k, v));
        let d = schema::walk(e, init, f)->Ok_0;
        assert(schema::root_entry_reading(d, k, v) is Ok);
    } else {
        let r = e.drop_last();
        let d0 = schema::walk(r, init, f)->Ok_0;
        lemma_put_push(e, k, v);
        if e.last().0 == k {
            assert(p.drop_last() =~= r);
            assert(p.last() == (k, v));
            assert(schema::root_entry_reading(d0, k, v) is Ok);
        } else {
            lemma_root_put(r, k, v);
            assert(p.drop_last() =~= document::put(r, k, v));
            assert(p.last() == e.last());
        }
    }
}

// ----- what stands against a document ---------------------------------------

proof fn lemma_declared(c: schema::ConnectionMap, names: Seq<Seq<char>>, key: Seq<char>)
    ensures
        schema::first_found(names, schema::reference_check(c, key)) is None <==> schema::all_declared(c, names),
{
    let f = schema::reference_check(c, key);
    schema::lemma_nothing_found(names, f);
    if schema::first_found(names, f) is None {
        assert forall|i: int| 0 <= i < names.len() implies names::lookup(
            c,
            #[trigger] names[i],
        ) is Some by {
            assert(f(names[i]) is None);
        }
    } else if schema::all_declared(c, names) {
        assert forall|i: int| 0 <= i < names.len() implies f(#[trigger] names[i]) is None by {
            assert(names::lookup(c, names[i]) is Some);
        }
    }
}

pub open spec fn purpose_sound(
    c: schema::ConnectionMap,
    groups: Seq<(Seq<char>, ModelView)>,
    p: PurposeView,
) -> bool {
    &&& p.group is Some ==> names::lookup(groups, p.group->0) is Some
    &&& p.model is Some ==> schema::all_declared(c, schema::referenced(p.model->0))
    &&& p.fallback is Some ==> schema::all_declared(c, schema::chain_referenced(p.fallback->0))
}

/// Every reference of a models table is declared.
pub open spec fn models_sound(c: schema::ConnectionMap, m: ModelsView) -> bool {
    &&& m.defaults is Some
    &&& schema::all_declared(c, schema::referenced(m.defaults->0.model))
    &&& schema::all_declared(c, schema::chain_referenced(m.defaults->0.fallback))
    &&& forall|n: Seq<char>| (#[trigger] names::lookup(m.groups, n)) is Some ==> schema::all_declared(
        c,
        schema::referenced(names::lookup(m.groups, n)->0),
    )
    &&& forall|n: Seq<char>| (#[trigger] names::lookup(m.purposes, n)) is Some ==> purpose_sound(
        c,
        m.groups,
        names::lookup(m.purposes, n)->0,
    )
}

proof fn lemma_purpose_sound(
    c: schema::ConnectionMap,
    groups: Seq<(Seq<char>, ModelView)>,
    n: Seq<char>,
    p: PurposeView,
)
    ensures
        schema::purpose_references(c, groups, n, p) is None <==> purpose_sound(c, groups, p),
{
    let key = "models.purposes."@ + n;
    if p.model is Some {
        lemma_declared(c, schema::referenced(p.model->0), key + ".model"@);
    }
    if p.fallback is Some {
        lemma_declared(c, schema::chain_referenced(p.fallback->0), key + ".fallback.chain"@);
    }
}

proof fn lemma_sound_of(d: schema::Draft)
    requires
        schema::draft_problem(d) is None,
    ensures
        models_sound(d.connections, d.models),
{
    let c = d.connections;
    let m = d.models;
    lemma_declared(c, schema::referenced(m.defaults->0.model), "models.defaults.model"@);
    lemma_declared(
        c,
        schema::chain_referenced(m.defaults->0.fallback),
        "models.defaults.fallback.chain"@,
    );
    schema::lemma_nothing_found(m.groups, schema::group_check(c));
    schema::lemma_nothing_found(m.purposes, schema::purpose_check(c, m.groups));
    assert forall|n: Seq<char>| (#[trigger] names::lookup(
        m.groups,
        n,
    )) is Some implies schema::all_declared(c, schema::referenced(names::lookup(m.groups, n)->0)) by {
        let i = lemma_lookup_found(m.groups, n);
        assert(schema::group_check(c)(m.groups[i]) is None);
        lemma_declared(
            c,
            schema::referenced(m.groups[i].1),
            "models.groups."@ + m.groups[i].0 + ".model"@,
        );
    }
    assert forall|n: Seq<char>| (#[trigger] names::lookup(m.purposes, n)) is Some implies purpose_sound(
        c,
        m.groups,
        names::lookup(m.purposes, n)->0,
    ) by {
        let i = lemma_lookup_found(m.purposes, n);
        assert(schema::purpose_check(c, m.groups)(m.purposes[i]) is None);
        lemma_purpose_sound(c, m.groups, n, m.purposes[i].1);
    }
}

proof fn lemma_sound_suffices(d: schema::Draft)
    requires
        d.version == Some(1u64),
        d.connections.len() > 0,
        schema::first_found(d.connections, schema::credential_check()) is None,
        ordered(d.models),
        models_sound(d.connections, d.models),
    ensures
        schema::draft_problem(d) is None,
{
    let c = d.connections;
    let m = d.models;
    lemma_declared(c, schema::referenced(m.defaults->0.model), "models.defaults.model"@);
    lemma_declared(
        c,
        schema::chain_referenced(m.defaults->0.fallback),
        "models.defaults.fallback.chain"@,
    );
    schema::lemma_nothing_found(m.groups, schema::group_check(c));
    schema::lemma_nothing_found(m.purposes, schema::purpose_check(c, m.groups));
    assert forall|i: int| 0 <= i < m.groups.len() implies schema::group_check(c)(
        #[trigger] m.groups[i],
    ) is None by {
        lemma_lookup_at(m.groups, i);
        lemma_declared(
            c,
            schema::referenced(m.groups[i].1),
            "models.groups."@ + m.groups[i].0 + ".model"@,
        );
    }
    assert forall|i: int| 0 <= i < m.purposes.len() implies schema::purpose_check(c, m.groups)(
        #[trigger] m.purposes[i],
    ) is None by {
        lemma_lookup_at(m.purposes, i);
        lemma_purpose_sound(c, m.groups, m.purposes[i].0, m.purposes[i].1);
    }
}

/// The part that was read anew refers to declared connections and groups
/// only.
pub open spec fn part_sound(
    c: schema::ConnectionMap,
    groups: Seq<(Seq<char>, ModelView)>,
    k: Seq<char>,
    v: TomlView,
    n: Seq<char>,
) -> bool {
    if k == "defaults"@ {
        let df = schema::defaults_reading(v)->Ok_0;
        schema::all_declared(c, schema::referenced(df.model)) && schema::all_declared(
            c,
            schema::chain_referenced(df.fallback),
        )
    } else if k == "groups"@ {
        schema::all_declared(c, schema::referenced(schema::group_reading(n, document::child(v, n)->0)->Ok_0))
    } else {
        purpose_sound(c, groups, schema::purpose_reading(n, document::child(v, n)->0)->Ok_0)
    }
}

proof fn lemma_sound_stays(
    c: schema::ConnectionMap,
    m: ModelsView,
    w: ModelsView,
    k: Seq<char>,
    v: TomlView,
    n: Seq<char>,
)
    requires
        models_sound(c, m),
        models_changed(m, w, k, v, n),
        part_sound(c, m.groups, k, v, n),
        k == "defaults"@ || k == "groups"@ || k == "purposes"@,
    ensures
        models_sound(c, w),
{
    lemma_words();
    assert forall|x: Seq<char>| (#[trigger] names::lookup(
        w.groups,
        x,
    )) is Some implies schema::all_declared(c, schema::referenced(names::lookup(w.groups, x)->0)) by {
        assert(names::lookup(m.groups, x) is Some || (k == "groups"@ && x == n));
    }
    assert forall|x: Seq<char>| (#[trigger] names::lookup(w.purposes, x)) is Some implies purpose_sound(
        c,
        w.groups,
        names::lookup(w.purposes, x)->0,
    ) by {
        assert(names::lookup(m.purposes, x) is Some || (k == "purposes"@ && x == n));
        let p = names::lookup(w.purposes, x)->0;
        if p.group is Some {
            assert(names::lookup(m.groups, p.group->0) is Some);
            assert(names::lookup(w.groups, p.group->0) is Some);
        }
    }
}

// ----- what stands at a target ----------------------------------------------

/// The key a value is read under matters to a rejection only.
proof fn lemma_model_key(x: TomlView, a: Seq<char>, b: Seq<char>)
    requires
        schema::model_reading(x, a) is Ok,
    ensures
        schema::model_reading(x, b) == schema::model_reading(x, a),
{
}

proof fn lemma_effort_key(x: TomlView, a: Seq<char>, b: Seq<char>)
    requires
        schema::effort_reading(x, a) is Ok,
    ensures
        schema::effort_reading(x, b) == schema::effort_reading(x, a),
{
}

proof fn lemma_chain_entry_key(x: TomlView, a: Seq<char>, b: Seq<char>)
    requires
        schema::chain_entry_reading(x, a) is Ok,
    ensures
        schema::chain_entry_reading(x, b) == schema::chain_entry_reading(x, a),
{
    let e = x->Inline_0;
    schema::lemma_nothing_found(e, schema::chain_field_check(a));
    schema::lemma_nothing_found(e, schema::chain_field_check(b));
    assert forall|i: int| 0 <= i < e.len() implies schema::chain_field_check(b)(
        #[trigger] e[i],
    ) is None by {
        assert(schema::chain_field_check(a)(e[i]) is None);
    }
}

proof fn lemma_chain_key(items: Seq<TomlView>, a: Seq<char>, b: Seq<char>)
    requires
        schema::chain_reading(items, a) is Ok,
    ensures
        schema::chain_reading(items, b) == schema::chain_reading(items, a),
    decreases items.len(),
{
    if items.len() > 0 {
        lemma_chain_key(items.drop_last(), a, b);
        lemma_chain_entry_key(items.last(), a, b);
    }
}

proof fn lemma_fallback_key(x: TomlView, a: Seq<char>, b: Seq<char>)
    requires
        schema::fallback_reading(x, a) is Ok,
    ensures
        schema::fallback_reading(x, b) == schema::fallback_reading(x, a),
{
    match document::child(x, "chain"@) {
        Some(TomlView::List(items)) => {
            if schema::mode_reading(x, a) == Ok::<Seq<char>, Rejection>("auto"@) {
                lemma_chain_key(items, a, b);
            }
        },
        _ => {},
    }
}

/// A field that is set leaves the defaults readable, with that field read
/// anew.
proof fn lemma_defaults_put(old: TomlView, v: TomlView, field: Seq<char>, x: TomlView)
    requires
        schema::defaults_reading(old) is Ok,
        document::table_like(v),
        document::entries_of(v) == document::put(document::entries_of(old), field, x),
        schema::is_slot(field),
        field == "model"@ ==> schema::model_reading(x, "models.defaults.model"@) is Ok,
        field == "effort"@ ==> schema::effort_reading(x, "models.defaults.effort"@) is Ok,
        field == "fallback"@ ==> schema::fallback_reading(x, "models.defaults.fallback"@) is Ok,
    ensures
        schema::defaults_reading(v) is Ok,
        ({
            let was = schema::defaults_reading(old)->Ok_0;
            let is = schema::defaults_reading(v)->Ok_0;
            &&& is.model == (if field == "model"@ {
                schema::model_reading(x, "models.defaults.model"@)->Ok_0
            } else {
                was.model
            })
            &&& is.fallback == (if field == "fallback"@ {
                schema::fallback_reading(x, "models.defaults.fallback"@)->Ok_0
            } else {
                was.fallback
            })
        }),
{
    lemma_words();
    let e = document::entries_of(old);
    let n = document::entries_of(v);
    let f = schema::defaults_field_check();
    schema::lemma_nothing_found(e, f);
    schema::lemma_nothing_found(n, f);
    assert forall|i: int| 0 <= i < n.len() implies f(#[trigger] n[i]) is None by {
        lemma_put_members(e, field, x, i);
        if n[i] != (field, x) {
            assert(f(e[i]) is None);
        }
    }
    document::lemma_put(e, field, x, "model"@);
    document::lemma_put(e, field, x, "effort"@);
    document::lemma_put(e, field, x, "fallback"@);
}

proof fn lemma_group_put(name: Seq<char>, old: TomlView, v: TomlView, x: TomlView)
    requires
        old == TomlView::Table(Seq::empty()) || schema::group_reading(name, old) is Ok,
        document::table_like(v),
        document::entries_of(v) == document::put(document::entries_of(old), "model"@, x),
        schema::model_reading(x, "models.groups."@ + name + ".model"@) is Ok,
    ensures
        schema::group_reading(name, v) == schema::model_reading(x, "models.groups."@ + name + ".model"@),
{
    let e = document::entries_of(old);
    let n = document::entries_of(v);
    let f = schema::group_field_check(name);
    schema::lemma_nothing_found(e, f);
    schema::lemma_nothing_found(n, f);
    assert forall|i: int| 0 <= i < n.len() implies f(#[trigger] n[i]) is None by {
        lemma_put_members(e, "model"@, x, i);
        if n[i] != ("model"@, x) {
            assert(f(e[i]) is None);
        }
    }
    document::lemma_put(e, "model"@, x, "model"@);
}

/// The connections that a target refers to are declared.
proof fn lemma_references(
    e: Entries,
    u: TomlView,
    k: Seq<char>,
    sub: TomlView,
    names: Seq<Seq<char>>,
    key: Seq<char>,
)
    requires
        schema::document_reading(e) is Ok,
        document::entries_of(u) == document::put(e, k, sub),
        k == "models"@,
        settings::reference_problem(u, names, key) is None,
    ensures
        schema::all_declared(schema::walk(e, schema::empty_draft(), schema::root_step())->Ok_0.connections, names),
{
    lemma_words();
    lemma_root_last(e);
    document::lemma_put(e, k, sub, "connections"@);
    let c = schema::walk(e, schema::empty_draft(), schema::root_step())->Ok_0.connections;
    let t = document::entry(e, "connections"@)->0;
    let conns = document::entries_of(t);
    let f = settings::undeclared_check(conns, key);
    assert(document::entry(e, "connections"@) is Some);
    schema::lemma_nothing_found(names, f);
    assert forall|i: int| 0 <= i < names.len() implies names::lookup(c, #[trigger] names[i]) is Some by {
        assert(f(names[i]) is None);
        assert(document::entry(conns, names[i]) is Some);
    }
}

/// A document whose models table has one part set that reads and refers to
/// declared names stays valid.
proof fn lemma_models_edit(
    e: Entries,
    sub: TomlView,
    k: Seq<char>,
    v: TomlView,
    n: Seq<char>,
)
    requires
        schema::document_reading(e) is Ok,
        document::table_like(sub),
        document::entries_of(sub) == document::put(document::entries_of(base(TomlView::Table(e), "models"@)), k, v),
        part_reads(k, v, n, base(base(TomlView::Table(e), "models"@), k)),
        ({
            let d = schema::walk(e, schema::empty_draft(), schema::root_step())->Ok_0;
            part_sound(d.connections, d.models.groups, k, v, n)
        }),
    ensures
        schema::document_reading(document::put(e, "models"@, sub)) is Ok,
{
    let d = schema::walk(e, schema::empty_draft(), schema::root_step())->Ok_0;
    let table = document::entries_of(base(TomlView::Table(e), "models"@));
    lemma_words();
    lemma_root_last(e);
    assert(document::entry(e, "models"@) is Some);
    assert(schema::models_reading(table) == Ok::<ModelsView, Rejection>(d.models));
    assert(base(TomlView::Table(table), k) == base(base(TomlView::Table(e), "models"@), k));
    lemma_models_put(table, k, v, n);
    assert forall|x: schema::Draft| (#[trigger] schema::root_entry_reading(x, "models"@, sub)) is Ok by {}
    lemma_root_put(e, "models"@, sub);
    let w = schema::walk(document::put(e, "models"@, sub), schema::empty_draft(), schema::root_step())->Ok_0;
    lemma_sound_of(d);
    lemma_sound_stays(d.connections, d.models, w.models, k, v, n);
    lemma_sound_suffices(w);
}

/// Both tables of a path of two keys.
proof fn lemma_grown2(t: TomlView, u: TomlView, a: Seq<char>, b: Seq<char>)
    requires
        grown(t, u, seq![a, b], false),
    ensures
        ({
            let x = document::child(u, a)->0;
            let y = document::child(x, b)->0;
            &&& document::table_like(u) && document::child(u, a) is Some
            &&& document::entries_of(u) == document::put(document::entries_of(t), a, x)
            &&& document::table_like(x) && document::child(x, b) is Some
            &&& document::entries_of(x) == document::put(document::entries_of(base(t, a)), b, y)
            &&& document::node_at(u, seq![a, b]) == Some(y)
        }),
{
    let p = seq![a, b];
    let x = document::child(u, a)->0;
    assert(p.skip(1) =~= seq![b]);
    assert(seq![b].skip(1) =~= Seq::<Seq<char>>::empty());
    assert(grown(base(t, a), x, seq![b], false));
    assert(document::node_at(x, seq![b]) == document::node_at(document::child(x, b)->0, seq![b].skip(1)));
    assert(document::node_at(u, p) == document::node_at(x, p.skip(1)));
}

/// The tables of a path that has two keys in front of the rest.
proof fn lemma_grown_front(t: TomlView, u: TomlView, a: Seq<char>, b: Seq<char>, rest: Path)
    requires
        rest.len() > 0,
        grown(t, u, seq![a, b] + rest, false),
    ensures
        ({
            let x = document::child(u, a)->0;
            let y = document::child(x, b)->0;
            &&& document::table_like(u) && document::child(u, a) is Some
            &&& document::entries_of(u) == document::put(document::entries_of(t), a, x)
            &&& document::table_like(x) && document::child(x, b) is Some
            &&& document::entries_of(x) == document::put(document::entries_of(base(t, a)), b, y)
            &&& document::table_like(y)
            &&& grown(base(base(t, a), b), y, rest, false)
            &&& document::node_at(u, seq![a, b] + rest) == document::node_at(y, rest)
        }),
{
    let p = seq![a, b] + rest;
    let x = document::child(u, a)->0;
    let q = p.skip(1);
    assert(q =~= seq![b] + rest);
    assert(q.skip(1) =~= rest);
    assert(grown(base(t, a), x, q, false));
    assert(grown(base(base(t, a), b), document::child(x, b)->0, rest, false));
    assert(document::node_at(u, p) == document::node_at(x, q));
    assert(document::node_at(x, q) == document::node_at(document::child(x, b)->0, rest));
}

proof fn lemma_workflow_edit(t: TomlView, u: TomlView)
    requires
        grown(t, u, seq!["workflow"@, "enabled"@], false),
        schema::document_reading(document::entries_of(t)) is Ok,
        document::node_at(u, seq!["workflow"@, "enabled"@]) is Some,
        document::node_at(u, seq!["workflow"@, "enabled"@])->0 is Flag,
    ensures
        schema::document_reading(document::entries_of(u)) is Ok,
{
    let e = document::entries_of(t);
    lemma_grown2(t, u, "workflow"@, "enabled"@);
    lemma_root_last(e);
    let sub = document::child(u, "workflow"@)->0;
    let x = document::child(sub, "enabled"@)->0;
    let old = document::entries_of(base(t, "workflow"@));
    let f = schema::workflow_step();
    let ok = |y: (Seq<char>, TomlView)| y.0 == "enabled"@ && y.1 is Flag;
    let w0 = if document::entry(e, "workflow"@) is Some {
        choose|w: Workflow| (#[trigger] schema::walk(old, w, f)) is Ok
    } else {
        schema::empty_draft().workflow
    };
    assert(schema::walk(old, w0, f) is Ok);
    assert forall|d: schema::Draft| (#[trigger] schema::root_entry_reading(d, "workflow"@, sub)) is Ok by {
        lemma_words();
        lemma_walk_put(old, "enabled"@, x, w0, d.workflow, f, ok);
    }
    lemma_root_put(e, "workflow"@, sub);
}

proof fn lemma_defaults_edit(t: TomlView, u: TomlView, field: Seq<char>, key: Seq<char>)
    requires
        schema::is_slot(field),
        grown(t, u, seq!["models"@, "defaults"@, field], false),
        schema::document_reading(document::entries_of(t)) is Ok,
        ({
            let x = document::node_at(u, seq!["models"@, "defaults"@, field])->0;
            &&& field == "model"@ ==> schema::model_reading(x, key) is Ok && settings::reference_problem(
                u,
                schema::referenced(schema::model_reading(x, key)->Ok_0),
                key,
            ) is None
            &&& field == "effort"@ ==> schema::effort_reading(x, key) is Ok
            &&& field == "fallback"@ ==> schema::fallback_reading(x, key) is Ok && settings::reference_problem(
                u,
                schema::chain_referenced(schema::fallback_reading(x, key)->Ok_0),
                key,
            ) is None
        }),
    ensures
        schema::document_reading(document::entries_of(u)) is Ok,
{
    lemma_words();
    let e = document::entries_of(t);
    let rest = seq![field];
    assert(seq!["models"@, "defaults"@, field] =~= seq!["models"@, "defaults"@] + rest);
    lemma_grown_front(t, u, "models"@, "defaults"@, rest);
    let sub = document::child(u, "models"@)->0;
    let v = document::child(sub, "defaults"@)->0;
    let x = document::child(v, field)->0;
    assert(rest.skip(1) =~= Seq::<Seq<char>>::empty());
    assert(document::node_at(v, rest) == document::node_at(x, rest.skip(1)));
    let d = schema::walk(e, schema::empty_draft(), schema::root_step())->Ok_0;
    let table = base(t, "models"@);
    let old = base(table, "defaults"@);
    lemma_root_last(e);
    assert(document::entry(e, "models"@) is Some);
    lemma_models_ordered(document::entries_of(table));
    assert(document::entry(document::entries_of(table), "defaults"@) is Some);
    lemma_sound_of(d);
    if field == "model"@ {
        lemma_model_key(x, key, "models.defaults.model"@);
        lemma_references(
            e,
            u,
            "models"@,
            sub,
            schema::referenced(schema::model_reading(x, key)->Ok_0),
            key,
        );
    } else if field == "effort"@ {
        lemma_effort_key(x, key, "models.defaults.effort"@);
    } else {
        lemma_fallback_key(x, key, "models.defaults.fallback"@);
        lemma_references(
            e,
            u,
            "models"@,
            sub,
            schema::chain_referenced(schema::fallback_reading(x, key)->Ok_0),
            key,
        );
    }
    lemma_defaults_put(old, v, field, x);
    assert(base(TomlView::Table(e), "models"@) == table);
    lemma_models_edit(e, sub, "defaults"@, v, Seq::empty());
}

proof fn lemma_group_edit(t: TomlView, u: TomlView, name: Seq<char>, key: Seq<char>)
    requires
        grown(t, u, seq!["models"@, "groups"@, name, "model"@], false),
        schema::document_reading(document::entries_of(t)) is Ok,
        ({
            let x = document::node_at(u, seq!["models"@, "groups"@, name, "model"@])->0;
            schema::model_reading(x, key) is Ok && settings::reference_problem(
                u,
                schema::referenced(schema::model_reading(x, key)->Ok_0),
                key,
            ) is None
        }),
    ensures
        schema::document_reading(document::entries_of(u)) is Ok,
{
    lemma_words();
    let e = document::entries_of(t);
    let rest = seq![name, "model"@];
    assert(seq!["models"@, "groups"@, name, "model"@] =~= seq!["models"@, "groups"@] + rest);
    lemma_grown_front(t, u, "models"@, "groups"@, rest);
    let sub = document::child(u, "models"@)->0;
    let v = document::child(sub, "groups"@)->0;
    let table = base(t, "models"@);
    let groups = base(table, "groups"@);
    lemma_grown2(groups, v, name, "model"@);
    let g = document::child(v, name)->0;
    let x = document::child(g, "model"@)->0;
    let old = base(groups, name);
    lemma_root_last(e);
    assert(document::entry(e, "models"@) is Some);
    lemma_models_ordered(document::entries_of(table));
    let full = "models.groups."@ + name + ".model"@;
    lemma_model_key(x, key, full);
    lemma_references(e, u, "models"@, sub, schema::referenced(schema::model_reading(x, key)->Ok_0), key);
    assert(old == TomlView::Table(Seq::empty()) || schema::group_reading(name, old) is Ok) by {
        if document::entry(document::entries_of(table), "groups"@) is Some {
            assert(document::entry(document::entries_of(groups), name) is Some ==> schema::group_reading(
                name,
                document::entry(document::entries_of(groups), name)->0,
            ) is Ok);
        }
    }
    lemma_group_put(name, old, g, x);
    assert(base(TomlView::Table(e), "models"@) == table);
    lemma_models_edit(e, sub, "groups"@, v, name);
}

/// What the value that was set in a purpose has to be.
pub open spec fn purpose_value(u: TomlView, field: Seq<char>, x: TomlView, key: Seq<char>) -> bool {
    if field == "model"@ {
        schema::model_reading(x, key) is Ok && settings::reference_problem(
            u,
            schema::referenced(schema::model_reading(x, key)->Ok_0),
            key,
        ) is None
    } else if field == "effort"@ {
        schema::effort_reading(x, key) is Ok
    } else if field == "fallback"@ {
        schema::fallback_reading(x, key) is Ok && settings::reference_problem(
            u,
            schema::chain_referenced(schema::fallback_reading(x, key)->Ok_0),
            key,
        ) is None
    } else {
        field == "eligible"@ && schema::names_reading(
            x,
            key,
            schema::eligible_not_array(),
            schema::eligible_entry_not_string(),
        ) is Ok
    }
}

proof fn lemma_purpose_edit(
    t: TomlView,
    u: TomlView,
    name: Seq<char>,
    field: Seq<char>,
    key: Seq<char>,
)
    requires
        grown(t, u, seq!["models"@, "purposes"@, name, field], false),
        schema::document_reading(document::entries_of(t)) is Ok,
        purpose_value(
            u,
            field,
            document::node_at(u, seq!["models"@, "purposes"@, name, field])->0,
            key,
        ),
    ensures
        schema::document_reading(document::entries_of(u)) is Ok,
{
    lemma_words();
    let e = document::entries_of(t);
    let rest = seq![name, field];
    assert(seq!["models"@, "purposes"@, name, field] =~= seq!["models"@, "purposes"@] + rest);
    lemma_grown_front(t, u, "models"@, "purposes"@, rest);
    let sub = document::child(u, "models"@)->0;
    let v = document::child(sub, "purposes"@)->0;
    let table = base(t, "models"@);
    let purposes = base(table, "purposes"@);
    lemma_grown2(purposes, v, name, field);
    let g = document::child(v, name)->0;
    let x = document::child(g, field)->0;
    let old = base(purposes, name);
    let d = schema::walk(e, schema::empty_draft(), schema::root_step())->Ok_0;
    let c = d.connections;
    lemma_root_last(e);
    assert(document::entry(e, "models"@) is Some);
    lemma_models_ordered(document::entries_of(table));
    lemma_sound_of(d);
    let full = "models.purposes."@ + name;
    let p = schema::walk(document::entries_of(old), config::empty_purpose(), schema::purpose_step(full))->Ok_0;
    assert(schema::walk(document::entries_of(old), config::empty_purpose(), schema::purpose_step(full)) is Ok
        && purpose_sound(c, d.models.groups, p)) by {
        if document::entry(document::entries_of(table), "purposes"@) is Some && document::entry(
            document::entries_of(purposes),
            name,
        ) is Some {
            assert(names::lookup(d.models.purposes, name) is Some);
        } else {
            assert(document::entries_of(old) =~= Seq::empty());
        }
    }
    if field == "model"@ {
        lemma_model_key(x, key, schema::dotted(full, "model"@));
        lemma_references(e, u, "models"@, sub, schema::referenced(schema::model_reading(x, key)->Ok_0), key);
    } else if field == "effort"@ {
        lemma_effort_key(x, key, schema::dotted(full, "effort"@));
    } else if field == "fallback"@ {
        lemma_fallback_key(x, key, schema::dotted(full, "fallback"@));
        lemma_references(
            e,
            u,
            "models"@,
            sub,
            schema::chain_referenced(schema::fallback_reading(x, key)->Ok_0),
            key,
        );
    }
    lemma_purpose_put(document::entries_of(old), full, field, x);
    assert(schema::purpose_field_reading(p, full, field, x) is Ok);
    assert(schema::purpose_reading(name, g) == schema::purpose_field_reading(p, full, field, x));
    assert(purpose_sound(c, d.models.groups, schema::purpose_reading(name, g)->Ok_0));
    assert(base(TomlView::Table(e), "models"@) == table);
    lemma_models_edit(e, sub, "purposes"@, v, name);
}

/// An accepted edit never makes a valid document invalid: what booted before
/// still boots.
pub proof fn law_accepted_set_keeps_a_document_valid(
    raw: Option<DocumentMut>,
    key: Seq<char>,
    v: settings::ConfigValueView,
)
    requires
        settings::set_outcome(raw, key, v) is Ok,
        schema::document_reading(document::entries_of(document::document_state(raw->0).tree)) is Ok,
    ensures
        schema::document_reading(document::entries_of(settings::set_outcome(raw, key, v)->Ok_0.tree)) is Ok,
{
    let target = edit::target_reading(key)->Ok_0;
    let table = edit::target_table(target);
    let field = edit::target_field(target);
    let p = table.push(field);
    let s0 = document::document_state(raw->0);
    let s = document::with_table(s0, table)->0;
    let w = settings::written(v);
    let t = s0.tree;
    let u = settings::set_outcome(raw, key, v)->Ok_0.tree;
    assert(p.drop_last() =~= table);
    assert(table.take(table.len() as int) =~= table);
    assert(p.take(table.len() as int) =~= table);
    lemma_grown_tables(s0, table, table.len());
    lemma_grown_field(s, p, w);
    lemma_grown_then(t, s.tree, u, table, p, false);
    laws::lemma_written_is_flat(v);
    fields::law_set_field(s, p, w, field, p);
    assert(document::node_at(u, p) is Some);
    match target {
        EditTarget::WorkflowEnabled => {
            assert(p =~= seq!["workflow"@, "enabled"@]);
            lemma_workflow_edit(t, u);
        },
        EditTarget::DefaultsModel => {
            assert(p =~= seq!["models"@, "defaults"@, "model"@]);
            lemma_words();
            lemma_defaults_edit(t, u, "model"@, key);
        },
        EditTarget::DefaultsEffort => {
            assert(p =~= seq!["models"@, "defaults"@, "effort"@]);
            lemma_words();
            lemma_defaults_edit(t, u, "effort"@, key);
        },
        EditTarget::DefaultsFallback => {
            assert(p =~= seq!["models"@, "defaults"@, "fallback"@]);
            lemma_words();
            lemma_defaults_edit(t, u, "fallback"@, key);
        },
        EditTarget::GroupModel(name) => {
            assert(p =~= seq!["models"@, "groups"@, name, "model"@]);
            lemma_group_edit(t, u, name, key);
        },
        EditTarget::PurposeModel(name) => {
            assert(p =~= seq!["models"@, "purposes"@, name, "model"@]);
            lemma_purpose_edit(t, u, name, "model"@, key);
        },
        EditTarget::PurposeEffort(name) => {
            assert(p =~= seq!["models"@, "purposes"@, name, "effort"@]);
            lemma_words();
            lemma_purpose_edit(t, u, name, "effort"@, key);
        },
        EditTarget::PurposeFallback(name) => {
            assert(p =~= seq!["models"@, "purposes"@, name, "fallback"@]);
            lemma_words();
            lemma_purpose_edit(t, u, name, "fallback"@, key);
        },
        EditTarget::PurposeEligible(name) => {
            assert(p =~= seq!["models"@, "purposes"@, name, "eligible"@]);
            lemma_words();
            lemma_purpose_edit(t, u, name, "eligible"@, key);
        },
    }
}

// ----- resets ---------------------------------------------------------------

/// One entry more of a table without a key.
proof fn lemma_drop_push(e: Entries, k: Seq<char>)
    requires
        e.len() > 0,
    ensures
        document::drop_key(e, k) == (if e.last().0 == k {
            document::drop_key(e.drop_last(), k)
        } else {
            document::drop_key(e.drop_last(), k).push(e.last())
        }),
{
    reveal(Seq::filter);
}

proof fn lemma_walk_drop<A>(
    e: Entries,
    k: Seq<char>,
    a: A,
    b: A,
    step: spec_fn(A, (Seq<char>, TomlView)) -> Result<A, Rejection>,
    ok: spec_fn((Seq<char>, TomlView)) -> bool,
)
    requires
        forall|c: A, x: (Seq<char>, TomlView)| (#[trigger] step(c, x)) is Ok == ok(x),
        schema::walk(e, a, step) is Ok,
    ensures
        schema::walk(document::drop_key(e, k), b, step) is Ok,
    decreases e.len(),
{
    reveal(Seq::filter);
    if e.len() > 0 {
        lemma_walk_drop(e.drop_last(), k, a, b, step, ok);
        lemma_drop_push(e, k);
        let d = document::drop_key(e.drop_last(), k);
        assert(ok(e.last())) by {
            assert(step(schema::walk(e.drop_last(), a, step)->Ok_0, e.last()) is Ok);
        }
        if e.last().0 != k {
            assert(d.push(e.last()).drop_last() =~= d);
        }
    }
}

/// A purpose without one field.
pub open spec fn without_field(p: PurposeView, field: Seq<char>) -> PurposeView {
    if field == "model"@ {
        PurposeView { model: None, ..p }
    } else if field == "effort"@ {
        PurposeView { effort: None, ..p }
    } else if field == "fallback"@ {
        PurposeView { fallback: None, ..p }
    } else {
        PurposeView { eligible: None, ..p }
    }
}

proof fn lemma_purpose_drop(e: Entries, key: Seq<char>, field: Seq<char>)
    requires
        schema::walk(e, config::empty_purpose(), schema::purpose_step(key)) is Ok,
        field == "model"@ || field == "effort"@ || field == "fallback"@ || field == "eligible"@,
    ensures
        schema::walk(document::drop_key(e, field), config::empty_purpose(), schema::purpose_step(key)) == Ok::<
            PurposeView,
            Rejection,
        >(without_field(schema::walk(e, config::empty_purpose(), schema::purpose_step(key))->Ok_0, field)),
    decreases e.len(),
{
    lemma_words();
    reveal(Seq::filter);
    if e.len() > 0 {
        let r = e.drop_last();
        let d = document::drop_key(r, field);
        lemma_purpose_drop(r, key, field);
        lemma_drop_push(e, field);
        if e.last().0 != field {
            assert(d.push(e.last()).drop_last() =~= d);
        }
    }
}

proof fn lemma_workflow_reset(t: TomlView, u: TomlView)
    requires
        grown(t, u, seq!["workflow"@], false),
        schema::document_reading(document::entries_of(t)) is Ok,
        document::table_at(t, seq!["workflow"@]),
        document::node_at(u, seq!["workflow"@]) == Some(
            document::with_entries(
                document::node_at(t, seq!["workflow"@])->0,
                document::drop_key(document::entries_of(document::node_at(t, seq!["workflow"@])->0), "enabled"@),
            ),
        ),
    ensures
        schema::document_reading(document::entries_of(u)) is Ok,
{
    let e = document::entries_of(t);
    let path = seq!["workflow"@];
    assert(path.skip(1) =~= Seq::<Seq<char>>::empty());
    assert(document::node_at(t, path) == document::node_at(document::child(t, "workflow"@)->0, path.skip(1)));
    assert(document::node_at(u, path) == document::node_at(document::child(u, "workflow"@)->0, path.skip(1)));
    let old = document::entries_of(document::child(t, "workflow"@)->0);
    let sub = document::child(u, "workflow"@)->0;
    lemma_root_last(e);
    let f = schema::workflow_step();
    let ok = |y: (Seq<char>, TomlView)| y.0 == "enabled"@ && y.1 is Flag;
    let w0 = choose|w: Workflow| (#[trigger] schema::walk(old, w, f)) is Ok;
    assert forall|d: schema::Draft| (#[trigger] schema::root_entry_reading(d, "workflow"@, sub)) is Ok by {
        lemma_words();
        lemma_walk_drop(old, "enabled"@, w0, d.workflow, f, ok);
    }
    lemma_root_put(e, "workflow"@, sub);
}

proof fn lemma_purpose_reset(t: TomlView, u: TomlView, name: Seq<char>, field: Seq<char>)
    requires
        field == "model"@ || field == "effort"@ || field == "fallback"@ || field == "eligible"@,
        grown(t, u, seq!["models"@, "purposes"@, name], false),
        schema::document_reading(document::entries_of(t)) is Ok,
        document::table_at(t, seq!["models"@, "purposes"@, name]),
        document::node_at(u, seq!["models"@, "purposes"@, name]) == Some(
            document::with_entries(
                document::node_at(t, seq!["models"@, "purposes"@, name])->0,
                document::drop_key(
                    document::entries_of(document::node_at(t, seq!["models"@, "purposes"@, name])->0),
                    field,
                ),
            ),
        ),
    ensures
        schema::document_reading(document::entries_of(u)) is Ok,
{
    lemma_words();
    let e = document::entries_of(t);
    let path = seq!["models"@, "purposes"@, name];
    let rest = seq![name];
    assert(path =~= seq!["models"@, "purposes"@] + rest);
    lemma_grown_front(t, u, "models"@, "purposes"@, rest);
    let sub = document::child(u, "models"@)->0;
    let v = document::child(sub, "purposes"@)->0;
    let g = document::child(v, name)->0;
    let table = base(t, "models"@);
    let purposes = base(table, "purposes"@);
    assert(rest.skip(1) =~= Seq::<Seq<char>>::empty());
    assert(document::node_at(v, rest) == document::node_at(g, rest.skip(1)));
    lemma_node3(t, "models"@, "purposes"@, name);
    let old = document::child(purposes, name)->0;
    let d = schema::walk(e, schema::empty_draft(), schema::root_step())->Ok_0;
    lemma_root_last(e);
    assert(document::entry(e, "models"@) is Some);
    lemma_models_ordered(document::entries_of(table));
    lemma_sound_of(d);
    let full = "models.purposes."@ + name;
    assert(document::entry(document::entries_of(purposes), name) is Some);
    assert(names::lookup(d.models.purposes, name) is Some);
    lemma_purpose_drop(document::entries_of(old), full, field);
    assert(base(TomlView::Table(e), "models"@) == table);
    lemma_models_edit(e, sub, "purposes"@, v, name);
}

proof fn lemma_node3(t: TomlView, a: Seq<char>, b: Seq<char>, c: Seq<char>)
    requires
        document::node_at(t, seq![a, b, c]) is Some,
    ensures
        document::child(t, a) is Some,
        document::child(document::child(t, a)->0, b) is Some,
        document::child(document::child(document::child(t, a)->0, b)->0, c) == document::node_at(t, seq![a, b, c]),
{
    let p = seq![a, b, c];
    let x = document::child(t, a)->0;
    let y = document::child(x, b)->0;
    assert(p.skip(1) =~= seq![b, c]);
    assert(seq![b, c].skip(1) =~= seq![c]);
    assert(seq![c].skip(1) =~= Seq::<Seq<char>>::empty());
    assert(document::node_at(t, p) == document::node_at(x, seq![b, c]));
    assert(document::node_at(x, seq![b, c]) == document::node_at(y, seq![c]));
    assert(document::node_at(y, seq![c]) == document::node_at(document::child(y, c)->0, seq![c].skip(1)));
}

/// An accepted reset never makes a valid document invalid.
pub proof fn law_accepted_reset_keeps_a_document_valid(raw: Option<DocumentMut>, key: Seq<char>)
    requires
        settings::reset_outcome(raw, key) is Ok,
        schema::document_reading(document::entries_of(document::document_state(raw->0).tree)) is Ok,
    ensures
        schema::document_reading(document::entries_of(settings::reset_outcome(raw, key)->Ok_0.tree)) is Ok,
{
    let target = edit::target_reading(key)->Ok_0;
    let table = edit::target_table(target);
    let field = edit::target_field(target);
    let t = document::document_state(raw->0).tree;
    let u = settings::reset_outcome(raw, key)->Ok_0.tree;
    if document::table_at(t, table) {
        document::lemma_drop_child(t, table, field);
        fields::lemma_entry_drop(t, table, field);
        let node = document::node_at(t, table)->0;
        lemma_grown_at(
            t,
            table,
            document::with_entries(node, document::drop_key(document::entries_of(node), field)),
        );
        match target {
            EditTarget::WorkflowEnabled => {
                lemma_workflow_reset(t, u);
            },
            EditTarget::PurposeModel(name) => {
                lemma_purpose_reset(t, u, name, "model"@);
            },
            EditTarget::PurposeEffort(name) => {
                lemma_purpose_reset(t, u, name, "effort"@);
            },
            EditTarget::PurposeFallback(name) => {
                lemma_purpose_reset(t, u, name, "fallback"@);
            },
            EditTarget::PurposeEligible(name) => {
                lemma_purpose_reset(t, u, name, "eligible"@);
            },
            _ => {},
        }
    }
}

} // verus!
