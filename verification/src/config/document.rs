//! The retained TOML document: its tree of values, the comments its values
//! carry, and the primitive edits that keep everything else as it was.

use crate::json;
use crate::text::{self, same};
use toml_edit::{Decor, DocumentMut, Item, RawString, Table, Value};
use vstd::prelude::*;

verus! {

/// One node of a TOML document. Dates, floats and arrays of tables are
/// `Other`: no setting takes one.
#[derive(Debug)]
pub enum Toml {
    Text(String),
    Int(i64),
    Flag(bool),
    List(Vec<Toml>),
    Inline(Vec<(String, Toml)>),
    Table(Vec<(String, Toml)>),
    Other,
}

/// The entries of a table, in document order.
pub type Entries = Seq<(Seq<char>, TomlView)>;

/// The mathematical value of a [`Toml`] tree.
pub enum TomlView {
    Text(Seq<char>),
    Int(i64),
    Flag(bool),
    List(Seq<TomlView>),
    Inline(Seq<(Seq<char>, TomlView)>),
    Table(Seq<(Seq<char>, TomlView)>),
    Other,
}

/// The value of a tree.
pub open spec fn toml_view(t: Toml) -> TomlView
    decreases t,
{
    match t {
        Toml::Text(text) => TomlView::Text(text@),
        Toml::Int(n) => TomlView::Int(n),
        Toml::Flag(b) => TomlView::Flag(b),
        Toml::List(items) => TomlView::List(list_views(items@)),
        Toml::Inline(entries) => TomlView::Inline(entry_views(entries@)),
        Toml::Table(entries) => TomlView::Table(entry_views(entries@)),
        Toml::Other => TomlView::Other,
    }
}

/// The values of a list of trees.
pub open spec fn list_views(items: Seq<Toml>) -> Seq<TomlView>
    decreases items,
{
    if items.len() == 0 {
        Seq::empty()
    } else {
        list_views(items.drop_last()).push(toml_view(items.last()))
    }
}

/// The values of a list of entries.
pub open spec fn entry_views(entries: Seq<(String, Toml)>) -> Entries
    decreases entries,
{
    if entries.len() == 0 {
        Seq::empty()
    } else {
        entry_views(entries.drop_last()).push((entries.last().0@, toml_view(entries.last().1)))
    }
}

impl View for Toml {
    type V = TomlView;

    open spec fn view(&self) -> TomlView {
        toml_view(*self)
    }
}

pub broadcast proof fn lemma_list_views(items: Seq<Toml>)
    ensures
        (#[trigger] list_views(items)).len() == items.len(),
        forall|i: int|
            0 <= i < items.len() ==> #[trigger] list_views(items)[i] == toml_view(items[i]),
    decreases items.len(),
{
    if items.len() > 0 {
        lemma_list_views(items.drop_last());
    }
}

pub broadcast proof fn lemma_entry_views(entries: Seq<(String, Toml)>)
    ensures
        (#[trigger] entry_views(entries)).len() == entries.len(),
        forall|i: int|
            0 <= i < entries.len() ==> #[trigger] entry_views(entries)[i] == (
                entries[i].0@,
                toml_view(entries[i].1),
            ),
    decreases entries.len(),
{
    if entries.len() > 0 {
        lemma_entry_views(entries.drop_last());
    }
}

pub broadcast group group_toml_views {
    lemma_list_views,
    lemma_entry_views,
}

/// A table or an inline table.
pub open spec fn table_like(t: TomlView) -> bool {
    t is Table || t is Inline
}

/// The entries of a table or an inline table; nothing for any other node.
pub open spec fn entries_of(t: TomlView) -> Entries {
    match t {
        TomlView::Table(e) => e,
        TomlView::Inline(e) => e,
        _ => Seq::empty(),
    }
}

/// The same kind of table with other entries.
pub open spec fn with_entries(t: TomlView, e: Entries) -> TomlView {
    match t {
        TomlView::Inline(_) => TomlView::Inline(e),
        _ => TomlView::Table(e),
    }
}

/// The value of a key.
pub open spec fn entry(e: Entries, key: Seq<char>) -> Option<TomlView>
    decreases e.len(),
{
    if e.len() == 0 {
        None
    } else if e.last().0 == key {
        Some(e.last().1)
    } else {
        entry(e.drop_last(), key)
    }
}

/// The value of a key of a node.
pub open spec fn child(t: TomlView, key: Seq<char>) -> Option<TomlView> {
    entry(entries_of(t), key)
}

pub open spec fn opt_toml(v: Option<&Toml>) -> Option<TomlView> {
    match v {
        Some(t) => Some(t@),
        None => None,
    }
}

/// The text of a string node.
pub open spec fn toml_text(v: Option<TomlView>) -> Option<Seq<char>> {
    match v {
        Some(TomlView::Text(t)) => Some(t),
        _ => None,
    }
}

impl Toml {
    /// The entries, when this is a table or an inline table.
    pub fn entries(&self) -> (r: Option<&Vec<(String, Toml)>>)
        ensures
            r is Some <==> table_like(self@),
            r is Some ==> entry_views(r->0@) == entries_of(self@),
    {
        match self {
            Toml::Table(e) => {
                Some(e)
            },
            Toml::Inline(e) => {
                Some(e)
            },
            _ => None,
        }
    }

    /// The items, when this is an array.
    pub fn items(&self) -> (r: Option<&Vec<Toml>>)
        ensures
            r is Some <==> self@ is List,
            r is Some ==> self@ == TomlView::List(list_views(r->0@)),
    {
        match self {
            Toml::List(items) => {
                Some(items)
            },
            _ => None,
        }
    }

    /// The text, when this is a string.
    pub fn as_text(&self) -> (r: Option<&str>)
        ensures
            json::opt_str(r) == toml_text(Some(self@)),
    {
        match self {
            Toml::Text(t) => Some(t.as_str()),
            _ => None,
        }
    }

    /// The value of a key, when this is a table that has it.
    pub fn get(&self, key: &str) -> (r: Option<&Toml>)
        ensures
            opt_toml(r) == child(self@, key@),
    {
        match self.entries() {
            Some(e) => find_entry(e, key),
            None => None,
        }
    }
}

/// The value of a key in a list of entries.
pub fn find_entry<'a>(entries: &'a Vec<(String, Toml)>, key: &str) -> (r: Option<&'a Toml>)
    ensures
        opt_toml(r) == entry(entry_views(entries@), key@),
{
    broadcast use group_toml_views;

    let ghost all = entry_views(entries@);
    let mut i: usize = entries.len();
    assert(all.take(all.len() as int) =~= all);
    while i > 0
        invariant
            i <= entries.len(),
            all == entry_views(entries@),
            all.len() == entries@.len(),
            entry(all, key@) == entry(all.take(i as int), key@),
        decreases i,
    {
        i = i - 1;
        proof {
            lemma_entry_views(entries@);
        }
        assert(all.take(i as int + 1).last() == all[i as int]);
        assert(all.take(i as int + 1).drop_last() =~= all.take(i as int));
        if same(entries[i].0.as_str(), key) {
            return Some(&entries[i].1);
        }
    }
    None
}

// ----- paths and edits of a tree ------------------------------------------

/// A path of keys from the root.
pub type Path = Seq<Seq<char>>;

/// The node a path leads to.
pub open spec fn node_at(t: TomlView, path: Path) -> Option<TomlView>
    decreases path.len(),
{
    if path.len() == 0 {
        Some(t)
    } else {
        match child(t, path[0]) {
            Some(c) => node_at(c, path.skip(1)),
            None => None,
        }
    }
}

/// Position of a key among entries (`-1` when absent).
pub open spec fn key_index(e: Entries, key: Seq<char>) -> int
    decreases e.len(),
{
    if e.len() == 0 {
        -1
    } else if e.last().0 == key {
        e.len() - 1
    } else {
        key_index(e.drop_last(), key)
    }
}

/// Sets a key: an existing entry keeps its place, a new one goes last.
pub open spec fn put(e: Entries, key: Seq<char>, v: TomlView) -> Entries {
    if key_index(e, key) >= 0 {
        e.update(key_index(e, key), (key, v))
    } else {
        e.push((key, v))
    }
}

/// Drops every entry of a key.
pub open spec fn drop_key(e: Entries, key: Seq<char>) -> Entries {
    e.filter(|x: (Seq<char>, TomlView)| x.0 != key)
}

/// Sets the node at a path; a path that does not lead through tables changes
/// nothing.
pub open spec fn put_at(t: TomlView, path: Path, v: TomlView) -> TomlView
    decreases path.len(),
{
    if path.len() == 0 {
        v
    } else if !table_like(t) {
        t
    } else if path.len() == 1 {
        with_entries(t, put(entries_of(t), path[0], v))
    } else {
        match child(t, path[0]) {
            Some(c) => with_entries(
                t,
                put(entries_of(t), path[0], put_at(c, path.skip(1), v)),
            ),
            None => t,
        }
    }
}

/// Drops the node at a non-empty path.
pub open spec fn drop_at(t: TomlView, path: Path) -> TomlView
    recommends
        path.len() > 0,
    decreases path.len(),
{
    if path.len() == 0 || !table_like(t) {
        t
    } else if path.len() == 1 {
        with_entries(t, drop_key(entries_of(t), path[0]))
    } else {
        match child(t, path[0]) {
            Some(c) => with_entries(t, put(entries_of(t), path[0], drop_at(c, path.skip(1)))),
            None => t,
        }
    }
}

/// One path is an initial part of the other.
pub open spec fn related(p: Path, q: Path) -> bool {
    ||| (p.len() <= q.len() && q.take(p.len() as int) == p)
    ||| (q.len() <= p.len() && p.take(q.len() as int) == q)
}

pub proof fn lemma_entry_index(e: Entries, key: Seq<char>)
    ensures
        -1 <= key_index(e, key) < e.len(),
        key_index(e, key) >= 0 ==> e[key_index(e, key)].0 == key && entry(e, key) == Some(
            e[key_index(e, key)].1,
        ),
        key_index(e, key) < 0 <==> entry(e, key) is None,
        forall|j: int| key_index(e, key) < j < e.len() ==> (#[trigger] e[j]).0 != key,
    decreases e.len(),
{
    if e.len() > 0 && e.last().0 != key {
        let d = e.drop_last();
        lemma_entry_index(d, key);
        assert forall|j: int| key_index(e, key) < j < e.len() implies (#[trigger] e[j]).0
            != key by {
            if j < d.len() {
                assert(d[j].0 != key);
            }
        }
    }
}

pub proof fn lemma_entry_at(e: Entries, key: Seq<char>, i: int)
    requires
        0 <= i < e.len(),
        e[i].0 == key,
        forall|j: int| i < j < e.len() ==> (#[trigger] e[j]).0 != key,
    ensures
        key_index(e, key) == i,
        entry(e, key) == Some(e[i].1),
    decreases e.len(),
{
    if e.last().0 != key {
        let d = e.drop_last();
        assert(forall|j: int| i < j < d.len() ==> (#[trigger] d[j]).0 != key);
        lemma_entry_at(d, key, i);
    }
}

pub proof fn lemma_entry_none(e: Entries, key: Seq<char>)
    requires
        forall|j: int| 0 <= j < e.len() ==> (#[trigger] e[j]).0 != key,
    ensures
        key_index(e, key) == -1,
        entry(e, key) is None,
    decreases e.len(),
{
    if e.len() > 0 {
        let d = e.drop_last();
        assert(forall|j: int| 0 <= j < d.len() ==> (#[trigger] d[j]).0 != key);
        lemma_entry_none(d, key);
    }
}

/// Setting a key sets that key and leaves every other one.
pub proof fn lemma_put(e: Entries, key: Seq<char>, v: TomlView, other: Seq<char>)
    ensures
        entry(put(e, key, v), key) == Some(v),
        other != key ==> entry(put(e, key, v), other) == entry(e, other),
{
    lemma_entry_index(e, key);
    lemma_entry_index(e, other);
    let p = put(e, key, v);
    let k = key_index(e, key);
    if k >= 0 {
        assert forall|j: int| k < j < p.len() implies (#[trigger] p[j]).0 != key by {
            assert(e[j].0 != key);
        }
        lemma_entry_at(p, key, k);
    } else {
        lemma_entry_at(p, key, e.len() as int);
    }
    if other != key {
        let o = key_index(e, other);
        if o >= 0 {
            assert forall|j: int| o < j < p.len() implies (#[trigger] p[j]).0 != other by {
                if j < e.len() {
                    assert(e[j].0 != other);
                }
            }
            lemma_entry_at(p, other, o);
        } else {
            assert forall|j: int| 0 <= j < p.len() implies (#[trigger] p[j]).0 != other by {
                if j < e.len() {
                    assert(e[j].0 != other);
                }
            }
            lemma_entry_none(p, other);
        }
    }
}

pub proof fn lemma_key_index_is(e: Entries, k: Seq<char>, i: int)
    requires
        0 <= i < e.len(),
        e[i].0 == k,
        forall|j: int| i < j < e.len() ==> (#[trigger] e[j]).0 != k,
    ensures
        key_index(e, k) == i,
{
    lemma_entry_index(e, k);
    let n = key_index(e, k);
    if n < i {
        assert(e[i].0 != k);
    }
}

pub proof fn lemma_put_twice(e: Entries, k: Seq<char>, a: TomlView, b: TomlView)
    ensures
        put(put(e, k, a), k, b) == put(e, k, b),
{
    lemma_entry_index(e, k);
    let n = key_index(e, k);
    let p = put(e, k, a);
    if n >= 0 {
        assert forall|j: int| n < j < p.len() implies (#[trigger] p[j]).0 != k by {
            assert(e[j].0 != k);
        }
        lemma_key_index_is(p, k, n);
    } else {
        lemma_key_index_is(p, k, e.len() as int);
    }
    assert(put(p, k, b) =~= put(e, k, b));
}

/// Of two nodes set at one path the second stays.
pub proof fn lemma_put_at_twice(t: TomlView, path: Path, a: TomlView, b: TomlView)
    requires
        path.len() > 0,
        node_at(t, path.drop_last()) is Some,
        table_like(node_at(t, path.drop_last())->0),
    ensures
        put_at(put_at(t, path, a), path, b) == put_at(t, path, b),
    decreases path.len(),
{
    let e = entries_of(t);
    let k = path[0];
    if path.len() == 1 {
        assert(path.drop_last() =~= Seq::<Seq<char>>::empty());
        lemma_put_twice(e, k, a, b);
    } else {
        let rest = path.skip(1);
        assert(path.drop_last()[0] == k);
        assert(path.drop_last().skip(1) =~= rest.drop_last());
        let c = child(t, k)->0;
        lemma_put_at_twice(c, rest, a, b);
        lemma_put(e, k, put_at(c, rest, a), k);
        lemma_put_twice(e, k, put_at(c, rest, a), put_at(c, rest, b));
    }
}

/// Setting the node at a path sets it there and leaves every node whose path
/// is unrelated.
pub proof fn lemma_put_at(t: TomlView, path: Path, v: TomlView, q: Path)
    requires
        path.len() > 0,
        node_at(t, path.drop_last()) is Some,
        table_like(node_at(t, path.drop_last())->0),
    ensures
        node_at(put_at(t, path, v), path) == Some(v),
        !related(path, q) ==> node_at(put_at(t, path, v), q) == node_at(t, q),
    decreases path.len(),
{
    let p = put_at(t, path, v);
    let rest = path.skip(1);
    if q.len() == 0 {
        assert(path.take(0) =~= q);
    }
    if path.len() == 1 {
        assert(path.drop_last() =~= Seq::<Seq<char>>::empty());
        lemma_put(entries_of(t), path[0], v, path[0]);
        assert(rest =~= Seq::<Seq<char>>::empty());
        if !related(path, q) {
            lemma_put(entries_of(t), path[0], v, q[0]);
            if q[0] == path[0] {
                assert(q.take(1) =~= path);
            }
        }
    } else {
        assert(path.drop_last()[0] == path[0]);
        assert(path.drop_last().skip(1) =~= rest.drop_last());
        let c = child(t, path[0])->0;
        let nc = put_at(c, rest, v);
        lemma_put(entries_of(t), path[0], nc, path[0]);
        lemma_put_at(c, rest, v, q.skip(1));
        if !related(path, q) {
            lemma_put(entries_of(t), path[0], nc, q[0]);
            if q[0] == path[0] {
                let q2 = q.skip(1);
                if related(rest, q2) {
                    if rest.len() <= q2.len() && q2.take(rest.len() as int) == rest {
                        assert(q.take(path.len() as int) =~= path) by {
                            assert forall|j: int| 0 <= j < path.len() implies q[j] == path[j] by {
                                if j > 0 {
                                    assert(q2.take(rest.len() as int)[j - 1] == rest[j - 1]);
                                }
                            }
                        }
                    } else {
                        assert(path.take(q.len() as int) =~= q) by {
                            assert forall|j: int| 0 <= j < q.len() implies q[j] == path[j] by {
                                if j > 0 {
                                    assert(rest.take(q2.len() as int)[j - 1] == q2[j - 1]);
                                }
                            }
                        }
                    }
                    assert(false);
                }
            }
        }
    }
}

// ----- the document behind the tree -----------------------------------------

/// Declares `toml_edit::DocumentMut` as an opaque type.
#[verifier::external_type_specification]
#[verifier::external_body]
pub struct ExDocument(DocumentMut);

/// Declares `toml_edit::Item` as an opaque type.
#[verifier::external_type_specification]
#[verifier::external_body]
pub struct ExItem(Item);

/// Declares `toml_edit::Value` as an opaque type.
#[verifier::external_type_specification]
#[verifier::external_body]
pub struct ExValue(Value);

/// Declares `toml_edit::RawString` as an opaque type.
#[verifier::external_type_specification]
#[verifier::external_body]
pub struct ExRawString(RawString);

/// Declares `toml_edit::Decor` as an opaque type.
#[verifier::external_type_specification]
#[verifier::external_body]
pub struct ExDecor(Decor);

/// What a document or a part of it holds: its tree, the text before and after
/// each value on its line (`None` when the parser kept only a position), the
/// trailing comma and the trailing text of each inline table, and the tables
/// without a header line. A path starts at the root of the part.
pub struct DocState {
    pub tree: TomlView,
    pub prefixes: Map<Seq<Seq<char>>, Option<Seq<char>>>,
    pub suffixes: Map<Seq<Seq<char>>, Option<Seq<char>>>,
    pub trailings: Map<Seq<Seq<char>>, (bool, Option<Seq<char>>)>,
    pub implicit: Set<Seq<Seq<char>>>,
}

/// The texts around a value: nothing where one was never set, `Some(None)`
/// where only a position in the source is known.
pub struct DecorView {
    pub prefix: Option<Option<Seq<char>>>,
    pub suffix: Option<Option<Seq<char>>>,
}

/// What a document holds.
pub uninterp spec fn document_state(doc: DocumentMut) -> DocState;

/// The text a document renders to.
pub uninterp spec fn document_text(doc: DocumentMut) -> Seq<char>;

/// What parsing a text as TOML yields: the document, or the parser's message.
pub uninterp spec fn parsed_document(text: Seq<char>) -> Result<DocumentMut, Seq<char>>;

/// What one item holds.
pub uninterp spec fn item_state(item: Item) -> DocState;

/// What one value holds.
pub uninterp spec fn value_state(value: Value) -> DocState;

/// What a decoration holds.
pub uninterp spec fn decor_texts(decor: Decor) -> DecorView;

/// The text of a raw string; nothing where only a position in the source is
/// known.
pub uninterp spec fn raw_text(raw: RawString) -> Option<Seq<char>>;

/// `str::parse::<DocumentMut>`: the document, or `TomlError::message`. The
/// outcome depends on the text alone.
#[verifier::external_body]
pub(crate) fn parse_document(text: &str) -> (r: Result<DocumentMut, String>)
    ensures
        match r {
            Ok(doc) => parsed_document(text@) == Ok::<DocumentMut, Seq<char>>(doc),
            Err(m) => parsed_document(text@) == Err::<DocumentMut, Seq<char>>(m@),
        },
{
    text.parse::<DocumentMut>().map_err(|e| e.message().to_string())
}

/// `DocumentMut::clone`: an equal document.
#[verifier::external_body]
pub(crate) fn copy_document(doc: &DocumentMut) -> (r: DocumentMut)
    ensures
        r == *doc,
{
    doc.clone()
}

/// `DocumentMut::to_string`: the rendered text.
#[verifier::external_body]
pub(crate) fn render_document(doc: &DocumentMut) -> (r: String)
    ensures
        r@ == document_text(*doc),
{
    doc.to_string()
}

/// `DocumentMut::as_item`: the root, which is a table.
#[verifier::external_body]
fn root_item(doc: &DocumentMut) -> (r: &Item)
    ensures
        item_state(*r) == document_state(*doc),
        item_state(*r).tree is Table,
{
    doc.as_item()
}

/// Walks a `Value` into a plain tree: entries and array items keep their
/// order, anything but strings, integers, booleans, arrays and inline tables
/// is `Other`. The entries of an inline table are those that
/// `InlineTable::into_iter` gives: a slot that holds no value is passed over.
#[verifier::external_body]
fn read_value(value: &Value) -> (r: Toml)
    ensures
        r@ == value_state(*value).tree,
{
    match value {
        Value::String(s) => Toml::Text(s.value().clone()),
        Value::Integer(n) => Toml::Int(*n.value()),
        Value::Boolean(b) => Toml::Flag(*b.value()),
        Value::Array(a) => Toml::List(a.iter().map(read_value).collect()),
        Value::InlineTable(t) => {
            Toml::Inline(t.clone().into_iter().map(|(k, v)| (k, read_value(&v))).collect())
        },
        _ => Toml::Other,
    }
}

/// Walks an `Item` into a plain tree: entries keep their order, anything but
/// a value and a table is `Other`.
#[verifier::external_body]
fn read_item(item: &Item) -> (r: Toml)
    ensures
        r@ == item_state(*item).tree,
{
    match item {
        Item::Value(v) => read_value(v),
        Item::Table(t) => {
            Toml::Table(t.iter().map(|(k, i)| (k.to_string(), read_item(i))).collect())
        },
        _ => Toml::Other,
    }
}

/// The tree of a document: always a table.
pub fn tree_of(doc: &DocumentMut) -> (r: Toml)
    ensures
        r@ == document_state(*doc).tree,
        r@ is Table,
{
    read_item(root_item(doc))
}

/// The root entries of a document.
pub fn root_entries(doc: &DocumentMut) -> (r: Vec<(String, Toml)>)
    ensures
        document_state(*doc).tree == TomlView::Table(entry_views(r@)),
{
    match tree_of(doc) {
        Toml::Table(e) => e,
        _ => Vec::new(),
    }
}

/// A value an edit writes: a switch, a word, a list, or a table of fields.
#[derive(Debug)]
pub enum NewValue {
    Flag(bool),
    Word(String),
    List(Vec<NewValue>),
    Fields(Vec<(String, NewValue)>),
}

/// The tree a new value becomes.
pub open spec fn fresh(v: NewValue) -> TomlView
    decreases v,
{
    match v {
        NewValue::Flag(b) => TomlView::Flag(b),
        NewValue::Word(w) => TomlView::Text(w@),
        NewValue::List(items) => TomlView::List(fresh_list(items@)),
        NewValue::Fields(fields) => TomlView::Inline(fresh_fields(fields@)),
    }
}

pub open spec fn fresh_list(items: Seq<NewValue>) -> Seq<TomlView>
    decreases items,
{
    if items.len() == 0 {
        Seq::empty()
    } else {
        fresh_list(items.drop_last()).push(fresh(items.last()))
    }
}

pub open spec fn fresh_fields(fields: Seq<(String, NewValue)>) -> Entries
    decreases fields,
{
    if fields.len() == 0 {
        Seq::empty()
    } else {
        fresh_fields(fields.drop_last()).push((fields.last().0@, fresh(fields.last().1)))
    }
}

impl View for NewValue {
    type V = TomlView;

    open spec fn view(&self) -> TomlView {
        fresh(*self)
    }
}

pub proof fn lemma_fresh_fields(fields: Seq<(String, NewValue)>)
    ensures
        fresh_fields(fields).len() == fields.len(),
        forall|i: int|
            0 <= i < fields.len() ==> #[trigger] fresh_fields(fields)[i] == (
                fields[i].0@,
                fresh(fields[i].1),
            ),
    decreases fields.len(),
{
    if fields.len() > 0 {
        lemma_fresh_fields(fields.drop_last());
    }
}

/// No table of a new value names one field twice.
pub open spec fn well_keyed(v: NewValue) -> bool
    decreases v,
{
    match v {
        NewValue::List(items) => well_keyed_list(items@),
        NewValue::Fields(fields) => distinct_fields(fields@) && well_keyed_fields(fields@),
        _ => true,
    }
}

pub open spec fn well_keyed_list(items: Seq<NewValue>) -> bool
    decreases items,
{
    items.len() == 0 || (well_keyed_list(items.drop_last()) && well_keyed(items.last()))
}

pub open spec fn well_keyed_fields(fields: Seq<(String, NewValue)>) -> bool
    decreases fields,
{
    fields.len() == 0 || (well_keyed_fields(fields.drop_last()) && well_keyed(fields.last().1))
}

pub open spec fn distinct_fields(fields: Seq<(String, NewValue)>) -> bool {
    forall|i: int, j: int|
        0 <= i < j < fields.len() ==> (#[trigger] fields[i]).0@ != (#[trigger] fields[j]).0@
}

pub proof fn lemma_well_keyed_fields(fields: Seq<(String, NewValue)>)
    requires
        forall|i: int| 0 <= i < fields.len() ==> well_keyed((#[trigger] fields[i]).1),
    ensures
        well_keyed_fields(fields),
    decreases fields.len(),
{
    if fields.len() > 0 {
        let d = fields.drop_last();
        assert forall|i: int| 0 <= i < d.len() implies well_keyed((#[trigger] d[i]).1) by {
            assert(d[i] == fields[i]);
        }
        lemma_well_keyed_fields(d);
        assert(well_keyed(fields[fields.len() - 1].1));
    }
}

pub proof fn lemma_fields_well_keyed(fields: Seq<(String, NewValue)>)
    requires
        well_keyed_fields(fields),
    ensures
        forall|i: int| 0 <= i < fields.len() ==> well_keyed((#[trigger] fields[i]).1),
    decreases fields.len(),
{
    if fields.len() > 0 {
        let d = fields.drop_last();
        lemma_fields_well_keyed(d);
        assert forall|i: int| 0 <= i < fields.len() implies well_keyed(
            (#[trigger] fields[i]).1,
        ) by {
            if i < d.len() {
                assert(d[i] == fields[i]);
            }
        }
    }
}

/// Builds a `toml_edit::Value` without any decoration: `Value::from` for the
/// scalars, `collect` for the arrays and the inline tables.
#[verifier::external_body]
pub(crate) fn build_value(v: &NewValue) -> (r: Value)
    requires
        well_keyed(*v),
    ensures
        value_state(r) == bare(v@),
{
    match v {
        NewValue::Flag(b) => Value::from(*b),
        NewValue::Word(w) => Value::from(w.clone()),
        NewValue::List(items) => Value::Array(items.iter().map(build_value).collect()),
        NewValue::Fields(fields) => {
            let pairs = fields.iter().map(|(k, v)| (k.clone(), build_value(v)));
            Value::InlineTable(pairs.collect())
        },
    }
}

// ----- primitive edits ------------------------------------------------------

/// `q` lies strictly below `p`.
pub open spec fn below(p: Path, q: Path) -> bool {
    p.len() < q.len() && q.take(p.len() as int) == p
}

/// A map without what lies strictly below a path.
pub open spec fn cut_below<V>(m: Map<Path, V>, p: Path) -> Map<Path, V> {
    m.remove_keys(Set::new(|q: Path| below(p, q)))
}

/// A map without a path and what lies below it.
pub open spec fn cut_at<V>(m: Map<Path, V>, p: Path) -> Map<Path, V> {
    cut_below(m, p).remove(p)
}

/// No entry of an inline table is an inline table.
pub open spec fn flat(v: TomlView) -> bool {
    forall|i: int| 0 <= i < entries_of(v).len() ==> !(#[trigger] entries_of(v)[i].1 is Inline)
}

/// `q` is `p` or lies below it.
pub open spec fn within(p: Path, q: Path) -> bool {
    p.len() <= q.len() && q.take(p.len() as int) == p
}

/// What a map says of a path and what lies below it, as seen from there.
pub open spec fn map_part<V>(m: Map<Path, V>, p: Path) -> Map<Path, V> {
    Map::new(|q: Path| m.dom().contains(p + q), |q: Path| m[p + q])
}

/// A map with what another says put at a path and below it.
pub open spec fn map_spliced<V>(m: Map<Path, V>, p: Path, n: Map<Path, V>) -> Map<Path, V> {
    Map::new(
        |q: Path|
            if within(p, q) {
                n.dom().contains(q.skip(p.len() as int))
            } else {
                m.dom().contains(q)
            },
        |q: Path|
            if within(p, q) {
                n[q.skip(p.len() as int)]
            } else {
                m[q]
            },
    )
}

pub open spec fn set_part(m: Set<Path>, p: Path) -> Set<Path> {
    Set::new(|q: Path| m.contains(p + q))
}

pub open spec fn set_spliced(m: Set<Path>, p: Path, n: Set<Path>) -> Set<Path> {
    Set::new(
        |q: Path|
            if within(p, q) {
                n.contains(q.skip(p.len() as int))
            } else {
                m.contains(q)
            },
    )
}

/// What stands at a path.
pub open spec fn part(s: DocState, p: Path) -> DocState {
    DocState {
        tree: node_at(s.tree, p)->0,
        prefixes: map_part(s.prefixes, p),
        suffixes: map_part(s.suffixes, p),
        trailings: map_part(s.trailings, p),
        implicit: set_part(s.implicit, p),
    }
}

/// A document with something else at a path.
pub open spec fn spliced(s: DocState, p: Path, t: DocState) -> DocState {
    DocState {
        tree: put_at(s.tree, p, t.tree),
        prefixes: map_spliced(s.prefixes, p, t.prefixes),
        suffixes: map_spliced(s.suffixes, p, t.suffixes),
        trailings: map_spliced(s.trailings, p, t.trailings),
        implicit: set_spliced(s.implicit, p, t.implicit),
    }
}

/// A value without any text around it or inside it.
pub open spec fn bare(v: TomlView) -> DocState {
    DocState {
        tree: v,
        prefixes: Map::empty(),
        suffixes: Map::empty(),
        trailings: Map::new(|q: Path| inline_at(v, q), |q: Path| (false, Some(Seq::empty()))),
        implicit: Set::empty(),
    }
}

/// A table without entries.
pub open spec fn bare_table(implicit: bool) -> DocState {
    DocState {
        tree: TomlView::Table(Seq::empty()),
        prefixes: Map::empty(),
        suffixes: Map::empty(),
        trailings: Map::empty(),
        implicit: if implicit {
            Set::empty().insert(Seq::empty())
        } else {
            Set::empty()
        },
    }
}

/// The entry of a key, where there is one.
pub open spec fn looked_up<V>(m: Map<Path, V>, p: Path) -> Option<V> {
    if m.dom().contains(p) {
        Some(m[p])
    } else {
        None
    }
}

/// A map with an entry set, or dropped where there is none.
pub open spec fn noted<V>(m: Map<Path, V>, p: Path, v: Option<V>) -> Map<Path, V> {
    match v {
        Some(x) => m.insert(p, x),
        None => m.remove(p),
    }
}

/// The texts around what stands at a path.
pub open spec fn decor_at(s: DocState, p: Path) -> DecorView {
    DecorView { prefix: looked_up(s.prefixes, p), suffix: looked_up(s.suffixes, p) }
}

/// A value with these texts around it.
pub open spec fn decorated(s: DocState, p: Path, d: DecorView) -> DocState {
    DocState {
        prefixes: noted(s.prefixes, p, d.prefix),
        suffixes: noted(s.suffixes, p, d.suffix),
        ..s
    }
}

/// A fresh value under a key that was not there.
pub open spec fn state_insert(s: DocState, p: Path, v: TomlView) -> DocState {
    spliced(s, p, bare(v))
}

/// A fresh table under a key that was not there.
pub open spec fn state_insert_table(s: DocState, p: Path, implicit: bool) -> DocState {
    spliced(s, p, bare_table(implicit))
}

/// A fresh value in the place of another: it takes over the texts around it.
pub open spec fn state_replace(s: DocState, p: Path, v: TomlView) -> DocState {
    spliced(s, p, decorated(bare(v), Seq::empty(), decor_at(s, p)))
}

/// A dropped entry takes everything below it along.
pub open spec fn state_remove(s: DocState, p: Path) -> DocState {
    DocState {
        tree: drop_at(s.tree, p),
        prefixes: cut_at(s.prefixes, p),
        suffixes: cut_at(s.suffixes, p),
        trailings: cut_at(s.trailings, p),
        implicit: s.implicit.filter(|q: Path| q != p && !below(p, q)),
    }
}

/// The text after a value.
pub open spec fn state_suffix(s: DocState, p: Path, text: Option<Seq<char>>) -> DocState {
    DocState { suffixes: s.suffixes.insert(p, text), ..s }
}

/// The trailing text of an inline table.
pub open spec fn state_trailing(s: DocState, p: Path, text: Seq<char>) -> DocState {
    DocState { trailings: s.trailings.insert(p, (s.trailings[p].0, Some(text))), ..s }
}

/// The path of a list of keys.
pub open spec fn path_of(path: Vec<String>) -> Path {
    text::texts(path@)
}

/// The path of a key below a list of keys.
pub open spec fn path_to(path: Vec<String>, key: &str) -> Path {
    path_of(path).push(key@)
}

/// A path leads to a table or an inline table.
pub open spec fn table_at(t: TomlView, p: Path) -> bool {
    node_at(t, p) is Some && table_like(node_at(t, p)->0)
}

/// A path leads to an inline table.
pub open spec fn inline_at(t: TomlView, p: Path) -> bool {
    node_at(t, p) is Some && node_at(t, p)->0 is Inline
}

/// A path leads to a value, that is to no table of its own.
pub open spec fn value_at(t: TomlView, p: Path) -> bool {
    node_at(t, p) is Some && !(node_at(t, p)->0 is Table) && !(node_at(t, p)->0 is Other)
}

// ----- one item --------------------------------------------------------------

/// An item changes within its sort: it stays readable, and only a table turns
/// out a table.
pub open spec fn settled(before: TomlView, after: TomlView) -> bool {
    !(after is Other) && (after is Table ==> before is Table)
}

/// `DocumentMut::as_item_mut`: the root. What it holds in the end the document
/// holds, as long as it is still a table.
#[verifier::external_body]
fn root_item_mut(doc: &mut DocumentMut) -> (r: &mut Item)
    ensures
        item_state(*r) == document_state(*old(doc)),
        item_state(*r).tree is Table,
        item_state(*final(r)).tree is Table ==> document_state(*final(doc)) == item_state(
            *final(r),
        ),
{
    doc.as_item_mut()
}

/// `Item::get`: the entry of a key that is there.
#[verifier::external_body]
fn entry_ref<'a>(item: &'a Item, key: &str) -> (r: &'a Item)
    requires
        child(item_state(*item).tree, key@) is Some,
    ensures
        item_state(*r) == part(item_state(*item), seq![key@]),
{
    item.get(key).unwrap()
}

/// `Item::get_mut`: the entry of a key that is there. What it holds in the end
/// stands in its place, as long as it stays of its sort; a new sort is not
/// spoken of, since an inline table shows no entry that is a table.
#[verifier::external_body]
fn entry_mut<'a>(item: &'a mut Item, key: &str) -> (r: &'a mut Item)
    requires
        child(item_state(*old(item)).tree, key@) is Some,
    ensures
        item_state(*r) == part(item_state(*old(item)), seq![key@]),
        settled(item_state(*r).tree, item_state(*final(r)).tree) ==> item_state(*final(item))
            == spliced(item_state(*old(item)), seq![key@], item_state(*final(r))),
{
    item.get_mut(key).unwrap()
}

/// `TableLike::insert` of a value under a key that is not there: the entry
/// goes last, nothing else moves. `TableLike::remove` comes first, because a
/// slot that was left empty would give the entry its place.
#[verifier::external_body]
fn insert_entry(item: &mut Item, key: &str, value: Value)
    requires
        table_like(item_state(*old(item)).tree),
        child(item_state(*old(item)).tree, key@) is None,
    ensures
        item_state(*final(item)) == spliced(
            item_state(*old(item)),
            seq![key@],
            value_state(value),
        ),
{
    if let Some(table) = item.as_table_like_mut() {
        table.remove(key);
        table.insert(key, Item::Value(value));
    }
}

/// `Table::insert` of an empty `Table` under a key that is not there;
/// `Table::set_implicit` says whether it shows a header line of its own.
/// `Table::remove` comes first, because a slot that was left empty would give
/// the entry its place.
#[verifier::external_body]
fn insert_bare_table(item: &mut Item, key: &str, implicit: bool)
    requires
        item_state(*old(item)).tree is Table,
        child(item_state(*old(item)).tree, key@) is None,
    ensures
        item_state(*final(item)) == spliced(
            item_state(*old(item)),
            seq![key@],
            bare_table(implicit),
        ),
{
    let mut created = Table::new();
    created.set_implicit(implicit);
    if let Some(table) = item.as_table_mut() {
        table.remove(key);
        table.insert(key, Item::Table(created));
    }
}

/// `Item::Value`: the item becomes a value.
#[verifier::external_body]
fn swap_value(item: &mut Item, value: Value)
    ensures
        item_state(*final(item)) == value_state(value),
{
    *item = Item::Value(value);
}

/// `TableLike::remove`: the entry leaves, the others keep their order.
#[verifier::external_body]
fn remove_key(item: &mut Item, key: &str)
    requires
        table_like(item_state(*old(item)).tree),
    ensures
        item_state(*final(item)) == state_remove(item_state(*old(item)), seq![key@]),
{
    if let Some(table) = item.as_table_like_mut() {
        table.remove(key);
    }
}

/// `Value::decor` of an item that is a value.
#[verifier::external_body]
fn decor_of(item: &Item) -> (r: Option<Decor>)
    ensures
        match r {
            Some(d) => decor_texts(d) == decor_at(item_state(*item), Seq::empty()),
            None => decor_at(item_state(*item), Seq::empty()) == (DecorView {
                prefix: None,
                suffix: None,
            }),
        },
{
    item.as_value().map(|v| v.decor().clone())
}

/// `Value::decor_mut` of an item that is a value: it takes a whole decoration.
#[verifier::external_body]
fn set_decor(item: &mut Item, decor: Decor)
    requires
        value_at(item_state(*old(item)).tree, Seq::empty()),
    ensures
        item_state(*final(item)) == decorated(
            item_state(*old(item)),
            Seq::empty(),
            decor_texts(decor),
        ),
{
    if let Some(value) = item.as_value_mut() {
        *value.decor_mut() = decor;
    }
}

/// `RawString::as_str`: the text, where it is known.
#[verifier::external_body]
pub(crate) fn known_text(raw: &RawString) -> (r: Option<String>)
    ensures
        text::opt_text(r) == raw_text(*raw),
{
    raw.as_str().map(str::to_string)
}

/// `RawString::from` of a text.
#[verifier::external_body]
pub(crate) fn raw_string(text: &str) -> (r: RawString)
    ensures
        raw_text(r) == Some(text@),
{
    RawString::from(text)
}

/// `Decor::suffix` of an item that is a value: nothing when it was never set.
#[verifier::external_body]
fn item_suffix(item: &Item) -> (r: Option<RawString>)
    ensures
        match r {
            Some(s) => looked_up(item_state(*item).suffixes, Seq::empty()) == Some(raw_text(s)),
            None => looked_up(item_state(*item).suffixes, Seq::empty()) is None,
        },
{
    item.as_value().and_then(|v| v.decor().suffix().cloned())
}

/// `Decor::set_suffix` on an item that is a value.
#[verifier::external_body]
fn set_item_suffix(item: &mut Item, suffix: RawString)
    requires
        value_at(item_state(*old(item)).tree, Seq::empty()),
    ensures
        item_state(*final(item)) == state_suffix(
            item_state(*old(item)),
            Seq::empty(),
            raw_text(suffix),
        ),
{
    if let Some(value) = item.as_value_mut() {
        value.decor_mut().set_suffix(suffix);
    }
}

/// The end of an inline table: whether its last entry has a comma, and the
/// text before its closing brace (`None` when only a position is known).
#[derive(Debug)]
pub struct InlineEnd {
    pub comma: bool,
    pub text: Option<String>,
}

/// `InlineTable::trailing_comma` and `InlineTable::trailing` of an item that
/// is an inline table.
#[verifier::external_body]
fn item_trailing(item: &Item) -> (r: Option<InlineEnd>)
    ensures
        match r {
            Some(end) => looked_up(item_state(*item).trailings, Seq::empty()) == Some(
                (end.comma, text::opt_text(end.text)),
            ),
            None => looked_up(item_state(*item).trailings, Seq::empty()) is None,
        },
        r is Some <==> item_state(*item).tree is Inline,
{
    item.as_inline_table().map(|t| InlineEnd {
        comma: t.trailing_comma(),
        text: t.trailing().as_str().map(str::to_string),
    })
}

/// `InlineTable::set_trailing` on an item that is an inline table.
#[verifier::external_body]
fn set_item_trailing(item: &mut Item, text: &str)
    requires
        item_state(*old(item)).tree is Inline,
    ensures
        item_state(*final(item)) == state_trailing(item_state(*old(item)), Seq::empty(), text@),
{
    if let Some(table) = item.as_inline_table_mut() {
        table.set_trailing(text);
    }
}

// ----- parts of parts --------------------------------------------------------

proof fn lemma_path_head(p: Path, x: Path)
    ensures
        within(p, p + x),
        (p + x).skip(p.len() as int) == x,
        within(p, x) ==> x == p + x.skip(p.len() as int),
{
    assert((p + x).take(p.len() as int) =~= p);
    assert((p + x).skip(p.len() as int) =~= x);
    if within(p, x) {
        assert(x =~= x.take(p.len() as int) + x.skip(p.len() as int));
    }
}

proof fn lemma_path_within(p: Path, q: Path, x: Path)
    ensures
        within(p + q, x) <==> within(p, x) && within(q, x.skip(p.len() as int)),
        within(p + q, x) ==> x.skip(p.len() as int).skip(q.len() as int) == x.skip(
            (p + q).len() as int,
        ),
{
    let y = x.skip(p.len() as int);
    let n = (p + q).len() as int;
    if within(p, x) && within(q, y) {
        lemma_path_head(p, x);
        lemma_path_head(q, y);
        assert(x.take(n) =~= p + q) by {
            assert(x =~= (p + q) + y.skip(q.len() as int));
        }
    }
    if within(p + q, x) {
        lemma_path_head(p + q, x);
        let z = x.skip(n);
        assert(x =~= p + (q + z));
        lemma_path_head(p, q + z);
        lemma_path_head(q, z);
    }
}

proof fn lemma_path_parts(p: Path, q: Path, x: Path)
    ensures
        (p + q) + x == p + (q + x),
        within(p, p + x),
        (p + x).skip(p.len() as int) == x,
        within(p, x) ==> x == p + x.skip(p.len() as int),
        within(p + q, x) <==> within(p, x) && within(q, x.skip(p.len() as int)),
        within(p + q, x) ==> x.skip(p.len() as int).skip(q.len() as int) == x.skip(
            (p + q).len() as int,
        ),
{
    assert((p + q) + x =~= p + (q + x));
    lemma_path_head(p, x);
    lemma_path_within(p, q, x);
}

proof fn lemma_map_parts<V>(m: Map<Path, V>, p: Path, q: Path, n: Map<Path, V>)
    ensures
        map_part(map_part(m, p), q) == map_part(m, p + q),
        map_spliced(m, p, map_spliced(map_part(m, p), q, n)) == map_spliced(m, p + q, n),
{
    let a = map_part(map_part(m, p), q);
    let b = map_part(m, p + q);
    assert forall|x: Path| a.dom().contains(x) == b.dom().contains(x) by {
        lemma_path_parts(p, q, x);
    }
    assert forall|x: Path| a.dom().contains(x) implies #[trigger] a[x] == b[x] by {
        lemma_path_parts(p, q, x);
    }
    assert(a =~= b);
    let c = map_spliced(m, p, map_spliced(map_part(m, p), q, n));
    let d = map_spliced(m, p + q, n);
    assert forall|x: Path| c.dom().contains(x) == d.dom().contains(x) by {
        lemma_path_parts(p, q, x);
    }
    assert forall|x: Path| c.dom().contains(x) implies #[trigger] c[x] == d[x] by {
        lemma_path_parts(p, q, x);
    }
    assert(c =~= d);
}

proof fn lemma_set_parts(m: Set<Path>, p: Path, q: Path, n: Set<Path>)
    ensures
        set_part(set_part(m, p), q) == set_part(m, p + q),
        set_spliced(m, p, set_spliced(set_part(m, p), q, n)) == set_spliced(m, p + q, n),
{
    let a = set_part(set_part(m, p), q);
    let b = set_part(m, p + q);
    assert forall|x: Path| a.contains(x) == b.contains(x) by {
        lemma_path_parts(p, q, x);
    }
    assert(a =~= b);
    let c = set_spliced(m, p, set_spliced(set_part(m, p), q, n));
    let d = set_spliced(m, p + q, n);
    assert forall|x: Path| c.contains(x) == d.contains(x) by {
        lemma_path_parts(p, q, x);
    }
    assert(c =~= d);
}

proof fn lemma_tree_parts(t: TomlView, p: Path, q: Path, v: TomlView)
    requires
        node_at(t, p) is Some,
    ensures
        node_at(t, p + q) == node_at(node_at(t, p)->0, q),
        put_at(t, p, put_at(node_at(t, p)->0, q, v)) == put_at(t, p + q, v),
    decreases p.len(),
{
    if p.len() == 0 {
        assert(p + q =~= q);
    } else {
        let c = child(t, p[0])->0;
        lemma_tree_parts(c, p.skip(1), q, v);
        assert((p + q)[0] == p[0]);
        assert((p + q).skip(1) =~= p.skip(1) + q);
        assert(table_like(t));
        if p.len() == 1 {
            assert(p.skip(1) =~= Seq::empty());
            if q.len() == 0 {
                assert(p + q =~= p);
            }
        }
    }
}

/// A part of a part is a part, and what is put into a part stands in the
/// whole.
proof fn lemma_parts(s: DocState, p: Path, q: Path, t: DocState)
    requires
        node_at(s.tree, p) is Some,
    ensures
        part(part(s, p), q) == part(s, p + q),
        spliced(s, p, spliced(part(s, p), q, t)) == spliced(s, p + q, t),
{
    lemma_tree_parts(s.tree, p, q, t.tree);
    lemma_map_parts(s.prefixes, p, q, t.prefixes);
    lemma_map_parts(s.suffixes, p, q, t.suffixes);
    lemma_map_parts(s.trailings, p, q, t.trailings);
    lemma_set_parts(s.implicit, p, q, t.implicit);
}

proof fn lemma_map_whole<V>(m: Map<Path, V>, n: Map<Path, V>)
    ensures
        map_part(m, Seq::empty()) == m,
        map_spliced(m, Seq::empty(), n) == n,
{
    let none: Path = Seq::empty();
    let a = map_part(m, none);
    let b = map_spliced(m, none, n);
    assert forall|x: Path| a.dom().contains(x) == m.dom().contains(x) by {
        assert(none + x =~= x);
        assert(x.take(0) =~= none);
        assert(x.skip(0) =~= x);
    }
    assert forall|x: Path| a.dom().contains(x) implies #[trigger] a[x] == m[x] by {
        assert(none + x =~= x);
        assert(x.take(0) =~= none);
        assert(x.skip(0) =~= x);
    }
    assert(a =~= m);
    assert forall|x: Path| b.dom().contains(x) == n.dom().contains(x) by {
        assert(none + x =~= x);
        assert(x.take(0) =~= none);
        assert(x.skip(0) =~= x);
    }
    assert forall|x: Path| b.dom().contains(x) implies #[trigger] b[x] == n[x] by {
        assert(none + x =~= x);
        assert(x.take(0) =~= none);
        assert(x.skip(0) =~= x);
    }
    assert(b =~= n);
}

proof fn lemma_set_whole(m: Set<Path>, n: Set<Path>)
    ensures
        set_part(m, Seq::empty()) == m,
        set_spliced(m, Seq::empty(), n) == n,
{
    let none: Path = Seq::empty();
    let a = set_part(m, none);
    let b = set_spliced(m, none, n);
    assert forall|x: Path| a.contains(x) == m.contains(x) && b.contains(x) == n.contains(x) by {
        assert(none + x =~= x);
        assert(x.take(0) =~= none);
        assert(x.skip(0) =~= x);
    }
    assert(a =~= m);
    assert(b =~= n);
}

/// The whole is the part at the root.
proof fn lemma_whole(s: DocState, t: DocState)
    ensures
        part(s, Seq::empty()) == s,
        spliced(s, Seq::empty(), t) == t,
{
    lemma_map_whole(s.prefixes, t.prefixes);
    lemma_map_whole(s.suffixes, t.suffixes);
    lemma_map_whole(s.trailings, t.trailings);
    lemma_set_whole(s.implicit, t.implicit);
}

/// Something put below the root leaves the root of its sort.
proof fn lemma_root_sort(t: TomlView, p: Path, v: TomlView)
    requires
        p.len() > 0,
        table_like(t),
    ensures
        put_at(t, p, v) is Table == t is Table,
        put_at(t, p, v) is Inline == t is Inline,
        table_like(put_at(t, p, v)),
{
}

/// The item at a path of keys from a position on.
fn node_mut<'a>(item: &'a mut Item, path: &Vec<String>, n: usize) -> (r: &'a mut Item)
    requires
        n <= path.len(),
        node_at(item_state(*old(item)).tree, path_of(*path).skip(n as int)) is Some,
    ensures
        item_state(*r) == part(item_state(*old(item)), path_of(*path).skip(n as int)),
        settled(item_state(*r).tree, item_state(*final(r)).tree) ==> item_state(*final(item))
            == spliced(
            item_state(*old(item)),
            path_of(*path).skip(n as int),
            item_state(*final(r)),
        ),
    decreases path.len() - n,
{
    let ghost s = item_state(*item);
    let ghost p = path_of(*path).skip(n as int);
    if n == path.len() {
        proof {
            assert(p =~= Seq::empty());
            assert forall|t: DocState| #[trigger] spliced(s, p, t) == t by {
                lemma_whole(s, t);
            }
            lemma_whole(s, s);
        }
        item
    } else {
        let ghost k = seq![path@[n as int]@];
        let ghost rest = path_of(*path).skip(n + 1);
        proof {
            assert(p[0] == path@[n as int]@);
            assert(p.skip(1) =~= rest);
            assert(p =~= k + rest);
            assert(k.skip(1) =~= Seq::empty());
            assert(node_at(s.tree, k) == child(s.tree, k[0])) by {
                reveal_with_fuel(node_at, 2);
            }
            assert forall|t: DocState|
                #![trigger spliced(part(s, k), rest, t)]
                spliced(s, k, spliced(part(s, k), rest, t)) == spliced(s, p, t)
                    && part(part(s, k), rest) == part(s, p) by {
                lemma_parts(s, k, rest, t);
            }
            lemma_parts(s, k, rest, s);
            assert forall|v: TomlView| rest.len() > 0 implies settled(
                part(s, k).tree,
                #[trigger] put_at(part(s, k).tree, rest, v),
            ) by {
                lemma_root_sort(part(s, k).tree, rest, v);
            }
        }
        let next: &mut Item = entry_mut(item, path[n].as_str());
        node_mut(next, path, n + 1)
    }
}

/// The item at a path of keys.
fn node_ref<'a>(doc: &'a DocumentMut, path: &Vec<String>) -> (r: &'a Item)
    requires
        node_at(document_state(*doc).tree, path_of(*path)) is Some,
    ensures
        item_state(*r) == part(document_state(*doc), path_of(*path)),
{
    let ghost s = document_state(*doc);
    let ghost p = path_of(*path);
    let mut item: &Item = root_item(doc);
    let mut i: usize = 0;
    proof {
        assert(p.take(0) =~= Seq::empty());
        lemma_whole(s, s);
    }
    while i < path.len()
        invariant
            i <= path.len(),
            p == path_of(*path),
            node_at(s.tree, p) is Some,
            node_at(s.tree, p.take(i as int)) is Some,
            item_state(*item) == part(s, p.take(i as int)),
        decreases path.len() - i,
    {
        let ghost here = p.take(i as int);
        let ghost k = seq![path@[i as int]@];
        proof {
            lemma_parts(s, here, k, s);
            lemma_child_path(s.tree, here, path@[i as int]@);
            assert(here + k =~= p.take(i as int + 1));
            assert(here.push(path@[i as int]@) =~= p.take(i as int + 1));
            if node_at(s.tree, p.take(i as int + 1)) is None {
                lemma_lost(s.tree, p, i as int + 1);
            }
        }
        item = entry_ref(item, path[i].as_str());
        i = i + 1;
    }
    assert(p.take(p.len() as int) =~= p);
    item
}

/// Nothing lies below a node that is missing.
proof fn lemma_lost(t: TomlView, p: Path, n: int)
    requires
        0 <= n <= p.len(),
        node_at(t, p.take(n)) is None,
    ensures
        node_at(t, p) is None,
    decreases p.len() - n,
{
    if n == p.len() {
        assert(p.take(n) =~= p);
    } else {
        assert(p.take(n + 1) =~= p.take(n).push(p[n]));
        lemma_child_path(t, p.take(n), p[n]);
        lemma_lost(t, p, n + 1);
    }
}

/// The path of a table's field.
pub(crate) fn extended(path: &Vec<String>, key: &str) -> (r: Vec<String>)
    ensures
        path_of(r) == path_to(*path, key),
{
    let mut r: Vec<String> = text::copy_names(path);
    let s: String = text::owned(key);
    proof {
        text::lemma_texts_push(r@, s);
    }
    r.push(s);
    r
}

// ----- edits of a document ---------------------------------------------------

/// Puts a fresh value under a key that is not there: the entry goes last.
pub(crate) fn insert_value(doc: &mut DocumentMut, path: &Vec<String>, key: &str, value: &NewValue)
    requires
        table_at(document_state(*old(doc)).tree, path_of(*path)),
        node_at(document_state(*old(doc)).tree, path_to(*path, key)) is None,
        well_keyed(*value),
    ensures
        document_state(*final(doc)) == state_insert(
            document_state(*old(doc)),
            path_to(*path, key),
            value@,
        ),
{
    proof {
        lemma_edit(document_state(*doc), path_of(*path), key@, bare(value@));
        assert(path_of(*path).skip(0) =~= path_of(*path));
    }
    let root: &mut Item = root_item_mut(doc);
    let node: &mut Item = node_mut(root, path, 0);
    insert_entry(node, key, build_value(value));
}

/// Puts an empty table under a key that is not there.
fn insert_table(doc: &mut DocumentMut, path: &Vec<String>, key: &str, implicit: bool)
    requires
        table_at(document_state(*old(doc)).tree, path_of(*path)),
        !inline_at(document_state(*old(doc)).tree, path_of(*path)),
        node_at(document_state(*old(doc)).tree, path_to(*path, key)) is None,
    ensures
        document_state(*final(doc)) == state_insert_table(
            document_state(*old(doc)),
            path_to(*path, key),
            implicit,
        ),
{
    proof {
        lemma_edit(document_state(*doc), path_of(*path), key@, bare_table(implicit));
        assert(path_of(*path).skip(0) =~= path_of(*path));
    }
    let root: &mut Item = root_item_mut(doc);
    let node: &mut Item = node_mut(root, path, 0);
    insert_bare_table(node, key, implicit);
}

/// Editing an entry of the table at a path edits the document, and leaves
/// every table on the way a table.
proof fn lemma_edit(s: DocState, p: Path, key: Seq<char>, t: DocState)
    requires
        table_at(s.tree, p),
    ensures
        ({
            let before = part(s, p);
            let after = spliced(before, seq![key], t);
            &&& child(before.tree, key) == node_at(s.tree, p.push(key))
            &&& settled(before.tree, after.tree)
            &&& spliced(s, p, after) == spliced(s, p.push(key), t)
            &&& s.tree is Table ==> put_at(s.tree, p, after.tree) is Table
        }),
{
    let k = seq![key];
    assert(p + k =~= p.push(key));
    lemma_parts(s, p, k, t);
    lemma_child_path(s.tree, p, key);
    lemma_root_sort(part(s, p).tree, k, t.tree);
    if p.len() > 0 {
        lemma_sort_on_way(s.tree, p, put_at(part(s, p).tree, k, t.tree));
    }
}

proof fn lemma_sort_on_way(t: TomlView, p: Path, v: TomlView)
    requires
        p.len() > 0,
        node_at(t, p) is Some,
    ensures
        put_at(t, p, v) is Table == t is Table,
{
    assert(child(t, p[0]) is Some);
    lemma_root_sort(t, p, v);
}

/// A node put where it was changes nothing.
pub proof fn lemma_put_back(t: TomlView, p: Path)
    requires
        node_at(t, p) is Some,
    ensures
        put_at(t, p, node_at(t, p)->0) == t,
    decreases p.len(),
{
    if p.len() > 0 {
        let e = entries_of(t);
        let c = child(t, p[0])->0;
        lemma_put_back(c, p.skip(1));
        lemma_entry_index(e, p[0]);
        let i = key_index(e, p[0]);
        assert(e.update(i, (p[0], c)) =~= e) by {
            assert(e[i] == (p[0], c));
        }
        if p.len() == 1 {
            assert(p.skip(1) =~= Seq::empty());
        }
    }
}

proof fn lemma_map_note<V>(m: Map<Path, V>, p: Path, v: Option<V>)
    ensures
        looked_up(map_part(m, p), Seq::empty()) == looked_up(m, p),
        map_spliced(m, p, noted(map_part(m, p), Seq::empty(), v)) == noted(m, p, v),
        map_spliced(m, p, map_part(m, p)) == m,
{
    let none: Path = Seq::empty();
    assert(p + none =~= p);
    let a = map_spliced(m, p, noted(map_part(m, p), none, v));
    let b = noted(m, p, v);
    let c = map_spliced(m, p, map_part(m, p));
    assert forall|x: Path| a.dom().contains(x) == b.dom().contains(x) by {
        lemma_path_parts(p, none, x);
        if within(p, x) && x.skip(p.len() as int) == none {
            assert(x =~= p);
        }
        if x == p {
            assert(x.take(p.len() as int) =~= p);
            assert(x.skip(p.len() as int) =~= none);
        }
    }
    assert forall|x: Path| a.dom().contains(x) implies #[trigger] a[x] == b[x] by {
        lemma_path_parts(p, none, x);
        if within(p, x) && x.skip(p.len() as int) == none {
            assert(x =~= p);
        }
        if x == p {
            assert(x.take(p.len() as int) =~= p);
            assert(x.skip(p.len() as int) =~= none);
        }
    }
    assert(a =~= b);
    assert forall|x: Path| c.dom().contains(x) == m.dom().contains(x) by {
        lemma_path_parts(p, none, x);
        if within(p, x) && x.skip(p.len() as int) == none {
            assert(x =~= p);
        }
        if x == p {
            assert(x.take(p.len() as int) =~= p);
            assert(x.skip(p.len() as int) =~= none);
        }
    }
    assert forall|x: Path| c.dom().contains(x) implies #[trigger] c[x] == m[x] by {
        lemma_path_parts(p, none, x);
        if within(p, x) && x.skip(p.len() as int) == none {
            assert(x =~= p);
        }
        if x == p {
            assert(x.take(p.len() as int) =~= p);
            assert(x.skip(p.len() as int) =~= none);
        }
    }
    assert(c =~= m);
}

proof fn lemma_set_note(m: Set<Path>, p: Path)
    ensures
        set_spliced(m, p, set_part(m, p)) == m,
{
    let c = set_spliced(m, p, set_part(m, p));
    assert forall|x: Path| c.contains(x) == m.contains(x) by {
        lemma_path_parts(p, Seq::empty(), x);
    }
    assert(c =~= m);
}

proof fn lemma_map_cut<V>(m: Map<Path, V>, p: Path, key: Seq<char>)
    ensures
        map_spliced(m, p, cut_at(map_part(m, p), seq![key])) == cut_at(m, p.push(key)),
{
    let k = seq![key];
    let a = map_spliced(m, p, cut_at(map_part(m, p), k));
    let b = cut_at(m, p.push(key));
    assert(p + k =~= p.push(key));
    assert forall|x: Path| a.dom().contains(x) == b.dom().contains(x) by {
        lemma_cut_path(p, key, x);
        lemma_path_parts(p, k, x);
    }
    assert forall|x: Path| a.dom().contains(x) implies #[trigger] a[x] == b[x] by {
        lemma_cut_path(p, key, x);
        lemma_path_parts(p, k, x);
    }
    assert(a =~= b);
}

/// Being at or below an entry of a table, seen from the root and from the
/// table.
proof fn lemma_cut_path(p: Path, key: Seq<char>, x: Path)
    ensures
        within(p.push(key), x) <==> within(p, x) && within(seq![key], x.skip(p.len() as int)),
        forall|q: Path, y: Path| #[trigger] within(q, y) <==> q == y || below(q, y),
{
    let k = seq![key];
    assert(p + k =~= p.push(key));
    lemma_path_parts(p, k, x);
    assert forall|q: Path, y: Path| #[trigger] within(q, y) <==> q == y || below(q, y) by {
        if q.len() == y.len() {
            assert(y.take(q.len() as int) =~= y);
        }
    }
}

proof fn lemma_set_cut(m: Set<Path>, p: Path, key: Seq<char>)
    ensures
        set_spliced(
            m,
            p,
            set_part(m, p).filter(|q: Path| q != seq![key] && !below(seq![key], q)),
        ) == m.filter(|q: Path| q != p.push(key) && !below(p.push(key), q)),
{
    let k = seq![key];
    let a = set_spliced(m, p, set_part(m, p).filter(|q: Path| q != seq![key] && !below(seq![key], q)));
    let b = m.filter(|q: Path| q != p.push(key) && !below(p.push(key), q));
    assert forall|x: Path| a.contains(x) == b.contains(x) by {
        lemma_cut_path(p, key, x);
        lemma_path_parts(p, k, x);
        let y = x.skip(p.len() as int);
        assert(within(k, y) <==> k == y || below(k, y));
        assert(within(p.push(key), x) <==> p.push(key) == x || below(p.push(key), x));
    }
    assert(a =~= b);
}

/// Puts a fresh value in the place of what stands under a key. Where that is a
/// value, the fresh one takes over its decoration.
pub(crate) fn replace_value(doc: &mut DocumentMut, path: &Vec<String>, key: &str, value: &NewValue)
    requires
        node_at(document_state(*old(doc)).tree, path_to(*path, key)) is Some,
        well_keyed(*value),
    ensures
        document_state(*final(doc)) == state_replace(
            document_state(*old(doc)),
            path_to(*path, key),
            value@,
        ),
{
    let ghost s = document_state(*doc);
    let ghost p = path_to(*path, key);
    let full: Vec<String> = extended(path, key);
    proof {
        assert(p.skip(0) =~= p);
        lemma_map_note(s.prefixes, p, None);
        lemma_map_note(s.suffixes, p, None);
        lemma_sort_on_way(s.tree, p, value@);
        assert(noted(bare(value@).prefixes, Seq::empty(), None) =~= bare(value@).prefixes);
        assert(noted(bare(value@).suffixes, Seq::empty(), None) =~= bare(value@).suffixes);
    }
    let root: &mut Item = root_item_mut(doc);
    let node: &mut Item = node_mut(root, &full, 0);
    let before: Option<Decor> = decor_of(node);
    swap_value(node, build_value(value));
    match before {
        Some(decor) => set_decor(node, decor),
        None => {},
    }
}

/// Drops an entry of a table: the others keep their order.
pub(crate) fn remove_entry(doc: &mut DocumentMut, path: &Vec<String>, key: &str)
    requires
        table_at(document_state(*old(doc)).tree, path_of(*path)),
    ensures
        document_state(*final(doc)) == state_remove(
            document_state(*old(doc)),
            path_to(*path, key),
        ),
{
    let ghost s = document_state(*doc);
    let ghost p = path_of(*path);
    proof {
        assert(p.skip(0) =~= p);
        lemma_drop_child(s.tree, p, key@);
        lemma_map_cut(s.prefixes, p, key@);
        lemma_map_cut(s.suffixes, p, key@);
        lemma_map_cut(s.trailings, p, key@);
        lemma_set_cut(s.implicit, p, key@);
        if p.len() > 0 {
            lemma_sort_on_way(s.tree, p, drop_at(part(s, p).tree, seq![key@]));
        }
    }
    let root: &mut Item = root_item_mut(doc);
    let node: &mut Item = node_mut(root, path, 0);
    remove_key(node, key);
}

/// The text after the value under a key: nothing when it was never set.
pub(crate) fn suffix_of(doc: &DocumentMut, path: &Vec<String>, key: &str) -> (r: Option<RawString>)
    requires
        node_at(document_state(*doc).tree, path_to(*path, key)) is Some,
    ensures
        match r {
            Some(s) => document_state(*doc).suffixes.dom().contains(path_to(*path, key))
                && document_state(*doc).suffixes[path_to(*path, key)] == raw_text(s),
            None => !document_state(*doc).suffixes.dom().contains(path_to(*path, key)),
        },
{
    let full: Vec<String> = extended(path, key);
    proof {
        lemma_map_note(document_state(*doc).suffixes, path_to(*path, key), None);
    }
    item_suffix(node_ref(doc, &full))
}

/// Sets the text after the value under a key.
pub(crate) fn set_suffix(doc: &mut DocumentMut, path: &Vec<String>, key: &str, suffix: RawString)
    requires
        value_at(document_state(*old(doc)).tree, path_to(*path, key)),
    ensures
        document_state(*final(doc)) == state_suffix(
            document_state(*old(doc)),
            path_to(*path, key),
            raw_text(suffix),
        ),
{
    let ghost s = document_state(*doc);
    let ghost p = path_to(*path, key);
    let full: Vec<String> = extended(path, key);
    proof {
        assert(p.skip(0) =~= p);
        lemma_map_note(s.suffixes, p, Some(raw_text(suffix)));
        lemma_kept(s, p);
    }
    let root: &mut Item = root_item_mut(doc);
    let node: &mut Item = node_mut(root, &full, 0);
    set_item_suffix(node, suffix);
}

/// What is put back where it was changes nothing.
proof fn lemma_kept(s: DocState, p: Path)
    requires
        node_at(s.tree, p) is Some,
    ensures
        spliced(s, p, part(s, p)) == s,
{
    lemma_put_back(s.tree, p);
    lemma_map_note(s.prefixes, p, None);
    lemma_map_note(s.suffixes, p, None);
    lemma_map_note(s.trailings, p, None);
    lemma_set_note(s.implicit, p);
}

/// The end of the inline table at a path; nothing where there is none.
pub(crate) fn trailing_of(doc: &DocumentMut, path: &Vec<String>) -> (r: Option<InlineEnd>)
    requires
        node_at(document_state(*doc).tree, path_of(*path)) is Some,
    ensures
        match r {
            Some(end) => document_state(*doc).trailings.dom().contains(path_of(*path))
                && document_state(*doc).trailings[path_of(*path)] == (
                end.comma,
                text::opt_text(end.text),
            ),
            None => !document_state(*doc).trailings.dom().contains(path_of(*path)),
        },
        r is Some <==> inline_at(document_state(*doc).tree, path_of(*path)),
{
    proof {
        lemma_map_note(document_state(*doc).trailings, path_of(*path), None);
    }
    item_trailing(node_ref(doc, path))
}

/// Sets the trailing text of the inline table at a path.
pub(crate) fn set_trailing(doc: &mut DocumentMut, path: &Vec<String>, text: &str)
    requires
        inline_at(document_state(*old(doc)).tree, path_of(*path)),
        document_state(*old(doc)).trailings.dom().contains(path_of(*path)),
    ensures
        document_state(*final(doc)) == state_trailing(
            document_state(*old(doc)),
            path_of(*path),
            text@,
        ),
{
    let ghost s = document_state(*doc);
    let ghost p = path_of(*path);
    proof {
        assert(p.skip(0) =~= p);
        assert(p + Seq::<Seq<char>>::empty() =~= p);
        lemma_map_note(s.trailings, p, Some((s.trailings[p].0, Some(text@))));
        lemma_kept(s, p);
    }
    let root: &mut Item = root_item_mut(doc);
    let node: &mut Item = node_mut(root, path, 0);
    set_item_trailing(node, text);
}

pub proof fn lemma_drop_child(t: TomlView, p: Path, k: Seq<char>)
    requires
        table_at(t, p),
    ensures
        drop_at(t, p.push(k)) == put_at(
            t,
            p,
            with_entries(
                node_at(t, p)->0,
                drop_key(
                    entries_of(
                        node_at(t, p)->0,
                    ),
                    k,
                ),
            ),
        ),
    decreases p.len(),
{
    let q = p.push(k);
    if p.len() > 0 {
        let c = child(t, p[0])->0;
        assert(q.skip(1) =~= p.skip(1).push(k));
        lemma_drop_child(c, p.skip(1), k);
        assert(table_like(t));
        if p.len() == 1 {
            assert(p.skip(1) =~= Seq::empty());
        }
    }
}

// ----- tables on the way to a target ----------------------------------------

/// The document once the first `n` tables of a path exist; nothing where
/// something else stands in the way. A missing table is created inline inside
/// an inline table, and without a header line unless it is the last one.
pub open spec fn with_tables(s: DocState, path: Path, n: nat) -> Option<DocState>
    decreases n,
{
    if n == 0 {
        Some(s)
    } else {
        match with_tables(s, path, (n - 1) as nat) {
            None => None,
            Some(t) => {
                let parent = path.take(n - 1);
                let here = path.take(n as int);
                if !table_at(t.tree, parent) {
                    None
                } else if node_at(t.tree, here) is Some {
                    Some(t)
                } else if inline_at(t.tree, parent) {
                    Some(state_insert(t, here, TomlView::Inline(Seq::empty())))
                } else {
                    Some(state_insert_table(t, here, n < path.len()))
                }
            },
        }
    }
}

/// The document once a path leads to a table.
pub open spec fn with_table(s: DocState, path: Path) -> Option<DocState> {
    match with_tables(s, path, path.len()) {
        Some(t) => if table_at(t.tree, path) {
            Some(t)
        } else {
            None
        },
        None => None,
    }
}

/// A path leads to a table that holds nothing.
spec fn bare_table_at(t: TomlView, p: Path) -> bool {
    node_at(t, p) == Some(TomlView::Table(Seq::empty())) || node_at(t, p) == Some(
        TomlView::Inline(Seq::empty()),
    )
}

proof fn lemma_tables_fail(s: DocState, path: Path, n: nat, m: nat)
    requires
        n <= m,
        with_tables(s, path, n) is None,
    ensures
        with_tables(s, path, m) is None,
    decreases m,
{
    if n < m {
        lemma_tables_fail(s, path, n, (m - 1) as nat);
    }
}

/// The node at a path of a tree.
pub fn node_of<'a>(tree: &'a Toml, path: &Vec<String>, n: usize) -> (r: Option<&'a Toml>)
    requires
        n <= path.len(),
    ensures
        opt_toml(r) == node_at(tree@, path_of(*path).take(n as int)),
{
    let ghost p = path_of(*path).take(n as int);
    let mut node: &Toml = tree;
    let mut i: usize = 0;
    assert(p.skip(0) =~= p);
    while i < n
        invariant
            i <= n <= path.len(),
            p == path_of(*path).take(n as int),
            node_at(tree@, p) == node_at(node@, p.skip(i as int)),
        decreases n - i,
    {
        assert(p.skip(i as int)[0] == path@[i as int]@);
        assert(p.skip(i as int).skip(1) =~= p.skip(i as int + 1));
        match node.get(path[i].as_str()) {
            Some(next) => {
                node = next;
            },
            None => {
                return None;
            },
        }
        i = i + 1;
    }
    assert(p.skip(n as int).len() == 0);
    Some(node)
}

/// A child is at the path one key longer.
pub proof fn lemma_child_path(t: TomlView, p: Path, key: Seq<char>)
    ensures
        node_at(t, p.push(key)) == (match node_at(t, p) {
            Some(n) => child(n, key),
            None => None,
        }),
    decreases p.len(),
{
    let q = p.push(key);
    if p.len() == 0 {
        assert(q.skip(1) =~= Seq::empty());
        assert(node_at(t, q) == (match child(t, key) {
            Some(c) => node_at(c, q.skip(1)),
            None => None,
        }));
    } else {
        assert(q.skip(1) =~= p.skip(1).push(key));
        match child(t, p[0]) {
            Some(c) => {
                lemma_child_path(c, p.skip(1), key);
            },
            None => {},
        }
    }
}

/// The first `n` keys of a path, owned.
fn first_keys(path: &Vec<String>, n: usize) -> (r: Vec<String>)
    requires
        n <= path.len(),
    ensures
        path_of(r) == path_of(*path).take(n as int),
{
    let mut r: Vec<String> = Vec::new();
    let mut i: usize = 0;
    assert(path_of(r) =~= path_of(*path).take(0));
    while i < n
        invariant
            i <= n <= path.len(),
            path_of(r) == path_of(*path).take(i as int),
        decreases n - i,
    {
        let s: String = path[i].clone();
        proof {
            text::lemma_texts_push(r@, s);
            assert(path_of(*path).take(i as int + 1) =~= path_of(*path).take(i as int).push(s@));
        }
        r.push(s);
        i = i + 1;
    }
    r
}

/// Makes a path lead to a table, creating what is missing on the way. False
/// where something that is no table stands in the way: the document is then
/// what it was.
pub fn ensure_table_like(doc: &mut DocumentMut, path: &Vec<String>) -> (r: bool)
    ensures
        r <==> with_table(document_state(*old(doc)), path_of(*path)) is Some,
        r ==> Some(document_state(*final(doc))) == with_table(
            document_state(*old(doc)),
            path_of(*path),
        ),
        !r ==> document_state(*final(doc)) == document_state(*old(doc)),
{
    let ghost s0 = document_state(*doc);
    let ghost p = path_of(*path);
    let mut i: usize = 0;
    while i < path.len()
        invariant
            i <= path.len(),
            p == path_of(*path),
            s0 == document_state(*old(doc)),
            with_tables(s0, p, i as nat) == Some(document_state(*doc)),
            document_state(*doc) == s0 || bare_table_at(document_state(*doc).tree, p.take(i as int)),
        decreases path.len() - i,
    {
        let ghost before = document_state(*doc);
        let parent: Vec<String> = first_keys(path, i);
        let tree: Toml = tree_of(doc);
        let ghost here = p.take(i as int + 1);
        proof {
            assert(here =~= p.take(i as int).push(path@[i as int]@));
            lemma_child_path(before.tree, p.take(i as int), path@[i as int]@);
            assert(with_tables(s0, p, (i + 1) as nat) == (if !table_at(
                before.tree,
                p.take(i as int),
            ) {
                None
            } else if node_at(before.tree, here) is Some {
                Some(before)
            } else if inline_at(before.tree, p.take(i as int)) {
                Some(state_insert(before, here, TomlView::Inline(Seq::empty())))
            } else {
                Some(state_insert_table(before, here, i + 1 < p.len()))
            }));
        }
        let node: &Toml = match node_of(&tree, path, i) {
            Some(n) => n,
            None => {
                proof {
                    lemma_tables_fail(s0, p, (i + 1) as nat, p.len());
                }
                return false;
            },
        };
        if node.entries().is_none() {
            proof {
                lemma_tables_fail(s0, p, (i + 1) as nat, p.len());
            }
            return false;
        }
        let inline: bool = match node {
            Toml::Inline(_) => true,
            _ => false,
        };
        if node.get(path[i].as_str()).is_none() {
            if inline {
                let empty: Vec<(String, NewValue)> = Vec::new();
                let fields: NewValue = NewValue::Fields(empty);
                proof {
                    assert(fresh(fields) == TomlView::Inline(Seq::empty()));
                }
                insert_value(doc, &parent, path[i].as_str(), &fields);
            } else {
                insert_table(doc, &parent, path[i].as_str(), i + 1 < path.len());
            }
            proof {
                assert(here.drop_last() =~= p.take(i as int));
                lemma_put_at(before.tree, here, TomlView::Table(Seq::empty()), here);
                lemma_put_at(before.tree, here, TomlView::Inline(Seq::empty()), here);
            }
        }
        i = i + 1;
    }
    assert(p.take(p.len() as int) =~= p);
    let tree: Toml = tree_of(doc);
    match node_of(&tree, path, path.len()) {
        Some(n) => n.entries().is_some(),
        None => false,
    }
}

} // verus!
