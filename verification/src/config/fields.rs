//! Setting one field of a table: an assignment table is merged entry by entry,
//! so that the comments around its entries stay, and the comments of entries
//! that leave move to where they are still read.

use crate::config::document::{
    self, extended, insert_value, known_text, raw_string, remove_entry, replace_value, set_suffix,
    set_trailing, suffix_of, trailing_of, tree_of, DocState, Entries, NewValue, Path, Toml, TomlView,
};
use crate::text::{
    self, blank, contains_char, ends_with_char, same, starts_with_char, text2, text3,
};
use toml_edit::{DocumentMut, RawString};
use vstd::prelude::*;

verus! {

// ----- comments -------------------------------------------------------------

/// A suffix that carries a comment. One that is known by its position only
/// counts as one: nothing shows that it is white space.
pub open spec fn is_comment(suffix: Option<Option<Seq<char>>>) -> bool {
    match suffix {
        None => false,
        Some(None) => true,
        Some(Some(text)) => !text::is_blank(text),
    }
}

/// Whether a suffix that is there carries a comment.
pub fn raw_suffix_is_comment(suffix: &RawString) -> (r: bool)
    ensures
        r == is_comment(Some(document::raw_text(*suffix))),
{
    match known_text(suffix) {
        None => true,
        Some(text) => !blank(text.as_str()),
    }
}

/// The suffix of the value at a path.
pub open spec fn suffix_at(s: DocState, p: Path) -> Option<Option<Seq<char>>> {
    if s.suffixes.dom().contains(p) {
        Some(s.suffixes[p])
    } else {
        None
    }
}

/// A text that holds a comment ends its line.
pub open spec fn line_ended(t: Seq<char>) -> Seq<char> {
    if t.contains('#') && !(t.len() > 0 && t.last() == '\n') {
        t.push('\n')
    } else {
        t
    }
}

/// Two comments, each on a line of its own; white space gives way.
pub open spec fn comments_joined(existing: Seq<char>, suffix: Seq<char>) -> Seq<char> {
    if text::is_blank(existing) {
        suffix
    } else if (existing.len() > 0 && existing.last() == '\n') || (suffix.len() > 0 && suffix[0]
        == '\n') {
        existing + suffix
    } else {
        existing + "\n"@ + suffix
    }
}

/// The trailing text of a table once a suffix has been merged into it; nothing
/// where either is known by its position only.
pub open spec fn trailing_merged(existing: Option<Seq<char>>, suffix: Option<Seq<char>>) -> Option<
    Seq<char>,
> {
    match (existing, suffix) {
        (Some(e), Some(x)) => Some(line_ended(comments_joined(e, x))),
        _ => None,
    }
}

/// Merges a suffix into the trailing text of an inline table. Nothing is
/// returned where the trailing text has to stay as it is.
pub fn set_trailing_preserving(existing: &Option<String>, suffix: &Option<String>) -> (r: Option<
    String,
>)
    ensures
        text::opt_text(r) == trailing_merged(
            text::opt_text(*existing),
            text::opt_text(*suffix),
        ),
{
    match (existing, suffix) {
        (Some(e), Some(x)) => {
            let mut trailing: String = if blank(e.as_str()) {
                x.clone()
            } else if ends_with_char(e.as_str(), '\n') || starts_with_char(x.as_str(), '\n') {
                text2(e.as_str(), x.as_str())
            } else {
                text3(e.as_str(), "\n", x.as_str())
            };
            if contains_char(trailing.as_str(), '#') && !ends_with_char(trailing.as_str(), '\n') {
                trailing.push('\n');
            }
            Some(trailing)
        },
        _ => None,
    }
}

// ----- the merge ------------------------------------------------------------

/// The keys of a table that a new table does not have.
pub open spec fn stale_keys(old: Entries, new: Entries) -> Seq<Seq<char>>
    decreases old.len(),
{
    if old.len() == 0 {
        Seq::empty()
    } else {
        let before = stale_keys(old.drop_last(), new);
        if document::entry(new, old.last().0) is None {
            before.push(old.last().0)
        } else {
            before
        }
    }
}

/// The comments of a list of entries, in order.
pub open spec fn comments_of(s: DocState, p: Path, keys: Seq<Seq<char>>) -> Seq<Option<Seq<char>>>
    decreases keys.len(),
{
    if keys.len() == 0 {
        Seq::empty()
    } else {
        let before = comments_of(s, p, keys.drop_last());
        let suffix = suffix_at(s, p.push(keys.last()));
        if is_comment(suffix) {
            before.push(suffix->0)
        } else {
            before
        }
    }
}

/// The document without a list of entries of one table.
pub open spec fn all_removed(s: DocState, p: Path, keys: Seq<Seq<char>>) -> DocState
    decreases keys.len(),
{
    if keys.len() == 0 {
        s
    } else {
        document::state_remove(
            all_removed(s, p, keys.drop_last()),
            p.push(keys.last()),
        )
    }
}

/// What decides the white space after an entry of a merged table: whether the
/// table is inline and ends its last entry with a comma, and which entry was
/// and which will be the last one.
pub struct MergeShape {
    pub comma: Option<bool>,
    pub old_last: Option<Seq<char>>,
    pub new_last: Option<Seq<char>>,
}

/// The white space after an entry of a merged table. Inside an inline table it
/// follows the entry's new place before a comma or a closing brace; a comment
/// stays.
pub open spec fn spaced(
    set: DocState,
    here: Path,
    shape: MergeShape,
    key: Seq<char>,
    existed: bool,
) -> DocState {
    match shape.comma {
        None => set,
        Some(comma) => if !document::value_at(set.tree, here) || is_comment(suffix_at(set, here)) {
            set
        } else if shape.new_last != Some(key) || (!existed && comma) {
            document::state_suffix(set, here, Some(""@))
        } else if existed && shape.old_last != Some(key) && !comma {
            document::state_suffix(set, here, Some(" "@))
        } else {
            set
        },
    }
}

/// The document with one entry of a merged table set.
pub open spec fn entry_set(
    s: DocState,
    p: Path,
    shape: MergeShape,
    key: Seq<char>,
    v: TomlView,
) -> DocState
    decreases v, 1int,
{
    let here = p.push(key);
    spaced(
        field_set(s, here, v),
        here,
        shape,
        key,
        document::node_at(s.tree, here) is Some,
    )
}

/// The document with a list of entries of a merged table set, in order.
pub open spec fn all_set(s: DocState, p: Path, shape: MergeShape, new: Entries) -> DocState
    decreases new, 1int,
{
    if new.len() == 0 {
        s
    } else {
        entry_set(
            all_set(s, p, shape, new.drop_last()),
            p,
            shape,
            new.last().0,
            new.last().1,
        )
    }
}

/// A table's trailing text with a list of comments merged into it.
pub open spec fn all_trailing(s: DocState, p: Path, comments: Seq<Option<Seq<char>>>) -> DocState
    decreases comments.len(),
{
    if comments.len() == 0 {
        s
    } else {
        let before = all_trailing(s, p, comments.drop_last());
        match trailing_merged(before.trailings[p].1, comments.last()) {
            Some(t) => document::state_trailing(before, p, t),
            None => before,
        }
    }
}

/// The last comment of the entries that left rides on the new last entry when
/// that one has no comment of its own.
pub open spec fn rides(
    s: DocState,
    p: Path,
    shape: MergeShape,
    comments: Seq<Option<Seq<char>>>,
) -> bool {
    let last = p.push(shape.new_last->0);
    shape.new_last is Some && comments.len() > 0 && document::value_at(s.tree, last) && !is_comment(
        suffix_at(s, last),
    )
}

/// The comments of the entries that left, each where it is still read.
pub open spec fn comments_kept(
    s: DocState,
    p: Path,
    shape: MergeShape,
    comments: Seq<Option<Seq<char>>>,
) -> DocState {
    if rides(s, p, shape, comments) {
        let ridden = document::state_suffix(s, p.push(shape.new_last->0), comments.last());
        all_trailing(ridden, p, comments.drop_last())
    } else {
        all_trailing(s, p, comments)
    }
}

pub open spec fn last_key(e: Entries) -> Option<Seq<char>> {
    if e.len() > 0 {
        Some(e.last().0)
    } else {
        None
    }
}

/// The shape of the merge of new entries into the table at a path.
pub open spec fn merge_shape(s: DocState, p: Path, new: Entries) -> MergeShape {
    let node = document::node_at(s.tree, p)->0;
    MergeShape {
        comma: if node is Inline {
            Some(s.trailings[p].0)
        } else {
            None
        },
        old_last: last_key(document::entries_of(node)),
        new_last: last_key(new),
    }
}

/// The document with new entries merged into the table at a path.
pub open spec fn fields_merged(s: DocState, p: Path, new: Entries) -> DocState
    decreases new, 2int,
{
    let old = document::entries_of(
        document::node_at(s.tree, p)->0,
    );
    let shape = merge_shape(s, p, new);
    let stale = stale_keys(old, new);
    let comments = if shape.comma == Some(false) {
        comments_of(s, p, stale)
    } else {
        Seq::empty()
    };
    let set = all_set(all_removed(s, p, stale), p, shape, new);
    if shape.comma == Some(false) {
        comments_kept(set, p, shape, comments)
    } else {
        set
    }
}

/// The document with a field of a table set: a table of fields is merged into
/// a table that stands there, entry by entry and at every depth.
pub open spec fn field_set(s: DocState, p: Path, v: TomlView) -> DocState
    decreases v, 0int,
{
    match document::node_at(s.tree, p) {
        None => document::state_insert(s, p, v),
        Some(old) => match v {
            TomlView::Inline(new) => if document::table_like(old) {
                fields_merged(s, p, new)
            } else {
                document::state_replace(s, p, v)
            },
            _ => document::state_replace(s, p, v),
        },
    }
}

// ----- what the primitive edits leave ---------------------------------------

pub proof fn lemma_put_child(t: TomlView, p: Path, k: Seq<char>, v: TomlView)
    requires
        document::table_at(t, p),
    ensures
        document::put_at(t, p.push(k), v) == document::put_at(
            t,
            p,
            document::with_entries(
                document::node_at(t, p)->0,
                document::put(
                    document::entries_of(
                        document::node_at(t, p)->0,
                    ),
                    k,
                    v,
                ),
            ),
        ),
    decreases p.len(),
{
    let q = p.push(k);
    if p.len() > 0 {
        let c = document::child(t, p[0])->0;
        assert(q.skip(1) =~= p.skip(1).push(k));
        lemma_put_child(c, p.skip(1), k, v);
        assert(document::table_like(t));
        if p.len() == 1 {
            assert(p.skip(1) =~= Seq::empty());
        }
    }
}

/// A node that is replaced by another is that other.
pub proof fn lemma_put_self(t: TomlView, p: Path, v: TomlView)
    requires
        document::node_at(t, p) is Some,
    ensures
        document::node_at(document::put_at(t, p, v), p) == Some(v),
{
    if p.len() > 0 {
        let d = p.drop_last();
        assert(d.push(p.last()) =~= p);
        document::lemma_child_path(t, d, p.last());
        document::lemma_put_at(t, p, v, p);
    }
}

/// Setting an entry of a table leaves a table of the same kind there, with the
/// entry in it.
pub proof fn lemma_entry_put(t: TomlView, p: Path, k: Seq<char>, v: TomlView)
    requires
        document::table_at(t, p),
    ensures
        ({
            let u = document::put_at(t, p.push(k), v);
            let node = document::node_at(t, p)->0;
            &&& document::table_at(u, p)
            &&& document::inline_at(u, p) == document::inline_at(t, p)
            &&& document::node_at(u, p.push(k)) == Some(v)
            &&& document::node_at(u, p) == Some(
                document::with_entries(
                    node,
                    document::put(
                        document::entries_of(node),
                        k,
                        v,
                    ),
                ),
            )
        }),
{
    let node = document::node_at(t, p)->0;
    let e = document::put(document::entries_of(node), k, v);
    let w = document::with_entries(node, e);
    lemma_put_child(t, p, k, v);
    lemma_put_self(t, p, w);
    document::lemma_child_path(
        document::put_at(t, p, w),
        p,
        k,
    );
    document::lemma_put(document::entries_of(node), k, v, k);
}

/// Dropping an entry of a table leaves a table of the same kind there.
pub proof fn lemma_entry_drop(t: TomlView, p: Path, k: Seq<char>)
    requires
        document::table_at(t, p),
    ensures
        ({
            let u = document::drop_at(t, p.push(k));
            let node = document::node_at(t, p)->0;
            &&& document::table_at(u, p)
            &&& document::inline_at(u, p) == document::inline_at(t, p)
            &&& document::node_at(u, p) == Some(
                document::with_entries(
                    node,
                    document::drop_key(
                        document::entries_of(node),
                        k,
                    ),
                ),
            )
        }),
{
    let node = document::node_at(t, p)->0;
    let e = document::drop_key(document::entries_of(node), k);
    let w = document::with_entries(node, e);
    document::lemma_drop_child(t, p, k);
    lemma_put_self(t, p, w);
}

/// The trailing of a table is not touched by edits of its entries.
pub proof fn lemma_trailing_stays<V>(m: Map<Path, V>, p: Path, k: Seq<char>)
    ensures
        document::cut_at(m, p.push(k)).dom().contains(p) == m.dom().contains(p),
        m.dom().contains(p) ==> document::cut_at(m, p.push(k))[p] == m[p],
{
    let q = p.push(k);
    assert(p.len() != q.len());
    assert(!document::below(q, p));
}

// ----- what an edit is confined to -------------------------------------------

/// Nothing but what stands at a path and below it differs.
pub open spec fn confined(s: DocState, r: DocState, q: Path) -> bool {
    &&& document::node_at(r.tree, q) is Some
    &&& r.tree == document::put_at(s.tree, q, document::node_at(r.tree, q)->0)
    &&& forall|x: Path|
        !(#[trigger] document::within(q, x)) ==> document::decor_at(r, x) == document::decor_at(s, x)
            && document::looked_up(r.trailings, x) == document::looked_up(s.trailings, x)
}

/// A path that lies outside a table lies outside its entries.
proof fn lemma_outside(p: Path, k: Seq<char>, x: Path)
    ensures
        document::within(p.push(k), x) ==> document::within(p, x),
        !document::within(p.push(k), p),
        document::within(p, p),
{
    let q = p.push(k);
    assert(p.take(p.len() as int) =~= p);
    if document::within(q, x) {
        assert(x.take(p.len() as int) =~= x.take(q.len() as int).take(p.len() as int));
        assert(q.take(p.len() as int) =~= p);
    }
}

/// An edit of an entry is an edit of its table, which keeps its kind and its
/// own trailing text.
proof fn lemma_confined_entry(s: DocState, r: DocState, p: Path, k: Seq<char>)
    requires
        document::table_at(s.tree, p),
        confined(s, r, p.push(k)),
    ensures
        table_kept(s, r, p),
{
    let v = document::node_at(r.tree, p.push(k))->0;
    lemma_entry_put(s.tree, p, k, v);
    lemma_put_child(s.tree, p, k, v);
    lemma_outside(p, k, p);
    assert forall|x: Path| !(#[trigger] document::within(p, x)) implies document::decor_at(r, x)
        == document::decor_at(s, x) && document::looked_up(r.trailings, x)
        == document::looked_up(s.trailings, x) by {
        lemma_outside(p, k, x);
    }
}

/// The edits of a table's entries leave the table: nothing outside it
/// differs, and it keeps its kind and its own trailing text.
pub open spec fn table_kept(s: DocState, r: DocState, p: Path) -> bool {
    &&& document::node_at(r.tree, p) is Some
    &&& document::table_at(r.tree, p)
    &&& document::inline_at(r.tree, p) == document::inline_at(s.tree, p)
    &&& r.tree == document::put_at(s.tree, p, document::node_at(r.tree, p)->0)
    &&& forall|x: Path|
        !(#[trigger] document::within(p, x)) ==> document::decor_at(r, x) == document::decor_at(s, x)
            && document::looked_up(r.trailings, x) == document::looked_up(s.trailings, x)
    &&& document::looked_up(r.trailings, p) == document::looked_up(s.trailings, p)
}

proof fn lemma_kept_none(s: DocState, p: Path)
    requires
        document::table_at(s.tree, p),
    ensures
        table_kept(s, s, p),
{
    document::lemma_put_back(s.tree, p);
}

proof fn lemma_kept_again(s: DocState, r: DocState, w: DocState, p: Path)
    requires
        document::table_at(s.tree, p),
        table_kept(s, r, p),
        table_kept(r, w, p),
    ensures
        table_kept(s, w, p),
{
    if p.len() > 0 {
        let d = p.drop_last();
        assert(d.push(p.last()) =~= p);
        document::lemma_child_path(s.tree, d, p.last());
        document::lemma_put_at_twice(
            s.tree,
            p,
            document::node_at(r.tree, p)->0,
            document::node_at(w.tree, p)->0,
        );
    }
}

proof fn lemma_removed_kept(s: DocState, p: Path, keys: Seq<Seq<char>>)
    requires
        document::table_at(s.tree, p),
    ensures
        table_kept(s, all_removed(s, p, keys), p),
    decreases keys.len(),
{
    if keys.len() == 0 {
        lemma_kept_none(s, p);
    } else {
        let b = all_removed(s, p, keys.drop_last());
        let k = keys.last();
        let r = all_removed(s, p, keys);
        lemma_removed_kept(s, p, keys.drop_last());
        lemma_entry_drop(b.tree, p, k);
        document::lemma_drop_child(b.tree, p, k);
        lemma_outside(p, k, p);
        assert forall|x: Path|
            !(#[trigger] document::within(p, x)) || x == p implies document::decor_at(r, x)
            == document::decor_at(b, x) && document::looked_up(r.trailings, x)
            == document::looked_up(b.trailings, x) by {
            lemma_outside(p, k, x);
            if document::below(p.push(k), x) || x == p.push(k) {
                if x == p.push(k) {
                    assert(x.take(x.len() as int) =~= x);
                }
                assert(document::within(p.push(k), x));
            }
        }
        assert(document::looked_up(r.trailings, p) == document::looked_up(b.trailings, p)) by {
            assert(!document::below(p.push(k), p));
            assert(p != p.push(k));
        }
        lemma_kept_again(s, b, r, p);
    }
}

proof fn lemma_trailing_kept(s: DocState, p: Path, comments: Seq<Option<Seq<char>>>)
    requires
        document::node_at(s.tree, p) is Some,
    ensures
        confined(s, all_trailing(s, p, comments), p),
        all_trailing(s, p, comments).tree == s.tree,
    decreases comments.len(),
{
    document::lemma_put_back(s.tree, p);
    lemma_outside(p, Seq::empty(), p);
    if comments.len() > 0 {
        lemma_trailing_kept(s, p, comments.drop_last());
    }
}

/// A set field changes nothing outside itself; a table that is merged keeps
/// its kind.
pub proof fn lemma_field_confined(s: DocState, q: Path, v: TomlView)
    requires
        q.len() > 0,
        document::table_at(s.tree, q.drop_last()),
    ensures
        confined(s, field_set(s, q, v), q),
        v is Inline && document::table_at(s.tree, q) ==> document::table_at(
            field_set(s, q, v).tree,
            q,
        ) && document::inline_at(field_set(s, q, v).tree, q) == document::inline_at(s.tree, q),
        !(v is Inline && document::table_at(s.tree, q)) ==> document::node_at(
            field_set(s, q, v).tree,
            q,
        ) == Some(v),
    decreases v, 0int,
{
    document::lemma_put_at(s.tree, q, v, q);
    match v {
        TomlView::Inline(new) => {
            if document::table_at(s.tree, q) {
                lemma_merged_confined(s, q, new);
            }
        },
        _ => {},
    }
}

proof fn lemma_merged_confined(s: DocState, p: Path, new: Entries)
    requires
        document::table_at(s.tree, p),
    ensures
        confined(s, fields_merged(s, p, new), p),
        document::table_at(fields_merged(s, p, new).tree, p),
        document::inline_at(fields_merged(s, p, new).tree, p) == document::inline_at(s.tree, p),
    decreases new, 2int,
{
    let old = document::entries_of(document::node_at(s.tree, p)->0);
    let stale = stale_keys(old, new);
    let shape = merge_shape(s, p, new);
    let b = all_removed(s, p, stale);
    let c = all_set(b, p, shape, new);
    lemma_removed_kept(s, p, stale);
    lemma_all_set_kept(b, p, shape, new);
    lemma_kept_again(s, b, c, p);
    let r = fields_merged(s, p, new);
    if shape.comma == Some(false) {
        let comments = comments_of(s, p, stale);
        let last = p.push(shape.new_last->0);
        let from = if rides(c, p, shape, comments) {
            document::state_suffix(c, last, comments.last())
        } else {
            c
        };
        let rest = if rides(c, p, shape, comments) {
            comments.drop_last()
        } else {
            comments
        };
        assert(r == all_trailing(from, p, rest));
        lemma_trailing_kept(from, p, rest);
        assert forall|x: Path| !(#[trigger] document::within(p, x)) implies document::decor_at(r, x)
            == document::decor_at(s, x) && document::looked_up(r.trailings, x)
            == document::looked_up(s.trailings, x) by {
            lemma_outside(p, shape.new_last->0, x);
            if x == last {
                assert(last.take(last.len() as int) =~= last);
            }
        }
    }
}

proof fn lemma_all_set_kept(s: DocState, p: Path, shape: MergeShape, new: Entries)
    requires
        document::table_at(s.tree, p),
    ensures
        table_kept(s, all_set(s, p, shape, new), p),
    decreases new, 1int,
{
    if new.len() == 0 {
        lemma_kept_none(s, p);
    } else {
        let b = all_set(s, p, shape, new.drop_last());
        lemma_all_set_kept(s, p, shape, new.drop_last());
        let r = entry_set(b, p, shape, new.last().0, new.last().1);
        lemma_entry_confined(b, p, shape, new.last().0, new.last().1);
        lemma_kept_again(s, b, r, p);
    }
}

proof fn lemma_entry_confined(
    s: DocState,
    p: Path,
    shape: MergeShape,
    k: Seq<char>,
    v: TomlView,
)
    requires
        document::table_at(s.tree, p),
    ensures
        confined(s, entry_set(s, p, shape, k, v), p.push(k)),
        table_kept(s, entry_set(s, p, shape, k, v), p),
        document::node_at(field_set(s, p.push(k), v).tree, p.push(k)) is Some,
    decreases v, 1int,
{
    let q = p.push(k);
    assert(q.drop_last() =~= p);
    lemma_field_confined(s, q, v);
    assert(q.take(q.len() as int) =~= q);
    lemma_confined_entry(s, entry_set(s, p, shape, k, v), p, k);
}

// ----- the executable merge -------------------------------------------------

fn stale_of(old: &Vec<(String, Toml)>, new: &Vec<(String, NewValue)>) -> (r: Vec<String>)
    ensures
        text::texts(r@) == stale_keys(
            document::entry_views(old@),
            document::fresh_fields(new@),
        ),
{
    let ghost all = document::entry_views(old@);
    let ghost fresh = document::fresh_fields(new@);
    let mut r: Vec<String> = Vec::new();
    let mut i: usize = 0;
    proof {
        document::lemma_entry_views(old@);
        assert(all.take(0) =~= Seq::empty());
        assert(text::texts(r@) =~= Seq::empty());
    }
    while i < old.len()
        invariant
            i <= old.len(),
            all == document::entry_views(old@),
            all.len() == old.len(),
            fresh == document::fresh_fields(new@),
            text::texts(r@) == stale_keys(all.take(i as int), fresh),
        decreases old.len() - i,
    {
        proof {
            document::lemma_entry_views(old@);
            assert(all.take(i as int + 1).drop_last() =~= all.take(i as int));
            assert(all.take(i as int + 1).last() == all[i as int]);
        }
        if !names_field(new, old[i].0.as_str()) {
            let s: String = old[i].0.clone();
            proof {
                text::lemma_texts_push(r@, s);
            }
            r.push(s);
        }
        i = i + 1;
    }
    assert(all.take(all.len() as int) =~= all);
    r
}

/// Whether a new table names a field.
fn names_field(new: &Vec<(String, NewValue)>, key: &str) -> (r: bool)
    ensures
        r == (document::entry(
            document::fresh_fields(new@),
            key@,
        ) is Some),
{
    let ghost all = document::fresh_fields(new@);
    let mut i: usize = new.len();
    proof {
        document::lemma_fresh_fields(new@);
        assert(all.take(all.len() as int) =~= all);
    }
    while i > 0
        invariant
            i <= new.len(),
            all == document::fresh_fields(new@),
            all.len() == new.len(),
            document::entry(all, key@) == document::entry(
                all.take(i as int),
                key@,
            ),
        decreases i,
    {
        i = i - 1;
        proof {
            document::lemma_fresh_fields(new@);
            assert(all.take(i as int + 1).drop_last() =~= all.take(i as int));
            assert(all.take(i as int + 1).last() == all[i as int]);
        }
        if same(new[i].0.as_str(), key) {
            return true;
        }
    }
    false
}

/// The comments behind a list.
pub open spec fn comment_views(c: Seq<RawString>) -> Seq<Option<Seq<char>>> {
    c.map_values(|s: RawString| document::raw_text(s))
}

fn collect_comments(doc: &DocumentMut, table: &Vec<String>, keys: &Vec<String>) -> (r: Vec<
    RawString,
>)
    requires
        forall|i: int|
            0 <= i < keys@.len() ==> document::node_at(
                document::document_state(*doc).tree,
                document::path_of(*table).push((#[trigger] keys@[i])@),
            ) is Some,
    ensures
        comment_views(r@) == comments_of(
            document::document_state(*doc),
            document::path_of(*table),
            text::texts(keys@),
        ),
{
    let ghost s = document::document_state(*doc);
    let ghost p = document::path_of(*table);
    let ghost all = text::texts(keys@);
    let mut r: Vec<RawString> = Vec::new();
    let mut i: usize = 0;
    assert(all.take(0) =~= Seq::empty());
    assert(comment_views(r@) =~= Seq::empty());
    while i < keys.len()
        invariant
            i <= keys.len(),
            s == document::document_state(*doc),
            p == document::path_of(*table),
            all == text::texts(keys@),
            forall|j: int|
                0 <= j < keys@.len() ==> document::node_at(
                    s.tree,
                    p.push((#[trigger] keys@[j])@),
                ) is Some,
            comment_views(r@) == comments_of(s, p, all.take(i as int)),
        decreases keys.len() - i,
    {
        assert(all.take(i as int + 1).drop_last() =~= all.take(i as int));
        assert(all.take(i as int + 1).last() == keys@[i as int]@);
        match suffix_of(doc, table, keys[i].as_str()) {
            Some(suffix) => {
                if raw_suffix_is_comment(&suffix) {
                    let ghost before = r@;
                    r.push(suffix);
                    assert(comment_views(r@) =~= comment_views(before).push(
                        document::raw_text(suffix),
                    ));
                }
            },
            None => {},
        }
        i = i + 1;
    }
    assert(all.take(all.len() as int) =~= all);
    r
}

fn remove_all(doc: &mut DocumentMut, table: &Vec<String>, keys: &Vec<String>)
    requires
        document::table_at(
            document::document_state(*old(doc)).tree,
            document::path_of(*table),
        ),
    ensures
        document::document_state(*final(doc)) == all_removed(
            document::document_state(*old(doc)),
            document::path_of(*table),
            text::texts(keys@),
        ),
        document::table_at(
            document::document_state(*final(doc)).tree,
            document::path_of(*table),
        ),
        document::document_state(*final(doc)).trailings.dom().contains(
            document::path_of(*table),
        ) == document::document_state(*old(doc)).trailings.dom().contains(
            document::path_of(*table),
        ),
{
    let ghost s0 = document::document_state(*doc);
    let ghost p = document::path_of(*table);
    let ghost all = text::texts(keys@);
    let mut i: usize = 0;
    assert(all.take(0) =~= Seq::empty());
    while i < keys.len()
        invariant
            i <= keys.len(),
            p == document::path_of(*table),
            all == text::texts(keys@),
            document::document_state(*doc) == all_removed(
                s0,
                p,
                all.take(i as int),
            ),
            document::table_at(
                document::document_state(*doc).tree,
                p,
            ),
            document::document_state(*doc).trailings.dom().contains(p)
                == s0.trailings.dom().contains(p),
        decreases keys.len() - i,
    {
        let ghost s = document::document_state(*doc);
        proof {
            assert(all.take(i as int + 1).drop_last() =~= all.take(i as int));
            assert(all.take(i as int + 1).last() == keys@[i as int]@);
            lemma_entry_drop(s.tree, p, keys@[i as int]@);
            lemma_trailing_stays(s.trailings, p, keys@[i as int]@);
        }
        remove_entry(doc, table, keys[i].as_str());
        i = i + 1;
    }
    assert(all.take(all.len() as int) =~= all);
}

/// What decides the white space after the entries of a merged table.
struct Shape {
    comma: Option<bool>,
    old_last: Option<String>,
    new_last: Option<String>,
}

impl View for Shape {
    type V = MergeShape;

    closed spec fn view(&self) -> MergeShape {
        MergeShape {
            comma: self.comma,
            old_last: text::opt_text(self.old_last),
            new_last: text::opt_text(self.new_last),
        }
    }
}

fn names(key: &Option<String>, other: &str) -> (r: bool)
    ensures
        r == (text::opt_text(*key) == Some(other@)),
{
    match key {
        Some(k) => same(k.as_str(), other),
        None => false,
    }
}

/// Whether a key of a table has a value, and no table of its own.
fn is_value(doc: &DocumentMut, table: &Vec<String>, key: &str) -> (r: bool)
    ensures
        r == document::value_at(
            document::document_state(*doc).tree,
            document::path_to(*table, key),
        ),
{
    let here: Vec<String> = extended(table, key);
    let ghost p = document::path_to(*table, key);
    assert(p.take(here@.len() as int) =~= p);
    let tree: Toml = tree_of(doc);
    match document::node_of(&tree, &here, here.len()) {
        Some(node) => match node {
            Toml::Table(_) | Toml::Other => false,
            _ => true,
        },
        None => false,
    }
}

fn commented(doc: &DocumentMut, table: &Vec<String>, key: &str) -> (r: bool)
    requires
        document::node_at(
            document::document_state(*doc).tree,
            document::path_to(*table, key),
        ) is Some,
    ensures
        r == is_comment(
            suffix_at(document::document_state(*doc), document::path_to(*table, key)),
        ),
{
    match suffix_of(doc, table, key) {
        Some(suffix) => raw_suffix_is_comment(&suffix),
        None => false,
    }
}

fn set_entry(
    doc: &mut DocumentMut,
    table: &Vec<String>,
    shape: &Shape,
    existed: bool,
    key: &str,
    value: &NewValue,
)
    requires
        document::table_at(
            document::document_state(*old(doc)).tree,
            document::path_of(*table),
        ),
        existed == (document::node_at(
            document::document_state(*old(doc)).tree,
            document::path_to(*table, key),
        ) is Some),
        document::well_keyed(*value),
    ensures
        document::document_state(*final(doc)) == entry_set(
            document::document_state(*old(doc)),
            document::path_of(*table),
            shape@,
            key@,
            value@,
        ),
    decreases *value, 1int,
{
    let ghost s = document::document_state(*doc);
    let ghost p = document::path_of(*table);
    proof {
        lemma_entry_confined(s, p, shape@, key@, value@);
    }
    set_field(doc, table, key, value);
    match shape.comma {
        None => {},
        Some(comma) => {
            if !is_value(doc, table, key) || commented(doc, table, key) {
            } else if !names(&shape.new_last, key) || (!existed && comma) {
                set_suffix(doc, table, key, raw_string(""));
            } else if existed && !names(&shape.old_last, key) && !comma {
                set_suffix(doc, table, key, raw_string(" "));
            }
        },
    }
}

fn set_all(doc: &mut DocumentMut, table: &Vec<String>, shape: &Shape, new: &Vec<(String, NewValue)>)
    requires
        document::table_at(
            document::document_state(*old(doc)).tree,
            document::path_of(*table),
        ),
        document::well_keyed_fields(new@),
    ensures
        document::document_state(*final(doc)) == all_set(
            document::document_state(*old(doc)),
            document::path_of(*table),
            shape@,
            document::fresh_fields(new@),
        ),
        new@.len() > 0 ==> document::node_at(
            document::document_state(*final(doc)).tree,
            document::path_of(*table).push(new@.last().0@),
        ) is Some,
    decreases *new, 1int,
{
    let ghost s0 = document::document_state(*doc);
    let ghost p = document::path_of(*table);
    let ghost all = document::fresh_fields(new@);
    let mut i: usize = 0;
    proof {
        document::lemma_fresh_fields(new@);
        document::lemma_fields_well_keyed(new@);
        assert(all.take(0) =~= Seq::empty());
    }
    while i < new.len()
        invariant
            i <= new.len(),
            p == document::path_of(*table),
            all == document::fresh_fields(new@),
            all.len() == new.len(),
            forall|j: int| 0 <= j < new@.len() ==> document::well_keyed((#[trigger] new@[j]).1),
            document::document_state(*doc) == all_set(
                s0,
                p,
                shape@,
                all.take(i as int),
            ),
            document::table_at(
                document::document_state(*doc).tree,
                p,
            ),
            i > 0 ==> document::node_at(
                document::document_state(*doc).tree,
                p.push(new@[i as int - 1].0@),
            ) is Some,
        decreases new.len() - i,
    {
        let ghost s = document::document_state(*doc);
        proof {
            document::lemma_fresh_fields(new@);
            assert(all.take(i as int + 1).drop_last() =~= all.take(i as int));
            assert(all.take(i as int + 1).last() == all[i as int]);
            document::lemma_child_path(s.tree, p, new@[i as int].0@);
            lemma_entry_confined(s, p, shape@, new@[i as int].0@, new@[i as int].1@);
            assert(p.take(table@.len() as int) =~= p);
        }
        let key: &str = new[i].0.as_str();
        let tree: Toml = tree_of(doc);
        let existed: bool = match document::node_of(&tree, table, table.len()) {
            Some(node) => node.get(key).is_some(),
            None => false,
        };
        assert(decreases_to!(*new => new@[i as int].1));
        set_entry(doc, table, shape, existed, key, &new[i].1);
        i = i + 1;
    }
    assert(all.take(all.len() as int) =~= all);
}

fn trail_all(doc: &mut DocumentMut, table: &Vec<String>, comments: &Vec<RawString>)
    requires
        document::inline_at(
            document::document_state(*old(doc)).tree,
            document::path_of(*table),
        ),
        document::document_state(*old(doc)).trailings.dom().contains(
            document::path_of(*table),
        ),
    ensures
        document::document_state(*final(doc)) == all_trailing(
            document::document_state(*old(doc)),
            document::path_of(*table),
            comment_views(comments@),
        ),
{
    let ghost s0 = document::document_state(*doc);
    let ghost p = document::path_of(*table);
    let ghost all = comment_views(comments@);
    let mut i: usize = 0;
    assert(all.take(0) =~= Seq::empty());
    while i < comments.len()
        invariant
            i <= comments.len(),
            p == document::path_of(*table),
            all == comment_views(comments@),
            document::document_state(*doc) == all_trailing(
                s0,
                p,
                all.take(i as int),
            ),
            document::inline_at(document::document_state(*doc).tree, p),
            document::document_state(*doc).trailings.dom().contains(p),
        decreases comments.len() - i,
    {
        assert(all.take(i as int + 1).drop_last() =~= all.take(i as int));
        assert(all.take(i as int + 1).last() == document::raw_text(comments@[i as int]));
        match trailing_of(doc, table) {
            Some(end) => match set_trailing_preserving(&end.text, &known_text(&comments[i])) {
                Some(text) => set_trailing(doc, table, text.as_str()),
                None => {},
            },
            None => {},
        }
        i = i + 1;
    }
    assert(all.take(all.len() as int) =~= all);
}

fn keep_comments(doc: &mut DocumentMut, table: &Vec<String>, shape: &Shape, comments: Vec<RawString>)
    requires
        document::inline_at(
            document::document_state(*old(doc)).tree,
            document::path_of(*table),
        ),
        document::document_state(*old(doc)).trailings.dom().contains(
            document::path_of(*table),
        ),
        shape@.new_last is Some ==> document::node_at(
            document::document_state(*old(doc)).tree,
            document::path_of(*table).push(shape@.new_last->0),
        ) is Some,
    ensures
        document::document_state(*final(doc)) == comments_kept(
            document::document_state(*old(doc)),
            document::path_of(*table),
            shape@,
            comment_views(comments@),
        ),
{
    let ghost all = comment_views(comments@);
    let mut left: Vec<RawString> = comments;
    match &shape.new_last {
        Some(last) => {
            if is_value(doc, table, last.as_str()) && !commented(doc, table, last.as_str()) {
                match left.pop() {
                    Some(suffix) => {
                        assert(all.last() == document::raw_text(suffix));
                        assert(all.drop_last() =~= comment_views(left@));
                        set_suffix(doc, table, last.as_str(), suffix);
                    },
                    None => {},
                }
            }
        },
        None => {},
    }
    trail_all(doc, table, &left);
}

fn last_name(keys: &Vec<(String, Toml)>) -> (r: Option<String>)
    ensures
        text::opt_text(r) == last_key(document::entry_views(keys@)),
{
    proof {
        document::lemma_entry_views(keys@);
    }
    if keys.len() > 0 {
        Some(keys[keys.len() - 1].0.clone())
    } else {
        None
    }
}

fn last_field(keys: &Vec<(String, NewValue)>) -> (r: Option<String>)
    ensures
        text::opt_text(r) == last_key(document::fresh_fields(keys@)),
{
    proof {
        document::lemma_fresh_fields(keys@);
    }
    if keys.len() > 0 {
        Some(keys[keys.len() - 1].0.clone())
    } else {
        None
    }
}

fn merge_fields(
    doc: &mut DocumentMut,
    table: &Vec<String>,
    entries: &Vec<(String, Toml)>,
    new: &Vec<(String, NewValue)>,
)
    requires
        document::table_at(
            document::document_state(*old(doc)).tree,
            document::path_of(*table),
        ),
        document::entry_views(entries@) == document::entries_of(
            document::node_at(
                document::document_state(*old(doc)).tree,
                document::path_of(*table),
            )->0,
        ),
        document::well_keyed_fields(new@),
    ensures
        document::document_state(*final(doc)) == fields_merged(
            document::document_state(*old(doc)),
            document::path_of(*table),
            document::fresh_fields(new@),
        ),
    decreases *new, 2int,
{
    let comma: Option<bool> = match trailing_of(doc, table) {
        Some(end) => Some(end.comma),
        None => None,
    };
    let shape: Shape = Shape { comma, old_last: last_name(entries), new_last: last_field(new) };
    let stale: Vec<String> = stale_of(entries, new);
    let ghost s = document::document_state(*doc);
    let ghost p = document::path_of(*table);
    proof {
        assert forall|i: int| 0 <= i < stale@.len() implies document::node_at(
            s.tree,
            p.push((#[trigger] stale@[i])@),
        ) is Some by {
            assert(text::texts(stale@)[i] == stale@[i]@);
            lemma_stale_keys(
                document::entry_views(entries@),
                document::fresh_fields(new@),
                stale@[i]@,
            );
            document::lemma_child_path(s.tree, p, stale@[i]@);
        }
    }
    let keep: bool = match comma {
        Some(c) => !c,
        None => false,
    };
    let comments: Vec<RawString> = if keep {
        collect_comments(doc, table, &stale)
    } else {
        Vec::new()
    };
    proof {
        document::lemma_fresh_fields(new@);
    }
    remove_all(doc, table, &stale);
    let ghost left = document::document_state(*doc);
    set_all(doc, table, &shape, new);
    proof {
        lemma_removed_kept(s, p, text::texts(stale@));
        lemma_all_set_kept(left, p, shape@, document::fresh_fields(new@));
    }
    if keep {
        keep_comments(doc, table, &shape, comments);
    }
}

/// Sets one field of the table at a path. An assignment table that stands
/// there is merged entry by entry, and so are the tables inside it; any other
/// value is replaced and keeps the text before and after it; a missing field
/// is appended.
pub fn set_field(doc: &mut DocumentMut, path: &Vec<String>, field: &str, value: &NewValue)
    requires
        document::table_at(
            document::document_state(*old(doc)).tree,
            document::path_of(*path),
        ),
        document::well_keyed(*value),
    ensures
        document::document_state(*final(doc)) == field_set(
            document::document_state(*old(doc)),
            document::path_to(*path, field),
            value@,
        ),
    decreases *value, 0int,
{
    let table: Vec<String> = extended(path, field);
    let ghost p = document::path_of(*path);
    let ghost s = document::document_state(*doc);
    let tree: Toml = tree_of(doc);
    proof {
        assert(p.take(path@.len() as int) =~= p);
        document::lemma_child_path(s.tree, p, field@);
        match value {
            NewValue::Fields(new) => {
                document::lemma_fresh_fields(new@);
            },
            _ => {},
        }
    }
    let existing: Option<&Toml> = match document::node_of(&tree, path, path.len()) {
        Some(node) => node.get(field),
        None => None,
    };
    match existing {
        None => {
            insert_value(doc, path, field, value);
        },
        Some(existing) => {
            match (existing.entries(), value) {
                (Some(entries), NewValue::Fields(new)) => {
                    merge_fields(doc, &table, entries, new);
                },
                _ => {
                    replace_value(doc, path, field, value);
                },
            }
        },
    }
}

// ----- what a set field promises --------------------------------------------

pub proof fn lemma_drop_key_lookup(e: Entries, x: Seq<char>, k: Seq<char>)
    ensures
        document::entry(document::drop_key(e, x), k) == (if k == x {
            None
        } else {
            document::entry(e, k)
        }),
    decreases e.len(),
{
    let f = |y: (Seq<char>, TomlView)| y.0 != x;
    reveal(Seq::filter);
    if e.len() > 0 {
        lemma_drop_key_lookup(e.drop_last(), x, k);
        let d = document::drop_key(e, x);
        let dd = document::drop_key(e.drop_last(), x);
        if e.last().0 != x {
            assert(d == dd.push(e.last()));
            assert(d.drop_last() =~= dd);
        } else {
            assert(d == dd);
        }
    }
}

/// The entries of a table without a list of keys.
pub open spec fn keys_dropped(e: Entries, keys: Seq<Seq<char>>) -> Entries
    decreases keys.len(),
{
    if keys.len() == 0 {
        e
    } else {
        document::drop_key(keys_dropped(e, keys.drop_last()), keys.last())
    }
}

proof fn lemma_keys_dropped(e: Entries, keys: Seq<Seq<char>>, k: Seq<char>)
    ensures
        document::entry(keys_dropped(e, keys), k) == (if keys.contains(k) {
            None
        } else {
            document::entry(e, k)
        }),
    decreases keys.len(),
{
    if keys.len() > 0 {
        let d = keys.drop_last();
        lemma_keys_dropped(e, d, k);
        lemma_drop_key_lookup(keys_dropped(e, d), keys.last(), k);
        if keys.contains(k) && keys.last() != k {
            let i = choose|i: int| 0 <= i < keys.len() && keys[i] == k;
            assert(d[i] == k);
        }
        if d.contains(k) {
            let i = choose|i: int| 0 <= i < d.len() && d[i] == k;
            assert(keys[i] == k);
        }
    }
}

proof fn lemma_stale_keys(old: Entries, new: Entries, k: Seq<char>)
    ensures
        stale_keys(old, new).contains(k) <==> (document::entry(old, k) is Some
            && document::entry(new, k) is None),
    decreases old.len(),
{
    if old.len() > 0 {
        let d = old.drop_last();
        lemma_stale_keys(d, new, k);
        let s = stale_keys(old, new);
        let b = stale_keys(d, new);
        if document::entry(new, old.last().0) is None {
            assert(s == b.push(old.last().0));
            if b.contains(k) {
                let i = choose|i: int| 0 <= i < b.len() && b[i] == k;
                assert(s[i] == k);
            }
            if old.last().0 == k {
                assert(s[b.len() as int] == k);
            }
            if s.contains(k) && old.last().0 != k {
                let i = choose|i: int| 0 <= i < s.len() && s[i] == k;
                assert(b[i] == k);
            }
        }
    }
}

/// What stays of a tree while entries of the table at `p` change.
pub open spec fn only_table_changed(t: TomlView, u: TomlView, p: Path, q: Path) -> bool {
    !document::related(p, q) ==> document::node_at(u, q)
        == document::node_at(t, q)
}

proof fn lemma_put_frame(t: TomlView, p: Path, v: TomlView, q: Path)
    requires
        document::node_at(t, p) is Some,
    ensures
        only_table_changed(t, document::put_at(t, p, v), p, q),
{
    if p.len() > 0 {
        let d = p.drop_last();
        assert(d.push(p.last()) =~= p);
        document::lemma_child_path(t, d, p.last());
        document::lemma_put_at(t, p, v, q);
    } else {
        assert(q.take(0) =~= p);
    }
}

proof fn lemma_all_removed(s: DocState, p: Path, keys: Seq<Seq<char>>, q: Path)
    requires
        document::table_at(s.tree, p),
    ensures
        ({
            let node = document::node_at(s.tree, p)->0;
            let r = all_removed(s, p, keys);
            &&& document::node_at(r.tree, p) == Some(
                document::with_entries(
                    node,
                    keys_dropped(document::entries_of(node), keys),
                ),
            )
            &&& only_table_changed(s.tree, r.tree, p, q)
            &&& r.trailings.dom().contains(p) == s.trailings.dom().contains(p)
            &&& s.trailings.dom().contains(p) ==> r.trailings[p] == s.trailings[p]
        }),
    decreases keys.len(),
{
    if keys.len() > 0 {
        let d = keys.drop_last();
        lemma_all_removed(s, p, d, q);
        let b = all_removed(s, p, d);
        lemma_entry_drop(b.tree, p, keys.last());
        document::lemma_drop_child(b.tree, p, keys.last());
        lemma_put_frame(
            b.tree,
            p,
            document::with_entries(
                document::node_at(b.tree, p)->0,
                document::drop_key(
                    document::entries_of(
                        document::node_at(b.tree, p)->0,
                    ),
                    keys.last(),
                ),
            ),
            q,
        );
        lemma_trailing_stays(b.trailings, p, keys.last());
    }
}

pub proof fn lemma_all_trailing_tree(s: DocState, p: Path, comments: Seq<Option<Seq<char>>>)
    ensures
        all_trailing(s, p, comments).tree == s.tree,
        all_trailing(s, p, comments).suffixes == s.suffixes,
    decreases comments.len(),
{
    if comments.len() > 0 {
        lemma_all_trailing_tree(s, p, comments.drop_last());
    }
}

/// A node reads as a value: it is that value, or it is a table with the value's
/// fields, each of which reads as the value's.
pub open spec fn reads_as(a: TomlView, v: TomlView) -> bool
    decreases v,
{
    a == v || match v {
        TomlView::Inline(new) => {
            &&& document::table_like(a)
            &&& forall|k: Seq<char>|
                (#[trigger] document::child(a, k)) is Some <==> document::entry(new, k) is Some
            &&& forall|i: int|
                0 <= i < new.len() && document::entry(new, (#[trigger] new[i]).0) == Some(new[i].1)
                    ==> reads_as(document::child(a, new[i].0)->0, new[i].1)
        },
        _ => false,
    }
}

proof fn lemma_field_reads(s: DocState, q: Path, v: TomlView)
    requires
        q.len() > 0,
        document::table_at(s.tree, q.drop_last()),
    ensures
        document::node_at(field_set(s, q, v).tree, q) is Some,
        reads_as(document::node_at(field_set(s, q, v).tree, q)->0, v),
    decreases v, 0int,
{
    lemma_field_confined(s, q, v);
    match v {
        TomlView::Inline(new) => {
            if document::table_at(s.tree, q) {
                lemma_merged_reads(s, q, new);
            }
        },
        _ => {},
    }
}

proof fn lemma_merged_reads(s: DocState, p: Path, new: Entries)
    requires
        document::table_at(s.tree, p),
    ensures
        reads_as(
            document::node_at(fields_merged(s, p, new).tree, p)->0,
            TomlView::Inline(new),
        ),
    decreases new, 2int,
{
    let old = document::entries_of(document::node_at(s.tree, p)->0);
    let stale = stale_keys(old, new);
    let shape = merge_shape(s, p, new);
    let b = all_removed(s, p, stale);
    let c = all_set(b, p, shape, new);
    lemma_all_removed(s, p, stale, p);
    lemma_all_set_kept(b, p, shape, new);
    lemma_all_set_reads(b, p, shape, new);
    let comments = comments_of(s, p, stale);
    let ridden = document::state_suffix(c, p.push(shape.new_last->0), comments.last());
    lemma_trailing_kept(c, p, comments);
    lemma_trailing_kept(ridden, p, comments.drop_last());
    let after = document::node_at(fields_merged(s, p, new).tree, p)->0;
    assert(after == document::node_at(c.tree, p)->0);
    assert forall|k: Seq<char>|
        (#[trigger] document::child(after, k)) is Some <==> document::entry(new, k) is Some by {
        lemma_keys_dropped(old, stale, k);
        lemma_stale_keys(old, new, k);
        if document::entry(new, k) is Some {
            document::lemma_entry_index(new, k);
            let i = document::key_index(new, k);
            assert(document::entry(new, new[i].0) == Some(new[i].1));
        }
    }
}

proof fn lemma_all_set_reads(s: DocState, p: Path, shape: MergeShape, new: Entries)
    requires
        document::table_at(s.tree, p),
    ensures
        ({
            let before = document::node_at(s.tree, p)->0;
            let after = document::node_at(all_set(s, p, shape, new).tree, p)->0;
            &&& forall|k: Seq<char>|
                document::entry(new, k) is None ==> (#[trigger] document::child(after, k))
                    == document::child(before, k)
            &&& forall|i: int|
                0 <= i < new.len() && document::entry(new, (#[trigger] new[i]).0) == Some(new[i].1)
                    ==> document::child(after, new[i].0) is Some && reads_as(
                    document::child(after, new[i].0)->0,
                    new[i].1,
                )
        }),
    decreases new, 1int,
{
    if new.len() > 0 {
        let d = new.drop_last();
        let b = all_set(s, p, shape, d);
        let k0 = new.last().0;
        let v0 = new.last().1;
        let q = p.push(k0);
        let r = entry_set(b, p, shape, k0, v0);
        assert(q.drop_last() =~= p);
        lemma_all_set_kept(s, p, shape, d);
        lemma_all_set_reads(s, p, shape, d);
        lemma_entry_confined(b, p, shape, k0, v0);
        lemma_field_reads(b, q, v0);
        let x = document::node_at(r.tree, q)->0;
        assert(r.tree == field_set(b, q, v0).tree);
        lemma_entry_put(b.tree, p, k0, x);
        let middle = document::node_at(b.tree, p)->0;
        let after = document::node_at(r.tree, p)->0;
        assert forall|k: Seq<char>| (#[trigger] document::child(after, k)) == (if k == k0 {
            Some(x)
        } else {
            document::child(middle, k)
        }) by {
            document::lemma_put(document::entries_of(middle), k0, x, k);
        }
        assert forall|i: int|
            0 <= i < new.len() && document::entry(new, (#[trigger] new[i]).0) == Some(
                new[i].1,
            ) implies document::child(after, new[i].0) is Some && reads_as(
            document::child(after, new[i].0)->0,
            new[i].1,
        ) by {
            if new[i].0 != k0 {
                assert(d[i] == new[i]);
            }
        }
    }
}

/// A set field reads as the new value, and nothing outside it changes. Where a
/// table is merged, it keeps its kind; where the new table holds no table, the
/// field ends up with exactly the new fields. Any other field is the new value.
pub proof fn law_set_field(s: DocState, p: Path, v: TomlView, k: Seq<char>, q: Path)
    requires
        p.len() > 0,
        document::table_at(s.tree, p.drop_last()),
    ensures
        ({
            let r = field_set(s, p, v);
            let before = document::node_at(s.tree, p);
            let after = document::node_at(r.tree, p);
            &&& after is Some
            &&& reads_as(after->0, v)
            &&& if before is Some && document::table_like(before->0)
                && v is Inline {
                &&& after->0 is Inline == before->0 is Inline
                &&& after->0 is Table == before->0 is Table
                &&& document::flat(v) ==> document::child(after->0, k) == document::entry(
                    document::entries_of(v),
                    k,
                )
            } else {
                after->0 == v
            }
            &&& !document::related(p, q) ==> document::node_at(
                r.tree,
                q,
            ) == document::node_at(s.tree, q)
        }),
{
    lemma_field_reads(s, p, v);
    lemma_field_confined(s, p, v);
    let after = document::node_at(field_set(s, p, v).tree, p)->0;
    document::lemma_put_at(s.tree, p, after, q);
    if document::table_at(s.tree, p) && v is Inline && document::flat(v) {
        let new = document::entries_of(v);
        document::lemma_entry_index(new, k);
        let i = document::key_index(new, k);
        if i >= 0 {
            assert(document::entry(new, new[i].0) == Some(new[i].1));
            assert(!(document::entries_of(v)[i].1 is Inline));
        }
        assert(document::child(after, k) is Some <==> document::entry(new, k) is Some);
        if i >= 0 && after != v {
            assert(reads_as(document::child(after, k)->0, new[i].1));
        }
    }
}

/// A value that takes the place of another keeps the text before and after it,
/// and no text around anything else changes.
pub proof fn law_replaced_value_keeps_its_texts(s: DocState, p: Path, v: TomlView, q: Path)
    requires
        document::node_at(s.tree, p) is Some,
        !(document::table_like(document::node_at(s.tree, p)->0) && v is Inline),
    ensures
        document::decor_at(field_set(s, p, v), p) == document::decor_at(s, p),
        !document::within(p, q) ==> document::decor_at(field_set(s, p, v), q)
            == document::decor_at(s, q),
{
    assert(p.take(p.len() as int) =~= p);
    assert(p.skip(p.len() as int) =~= Seq::empty());
}

/// `c` stands somewhere in `t`.
pub open spec fn infix(c: Seq<char>, t: Seq<char>) -> bool {
    exists|i: int| #[trigger] infix_at(c, t, i)
}

pub open spec fn infix_at(c: Seq<char>, t: Seq<char>, i: int) -> bool {
    0 <= i && i + c.len() <= t.len() && t.subrange(i, i + c.len()) == c
}

proof fn lemma_infix_wider(c: Seq<char>, a: Seq<char>, t: Seq<char>, b: Seq<char>)
    requires
        infix(c, t),
    ensures
        infix(c, a + t + b),
{
    let i = choose|i: int| #[trigger] infix_at(c, t, i);
    let w = a + t + b;
    assert(w.subrange(a.len() + i, a.len() + i + c.len()) =~= t.subrange(i, i + c.len()));
    assert(infix_at(c, w, a.len() + i));
}

proof fn lemma_blank_infix(c: Seq<char>, t: Seq<char>)
    requires
        infix(c, t),
        text::is_blank(t),
    ensures
        text::is_blank(c),
{
    let i = choose|i: int| #[trigger] infix_at(c, t, i);
    assert forall|j: int| 0 <= j < c.len() implies text::is_white_space(
        #[trigger] c[j],
    ) by {
        assert(t.subrange(i, i + c.len())[j] == t[i + j]);
    }
}

proof fn lemma_merged_keeps(e: Seq<char>, x: Seq<char>, c: Seq<char>)
    requires
        !text::is_blank(c),
        infix(c, e) || infix(c, x),
    ensures
        infix(c, line_ended(comments_joined(e, x))),
{
    let none = Seq::<char>::empty();
    let j = comments_joined(e, x);
    if infix(c, e) {
        if text::is_blank(e) {
            lemma_blank_infix(c, e);
        }
        if (e.len() > 0 && e.last() == '\n') || (x.len() > 0 && x[0] == '\n') {
            lemma_infix_wider(c, none, e, x);
            assert(none + e + x =~= j);
        } else {
            lemma_infix_wider(c, none, e, "\n"@ + x);
            assert(none + e + ("\n"@ + x) =~= j);
        }
    } else {
        if text::is_blank(e) {
        } else if (e.len() > 0 && e.last() == '\n') || (x.len() > 0 && x[0] == '\n') {
            lemma_infix_wider(c, e, x, none);
            assert(e + x + none =~= j);
        } else {
            lemma_infix_wider(c, e + "\n"@, x, none);
            assert((e + "\n"@) + x + none =~= j);
        }
    }
    lemma_infix_wider(c, none, j, seq!['\n']);
    assert(none + j + seq!['\n'] =~= j.push('\n'));
}

proof fn lemma_all_trailing(s: DocState, p: Path, comments: Seq<Option<Seq<char>>>, c: Seq<char>)
    requires
        s.trailings.dom().contains(p),
        s.trailings[p].1 is Some,
        !text::is_blank(c),
    ensures
        all_trailing(s, p, comments).trailings.dom().contains(p),
        all_trailing(s, p, comments).trailings[p].1 is Some,
        infix(c, s.trailings[p].1->0) || comments.contains(Some(c)) ==> infix(
            c,
            all_trailing(s, p, comments).trailings[p].1->0,
        ),
    decreases comments.len(),
{
    if comments.len() > 0 {
        let d = comments.drop_last();
        lemma_all_trailing(s, p, d, c);
        let b = all_trailing(s, p, d);
        let e = b.trailings[p].1->0;
        match comments.last() {
            Some(x) => {
                if infix(c, e) || x == c {
                    if x == c {
                        assert(c.subrange(0, c.len() as int) =~= c);
                        assert(infix_at(c, x, 0));
                    }
                    lemma_merged_keeps(e, x, c);
                }
            },
            None => {},
        }
        if comments.contains(Some(c)) && comments.last() != Some(c) {
            let i = choose|i: int| 0 <= i < comments.len() && comments[i] == Some(c);
            assert(d[i] == Some(c));
        }
    }
}

proof fn lemma_comments_of(s: DocState, p: Path, keys: Seq<Seq<char>>, k: Seq<char>)
    requires
        keys.contains(k),
        is_comment(suffix_at(s, p.push(k))),
    ensures
        comments_of(s, p, keys).contains(suffix_at(s, p.push(k))->0),
    decreases keys.len(),
{
    let d = keys.drop_last();
    let all = comments_of(s, p, keys);
    let before = comments_of(s, p, d);
    let want = suffix_at(s, p.push(k))->0;
    if keys.last() == k {
        assert(all.last() == want);
        assert(all[all.len() - 1] == want);
    } else {
        let i = choose|i: int| 0 <= i < keys.len() && keys[i] == k;
        assert(d[i] == k);
        lemma_comments_of(s, p, d, k);
        let j = choose|j: int| 0 <= j < before.len() && before[j] == want;
        assert(all[j] == want);
    }
}

/// A dropped entry never takes its comment along: in an inline table without a
/// trailing comma, the comment of every entry that leaves ends up after the
/// new last entry or before the closing brace.
pub proof fn law_comments_survive(s: DocState, p: Path, new: Entries, k: Seq<char>, c: Seq<char>)
    requires
        document::inline_at(s.tree, p),
        s.trailings.dom().contains(p),
        s.trailings[p].0 == false,
        s.trailings[p].1 is Some,
        new.len() > 0,
        document::node_at(s.tree, p.push(k)) is Some,
        document::entry(new, k) is None,
        suffix_at(s, p.push(k)) == Some(Some(c)),
        !text::is_blank(c),
    ensures
        ({
            let r = fields_merged(s, p, new);
            ||| suffix_at(r, p.push(new.last().0)) == Some(Some(c))
            ||| infix(c, r.trailings[p].1->0)
        }),
{
    let node = document::node_at(s.tree, p)->0;
    let old = document::entries_of(node);
    let stale = stale_keys(old, new);
    let shape = merge_shape(s, p, new);
    let comments = comments_of(s, p, stale);
    let b = all_removed(s, p, stale);
    let set = all_set(b, p, shape, new);
    document::lemma_child_path(s.tree, p, k);
    lemma_stale_keys(old, new, k);
    lemma_comments_of(s, p, stale, k);
    lemma_removed_kept(s, p, stale);
    lemma_all_set_kept(b, p, shape, new);
    if rides(set, p, shape, comments) {
        let ridden = document::state_suffix(set, p.push(shape.new_last->0), comments.last());
        let rest = comments.drop_last();
        lemma_all_trailing_tree(ridden, p, rest);
        lemma_all_trailing(ridden, p, rest, c);
        if comments.last() != Some(c) {
            let i = choose|i: int| 0 <= i < comments.len() && comments[i] == Some(c);
            assert(rest[i] == Some(c));
        }
    } else {
        lemma_all_trailing(set, p, comments, c);
    }
}

} // verus!
