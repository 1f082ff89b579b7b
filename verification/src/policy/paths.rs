//! The identity of a path: a walk from the root that follows symbolic links
//! and normalizes every component. The walk asks for what the file system
//! shows at one path after another.

use crate::policy::PolicyError;
use crate::text::{self, owned, same, text3, text_from_bytes};
use vstd::prelude::*;

verus! {

/// How many symbolic links one walk may follow.
pub const LINK_LIMIT: u8 = 40;

/// The canonical decomposition (Unicode NFD) of a text.
pub uninterp spec fn nfd(s: Seq<char>) -> Seq<char>;

/// `UnicodeNormalization::nfd`, collected: the canonical decomposition of the
/// text.
#[verifier::external_body]
fn nfd_text(s: &str) -> (r: String)
    ensures
        r@ == nfd(s@),
{
    unicode_normalization::UnicodeNormalization::nfd(s).collect()
}

/// The code points that full Unicode case folding makes of a text.
pub uninterp spec fn case_folded(s: Seq<char>) -> Seq<u32>;

/// `CaseFold::Full.case_eq`: whether full case folding makes the same code
/// points of both texts.
#[verifier::external_body]
fn case_eq(a: &str, b: &str) -> (r: bool)
    ensures
        r == (case_folded(a@) == case_folded(b@)),
{
    focaccia::CaseFold::Full.case_eq(a, b)
}

/// The normalized form of one component.
pub fn normalize_component(component: &str) -> (r: String)
    ensures
        r@ == nfd(component@),
{
    nfd_text(component)
}

/// The identity of a path.
#[derive(Debug)]
pub struct CanonicalPath {
    pub components: Vec<String>,
    pub collapsed_missing_tail: bool,
}

/// The mathematical value of an identity.
pub struct IdentityView {
    pub components: Seq<Seq<char>>,
    pub collapsed_missing_tail: bool,
}

impl View for CanonicalPath {
    type V = IdentityView;

    open spec fn view(&self) -> IdentityView {
        IdentityView {
            components: text::texts(self.components@),
            collapsed_missing_tail: self.collapsed_missing_tail,
        }
    }
}

impl Clone for CanonicalPath {
    fn clone(&self) -> (r: Self)
        ensures
            r@ == self@,
    {
        CanonicalPath {
            components: text::copy_names(&self.components),
            collapsed_missing_tail: self.collapsed_missing_tail,
        }
    }
}

/// Component by component, the first `n` components fold to the same.
pub open spec fn agree(a: Seq<Seq<char>>, b: Seq<Seq<char>>, n: int) -> bool {
    forall|i: int| 0 <= i < n ==> case_folded(#[trigger] a[i]) == case_folded(b[i])
}

/// The same components, case aside.
pub open spec fn same_identity(a: IdentityView, b: IdentityView) -> bool {
    a.components.len() == b.components.len() && agree(
        a.components,
        b.components,
        a.components.len() as int,
    )
}

/// Whether a request enters a denied path: it is the path or lies below it.
/// A path that collapsed to its parent denies only what lies below.
pub open spec fn covered_by(denied: IdentityView, request: IdentityView) -> bool {
    &&& request.components.len() >= denied.components.len()
    &&& agree(denied.components, request.components, denied.components.len() as int)
    &&& denied.collapsed_missing_tail ==> request.components.len() > denied.components.len()
}

fn agreeing(a: &Vec<String>, b: &Vec<String>) -> (r: bool)
    requires
        a.len() <= b.len(),
    ensures
        r == agree(text::texts(a@), text::texts(b@), a@.len() as int),
{
    let mut i: usize = 0;
    let ghost x = text::texts(a@);
    let ghost y = text::texts(b@);
    while i < a.len()
        invariant
            i <= a.len() <= b.len(),
            x == text::texts(a@),
            y == text::texts(b@),
            agree(x, y, i as int),
        decreases a.len() - i,
    {
        assert(x[i as int] == a@[i as int]@ && y[i as int] == b@[i as int]@);
        if !case_eq(a[i].as_str(), b[i].as_str()) {
            return false;
        }
        i = i + 1;
    }
    true
}

/// Executable [`same_identity`].
pub fn same_components(left: &CanonicalPath, right: &CanonicalPath) -> (r: bool)
    ensures
        r == same_identity(left@, right@),
{
    left.components.len() == right.components.len() && agreeing(&left.components, &right.components)
}

/// Executable [`covered_by`].
pub fn covers_identity(denied: &CanonicalPath, request: &CanonicalPath) -> (r: bool)
    ensures
        r == covered_by(denied@, request@),
{
    if request.components.len() < denied.components.len() {
        return false;
    }
    if !agreeing(&denied.components, &request.components) {
        return false;
    }
    if denied.collapsed_missing_tail {
        request.components.len() > denied.components.len()
    } else {
        true
    }
}

/// The pieces of a path between its separators.
pub open spec fn byte_pieces(b: Seq<u8>) -> Seq<Seq<u8>>
    decreases b.len(),
{
    if b.len() == 0 {
        seq![Seq::<u8>::empty()]
    } else {
        let before = byte_pieces(b.drop_last());
        if b.last() == 47 {
            before.push(Seq::<u8>::empty())
        } else {
            before.update(before.len() - 1, before.last().push(b.last()))
        }
    }
}

/// One component: its text, or nothing when its bytes are no text.
pub open spec fn part_text(piece: Seq<u8>) -> Option<Seq<char>> {
    if vstd::utf8::valid_utf8(piece) {
        Some(vstd::utf8::decode_utf8(piece))
    } else {
        None
    }
}

/// A piece that is no component: empty, or a single dot.
pub open spec fn is_idle(piece: Seq<u8>) -> bool {
    piece.len() == 0 || (piece.len() == 1 && piece[0] == 46)
}

pub open spec fn parts_among(pieces: Seq<Seq<u8>>) -> Seq<Option<Seq<char>>>
    decreases pieces.len(),
{
    if pieces.len() == 0 {
        Seq::empty()
    } else if is_idle(pieces.last()) {
        parts_among(pieces.drop_last())
    } else {
        parts_among(pieces.drop_last()).push(part_text(pieces.last()))
    }
}

/// The components of a path in order: separators repeated and single dots
/// do not count.
pub open spec fn parts_of(path: Seq<u8>) -> Seq<Option<Seq<char>>> {
    parts_among(byte_pieces(path))
}

pub open spec fn opt_texts(v: Seq<Option<String>>) -> Seq<Option<Seq<char>>> {
    v.map_values(|s: Option<String>| text::opt_text(s))
}

pub open spec fn byte_texts(v: Seq<Vec<u8>>) -> Seq<Seq<u8>> {
    v.map_values(|s: Vec<u8>| s@)
}

fn split_bytes(path: &Vec<u8>) -> (r: Vec<Vec<u8>>)
    ensures
        byte_texts(r@) == byte_pieces(path@),
{
    let mut done: Vec<Vec<u8>> = Vec::new();
    let mut cur: Vec<u8> = Vec::new();
    let mut i: usize = 0;
    assert(path@.take(0) =~= Seq::<u8>::empty());
    assert(byte_texts(done@).push(cur@) =~= seq![Seq::<u8>::empty()]);
    while i < path.len()
        invariant
            i <= path.len(),
            byte_texts(done@).push(cur@) == byte_pieces(path@.take(i as int)),
        decreases path.len() - i,
    {
        let ghost after = path@.take(i as int + 1);
        assert(after.drop_last() =~= path@.take(i as int));
        assert(after.last() == path@[i as int]);
        let b: u8 = path[i];
        if b == 47 {
            let ghost held = byte_texts(done@);
            let ghost piece = cur@;
            done.push(cur);
            assert(byte_texts(done@) =~= held.push(piece));
            cur = Vec::new();
            assert(byte_pieces(after) =~= byte_texts(done@).push(cur@));
        } else {
            cur.push(b);
            assert(byte_pieces(after) =~= byte_texts(done@).push(cur@));
        }
        i = i + 1;
    }
    assert(path@.take(path@.len() as int) =~= path@);
    let ghost held = byte_texts(done@);
    let ghost piece = cur@;
    done.push(cur);
    assert(byte_texts(done@) =~= held.push(piece));
    done
}

/// The components of a path, given as its bytes.
pub fn path_components(path: &Vec<u8>) -> (r: Vec<Option<String>>)
    ensures
        opt_texts(r@) == parts_of(path@),
{
    let pieces: Vec<Vec<u8>> = split_bytes(path);
    let ghost views = byte_texts(pieces@);
    let mut out: Vec<Option<String>> = Vec::new();
    let mut i: usize = 0;
    assert(views.take(0) =~= Seq::empty());
    assert(opt_texts(out@) =~= Seq::empty());
    while i < pieces.len()
        invariant
            i <= pieces.len(),
            views == byte_texts(pieces@),
            opt_texts(out@) == parts_among(views.take(i as int)),
        decreases pieces.len() - i,
    {
        let ghost next = views.take(i as int + 1);
        assert(next.drop_last() =~= views.take(i as int));
        assert(next.last() == pieces@[i as int]@);
        let idle: bool = pieces[i].len() == 0 || (pieces[i].len() == 1 && pieces[i][0] == 46);
        if !idle {
            let part: Option<String> = text_from_bytes(copy_bytes(&pieces[i]));
            let ghost held = opt_texts(out@);
            let ghost added = text::opt_text(part);
            out.push(part);
            assert(opt_texts(out@) =~= held.push(added));
        }
        i = i + 1;
    }
    assert(views.take(views.len() as int) =~= views);
    out
}

/// Copies some bytes.
pub fn copy_bytes(b: &Vec<u8>) -> (r: Vec<u8>)
    ensures
        r@ == b@,
{
    let mut out: Vec<u8> = Vec::new();
    let mut i: usize = 0;
    while i < b.len()
        invariant
            i <= b.len(),
            out@ == b@.take(i as int),
        decreases b.len() - i,
    {
        out.push(b[i]);
        i = i + 1;
        assert(b@.take(i as int) =~= b@.take(i as int - 1).push(b@[i as int - 1]));
    }
    assert(b@.take(b@.len() as int) =~= b@);
    out
}

/// Where a walk stands.
#[derive(Debug)]
pub struct PathWalk {
    /// Components still to visit.
    pub pending: Vec<Option<String>>,
    /// The names walked through, as spelled.
    pub resolved: Vec<String>,
    /// The same names, normalized.
    pub components: Vec<String>,
    /// How many names are known to exist, once one was found missing.
    pub missing_depth: Option<usize>,
    pub missing_tail_collapsed: bool,
    pub symlink_expansions: u8,
}

/// The mathematical value of a walk.
pub struct WalkView {
    pub pending: Seq<Option<Seq<char>>>,
    pub resolved: Seq<Seq<char>>,
    pub components: Seq<Seq<char>>,
    pub missing_depth: Option<usize>,
    pub missing_tail_collapsed: bool,
    pub symlink_expansions: u8,
}

impl View for PathWalk {
    type V = WalkView;

    open spec fn view(&self) -> WalkView {
        WalkView {
            pending: opt_texts(self.pending@),
            resolved: text::texts(self.resolved@),
            components: text::texts(self.components@),
            missing_depth: self.missing_depth,
            missing_tail_collapsed: self.missing_tail_collapsed,
            symlink_expansions: self.symlink_expansions,
        }
    }
}

/// What the file system shows at a path, without following a link.
#[derive(Debug)]
pub enum PathSight<T = String, B = Vec<u8>> {
    /// Something that is no link.
    Present,
    /// A link and the bytes of its target.
    Link(B),
    /// A link whose target cannot be read, and why.
    LinkUnreadable(T),
    /// Nothing.
    Missing,
    /// It cannot be inspected, and why.
    Unreadable(T),
}

pub open spec fn sight_view(s: PathSight) -> PathSight<Seq<char>, Seq<u8>> {
    match s {
        PathSight::Present => PathSight::Present,
        PathSight::Link(b) => PathSight::Link(b@),
        PathSight::LinkUnreadable(k) => PathSight::LinkUnreadable(k@),
        PathSight::Missing => PathSight::Missing,
        PathSight::Unreadable(k) => PathSight::Unreadable(k@),
    }
}

/// A walk along an absolute path; a path that does not begin at the root has
/// none.
pub open spec fn started(path: Seq<u8>) -> Result<WalkView, PolicyError<Seq<char>>> {
    if path.len() > 0 && path[0] == 47 {
        Ok(
            WalkView {
                pending: parts_of(path),
                resolved: Seq::empty(),
                components: Seq::empty(),
                missing_depth: None,
                missing_tail_collapsed: false,
                symlink_expansions: 0,
            },
        )
    } else {
        Err(PolicyError::InvalidPath)
    }
}

/// A walk that goes one name down.
pub open spec fn descended(w: WalkView, name: Seq<char>) -> WalkView {
    WalkView { resolved: w.resolved.push(name), components: w.components.push(nfd(name)), ..w }
}

/// A walk that goes one name up; at the root it stays.
pub open spec fn ascended(w: WalkView) -> WalkView {
    let c = if w.components.len() > 0 {
        w.components.drop_last()
    } else {
        w.components
    };
    let r = if w.components.len() > 0 && w.resolved.len() > 0 {
        w.resolved.drop_last()
    } else {
        w.resolved
    };
    WalkView {
        components: c,
        resolved: r,
        missing_tail_collapsed: w.components.len() > 0 || w.missing_tail_collapsed,
        missing_depth: match w.missing_depth {
            Some(depth) => if c.len() <= depth {
                None
            } else {
                Some(depth)
            },
            None => None,
        },
        ..w
    }
}

/// What a walk wants next.
pub enum StepView {
    /// What the file system shows below the names walked through, at this
    /// name.
    Inspect { walk: WalkView, name: Seq<char> },
    Done(IdentityView),
    /// A component is no text.
    NotText,
}

/// The next thing a walk wants: dots are skipped, parents left, and below a
/// missing name nothing is inspected.
pub open spec fn settled(w: WalkView) -> StepView
    decreases w.pending.len(),
{
    if w.pending.len() == 0 {
        StepView::Done(
            IdentityView {
                components: w.components,
                collapsed_missing_tail: w.missing_tail_collapsed,
            },
        )
    } else {
        let rest = WalkView { pending: w.pending.skip(1), ..w };
        match w.pending[0] {
            None => StepView::NotText,
            Some(name) => if name == "."@ {
                settled(rest)
            } else if name == ".."@ {
                settled(ascended(rest))
            } else if w.missing_depth is Some {
                settled(WalkView { missing_tail_collapsed: false, ..descended(rest, name) })
            } else {
                StepView::Inspect { walk: WalkView { missing_tail_collapsed: false, ..rest }, name }
            },
        }
    }
}

/// The walk after the file system showed `sight` at `name`.
pub open spec fn observed(
    w: WalkView,
    name: Seq<char>,
    sight: PathSight<Seq<char>, Seq<u8>>,
) -> Result<WalkView, PolicyError<Seq<char>>> {
    match sight {
        PathSight::Present => Ok(descended(w, name)),
        PathSight::Missing => Ok(
            WalkView { missing_depth: Some(w.components.len() as usize), ..descended(w, name) },
        ),
        PathSight::Unreadable(kind) => Err(PolicyError::PathInspection { kind }),
        PathSight::LinkUnreadable(kind) => if w.symlink_expansions >= LINK_LIMIT {
            Err(PolicyError::SymlinkLoop)
        } else {
            Err(PolicyError::SymlinkRead { kind })
        },
        PathSight::Link(target) => if w.symlink_expansions >= LINK_LIMIT {
            Err(PolicyError::SymlinkLoop)
        } else {
            let base = if target.len() > 0 && target[0] == 47 {
                WalkView { components: Seq::empty(), resolved: Seq::empty(), ..w }
            } else {
                w
            };
            Ok(
                WalkView {
                    pending: parts_of(target) + w.pending,
                    symlink_expansions: (w.symlink_expansions + 1) as u8,
                    ..base
                },
            )
        },
    }
}

/// The path below the root that some names spell.
pub open spec fn joined(names: Seq<Seq<char>>) -> Seq<char>
    decreases names.len(),
{
    if names.len() == 0 {
        Seq::empty()
    } else {
        joined(names.drop_last()) + "/"@ + names.last()
    }
}

/// A question to the file system.
#[derive(Debug)]
pub struct Inspection {
    pub walk: PathWalk,
    pub name: String,
}

/// What a walk wants next.
#[derive(Debug)]
pub enum WalkStep {
    Inspect(Inspection),
    Done(CanonicalPath),
    NotText,
}

pub open spec fn step_view(s: WalkStep) -> StepView {
    match s {
        WalkStep::Inspect(i) => StepView::Inspect { walk: i.walk@, name: i.name@ },
        WalkStep::Done(p) => StepView::Done(p@),
        WalkStep::NotText => StepView::NotText,
    }
}

pub open spec fn outcome_view(r: Result<PathWalk, PolicyError>) -> Result<
    WalkView,
    PolicyError<Seq<char>>,
> {
    match r {
        Ok(w) => Ok(w@),
        Err(e) => Err(e@),
    }
}

/// Adds a name to the end of a walk.
pub fn push_component(name: &str, components: &mut Vec<String>, resolved: &mut Vec<String>)
    ensures
        text::texts(final(components)@) == text::texts(old(components)@).push(
            nfd(name@),
        ),
        text::texts(final(resolved)@) == text::texts(old(resolved)@).push(name@),
{
    let normal: String = normalize_component(name);
    let spelled: String = owned(name);
    proof {
        text::lemma_texts_push(components@, normal);
        text::lemma_texts_push(resolved@, spelled);
    }
    components.push(normal);
    resolved.push(spelled);
}

/// Takes the last name off a walk, when there is one.
pub fn pop_component(components: &mut Vec<String>, resolved: &mut Vec<String>)
    ensures
        text::texts(final(components)@) == (if old(components)@.len() > 0 {
            text::texts(old(components)@).drop_last()
        } else {
            text::texts(old(components)@)
        }),
        text::texts(final(resolved)@) == (if old(components)@.len() > 0 && old(resolved)@.len() > 0 {
            text::texts(old(resolved)@).drop_last()
        } else {
            text::texts(old(resolved)@)
        }),
{
    let ghost c = components@;
    let ghost r = resolved@;
    if components.pop().is_some() {
        assert(text::texts(components@) =~= text::texts(c).drop_last());
        let gone: Option<String> = resolved.pop();
        proof {
            if r.len() > 0 {
                assert(text::texts(resolved@) =~= text::texts(r).drop_last());
            } else {
                assert(resolved@ =~= r);
            }
        }
    } else {
        assert(components@ =~= c);
    }
}

impl PathWalk {
    /// A walk along an absolute path, given as its bytes.
    pub fn start(path: &Vec<u8>) -> (r: Result<PathWalk, PolicyError>)
        ensures
            outcome_view(r) == started(path@),
    {
        if path.len() == 0 || path[0] != 47 {
            return Err(PolicyError::InvalidPath);
        }
        let walk: PathWalk = PathWalk {
            pending: path_components(path),
            resolved: Vec::new(),
            components: Vec::new(),
            missing_depth: None,
            missing_tail_collapsed: false,
            symlink_expansions: 0,
        };
        assert(walk@.resolved =~= Seq::empty());
        assert(walk@.components =~= Seq::empty());
        Ok(walk)
    }

    /// Goes on until the file system must be asked.
    pub fn advance(self) -> (r: WalkStep)
        ensures
            step_view(r) == settled(self@),
    {
        let ghost begun = self@;
        let mut pending: Vec<Option<String>> = self.pending;
        let mut resolved: Vec<String> = self.resolved;
        let mut components: Vec<String> = self.components;
        let mut missing_depth: Option<usize> = self.missing_depth;
        let mut missing_tail_collapsed: bool = self.missing_tail_collapsed;
        let symlink_expansions: u8 = self.symlink_expansions;
        while pending.len() > 0
            invariant
                begun == self@,
                settled(begun) == settled(
                    WalkView {
                        pending: opt_texts(pending@),
                        resolved: text::texts(resolved@),
                        components: text::texts(components@),
                        missing_depth,
                        missing_tail_collapsed,
                        symlink_expansions,
                    },
                ),
            decreases pending.len(),
        {
            let ghost w = WalkView {
                pending: opt_texts(pending@),
                resolved: text::texts(resolved@),
                components: text::texts(components@),
                missing_depth,
                missing_tail_collapsed,
                symlink_expansions,
            };
            let ghost queue = pending@;
            let part: Option<String> = pending.remove(0);
            assert(opt_texts(pending@) =~= w.pending.skip(1));
            assert(w.pending[0] == text::opt_text(part));
            let name: String = match part {
                Some(n) => n,
                None => {
                    return WalkStep::NotText;
                },
            };
            let ghost rest = WalkView { pending: w.pending.skip(1), ..w };
            if same(name.as_str(), ".") {
                continue;
            }
            if same(name.as_str(), "..") {
                let before: usize = components.len();
                pop_component(&mut components, &mut resolved);
                proof {
                    assert(text::texts(components@).len() == components@.len());
                }
                if before > components.len() {
                    missing_tail_collapsed = true;
                }
                if let Some(depth) = missing_depth {
                    if components.len() <= depth {
                        missing_depth = None;
                    }
                }
                assert(ascended(rest) == (WalkView {
                    pending: opt_texts(pending@),
                    resolved: text::texts(resolved@),
                    components: text::texts(components@),
                    missing_depth,
                    missing_tail_collapsed,
                    symlink_expansions,
                }));
                continue;
            }
            missing_tail_collapsed = false;
            if missing_depth.is_some() {
                push_component(name.as_str(), &mut components, &mut resolved);
                continue;
            }
            let walk: PathWalk = PathWalk {
                pending,
                resolved,
                components,
                missing_depth,
                missing_tail_collapsed,
                symlink_expansions,
            };
            return WalkStep::Inspect(Inspection { walk, name });
        }
        assert(opt_texts(pending@) =~= Seq::empty());
        WalkStep::Done(CanonicalPath { components, collapsed_missing_tail: missing_tail_collapsed })
    }
}

impl Inspection {
    /// The path the file system is asked about.
    pub fn candidate(&self) -> (r: String)
        ensures
            r@ == joined(self.walk@.resolved.push(self.name@)),
    {
        let ghost names = text::texts(self.walk.resolved@);
        let mut out: String = String::new();
        let mut i: usize = 0;
        assert(names.take(0) =~= Seq::empty());
        while i < self.walk.resolved.len()
            invariant
                i <= self.walk.resolved.len(),
                names == text::texts(self.walk.resolved@),
                out@ == joined(names.take(i as int)),
            decreases self.walk.resolved.len() - i,
        {
            assert(names.take(i as int + 1).drop_last() =~= names.take(i as int));
            assert(names.take(i as int + 1).last() == self.walk.resolved@[i as int]@);
            out.push_str("/");
            out.push_str(self.walk.resolved[i].as_str());
            i = i + 1;
        }
        assert(names.take(names.len() as int) =~= names);
        assert(names.push(self.name@).drop_last() =~= names);
        text3(out.as_str(), "/", self.name.as_str())
    }

    /// The walk after the file system answered.
    pub fn observe(self, sight: PathSight) -> (r: Result<PathWalk, PolicyError>)
        ensures
            outcome_view(r) == observed(self.walk@, self.name@, sight_view(sight)),
    {
        let ghost w = self.walk@;
        let ghost n = self.name@;
        let mut walk: PathWalk = self.walk;
        let name: String = self.name;
        assert(walk@.components.len() == walk.components.len());
        match sight {
            PathSight::Present => {
                push_component(name.as_str(), &mut walk.components, &mut walk.resolved);
                assert(walk@ == descended(w, n));
                Ok(walk)
            },
            PathSight::Missing => {
                walk.missing_depth = Some(walk.components.len());
                push_component(name.as_str(), &mut walk.components, &mut walk.resolved);
                Ok(walk)
            },
            PathSight::Unreadable(kind) => Err(PolicyError::PathInspection { kind }),
            PathSight::LinkUnreadable(kind) => {
                if walk.symlink_expansions >= LINK_LIMIT {
                    Err(PolicyError::SymlinkLoop)
                } else {
                    Err(PolicyError::SymlinkRead { kind })
                }
            },
            PathSight::Link(target) => {
                if walk.symlink_expansions >= LINK_LIMIT {
                    return Err(PolicyError::SymlinkLoop);
                }
                walk.symlink_expansions = walk.symlink_expansions + 1;
                if target.len() > 0 && target[0] == 47 {
                    walk.components = Vec::new();
                    walk.resolved = Vec::new();
                    assert(walk@.components =~= Seq::empty());
                    assert(walk@.resolved =~= Seq::empty());
                }
                let mut parts: Vec<Option<String>> = path_components(&target);
                let ghost before = parts@;
                let ghost queue = walk.pending@;
                parts.append(&mut walk.pending);
                assert(opt_texts(parts@) =~= opt_texts(before) + opt_texts(queue));
                walk.pending = parts;
                Ok(walk)
            },
        }
    }
}

/// A walk in order: every name it went through stands normalized at the same
/// place, none of them is a dot or a parent, and the link limit is kept.
pub open spec fn in_order(w: WalkView) -> bool {
    &&& w.components.len() == w.resolved.len()
    &&& w.symlink_expansions <= LINK_LIMIT
    &&& forall|i: int|
        0 <= i < w.resolved.len() ==> w.components[i] == nfd(#[trigger] w.resolved[i])
            && w.resolved[i] != "."@ && w.resolved[i] != ".."@
}

/// Whatever the file system shows, a walk in order stays in order: it never
/// follows more than the permitted number of links, and no name it went
/// through is a dot or a parent.
pub proof fn law_walk_stays_in_order(w: WalkView, sight: PathSight<Seq<char>, Seq<u8>>)
    requires
        in_order(w),
    ensures
        settled(w) matches StepView::Inspect { walk, name } ==> in_order(walk) && (observed(
            walk,
            name,
            sight,
        ) matches Ok(next) ==> in_order(next)),
    decreases w.pending.len(),
{
    if w.pending.len() > 0 {
        let rest = WalkView { pending: w.pending.skip(1), ..w };
        match w.pending[0] {
            None => {},
            Some(name) => {
                if name == "."@ {
                    law_walk_stays_in_order(rest, sight);
                } else if name == ".."@ {
                    law_walk_stays_in_order(ascended(rest), sight);
                } else if w.missing_depth is Some {
                    law_walk_stays_in_order(
                        WalkView { missing_tail_collapsed: false, ..descended(rest, name) },
                        sight,
                    );
                }
            },
        }
    }
}

} // verus!
