//! What the modes, the deny rules and the walk along a path promise.

use crate::contracts::EffectClass;
use crate::policy::paths::{self, IdentityView, PathSight, StepView, WalkView};
use crate::policy::{
    self, AdmissionContext, DenyConsult, Grant, ModeDecision, PermissionMode, PolicyError,
};
use vstd::prelude::*;

verus! {

// ----- modes -----------------------------------------------------------------

/// Where no rule denies the target, the mode decides. The mode for approved
/// effects alone allows exactly what was approved before; the read-only mode
/// allows exactly the reads; neither of them ever asks. The unattended mode
/// allows everything. The remaining modes never deny.
pub proof fn law_mode_decides(
    denies: Seq<IdentityView>,
    raw_denies: Seq<Seq<char>>,
    target: Seq<char>,
    class: EffectClass,
    ctx: AdmissionContext,
    resolved: Result<IdentityView, PolicyError<Seq<char>>>,
)
    requires
        !policy::denied_target(denies, raw_denies, target, class, resolved),
    ensures
        ({
            let v = policy::verdict(denies, raw_denies, target, class, ctx, resolved);
            &&& ctx.mode == PermissionMode::PreapprovedOnly ==> (v == ModeDecision::Allow
                <==> ctx.previously_approved) && v != ModeDecision::Ask
            &&& ctx.mode == PermissionMode::ReadOnly ==> (v == ModeDecision::Allow <==> class
                == EffectClass::Read) && v != ModeDecision::Ask
            &&& ctx.mode == PermissionMode::Yolo ==> v == ModeDecision::Allow
            &&& ctx.mode == PermissionMode::Manual || ctx.mode == PermissionMode::AcceptEdits
                || ctx.mode == PermissionMode::Auto ==> v != ModeDecision::Deny
        }),
{
}

/// What each asking mode lets through without a question. The manual mode: a
/// read inside the scope of a grant. The edit mode: every read, and a write in
/// a trusted scope that has a checkpoint. The automatic mode: a read in the
/// scope of a grant, a write there while the budget lasts, and a run or an
/// egress within the declared bounds. A model call or a control effect is
/// always asked for.
pub proof fn law_silent_effects_are_listed(class: EffectClass, ctx: AdmissionContext)
    ensures
        ({
            let silent = policy::mode_verdict(class, ctx) == ModeDecision::Allow;
            &&& ctx.mode == PermissionMode::Manual && silent ==> class == EffectClass::Read
                && ctx.in_grant_scope
            &&& ctx.mode == PermissionMode::Manual && class == EffectClass::Read
                && ctx.in_grant_scope ==> silent
            &&& ctx.mode == PermissionMode::AcceptEdits && class == EffectClass::Read ==> silent
            &&& ctx.mode == PermissionMode::AcceptEdits && class == EffectClass::Write ==> (silent
                <==> ctx.in_trusted_scope && ctx.has_checkpoint)
            &&& ctx.mode == PermissionMode::AcceptEdits && class != EffectClass::Read && class
                != EffectClass::Write ==> !silent
            &&& ctx.mode == PermissionMode::Auto && class == EffectClass::Read ==> (silent
                <==> ctx.in_grant_scope)
            &&& ctx.mode == PermissionMode::Auto && class == EffectClass::Write ==> (silent
                <==> ctx.in_grant_scope && ctx.budget_remaining)
            &&& ctx.mode == PermissionMode::Auto && (class == EffectClass::Exec || class
                == EffectClass::Egress) ==> (silent <==> ctx.within_declared_bounds)
            &&& ctx.mode == PermissionMode::Auto && (class == EffectClass::Model || class
                == EffectClass::Control) ==> !silent
        }),
{
}

/// Facts in favour of an effect never make the verdict stricter: where every
/// fact that holds in one context holds in another of the same mode, what the
/// first allows the second allows, and what the first does not deny the second
/// does not deny.
pub proof fn law_more_facts_never_restrict(
    class: EffectClass,
    less: AdmissionContext,
    more: AdmissionContext,
)
    requires
        less.mode == more.mode,
        less.in_grant_scope ==> more.in_grant_scope,
        less.budget_remaining ==> more.budget_remaining,
        less.in_trusted_scope ==> more.in_trusted_scope,
        less.has_checkpoint ==> more.has_checkpoint,
        less.previously_approved ==> more.previously_approved,
        less.within_declared_bounds ==> more.within_declared_bounds,
    ensures
        policy::mode_verdict(class, less) == ModeDecision::Allow ==> policy::mode_verdict(
            class,
            more,
        ) == ModeDecision::Allow,
        policy::mode_verdict(class, less) != ModeDecision::Deny ==> policy::mode_verdict(
            class,
            more,
        ) != ModeDecision::Deny,
{
}

// ----- deny rules for paths --------------------------------------------------

/// A rule covers its own path and everything below it. A rule whose path
/// collapsed to its parent covers what lies below that parent and not the
/// parent.
pub proof fn law_rule_covers_its_tree(
    denies: Seq<IdentityView>,
    i: int,
    below: Seq<Seq<char>>,
    collapsed: bool,
)
    requires
        0 <= i < denies.len(),
        below.len() > 0 || !denies[i].collapsed_missing_tail,
    ensures
        policy::path_denied(
            denies,
            Ok(
                IdentityView {
                    components: denies[i].components + below,
                    collapsed_missing_tail: collapsed,
                },
            ),
        ),
{
    let request = IdentityView {
        components: denies[i].components + below,
        collapsed_missing_tail: collapsed,
    };
    assert(paths::covered_by(denies[i], request));
}

/// A path is denied only by a rule that leads to it: one that is no longer
/// than the path, agrees with it name by name up to case, and is shorter where
/// it collapsed to its parent. A path that has no identity is always denied.
pub proof fn law_only_a_leading_rule_denies(
    denies: Seq<IdentityView>,
    request: Result<IdentityView, PolicyError<Seq<char>>>,
)
    ensures
        request is Err ==> policy::path_denied(denies, request),
        request matches Ok(p) ==> (policy::path_denied(denies, request) <==> exists|i: int|
            0 <= i < denies.len() && (#[trigger] denies[i]).components.len() <= p.components.len()
                && (denies[i].collapsed_missing_tail ==> denies[i].components.len()
                < p.components.len()) && forall|k: int|
                0 <= k < denies[i].components.len() ==> paths::case_folded(
                    #[trigger] denies[i].components[k],
                ) == paths::case_folded(p.components[k])),
{
    if request is Ok {
        let p = request->Ok_0;
        if policy::path_denied(denies, request) {
            let i = choose|i: int|
                0 <= i < denies.len() && paths::covered_by(#[trigger] denies[i], p);
            assert(denies[i].components.len() <= p.components.len());
        }
        if exists|i: int|
            0 <= i < denies.len() && (#[trigger] denies[i]).components.len() <= p.components.len()
                && (denies[i].collapsed_missing_tail ==> denies[i].components.len()
                < p.components.len()) && forall|k: int|
                0 <= k < denies[i].components.len() ==> paths::case_folded(
                    #[trigger] denies[i].components[k],
                ) == paths::case_folded(p.components[k]) {
            let i = choose|i: int|
                0 <= i < denies.len() && (#[trigger] denies[i]).components.len()
                    <= p.components.len() && (denies[i].collapsed_missing_tail
                    ==> denies[i].components.len() < p.components.len()) && forall|k: int|
                    0 <= k < denies[i].components.len() ==> paths::case_folded(
                        #[trigger] denies[i].components[k],
                    ) == paths::case_folded(p.components[k]);
            assert(paths::covered_by(denies[i], p));
        }
    }
}

/// Enrolling a path takes no protection away and adds none but its own: what
/// was denied stays denied, and what is denied then was denied before or is
/// covered by the path.
pub proof fn law_enrolling_only_adds(
    rules: Seq<IdentityView>,
    p: IdentityView,
    request: IdentityView,
)
    ensures
        policy::path_denied(rules, Ok(request)) ==> policy::path_denied(
            policy::enrolled(rules, p),
            Ok(request),
        ),
        policy::path_denied(policy::enrolled(rules, p), Ok(request)) ==> policy::path_denied(
            rules,
            Ok(request),
        ) || policy::path_denied(seq![p], Ok(request)),
{
    policy::lemma_first_same(rules, p);
    let n = policy::first_same(rules, p);
    let e = policy::enrolled(rules, p);
    if policy::path_denied(rules, Ok(request)) {
        let i = choose|i: int|
            0 <= i < rules.len() && paths::covered_by(#[trigger] rules[i], request);
        if i == n && !p.collapsed_missing_tail {
            assert(e[n] == p);
            assert(paths::agree(rules[n].components, p.components, rules[n].components.len() as int));
            assert forall|k: int| 0 <= k < p.components.len() implies paths::case_folded(
                #[trigger] p.components[k],
            ) == paths::case_folded(request.components[k]) by {
                assert(paths::case_folded(rules[n].components[k]) == paths::case_folded(
                    p.components[k],
                ));
            }
            assert(paths::covered_by(e[n], request));
        } else {
            assert(e[i] == rules[i]);
            assert(paths::covered_by(e[i], request));
        }
    }
    if policy::path_denied(e, Ok(request)) {
        let i = choose|i: int| 0 <= i < e.len() && paths::covered_by(#[trigger] e[i], request);
        if i < rules.len() && e[i] == rules[i] {
            assert(paths::covered_by(rules[i], request));
        } else {
            assert(e[i] == p);
            assert(paths::covered_by(seq![p][0], request));
        }
    }
}

/// Taking a path out leaves every rule for another path in force.
pub proof fn law_unenrolling_keeps_the_rest(rules: Seq<IdentityView>, p: IdentityView, i: int)
    requires
        0 <= i < rules.len(),
        !paths::same_identity(rules[i], p),
    ensures
        policy::unenrolled(rules, p).contains(rules[i]),
    decreases rules.len(),
{
    let d = rules.drop_last();
    let u = policy::unenrolled(rules, p);
    if i == rules.len() - 1 {
        assert(u.last() == rules[i]);
        assert(u[u.len() - 1] == rules[i]);
    } else {
        law_unenrolling_keeps_the_rest(d, p, i);
        let v = policy::unenrolled(d, p);
        let k = choose|k: int| 0 <= k < v.len() && v[k] == d[i];
        assert(u[k] == rules[i]);
    }
}

/// An effect that touches no network is matched as the path it names, and
/// nothing else about the spelling counts. With no rule at all such a path is
/// free as soon as it has an identity.
pub proof fn law_paths_are_matched_by_identity(
    denies: Seq<IdentityView>,
    raw_denies: Seq<Seq<char>>,
    other_denies: Seq<Seq<char>>,
    target: Seq<char>,
    other: Seq<char>,
    class: EffectClass,
    resolved: Result<IdentityView, PolicyError<Seq<char>>>,
)
    requires
        class != EffectClass::Egress,
    ensures
        policy::consult_of(raw_denies, target, class) == DenyConsult::Resolve(target),
        policy::denied_target(denies, raw_denies, target, class, resolved)
            == policy::denied_target(denies, other_denies, other, class, resolved),
        denies.len() == 0 && resolved is Ok ==> !policy::denied_target(
            denies,
            raw_denies,
            target,
            class,
            resolved,
        ),
{
}

/// A grant admits a class exactly where it is known, in force and lists the
/// class; what it admits is the grant itself.
pub proof fn law_admission_is_exact(
    grants: Map<Seq<char>, Grant>,
    grant_id: Seq<char>,
    class: EffectClass,
)
    ensures
        policy::admission(grants, grant_id, class) is Ok <==> grants.dom().contains(grant_id)
            && !grants[grant_id]@.revoked && grants[grant_id]@.classes.contains(class),
        policy::admission(grants, grant_id, class) matches Ok(g) ==> g == grants[grant_id]@,
        policy::admission(grants, grant_id, class) is Err && grants.dom().contains(grant_id)
            && !grants[grant_id]@.revoked ==> policy::admission(grants, grant_id, class) == Err::<
            policy::GrantView,
            PolicyError<Seq<char>>,
        >(PolicyError::ClassNotAdmitted { grant_id, class }),
        !grants.dom().contains(grant_id) ==> policy::admission(grants, grant_id, class) == Err::<
            policy::GrantView,
            PolicyError<Seq<char>>,
        >(PolicyError::UnknownGrant { grant_id }),
{
}

// ----- the walk along a path -------------------------------------------------

/// A link is followed from the directory that holds it. A target that does not
/// begin at the root keeps every name walked so far; only an absolute target
/// starts over. Either way the parts of the target come next, before what was
/// still to visit, and the link counts once.
pub proof fn law_link_is_followed_from_its_directory(
    w: WalkView,
    name: Seq<char>,
    target: Seq<u8>,
)
    requires
        w.symlink_expansions < 40,
    ensures
        paths::observed(w, name, PathSight::Link(target)) matches Ok(next) && {
            &&& next.pending == paths::parts_of(target) + w.pending
            &&& next.symlink_expansions == w.symlink_expansions + 1
            &&& next.missing_depth == w.missing_depth
            &&& next.missing_tail_collapsed == w.missing_tail_collapsed
            &&& !(target.len() > 0 && target[0] == 47) ==> next.components == w.components
                && next.resolved == w.resolved
            &&& target.len() > 0 && target[0] == 47 ==> next.components.len() == 0
                && next.resolved.len() == 0
        },
{
}

/// The walk gives up on the forty-first link, whatever it points to, and on
/// anything that it cannot inspect.
pub proof fn law_walk_gives_up(w: WalkView, name: Seq<char>, target: Seq<u8>, kind: Seq<char>)
    ensures
        w.symlink_expansions >= 40 ==> paths::observed(w, name, PathSight::Link(target)) == Err::<
            WalkView,
            PolicyError<Seq<char>>,
        >(PolicyError::SymlinkLoop),
        w.symlink_expansions >= 40 ==> paths::observed(w, name, PathSight::LinkUnreadable(kind))
            == Err::<WalkView, PolicyError<Seq<char>>>(PolicyError::SymlinkLoop),
        w.symlink_expansions < 40 ==> paths::observed(w, name, PathSight::LinkUnreadable(kind))
            == Err::<WalkView, PolicyError<Seq<char>>>(PolicyError::SymlinkRead { kind }),
        paths::observed(w, name, PathSight::Unreadable(kind)) == Err::<
            WalkView,
            PolicyError<Seq<char>>,
        >(PolicyError::PathInspection { kind }),
{
}

/// What is there, and what is missing, is one name further down: as spelled
/// for the next question, normalized for the identity. From the first missing
/// name on the walk knows how many names exist.
pub proof fn law_a_seen_name_is_walked_through(w: WalkView, name: Seq<char>)
    requires
        w.components.len() <= usize::MAX,
    ensures
        paths::observed(w, name, PathSight::Present) matches Ok(next) && next.resolved
            == w.resolved.push(name) && next.components == w.components.push(paths::nfd(name))
            && next.pending == w.pending && next.symlink_expansions == w.symlink_expansions
            && next.missing_depth == w.missing_depth,
        paths::observed(w, name, PathSight::Missing) matches Ok(next) && next.resolved
            == w.resolved.push(name) && next.components == w.components.push(paths::nfd(name))
            && next.pending == w.pending && next.symlink_expansions == w.symlink_expansions
            && next.missing_depth == Some(w.components.len() as usize),
{
}

/// How a walk takes its next part. Nothing is left: the names walked through
/// are the identity. A dot changes nothing. A parent takes the last name off,
/// at the root none. A name below a missing one is walked through without a
/// question. Any other name is asked about where the walk stands.
pub proof fn law_walk_takes_one_part(w: WalkView, part: Option<Seq<char>>)
    ensures
        w.pending.len() == 0 ==> paths::settled(w) == StepView::Done(
            IdentityView {
                components: w.components,
                collapsed_missing_tail: w.missing_tail_collapsed,
            },
        ),
        ({
            let on = WalkView { pending: seq![part] + w.pending, ..w };
            &&& part is None ==> paths::settled(on) == StepView::NotText
            &&& part == Some("."@) ==> paths::settled(on) == paths::settled(w)
            &&& part == Some(".."@) && w.components.len() == 0 && w.missing_depth is None
                ==> paths::settled(on) == paths::settled(w)
            &&& part == Some(".."@) && w.components.len() > 0 && w.resolved.len() > 0
                && w.missing_depth is None ==> paths::settled(on) == paths::settled(
                WalkView {
                    components: w.components.drop_last(),
                    resolved: w.resolved.drop_last(),
                    missing_tail_collapsed: true,
                    ..w
                },
            )
            &&& part is Some && part != Some("."@) && part != Some(".."@) && w.missing_depth is Some
                ==> paths::settled(on) == paths::settled(
                WalkView {
                    components: w.components.push(paths::nfd(part->0)),
                    resolved: w.resolved.push(part->0),
                    missing_tail_collapsed: false,
                    ..w
                },
            )
            &&& part is Some && part != Some("."@) && part != Some(".."@) && w.missing_depth is None
                ==> paths::settled(on) == (StepView::Inspect {
                walk: WalkView { missing_tail_collapsed: false, ..w },
                name: part->0,
            })
        }),
{
    let on = WalkView { pending: seq![part] + w.pending, ..w };
    assert(on.pending.skip(1) =~= w.pending);
    assert(on.pending[0] == part);
    assert(WalkView { pending: on.pending.skip(1), ..on } == w);
    reveal_strlit(".");
    reveal_strlit("..");
    assert("."@.len() != ".."@.len());
}

/// Going up out of a missing part of the tree: the parents taken off bring the
/// walk back to names that exist, and from there it asks again.
pub proof fn law_parent_leaves_the_missing_tail(w: WalkView, depth: usize)
    requires
        w.missing_depth == Some(depth),
        w.components.len() > 0,
        w.resolved.len() > 0,
    ensures
        paths::settled(WalkView { pending: seq![Some(".."@)] + w.pending, ..w }) == paths::settled(
            WalkView {
                components: w.components.drop_last(),
                resolved: w.resolved.drop_last(),
                missing_tail_collapsed: true,
                missing_depth: if w.components.len() - 1 <= depth {
                    None
                } else {
                    Some(depth)
                },
                ..w
            },
        ),
{
    let on = WalkView { pending: seq![Some(".."@)] + w.pending, ..w };
    assert(on.pending.skip(1) =~= w.pending);
    assert(WalkView { pending: on.pending.skip(1), ..on } == w);
    reveal_strlit(".");
    reveal_strlit("..");
    assert("."@.len() != ".."@.len());
}

proof fn lemma_pieces_nonempty(b: Seq<u8>)
    ensures
        paths::byte_pieces(b).len() > 0,
    decreases b.len(),
{
    if b.len() > 0 {
        lemma_pieces_nonempty(b.drop_last());
    }
}

proof fn lemma_pieces_join(a: Seq<u8>, b: Seq<u8>)
    ensures
        paths::byte_pieces(a + seq![47u8] + b) == paths::byte_pieces(a) + paths::byte_pieces(b),
    decreases b.len(),
{
    let whole = a + seq![47u8] + b;
    lemma_pieces_nonempty(b);
    if b.len() == 0 {
        assert(whole.drop_last() =~= a);
        assert(paths::byte_pieces(whole) =~= paths::byte_pieces(a) + paths::byte_pieces(b));
    } else {
        let d = b.drop_last();
        lemma_pieces_join(a, d);
        lemma_pieces_nonempty(d);
        assert(whole.drop_last() =~= a + seq![47u8] + d);
        assert(whole.last() == b.last());
        assert(paths::byte_pieces(whole) =~= paths::byte_pieces(a) + paths::byte_pieces(b));
    }
}

proof fn lemma_parts_join(a: Seq<Seq<u8>>, b: Seq<Seq<u8>>)
    ensures
        paths::parts_among(a + b) == paths::parts_among(a) + paths::parts_among(b),
    decreases b.len(),
{
    if b.len() == 0 {
        assert(a + b =~= a);
        assert(paths::parts_among(a) + paths::parts_among(b) =~= paths::parts_among(a));
    } else {
        lemma_parts_join(a, b.drop_last());
        assert((a + b).drop_last() =~= a + b.drop_last());
        assert((a + b).last() == b.last());
        assert(paths::parts_among(a + b) =~= paths::parts_among(a) + paths::parts_among(b));
    }
}

/// A separator parts a path: its components are those before the separator and
/// then those after it.
pub proof fn law_separator_parts_a_path(a: Seq<u8>, b: Seq<u8>)
    ensures
        paths::parts_of(a + seq![47u8] + b) == paths::parts_of(a) + paths::parts_of(b),
{
    lemma_pieces_join(a, b);
    lemma_parts_join(paths::byte_pieces(a), paths::byte_pieces(b));
}

proof fn lemma_one_piece(b: Seq<u8>)
    requires
        !b.contains(47u8),
    ensures
        paths::byte_pieces(b) == seq![b],
    decreases b.len(),
{
    if b.len() > 0 {
        let d = b.drop_last();
        assert(!d.contains(47u8)) by {
            if d.contains(47u8) {
                let k = choose|k: int| 0 <= k < d.len() && d[k] == 47u8;
                assert(b[k] == 47u8);
            }
        }
        lemma_one_piece(d);
        assert(b[b.len() - 1] == b.last());
        assert(d.push(b.last()) =~= b);
        assert(paths::byte_pieces(b) =~= seq![b]);
    } else {
        assert(b =~= Seq::<u8>::empty());
    }
}

/// A name without a separator is one component, its text where its bytes are
/// one; the empty name and the single dot are none.
pub proof fn law_plain_name_is_one_component(b: Seq<u8>)
    requires
        !b.contains(47u8),
    ensures
        b.len() == 0 || b == seq![46u8] ==> paths::parts_of(b).len() == 0,
        b.len() > 0 && b != seq![46u8] && vstd::utf8::valid_utf8(b) ==> paths::parts_of(b) == seq![
            Some(vstd::utf8::decode_utf8(b)),
        ],
        b.len() > 0 && b != seq![46u8] && !vstd::utf8::valid_utf8(b) ==> paths::parts_of(b) == seq![
            None::<Seq<char>>,
        ],
{
    lemma_one_piece(b);
    let one = seq![b];
    assert(one.last() == b);
    assert(one.drop_last() =~= Seq::<Seq<u8>>::empty());
    assert(b.len() == 1 && b[0] == 46 ==> b =~= seq![46u8]);
    assert(paths::parts_among(one.drop_last()) =~= Seq::<Option<Seq<char>>>::empty());
    assert(paths::is_idle(b) ==> paths::parts_of(b).len() == 0);
    if !paths::is_idle(b) {
        assert(paths::parts_of(b) =~= seq![paths::part_text(b)]);
    }
}

/// The path asked about spells the names one after another, each behind a
/// separator.
pub proof fn law_asked_path_spells_the_names(a: Seq<Seq<char>>, b: Seq<Seq<char>>, name: Seq<char>)
    ensures
        paths::joined(a + b) == paths::joined(a) + paths::joined(b),
        paths::joined(seq![name]) == "/"@ + name,
    decreases b.len(),
{
    let one = seq![name];
    assert(one.drop_last() =~= Seq::<Seq<char>>::empty());
    assert(paths::joined(one.drop_last()) =~= Seq::<char>::empty());
    assert(paths::joined(one) =~= "/"@ + name);
    if b.len() == 0 {
        assert(a + b =~= a);
        assert(paths::joined(a) + paths::joined(b) =~= paths::joined(a));
    } else {
        law_asked_path_spells_the_names(a, b.drop_last(), name);
        assert((a + b).drop_last() =~= a + b.drop_last());
        assert(paths::joined(a + b) =~= paths::joined(a) + paths::joined(b));
    }
}

/// A walk begins at the root with nothing walked; a path that does not begin
/// there has no walk.
pub proof fn law_walk_begins_at_the_root(path: Seq<u8>)
    ensures
        path.len() == 0 || path[0] != 47 ==> paths::started(path) is Err,
        path.len() > 0 && path[0] == 47 ==> (paths::started(path) matches Ok(w)
            && w.components.len() == 0 && w.resolved.len() == 0 && w.symlink_expansions == 0
            && w.missing_depth is None && !w.missing_tail_collapsed && w.pending
            == paths::parts_of(path.skip(1))),
{
    if path.len() > 0 && path[0] == 47 {
        let head = Seq::<u8>::empty();
        law_separator_parts_a_path(head, path.skip(1));
        assert(head + seq![47u8] + path.skip(1) =~= path);
        law_plain_name_is_one_component(head);
        assert(paths::parts_of(head) + paths::parts_of(path.skip(1)) =~= paths::parts_of(
            path.skip(1),
        ));
    }
}

} // verus!
