//! Effect policy: scoped grants, fail-closed admission and revocation.
//! Revocation takes effect before the next dispatch, without restart.

use crate::contracts::EffectClass;
use crate::policy::paths::{covers_identity, same_components, CanonicalPath, IdentityView};
use crate::policy::url::{
    egress_filesystem_shape, has_leading_scheme, normalize_egress_url, preprocess_egress_target,
    same_decoded_identity, schemeless_deny_form, schemeless_retry, url_form_matches,
    url_key_matches, EgressFsShape, SchemeKnowledge,
};
use crate::table::Table;
use crate::text::{self, decimal_text, names_contain, owned, same, text2, text3, text5};
use vstd::prelude::*;

pub mod address;
pub mod hosts;
pub mod laws;
pub mod paths;
pub mod scan;
pub mod spelling;
pub mod url;

verus! {

/// Permission modes. A new installation starts in the manual mode.
#[derive(Debug, Clone, Copy, PartialEq, Eq, Structural)]
pub enum PermissionMode {
    Manual,
    AcceptEdits,
    ReadOnly,
    Auto,
    PreapprovedOnly,
    Yolo,
}

impl Default for PermissionMode {
    fn default() -> (r: Self)
        ensures
            r == PermissionMode::Manual,
    {
        PermissionMode::Manual
    }
}

/// The id of a permission mode.
pub open spec fn mode_id(m: PermissionMode) -> Seq<char> {
    match m {
        PermissionMode::Manual => "manual"@,
        PermissionMode::AcceptEdits => "accept-edits"@,
        PermissionMode::ReadOnly => "read-only"@,
        PermissionMode::Auto => "auto"@,
        PermissionMode::PreapprovedOnly => "preapproved-only"@,
        PermissionMode::Yolo => "yolo"@,
    }
}

/// Different modes have different ids.
pub proof fn law_mode_ids_are_distinct(a: PermissionMode, b: PermissionMode)
    requires
        mode_id(a) == mode_id(b),
    ensures
        a == b,
{
    reveal_strlit("manual");
    reveal_strlit("accept-edits");
    reveal_strlit("read-only");
    reveal_strlit("auto");
    reveal_strlit("preapproved-only");
    reveal_strlit("yolo");
    assert("manual"@.len() == 6 && "accept-edits"@.len() == 12 && "read-only"@.len() == 9
        && "auto"@.len() == 4 && "preapproved-only"@.len() == 16 && "yolo"@.len() == 4);
    assert("auto"@[0] == 'a' && "yolo"@[0] == 'y');
}

impl PermissionMode {
    /// The mode with an id.
    pub fn from_id(id: &str) -> (r: Option<Self>)
        ensures
            match r {
                Some(m) => mode_id(m) == id@,
                None => forall|m: PermissionMode| mode_id(m) != id@,
            },
    {
        if same(id, "manual") {
            Some(PermissionMode::Manual)
        } else if same(id, "accept-edits") {
            Some(PermissionMode::AcceptEdits)
        } else if same(id, "read-only") {
            Some(PermissionMode::ReadOnly)
        } else if same(id, "auto") {
            Some(PermissionMode::Auto)
        } else if same(id, "preapproved-only") {
            Some(PermissionMode::PreapprovedOnly)
        } else if same(id, "yolo") {
            Some(PermissionMode::Yolo)
        } else {
            None
        }
    }

    /// The id of this mode.
    pub fn id(&self) -> (r: &'static str)
        ensures
            r@ == mode_id(*self),
    {
        match self {
            PermissionMode::Manual => "manual",
            PermissionMode::AcceptEdits => "accept-edits",
            PermissionMode::ReadOnly => "read-only",
            PermissionMode::Auto => "auto",
            PermissionMode::PreapprovedOnly => "preapproved-only",
            PermissionMode::Yolo => "yolo",
        }
    }

    /// Every mode, the default first.
    pub fn all() -> (r: [Self; 6])
        ensures
            r@ == seq![
                PermissionMode::Manual,
                PermissionMode::AcceptEdits,
                PermissionMode::ReadOnly,
                PermissionMode::Auto,
                PermissionMode::PreapprovedOnly,
                PermissionMode::Yolo,
            ],
    {
        let r: [Self; 6] = [
            PermissionMode::Manual,
            PermissionMode::AcceptEdits,
            PermissionMode::ReadOnly,
            PermissionMode::Auto,
            PermissionMode::PreapprovedOnly,
            PermissionMode::Yolo,
        ];
        assert(r@ =~= seq![
            PermissionMode::Manual,
            PermissionMode::AcceptEdits,
            PermissionMode::ReadOnly,
            PermissionMode::Auto,
            PermissionMode::PreapprovedOnly,
            PermissionMode::Yolo,
        ]);
        r
    }
}

/// The inputs of a mode decision. `dry_run` marks a preview: it does not
/// change the verdict.
#[derive(Debug, Clone, Copy, PartialEq, Eq, Structural)]
pub struct AdmissionContext {
    pub mode: PermissionMode,
    pub in_grant_scope: bool,
    pub budget_remaining: bool,
    pub in_trusted_scope: bool,
    pub has_checkpoint: bool,
    pub previously_approved: bool,
    pub within_declared_bounds: bool,
    pub dry_run: bool,
}

/// The verdict on one request.
#[derive(Debug, Clone, Copy, PartialEq, Eq, Structural)]
pub enum ModeDecision {
    Allow,
    Ask,
    Deny,
}

pub open spec fn decision_token(d: ModeDecision) -> Seq<char> {
    match d {
        ModeDecision::Allow => "allow"@,
        ModeDecision::Ask => "ask"@,
        ModeDecision::Deny => "deny"@,
    }
}

impl ModeDecision {
    /// The token of this verdict.
    pub fn token(&self) -> (r: &'static str)
        ensures
            r@ == decision_token(*self),
    {
        match self {
            ModeDecision::Allow => "allow",
            ModeDecision::Ask => "ask",
            ModeDecision::Deny => "deny",
        }
    }
}

/// A scoped permission for some effect classes.
#[derive(Debug)]
pub struct Grant {
    pub grant_id: String,
    pub scope_root: String,
    pub classes: Vec<EffectClass>,
    pub revoked: bool,
}

/// The mathematical value of a grant.
pub struct GrantView {
    pub grant_id: Seq<char>,
    pub scope_root: Seq<char>,
    pub classes: Seq<EffectClass>,
    pub revoked: bool,
}

impl View for Grant {
    type V = GrantView;

    open spec fn view(&self) -> GrantView {
        GrantView {
            grant_id: self.grant_id@,
            scope_root: self.scope_root@,
            classes: self.classes@,
            revoked: self.revoked,
        }
    }
}

/// Why a request is not admitted.
#[derive(Debug)]
pub enum PolicyError<T = String> {
    UnknownGrant { grant_id: T },
    Revoked { grant_id: T },
    ClassNotAdmitted { grant_id: T, class: EffectClass },
    InvalidPath,
    PathInspection { kind: T },
    SymlinkRead { kind: T },
    SymlinkLoop,
}

impl View for PolicyError {
    type V = PolicyError<Seq<char>>;

    open spec fn view(&self) -> PolicyError<Seq<char>> {
        match self {
            PolicyError::UnknownGrant { grant_id } => PolicyError::UnknownGrant {
                grant_id: grant_id@,
            },
            PolicyError::Revoked { grant_id } => PolicyError::Revoked { grant_id: grant_id@ },
            PolicyError::ClassNotAdmitted { grant_id, class } => PolicyError::ClassNotAdmitted {
                grant_id: grant_id@,
                class: *class,
            },
            PolicyError::InvalidPath => PolicyError::InvalidPath,
            PolicyError::PathInspection { kind } => PolicyError::PathInspection { kind: kind@ },
            PolicyError::SymlinkRead { kind } => PolicyError::SymlinkRead { kind: kind@ },
            PolicyError::SymlinkLoop => PolicyError::SymlinkLoop,
        }
    }
}

/// The name of an effect class in diagnostics.
pub open spec fn class_label(c: EffectClass) -> Seq<char> {
    match c {
        EffectClass::Read => "Read"@,
        EffectClass::Write => "Write"@,
        EffectClass::Exec => "Exec"@,
        EffectClass::Egress => "Egress"@,
        EffectClass::Model => "Model"@,
        EffectClass::Control => "Control"@,
    }
}

fn label_of(c: EffectClass) -> (r: &'static str)
    ensures
        r@ == class_label(c),
{
    match c {
        EffectClass::Read => "Read",
        EffectClass::Write => "Write",
        EffectClass::Exec => "Exec",
        EffectClass::Egress => "Egress",
        EffectClass::Model => "Model",
        EffectClass::Control => "Control",
    }
}

/// The diagnostic line of a policy error.
pub open spec fn policy_message(e: PolicyError<Seq<char>>) -> Seq<char> {
    match e {
        PolicyError::UnknownGrant { grant_id } => "unknown grant "@ + grant_id,
        PolicyError::Revoked { grant_id } => "grant "@ + grant_id + " revoked"@,
        PolicyError::ClassNotAdmitted { grant_id, class } => "grant "@ + grant_id
            + " does not admit "@ + class_label(class) + " effects"@,
        PolicyError::InvalidPath => "path is not valid unicode"@,
        PolicyError::PathInspection { .. } => "cannot inspect path"@,
        PolicyError::SymlinkRead { .. } => "cannot read symlink"@,
        PolicyError::SymlinkLoop => "too many symlink expansions"@,
    }
}

impl PolicyError {
    /// The diagnostic line of this error.
    pub fn message(&self) -> (r: String)
        ensures
            r@ == policy_message(self@),
    {
        match self {
            PolicyError::UnknownGrant { grant_id } => text2("unknown grant ", grant_id.as_str()),
            PolicyError::Revoked { grant_id } => text3("grant ", grant_id.as_str(), " revoked"),
            PolicyError::ClassNotAdmitted { grant_id, class } => text5(
                "grant ",
                grant_id.as_str(),
                " does not admit ",
                label_of(*class),
                " effects",
            ),
            PolicyError::InvalidPath => owned("path is not valid unicode"),
            PolicyError::PathInspection { .. } => owned("cannot inspect path"),
            PolicyError::SymlinkRead { .. } => owned("cannot read symlink"),
            PolicyError::SymlinkLoop => owned("too many symlink expansions"),
        }
    }
}

/// What resolving a path gave: its identity, or why it has none.
pub type PathOutcome = Result<CanonicalPath, PolicyError>;

pub open spec fn path_outcome(o: PathOutcome) -> Result<IdentityView, PolicyError<Seq<char>>> {
    match o {
        Ok(p) => Ok(p@),
        Err(e) => Err(e@),
    }
}

/// What the deny rules need to know of a target.
#[derive(Debug)]
pub enum DenyConsult<T = String> {
    /// The target is denied as it is spelled.
    Denied,
    /// No rule can apply.
    Clear,
    /// The identity of this path decides.
    Resolve(T),
}

pub open spec fn consult_view(c: DenyConsult) -> DenyConsult<Seq<char>> {
    match c {
        DenyConsult::Denied => DenyConsult::Denied,
        DenyConsult::Clear => DenyConsult::Clear,
        DenyConsult::Resolve(p) => DenyConsult::Resolve(p@),
    }
}

/// The grants and deny rules in force.
#[derive(Debug)]
pub struct Policy {
    pub grants: Table<Grant>,
    pub denies: Vec<CanonicalPath>,
    pub raw_denies: Vec<String>,
    pub next: u64,
}

pub open spec fn identities(d: Seq<CanonicalPath>) -> Seq<IdentityView> {
    d.map_values(|p: CanonicalPath| p@)
}

/// Whether one deny entry applies to a preprocessed egress spelling.
pub open spec fn entry_denies(entry: Seq<char>, raw: Seq<char>) -> bool {
    let denied = url::preprocessed(entry);
    let request = url::normal_form(raw, SchemeKnowledge::Carried);
    let schemeless = if request is None && !url::carries_scheme(raw) {
        url::guessed_form(raw)
    } else {
        None
    };
    let folded = url::normal_form(raw, SchemeKnowledge::Guessed);
    ||| url::same_target(denied, raw)
    ||| if url::carries_scheme(denied) {
        match url::normal_form(denied, SchemeKnowledge::Carried) {
            Some(form) => url::form_match(request, schemeless, form),
            None => false,
        }
    } else {
        match url::guessed_deny_form(denied) {
            Some(form) => url::key_match(request, schemeless, folded, form),
            None => false,
        }
    }
}

/// Whether any deny entry applies to a preprocessed egress spelling.
pub open spec fn raw_denied(entries: Seq<Seq<char>>, raw: Seq<char>) -> bool {
    exists|i: int| 0 <= i < entries.len() && entry_denies(#[trigger] entries[i], raw)
}

/// Whether any deny rule covers a path; a path without identity is covered.
pub open spec fn path_denied(
    denies: Seq<IdentityView>,
    request: Result<IdentityView, PolicyError<Seq<char>>>,
) -> bool {
    match request {
        Ok(identity) => exists|i: int|
            0 <= i < denies.len() && paths::covered_by(#[trigger] denies[i], identity),
        Err(_) => true,
    }
}

/// The verdict of the mode alone.
pub open spec fn mode_verdict(class: EffectClass, ctx: AdmissionContext) -> ModeDecision {
    match ctx.mode {
        PermissionMode::Manual => if class == EffectClass::Read && ctx.in_grant_scope {
            ModeDecision::Allow
        } else {
            ModeDecision::Ask
        },
        PermissionMode::AcceptEdits => if class == EffectClass::Read || (class == EffectClass::Write
            && ctx.in_trusted_scope && ctx.has_checkpoint) {
            ModeDecision::Allow
        } else {
            ModeDecision::Ask
        },
        PermissionMode::ReadOnly => if class == EffectClass::Read {
            ModeDecision::Allow
        } else {
            ModeDecision::Deny
        },
        PermissionMode::Auto => if (class == EffectClass::Read && ctx.in_grant_scope) || (class
            == EffectClass::Write && ctx.in_grant_scope && ctx.budget_remaining) || ((class
            == EffectClass::Exec || class == EffectClass::Egress) && ctx.within_declared_bounds) {
            ModeDecision::Allow
        } else {
            ModeDecision::Ask
        },
        PermissionMode::PreapprovedOnly => if ctx.previously_approved {
            ModeDecision::Allow
        } else {
            ModeDecision::Deny
        },
        PermissionMode::Yolo => ModeDecision::Allow,
    }
}

/// The grant with an id admits a class: it is known, not revoked, and lists
/// the class.
pub open spec fn admission(
    grants: Map<Seq<char>, Grant>,
    grant_id: Seq<char>,
    class: EffectClass,
) -> Result<GrantView, PolicyError<Seq<char>>> {
    if !grants.dom().contains(grant_id) {
        Err(PolicyError::UnknownGrant { grant_id })
    } else {
        let grant = grants[grant_id]@;
        if grant.revoked {
            Err(PolicyError::Revoked { grant_id })
        } else if !grant.classes.contains(class) {
            Err(PolicyError::ClassNotAdmitted { grant_id, class })
        } else {
            Ok(grant)
        }
    }
}

pub open spec fn admission_view(r: Result<&Grant, PolicyError>) -> Result<
    GrantView,
    PolicyError<Seq<char>>,
> {
    match r {
        Ok(g) => Ok(g@),
        Err(e) => Err(e@),
    }
}

pub open spec fn grant_name(n: u64) -> Seq<char> {
    "grant-"@ + text::decimal(n as nat)
}

/// What the deny rules need to know of a target: an egress target is
/// matched as a spelling first and, where it names a path, as that path;
/// every other class is matched as a path.
pub open spec fn consult_of(
    raw_denies: Seq<Seq<char>>,
    target: Seq<char>,
    class: EffectClass,
) -> DenyConsult<Seq<char>> {
    if class == EffectClass::Egress {
        let raw = url::preprocessed(target);
        if raw_denied(raw_denies, raw) {
            DenyConsult::Denied
        } else {
            match url::fs_shape(raw) {
                EgressFsShape::Absolute(path) => DenyConsult::Resolve(path),
                EgressFsShape::Unresolvable => DenyConsult::Denied,
                EgressFsShape::NotFilesystem => DenyConsult::Clear,
            }
        }
    } else {
        DenyConsult::Resolve(target)
    }
}

/// Whether the deny rules deny a target; `resolved` is the identity of the
/// path that [`consult_of`] asks for.
pub open spec fn denied_target(
    denies: Seq<IdentityView>,
    raw_denies: Seq<Seq<char>>,
    target: Seq<char>,
    class: EffectClass,
    resolved: Result<IdentityView, PolicyError<Seq<char>>>,
) -> bool {
    match consult_of(raw_denies, target, class) {
        DenyConsult::Denied => true,
        DenyConsult::Clear => false,
        DenyConsult::Resolve(_) => path_denied(denies, resolved),
    }
}

/// The verdict on a target: a deny rule first, then the mode.
pub open spec fn verdict(
    denies: Seq<IdentityView>,
    raw_denies: Seq<Seq<char>>,
    target: Seq<char>,
    class: EffectClass,
    ctx: AdmissionContext,
    resolved: Result<IdentityView, PolicyError<Seq<char>>>,
) -> ModeDecision {
    if denied_target(denies, raw_denies, target, class, resolved) {
        ModeDecision::Deny
    } else {
        mode_verdict(class, ctx)
    }
}

fn has_class(classes: &Vec<EffectClass>, class: EffectClass) -> (r: bool)
    ensures
        r == classes@.contains(class),
{
    let mut i: usize = 0;
    while i < classes.len()
        invariant
            i <= classes.len(),
            forall|j: int| 0 <= j < i ==> classes@[j] != class,
        decreases classes.len() - i,
    {
        if classes[i] == class {
            assert(classes@[i as int] == class);
            return true;
        }
        i = i + 1;
    }
    false
}

impl Default for Policy {
    fn default() -> (r: Self)
        ensures
            r.grants@ == Map::<Seq<char>, Grant>::empty(),
            identities(r.denies@) == Seq::<IdentityView>::empty(),
            text::texts(r.raw_denies@) == Seq::<Seq<char>>::empty(),
            r.next == 0,
    {
        let r: Policy = Policy {
            grants: Table::new(),
            denies: Vec::new(),
            raw_denies: Vec::new(),
            next: 0,
        };
        assert(identities(r.denies@) =~= Seq::<IdentityView>::empty());
        assert(text::texts(r.raw_denies@) =~= Seq::<Seq<char>>::empty());
        r
    }
}

impl Policy {
    /// Grants reads below a scope root and returns the id of the grant.
    pub fn grant_read(&mut self, scope_root: String) -> (r: String)
        requires
            old(self).next < u64::MAX,
        ensures
            r@ == grant_name((old(self).next + 1) as u64),
            final(self).next == old(self).next + 1,
            final(self).denies == old(self).denies,
            final(self).raw_denies == old(self).raw_denies,
            final(self).grants@.dom() == old(self).grants@.dom().insert(r@),
            final(self).grants@[r@]@ == (GrantView {
                grant_id: r@,
                scope_root: scope_root@,
                classes: seq![EffectClass::Read],
                revoked: false,
            }),
            forall|k: Seq<char>|
                k != r@ && old(self).grants@.dom().contains(k) ==> #[trigger] final(self).grants@[k]
                    == old(self).grants@[k],
    {
        let mut classes: Vec<EffectClass> = Vec::new();
        classes.push(EffectClass::Read);
        assert(classes@ =~= seq![EffectClass::Read]);
        self.grant_classes(scope_root, classes)
    }

    /// Grants exactly the listed classes below a scope root and returns the
    /// id of the grant.
    pub fn grant_classes(&mut self, scope_root: String, classes: Vec<EffectClass>) -> (r: String)
        requires
            old(self).next < u64::MAX,
        ensures
            r@ == grant_name((old(self).next + 1) as u64),
            final(self).next == old(self).next + 1,
            final(self).denies == old(self).denies,
            final(self).raw_denies == old(self).raw_denies,
            final(self).grants@.dom() == old(self).grants@.dom().insert(r@),
            final(self).grants@[r@]@ == (GrantView {
                grant_id: r@,
                scope_root: scope_root@,
                classes: classes@,
                revoked: false,
            }),
            forall|k: Seq<char>|
                k != r@ && old(self).grants@.dom().contains(k) ==> #[trigger] final(self).grants@[k]
                    == old(self).grants@[k],
    {
        self.next = self.next + 1;
        let number: String = decimal_text(self.next);
        let grant_id: String = text2("grant-", number.as_str());
        let grant: Grant = Grant {
            grant_id: grant_id.clone(),
            scope_root,
            classes,
            revoked: false,
        };
        self.grants.insert(grant_id.clone(), grant);
        grant_id
    }

    /// Revokes a grant; an unknown id changes nothing.
    pub fn revoke(&mut self, grant_id: &str)
        ensures
            final(self).next == old(self).next,
            final(self).denies == old(self).denies,
            final(self).raw_denies == old(self).raw_denies,
            final(self).grants@.dom() == old(self).grants@.dom(),
            old(self).grants@.dom().contains(grant_id@) ==> final(self).grants@[grant_id@]@ == (
            GrantView { revoked: true, ..old(self).grants@[grant_id@]@ }),
            forall|k: Seq<char>|
                k != grant_id@ && old(self).grants@.dom().contains(k) ==> #[trigger] final(self).grants@[k] == old(self).grants@[k],
    {
        let ghost before = self.grants@;
        match self.grants.remove(grant_id) {
            Some(grant) => {
                let revoked: Grant = Grant {
                    grant_id: grant.grant_id,
                    scope_root: grant.scope_root,
                    classes: grant.classes,
                    revoked: true,
                };
                self.grants.insert(owned(grant_id), revoked);
                assert(self.grants@.dom() =~= before.dom());
            },
            None => {
                assert(self.grants@ =~= before);
            },
        }
    }

    /// The grant with an id.
    pub fn grant(&self, grant_id: &str) -> (r: Option<&Grant>)
        ensures
            match r {
                Some(g) => self.grants@.dom().contains(grant_id@) && self.grants@[grant_id@] == *g,
                None => !self.grants@.dom().contains(grant_id@),
            },
    {
        self.grants.get(grant_id)
    }

    /// Records a deny rule for a path; `identity` is what resolving the path
    /// gave. A rule with the same components is replaced by a wider one and
    /// kept against a narrower one.
    pub fn enroll_deny(&mut self, identity: PathOutcome) -> (r: Result<(), PolicyError>)
        ensures
            final(self).grants@ == old(self).grants@,
            final(self).raw_denies == old(self).raw_denies,
            final(self).next == old(self).next,
            match identity {
                Err(e) => r matches Err(x) && x@ == e@ && final(self).denies == old(self).denies,
                Ok(p) => r is Ok && identities(final(self).denies@) == enrolled(
                    identities(old(self).denies@),
                    p@,
                ),
            },
    {
        let path: CanonicalPath = match identity {
            Ok(p) => p,
            Err(e) => {
                return Err(e);
            },
        };
        let ghost rules = identities(self.denies@);
        let ghost p = path@;
        let mut i: usize = 0;
        assert(rules.skip(0) =~= rules);
        while i < self.denies.len()
            invariant
                i <= self.denies.len(),
                self.denies@ == old(self).denies@,
                rules == identities(self.denies@),
                identity matches Ok(q) && q@ == p,
                path@ == p,
                self.grants@ == old(self).grants@,
                self.raw_denies == old(self).raw_denies,
                self.next == old(self).next,
                first_same(rules, p) == i + first_same(rules.skip(i as int), p),
            decreases self.denies.len() - i,
        {
            assert(rules.skip(i as int)[0] == rules[i as int]);
            assert(rules[i as int] == self.denies@[i as int]@);
            assert(rules.skip(i as int).skip(1) =~= rules.skip(i as int + 1));
            if same_components(&self.denies[i], &path) {
                if !path.collapsed_missing_tail {
                    self.denies.set(i, path);
                    assert(identities(self.denies@) =~= rules.update(i as int, p));
                }
                return Ok(());
            }
            i = i + 1;
        }
        self.denies.push(path);
        assert(identities(self.denies@) =~= rules.push(p));
        Ok(())
    }

    /// Records a deny rule for a spelling; one that is recorded stays once.
    pub fn enroll_deny_target(&mut self, raw: &str)
        ensures
            final(self).grants@ == old(self).grants@,
            final(self).denies == old(self).denies,
            final(self).next == old(self).next,
            text::texts(final(self).raw_denies@) == (if text::texts(
                old(self).raw_denies@,
            ).contains(raw@) {
                text::texts(old(self).raw_denies@)
            } else {
                text::texts(old(self).raw_denies@).push(raw@)
            }),
    {
        if !names_contain(&self.raw_denies, raw) {
            let entry: String = owned(raw);
            proof {
                text::lemma_texts_push(self.raw_denies@, entry);
            }
            self.raw_denies.push(entry);
        }
    }

    /// Removes every deny rule with the components of a path.
    pub fn revoke_deny(&mut self, identity: PathOutcome) -> (r: Result<(), PolicyError>)
        ensures
            final(self).grants@ == old(self).grants@,
            final(self).raw_denies == old(self).raw_denies,
            final(self).next == old(self).next,
            match identity {
                Err(e) => r matches Err(x) && x@ == e@ && final(self).denies == old(self).denies,
                Ok(p) => r is Ok && identities(final(self).denies@) == unenrolled(
                    identities(old(self).denies@),
                    p@,
                ),
            },
    {
        let path: CanonicalPath = match identity {
            Ok(p) => p,
            Err(e) => {
                return Err(e);
            },
        };
        let ghost rules = identities(self.denies@);
        let mut kept: Vec<CanonicalPath> = Vec::new();
        let mut i: usize = 0;
        assert(rules.take(0) =~= Seq::empty());
        assert(identities(kept@) =~= Seq::empty());
        while i < self.denies.len()
            invariant
                i <= self.denies.len(),
                self.denies@ == old(self).denies@,
                rules == identities(self.denies@),
                self.grants@ == old(self).grants@,
                self.raw_denies == old(self).raw_denies,
                self.next == old(self).next,
                identities(kept@) == unenrolled(rules.take(i as int), path@),
            decreases self.denies.len() - i,
        {
            assert(rules.take(i as int + 1).drop_last() =~= rules.take(i as int));
            assert(rules.take(i as int + 1).last() == self.denies@[i as int]@);
            if !same_components(&self.denies[i], &path) {
                let rule: CanonicalPath = self.denies[i].clone();
                let ghost held = identities(kept@);
                let ghost added = rule@;
                kept.push(rule);
                assert(identities(kept@) =~= held.push(added));
            }
            i = i + 1;
        }
        assert(rules.take(rules.len() as int) =~= rules);
        self.denies = kept;
        Ok(())
    }

    /// Whether a request enters a denied path.
    pub fn covers_report(&self, request: PathOutcome) -> (r: Result<bool, PolicyError>)
        ensures
            match request {
                Ok(p) => r == Ok::<bool, PolicyError>(
                    path_denied(identities(self.denies@), Ok(p@)),
                ),
                Err(e) => r matches Err(x) && x@ == e@,
            },
    {
        let path: CanonicalPath = match request {
            Ok(p) => p,
            Err(e) => {
                return Err(e);
            },
        };
        let ghost rules = identities(self.denies@);
        let mut i: usize = 0;
        while i < self.denies.len()
            invariant
                i <= self.denies.len(),
                rules == identities(self.denies@),
                request matches Ok(q) && q@ == path@,
                forall|j: int| 0 <= j < i ==> !paths::covered_by(#[trigger] rules[j], path@),
            decreases self.denies.len() - i,
        {
            assert(rules[i as int] == self.denies@[i as int]@);
            if covers_identity(&self.denies[i], &path) {
                assert(paths::covered_by(rules[i as int], path@));
                return Ok(true);
            }
            i = i + 1;
        }
        Ok(false)
    }

    /// Whether a request is denied; a path that cannot be resolved is.
    pub fn covers(&self, request: PathOutcome) -> (r: bool)
        ensures
            r == path_denied(identities(self.denies@), path_outcome(request)),
    {
        match self.covers_report(request) {
            Ok(covered) => covered,
            Err(_) => true,
        }
    }

    /// The grant that admits a class, or why none does.
    pub fn admit_class(&self, grant_id: &str, class: EffectClass) -> (r: Result<&Grant, PolicyError>)
        ensures
            admission_view(r) == admission(self.grants@, grant_id@, class),
    {
        let grant: &Grant = match self.grants.get(grant_id) {
            Some(g) => g,
            None => {
                return Err(PolicyError::UnknownGrant { grant_id: owned(grant_id) });
            },
        };
        if grant.revoked {
            return Err(PolicyError::Revoked { grant_id: owned(grant_id) });
        }
        if !has_class(&grant.classes, class) {
            return Err(PolicyError::ClassNotAdmitted { grant_id: owned(grant_id), class });
        }
        Ok(grant)
    }

    /// Whether an egress spelling is denied; the spelling is preprocessed.
    pub fn egress_denied(&self, raw: &str) -> (r: bool)
        ensures
            r == raw_denied(text::texts(self.raw_denies@), raw@),
    {
        let request: Option<String> = normalize_egress_url(raw, SchemeKnowledge::Carried);
        let schemeless: Option<String> = if request.is_none() && !has_leading_scheme(raw) {
            schemeless_retry(raw)
        } else {
            None
        };
        let folded: Option<String> = normalize_egress_url(raw, SchemeKnowledge::Guessed);
        let ghost entries = text::texts(self.raw_denies@);
        let mut i: usize = 0;
        while i < self.raw_denies.len()
            invariant
                i <= self.raw_denies.len(),
                entries == text::texts(self.raw_denies@),
                text::opt_text(request) == url::normal_form(raw@, SchemeKnowledge::Carried),
                text::opt_text(schemeless) == (if text::opt_text(request) is None
                    && !url::carries_scheme(raw@) {
                    url::guessed_form(raw@)
                } else {
                    None
                }),
                text::opt_text(folded) == url::normal_form(raw@, SchemeKnowledge::Guessed),
                forall|j: int| 0 <= j < i ==> !entry_denies(#[trigger] entries[j], raw@),
            decreases self.raw_denies.len() - i,
        {
            let denied: String = preprocess_egress_target(self.raw_denies[i].as_str());
            assert(entries[i as int] == self.raw_denies@[i as int]@);
            let hit: bool = same_decoded_identity(denied.as_str(), raw) || if has_leading_scheme(
                denied.as_str(),
            ) {
                match normalize_egress_url(denied.as_str(), SchemeKnowledge::Carried) {
                    Some(form) => url_form_matches(&request, &schemeless, form.as_str()),
                    None => false,
                }
            } else {
                match schemeless_deny_form(denied.as_str()) {
                    Some(form) => url_key_matches(&request, &schemeless, &folded, form.as_str()),
                    None => false,
                }
            };
            assert(hit == entry_denies(entries[i as int], raw@));
            if hit {
                return true;
            }
            i = i + 1;
        }
        false
    }

    /// What the deny rules need to know of a target.
    pub fn deny_consult(&self, target: &str, class: EffectClass) -> (r: DenyConsult)
        ensures
            consult_view(r) == consult_of(text::texts(self.raw_denies@), target@, class),
    {
        if class == EffectClass::Egress {
            let raw: String = preprocess_egress_target(target);
            if self.egress_denied(raw.as_str()) {
                return DenyConsult::Denied;
            }
            return match egress_filesystem_shape(raw.as_str()) {
                EgressFsShape::Absolute(path) => DenyConsult::Resolve(path),
                EgressFsShape::Unresolvable => DenyConsult::Denied,
                EgressFsShape::NotFilesystem => DenyConsult::Clear,
            };
        }
        DenyConsult::Resolve(owned(target))
    }

    /// Whether the deny rules deny a target; `resolved` is the identity of
    /// the path that [`Policy::deny_consult`] asks for.
    pub fn target_denied(&self, target: &str, class: EffectClass, resolved: PathOutcome) -> (r:
        bool)
        ensures
            r == denied_target(
                identities(self.denies@),
                text::texts(self.raw_denies@),
                target@,
                class,
                path_outcome(resolved),
            ),
    {
        match self.deny_consult(target, class) {
            DenyConsult::Denied => true,
            DenyConsult::Clear => false,
            DenyConsult::Resolve(_) => self.covers(resolved),
        }
    }

    /// The verdict on one request: a deny rule outranks every mode, then the
    /// mode decides. `resolved` is the identity of the path that
    /// [`Policy::deny_consult`] asks for.
    pub fn decide(
        &self,
        target: &str,
        class: EffectClass,
        ctx: &AdmissionContext,
        resolved: PathOutcome,
    ) -> (r: ModeDecision)
        ensures
            r == verdict(
                identities(self.denies@),
                text::texts(self.raw_denies@),
                target@,
                class,
                *ctx,
                path_outcome(resolved),
            ),
    {
        if self.target_denied(target, class, resolved) {
            return ModeDecision::Deny;
        }
        match ctx.mode {
            PermissionMode::Manual => match class {
                EffectClass::Read => if ctx.in_grant_scope {
                    ModeDecision::Allow
                } else {
                    ModeDecision::Ask
                },
                _ => ModeDecision::Ask,
            },
            PermissionMode::AcceptEdits => match class {
                EffectClass::Read => ModeDecision::Allow,
                EffectClass::Write => if ctx.in_trusted_scope && ctx.has_checkpoint {
                    ModeDecision::Allow
                } else {
                    ModeDecision::Ask
                },
                _ => ModeDecision::Ask,
            },
            PermissionMode::ReadOnly => match class {
                EffectClass::Read => ModeDecision::Allow,
                _ => ModeDecision::Deny,
            },
            PermissionMode::Auto => match class {
                EffectClass::Read => if ctx.in_grant_scope {
                    ModeDecision::Allow
                } else {
                    ModeDecision::Ask
                },
                EffectClass::Write => if ctx.in_grant_scope && ctx.budget_remaining {
                    ModeDecision::Allow
                } else {
                    ModeDecision::Ask
                },
                EffectClass::Exec | EffectClass::Egress => if ctx.within_declared_bounds {
                    ModeDecision::Allow
                } else {
                    ModeDecision::Ask
                },
                _ => ModeDecision::Ask,
            },
            PermissionMode::PreapprovedOnly => if ctx.previously_approved {
                ModeDecision::Allow
            } else {
                ModeDecision::Deny
            },
            PermissionMode::Yolo => ModeDecision::Allow,
        }
    }
}

/// Position of the first rule with the same components, or the number of
/// rules.
pub open spec fn first_same(rules: Seq<IdentityView>, p: IdentityView) -> int
    decreases rules.len(),
{
    if rules.len() == 0 || paths::same_identity(rules[0], p) {
        0
    } else {
        1 + first_same(rules.skip(1), p)
    }
}

/// The rules after a path was enrolled.
pub open spec fn enrolled(rules: Seq<IdentityView>, p: IdentityView) -> Seq<IdentityView> {
    let n = first_same(rules, p);
    if n < rules.len() {
        if p.collapsed_missing_tail {
            rules
        } else {
            rules.update(n, p)
        }
    } else {
        rules.push(p)
    }
}

/// The rules after a path was taken out.
pub open spec fn unenrolled(rules: Seq<IdentityView>, p: IdentityView) -> Seq<IdentityView>
    decreases rules.len(),
{
    if rules.len() == 0 {
        Seq::empty()
    } else if paths::same_identity(rules.last(), p) {
        unenrolled(rules.drop_last(), p)
    } else {
        unenrolled(rules.drop_last(), p).push(rules.last())
    }
}

/// What canonicalizing a scope gave.
#[derive(Debug)]
pub enum CanonicalScope<T = String> {
    Path(T),
    NotUnicode,
    Unavailable,
}

pub open spec fn scope_view(s: CanonicalScope) -> CanonicalScope<Seq<char>> {
    match s {
        CanonicalScope::Path(p) => CanonicalScope::Path(p@),
        CanonicalScope::NotUnicode => CanonicalScope::NotUnicode,
        CanonicalScope::Unavailable => CanonicalScope::Unavailable,
    }
}

/// The key of an effect class in a preapproval row.
pub open spec fn class_key_of(c: EffectClass) -> Seq<char> {
    match c {
        EffectClass::Read => "read"@,
        EffectClass::Write => "write"@,
        EffectClass::Exec => "exec"@,
        EffectClass::Egress => "egress"@,
        EffectClass::Model => "model"@,
        EffectClass::Control => "control"@,
    }
}

/// Executable [`class_key_of`].
pub fn class_key(class: EffectClass) -> (r: &'static str)
    ensures
        r@ == class_key_of(class),
{
    match class {
        EffectClass::Read => "read",
        EffectClass::Write => "write",
        EffectClass::Exec => "exec",
        EffectClass::Egress => "egress",
        EffectClass::Model => "model",
        EffectClass::Control => "control",
    }
}

/// The key of a preapproval row: the class and the scope. The classes that
/// touch files use the canonical path where there is one; a canonical path
/// that is no text has no key.
pub open spec fn preapproval_key(
    class: EffectClass,
    scope: Seq<char>,
    canonical: CanonicalScope<Seq<char>>,
) -> Option<Seq<char>> {
    let files = class == EffectClass::Read || class == EffectClass::Write || class
        == EffectClass::Exec;
    match canonical {
        CanonicalScope::Path(p) if files => Some(class_key_of(class) + ":"@ + p),
        CanonicalScope::NotUnicode if files => None,
        _ => Some(class_key_of(class) + ":"@ + scope),
    }
}

/// The key of a preapproval row; `canonical` is what canonicalizing the
/// scope as a path gave.
pub fn preapproval_scope(class: EffectClass, scope: &str, canonical: CanonicalScope) -> (r: Option<
    String,
>)
    ensures
        text::opt_text(r) == preapproval_key(class, scope@, scope_view(canonical)),
{
    let key: &str = class_key(class);
    match class {
        EffectClass::Read | EffectClass::Write | EffectClass::Exec => match canonical {
            CanonicalScope::Path(p) => Some(text3(key, ":", p.as_str())),
            CanonicalScope::NotUnicode => None,
            CanonicalScope::Unavailable => Some(text3(key, ":", scope)),
        },
        EffectClass::Egress | EffectClass::Model | EffectClass::Control => Some(
            text3(key, ":", scope),
        ),
    }
}

/// A deny rule outranks every mode: whatever the context says, a target that
/// the rules deny is denied, and so is a path that cannot be resolved.
pub proof fn law_deny_outranks_every_mode(
    denies: Seq<IdentityView>,
    raw_denies: Seq<Seq<char>>,
    target: Seq<char>,
    class: EffectClass,
    ctx: AdmissionContext,
    resolved: Result<IdentityView, PolicyError<Seq<char>>>,
)
    ensures
        denied_target(denies, raw_denies, target, class, resolved) ==> verdict(
            denies,
            raw_denies,
            target,
            class,
            ctx,
            resolved,
        ) == ModeDecision::Deny,
        class != EffectClass::Egress && resolved is Err ==> verdict(
            denies,
            raw_denies,
            target,
            class,
            ctx,
            resolved,
        ) == ModeDecision::Deny,
{
}

/// An enrolled path denies itself and everything below it, unless it
/// collapsed to a parent, in which case it denies what lies below.
pub proof fn law_enrolled_path_is_denied(
    rules: Seq<IdentityView>,
    p: IdentityView,
    request: IdentityView,
)
    requires
        paths::covered_by(p, request),
    ensures
        path_denied(enrolled(rules, p), Ok(request)),
{
    lemma_first_same(rules, p);
    let n = first_same(rules, p);
    let e = enrolled(rules, p);
    if n < rules.len() {
        if p.collapsed_missing_tail {
            assert(paths::covered_by(e[n], request)) by {
                assert forall|i: int| 0 <= i < e[n].components.len() implies paths::case_folded(
                    #[trigger] e[n].components[i],
                ) == paths::case_folded(request.components[i]) by {
                    assert(paths::case_folded(p.components[i]) == paths::case_folded(
                        request.components[i],
                    ));
                }
            }
        } else {
            assert(e[n] == p);
        }
    } else {
        assert(e[rules.len() as int] == p);
    }
}

pub proof fn lemma_first_same(rules: Seq<IdentityView>, p: IdentityView)
    ensures
        0 <= first_same(rules, p) <= rules.len(),
        first_same(rules, p) < rules.len() ==> paths::same_identity(
            rules[first_same(rules, p)],
            p,
        ),
    decreases rules.len(),
{
    if rules.len() > 0 && !paths::same_identity(rules[0], p) {
        lemma_first_same(rules.skip(1), p);
    }
}

/// Taking a path out leaves no rule with its components, and every rule that
/// is left was there before.
pub proof fn law_unenrolled_path_is_gone(rules: Seq<IdentityView>, p: IdentityView)
    ensures
        forall|i: int|
            0 <= i < unenrolled(rules, p).len() ==> !paths::same_identity(
                #[trigger] unenrolled(rules, p)[i],
                p,
            ) && rules.contains(unenrolled(rules, p)[i]),
    decreases rules.len(),
{
    if rules.len() > 0 {
        let d = rules.drop_last();
        law_unenrolled_path_is_gone(d, p);
        assert forall|i: int| 0 <= i < unenrolled(rules, p).len() implies !paths::same_identity(
            #[trigger] unenrolled(rules, p)[i],
            p,
        ) && rules.contains(unenrolled(rules, p)[i]) by {
            let u = unenrolled(d, p);
            if i < u.len() {
                assert(unenrolled(rules, p)[i] == u[i]);
                let k = choose|k: int| 0 <= k < d.len() && d[k] == u[i];
                assert(rules[k] == u[i]);
            } else {
                assert(rules[rules.len() - 1] == rules.last());
            }
        }
    }
}

/// An enrolled spelling is denied whatever the mode, and so is every
/// spelling that preprocesses to the same text.
pub proof fn law_enrolled_target_is_denied(
    entries: Seq<Seq<char>>,
    raw: Seq<char>,
    target: Seq<char>,
    denies: Seq<IdentityView>,
    resolved: Result<IdentityView, PolicyError<Seq<char>>>,
)
    requires
        entries.contains(raw),
        url::preprocessed(target) == url::preprocessed(raw),
    ensures
        denied_target(denies, entries, target, EffectClass::Egress, resolved),
{
    let i = choose|i: int| 0 <= i < entries.len() && entries[i] == raw;
    assert(entry_denies(entries[i], url::preprocessed(target)));
}

/// A spelling does not split a deny: an egress is denied where its target is
/// the enrolled one once both are decoded, or where both normalize to one
/// form.
pub proof fn law_spelling_does_not_split_a_deny(
    entries: Seq<Seq<char>>,
    entry: Seq<char>,
    target: Seq<char>,
    denies: Seq<IdentityView>,
    resolved: Result<IdentityView, PolicyError<Seq<char>>>,
)
    requires
        entries.contains(entry),
        ({
            let e = url::preprocessed(entry);
            let t = url::preprocessed(target);
            let form = url::normal_form(e, SchemeKnowledge::Carried);
            url::same_target(e, t) || (url::carries_scheme(e) && form is Some && url::normal_form(
                t,
                SchemeKnowledge::Carried,
            ) == form)
        }),
    ensures
        denied_target(denies, entries, target, EffectClass::Egress, resolved),
{
    let i = choose|i: int| 0 <= i < entries.len() && entries[i] == entry;
    assert(entry_denies(entries[i], url::preprocessed(target)));
}

/// A revoked grant admits nothing.
pub proof fn law_revoked_grant_admits_nothing(
    grants: Map<Seq<char>, Grant>,
    grant_id: Seq<char>,
    class: EffectClass,
)
    requires
        grants.dom().contains(grant_id),
        grants[grant_id]@.revoked,
    ensures
        admission(grants, grant_id, class) == Err::<GrantView, PolicyError<Seq<char>>>(
            PolicyError::Revoked { grant_id },
        ),
{
}

/// A preview never changes the verdict, and the read-only mode never lets
/// anything but a read through.
pub proof fn law_mode_matrix(class: EffectClass, ctx: AdmissionContext)
    ensures
        mode_verdict(class, ctx) == mode_verdict(
            class,
            AdmissionContext { dry_run: !ctx.dry_run, ..ctx },
        ),
        ctx.mode == PermissionMode::ReadOnly && class != EffectClass::Read ==> mode_verdict(
            class,
            ctx,
        ) == ModeDecision::Deny,
        ctx.mode == PermissionMode::Manual && class != EffectClass::Read ==> mode_verdict(
            class,
            ctx,
        ) == ModeDecision::Ask,
{
}

/// A consent recorded for one class never admits another: the keys of two
/// classes differ, whatever the scopes.
pub proof fn law_preapproval_keys_are_separate(
    a: EffectClass,
    b: EffectClass,
    s: Seq<char>,
    t: Seq<char>,
    ca: CanonicalScope<Seq<char>>,
    cb: CanonicalScope<Seq<char>>,
)
    requires
        a != b,
        preapproval_key(a, s, ca) is Some,
    ensures
        preapproval_key(a, s, ca) != preapproval_key(b, t, cb),
{
    reveal_strlit("read");
    reveal_strlit("write");
    reveal_strlit("exec");
    reveal_strlit("egress");
    reveal_strlit("model");
    reveal_strlit("control");
    reveal_strlit(":");
    assert("read"@[0] == 'r' && "write"@[0] == 'w' && "exec"@[1] == 'x' && "egress"@[1] == 'g'
        && "model"@[0] == 'm' && "control"@[0] == 'c' && "exec"@[0] == 'e' && "egress"@[0] == 'e');
    let x = preapproval_key(a, s, ca)->0;
    if preapproval_key(b, t, cb) is Some {
        let y = preapproval_key(b, t, cb)->0;
        assert(x[0] == class_key_of(a)[0] && x[1] == class_key_of(a)[1]);
        assert(y[0] == class_key_of(b)[0] && y[1] == class_key_of(b)[1]);
    }
}

} // verus!
