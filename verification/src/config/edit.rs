//! Targeted edits: which keys can be edited, what an edit writes, and how it
//! lands in the document without disturbing anything else.

use crate::config::schema;
use crate::config::{self, ConfigError, ConfigIssue, KeyScope, Rejection};
use crate::text::{self, owned, same, split_text};
use vstd::prelude::*;

verus! {

/// The place of the document an edit key names.
#[derive(Debug)]
pub enum EditTarget<T = String> {
    WorkflowEnabled,
    DefaultsModel,
    DefaultsEffort,
    DefaultsFallback,
    GroupModel(T),
    PurposeModel(T),
    PurposeEffort(T),
    PurposeFallback(T),
    PurposeEligible(T),
}

/// An edit target over character sequences.
pub type Target = EditTarget<Seq<char>>;

impl View for EditTarget {
    type V = EditTarget<Seq<char>>;

    open spec fn view(&self) -> EditTarget<Seq<char>> {
        match self {
            EditTarget::WorkflowEnabled => EditTarget::WorkflowEnabled,
            EditTarget::DefaultsModel => EditTarget::DefaultsModel,
            EditTarget::DefaultsEffort => EditTarget::DefaultsEffort,
            EditTarget::DefaultsFallback => EditTarget::DefaultsFallback,
            EditTarget::GroupModel(name) => EditTarget::GroupModel(name@),
            EditTarget::PurposeModel(name) => EditTarget::PurposeModel(name@),
            EditTarget::PurposeEffort(name) => EditTarget::PurposeEffort(name@),
            EditTarget::PurposeFallback(name) => EditTarget::PurposeFallback(name@),
            EditTarget::PurposeEligible(name) => EditTarget::PurposeEligible(name@),
        }
    }
}

/// A target that only overrides something: required settings are none.
pub open spec fn overrides(t: Target) -> bool {
    !(t is DefaultsModel || t is DefaultsEffort || t is DefaultsFallback || t is GroupModel)
}

impl EditTarget {
    /// Whether resetting this target leaves a complete document.
    pub fn is_override(&self) -> (r: bool)
        ensures
            r == overrides(self@),
    {
        match self {
            EditTarget::DefaultsModel => false,
            EditTarget::DefaultsEffort => false,
            EditTarget::DefaultsFallback => false,
            EditTarget::GroupModel(_) => false,
            _ => true,
        }
    }
}

/// The segments of a dotted key.
pub open spec fn segments(key: Seq<char>) -> Seq<Seq<char>> {
    text::split(key, '.')
}

pub open spec fn has_empty_segment(s: Seq<Seq<char>>) -> bool {
    exists|i: int| 0 <= i < s.len() && (#[trigger] s[i]).len() == 0
}

/// The target that a list of segments names.
pub open spec fn target_of(s: Seq<Seq<char>>) -> Option<Target> {
    if s.len() == 2 && s[0] == "workflow"@ && s[1] == "enabled"@ {
        Some(EditTarget::WorkflowEnabled)
    } else if s.len() == 3 && s[0] == "models"@ && s[1] == "defaults"@ && s[2] == "model"@ {
        Some(EditTarget::DefaultsModel)
    } else if s.len() == 3 && s[0] == "models"@ && s[1] == "defaults"@ && s[2] == "effort"@ {
        Some(EditTarget::DefaultsEffort)
    } else if s.len() == 3 && s[0] == "models"@ && s[1] == "defaults"@ && s[2] == "fallback"@ {
        Some(EditTarget::DefaultsFallback)
    } else if s.len() == 4 && s[0] == "models"@ && s[1] == "groups"@ && s[3] == "model"@ {
        Some(EditTarget::GroupModel(s[2]))
    } else if s.len() == 4 && s[0] == "models"@ && s[1] == "purposes"@ && s[3] == "model"@ {
        Some(EditTarget::PurposeModel(s[2]))
    } else if s.len() == 4 && s[0] == "models"@ && s[1] == "purposes"@ && s[3] == "effort"@ {
        Some(EditTarget::PurposeEffort(s[2]))
    } else if s.len() == 4 && s[0] == "models"@ && s[1] == "purposes"@ && s[3] == "fallback"@ {
        Some(EditTarget::PurposeFallback(s[2]))
    } else if s.len() == 4 && s[0] == "models"@ && s[1] == "purposes"@ && s[3] == "eligible"@ {
        Some(EditTarget::PurposeEligible(s[2]))
    } else {
        None
    }
}

/// A key that spells a legal place which no edit reaches.
pub open spec fn not_editable(key: Seq<char>) -> Rejection {
    config::schema_rejection(key, ConfigIssue::KeyNotEditable { key })
}

/// A key that misses the legal keys of its scope.
pub open spec fn unknown_in(key: Seq<char>, known: KeyScope) -> Rejection {
    config::schema_rejection(key, ConfigIssue::UnknownKey { key, known })
}

/// Below a `chain` only the fields of an entry are legal, and none editable.
pub open spec fn chain_diagnosis(key: Seq<char>, tail: Seq<Seq<char>>) -> Rejection {
    if tail.len() == 0 || (tail.len() == 1 && schema::is_chain_key(tail[0])) {
        not_editable(key)
    } else {
        unknown_in(key, KeyScope::ChainEntry)
    }
}

/// What is wrong with a key under `models` that names no target.
pub open spec fn models_diagnosis(key: Seq<char>, s: Seq<Seq<char>>) -> Rejection {
    let n = s.len();
    if n == 1 {
        not_editable(key)
    } else if s[1] == "defaults"@ {
        if n == 2 {
            not_editable(key)
        } else if n >= 4 && s[2] == "fallback"@ && s[3] == "chain"@ {
            chain_diagnosis(key, s.skip(4))
        } else if schema::is_slot(s[2]) {
            not_editable(key)
        } else {
            unknown_in(key, KeyScope::ModelSlot)
        }
    } else if s[1] == "groups"@ {
        if n <= 3 || s[3] == "model"@ {
            not_editable(key)
        } else {
            unknown_in(key, KeyScope::Group)
        }
    } else if s[1] == "purposes"@ {
        if n <= 3 {
            not_editable(key)
        } else if n == 4 && (s[3] == "group"@ || s[3] == "pool"@) {
            not_editable(key)
        } else if n >= 5 && s[3] == "fallback"@ && s[4] == "chain"@ {
            chain_diagnosis(key, s.skip(5))
        } else if schema::is_slot(s[3]) || s[3] == "eligible"@ {
            not_editable(key)
        } else {
            unknown_in(key, KeyScope::Purpose)
        }
    } else {
        unknown_in(key, KeyScope::Models)
    }
}

/// The diagnosis of a key that names no target: malformed when a segment is
/// empty, unknown when a segment misses its scope, else not editable.
pub open spec fn key_diagnosis(key: Seq<char>) -> Rejection {
    let s = segments(key);
    if has_empty_segment(s) {
        config::schema_rejection(key, ConfigIssue::EmptyKeySegment { key })
    } else if s[0] == "config_version"@ {
        config::schema_rejection(key, ConfigIssue::KeyNotEditable { key: s[0] })
    } else if s[0] == "workflow"@ {
        if s.len() == 1 {
            not_editable(key)
        } else {
            unknown_in(key, KeyScope::Workflow)
        }
    } else if s[0] == "connections"@ {
        if s.len() <= 2 || (s.len() == 3 && schema::is_connection_key(s[2])) {
            not_editable(key)
        } else {
            unknown_in(key, KeyScope::Connection)
        }
    } else if s[0] == "models"@ {
        models_diagnosis(key, s)
    } else {
        config::schema_rejection(key, ConfigIssue::UnknownRootKey { key: s[0] })
    }
}

/// The target a key names, or its diagnosis.
pub open spec fn target_reading(key: Seq<char>) -> Result<Target, Rejection> {
    let s = segments(key);
    if has_empty_segment(s) || target_of(s) is None {
        Err(key_diagnosis(key))
    } else {
        Ok(target_of(s)->0)
    }
}

/// Every diagnosis is a schema rejection that names the requested key.
pub proof fn law_diagnosis_names_the_key(key: Seq<char>)
    ensures
        key_diagnosis(key).stage == config::Stage::Schema,
        key_diagnosis(key).key == Some(key),
{
}

fn some_empty(s: &Vec<String>) -> (r: bool)
    ensures
        r == has_empty_segment(text::texts(s@)),
{
    let ghost all = text::texts(s@);
    let mut i: usize = 0;
    while i < s.len()
        invariant
            i <= s.len(),
            all == text::texts(s@),
            forall|j: int| 0 <= j < i ==> (#[trigger] all[j]).len() != 0,
        decreases s.len() - i,
    {
        assert(all[i as int] == s@[i as int]@);
        if s[i].as_str().is_empty() {
            return true;
        }
        i = i + 1;
    }
    false
}

/// A key that spells a legal place which no edit reaches.
pub fn not_editable_key(key: &str) -> (r: ConfigError)
    ensures
        r@ == not_editable(key@),
{
    ConfigError::schema(key, ConfigIssue::KeyNotEditable { key: owned(key) })
}

/// A key with an empty segment.
pub fn malformed_edit_key(key: &str) -> (r: ConfigError)
    ensures
        r@ == config::schema_rejection(key@, ConfigIssue::EmptyKeySegment { key: key@ }),
{
    ConfigError::schema(key, ConfigIssue::EmptyKeySegment { key: owned(key) })
}

/// A key that misses the legal keys of its scope.
pub fn unknown_scope_key(key: &str, known: KeyScope) -> (r: ConfigError)
    ensures
        r@ == unknown_in(key@, known),
{
    ConfigError::schema(key, ConfigIssue::UnknownKey { key: owned(key), known })
}

/// A key whose root is no part of the schema.
pub fn unknown_root_key(key: &str, root: &str) -> (r: ConfigError)
    ensures
        r@ == config::schema_rejection(key@, ConfigIssue::UnknownRootKey { key: root@ }),
{
    ConfigError::schema(key, ConfigIssue::UnknownRootKey { key: owned(root) })
}

/// A value that does not fit the target its key names.
pub fn type_mismatch(key: &str) -> (r: ConfigError)
    ensures
        r@ == config::schema_rejection(key@, ConfigIssue::ValueTypeMismatch { key: key@ }),
{
    ConfigError::schema(key, ConfigIssue::ValueTypeMismatch { key: owned(key) })
}

/// Diagnoses a key below a `chain`, whose segments start at `from`.
pub fn chain_scope(key: &str, s: &Vec<String>, from: usize) -> (r: ConfigError)
    requires
        from <= s.len(),
    ensures
        r@ == chain_diagnosis(key@, text::texts(s@).skip(from as int)),
{
    if s.len() == from {
        return not_editable_key(key);
    }
    if s.len() == from + 1 && is_one_of3(s[from].as_str(), "mode", "connection", "model_id") {
        return not_editable_key(key);
    }
    unknown_scope_key(key, KeyScope::ChainEntry)
}

fn is_one_of3(s: &str, a: &str, b: &str, c: &str) -> (r: bool)
    ensures
        r == (s@ == a@ || s@ == b@ || s@ == c@),
{
    same(s, a) || same(s, b) || same(s, c)
}

fn unknown_models_key(key: &str, s: &Vec<String>) -> (r: ConfigError)
    requires
        s.len() >= 1,
    ensures
        r@ == models_diagnosis(key@, text::texts(s@)),
{
    let n: usize = s.len();
    if n == 1 {
        not_editable_key(key)
    } else if same(s[1].as_str(), "defaults") {
        if n == 2 {
            not_editable_key(key)
        } else if n >= 4 && same(s[2].as_str(), "fallback") && same(s[3].as_str(), "chain") {
            chain_scope(key, s, 4)
        } else if is_one_of3(s[2].as_str(), "model", "effort", "fallback") {
            not_editable_key(key)
        } else {
            unknown_scope_key(key, KeyScope::ModelSlot)
        }
    } else if same(s[1].as_str(), "groups") {
        if n <= 3 || same(s[3].as_str(), "model") {
            not_editable_key(key)
        } else {
            unknown_scope_key(key, KeyScope::Group)
        }
    } else if same(s[1].as_str(), "purposes") {
        if n <= 3 {
            not_editable_key(key)
        } else if n == 4 && (same(s[3].as_str(), "group") || same(s[3].as_str(), "pool")) {
            not_editable_key(key)
        } else if n >= 5 && same(s[3].as_str(), "fallback") && same(s[4].as_str(), "chain") {
            chain_scope(key, s, 5)
        } else if is_one_of3(s[3].as_str(), "model", "effort", "fallback") || same(
            s[3].as_str(),
            "eligible",
        ) {
            not_editable_key(key)
        } else {
            unknown_scope_key(key, KeyScope::Purpose)
        }
    } else {
        unknown_scope_key(key, KeyScope::Models)
    }
}

/// Diagnoses a key that names no target: the edit surface lists the legal keys
/// of the scope that the file surface lists for the same key.
pub fn unknown_edit_key(key: &str) -> (r: ConfigError)
    ensures
        r@ == key_diagnosis(key@),
{
    let s: Vec<String> = split_text(key, '.');
    if some_empty(&s) {
        return malformed_edit_key(key);
    }
    let root: &str = s[0].as_str();
    assert(root@ == text::texts(s@)[0]);
    if same(root, "config_version") {
        ConfigError::schema(key, ConfigIssue::KeyNotEditable { key: owned(root) })
    } else if same(root, "workflow") {
        if s.len() == 1 {
            not_editable_key(key)
        } else {
            unknown_scope_key(key, KeyScope::Workflow)
        }
    } else if same(root, "connections") {
        if s.len() <= 2 {
            not_editable_key(key)
        } else if s.len() == 3 && is_one_of3(s[2].as_str(), "kind", "endpoint", "credential_ref") {
            not_editable_key(key)
        } else {
            unknown_scope_key(key, KeyScope::Connection)
        }
    } else if same(root, "models") {
        unknown_models_key(key, &s)
    } else {
        unknown_root_key(key, root)
    }
}

/// The target a key names.
pub fn edit_target(key: &str) -> (r: Result<EditTarget, ConfigError>)
    ensures
        schema::outcome(r) == target_reading(key@),
{
    let s: Vec<String> = split_text(key, '.');
    if some_empty(&s) {
        return Err(unknown_edit_key(key));
    }
    let ghost all = text::texts(s@);
    if s.len() == 2 && same(s[0].as_str(), "workflow") && same(s[1].as_str(), "enabled") {
        return Ok(EditTarget::WorkflowEnabled);
    }
    if s.len() == 3 && same(s[0].as_str(), "models") && same(s[1].as_str(), "defaults") {
        if same(s[2].as_str(), "model") {
            return Ok(EditTarget::DefaultsModel);
        }
        if same(s[2].as_str(), "effort") {
            return Ok(EditTarget::DefaultsEffort);
        }
        if same(s[2].as_str(), "fallback") {
            return Ok(EditTarget::DefaultsFallback);
        }
    }
    if s.len() == 4 && same(s[0].as_str(), "models") && same(s[1].as_str(), "groups") {
        if same(s[3].as_str(), "model") {
            return Ok(EditTarget::GroupModel(s[2].clone()));
        }
    }
    if s.len() == 4 && same(s[0].as_str(), "models") && same(s[1].as_str(), "purposes") {
        if same(s[3].as_str(), "model") {
            return Ok(EditTarget::PurposeModel(s[2].clone()));
        }
        if same(s[3].as_str(), "effort") {
            return Ok(EditTarget::PurposeEffort(s[2].clone()));
        }
        if same(s[3].as_str(), "fallback") {
            return Ok(EditTarget::PurposeFallback(s[2].clone()));
        }
        if same(s[3].as_str(), "eligible") {
            return Ok(EditTarget::PurposeEligible(s[2].clone()));
        }
    }
    Err(unknown_edit_key(key))
}

/// The table a target stands in.
pub open spec fn target_table(t: Target) -> Seq<Seq<char>> {
    match t {
        EditTarget::WorkflowEnabled => seq!["workflow"@],
        EditTarget::DefaultsModel => seq!["models"@, "defaults"@],
        EditTarget::DefaultsEffort => seq!["models"@, "defaults"@],
        EditTarget::DefaultsFallback => seq!["models"@, "defaults"@],
        EditTarget::GroupModel(name) => seq!["models"@, "groups"@, name],
        EditTarget::PurposeModel(name) => seq!["models"@, "purposes"@, name],
        EditTarget::PurposeEffort(name) => seq!["models"@, "purposes"@, name],
        EditTarget::PurposeFallback(name) => seq!["models"@, "purposes"@, name],
        EditTarget::PurposeEligible(name) => seq!["models"@, "purposes"@, name],
    }
}

/// The field of its table that a target is.
pub open spec fn target_field(t: Target) -> Seq<char> {
    match t {
        EditTarget::WorkflowEnabled => "enabled"@,
        EditTarget::DefaultsModel => "model"@,
        EditTarget::DefaultsEffort => "effort"@,
        EditTarget::DefaultsFallback => "fallback"@,
        EditTarget::GroupModel(_) => "model"@,
        EditTarget::PurposeModel(_) => "model"@,
        EditTarget::PurposeEffort(_) => "effort"@,
        EditTarget::PurposeFallback(_) => "fallback"@,
        EditTarget::PurposeEligible(_) => "eligible"@,
    }
}

fn path2(a: &str, b: &str) -> (r: Vec<String>)
    ensures
        text::texts(r@) == seq![a@, b@],
{
    let r: Vec<String> = vec![owned(a), owned(b)];
    assert(text::texts(r@) =~= seq![a@, b@]);
    r
}

fn path3(a: &str, b: &str, c: &str) -> (r: Vec<String>)
    ensures
        text::texts(r@) == seq![a@, b@, c@],
{
    let r: Vec<String> = vec![owned(a), owned(b), owned(c)];
    assert(text::texts(r@) =~= seq![a@, b@, c@]);
    r
}

/// The table a target stands in, and the field of that table it is.
pub fn target_path(target: &EditTarget) -> (r: (Vec<String>, &'static str))
    ensures
        text::texts(r.0@) == target_table(target@),
        r.1@ == target_field(target@),
{
    match target {
        EditTarget::WorkflowEnabled => {
            let path: Vec<String> = vec![owned("workflow")];
            assert(text::texts(path@) =~= seq!["workflow"@]);
            (path, "enabled")
        },
        EditTarget::DefaultsModel => (path2("models", "defaults"), "model"),
        EditTarget::DefaultsEffort => (path2("models", "defaults"), "effort"),
        EditTarget::DefaultsFallback => (path2("models", "defaults"), "fallback"),
        EditTarget::GroupModel(name) => (path3("models", "groups", name.as_str()), "model"),
        EditTarget::PurposeModel(name) => (path3("models", "purposes", name.as_str()), "model"),
        EditTarget::PurposeEffort(name) => (path3("models", "purposes", name.as_str()), "effort"),
        EditTarget::PurposeFallback(name) => (
            path3("models", "purposes", name.as_str()),
            "fallback",
        ),
        EditTarget::PurposeEligible(name) => (
            path3("models", "purposes", name.as_str()),
            "eligible",
        ),
    }
}

} // verus!
