//! What the keys of edits name and where their values stand.

use crate::config::edit::{self, EditTarget};
use crate::config::settings::{self, ConfigValueView};
use crate::config::ConfigIssue;
use crate::executor;
use crate::text;
use toml_edit::DocumentMut;
use vstd::prelude::*;

verus! {

/// A name that can stand between the dots of a key.
pub open spec fn key_name(s: Seq<char>) -> bool {
    s.len() > 0 && !s.contains('.')
}

/// A key of two segments.
pub open spec fn key2(a: Seq<char>, b: Seq<char>) -> Seq<char> {
    a + seq!['.'] + b
}

/// A key of three segments.
pub open spec fn key3(a: Seq<char>, b: Seq<char>, c: Seq<char>) -> Seq<char> {
    key2(a, b) + seq!['.'] + c
}

/// A key of four segments.
pub open spec fn key4(a: Seq<char>, b: Seq<char>, c: Seq<char>, d: Seq<char>) -> Seq<char> {
    key3(a, b, c) + seq!['.'] + d
}

proof fn lemma_segments(a: Seq<char>, b: Seq<char>, c: Seq<char>, d: Seq<char>)
    requires
        key_name(a),
        key_name(b),
        key_name(c),
        key_name(d),
    ensures
        edit::segments(key2(a, b)) == seq![a, b],
        edit::segments(key3(a, b, c)) == seq![a, b, c],
        edit::segments(key4(a, b, c, d)) == seq![a, b, c, d],
        !edit::has_empty_segment(seq![a, b]),
        !edit::has_empty_segment(seq![a, b, c]),
        !edit::has_empty_segment(seq![a, b, c, d]),
{
    executor::laws::lemma_split_one(a, '.');
    executor::laws::lemma_split_one(b, '.');
    executor::laws::lemma_split_one(c, '.');
    executor::laws::lemma_split_one(d, '.');
    executor::laws::lemma_split_join(a, '.', b);
    executor::laws::lemma_split_join(key2(a, b), '.', c);
    executor::laws::lemma_split_join(key3(a, b, c), '.', d);
    assert(seq![a] + seq![b] =~= seq![a, b]);
    assert(seq![a, b] + seq![c] =~= seq![a, b, c]);
    assert(seq![a, b, c] + seq![d] =~= seq![a, b, c, d]);
}

proof fn lemma_key_words()
    ensures
        key_name("workflow"@) && key_name("enabled"@) && key_name("models"@) && key_name(
            "defaults"@,
        ) && key_name("groups"@) && key_name("purposes"@) && key_name("model"@) && key_name(
            "effort"@,
        ) && key_name("fallback"@) && key_name("eligible"@),
        "workflow"@ != "models"@,
        "defaults"@ != "groups"@ && "defaults"@ != "purposes"@ && "groups"@ != "purposes"@,
        "model"@ != "effort"@ && "model"@ != "fallback"@ && "model"@ != "eligible"@,
        "effort"@ != "fallback"@ && "effort"@ != "eligible"@ && "fallback"@ != "eligible"@,
{
    reveal_strlit("workflow");
    reveal_strlit("enabled");
    reveal_strlit("models");
    reveal_strlit("defaults");
    reveal_strlit("groups");
    reveal_strlit("purposes");
    reveal_strlit("model");
    reveal_strlit("effort");
    reveal_strlit("fallback");
    reveal_strlit("eligible");
    assert("workflow"@.len() == 8 && "models"@.len() == 6 && "defaults"@.len() == 8
        && "groups"@.len() == 6 && "purposes"@.len() == 8);
    assert("defaults"@[0] == 'd' && "purposes"@[0] == 'p');
    assert("model"@.len() == 5 && "effort"@.len() == 6 && "fallback"@.len() == 8
        && "eligible"@.len() == 8);
    assert("fallback"@[0] == 'f' && "eligible"@[0] == 'e');
}

/// A key names the setting that it spells: the switch, a default, the model of
/// a group, or a setting of a purpose under the name it holds.
pub proof fn law_keys_name_their_targets(name: Seq<char>)
    requires
        key_name(name),
    ensures
        edit::target_reading(key2("workflow"@, "enabled"@)) matches Ok(EditTarget::WorkflowEnabled),
        edit::target_reading(key3("models"@, "defaults"@, "model"@)) matches Ok(
            EditTarget::DefaultsModel,
        ),
        edit::target_reading(key3("models"@, "defaults"@, "effort"@)) matches Ok(
            EditTarget::DefaultsEffort,
        ),
        edit::target_reading(key3("models"@, "defaults"@, "fallback"@)) matches Ok(
            EditTarget::DefaultsFallback,
        ),
        edit::target_reading(key4("models"@, "groups"@, name, "model"@)) matches Ok(
            EditTarget::GroupModel(n),
        ) && n == name,
        edit::target_reading(key4("models"@, "purposes"@, name, "model"@)) matches Ok(
            EditTarget::PurposeModel(n),
        ) && n == name,
        edit::target_reading(key4("models"@, "purposes"@, name, "effort"@)) matches Ok(
            EditTarget::PurposeEffort(n),
        ) && n == name,
        edit::target_reading(key4("models"@, "purposes"@, name, "fallback"@)) matches Ok(
            EditTarget::PurposeFallback(n),
        ) && n == name,
        edit::target_reading(key4("models"@, "purposes"@, name, "eligible"@)) matches Ok(
            EditTarget::PurposeEligible(n),
        ) && n == name,
{
    lemma_key_words();
    lemma_segments("workflow"@, "enabled"@, name, name);
    lemma_segments("models"@, "defaults"@, "model"@, name);
    lemma_segments("models"@, "defaults"@, "effort"@, name);
    lemma_segments("models"@, "defaults"@, "fallback"@, name);
    lemma_segments("models"@, "groups"@, name, "model"@);
    lemma_segments("models"@, "purposes"@, name, "model"@);
    lemma_segments("models"@, "purposes"@, name, "effort"@);
    lemma_segments("models"@, "purposes"@, name, "fallback"@);
    lemma_segments("models"@, "purposes"@, name, "eligible"@);
}

/// The value of a target stands under the path that its key spells.
pub proof fn law_target_stands_under_its_key(key: Seq<char>)
    requires
        edit::target_reading(key) is Ok,
    ensures
        ({
            let t = edit::target_reading(key)->Ok_0;
            edit::target_table(t).push(edit::target_field(t)) == text::split(key, '.')
        }),
{
    let t = edit::target_reading(key)->Ok_0;
    assert(edit::target_table(t).push(edit::target_field(t)) =~= text::split(key, '.'));
}

/// A key with an empty segment names nothing, wherever the segment stands.
pub proof fn law_empty_segment_is_refused(a: Seq<char>, b: Seq<char>)
    ensures
        edit::target_reading(a + seq!['.'] + (seq!['.'] + b)) matches Err(r) && (r.issue matches
            ConfigIssue::EmptyKeySegment { key } && key == a + seq!['.'] + (seq!['.'] + b)),
        edit::target_reading(seq!['.'] + b) matches Err(r) && r.issue is EmptyKeySegment,
        edit::target_reading(a + seq!['.']) matches Err(r) && r.issue is EmptyKeySegment,
        edit::target_reading(Seq::empty()) matches Err(r) && r.issue is EmptyKeySegment,
{
    let none = Seq::<char>::empty();
    executor::laws::lemma_split_one(none, '.');
    let tail = seq!['.'] + b;
    assert(tail =~= none + seq!['.'] + b);
    executor::laws::lemma_split_join(none, '.', b);
    let rest = text::split(tail, '.');
    assert(rest[0].len() == 0);
    executor::laws::lemma_split_join(a, '.', tail);
    let whole = text::split(a + seq!['.'] + tail, '.');
    assert(whole[text::split(a, '.').len() as int] == rest[0]);
    assert(edit::has_empty_segment(whole));
    assert(edit::has_empty_segment(rest));
    assert(a + seq!['.'] =~= a + seq!['.'] + none);
    executor::laws::lemma_split_join(a, '.', none);
    let ended = text::split(a + seq!['.'], '.');
    assert(ended[text::split(a, '.').len() as int].len() == 0);
    assert(edit::has_empty_segment(ended));
    assert(edit::segments(none)[0].len() == 0);
    assert(edit::has_empty_segment(edit::segments(none)));
}

/// The defaults and the model of a group are required: they are never reset.
/// The other settings are, as far as that goes.
pub proof fn law_required_settings_are_not_reset(
    raw: Option<DocumentMut>,
    name: Seq<char>,
    key: Seq<char>,
)
    requires
        key_name(name),
        edit::target_reading(key) is Ok,
    ensures
        settings::reset_outcome(raw, key3("models"@, "defaults"@, "model"@)) matches Err(r)
            && r.issue is RequiredNotResettable,
        settings::reset_outcome(raw, key3("models"@, "defaults"@, "effort"@)) matches Err(r)
            && r.issue is RequiredNotResettable,
        settings::reset_outcome(raw, key3("models"@, "defaults"@, "fallback"@)) matches Err(r)
            && r.issue is RequiredNotResettable,
        settings::reset_outcome(raw, key4("models"@, "groups"@, name, "model"@)) matches Err(r)
            && r.issue is RequiredNotResettable,
        ({
            let s = text::split(key, '.');
            raw is Some && !(s.len() > 1 && (s[1] == "defaults"@ || s[1] == "groups"@))
                ==> settings::reset_outcome(raw, key) is Ok
        }),
{
    law_keys_name_their_targets(name);
}

/// A switch takes a flag, a model an assignment of models, and so on: a value
/// of another sort is refused by that, before anything is looked at.
pub proof fn law_value_must_suit_its_key(
    raw: Option<DocumentMut>,
    name: Seq<char>,
    field: Seq<char>,
    v: ConfigValueView,
)
    requires
        key_name(name),
        field == "model"@ || field == "effort"@ || field == "fallback"@ || field == "eligible"@,
    ensures
        ({
            let key = key4("models"@, "purposes"@, name, field);
            let suits = match v {
                ConfigValueView::Bool(_) => false,
                ConfigValueView::Model(_) => field == "model"@,
                ConfigValueView::Effort(_) => field == "effort"@,
                ConfigValueView::Fallback(_) => field == "fallback"@,
                ConfigValueView::Names(_) => field == "eligible"@,
            };
            &&& !suits ==> (settings::set_outcome(raw, key, v) matches Err(r) && r.issue
                is ValueTypeMismatch && r.stage is Schema && r.key == Some(key))
            &&& suits && raw is None ==> (settings::set_outcome(raw, key, v) matches Err(r)
                && r.issue is NoRetainedDocument && r.key == Some(key))
        }),
        ({
            let key = key2("workflow"@, "enabled"@);
            &&& !(v is Bool) ==> (settings::set_outcome(raw, key, v) matches Err(r) && r.issue
                is ValueTypeMismatch)
            &&& v is Bool && raw is None ==> (settings::set_outcome(raw, key, v) matches Err(r)
                && r.issue is NoRetainedDocument)
        }),
{
    lemma_key_words();
    law_keys_name_their_targets(name);
}

} // verus!
