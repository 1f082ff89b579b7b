//! Which scope assigns the model, the effort and the fallback of a purpose.

use crate::config::settings::{self, ResolvedView};
use crate::config::{
    ConfigError, ConfigIssue, EffortAssign, ModelView, ModelsView, PurposeView, Rejection, Stage,
};
use crate::names;
use vstd::prelude::*;

verus! {

/// The entry that stands for a name: no later one has that name.
pub open spec fn stands_for<A>(s: Seq<(Seq<char>, A)>, i: int, name: Seq<char>) -> bool {
    0 <= i < s.len() && s[i].0 == name && forall|j: int| i < j < s.len() ==> (#[trigger] s[j]).0
        != name
}

/// No entry has a name.
pub open spec fn unnamed<A>(s: Seq<(Seq<char>, A)>, name: Seq<char>) -> bool {
    forall|j: int| 0 <= j < s.len() ==> (#[trigger] s[j]).0 != name
}

/// A lookup finds the entry that stands for the name, and nothing where no
/// entry has it.
pub proof fn law_lookup_finds_the_entry<A>(s: Seq<(Seq<char>, A)>, i: int, name: Seq<char>)
    ensures
        stands_for(s, i, name) ==> names::lookup(s, name) == Some(s[i].1),
        unnamed(s, name) ==> names::lookup(s, name) is None,
    decreases s.len(),
{
    if s.len() > 0 {
        let d = s.drop_last();
        assert(s[s.len() - 1] == s.last());
        law_lookup_finds_the_entry(d, i, name);
        if stands_for(s, i, name) && i < s.len() - 1 {
            assert forall|j: int| i < j < d.len() implies (#[trigger] d[j]).0 != name by {
                assert(s[j].0 != name);
            }
            assert(stands_for(d, i, name));
        }
        if unnamed(s, name) {
            assert forall|j: int| 0 <= j < d.len() implies (#[trigger] d[j]).0 != name by {
                assert(s[j].0 != name);
            }
        }
    }
}

/// A purpose that declares a model of its own gets that model, whatever group
/// it is bound to and whatever the defaults say; the source names the purpose.
pub proof fn law_own_model_comes_first(models: ModelsView, i: int, purpose: Seq<char>)
    requires
        models.defaults is Some,
        stands_for(models.purposes, i, purpose),
        models.purposes[i].1.model is Some,
        models.purposes[i].1.model->0 != ModelView::Inherit,
    ensures
        settings::purpose_resolution(models, purpose) matches Ok(r) && Some(r.model)
            == models.purposes[i].1.model && r.model_source == "models.purposes."@ + purpose,
{
    law_lookup_finds_the_entry(models.purposes, i, purpose);
}

/// A purpose without a model of its own, bound to a declared group, gets the
/// model of the group and not that of the defaults; the source names the
/// group.
pub proof fn law_group_comes_before_the_defaults(
    models: ModelsView,
    i: int,
    k: int,
    purpose: Seq<char>,
    group: Seq<char>,
)
    requires
        models.defaults is Some,
        stands_for(models.purposes, i, purpose),
        models.purposes[i].1.model is None || models.purposes[i].1.model == Some(
            ModelView::Inherit,
        ),
        models.purposes[i].1.group == Some(group),
        stands_for(models.groups, k, group),
    ensures
        settings::purpose_resolution(models, purpose) matches Ok(r) && r.model
            == models.groups[k].1 && r.model_source == "models.groups."@ + group,
{
    law_lookup_finds_the_entry(models.purposes, i, purpose);
    law_lookup_finds_the_entry(models.groups, k, group);
}

/// A purpose bound to a group that is not declared resolves only through a
/// model of its own; otherwise the group is named as unknown.
pub proof fn law_unknown_group_is_named(
    models: ModelsView,
    i: int,
    purpose: Seq<char>,
    group: Seq<char>,
)
    requires
        models.defaults is Some,
        stands_for(models.purposes, i, purpose),
        models.purposes[i].1.model is None || models.purposes[i].1.model == Some(
            ModelView::Inherit,
        ),
        models.purposes[i].1.group == Some(group),
        unnamed(models.groups, group),
    ensures
        settings::purpose_resolution(models, purpose) == Err::<ResolvedView, Rejection>(
            ConfigError {
                stage: Stage::Resolve,
                key: Some("models.purposes."@ + purpose + ".group"@),
                issue: ConfigIssue::UnknownGroupReference { group },
            },
        ),
{
    law_lookup_finds_the_entry(models.purposes, i, purpose);
    law_lookup_finds_the_entry(models.groups, 0, group);
}

/// A purpose that no entry declares gets everything from the defaults.
pub proof fn law_undeclared_purpose_gets_the_defaults(models: ModelsView, purpose: Seq<char>)
    requires
        models.defaults is Some,
        unnamed(models.purposes, purpose),
    ensures
        settings::purpose_resolution(models, purpose) matches Ok(r) && {
            &&& r.model == models.defaults->0.model
            &&& r.effort == models.defaults->0.effort
            &&& r.fallback == models.defaults->0.fallback
            &&& r.model_source == "models.defaults"@
            &&& r.effort_source == "models.defaults"@
            &&& r.fallback_source == "models.defaults"@
        },
{
    law_lookup_finds_the_entry(models.purposes, 0, purpose);
}

/// A purpose with neither a model nor a group gets the model of the defaults.
pub proof fn law_unbound_purpose_gets_the_default_model(
    models: ModelsView,
    i: int,
    purpose: Seq<char>,
)
    requires
        models.defaults is Some,
        stands_for(models.purposes, i, purpose),
        models.purposes[i].1.model is None || models.purposes[i].1.model == Some(
            ModelView::Inherit,
        ),
        models.purposes[i].1.group is None,
    ensures
        settings::purpose_resolution(models, purpose) matches Ok(r) && r.model
            == models.defaults->0.model && r.model_source == "models.defaults"@,
{
    law_lookup_finds_the_entry(models.purposes, i, purpose);
}

/// The effort and the fallback of a purpose are its own where it declares
/// them, and otherwise those of the defaults: a group has no say in either.
pub proof fn law_effort_and_fallback_skip_the_group(
    models: ModelsView,
    i: int,
    purpose: Seq<char>,
)
    requires
        stands_for(models.purposes, i, purpose),
        settings::purpose_resolution(models, purpose) is Ok,
    ensures
        models.defaults is Some,
        ({
            let def = models.purposes[i].1;
            let r = settings::purpose_resolution(models, purpose)->Ok_0;
            &&& def.effort is Some && def.effort->0 != EffortAssign::Inherit ==> Some(r.effort)
                == def.effort && r.effort_source == "models.purposes."@ + purpose
            &&& def.effort is None || def.effort == Some(EffortAssign::Inherit) ==> r.effort
                == models.defaults->0.effort && r.effort_source == "models.defaults"@
            &&& def.fallback is Some ==> Some(r.fallback) == def.fallback && r.fallback_source
                == "models.purposes."@ + purpose
            &&& def.fallback is None ==> r.fallback == models.defaults->0.fallback
                && r.fallback_source == "models.defaults"@
        }),
{
    law_lookup_finds_the_entry(models.purposes, i, purpose);
}

/// To inherit is to declare nothing: a purpose that inherits its model, its
/// effort or both resolves as if it left them out.
pub proof fn law_inherit_is_silence(
    models: ModelsView,
    i: int,
    purpose: Seq<char>,
    silent: PurposeView,
)
    requires
        stands_for(models.purposes, i, purpose),
        ({
            let def = models.purposes[i].1;
            &&& silent == PurposeView { model: silent.model, effort: silent.effort, ..def }
            &&& silent.model == def.model || (silent.model is None && def.model == Some(
                ModelView::Inherit,
            ))
            &&& silent.effort == def.effort || (silent.effort is None && def.effort == Some(
                EffortAssign::Inherit,
            ))
        }),
    ensures
        settings::purpose_resolution(models, purpose) == settings::purpose_resolution(
            ModelsView { purposes: models.purposes.update(i, (purpose, silent)), ..models },
            purpose,
        ),
{
    let other = models.purposes.update(i, (purpose, silent));
    assert(stands_for(other, i, purpose)) by {
        assert forall|j: int| i < j < other.len() implies (#[trigger] other[j]).0 != purpose by {
            assert(models.purposes[j].0 != purpose);
        }
    }
    law_lookup_finds_the_entry(models.purposes, i, purpose);
    law_lookup_finds_the_entry(other, i, purpose);
}

/// What another purpose declares never matters, nor what pool or list of
/// connections the purpose itself declares.
pub proof fn law_purposes_resolve_apart(
    models: ModelsView,
    i: int,
    k: int,
    purpose: Seq<char>,
    other: PurposeView,
    pool: Option<Seq<Seq<char>>>,
    eligible: Option<Seq<Seq<char>>>,
)
    requires
        stands_for(models.purposes, i, purpose),
        0 <= k < models.purposes.len(),
        models.purposes[k].0 != purpose,
    ensures
        settings::purpose_resolution(models, purpose) == settings::purpose_resolution(
            ModelsView {
                purposes: models.purposes.update(k, (models.purposes[k].0, other)),
                ..models
            },
            purpose,
        ),
        settings::purpose_resolution(models, purpose) == settings::purpose_resolution(
            ModelsView {
                purposes: models.purposes.update(
                    i,
                    (purpose, PurposeView { pool, eligible, ..models.purposes[i].1 }),
                ),
                ..models
            },
            purpose,
        ),
{
    let a = models.purposes.update(k, (models.purposes[k].0, other));
    let b = models.purposes.update(
        i,
        (purpose, PurposeView { pool, eligible, ..models.purposes[i].1 }),
    );
    assert(stands_for(a, i, purpose)) by {
        assert forall|j: int| i < j < a.len() implies (#[trigger] a[j]).0 != purpose by {
            assert(models.purposes[j].0 != purpose);
        }
    }
    assert(stands_for(b, i, purpose)) by {
        assert forall|j: int| i < j < b.len() implies (#[trigger] b[j]).0 != purpose by {
            assert(models.purposes[j].0 != purpose);
        }
    }
    law_lookup_finds_the_entry(models.purposes, i, purpose);
    law_lookup_finds_the_entry(a, i, purpose);
    law_lookup_finds_the_entry(b, i, purpose);
}

/// Without defaults nothing resolves, and the missing section is named.
pub proof fn law_defaults_are_required(models: ModelsView, purpose: Seq<char>)
    requires
        models.defaults is None,
    ensures
        settings::purpose_resolution(models, purpose) == Err::<ResolvedView, Rejection>(
            ConfigError {
                stage: Stage::Resolve,
                key: Some("models.defaults"@),
                issue: ConfigIssue::Required { field: "models.defaults"@ },
            },
        ),
{
}

} // verus!
