//! Values of the command surface: one JSON value mapped onto the typed slot a
//! key names, with the rejections the file surface raises.

use crate::config::document;
use crate::config::edit::{self, edit_target, type_mismatch, EditTarget, Target};
use crate::config::schema::{self, dot};
use crate::config::{
    self, ConfigError, ConfigIssue, EffortAssign, EffortLevel, FallbackAssign, FallbackView,
    FixedModel, FixedView, KeyScope, ModelAssign, ModelView, Rejection,
};
use crate::config::settings::{self, Config, ConfigEdit, ConfigValue, ConfigValueView};
use crate::json::{self, find_field, Json, JsonView};
use crate::text::{self, owned, same, text2};
use vstd::prelude::*;

verus! {

/// The fields of a JSON object.
pub type Fields = Seq<(Seq<char>, JsonView)>;

/// The text of a field.
pub open spec fn field_text(fields: Fields, key: Seq<char>) -> Option<Seq<char>> {
    json::text_spec(json::field(fields, key))
}

fn text_field(fields: &Vec<(String, Json)>, key: &str) -> (r: Option<String>)
    ensures
        text::opt_text(r) == field_text(json::object_views(fields@), key@),
{
    match find_field(fields, key) {
        Some(v) => match v.as_text() {
            Some(t) => Some(owned(t)),
            None => None,
        },
        None => None,
    }
}

/// The `mode` every assignment carries.
pub open spec fn mode_wire(fields: Fields, key: Seq<char>) -> Result<Seq<char>, Rejection> {
    match field_text(fields, "mode"@) {
        Some(mode) => Ok(mode),
        None => Err(
            schema::required(schema::dotted(key, "mode"@), "mode"@),
        ),
    }
}

/// Reads the `mode` every assignment carries.
pub fn wire_mode(fields: &Vec<(String, Json)>, key: &str) -> (r: Result<String, ConfigError>)
    ensures
        schema::outcome(r) == mode_wire(json::object_views(fields@), key@),
{
    match text_field(fields, "mode") {
        Some(mode) => Ok(mode),
        None => Err(
            ConfigError::schema(
                dot(key, "mode").as_str(),
                ConfigIssue::Required { field: owned("mode") },
            ),
        ),
    }
}

/// Every item is a string.
pub open spec fn all_text(items: Seq<JsonView>) -> bool {
    forall|i: int| 0 <= i < items.len() ==> (#[trigger] items[i]) is Text
}

/// The strings of a list of strings.
pub open spec fn texts_in(items: Seq<JsonView>) -> Seq<Seq<char>> {
    items.map_values(
        |t: JsonView|
            match t {
                JsonView::Text(s) => s,
                _ => Seq::empty(),
            },
    )
}

/// A list of names.
pub open spec fn names_wire(
    items: Seq<JsonView>,
    key: Seq<char>,
    entry_not_string: ConfigIssue<Seq<char>>,
) -> Result<Seq<Seq<char>>, Rejection> {
    if all_text(items) {
        Ok(texts_in(items))
    } else {
        Err(config::schema_rejection(key, entry_not_string))
    }
}

/// Reads a list of names.
pub fn wire_name_array(items: &Vec<Json>, key: &str, entry_not_string: ConfigIssue) -> (r: Result<
    Vec<String>,
    ConfigError,
>)
    ensures
        schema::names_outcome(r) == names_wire(
            json::array_views(items@),
            key@,
            entry_not_string@,
        ),
{
    let ghost all = json::array_views(items@);
    proof {
        json::lemma_array_views(items@);
    }
    let mut names: Vec<String> = Vec::new();
    let mut i: usize = 0;
    while i < items.len()
        invariant
            i <= items.len(),
            all == json::array_views(items@),
            all.len() == items.len(),
            forall|j: int| 0 <= j < i ==> (#[trigger] all[j]) is Text,
            text::texts(names@) == texts_in(all.take(i as int)),
        decreases items.len() - i,
    {
        proof {
            json::lemma_array_views(items@);
        }
        assert(all[i as int] == items@[i as int]@);
        match &items[i] {
            Json::Text(t) => {
                let name: String = t.clone();
                proof {
                    text::lemma_texts_push(names@, name);
                    assert(texts_in(all.take(i as int + 1)) =~= texts_in(all.take(i as int)).push(
                        t@,
                    ));
                }
                names.push(name);
            },
            _ => {
                assert(!all_text(all));
                return Err(ConfigError::schema(key, entry_not_string));
            },
        }
        i = i + 1;
    }
    assert(all.take(all.len() as int) =~= all);
    Ok(names)
}

/// A model assignment.
pub open spec fn model_wire(fields: Fields, key: Seq<char>) -> Result<ModelView, Rejection> {
    match mode_wire(fields, key) {
        Err(e) => Err(e),
        Ok(mode) => if mode == "inherit"@ {
            Ok(ModelView::Inherit)
        } else if mode == "auto"@ {
            match json::field(fields, "pool"@) {
                None => Ok(ModelView::Auto { pool: None }),
                Some(JsonView::Array(items)) => match names_wire(
                    items,
                    schema::dotted(key, "pool"@),
                    schema::pool_entry_not_string(),
                ) {
                    Ok(names) => Ok(ModelView::Auto { pool: Some(names) }),
                    Err(e) => Err(e),
                },
                Some(_) => Err(
                    config::schema_rejection(
                        schema::dotted(key, "pool"@),
                        ConfigIssue::PoolNotArray,
                    ),
                ),
            }
        } else if mode == "fixed"@ {
            match field_text(fields, "connection"@) {
                None => Err(
                    config::schema_rejection(
                        schema::dotted(key, "connection"@),
                        ConfigIssue::FixedModelMissingConnection,
                    ),
                ),
                Some(connection) => match field_text(fields, "model_id"@) {
                    None => Err(
                        config::schema_rejection(
                            schema::dotted(key, "model_id"@),
                            ConfigIssue::FixedModelMissingId,
                        ),
                    ),
                    Some(model_id) => Ok(ModelView::Fixed(FixedModel { connection, model_id })),
                },
            }
        } else {
            Err(
                config::schema_rejection(
                    schema::dotted(key, "mode"@),
                    ConfigIssue::UnsupportedModelMode { mode },
                ),
            )
        },
    }
}

/// Reads a model assignment.
pub fn wire_model(fields: &Vec<(String, Json)>, key: &str) -> (r: Result<ModelAssign, ConfigError>)
    ensures
        schema::outcome(r) == model_wire(json::object_views(fields@), key@),
{
    let mode: String = match wire_mode(fields, key) {
        Ok(mode) => mode,
        Err(e) => {
            return Err(e);
        },
    };
    if same(mode.as_str(), "inherit") {
        Ok(ModelAssign::Inherit)
    } else if same(mode.as_str(), "auto") {
        match find_field(fields, "pool") {
            None => Ok(ModelAssign::Auto { pool: None }),
            Some(v) => match v {
                Json::Array(items) => match wire_name_array(
                    items,
                    dot(key, "pool").as_str(),
                    ConfigIssue::PoolEntryNotString,
                ) {
                    Ok(names) => Ok(ModelAssign::Auto { pool: Some(names) }),
                    Err(e) => Err(e),
                },
                _ => Err(ConfigError::schema(dot(key, "pool").as_str(), ConfigIssue::PoolNotArray)),
            },
        }
    } else if same(mode.as_str(), "fixed") {
        let connection: String = match text_field(fields, "connection") {
            Some(t) => t,
            None => {
                return Err(
                    ConfigError::schema(
                        dot(key, "connection").as_str(),
                        ConfigIssue::FixedModelMissingConnection,
                    ),
                );
            },
        };
        let model_id: String = match text_field(fields, "model_id") {
            Some(t) => t,
            None => {
                return Err(
                    ConfigError::schema(
                        dot(key, "model_id").as_str(),
                        ConfigIssue::FixedModelMissingId,
                    ),
                );
            },
        };
        Ok(ModelAssign::Fixed(FixedModel { connection, model_id }))
    } else {
        Err(
            ConfigError::schema(
                dot(key, "mode").as_str(),
                ConfigIssue::UnsupportedModelMode { mode },
            ),
        )
    }
}

/// An effort assignment.
pub open spec fn effort_wire(fields: Fields, key: Seq<char>) -> Result<EffortAssign, Rejection> {
    match mode_wire(fields, key) {
        Err(e) => Err(e),
        Ok(mode) => if mode == "inherit"@ {
            Ok(EffortAssign::Inherit)
        } else if mode == "auto"@ {
            Ok(EffortAssign::Auto)
        } else if mode == "fixed"@ {
            match field_text(fields, "value"@) {
                None => Err(
                    config::schema_rejection(
                        schema::dotted(key, "value"@),
                        ConfigIssue::FixedEffortMissingValue,
                    ),
                ),
                Some(raw) => match config::level_of(raw) {
                    Some(value) => Ok(EffortAssign::Fixed { value }),
                    None => Err(
                        config::schema_rejection(
                            schema::dotted(key, "value"@),
                            ConfigIssue::UnsupportedEffortValue { value: raw },
                        ),
                    ),
                },
            }
        } else {
            Err(
                config::schema_rejection(
                    schema::dotted(key, "mode"@),
                    ConfigIssue::UnsupportedEffortMode { mode },
                ),
            )
        },
    }
}

/// Reads an effort assignment.
pub fn wire_effort(fields: &Vec<(String, Json)>, key: &str) -> (r: Result<
    EffortAssign,
    ConfigError,
>)
    ensures
        schema::effort_outcome(r) == effort_wire(
            json::object_views(fields@),
            key@,
        ),
{
    let mode: String = match wire_mode(fields, key) {
        Ok(mode) => mode,
        Err(e) => {
            return Err(e);
        },
    };
    if same(mode.as_str(), "inherit") {
        Ok(EffortAssign::Inherit)
    } else if same(mode.as_str(), "auto") {
        Ok(EffortAssign::Auto)
    } else if same(mode.as_str(), "fixed") {
        let raw: String = match text_field(fields, "value") {
            Some(t) => t,
            None => {
                return Err(
                    ConfigError::schema(
                        dot(key, "value").as_str(),
                        ConfigIssue::FixedEffortMissingValue,
                    ),
                );
            },
        };
        match EffortLevel::parse(raw.as_str()) {
            Some(value) => Ok(EffortAssign::Fixed { value }),
            None => Err(
                ConfigError::schema(
                    dot(key, "value").as_str(),
                    ConfigIssue::UnsupportedEffortValue { value: raw },
                ),
            ),
        }
    } else {
        Err(
            ConfigError::schema(
                dot(key, "mode").as_str(),
                ConfigIssue::UnsupportedEffortMode { mode },
            ),
        )
    }
}

/// Chain entries are as strict as in the file.
pub open spec fn chain_field_check(key: Seq<char>) -> spec_fn((Seq<char>, JsonView)) -> Option<
    Rejection,
> {
    |x: (Seq<char>, JsonView)|
        if schema::is_chain_key(x.0) {
            None
        } else {
            Some(
                schema::unknown_key(
                    schema::dotted(key + ".chain"@, x.0),
                    x.0,
                    KeyScope::ChainEntry,
                ),
            )
        }
}

/// One entry of a fallback chain.
pub open spec fn chain_entry_wire(item: JsonView, key: Seq<char>) -> Result<FixedView, Rejection> {
    let chain = key + ".chain"@;
    match item {
        JsonView::Object(e) => match schema::first_found(
            e,
            chain_field_check(key),
        ) {
            Some(x) => Err(x),
            None => {
                let mode = json::field(e, "mode"@);
                if mode is Some && !(mode->0 is Text) {
                    Err(
                        config::schema_rejection(
                            schema::dotted(chain, "mode"@),
                            ConfigIssue::ExpectedString { field: "mode"@ },
                        ),
                    )
                } else if mode is Some && mode->0->Text_0 != "fixed"@ {
                    Err(
                        config::schema_rejection(
                            schema::dotted(chain, "mode"@),
                            ConfigIssue::UnsupportedModelMode { mode: mode->0->Text_0 },
                        ),
                    )
                } else {
                    match field_text(e, "connection"@) {
                        None => Err(
                            config::schema_rejection(
                                schema::dotted(chain, "connection"@),
                                ConfigIssue::FixedChainEntryMissingConnection,
                            ),
                        ),
                        Some(connection) => match field_text(e, "model_id"@) {
                            None => Err(
                                config::schema_rejection(
                                    schema::dotted(chain, "model_id"@),
                                    ConfigIssue::FixedChainEntryMissingModelId,
                                ),
                            ),
                            Some(model_id) => Ok(FixedModel { connection, model_id }),
                        },
                    }
                }
            },
        },
        _ => Err(config::schema_rejection(chain, ConfigIssue::ChainEntryNotTable)),
    }
}

fn check_chain_fields(fields: &Vec<(String, Json)>, key: &str) -> (r: Result<(), ConfigError>)
    ensures
        schema::check_outcome(r) == schema::first_found(
            json::object_views(fields@),
            chain_field_check(key@),
        ),
{
    let ghost all = json::object_views(fields@);
    let ghost f = chain_field_check(key@);
    proof {
        json::lemma_object_views(fields@);
        assert(all.take(0) =~= Seq::empty());
    }
    let mut i: usize = 0;
    while i < fields.len()
        invariant
            i <= fields.len(),
            all == json::object_views(fields@),
            all.len() == fields.len(),
            f == chain_field_check(key@),
            schema::first_found(all.take(i as int), f) is None,
        decreases fields.len() - i,
    {
        proof {
            json::lemma_object_views(fields@);
            schema::lemma_found_step(all, i as int, f);
        }
        let field: &str = fields[i].0.as_str();
        if !(same(field, "mode") || same(field, "connection") || same(field, "model_id")) {
            proof {
                schema::lemma_first_found(all, i as int + 1, f);
            }
            let chain: String = text2(key, ".chain");
            return Err(
                ConfigError::schema(
                    dot(chain.as_str(), field).as_str(),
                    ConfigIssue::UnknownKey { key: owned(field), known: KeyScope::ChainEntry },
                ),
            );
        }
        i = i + 1;
    }
    assert(all.take(all.len() as int) =~= all);
    Ok(())
}

fn chain_entry(item: &Json, key: &str) -> (r: Result<FixedModel, ConfigError>)
    ensures
        schema::outcome(r) == chain_entry_wire(item@, key@),
{
    let chain: String = text2(key, ".chain");
    let fields: &Vec<(String, Json)> = match item {
        Json::Object(fields) => fields,
        _ => {
            return Err(ConfigError::schema(chain.as_str(), ConfigIssue::ChainEntryNotTable));
        },
    };
    match check_chain_fields(fields, key) {
        Ok(_) => {},
        Err(e) => {
            return Err(e);
        },
    }
    match find_field(fields, "mode") {
        None => {},
        Some(v) => match v.as_text() {
            None => {
                return Err(
                    ConfigError::schema(
                        dot(chain.as_str(), "mode").as_str(),
                        ConfigIssue::ExpectedString { field: owned("mode") },
                    ),
                );
            },
            Some(mode) => {
                if !same(mode, "fixed") {
                    return Err(
                        ConfigError::schema(
                            dot(chain.as_str(), "mode").as_str(),
                            ConfigIssue::UnsupportedModelMode { mode: owned(mode) },
                        ),
                    );
                }
            },
        },
    }
    let connection: String = match text_field(fields, "connection") {
        Some(t) => t,
        None => {
            return Err(
                ConfigError::schema(
                    dot(chain.as_str(), "connection").as_str(),
                    ConfigIssue::FixedChainEntryMissingConnection,
                ),
            );
        },
    };
    let model_id: String = match text_field(fields, "model_id") {
        Some(t) => t,
        None => {
            return Err(
                ConfigError::schema(
                    dot(chain.as_str(), "model_id").as_str(),
                    ConfigIssue::FixedChainEntryMissingModelId,
                ),
            );
        },
    };
    Ok(FixedModel { connection, model_id })
}

/// One step of the reading of a chain.
pub open spec fn chain_step(key: Seq<char>) -> spec_fn(Seq<FixedView>, JsonView) -> Result<
    Seq<FixedView>,
    Rejection,
> {
    |chain: Seq<FixedView>, item: JsonView|
        match chain_entry_wire(item, key) {
            Ok(m) => Ok(chain.push(m)),
            Err(e) => Err(e),
        }
}

/// The items of a chain: each in its place, or the first rejection.
pub open spec fn chain_wire(items: Seq<JsonView>, key: Seq<char>) -> Result<
    Seq<FixedView>,
    Rejection,
> {
    schema::walk(items, Seq::empty(), chain_step(key))
}

fn chain_of(items: &Vec<Json>, key: &str) -> (r: Result<Vec<FixedModel>, ConfigError>)
    ensures
        match r {
            Ok(c) => chain_wire(json::array_views(items@), key@) == Ok::<
                Seq<FixedView>,
                Rejection,
            >(config::fixed_views(c@)),
            Err(e) => chain_wire(json::array_views(items@), key@) == Err::<
                Seq<FixedView>,
                Rejection,
            >(e@),
        },
{
    let ghost all = json::array_views(items@);
    let ghost f = chain_step(key@);
    let ghost init: Seq<FixedView> = Seq::empty();
    let mut chain: Vec<FixedModel> = Vec::new();
    proof {
        json::lemma_array_views(items@);
        assert(all.take(0) =~= Seq::empty());
        assert(config::fixed_views(chain@) =~= init);
    }
    let mut i: usize = 0;
    while i < items.len()
        invariant
            i <= items.len(),
            all == json::array_views(items@),
            all.len() == items.len(),
            f == chain_step(key@),
            init == Seq::<FixedView>::empty(),
            schema::walk(all.take(i as int), init, f) == Ok::<
                Seq<FixedView>,
                Rejection,
            >(config::fixed_views(chain@)),
        decreases items.len() - i,
    {
        proof {
            json::lemma_array_views(items@);
            schema::lemma_walk_step(all, i as int, init, f);
        }
        assert(all[i as int] == items@[i as int]@);
        match chain_entry(&items[i], key) {
            Ok(m) => {
                let ghost before = chain@;
                chain.push(m);
                assert(config::fixed_views(chain@) =~= config::fixed_views(
                    before,
                ).push(m@));
            },
            Err(e) => {
                proof {
                    schema::lemma_walk_err(all, i as int + 1, init, f);
                }
                return Err(e);
            },
        }
        i = i + 1;
    }
    assert(all.take(all.len() as int) =~= all);
    Ok(chain)
}

/// A fallback assignment.
pub open spec fn fallback_wire(fields: Fields, key: Seq<char>) -> Result<FallbackView, Rejection> {
    match mode_wire(fields, key) {
        Err(e) => Err(e),
        Ok(mode) => if mode == "auto"@ {
            match json::field(fields, "chain"@) {
                None => Ok(FallbackView::Auto { chain: Seq::empty() }),
                Some(JsonView::Array(items)) => match chain_wire(items, key) {
                    Ok(chain) => Ok(FallbackView::Auto { chain }),
                    Err(e) => Err(e),
                },
                Some(_) => Err(
                    config::schema_rejection(
                        schema::dotted(key, "chain"@),
                        ConfigIssue::ChainNotArray,
                    ),
                ),
            }
        } else if mode == "manual"@ {
            Ok(FallbackView::Manual)
        } else if mode == "off"@ {
            Ok(FallbackView::Off)
        } else {
            Err(
                config::schema_rejection(
                    schema::dotted(key, "mode"@),
                    ConfigIssue::UnsupportedFallbackMode { mode },
                ),
            )
        },
    }
}

/// Reads a fallback assignment.
pub fn wire_fallback(fields: &Vec<(String, Json)>, key: &str) -> (r: Result<
    FallbackAssign,
    ConfigError,
>)
    ensures
        schema::outcome(r) == fallback_wire(
            json::object_views(fields@),
            key@,
        ),
{
    let mode: String = match wire_mode(fields, key) {
        Ok(mode) => mode,
        Err(e) => {
            return Err(e);
        },
    };
    if same(mode.as_str(), "auto") {
        match find_field(fields, "chain") {
            None => {
                let chain: Vec<FixedModel> = Vec::new();
                assert(config::fixed_views(chain@) =~= Seq::empty());
                Ok(FallbackAssign::Auto { chain })
            },
            Some(v) => match v {
                Json::Array(items) => match chain_of(items, key) {
                    Ok(chain) => Ok(FallbackAssign::Auto { chain }),
                    Err(e) => Err(e),
                },
                _ => Err(
                    ConfigError::schema(dot(key, "chain").as_str(), ConfigIssue::ChainNotArray),
                ),
            },
        }
    } else if same(mode.as_str(), "manual") {
        Ok(FallbackAssign::Manual)
    } else if same(mode.as_str(), "off") {
        Ok(FallbackAssign::Off)
    } else {
        Err(
            ConfigError::schema(
                dot(key, "mode").as_str(),
                ConfigIssue::UnsupportedFallbackMode { mode },
            ),
        )
    }
}

/// The typed value a JSON value is for a target.
pub open spec fn target_wire(target: Target, value: JsonView, key: Seq<char>) -> Result<
    ConfigValueView,
    Rejection,
> {
    match (target, value) {
        (EditTarget::WorkflowEnabled, JsonView::Bool(b)) => Ok(ConfigValueView::Bool(b)),
        (
            EditTarget::DefaultsModel | EditTarget::GroupModel(_) | EditTarget::PurposeModel(_),
            JsonView::Object(fields),
        ) => match model_wire(fields, key) {
            Ok(m) => Ok(ConfigValueView::Model(m)),
            Err(e) => Err(e),
        },
        (
            EditTarget::DefaultsEffort | EditTarget::PurposeEffort(_),
            JsonView::Object(fields),
        ) => match effort_wire(fields, key) {
            Ok(m) => Ok(ConfigValueView::Effort(m)),
            Err(e) => Err(e),
        },
        (
            EditTarget::DefaultsFallback | EditTarget::PurposeFallback(_),
            JsonView::Object(fields),
        ) => match fallback_wire(fields, key) {
            Ok(m) => Ok(ConfigValueView::Fallback(m)),
            Err(e) => Err(e),
        },
        (EditTarget::PurposeEligible(_), JsonView::Array(items)) => match names_wire(
            items,
            key,
            schema::eligible_entry_not_string(),
        ) {
            Ok(names) => Ok(ConfigValueView::Names(names)),
            Err(e) => Err(e),
        },
        _ => Err(config::schema_rejection(key, ConfigIssue::ValueTypeMismatch { key })),
    }
}

/// The typed value a JSON value is for the target a key names.
pub open spec fn value_wire(key: Seq<char>, value: JsonView) -> Result<ConfigValueView, Rejection> {
    match edit::target_reading(key) {
        Err(e) => Err(e),
        Ok(target) => target_wire(target, value, key),
    }
}

/// A value that the command surface reads always fits the target it was read
/// for.
pub proof fn law_wire_value_fits(key: Seq<char>, value: JsonView)
    requires
        value_wire(key, value) is Ok,
    ensures
        edit::target_reading(key) is Ok,
        settings::fits(
            edit::target_reading(key)->Ok_0,
            value_wire(key, value)->Ok_0,
        ),
{
}

/// Maps a JSON value onto the typed slot a key names.
pub fn wire_value(key: &str, value: &Json) -> (r: Result<ConfigValue, ConfigError>)
    ensures
        schema::outcome(r) == value_wire(key@, value@),
{
    let target: EditTarget = match edit_target(key) {
        Ok(t) => t,
        Err(e) => {
            return Err(e);
        },
    };
    match (&target, value) {
        (EditTarget::WorkflowEnabled, Json::Bool(b)) => Ok(ConfigValue::Bool(*b)),
        (
            EditTarget::DefaultsModel | EditTarget::GroupModel(_) | EditTarget::PurposeModel(_),
            Json::Object(fields),
        ) => match wire_model(fields, key) {
            Ok(m) => Ok(ConfigValue::Model(m)),
            Err(e) => Err(e),
        },
        (
            EditTarget::DefaultsEffort | EditTarget::PurposeEffort(_),
            Json::Object(fields),
        ) => match wire_effort(fields, key) {
            Ok(m) => Ok(ConfigValue::Effort(m)),
            Err(e) => Err(e),
        },
        (
            EditTarget::DefaultsFallback | EditTarget::PurposeFallback(_),
            Json::Object(fields),
        ) => match wire_fallback(fields, key) {
            Ok(m) => Ok(ConfigValue::Fallback(m)),
            Err(e) => Err(e),
        },
        (EditTarget::PurposeEligible(_), Json::Array(items)) => match wire_name_array(
            items,
            key,
            ConfigIssue::EligibleEntryNotString,
        ) {
            Ok(names) => Ok(ConfigValue::Names(names)),
            Err(e) => Err(e),
        },
        _ => Err(type_mismatch(key)),
    }
}

/// The document with a JSON value set at the target a key names, or why it
/// cannot be.
pub open spec fn set_wire_outcome(
    raw: Option<toml_edit::DocumentMut>,
    key: Seq<char>,
    value: JsonView,
) -> Result<document::DocState, Rejection> {
    match value_wire(key, value) {
        Err(e) => Err(e),
        Ok(v) => settings::set_outcome(raw, key, v),
    }
}

impl Config {
    /// Sets a JSON value at the target a key names; a refused edit leaves
    /// everything as it was.
    pub fn set_wire(&mut self, key: &str, value: &Json) -> (r: Result<ConfigEdit, ConfigError>)
        ensures
            match set_wire_outcome(old(self).retained(), key@, value@) {
                Err(e) => r is Err && r->Err_0@ == e && *final(self) == *old(self),
                Ok(state) => {
                    &&& r is Ok
                    &&& final(self).retained() is Some
                    &&& document::document_state(final(self).retained()->0) == state
                    &&& final(self).typed() == settings::refreshed(
                        old(self).typed(),
                        state.tree,
                    )
                    &&& settings::reports(r->Ok_0, final(self).retained()->0)
                },
            },
    {
        match wire_value(key, value) {
            Err(e) => Err(e),
            Ok(v) => self.set(key, v),
        }
    }
}

} // verus!
