//! The schema: what a TOML document must hold, and the typed reading of one
//! that does.

use crate::config::document::{self, find_entry, Entries, Toml, TomlView};
use crate::config::{
    self, ConfigError, ConfigIssue, ConnKind, Connection, Defaults, DefaultsView, EffortAssign,
    EffortLevel, FallbackAssign, FallbackView, FixedModel, FixedView, GroupDef, KeyScope,
    ModelAssign, ModelView, Models, ModelsView, PurposeDef, PurposeView, Rejection, Workflow,
};
use crate::names::{self, NameMap};
use crate::text::{self, owned, same, text2, text3};
use vstd::prelude::*;

verus! {

// ----- walking a sequence ---------------------------------------------------

/// Walks a sequence from its first element, stopping at the first rejection.
pub open spec fn walk<S, T>(
    items: Seq<T>,
    init: S,
    step: spec_fn(S, T) -> Result<S, Rejection>,
) -> Result<S, Rejection>
    decreases items.len(),
{
    if items.len() == 0 {
        Ok(init)
    } else {
        match walk(items.drop_last(), init, step) {
            Ok(s) => step(s, items.last()),
            Err(e) => Err(e),
        }
    }
}

/// A rejection inside a prefix is the rejection of the whole.
pub proof fn lemma_walk_err<S, T>(
    items: Seq<T>,
    n: int,
    init: S,
    step: spec_fn(S, T) -> Result<S, Rejection>,
)
    requires
        0 <= n <= items.len(),
        walk(items.take(n), init, step) is Err,
    ensures
        walk(items, init, step) == walk(items.take(n), init, step),
    decreases items.len(),
{
    if n == items.len() {
        assert(items.take(n) =~= items);
    } else {
        assert(items.drop_last().take(n) =~= items.take(n));
        lemma_walk_err(items.drop_last(), n, init, step);
    }
}

/// One more element of a walk.
pub proof fn lemma_walk_step<S, T>(
    items: Seq<T>,
    n: int,
    init: S,
    step: spec_fn(S, T) -> Result<S, Rejection>,
)
    requires
        0 <= n < items.len(),
    ensures
        walk(items.take(n + 1), init, step) == (match walk(items.take(n), init, step) {
            Ok(s) => step(s, items[n]),
            Err(e) => Err(e),
        }),
{
    assert(items.take(n + 1).drop_last() =~= items.take(n));
    assert(items.take(n + 1).last() == items[n]);
}

/// The first rejection a predicate finds in a sequence.
pub open spec fn first_found<T>(items: Seq<T>, f: spec_fn(T) -> Option<Rejection>) -> Option<
    Rejection,
>
    decreases items.len(),
{
    if items.len() == 0 {
        None
    } else {
        match first_found(items.drop_last(), f) {
            Some(e) => Some(e),
            None => f(items.last()),
        }
    }
}

/// A rejection found in a prefix is the first of the whole.
pub proof fn lemma_first_found<T>(items: Seq<T>, n: int, f: spec_fn(T) -> Option<Rejection>)
    requires
        0 <= n <= items.len(),
        first_found(items.take(n), f) is Some,
    ensures
        first_found(items, f) == first_found(items.take(n), f),
    decreases items.len(),
{
    if n == items.len() {
        assert(items.take(n) =~= items);
    } else {
        assert(items.drop_last().take(n) =~= items.take(n));
        lemma_first_found(items.drop_last(), n, f);
    }
}

pub proof fn lemma_found_step<T>(items: Seq<T>, n: int, f: spec_fn(T) -> Option<Rejection>)
    requires
        0 <= n < items.len(),
    ensures
        first_found(items.take(n + 1), f) == (match first_found(items.take(n), f) {
            Some(e) => Some(e),
            None => f(items[n]),
        }),
{
    assert(items.take(n + 1).drop_last() =~= items.take(n));
    assert(items.take(n + 1).last() == items[n]);
}

/// Nothing is found exactly when the predicate clears every element.
pub proof fn lemma_nothing_found<T>(items: Seq<T>, f: spec_fn(T) -> Option<Rejection>)
    ensures
        first_found(items, f) is None <==> forall|i: int|
            0 <= i < items.len() ==> f(#[trigger] items[i]) is None,
    decreases items.len(),
{
    if items.len() > 0 {
        let d = items.drop_last();
        lemma_nothing_found(d, f);
        if first_found(items, f) is None {
            assert forall|i: int| 0 <= i < items.len() implies f(#[trigger] items[i]) is None by {
                if i < d.len() {
                    assert(f(d[i]) is None);
                }
            }
        } else if forall|i: int| 0 <= i < items.len() ==> f(#[trigger] items[i]) is None {
            assert forall|i: int| 0 <= i < d.len() implies f(#[trigger] d[i]) is None by {
                assert(f(items[i]) is None);
            }
            assert(f(items[items.len() - 1]) is None);
        }
    }
}

/// What a reading returned, over character sequences.
pub open spec fn outcome<T: View>(r: Result<T, ConfigError>) -> Result<T::V, Rejection> {
    match r {
        Ok(t) => Ok(t@),
        Err(e) => Err(e@),
    }
}

/// The outcome of a reading of names.
pub open spec fn names_outcome(r: Result<Vec<String>, ConfigError>) -> Result<
    Seq<Seq<char>>,
    Rejection,
> {
    match r {
        Ok(v) => Ok(text::texts(v@)),
        Err(e) => Err(e@),
    }
}

// ----- keys -----------------------------------------------------------------

/// `a.b`.
pub open spec fn dotted(a: Seq<char>, b: Seq<char>) -> Seq<char> {
    a + "."@ + b
}

/// `a.b`.
pub fn dot(a: &str, b: &str) -> (r: String)
    ensures
        r@ == dotted(a@, b@),
{
    text3(a, ".", b)
}

// ----- single fields --------------------------------------------------------

pub open spec fn expected_table(key: Seq<char>) -> Rejection {
    config::schema_rejection(key, ConfigIssue::ExpectedTable { key })
}

pub open spec fn required(key: Seq<char>, field: Seq<char>) -> Rejection {
    config::schema_rejection(key, ConfigIssue::Required { field })
}

pub open spec fn unknown_key(key: Seq<char>, field: Seq<char>, known: KeyScope) -> Rejection {
    config::schema_rejection(key, ConfigIssue::UnknownKey { key: field, known })
}

fn reject_table(key: &str) -> (r: ConfigError)
    ensures
        r@ == expected_table(key@),
{
    ConfigError::schema(key, ConfigIssue::ExpectedTable { key: owned(key) })
}

fn reject_required(key: &str, field: &str) -> (r: ConfigError)
    ensures
        r@ == required(key@, field@),
{
    ConfigError::schema(key, ConfigIssue::Required { field: owned(field) })
}

fn reject_unknown(key: &str, field: &str, known: KeyScope) -> (r: ConfigError)
    ensures
        r@ == unknown_key(key@, field@, known),
{
    ConfigError::schema(key, ConfigIssue::UnknownKey { key: owned(field), known })
}

/// A field that must be a string when it is there.
pub open spec fn string_reading(e: Entries, table_key: Seq<char>, field: Seq<char>) -> Result<
    Option<Seq<char>>,
    Rejection,
> {
    match document::entry(e, field) {
        None => Ok(None),
        Some(TomlView::Text(t)) => Ok(Some(t)),
        Some(_) => Err(
            config::schema_rejection(
                dotted(table_key, field),
                ConfigIssue::ExpectedString { field },
            ),
        ),
    }
}

/// Reads a field that must be a string when it is there.
pub fn string_field(table: &Vec<(String, Toml)>, table_key: &str, field: &str) -> (r: Result<
    Option<String>,
    ConfigError,
>)
    ensures
        match r {
            Ok(t) => string_reading(
                document::entry_views(table@),
                table_key@,
                field@,
            ) == Ok::<Option<Seq<char>>, Rejection>(text::opt_text(t)),
            Err(e) => string_reading(
                document::entry_views(table@),
                table_key@,
                field@,
            ) == Err::<Option<Seq<char>>, Rejection>(e@),
        },
{
    match find_entry(table, field) {
        None => Ok(None),
        Some(item) => match item {
            Toml::Text(t) => Ok(Some(t.clone())),
            _ => Err(
                ConfigError::schema(
                    dot(table_key, field).as_str(),
                    ConfigIssue::ExpectedString { field: owned(field) },
                ),
            ),
        },
    }
}

// ----- connections ----------------------------------------------------------

/// The kind a name denotes.
pub open spec fn kind_reading(raw: Seq<char>) -> Option<ConnKind> {
    if raw == "api_key"@ {
        Some(ConnKind::ApiKey)
    } else if raw == "local"@ {
        Some(ConnKind::Local)
    } else if raw == "subscription"@ {
        Some(ConnKind::Subscription)
    } else {
        None
    }
}

pub open spec fn is_connection_key(f: Seq<char>) -> bool {
    f == "kind"@ || f == "endpoint"@ || f == "credential_ref"@
}

/// Field names under which a secret would stand in the document itself.
pub open spec fn is_inline_credential(f: Seq<char>) -> bool {
    f == "api_key"@ || f == "secret"@ || f == "token"@ || f == "password"@
}

/// What is wrong with one field name of a connection. A rejected credential is
/// named, its value never.
pub open spec fn connection_field_check(key: Seq<char>) -> spec_fn((Seq<char>, TomlView)) -> Option<
    Rejection,
> {
    |x: (Seq<char>, TomlView)|
        if is_connection_key(x.0) {
            None
        } else if is_inline_credential(x.0) {
            Some(
                config::schema_rejection(dotted(key, x.0), ConfigIssue::InlineCredential),
            )
        } else {
            Some(unknown_key(dotted(key, x.0), x.0, KeyScope::Connection))
        }
}

/// The typed reading of one connection.
pub open spec fn connection_reading(name: Seq<char>, item: TomlView) -> Result<
    Connection<Seq<char>>,
    Rejection,
> {
    let e = document::entries_of(item);
    let key = "connections."@ + name;
    if !document::table_like(item) {
        Err(expected_table(name))
    } else {
        match string_reading(e, key, "kind"@) {
            Err(x) => Err(x),
            Ok(None) => Err(required(dotted(key, "kind"@), "kind"@)),
            Ok(Some(raw)) => match kind_reading(raw) {
                None => Err(
                    config::schema_rejection(
                        dotted(key, "kind"@),
                        ConfigIssue::UnsupportedConnectionKind { kind: raw },
                    ),
                ),
                Some(kind) => match string_reading(e, key, "endpoint"@) {
                    Err(x) => Err(x),
                    Ok(None) => Err(required(dotted(key, "endpoint"@), "endpoint"@)),
                    Ok(Some(endpoint)) => match string_reading(e, key, "credential_ref"@) {
                        Err(x) => Err(x),
                        Ok(credential_ref) => match first_found(e, connection_field_check(key)) {
                            Some(x) => Err(x),
                            None => Ok(Connection { kind, endpoint, credential_ref }),
                        },
                    },
                },
            },
        }
    }
}

fn check_connection_fields(table: &Vec<(String, Toml)>, key: &str) -> (r: Result<(), ConfigError>)
    ensures
        match r {
            Ok(_) => first_found(
                document::entry_views(table@),
                connection_field_check(key@),
            ) is None,
            Err(e) => first_found(
                document::entry_views(table@),
                connection_field_check(key@),
            ) == Some(e@),
        },
{
    let ghost all = document::entry_views(table@);
    let ghost f = connection_field_check(key@);
    proof {
        document::lemma_entry_views(table@);
        assert(all.take(0) =~= Seq::empty());
    }
    let mut i: usize = 0;
    while i < table.len()
        invariant
            i <= table.len(),
            all == document::entry_views(table@),
            all.len() == table.len(),
            f == connection_field_check(key@),
            first_found(all.take(i as int), f) is None,
        decreases table.len() - i,
    {
        proof {
            document::lemma_entry_views(table@);
            lemma_found_step(all, i as int, f);
        }
        let field: &str = table[i].0.as_str();
        if same(field, "kind") || same(field, "endpoint") || same(field, "credential_ref") {
        } else if same(field, "api_key") || same(field, "secret") || same(field, "token") || same(
            field,
            "password",
        ) {
            proof {
                lemma_first_found(all, i as int + 1, f);
            }
            return Err(
                ConfigError::schema(dot(key, field).as_str(), ConfigIssue::InlineCredential),
            );
        } else {
            proof {
                lemma_first_found(all, i as int + 1, f);
            }
            return Err(reject_unknown(dot(key, field).as_str(), field, KeyScope::Connection));
        }
        i = i + 1;
    }
    assert(all.take(all.len() as int) =~= all);
    Ok(())
}

/// Reads one connection.
pub fn connection(name: &str, item: &Toml) -> (r: Result<Connection, ConfigError>)
    ensures
        outcome(r) == connection_reading(name@, item@),
{
    let table: &Vec<(String, Toml)> = match item.entries() {
        Some(t) => t,
        None => {
            return Err(reject_table(name));
        },
    };
    let key: String = text2("connections.", name);
    let raw: String = match string_field(table, key.as_str(), "kind") {
        Err(e) => {
            return Err(e);
        },
        Ok(None) => {
            return Err(reject_required(dot(key.as_str(), "kind").as_str(), "kind"));
        },
        Ok(Some(t)) => t,
    };
    let kind: ConnKind = if same(raw.as_str(), "api_key") {
        ConnKind::ApiKey
    } else if same(raw.as_str(), "local") {
        ConnKind::Local
    } else if same(raw.as_str(), "subscription") {
        ConnKind::Subscription
    } else {
        return Err(
            ConfigError::schema(
                dot(key.as_str(), "kind").as_str(),
                ConfigIssue::UnsupportedConnectionKind { kind: raw },
            ),
        );
    };
    let endpoint: String = match string_field(table, key.as_str(), "endpoint") {
        Err(e) => {
            return Err(e);
        },
        Ok(None) => {
            return Err(reject_required(dot(key.as_str(), "endpoint").as_str(), "endpoint"));
        },
        Ok(Some(t)) => t,
    };
    let credential_ref: Option<String> = match string_field(table, key.as_str(), "credential_ref") {
        Err(e) => {
            return Err(e);
        },
        Ok(t) => t,
    };
    match check_connection_fields(table, key.as_str()) {
        Err(e) => Err(e),
        Ok(_) => Ok(Connection { kind, endpoint, credential_ref }),
    }
}

// ----- assignments ----------------------------------------------------------

/// Every item is a string.
pub open spec fn all_text(items: Seq<TomlView>) -> bool {
    forall|i: int| 0 <= i < items.len() ==> (#[trigger] items[i]) is Text
}

/// The strings of a list of strings.
pub open spec fn texts_in(items: Seq<TomlView>) -> Seq<Seq<char>> {
    items.map_values(
        |t: TomlView|
            match t {
                TomlView::Text(s) => s,
                _ => Seq::empty(),
            },
    )
}

/// A list of names, with the issues a wrong shape raises.
pub open spec fn names_reading(
    item: TomlView,
    key: Seq<char>,
    not_array: ConfigIssue<Seq<char>>,
    entry_not_string: ConfigIssue<Seq<char>>,
) -> Result<Seq<Seq<char>>, Rejection> {
    match item {
        TomlView::List(items) => if all_text(items) {
            Ok(texts_in(items))
        } else {
            Err(config::schema_rejection(key, entry_not_string))
        },
        _ => Err(config::schema_rejection(key, not_array)),
    }
}

/// Reads a list of names.
pub fn name_array(
    value: &Toml,
    key: &str,
    not_array: ConfigIssue,
    entry_not_string: ConfigIssue,
) -> (r: Result<Vec<String>, ConfigError>)
    ensures
        names_outcome(r) == names_reading(value@, key@, not_array@, entry_not_string@),
{
    let items: &Vec<Toml> = match value.items() {
        Some(items) => items,
        None => {
            return Err(ConfigError::schema(key, not_array));
        },
    };
    let ghost all = document::list_views(items@);
    proof {
        document::lemma_list_views(items@);
    }
    let mut names: Vec<String> = Vec::new();
    let mut i: usize = 0;
    while i < items.len()
        invariant
            i <= items.len(),
            all == document::list_views(items@),
            all.len() == items.len(),
            value@ == TomlView::List(all),
            forall|j: int| 0 <= j < i ==> (#[trigger] all[j]) is Text,
            text::texts(names@) == texts_in(all.take(i as int)),
        decreases items.len() - i,
    {
        proof {
            document::lemma_list_views(items@);
        }
        assert(all[i as int] == items@[i as int]@);
        match &items[i] {
            Toml::Text(t) => {
                let name: String = t.clone();
                proof {
                    text::lemma_texts_push(names@, name);
                    assert(texts_in(all.take(i as int + 1)) =~= texts_in(all.take(i as int)).push(
                        t@,
                    ));
                }
                names.push(name);
            },
            _ => {
                assert(!all_text(all));
                return Err(ConfigError::schema(key, entry_not_string));
            },
        }
        i = i + 1;
    }
    assert(all.take(all.len() as int) =~= all);
    Ok(names)
}

pub open spec fn pool_not_array() -> ConfigIssue<Seq<char>> {
    ConfigIssue::PoolNotArray
}

pub open spec fn pool_entry_not_string() -> ConfigIssue<Seq<char>> {
    ConfigIssue::PoolEntryNotString
}

pub open spec fn eligible_not_array() -> ConfigIssue<Seq<char>> {
    ConfigIssue::EligibleNotArray
}

pub open spec fn eligible_entry_not_string() -> ConfigIssue<Seq<char>> {
    ConfigIssue::EligibleEntryNotString
}

/// The `mode` every assignment table carries.
pub open spec fn mode_reading(item: TomlView, key: Seq<char>) -> Result<Seq<char>, Rejection> {
    if !document::table_like(item) {
        Err(expected_table(key))
    } else {
        match document::child(item, "mode"@) {
            Some(TomlView::Text(mode)) => Ok(mode),
            _ => Err(required(dotted(key, "mode"@), "mode"@)),
        }
    }
}

fn mode_of<'a>(item: &'a Toml, key: &str) -> (r: Result<&'a str, ConfigError>)
    ensures
        match r {
            Ok(mode) => mode_reading(item@, key@) == Ok::<Seq<char>, Rejection>(mode@),
            Err(e) => mode_reading(item@, key@) == Err::<Seq<char>, Rejection>(e@),
        },
{
    if item.entries().is_none() {
        return Err(reject_table(key));
    }
    match item.get("mode") {
        Some(v) => match v.as_text() {
            Some(mode) => Ok(mode),
            None => Err(reject_required(dot(key, "mode").as_str(), "mode")),
        },
        None => Err(reject_required(dot(key, "mode").as_str(), "mode")),
    }
}

/// The typed reading of a model assignment.
pub open spec fn model_reading(item: TomlView, key: Seq<char>) -> Result<ModelView, Rejection> {
    match mode_reading(item, key) {
        Err(e) => Err(e),
        Ok(mode) => if mode == "inherit"@ {
            Ok(ModelView::Inherit)
        } else if mode == "auto"@ {
            match document::child(item, "pool"@) {
                None => Ok(ModelView::Auto { pool: None }),
                Some(v) => match names_reading(
                    v,
                    dotted(key, "pool"@),
                    pool_not_array(),
                    pool_entry_not_string(),
                ) {
                    Ok(names) => Ok(ModelView::Auto { pool: Some(names) }),
                    Err(e) => Err(e),
                },
            }
        } else if mode == "fixed"@ {
            match document::toml_text(
                document::child(item, "connection"@),
            ) {
                None => Err(
                    config::schema_rejection(
                        dotted(key, "connection"@),
                        ConfigIssue::FixedModelMissingConnection,
                    ),
                ),
                Some(connection) => match document::toml_text(
                    document::child(item, "model_id"@),
                ) {
                    None => Err(
                        config::schema_rejection(
                            dotted(key, "model_id"@),
                            ConfigIssue::FixedModelMissingId,
                        ),
                    ),
                    Some(model_id) => Ok(ModelView::Fixed(FixedModel { connection, model_id })),
                },
            }
        } else {
            Err(
                config::schema_rejection(
                    dotted(key, "mode"@),
                    ConfigIssue::UnsupportedModelMode { mode },
                ),
            )
        },
    }
}

/// The text of a key, copied.
fn child_text(item: &Toml, key: &str) -> (r: Option<String>)
    ensures
        text::opt_text(r) == document::toml_text(
            document::child(item@, key@),
        ),
{
    match item.get(key) {
        Some(v) => match v.as_text() {
            Some(t) => Some(owned(t)),
            None => None,
        },
        None => None,
    }
}

/// Reads a model assignment.
pub fn model_assign(item: &Toml, key: &str) -> (r: Result<ModelAssign, ConfigError>)
    ensures
        outcome(r) == model_reading(item@, key@),
{
    let mode: &str = match mode_of(item, key) {
        Ok(mode) => mode,
        Err(e) => {
            return Err(e);
        },
    };
    if same(mode, "inherit") {
        Ok(ModelAssign::Inherit)
    } else if same(mode, "auto") {
        match item.get("pool") {
            None => Ok(ModelAssign::Auto { pool: None }),
            Some(v) => match name_array(
                v,
                dot(key, "pool").as_str(),
                ConfigIssue::PoolNotArray,
                ConfigIssue::PoolEntryNotString,
            ) {
                Ok(names) => Ok(ModelAssign::Auto { pool: Some(names) }),
                Err(e) => Err(e),
            },
        }
    } else if same(mode, "fixed") {
        let connection: String = match child_text(item, "connection") {
            Some(t) => t,
            None => {
                return Err(
                    ConfigError::schema(
                        dot(key, "connection").as_str(),
                        ConfigIssue::FixedModelMissingConnection,
                    ),
                );
            },
        };
        let model_id: String = match child_text(item, "model_id") {
            Some(t) => t,
            None => {
                return Err(
                    ConfigError::schema(
                        dot(key, "model_id").as_str(),
                        ConfigIssue::FixedModelMissingId,
                    ),
                );
            },
        };
        Ok(ModelAssign::Fixed(FixedModel { connection, model_id }))
    } else {
        Err(
            ConfigError::schema(
                dot(key, "mode").as_str(),
                ConfigIssue::UnsupportedModelMode { mode: owned(mode) },
            ),
        )
    }
}

/// The typed reading of an effort assignment.
pub open spec fn effort_reading(item: TomlView, key: Seq<char>) -> Result<
    EffortAssign,
    Rejection,
> {
    match mode_reading(item, key) {
        Err(e) => Err(e),
        Ok(mode) => if mode == "inherit"@ {
            Ok(EffortAssign::Inherit)
        } else if mode == "auto"@ {
            Ok(EffortAssign::Auto)
        } else if mode == "fixed"@ {
            match document::toml_text(
                document::child(item, "value"@),
            ) {
                None => Err(
                    config::schema_rejection(
                        dotted(key, "value"@),
                        ConfigIssue::FixedEffortMissingValue,
                    ),
                ),
                Some(raw) => match config::level_of(raw) {
                    Some(value) => Ok(EffortAssign::Fixed { value }),
                    None => Err(
                        config::schema_rejection(
                            dotted(key, "value"@),
                            ConfigIssue::UnsupportedEffortValue { value: raw },
                        ),
                    ),
                },
            }
        } else {
            Err(
                config::schema_rejection(
                    dotted(key, "mode"@),
                    ConfigIssue::UnsupportedEffortMode { mode },
                ),
            )
        },
    }
}

/// The outcome of a reading of an effort.
pub open spec fn effort_outcome(r: Result<EffortAssign, ConfigError>) -> Result<
    EffortAssign,
    Rejection,
> {
    match r {
        Ok(v) => Ok(v),
        Err(e) => Err(e@),
    }
}

/// Reads an effort assignment.
pub fn effort_assign(item: &Toml, key: &str) -> (r: Result<EffortAssign, ConfigError>)
    ensures
        effort_outcome(r) == effort_reading(item@, key@),
{
    let mode: &str = match mode_of(item, key) {
        Ok(mode) => mode,
        Err(e) => {
            return Err(e);
        },
    };
    if same(mode, "inherit") {
        Ok(EffortAssign::Inherit)
    } else if same(mode, "auto") {
        Ok(EffortAssign::Auto)
    } else if same(mode, "fixed") {
        let raw: String = match child_text(item, "value") {
            Some(t) => t,
            None => {
                return Err(
                    ConfigError::schema(
                        dot(key, "value").as_str(),
                        ConfigIssue::FixedEffortMissingValue,
                    ),
                );
            },
        };
        match EffortLevel::parse(raw.as_str()) {
            Some(value) => Ok(EffortAssign::Fixed { value }),
            None => Err(
                ConfigError::schema(
                    dot(key, "value").as_str(),
                    ConfigIssue::UnsupportedEffortValue { value: raw },
                ),
            ),
        }
    } else {
        Err(
            ConfigError::schema(
                dot(key, "mode").as_str(),
                ConfigIssue::UnsupportedEffortMode { mode: owned(mode) },
            ),
        )
    }
}

pub open spec fn is_chain_key(f: Seq<char>) -> bool {
    f == "mode"@ || f == "connection"@ || f == "model_id"@
}

/// Chain entries are strict: an unknown field is rejected.
pub open spec fn chain_field_check(key: Seq<char>) -> spec_fn((Seq<char>, TomlView)) -> Option<
    Rejection,
> {
    |x: (Seq<char>, TomlView)|
        if is_chain_key(x.0) {
            None
        } else {
            Some(unknown_key(dotted(key + ".chain"@, x.0), x.0, KeyScope::ChainEntry))
        }
}

/// The typed reading of one entry of a fallback chain.
pub open spec fn chain_entry_reading(item: TomlView, key: Seq<char>) -> Result<
    FixedView,
    Rejection,
> {
    let chain = key + ".chain"@;
    match item {
        TomlView::Inline(e) => match first_found(e, chain_field_check(key)) {
            Some(x) => Err(x),
            None => {
                let mode = document::entry(e, "mode"@);
                if mode is Some && !(mode->0 is Text) {
                    Err(
                        config::schema_rejection(
                            dotted(chain, "mode"@),
                            ConfigIssue::ExpectedString { field: "mode"@ },
                        ),
                    )
                } else if mode is Some && mode->0->Text_0 != "fixed"@ {
                    Err(
                        config::schema_rejection(
                            dotted(chain, "mode"@),
                            ConfigIssue::UnsupportedModelMode { mode: mode->0->Text_0 },
                        ),
                    )
                } else {
                    match document::toml_text(
                        document::entry(e, "connection"@),
                    ) {
                        None => Err(
                            config::schema_rejection(
                                dotted(chain, "connection"@),
                                ConfigIssue::FixedChainEntryMissingConnection,
                            ),
                        ),
                        Some(connection) => match document::toml_text(
                            document::entry(e, "model_id"@),
                        ) {
                            None => Err(
                                config::schema_rejection(
                                    dotted(chain, "model_id"@),
                                    ConfigIssue::FixedChainEntryMissingModelId,
                                ),
                            ),
                            Some(model_id) => Ok(FixedModel { connection, model_id }),
                        },
                    }
                }
            },
        },
        _ => Err(config::schema_rejection(chain, ConfigIssue::ChainEntryNotTable)),
    }
}

fn check_chain_fields(table: &Vec<(String, Toml)>, key: &str) -> (r: Result<(), ConfigError>)
    ensures
        match r {
            Ok(_) => first_found(
                document::entry_views(table@),
                chain_field_check(key@),
            ) is None,
            Err(e) => first_found(
                document::entry_views(table@),
                chain_field_check(key@),
            ) == Some(e@),
        },
{
    let ghost all = document::entry_views(table@);
    let ghost f = chain_field_check(key@);
    proof {
        document::lemma_entry_views(table@);
        assert(all.take(0) =~= Seq::empty());
    }
    let mut i: usize = 0;
    while i < table.len()
        invariant
            i <= table.len(),
            all == document::entry_views(table@),
            all.len() == table.len(),
            f == chain_field_check(key@),
            first_found(all.take(i as int), f) is None,
        decreases table.len() - i,
    {
        proof {
            document::lemma_entry_views(table@);
            lemma_found_step(all, i as int, f);
        }
        let field: &str = table[i].0.as_str();
        if !(same(field, "mode") || same(field, "connection") || same(field, "model_id")) {
            proof {
                lemma_first_found(all, i as int + 1, f);
            }
            let chain: String = text2(key, ".chain");
            return Err(
                reject_unknown(dot(chain.as_str(), field).as_str(), field, KeyScope::ChainEntry),
            );
        }
        i = i + 1;
    }
    assert(all.take(all.len() as int) =~= all);
    Ok(())
}

fn chain_entry(item: &Toml, key: &str) -> (r: Result<FixedModel, ConfigError>)
    ensures
        outcome(r) == chain_entry_reading(item@, key@),
{
    let chain: String = text2(key, ".chain");
    let table: &Vec<(String, Toml)> = match item {
        Toml::Inline(table) => table,
        _ => {
            return Err(ConfigError::schema(chain.as_str(), ConfigIssue::ChainEntryNotTable));
        },
    };
    if let Err(e) = check_chain_fields(table, key) {
        return Err(e);
    }
    match find_entry(table, "mode") {
        None => {},
        Some(v) => match v.as_text() {
            None => {
                return Err(
                    ConfigError::schema(
                        dot(chain.as_str(), "mode").as_str(),
                        ConfigIssue::ExpectedString { field: owned("mode") },
                    ),
                );
            },
            Some(mode) => {
                if !same(mode, "fixed") {
                    return Err(
                        ConfigError::schema(
                            dot(chain.as_str(), "mode").as_str(),
                            ConfigIssue::UnsupportedModelMode { mode: owned(mode) },
                        ),
                    );
                }
            },
        },
    }
    let connection: String = match child_text(item, "connection") {
        Some(t) => t,
        None => {
            return Err(
                ConfigError::schema(
                    dot(chain.as_str(), "connection").as_str(),
                    ConfigIssue::FixedChainEntryMissingConnection,
                ),
            );
        },
    };
    let model_id: String = match child_text(item, "model_id") {
        Some(t) => t,
        None => {
            return Err(
                ConfigError::schema(
                    dot(chain.as_str(), "model_id").as_str(),
                    ConfigIssue::FixedChainEntryMissingModelId,
                ),
            );
        },
    };
    Ok(FixedModel { connection, model_id })
}

/// One step of the reading of a chain.
pub open spec fn chain_step(key: Seq<char>) -> spec_fn(Seq<FixedView>, TomlView) -> Result<
    Seq<FixedView>,
    Rejection,
> {
    |chain: Seq<FixedView>, item: TomlView|
        match chain_entry_reading(item, key) {
            Ok(m) => Ok(chain.push(m)),
            Err(e) => Err(e),
        }
}

/// The typed reading of the items of a chain: each in its place, or the first
/// rejection.
pub open spec fn chain_reading(items: Seq<TomlView>, key: Seq<char>) -> Result<
    Seq<FixedView>,
    Rejection,
> {
    walk(items, Seq::empty(), chain_step(key))
}

fn chain_of(items: &Vec<Toml>, key: &str) -> (r: Result<Vec<FixedModel>, ConfigError>)
    ensures
        match r {
            Ok(c) => chain_reading(document::list_views(items@), key@) == Ok::<
                Seq<FixedView>,
                Rejection,
            >(config::fixed_views(c@)),
            Err(e) => chain_reading(document::list_views(items@), key@) == Err::<
                Seq<FixedView>,
                Rejection,
            >(e@),
        },
{
    let ghost all = document::list_views(items@);
    let ghost f = chain_step(key@);
    let ghost init: Seq<FixedView> = Seq::empty();
    let mut chain: Vec<FixedModel> = Vec::new();
    proof {
        document::lemma_list_views(items@);
        assert(all.take(0) =~= Seq::empty());
        assert(config::fixed_views(chain@) =~= init);
    }
    let mut i: usize = 0;
    while i < items.len()
        invariant
            i <= items.len(),
            all == document::list_views(items@),
            all.len() == items.len(),
            f == chain_step(key@),
            init == Seq::<FixedView>::empty(),
            walk(all.take(i as int), init, f) == Ok::<Seq<FixedView>, Rejection>(
                config::fixed_views(chain@),
            ),
        decreases items.len() - i,
    {
        proof {
            document::lemma_list_views(items@);
            lemma_walk_step(all, i as int, init, f);
        }
        assert(all[i as int] == items@[i as int]@);
        match chain_entry(&items[i], key) {
            Ok(m) => {
                let ghost before = chain@;
                chain.push(m);
                assert(config::fixed_views(chain@) =~= config::fixed_views(
                    before,
                ).push(m@));
            },
            Err(e) => {
                proof {
                    lemma_walk_err(all, i as int + 1, init, f);
                }
                return Err(e);
            },
        }
        i = i + 1;
    }
    assert(all.take(all.len() as int) =~= all);
    Ok(chain)
}

/// The typed reading of a fallback assignment.
pub open spec fn fallback_reading(item: TomlView, key: Seq<char>) -> Result<
    FallbackView,
    Rejection,
> {
    match mode_reading(item, key) {
        Err(e) => Err(e),
        Ok(mode) => if mode == "auto"@ {
            match document::child(item, "chain"@) {
                None => Ok(FallbackView::Auto { chain: Seq::empty() }),
                Some(TomlView::List(items)) => match chain_reading(items, key) {
                    Ok(chain) => Ok(FallbackView::Auto { chain }),
                    Err(e) => Err(e),
                },
                Some(_) => Err(
                    config::schema_rejection(
                        dotted(key, "chain"@),
                        ConfigIssue::ChainNotArray,
                    ),
                ),
            }
        } else if mode == "manual"@ {
            Ok(FallbackView::Manual)
        } else if mode == "off"@ {
            Ok(FallbackView::Off)
        } else {
            Err(
                config::schema_rejection(
                    dotted(key, "mode"@),
                    ConfigIssue::UnsupportedFallbackMode { mode },
                ),
            )
        },
    }
}

/// Reads a fallback assignment.
pub fn fallback_assign(item: &Toml, key: &str) -> (r: Result<FallbackAssign, ConfigError>)
    ensures
        outcome(r) == fallback_reading(item@, key@),
{
    let mode: &str = match mode_of(item, key) {
        Ok(mode) => mode,
        Err(e) => {
            return Err(e);
        },
    };
    if same(mode, "auto") {
        match item.get("chain") {
            None => {
                let chain: Vec<FixedModel> = Vec::new();
                assert(config::fixed_views(chain@) =~= Seq::empty());
                Ok(FallbackAssign::Auto { chain })
            },
            Some(v) => match v.items() {
                Some(items) => match chain_of(items, key) {
                    Ok(chain) => Ok(FallbackAssign::Auto { chain }),
                    Err(e) => Err(e),
                },
                None => Err(
                    ConfigError::schema(dot(key, "chain").as_str(), ConfigIssue::ChainNotArray),
                ),
            },
        }
    } else if same(mode, "manual") {
        Ok(FallbackAssign::Manual)
    } else if same(mode, "off") {
        Ok(FallbackAssign::Off)
    } else {
        Err(
            ConfigError::schema(
                dot(key, "mode").as_str(),
                ConfigIssue::UnsupportedFallbackMode { mode: owned(mode) },
            ),
        )
    }
}

// ----- the models table -----------------------------------------------------

/// A field a table must have.
pub open spec fn pick_reading(e: Entries, field: Seq<char>) -> Result<TomlView, Rejection> {
    match document::entry(e, field) {
        Some(v) => Ok(v),
        None => Err(required(field, field)),
    }
}

/// Picks a field a table must have.
pub fn pick<'a>(table: &'a Vec<(String, Toml)>, field: &str) -> (r: Result<&'a Toml, ConfigError>)
    ensures
        match r {
            Ok(v) => pick_reading(document::entry_views(table@), field@) == Ok::<
                TomlView,
                Rejection,
            >(v@),
            Err(e) => pick_reading(document::entry_views(table@), field@) == Err::<
                TomlView,
                Rejection,
            >(e@),
        },
{
    match find_entry(table, field) {
        Some(v) => Ok(v),
        None => Err(reject_required(field, field)),
    }
}

pub open spec fn is_slot(f: Seq<char>) -> bool {
    f == "model"@ || f == "effort"@ || f == "fallback"@
}

pub open spec fn defaults_field_check() -> spec_fn((Seq<char>, TomlView)) -> Option<Rejection> {
    |x: (Seq<char>, TomlView)|
        if is_slot(x.0) {
            None
        } else {
            Some(unknown_key(dotted("models.defaults"@, x.0), x.0, KeyScope::ModelSlot))
        }
}

/// The typed reading of `models.defaults`.
pub open spec fn defaults_reading(item: TomlView) -> Result<DefaultsView, Rejection> {
    let e = document::entries_of(item);
    if !document::table_like(item) {
        Err(expected_table("models.defaults"@))
    } else {
        match first_found(e, defaults_field_check()) {
            Some(x) => Err(x),
            None => match pick_reading(e, "model"@) {
                Err(x) => Err(x),
                Ok(m) => match model_reading(m, "models.defaults.model"@) {
                    Err(x) => Err(x),
                    Ok(model) => match pick_reading(e, "effort"@) {
                        Err(x) => Err(x),
                        Ok(f) => match effort_reading(f, "models.defaults.effort"@) {
                            Err(x) => Err(x),
                            Ok(effort) => match pick_reading(e, "fallback"@) {
                                Err(x) => Err(x),
                                Ok(b) => match fallback_reading(b, "models.defaults.fallback"@) {
                                    Err(x) => Err(x),
                                    Ok(fallback) => Ok(DefaultsView { model, effort, fallback }),
                                },
                            },
                        },
                    },
                },
            },
        }
    }
}

fn check_defaults_fields(table: &Vec<(String, Toml)>) -> (r: Result<(), ConfigError>)
    ensures
        match r {
            Ok(_) => first_found(
                document::entry_views(table@),
                defaults_field_check(),
            ) is None,
            Err(e) => first_found(
                document::entry_views(table@),
                defaults_field_check(),
            ) == Some(e@),
        },
{
    let ghost all = document::entry_views(table@);
    let ghost f = defaults_field_check();
    proof {
        document::lemma_entry_views(table@);
        assert(all.take(0) =~= Seq::empty());
    }
    let mut i: usize = 0;
    while i < table.len()
        invariant
            i <= table.len(),
            all == document::entry_views(table@),
            all.len() == table.len(),
            f == defaults_field_check(),
            first_found(all.take(i as int), f) is None,
        decreases table.len() - i,
    {
        proof {
            document::lemma_entry_views(table@);
            lemma_found_step(all, i as int, f);
        }
        let field: &str = table[i].0.as_str();
        if !(same(field, "model") || same(field, "effort") || same(field, "fallback")) {
            proof {
                lemma_first_found(all, i as int + 1, f);
            }
            return Err(
                reject_unknown(dot("models.defaults", field).as_str(), field, KeyScope::ModelSlot),
            );
        }
        i = i + 1;
    }
    assert(all.take(all.len() as int) =~= all);
    Ok(())
}

fn defaults_of(item: &Toml) -> (r: Result<Defaults, ConfigError>)
    ensures
        outcome(r) == defaults_reading(item@),
{
    let table: &Vec<(String, Toml)> = match item.entries() {
        Some(t) => t,
        None => {
            return Err(reject_table("models.defaults"));
        },
    };
    if let Err(e) = check_defaults_fields(table) {
        return Err(e);
    }
    let model: ModelAssign = match pick(table, "model") {
        Err(e) => {
            return Err(e);
        },
        Ok(v) => match model_assign(v, "models.defaults.model") {
            Err(e) => {
                return Err(e);
            },
            Ok(m) => m,
        },
    };
    let effort: EffortAssign = match pick(table, "effort") {
        Err(e) => {
            return Err(e);
        },
        Ok(v) => match effort_assign(v, "models.defaults.effort") {
            Err(e) => {
                return Err(e);
            },
            Ok(m) => m,
        },
    };
    let fallback: FallbackAssign = match pick(table, "fallback") {
        Err(e) => {
            return Err(e);
        },
        Ok(v) => match fallback_assign(v, "models.defaults.fallback") {
            Err(e) => {
                return Err(e);
            },
            Ok(m) => m,
        },
    };
    Ok(Defaults { model, effort, fallback })
}

pub open spec fn group_field_check(name: Seq<char>) -> spec_fn((Seq<char>, TomlView)) -> Option<
    Rejection,
> {
    |x: (Seq<char>, TomlView)|
        if x.0 == "model"@ {
            None
        } else {
            Some(unknown_key(dotted("models.groups."@ + name, x.0), x.0, KeyScope::Group))
        }
}

/// The typed reading of one group.
pub open spec fn group_reading(name: Seq<char>, item: TomlView) -> Result<ModelView, Rejection> {
    let e = document::entries_of(item);
    if !document::table_like(item) {
        Err(expected_table(name))
    } else {
        match first_found(e, group_field_check(name)) {
            Some(x) => Err(x),
            None => match pick_reading(e, "model"@) {
                Err(x) => Err(x),
                Ok(m) => model_reading(m, "models.groups."@ + name + ".model"@),
            },
        }
    }
}

fn check_group_fields(table: &Vec<(String, Toml)>, name: &str) -> (r: Result<(), ConfigError>)
    ensures
        match r {
            Ok(_) => first_found(
                document::entry_views(table@),
                group_field_check(name@),
            ) is None,
            Err(e) => first_found(
                document::entry_views(table@),
                group_field_check(name@),
            ) == Some(e@),
        },
{
    let ghost all = document::entry_views(table@);
    let ghost f = group_field_check(name@);
    proof {
        document::lemma_entry_views(table@);
        assert(all.take(0) =~= Seq::empty());
    }
    let mut i: usize = 0;
    while i < table.len()
        invariant
            i <= table.len(),
            all == document::entry_views(table@),
            all.len() == table.len(),
            f == group_field_check(name@),
            first_found(all.take(i as int), f) is None,
        decreases table.len() - i,
    {
        proof {
            document::lemma_entry_views(table@);
            lemma_found_step(all, i as int, f);
        }
        let field: &str = table[i].0.as_str();
        if !same(field, "model") {
            proof {
                lemma_first_found(all, i as int + 1, f);
            }
            let scope: String = text2("models.groups.", name);
            return Err(reject_unknown(dot(scope.as_str(), field).as_str(), field, KeyScope::Group));
        }
        i = i + 1;
    }
    assert(all.take(all.len() as int) =~= all);
    Ok(())
}

fn group_of(name: &str, item: &Toml) -> (r: Result<GroupDef, ConfigError>)
    ensures
        outcome(r) == group_reading(name@, item@),
{
    let table: &Vec<(String, Toml)> = match item.entries() {
        Some(t) => t,
        None => {
            return Err(reject_table(name));
        },
    };
    if let Err(e) = check_group_fields(table, name) {
        return Err(e);
    }
    match pick(table, "model") {
        Err(e) => Err(e),
        Ok(v) => match model_assign(v, text3("models.groups.", name, ".model").as_str()) {
            Err(e) => Err(e),
            Ok(model) => Ok(GroupDef { model }),
        },
    }
}

/// One field of one purpose.
pub open spec fn purpose_step(key: Seq<char>) -> spec_fn(
    PurposeView,
    (Seq<char>, TomlView),
) -> Result<PurposeView, Rejection> {
    |def: PurposeView, x: (Seq<char>, TomlView)| purpose_field_reading(def, key, x.0, x.1)
}

/// A purpose with one more field read into it.
pub open spec fn purpose_field_reading(
    def: PurposeView,
    key: Seq<char>,
    field: Seq<char>,
    value: TomlView,
) -> Result<PurposeView, Rejection> {
    if field == "group"@ {
        match value {
            TomlView::Text(t) => Ok(PurposeView { group: Some(t), ..def }),
            _ => Err(
                config::schema_rejection(
                    dotted(key, "group"@),
                    ConfigIssue::GroupReferenceNotString,
                ),
            ),
        }
    } else if field == "model"@ {
        match model_reading(value, dotted(key, "model"@)) {
            Ok(m) => Ok(PurposeView { model: Some(m), ..def }),
            Err(e) => Err(e),
        }
    } else if field == "effort"@ {
        match effort_reading(value, dotted(key, "effort"@)) {
            Ok(m) => Ok(PurposeView { effort: Some(m), ..def }),
            Err(e) => Err(e),
        }
    } else if field == "fallback"@ {
        match fallback_reading(value, dotted(key, "fallback"@)) {
            Ok(m) => Ok(PurposeView { fallback: Some(m), ..def }),
            Err(e) => Err(e),
        }
    } else if field == "pool"@ {
        match names_reading(
            value,
            dotted(key, "pool"@),
            pool_not_array(),
            pool_entry_not_string(),
        ) {
            Ok(names) => Ok(PurposeView { pool: Some(names), ..def }),
            Err(e) => Err(e),
        }
    } else if field == "eligible"@ {
        match names_reading(
            value,
            dotted(key, "eligible"@),
            eligible_not_array(),
            eligible_entry_not_string(),
        ) {
            Ok(names) => Ok(PurposeView { eligible: Some(names), ..def }),
            Err(e) => Err(e),
        }
    } else {
        Err(unknown_key(dotted(key, field), field, KeyScope::Purpose))
    }
}

/// The typed reading of one purpose.
pub open spec fn purpose_reading(name: Seq<char>, item: TomlView) -> Result<
    PurposeView,
    Rejection,
> {
    if !document::table_like(item) {
        Err(expected_table(name))
    } else {
        walk(
            document::entries_of(item),
            config::empty_purpose(),
            purpose_step("models.purposes."@ + name),
        )
    }
}

fn purpose_field(def: PurposeDef, key: &str, field: &str, value: &Toml) -> (r: Result<
    PurposeDef,
    ConfigError,
>)
    ensures
        outcome(r) == purpose_field_reading(def@, key@, field@, value@),
{
    if same(field, "group") {
        match value.as_text() {
            Some(t) => Ok(PurposeDef { group: Some(owned(t)), ..def }),
            None => Err(
                ConfigError::schema(
                    dot(key, "group").as_str(),
                    ConfigIssue::GroupReferenceNotString,
                ),
            ),
        }
    } else if same(field, "model") {
        match model_assign(value, dot(key, "model").as_str()) {
            Ok(m) => Ok(PurposeDef { model: Some(m), ..def }),
            Err(e) => Err(e),
        }
    } else if same(field, "effort") {
        match effort_assign(value, dot(key, "effort").as_str()) {
            Ok(m) => Ok(PurposeDef { effort: Some(m), ..def }),
            Err(e) => Err(e),
        }
    } else if same(field, "fallback") {
        match fallback_assign(value, dot(key, "fallback").as_str()) {
            Ok(m) => Ok(PurposeDef { fallback: Some(m), ..def }),
            Err(e) => Err(e),
        }
    } else if same(field, "pool") {
        match name_array(
            value,
            dot(key, "pool").as_str(),
            ConfigIssue::PoolNotArray,
            ConfigIssue::PoolEntryNotString,
        ) {
            Ok(names) => Ok(PurposeDef { pool: Some(names), ..def }),
            Err(e) => Err(e),
        }
    } else if same(field, "eligible") {
        match name_array(
            value,
            dot(key, "eligible").as_str(),
            ConfigIssue::EligibleNotArray,
            ConfigIssue::EligibleEntryNotString,
        ) {
            Ok(names) => Ok(PurposeDef { eligible: Some(names), ..def }),
            Err(e) => Err(e),
        }
    } else {
        Err(reject_unknown(dot(key, field).as_str(), field, KeyScope::Purpose))
    }
}

fn purpose_of(name: &str, item: &Toml) -> (r: Result<PurposeDef, ConfigError>)
    ensures
        outcome(r) == purpose_reading(name@, item@),
{
    let table: &Vec<(String, Toml)> = match item.entries() {
        Some(t) => t,
        None => {
            return Err(reject_table(name));
        },
    };
    let key: String = text2("models.purposes.", name);
    let mut def: PurposeDef = PurposeDef::default();
    let ghost all = document::entry_views(table@);
    let ghost f = purpose_step(key@);
    let ghost init = config::empty_purpose();
    proof {
        document::lemma_entry_views(table@);
        assert(all.take(0) =~= Seq::empty());
    }
    let mut i: usize = 0;
    while i < table.len()
        invariant
            i <= table.len(),
            all == document::entry_views(table@),
            all == document::entries_of(item@),
            document::table_like(item@),
            all.len() == table.len(),
            key@ == "models.purposes."@ + name@,
            f == purpose_step(key@),
            init == config::empty_purpose(),
            walk(all.take(i as int), init, f) == Ok::<PurposeView, Rejection>(def@),
        decreases table.len() - i,
    {
        proof {
            document::lemma_entry_views(table@);
            lemma_walk_step(all, i as int, init, f);
        }
        match purpose_field(def, key.as_str(), table[i].0.as_str(), &table[i].1) {
            Ok(next) => {
                def = next;
            },
            Err(e) => {
                proof {
                    lemma_walk_err(all, i as int + 1, init, f);
                }
                return Err(e);
            },
        }
        i = i + 1;
    }
    assert(all.take(all.len() as int) =~= all);
    Ok(def)
}

/// A map with one more group read into it.
pub open spec fn groups_step() -> spec_fn(
    Seq<(Seq<char>, ModelView)>,
    (Seq<char>, TomlView),
) -> Result<Seq<(Seq<char>, ModelView)>, Rejection> {
    |groups: Seq<(Seq<char>, ModelView)>, x: (Seq<char>, TomlView)|
        match group_reading(x.0, x.1) {
            Ok(g) => Ok(names::set_key(groups, x.0, g)),
            Err(e) => Err(e),
        }
}

/// A map with one more purpose read into it.
pub open spec fn purposes_step() -> spec_fn(
    Seq<(Seq<char>, PurposeView)>,
    (Seq<char>, TomlView),
) -> Result<Seq<(Seq<char>, PurposeView)>, Rejection> {
    |purposes: Seq<(Seq<char>, PurposeView)>, x: (Seq<char>, TomlView)|
        match purpose_reading(x.0, x.1) {
            Ok(p) => Ok(names::set_key(purposes, x.0, p)),
            Err(e) => Err(e),
        }
}

fn groups_of_table(table: &Vec<(String, Toml)>, given: NameMap<GroupDef>) -> (r: Result<
    NameMap<GroupDef>,
    ConfigError,
>)
    ensures
        match r {
            Ok(m) => walk(
                document::entry_views(table@),
                config::groups_of(given),
                groups_step(),
            ) == Ok::<Seq<(Seq<char>, ModelView)>, Rejection>(config::groups_of(m)),
            Err(e) => walk(
                document::entry_views(table@),
                config::groups_of(given),
                groups_step(),
            ) == Err::<Seq<(Seq<char>, ModelView)>, Rejection>(e@),
        },
{
    let ghost all = document::entry_views(table@);
    let ghost f = groups_step();
    let ghost init = config::groups_of(given);
    let mut groups: NameMap<GroupDef> = given;
    proof {
        document::lemma_entry_views(table@);
        assert(all.take(0) =~= Seq::empty());
    }
    let mut i: usize = 0;
    while i < table.len()
        invariant
            i <= table.len(),
            all == document::entry_views(table@),
            all.len() == table.len(),
            f == groups_step(),
            init == config::groups_of(given),
            walk(all.take(i as int), init, f) == Ok::<Seq<(Seq<char>, ModelView)>, Rejection>(
                config::groups_of(groups),
            ),
        decreases table.len() - i,
    {
        proof {
            document::lemma_entry_views(table@);
            lemma_walk_step(all, i as int, init, f);
        }
        match group_of(table[i].0.as_str(), &table[i].1) {
            Ok(g) => {
                proof {
                    names::lemma_set_key_through(
                        groups@,
                        table@[i as int].0@,
                        g,
                        config::group_view(),
                    );
                }
                groups.insert(table[i].0.clone(), g);
            },
            Err(e) => {
                proof {
                    lemma_walk_err(all, i as int + 1, init, f);
                }
                return Err(e);
            },
        }
        i = i + 1;
    }
    assert(all.take(all.len() as int) =~= all);
    Ok(groups)
}

fn purposes_of_table(table: &Vec<(String, Toml)>, given: NameMap<PurposeDef>) -> (r: Result<
    NameMap<PurposeDef>,
    ConfigError,
>)
    ensures
        match r {
            Ok(m) => walk(
                document::entry_views(table@),
                config::purposes_of(given),
                purposes_step(),
            ) == Ok::<Seq<(Seq<char>, PurposeView)>, Rejection>(config::purposes_of(m)),
            Err(e) => walk(
                document::entry_views(table@),
                config::purposes_of(given),
                purposes_step(),
            ) == Err::<Seq<(Seq<char>, PurposeView)>, Rejection>(e@),
        },
{
    let ghost all = document::entry_views(table@);
    let ghost f = purposes_step();
    let ghost init = config::purposes_of(given);
    let mut purposes: NameMap<PurposeDef> = given;
    proof {
        document::lemma_entry_views(table@);
        assert(all.take(0) =~= Seq::empty());
    }
    let mut i: usize = 0;
    while i < table.len()
        invariant
            i <= table.len(),
            all == document::entry_views(table@),
            all.len() == table.len(),
            f == purposes_step(),
            init == config::purposes_of(given),
            walk(all.take(i as int), init, f) == Ok::<Seq<(Seq<char>, PurposeView)>, Rejection>(
                config::purposes_of(purposes),
            ),
        decreases table.len() - i,
    {
        proof {
            document::lemma_entry_views(table@);
            lemma_walk_step(all, i as int, init, f);
        }
        match purpose_of(table[i].0.as_str(), &table[i].1) {
            Ok(p) => {
                proof {
                    names::lemma_set_key_through(
                        purposes@,
                        table@[i as int].0@,
                        p,
                        config::purpose_view(),
                    );
                }
                purposes.insert(table[i].0.clone(), p);
            },
            Err(e) => {
                proof {
                    lemma_walk_err(all, i as int + 1, init, f);
                }
                return Err(e);
            },
        }
        i = i + 1;
    }
    assert(all.take(all.len() as int) =~= all);
    Ok(purposes)
}

/// The models table with one more entry read into it.
pub open spec fn models_step() -> spec_fn(ModelsView, (Seq<char>, TomlView)) -> Result<
    ModelsView,
    Rejection,
> {
    |models: ModelsView, x: (Seq<char>, TomlView)| models_entry_reading(models, x.0, x.1)
}

/// The models table with one more entry read into it.
pub open spec fn models_entry_reading(models: ModelsView, key: Seq<char>, item: TomlView) -> Result<
    ModelsView,
    Rejection,
> {
    let e = document::entries_of(item);
    if key == "defaults"@ {
        match defaults_reading(item) {
            Ok(d) => Ok(ModelsView { defaults: Some(d), ..models }),
            Err(x) => Err(x),
        }
    } else if key == "groups"@ {
        if !document::table_like(item) {
            Err(expected_table("models.groups"@))
        } else {
            match walk(e, models.groups, groups_step()) {
                Ok(groups) => Ok(ModelsView { groups, ..models }),
                Err(x) => Err(x),
            }
        }
    } else if key == "purposes"@ {
        if !document::table_like(item) {
            Err(expected_table("models.purposes"@))
        } else {
            match walk(e, models.purposes, purposes_step()) {
                Ok(purposes) => Ok(ModelsView { purposes, ..models }),
                Err(x) => Err(x),
            }
        }
    } else {
        Err(unknown_key("models"@, key, KeyScope::Models))
    }
}

/// The typed reading of the models table.
pub open spec fn models_reading(e: Entries) -> Result<ModelsView, Rejection> {
    walk(e, config::empty_models(), models_step())
}

fn models_entry(models: Models, key: &str, item: &Toml) -> (r: Result<Models, ConfigError>)
    ensures
        outcome(r) == models_entry_reading(models@, key@, item@),
{
    if same(key, "defaults") {
        match defaults_of(item) {
            Ok(d) => Ok(Models { defaults: Some(d), ..models }),
            Err(e) => Err(e),
        }
    } else if same(key, "groups") {
        match item.entries() {
            None => Err(reject_table("models.groups")),
            Some(table) => match groups_of_table(table, models.groups) {
                Ok(groups) => Ok(
                    Models { defaults: models.defaults, groups, purposes: models.purposes },
                ),
                Err(e) => Err(e),
            },
        }
    } else if same(key, "purposes") {
        match item.entries() {
            None => Err(reject_table("models.purposes")),
            Some(table) => match purposes_of_table(table, models.purposes) {
                Ok(purposes) => Ok(
                    Models { defaults: models.defaults, groups: models.groups, purposes },
                ),
                Err(e) => Err(e),
            },
        }
    } else {
        Err(reject_unknown("models", key, KeyScope::Models))
    }
}

/// Reads the models table.
pub fn models_table(table: &Vec<(String, Toml)>) -> (r: Result<Models, ConfigError>)
    ensures
        outcome(r) == models_reading(document::entry_views(table@)),
{
    let mut models: Models = Models::default();
    let ghost all = document::entry_views(table@);
    let ghost f = models_step();
    let ghost init = config::empty_models();
    proof {
        document::lemma_entry_views(table@);
        assert(all.take(0) =~= Seq::empty());
    }
    let mut i: usize = 0;
    while i < table.len()
        invariant
            i <= table.len(),
            all == document::entry_views(table@),
            all.len() == table.len(),
            f == models_step(),
            init == config::empty_models(),
            walk(all.take(i as int), init, f) == Ok::<ModelsView, Rejection>(models@),
        decreases table.len() - i,
    {
        proof {
            document::lemma_entry_views(table@);
            lemma_walk_step(all, i as int, init, f);
        }
        match models_entry(models, table[i].0.as_str(), &table[i].1) {
            Ok(next) => {
                models = next;
            },
            Err(e) => {
                proof {
                    lemma_walk_err(all, i as int + 1, init, f);
                }
                return Err(e);
            },
        }
        i = i + 1;
    }
    assert(all.take(all.len() as int) =~= all);
    Ok(models)
}

// ----- references -----------------------------------------------------------

/// The connections of a document, by name.
pub type ConnectionMap = Seq<(Seq<char>, Connection<Seq<char>>)>;

/// The connection names a model assignment refers to.
pub open spec fn referenced(model: ModelView) -> Seq<Seq<char>> {
    match model {
        ModelView::Fixed(fixed) => seq![fixed.connection],
        ModelView::Auto { pool: Some(pool) } => pool,
        _ => Seq::empty(),
    }
}

/// The connection names a fallback chain refers to.
pub open spec fn chain_referenced(fallback: FallbackView) -> Seq<Seq<char>> {
    match fallback {
        FallbackView::Auto { chain } => chain.map_values(|m: FixedView| m.connection),
        _ => Seq::empty(),
    }
}

/// A name that no connection carries.
pub open spec fn reference_check(connections: ConnectionMap, key: Seq<char>) -> spec_fn(
    Seq<char>,
) -> Option<Rejection> {
    |name: Seq<char>|
        if names::lookup(connections, name) is Some {
            None
        } else {
            Some(
                config::schema_rejection(
                    key,
                    ConfigIssue::UnknownConnectionReference { connection: name },
                ),
            )
        }
}

/// The outcome of a check: nothing, or its rejection.
pub open spec fn check_outcome(r: Result<(), ConfigError>) -> Option<Rejection> {
    match r {
        Ok(_) => None,
        Err(e) => Some(e@),
    }
}

/// The connection names a model assignment refers to, in order.
pub fn model_reference_names(model: &ModelAssign) -> (r: Vec<String>)
    ensures
        text::texts(r@) == referenced(model@),
{
    match model {
        ModelAssign::Fixed(fixed) => {
            let r: Vec<String> = vec![fixed.connection.clone()];
            assert(text::texts(r@) =~= seq![fixed.connection@]);
            r
        },
        ModelAssign::Auto { pool: Some(pool) } => text::copy_names(pool),
        _ => {
            let r: Vec<String> = Vec::new();
            assert(text::texts(r@) =~= Seq::empty());
            r
        },
    }
}

fn check_names(connections: &NameMap<Connection>, names: &Vec<String>, key: &str) -> (r: Result<
    (),
    ConfigError,
>)
    ensures
        check_outcome(r) == first_found(
            text::texts(names@),
            reference_check(config::connections_of(*connections), key@),
        ),
{
    let ghost all = text::texts(names@);
    let ghost conns = config::connections_of(*connections);
    let ghost f = reference_check(conns, key@);
    assert(all.take(0) =~= Seq::empty());
    let mut i: usize = 0;
    while i < names.len()
        invariant
            i <= names.len(),
            all == text::texts(names@),
            conns == config::connections_of(*connections),
            f == reference_check(conns, key@),
            first_found(all.take(i as int), f) is None,
        decreases names.len() - i,
    {
        proof {
            lemma_found_step(all, i as int, f);
            names::lemma_lookup_through(
                connections@,
                names@[i as int]@,
                config::connection_view(),
            );
        }
        if !connections.contains(names[i].as_str()) {
            proof {
                lemma_first_found(all, i as int + 1, f);
            }
            return Err(
                ConfigError::schema(
                    key,
                    ConfigIssue::UnknownConnectionReference { connection: names[i].clone() },
                ),
            );
        }
        i = i + 1;
    }
    assert(all.take(all.len() as int) =~= all);
    Ok(())
}

/// Every connection a model assignment refers to must be declared; the first
/// that is not is the rejection.
pub fn check_model_refs(connections: &NameMap<Connection>, model: &ModelAssign, key: &str) -> (r:
    Result<(), ConfigError>)
    ensures
        check_outcome(r) == first_found(
            referenced(model@),
            reference_check(config::connections_of(*connections), key@),
        ),
{
    let names: Vec<String> = model_reference_names(model);
    check_names(connections, &names, key)
}

/// The connection names a fallback chain refers to, in order.
pub fn chain_reference_names(fallback: &FallbackAssign) -> (r: Vec<String>)
    ensures
        text::texts(r@) == chain_referenced(fallback@),
{
    let mut r: Vec<String> = Vec::new();
    match fallback {
        FallbackAssign::Auto { chain } => {
            let ghost all = chain_referenced(fallback@);
            let mut i: usize = 0;
            while i < chain.len()
                invariant
                    i <= chain.len(),
                    all == chain_referenced(fallback@),
                    fallback@ == (FallbackView::Auto { chain: config::fixed_views(chain@) }),
                    text::texts(r@) == all.take(i as int),
                decreases chain.len() - i,
            {
                let name: String = chain[i].connection.clone();
                proof {
                    text::lemma_texts_push(r@, name);
                    assert(all.take(i as int + 1) =~= all.take(i as int).push(name@));
                }
                r.push(name);
                i = i + 1;
            }
            assert(all.take(all.len() as int) =~= all);
        },
        _ => {
            assert(text::texts(r@) =~= Seq::empty());
        },
    }
    r
}

/// Every connection a fallback chain refers to must be declared, on every
/// scope.
pub fn check_chain_refs(connections: &NameMap<Connection>, fallback: &FallbackAssign, key: &str)
    -> (r: Result<(), ConfigError>)
    ensures
        check_outcome(r) == first_found(
            chain_referenced(fallback@),
            reference_check(config::connections_of(*connections), key@),
        ),
{
    let names: Vec<String> = chain_reference_names(fallback);
    check_names(connections, &names, key)
}

// ----- the whole document ---------------------------------------------------

/// What the root entries have yielded so far.
pub struct Draft {
    pub version: Option<u64>,
    pub workflow: Workflow,
    pub connections: ConnectionMap,
    pub models: ModelsView,
}

pub open spec fn empty_draft() -> Draft {
    Draft {
        version: None,
        workflow: Workflow { enabled: None },
        connections: Seq::empty(),
        models: config::empty_models(),
    }
}

/// The typed value of a document that meets the schema.
pub struct Validated {
    pub version: u64,
    pub workflow: Workflow,
    pub connections: ConnectionMap,
    pub models: ModelsView,
}

pub open spec fn workflow_step() -> spec_fn(Workflow, (Seq<char>, TomlView)) -> Result<
    Workflow,
    Rejection,
> {
    |w: Workflow, x: (Seq<char>, TomlView)|
        if x.0 == "enabled"@ {
            match x.1 {
                TomlView::Flag(b) => Ok(Workflow { enabled: Some(b) }),
                _ => Err(
                    config::schema_rejection(
                        "workflow.enabled"@,
                        ConfigIssue::WorkflowEnabledNotBoolean,
                    ),
                ),
            }
        } else {
            Err(unknown_key("workflow."@ + x.0, x.0, KeyScope::Workflow))
        }
}

pub open spec fn connections_step() -> spec_fn(ConnectionMap, (Seq<char>, TomlView)) -> Result<
    ConnectionMap,
    Rejection,
> {
    |m: ConnectionMap, x: (Seq<char>, TomlView)|
        match connection_reading(x.0, x.1) {
            Ok(c) => Ok(names::set_key(m, x.0, c)),
            Err(e) => Err(e),
        }
}

pub open spec fn root_step() -> spec_fn(Draft, (Seq<char>, TomlView)) -> Result<Draft, Rejection> {
    |d: Draft, x: (Seq<char>, TomlView)| root_entry_reading(d, x.0, x.1)
}

/// The draft with one more root entry read into it.
pub open spec fn root_entry_reading(d: Draft, key: Seq<char>, item: TomlView) -> Result<
    Draft,
    Rejection,
> {
    let e = document::entries_of(item);
    if key == "config_version"@ {
        match item {
            TomlView::Int(n) => if n >= 0 {
                Ok(Draft { version: Some(n as u64), ..d })
            } else {
                Err(
                    config::schema_rejection(
                        "config_version"@,
                        ConfigIssue::ConfigVersionNotNonNegativeInteger,
                    ),
                )
            },
            _ => Err(
                config::schema_rejection(
                    "config_version"@,
                    ConfigIssue::ConfigVersionNotNonNegativeInteger,
                ),
            ),
        }
    } else if key == "workflow"@ {
        if !document::table_like(item) {
            Err(expected_table(key))
        } else {
            match walk(e, d.workflow, workflow_step()) {
                Ok(workflow) => Ok(Draft { workflow, ..d }),
                Err(x) => Err(x),
            }
        }
    } else if key == "connections"@ {
        if !document::table_like(item) {
            Err(expected_table(key))
        } else {
            match walk(e, d.connections, connections_step()) {
                Ok(connections) => Ok(Draft { connections, ..d }),
                Err(x) => Err(x),
            }
        }
    } else if key == "models"@ {
        if !document::table_like(item) {
            Err(expected_table(key))
        } else {
            match models_reading(e) {
                Ok(models) => Ok(Draft { models, ..d }),
                Err(x) => Err(x),
            }
        }
    } else {
        Err(config::schema_rejection(key, ConfigIssue::UnknownRootKey { key }))
    }
}

/// A connection carries a credential reference exactly when its kind needs
/// one.
pub open spec fn credential_check() -> spec_fn((Seq<char>, Connection<Seq<char>>)) -> Option<
    Rejection,
> {
    |x: (Seq<char>, Connection<Seq<char>>)|
        {
            let key = dotted("connections."@ + x.0, "credential_ref"@);
            if x.1.kind != ConnKind::Local && x.1.credential_ref is None {
                Some(
                    config::schema_rejection(
                        key,
                        ConfigIssue::CredentialRefRequired { kind: x.1.kind },
                    ),
                )
            } else if x.1.kind == ConnKind::Local && x.1.credential_ref is Some {
                Some(
                    config::schema_rejection(key, ConfigIssue::LocalCredentialsForbidden),
                )
            } else {
                None
            }
        }
}

/// The references of one group.
pub open spec fn group_check(connections: ConnectionMap) -> spec_fn(
    (Seq<char>, ModelView),
) -> Option<Rejection> {
    |x: (Seq<char>, ModelView)|
        first_found(
            referenced(x.1),
            reference_check(connections, "models.groups."@ + x.0 + ".model"@),
        )
}

/// The references of one purpose: its group, its model, its chain.
pub open spec fn purpose_check(
    connections: ConnectionMap,
    groups: Seq<(Seq<char>, ModelView)>,
) -> spec_fn((Seq<char>, PurposeView)) -> Option<Rejection> {
    |x: (Seq<char>, PurposeView)| purpose_references(connections, groups, x.0, x.1)
}

pub open spec fn purpose_references(
    connections: ConnectionMap,
    groups: Seq<(Seq<char>, ModelView)>,
    name: Seq<char>,
    purpose: PurposeView,
) -> Option<Rejection> {
    let key = "models.purposes."@ + name;
    let of_model = match purpose.model {
        Some(model) => first_found(
            referenced(model),
            reference_check(connections, key + ".model"@),
        ),
        None => None,
    };
    let of_chain = match purpose.fallback {
        Some(fallback) => first_found(
            chain_referenced(fallback),
            reference_check(connections, key + ".fallback.chain"@),
        ),
        None => None,
    };
    if purpose.group is Some && names::lookup(groups, purpose.group->0) is None {
        Some(
            config::schema_rejection(
                key + ".group"@,
                ConfigIssue::UnknownGroupReference { group: purpose.group->0 },
            ),
        )
    } else if of_model is Some {
        of_model
    } else {
        of_chain
    }
}

/// What stands against a fully read document, in the order it is reported.
pub open spec fn draft_problem(d: Draft) -> Option<Rejection> {
    if d.version is None {
        Some(required("config_version"@, "config_version"@))
    } else if d.version->0 != 1 {
        Some(
            config::schema_rejection(
                "config_version"@,
                ConfigIssue::UnsupportedConfigVersion,
            ),
        )
    } else if d.connections.len() == 0 {
        Some(
            config::schema_rejection("connections"@, ConfigIssue::MissingConnections),
        )
    } else if first_found(d.connections, credential_check()) is Some {
        first_found(d.connections, credential_check())
    } else if d.models.defaults is None {
        Some(required("models.defaults"@, "models.defaults"@))
    } else {
        let defaults = d.models.defaults->0;
        let of_model = first_found(
            referenced(defaults.model),
            reference_check(d.connections, "models.defaults.model"@),
        );
        let of_chain = first_found(
            chain_referenced(defaults.fallback),
            reference_check(d.connections, "models.defaults.fallback.chain"@),
        );
        let of_groups = first_found(d.models.groups, group_check(d.connections));
        if of_model is Some {
            of_model
        } else if of_chain is Some {
            of_chain
        } else if of_groups is Some {
            of_groups
        } else {
            first_found(d.models.purposes, purpose_check(d.connections, d.models.groups))
        }
    }
}

/// The typed reading of a whole document.
pub open spec fn document_reading(e: Entries) -> Result<Validated, Rejection> {
    match walk(e, empty_draft(), root_step()) {
        Err(x) => Err(x),
        Ok(d) => match draft_problem(d) {
            Some(x) => Err(x),
            None => Ok(
                Validated {
                    version: 1,
                    workflow: d.workflow,
                    connections: d.connections,
                    models: d.models,
                },
            ),
        },
    }
}

/// The typed parts of a document while its entries are read.
struct Parts {
    version: Option<u64>,
    workflow: Workflow,
    connections: NameMap<Connection>,
    models: Models,
}

impl View for Parts {
    type V = Draft;

    closed spec fn view(&self) -> Draft {
        Draft {
            version: self.version,
            workflow: self.workflow,
            connections: config::connections_of(self.connections),
            models: self.models@,
        }
    }
}

fn workflow_of(table: &Vec<(String, Toml)>, given: Workflow) -> (r: Result<Workflow, ConfigError>)
    ensures
        match r {
            Ok(w) => walk(
                document::entry_views(table@),
                given,
                workflow_step(),
            ) == Ok::<Workflow, Rejection>(w),
            Err(e) => walk(
                document::entry_views(table@),
                given,
                workflow_step(),
            ) == Err::<Workflow, Rejection>(e@),
        },
{
    let mut workflow: Workflow = given;
    let ghost all = document::entry_views(table@);
    let ghost f = workflow_step();
    proof {
        document::lemma_entry_views(table@);
        assert(all.take(0) =~= Seq::empty());
    }
    let mut i: usize = 0;
    while i < table.len()
        invariant
            i <= table.len(),
            all == document::entry_views(table@),
            all.len() == table.len(),
            f == workflow_step(),
            walk(all.take(i as int), given, f) == Ok::<Workflow, Rejection>(workflow),
        decreases table.len() - i,
    {
        proof {
            document::lemma_entry_views(table@);
            lemma_walk_step(all, i as int, given, f);
            if walk(all.take(i as int + 1), given, f) is Err {
                lemma_walk_err(all, i as int + 1, given, f);
            }
        }
        let field: &str = table[i].0.as_str();
        if same(field, "enabled") {
            match &table[i].1 {
                Toml::Flag(b) => {
                    workflow = Workflow { enabled: Some(*b) };
                },
                _ => {
                    return Err(
                        ConfigError::schema(
                            "workflow.enabled",
                            ConfigIssue::WorkflowEnabledNotBoolean,
                        ),
                    );
                },
            }
        } else {
            return Err(
                reject_unknown(text2("workflow.", field).as_str(), field, KeyScope::Workflow),
            );
        }
        i = i + 1;
    }
    assert(all.take(all.len() as int) =~= all);
    Ok(workflow)
}

fn connections_of_table(table: &Vec<(String, Toml)>, given: NameMap<Connection>) -> (r: Result<
    NameMap<Connection>,
    ConfigError,
>)
    ensures
        match r {
            Ok(m) => walk(
                document::entry_views(table@),
                config::connections_of(given),
                connections_step(),
            ) == Ok::<ConnectionMap, Rejection>(config::connections_of(m)),
            Err(e) => walk(
                document::entry_views(table@),
                config::connections_of(given),
                connections_step(),
            ) == Err::<ConnectionMap, Rejection>(e@),
        },
{
    let ghost all = document::entry_views(table@);
    let ghost f = connections_step();
    let ghost init = config::connections_of(given);
    let mut connections: NameMap<Connection> = given;
    proof {
        document::lemma_entry_views(table@);
        assert(all.take(0) =~= Seq::empty());
    }
    let mut i: usize = 0;
    while i < table.len()
        invariant
            i <= table.len(),
            all == document::entry_views(table@),
            all.len() == table.len(),
            f == connections_step(),
            init == config::connections_of(given),
            walk(all.take(i as int), init, f) == Ok::<ConnectionMap, Rejection>(
                config::connections_of(connections),
            ),
        decreases table.len() - i,
    {
        proof {
            document::lemma_entry_views(table@);
            lemma_walk_step(all, i as int, init, f);
        }
        match connection(table[i].0.as_str(), &table[i].1) {
            Ok(c) => {
                proof {
                    names::lemma_set_key_through(
                        connections@,
                        table@[i as int].0@,
                        c,
                        config::connection_view(),
                    );
                }
                connections.insert(table[i].0.clone(), c);
            },
            Err(e) => {
                proof {
                    lemma_walk_err(all, i as int + 1, init, f);
                }
                return Err(e);
            },
        }
        i = i + 1;
    }
    assert(all.take(all.len() as int) =~= all);
    Ok(connections)
}

fn root_entry(parts: Parts, key: &str, item: &Toml) -> (r: Result<Parts, ConfigError>)
    ensures
        outcome(r) == root_entry_reading(parts@, key@, item@),
{
    if same(key, "config_version") {
        match item {
            Toml::Int(n) => {
                if *n >= 0 {
                    return Ok(Parts { version: Some(*n as u64), ..parts });
                }
            },
            _ => {},
        }
        Err(
            ConfigError::schema("config_version", ConfigIssue::ConfigVersionNotNonNegativeInteger),
        )
    } else if same(key, "workflow") {
        match item.entries() {
            None => Err(reject_table(key)),
            Some(table) => match workflow_of(table, parts.workflow) {
                Ok(workflow) => Ok(Parts { workflow, ..parts }),
                Err(e) => Err(e),
            },
        }
    } else if same(key, "connections") {
        match item.entries() {
            None => Err(reject_table(key)),
            Some(table) => match connections_of_table(table, parts.connections) {
                Ok(connections) => Ok(
                    Parts {
                        version: parts.version,
                        workflow: parts.workflow,
                        connections,
                        models: parts.models,
                    },
                ),
                Err(e) => Err(e),
            },
        }
    } else if same(key, "models") {
        match item.entries() {
            None => Err(reject_table(key)),
            Some(table) => match models_table(table) {
                Ok(models) => Ok(Parts { models, ..parts }),
                Err(e) => Err(e),
            },
        }
    } else {
        Err(ConfigError::schema(key, ConfigIssue::UnknownRootKey { key: owned(key) }))
    }
}

fn check_credentials(connections: &NameMap<Connection>) -> (r: Result<(), ConfigError>)
    ensures
        check_outcome(r) == first_found(
            config::connections_of(*connections),
            credential_check(),
        ),
{
    let ghost all = config::connections_of(*connections);
    let ghost f = credential_check();
    let n: usize = connections.len();
    assert(all.take(0) =~= Seq::empty());
    let mut i: usize = 0;
    while i < n
        invariant
            i <= n,
            n == connections@.len(),
            all == config::connections_of(*connections),
            all.len() == n,
            f == credential_check(),
            first_found(all.take(i as int), f) is None,
        decreases n - i,
    {
        proof {
            lemma_found_step(all, i as int, f);
            if first_found(all.take(i as int + 1), f) is Some {
                lemma_first_found(all, i as int + 1, f);
            }
        }
        let one: &Connection = connections.value(i);
        assert(all[i as int] == (connections@[i as int].0, one@));
        match one.kind {
            ConnKind::Local => {
                if one.credential_ref.is_some() {
                    let key: String = text2("connections.", connections.name(i).as_str());
                    return Err(
                        ConfigError::schema(
                            dot(key.as_str(), "credential_ref").as_str(),
                            ConfigIssue::LocalCredentialsForbidden,
                        ),
                    );
                }
            },
            _ => {
                if one.credential_ref.is_none() {
                    let key: String = text2("connections.", connections.name(i).as_str());
                    return Err(
                        ConfigError::schema(
                            dot(key.as_str(), "credential_ref").as_str(),
                            ConfigIssue::CredentialRefRequired { kind: one.kind },
                        ),
                    );
                }
            },
        }
        i = i + 1;
    }
    assert(all.take(all.len() as int) =~= all);
    Ok(())
}

fn check_groups(connections: &NameMap<Connection>, groups: &NameMap<GroupDef>) -> (r: Result<
    (),
    ConfigError,
>)
    ensures
        check_outcome(r) == first_found(
            config::groups_of(*groups),
            group_check(config::connections_of(*connections)),
        ),
{
    let ghost all = config::groups_of(*groups);
    let ghost f = group_check(config::connections_of(*connections));
    let n: usize = groups.len();
    assert(all.take(0) =~= Seq::empty());
    let mut i: usize = 0;
    while i < n
        invariant
            i <= n,
            n == groups@.len(),
            all == config::groups_of(*groups),
            all.len() == n,
            f == group_check(config::connections_of(*connections)),
            first_found(all.take(i as int), f) is None,
        decreases n - i,
    {
        proof {
            lemma_found_step(all, i as int, f);
            if first_found(all.take(i as int + 1), f) is Some {
                lemma_first_found(all, i as int + 1, f);
            }
        }
        let one: &GroupDef = groups.value(i);
        assert(all[i as int] == (groups@[i as int].0, one@));
        let key: String = text3("models.groups.", groups.name(i).as_str(), ".model");
        match check_model_refs(connections, &one.model, key.as_str()) {
            Ok(_) => {},
            Err(e) => {
                return Err(e);
            },
        }
        i = i + 1;
    }
    assert(all.take(all.len() as int) =~= all);
    Ok(())
}

fn check_purpose(
    connections: &NameMap<Connection>,
    groups: &NameMap<GroupDef>,
    name: &str,
    purpose: &PurposeDef,
) -> (r: Result<(), ConfigError>)
    ensures
        check_outcome(r) == purpose_references(
            config::connections_of(*connections),
            config::groups_of(*groups),
            name@,
            purpose@,
        ),
{
    let key: String = text2("models.purposes.", name);
    match &purpose.group {
        Some(group) => {
            proof {
                names::lemma_lookup_through(
                    groups@,
                    group@,
                    config::group_view(),
                );
            }
            if !groups.contains(group.as_str()) {
                return Err(
                    ConfigError::schema(
                        text2(key.as_str(), ".group").as_str(),
                        ConfigIssue::UnknownGroupReference { group: group.clone() },
                    ),
                );
            }
        },
        None => {},
    }
    match &purpose.model {
        Some(model) => match check_model_refs(
            connections,
            model,
            text2(key.as_str(), ".model").as_str(),
        ) {
            Ok(_) => {},
            Err(e) => {
                return Err(e);
            },
        },
        None => {},
    }
    match &purpose.fallback {
        Some(fallback) => check_chain_refs(
            connections,
            fallback,
            text2(key.as_str(), ".fallback.chain").as_str(),
        ),
        None => Ok(()),
    }
}

fn check_purposes(
    connections: &NameMap<Connection>,
    groups: &NameMap<GroupDef>,
    purposes: &NameMap<PurposeDef>,
) -> (r: Result<(), ConfigError>)
    ensures
        check_outcome(r) == first_found(
            config::purposes_of(*purposes),
            purpose_check(
                config::connections_of(*connections),
                config::groups_of(*groups),
            ),
        ),
{
    let ghost all = config::purposes_of(*purposes);
    let ghost f = purpose_check(
        config::connections_of(*connections),
        config::groups_of(*groups),
    );
    let n: usize = purposes.len();
    assert(all.take(0) =~= Seq::empty());
    let mut i: usize = 0;
    while i < n
        invariant
            i <= n,
            n == purposes@.len(),
            all == config::purposes_of(*purposes),
            all.len() == n,
            f == purpose_check(
                config::connections_of(*connections),
                config::groups_of(*groups),
            ),
            first_found(all.take(i as int), f) is None,
        decreases n - i,
    {
        proof {
            lemma_found_step(all, i as int, f);
            if first_found(all.take(i as int + 1), f) is Some {
                lemma_first_found(all, i as int + 1, f);
            }
        }
        let one: &PurposeDef = purposes.value(i);
        assert(all[i as int] == (purposes@[i as int].0, one@));
        match check_purpose(connections, groups, purposes.name(i).as_str(), one) {
            Ok(_) => {},
            Err(e) => {
                return Err(e);
            },
        }
        i = i + 1;
    }
    assert(all.take(all.len() as int) =~= all);
    Ok(())
}

fn check_parts(parts: &Parts) -> (r: Result<(), ConfigError>)
    ensures
        check_outcome(r) == draft_problem(parts@),
{
    match parts.version {
        None => {
            return Err(reject_required("config_version", "config_version"));
        },
        Some(v) => {
            if v != 1 {
                return Err(
                    ConfigError::schema("config_version", ConfigIssue::UnsupportedConfigVersion),
                );
            }
        },
    }
    if parts.connections.len() == 0 {
        return Err(ConfigError::schema("connections", ConfigIssue::MissingConnections));
    }
    match check_credentials(&parts.connections) {
        Ok(_) => {},
        Err(e) => {
            return Err(e);
        },
    }
    let defaults: &Defaults = match &parts.models.defaults {
        Some(d) => d,
        None => {
            return Err(reject_required("models.defaults", "models.defaults"));
        },
    };
    match check_model_refs(&parts.connections, &defaults.model, "models.defaults.model") {
        Ok(_) => {},
        Err(e) => {
            return Err(e);
        },
    }
    match check_chain_refs(
        &parts.connections,
        &defaults.fallback,
        "models.defaults.fallback.chain",
    ) {
        Ok(_) => {},
        Err(e) => {
            return Err(e);
        },
    }
    match check_groups(&parts.connections, &parts.models.groups) {
        Ok(_) => {},
        Err(e) => {
            return Err(e);
        },
    }
    check_purposes(&parts.connections, &parts.models.groups, &parts.models.purposes)
}

/// The typed view of a document.
#[derive(Debug)]
pub struct TypedView {
    pub version: u64,
    pub workflow: Workflow,
    pub connections: NameMap<Connection>,
    pub models: Models,
}

impl View for TypedView {
    type V = Validated;

    open spec fn view(&self) -> Validated {
        Validated {
            version: self.version,
            workflow: self.workflow,
            connections: config::connections_of(self.connections),
            models: self.models@,
        }
    }
}

/// Validates a document and reads its typed view: entries in document order,
/// then the document as a whole.
pub fn validated_document(root: &Vec<(String, Toml)>) -> (r: Result<TypedView, ConfigError>)
    ensures
        outcome(r) == document_reading(document::entry_views(root@)),
{
    let mut parts: Parts = Parts {
        version: None,
        workflow: Workflow::default(),
        connections: NameMap::new(),
        models: Models::default(),
    };
    let ghost all = document::entry_views(root@);
    let ghost f = root_step();
    let ghost init = empty_draft();
    proof {
        document::lemma_entry_views(root@);
        assert(all.take(0) =~= Seq::empty());
        assert(parts@.connections =~= init.connections);
        assert(parts@.workflow == init.workflow);
    }
    let mut i: usize = 0;
    while i < root.len()
        invariant
            i <= root.len(),
            all == document::entry_views(root@),
            all.len() == root.len(),
            f == root_step(),
            init == empty_draft(),
            walk(all.take(i as int), init, f) == Ok::<Draft, Rejection>(parts@),
        decreases root.len() - i,
    {
        proof {
            document::lemma_entry_views(root@);
            lemma_walk_step(all, i as int, init, f);
        }
        match root_entry(parts, root[i].0.as_str(), &root[i].1) {
            Ok(next) => {
                parts = next;
            },
            Err(e) => {
                proof {
                    lemma_walk_err(all, i as int + 1, init, f);
                }
                return Err(e);
            },
        }
        i = i + 1;
    }
    assert(all.take(all.len() as int) =~= all);
    match check_parts(&parts) {
        Err(e) => Err(e),
        Ok(_) => Ok(
            TypedView {
                version: 1,
                workflow: parts.workflow,
                connections: parts.connections,
                models: parts.models,
            },
        ),
    }
}

// ----- what a valid document promises ---------------------------------------

/// Every name of a list is declared.
pub open spec fn all_declared(connections: ConnectionMap, names: Seq<Seq<char>>) -> bool {
    forall|i: int|
        0 <= i < names.len() ==> names::lookup(connections, #[trigger] names[i]) is Some
}

proof fn lemma_declared(connections: ConnectionMap, names: Seq<Seq<char>>, key: Seq<char>)
    requires
        first_found(names, reference_check(connections, key)) is None,
    ensures
        all_declared(connections, names),
{
    lemma_nothing_found(names, reference_check(connections, key));
    assert forall|i: int| 0 <= i < names.len() implies names::lookup(
        connections,
        #[trigger] names[i],
    ) is Some by {
        assert(reference_check(connections, key)(names[i]) is None);
    }
}

/// A document that validates is at version one, declares at least one
/// connection, carries credential references exactly where its kinds need
/// them, has defaults, and refers to declared connections and groups only.
pub proof fn law_validated_is_sound(e: Entries)
    requires
        document_reading(e) is Ok,
    ensures
        ({
            let v = document_reading(e)->Ok_0;
            &&& v.version == 1
            &&& v.connections.len() > 0
            &&& forall|i: int|
                0 <= i < v.connections.len() ==> ((#[trigger] v.connections[i]).1.credential_ref
                    is Some <==> v.connections[i].1.kind != ConnKind::Local)
            &&& v.models.defaults is Some
            &&& all_declared(v.connections, referenced(v.models.defaults->0.model))
            &&& all_declared(v.connections, chain_referenced(v.models.defaults->0.fallback))
            &&& forall|i: int|
                0 <= i < v.models.groups.len() ==> all_declared(
                    v.connections,
                    referenced((#[trigger] v.models.groups[i]).1),
                )
            &&& forall|i: int|
                0 <= i < v.models.purposes.len() ==> {
                    let p = (#[trigger] v.models.purposes[i]).1;
                    &&& p.group is Some ==> names::lookup(
                        v.models.groups,
                        p.group->0,
                    ) is Some
                    &&& p.model is Some ==> all_declared(v.connections, referenced(p.model->0))
                    &&& p.fallback is Some ==> all_declared(
                        v.connections,
                        chain_referenced(p.fallback->0),
                    )
                }
        }),
{
    let d = walk(e, empty_draft(), root_step())->Ok_0;
    let c = d.connections;
    let defaults = d.models.defaults->0;
    lemma_nothing_found(c, credential_check());
    assert forall|i: int| 0 <= i < c.len() implies ((#[trigger] c[i]).1.credential_ref is Some
        <==> c[i].1.kind != ConnKind::Local) by {
        assert(credential_check()(c[i]) is None);
    }
    lemma_declared(c, referenced(defaults.model), "models.defaults.model"@);
    lemma_declared(c, chain_referenced(defaults.fallback), "models.defaults.fallback.chain"@);
    let g = d.models.groups;
    lemma_nothing_found(g, group_check(c));
    assert forall|i: int| 0 <= i < g.len() implies all_declared(
        c,
        referenced((#[trigger] g[i]).1),
    ) by {
        assert(group_check(c)(g[i]) is None);
        lemma_declared(c, referenced(g[i].1), "models.groups."@ + g[i].0 + ".model"@);
    }
    let ps = d.models.purposes;
    lemma_nothing_found(ps, purpose_check(c, g));
    assert forall|i: int| 0 <= i < ps.len() implies {
        let p = (#[trigger] ps[i]).1;
        &&& p.group is Some ==> names::lookup(g, p.group->0) is Some
        &&& p.model is Some ==> all_declared(c, referenced(p.model->0))
        &&& p.fallback is Some ==> all_declared(c, chain_referenced(p.fallback->0))
    } by {
        assert(purpose_check(c, g)(ps[i]) is None);
        let p = ps[i].1;
        let key = "models.purposes."@ + ps[i].0;
        if p.model is Some {
            lemma_declared(c, referenced(p.model->0), key + ".model"@);
        }
        if p.fallback is Some {
            lemma_declared(c, chain_referenced(p.fallback->0), key + ".fallback.chain"@);
        }
    }
}

} // verus!
