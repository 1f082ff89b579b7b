//! The retained configuration: parsing, validation, purpose resolution and
//! edits that keep the document and its typed view together.

use crate::config::document::{
    self, copy_document, ensure_table_like, node_of, parse_document, render_document,
    root_entries, tree_of, NewValue, Toml, TomlView,
};
use crate::config::edit::{self, edit_target, target_path, type_mismatch, EditTarget, Target};
use crate::config::fields::{self, set_field};
use crate::config::schema::{
    self, connection, effort_assign, fallback_assign, model_assign, name_array,
    validated_document, Validated,
};
use crate::config::{
    self, effort_level_name, ConfigError, ConfigIssue, Connection, Defaults, EffortAssign,
    FallbackAssign, FallbackView, FixedModel, FixedView, ModelAssign, ModelView, Models,
    ModelsView, PurposeDef, PurposeView, Rejection, Workflow,
};
use crate::digest::{self, bytes_of, digest_hex};
use crate::names::{self, NameMap};
use crate::text::{self, owned, same, text2};
use toml_edit::DocumentMut;
use vstd::prelude::*;

verus! {

/// A typed value for one edit target.
#[derive(Debug)]
pub enum ConfigValue {
    Bool(bool),
    Model(ModelAssign),
    Effort(EffortAssign),
    Fallback(FallbackAssign),
    Names(Vec<String>),
}

/// The value of a [`ConfigValue`].
pub enum ConfigValueView {
    Bool(bool),
    Model(ModelView),
    Effort(EffortAssign),
    Fallback(FallbackView),
    Names(Seq<Seq<char>>),
}

impl View for ConfigValue {
    type V = ConfigValueView;

    open spec fn view(&self) -> ConfigValueView {
        match self {
            ConfigValue::Bool(b) => ConfigValueView::Bool(*b),
            ConfigValue::Model(m) => ConfigValueView::Model(m@),
            ConfigValue::Effort(e) => ConfigValueView::Effort(*e),
            ConfigValue::Fallback(f) => ConfigValueView::Fallback(f@),
            ConfigValue::Names(n) => ConfigValueView::Names(text::texts(n@)),
        }
    }
}

/// An accepted edit: the bytes of the edited document and their digest.
#[derive(Debug)]
pub struct ConfigEdit {
    pub bytes: Vec<u8>,
    pub digest: String,
}

/// The assignments of a purpose, each with the scope it comes from.
#[derive(Debug)]
pub struct ResolvedPurpose {
    pub model: ModelAssign,
    pub model_source: String,
    pub effort: EffortAssign,
    pub effort_source: String,
    pub fallback: FallbackAssign,
    pub fallback_source: String,
}

/// The value of a [`ResolvedPurpose`].
pub struct ResolvedView {
    pub model: ModelView,
    pub model_source: Seq<char>,
    pub effort: EffortAssign,
    pub effort_source: Seq<char>,
    pub fallback: FallbackView,
    pub fallback_source: Seq<char>,
}

impl View for ResolvedPurpose {
    type V = ResolvedView;

    open spec fn view(&self) -> ResolvedView {
        ResolvedView {
            model: self.model@,
            model_source: self.model_source@,
            effort: self.effort,
            effort_source: self.effort_source@,
            fallback: self.fallback@,
            fallback_source: self.fallback_source@,
        }
    }
}

/// A document that was parsed here, with the edits made since.
#[derive(Debug)]
pub struct Retained {
    document: Option<DocumentMut>,
}

impl Retained {
    /// The document, where there is one.
    pub closed spec fn held(self) -> Option<DocumentMut> {
        self.document
    }
}

/// A configuration: its typed view and the document it was read from.
#[derive(Debug)]
pub struct Config {
    pub version: u64,
    pub workflow: Workflow,
    pub connections: NameMap<Connection>,
    pub models: Models,
    /// The document the typed view was read from.
    pub raw: Retained,
}

/// The typed view of nothing.
pub open spec fn unread() -> Validated {
    Validated {
        version: 0,
        workflow: Workflow { enabled: None },
        connections: Seq::empty(),
        models: config::empty_models(),
    }
}

/// The root entries of a document.
pub open spec fn root_of(doc: DocumentMut) -> document::Entries {
    document::entries_of(document::document_state(doc).tree)
}

impl Config {
    /// The document the typed view was read from.
    pub open spec fn retained(self) -> Option<DocumentMut> {
        self.raw.held()
    }

    /// The typed view.
    pub open spec fn typed(self) -> Validated {
        Validated {
            version: self.version,
            workflow: self.workflow,
            connections: config::connections_of(self.connections),
            models: self.models@,
        }
    }
}

impl Clone for Config {
    fn clone(&self) -> (r: Self)
        ensures
            r.typed() == self.typed(),
            r.retained() == self.retained(),
    {
        let document: Option<DocumentMut> = match &self.raw.document {
            Some(doc) => Some(copy_document(doc)),
            None => None,
        };
        let defaults: Option<Defaults> = match &self.models.defaults {
            Some(d) => Some(d.clone()),
            None => None,
        };
        let r: Config = Config {
            version: self.version,
            workflow: self.workflow,
            connections: self.connections.copy(),
            models: Models {
                defaults,
                groups: self.models.groups.copy(),
                purposes: self.models.purposes.copy(),
            },
            raw: Retained { document },
        };
        assert(config::connections_of(r.connections) =~= config::connections_of(
            self.connections,
        ));
        assert(config::groups_of(r.models.groups) =~= config::groups_of(
            self.models.groups,
        ));
        assert(config::purposes_of(r.models.purposes) =~= config::purposes_of(
            self.models.purposes,
        ));
        r
    }
}

// ----- resolution -----------------------------------------------------------

/// The model of a purpose and the scope that assigns it: its own override,
/// then its group, then the defaults.
pub open spec fn model_resolution(
    models: ModelsView,
    defaults: ModelView,
    purpose: Seq<char>,
) -> Result<(ModelView, Seq<char>), Rejection> {
    let def = names::lookup(models.purposes, purpose);
    if def is Some && def->0.model is Some && !(def->0.model->0 is Inherit) {
        Ok((def->0.model->0, "models.purposes."@ + purpose))
    } else if def is Some && def->0.group is Some {
        let group = def->0.group->0;
        match names::lookup(models.groups, group) {
            Some(model) => Ok((model, "models.groups."@ + group)),
            None => Err(
                config::resolve_rejection(
                    "models.purposes."@ + purpose + ".group"@,
                    ConfigIssue::UnknownGroupReference { group },
                ),
            ),
        }
    } else {
        Ok((defaults, "models.defaults"@))
    }
}

/// The effort of a purpose and the scope that assigns it.
pub open spec fn effort_resolution(
    models: ModelsView,
    defaults: EffortAssign,
    purpose: Seq<char>,
) -> (EffortAssign, Seq<char>) {
    let def = names::lookup(models.purposes, purpose);
    if def is Some && def->0.effort is Some && !(def->0.effort->0 is Inherit) {
        (def->0.effort->0, "models.purposes."@ + purpose)
    } else {
        (defaults, "models.defaults"@)
    }
}

/// The fallback of a purpose and the scope that assigns it.
pub open spec fn fallback_resolution(
    models: ModelsView,
    defaults: FallbackView,
    purpose: Seq<char>,
) -> (FallbackView, Seq<char>) {
    let def = names::lookup(models.purposes, purpose);
    if def is Some && def->0.fallback is Some {
        (def->0.fallback->0, "models.purposes."@ + purpose)
    } else {
        (defaults, "models.defaults"@)
    }
}

/// The assignments of a purpose.
pub open spec fn purpose_resolution(models: ModelsView, purpose: Seq<char>) -> Result<
    ResolvedView,
    Rejection,
> {
    match models.defaults {
        None => Err(
            config::resolve_rejection(
                "models.defaults"@,
                ConfigIssue::Required { field: "models.defaults"@ },
            ),
        ),
        Some(d) => match model_resolution(models, d.model, purpose) {
            Err(e) => Err(e),
            Ok((model, model_source)) => {
                let (effort, effort_source) = effort_resolution(models, d.effort, purpose);
                let (fallback, fallback_source) = fallback_resolution(models, d.fallback, purpose);
                Ok(
                    ResolvedView {
                        model,
                        model_source,
                        effort,
                        effort_source,
                        fallback,
                        fallback_source,
                    },
                )
            },
        },
    }
}

/// In a validated configuration every purpose resolves, declared or not.
pub proof fn law_validated_resolves(e: document::Entries, purpose: Seq<char>)
    requires
        schema::document_reading(e) is Ok,
    ensures
        purpose_resolution(
            schema::document_reading(e)->Ok_0.models,
            purpose,
        ) is Ok,
{
    schema::law_validated_is_sound(e);
    let models = schema::document_reading(e)->Ok_0.models;
    let ps = models.purposes;
    lemma_lookup_member(ps, purpose);
}

/// What a lookup finds is an entry.
pub proof fn lemma_lookup_member<A>(s: Seq<(Seq<char>, A)>, key: Seq<char>)
    ensures
        names::lookup(s, key) is Some ==> exists|i: int|
            0 <= i < s.len() && (#[trigger] s[i]).0 == key && Some(s[i].1) == names::lookup(
                s,
                key,
            ),
    decreases s.len(),
{
    if s.len() > 0 {
        if s.last().0 == key {
            assert(s[s.len() - 1].0 == key);
        } else {
            let d = s.drop_last();
            lemma_lookup_member(d, key);
            if names::lookup(d, key) is Some {
                let i = choose|i: int|
                    0 <= i < d.len() && (#[trigger] d[i]).0 == key && Some(d[i].1)
                        == names::lookup(d, key);
                assert(s[i] == d[i]);
            }
        }
    }
}

// ----- equality of assignments ----------------------------------------------

pub(crate) fn same_opt_text(a: &Option<String>, b: &Option<String>) -> (r: bool)
    ensures
        r == (text::opt_text(*a) == text::opt_text(*b)),
{
    match (a, b) {
        (Some(x), Some(y)) => same(x.as_str(), y.as_str()),
        (None, None) => true,
        _ => false,
    }
}

pub(crate) fn same_names(a: &Vec<String>, b: &Vec<String>) -> (r: bool)
    ensures
        r == (text::texts(a@) == text::texts(b@)),
{
    if a.len() != b.len() {
        assert(text::texts(a@).len() != text::texts(b@).len());
        return false;
    }
    let mut i: usize = 0;
    while i < a.len()
        invariant
            i <= a.len(),
            a.len() == b.len(),
            forall|j: int| 0 <= j < i ==> (#[trigger] a@[j])@ == b@[j]@,
        decreases a.len() - i,
    {
        if !same(a[i].as_str(), b[i].as_str()) {
            assert(text::texts(a@)[i as int] != text::texts(b@)[i as int]);
            return false;
        }
        i = i + 1;
    }
    assert(text::texts(a@) =~= text::texts(b@));
    true
}

pub(crate) fn same_opt_names(a: &Option<Vec<String>>, b: &Option<Vec<String>>) -> (r: bool)
    ensures
        r == (config::opt_names(*a) == config::opt_names(*b)),
{
    match (a, b) {
        (Some(x), Some(y)) => same_names(x, y),
        (None, None) => true,
        _ => false,
    }
}

fn same_fixed(a: &FixedModel, b: &FixedModel) -> (r: bool)
    ensures
        r == (a@ == b@),
{
    same(a.connection.as_str(), b.connection.as_str()) && same(
        a.model_id.as_str(),
        b.model_id.as_str(),
    )
}

pub(crate) fn same_model(a: &ModelAssign, b: &ModelAssign) -> (r: bool)
    ensures
        r == (a@ == b@),
{
    match (a, b) {
        (ModelAssign::Inherit, ModelAssign::Inherit) => true,
        (ModelAssign::Auto { pool: x }, ModelAssign::Auto { pool: y }) => same_opt_names(x, y),
        (ModelAssign::Fixed(x), ModelAssign::Fixed(y)) => same_fixed(x, y),
        _ => false,
    }
}

fn same_chain(a: &Vec<FixedModel>, b: &Vec<FixedModel>) -> (r: bool)
    ensures
        r == (config::fixed_views(a@) == config::fixed_views(b@)),
{
    if a.len() != b.len() {
        assert(config::fixed_views(a@).len() != config::fixed_views(b@).len());
        return false;
    }
    let mut i: usize = 0;
    while i < a.len()
        invariant
            i <= a.len(),
            a.len() == b.len(),
            forall|j: int| 0 <= j < i ==> (#[trigger] a@[j])@ == b@[j]@,
        decreases a.len() - i,
    {
        if !same_fixed(&a[i], &b[i]) {
            assert(config::fixed_views(a@)[i as int] != config::fixed_views(
                b@,
            )[i as int]);
            return false;
        }
        i = i + 1;
    }
    assert(config::fixed_views(a@) =~= config::fixed_views(b@));
    true
}

fn same_fallback(a: &FallbackAssign, b: &FallbackAssign) -> (r: bool)
    ensures
        r == (a@ == b@),
{
    match (a, b) {
        (FallbackAssign::Auto { chain: x }, FallbackAssign::Auto { chain: y }) => same_chain(x, y),
        (FallbackAssign::Manual, FallbackAssign::Manual) => true,
        (FallbackAssign::Off, FallbackAssign::Off) => true,
        _ => false,
    }
}

fn same_opt_effort(a: Option<EffortAssign>, b: Option<EffortAssign>) -> (r: bool)
    ensures
        r == (a == b),
{
    match (a, b) {
        (Some(x), Some(y)) => x == y,
        (None, None) => true,
        _ => false,
    }
}

/// Whether two purposes carry the same overrides.
pub fn same_purpose(a: &PurposeDef, b: &PurposeDef) -> (r: bool)
    ensures
        r == (a@ == b@),
{
    let model: bool = match (&a.model, &b.model) {
        (Some(x), Some(y)) => same_model(x, y),
        (None, None) => true,
        _ => false,
    };
    let fallback: bool = match (&a.fallback, &b.fallback) {
        (Some(x), Some(y)) => same_fallback(x, y),
        (None, None) => true,
        _ => false,
    };
    let group: bool = same_opt_text(&a.group, &b.group);
    let effort: bool = same_opt_effort(a.effort, b.effort);
    let pool: bool = same_opt_names(&a.pool, &b.pool);
    let eligible: bool = same_opt_names(&a.eligible, &b.eligible);
    model && fallback && group && effort && pool && eligible
}

// ----- merging of purposes --------------------------------------------------

/// The purposes once the first `n` of another source have been merged in:
/// identical definitions are accepted, different ones conflict. A conflict
/// keeps what was merged before it.
pub open spec fn purposes_merged(
    own: Seq<(Seq<char>, PurposeView)>,
    other: Seq<(Seq<char>, PurposeView)>,
    n: nat,
) -> (Seq<(Seq<char>, PurposeView)>, Option<Rejection>)
    decreases n,
{
    if n == 0 || n > other.len() {
        (own, None)
    } else {
        let (before, problem) = purposes_merged(own, other, (n - 1) as nat);
        let (name, def) = other[n - 1];
        if problem is Some {
            (before, problem)
        } else {
            match names::lookup(before, name) {
                None => (names::set_key(before, name, def), None),
                Some(existing) => if existing == def {
                    (before, None)
                } else {
                    (
                        before,
                        Some(
                            config::resolve_rejection(
                                "models.purposes."@ + name,
                                ConfigIssue::ConflictingPurposeDefinitions,
                            ),
                        ),
                    )
                },
            }
        }
    }
}

proof fn lemma_merge_stops(
    own: Seq<(Seq<char>, PurposeView)>,
    other: Seq<(Seq<char>, PurposeView)>,
    n: nat,
    m: nat,
)
    requires
        n <= m <= other.len(),
        purposes_merged(own, other, n).1 is Some,
    ensures
        purposes_merged(own, other, m) == purposes_merged(own, other, n),
    decreases m,
{
    if n < m {
        lemma_merge_stops(own, other, n, (m - 1) as nat);
    }
}

// ----- edits ----------------------------------------------------------------

/// A value fits a target.
pub open spec fn fits(t: Target, v: ConfigValueView) -> bool {
    match v {
        ConfigValueView::Bool(_) => t is WorkflowEnabled,
        ConfigValueView::Model(_) => t is DefaultsModel || t is GroupModel || t is PurposeModel,
        ConfigValueView::Effort(_) => t is DefaultsEffort || t is PurposeEffort,
        ConfigValueView::Fallback(_) => t is DefaultsFallback || t is PurposeFallback,
        ConfigValueView::Names(_) => t is PurposeEligible,
    }
}

/// A list of words.
pub open spec fn words(names: Seq<Seq<char>>) -> TomlView {
    TomlView::List(names.map_values(|n: Seq<char>| TomlView::Text(n)))
}

/// A table of one fixed model.
pub open spec fn fixed_entries(m: FixedView) -> document::Entries {
    seq![
        ("mode"@, TomlView::Text("fixed"@)),
        ("connection"@, TomlView::Text(m.connection)),
        ("model_id"@, TomlView::Text(m.model_id)),
    ]
}

/// What a model assignment is written as.
pub open spec fn model_written(m: ModelView) -> TomlView {
    match m {
        ModelView::Inherit => TomlView::Inline(seq![("mode"@, TomlView::Text("inherit"@))]),
        ModelView::Auto { pool: None } => TomlView::Inline(
            seq![("mode"@, TomlView::Text("auto"@))],
        ),
        ModelView::Auto { pool: Some(names) } => TomlView::Inline(
            seq![("mode"@, TomlView::Text("auto"@)), ("pool"@, words(names))],
        ),
        ModelView::Fixed(fixed) => TomlView::Inline(fixed_entries(fixed)),
    }
}

/// What an effort assignment is written as.
pub open spec fn effort_written(e: EffortAssign) -> TomlView {
    match e {
        EffortAssign::Inherit => TomlView::Inline(seq![("mode"@, TomlView::Text("inherit"@))]),
        EffortAssign::Auto => TomlView::Inline(seq![("mode"@, TomlView::Text("auto"@))]),
        EffortAssign::Fixed { value } => TomlView::Inline(
            seq![
                ("mode"@, TomlView::Text("fixed"@)),
                ("value"@, TomlView::Text(config::level_name(value))),
            ],
        ),
    }
}

/// What a fallback assignment is written as.
pub open spec fn fallback_written(f: FallbackView) -> TomlView {
    match f {
        FallbackView::Auto { chain } => TomlView::Inline(
            seq![
                ("mode"@, TomlView::Text("auto"@)),
                (
                    "chain"@,
                    TomlView::List(
                        chain.map_values(|m: FixedView| TomlView::Inline(fixed_entries(m))),
                    ),
                ),
            ],
        ),
        FallbackView::Manual => TomlView::Inline(seq![("mode"@, TomlView::Text("manual"@))]),
        FallbackView::Off => TomlView::Inline(seq![("mode"@, TomlView::Text("off"@))]),
    }
}

/// What a value is written as.
pub open spec fn written(v: ConfigValueView) -> TomlView {
    match v {
        ConfigValueView::Bool(b) => TomlView::Flag(b),
        ConfigValueView::Model(m) => model_written(m),
        ConfigValueView::Effort(e) => effort_written(e),
        ConfigValueView::Fallback(f) => fallback_written(f),
        ConfigValueView::Names(names) => words(names),
    }
}

fn word(s: &str) -> (r: NewValue)
    ensures
        r@ == TomlView::Text(s@),
        document::well_keyed(r),
{
    NewValue::Word(owned(s))
}

/// The field names of the assignment tables differ.
pub proof fn lemma_distinct_names()
    ensures
        "mode"@ != "connection"@,
        "mode"@ != "model_id"@,
        "connection"@ != "model_id"@,
        "mode"@ != "pool"@,
        "mode"@ != "value"@,
        "mode"@ != "chain"@,
{
    reveal_strlit("mode");
    reveal_strlit("connection");
    reveal_strlit("model_id");
    reveal_strlit("pool");
    reveal_strlit("value");
    reveal_strlit("chain");
    assert("mode"@.len() == 4 && "connection"@.len() == 10 && "model_id"@.len() == 8);
    assert("pool"@[0] == 'p' && "mode"@[0] == 'm');
    assert("value"@.len() == 5 && "chain"@.len() == 5);
}

fn fields1(a: &str, x: NewValue) -> (r: NewValue)
    requires
        document::well_keyed(x),
        !(x@ is Inline),
    ensures
        r@ == TomlView::Inline(seq![(a@, x@)]),
        document::well_keyed(r),
{
    let ghost v = x;
    let fields: Vec<(String, NewValue)> = vec![(owned(a), x)];
    proof {
        document::lemma_well_keyed_fields(fields@);
        document::lemma_fresh_fields(fields@);
        assert(document::fresh_fields(fields@) =~= seq![(a@, v@)]);
    }
    NewValue::Fields(fields)
}

fn fields2(a: &str, x: NewValue, b: &str, y: NewValue) -> (r: NewValue)
    requires
        a@ != b@,
        document::well_keyed(x),
        !(x@ is Inline),
        document::well_keyed(y),
        !(y@ is Inline),
    ensures
        r@ == TomlView::Inline(seq![(a@, x@), (b@, y@)]),
        document::well_keyed(r),
{
    let ghost v = x;
    let ghost w = y;
    let fields: Vec<(String, NewValue)> = vec![(owned(a), x), (owned(b), y)];
    proof {
        document::lemma_well_keyed_fields(fields@);
        document::lemma_fresh_fields(fields@);
        assert(document::fresh_fields(fields@) =~= seq![(a@, v@), (b@, w@)]);
    }
    NewValue::Fields(fields)
}

fn fixed_value(m: &FixedModel) -> (r: NewValue)
    ensures
        r@ == TomlView::Inline(fixed_entries(m@)),
        document::well_keyed(r),
{
    let fields: Vec<(String, NewValue)> = vec![
        (owned("mode"), word("fixed")),
        (owned("connection"), word(m.connection.as_str())),
        (owned("model_id"), word(m.model_id.as_str())),
    ];
    proof {
        lemma_distinct_names();
        document::lemma_well_keyed_fields(fields@);
        document::lemma_fresh_fields(fields@);
        assert(document::fresh_fields(fields@) =~= fixed_entries(m@));
    }
    NewValue::Fields(fields)
}

fn words_value(names: &Vec<String>) -> (r: NewValue)
    ensures
        r@ == words(text::texts(names@)),
        document::well_keyed(r),
{
    let mut items: Vec<NewValue> = Vec::new();
    let mut i: usize = 0;
    let ghost want = text::texts(names@).map_values(|n: Seq<char>| TomlView::Text(n));
    assert(want.take(0) =~= Seq::empty());
    while i < names.len()
        invariant
            i <= names.len(),
            want == text::texts(names@).map_values(|n: Seq<char>| TomlView::Text(n)),
            document::fresh_list(items@) == want.take(i as int),
            document::well_keyed_list(items@),
        decreases names.len() - i,
    {
        let ghost before = items@;
        items.push(word(names[i].as_str()));
        assert(items@.drop_last() =~= before);
        assert(want.take(i as int + 1) =~= want.take(i as int).push(TomlView::Text(names@[i as int]@)));
        i = i + 1;
    }
    assert(want.take(want.len() as int) =~= want);
    NewValue::List(items)
}

fn chain_value(chain: &Vec<FixedModel>) -> (r: NewValue)
    ensures
        r@ == TomlView::List(
            config::fixed_views(chain@).map_values(
                |m: FixedView| TomlView::Inline(fixed_entries(m)),
            ),
        ),
        document::well_keyed(r),
{
    let mut items: Vec<NewValue> = Vec::new();
    let mut i: usize = 0;
    let ghost want = config::fixed_views(chain@).map_values(
        |m: FixedView| TomlView::Inline(fixed_entries(m)),
    );
    assert(want.take(0) =~= Seq::empty());
    while i < chain.len()
        invariant
            i <= chain.len(),
            want == config::fixed_views(chain@).map_values(
                |m: FixedView| TomlView::Inline(fixed_entries(m)),
            ),
            document::fresh_list(items@) == want.take(i as int),
            document::well_keyed_list(items@),
        decreases chain.len() - i,
    {
        let ghost before = items@;
        items.push(fixed_value(&chain[i]));
        assert(items@.drop_last() =~= before);
        assert(want.take(i as int + 1) =~= want.take(i as int).push(
            TomlView::Inline(fixed_entries(chain@[i as int]@)),
        ));
        i = i + 1;
    }
    assert(want.take(want.len() as int) =~= want);
    NewValue::List(items)
}

/// What a model assignment is written as.
pub fn model_item(model: &ModelAssign) -> (r: NewValue)
    ensures
        r@ == model_written(model@),
        document::well_keyed(r),
{
    proof {
        lemma_distinct_names();
    }
    match model {
        ModelAssign::Inherit => fields1("mode", word("inherit")),
        ModelAssign::Auto { pool } => match pool {
            None => fields1("mode", word("auto")),
            Some(names) => fields2("mode", word("auto"), "pool", words_value(names)),
        },
        ModelAssign::Fixed(fixed) => fixed_value(fixed),
    }
}

/// What an effort assignment is written as.
pub fn effort_item(effort: EffortAssign) -> (r: NewValue)
    ensures
        r@ == effort_written(effort),
        document::well_keyed(r),
{
    proof {
        lemma_distinct_names();
    }
    match effort {
        EffortAssign::Inherit => fields1("mode", word("inherit")),
        EffortAssign::Auto => fields1("mode", word("auto")),
        EffortAssign::Fixed { value } => fields2(
            "mode",
            word("fixed"),
            "value",
            word(effort_level_name(value)),
        ),
    }
}

/// What a fallback assignment is written as.
pub fn fallback_item(fallback: &FallbackAssign) -> (r: NewValue)
    ensures
        r@ == fallback_written(fallback@),
        document::well_keyed(r),
{
    proof {
        lemma_distinct_names();
    }
    match fallback {
        FallbackAssign::Auto { chain } => fields2("mode", word("auto"), "chain", chain_value(chain)),
        FallbackAssign::Manual => fields1("mode", word("manual")),
        FallbackAssign::Off => fields1("mode", word("off")),
    }
}

// ----- validation of one target ---------------------------------------------

/// A declared connection that is itself malformed.
pub open spec fn declared_check(conns: document::Entries) -> spec_fn(
    Seq<char>,
) -> Option<Rejection> {
    |name: Seq<char>|
        match document::entry(conns, name) {
            Some(item) => match schema::connection_reading(name, item) {
                Ok(_) => None,
                Err(e) => Some(e),
            },
            None => None,
        }
}

/// A name that no connection of the document carries.
pub open spec fn undeclared_check(
    conns: document::Entries,
    key: Seq<char>,
) -> spec_fn(Seq<char>) -> Option<Rejection> {
    |name: Seq<char>|
        if document::entry(conns, name) is Some {
            None
        } else {
            Some(
                config::schema_rejection(
                    key,
                    ConfigIssue::UnknownConnectionReference { connection: name },
                ),
            )
        }
}

/// What is wrong with the connections an assignment refers to; a document
/// without a connections table is not asked.
pub open spec fn reference_problem(tree: TomlView, names: Seq<Seq<char>>, key: Seq<char>) -> Option<
    Rejection,
> {
    match document::child(tree, "connections"@) {
        None => None,
        Some(t) => if !document::table_like(t) {
            None
        } else {
            let conns = document::entries_of(t);
            match schema::first_found(names, declared_check(conns)) {
                Some(e) => Some(e),
                None => schema::first_found(names, undeclared_check(conns, key)),
            }
        },
    }
}

/// What is wrong with the value that stands at a target. Only the target is
/// looked at, so that a broken entry elsewhere never blocks an edit.
pub open spec fn target_problem(tree: TomlView, target: Target, key: Seq<char>) -> Option<
    Rejection,
> {
    let p = edit::target_table(target).push(
        edit::target_field(target),
    );
    match document::node_at(tree, p) {
        None => None,
        Some(item) => match target {
            EditTarget::WorkflowEnabled => if item is Flag {
                None
            } else {
                Some(
                    config::schema_rejection(key, ConfigIssue::WorkflowEnabledNotBoolean),
                )
            },
            EditTarget::DefaultsModel | EditTarget::GroupModel(_) | EditTarget::PurposeModel(_) =>
                match schema::model_reading(item, key) {
                    Err(e) => Some(e),
                    Ok(m) => reference_problem(tree, schema::referenced(m), key),
                },
            EditTarget::DefaultsEffort | EditTarget::PurposeEffort(_) =>
                match schema::effort_reading(item, key) {
                    Err(e) => Some(e),
                    Ok(_) => None,
                },
            EditTarget::DefaultsFallback | EditTarget::PurposeFallback(_) =>
                match schema::fallback_reading(item, key) {
                    Err(e) => Some(e),
                    Ok(f) => reference_problem(
                        tree,
                        schema::chain_referenced(f),
                        key,
                    ),
                },
            EditTarget::PurposeEligible(_) => match schema::names_reading(
                item,
                key,
                schema::eligible_not_array(),
                schema::eligible_entry_not_string(),
            ) {
                Err(e) => Some(e),
                Ok(_) => None,
            },
        },
    }
}

fn check_references(tree: &Toml, names: &Vec<String>, key: &str) -> (r: Result<(), ConfigError>)
    ensures
        schema::check_outcome(r) == reference_problem(
            tree@,
            text::texts(names@),
            key@,
        ),
{
    let conns: &Vec<(String, Toml)> = match tree.get("connections") {
        None => {
            return Ok(());
        },
        Some(t) => match t.entries() {
            None => {
                return Ok(());
            },
            Some(e) => e,
        },
    };
    let ghost all = text::texts(names@);
    let ghost ce = document::entry_views(conns@);
    let ghost f = declared_check(ce);
    let ghost g = undeclared_check(ce, key@);
    assert(all.take(0) =~= Seq::empty());
    let mut i: usize = 0;
    while i < names.len()
        invariant
            i <= names.len(),
            all == text::texts(names@),
            ce == document::entry_views(conns@),
            f == declared_check(ce),
            document::child(tree@, "connections"@) is Some,
            document::table_like(
                document::child(tree@, "connections"@)->0,
            ),
            ce == document::entries_of(
                document::child(tree@, "connections"@)->0,
            ),
            schema::first_found(all.take(i as int), f) is None,
        decreases names.len() - i,
    {
        proof {
            schema::lemma_found_step(all, i as int, f);
            if schema::first_found(all.take(i as int + 1), f) is Some {
                schema::lemma_first_found(all, i as int + 1, f);
            }
        }
        match document::find_entry(conns, names[i].as_str()) {
            Some(item) => match connection(names[i].as_str(), item) {
                Ok(_) => {},
                Err(e) => {
                    return Err(e);
                },
            },
            None => {},
        }
        i = i + 1;
    }
    assert(all.take(all.len() as int) =~= all);
    i = 0;
    while i < names.len()
        invariant
            i <= names.len(),
            all == text::texts(names@),
            ce == document::entry_views(conns@),
            f == declared_check(ce),
            g == undeclared_check(ce, key@),
            document::child(tree@, "connections"@) is Some,
            document::table_like(
                document::child(tree@, "connections"@)->0,
            ),
            ce == document::entries_of(
                document::child(tree@, "connections"@)->0,
            ),
            schema::first_found(all, f) is None,
            schema::first_found(all.take(i as int), g) is None,
        decreases names.len() - i,
    {
        proof {
            schema::lemma_found_step(all, i as int, g);
            if schema::first_found(all.take(i as int + 1), g) is Some {
                schema::lemma_first_found(all, i as int + 1, g);
            }
        }
        if document::find_entry(conns, names[i].as_str()).is_none() {
            return Err(
                ConfigError::schema(
                    key,
                    ConfigIssue::UnknownConnectionReference { connection: names[i].clone() },
                ),
            );
        }
        i = i + 1;
    }
    Ok(())
}

/// Every connection a model assignment refers to must be declared and well
/// formed.
pub fn validate_model_reference(tree: &Toml, assignment: &ModelAssign, key: &str) -> (r: Result<
    (),
    ConfigError,
>)
    ensures
        schema::check_outcome(r) == reference_problem(
            tree@,
            schema::referenced(assignment@),
            key@,
        ),
{
    let names: Vec<String> = schema::model_reference_names(assignment);
    check_references(tree, &names, key)
}

/// Every connection a fallback chain refers to must be declared and well
/// formed.
pub fn validate_fallback_reference(tree: &Toml, assignment: &FallbackAssign, key: &str) -> (r:
    Result<(), ConfigError>)
    ensures
        schema::check_outcome(r) == reference_problem(
            tree@,
            schema::chain_referenced(assignment@),
            key@,
        ),
{
    let names: Vec<String> = schema::chain_reference_names(assignment);
    check_references(tree, &names, key)
}

/// Validates the value that stands at a target, and nothing else.
pub fn validate_target(tree: &Toml, target: &EditTarget, key: &str) -> (r: Result<(), ConfigError>)
    ensures
        schema::check_outcome(r) == target_problem(tree@, target@, key@),
{
    let (path, field): (Vec<String>, &'static str) = target_path(target);
    proof {
        let p = document::path_of(path);
        assert(p.take(path@.len() as int) =~= p);
        document::lemma_child_path(tree@, p, field@);
    }
    let item: &Toml = match node_of(tree, &path, path.len()) {
        None => {
            return Ok(());
        },
        Some(node) => match node.get(field) {
            None => {
                return Ok(());
            },
            Some(item) => item,
        },
    };
    match target {
        EditTarget::WorkflowEnabled => match item {
            Toml::Flag(_) => Ok(()),
            _ => Err(ConfigError::schema(key, ConfigIssue::WorkflowEnabledNotBoolean)),
        },
        EditTarget::DefaultsModel | EditTarget::GroupModel(_) | EditTarget::PurposeModel(_) =>
            match model_assign(item, key) {
                Err(e) => Err(e),
                Ok(m) => validate_model_reference(tree, &m, key),
            },
        EditTarget::DefaultsEffort | EditTarget::PurposeEffort(_) => match effort_assign(
            item,
            key,
        ) {
            Err(e) => Err(e),
            Ok(_) => Ok(()),
        },
        EditTarget::DefaultsFallback | EditTarget::PurposeFallback(_) => match fallback_assign(
            item,
            key,
        ) {
            Err(e) => Err(e),
            Ok(f) => validate_fallback_reference(tree, &f, key),
        },
        EditTarget::PurposeEligible(_) => match name_array(
            item,
            key,
            ConfigIssue::EligibleNotArray,
            ConfigIssue::EligibleEntryNotString,
        ) {
            Err(e) => Err(e),
            Ok(_) => Ok(()),
        },
    }
}

// ----- the retained configuration -------------------------------------------

/// The typed view after an edit: that of the edited document when it is valid
/// as a whole, else the one before.
pub open spec fn refreshed(before: Validated, tree: TomlView) -> Validated {
    match schema::document_reading(document::entries_of(tree)) {
        Ok(v) => v,
        Err(_) => before,
    }
}

/// The edit that reports a document.
pub open spec fn reports(edit: ConfigEdit, doc: DocumentMut) -> bool {
    &&& edit.bytes@ == vstd::utf8::encode_utf8(document::document_text(doc))
    &&& edit.digest@ == digest::digest_text(edit.bytes@)
}

/// The document with a value set at a target, or why it cannot be.
pub open spec fn set_outcome(
    raw: Option<DocumentMut>,
    key: Seq<char>,
    v: ConfigValueView,
) -> Result<document::DocState, Rejection> {
    match edit::target_reading(key) {
        Err(e) => Err(e),
        Ok(target) => {
            let table = edit::target_table(target);
            let p = table.push(edit::target_field(target));
            if !fits(target, v) {
                Err(
                    config::schema_rejection(key, ConfigIssue::ValueTypeMismatch { key }),
                )
            } else if raw is None {
                Err(config::schema_rejection(key, ConfigIssue::NoRetainedDocument))
            } else {
                match document::with_table(
                    document::document_state(raw->0),
                    table,
                ) {
                    None => Err(schema::expected_table(key)),
                    Some(s) => {
                        let edited = fields::field_set(s, p, written(v));
                        match target_problem(edited.tree, target, key) {
                            Some(e) => Err(e),
                            None => Ok(edited),
                        }
                    },
                }
            }
        },
    }
}

/// The document with a target reset, or why it cannot be.
pub open spec fn reset_outcome(raw: Option<DocumentMut>, key: Seq<char>) -> Result<
    document::DocState,
    Rejection,
> {
    match edit::target_reading(key) {
        Err(e) => Err(e),
        Ok(target) => if !edit::overrides(target) {
            Err(
                config::schema_rejection(key, ConfigIssue::RequiredNotResettable { key }),
            )
        } else if raw is None {
            Err(config::schema_rejection(key, ConfigIssue::NoRetainedDocument))
        } else {
            let s = document::document_state(raw->0);
            let table = edit::target_table(target);
            if document::table_at(s.tree, table) {
                Ok(
                    document::state_remove(
                        s,
                        table.push(edit::target_field(target)),
                    ),
                )
            } else {
                Ok(s)
            }
        },
    }
}

impl Default for Config {
    fn default() -> (r: Self)
        ensures
            r.typed() == unread(),
            r.retained() is None,
    {
        let r: Config = Config {
            version: 0,
            workflow: Workflow::default(),
            connections: NameMap::new(),
            models: Models::default(),
            raw: Retained { document: None },
        };
        assert(config::connections_of(r.connections) =~= Seq::empty());
        r
    }
}

impl Config {
    /// Syntax only: malformed TOML and duplicate keys are rejected here,
    /// everything typed waits for [`Config::validate`].
    pub fn parse(text: &str) -> (r: Result<Self, ConfigError>)
        ensures
            match r {
                Ok(c) => c.retained() is Some && document::parsed_document(text@) == Ok::<
                    DocumentMut,
                    Seq<char>,
                >(c.retained()->0) && c.typed() == unread(),
                Err(e) => document::parsed_document(text@) is Err && e@
                    == config::parse_rejection(
                    document::parsed_document(text@)->Err_0,
                ),
            },
    {
        match parse_document(text) {
            Ok(doc) => {
                let mut config: Config = Config::default();
                config.raw = Retained { document: Some(doc) };
                Ok(config)
            },
            Err(message) => Err(ConfigError::parse(message)),
        }
    }

    /// Validates the retained document and takes its typed view; a rejected
    /// document leaves the view as it was.
    pub fn validate(&mut self) -> (r: Result<(), ConfigError>)
        ensures
            final(self).retained() == old(self).retained(),
            match old(self).retained() {
                None => r is Ok && *final(self) == *old(self),
                Some(doc) => match schema::document_reading(root_of(doc)) {
                    Ok(v) => r is Ok && final(self).typed() == v,
                    Err(e) => r is Err && r->Err_0@ == e && *final(self) == *old(self),
                },
            },
    {
        let root: Vec<(String, Toml)> = match &self.raw.document {
            None => {
                return Ok(());
            },
            Some(doc) => root_entries(doc),
        };
        match validated_document(&root) {
            Err(e) => Err(e),
            Ok(view) => {
                self.version = view.version;
                self.workflow = view.workflow;
                self.connections = view.connections;
                self.models = view.models;
                Ok(())
            },
        }
    }

    /// Parses and validates a document.
    pub fn parse_validated(text: &str) -> (r: Result<Self, ConfigError>)
        ensures
            match document::parsed_document(text@) {
                Err(m) => r is Err && r->Err_0@ == config::parse_rejection(m),
                Ok(doc) => match schema::document_reading(root_of(doc)) {
                    Err(e) => r is Err && r->Err_0@ == e,
                    Ok(v) => r is Ok && r->Ok_0.typed() == v && r->Ok_0.retained() == Some(doc),
                },
            },
    {
        match Config::parse(text) {
            Err(e) => Err(e),
            Ok(mut config) => match config.validate() {
                Err(e) => Err(e),
                Ok(_) => Ok(config),
            },
        }
    }

    /// The assignments of a purpose: its own override, then the one group it
    /// is bound to, then the defaults; an explicit `inherit` looks further out.
    pub fn resolve_purpose(&self, purpose: &str) -> (r: Result<ResolvedPurpose, ConfigError>)
        ensures
            schema::outcome(r) == purpose_resolution(self.models@, purpose@),
    {
        let defaults: &Defaults = match &self.models.defaults {
            Some(d) => d,
            None => {
                return Err(
                    ConfigError::resolve(
                        "models.defaults",
                        ConfigIssue::Required { field: owned("models.defaults") },
                    ),
                );
            },
        };
        proof {
            names::lemma_lookup_through(
                self.models.purposes@,
                purpose@,
                config::purpose_view(),
            );
        }
        let own: String = text2("models.purposes.", purpose);
        let def: Option<&PurposeDef> = self.models.purposes.get(purpose);
        let mut model: ModelAssign = defaults.model.clone();
        let mut model_source: String = owned("models.defaults");
        let mut effort: EffortAssign = defaults.effort;
        let mut effort_source: String = owned("models.defaults");
        let mut fallback: FallbackAssign = defaults.fallback.clone();
        let mut fallback_source: String = owned("models.defaults");
        match def {
            None => {},
            Some(d) => {
                let overridden: bool = match &d.model {
                    Some(ModelAssign::Inherit) => false,
                    Some(_) => true,
                    None => false,
                };
                match (&d.model, &d.group) {
                    (Some(m), _) if overridden => {
                        model = m.clone();
                        model_source = own.clone();
                    },
                    (_, Some(group)) => {
                        proof {
                            names::lemma_lookup_through(
                                self.models.groups@,
                                group@,
                                config::group_view(),
                            );
                        }
                        match self.models.groups.get(group.as_str()) {
                            Some(g) => {
                                model = g.model.clone();
                                model_source = text2("models.groups.", group.as_str());
                            },
                            None => {
                                return Err(
                                    ConfigError::resolve(
                                        text2(own.as_str(), ".group").as_str(),
                                        ConfigIssue::UnknownGroupReference {
                                            group: group.clone(),
                                        },
                                    ),
                                );
                            },
                        }
                    },
                    _ => {},
                }
                match d.effort {
                    Some(EffortAssign::Inherit) => {},
                    Some(e) => {
                        effort = e;
                        effort_source = own.clone();
                    },
                    None => {},
                }
                match &d.fallback {
                    Some(f) => {
                        fallback = f.clone();
                        fallback_source = own.clone();
                    },
                    None => {},
                }
            },
        }
        Ok(
            ResolvedPurpose {
                model,
                model_source,
                effort,
                effort_source,
                fallback,
                fallback_source,
            },
        )
    }

    /// Merges the purposes of another source into this one: a replayed
    /// definition is accepted, two different ones for a purpose conflict.
    pub fn merge_purposes(&mut self, other: &Config) -> (r: Result<(), ConfigError>)
        ensures
            ({
                let (merged, problem) = purposes_merged(
                    old(self).models@.purposes,
                    other.models@.purposes,
                    other.models@.purposes.len(),
                );
                &&& schema::check_outcome(r) == problem
                &&& final(self).models@.purposes == merged
            }),
            final(self).models@.defaults == old(self).models@.defaults,
            final(self).models@.groups == old(self).models@.groups,
            final(self).version == old(self).version,
            final(self).workflow == old(self).workflow,
            final(self).connections == old(self).connections,
            final(self).retained() == old(self).retained(),
    {
        let ghost own = self.models@.purposes;
        let ghost all = other.models@.purposes;
        let n: usize = other.models.purposes.len();
        let mut i: usize = 0;
        while i < n
            invariant
                i <= n,
                n == all.len(),
                all == other.models@.purposes,
                n == other.models.purposes@.len(),
                own == old(self).models@.purposes,
                purposes_merged(own, all, i as nat) == (
                    self.models@.purposes,
                    None::<Rejection>,
                ),
                self.models@.defaults == old(self).models@.defaults,
                self.models@.groups == old(self).models@.groups,
                self.version == old(self).version,
                self.workflow == old(self).workflow,
                self.connections == old(self).connections,
                self.retained() == old(self).retained(),
            decreases n - i,
        {
            let name: &String = other.models.purposes.name(i);
            let def: &PurposeDef = other.models.purposes.value(i);
            proof {
                assert(all[i as int] == (name@, def@));
                names::lemma_lookup_through(
                    self.models.purposes@,
                    name@,
                    config::purpose_view(),
                );
            }
            let known: Option<bool> = match self.models.purposes.get(name.as_str()) {
                Some(existing) => Some(same_purpose(existing, def)),
                None => None,
            };
            match known {
                Some(same_def) => {
                    if !same_def {
                        proof {
                            lemma_merge_stops(own, all, (i + 1) as nat, all.len());
                        }
                        return Err(
                            ConfigError::resolve(
                                text2("models.purposes.", name.as_str()).as_str(),
                                ConfigIssue::ConflictingPurposeDefinitions,
                            ),
                        );
                    }
                },
                None => {
                    let copy: PurposeDef = def.clone();
                    proof {
                        names::lemma_set_key_through(
                            self.models.purposes@,
                            name@,
                            copy,
                            config::purpose_view(),
                        );
                    }
                    self.models.purposes.insert(name.clone(), copy);
                },
            }
            i = i + 1;
        }
        Ok(())
    }

    /// Takes the typed view of the retained document when it is valid as a
    /// whole; a value that is still rejected elsewhere keeps the view.
    fn refresh_view_if_valid(&mut self)
        requires
            old(self).retained() is Some,
        ensures
            final(self).retained() == old(self).retained(),
            final(self).typed() == refreshed(
                old(self).typed(),
                document::document_state(old(self).retained()->0).tree,
            ),
    {
        match self.validate() {
            Ok(_) => {},
            Err(_) => {},
        }
    }

    /// Reports the retained document.
    fn finish_edit(&self) -> (r: ConfigEdit)
        requires
            self.retained() is Some,
        ensures
            reports(r, self.retained()->0),
    {
        let text: String = match &self.raw.document {
            Some(doc) => render_document(doc),
            None => String::new(),
        };
        let bytes: Vec<u8> = bytes_of(text.as_str());
        let digest: String = digest_hex(bytes.as_slice());
        ConfigEdit { bytes, digest }
    }

    /// Sets a typed value at the target a key names. The edited document must
    /// hold a valid value there; a refused edit leaves everything as it was.
    pub fn set(&mut self, key: &str, value: ConfigValue) -> (r: Result<ConfigEdit, ConfigError>)
        ensures
            match set_outcome(old(self).retained(), key@, value@) {
                Err(e) => r is Err && r->Err_0@ == e && *final(self) == *old(self),
                Ok(state) => {
                    &&& r is Ok
                    &&& final(self).retained() is Some
                    &&& document::document_state(final(self).retained()->0) == state
                    &&& final(self).typed() == refreshed(old(self).typed(), state.tree)
                    &&& reports(r->Ok_0, final(self).retained()->0)
                },
            },
    {
        let target: EditTarget = match edit_target(key) {
            Ok(t) => t,
            Err(e) => {
                return Err(e);
            },
        };
        let fit: bool = match (&value, &target) {
            (ConfigValue::Bool(_), EditTarget::WorkflowEnabled) => true,
            (ConfigValue::Model(_), EditTarget::DefaultsModel) => true,
            (ConfigValue::Model(_), EditTarget::GroupModel(_)) => true,
            (ConfigValue::Model(_), EditTarget::PurposeModel(_)) => true,
            (ConfigValue::Effort(_), EditTarget::DefaultsEffort) => true,
            (ConfigValue::Effort(_), EditTarget::PurposeEffort(_)) => true,
            (ConfigValue::Fallback(_), EditTarget::DefaultsFallback) => true,
            (ConfigValue::Fallback(_), EditTarget::PurposeFallback(_)) => true,
            (ConfigValue::Names(_), EditTarget::PurposeEligible(_)) => true,
            _ => false,
        };
        if !fit {
            return Err(type_mismatch(key));
        }
        let item: NewValue = match &value {
            ConfigValue::Bool(b) => NewValue::Flag(*b),
            ConfigValue::Model(m) => model_item(m),
            ConfigValue::Effort(e) => effort_item(*e),
            ConfigValue::Fallback(f) => fallback_item(f),
            ConfigValue::Names(names) => words_value(names),
        };
        let mut doc: DocumentMut = match &self.raw.document {
            Some(doc) => copy_document(doc),
            None => {
                return Err(ConfigError::schema(key, ConfigIssue::NoRetainedDocument));
            },
        };
        let (path, field): (Vec<String>, &'static str) = target_path(&target);
        if !ensure_table_like(&mut doc, &path) {
            return Err(
                ConfigError::schema(key, ConfigIssue::ExpectedTable { key: owned(key) }),
            );
        }
        set_field(&mut doc, &path, field, &item);
        let tree: Toml = tree_of(&doc);
        match validate_target(&tree, &target, key) {
            Err(e) => Err(e),
            Ok(_) => {
                self.raw = Retained { document: Some(doc) };
                self.refresh_view_if_valid();
                Ok(self.finish_edit())
            },
        }
    }

    /// Removes the override a key names. Required settings cannot be reset.
    pub fn reset(&mut self, key: &str) -> (r: Result<ConfigEdit, ConfigError>)
        ensures
            match reset_outcome(old(self).retained(), key@) {
                Err(e) => r is Err && r->Err_0@ == e && *final(self) == *old(self),
                Ok(state) => {
                    &&& r is Ok
                    &&& final(self).retained() is Some
                    &&& document::document_state(final(self).retained()->0) == state
                    &&& final(self).typed() == refreshed(old(self).typed(), state.tree)
                    &&& reports(r->Ok_0, final(self).retained()->0)
                },
            },
    {
        let target: EditTarget = match edit_target(key) {
            Ok(t) => t,
            Err(e) => {
                return Err(e);
            },
        };
        if !target.is_override() {
            return Err(
                ConfigError::schema(key, ConfigIssue::RequiredNotResettable { key: owned(key) }),
            );
        }
        let mut doc: DocumentMut = match &self.raw.document {
            Some(doc) => copy_document(doc),
            None => {
                return Err(ConfigError::schema(key, ConfigIssue::NoRetainedDocument));
            },
        };
        let (path, field): (Vec<String>, &'static str) = target_path(&target);
        let tree: Toml = tree_of(&doc);
        proof {
            let p = document::path_of(path);
            assert(p.take(path@.len() as int) =~= p);
        }
        let found: bool = match node_of(&tree, &path, path.len()) {
            Some(node) => node.entries().is_some(),
            None => false,
        };
        if found {
            document::remove_entry(&mut doc, &path, field);
        }
        self.raw = Retained { document: Some(doc) };
        self.refresh_view_if_valid();
        Ok(self.finish_edit())
    }
}

} // verus!
