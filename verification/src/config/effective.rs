//! The configuration in force: shipped defaults, then the user's document.

use crate::config::document;
use crate::config::schema;
use crate::config::{self, ConfigError, SHIPPED_DEFAULTS_TOML, WORKFLOW_KEY};
use crate::config::settings::{self, Config};
use crate::digest::{self, bytes_of, digest_hex};
use crate::json::{self, put, text_json, Json};
use crate::text::{self, copy_opt, owned};
use vstd::prelude::*;

verus! {

/// A value on the read surface.
#[derive(Debug)]
pub enum ConfigViewValue {
    Visible { value: Json },
    Redacted,
}

/// Where a value comes from.
#[derive(Debug)]
pub struct ConfigSource<T = String> {
    pub kind: T,
    pub revision: T,
    pub target: Option<T>,
}

/// One entry of the read surface.
#[derive(Debug)]
pub struct ConfigEntry {
    pub key: String,
    pub effective: ConfigViewValue,
    pub source: ConfigSource,
}

/// The mathematical value of an entry.
pub struct EntryView {
    pub key: Seq<char>,
    /// Nothing where the value is redacted.
    pub effective: Option<json::JsonView>,
    pub source: ConfigSource<Seq<char>>,
}

impl View for ConfigEntry {
    type V = EntryView;

    open spec fn view(&self) -> EntryView {
        EntryView {
            key: self.key@,
            effective: match self.effective {
                ConfigViewValue::Visible { value } => Some(value@),
                ConfigViewValue::Redacted => None,
            },
            source: ConfigSource {
                kind: self.source.kind@,
                revision: self.source.revision@,
                target: text::opt_text(self.source.target),
            },
        }
    }
}

impl Clone for ConfigEntry {
    fn clone(&self) -> (r: Self)
        ensures
            r@ == self@,
    {
        ConfigEntry {
            key: self.key.clone(),
            effective: match &self.effective {
                ConfigViewValue::Visible { value } => ConfigViewValue::Visible {
                    value: value.clone(),
                },
                ConfigViewValue::Redacted => ConfigViewValue::Redacted,
            },
            source: ConfigSource {
                kind: self.source.kind.clone(),
                revision: self.source.revision.clone(),
                target: copy_opt(&self.source.target),
            },
        }
    }
}

/// The entry of the workflow switch.
pub open spec fn workflow_entry_of(value: bool, kind: Seq<char>, revision: Seq<char>) -> EntryView {
    EntryView {
        key: WORKFLOW_KEY@,
        effective: Some(json::JsonView::Bool(value)),
        source: ConfigSource { kind, revision, target: None },
    }
}

/// The digest of a text.
pub open spec fn text_digest(t: Seq<char>) -> Seq<char> {
    digest::digest_text(vstd::utf8::encode_utf8(t))
}

/// The entry of the workflow switch over a typed view: the user's value, or
/// the shipped one.
pub open spec fn workflow_entry_for(enabled: Option<bool>, revision: Seq<char>) -> EntryView {
    match enabled {
        Some(value) => workflow_entry_of(value, "user"@, revision),
        None => workflow_entry_of(true, "shipped"@, text_digest(SHIPPED_DEFAULTS_TOML@)),
    }
}

/// The entry as the read surface serves it.
pub open spec fn entry_json(e: EntryView) -> json::JsonView {
    json::JsonView::Object(
        seq![
            (
                "effective"@,
                match e.effective {
                    Some(value) => json::JsonView::Object(
                        seq![
                            ("kind"@, json::JsonView::Text("visible"@)),
                            ("value"@, value),
                        ],
                    ),
                    None => json::JsonView::Object(
                        seq![("kind"@, json::JsonView::Text("redacted"@))],
                    ),
                },
            ),
            ("key"@, json::JsonView::Text(e.key)),
            (
                "source"@,
                json::JsonView::Object(
                    match e.source.target {
                        None => seq![
                            ("kind"@, json::JsonView::Text(e.source.kind)),
                            ("revision"@, json::JsonView::Text(e.source.revision)),
                        ],
                        Some(target) => seq![
                            ("kind"@, json::JsonView::Text(e.source.kind)),
                            ("revision"@, json::JsonView::Text(e.source.revision)),
                            ("target"@, json::JsonView::Text(target)),
                        ],
                    },
                ),
            ),
        ],
    )
}

impl ConfigEntry {
    /// The entry as the read surface serves it.
    pub fn to_json(&self) -> (r: Json)
        ensures
            r@ == entry_json(self@),
    {
        let mut effective: Vec<(String, Json)> = Vec::new();
        match &self.effective {
            ConfigViewValue::Visible { value } => {
                put(&mut effective, "kind", text_json("visible"));
                put(&mut effective, "value", value.clone());
            },
            ConfigViewValue::Redacted => {
                put(&mut effective, "kind", text_json("redacted"));
            },
        }
        let mut source: Vec<(String, Json)> = Vec::new();
        put(&mut source, "kind", text_json(self.source.kind.as_str()));
        put(&mut source, "revision", text_json(self.source.revision.as_str()));
        match &self.source.target {
            Some(target) => {
                put(&mut source, "target", text_json(target.as_str()));
            },
            None => {},
        }
        let ghost e = json::object_views(effective@);
        let ghost s = json::object_views(source@);
        proof {
            let want = entry_json(self@)->Object_0;
            assert(e =~= want[0].1->Object_0);
            assert(s =~= want[2].1->Object_0);
        }
        let mut fields: Vec<(String, Json)> = Vec::new();
        put(&mut fields, "effective", Json::Object(effective));
        put(&mut fields, "key", text_json(self.key.as_str()));
        put(&mut fields, "source", Json::Object(source));
        assert(json::object_views(fields@) =~= entry_json(self@)->Object_0);
        Json::Object(fields)
    }
}

/// The configuration in force.
#[derive(Debug)]
pub struct EffectiveConfig {
    pub sources_digest: String,
    pub parsed: Option<Config>,
    pub workflow_entry: ConfigEntry,
}

/// The digest of both sources, one after the other.
pub open spec fn sources_digest_of(user: Seq<char>) -> Seq<char> {
    digest::digest_text(
        vstd::utf8::encode_utf8(SHIPPED_DEFAULTS_TOML@) + vstd::utf8::encode_utf8(user),
    )
}

/// The switch of a typed view, where a document is there.
pub open spec fn switch_of(parsed: Option<Config>) -> Option<bool> {
    match parsed {
        Some(config) => config.workflow.enabled,
        None => None,
    }
}

fn workflow_entry(enabled: Option<bool>, revision: &str) -> (r: ConfigEntry)
    ensures
        r@ == workflow_entry_for(enabled, revision@),
{
    match enabled {
        Some(value) => ConfigEntry {
            key: owned(WORKFLOW_KEY),
            effective: ConfigViewValue::Visible { value: Json::Bool(value) },
            source: ConfigSource {
                kind: owned("user"),
                revision: owned(revision),
                target: None,
            },
        },
        None => {
            let shipped: Vec<u8> = bytes_of(SHIPPED_DEFAULTS_TOML);
            ConfigEntry {
                key: owned(WORKFLOW_KEY),
                effective: ConfigViewValue::Visible { value: Json::Bool(true) },
                source: ConfigSource {
                    kind: owned("shipped"),
                    revision: digest_hex(shipped.as_slice()),
                    target: None,
                },
            }
        },
    }
}

fn appended(head: Vec<u8>, tail: &Vec<u8>) -> (r: Vec<u8>)
    ensures
        r@ == head@ + tail@,
{
    let mut all: Vec<u8> = head;
    let ghost before = all@;
    let mut i: usize = 0;
    assert(before + tail@.take(0) =~= before);
    while i < tail.len()
        invariant
            i <= tail.len(),
            all@ == before + tail@.take(i as int),
        decreases tail.len() - i,
    {
        all.push(tail[i]);
        i = i + 1;
        assert(all@ =~= before + tail@.take(i as int));
    }
    assert(tail@.take(tail@.len() as int) =~= tail@);
    all
}

/// What the configuration in force is over the user's document, where there
/// is one: a document that is not valid is rejected.
pub open spec fn in_force(
    user_toml: Option<Seq<char>>,
    r: Result<EffectiveConfig, ConfigError>,
) -> bool {
    match user_toml {
        None => r matches Ok(e) && e.parsed is None && e.sources_digest@ == sources_digest_of(
            Seq::empty(),
        ) && e.workflow_entry@ == workflow_entry_for(None, text_digest(Seq::empty())),
        Some(text) => match document::parsed_document(text) {
            Err(m) => r matches Err(x) && x@ == config::parse_rejection(m),
            Ok(doc) => match schema::document_reading(settings::root_of(doc)) {
                Err(e) => r matches Err(x) && x@ == e,
                Ok(v) => r matches Ok(e) && e.sources_digest@ == sources_digest_of(text) && (
                e.parsed matches Some(c) && c.typed() == v && c.retained() == Some(doc))
                    && e.workflow_entry@ == workflow_entry_for(
                    v.workflow.enabled,
                    text_digest(text),
                ),
            },
        },
    }
}

/// Resolves the configuration in force.
pub fn resolve_effective(user_toml: Option<&str>) -> (r: Result<EffectiveConfig, ConfigError>)
    ensures
        in_force(
            match user_toml {
                Some(text) => Some(text@),
                None => None,
            },
            r,
        ),
{
    let (parsed, user): (Option<Config>, Vec<u8>) = match user_toml {
        Some(text) => match Config::parse_validated(text) {
            Ok(config) => (Some(config), bytes_of(text)),
            Err(e) => {
                return Err(e);
            },
        },
        None => {
            let empty: Vec<u8> = bytes_of("");
            proof {
                reveal_strlit("");
                assert(""@ =~= Seq::<char>::empty());
            }
            (None, empty)
        },
    };
    let all: Vec<u8> = appended(bytes_of(SHIPPED_DEFAULTS_TOML), &user);
    let revision: String = digest_hex(user.as_slice());
    let enabled: Option<bool> = match &parsed {
        Some(config) => config.workflow.enabled,
        None => None,
    };
    Ok(
        EffectiveConfig {
            sources_digest: digest_hex(all.as_slice()),
            parsed,
            workflow_entry: workflow_entry(enabled, revision.as_str()),
        },
    )
}

impl EffectiveConfig {
    /// Takes the workflow entry from the retained document again: an accepted
    /// edit moves it. `revision` is the digest of that document.
    pub fn refresh_workflow_entry(&mut self, revision: &str)
        ensures
            final(self).workflow_entry@ == workflow_entry_for(
                switch_of(old(self).parsed),
                revision@,
            ),
            final(self).sources_digest == old(self).sources_digest,
            final(self).parsed == old(self).parsed,
    {
        let enabled: Option<bool> = match &self.parsed {
            Some(config) => config.workflow.enabled,
            None => None,
        };
        self.workflow_entry = workflow_entry(enabled, revision);
    }
}

} // verus!
