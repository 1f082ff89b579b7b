//! The state that requests are answered from, and how it is opened.

use crate::commands::carrier::{self, recovery_diagnostic};
use crate::config::effective::{self, resolve_effective, EffectiveConfig};
use crate::config::publication::{self, PublicationRecovery};
use crate::config::settings::{self, Config};
use crate::config;
use crate::contracts;
use crate::helper::{self, join_path};
use crate::model::broker::{self, Broker};
use crate::owner::OwnerError;
use crate::policy::{self, Policy};
use crate::providers::Provider;
use crate::text::{self, decoded, owned};
use vstd::prelude::*;

verus! {

/// Ceiling on the bytes of the user's document.
pub const CONFIG_MAX_BYTES: usize = 1048576;

/// What reading the user's document gave: at most one byte more than the
/// ceiling.
#[derive(Debug)]
pub enum ConfigFile {
    Absent,
    Failed(String),
    Bytes(Vec<u8>),
}

/// The user's document, where there is one, or why it is refused.
pub open spec fn document_of(path: Seq<char>, file: ConfigFile) -> Result<
    Option<Seq<char>>,
    OwnerError<Seq<char>>,
> {
    match file {
        ConfigFile::Absent => Ok(None),
        ConfigFile::Failed(source) => Err(OwnerError::ConfigRead { path, source: source@ }),
        ConfigFile::Bytes(bytes) => if bytes@.len() > CONFIG_MAX_BYTES {
            Err(OwnerError::ConfigTooLarge { path, limit: CONFIG_MAX_BYTES })
        } else if !vstd::utf8::valid_utf8(bytes@) {
            Err(OwnerError::ConfigRead { path, source: text::utf8_fault(bytes@) })
        } else {
            Ok(Some(vstd::utf8::decode_utf8(bytes@)))
        },
    }
}

/// Executable [`document_of`].
pub fn user_document(path: &str, file: ConfigFile) -> (r: Result<Option<String>, OwnerError>)
    ensures
        match document_of(path@, file) {
            Ok(t) => r matches Ok(x) && text::opt_text(x) == t,
            Err(e) => r matches Err(x) && x@ == e,
        },
{
    match file {
        ConfigFile::Absent => Ok(None),
        ConfigFile::Failed(source) => Err(OwnerError::ConfigRead { path: owned(path), source }),
        ConfigFile::Bytes(bytes) => {
            if bytes.len() > CONFIG_MAX_BYTES {
                return Err(
                    OwnerError::ConfigTooLarge { path: owned(path), limit: CONFIG_MAX_BYTES },
                );
            }
            match decoded(bytes) {
                Ok(t) => Ok(Some(t)),
                Err(source) => Err(OwnerError::ConfigRead { path: owned(path), source }),
            }
        },
    }
}

/// The lines of the recoveries that a person must resolve.
pub open spec fn diagnostics(
    recoveries: Seq<(publication::IntentView, publication::PublicationVerdict)>,
) -> Seq<Seq<char>>
    decreases recoveries.len(),
{
    if recoveries.len() == 0 {
        Seq::empty()
    } else {
        let before = diagnostics(recoveries.drop_last());
        match carrier::diagnostic(
            recoveries.last().1,
            recoveries.last().0.target,
        ) {
            Some(line) => before.push(line),
            None => before,
        }
    }
}

/// Executable [`diagnostics`].
pub fn boot_diagnostics(recoveries: &Vec<PublicationRecovery>) -> (r: Vec<String>)
    ensures
        text::texts(r@) == diagnostics(
            publication::recovery_views(recoveries@),
        ),
{
    let ghost all = publication::recovery_views(recoveries@);
    let mut lines: Vec<String> = Vec::new();
    let mut i: usize = 0;
    assert(all.take(0) =~= Seq::empty());
    assert(text::texts(lines@) =~= Seq::empty());
    while i < recoveries.len()
        invariant
            i <= recoveries.len(),
            all == publication::recovery_views(recoveries@),
            text::texts(lines@) == diagnostics(all.take(i as int)),
        decreases recoveries.len() - i,
    {
        assert(all.take(i as int + 1).drop_last() =~= all.take(i as int));
        assert(all.take(i as int + 1).last() == (
            recoveries@[i as int].intent@,
            recoveries@[i as int].verdict,
        ));
        match recovery_diagnostic(&recoveries[i]) {
            Some(line) => {
                proof {
                    text::lemma_texts_push(lines@, line);
                }
                lines.push(line);
            },
            None => {},
        }
        i = i + 1;
    }
    assert(all.take(all.len() as int) =~= all);
    lines
}

/// The state of a runtime.
#[derive(Debug)]
pub struct Runtime<P> {
    pub policy: Policy,
    pub broker: Broker<P>,
    pub effective: EffectiveConfig,
    /// The purpose of the model loop.
    pub purpose: String,
    pub scope_root: String,
    pub scoped_file: String,
    /// The grant of the scoped read.
    pub scoped_grant: String,
    pub config_path: String,
    pub provider_calls: u64,
    /// What a person must resolve, one line each.
    pub boot_diagnostics: Vec<String>,
}

impl<P: Provider> Runtime<P> {
    /// Opens the runtime of a data root: publications are recovered first,
    /// then the user's document is read and resolved.
    pub fn open(
        data_root: &str,
        provider: P,
        recoveries: &Vec<PublicationRecovery>,
        file: ConfigFile,
    ) -> (r: Result<Self, OwnerError>)
        ensures
            ({
                let path = helper::joined(data_root@, "config.toml"@);
                match document_of(path, file) {
                    Err(e) => r matches Err(x) && x@ == e,
                    Ok(text) => match r {
                        Err(x) => x matches OwnerError::Config(c) && effective::in_force(
                            text,
                            Err(c),
                        ),
                        Ok(rt) => {
                            &&& effective::in_force(text, Ok(rt.effective))
                            &&& rt.broker.provider == provider
                            &&& rt.broker.state() == broker::started()
                            &&& rt.policy.grants@ == Map::<Seq<char>, policy::Grant>::empty()
                            &&& policy::identities(rt.policy.denies@) == Seq::<
                                policy::paths::IdentityView,
                            >::empty()
                            &&& text::texts(rt.policy.raw_denies@) == Seq::<Seq<char>>::empty()
                            &&& rt.policy.next == 0
                            &&& rt.config_path@ == path
                            &&& text::texts(rt.boot_diagnostics@) == diagnostics(
                                publication::recovery_views(recoveries@),
                            )
                            &&& rt.provider_calls == 0
                            &&& rt.purpose@.len() == 0
                            &&& rt.scope_root@.len() == 0
                            &&& rt.scoped_file@.len() == 0
                            &&& rt.scoped_grant@.len() == 0
                        },
                    },
                }
            }),
    {
        let config_path: String = join_path(data_root, "config.toml");
        let user_toml: Option<String> = match user_document(config_path.as_str(), file) {
            Ok(t) => t,
            Err(e) => {
                return Err(e);
            },
        };
        let resolved: Result<EffectiveConfig, config::ConfigError> = match &user_toml {
            Some(t) => resolve_effective(Some(t.as_str())),
            None => resolve_effective(None),
        };
        match resolved {
            Err(e) => Err(OwnerError::Config(e)),
            Ok(effective) => Ok(
                Runtime {
                    policy: Policy::default(),
                    broker: Broker::new(provider),
                    effective,
                    purpose: String::new(),
                    scope_root: String::new(),
                    scoped_file: String::new(),
                    scoped_grant: String::new(),
                    config_path,
                    provider_calls: 0,
                    boot_diagnostics: boot_diagnostics(recoveries),
                },
            ),
        }
    }

    /// Grants the one read that the first task is confined to.
    pub fn set_read_scope(&mut self, root: String, file: String) -> (r: String)
        requires
            old(self).policy.next < u64::MAX,
        ensures
            final(self).scope_root@ == root@,
            final(self).scoped_file@ == file@,
            final(self).scoped_grant@ == r@,
            final(self).broker == old(self).broker,
            final(self).effective == old(self).effective,
            final(self).purpose == old(self).purpose,
            final(self).config_path == old(self).config_path,
            final(self).provider_calls == old(self).provider_calls,
            final(self).boot_diagnostics == old(self).boot_diagnostics,
            r@ == policy::grant_name((old(self).policy.next + 1) as u64),
            final(self).policy.next == old(self).policy.next + 1,
            final(self).policy.denies == old(self).policy.denies,
            final(self).policy.raw_denies == old(self).policy.raw_denies,
            final(self).policy.grants@.dom() == old(self).policy.grants@.dom().insert(r@),
            forall|k: Seq<char>|
                k != r@ && old(self).policy.grants@.dom().contains(k)
                    ==> #[trigger] final(self).policy.grants@[k] == old(self).policy.grants@[k],
            policy::admission(
                final(self).policy.grants@,
                r@,
                contracts::EffectClass::Read,
            ) matches Ok(g) && g.scope_root == root@,
    {
        self.scope_root = root.clone();
        self.scoped_file = file;
        let grant: String = self.policy.grant_read(root);
        self.scoped_grant = grant.clone();
        assert(self.policy.grants@[grant@]@.classes[0] == contracts::EffectClass::Read);
        grant
    }

    /// The configuration of the broker: the retained one, or an empty one.
    pub fn config_for_broker(&self) -> (r: Config)
        ensures
            match self.effective.parsed {
                Some(c) => r.typed() == c.typed() && r.retained() == c.retained(),
                None => r.typed() == settings::unread() && r.retained() is None,
            },
    {
        match &self.effective.parsed {
            Some(c) => c.clone(),
            None => Config::default(),
        }
    }
}

} // verus!
