//! The single owner of a data root: an advisory lock is held before the
//! store is opened, so a second writer is never created.

use crate::config::{self, ConfigError};
use crate::helper::{self, join_path};
use crate::state::{self, StoreError};
use crate::text::{self, decimal_text, owned, text2, text4, text5};
use vstd::prelude::*;

verus! {

/// Why there is no owner.
#[derive(Debug)]
pub enum OwnerError<T = String> {
    AlreadyOwned,
    Io(T),
    Store(StoreError<T>),
    Config(ConfigError<T>),
    /// The user's document could not be read.
    ConfigRead { path: T, source: T },
    /// The user's document is larger than a configuration may be.
    ConfigTooLarge { path: T, limit: usize },
}

impl View for OwnerError {
    type V = OwnerError<Seq<char>>;

    open spec fn view(&self) -> OwnerError<Seq<char>> {
        match self {
            OwnerError::AlreadyOwned => OwnerError::AlreadyOwned,
            OwnerError::Io(e) => OwnerError::Io(e@),
            OwnerError::Store(e) => OwnerError::Store(e@),
            OwnerError::Config(e) => OwnerError::Config(e@),
            OwnerError::ConfigRead { path, source } => OwnerError::ConfigRead {
                path: path@,
                source: source@,
            },
            OwnerError::ConfigTooLarge { path, limit } => OwnerError::ConfigTooLarge {
                path: path@,
                limit: *limit,
            },
        }
    }
}

/// The diagnostic line of an owner error.
pub open spec fn owner_message(e: OwnerError<Seq<char>>) -> Seq<char> {
    match e {
        OwnerError::AlreadyOwned => "another owner already holds this data root"@,
        OwnerError::Io(t) => "owner I/O failed: "@ + t,
        OwnerError::Store(s) => "owner storage failed: "@ + state::store_message(s),
        OwnerError::Config(c) => "owner configuration failed: "@ + config::error_message(
            c,
        ),
        OwnerError::ConfigRead { path, source } => "owner configuration "@ + path
            + " could not be read: "@ + source,
        OwnerError::ConfigTooLarge { path, limit } => "owner configuration "@ + path
            + " exceeds "@ + text::decimal(limit as nat) + " bytes"@,
    }
}

impl OwnerError {
    /// The diagnostic line of this error.
    pub fn message(&self) -> (r: String)
        ensures
            r@ == owner_message(self@),
    {
        match self {
            OwnerError::AlreadyOwned => owned("another owner already holds this data root"),
            OwnerError::Io(e) => text2("owner I/O failed: ", e.as_str()),
            OwnerError::Store(s) => {
                let m: String = s.message();
                text2("owner storage failed: ", m.as_str())
            },
            OwnerError::Config(c) => {
                let m: String = c.message();
                text2("owner configuration failed: ", m.as_str())
            },
            OwnerError::ConfigRead { path, source } => text4(
                "owner configuration ",
                path.as_str(),
                " could not be read: ",
                source.as_str(),
            ),
            OwnerError::ConfigTooLarge { path, limit } => {
                let max: String = decimal_text(*limit as u64);
                text5("owner configuration ", path.as_str(), " exceeds ", max.as_str(), " bytes")
            },
        }
    }
}

/// What taking the lock gave.
#[derive(Debug)]
pub enum LockOutcome {
    Held,
    WouldBlock,
    Failed(String),
}

/// Where the owner of a data root keeps its files.
#[derive(Debug)]
pub struct OwnerPaths {
    pub runtime_dir: String,
    pub lock: String,
    pub database: String,
}

/// The files of the owner of a data root.
pub fn owner_paths(data_root: &str) -> (r: OwnerPaths)
    ensures
        r.runtime_dir@ == helper::joined(data_root@, "runtime"@),
        r.lock@ == helper::joined(r.runtime_dir@, "owner.lock"@),
        r.database@ == helper::joined(r.runtime_dir@, "rivect.db"@),
{
    let runtime_dir: String = join_path(data_root, "runtime");
    let lock: String = join_path(runtime_dir.as_str(), "owner.lock");
    let database: String = join_path(runtime_dir.as_str(), "rivect.db");
    OwnerPaths { runtime_dir, lock, database }
}

/// Whether the election is won: the store may be opened only then.
pub fn elect(lock: LockOutcome) -> (r: Result<(), OwnerError>)
    ensures
        match lock {
            LockOutcome::Held => r is Ok,
            LockOutcome::WouldBlock => r matches Err(e) && e@
                == OwnerError::<Seq<char>>::AlreadyOwned,
            LockOutcome::Failed(t) => r matches Err(e) && e@ == OwnerError::Io(t@),
        },
{
    match lock {
        LockOutcome::Held => Ok(()),
        LockOutcome::WouldBlock => Err(OwnerError::AlreadyOwned),
        LockOutcome::Failed(e) => Err(OwnerError::Io(e)),
    }
}

} // verus!
