//! Effect executor: admission, checks before an effect and what the ledger
//! records of it. The executor decides; a caller performs what it decides
//! and reports back. Paths are carried as text.

use crate::contracts::{EffectClass, ErrorCode, TaskId};
use crate::helper;
use crate::policy::paths::copy_bytes;
use crate::policy::{self, AdmissionContext, ModeDecision, PermissionMode, Policy, PolicyError};
use crate::policy::url;
use crate::state::{self, StoreError};
use crate::text::{
    self, chars_of, lines_of, lossy_text, owned, same, split_text, starts_with, starts_with_char,
    text2, text3, text_of,
};
use vstd::prelude::*;

pub use crate::executor::macos::{
    FileFacts, FileIdentity, ReadObservation, ReadWorker, WorkerError,
};
pub use crate::executor::run::Executor;

pub mod artifacts;
pub mod boundary;
pub mod command;
pub mod laws;
pub mod legs;
pub mod linux;
pub mod macos;
pub mod observe;
pub mod run;

verus! {

/// What canonicalizing a path gave: its text, nothing when it is no text, or
/// the error of the system.
pub type Resolved = Result<Option<String>, String>;

pub open spec fn resolved_view(r: Resolved) -> Result<Option<Seq<char>>, Seq<char>> {
    match r {
        Ok(Some(t)) => Ok(Some(t@)),
        Ok(None) => Ok(None),
        Err(e) => Err(e@),
    }
}

/// One effect that is asked for.
#[derive(Debug)]
pub enum EffectRequest<T = String, B = Vec<u8>> {
    Read { grant_id: T, path: T },
    Write { grant_id: T, path: T, bytes: B },
    Exec { grant_id: T, program: T },
    Egress { grant_id: T, url: T },
}

/// An effect request over mathematical values.
pub type RequestView = EffectRequest<Seq<char>, Seq<u8>>;

impl View for EffectRequest {
    type V = RequestView;

    open spec fn view(&self) -> RequestView {
        match self {
            EffectRequest::Read { grant_id, path } => EffectRequest::Read {
                grant_id: grant_id@,
                path: path@,
            },
            EffectRequest::Write { grant_id, path, bytes } => EffectRequest::Write {
                grant_id: grant_id@,
                path: path@,
                bytes: bytes@,
            },
            EffectRequest::Exec { grant_id, program } => EffectRequest::Exec {
                grant_id: grant_id@,
                program: program@,
            },
            EffectRequest::Egress { grant_id, url } => EffectRequest::Egress {
                grant_id: grant_id@,
                url: url@,
            },
        }
    }
}

pub open spec fn request_class(r: RequestView) -> EffectClass {
    match r {
        EffectRequest::Read { .. } => EffectClass::Read,
        EffectRequest::Write { .. } => EffectClass::Write,
        EffectRequest::Exec { .. } => EffectClass::Exec,
        EffectRequest::Egress { .. } => EffectClass::Egress,
    }
}

pub open spec fn request_grant(r: RequestView) -> Seq<char> {
    match r {
        EffectRequest::Read { grant_id, .. } => grant_id,
        EffectRequest::Write { grant_id, .. } => grant_id,
        EffectRequest::Exec { grant_id, .. } => grant_id,
        EffectRequest::Egress { grant_id, .. } => grant_id,
    }
}

pub open spec fn request_target(r: RequestView) -> Seq<char> {
    match r {
        EffectRequest::Read { path, .. } => path,
        EffectRequest::Write { path, .. } => path,
        EffectRequest::Exec { program, .. } => program,
        EffectRequest::Egress { url, .. } => url,
    }
}

pub open spec fn request_text(r: RequestView) -> Seq<char> {
    match r {
        EffectRequest::Read { path, .. } => "read "@ + path,
        EffectRequest::Write { path, .. } => "write "@ + path,
        EffectRequest::Exec { program, .. } => "exec "@ + program,
        EffectRequest::Egress { url, .. } => "egress "@ + url,
    }
}

impl EffectRequest {
    /// The class of the effect.
    pub fn class(&self) -> (r: EffectClass)
        ensures
            r == request_class(self@),
    {
        match self {
            EffectRequest::Read { .. } => EffectClass::Read,
            EffectRequest::Write { .. } => EffectClass::Write,
            EffectRequest::Exec { .. } => EffectClass::Exec,
            EffectRequest::Egress { .. } => EffectClass::Egress,
        }
    }

    /// The grant the effect runs under.
    pub fn grant_id(&self) -> (r: &str)
        ensures
            r@ == request_grant(self@),
    {
        match self {
            EffectRequest::Read { grant_id, .. } => grant_id.as_str(),
            EffectRequest::Write { grant_id, .. } => grant_id.as_str(),
            EffectRequest::Exec { grant_id, .. } => grant_id.as_str(),
            EffectRequest::Egress { grant_id, .. } => grant_id.as_str(),
        }
    }

    /// One line that names the effect.
    pub fn describe(&self) -> (r: String)
        ensures
            r@ == request_text(self@),
    {
        match self {
            EffectRequest::Read { path, .. } => text2("read ", path.as_str()),
            EffectRequest::Write { path, .. } => text2("write ", path.as_str()),
            EffectRequest::Exec { program, .. } => text2("exec ", program.as_str()),
            EffectRequest::Egress { url, .. } => text2("egress ", url.as_str()),
        }
    }

    /// What the deny rules are asked about.
    pub fn target_path(&self) -> (r: &str)
        ensures
            r@ == request_target(self@),
    {
        match self {
            EffectRequest::Read { path, .. } => path.as_str(),
            EffectRequest::Write { path, .. } => path.as_str(),
            EffectRequest::Exec { program, .. } => program.as_str(),
            EffectRequest::Egress { url, .. } => url.as_str(),
        }
    }
}

impl Clone for EffectRequest {
    fn clone(&self) -> (r: Self)
        ensures
            r@ == self@,
    {
        match self {
            EffectRequest::Read { grant_id, path } => EffectRequest::Read {
                grant_id: grant_id.clone(),
                path: path.clone(),
            },
            EffectRequest::Write { grant_id, path, bytes } => EffectRequest::Write {
                grant_id: grant_id.clone(),
                path: path.clone(),
                bytes: copy_bytes(bytes),
            },
            EffectRequest::Exec { grant_id, program } => EffectRequest::Exec {
                grant_id: grant_id.clone(),
                program: program.clone(),
            },
            EffectRequest::Egress { grant_id, url } => EffectRequest::Egress {
                grant_id: grant_id.clone(),
                url: url.clone(),
            },
        }
    }
}

/// An effect that was admitted.
#[derive(Debug)]
pub struct AdmittedEffect {
    pub task_id: TaskId,
    pub attempt_id: String,
    pub request: EffectRequest,
    /// The mode it was admitted under; the consult before the effect uses
    /// the same one.
    pub mode: PermissionMode,
    /// The file a write was admitted for.
    pub expected_identity: Option<FileIdentity>,
    pub scope_root: String,
}

/// A control write that was admitted.
#[derive(Debug)]
pub struct AdmittedManagedWrite {
    pub task_id: TaskId,
    pub attempt_id: String,
    pub grant_id: String,
    pub scope_root: String,
    pub path: String,
    pub bytes: Vec<u8>,
    pub expected_identity: FileIdentity,
}

/// What an effect ended with.
#[derive(Debug)]
pub enum EffectOutcome<T = String, B = Vec<u8>> {
    Read { bytes: B, digest: T },
    Executed { detail: T },
    Denied { reason: T },
}

pub open spec fn effect_view(o: EffectOutcome) -> EffectOutcome<Seq<char>, Seq<u8>> {
    match o {
        EffectOutcome::Read { bytes, digest } => EffectOutcome::Read {
            bytes: bytes@,
            digest: digest@,
        },
        EffectOutcome::Executed { detail } => EffectOutcome::Executed { detail: detail@ },
        EffectOutcome::Denied { reason } => EffectOutcome::Denied { reason: reason@ },
    }
}

pub const TASK_CANCELLED: &'static str = "task cancelled";

/// The ledger reason of an effect that waits for consent.
pub const MODE_ASK_REASON: &'static str = "mode ask: permission required";

/// The ledger reason of an effect that the mode denies.
pub const MODE_DENY_REASON: &'static str = "mode deny";

/// The ledger reason of a preview.
pub const DRY_RUN_REASON: &'static str = "dry run: preview only, no effect";

/// Why an effect did not run.
#[derive(Debug)]
pub enum ExecutorError<T = String> {
    Policy(PolicyError<T>),
    Worker(WorkerError<T>),
    Cancelled,
    PolicyDenied,
    ModeAsk,
    ModeDenied,
    Readonly { class: EffectClass },
    Store(StoreError<T>),
}

impl View for ExecutorError {
    type V = ExecutorError<Seq<char>>;

    open spec fn view(&self) -> ExecutorError<Seq<char>> {
        match self {
            ExecutorError::Policy(e) => ExecutorError::Policy(e@),
            ExecutorError::Worker(e) => ExecutorError::Worker(e@),
            ExecutorError::Cancelled => ExecutorError::Cancelled,
            ExecutorError::PolicyDenied => ExecutorError::PolicyDenied,
            ExecutorError::ModeAsk => ExecutorError::ModeAsk,
            ExecutorError::ModeDenied => ExecutorError::ModeDenied,
            ExecutorError::Readonly { class } => ExecutorError::Readonly { class: *class },
            ExecutorError::Store(e) => ExecutorError::Store(e@),
        }
    }
}

pub open spec fn readonly_label(c: EffectClass) -> Seq<char> {
    match c {
        EffectClass::Write => "write"@,
        EffectClass::Exec => "exec"@,
        EffectClass::Egress => "direct egress"@,
        _ => "this"@,
    }
}

/// The diagnostic line of an executor error.
pub open spec fn executor_message(e: ExecutorError<Seq<char>>) -> Seq<char> {
    match e {
        ExecutorError::Policy(p) => "effect denied: "@ + policy::policy_message(p),
        ExecutorError::Worker(w) => "effect denied: "@ + macos::worker_message(w),
        ExecutorError::Cancelled => "effect denied: task cancelled"@,
        ExecutorError::PolicyDenied => "effect denied: policy deny"@,
        ExecutorError::ModeAsk => "effect denied: mode ask: permission required"@,
        ExecutorError::ModeDenied => "effect denied: mode deny"@,
        ExecutorError::Readonly { class } => "effect denied: read-only worker rejects "@
            + readonly_label(class) + " effects; no ambient fallback"@,
        ExecutorError::Store(s) => "effect store: "@ + state::store_message(s),
    }
}

/// The wire code of a worker error: a boundary that cannot start or does not
/// hold is a missing capability, everything else a denial.
pub open spec fn worker_code(e: WorkerError<Seq<char>>) -> ErrorCode {
    match e {
        WorkerError::SandboxSpawnFailed { .. } => ErrorCode::CapabilityUnavailable,
        WorkerError::SandboxUnavailable { .. } => ErrorCode::CapabilityUnavailable,
        WorkerError::ConfinedRunTimedOut => ErrorCode::CapabilityUnavailable,
        _ => ErrorCode::Denied,
    }
}

/// Executable [`worker_code`].
pub fn worker_error_code(error: &WorkerError) -> (r: ErrorCode)
    ensures
        r == worker_code(error@),
{
    match error {
        WorkerError::SandboxSpawnFailed { .. } => ErrorCode::CapabilityUnavailable,
        WorkerError::SandboxUnavailable { .. } => ErrorCode::CapabilityUnavailable,
        WorkerError::ConfinedRunTimedOut => ErrorCode::CapabilityUnavailable,
        _ => ErrorCode::Denied,
    }
}

/// The wire code of an executor error.
pub open spec fn executor_code(e: ExecutorError<Seq<char>>) -> ErrorCode {
    match e {
        ExecutorError::Worker(w) => worker_code(w),
        ExecutorError::Cancelled => ErrorCode::Cancelled,
        ExecutorError::Store(_) => ErrorCode::StorageUnavailable,
        _ => ErrorCode::Denied,
    }
}

impl ExecutorError {
    /// The wire code of this error.
    pub fn error_code(&self) -> (r: ErrorCode)
        ensures
            r == executor_code(self@),
    {
        match self {
            ExecutorError::Worker(w) => worker_error_code(w),
            ExecutorError::Cancelled => ErrorCode::Cancelled,
            ExecutorError::Store(_) => ErrorCode::StorageUnavailable,
            _ => ErrorCode::Denied,
        }
    }

    /// The diagnostic line of this error.
    pub fn message(&self) -> (r: String)
        ensures
            r@ == executor_message(self@),
    {
        match self {
            ExecutorError::Policy(p) => {
                let m: String = p.message();
                text2("effect denied: ", m.as_str())
            },
            ExecutorError::Worker(w) => {
                let m: String = w.message();
                text2("effect denied: ", m.as_str())
            },
            ExecutorError::Cancelled => owned("effect denied: task cancelled"),
            ExecutorError::PolicyDenied => owned("effect denied: policy deny"),
            ExecutorError::ModeAsk => owned("effect denied: mode ask: permission required"),
            ExecutorError::ModeDenied => owned("effect denied: mode deny"),
            ExecutorError::Readonly { class } => text3(
                "effect denied: read-only worker rejects ",
                match class {
                    EffectClass::Write => "write",
                    EffectClass::Exec => "exec",
                    EffectClass::Egress => "direct egress",
                    _ => "this",
                },
                " effects; no ambient fallback",
            ),
            ExecutorError::Store(s) => {
                let m: String = s.message();
                text2("effect store: ", m.as_str())
            },
        }
    }
}

/// What one performed read is reported as.
#[derive(Debug)]
pub struct Reported {
    pub outcome: EffectOutcome,
    pub detail: String,
}

/// The outcome of a performed read, with the detail the ledger confirms: one
/// digest stands in both.
pub fn read_result(observation: ReadObservation) -> (r: Reported)
    ensures
        effect_view(r.outcome) == (EffectOutcome::Read {
            bytes: observation.bytes@,
            digest: observation.digest@,
        }),
        r.detail@ == "read-performed sha256="@ + observation.digest@,
{
    let detail: String = text2("read-performed sha256=", observation.digest.as_str());
    Reported {
        outcome: EffectOutcome::Read { bytes: observation.bytes, digest: observation.digest },
        detail,
    }
}

/// Whether two metadata describe one regular file.
pub fn same_regular_file(expected: FileFacts, opened: FileFacts) -> (r: bool)
    ensures
        r == (expected.regular && opened.regular && expected.dev == opened.dev && expected.ino
            == opened.ino),
{
    expected.regular && opened.regular && expected.dev == opened.dev && expected.ino == opened.ino
}

/// The components of a path: what stands between separators, single dots
/// left out.
pub open spec fn path_parts(pieces: Seq<Seq<char>>) -> Seq<Seq<char>>
    decreases pieces.len(),
{
    if pieces.len() == 0 {
        Seq::empty()
    } else if pieces.last().len() == 0 || pieces.last() == "."@ {
        path_parts(pieces.drop_last())
    } else {
        path_parts(pieces.drop_last()).push(pieces.last())
    }
}

pub open spec fn components(path: Seq<char>) -> Seq<Seq<char>> {
    path_parts(text::split(path, '/'))
}

/// Whether a path is a directory or lies below it.
pub open spec fn within(scope: Seq<char>, target: Seq<char>) -> bool {
    &&& url::is_absolute_path(scope) == url::is_absolute_path(target)
    &&& components(scope).len() <= components(target).len()
    &&& components(target).take(components(scope).len() as int) == components(scope)
}

/// Executable [`components`].
pub fn parts_of_path(path: &str) -> (r: Vec<String>)
    ensures
        text::texts(r@) == components(path@),
{
    let pieces: Vec<String> = split_text(path, '/');
    let ghost all = text::texts(pieces@);
    let mut out: Vec<String> = Vec::new();
    let mut i: usize = 0;
    assert(all.take(0) =~= Seq::empty());
    assert(text::texts(out@) =~= Seq::empty());
    while i < pieces.len()
        invariant
            i <= pieces.len(),
            all == text::texts(pieces@),
            text::texts(out@) == path_parts(all.take(i as int)),
        decreases pieces.len() - i,
    {
        assert(all.take(i as int + 1).drop_last() =~= all.take(i as int));
        assert(all.take(i as int + 1).last() == pieces@[i as int]@);
        let n: usize = text::chars_of(pieces[i].as_str()).len();
        if n > 0 && !same(pieces[i].as_str(), ".") {
            let part: String = pieces[i].clone();
            proof {
                text::lemma_texts_push(out@, part);
            }
            out.push(part);
        }
        i = i + 1;
    }
    assert(all.take(all.len() as int) =~= all);
    out
}

/// Executable [`within`].
pub fn path_within(scope: &str, target: &str) -> (r: bool)
    ensures
        r == within(scope@, target@),
{
    let s: Vec<String> = parts_of_path(scope);
    let t: Vec<String> = parts_of_path(target);
    let ghost x = components(scope@);
    let ghost y = components(target@);
    if starts_with_char(scope, '/') != starts_with_char(target, '/') || s.len() > t.len() {
        assert(x.len() == s@.len() && y.len() == t@.len());
        return false;
    }
    let mut i: usize = 0;
    while i < s.len()
        invariant
            i <= s.len() <= t.len(),
            x == text::texts(s@),
            y == text::texts(t@),
            x == components(scope@),
            y == components(target@),
            forall|j: int| 0 <= j < i ==> #[trigger] x[j] == y[j],
        decreases s.len() - i,
    {
        assert(x[i as int] == s@[i as int]@ && y[i as int] == t@[i as int]@);
        if !same(s[i].as_str(), t[i].as_str()) {
            assert(y.take(x.len() as int)[i as int] != x[i as int]);
            return false;
        }
        i = i + 1;
    }
    assert(y.take(x.len() as int) =~= x);
    true
}

/// A path without the separators and single dots at its end; a root keeps
/// its separator.
pub open spec fn trimmed(path: Seq<char>) -> Seq<char>
    decreases path.len(),
{
    let n = path.len();
    if n > 1 && path.last() == '/' {
        trimmed(path.drop_last())
    } else if n > 1 && path.last() == '.' && path[n - 2] == '/' {
        trimmed(path.drop_last())
    } else {
        path
    }
}

/// How many characters of a path stand up to its last separator.
pub open spec fn dir_len(path: Seq<char>) -> int
    decreases path.len(),
{
    if path.len() == 0 || path.last() == '/' {
        path.len() as int
    } else {
        dir_len(path.drop_last())
    }
}

/// The path without its last component; nothing for an empty path and a
/// root.
pub open spec fn parent(path: Seq<char>) -> Option<Seq<char>> {
    let whole = trimmed(path);
    if whole.len() == 0 || whole == seq!['/'] {
        None
    } else {
        Some(trimmed(whole.take(dir_len(whole))))
    }
}

fn trim_end(chars: &Vec<char>, len: usize) -> (r: usize)
    requires
        len <= chars.len(),
    ensures
        r <= len,
        trimmed(chars@.take(len as int)) == chars@.take(r as int),
{
    let mut k: usize = len;
    while k > 1 && (chars[k - 1] == '/' || (chars[k - 1] == '.' && chars[k - 2] == '/'))
        invariant
            k <= len <= chars.len(),
            trimmed(chars@.take(len as int)) == trimmed(chars@.take(k as int)),
        decreases k,
    {
        assert(chars@.take(k as int).last() == chars@[k - 1]);
        assert(chars@.take(k as int)[k - 2] == chars@[k - 2]);
        assert(chars@.take(k as int).drop_last() =~= chars@.take(k - 1));
        k = k - 1;
    }
    proof {
        if k > 1 {
            assert(chars@.take(k as int).last() == chars@[k - 1]);
            assert(chars@.take(k as int)[k - 2] == chars@[k - 2]);
        }
    }
    k
}

/// Executable [`parent`].
pub fn parent_dir(path: &str) -> (r: Option<String>)
    ensures
        text::opt_text(r) == parent(path@),
{
    let chars: Vec<char> = chars_of(path);
    assert(chars@.take(chars@.len() as int) =~= chars@);
    let whole: usize = trim_end(&chars, chars.len());
    let ghost w = chars@.take(whole as int);
    if whole == 0 || (whole == 1 && chars[0] == '/') {
        proof {
            if whole == 1 {
                assert(w =~= seq!['/']);
            }
        }
        return None;
    }
    assert(w[0] == chars@[0]);
    assert(w != seq!['/']);
    let mut k: usize = whole;
    assert(w.take(w.len() as int) =~= w);
    while k > 0 && chars[k - 1] != '/'
        invariant
            k <= whole <= chars.len(),
            w == chars@.take(whole as int),
            dir_len(w) == dir_len(w.take(k as int)),
        decreases k,
    {
        assert(w.take(k as int).last() == chars@[k - 1]);
        assert(w.take(k as int).drop_last() =~= w.take(k - 1));
        k = k - 1;
    }
    proof {
        if k > 0 {
            assert(w.take(k as int).last() == chars@[k - 1]);
        }
        assert(w.take(k as int) =~= chars@.take(k as int));
    }
    let end: usize = trim_end(&chars, k);
    let dir: String = text_of(&chars, 0, end);
    assert(dir@ =~= chars@.take(end as int));
    Some(dir)
}

/// A target that may be opened.
#[derive(Debug)]
pub struct InspectedTarget {
    pub canonical: String,
    pub facts: FileFacts,
}

/// Whether a target may be opened: its scope and itself resolve, it lies
/// inside the scope, and it is a regular file.
pub open spec fn inspection(
    target: Seq<char>,
    scope: Result<Option<Seq<char>>, Seq<char>>,
    canonical: Option<Seq<char>>,
    facts: Result<FileFacts, Seq<char>>,
) -> Result<(Seq<char>, FileFacts), WorkerError<Seq<char>>> {
    match scope {
        Err(source) => Err(WorkerError::ScopeRootUnavailable { source }),
        Ok(scope_path) => match canonical {
            None => Err(WorkerError::TargetMissing { target }),
            Some(path) => if !(scope_path is Some && within(scope_path->0, path)) {
                Err(WorkerError::OutsideScope { target })
            } else {
                match facts {
                    Err(source) => Err(WorkerError::MetadataUnavailable { source }),
                    Ok(f) => if !f.regular {
                        Err(WorkerError::NotRegularFile { target })
                    } else {
                        Ok((path, f))
                    },
                }
            },
        },
    }
}

pub open spec fn inspected_view(r: Result<InspectedTarget, WorkerError>) -> Result<
    (Seq<char>, FileFacts),
    WorkerError<Seq<char>>,
> {
    match r {
        Ok(t) => Ok((t.canonical@, t.facts)),
        Err(e) => Err(e@),
    }
}

pub open spec fn facts_view(r: Result<FileFacts, String>) -> Result<FileFacts, Seq<char>> {
    match r {
        Ok(f) => Ok(f),
        Err(e) => Err(e@),
    }
}

/// Executable [`inspection`]: the canonical target is absent when it does
/// not resolve, for whatever reason.
pub fn inspect_regular_target(
    target: &str,
    scope: &Resolved,
    canonical: Option<String>,
    facts: Result<FileFacts, String>,
) -> (r: Result<InspectedTarget, WorkerError>)
    ensures
        inspected_view(r) == inspection(
            target@,
            resolved_view(*scope),
            text::opt_text(canonical),
            facts_view(facts),
        ),
{
    let scope_path: &Option<String> = match scope {
        Err(source) => {
            return Err(WorkerError::ScopeRootUnavailable { source: source.clone() });
        },
        Ok(p) => p,
    };
    let path: String = match canonical {
        None => {
            return Err(WorkerError::TargetMissing { target: owned(target) });
        },
        Some(p) => p,
    };
    let inside: bool = match scope_path {
        Some(s) => path_within(s.as_str(), path.as_str()),
        None => false,
    };
    if !inside {
        return Err(WorkerError::OutsideScope { target: owned(target) });
    }
    match facts {
        Err(source) => Err(WorkerError::MetadataUnavailable { source }),
        Ok(f) => if !f.regular {
            Err(WorkerError::NotRegularFile { target: owned(target) })
        } else {
            Ok(InspectedTarget { canonical: path, facts: f })
        },
    }
}

/// How many bytes of a diagnostic stream are kept.
pub const STDERR_RETAIN_BYTES: usize = 65536;

/// How many bytes of an output stream are kept: one more than a read may
/// move, so an oversized read shows.
pub const READ_MAX_CAP: usize = 1048577;

/// Keeps what still fits of a chunk that was read; the caller reads on until
/// the stream ends, so a writer never blocks while the buffer stays bounded.
pub fn drain_retaining_cap(retained: &mut Vec<u8>, chunk: &Vec<u8>, cap: usize)
    requires
        old(retained)@.len() <= cap,
    ensures
        final(retained)@ == (old(retained)@ + chunk@).take(
            if old(retained)@.len() + chunk@.len() <= cap {
                (old(retained)@.len() + chunk@.len()) as int
            } else {
                cap as int
            },
        ),
        final(retained)@.len() <= cap,
{
    let ghost before = retained@;
    let room: usize = cap - retained.len();
    let take: usize = if chunk.len() < room {
        chunk.len()
    } else {
        room
    };
    let mut i: usize = 0;
    assert(before + chunk@.take(0) =~= before);
    while i < take
        invariant
            i <= take <= chunk.len(),
            retained@ == before + chunk@.take(i as int),
        decreases take - i,
    {
        retained.push(chunk[i]);
        i = i + 1;
        assert(retained@ =~= before + chunk@.take(i as int));
    }
    assert(before + chunk@.take(take as int) =~= (before + chunk@).take(before.len() + take));
}

/// What a confined child ended with.
#[derive(Debug)]
pub struct ObservedChild {
    /// The exit code, unless a signal ended it.
    pub code: Option<i32>,
    pub stdout: Vec<u8>,
    pub stderr: Vec<u8>,
}

/// The helper must be a file.
pub fn require_helper_file(path: &str, is_file: bool) -> (r: Result<String, WorkerError>)
    ensures
        macos::text_outcome(r) == (if is_file {
            Ok(path@)
        } else {
            Err(
                WorkerError::SandboxUnavailable {
                    reason: "confined helper is not a file: "@ + path@,
                },
            )
        }),
{
    if is_file {
        Ok(owned(path))
    } else {
        Err(
            WorkerError::SandboxUnavailable {
                reason: text2("confined helper is not a file: ", path),
            },
        )
    }
}

/// The exit code of a helper; a signal counts as a failed launch.
pub open spec fn exit_code_of(code: Option<i32>) -> i32 {
    match code {
        Some(c) => c,
        None => helper::EXIT_LAUNCH_EXEC,
    }
}

/// The verdict of a write probe.
pub open spec fn probe_verdict(
    code: Option<i32>,
    stderr: Seq<char>,
    target: Seq<char>,
) -> Result<(), WorkerError<Seq<char>>> {
    let c = exit_code_of(code);
    if c == helper::EXIT_OK {
        Ok(())
    } else if c == helper::EXIT_SANDBOX_INIT {
        Err(WorkerError::SandboxUnavailable { reason: stderr })
    } else if c == helper::EXIT_PROTOCOL || c == helper::EXIT_LAUNCH_EXEC || c
        == helper::EXIT_LAUNCH_NOT_FOUND {
        Err(WorkerError::SandboxSpawnFailed { source: stderr })
    } else {
        Err(WorkerError::SandboxDenied { target })
    }
}

/// Executable [`probe_verdict`].
pub fn helper_probe_verdict(observed: &ObservedChild, target: &str) -> (r: Result<
    (),
    WorkerError,
>)
    ensures
        macos::unit_outcome(r) == probe_verdict(
            observed.code,
            text::lossy_utf8(observed.stderr@),
            target@,
        ),
{
    let code: i32 = match observed.code {
        Some(c) => c,
        None => helper::EXIT_LAUNCH_EXEC,
    };
    let stderr: String = lossy_text(observed.stderr.as_slice());
    if code == helper::EXIT_OK {
        Ok(())
    } else if code == helper::EXIT_SANDBOX_INIT {
        Err(WorkerError::SandboxUnavailable { reason: stderr })
    } else if code == helper::EXIT_PROTOCOL || code == helper::EXIT_LAUNCH_EXEC
        || code == helper::EXIT_LAUNCH_NOT_FOUND {
        Err(WorkerError::SandboxSpawnFailed { source: stderr })
    } else {
        Err(WorkerError::SandboxDenied { target: owned(target) })
    }
}

/// The line prefix of the helper's own diagnostics.
pub const HELPER_PREFIX: &'static str = "rivect-sandbox-helper:";

/// Some line begins with the prefix of the helper.
pub open spec fn from_helper(lines: Seq<Seq<char>>) -> bool {
    exists|i: int|
        0 <= i < lines.len() && text::has_prefix(#[trigger] lines[i], HELPER_PREFIX@)
}

/// Whether a launch failed before the confined program ran: the helper
/// itself said so, at the beginning of a line. The same exit codes from a
/// program behind it are outcomes of the confined run.
pub open spec fn launch_failure(code: Option<i32>, stderr: Seq<char>) -> Option<
    WorkerError<Seq<char>>,
> {
    match code {
        Some(c) => if !from_helper(text::lines(stderr)) {
            None
        } else if c == helper::EXIT_SANDBOX_INIT {
            Some(WorkerError::SandboxUnavailable { reason: stderr })
        } else if c == helper::EXIT_LAUNCH_EXEC || c == helper::EXIT_LAUNCH_NOT_FOUND
            || c == helper::EXIT_PROTOCOL {
            Some(WorkerError::SandboxSpawnFailed { source: stderr })
        } else {
            None
        },
        None => None,
    }
}

pub open spec fn opt_worker(e: Option<WorkerError>) -> Option<WorkerError<Seq<char>>> {
    match e {
        Some(x) => Some(x@),
        None => None,
    }
}

/// Executable [`launch_failure`].
pub fn helper_launch_init_failed(observed: &ObservedChild) -> (r: Option<WorkerError>)
    ensures
        opt_worker(r) == launch_failure(
            observed.code,
            text::lossy_utf8(observed.stderr@),
        ),
{
    let stderr: String = lossy_text(observed.stderr.as_slice());
    let lines: Vec<String> = lines_of(stderr.as_str());
    let ghost all = text::texts(lines@);
    let mut found: bool = false;
    let mut i: usize = 0;
    while i < lines.len() && !found
        invariant
            i <= lines.len(),
            all == text::texts(lines@),
            found ==> from_helper(all),
            !found ==> forall|j: int|
                0 <= j < i ==> !text::has_prefix(#[trigger] all[j], HELPER_PREFIX@),
        decreases lines.len() - i,
    {
        assert(all[i as int] == lines@[i as int]@);
        if starts_with(lines[i].as_str(), HELPER_PREFIX) {
            found = true;
        }
        i = i + 1;
    }
    assert(found == from_helper(all));
    match observed.code {
        Some(c) => if !found {
            None
        } else if c == helper::EXIT_SANDBOX_INIT {
            Some(WorkerError::SandboxUnavailable { reason: stderr })
        } else if c == helper::EXIT_LAUNCH_EXEC || c == helper::EXIT_LAUNCH_NOT_FOUND
            || c == helper::EXIT_PROTOCOL {
            Some(WorkerError::SandboxSpawnFailed { source: stderr })
        } else {
            None
        },
        None => None,
    }
}

/// What a confined read or write ended with. A write that failed after the
/// target was truncated is a failed mutation: what is on disk is neither the
/// old nor the new content.
pub open spec fn io_verdict(
    code: Option<i32>,
    stdout: Seq<u8>,
    stderr: Seq<char>,
    read: bool,
) -> Result<Seq<u8>, WorkerError<Seq<char>>> {
    let c = exit_code_of(code);
    if c == helper::EXIT_OK {
        Ok(stdout)
    } else if c == helper::EXIT_SANDBOX_INIT {
        Err(WorkerError::SandboxUnavailable { reason: stderr })
    } else if c == helper::EXIT_DATA_IO {
        if read {
            Err(WorkerError::ReadFailed { source: stderr })
        } else {
            Err(WorkerError::WriteFailed { source: stderr })
        }
    } else if c == helper::EXIT_DATA_MUTATED && !read {
        Err(WorkerError::WriteMutationFailed { source: stderr })
    } else {
        Err(WorkerError::SandboxSpawnFailed { source: stderr })
    }
}

pub open spec fn bytes_outcome(r: Result<Vec<u8>, WorkerError>) -> Result<
    Seq<u8>,
    WorkerError<Seq<char>>,
> {
    match r {
        Ok(b) => Ok(b@),
        Err(e) => Err(e@),
    }
}

/// Executable [`io_verdict`].
pub fn helper_io_bytes(observed: ObservedChild, read: bool) -> (r: Result<Vec<u8>, WorkerError>)
    ensures
        bytes_outcome(r) == io_verdict(
            observed.code,
            observed.stdout@,
            text::lossy_utf8(observed.stderr@),
            read,
        ),
{
    let code: i32 = match observed.code {
        Some(c) => c,
        None => helper::EXIT_LAUNCH_EXEC,
    };
    let stderr: String = lossy_text(observed.stderr.as_slice());
    if code == helper::EXIT_OK {
        Ok(observed.stdout)
    } else if code == helper::EXIT_SANDBOX_INIT {
        Err(WorkerError::SandboxUnavailable { reason: stderr })
    } else if code == helper::EXIT_DATA_IO {
        if read {
            Err(WorkerError::ReadFailed { source: stderr })
        } else {
            Err(WorkerError::WriteFailed { source: stderr })
        }
    } else if code == helper::EXIT_DATA_MUTATED && !read {
        Err(WorkerError::WriteMutationFailed { source: stderr })
    } else {
        Err(WorkerError::SandboxSpawnFailed { source: stderr })
    }
}

/// Whether a root may hold the target of a write that must be denied: it
/// lies outside the scope.
pub fn usable_probe_root(scope: &str, root: &Option<String>) -> (r: bool)
    ensures
        r == (root matches Some(p) && !within(scope@, p@)),
{
    match root {
        Some(p) => !path_within(scope, p.as_str()),
        None => false,
    }
}

/// The budget of a scope.
#[derive(Debug, Clone, Copy, PartialEq, Eq, Structural)]
pub struct BudgetStatus {
    pub limit_units: u64,
    pub spent: u64,
    pub reserved: u64,
}

/// Units are left beside what is spent and reserved.
pub open spec fn has_units(b: BudgetStatus) -> bool {
    (if b.spent + b.reserved > u64::MAX {
        u64::MAX as int
    } else {
        b.spent + b.reserved
    }) < b.limit_units
}

pub open spec fn budget_view(r: Result<BudgetStatus, StoreError>) -> Result<
    BudgetStatus,
    StoreError<Seq<char>>,
> {
    match r {
        Ok(b) => Ok(b),
        Err(e) => Err(e@),
    }
}

pub open spec fn bool_view(r: Result<bool, StoreError>) -> Result<bool, StoreError<Seq<char>>> {
    match r {
        Ok(b) => Ok(b),
        Err(e) => Err(e@),
    }
}

/// Whether a scope has budget left; a scope without a budget has none.
pub open spec fn budget_left(status: Result<BudgetStatus, StoreError<Seq<char>>>) -> Result<
    bool,
    ExecutorError<Seq<char>>,
> {
    match status {
        Ok(b) => Ok(has_units(b)),
        Err(StoreError::NotFound(_)) => Ok(false),
        Err(e) => Err(ExecutorError::Store(e)),
    }
}

pub open spec fn executor_bool(r: Result<bool, ExecutorError>) -> Result<
    bool,
    ExecutorError<Seq<char>>,
> {
    match r {
        Ok(b) => Ok(b),
        Err(e) => Err(e@),
    }
}

/// Executable [`budget_left`].
pub fn budget_has_remaining(status: Result<BudgetStatus, StoreError>) -> (r: Result<
    bool,
    ExecutorError,
>)
    ensures
        executor_bool(r) == budget_left(budget_view(status)),
{
    match status {
        Ok(b) => {
            let used: u64 = if b.reserved > u64::MAX - b.spent {
                u64::MAX
            } else {
                b.spent + b.reserved
            };
            Ok(used < b.limit_units)
        },
        Err(StoreError::NotFound(_)) => Ok(false),
        Err(e) => Err(ExecutorError::Store(e)),
    }
}

/// Whether a target lies in the grant scope: what cannot be resolved does
/// not, and a target outside is denied.
pub open spec fn grant_scope(
    scope: Option<Seq<char>>,
    canonical: Option<Seq<char>>,
    target: Seq<char>,
) -> Result<bool, ExecutorError<Seq<char>>> {
    match (scope, canonical) {
        (Some(s), Some(t)) => if within(s, t) {
            Ok(true)
        } else {
            Err(ExecutorError::Worker(WorkerError::OutsideScope { target }))
        },
        _ => Ok(false),
    }
}

/// Executable [`grant_scope`].
pub fn derive_in_grant_scope(
    scope: &Option<String>,
    canonical: &Option<String>,
    target: &str,
) -> (r: Result<bool, ExecutorError>)
    ensures
        executor_bool(r) == grant_scope(
            text::opt_text(*scope),
            text::opt_text(*canonical),
            target@,
        ),
{
    match (scope, canonical) {
        (Some(s), Some(t)) => if path_within(s.as_str(), t.as_str()) {
            Ok(true)
        } else {
            Err(ExecutorError::Worker(WorkerError::OutsideScope { target: owned(target) }))
        },
        _ => Ok(false),
    }
}

/// The key of a retained checkpoint on one canonical scope.
pub fn checkpoint_boundary_id(canonical_scope: &str) -> (r: String)
    ensures
        r@ == "ret:checkpoint:"@ + canonical_scope@,
{
    text2("ret:checkpoint:", canonical_scope)
}

/// What was looked up for a decision. The budget and the checkpoint are
/// those of the canonical scope; the approval is that of the preapproval key
/// of the target.
#[derive(Debug)]
pub struct ContextFacts {
    /// The canonical scope root, when it resolves.
    pub scope: Option<String>,
    /// The canonical target, when it resolves.
    pub canonical_target: Option<String>,
    pub budget: Result<BudgetStatus, StoreError>,
    pub checkpoint: Result<bool, StoreError>,
    pub approved: Result<bool, StoreError>,
}

/// The mathematical value of the facts.
pub struct FactsView {
    pub scope: Option<Seq<char>>,
    pub canonical_target: Option<Seq<char>>,
    pub budget: Result<BudgetStatus, StoreError<Seq<char>>>,
    pub checkpoint: Result<bool, StoreError<Seq<char>>>,
    pub approved: Result<bool, StoreError<Seq<char>>>,
}

impl View for ContextFacts {
    type V = FactsView;

    open spec fn view(&self) -> FactsView {
        FactsView {
            scope: text::opt_text(self.scope),
            canonical_target: text::opt_text(self.canonical_target),
            budget: budget_view(self.budget),
            checkpoint: bool_view(self.checkpoint),
            approved: bool_view(self.approved),
        }
    }
}

/// The inputs of a mode decision. What cannot be observed never grants; an
/// egress is within its bounds only when it was approved before.
pub open spec fn context_of(
    mode: PermissionMode,
    class: EffectClass,
    target: Seq<char>,
    facts: FactsView,
) -> Result<AdmissionContext, ExecutorError<Seq<char>>> {
    match grant_scope(facts.scope, facts.canonical_target, target) {
        Err(e) => Err(e),
        Ok(inside) => {
            let budget = if facts.scope is Some {
                budget_left(facts.budget)
            } else {
                Ok(false)
            };
            let checkpoint = if facts.scope is Some {
                facts.checkpoint
            } else {
                Ok(false)
            };
            match budget {
                Err(e) => Err(e),
                Ok(units) => match checkpoint {
                    Err(e) => Err(ExecutorError::Store(e)),
                    Ok(kept) => match facts.approved {
                        Err(e) => Err(ExecutorError::Store(e)),
                        Ok(approved) => Ok(
                            AdmissionContext {
                                mode,
                                in_grant_scope: inside,
                                budget_remaining: units,
                                in_trusted_scope: inside,
                                has_checkpoint: kept,
                                previously_approved: approved,
                                within_declared_bounds: (class == EffectClass::Exec && inside) || (
                                class == EffectClass::Egress && approved),
                                dry_run: false,
                            },
                        ),
                    },
                },
            }
        },
    }
}

pub open spec fn context_view(r: Result<AdmissionContext, ExecutorError>) -> Result<
    AdmissionContext,
    ExecutorError<Seq<char>>,
> {
    match r {
        Ok(c) => Ok(c),
        Err(e) => Err(e@),
    }
}

/// Executable [`context_of`].
pub fn admission_context(
    mode: PermissionMode,
    class: EffectClass,
    target: &str,
    facts: ContextFacts,
) -> (r: Result<AdmissionContext, ExecutorError>)
    ensures
        context_view(r) == context_of(mode, class, target@, facts@),
{
    let inside: bool = match derive_in_grant_scope(
        &facts.scope,
        &facts.canonical_target,
        target,
    ) {
        Ok(b) => b,
        Err(e) => {
            return Err(e);
        },
    };
    let units: bool = if facts.scope.is_some() {
        match budget_has_remaining(facts.budget) {
            Ok(b) => b,
            Err(e) => {
                return Err(e);
            },
        }
    } else {
        false
    };
    let kept: bool = if facts.scope.is_some() {
        match facts.checkpoint {
            Ok(b) => b,
            Err(e) => {
                return Err(ExecutorError::Store(e));
            },
        }
    } else {
        false
    };
    let approved: bool = match facts.approved {
        Ok(b) => b,
        Err(e) => {
            return Err(ExecutorError::Store(e));
        },
    };
    Ok(
        AdmissionContext {
            mode,
            in_grant_scope: inside,
            budget_remaining: units,
            in_trusted_scope: inside,
            has_checkpoint: kept,
            previously_approved: approved,
            within_declared_bounds: match class {
                EffectClass::Exec => inside,
                EffectClass::Egress => approved,
                _ => false,
            },
            dry_run: false,
        },
    )
}

/// The ledger reason of a verdict that does not allow.
pub open spec fn refusal_reason(d: ModeDecision) -> Seq<char> {
    if d == ModeDecision::Ask {
        MODE_ASK_REASON@
    } else {
        MODE_DENY_REASON@
    }
}

/// Executable [`refusal_reason`].
pub fn mode_reason(decision: ModeDecision) -> (r: &'static str)
    requires
        decision != ModeDecision::Allow,
    ensures
        r@ == refusal_reason(decision),
{
    match decision {
        ModeDecision::Ask => MODE_ASK_REASON,
        _ => MODE_DENY_REASON,
    }
}

/// The effect backend of a platform.
pub fn backend(linux: bool) -> (r: &'static str)
    ensures
        r@ == (if linux {
            "linux"@
        } else {
            "macos"@
        }),
{
    if linux {
        linux::BACKEND
    } else {
        macos::BACKEND
    }
}

} // verus!
