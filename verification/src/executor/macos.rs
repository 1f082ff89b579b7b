//! The effect backend on macOS and the vocabulary every backend shares.

use crate::executor::legs::{
    self, egress_verdict, exec_step, opened_verdict, probe_conformance, probe_words, write_size,
    ExecStep, OpenOutcome, ProbeAnswer, ProbeStep, ProbeWords,
};
use crate::executor::{
    self, helper_launch_init_failed, InspectedTarget, ObservedChild, Resolved,
};
use crate::policy::scan::{self, replace_all};
use crate::text::{
    self, chars_of, control_char, decimal_text, join_names, lines_of, lossy_text, owned,
    starts_with, text2, text3, text4, text5,
};
use vstd::prelude::*;

verus! {

/// Ceiling on the bytes one read effect may move.
pub const READ_MAX_BYTES: usize = 1048576;

/// Ceiling on the bytes one managed write may move.
pub const WRITE_MAX_BYTES: usize = 1048576;

/// Why a worker leg did not run its effect. Paths and operating-system errors
/// are carried as text.
#[derive(Debug)]
pub enum WorkerError<T = String> {
    ScopeRootUnavailable { source: T },
    TargetMissing { target: T },
    OutsideScope { target: T },
    MetadataUnavailable { source: T },
    NotRegularFile { target: T },
    TargetChanged { target: T },
    ReadFailed { source: T },
    WriteFailed { source: T },
    WriteMutationFailed { source: T },
    WriteUnavailable,
    ExecUnavailable,
    EgressUnavailable,
    WriteTooLarge,
    WriteLengthOverflow { source: T },
    TooLarge,
    SandboxDenied { target: T },
    SandboxSpawnFailed { source: T },
    SandboxUnavailable { reason: T },
    ConfinedRunTimedOut,
}

impl View for WorkerError {
    type V = WorkerError<Seq<char>>;

    open spec fn view(&self) -> WorkerError<Seq<char>> {
        match self {
            WorkerError::ScopeRootUnavailable { source } => WorkerError::ScopeRootUnavailable {
                source: source@,
            },
            WorkerError::TargetMissing { target } => WorkerError::TargetMissing { target: target@ },
            WorkerError::OutsideScope { target } => WorkerError::OutsideScope { target: target@ },
            WorkerError::MetadataUnavailable { source } => WorkerError::MetadataUnavailable {
                source: source@,
            },
            WorkerError::NotRegularFile { target } => WorkerError::NotRegularFile {
                target: target@,
            },
            WorkerError::TargetChanged { target } => WorkerError::TargetChanged { target: target@ },
            WorkerError::ReadFailed { source } => WorkerError::ReadFailed { source: source@ },
            WorkerError::WriteFailed { source } => WorkerError::WriteFailed { source: source@ },
            WorkerError::WriteMutationFailed { source } => WorkerError::WriteMutationFailed {
                source: source@,
            },
            WorkerError::WriteUnavailable => WorkerError::WriteUnavailable,
            WorkerError::ExecUnavailable => WorkerError::ExecUnavailable,
            WorkerError::EgressUnavailable => WorkerError::EgressUnavailable,
            WorkerError::WriteTooLarge => WorkerError::WriteTooLarge,
            WorkerError::WriteLengthOverflow { source } => WorkerError::WriteLengthOverflow {
                source: source@,
            },
            WorkerError::TooLarge => WorkerError::TooLarge,
            WorkerError::SandboxDenied { target } => WorkerError::SandboxDenied { target: target@ },
            WorkerError::SandboxSpawnFailed { source } => WorkerError::SandboxSpawnFailed {
                source: source@,
            },
            WorkerError::SandboxUnavailable { reason } => WorkerError::SandboxUnavailable {
                reason: reason@,
            },
            WorkerError::ConfinedRunTimedOut => WorkerError::ConfinedRunTimedOut,
        }
    }
}

/// The diagnostic line of a worker error.
pub open spec fn worker_message(e: WorkerError<Seq<char>>) -> Seq<char> {
    match e {
        WorkerError::ScopeRootUnavailable { source } => "denied: scope root unavailable: "@
            + source,
        WorkerError::TargetMissing { target } => "not found: target does not exist: "@ + target,
        WorkerError::OutsideScope { target } => "denied: target "@ + target
            + " is outside the admitted scope"@,
        WorkerError::MetadataUnavailable { source } => "denied: target metadata unavailable: "@
            + source,
        WorkerError::NotRegularFile { target } => "denied: target "@ + target
            + " is not a regular file"@,
        WorkerError::TargetChanged { target } => "denied: target changed while opening: "@ + target,
        WorkerError::ReadFailed { source } => "denied: read failed: "@ + source,
        WorkerError::WriteFailed { source } => "denied: write failed: "@ + source,
        WorkerError::WriteMutationFailed { source } =>
            "denied: managed write failed after mutation: "@ + source,
        WorkerError::WriteUnavailable => "denied: managed write backend unavailable"@,
        WorkerError::ExecUnavailable => "denied: exec backend unavailable"@,
        WorkerError::EgressUnavailable => "denied: egress backend unavailable"@,
        WorkerError::WriteTooLarge => "denied: managed write exceeds the 1048576 byte limit"@,
        WorkerError::WriteLengthOverflow { source } =>
            "denied: managed write length conversion failed: "@ + source,
        WorkerError::TooLarge => "denied: target exceeds the 1048576 byte read limit"@,
        WorkerError::SandboxDenied { target } => "denied: the seatbelt boundary rejected "@
            + target,
        WorkerError::SandboxSpawnFailed { source } =>
            "capability unavailable: seatbelt sandbox-exec could not be started: "@ + source
            + "; recovery: fix the environment or run on a capable kernel"@,
        WorkerError::SandboxUnavailable { reason } => "capability unavailable: sandbox "@ + reason
            + "; recovery: fix the environment or run on a capable kernel"@,
        WorkerError::ConfinedRunTimedOut =>
            "capability unavailable: confined run exceeded the wall deadline; recovery: fix the environment or run on a capable kernel"@,
    }
}

impl WorkerError {
    /// The diagnostic line of this error.
    pub fn message(&self) -> (r: String)
        ensures
            r@ == worker_message(self@),
    {
        let (head, middle, tail): (&str, &str, &str) = match self {
            WorkerError::ScopeRootUnavailable { source } => (
                "denied: scope root unavailable: ",
                source.as_str(),
                "",
            ),
            WorkerError::TargetMissing { target } => (
                "not found: target does not exist: ",
                target.as_str(),
                "",
            ),
            WorkerError::OutsideScope { target } => (
                "denied: target ",
                target.as_str(),
                " is outside the admitted scope",
            ),
            WorkerError::MetadataUnavailable { source } => (
                "denied: target metadata unavailable: ",
                source.as_str(),
                "",
            ),
            WorkerError::NotRegularFile { target } => (
                "denied: target ",
                target.as_str(),
                " is not a regular file",
            ),
            WorkerError::TargetChanged { target } => (
                "denied: target changed while opening: ",
                target.as_str(),
                "",
            ),
            WorkerError::ReadFailed { source } => ("denied: read failed: ", source.as_str(), ""),
            WorkerError::WriteFailed { source } => ("denied: write failed: ", source.as_str(), ""),
            WorkerError::WriteMutationFailed { source } => (
                "denied: managed write failed after mutation: ",
                source.as_str(),
                "",
            ),
            WorkerError::WriteUnavailable => ("denied: managed write backend unavailable", "", ""),
            WorkerError::ExecUnavailable => ("denied: exec backend unavailable", "", ""),
            WorkerError::EgressUnavailable => ("denied: egress backend unavailable", "", ""),
            WorkerError::WriteTooLarge => (
                "denied: managed write exceeds the 1048576 byte limit",
                "",
                "",
            ),
            WorkerError::WriteLengthOverflow { source } => (
                "denied: managed write length conversion failed: ",
                source.as_str(),
                "",
            ),
            WorkerError::TooLarge => (
                "denied: target exceeds the 1048576 byte read limit",
                "",
                "",
            ),
            WorkerError::SandboxDenied { target } => (
                "denied: the seatbelt boundary rejected ",
                target.as_str(),
                "",
            ),
            WorkerError::SandboxSpawnFailed { source } => (
                "capability unavailable: seatbelt sandbox-exec could not be started: ",
                source.as_str(),
                "; recovery: fix the environment or run on a capable kernel",
            ),
            WorkerError::SandboxUnavailable { reason } => (
                "capability unavailable: sandbox ",
                reason.as_str(),
                "; recovery: fix the environment or run on a capable kernel",
            ),
            WorkerError::ConfinedRunTimedOut => (
                "capability unavailable: confined run exceeded the wall deadline; recovery: fix the environment or run on a capable kernel",
                "",
                "",
            ),
        };
        proof {
            reveal_strlit("");
            assert(""@ =~= Seq::<char>::empty());
            assert(head@ + middle@ + ""@ =~= head@ + middle@);
            assert(head@ + ""@ + ""@ =~= head@);
        }
        text3(head, middle, tail)
    }
}

/// Copies a worker error.
impl Clone for WorkerError {
    fn clone(&self) -> (r: Self)
        ensures
            r@ == self@,
    {
        match self {
            WorkerError::ScopeRootUnavailable { source } => WorkerError::ScopeRootUnavailable {
                source: source.clone(),
            },
            WorkerError::TargetMissing { target } => WorkerError::TargetMissing {
                target: target.clone(),
            },
            WorkerError::OutsideScope { target } => WorkerError::OutsideScope {
                target: target.clone(),
            },
            WorkerError::MetadataUnavailable { source } => WorkerError::MetadataUnavailable {
                source: source.clone(),
            },
            WorkerError::NotRegularFile { target } => WorkerError::NotRegularFile {
                target: target.clone(),
            },
            WorkerError::TargetChanged { target } => WorkerError::TargetChanged {
                target: target.clone(),
            },
            WorkerError::ReadFailed { source } => WorkerError::ReadFailed {
                source: source.clone(),
            },
            WorkerError::WriteFailed { source } => WorkerError::WriteFailed {
                source: source.clone(),
            },
            WorkerError::WriteMutationFailed { source } => WorkerError::WriteMutationFailed {
                source: source.clone(),
            },
            WorkerError::WriteUnavailable => WorkerError::WriteUnavailable,
            WorkerError::ExecUnavailable => WorkerError::ExecUnavailable,
            WorkerError::EgressUnavailable => WorkerError::EgressUnavailable,
            WorkerError::WriteTooLarge => WorkerError::WriteTooLarge,
            WorkerError::WriteLengthOverflow { source } => WorkerError::WriteLengthOverflow {
                source: source.clone(),
            },
            WorkerError::TooLarge => WorkerError::TooLarge,
            WorkerError::SandboxDenied { target } => WorkerError::SandboxDenied {
                target: target.clone(),
            },
            WorkerError::SandboxSpawnFailed { source } => WorkerError::SandboxSpawnFailed {
                source: source.clone(),
            },
            WorkerError::SandboxUnavailable { reason } => WorkerError::SandboxUnavailable {
                reason: reason.clone(),
            },
            WorkerError::ConfinedRunTimedOut => WorkerError::ConfinedRunTimedOut,
        }
    }
}

pub const BACKEND: &'static str = "macos";

/// The device and inode of a file.
#[derive(Debug, Clone, Copy, PartialEq, Eq, Structural)]
pub struct FileIdentity {
    pub dev: u64,
    pub ino: u64,
}

/// What the metadata of a file says.
#[derive(Debug, Clone, Copy, PartialEq, Eq, Structural)]
pub struct FileFacts {
    pub regular: bool,
    pub dev: u64,
    pub ino: u64,
    pub len: u64,
}

impl FileIdentity {
    /// The identity that some metadata names.
    pub fn from_metadata(facts: FileFacts) -> (r: Self)
        ensures
            r == (FileIdentity { dev: facts.dev, ino: facts.ino }),
    {
        FileIdentity { dev: facts.dev, ino: facts.ino }
    }
}

/// The bytes one read moved, and their digest.
#[derive(Debug)]
pub struct ReadObservation {
    pub bytes: Vec<u8>,
    pub digest: String,
}

/// The backend seam: every effect crosses a worker leg. A leg that a backend
/// does not have is denied closed.
pub trait ReadWorker {
    fn read_once(&mut self, scope_root: &str, target: &str) -> Result<ReadObservation, WorkerError>;

    fn write_once(
        &mut self,
        scope_root: &str,
        target: &str,
        expected: FileIdentity,
        bytes: &Vec<u8>,
    ) -> (r: Result<(), WorkerError>)
        default_ensures
            r matches Err(e) && e@ == WorkerError::<Seq<char>>::WriteUnavailable,
    {
        Err(WorkerError::WriteUnavailable)
    }

    fn exec_once(&mut self, scope_root: &str, program: &str) -> (r: Result<(), WorkerError>)
        default_ensures
            r matches Err(e) && e@ == WorkerError::<Seq<char>>::ExecUnavailable,
    {
        Err(WorkerError::ExecUnavailable)
    }

    fn egress_once(&mut self, url: &str) -> (r: Result<(), WorkerError>)
        default_ensures
            r matches Err(e) && e@ == WorkerError::<Seq<char>>::EgressUnavailable,
    {
        Err(WorkerError::EgressUnavailable)
    }
}

/// The launcher of the boundary.
pub const SANDBOX_EXEC: &'static str = "/usr/bin/sandbox-exec";

/// The line prefix of a deprecation notice.
pub const DEPRECATION_PREFIX: &'static str = "WARNING: sandbox-exec is deprecated";

/// The read target that the boundary must deny.
pub const DENIED_PROBE_TARGET: &'static str = "/private/etc/hosts";

/// The program of the read legs.
pub const CAT: &'static str = "/bin/cat";

/// The program of the probe's write legs.
pub const TOUCH: &'static str = "/usr/bin/touch";

/// The helper of the egress control leg.
pub const EGRESS_HELPER: &'static str = "/usr/bin/nc";

/// What every confined helper may read.
pub const SYSTEM_READ_RULES: &'static str = "    (allow file-read* (literal \"/\"))\n    (allow file-read* (subpath \"/bin\"))\n    (allow file-read* (subpath \"/usr/bin\"))\n    (allow file-read* (subpath \"/usr/lib\"))\n    (allow file-read* (subpath \"/usr/libexec\"))\n    (allow file-read* (subpath \"/usr/share\"))\n    (allow file-read* (subpath \"/System\"))\n    (allow file-read* (subpath \"/dev\"))\n";

/// What a confined program may read.
pub const EXEC_SYSTEM_READ_RULES: &'static str = "    (allow file-read* (literal \"/\"))\n    (allow file-read* (subpath \"/bin\"))\n    (allow file-read* (subpath \"/usr/bin\"))\n    (allow file-read* (subpath \"/usr/lib\"))\n    (allow file-read* (subpath \"/usr/libexec\"))\n    (allow file-read* (subpath \"/usr/share\"))\n    (allow file-read* (subpath \"/System\"))\n";

/// The canonical scope as text, or why there is none.
pub open spec fn scope_text(scope: Result<Option<Seq<char>>, Seq<char>>) -> Result<
    Seq<char>,
    WorkerError<Seq<char>>,
> {
    match scope {
        Err(source) => Err(WorkerError::ScopeRootUnavailable { source }),
        Ok(None) => Err(
            WorkerError::SandboxUnavailable { reason: "scope root is not valid unicode"@ },
        ),
        Ok(Some(t)) => Ok(t),
    }
}

pub open spec fn text_outcome(r: Result<String, WorkerError>) -> Result<
    Seq<char>,
    WorkerError<Seq<char>>,
> {
    match r {
        Ok(t) => Ok(t@),
        Err(e) => Err(e@),
    }
}

pub open spec fn unit_outcome(r: Result<(), WorkerError>) -> Result<(), WorkerError<Seq<char>>> {
    match r {
        Ok(_) => Ok(()),
        Err(e) => Err(e@),
    }
}

/// Executable [`scope_text`]: `scope` is what canonicalizing the scope root
/// gave.
pub fn canonical_scope(scope: &Resolved) -> (r: Result<String, WorkerError>)
    ensures
        text_outcome(r) == scope_text(executor::resolved_view(*scope)),
{
    match scope {
        Err(source) => Err(WorkerError::ScopeRootUnavailable { source: source.clone() }),
        Ok(None) => Err(
            WorkerError::SandboxUnavailable { reason: owned("scope root is not valid unicode") },
        ),
        Ok(Some(t)) => Ok(t.clone()),
    }
}

pub open spec fn has_control(s: Seq<char>) -> bool {
    exists|i: int| 0 <= i < s.len() && text::is_control(#[trigger] s[i])
}

/// A text as a profile literal: quotes and backslashes are escaped; a text
/// with control characters has none.
pub open spec fn literal_of(text: Seq<char>) -> Result<Seq<char>, WorkerError<Seq<char>>> {
    if has_control(text) {
        Err(WorkerError::SandboxUnavailable { reason: "scope root contains control characters"@ })
    } else {
        Ok(
            "\""@ + scan::replaced(
                scan::replaced(text, '\\', "\\\\"@),
                '"',
                "\\\""@,
            ) + "\""@,
        )
    }
}

/// Executable [`literal_of`].
pub fn scheme_literal(text: &str) -> (r: Result<String, WorkerError>)
    ensures
        text_outcome(r) == literal_of(text@),
{
    let chars: Vec<char> = chars_of(text);
    let mut i: usize = 0;
    while i < chars.len()
        invariant
            i <= chars.len(),
            chars@ == text@,
            forall|j: int| 0 <= j < i ==> !text::is_control(#[trigger] text@[j]),
        decreases chars.len() - i,
    {
        if control_char(chars[i]) {
            assert(text::is_control(text@[i as int]));
            return Err(
                WorkerError::SandboxUnavailable {
                    reason: owned("scope root contains control characters"),
                },
            );
        }
        i = i + 1;
    }
    let once: String = replace_all(text, '\\', "\\\\");
    let twice: String = replace_all(once.as_str(), '"', "\\\"");
    Ok(text3("\"", twice.as_str(), "\""))
}

pub open spec fn profile_with(
    scope: Result<Option<Seq<char>>, Seq<char>>,
    head: Seq<char>,
    middle: Seq<char>,
    tail: Seq<char>,
) -> Result<Seq<char>, WorkerError<Seq<char>>> {
    match scope_text(scope) {
        Err(e) => Err(e),
        Ok(t) => match literal_of(t) {
            Err(e) => Err(e),
            Ok(l) => Ok(head + middle + l + tail),
        },
    }
}

fn scope_literal(scope: &Resolved) -> (r: Result<String, WorkerError>)
    ensures
        text_outcome(r) == (match scope_text(executor::resolved_view(*scope)) {
            Err(e) => Err(e),
            Ok(t) => literal_of(t),
        }),
{
    match canonical_scope(scope) {
        Err(e) => Err(e),
        Ok(t) => scheme_literal(t.as_str()),
    }
}

/// The profile of one read of a scope.
pub open spec fn read_rules(scope: Result<Option<Seq<char>>, Seq<char>>) -> Result<
    Seq<char>,
    WorkerError<Seq<char>>,
> {
    profile_with(
        scope,
        "(version 1)\n    (allow process-exec (literal \"/bin/cat\"))\n"@ + SYSTEM_READ_RULES@,
        "    (allow file-read* (subpath "@,
        "))\n"@,
    )
}

/// The profile that admits exactly one read of a scope.
pub fn read_profile(scope: &Resolved) -> (r: Result<String, WorkerError>)
    ensures
        text_outcome(r) == read_rules(executor::resolved_view(*scope)),
{
    match scope_literal(scope) {
        Err(e) => Err(e),
        Ok(l) => {
            let head: String = text2(
                "(version 1)\n    (allow process-exec (literal \"/bin/cat\"))\n",
                SYSTEM_READ_RULES,
            );
            Ok(text4(head.as_str(), "    (allow file-read* (subpath ", l.as_str(), "))\n"))
        },
    }
}

/// The profile of writes inside a scope.
pub open spec fn write_rules(scope: Result<Option<Seq<char>>, Seq<char>>) -> Result<
    Seq<char>,
    WorkerError<Seq<char>>,
> {
    match scope_text(scope) {
        Err(e) => Err(e),
        Ok(t) => match literal_of(t) {
            Err(e) => Err(e),
            Ok(l) => Ok(
                "(version 1)\n    (allow process-exec (literal \"/usr/bin/touch\"))\n"@
                    + SYSTEM_READ_RULES@ + "    (allow file-read* (subpath "@ + l
                    + "))\n    (allow file-write* (subpath "@ + (l + "))\n"@),
            ),
        },
    }
}

/// The profile that admits reads of a scope and writes only inside it.
pub fn write_profile(scope: &Resolved) -> (r: Result<String, WorkerError>)
    ensures
        text_outcome(r) == write_rules(executor::resolved_view(*scope)),
{
    match scope_literal(scope) {
        Err(e) => Err(e),
        Ok(l) => {
            let tail: String = text2(l.as_str(), "))\n");
            let head: String = text5(
                "(version 1)\n    (allow process-exec (literal \"/usr/bin/touch\"))\n",
                SYSTEM_READ_RULES,
                "    (allow file-read* (subpath ",
                l.as_str(),
                "))\n    (allow file-write* (subpath ",
            );
            Ok(text2(head.as_str(), tail.as_str()))
        },
    }
}

/// The profile under which bytes move through a handle that is already open:
/// the bytes fit, the target is inspected anew, and the handle is that file
/// and the admitted one.
pub open spec fn opened_write_rules(
    scope: Result<Option<Seq<char>>, Seq<char>>,
    target: Seq<char>,
    inspected: Result<(Seq<char>, FileFacts), WorkerError<Seq<char>>>,
    opened: Result<FileFacts, Seq<char>>,
    expected: FileIdentity,
    size: nat,
) -> Result<Seq<char>, WorkerError<Seq<char>>> {
    if size > WRITE_MAX_BYTES {
        Err(WorkerError::WriteTooLarge)
    } else {
        match inspected {
            Err(e) => Err(e),
            Ok(t) => match legs::write_opened(
                target,
                t.1,
                expected,
                match opened {
                    Ok(f) => OpenOutcome::Opened(f),
                    Err(source) => OpenOutcome::NoMetadata(source),
                },
            ) {
                Err(e) => Err(e),
                Ok(_) => write_rules(scope),
            },
        }
    }
}

/// Executable [`opened_write_rules`]: the helper moves the bytes under the
/// profile that this gives.
pub fn write_once_on_opened_file(
    scope: &Resolved,
    target: &str,
    inspected: Result<InspectedTarget, WorkerError>,
    opened: Result<FileFacts, String>,
    expected: FileIdentity,
    bytes: &Vec<u8>,
) -> (r: Result<String, WorkerError>)
    ensures
        text_outcome(r) == opened_write_rules(
            executor::resolved_view(*scope),
            target@,
            executor::inspected_view(inspected),
            executor::facts_view(opened),
            expected,
            bytes@.len(),
        ),
{
    match write_size(bytes) {
        Err(e) => {
            return Err(e);
        },
        Ok(_) => {},
    }
    let found: InspectedTarget = match inspected {
        Err(e) => {
            return Err(e);
        },
        Ok(t) => t,
    };
    let handle: OpenOutcome = match opened {
        Ok(f) => OpenOutcome::Opened(f),
        Err(source) => OpenOutcome::NoMetadata(source),
    };
    match opened_verdict(target, found.facts, Some(expected), handle) {
        Err(e) => Err(e),
        Ok(_) => write_profile(scope),
    }
}

/// The profile of programs inside a scope.
pub open spec fn exec_rules(scope: Result<Option<Seq<char>>, Seq<char>>) -> Result<
    Seq<char>,
    WorkerError<Seq<char>>,
> {
    profile_with(
        scope,
        "(version 1)\n"@ + EXEC_SYSTEM_READ_RULES@,
        "    (allow process-exec (subpath "@,
        "))\n"@,
    )
}

/// The profile that admits programs only inside a scope.
pub fn exec_profile(scope: &Resolved) -> (r: Result<String, WorkerError>)
    ensures
        text_outcome(r) == exec_rules(executor::resolved_view(*scope)),
{
    match scope_literal(scope) {
        Err(e) => Err(e),
        Ok(l) => {
            let head: String = text2("(version 1)\n", EXEC_SYSTEM_READ_RULES);
            Ok(text4(head.as_str(), "    (allow process-exec (subpath ", l.as_str(), "))\n"))
        },
    }
}

/// The profile of the egress boundary: nothing on the network is allowed.
pub fn egress_profile() -> (r: String)
    ensures
        r@ == "(version 1)\n    (allow process-exec (literal \"/usr/bin/nc\"))\n"@
            + SYSTEM_READ_RULES@,
{
    text2(
        "(version 1)\n    (allow process-exec (literal \"/usr/bin/nc\"))\n",
        SYSTEM_READ_RULES,
    )
}

/// What one confined run ended with. Only the exit status decides.
#[derive(Debug)]
pub struct ConfinedOutcome<T = String> {
    pub exit_ok: bool,
    pub stderr: T,
    pub deprecation_notices: T,
}

pub open spec fn outcome_view(o: ConfinedOutcome) -> ConfinedOutcome<Seq<char>> {
    ConfinedOutcome {
        exit_ok: o.exit_ok,
        stderr: o.stderr@,
        deprecation_notices: o.deprecation_notices@,
    }
}

/// The lines with a prefix, or those without it.
pub open spec fn lines_with(
    lines: Seq<Seq<char>>,
    prefix: Seq<char>,
    with: bool,
) -> Seq<Seq<char>>
    decreases lines.len(),
{
    if lines.len() == 0 {
        Seq::empty()
    } else if text::has_prefix(lines.last(), prefix) == with {
        lines_with(lines.drop_last(), prefix, with).push(lines.last())
    } else {
        lines_with(lines.drop_last(), prefix, with)
    }
}

/// Splits a diagnostic stream into what stays and the deprecation notices:
/// a line is a notice only when it begins with the exact prefix.
pub fn split_deprecation_stderr(raw: &str) -> (r: (String, String))
    ensures
        r.0@ == text::join(
            lines_with(text::lines(raw@), DEPRECATION_PREFIX@, false),
            "\n"@,
        ),
        r.1@ == text::join(
            lines_with(text::lines(raw@), DEPRECATION_PREFIX@, true),
            "\n"@,
        ),
{
    let lines: Vec<String> = lines_of(raw);
    let ghost all = text::texts(lines@);
    let mut retained: Vec<String> = Vec::new();
    let mut notices: Vec<String> = Vec::new();
    let mut i: usize = 0;
    assert(all.take(0) =~= Seq::empty());
    assert(text::texts(retained@) =~= Seq::empty());
    assert(text::texts(notices@) =~= Seq::empty());
    while i < lines.len()
        invariant
            i <= lines.len(),
            all == text::texts(lines@),
            text::texts(retained@) == lines_with(
                all.take(i as int),
                DEPRECATION_PREFIX@,
                false,
            ),
            text::texts(notices@) == lines_with(
                all.take(i as int),
                DEPRECATION_PREFIX@,
                true,
            ),
        decreases lines.len() - i,
    {
        assert(all.take(i as int + 1).drop_last() =~= all.take(i as int));
        assert(all.take(i as int + 1).last() == lines@[i as int]@);
        let line: String = lines[i].clone();
        if starts_with(line.as_str(), DEPRECATION_PREFIX) {
            proof {
                text::lemma_texts_push(notices@, line);
            }
            notices.push(line);
        } else {
            proof {
                text::lemma_texts_push(retained@, line);
            }
            retained.push(line);
        }
        i = i + 1;
    }
    assert(all.take(all.len() as int) =~= all);
    (join_names(&retained, "\n"), join_names(&notices, "\n"))
}

/// What a confined run comes to: a launch that failed is no outcome.
pub open spec fn confined_run(code: Option<i32>, stderr: Seq<char>) -> Result<
    ConfinedOutcome<Seq<char>>,
    WorkerError<Seq<char>>,
> {
    match executor::launch_failure(code, stderr) {
        Some(e) => Err(e),
        None => {
            let lines = text::lines(stderr);
            Ok(
                ConfinedOutcome {
                    exit_ok: code == Some(0i32),
                    stderr: text::join(
                        lines_with(lines, DEPRECATION_PREFIX@, false),
                        "\n"@,
                    ),
                    deprecation_notices: text::join(
                        lines_with(lines, DEPRECATION_PREFIX@, true),
                        "\n"@,
                    ),
                },
            )
        },
    }
}

pub open spec fn run_view(r: Result<ConfinedOutcome, WorkerError>) -> Result<
    ConfinedOutcome<Seq<char>>,
    WorkerError<Seq<char>>,
> {
    match r {
        Ok(o) => Ok(outcome_view(o)),
        Err(e) => Err(e@),
    }
}

/// Executable [`confined_run`]: a deprecation notice never decides.
pub fn confined_outcome(observed: &ObservedChild) -> (r: Result<ConfinedOutcome, WorkerError>)
    ensures
        run_view(r) == confined_run(
            observed.code,
            text::lossy_utf8(observed.stderr@),
        ),
{
    match helper_launch_init_failed(observed) {
        Some(e) => Err(e),
        None => {
            let raw: String = lossy_text(observed.stderr.as_slice());
            let exit_ok: bool = match observed.code {
                Some(c) => c == 0,
                None => false,
            };
            let (stderr, deprecation_notices): (String, String) = split_deprecation_stderr(
                raw.as_str(),
            );
            Ok(ConfinedOutcome { exit_ok, stderr, deprecation_notices })
        },
    }
}

/// One confined run: the launcher, the profile and the program behind it.
#[derive(Debug)]
pub struct ConfinedRun {
    pub launcher: String,
    pub profile: String,
    pub program: String,
}

/// The command line of one confined run.
pub open spec fn run_arguments(
    launcher: Seq<char>,
    profile: Seq<char>,
    program: Seq<char>,
    args: Seq<Seq<char>>,
) -> Seq<Seq<char>> {
    seq![launcher, "-p"@, profile, "--"@, program] + args
}

/// Executable [`run_arguments`].
pub fn run_confined(run: &ConfinedRun, args: &Vec<String>) -> (r: Vec<String>)
    ensures
        text::texts(r@) == run_arguments(
            run.launcher@,
            run.profile@,
            run.program@,
            text::texts(args@),
        ),
{
    let mut line: Vec<String> = Vec::new();
    line.push(run.launcher.clone());
    line.push(owned("-p"));
    line.push(run.profile.clone());
    line.push(owned("--"));
    line.push(run.program.clone());
    let ghost head = seq![run.launcher@, "-p"@, run.profile@, "--"@, run.program@];
    let ghost all = text::texts(args@);
    assert(text::texts(line@) =~= head + all.take(0));
    let mut i: usize = 0;
    while i < args.len()
        invariant
            i <= args.len(),
            all == text::texts(args@),
            text::texts(line@) == head + all.take(i as int),
        decreases args.len() - i,
    {
        let arg: String = args[i].clone();
        proof {
            text::lemma_texts_push(line@, arg);
        }
        line.push(arg);
        assert(all.take(i as int + 1) =~= all.take(i as int).push(all[i as int]));
        assert(text::texts(line@) =~= head + all.take(i as int + 1));
        i = i + 1;
    }
    assert(all.take(all.len() as int) =~= all);
    line
}

/// The worker of this backend.
#[derive(Debug, Clone, Copy, Default)]
pub struct MacosReadWorker;

/// The next step of the read probe.
pub fn probe_read_conformance(at: ProbeStep, answer: ProbeAnswer) -> (r: ProbeStep)
    requires
        legs::probes(legs::probe_view(at), answer@),
    ensures
        legs::probe_view(r) == legs::probe_next(
            true,
            legs::macos_read(),
            legs::probe_view(at),
            answer@,
        ),
{
    let words: ProbeWords = probe_words(false, true);
    probe_conformance(true, &words, at, answer)
}

/// The next step of the write probe.
pub fn probe_write_conformance(at: ProbeStep, answer: ProbeAnswer) -> (r: ProbeStep)
    requires
        legs::probes(legs::probe_view(at), answer@),
    ensures
        legs::probe_view(r) == legs::probe_next(
            false,
            legs::macos_write(),
            legs::probe_view(at),
            answer@,
        ),
{
    let words: ProbeWords = probe_words(false, false);
    probe_conformance(false, &words, at, answer)
}

/// The program that an execution's boundary must deny.
pub const EXEC_CONTROL: &'static str = "/usr/bin/true";

/// The control run of an execution under a launcher. The program itself runs
/// with the same launcher and profile.
pub fn exec_once_with(launcher: &str, scope: &Resolved) -> (r: Result<ConfinedRun, WorkerError>)
    ensures
        match exec_rules(executor::resolved_view(*scope)) {
            Ok(profile) => r matches Ok(run) && run.launcher@ == launcher@ && run.profile@
                == profile && run.program@ == EXEC_CONTROL@,
            Err(e) => r matches Err(x) && x@ == e,
        },
{
    match exec_profile(scope) {
        Ok(profile) => Ok(
            ConfinedRun { launcher: owned(launcher), profile, program: owned(EXEC_CONTROL) },
        ),
        Err(e) => Err(e),
    }
}

/// The control run of an execution under the launcher of the system.
pub fn exec_once(scope: &Resolved) -> (r: Result<ConfinedRun, WorkerError>)
    ensures
        match exec_rules(executor::resolved_view(*scope)) {
            Ok(profile) => r matches Ok(run) && run.launcher@ == SANDBOX_EXEC@ && run.profile@
                == profile && run.program@ == EXEC_CONTROL@,
            Err(e) => r matches Err(x) && x@ == e,
        },
{
    exec_once_with(SANDBOX_EXEC, scope)
}

/// The next step of an execution.
pub fn exec_outcome(at: ExecStep, ran: Result<bool, WorkerError>, program: &str) -> (r: ExecStep)
    ensures
        legs::exec_view(r) == legs::exec_next(
            legs::exec_view(at),
            legs::ran_view(ran),
            "seatbelt exec boundary admitted the denied control /usr/bin/true"@,
            program@,
        ),
{
    exec_step(
        at,
        ran,
        "seatbelt exec boundary admitted the denied control /usr/bin/true",
        program,
    )
}

/// What the control leg of an egress runs with: a connect to the worker's own
/// listener. The requested target is never part of it.
pub fn egress_control(port: u16) -> (r: Vec<String>)
    ensures
        text::texts(r@) == seq!["-w"@, "1"@, "127.0.0.1"@, text::decimal(port as nat)],
{
    let mut args: Vec<String> = Vec::new();
    args.push(owned("-w"));
    args.push(owned("1"));
    args.push(owned("127.0.0.1"));
    args.push(decimal_text(port as u64));
    assert(text::texts(args@) =~= seq!["-w"@, "1"@, "127.0.0.1"@, text::decimal(port as nat)]);
    args
}

/// What an egress comes to on this backend.
pub fn egress_once(
    listener: Result<u16, String>,
    control: Result<bool, WorkerError>,
    url: &str,
) -> (r: Result<(), WorkerError>)
    ensures
        r matches Err(e) && e@ == legs::egress_outcome(
            legs::listener_view(listener),
            legs::ran_view(control),
            "seatbelt egress boundary admitted the denied control connect"@,
            url@,
        ),
{
    Err(
        egress_verdict(
            listener,
            control,
            "seatbelt egress boundary admitted the denied control connect",
            url,
        ),
    )
}

/// One escaped character.
pub open spec fn escaped_char(c: char) -> Seq<char> {
    if c == '\\' {
        "\\\\"@
    } else if c == '"' {
        "\\\""@
    } else {
        seq![c]
    }
}

/// Every character escaped.
pub open spec fn escaped(text: Seq<char>) -> Seq<char>
    decreases text.len(),
{
    if text.len() == 0 {
        Seq::empty()
    } else {
        escaped(text.drop_last()) + escaped_char(text.last())
    }
}

/// Reads the inside of a quoted literal: an escape stands for the character
/// behind it, a bare quote would close the literal.
pub open spec fn literal_inside(s: Seq<char>) -> Option<Seq<char>>
    decreases s.len(),
{
    if s.len() == 0 {
        Some(Seq::empty())
    } else if s[0] == '"' {
        None
    } else if s[0] == '\\' {
        if s.len() >= 2 && (s[1] == '\\' || s[1] == '"') {
            match literal_inside(s.skip(2)) {
                Some(t) => Some(seq![s[1]] + t),
                None => None,
            }
        } else {
            None
        }
    } else {
        match literal_inside(s.skip(1)) {
            Some(t) => Some(seq![s[0]] + t),
            None => None,
        }
    }
}

proof fn lemma_replaced_append(a: Seq<char>, b: Seq<char>, c: char, by: Seq<char>)
    ensures
        scan::replaced(a + b, c, by) == scan::replaced(a, c, by)
            + scan::replaced(b, c, by),
    decreases b.len(),
{
    if b.len() == 0 {
        assert(a + b =~= a);
        assert(scan::replaced(a, c, by) + Seq::<char>::empty()
            =~= scan::replaced(a, c, by));
    } else {
        lemma_replaced_append(a, b.drop_last(), c, by);
        assert((a + b).drop_last() =~= a + b.drop_last());
        assert((a + b).last() == b.last());
        let x = scan::replaced(a, c, by);
        let y = scan::replaced(b.drop_last(), c, by);
        assert((x + y) + by =~= x + (y + by));
        assert((x + y).push(b.last()) =~= x + y.push(b.last()));
    }
}

proof fn lemma_escaped(text: Seq<char>)
    ensures
        scan::replaced(
            scan::replaced(text, '\\', "\\\\"@),
            '"',
            "\\\""@,
        ) == escaped(text),
    decreases text.len(),
{
    reveal_strlit("\\\\");
    reveal_strlit("\\\"");
    if text.len() > 0 {
        let d = text.drop_last();
        lemma_escaped(d);
        let inner = scan::replaced(d, '\\', "\\\\"@);
        let c = text.last();
        if c == '\\' {
            let two = "\\\\"@;
            lemma_replaced_append(inner, two, '"', "\\\""@);
            assert(two.drop_last().drop_last() =~= Seq::<char>::empty());
            assert(scan::replaced(two.drop_last(), '"', "\\\""@)
                =~= two.drop_last()) by {
                assert(two.drop_last().drop_last() =~= Seq::<char>::empty());
                assert(scan::replaced(
                    two.drop_last().drop_last(),
                    '"',
                    "\\\""@,
                ) =~= Seq::<char>::empty());
            }
            assert(scan::replaced(two, '"', "\\\""@) =~= two);
        } else {
            let one = seq![c];
            assert(inner.push(c) =~= inner + one);
            lemma_replaced_append(inner, one, '"', "\\\""@);
            assert(one.drop_last() =~= Seq::<char>::empty());
            assert(scan::replaced(one.drop_last(), '"', "\\\""@)
                =~= Seq::<char>::empty());
            assert(scan::replaced(one, '"', "\\\""@) =~= escaped_char(c));
        }
    }
}

proof fn lemma_inside_append(a: Seq<char>, b: Seq<char>)
    requires
        literal_inside(a) is Some,
    ensures
        literal_inside(a + b) == (match literal_inside(b) {
            Some(t) => Some(literal_inside(a)->0 + t),
            None => None,
        }),
    decreases a.len(),
{
    if a.len() == 0 {
        assert(a + b =~= b);
        match literal_inside(b) {
            Some(t) => {
                assert(Seq::<char>::empty() + t =~= t);
            },
            None => {},
        }
    } else if a[0] == '\\' {
        let r = a.skip(2);
        lemma_inside_append(r, b);
        assert((a + b).skip(2) =~= r + b);
        assert((a + b)[0] == a[0] && (a + b)[1] == a[1]);
        match literal_inside(b) {
            Some(t) => {
                assert(seq![a[1]] + (literal_inside(r)->0 + t) =~= (seq![a[1]] + literal_inside(
                    r,
                )->0) + t);
            },
            None => {},
        }
    } else {
        let r = a.skip(1);
        lemma_inside_append(r, b);
        assert((a + b).skip(1) =~= r + b);
        assert((a + b)[0] == a[0]);
        match literal_inside(b) {
            Some(t) => {
                assert(seq![a[0]] + (literal_inside(r)->0 + t) =~= (seq![a[0]] + literal_inside(
                    r,
                )->0) + t);
            },
            None => {},
        }
    }
}

proof fn lemma_escaped_inside(text: Seq<char>)
    ensures
        literal_inside(escaped(text)) == Some(text),
    decreases text.len(),
{
    reveal_strlit("\\\\");
    reveal_strlit("\\\"");
    if text.len() == 0 {
        assert(text =~= Seq::<char>::empty());
    } else {
        let d = text.drop_last();
        let c = text.last();
        lemma_escaped_inside(d);
        let e = escaped_char(c);
        lemma_inside_append(escaped(d), e);
        assert(e.skip(1).len() == e.len() - 1);
        if e.len() == 2 {
            assert(e.skip(2) =~= Seq::<char>::empty());
            assert(literal_inside(e.skip(2)) == Some(Seq::<char>::empty()));
            assert(seq![e[1]] + Seq::<char>::empty() =~= seq![c]);
        } else {
            assert(e.skip(1) =~= Seq::<char>::empty());
            assert(literal_inside(e.skip(1)) == Some(Seq::<char>::empty()));
            assert(seq![e[0]] + Seq::<char>::empty() =~= seq![c]);
        }
        assert(literal_inside(e) == Some(seq![c]));
        assert(d + seq![c] =~= text);
    }
}

/// A scope never splices into the profile: its literal is one quoted string
/// whose inside reads back as exactly the scope, and it holds no control
/// character.
pub proof fn law_scope_literal_reads_back(text: Seq<char>)
    ensures
        literal_of(text) matches Ok(l) ==> {
            &&& l.len() >= 2
            &&& l[0] == '"' && l.last() == '"'
            &&& literal_inside(l.subrange(1, l.len() - 1)) == Some(text)
            &&& !has_control(text)
        },
{
    if !has_control(text) {
        reveal_strlit("\"");
        lemma_escaped(text);
        lemma_escaped_inside(text);
        let l = "\""@ + escaped(text) + "\""@;
        assert(l.subrange(1, l.len() - 1) =~= escaped(text));
    }
}

} // verus!
