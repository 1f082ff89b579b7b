//! The files a worker makes for itself: where they lie, and what a failure to
//! make one comes to.

use crate::executor::macos;
use crate::executor::{self, usable_probe_root, WorkerError};
use crate::helper::{self, join_path};
use crate::text::{self, decimal_text, owned, text2, text4};
use vstd::prelude::*;

verus! {

/// A name that no other process can have planted: it ends in the process id
/// and a random id.
pub open spec fn fresh_name(prefix: Seq<char>, process: nat, id: Seq<char>) -> Seq<char> {
    prefix + text::decimal(process) + "-"@ + id
}

fn make_fresh_name(prefix: &str, process: u32, id: &str) -> (r: String)
    ensures
        r@ == fresh_name(prefix@, process as nat, id@),
{
    let number: String = decimal_text(process as u64);
    text4(prefix, number.as_str(), "-", id)
}

/// The file that a write leg of a probe creates inside the scope. Its name is
/// fresh, so the leg can neither truncate nor follow a file of someone else.
pub fn fresh_probe_artifact(scope: &str, process: u32, id: &str) -> (r: String)
    ensures
        r@ == helper::joined(
            scope@,
            fresh_name(".rivect-write-probe-"@, process as nat, id@),
        ),
{
    let name: String = make_fresh_name(".rivect-write-probe-", process, id);
    join_path(scope, name.as_str())
}

/// The file that the confined leg in front of a macOS write creates inside the
/// scope; on Linux that leg creates a [`fresh_probe_artifact`].
pub fn fresh_write_artifact(scope: &str, process: u32, id: &str) -> (r: String)
    ensures
        r@ == helper::joined(
            scope@,
            fresh_name(".rivect-write-gate-"@, process as nat, id@),
        ),
{
    let name: String = make_fresh_name(".rivect-write-gate-", process, id);
    join_path(scope, name.as_str())
}

/// The directory below a probe root that holds the target of the write that
/// must be denied; nothing where the root does not resolve or lies inside
/// the scope.
pub fn denied_write_dir(scope: &str, root: &Option<String>, process: u32, id: &str) -> (r: Option<
    String,
>)
    ensures
        match (r, *root) {
            (Some(dir), Some(p)) => !executor::within(scope@, p@) && dir@ == helper::joined(
                p@,
                fresh_name("rivect-sandbox-probe-"@, process as nat, id@),
            ),
            (Some(_), None) => false,
            (None, Some(p)) => executor::within(scope@, p@),
            (None, None) => true,
        },
{
    if !usable_probe_root(scope, root) {
        return None;
    }
    match root {
        None => None,
        Some(p) => {
            let name: String = make_fresh_name("rivect-sandbox-probe-", process, id);
            Some(join_path(p.as_str(), name.as_str()))
        },
    }
}

/// Why a scope without a usable probe root cannot be confined.
pub open spec fn no_probe_root(linux: bool) -> Seq<char> {
    if linux {
        "linux landlock conformance probe: no securable write-denial probe root outside the scope, so it is not confinable"@
    } else {
        "conformance probe: no securable write-denial probe root outside the scope, so it is not confinable"@
    }
}

/// The target of the write that must be denied: a file in the first
/// directory that could be made private.
pub fn denied_write_candidate(linux: bool, dir: Option<String>) -> (r: Result<String, WorkerError>)
    ensures
        macos::text_outcome(r) == (match dir {
            Some(d) => Ok(helper::joined(d@, "deny"@)),
            None => Err(WorkerError::SandboxUnavailable { reason: no_probe_root(linux) }),
        }),
{
    match dir {
        Some(d) => Ok(join_path(d.as_str(), "deny")),
        None => {
            let reason: &str = if linux {
                "linux landlock conformance probe: no securable write-denial probe root outside the scope, so it is not confinable"
            } else {
                "conformance probe: no securable write-denial probe root outside the scope, so it is not confinable"
            };
            Err(WorkerError::SandboxUnavailable { reason: owned(reason) })
        },
    }
}

/// Where the dynamic linkers of the supported layouts lie.
pub open spec fn loader_places() -> Seq<Seq<char>> {
    seq![
        "/lib/ld-linux-aarch64.so.1"@,
        "/lib64/ld-linux-x86-64.so.2"@,
        "/lib/ld-linux-x86-64.so.2"@,
    ]
}

/// Executable [`loader_places`].
pub fn loader_candidates() -> (r: Vec<String>)
    ensures
        text::texts(r@) == loader_places(),
{
    let mut out: Vec<String> = Vec::new();
    out.push(owned("/lib/ld-linux-aarch64.so.1"));
    out.push(owned("/lib64/ld-linux-x86-64.so.2"));
    out.push(owned("/lib/ld-linux-x86-64.so.2"));
    assert(text::texts(out@) =~= loader_places());
    out
}

/// How making the control of the execution leg went: the first step that
/// failed, or none.
#[derive(Debug)]
pub enum ControlMade<T = String> {
    NoDirectory(T),
    NotPrivate,
    NotCopied(T),
    NotExecutable(T),
    Ready,
}

/// The directory of the control, below the directory for temporary files. No
/// rule of a confinement covers it, so a run of the control is denied.
pub fn exec_control_dir(temp: &str, process: u32) -> (r: String)
    ensures
        r@ == helper::joined(temp@, "rivect-denied-exec-"@ + text::decimal(process as nat)),
{
    let number: String = decimal_text(process as u64);
    let name: String = text2("rivect-denied-exec-", number.as_str());
    join_path(temp, name.as_str())
}

/// The harmless program that the control is a copy of.
pub fn exec_control_source(in_usr: bool) -> (r: &'static str)
    ensures
        r@ == (if in_usr {
            "/usr/bin/true"@
        } else {
            "/bin/true"@
        }),
{
    if in_usr {
        "/usr/bin/true"
    } else {
        "/bin/true"
    }
}

/// The control of the execution leg, or why it cannot be had.
pub open spec fn control_outcome(dir: Seq<char>, made: ControlMade<Seq<char>>) -> Result<
    Seq<char>,
    WorkerError<Seq<char>>,
> {
    match made {
        ControlMade::Ready => Ok(helper::joined(dir, "denied-exec"@)),
        ControlMade::NoDirectory(e) => Err(
            WorkerError::SandboxUnavailable {
                reason: "denied-exec control directory unavailable: "@ + e,
            },
        ),
        ControlMade::NotPrivate => Err(
            WorkerError::SandboxUnavailable {
                reason: "denied-exec control directory is not private"@,
            },
        ),
        ControlMade::NotCopied(e) => Err(
            WorkerError::SandboxUnavailable {
                reason: "denied-exec control copy unavailable: "@ + e,
            },
        ),
        ControlMade::NotExecutable(e) => Err(
            WorkerError::SandboxUnavailable {
                reason: "denied-exec control execute bit unavailable: "@ + e,
            },
        ),
    }
}

pub open spec fn made_view(m: ControlMade) -> ControlMade<Seq<char>> {
    match m {
        ControlMade::Ready => ControlMade::Ready,
        ControlMade::NoDirectory(e) => ControlMade::NoDirectory(e@),
        ControlMade::NotPrivate => ControlMade::NotPrivate,
        ControlMade::NotCopied(e) => ControlMade::NotCopied(e@),
        ControlMade::NotExecutable(e) => ControlMade::NotExecutable(e@),
    }
}

/// Executable [`control_outcome`].
pub fn denied_exec_control(dir: &str, made: ControlMade) -> (r: Result<String, WorkerError>)
    ensures
        macos::text_outcome(r) == control_outcome(dir@, made_view(made)),
{
    let reason: String = match made {
        ControlMade::Ready => {
            return Ok(join_path(dir, "denied-exec"));
        },
        ControlMade::NoDirectory(e) => text2(
            "denied-exec control directory unavailable: ",
            e.as_str(),
        ),
        ControlMade::NotPrivate => owned("denied-exec control directory is not private"),
        ControlMade::NotCopied(e) => text2("denied-exec control copy unavailable: ", e.as_str()),
        ControlMade::NotExecutable(e) => text2(
            "denied-exec control execute bit unavailable: ",
            e.as_str(),
        ),
    };
    Err(WorkerError::SandboxUnavailable { reason })
}

/// How making the filter file went: the first step that failed, or none.
#[derive(Debug)]
pub enum FilterMade<T = String> {
    NoDirectory(T),
    NotPrivate,
    NotWritten(T),
    Ready,
}

/// The directory of the filter file, below the directory for temporary
/// files.
pub fn net_deny_filter_dir(temp: &str, process: u32, id: &str) -> (r: String)
    ensures
        r@ == helper::joined(
            temp@,
            fresh_name("rivect-seccomp-filter-"@, process as nat, id@),
        ),
{
    let name: String = make_fresh_name("rivect-seccomp-filter-", process, id);
    join_path(temp, name.as_str())
}

/// The filter file of this process, or why it cannot be had.
pub open spec fn filter_outcome(dir: Seq<char>, made: FilterMade<Seq<char>>) -> Result<
    Seq<char>,
    WorkerError<Seq<char>>,
> {
    match made {
        FilterMade::Ready => Ok(helper::joined(dir, "net-deny.bpf"@)),
        FilterMade::NoDirectory(e) => Err(
            WorkerError::SandboxUnavailable {
                reason: "linux seccomp: the filter directory cannot be created: "@ + e,
            },
        ),
        FilterMade::NotPrivate => Err(
            WorkerError::SandboxUnavailable {
                reason: "linux seccomp: the filter directory cannot be secured private"@,
            },
        ),
        FilterMade::NotWritten(e) => Err(
            WorkerError::SandboxUnavailable {
                reason: "linux seccomp: the filter file cannot be written: "@ + e,
            },
        ),
    }
}

pub open spec fn filter_made_view(m: FilterMade) -> FilterMade<Seq<char>> {
    match m {
        FilterMade::Ready => FilterMade::Ready,
        FilterMade::NoDirectory(e) => FilterMade::NoDirectory(e@),
        FilterMade::NotPrivate => FilterMade::NotPrivate,
        FilterMade::NotWritten(e) => FilterMade::NotWritten(e@),
    }
}

/// Executable [`filter_outcome`].
pub fn net_deny_filter_file(dir: &str, made: FilterMade) -> (r: Result<String, WorkerError>)
    ensures
        macos::text_outcome(r) == filter_outcome(dir@, filter_made_view(made)),
{
    let reason: String = match made {
        FilterMade::Ready => {
            return Ok(join_path(dir, "net-deny.bpf"));
        },
        FilterMade::NoDirectory(e) => text2(
            "linux seccomp: the filter directory cannot be created: ",
            e.as_str(),
        ),
        FilterMade::NotPrivate => owned(
            "linux seccomp: the filter directory cannot be secured private",
        ),
        FilterMade::NotWritten(e) => text2(
            "linux seccomp: the filter file cannot be written: ",
            e.as_str(),
        ),
    };
    Err(WorkerError::SandboxUnavailable { reason })
}

} // verus!
