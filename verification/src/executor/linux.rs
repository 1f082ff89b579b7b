//! The effect backend on Linux: Landlock rules, the seccomp net-deny filter
//! and the verdicts of the conformance probes.

use crate::executor::legs::{
    self, egress_verdict, exec_step, probe_conformance, probe_words, ExecStep, ProbeAnswer,
    ProbeStep, ProbeWords,
};
use crate::executor::macos::{self, WorkerError};
use crate::executor::{self, helper_launch_init_failed, parent_dir, ObservedChild, Resolved};
use crate::text::{
    self, blank, chars_of, decimal_text, lines_of, lossy_text, owned, same, text2, text4, text_of,
};
use vstd::prelude::*;

pub use crate::executor::artifacts::{denied_exec_control, net_deny_filter_file};

verus! {

pub const BACKEND: &'static str = "linux";

/// The launcher of the network namespace.
pub const UNSHARE: &'static str = "/usr/bin/unshare";

/// The launcher that applies Landlock rules and the seccomp filter.
pub const SETPRIV: &'static str = "/usr/bin/setpriv";

/// The program of the read leg.
pub const CAT: &'static str = "/usr/bin/cat";

/// The program of the write leg: it opens its target for writing, which is
/// what Landlock governs.
pub const TEE: &'static str = "/usr/bin/tee";

/// The program of the egress control leg.
pub const BASH: &'static str = "/usr/bin/bash";

/// The read target that the boundary must deny.
pub const DENIED_PROBE_TARGET: &'static str = "/etc/hosts";

/// The two launchers of a confined run.
#[derive(Debug)]
pub struct SandboxLauncher {
    pub unshare: String,
    pub setpriv: String,
}

impl Default for SandboxLauncher {
    fn default() -> (r: Self)
        ensures
            r.unshare@ == UNSHARE@,
            r.setpriv@ == SETPRIV@,
    {
        SandboxLauncher { unshare: owned(UNSHARE), setpriv: owned(SETPRIV) }
    }
}

/// The worker of this backend.
#[derive(Debug, Clone, Copy, Default)]
pub struct LinuxWorker;

// ----- Landlock rules ------------------------------------------------------

/// What one confined leg may do to the file system.
#[derive(Debug)]
pub enum Confinement<T = String> {
    /// Reads of the system trees and of files inside the scope.
    Read { scope: T },
    /// Writes, creations and truncations inside the scope.
    Write { scope: T },
    /// Process execution inside the scope.
    Exec { scope: T },
    /// No file system rule: the network namespace and the seccomp filter
    /// carry the boundary.
    Egress,
}

pub open spec fn confinement_view(c: Confinement) -> Confinement<Seq<char>> {
    match c {
        Confinement::Read { scope } => Confinement::Read { scope: scope@ },
        Confinement::Write { scope } => Confinement::Write { scope: scope@ },
        Confinement::Exec { scope } => Confinement::Exec { scope: scope@ },
        Confinement::Egress => Confinement::Egress,
    }
}

/// The canonical scope as text, or why a leg cannot be confined to it.
pub open spec fn scope_text(scope: Result<Option<Seq<char>>, Seq<char>>) -> Result<
    Seq<char>,
    WorkerError<Seq<char>>,
> {
    match scope {
        Err(source) => Err(WorkerError::ScopeRootUnavailable { source }),
        Ok(None) => Err(
            WorkerError::SandboxUnavailable {
                reason: "linux landlock: scope root is not valid unicode"@,
            },
        ),
        Ok(Some(t)) => Ok(t),
    }
}

/// Executable [`scope_text`]: `scope` is what canonicalizing the scope root
/// gave.
pub fn canonical_scope(scope: &Resolved) -> (r: Result<String, WorkerError>)
    ensures
        macos::text_outcome(r) == scope_text(
            executor::resolved_view(*scope),
        ),
{
    match scope {
        Err(source) => Err(WorkerError::ScopeRootUnavailable { source: source.clone() }),
        Ok(None) => Err(
            WorkerError::SandboxUnavailable {
                reason: owned("linux landlock: scope root is not valid unicode"),
            },
        ),
        Ok(Some(t)) => Ok(t.clone()),
    }
}

/// The confinement of the read legs.
pub fn read_confinement(scope: &Resolved) -> (r: Result<Confinement, WorkerError>)
    ensures
        match scope_text(executor::resolved_view(*scope)) {
            Ok(t) => r matches Ok(c) && confinement_view(c) == (Confinement::Read { scope: t }),
            Err(e) => r matches Err(x) && x@ == e,
        },
{
    match canonical_scope(scope) {
        Ok(scope) => Ok(Confinement::Read { scope }),
        Err(e) => Err(e),
    }
}

/// The confinement of the write legs.
pub fn write_confinement(scope: &Resolved) -> (r: Result<Confinement, WorkerError>)
    ensures
        match scope_text(executor::resolved_view(*scope)) {
            Ok(t) => r matches Ok(c) && confinement_view(c) == (Confinement::Write { scope: t }),
            Err(e) => r matches Err(x) && x@ == e,
        },
{
    match canonical_scope(scope) {
        Ok(scope) => Ok(Confinement::Write { scope }),
        Err(e) => Err(e),
    }
}

/// The confinement of the exec legs.
pub fn exec_confinement(scope: &Resolved) -> (r: Result<Confinement, WorkerError>)
    ensures
        match scope_text(executor::resolved_view(*scope)) {
            Ok(t) => r matches Ok(c) && confinement_view(c) == (Confinement::Exec { scope: t }),
            Err(e) => r matches Err(x) && x@ == e,
        },
{
    match canonical_scope(scope) {
        Ok(scope) => Ok(Confinement::Exec { scope }),
        Err(e) => Err(e),
    }
}

/// The confinement of the egress leg.
pub fn egress_confinement() -> (r: Confinement)
    ensures
        confinement_view(r) == Confinement::<Seq<char>>::Egress,
{
    Confinement::Egress
}

/// What every confined program may read.
pub open spec fn system_read() -> Seq<Seq<char>> {
    seq!["path-beneath:read-file,read-dir:/usr"@, "path-beneath:read-file,read-dir:/lib"@]
}

/// What the programs of the read and write legs may execute.
pub open spec fn system_execute() -> Seq<Seq<char>> {
    seq!["path-beneath:execute:/usr"@, "path-beneath:execute:/bin"@]
}

/// Executable [`system_read`].
pub fn system_read_rules() -> (r: Vec<String>)
    ensures
        text::texts(r@) == system_read(),
{
    let mut rules: Vec<String> = Vec::new();
    rules.push(owned("path-beneath:read-file,read-dir:/usr"));
    rules.push(owned("path-beneath:read-file,read-dir:/lib"));
    assert(text::texts(rules@) =~= system_read());
    rules
}

/// Executable [`system_execute`].
pub fn system_execute_rules() -> (r: Vec<String>)
    ensures
        text::texts(r@) == system_execute(),
{
    let mut rules: Vec<String> = Vec::new();
    rules.push(owned("path-beneath:execute:/usr"));
    rules.push(owned("path-beneath:execute:/bin"));
    assert(text::texts(rules@) =~= system_execute());
    rules
}

pub open spec fn rule_text(rights: Seq<char>, scope: Seq<char>) -> Seq<char> {
    "path-beneath:"@ + rights + ":"@ + scope
}

fn scope_rule(rights: &str, scope: &str) -> (r: String)
    ensures
        r@ == rule_text(rights@, scope@),
{
    text4("path-beneath:", rights, ":", scope)
}

/// The rules that let a dynamic linker load: execution of the linker itself,
/// or another right on the directory that holds it.
pub open spec fn loader_rules_of(rights: Seq<char>, loaders: Seq<Seq<char>>) -> Seq<Seq<char>>
    decreases loaders.len(),
{
    if loaders.len() == 0 {
        Seq::empty()
    } else {
        let before = loader_rules_of(rights, loaders.drop_last());
        if rights == "execute"@ {
            before.push(rule_text(rights, loaders.last()))
        } else {
            match executor::parent(loaders.last()) {
                Some(dir) => before.push(rule_text(rights, dir)),
                None => before,
            }
        }
    }
}

/// Executable [`loader_rules_of`]; `loaders` are the canonical paths of the
/// dynamic linkers that exist.
pub fn loader_rules(rights: &str, loaders: &Vec<String>) -> (r: Vec<String>)
    ensures
        text::texts(r@) == loader_rules_of(rights@, text::texts(loaders@)),
{
    let ghost all = text::texts(loaders@);
    let mut out: Vec<String> = Vec::new();
    let mut i: usize = 0;
    assert(all.take(0) =~= Seq::empty());
    assert(text::texts(out@) =~= Seq::empty());
    while i < loaders.len()
        invariant
            i <= loaders.len(),
            all == text::texts(loaders@),
            text::texts(out@) == loader_rules_of(rights@, all.take(i as int)),
        decreases loaders.len() - i,
    {
        assert(all.take(i as int + 1).drop_last() =~= all.take(i as int));
        assert(all.take(i as int + 1).last() == loaders@[i as int]@);
        if same(rights, "execute") {
            let rule: String = scope_rule(rights, loaders[i].as_str());
            proof {
                text::lemma_texts_push(out@, rule);
            }
            out.push(rule);
        } else {
            match parent_dir(loaders[i].as_str()) {
                Some(dir) => {
                    let rule: String = scope_rule(rights, dir.as_str());
                    proof {
                        text::lemma_texts_push(out@, rule);
                    }
                    out.push(rule);
                },
                None => {},
            }
        }
        i = i + 1;
    }
    assert(all.take(all.len() as int) =~= all);
    out
}

/// The Landlock rules of a confinement: everything they do not name is
/// denied. An exec leg may execute the scope and the dynamic linkers only.
pub open spec fn rules_of(c: Confinement<Seq<char>>, loaders: Seq<Seq<char>>) -> Seq<Seq<char>> {
    match c {
        Confinement::Read { scope } => (system_read() + system_execute()).push(
            rule_text("read-file"@, scope),
        ),
        Confinement::Write { scope } => (system_execute() + system_read()).push(
            rule_text("write-file,make-reg,truncate"@, scope),
        ),
        Confinement::Exec { scope } => (system_read() + loader_rules_of("read-file"@, loaders)
            + loader_rules_of("execute"@, loaders)).push(
            rule_text("execute,read-file"@, scope),
        ),
        Confinement::Egress => Seq::empty(),
    }
}

pub(crate) fn extend(rules: &mut Vec<String>, more: Vec<String>)
    ensures
        text::texts(final(rules)@) == text::texts(old(rules)@) + text::texts(
            more@,
        ),
{
    let ghost before = text::texts(rules@);
    let ghost added = text::texts(more@);
    let mut i: usize = 0;
    assert(before + added.take(0) =~= before);
    while i < more.len()
        invariant
            i <= more.len(),
            added == text::texts(more@),
            text::texts(rules@) == before + added.take(i as int),
        decreases more.len() - i,
    {
        let rule: String = more[i].clone();
        proof {
            text::lemma_texts_push(rules@, rule);
        }
        rules.push(rule);
        assert(added.take(i as int + 1) =~= added.take(i as int).push(added[i as int]));
        assert(text::texts(rules@) =~= before + added.take(i as int + 1));
        i = i + 1;
    }
    assert(added.take(added.len() as int) =~= added);
}

fn with_rule(rules: Vec<String>, rule: String) -> (r: Vec<String>)
    ensures
        text::texts(r@) == text::texts(rules@).push(rule@),
{
    let mut all: Vec<String> = rules;
    proof {
        text::lemma_texts_push(all@, rule);
    }
    all.push(rule);
    all
}

/// Executable [`rules_of`].
pub fn landlock_rules(confinement: &Confinement, loaders: &Vec<String>) -> (r: Vec<String>)
    ensures
        text::texts(r@) == rules_of(
            confinement_view(*confinement),
            text::texts(loaders@),
        ),
{
    match confinement {
        Confinement::Read { scope } => {
            let mut rules: Vec<String> = system_read_rules();
            extend(&mut rules, system_execute_rules());
            with_rule(rules, scope_rule("read-file", scope.as_str()))
        },
        Confinement::Write { scope } => {
            let mut rules: Vec<String> = system_execute_rules();
            extend(&mut rules, system_read_rules());
            with_rule(rules, scope_rule("write-file,make-reg,truncate", scope.as_str()))
        },
        Confinement::Exec { scope } => {
            let mut rules: Vec<String> = system_read_rules();
            extend(&mut rules, loader_rules("read-file", loaders));
            extend(&mut rules, loader_rules("execute", loaders));
            with_rule(rules, scope_rule("execute,read-file", scope.as_str()))
        },
        Confinement::Egress => {
            let rules: Vec<String> = Vec::new();
            assert(text::texts(rules@) =~= Seq::empty());
            rules
        },
    }
}

/// One `--landlock-rule` argument pair per rule.
pub open spec fn rule_arguments(rules: Seq<Seq<char>>) -> Seq<Seq<char>>
    decreases rules.len(),
{
    if rules.len() == 0 {
        Seq::empty()
    } else {
        rule_arguments(rules.drop_last()).push("--landlock-rule"@).push(rules.last())
    }
}

/// A rule lets something be executed.
pub open spec fn grants_execute(rule: Seq<char>) -> bool {
    rule.len() >= 20 && rule.take(20) == "path-beneath:execute"@
}

proof fn lemma_loader_rules(rights: Seq<char>, loaders: Seq<Seq<char>>, i: int)
    requires
        0 <= i < loader_rules_of(rights, loaders).len(),
    ensures
        rights == "execute"@ ==> exists|j: int|
            0 <= j < loaders.len() && loader_rules_of(rights, loaders)[i] == rule_text(
                rights,
                #[trigger] loaders[j],
            ),
        rights != "execute"@ ==> exists|dir: Seq<char>|
            loader_rules_of(rights, loaders)[i] == #[trigger] rule_text(rights, dir),
    decreases loaders.len(),
{
    let before = loader_rules_of(rights, loaders.drop_last());
    if i < before.len() {
        lemma_loader_rules(rights, loaders.drop_last(), i);
        if rights == "execute"@ {
            let j = choose|j: int|
                0 <= j < loaders.drop_last().len() && before[i] == rule_text(
                    rights,
                    #[trigger] loaders.drop_last()[j],
                );
            assert(loaders.drop_last()[j] == loaders[j]);
        }
    } else if rights == "execute"@ {
        assert(loader_rules_of(rights, loaders)[i] == rule_text(rights, loaders[loaders.len() - 1]));
    } else {
        let dir = executor::parent(loaders.last())->0;
        assert(loader_rules_of(rights, loaders)[i] == rule_text(rights, dir));
    }
}

/// An exec leg executes the scope and the dynamic linkers only: no rule of it
/// allows execution anywhere else, least of all system-wide.
pub proof fn law_exec_is_confined(scope: Seq<char>, loaders: Seq<Seq<char>>, i: int)
    requires
        0 <= i < rules_of(Confinement::Exec { scope }, loaders).len(),
        grants_execute(rules_of(Confinement::Exec { scope }, loaders)[i]),
    ensures
        rules_of(Confinement::Exec { scope }, loaders)[i] == rule_text(
            "execute,read-file"@,
            scope,
        ) || exists|j: int|
            0 <= j < loaders.len() && rules_of(Confinement::Exec { scope }, loaders)[i]
                == rule_text("execute"@, #[trigger] loaders[j]),
{
    let rules = rules_of(Confinement::Exec { scope }, loaders);
    let reads = loader_rules_of("read-file"@, loaders);
    let runs = loader_rules_of("execute"@, loaders);
    reveal_strlit("path-beneath:execute");
    reveal_strlit("path-beneath:read-file,read-dir:/usr");
    reveal_strlit("path-beneath:read-file,read-dir:/lib");
    reveal_strlit("path-beneath:");
    reveal_strlit("read-file");
    reveal_strlit("execute");
    assert(rules[i].take(20)[13] == 'e');
    if i < 2 {
        assert(rules[i][13] == 'r');
    } else if i < 2 + reads.len() {
        assert(rules[i] == reads[i - 2]);
        assert("read-file"@[0] == 'r' && "execute"@[0] == 'e');
        lemma_loader_rules("read-file"@, loaders, i - 2);
        let dir = choose|dir: Seq<char>| reads[i - 2] == #[trigger] rule_text("read-file"@, dir);
        assert(rule_text("read-file"@, dir)[13] == 'r');
    } else if i < 2 + reads.len() + runs.len() {
        assert(rules[i] == runs[i - 2 - reads.len()]);
        lemma_loader_rules("execute"@, loaders, i - 2 - reads.len());
    }
}

/// The command line of one confined run. Landlock is applied only with
/// rules: without any it would deny the launcher's own program.
pub open spec fn run_arguments(
    unshare: Seq<char>,
    setpriv: Seq<char>,
    rules: Seq<Seq<char>>,
    filter: Seq<char>,
    program: Seq<char>,
    args: Seq<Seq<char>>,
) -> Seq<Seq<char>> {
    seq![unshare, "--net"@, "--"@, setpriv, "--nnp"@] + (if rules.len() > 0 {
        seq!["--landlock-access"@, "fs"@] + rule_arguments(rules)
    } else {
        Seq::empty()
    }) + seq!["--seccomp-filter"@, filter, "--"@, program] + args
}

fn rule_pairs(rules: &Vec<String>) -> (r: Vec<String>)
    ensures
        text::texts(r@) == rule_arguments(text::texts(rules@)),
{
    let ghost all = text::texts(rules@);
    let mut out: Vec<String> = Vec::new();
    let mut i: usize = 0;
    assert(all.take(0) =~= Seq::empty());
    assert(text::texts(out@) =~= Seq::empty());
    while i < rules.len()
        invariant
            i <= rules.len(),
            all == text::texts(rules@),
            text::texts(out@) == rule_arguments(all.take(i as int)),
        decreases rules.len() - i,
    {
        assert(all.take(i as int + 1).drop_last() =~= all.take(i as int));
        assert(all.take(i as int + 1).last() == rules@[i as int]@);
        out = with_rule(out, owned("--landlock-rule"));
        out = with_rule(out, rules[i].clone());
        i = i + 1;
    }
    assert(all.take(all.len() as int) =~= all);
    out
}

/// Executable [`run_arguments`]. The seccomp filter is loaded on every leg,
/// so the network namespace never carries the boundary alone.
pub fn run_confined(
    launcher: &SandboxLauncher,
    rules: &Vec<String>,
    filter: &str,
    program: &str,
    args: Vec<String>,
) -> (r: Vec<String>)
    ensures
        text::texts(r@) == run_arguments(
            launcher.unshare@,
            launcher.setpriv@,
            text::texts(rules@),
            filter@,
            program@,
            text::texts(args@),
        ),
{
    let mut line: Vec<String> = Vec::new();
    line.push(launcher.unshare.clone());
    line.push(owned("--net"));
    line.push(owned("--"));
    line.push(launcher.setpriv.clone());
    line.push(owned("--nnp"));
    assert(text::texts(line@) =~= seq![
        launcher.unshare@,
        "--net"@,
        "--"@,
        launcher.setpriv@,
        "--nnp"@,
    ]);
    if rules.len() > 0 {
        let mut access: Vec<String> = Vec::new();
        access.push(owned("--landlock-access"));
        access.push(owned("fs"));
        assert(text::texts(access@) =~= seq!["--landlock-access"@, "fs"@]);
        extend(&mut access, rule_pairs(rules));
        extend(&mut line, access);
    }
    let mut tail: Vec<String> = Vec::new();
    tail.push(owned("--seccomp-filter"));
    tail.push(owned(filter));
    tail.push(owned("--"));
    tail.push(owned(program));
    assert(text::texts(tail@) =~= seq!["--seccomp-filter"@, filter@, "--"@, program@]);
    extend(&mut line, tail);
    extend(&mut line, args);
    assert(text::texts(line@) =~= run_arguments(
        launcher.unshare@,
        launcher.setpriv@,
        text::texts(rules@),
        filter@,
        program@,
        text::texts(args@),
    ));
    line
}

/// What one confined run ended with. Only the exit status decides.
#[derive(Debug)]
pub struct ConfinedOutcome<T = String> {
    pub exit_ok: bool,
    pub exit_code: Option<i32>,
    pub stderr: T,
}

/// What a confined run comes to: a launch that failed is no outcome.
pub open spec fn confined_run(code: Option<i32>, stderr: Seq<char>) -> Result<
    ConfinedOutcome<Seq<char>>,
    WorkerError<Seq<char>>,
> {
    match executor::launch_failure(code, stderr) {
        Some(e) => Err(e),
        None => Ok(
            ConfinedOutcome { exit_ok: code == Some(0i32), exit_code: code, stderr },
        ),
    }
}

pub open spec fn run_view(r: Result<ConfinedOutcome, WorkerError>) -> Result<
    ConfinedOutcome<Seq<char>>,
    WorkerError<Seq<char>>,
> {
    match r {
        Ok(o) => Ok(
            ConfinedOutcome { exit_ok: o.exit_ok, exit_code: o.exit_code, stderr: o.stderr@ },
        ),
        Err(e) => Err(e@),
    }
}

/// Executable [`confined_run`].
pub fn confined_outcome(observed: &ObservedChild) -> (r: Result<ConfinedOutcome, WorkerError>)
    ensures
        run_view(r) == confined_run(
            observed.code,
            text::lossy_utf8(observed.stderr@),
        ),
{
    match helper_launch_init_failed(observed) {
        Some(e) => Err(e),
        None => {
            let exit_ok: bool = match observed.code {
                Some(c) => c == 0,
                None => false,
            };
            Ok(
                ConfinedOutcome {
                    exit_ok,
                    exit_code: observed.code,
                    stderr: lossy_text(observed.stderr.as_slice()),
                },
            )
        },
    }
}

/// The first line that is not blank.
pub open spec fn first_line(lines: Seq<Seq<char>>) -> Seq<char>
    decreases lines.len(),
{
    if lines.len() == 0 {
        Seq::empty()
    } else if !text::is_blank(lines[0]) {
        lines[0]
    } else {
        first_line(lines.skip(1))
    }
}

/// At most 160 characters of the first line that is not blank: it names the
/// mechanism that failed.
pub open spec fn excerpt(stderr: Seq<char>) -> Seq<char> {
    let line = first_line(text::lines(stderr));
    if line.len() <= 160 {
        line
    } else {
        line.take(160)
    }
}

/// Executable [`excerpt`].
pub fn stderr_excerpt(stderr: &str) -> (r: String)
    ensures
        r@ == excerpt(stderr@),
{
    let lines: Vec<String> = lines_of(stderr);
    let ghost all = text::texts(lines@);
    let mut i: usize = 0;
    assert(all.skip(0) =~= all);
    while i < lines.len() && blank(lines[i].as_str())
        invariant
            i <= lines.len(),
            all == text::texts(lines@),
            first_line(all) == first_line(all.skip(i as int)),
        decreases lines.len() - i,
    {
        assert(all.skip(i as int)[0] == lines@[i as int]@);
        assert(all.skip(i as int).skip(1) =~= all.skip(i as int + 1));
        i = i + 1;
    }
    if i >= lines.len() {
        assert(all.skip(i as int).len() == 0);
        return String::new();
    }
    assert(all.skip(i as int)[0] == lines@[i as int]@);
    let chars: Vec<char> = chars_of(lines[i].as_str());
    let n: usize = if chars.len() <= 160 {
        chars.len()
    } else {
        160
    };
    let cut: String = text_of(&chars, 0, n);
    assert(cut@ =~= chars@.take(n as int));
    assert(chars@.take(chars@.len() as int) =~= chars@);
    cut
}

// ----- seccomp net-deny filter -------------------------------------------

/// `seccomp_data` architecture word on 64-bit arm.
pub const AUDIT_ARCH_AARCH64: u32 = 0xC000_00B7;

/// `seccomp_data` architecture word on amd64.
pub const AUDIT_ARCH_X86_64: u32 = 0xC000_003E;

/// A denied network syscall surfaces as `EPERM`, never as a signal.
pub const SECCOMP_RET_ERRNO_EPERM: u32 = 0x0005_0001;

/// `clone3` answers `ENOSYS`, so that libc falls back to `clone`.
pub const SECCOMP_RET_ERRNO_ENOSYS: u32 = 0x0005_0026;

/// Every syscall outside the deny list runs.
pub const SECCOMP_RET_ALLOW: u32 = 0x7FFF_0000;

/// `clone3`: the same number on both architectures.
pub const SYS_CLONE3: u32 = 435;

pub const CLONE_NEWTIME: u32 = 0x0000_0080;
pub const CLONE_NEWNS: u32 = 0x0002_0000;
pub const CLONE_NEWCGROUP: u32 = 0x0200_0000;
pub const CLONE_NEWUTS: u32 = 0x0400_0000;
pub const CLONE_NEWIPC: u32 = 0x0800_0000;
pub const CLONE_NEWUSER: u32 = 0x1000_0000;
pub const CLONE_NEWPID: u32 = 0x2000_0000;
pub const CLONE_NEWNET: u32 = 0x4000_0000;

/// The namespace bits `clone` must not be allowed to set: such a child would
/// leave the host's process group and survive its kill.
pub const CLONE_NEW_NAMESPACE_FLAGS: u32 = 0x7E02_0080;

pub const BPF_LD_W_ABS: u16 = 0x20;
pub const BPF_ALU_AND_K: u16 = 0x54;
pub const BPF_JEQ_K: u16 = 0x15;
pub const BPF_RET_K: u16 = 0x06;
pub const SECCOMP_DATA_NR_OFFSET: u32 = 0;
pub const SECCOMP_DATA_ARCH_OFFSET: u32 = 4;
pub const SECCOMP_DATA_ARGS0_OFFSET: u32 = 16;

/// The syscall-number word with the compat band bit cleared.
pub const SECCOMP_COMPAT_BAND_MASK: u32 = 0xBFFF_FFFF;

/// The flag mask is exactly the eight namespace bits.
pub proof fn law_namespace_mask()
    ensures
        CLONE_NEW_NAMESPACE_FLAGS == CLONE_NEWTIME | CLONE_NEWNS | CLONE_NEWCGROUP | CLONE_NEWUTS
            | CLONE_NEWIPC | CLONE_NEWUSER | CLONE_NEWPID | CLONE_NEWNET,
{
    assert(0x7E02_0080u32 == 0x0000_0080u32 | 0x0002_0000u32 | 0x0200_0000u32 | 0x0400_0000u32
        | 0x0800_0000u32 | 0x1000_0000u32 | 0x2000_0000u32 | 0x4000_0000u32) by (bit_vector);
}

/// The `clone` syscall number of an architecture.
pub open spec fn clone_number(arch: Seq<char>) -> Option<u32> {
    if arch == "aarch64"@ {
        Some(220u32)
    } else if arch == "x86_64"@ {
        Some(56u32)
    } else {
        None
    }
}

/// `clone` is judged by its flags, not denied by number, so that an ordinary
/// `fork` still works.
pub fn sys_clone(arch: &str) -> (r: Option<u32>)
    ensures
        r == clone_number(arch@),
{
    if same(arch, "aarch64") {
        Some(220)
    } else if same(arch, "x86_64") {
        Some(56)
    } else {
        None
    }
}

/// Denied syscall numbers on 64-bit arm: socket socketpair bind listen accept
/// connect sendto recvfrom sendmsg recvmsg accept4, recvmmsg sendmmsg, unshare
/// ptrace setpgid setsid setns process_vm_* bpf, io_uring_* pidfd_*, clone3.
pub open spec fn denied_aarch64() -> Seq<u32> {
    seq![
        198u32, 199, 200, 201, 202, 203, 206, 207, 211, 212, 242,
        243, 269,
        97, 117, 154, 157, 268, 270, 271, 280,
        425, 426, 427, 434, 438,
        435,
    ]
}

/// Denied syscall numbers on amd64: socket connect accept sendto recvfrom
/// sendmsg recvmsg bind listen socketpair accept4, recvmmsg sendmmsg, ptrace
/// setpgid setsid unshare setns process_vm_* bpf, io_uring_* pidfd_*, clone3.
pub open spec fn denied_x86_64() -> Seq<u32> {
    seq![
        41u32, 42, 43, 44, 45, 46, 47, 49, 50, 53, 288,
        299, 307,
        101, 109, 112, 272, 308, 310, 311, 321,
        425, 426, 427, 434, 438,
        435,
    ]
}

/// The architecture word and the deny table of an architecture.
pub open spec fn native_table(arch: Seq<char>) -> Option<(u32, Seq<u32>)> {
    if arch == "aarch64"@ {
        Some((AUDIT_ARCH_AARCH64, denied_aarch64()))
    } else if arch == "x86_64"@ {
        Some((AUDIT_ARCH_X86_64, denied_x86_64()))
    } else {
        None
    }
}

/// The architecture word of a supported architecture.
pub open spec fn native_word(arch: Seq<char>) -> u32 {
    match native_table(arch) {
        Some((word, _)) => word,
        None => 0,
    }
}

/// The deny table of a supported architecture.
pub open spec fn native_denied(arch: Seq<char>) -> Seq<u32> {
    match native_table(arch) {
        Some((_, denied)) => denied,
        None => Seq::empty(),
    }
}

/// The architecture word and the deny table of an architecture, or `None`
/// where the filter cannot be built: an honest capability failure, never an
/// unfiltered leg.
pub fn native_net_syscalls(arch: &str) -> (r: Option<(u32, Vec<u32>)>)
    ensures
        match r {
            Some((word, numbers)) => native_table(arch@) == Some((word, numbers@)),
            None => native_table(arch@) is None,
        },
{
    if same(arch, "aarch64") {
        let numbers: Vec<u32> = vec![
            198, 199, 200, 201, 202, 203, 206, 207, 211, 212, 242,
            243, 269,
            97, 117, 154, 157, 268, 270, 271, 280,
            425, 426, 427, 434, 438,
            SYS_CLONE3,
        ];
        assert(numbers@ =~= denied_aarch64());
        Some((AUDIT_ARCH_AARCH64, numbers))
    } else if same(arch, "x86_64") {
        let numbers: Vec<u32> = vec![
            41, 42, 43, 44, 45, 46, 47, 49, 50, 53, 288,
            299, 307,
            101, 109, 112, 272, 308, 310, 311, 321,
            425, 426, 427, 434, 438,
            SYS_CLONE3,
        ];
        assert(numbers@ =~= denied_x86_64());
        Some((AUDIT_ARCH_X86_64, numbers))
    } else {
        None
    }
}

/// The network syscalls the egress boundary denies on an architecture.
pub fn seccomp_denied_syscalls(arch: &str) -> (r: Option<Vec<u32>>)
    ensures
        match r {
            Some(numbers) => native_table(arch@) is Some && native_denied(arch@) == numbers@,
            None => native_table(arch@) is None,
        },
{
    match native_net_syscalls(arch) {
        Some((_, numbers)) => Some(numbers),
        None => None,
    }
}

/// One classic-BPF instruction.
#[derive(Debug, Clone, Copy, PartialEq, Eq, Structural)]
pub struct Insn {
    pub code: u16,
    pub jt: u8,
    pub jf: u8,
    pub k: u32,
}

/// What a denied number answers.
pub open spec fn denied_answer(nr: u32) -> u32 {
    if nr == SYS_CLONE3 {
        SECCOMP_RET_ERRNO_ENOSYS
    } else {
        SECCOMP_RET_ERRNO_EPERM
    }
}

pub open spec fn insn(code: u16, jt: u8, jf: u8, k: u32) -> Insn {
    Insn { code, jt, jf, k }
}

/// Loads the architecture and pins it, then loads the masked syscall number.
/// A foreign architecture jumps onto the first denial of the table.
pub open spec fn filter_head(word: u32) -> Seq<Insn> {
    seq![
        insn(BPF_LD_W_ABS, 0, 0, SECCOMP_DATA_ARCH_OFFSET),
        insn(BPF_JEQ_K, 0, 3, word),
        insn(BPF_LD_W_ABS, 0, 0, SECCOMP_DATA_NR_OFFSET),
        insn(BPF_ALU_AND_K, 0, 0, SECCOMP_COMPAT_BAND_MASK),
    ]
}

/// One compare-and-answer pair per denied number.
pub open spec fn filter_table(denied: Seq<u32>) -> Seq<Insn>
    decreases denied.len(),
{
    if denied.len() == 0 {
        Seq::empty()
    } else {
        filter_table(denied.drop_last()).push(insn(BPF_JEQ_K, 0, 1, denied.last())).push(
            insn(BPF_RET_K, 0, 0, denied_answer(denied.last())),
        )
    }
}

/// Judges `clone` by its namespace flags and allows everything else.
pub open spec fn filter_tail(clone: u32) -> Seq<Insn> {
    seq![
        insn(BPF_JEQ_K, 0, 4, clone),
        insn(BPF_LD_W_ABS, 0, 0, SECCOMP_DATA_ARGS0_OFFSET),
        insn(BPF_ALU_AND_K, 0, 0, CLONE_NEW_NAMESPACE_FLAGS),
        insn(BPF_JEQ_K, 1, 0, 0),
        insn(BPF_RET_K, 0, 0, SECCOMP_RET_ERRNO_EPERM),
        insn(BPF_RET_K, 0, 0, SECCOMP_RET_ALLOW),
    ]
}

/// The whole net-deny program.
pub open spec fn filter_program(word: u32, denied: Seq<u32>, clone: u32) -> Seq<Insn> {
    filter_head(word) + filter_table(denied) + filter_tail(clone)
}

/// The bytes of one `struct sock_filter`, little-endian.
pub open spec fn insn_bytes(i: Insn) -> Seq<u8> {
    seq![
        (i.code % 256) as u8,
        (i.code / 256) as u8,
        i.jt,
        i.jf,
        (i.k % 256) as u8,
        (i.k / 256 % 256) as u8,
        (i.k / 65536 % 256) as u8,
        (i.k / 16777216) as u8,
    ]
}

/// The file format of a program.
pub open spec fn program_bytes(program: Seq<Insn>) -> Seq<u8>
    decreases program.len(),
{
    if program.len() == 0 {
        Seq::empty()
    } else {
        program_bytes(program.drop_last()) + insn_bytes(program.last())
    }
}

/// The error of an architecture without a table.
pub open spec fn no_table_error(arch: Seq<char>) -> WorkerError<Seq<char>> {
    WorkerError::SandboxUnavailable {
        reason: "linux seccomp: no net-deny syscall table for architecture "@ + arch,
    }
}

fn push_pairs(program: &mut Vec<Insn>, denied: &Vec<u32>)
    ensures
        final(program)@ == old(program)@ + filter_table(denied@),
{
    let ghost head = program@;
    let mut i: usize = 0;
    assert(denied@.take(0) =~= Seq::<u32>::empty());
    assert(program@ =~= head + filter_table(denied@.take(0)));
    while i < denied.len()
        invariant
            i <= denied.len(),
            program@ == head + filter_table(denied@.take(i as int)),
        decreases denied.len() - i,
    {
        let nr: u32 = denied[i];
        let answer: u32 = if nr == SYS_CLONE3 {
            SECCOMP_RET_ERRNO_ENOSYS
        } else {
            SECCOMP_RET_ERRNO_EPERM
        };
        program.push(Insn { code: BPF_JEQ_K, jt: 0, jf: 1, k: nr });
        program.push(Insn { code: BPF_RET_K, jt: 0, jf: 0, k: answer });
        proof {
            let next = denied@.take(i as int + 1);
            assert(next.drop_last() =~= denied@.take(i as int));
            assert(program@ =~= head + filter_table(next));
        }
        i = i + 1;
    }
    assert(denied@.take(denied@.len() as int) =~= denied@);
}

fn assemble(program: &Vec<Insn>) -> (bytes: Vec<u8>)
    ensures
        bytes@ == program_bytes(program@),
{
    let mut bytes: Vec<u8> = Vec::new();
    let mut i: usize = 0;
    assert(program@.take(0) =~= Seq::<Insn>::empty());
    while i < program.len()
        invariant
            i <= program.len(),
            bytes@ == program_bytes(program@.take(i as int)),
        decreases program.len() - i,
    {
        let one: Insn = program[i];
        let ghost before = bytes@;
        bytes.push((one.code % 256) as u8);
        bytes.push((one.code / 256) as u8);
        bytes.push(one.jt);
        bytes.push(one.jf);
        bytes.push((one.k % 256) as u8);
        bytes.push((one.k / 256 % 256) as u8);
        bytes.push((one.k / 65536 % 256) as u8);
        bytes.push((one.k / 16777216) as u8);
        proof {
            let next = program@.take(i as int + 1);
            assert(next.drop_last() =~= program@.take(i as int));
            assert(bytes@ =~= before + insn_bytes(one));
        }
        i = i + 1;
    }
    assert(program@.take(program@.len() as int) =~= program@);
    bytes
}

/// Renders the net-deny filter of an architecture in the file format the
/// launcher loads: the assembled [`filter_program`] of its table.
pub fn net_deny_filter(arch: &str) -> (r: Result<Vec<u8>, WorkerError>)
    ensures
        match native_table(arch@) {
            Some((word, denied)) => clone_number(arch@) is Some && r is Ok && r->Ok_0@
                == program_bytes(filter_program(word, denied, clone_number(arch@)->0)),
            None => r is Err && r->Err_0@ == no_table_error(arch@),
        },
{
    let (word, denied): (u32, Vec<u32>) = match native_net_syscalls(arch) {
        Some(table) => table,
        None => {
            return Err(
                WorkerError::SandboxUnavailable {
                    reason: text2(
                        "linux seccomp: no net-deny syscall table for architecture ",
                        arch,
                    ),
                },
            );
        },
    };
    let mut program: Vec<Insn> = vec![
        Insn { code: BPF_LD_W_ABS, jt: 0, jf: 0, k: SECCOMP_DATA_ARCH_OFFSET },
        Insn { code: BPF_JEQ_K, jt: 0, jf: 3, k: word },
        Insn { code: BPF_LD_W_ABS, jt: 0, jf: 0, k: SECCOMP_DATA_NR_OFFSET },
        Insn { code: BPF_ALU_AND_K, jt: 0, jf: 0, k: SECCOMP_COMPAT_BAND_MASK },
    ];
    assert(program@ =~= filter_head(word));
    push_pairs(&mut program, &denied);
    let clone: u32 = match sys_clone(arch) {
        Some(n) => n,
        None => {
            return Err(
                WorkerError::SandboxUnavailable {
                    reason: text2("linux seccomp: no clone syscall number for architecture ", arch),
                },
            );
        },
    };
    program.push(Insn { code: BPF_JEQ_K, jt: 0, jf: 4, k: clone });
    program.push(Insn { code: BPF_LD_W_ABS, jt: 0, jf: 0, k: SECCOMP_DATA_ARGS0_OFFSET });
    program.push(Insn { code: BPF_ALU_AND_K, jt: 0, jf: 0, k: CLONE_NEW_NAMESPACE_FLAGS });
    program.push(Insn { code: BPF_JEQ_K, jt: 1, jf: 0, k: 0 });
    program.push(Insn { code: BPF_RET_K, jt: 0, jf: 0, k: SECCOMP_RET_ERRNO_EPERM });
    program.push(Insn { code: BPF_RET_K, jt: 0, jf: 0, k: SECCOMP_RET_ALLOW });
    assert(program@ =~= filter_program(word, denied@, clone));
    Ok(assemble(&program))
}

/// The words of `seccomp_data` the filter reads.
pub struct SeccompData {
    pub arch: u32,
    pub nr: u32,
    pub arg0: u32,
}

/// The word an absolute load fetches.
pub open spec fn loaded(data: SeccompData, offset: u32) -> u32 {
    if offset == SECCOMP_DATA_ARCH_OFFSET {
        data.arch
    } else if offset == SECCOMP_DATA_NR_OFFSET {
        data.nr
    } else if offset == SECCOMP_DATA_ARGS0_OFFSET {
        data.arg0
    } else {
        0
    }
}

/// Runs a program from an instruction: the answer it returns, or `None` when
/// it runs off its end or meets an unknown opcode.
pub open spec fn bpf_run(program: Seq<Insn>, at: int, acc: u32, data: SeccompData) -> Option<u32>
    decreases
        if at < program.len() {
            program.len() - at
        } else {
            0
        },
{
    if at < 0 || at >= program.len() {
        None
    } else {
        let i = program[at];
        if i.code == BPF_LD_W_ABS {
            bpf_run(program, at + 1, loaded(data, i.k), data)
        } else if i.code == BPF_ALU_AND_K {
            bpf_run(program, at + 1, acc & i.k, data)
        } else if i.code == BPF_JEQ_K {
            bpf_run(
                program,
                at + 1 + (if acc == i.k {
                    i.jt as int
                } else {
                    i.jf as int
                }),
                acc,
                data,
            )
        } else if i.code == BPF_RET_K {
            Some(i.k)
        } else {
            None
        }
    }
}

/// What the boundary owes every syscall: a foreign architecture fails closed,
/// a denied number (its compat-band bit masked off) takes its denial, `clone`
/// is denied when it asks for a namespace, and everything else is allowed.
pub open spec fn boundary_verdict(word: u32, denied: Seq<u32>, clone: u32, data: SeccompData) -> u32 {
    let nr = data.nr & SECCOMP_COMPAT_BAND_MASK;
    if data.arch != word {
        SECCOMP_RET_ERRNO_EPERM
    } else if denied.contains(nr) {
        denied_answer(nr)
    } else if nr == clone && data.arg0 & CLONE_NEW_NAMESPACE_FLAGS != 0 {
        SECCOMP_RET_ERRNO_EPERM
    } else {
        SECCOMP_RET_ALLOW
    }
}

pub proof fn lemma_table_shape(denied: Seq<u32>, i: int)
    requires
        0 <= i < denied.len(),
    ensures
        filter_table(denied).len() == 2 * denied.len(),
        filter_table(denied)[2 * i] == insn(BPF_JEQ_K, 0, 1, denied[i]),
        filter_table(denied)[2 * i + 1] == insn(BPF_RET_K, 0, 0, denied_answer(denied[i])),
    decreases denied.len(),
{
    let rest = denied.drop_last();
    if i < rest.len() {
        lemma_table_shape(rest, i);
        assert(rest[i] == denied[i]);
    } else if rest.len() > 0 {
        lemma_table_shape(rest, 0);
    } else {
        assert(filter_table(rest).len() == 0);
    }
}

/// From the compare of the `i`-th denied number on, the program answers as the
/// remaining table and the tail say.
proof fn lemma_run_table(word: u32, denied: Seq<u32>, clone: u32, data: SeccompData, i: int, nr: u32)
    requires
        denied.len() > 0,
        0 <= i <= denied.len(),
        forall|j: int| 0 <= j < i ==> denied[j] != nr,
    ensures
        bpf_run(filter_program(word, denied, clone), 4 + 2 * i, nr, data) == Some(
            if denied.contains(nr) {
                denied_answer(nr)
            } else if nr == clone && data.arg0 & CLONE_NEW_NAMESPACE_FLAGS != 0 {
                SECCOMP_RET_ERRNO_EPERM
            } else {
                SECCOMP_RET_ALLOW
            },
        ),
    decreases denied.len() - i,
{
    let p = filter_program(word, denied, clone);
    lemma_table_shape(denied, 0);
    if i < denied.len() {
        lemma_table_shape(denied, i);
        assert(p[4 + 2 * i] == insn(BPF_JEQ_K, 0, 1, denied[i]));
        assert(p[4 + 2 * i + 1] == insn(BPF_RET_K, 0, 0, denied_answer(denied[i])));
        if denied[i] == nr {
            assert(denied.contains(nr));
            reveal_with_fuel(bpf_run, 2);
        } else {
            lemma_run_table(word, denied, clone, data, i + 1, nr);
            assert(4 + 2 * i + 1 + 1 == 4 + 2 * (i + 1));
        }
    } else {
        let t: int = 4 + 2 * (denied.len() as int);
        assert(p[t] == filter_tail(clone)[0]);
        assert(p[t + 1] == filter_tail(clone)[1]);
        assert(p[t + 2] == filter_tail(clone)[2]);
        assert(p[t + 3] == filter_tail(clone)[3]);
        assert(p[t + 4] == filter_tail(clone)[4]);
        assert(p[t + 5] == filter_tail(clone)[5]);
        assert(!denied.contains(nr));
        reveal_with_fuel(bpf_run, 6);
    }
}

/// The assembled filter answers every syscall as the boundary owes it.
pub proof fn law_filter_enforces_boundary(
    word: u32,
    denied: Seq<u32>,
    clone: u32,
    data: SeccompData,
)
    requires
        denied.len() > 0,
        denied[0] != SYS_CLONE3,
    ensures
        bpf_run(filter_program(word, denied, clone), 0, 0, data) == Some(
            boundary_verdict(word, denied, clone, data),
        ),
{
    let p = filter_program(word, denied, clone);
    lemma_table_shape(denied, 0);
    assert(p[0] == filter_head(word)[0]);
    assert(p[1] == filter_head(word)[1]);
    assert(p[2] == filter_head(word)[2]);
    assert(p[3] == filter_head(word)[3]);
    assert(p[5] == insn(BPF_RET_K, 0, 0, denied_answer(denied[0])));
    lemma_run_table(word, denied, clone, data, 0, data.nr & SECCOMP_COMPAT_BAND_MASK);
    reveal_with_fuel(bpf_run, 5);
}

/// Both shipped tables satisfy what the boundary law asks of a table, and
/// neither denies `clone` itself.
pub proof fn law_shipped_tables_are_enforced(arch: Seq<char>, data: SeccompData)
    requires
        native_table(arch) is Some,
    ensures
        clone_number(arch) is Some,
        !native_denied(arch).contains(clone_number(arch)->0),
        native_denied(arch).contains(SYS_CLONE3),
        bpf_run(
            filter_program(
                native_word(arch),
                native_denied(arch),
                clone_number(arch)->0,
            ),
            0,
            0,
            data,
        ) == Some(
            boundary_verdict(
                native_word(arch),
                native_denied(arch),
                clone_number(arch)->0,
                data,
            ),
        ),
{
    let (word, denied) = native_table(arch)->0;
    assert(denied[26] == SYS_CLONE3);
    law_filter_enforces_boundary(word, denied, clone_number(arch)->0, data);
}

/// Reads one instruction back out of its eight bytes.
pub open spec fn insn_read(b: Seq<u8>) -> Insn {
    Insn {
        code: (b[0] + 256 * b[1]) as u16,
        jt: b[2],
        jf: b[3],
        k: (b[4] + 256 * b[5] + 65536 * b[6] + 16777216 * b[7]) as u32,
    }
}

/// The file format loses nothing: instruction `i` reads back from bytes
/// `8 * i .. 8 * i + 8`.
pub proof fn law_program_reads_back(program: Seq<Insn>, i: int)
    requires
        0 <= i < program.len(),
    ensures
        program_bytes(program).len() == 8 * program.len(),
        insn_read(program_bytes(program).subrange(8 * i, 8 * i + 8)) == program[i],
    decreases program.len(),
{
    let rest = program.drop_last();
    let last = program.last();
    let all = program_bytes(program);
    if rest.len() > 0 {
        law_program_reads_back(rest, if i < rest.len() { i } else { 0 });
    }
    assert(program_bytes(rest).len() == 8 * rest.len());
    if i < rest.len() {
        assert(all.subrange(8 * i, 8 * i + 8) =~= program_bytes(rest).subrange(8 * i, 8 * i + 8));
        assert(rest[i] == program[i]);
    } else {
        assert(all.subrange(8 * i, 8 * i + 8) =~= insn_bytes(last));
        let c = last.code;
        let k = last.k;
        assert(c % 256 + 256 * (c / 256) == c) by (nonlinear_arith);
        assert(k % 256 + 256 * (k / 256 % 256) + 65536 * (k / 65536 % 256) + 16777216 * (k
            / 16777216) == k) by (bit_vector);
    }
}

// ----- probes, execution and egress ----------------------------------------

/// The next step of the read probe.
pub fn probe_read_conformance(at: ProbeStep, answer: ProbeAnswer) -> (r: ProbeStep)
    requires
        legs::probes(legs::probe_view(at), answer@),
    ensures
        legs::probe_view(r) == legs::probe_next(
            true,
            legs::linux_read(),
            legs::probe_view(at),
            answer@,
        ),
{
    let words: ProbeWords = probe_words(true, true);
    probe_conformance(true, &words, at, answer)
}

/// The next step of the write probe.
pub fn probe_write_conformance(at: ProbeStep, answer: ProbeAnswer) -> (r: ProbeStep)
    requires
        legs::probes(legs::probe_view(at), answer@),
    ensures
        legs::probe_view(r) == legs::probe_next(
            false,
            legs::linux_write(),
            legs::probe_view(at),
            answer@,
        ),
{
    let words: ProbeWords = probe_words(true, false);
    probe_conformance(false, &words, at, answer)
}

/// The next step of an execution whose control is a copy of a harmless
/// program outside every scope.
pub fn exec_once(
    at: ExecStep,
    ran: Result<bool, WorkerError>,
    control: &str,
    program: &str,
) -> (r: ExecStep)
    ensures
        legs::exec_view(r) == legs::exec_next(
            legs::exec_view(at),
            legs::ran_view(ran),
            "landlock exec boundary admitted the denied control "@ + control@,
            program@,
        ),
{
    let reason: String = text2("landlock exec boundary admitted the denied control ", control);
    exec_step(at, ran, reason.as_str(), program)
}

/// What the control leg of an egress runs: a connect to the worker's own
/// listener. The requested target is never part of it.
pub fn egress_control(port: u16) -> (r: String)
    ensures
        r@ == "exec 3<>/dev/tcp/127.0.0.1/"@ + text::decimal(port as nat),
{
    let digits: String = decimal_text(port as u64);
    text2("exec 3<>/dev/tcp/127.0.0.1/", digits.as_str())
}

/// What an egress comes to on this backend.
pub fn egress_once(
    listener: Result<u16, String>,
    control: Result<bool, WorkerError>,
    url: &str,
) -> (r: Result<(), WorkerError>)
    ensures
        r matches Err(e) && e@ == legs::egress_outcome(
            legs::listener_view(listener),
            legs::ran_view(control),
            "netns/seccomp egress boundary admitted the denied control connect"@,
            url@,
        ),
{
    Err(
        egress_verdict(
            listener,
            control,
            "netns/seccomp egress boundary admitted the denied control connect",
            url,
        ),
    )
}

} // verus!
