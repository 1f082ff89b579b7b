//! The confined helper: the protocol it shares with the executor, where it is
//! found, what its command line means and what its steps come to.

use crate::text::{self, ends_with_char, owned, same, starts_with_char, text2, text3};
use vstd::prelude::*;

pub mod laws;

verus! {

/// The confined run succeeded.
pub const EXIT_OK: i32 = 0;

/// The confined child could not apply its sandbox.
pub const EXIT_SANDBOX_INIT: i32 = 10;

/// The data I/O failed inside the confined child.
pub const EXIT_DATA_IO: i32 = 20;

/// The confined write failed after the target was truncated.
pub const EXIT_DATA_MUTATED: i32 = 21;

/// The helper was invoked with an invalid command line.
pub const EXIT_PROTOCOL: i32 = 30;

/// A launch could not execute its program.
pub const EXIT_LAUNCH_EXEC: i32 = 126;

/// A launch could not find its program.
pub const EXIT_LAUNCH_NOT_FOUND: i32 = 127;

/// How many bytes a confined child may move.
pub const DATA_MAX_BYTES: usize = 1048576;

/// The file name of the helper.
pub const HELPER_NAME: &'static str = "rivect-sandbox-helper";

/// Pins the helper to a path, or takes the pin away.
pub fn override_helper_binary(slot: &mut Option<String>, path: Option<String>)
    ensures
        *final(slot) == path,
{
    *slot = path;
}

/// A name below a directory; an absolute name stands for itself.
pub open spec fn joined(dir: Seq<char>, name: Seq<char>) -> Seq<char> {
    if name.len() > 0 && name[0] == '/' {
        name
    } else if dir.len() == 0 {
        name
    } else if dir.last() == '/' {
        dir + name
    } else {
        dir + "/"@ + name
    }
}

/// Executable [`joined`].
pub fn join_path(dir: &str, name: &str) -> (r: String)
    ensures
        r@ == joined(dir@, name@),
{
    if starts_with_char(name, '/') {
        return owned(name);
    }
    if same(dir, "") {
        proof {
            reveal_strlit("");
        }
        return owned(name);
    }
    proof {
        reveal_strlit("");
        if dir@.len() == 0 {
            assert(dir@ =~= ""@);
        }
    }
    if ends_with_char(dir, '/') {
        text2(dir, name)
    } else {
        text3(dir, "/", name)
    }
}

/// What is known of where the helper may be.
#[derive(Debug)]
pub struct HelperSearch {
    pub pinned: Option<String>,
    /// The path that the environment names.
    pub environment: Option<String>,
    /// The directory of the running program: the error of the system, or
    /// nothing where the program has no directory.
    pub directory: Result<Option<String>, String>,
    /// A file of the helper's name lies in that directory.
    pub beside: bool,
    /// The directory above it, and whether it holds such a file.
    pub above: Option<(String, bool)>,
}

/// Where the helper is: the pin, the environment, beside the program, one
/// level up; or why it is nowhere.
pub open spec fn helper_place(search: HelperSearch) -> Result<Seq<char>, Seq<char>> {
    match (search.pinned, search.environment, search.directory) {
        (Some(path), _, _) => Ok(path@),
        (None, Some(path), _) => Ok(path@),
        (None, None, Err(e)) => Err(e@),
        (None, None, Ok(None)) => Err("cannot resolve the current executable directory"@),
        (None, None, Ok(Some(dir))) => if search.beside {
            Ok(joined(dir@, HELPER_NAME@))
        } else {
            match search.above {
                None => Err("cannot resolve the parent of the current executable directory"@),
                Some((up, present)) => if present {
                    Ok(joined(up@, HELPER_NAME@))
                } else {
                    Err(
                        "rivect-sandbox-helper binary not found beside the rivect executable (or one level up from a deps/ test harness); install it beside the binary or set RIVECT_SANDBOX_HELPER"@,
                    )
                },
            }
        },
    }
}

/// Executable [`helper_place`].
pub fn helper_binary(search: HelperSearch) -> (r: Result<String, String>)
    ensures
        match helper_place(search) {
            Ok(path) => r matches Ok(p) && p@ == path,
            Err(why) => r matches Err(e) && e@ == why,
        },
{
    match search.pinned {
        Some(path) => {
            return Ok(path);
        },
        None => {},
    }
    match search.environment {
        Some(path) => {
            return Ok(path);
        },
        None => {},
    }
    let dir: String = match search.directory {
        Err(e) => {
            return Err(e);
        },
        Ok(None) => {
            return Err(owned("cannot resolve the current executable directory"));
        },
        Ok(Some(d)) => d,
    };
    if search.beside {
        return Ok(join_path(dir.as_str(), HELPER_NAME));
    }
    match search.above {
        None => Err(owned("cannot resolve the parent of the current executable directory")),
        Some((up, present)) => if present {
            Ok(join_path(up.as_str(), HELPER_NAME))
        } else {
            Err(
                owned(
                    "rivect-sandbox-helper binary not found beside the rivect executable (or one level up from a deps/ test harness); install it beside the binary or set RIVECT_SANDBOX_HELPER",
                ),
            )
        },
    }
}

/// Why the helper gives up: its exit code and what it prints.
#[derive(Debug)]
pub struct Failure<T = String> {
    pub code: i32,
    pub diagnostic: T,
}

pub open spec fn failure_view(f: Failure) -> Failure<Seq<char>> {
    Failure { code: f.code, diagnostic: f.diagnostic@ }
}

pub open spec fn verdict_view(r: Result<(), Failure>) -> Result<(), Failure<Seq<char>>> {
    match r {
        Ok(_) => Ok(()),
        Err(f) => Err(failure_view(f)),
    }
}

/// A failure with the prefix of the helper.
pub open spec fn failing(code: i32, what: Seq<char>) -> Failure<Seq<char>> {
    Failure { code, diagnostic: "rivect-sandbox-helper: "@ + what }
}

fn fail(code: i32, what: &str) -> (r: Failure)
    ensures
        failure_view(r) == failing(code, what@),
{
    Failure { code, diagnostic: text2("rivect-sandbox-helper: ", what) }
}

fn fail_with(code: i32, what: &str, error: &str) -> (r: Failure)
    ensures
        failure_view(r) == failing(code, what@ + error@),
{
    let whole: String = text2(what, error);
    fail(code, whole.as_str())
}

/// The boundary to apply.
#[derive(Debug, Clone, Copy, PartialEq, Eq, Structural)]
pub enum Platform {
    Macos,
    Linux,
}

/// The data operation behind the boundary.
#[derive(Debug, Clone, Copy, PartialEq, Eq, Structural)]
pub enum DataMode {
    Read,
    Write,
}

/// What a command line asks for.
#[derive(Debug)]
pub enum HelperPlan<T = String> {
    /// Execute the arguments from this one on.
    Launch { first: usize },
    /// Apply the boundary, then move data; an unknown mode fails behind the
    /// boundary.
    Confined { platform: Platform, profile: T, mode: Option<DataMode> },
    /// Apply the boundary, then open a file for writing.
    ProbeWrite { platform: Platform, profile: T, path: T },
}

pub open spec fn plan_view(r: Result<HelperPlan, Failure>) -> Result<
    HelperPlan<Seq<char>>,
    Failure<Seq<char>>,
> {
    match r {
        Ok(HelperPlan::Launch { first }) => Ok(HelperPlan::Launch { first }),
        Ok(HelperPlan::Confined { platform, profile, mode }) => Ok(
            HelperPlan::Confined { platform, profile: profile@, mode },
        ),
        Ok(HelperPlan::ProbeWrite { platform, profile, path }) => Ok(
            HelperPlan::ProbeWrite { platform, profile: profile@, path: path@ },
        ),
        Err(f) => Err(failure_view(f)),
    }
}

/// The position of the first separator.
pub open spec fn separator_at(args: Seq<Seq<char>>) -> int
    decreases args.len(),
{
    if args.len() == 0 || args[0] == "--"@ {
        0
    } else {
        1 + separator_at(args.skip(1))
    }
}

pub open spec fn platform_of(name: Seq<char>) -> Result<Platform, Failure<Seq<char>>> {
    if name == "macos"@ {
        Ok(Platform::Macos)
    } else if name == "linux"@ {
        Ok(Platform::Linux)
    } else {
        Err(failing(EXIT_PROTOCOL, "confined platform must be macos or linux"@))
    }
}

pub open spec fn mode_of(name: Seq<char>) -> Option<DataMode> {
    if name == "read"@ {
        Some(DataMode::Read)
    } else if name == "write"@ {
        Some(DataMode::Write)
    } else {
        None
    }
}

/// What a launch asks for.
pub open spec fn launch_of(args: Seq<Seq<char>>) -> Result<
    HelperPlan<Seq<char>>,
    Failure<Seq<char>>,
> {
    let at = separator_at(args);
    if at >= args.len() {
        Err(failing(EXIT_PROTOCOL, "launch requires a -- separator"@))
    } else if at + 1 >= args.len() {
        Err(failing(EXIT_PROTOCOL, "launch requires a program"@))
    } else {
        Ok(HelperPlan::Launch { first: (at + 1) as usize })
    }
}

/// What a command line asks for; the first argument is the program's own
/// name.
pub open spec fn plan_of(args: Seq<Seq<char>>) -> Result<
    HelperPlan<Seq<char>>,
    Failure<Seq<char>>,
> {
    if args.len() > 1 && args[1] == "launch"@ {
        launch_of(args)
    } else if args.len() > 1 && args[1] == "confined"@ {
        if args.len() < 4 {
            Err(failing(EXIT_PROTOCOL, "confined requires a platform and a mode"@))
        } else {
            match platform_of(args[2]) {
                Err(f) => Err(f),
                Ok(platform) => Ok(
                    HelperPlan::Confined {
                        platform,
                        profile: if args.len() > 4 {
                            args[4]
                        } else {
                            Seq::empty()
                        },
                        mode: mode_of(args[3]),
                    },
                ),
            }
        }
    } else if args.len() > 1 && args[1] == "probe-write"@ {
        if args.len() < 5 {
            Err(failing(EXIT_PROTOCOL, "probe-write requires platform, profile and path"@))
        } else {
            match platform_of(args[2]) {
                Err(f) => Err(f),
                Ok(platform) => Ok(
                    HelperPlan::ProbeWrite { platform, profile: args[3], path: args[4] },
                ),
            }
        }
    } else {
        Err(failing(EXIT_PROTOCOL, "unknown mode"@))
    }
}

fn platform_named(name: &str) -> (r: Result<Platform, Failure>)
    ensures
        match platform_of(name@) {
            Ok(p) => r == Ok::<Platform, Failure>(p),
            Err(f) => r matches Err(x) && failure_view(x) == f,
        },
{
    if same(name, "macos") {
        Ok(Platform::Macos)
    } else if same(name, "linux") {
        Ok(Platform::Linux)
    } else {
        Err(fail(EXIT_PROTOCOL, "confined platform must be macos or linux"))
    }
}

fn launch_plan(args: &Vec<String>) -> (r: Result<HelperPlan, Failure>)
    ensures
        plan_view(r) == launch_of(text::texts(args@)),
{
    let ghost all = text::texts(args@);
    let mut i: usize = 0;
    assert(all.skip(0) =~= all);
    while i < args.len() && !same(args[i].as_str(), "--")
        invariant
            i <= args.len(),
            all == text::texts(args@),
            separator_at(all) == i + separator_at(all.skip(i as int)),
        decreases args.len() - i,
    {
        assert(all.skip(i as int)[0] == args@[i as int]@);
        assert(all.skip(i as int).skip(1) =~= all.skip(i as int + 1));
        i = i + 1;
    }
    proof {
        if i < args.len() {
            assert(all.skip(i as int)[0] == args@[i as int]@);
        }
    }
    if i >= args.len() {
        Err(fail(EXIT_PROTOCOL, "launch requires a -- separator"))
    } else if i + 1 >= args.len() {
        Err(fail(EXIT_PROTOCOL, "launch requires a program"))
    } else {
        Ok(HelperPlan::Launch { first: i + 1 })
    }
}

/// Executable [`plan_of`].
pub fn helper_plan(args: &Vec<String>) -> (r: Result<HelperPlan, Failure>)
    ensures
        plan_view(r) == plan_of(text::texts(args@)),
{
    let ghost all = text::texts(args@);
    if args.len() < 2 {
        return Err(fail(EXIT_PROTOCOL, "unknown mode"));
    }
    assert(all[1] == args@[1]@);
    let mode: &str = args[1].as_str();
    if same(mode, "launch") {
        launch_plan(args)
    } else if same(mode, "confined") {
        if args.len() < 4 {
            return Err(fail(EXIT_PROTOCOL, "confined requires a platform and a mode"));
        }
        assert(all[2] == args@[2]@ && all[3] == args@[3]@);
        let platform: Platform = match platform_named(args[2].as_str()) {
            Ok(p) => p,
            Err(f) => {
                return Err(f);
            },
        };
        let profile: String = if args.len() > 4 {
            assert(all[4] == args@[4]@);
            args[4].clone()
        } else {
            String::new()
        };
        let data: Option<DataMode> = if same(args[3].as_str(), "read") {
            Some(DataMode::Read)
        } else if same(args[3].as_str(), "write") {
            Some(DataMode::Write)
        } else {
            None
        };
        Ok(HelperPlan::Confined { platform, profile, mode: data })
    } else if same(mode, "probe-write") {
        if args.len() < 5 {
            return Err(fail(EXIT_PROTOCOL, "probe-write requires platform, profile and path"));
        }
        assert(all[2] == args@[2]@ && all[3] == args@[3]@ && all[4] == args@[4]@);
        match platform_named(args[2].as_str()) {
            Ok(platform) => Ok(
                HelperPlan::ProbeWrite {
                    platform,
                    profile: args[3].clone(),
                    path: args[4].clone(),
                },
            ),
            Err(f) => Err(f),
        }
    } else {
        Err(fail(EXIT_PROTOCOL, "unknown mode"))
    }
}

/// Whether this build has the boundary of a platform.
pub fn boundary_built(platform: Platform, linux: bool) -> (r: Result<(), Failure>)
    ensures
        verdict_view(r) == (match (platform, linux) {
            (Platform::Macos, true) => Err(
                failing(EXIT_PROTOCOL, "the macos confined mode is only built on macOS"@),
            ),
            (Platform::Linux, false) => Err(
                failing(EXIT_PROTOCOL, "the linux confined mode is only built on Linux"@),
            ),
            _ => Ok(()),
        }),
{
    match platform {
        Platform::Macos => if linux {
            Err(fail(EXIT_PROTOCOL, "the macos confined mode is only built on macOS"))
        } else {
            Ok(())
        },
        Platform::Linux => if linux {
            Ok(())
        } else {
            Err(fail(EXIT_PROTOCOL, "the linux confined mode is only built on Linux"))
        },
    }
}

/// The data operation of a confined run, once its boundary is applied.
pub fn data_mode(mode: Option<DataMode>) -> (r: Result<DataMode, Failure>)
    ensures
        match mode {
            Some(m) => r == Ok::<DataMode, Failure>(m),
            None => r matches Err(f) && failure_view(f) == failing(
                EXIT_PROTOCOL,
                "confined mode must be read or write"@,
            ),
        },
{
    match mode {
        Some(m) => Ok(m),
        None => Err(fail(EXIT_PROTOCOL, "confined mode must be read or write")),
    }
}

/// What a program that could not be executed comes to.
pub fn launch_failed(not_found: bool, error: &str) -> (r: Failure)
    ensures
        failure_view(r) == failing(
            if not_found {
                EXIT_LAUNCH_NOT_FOUND
            } else {
                EXIT_LAUNCH_EXEC
            },
            "exec failed: "@ + error@,
        ),
{
    if not_found {
        fail_with(EXIT_LAUNCH_NOT_FOUND, "exec failed: ", error)
    } else {
        fail_with(EXIT_LAUNCH_EXEC, "exec failed: ", error)
    }
}

/// The next step of moving data.
#[derive(Debug)]
pub enum DataStep<T = String> {
    /// Take the bytes in, one more than the limit at most.
    Take,
    /// Set the length of the target.
    Resize { len: u64 },
    /// Put the bytes out.
    Put,
    /// The operation is over.
    Return(Result<(), Failure<T>>),
}

pub open spec fn data_view(s: DataStep) -> DataStep<Seq<char>> {
    match s {
        DataStep::Take => DataStep::Take,
        DataStep::Resize { len } => DataStep::Resize { len },
        DataStep::Put => DataStep::Put,
        DataStep::Return(r) => DataStep::Return(verdict_view(r)),
    }
}

pub open spec fn io_view(r: Result<usize, String>) -> Result<usize, Seq<char>> {
    match r {
        Ok(n) => Ok(n),
        Err(e) => Err(e@),
    }
}

/// The next step of moving data, from how many bytes the last one moved, or
/// its error. A write resizes its target before it puts the bytes: from
/// then on a failure leaves a mutated target.
pub open spec fn data_next(
    mode: DataMode,
    at: DataStep<Seq<char>>,
    moved: Result<usize, Seq<char>>,
) -> DataStep<Seq<char>> {
    match (at, moved) {
        (DataStep::Take, Err(e)) => DataStep::Return(
            Err(
                failing(
                    EXIT_DATA_IO,
                    if mode == DataMode::Read {
                        "admitted read failed: "@ + e
                    } else {
                        "admitted payload read failed: "@ + e
                    },
                ),
            ),
        ),
        (DataStep::Take, Ok(len)) => if len > DATA_MAX_BYTES {
            DataStep::Return(
                Err(
                    failing(
                        EXIT_DATA_IO,
                        if mode == DataMode::Read {
                            "admitted read exceeds the data cap"@
                        } else {
                            "admitted payload exceeds the data cap"@
                        },
                    ),
                ),
            )
        } else if mode == DataMode::Read {
            DataStep::Put
        } else {
            DataStep::Resize { len: len as u64 }
        },
        (DataStep::Resize { .. }, Err(e)) => DataStep::Return(
            Err(failing(EXIT_DATA_IO, "admitted truncate failed: "@ + e)),
        ),
        (DataStep::Resize { .. }, Ok(_)) => DataStep::Put,
        (DataStep::Put, Err(e)) => DataStep::Return(
            Err(
                if mode == DataMode::Read {
                    failing(EXIT_DATA_IO, "admitted read delivery failed: "@ + e)
                } else {
                    failing(EXIT_DATA_MUTATED, "admitted write failed: "@ + e)
                },
            ),
        ),
        (DataStep::Put, Ok(_)) => DataStep::Return(Ok(())),
        (DataStep::Return(_), _) => at,
    }
}

/// Executable [`data_next`].
pub fn move_data(mode: DataMode, at: DataStep, moved: Result<usize, String>) -> (r: DataStep)
    ensures
        data_view(r) == data_next(mode, data_view(at), io_view(moved)),
{
    let read: bool = match mode {
        DataMode::Read => true,
        DataMode::Write => false,
    };
    match at {
        DataStep::Take => match moved {
            Err(e) => if read {
                DataStep::Return(
                    Err(fail_with(EXIT_DATA_IO, "admitted read failed: ", e.as_str())),
                )
            } else {
                DataStep::Return(
                    Err(fail_with(EXIT_DATA_IO, "admitted payload read failed: ", e.as_str())),
                )
            },
            Ok(len) => if len > DATA_MAX_BYTES {
                if read {
                    DataStep::Return(
                        Err(fail(EXIT_DATA_IO, "admitted read exceeds the data cap")),
                    )
                } else {
                    DataStep::Return(
                        Err(fail(EXIT_DATA_IO, "admitted payload exceeds the data cap")),
                    )
                }
            } else if read {
                DataStep::Put
            } else {
                DataStep::Resize { len: len as u64 }
            },
        },
        DataStep::Resize { .. } => match moved {
            Err(e) => DataStep::Return(
                Err(fail_with(EXIT_DATA_IO, "admitted truncate failed: ", e.as_str())),
            ),
            Ok(_) => DataStep::Put,
        },
        DataStep::Put => match moved {
            Err(e) => if read {
                DataStep::Return(
                    Err(fail_with(EXIT_DATA_IO, "admitted read delivery failed: ", e.as_str())),
                )
            } else {
                DataStep::Return(
                    Err(fail_with(EXIT_DATA_MUTATED, "admitted write failed: ", e.as_str())),
                )
            },
            Ok(_) => DataStep::Return(Ok(())),
        },
        DataStep::Return(done) => DataStep::Return(done),
    }
}

/// A write reports a mutated target exactly where it fails once the target was
/// resized; a read never reports one.
pub proof fn law_only_a_resized_target_is_mutated(
    mode: DataMode,
    at: DataStep<Seq<char>>,
    moved: Result<usize, Seq<char>>,
)
    requires
        !(at is Return),
    ensures
        (data_next(mode, at, moved) matches DataStep::Return(Err(f)) && f.code
            == EXIT_DATA_MUTATED) == (mode == DataMode::Write && at is Put && moved is Err),
        mode == DataMode::Write && at is Take ==> !(data_next(mode, at, moved) is Put),
{
}

/// What a probe write comes to.
pub fn probe_write_verdict(opened: Result<(), String>, written: Result<(), String>) -> (r: Result<
    (),
    Failure,
>)
    ensures
        verdict_view(r) == (match (opened, written) {
            (Err(e), _) => Err(failing(EXIT_DATA_IO, "probe-write open denied: "@ + e@)),
            (Ok(_), Err(e)) => Err(failing(EXIT_DATA_IO, "probe-write write failed: "@ + e@)),
            (Ok(_), Ok(_)) => Ok(()),
        }),
{
    match opened {
        Err(e) => Err(fail_with(EXIT_DATA_IO, "probe-write open denied: ", e.as_str())),
        Ok(_) => match written {
            Err(e) => Err(fail_with(EXIT_DATA_IO, "probe-write write failed: ", e.as_str())),
            Ok(_) => Ok(()),
        },
    }
}

// ----- Landlock --------------------------------------------------------------

/// Every file system right that Landlock can handle: execute, write-file,
/// read-file, read-dir, remove-dir, remove-file, make-char, make-dir,
/// make-reg, make-sock, make-fifo, make-block, make-sym, refer, truncate.
pub const HANDLED_FS: u64 = 0x7FFF;

/// Every handled right is in the mask, and nothing else.
pub proof fn law_every_right_is_handled(right: u64)
    requires
        right < 64,
    ensures
        (HANDLED_FS & (1u64 << right) != 0) == (right < 15),
{
    assert(right < 64 ==> ((0x7FFFu64 & (1u64 << right) != 0) == (right < 15))) by (bit_vector);
}

/// The next step of applying Landlock.
#[derive(Debug)]
pub enum LandlockStep<T = String> {
    /// Give up gaining privileges.
    NoNewPrivs,
    /// Create a rule set that handles these rights, with no rule in it.
    CreateRuleset { handled: u64 },
    /// Restrict this process to the rule set.
    RestrictSelf { ruleset: i64 },
    /// The boundary is applied, or not; a rule set that was created is
    /// closed.
    Return { verdict: Result<(), Failure<T>>, close: Option<i64> },
}

pub open spec fn landlock_view(s: LandlockStep) -> LandlockStep<Seq<char>> {
    match s {
        LandlockStep::NoNewPrivs => LandlockStep::NoNewPrivs,
        LandlockStep::CreateRuleset { handled } => LandlockStep::CreateRuleset { handled },
        LandlockStep::RestrictSelf { ruleset } => LandlockStep::RestrictSelf { ruleset },
        LandlockStep::Return { verdict, close } => LandlockStep::Return {
            verdict: verdict_view(verdict),
            close,
        },
    }
}

/// What a system call gave: its value, or its error where it failed.
pub open spec fn call_view(r: Result<i64, String>) -> Result<i64, Seq<char>> {
    match r {
        Ok(v) => Ok(v),
        Err(e) => Err(e@),
    }
}

/// The next step of applying Landlock: everything is denied, so only what is
/// already open can be used behind it.
pub open spec fn landlock_next(
    at: LandlockStep<Seq<char>>,
    called: Result<i64, Seq<char>>,
) -> LandlockStep<Seq<char>> {
    match (at, called) {
        (LandlockStep::NoNewPrivs, Ok(_)) => LandlockStep::CreateRuleset { handled: HANDLED_FS },
        (LandlockStep::NoNewPrivs, Err(e)) => LandlockStep::Return {
            verdict: Err(failing(EXIT_SANDBOX_INIT, "prctl no_new_privs failed: "@ + e)),
            close: None,
        },
        (LandlockStep::CreateRuleset { .. }, Ok(ruleset)) => LandlockStep::RestrictSelf {
            ruleset,
        },
        (LandlockStep::CreateRuleset { .. }, Err(e)) => LandlockStep::Return {
            verdict: Err(failing(EXIT_SANDBOX_INIT, "landlock_create_ruleset failed: "@ + e)),
            close: None,
        },
        (LandlockStep::RestrictSelf { ruleset }, Ok(_)) => LandlockStep::Return {
            verdict: Ok(()),
            close: Some(ruleset),
        },
        (LandlockStep::RestrictSelf { ruleset }, Err(e)) => LandlockStep::Return {
            verdict: Err(failing(EXIT_SANDBOX_INIT, "landlock_restrict_self failed: "@ + e)),
            close: Some(ruleset),
        },
        (LandlockStep::Return { .. }, _) => at,
    }
}

/// Executable [`landlock_next`].
pub fn apply_landlock(at: LandlockStep, called: Result<i64, String>) -> (r: LandlockStep)
    ensures
        landlock_view(r) == landlock_next(landlock_view(at), call_view(called)),
{
    match at {
        LandlockStep::NoNewPrivs => match called {
            Ok(_) => LandlockStep::CreateRuleset { handled: HANDLED_FS },
            Err(e) => LandlockStep::Return {
                verdict: Err(
                    fail_with(EXIT_SANDBOX_INIT, "prctl no_new_privs failed: ", e.as_str()),
                ),
                close: None,
            },
        },
        LandlockStep::CreateRuleset { .. } => match called {
            Ok(ruleset) => LandlockStep::RestrictSelf { ruleset },
            Err(e) => LandlockStep::Return {
                verdict: Err(
                    fail_with(
                        EXIT_SANDBOX_INIT,
                        "landlock_create_ruleset failed: ",
                        e.as_str(),
                    ),
                ),
                close: None,
            },
        },
        LandlockStep::RestrictSelf { ruleset } => match called {
            Ok(_) => LandlockStep::Return { verdict: Ok(()), close: Some(ruleset) },
            Err(e) => LandlockStep::Return {
                verdict: Err(
                    fail_with(
                        EXIT_SANDBOX_INIT,
                        "landlock_restrict_self failed: ",
                        e.as_str(),
                    ),
                ),
                close: Some(ruleset),
            },
        },
        LandlockStep::Return { verdict, close } => LandlockStep::Return { verdict, close },
    }
}

/// The boundary is applied exactly when all three calls succeed.
pub proof fn law_landlock_needs_every_call(
    privs: Result<i64, Seq<char>>,
    created: Result<i64, Seq<char>>,
    restricted: Result<i64, Seq<char>>,
)
    ensures
        (landlock_next(
            landlock_next(landlock_next(LandlockStep::NoNewPrivs, privs), created),
            restricted,
        ) matches LandlockStep::Return { verdict: Ok(_), .. }) == (privs is Ok && created is Ok
            && restricted is Ok),
{
}

// ----- limits ----------------------------------------------------------------

/// A resource limit; the soft and the hard limit are the same.
#[derive(Debug, Clone, Copy, PartialEq, Eq, Structural)]
pub struct Rlimit {
    pub rlim_cur: u64,
    pub rlim_max: u64,
}

pub open spec fn limit(value: u64) -> Rlimit {
    Rlimit { rlim_cur: value, rlim_max: value }
}

/// The resources that bound every confined child, with their limits: address
/// space, processor seconds, file size, open files.
pub open spec fn limits(linux: bool) -> Seq<(i32, Rlimit)> {
    seq![
        (
            if linux {
                9i32
            } else {
                5i32
            },
            limit(536870912),
        ),
        (0i32, limit(30)),
        (1i32, limit(67108864)),
        (
            if linux {
                7i32
            } else {
                8i32
            },
            limit(256),
        ),
    ]
}

/// Executable [`limits`].
pub fn rlimits(linux: bool) -> (r: Vec<(i32, Rlimit)>)
    ensures
        r@ == limits(linux),
{
    let (space, files): (i32, i32) = if linux {
        (9, 7)
    } else {
        (5, 8)
    };
    let mut out: Vec<(i32, Rlimit)> = Vec::new();
    out.push((space, Rlimit { rlim_cur: 536870912, rlim_max: 536870912 }));
    out.push((0, Rlimit { rlim_cur: 30, rlim_max: 30 }));
    out.push((1, Rlimit { rlim_cur: 67108864, rlim_max: 67108864 }));
    out.push((files, Rlimit { rlim_cur: 256, rlim_max: 256 }));
    assert(out@ =~= limits(linux));
    out
}

/// The process group that a kill of a confined child names: the negated
/// process id, where it fits.
pub fn kill_process_group(pid: u32) -> (r: Result<i32, String>)
    ensures
        if pid <= i32::MAX {
            r matches Ok(g) && g == -(pid as int)
        } else {
            r matches Err(e) && e@ == "confined child pid does not fit pid_t"@
        },
{
    if pid <= 2147483647 {
        Ok(-(pid as i32))
    } else {
        Err(owned("confined child pid does not fit pid_t"))
    }
}

} // verus!
