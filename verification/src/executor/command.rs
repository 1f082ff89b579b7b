//! The command lines of the confined helper.

use crate::executor::linux::{self, extend, run_confined, SandboxLauncher, SETPRIV, UNSHARE};
use crate::text::{self, owned, same};
use vstd::prelude::*;

verus! {

/// The helper replaces itself with the program behind the separator.
pub open spec fn launch_line(helper: Seq<char>) -> Seq<Seq<char>> {
    seq![helper, "launch"@, "--"@]
}

/// Executable [`launch_line`].
pub fn helper_launch_command(helper: &str) -> (r: Vec<String>)
    ensures
        text::texts(r@) == launch_line(helper@),
{
    let mut line: Vec<String> = Vec::new();
    line.push(owned(helper));
    line.push(owned("launch"));
    line.push(owned("--"));
    assert(text::texts(line@) =~= launch_line(helper@));
    line
}

/// The command line that starts the helper with some arguments. On Linux the
/// network namespace and the seccomp filter stand in front of it, and the
/// separator keeps a path that looks like an option from being one; the other
/// platform's helper builds its whole boundary itself.
pub open spec fn helper_line(
    linux: bool,
    helper: Seq<char>,
    filter: Seq<char>,
    args: Seq<Seq<char>>,
) -> Seq<Seq<char>> {
    if linux {
        launch_line(helper) + linux::run_arguments(
            UNSHARE@,
            SETPRIV@,
            Seq::empty(),
            filter,
            helper,
            args,
        )
    } else {
        seq![helper] + args
    }
}

/// Executable [`helper_line`].
pub fn wrapped_helper(linux: bool, helper: &str, filter: &str, args: Vec<String>) -> (r: Vec<
    String,
>)
    ensures
        text::texts(r@) == helper_line(
            linux,
            helper@,
            filter@,
            text::texts(args@),
        ),
{
    if linux {
        let mut line: Vec<String> = helper_launch_command(helper);
        let rules: Vec<String> = Vec::new();
        assert(text::texts(rules@) =~= Seq::empty());
        let rest: Vec<String> = run_confined(
            &SandboxLauncher::default(),
            &rules,
            filter,
            helper,
            args,
        );
        extend(&mut line, rest);
        line
    } else {
        let mut line: Vec<String> = Vec::new();
        line.push(owned(helper));
        assert(text::texts(line@) =~= seq![helper@]);
        extend(&mut line, args);
        line
    }
}

/// The arguments of a confined data move: a profile only where there is one.
pub open spec fn confined_arguments(
    platform: Seq<char>,
    mode: Seq<char>,
    profile: Seq<char>,
) -> Seq<Seq<char>> {
    if profile.len() == 0 {
        seq!["confined"@, platform, mode]
    } else {
        seq!["confined"@, platform, mode, profile]
    }
}

/// The command line of a confined data move.
pub fn helper_confined_command(
    linux: bool,
    helper: &str,
    filter: &str,
    platform: &str,
    mode: &str,
    profile: &str,
) -> (r: Vec<String>)
    ensures
        text::texts(r@) == helper_line(
            linux,
            helper@,
            filter@,
            confined_arguments(platform@, mode@, profile@),
        ),
{
    let mut args: Vec<String> = Vec::new();
    args.push(owned("confined"));
    args.push(owned(platform));
    args.push(owned(mode));
    let empty: bool = same(profile, "");
    proof {
        reveal_strlit("");
        assert(empty ==> profile@.len() == 0);
        assert(profile@.len() == 0 ==> profile@ =~= ""@);
    }
    if !empty {
        args.push(owned(profile));
    }
    assert(text::texts(args@) =~= confined_arguments(platform@, mode@, profile@));
    wrapped_helper(linux, helper, filter, args)
}

/// The command line of a write probe.
pub fn helper_probe_write(
    linux: bool,
    helper: &str,
    filter: &str,
    platform: &str,
    profile: &str,
    path: &str,
) -> (r: Vec<String>)
    ensures
        text::texts(r@) == helper_line(
            linux,
            helper@,
            filter@,
            seq!["probe-write"@, platform@, profile@, path@],
        ),
{
    let mut args: Vec<String> = Vec::new();
    args.push(owned("probe-write"));
    args.push(owned(platform));
    args.push(owned(profile));
    args.push(owned(path));
    assert(text::texts(args@) =~= seq!["probe-write"@, platform@, profile@, path@]);
    wrapped_helper(linux, helper, filter, args)
}

} // verus!
