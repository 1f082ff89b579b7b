//! What the sandbox helper promises of its place, its command line and the
//! data it moves.

use crate::helper::{
    self, DataMode, DataStep, HelperPlan, HelperSearch, Platform, DATA_MAX_BYTES, EXIT_DATA_IO,
    EXIT_DATA_MUTATED, EXIT_PROTOCOL, HELPER_NAME,
};
use vstd::prelude::*;

verus! {

/// A name stands below its directory, with one slash between them; an absolute
/// name stands for itself.
pub proof fn law_joined_name_lies_below(dir: Seq<char>, name: Seq<char>)
    requires
        dir.len() > 0,
        name.len() > 0,
    ensures
        name[0] == '/' ==> helper::joined(dir, name) == name,
        name[0] != '/' && dir.last() != '/' ==> helper::joined(dir, name) == dir + seq!['/'] + name,
        name[0] != '/' && dir.last() == '/' ==> helper::joined(dir, name) == dir + name,
        helper::joined(Seq::empty(), name) == name,
{
    reveal_strlit("/");
    assert("/"@ =~= seq!['/']);
}

/// A pinned helper comes before the one the environment names, that one before
/// one beside the program, and that one before one a level up.
pub proof fn law_helper_is_looked_for_in_order(search: HelperSearch)
    ensures
        search.pinned matches Some(p) ==> helper::helper_place(search) == Ok::<
            Seq<char>,
            Seq<char>,
        >(p@),
        search.pinned is None ==> (search.environment matches Some(p) ==> helper::helper_place(
            search,
        ) == Ok::<Seq<char>, Seq<char>>(p@)),
        search.pinned is None && search.environment is None ==> (search.directory matches Ok(
            Some(dir),
        ) ==> {
            &&& search.beside ==> helper::helper_place(search) == Ok::<Seq<char>, Seq<char>>(
                helper::joined(dir@, HELPER_NAME@),
            )
            &&& !search.beside && (search.above matches Some((_, present)) && present) ==> (
            search.above matches Some((up, _)) && helper::helper_place(search) == Ok::<
                Seq<char>,
                Seq<char>,
            >(helper::joined(up@, HELPER_NAME@)))
            &&& !search.beside && !(search.above matches Some((_, present)) && present)
                ==> helper::helper_place(search) is Err
        }),
        search.pinned is None && search.environment is None ==> (search.directory matches Err(e)
            ==> helper::helper_place(search) == Err::<Seq<char>, Seq<char>>(e@)),
{
}

proof fn lemma_separator_at(args: Seq<Seq<char>>, i: int)
    requires
        0 <= i <= args.len(),
        i < args.len() ==> args[i] == "--"@,
        forall|k: int| 0 <= k < i ==> (#[trigger] args[k]) != "--"@,
    ensures
        helper::separator_at(args) == i,
    decreases i,
{
    if i > 0 {
        assert(args[0] != "--"@);
        let t = args.skip(1);
        assert forall|k: int| 0 <= k < i - 1 implies (#[trigger] t[k]) != "--"@ by {
            assert(t[k] == args[k + 1]);
        }
        lemma_separator_at(t, i - 1);
    }
}

proof fn lemma_modes_differ()
    ensures
        "launch"@ != "confined"@,
        "launch"@ != "probe-write"@,
        "confined"@ != "probe-write"@,
        "macos"@ != "linux"@,
        "read"@ != "write"@,
{
    reveal_strlit("launch");
    reveal_strlit("confined");
    reveal_strlit("probe-write");
    reveal_strlit("macos");
    reveal_strlit("linux");
    reveal_strlit("read");
    reveal_strlit("write");
    assert("launch"@.len() == 6 && "confined"@.len() == 8 && "probe-write"@.len() == 11);
    assert("macos"@[0] == 'm' && "linux"@[0] == 'l');
    assert("read"@.len() == 4 && "write"@.len() == 5);
}

/// A launch executes what stands behind the first separator, however many
/// follow it; without a separator, or with nothing behind it, there is nothing
/// to launch.
pub proof fn law_launch_begins_behind_the_first_separator(args: Seq<Seq<char>>, i: int)
    requires
        2 <= args.len() < usize::MAX,
        args[1] == "launch"@,
        0 <= i <= args.len(),
        i < args.len() ==> args[i] == "--"@,
        forall|k: int| 0 <= k < i ==> (#[trigger] args[k]) != "--"@,
    ensures
        i + 1 < args.len() ==> (helper::plan_of(args) matches Ok(HelperPlan::Launch { first })
            && first == i + 1),
        i + 1 >= args.len() ==> (helper::plan_of(args) matches Err(f) && f.code == EXIT_PROTOCOL),
{
    lemma_separator_at(args, i);
}

/// A confined move takes its platform, its mode and its profile from the
/// arguments in that order; a probe its platform, its profile and its path. An
/// unknown mode is kept for behind the boundary, an unknown platform or an
/// unknown operation ends at once.
pub proof fn law_arguments_say_what_is_confined(
    own: Seq<char>,
    platform: Seq<char>,
    mode: Seq<char>,
    profile: Seq<char>,
    path: Seq<char>,
    operation: Seq<char>,
)
    requires
        operation != "launch"@ && operation != "confined"@ && operation != "probe-write"@,
    ensures
        ({
            let known = if platform == "macos"@ {
                Some(Platform::Macos)
            } else if platform == "linux"@ {
                Some(Platform::Linux)
            } else {
                None
            };
            let moves = if mode == "read"@ {
                Some(DataMode::Read)
            } else if mode == "write"@ {
                Some(DataMode::Write)
            } else {
                None
            };
            let confined = helper::plan_of(seq![own, "confined"@, platform, mode, profile]);
            let bare = helper::plan_of(seq![own, "confined"@, platform, mode]);
            let probe = helper::plan_of(seq![own, "probe-write"@, platform, profile, path]);
            &&& known matches Some(p) ==> {
                &&& confined matches Ok(HelperPlan::Confined { platform: x, profile: y, mode: z })
                    && x == p && y == profile && z == moves
                &&& bare matches Ok(HelperPlan::Confined { platform: x, profile: y, mode: z }) && x
                    == p && y.len() == 0 && z == moves
                &&& probe matches Ok(HelperPlan::ProbeWrite { platform: x, profile: y, path: z })
                    && x == p && y == profile && z == path
            }
            &&& known is None ==> confined is Err && bare is Err && probe is Err
            &&& helper::plan_of(seq![own, operation]) is Err
            &&& helper::plan_of(seq![own]) is Err
        }),
{
    lemma_modes_differ();
}

/// A read takes the bytes and puts them out; a write takes them, makes the
/// target exactly as long, and then puts them out. Neither moves more than the
/// limit, and neither goes on behind an error.
pub proof fn law_data_moves_in_order(
    len: usize,
    put: usize,
    error: Seq<char>,
)
    ensures
        ({
            let some = Ok::<usize, Seq<char>>(len);
            let done = Ok::<usize, Seq<char>>(put);
            let failed = Err::<usize, Seq<char>>(error);
            &&& len <= DATA_MAX_BYTES ==> {
                &&& helper::data_next(DataMode::Read, DataStep::Take, some) is Put
                &&& helper::data_next(DataMode::Write, DataStep::Take, some) matches
                    DataStep::Resize { len: n } && n == len
            }
            &&& len > DATA_MAX_BYTES ==> {
                &&& helper::data_next(DataMode::Read, DataStep::Take, some) matches
                    DataStep::Return(Err(f)) && f.code == EXIT_DATA_IO
                &&& helper::data_next(DataMode::Write, DataStep::Take, some) matches
                    DataStep::Return(Err(f)) && f.code == EXIT_DATA_IO
            }
            &&& helper::data_next(DataMode::Write, DataStep::Resize { len: len as u64 }, done) is Put
            &&& helper::data_next(DataMode::Read, DataStep::Put, done) matches DataStep::Return(
                Ok(_),
            )
            &&& helper::data_next(DataMode::Write, DataStep::Put, done) matches DataStep::Return(
                Ok(_),
            )
            &&& helper::data_next(DataMode::Read, DataStep::Take, failed) matches DataStep::Return(
                Err(f),
            ) && f.code == EXIT_DATA_IO
            &&& helper::data_next(DataMode::Write, DataStep::Take, failed) matches DataStep::Return(
                Err(f),
            ) && f.code == EXIT_DATA_IO
            &&& helper::data_next(
                DataMode::Write,
                DataStep::Resize { len: len as u64 },
                failed,
            ) matches DataStep::Return(Err(f)) && f.code == EXIT_DATA_IO
            &&& helper::data_next(DataMode::Read, DataStep::Put, failed) matches DataStep::Return(
                Err(f),
            ) && f.code == EXIT_DATA_IO
            &&& helper::data_next(DataMode::Write, DataStep::Put, failed) matches DataStep::Return(
                Err(f),
            ) && f.code == EXIT_DATA_MUTATED
        }),
{
}

/// Every limit is hard: what a child has is what it can ever have. The values
/// are those of every platform; only the numbers of the resources differ.
pub proof fn law_limits_cannot_be_raised(linux: bool, other: bool, i: int)
    requires
        0 <= i < helper::limits(linux).len(),
    ensures
        helper::limits(linux)[i].1.rlim_cur == helper::limits(linux)[i].1.rlim_max,
        helper::limits(other).len() == helper::limits(linux).len(),
        helper::limits(other)[i].1 == helper::limits(linux)[i].1,
{
}

} // verus!
