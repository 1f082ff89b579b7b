//! What the boundary around reads, writes, programs and egress promises.

use crate::executor::legs::{
    self, ExecStep, LegAnswerView, LegRun, LegStep, OpenOutcome, ProbeAnswerView, ProbeStep,
    ProbeWords,
};
use crate::executor::linux::{self, Confinement, SeccompData};
use crate::executor::macos::{self, FileFacts, FileIdentity, WorkerError, READ_MAX_BYTES};
use crate::executor::observe;
use crate::text;
use vstd::prelude::*;

verus! {

/// A file that was opened for a read is used exactly when it is a regular
/// file, the inspected one by device and inode, and small enough.
pub proof fn law_read_uses_the_inspected_file(
    target: Seq<char>,
    before: FileFacts,
    now: FileFacts,
)
    ensures
        ({
            let r = legs::read_opened(target, before, OpenOutcome::Opened(now));
            let same = before.regular && before.dev == now.dev && before.ino == now.ino;
            &&& r is Ok <==> now.regular && same && now.len <= READ_MAX_BYTES
            &&& !now.regular ==> (r matches Err(WorkerError::NotRegularFile { target: t }) && t
                == target)
            &&& now.regular && !same ==> (r matches Err(WorkerError::TargetChanged { target: t })
                && t == target)
            &&& now.regular && same && now.len > READ_MAX_BYTES ==> (r matches Err(
                WorkerError::TooLarge,
            ))
        }),
{
}

/// A file that was opened for a write is used exactly when it is the inspected
/// one and the admitted one, by device and inode; anything else has changed.
pub proof fn law_write_uses_the_admitted_file(
    target: Seq<char>,
    before: FileFacts,
    admitted: FileIdentity,
    now: FileFacts,
)
    ensures
        ({
            let r = legs::write_opened(target, before, admitted, OpenOutcome::Opened(now));
            &&& r is Ok <==> before.regular && now.regular && before.dev == now.dev && before.ino
                == now.ino && admitted.dev == now.dev && admitted.ino == now.ino
            &&& r is Err ==> (r matches Err(WorkerError::TargetChanged { target: t }) && t
                == target)
        }),
{
}

/// A target that does not open, or says nothing of itself, is named with the
/// words of the system.
pub proof fn law_open_failure_keeps_its_words(
    target: Seq<char>,
    before: FileFacts,
    admitted: FileIdentity,
    words: Seq<char>,
)
    ensures
        legs::read_opened(target, before, OpenOutcome::Failed(words)) matches Err(
            WorkerError::ReadFailed { source },
        ) && source == words,
        legs::write_opened(target, before, admitted, OpenOutcome::Failed(words)) matches Err(
            WorkerError::WriteFailed { source },
        ) && source == words,
        legs::read_opened(target, before, OpenOutcome::NoMetadata(words)) matches Err(
            WorkerError::MetadataUnavailable { source },
        ) && source == words,
        legs::write_opened(target, before, admitted, OpenOutcome::NoMetadata(words)) matches Err(
            WorkerError::MetadataUnavailable { source },
        ) && source == words,
{
}

/// A leg goes through its steps in one order, with the facts of the inspected
/// target all the way, and gives back the bytes that were moved.
pub proof fn law_leg_takes_its_steps_in_order(
    target: Seq<char>,
    admitted: Option<FileIdentity>,
    canonical: Seq<char>,
    before: FileFacts,
    now: FileFacts,
    bytes: Seq<u8>,
)
    requires
        before.regular && now.regular && before.dev == now.dev && before.ino == now.ino,
        admitted matches Some(e) ==> e.dev == now.dev && e.ino == now.ino,
        admitted is None ==> before.len <= READ_MAX_BYTES && now.len <= READ_MAX_BYTES
            && bytes.len() <= READ_MAX_BYTES,
    ensures
        ({
            let inspected = legs::leg_next(
                target,
                admitted,
                LegStep::Inspect,
                LegAnswerView::Inspected(Ok((canonical, before))),
            );
            let probed = legs::leg_next(
                target,
                admitted,
                inspected,
                LegAnswerView::Crossed(Ok(())),
            );
            let through = legs::leg_next(target, admitted, probed, LegAnswerView::Crossed(Ok(())));
            let opened = legs::leg_next(
                target,
                admitted,
                through,
                LegAnswerView::Opened(OpenOutcome::Opened(now)),
            );
            let moved = legs::leg_next(target, admitted, opened, LegAnswerView::Moved(Ok(bytes)));
            &&& inspected == LegStep::<Seq<char>, Seq<u8>>::Probe { canonical, facts: before }
            &&& probed == LegStep::<Seq<char>, Seq<u8>>::Gate { canonical, facts: before }
            &&& through == LegStep::<Seq<char>, Seq<u8>>::Open { facts: before }
            &&& opened is Move
            &&& moved matches LegStep::Return(Ok(b)) && b == bytes
        }),
{
}

/// A leg ends with the first error it meets, whichever step that is; a read
/// ends before the boundary where its target is too large, and behind it where
/// too much came back.
pub proof fn law_leg_ends_with_its_first_error(
    target: Seq<char>,
    admitted: Option<FileIdentity>,
    canonical: Seq<char>,
    facts: FileFacts,
    e: WorkerError<Seq<char>>,
    bytes: Seq<u8>,
)
    ensures
        legs::leg_next(
            target,
            admitted,
            LegStep::Inspect,
            LegAnswerView::Inspected(Err(e)),
        ) matches LegStep::Return(Err(x)) && x == e,
        legs::leg_next(
            target,
            admitted,
            LegStep::Probe { canonical, facts },
            LegAnswerView::Crossed(Err(e)),
        ) matches LegStep::Return(Err(x)) && x == e,
        legs::leg_next(
            target,
            admitted,
            LegStep::Gate { canonical, facts },
            LegAnswerView::Crossed(Err(e)),
        ) matches LegStep::Return(Err(x)) && x == e,
        legs::leg_next(
            target,
            admitted,
            LegStep::Move,
            LegAnswerView::Moved(Err(e)),
        ) matches LegStep::Return(Err(x)) && x == e,
        facts.len > READ_MAX_BYTES ==> (legs::leg_next(
            target,
            None,
            LegStep::Inspect,
            LegAnswerView::Inspected(Ok((canonical, facts))),
        ) matches LegStep::Return(Err(WorkerError::TooLarge))),
        bytes.len() > READ_MAX_BYTES ==> (legs::leg_next(
            target,
            None,
            LegStep::Move,
            LegAnswerView::Moved(Ok(bytes)),
        ) matches LegStep::Return(Err(WorkerError::TooLarge))),
{
}

/// A probe of a read passes when the outside was denied though it can be
/// opened, and the scope let through; a probe of a write asks nothing of the
/// outside but the denial.
pub proof fn law_probe_passes_a_boundary_that_holds(
    words: ProbeWords<Seq<char>>,
    denied: LegRun<Seq<char>>,
    admitted: LegRun<Seq<char>>,
)
    requires
        !denied.exit_ok,
        admitted.exit_ok,
    ensures
        ({
            let outside = ProbeAnswerView::Ran(Ok(denied));
            let inside = ProbeAnswerView::Ran(Ok(admitted));
            let open = ProbeAnswerView::Opened(Ok(()));
            &&& legs::probe_after(true, words, seq![outside, open, inside]) matches
                ProbeStep::Verdict(Ok(_))
            &&& legs::probe_after(false, words, seq![outside, inside]) matches ProbeStep::Verdict(
                Ok(_),
            )
        }),
{
    let outside = ProbeAnswerView::Ran(Ok(denied));
    let inside = ProbeAnswerView::Ran(Ok(admitted));
    let open = ProbeAnswerView::Opened(Ok(()));
    reveal_with_fuel(legs::probe_after, 4);
    let read = seq![outside, open, inside];
    assert(read.drop_last() =~= seq![outside, open]);
    assert(seq![outside, open].drop_last() =~= seq![outside]);
    assert(seq![outside].drop_last() =~= Seq::<ProbeAnswerView>::empty());
    assert(seq![outside, inside].drop_last() =~= seq![outside]);
}

/// A probe tells what is wrong: a boundary that lets the outside through, or
/// denies what can be opened, is unavailable; a target this process cannot
/// open either is a failure of the effect itself.
pub proof fn law_probe_tells_a_broken_boundary(
    read: bool,
    words: ProbeWords<Seq<char>>,
    run: LegRun<Seq<char>>,
    source: Seq<char>,
    e: WorkerError<Seq<char>>,
)
    ensures
        run.exit_ok ==> (legs::probe_next(
            read,
            words,
            ProbeStep::RunDenied,
            ProbeAnswerView::Ran(Ok(run)),
        ) matches ProbeStep::Verdict(Err(WorkerError::SandboxUnavailable { reason })) && reason
            == words.admitted),
        legs::probe_next(
            read,
            words,
            ProbeStep::OpenDenied,
            ProbeAnswerView::Opened(Err(source)),
        ) matches ProbeStep::Verdict(Err(WorkerError::SandboxUnavailable { reason })) && reason
            == words.unreadable,
        !run.exit_ok ==> (legs::probe_next(
            read,
            words,
            ProbeStep::RunAdmitted,
            ProbeAnswerView::Ran(Ok(run)),
        ) matches ProbeStep::OpenAdmitted { stderr } && stderr == run.stderr),
        legs::probe_next(
            read,
            words,
            ProbeStep::OpenAdmitted { stderr: source },
            ProbeAnswerView::Opened(Ok(())),
        ) matches ProbeStep::Verdict(Err(WorkerError::SandboxUnavailable { reason }))
            && text::has_prefix(reason, words.denied),
        legs::probe_next(
            true,
            words,
            ProbeStep::OpenAdmitted { stderr: run.stderr },
            ProbeAnswerView::Opened(Err(source)),
        ) matches ProbeStep::Verdict(Err(WorkerError::ReadFailed { source: s })) && s == source,
        legs::probe_next(
            false,
            words,
            ProbeStep::OpenAdmitted { stderr: run.stderr },
            ProbeAnswerView::Opened(Err(source)),
        ) matches ProbeStep::Verdict(Err(WorkerError::WriteFailed { source: s })) && s == source,
        legs::probe_next(
            read,
            words,
            ProbeStep::RunDenied,
            ProbeAnswerView::Ran(Err(e)),
        ) matches ProbeStep::Verdict(Err(x)) && x == e,
        legs::probe_next(
            read,
            words,
            ProbeStep::RunAdmitted,
            ProbeAnswerView::Ran(Err(e)),
        ) matches ProbeStep::Verdict(Err(x)) && x == e,
{
    assert((words.denied + linux::excerpt(source)).take(words.denied.len() as int)
        =~= words.denied);
    assert(words.denied.take(words.denied.len() as int) =~= words.denied);
}

/// An execution names what stopped it: a control that was let through is a
/// boundary that does not hold, a program that was not is a denial of that
/// program, and an error ends the leg wherever it comes.
pub proof fn law_execution_names_what_stopped_it(
    reason: Seq<char>,
    program: Seq<char>,
    e: WorkerError<Seq<char>>,
)
    ensures
        legs::exec_next(ExecStep::RunControl, Ok(true), reason, program) matches ExecStep::Return(
            Err(WorkerError::SandboxUnavailable { reason: r }),
        ) && r == reason,
        legs::exec_next(ExecStep::RunControl, Ok(false), reason, program) is RunProgram,
        legs::exec_next(ExecStep::RunProgram, Ok(false), reason, program) matches ExecStep::Return(
            Err(WorkerError::SandboxDenied { target }),
        ) && target == program,
        legs::exec_next(ExecStep::RunControl, Err(e), reason, program) matches ExecStep::Return(
            Err(x),
        ) && x == e,
        legs::exec_next(ExecStep::RunProgram, Err(e), reason, program) matches ExecStep::Return(
            Err(x),
        ) && x == e,
{
}

/// An egress is denied by the name of its address where the boundary was seen
/// to hold, and only there; no outcome grants one.
pub proof fn law_egress_is_denied_by_name(
    listener: Result<u16, Seq<char>>,
    control: Result<bool, WorkerError<Seq<char>>>,
    reason: Seq<char>,
    url: Seq<char>,
)
    ensures
        ({
            let r = legs::egress_outcome(listener, control, reason, url);
            &&& listener is Ok && control == Ok::<bool, WorkerError<Seq<char>>>(false) ==> (
            r matches WorkerError::SandboxDenied { target } && target == url)
            &&& listener is Ok && control == Ok::<bool, WorkerError<Seq<char>>>(true) ==> (
            r matches WorkerError::SandboxUnavailable { reason: w } && w == reason)
            &&& listener is Err ==> r is SandboxUnavailable
            &&& listener is Ok && control is Err ==> r == control->Err_0
        }),
{
}

/// A run counts as let through exactly when its exit code is zero; one that
/// was ended by a signal is not.
pub proof fn law_only_zero_lets_a_run_through(code: Option<i32>, stderr: Seq<char>)
    ensures
        linux::confined_run(code, stderr) matches Ok(o) ==> (o.exit_ok <==> code
            == Some(0i32)) && o.exit_code == code && o.stderr == stderr,
        macos::confined_run(code, stderr) matches Ok(o) ==> (o.exit_ok <==> code
            == Some(0i32)),
        code is None || code == Some(0i32) ==> linux::confined_run(code, stderr) is Ok
            && macos::confined_run(code, stderr) is Ok,
{
}

/// The rules of a read and of a write name the scope in the last place, with
/// the rights of that leg and no others; what stands in front never depends on
/// the scope, and neither looks at the loaders.
pub proof fn law_rules_end_with_the_scope(
    scope: Seq<char>,
    other: Seq<char>,
    loaders: Seq<Seq<char>>,
    more: Seq<Seq<char>>,
)
    ensures
        ({
            let read = linux::rules_of(Confinement::Read { scope }, loaders);
            let write = linux::rules_of(Confinement::Write { scope }, loaders);
            let exec = linux::rules_of(Confinement::Exec { scope }, loaders);
            &&& read.last() == "path-beneath:"@ + "read-file"@ + ":"@ + scope
            &&& write.last() == "path-beneath:"@ + "write-file,make-reg,truncate"@ + ":"@ + scope
            &&& exec.last() == "path-beneath:"@ + "execute,read-file"@ + ":"@ + scope
            &&& read.drop_last() == linux::rules_of(
                Confinement::Read { scope: other },
                more,
            ).drop_last()
            &&& write.drop_last() == linux::rules_of(
                Confinement::Write { scope: other },
                more,
            ).drop_last()
            &&& exec.drop_last() == linux::rules_of(
                Confinement::Exec { scope: other },
                loaders,
            ).drop_last()
            &&& linux::rules_of(Confinement::Egress, loaders).len() == 0
        }),
{
    let fixed = linux::system_read() + linux::system_execute();
    assert(fixed.push(linux::rule_text("read-file"@, scope)).drop_last() =~= fixed);
    assert(fixed.push(linux::rule_text("read-file"@, other)).drop_last() =~= fixed);
    let turned = linux::system_execute() + linux::system_read();
    let rights = "write-file,make-reg,truncate"@;
    assert(turned.push(linux::rule_text(rights, scope)).drop_last() =~= turned);
    assert(turned.push(linux::rule_text(rights, other)).drop_last() =~= turned);
    let run = linux::system_read() + linux::loader_rules_of("read-file"@, loaders)
        + linux::loader_rules_of("execute"@, loaders);
    let both = "execute,read-file"@;
    assert(run.push(linux::rule_text(both, scope)).drop_last() =~= run);
    assert(run.push(linux::rule_text(both, other)).drop_last() =~= run);
}

/// The system trees give a leg reads and the programs of that leg, and nothing
/// to write.
pub proof fn law_system_trees_are_read_only(scope: Seq<char>, loaders: Seq<Seq<char>>, i: int)
    requires
        0 <= i < linux::rules_of(Confinement::Write { scope }, loaders).len() - 1,
    ensures
        ({
            let rule = linux::rules_of(Confinement::Write { scope }, loaders)[i];
            ||| text::has_prefix(rule, "path-beneath:execute:/"@)
            ||| text::has_prefix(rule, "path-beneath:read-file,read-dir:/"@)
        }),
{
    reveal_strlit("path-beneath:execute:/");
    reveal_strlit("path-beneath:read-file,read-dir:/");
    reveal_strlit("path-beneath:execute:/usr");
    reveal_strlit("path-beneath:execute:/bin");
    reveal_strlit("path-beneath:read-file,read-dir:/usr");
    reveal_strlit("path-beneath:read-file,read-dir:/lib");
    assert("path-beneath:execute:/usr"@.take(22) =~= "path-beneath:execute:/"@);
    assert("path-beneath:execute:/bin"@.take(22) =~= "path-beneath:execute:/"@);
    assert("path-beneath:read-file,read-dir:/usr"@.take(33)
        =~= "path-beneath:read-file,read-dir:/"@);
    assert("path-beneath:read-file,read-dir:/lib"@.take(33)
        =~= "path-beneath:read-file,read-dir:/"@);
    let rule = linux::rules_of(Confinement::Write { scope }, loaders)[i];
    assert(i == 0 || i == 1 || i == 2 || i == 3);
}

/// The command line of a run ends with the program and its own arguments,
/// behind a separator; the network namespace, the bar on new privileges and
/// the filter stand in front of them whatever the rules are. Each rule stands
/// there in its place.
pub proof fn law_run_line_keeps_the_boundary_in_front(
    unshare: Seq<char>,
    setpriv: Seq<char>,
    rules: Seq<Seq<char>>,
    filter: Seq<char>,
    program: Seq<char>,
    args: Seq<Seq<char>>,
    i: int,
)
    ensures
        ({
            let line = linux::run_arguments(unshare, setpriv, rules, filter, program, args);
            let n = line.len() - args.len();
            &&& line.take(5) == seq![unshare, "--net"@, "--"@, setpriv, "--nnp"@]
            &&& line.skip(n) == args
            &&& line.subrange(n - 4, n) == seq!["--seccomp-filter"@, filter, "--"@, program]
            &&& rules.len() == 0 ==> n == 9
            &&& rules.len() > 0 ==> line[5] == "--landlock-access"@ && line[6] == "fs"@ && n == 11
                + 2 * rules.len()
            &&& 0 <= i < rules.len() ==> line[7 + 2 * i] == "--landlock-rule"@ && line[8 + 2 * i]
                == rules[i]
        }),
{
    let line = linux::run_arguments(unshare, setpriv, rules, filter, program, args);
    let n = line.len() - args.len();
    lemma_rule_arguments(rules, i);
    assert(line.take(5) =~= seq![unshare, "--net"@, "--"@, setpriv, "--nnp"@]);
    assert(line.skip(n) =~= args);
    assert(line.subrange(n - 4, n) =~= seq!["--seccomp-filter"@, filter, "--"@, program]);
    let pairs = linux::rule_arguments(rules);
    if 0 <= i < rules.len() {
        assert(line[7 + 2 * i] == pairs[2 * i]);
        assert(line[8 + 2 * i] == pairs[2 * i + 1]);
    }
}

proof fn lemma_rule_arguments(rules: Seq<Seq<char>>, i: int)
    ensures
        linux::rule_arguments(rules).len() == 2 * rules.len(),
        0 <= i < rules.len() ==> linux::rule_arguments(rules)[2 * i] == "--landlock-rule"@,
        0 <= i < rules.len() ==> linux::rule_arguments(rules)[2 * i + 1] == rules[i],
    decreases rules.len(),
{
    if rules.len() > 0 {
        let d = rules.drop_last();
        lemma_rule_arguments(d, i);
        let before = linux::rule_arguments(d);
        let all = linux::rule_arguments(rules);
        assert(all == before.push("--landlock-rule"@).push(rules.last()));
        if 0 <= i < d.len() {
            assert(d[i] == rules[i]);
            assert(all[2 * i] == before[2 * i]);
            assert(all[2 * i + 1] == before[2 * i + 1]);
        } else if i == d.len() {
            assert(all[2 * i] == "--landlock-rule"@);
            assert(all[2 * i + 1] == rules.last());
        }
    }
}

/// The command line of a run on the other platform hands the launcher one
/// profile, then the program and its own arguments behind a separator.
pub proof fn law_profile_line_ends_with_the_program(
    launcher: Seq<char>,
    profile: Seq<char>,
    program: Seq<char>,
    args: Seq<Seq<char>>,
)
    ensures
        ({
            let line = macos::run_arguments(launcher, profile, program, args);
            &&& line.len() == 5 + args.len()
            &&& line[0] == launcher && line[1] == "-p"@ && line[2] == profile
            &&& line[3] == "--"@ && line[4] == program
            &&& line.skip(5) == args
        }),
{
    assert(macos::run_arguments(launcher, profile, program, args).skip(5) =~= args);
}

/// A call of a foreign architecture is refused, whatever it asks for.
pub proof fn law_foreign_calls_are_refused(
    word: u32,
    denied: Seq<u32>,
    clone: u32,
    data: SeccompData,
)
    requires
        denied.len() > 0,
        denied[0] != linux::SYS_CLONE3,
        data.arch != word,
    ensures
        linux::bpf_run(linux::filter_program(word, denied, clone), 0, 0, data) == Some(
            0x0005_0001u32,
        ),
{
    linux::law_filter_enforces_boundary(word, denied, clone, data);
}

/// A denied number is refused in every band: the bit that selects the compat
/// calls changes nothing.
pub proof fn law_denied_numbers_are_refused_in_every_band(
    word: u32,
    denied: Seq<u32>,
    clone: u32,
    i: int,
    data: SeccompData,
)
    requires
        denied[0] != linux::SYS_CLONE3,
        0 <= i < denied.len(),
        denied[i] < 0x4000_0000,
        data.nr == denied[i] || data.nr == denied[i] + 0x4000_0000,
        data.arch == word,
    ensures
        linux::bpf_run(linux::filter_program(word, denied, clone), 0, 0, data) == Some(
            if denied[i] == 435 {
                0x0005_0026u32
            } else {
                0x0005_0001u32
            },
        ),
{
    let n = denied[i];
    let nr = data.nr;
    assert(nr & 0xBFFF_FFFFu32 == n) by (bit_vector)
        requires
            n < 0x4000_0000u32,
            nr == n || nr == n + 0x4000_0000u32,
    ;
    assert(denied.contains(n));
    linux::law_filter_enforces_boundary(word, denied, clone, data);
}

/// A clone that asks for a namespace of its own is refused, whichever one it
/// asks for and whatever else; one that asks for none is let through.
pub proof fn law_no_namespace_is_cloned(
    word: u32,
    denied: Seq<u32>,
    clone: u32,
    data: SeccompData,
)
    requires
        denied.len() > 0,
        denied[0] != linux::SYS_CLONE3,
        data.arch == word,
        data.nr == clone,
        clone < 0x4000_0000,
        !denied.contains(clone),
    ensures
        ({
            let asks = data.arg0 & linux::CLONE_NEWTIME != 0 || data.arg0 & linux::CLONE_NEWNS != 0
                || data.arg0 & linux::CLONE_NEWCGROUP != 0 || data.arg0 & linux::CLONE_NEWUTS != 0
                || data.arg0 & linux::CLONE_NEWIPC != 0 || data.arg0 & linux::CLONE_NEWUSER != 0
                || data.arg0 & linux::CLONE_NEWPID != 0 || data.arg0 & linux::CLONE_NEWNET != 0;
            linux::bpf_run(linux::filter_program(word, denied, clone), 0, 0, data) == Some(
                if asks {
                    0x0005_0001u32
                } else {
                    0x7FFF_0000u32
                },
            )
        }),
{
    let nr = data.nr;
    let a = data.arg0;
    assert(nr & 0xBFFF_FFFFu32 == nr) by (bit_vector)
        requires
            nr < 0x4000_0000u32,
    ;
    assert((a & 0x7E02_0080u32 != 0) == (a & 0x0000_0080u32 != 0 || a & 0x0002_0000u32 != 0 || a
        & 0x0200_0000u32 != 0 || a & 0x0400_0000u32 != 0 || a & 0x0800_0000u32 != 0 || a
        & 0x1000_0000u32 != 0 || a & 0x2000_0000u32 != 0 || a & 0x4000_0000u32 != 0))
        by (bit_vector);
    linux::law_filter_enforces_boundary(word, denied, clone, data);
}

/// The tables that are shipped refuse every call that makes or uses a socket,
/// and those that leave the process group, the namespace or the tracer's
/// reach.
pub proof fn law_network_calls_are_refused(nr: u32)
    ensures
        nr == 41 || nr == 42 || nr == 43 || nr == 44 || nr == 45 || nr == 46 || nr == 47 || nr == 49
            || nr == 50 || nr == 53 || nr == 288 || nr == 299 || nr == 307 || nr == 101 || nr == 109
            || nr == 112 || nr == 272 || nr == 308 || nr == 310 || nr == 311 || nr == 321
            <==> linux::native_denied("x86_64"@).contains(nr) && nr < 425,
        198 <= nr <= 203 || nr == 206 || nr == 207 || nr == 211 || nr == 212 || nr == 242 || nr
            == 243 || nr == 269 || nr == 97 || nr == 117 || nr == 154 || nr == 157 || nr == 268
            || nr == 270 || nr == 271 || nr == 280 <==> linux::native_denied("aarch64"@).contains(
            nr,
        ) && nr < 425,
        425 <= nr <= 427 || nr == 434 || nr == 435 || nr == 438 <==> linux::native_denied(
            "x86_64"@,
        ).contains(nr) && nr >= 425,
        425 <= nr <= 427 || nr == 434 || nr == 435 || nr == 438 <==> linux::native_denied(
            "aarch64"@,
        ).contains(nr) && nr >= 425,
{
    reveal_strlit("x86_64");
    reveal_strlit("aarch64");
    assert("x86_64"@.len() == 6 && "aarch64"@.len() == 7);
    let x = linux::denied_x86_64();
    let a = linux::denied_aarch64();
    assert(x[0] == 41 && x[1] == 42 && x[2] == 43 && x[3] == 44 && x[4] == 45 && x[5] == 46 && x[6]
        == 47 && x[7] == 49 && x[8] == 50 && x[9] == 53 && x[10] == 288 && x[11] == 299 && x[12]
        == 307 && x[13] == 101 && x[14] == 109 && x[15] == 112 && x[16] == 272 && x[17] == 308
        && x[18] == 310 && x[19] == 311 && x[20] == 321 && x[21] == 425 && x[22] == 426 && x[23]
        == 427 && x[24] == 434 && x[25] == 438 && x[26] == 435);
    assert(a[0] == 198 && a[1] == 199 && a[2] == 200 && a[3] == 201 && a[4] == 202 && a[5] == 203
        && a[6] == 206 && a[7] == 207 && a[8] == 211 && a[9] == 212 && a[10] == 242 && a[11] == 243
        && a[12] == 269 && a[13] == 97 && a[14] == 117 && a[15] == 154 && a[16] == 157 && a[17]
        == 268 && a[18] == 270 && a[19] == 271 && a[20] == 280 && a[21] == 425 && a[22] == 426
        && a[23] == 427 && a[24] == 434 && a[25] == 438 && a[26] == 435);
}

/// What is kept of a stream is all of it up to the cap.
pub proof fn law_stream_is_kept_up_to_the_cap(
    retained: Seq<u8>,
    more: Seq<u8>,
    cap: usize,
    i: int,
)
    requires
        retained.len() <= cap,
    ensures
        retained.len() + more.len() <= cap ==> observe::kept(retained, more, cap).len()
            == retained.len() + more.len(),
        retained.len() + more.len() > cap ==> observe::kept(retained, more, cap).len() == cap,
        0 <= i < retained.len() ==> observe::kept(retained, more, cap)[i] == retained[i],
        0 <= i < more.len() && retained.len() + i < cap ==> observe::kept(retained, more, cap)[
            retained.len() + i
        ] == more[i],
{
}

} // verus!
