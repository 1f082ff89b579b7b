//! The order in which a worker crosses its boundary: a conformance probe,
//! then a gate, then the checked open, then the bytes. The worker does one
//! step at a time and hands its outcome back.

use crate::digest::{self, digest_hex};
use crate::executor::linux::{self, stderr_excerpt};
use crate::executor::macos::{self, READ_MAX_BYTES, WRITE_MAX_BYTES};
use crate::executor::{
    self, same_regular_file, FileFacts, FileIdentity, InspectedTarget, ReadObservation, WorkerError,
};
use crate::text::{owned, same, text2};
use vstd::prelude::*;

verus! {

// ----- conformance probes --------------------------------------------------

/// The reasons of a probe, in the words of one backend.
#[derive(Debug)]
pub struct ProbeWords<T = &'static str> {
    /// The boundary let the denied leg through.
    pub admitted: T,
    /// The target of the denied leg cannot be read without the boundary
    /// either, so its denial proves nothing.
    pub unreadable: T,
    /// The boundary denied the leg inside the scope.
    pub denied: T,
    /// The last reason goes on with what the launcher printed.
    pub quotes: bool,
}

pub open spec fn words_view(w: ProbeWords) -> ProbeWords<Seq<char>> {
    ProbeWords {
        admitted: w.admitted@,
        unreadable: w.unreadable@,
        denied: w.denied@,
        quotes: w.quotes,
    }
}

/// The read probe on Linux.
pub open spec fn linux_read() -> ProbeWords<Seq<char>> {
    ProbeWords {
        admitted: "linux landlock conformance probe: the boundary admitted the denied read leg"@,
        unreadable: "linux landlock conformance probe: the denied read target is unreadable, so enforcement cannot be proven"@,
        denied: "linux landlock conformance probe: the boundary denied the in-scope read leg: "@,
        quotes: true,
    }
}

/// The write probe on Linux.
pub open spec fn linux_write() -> ProbeWords<Seq<char>> {
    ProbeWords {
        admitted: "linux landlock conformance probe: the boundary admitted the denied write leg"@,
        unreadable: ""@,
        denied: "linux landlock conformance probe: the boundary denied the in-scope write leg: "@,
        quotes: true,
    }
}

/// The read probe on macOS.
pub open spec fn macos_read() -> ProbeWords<Seq<char>> {
    ProbeWords {
        admitted: "conformance probe: the boundary admitted the denied read leg"@,
        unreadable: "conformance probe: the denied read target is unreadable, so enforcement cannot be proven"@,
        denied: "conformance probe: the boundary denied the in-scope read leg"@,
        quotes: false,
    }
}

/// The write probe on macOS.
pub open spec fn macos_write() -> ProbeWords<Seq<char>> {
    ProbeWords {
        admitted: "conformance probe: the boundary admitted the denied write leg"@,
        unreadable: ""@,
        denied: "conformance probe: the boundary denied the in-scope write leg"@,
        quotes: false,
    }
}

/// The words of a probe.
pub fn probe_words(linux: bool, read: bool) -> (r: ProbeWords)
    ensures
        words_view(r) == (if linux {
            if read {
                linux_read()
            } else {
                linux_write()
            }
        } else {
            if read {
                macos_read()
            } else {
                macos_write()
            }
        }),
{
    if linux {
        if read {
            ProbeWords {
                admitted: "linux landlock conformance probe: the boundary admitted the denied read leg",
                unreadable: "linux landlock conformance probe: the denied read target is unreadable, so enforcement cannot be proven",
                denied: "linux landlock conformance probe: the boundary denied the in-scope read leg: ",
                quotes: true,
            }
        } else {
            ProbeWords {
                admitted: "linux landlock conformance probe: the boundary admitted the denied write leg",
                unreadable: "",
                denied: "linux landlock conformance probe: the boundary denied the in-scope write leg: ",
                quotes: true,
            }
        }
    } else {
        if read {
            ProbeWords {
                admitted: "conformance probe: the boundary admitted the denied read leg",
                unreadable: "conformance probe: the denied read target is unreadable, so enforcement cannot be proven",
                denied: "conformance probe: the boundary denied the in-scope read leg",
                quotes: false,
            }
        } else {
            ProbeWords {
                admitted: "conformance probe: the boundary admitted the denied write leg",
                unreadable: "",
                denied: "conformance probe: the boundary denied the in-scope write leg",
                quotes: false,
            }
        }
    }
}

/// The next step of a probe.
#[derive(Debug)]
pub enum ProbeStep<T = String> {
    /// Run the leg that the boundary must deny.
    RunDenied,
    /// Open the target of that leg without the boundary.
    OpenDenied,
    /// Run the leg that the boundary must let through.
    RunAdmitted,
    /// Open the target of that leg without the boundary.
    OpenAdmitted { stderr: T },
    /// The probe is over. A scope that passed need not be probed again.
    Verdict(Result<(), WorkerError<T>>),
}

pub open spec fn probe_view(s: ProbeStep) -> ProbeStep<Seq<char>> {
    match s {
        ProbeStep::RunDenied => ProbeStep::RunDenied,
        ProbeStep::OpenDenied => ProbeStep::OpenDenied,
        ProbeStep::RunAdmitted => ProbeStep::RunAdmitted,
        ProbeStep::OpenAdmitted { stderr } => ProbeStep::OpenAdmitted { stderr: stderr@ },
        ProbeStep::Verdict(r) => ProbeStep::Verdict(macos::unit_outcome(r)),
    }
}

/// What a confined leg ended with.
#[derive(Debug)]
pub struct LegRun<T = String> {
    pub exit_ok: bool,
    pub stderr: T,
}

/// The outcome of a probe step.
#[derive(Debug)]
pub enum ProbeAnswer {
    Ran(Result<LegRun, WorkerError>),
    /// Opened for the access that is probed, or the error of the system.
    Opened(Result<(), String>),
}

/// The mathematical value of a probe outcome.
pub enum ProbeAnswerView {
    Ran(Result<LegRun<Seq<char>>, WorkerError<Seq<char>>>),
    Opened(Result<(), Seq<char>>),
}

impl View for ProbeAnswer {
    type V = ProbeAnswerView;

    open spec fn view(&self) -> ProbeAnswerView {
        match self {
            ProbeAnswer::Ran(Ok(run)) => ProbeAnswerView::Ran(
                Ok(LegRun { exit_ok: run.exit_ok, stderr: run.stderr@ }),
            ),
            ProbeAnswer::Ran(Err(e)) => ProbeAnswerView::Ran(Err(e@)),
            ProbeAnswer::Opened(Ok(_)) => ProbeAnswerView::Opened(Ok(())),
            ProbeAnswer::Opened(Err(e)) => ProbeAnswerView::Opened(Err(e@)),
        }
    }
}

/// An outcome belongs to the step that was asked for.
pub open spec fn probes(at: ProbeStep<Seq<char>>, answer: ProbeAnswerView) -> bool {
    match at {
        ProbeStep::RunDenied | ProbeStep::RunAdmitted => answer is Ran,
        ProbeStep::OpenDenied | ProbeStep::OpenAdmitted { .. } => answer is Opened,
        ProbeStep::Verdict(_) => false,
    }
}

/// The next step of a probe. The denied leg comes first, so a mechanism that
/// does not enforce is caught before a leg touches the scope; a target this
/// process cannot open is a denial of the effect, never a missing
/// capability.
pub open spec fn probe_next(
    read: bool,
    words: ProbeWords<Seq<char>>,
    at: ProbeStep<Seq<char>>,
    answer: ProbeAnswerView,
) -> ProbeStep<Seq<char>> {
    match (at, answer) {
        (_, ProbeAnswerView::Ran(Err(e))) => ProbeStep::Verdict(Err(e)),
        (ProbeStep::RunDenied, ProbeAnswerView::Ran(Ok(run))) => if run.exit_ok {
            ProbeStep::Verdict(Err(WorkerError::SandboxUnavailable { reason: words.admitted }))
        } else if read {
            ProbeStep::OpenDenied
        } else {
            ProbeStep::RunAdmitted
        },
        (ProbeStep::OpenDenied, ProbeAnswerView::Opened(opened)) => match opened {
            Err(_) => ProbeStep::Verdict(
                Err(WorkerError::SandboxUnavailable { reason: words.unreadable }),
            ),
            Ok(_) => ProbeStep::RunAdmitted,
        },
        (ProbeStep::RunAdmitted, ProbeAnswerView::Ran(Ok(run))) => if run.exit_ok {
            ProbeStep::Verdict(Ok(()))
        } else {
            ProbeStep::OpenAdmitted { stderr: run.stderr }
        },
        (ProbeStep::OpenAdmitted { stderr }, ProbeAnswerView::Opened(opened)) => match opened {
            Ok(_) => ProbeStep::Verdict(
                Err(
                    WorkerError::SandboxUnavailable {
                        reason: if words.quotes {
                            words.denied + linux::excerpt(stderr)
                        } else {
                            words.denied
                        },
                    },
                ),
            ),
            Err(source) => ProbeStep::Verdict(
                Err(
                    if read {
                        WorkerError::ReadFailed { source }
                    } else {
                        WorkerError::WriteFailed { source }
                    },
                ),
            ),
        },
        _ => at,
    }
}

/// Executable [`probe_next`].
pub fn probe_conformance(
    read: bool,
    words: &ProbeWords,
    at: ProbeStep,
    answer: ProbeAnswer,
) -> (r: ProbeStep)
    requires
        probes(probe_view(at), answer@),
    ensures
        probe_view(r) == probe_next(read, words_view(*words), probe_view(at), answer@),
{
    match (at, answer) {
        (_, ProbeAnswer::Ran(Err(e))) => ProbeStep::Verdict(Err(e)),
        (ProbeStep::RunDenied, ProbeAnswer::Ran(Ok(run))) => if run.exit_ok {
            ProbeStep::Verdict(
                Err(WorkerError::SandboxUnavailable { reason: owned(words.admitted) }),
            )
        } else if read {
            ProbeStep::OpenDenied
        } else {
            ProbeStep::RunAdmitted
        },
        (ProbeStep::OpenDenied, ProbeAnswer::Opened(opened)) => match opened {
            Err(_) => ProbeStep::Verdict(
                Err(WorkerError::SandboxUnavailable { reason: owned(words.unreadable) }),
            ),
            Ok(_) => ProbeStep::RunAdmitted,
        },
        (ProbeStep::RunAdmitted, ProbeAnswer::Ran(Ok(run))) => if run.exit_ok {
            ProbeStep::Verdict(Ok(()))
        } else {
            ProbeStep::OpenAdmitted { stderr: run.stderr }
        },
        (ProbeStep::OpenAdmitted { stderr }, ProbeAnswer::Opened(opened)) => match opened {
            Ok(_) => {
                let reason: String = if words.quotes {
                    let quoted: String = stderr_excerpt(stderr.as_str());
                    text2(words.denied, quoted.as_str())
                } else {
                    owned(words.denied)
                };
                ProbeStep::Verdict(Err(WorkerError::SandboxUnavailable { reason }))
            },
            Err(source) => if read {
                ProbeStep::Verdict(Err(WorkerError::ReadFailed { source }))
            } else {
                ProbeStep::Verdict(Err(WorkerError::WriteFailed { source }))
            },
        },
        (other, _) => other,
    }
}

/// Where a probe stands after some outcomes.
pub open spec fn probe_after(
    read: bool,
    words: ProbeWords<Seq<char>>,
    given: Seq<ProbeAnswerView>,
) -> ProbeStep<Seq<char>>
    decreases given.len(),
{
    if given.len() == 0 {
        ProbeStep::RunDenied
    } else {
        probe_next(read, words, probe_after(read, words, given.drop_last()), given.last())
    }
}

/// Every outcome belongs to the step that was asked for.
pub open spec fn probe_proper(
    read: bool,
    words: ProbeWords<Seq<char>>,
    given: Seq<ProbeAnswerView>,
) -> bool
    decreases given.len(),
{
    given.len() > 0 ==> probe_proper(read, words, given.drop_last()) && probes(
        probe_after(read, words, given.drop_last()),
        given.last(),
    )
}

/// The boundary denied the first leg.
pub open spec fn denied_first(given: Seq<ProbeAnswerView>) -> bool {
    given.len() > 0 && (given[0] matches ProbeAnswerView::Ran(Ok(run)) && !run.exit_ok)
}

proof fn lemma_probe_steps(
    read: bool,
    words: ProbeWords<Seq<char>>,
    given: Seq<ProbeAnswerView>,
)
    requires
        probe_proper(read, words, given),
    ensures
        match probe_after(read, words, given) {
            ProbeStep::RunDenied => given.len() == 0,
            ProbeStep::OpenDenied => given.len() == 1 && denied_first(given),
            ProbeStep::RunAdmitted => denied_first(given) && given.len() == (if read {
                2int
            } else {
                1
            }),
            ProbeStep::OpenAdmitted { .. } => denied_first(given),
            ProbeStep::Verdict(Ok(_)) => denied_first(given) && given.len() == (if read {
                3int
            } else {
                2
            }) && (given.last() matches ProbeAnswerView::Ran(Ok(run)) && run.exit_ok),
            ProbeStep::Verdict(Err(_)) => true,
        },
    decreases given.len(),
{
    if given.len() > 0 {
        let before = given.drop_last();
        lemma_probe_steps(read, words, before);
        assert(forall|i: int| 0 <= i < before.len() ==> before[i] == given[i]);
        assert(given.last() == given[given.len() - 1]);
    }
}

/// A probe passes only when the boundary denied the denied leg first and
/// then let the leg inside the scope through.
pub proof fn law_probe_denies_before_it_admits(
    read: bool,
    words: ProbeWords<Seq<char>>,
    given: Seq<ProbeAnswerView>,
)
    requires
        probe_proper(read, words, given),
        probe_after(read, words, given) matches ProbeStep::Verdict(Ok(_)),
    ensures
        denied_first(given),
        given.last() matches ProbeAnswerView::Ran(Ok(run)) && run.exit_ok,
{
    lemma_probe_steps(read, words, given);
}

/// The scopes whose boundary was proven, by launcher and canonical scope. A
/// failed probe is not remembered.
#[derive(Debug)]
pub struct ConformantScopes {
    pub proven: Vec<(String, String)>,
}

/// The pairs that were proven.
pub open spec fn pairs(v: Seq<(String, String)>) -> Seq<(Seq<char>, Seq<char>)> {
    Seq::new(v.len(), |i: int| (v[i].0@, v[i].1@))
}

impl ConformantScopes {
    /// Nothing is proven.
    pub fn new() -> (r: Self)
        ensures
            pairs(r.proven@) == Seq::<(Seq<char>, Seq<char>)>::empty(),
    {
        let r: Self = ConformantScopes { proven: Vec::new() };
        assert(pairs(r.proven@) =~= Seq::empty());
        r
    }

    /// Whether a scope was proven under a launcher.
    pub fn contains(&self, launcher: &str, scope: &str) -> (r: bool)
        ensures
            r == pairs(self.proven@).contains((launcher@, scope@)),
    {
        let mut i: usize = 0;
        while i < self.proven.len()
            invariant
                i <= self.proven.len(),
                forall|j: int|
                    0 <= j < i ==> #[trigger] pairs(self.proven@)[j] != (launcher@, scope@),
            decreases self.proven.len() - i,
        {
            assert(pairs(self.proven@)[i as int] == (
                self.proven@[i as int].0@,
                self.proven@[i as int].1@,
            ));
            if same(self.proven[i].0.as_str(), launcher) && same(
                self.proven[i].1.as_str(),
                scope,
            ) {
                return true;
            }
            i = i + 1;
        }
        false
    }

    /// Takes the verdict of a probe: a scope that passed is remembered, a
    /// failure is handed back and leaves nothing behind.
    pub fn settle(
        &mut self,
        launcher: &str,
        scope: &str,
        verdict: Result<(), WorkerError>,
    ) -> (r: Result<(), WorkerError>)
        ensures
            r == verdict,
            verdict is Ok ==> pairs(final(self).proven@) == pairs(old(self).proven@).push(
                (launcher@, scope@),
            ),
            verdict is Err ==> *final(self) == *old(self),
    {
        if verdict.is_ok() {
            self.remember(launcher, scope);
        }
        verdict
    }

    /// Remembers a scope that passed its probe.
    pub fn remember(&mut self, launcher: &str, scope: &str)
        ensures
            pairs(final(self).proven@) == pairs(old(self).proven@).push((launcher@, scope@)),
    {
        let ghost before = self.proven@;
        self.proven.push((owned(launcher), owned(scope)));
        assert(pairs(self.proven@) =~= pairs(before).push((launcher@, scope@)));
    }
}

// ----- reads and writes ----------------------------------------------------

/// The next step of a read or a write.
#[derive(Debug)]
pub enum LegStep<T = String, B = Vec<u8>> {
    /// Inspect the target.
    Inspect,
    /// Prove that the boundary enforces.
    Probe { canonical: T, facts: FileFacts },
    /// Cross the boundary once with exactly this target.
    Gate { canonical: T, facts: FileFacts },
    /// Open the target without following links.
    Open { facts: FileFacts },
    /// Move the bytes in a confined helper.
    Move,
    /// The leg is over; a write moves no bytes back.
    Return(Result<B, WorkerError<T>>),
}

pub open spec fn leg_view(s: LegStep) -> LegStep<Seq<char>, Seq<u8>> {
    match s {
        LegStep::Inspect => LegStep::Inspect,
        LegStep::Probe { canonical, facts } => LegStep::Probe { canonical: canonical@, facts },
        LegStep::Gate { canonical, facts } => LegStep::Gate { canonical: canonical@, facts },
        LegStep::Open { facts } => LegStep::Open { facts },
        LegStep::Move => LegStep::Move,
        LegStep::Return(r) => LegStep::Return(executor::bytes_outcome(r)),
    }
}

/// What opening a target gave.
#[derive(Debug)]
pub enum OpenOutcome<T = String> {
    Failed(T),
    NoMetadata(T),
    Opened(FileFacts),
}

/// The outcome of a step.
#[derive(Debug)]
pub enum LegAnswer {
    Inspected(Result<InspectedTarget, WorkerError>),
    Crossed(Result<(), WorkerError>),
    Opened(OpenOutcome),
    Moved(Result<Vec<u8>, WorkerError>),
}

/// The mathematical value of an outcome.
pub enum LegAnswerView {
    Inspected(Result<(Seq<char>, FileFacts), WorkerError<Seq<char>>>),
    Crossed(Result<(), WorkerError<Seq<char>>>),
    Opened(OpenOutcome<Seq<char>>),
    Moved(Result<Seq<u8>, WorkerError<Seq<char>>>),
}

impl View for LegAnswer {
    type V = LegAnswerView;

    open spec fn view(&self) -> LegAnswerView {
        match self {
            LegAnswer::Inspected(r) => LegAnswerView::Inspected(
                executor::inspected_view(*r),
            ),
            LegAnswer::Crossed(r) => LegAnswerView::Crossed(
                macos::unit_outcome(*r),
            ),
            LegAnswer::Opened(OpenOutcome::Failed(e)) => LegAnswerView::Opened(
                OpenOutcome::Failed(e@),
            ),
            LegAnswer::Opened(OpenOutcome::NoMetadata(e)) => LegAnswerView::Opened(
                OpenOutcome::NoMetadata(e@),
            ),
            LegAnswer::Opened(OpenOutcome::Opened(f)) => LegAnswerView::Opened(
                OpenOutcome::Opened(*f),
            ),
            LegAnswer::Moved(r) => LegAnswerView::Moved(executor::bytes_outcome(*r)),
        }
    }
}

/// An outcome belongs to the step that was asked for.
pub open spec fn leg_answers(
    at: LegStep<Seq<char>, Seq<u8>>,
    answer: LegAnswerView,
) -> bool {
    match at {
        LegStep::Inspect => answer is Inspected,
        LegStep::Probe { .. } | LegStep::Gate { .. } => answer is Crossed,
        LegStep::Open { .. } => answer is Opened,
        LegStep::Move => answer is Moved,
        LegStep::Return(_) => false,
    }
}

/// One file is the other: both regular, with one device and inode.
pub open spec fn same_file(a: FileFacts, b: FileFacts) -> bool {
    a.regular && b.regular && a.dev == b.dev && a.ino == b.ino
}

/// Whether an opened read target is still the inspected one, and small
/// enough.
pub open spec fn read_opened(
    target: Seq<char>,
    inspected: FileFacts,
    opened: OpenOutcome<Seq<char>>,
) -> Result<(), WorkerError<Seq<char>>> {
    match opened {
        OpenOutcome::Failed(source) => Err(WorkerError::ReadFailed { source }),
        OpenOutcome::NoMetadata(source) => Err(WorkerError::MetadataUnavailable { source }),
        OpenOutcome::Opened(facts) => if !facts.regular {
            Err(WorkerError::NotRegularFile { target })
        } else if !same_file(inspected, facts) {
            Err(WorkerError::TargetChanged { target })
        } else if facts.len > READ_MAX_BYTES {
            Err(WorkerError::TooLarge)
        } else {
            Ok(())
        },
    }
}

/// Whether an opened write target is still the inspected one and the file
/// that was admitted.
pub open spec fn write_opened(
    target: Seq<char>,
    inspected: FileFacts,
    expected: FileIdentity,
    opened: OpenOutcome<Seq<char>>,
) -> Result<(), WorkerError<Seq<char>>> {
    match opened {
        OpenOutcome::Failed(source) => Err(WorkerError::WriteFailed { source }),
        OpenOutcome::NoMetadata(source) => Err(WorkerError::MetadataUnavailable { source }),
        OpenOutcome::Opened(facts) => if !same_file(inspected, facts) || expected != (
        FileIdentity { dev: facts.dev, ino: facts.ino }) {
            Err(WorkerError::TargetChanged { target })
        } else {
            Ok(())
        },
    }
}

/// The next step of a read: `expected` is none. The next step of a write:
/// `expected` is the admitted file.
pub open spec fn leg_next(
    target: Seq<char>,
    expected: Option<FileIdentity>,
    at: LegStep<Seq<char>, Seq<u8>>,
    answer: LegAnswerView,
) -> LegStep<Seq<char>, Seq<u8>> {
    match (at, answer) {
        (LegStep::Inspect, LegAnswerView::Inspected(inspected)) => match inspected {
            Err(e) => LegStep::Return(Err(e)),
            Ok(t) => if expected is None && t.1.len > READ_MAX_BYTES {
                LegStep::Return(Err(WorkerError::TooLarge))
            } else {
                LegStep::Probe { canonical: t.0, facts: t.1 }
            },
        },
        (_, LegAnswerView::Crossed(Err(e))) => LegStep::Return(Err(e)),
        (LegStep::Probe { canonical, facts }, LegAnswerView::Crossed(Ok(_))) => LegStep::Gate {
            canonical,
            facts,
        },
        (LegStep::Gate { facts, .. }, LegAnswerView::Crossed(Ok(_))) => LegStep::Open { facts },
        (LegStep::Open { facts }, LegAnswerView::Opened(opened)) => match (match expected {
            None => read_opened(target, facts, opened),
            Some(e) => write_opened(target, facts, e, opened),
        }) {
            Err(e) => LegStep::Return(Err(e)),
            Ok(_) => LegStep::Move,
        },
        (LegStep::Move, LegAnswerView::Moved(moved)) => match moved {
            Err(e) => LegStep::Return(Err(e)),
            Ok(bytes) => if expected is None && bytes.len() > READ_MAX_BYTES {
                LegStep::Return(Err(WorkerError::TooLarge))
            } else {
                LegStep::Return(Ok(bytes))
            },
        },
        _ => at,
    }
}

/// Executable [`read_opened`] and [`write_opened`].
pub(crate) fn opened_verdict(
    target: &str,
    inspected: FileFacts,
    expected: Option<FileIdentity>,
    opened: OpenOutcome,
) -> (r: Result<(), WorkerError>)
    ensures
        macos::unit_outcome(r) == (match expected {
            None => read_opened(
                target@,
                inspected,
                (LegAnswer::Opened(opened))@->Opened_0,
            ),
            Some(e) => write_opened(
                target@,
                inspected,
                e,
                (LegAnswer::Opened(opened))@->Opened_0,
            ),
        }),
{
    match opened {
        OpenOutcome::Failed(source) => match expected {
            None => Err(WorkerError::ReadFailed { source }),
            Some(_) => Err(WorkerError::WriteFailed { source }),
        },
        OpenOutcome::NoMetadata(source) => Err(WorkerError::MetadataUnavailable { source }),
        OpenOutcome::Opened(facts) => match expected {
            None => if !facts.regular {
                Err(WorkerError::NotRegularFile { target: owned(target) })
            } else if !same_regular_file(inspected, facts) {
                Err(WorkerError::TargetChanged { target: owned(target) })
            } else if facts.len > READ_MAX_BYTES as u64 {
                Err(WorkerError::TooLarge)
            } else {
                Ok(())
            },
            Some(e) => if !same_regular_file(inspected, facts) || e.dev != facts.dev || e.ino
                != facts.ino {
                Err(WorkerError::TargetChanged { target: owned(target) })
            } else {
                Ok(())
            },
        },
    }
}

/// Executable [`leg_next`].
pub fn cross_boundary(
    target: &str,
    expected: Option<FileIdentity>,
    at: LegStep,
    answer: LegAnswer,
) -> (r: LegStep)
    requires
        leg_answers(leg_view(at), answer@),
    ensures
        leg_view(r) == leg_next(target@, expected, leg_view(at), answer@),
{
    match (at, answer) {
        (LegStep::Inspect, LegAnswer::Inspected(inspected)) => match inspected {
            Err(e) => LegStep::Return(Err(e)),
            Ok(t) => if expected.is_none() && t.facts.len > READ_MAX_BYTES as u64 {
                LegStep::Return(Err(WorkerError::TooLarge))
            } else {
                LegStep::Probe { canonical: t.canonical, facts: t.facts }
            },
        },
        (_, LegAnswer::Crossed(Err(e))) => LegStep::Return(Err(e)),
        (LegStep::Probe { canonical, facts }, LegAnswer::Crossed(Ok(_))) => LegStep::Gate {
            canonical,
            facts,
        },
        (LegStep::Gate { canonical: _, facts }, LegAnswer::Crossed(Ok(_))) => LegStep::Open {
            facts,
        },
        (LegStep::Open { facts }, LegAnswer::Opened(opened)) => match opened_verdict(
            target,
            facts,
            expected,
            opened,
        ) {
            Err(e) => LegStep::Return(Err(e)),
            Ok(_) => LegStep::Move,
        },
        (LegStep::Move, LegAnswer::Moved(moved)) => match moved {
            Err(e) => LegStep::Return(Err(e)),
            Ok(bytes) => if expected.is_none() && bytes.len() > READ_MAX_BYTES {
                LegStep::Return(Err(WorkerError::TooLarge))
            } else {
                LegStep::Return(Ok(bytes))
            },
        },
        (other, _) => other,
    }
}

/// A write may move at most this many bytes; it is refused before anything
/// is looked at.
pub fn write_size(bytes: &Vec<u8>) -> (r: Result<(), WorkerError>)
    ensures
        macos::unit_outcome(r) == (if bytes@.len() > WRITE_MAX_BYTES {
            Err(WorkerError::<Seq<char>>::WriteTooLarge)
        } else {
            Ok(())
        }),
{
    if bytes.len() > WRITE_MAX_BYTES {
        Err(WorkerError::WriteTooLarge)
    } else {
        Ok(())
    }
}

/// What a finished read observed: its bytes and their digest.
pub fn observation_of(bytes: Vec<u8>) -> (r: ReadObservation)
    ensures
        r.bytes@ == bytes@,
        r.digest@ == digest::digest_text(bytes@),
{
    let digest: String = digest_hex(bytes.as_slice());
    ReadObservation { bytes, digest }
}

/// Where a leg stands after some outcomes.
pub open spec fn leg_after(
    target: Seq<char>,
    expected: Option<FileIdentity>,
    given: Seq<LegAnswerView>,
) -> LegStep<Seq<char>, Seq<u8>>
    decreases given.len(),
{
    if given.len() == 0 {
        LegStep::Inspect
    } else {
        leg_next(target, expected, leg_after(target, expected, given.drop_last()), given.last())
    }
}

/// Every outcome belongs to the step that was asked for.
pub open spec fn leg_proper(
    target: Seq<char>,
    expected: Option<FileIdentity>,
    given: Seq<LegAnswerView>,
) -> bool
    decreases given.len(),
{
    given.len() > 0 ==> leg_proper(target, expected, given.drop_last()) && leg_answers(
        leg_after(target, expected, given.drop_last()),
        given.last(),
    )
}

/// The outcomes up to the open: inspected, probed, gated.
pub open spec fn crossed(given: Seq<LegAnswerView>, n: int) -> bool {
    &&& given.len() >= n
    &&& n > 0 ==> (given[0] matches LegAnswerView::Inspected(Ok(_)))
    &&& n > 1 ==> (given[1] matches LegAnswerView::Crossed(Ok(_)))
    &&& n > 2 ==> (given[2] matches LegAnswerView::Crossed(Ok(_)))
}

/// What the target turned out to be when it was inspected.
pub open spec fn inspected_facts(given: Seq<LegAnswerView>) -> FileFacts {
    match given[0] {
        LegAnswerView::Inspected(Ok(t)) => t.1,
        _ => arbitrary(),
    }
}

/// The opened file is the inspected one; for a write it is the admitted one.
pub open spec fn occupant_held(
    expected: Option<FileIdentity>,
    given: Seq<LegAnswerView>,
) -> bool {
    given[3] matches LegAnswerView::Opened(OpenOutcome::Opened(facts)) && same_file(
        inspected_facts(given),
        facts,
    ) && (expected matches Some(e) ==> e == (FileIdentity { dev: facts.dev, ino: facts.ino }))
}

proof fn lemma_leg_steps(
    target: Seq<char>,
    expected: Option<FileIdentity>,
    given: Seq<LegAnswerView>,
)
    requires
        leg_proper(target, expected, given),
    ensures
        match leg_after(target, expected, given) {
            LegStep::Inspect => given.len() == 0,
            LegStep::Probe { facts, .. } => given.len() == 1 && crossed(given, 1) && facts
                == inspected_facts(given),
            LegStep::Gate { facts, .. } => given.len() == 2 && crossed(given, 2) && facts
                == inspected_facts(given),
            LegStep::Open { facts } => given.len() == 3 && crossed(given, 3) && facts
                == inspected_facts(given),
            LegStep::Move => given.len() == 4 && crossed(given, 3) && occupant_held(
                expected,
                given,
            ),
            LegStep::Return(Ok(bytes)) => given.len() == 5 && crossed(given, 3) && occupant_held(
                expected,
                given,
            ) && given[4] == LegAnswerView::Moved(Ok(bytes)) && (expected is None ==> bytes.len()
                <= READ_MAX_BYTES),
            LegStep::Return(Err(_)) => true,
        },
    decreases given.len(),
{
    if given.len() > 0 {
        let before = given.drop_last();
        lemma_leg_steps(target, expected, before);
        assert(forall|i: int| 0 <= i < before.len() ==> before[i] == given[i]);
        assert(given.last() == given[given.len() - 1]);
    }
}

/// No byte moves before the target was inspected, the boundary was proven,
/// the way through it was taken, and the opened file is the inspected one and, for a
/// write, the admitted one.
pub proof fn law_bytes_move_behind_the_boundary(
    target: Seq<char>,
    expected: Option<FileIdentity>,
    given: Seq<LegAnswerView>,
)
    requires
        leg_proper(target, expected, given),
        leg_after(target, expected, given) is Move,
    ensures
        crossed(given, 3),
        occupant_held(expected, given),
{
    lemma_leg_steps(target, expected, given);
}

/// A read that succeeds returns what the confined helper moved, and never
/// more than the limit.
pub proof fn law_read_is_bounded(target: Seq<char>, given: Seq<LegAnswerView>)
    requires
        leg_proper(target, None, given),
        leg_after(target, None, given) matches LegStep::Return(Ok(_)),
    ensures
        leg_after(target, None, given) matches LegStep::Return(Ok(bytes)) && bytes.len()
            <= READ_MAX_BYTES && given[4] == LegAnswerView::Moved(Ok(bytes)),
{
    lemma_leg_steps(target, None, given);
}

// ----- gates, execution and egress ----------------------------------------

/// The verdict of a gate or an effect: a denied run names its target.
pub open spec fn admitted_verdict(exit_ok: bool, target: Seq<char>) -> Result<
    (),
    WorkerError<Seq<char>>,
> {
    if exit_ok {
        Ok(())
    } else {
        Err(WorkerError::SandboxDenied { target })
    }
}

pub open spec fn ran_view(r: Result<bool, WorkerError>) -> Result<bool, WorkerError<Seq<char>>> {
    match r {
        Ok(b) => Ok(b),
        Err(e) => Err(e@),
    }
}

/// What a gate comes to; the run is whether it exited well.
pub fn gate_verdict(ran: Result<bool, WorkerError>, target: &str) -> (r: Result<(), WorkerError>)
    ensures
        macos::unit_outcome(r) == (match ran_view(ran) {
            Err(e) => Err(e),
            Ok(exit_ok) => admitted_verdict(exit_ok, target@),
        }),
{
    match ran {
        Err(e) => Err(e),
        Ok(exit_ok) => if exit_ok {
            Ok(())
        } else {
            Err(WorkerError::SandboxDenied { target: owned(target) })
        },
    }
}

/// What a write gate comes to where a helper probes a fresh artifact: a
/// denial names the target of the write, not the artifact.
pub fn artifact_verdict(probed: Result<(), WorkerError>, target: &str) -> (r: Result<
    (),
    WorkerError,
>)
    ensures
        macos::unit_outcome(r) == (match macos::unit_outcome(
            probed,
        ) {
            Err(WorkerError::SandboxDenied { .. }) => Err(
                WorkerError::SandboxDenied { target: target@ },
            ),
            other => other,
        }),
{
    match probed {
        Err(WorkerError::SandboxDenied { .. }) => Err(
            WorkerError::SandboxDenied { target: owned(target) },
        ),
        other => other,
    }
}

/// The next step of an execution.
#[derive(Debug)]
pub enum ExecStep<T = String> {
    /// Run the control that the boundary must deny.
    RunControl,
    /// Run the program: this run is the effect.
    RunProgram,
    /// The execution is over.
    Return(Result<(), WorkerError<T>>),
}

pub open spec fn exec_view(s: ExecStep) -> ExecStep<Seq<char>> {
    match s {
        ExecStep::RunControl => ExecStep::RunControl,
        ExecStep::RunProgram => ExecStep::RunProgram,
        ExecStep::Return(r) => ExecStep::Return(macos::unit_outcome(r)),
    }
}

/// The next step of an execution, from whether the last run exited well:
/// the program runs only behind a control that was denied. `reason` names a
/// boundary that let the control through.
pub open spec fn exec_next(
    at: ExecStep<Seq<char>>,
    ran: Result<bool, WorkerError<Seq<char>>>,
    reason: Seq<char>,
    program: Seq<char>,
) -> ExecStep<Seq<char>> {
    match (at, ran) {
        (ExecStep::Return(_), _) => at,
        (_, Err(e)) => ExecStep::Return(Err(e)),
        (ExecStep::RunControl, Ok(exit_ok)) => if exit_ok {
            ExecStep::Return(Err(WorkerError::SandboxUnavailable { reason }))
        } else {
            ExecStep::RunProgram
        },
        (ExecStep::RunProgram, Ok(exit_ok)) => ExecStep::Return(
            admitted_verdict(exit_ok, program),
        ),
    }
}

/// Executable [`exec_next`].
pub fn exec_step(
    at: ExecStep,
    ran: Result<bool, WorkerError>,
    reason: &str,
    program: &str,
) -> (r: ExecStep)
    ensures
        exec_view(r) == exec_next(exec_view(at), ran_view(ran), reason@, program@),
{
    match at {
        ExecStep::Return(done) => ExecStep::Return(done),
        ExecStep::RunControl => match ran {
            Err(e) => ExecStep::Return(Err(e)),
            Ok(exit_ok) => if exit_ok {
                ExecStep::Return(Err(WorkerError::SandboxUnavailable { reason: owned(reason) }))
            } else {
                ExecStep::RunProgram
            },
        },
        ExecStep::RunProgram => ExecStep::Return(gate_verdict(ran, program)),
    }
}

/// An execution succeeds exactly when its control was denied and the program
/// was let through.
pub proof fn law_exec_needs_a_denied_control(
    control: Result<bool, WorkerError<Seq<char>>>,
    ran: Result<bool, WorkerError<Seq<char>>>,
    reason: Seq<char>,
    program: Seq<char>,
)
    ensures
        (exec_next(
            exec_next(ExecStep::RunControl, control, reason, program),
            ran,
            reason,
            program,
        ) matches ExecStep::Return(Ok(_))) == (control == Ok::<bool, WorkerError<Seq<char>>>(false)
            && ran == Ok::<bool, WorkerError<Seq<char>>>(true)),
{
}

/// What an egress comes to: nothing grants one, so it is denied by name, or
/// the boundary does not hold.
pub open spec fn egress_outcome(
    listener: Result<u16, Seq<char>>,
    control: Result<bool, WorkerError<Seq<char>>>,
    reason: Seq<char>,
    url: Seq<char>,
) -> WorkerError<Seq<char>> {
    match listener {
        Err(source) => WorkerError::SandboxUnavailable {
            reason: "egress control listener unavailable: "@ + source,
        },
        Ok(_) => match control {
            Err(e) => e,
            Ok(exit_ok) => if exit_ok {
                WorkerError::SandboxUnavailable { reason }
            } else {
                WorkerError::SandboxDenied { target: url }
            },
        },
    }
}

pub open spec fn listener_view(l: Result<u16, String>) -> Result<u16, Seq<char>> {
    match l {
        Ok(p) => Ok(p),
        Err(e) => Err(e@),
    }
}

/// Executable [`egress_outcome`]: `listener` is the port of the control
/// listener, and `control` whether a confined program reached it.
pub fn egress_verdict(
    listener: Result<u16, String>,
    control: Result<bool, WorkerError>,
    reason: &str,
    url: &str,
) -> (r: WorkerError)
    ensures
        r@ == egress_outcome(listener_view(listener), ran_view(control), reason@, url@),
{
    match listener {
        Err(source) => WorkerError::SandboxUnavailable {
            reason: text2("egress control listener unavailable: ", source.as_str()),
        },
        Ok(_) => match control {
            Err(e) => e,
            Ok(exit_ok) => if exit_ok {
                WorkerError::SandboxUnavailable { reason: owned(reason) }
            } else {
                WorkerError::SandboxDenied { target: owned(url) }
            },
        },
    }
}

} // verus!
