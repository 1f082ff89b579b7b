//! Admission and execution of effects. The executor decides which step comes
//! next; the caller asks the store, the file system or the worker, and hands
//! the answer back.

use crate::contracts::{EffectClass, TaskId};
use crate::digest::{self, digest_hex};
use crate::executor::macos;
use crate::executor::{
    self, admission_context, mode_reason, read_result, AdmittedEffect, AdmittedManagedWrite,
    ContextFacts, EffectOutcome, EffectRequest, ExecutorError, FileIdentity, ReadObservation,
    Reported, WorkerError, DRY_RUN_REASON, TASK_CANCELLED,
};
use crate::helper;
use crate::policy::paths;
use crate::policy::{
    self, AdmissionContext, Grant, ModeDecision, PathOutcome, PermissionMode, Policy,
};
use crate::state::StoreError;
use crate::text::{self, owned, same, text2};
use vstd::prelude::*;

verus! {

/// The state an attempt is closed with.
#[derive(Debug, Clone, Copy, PartialEq, Eq, Structural)]
pub enum ClosingState {
    Rejected,
    Unknown,
    Confirmed,
}

/// When a read leaves its shared flight.
#[derive(Debug, Clone, Copy, PartialEq, Eq, Structural)]
pub enum Abandon {
    Never,
    IfRecorded,
    Always,
}

/// One entry that closes an attempt in the ledger, and what the run returns
/// once it is recorded.
#[derive(Debug)]
pub struct Closing<T = String, R = EffectOutcome> {
    pub state: ClosingState,
    pub detail: Option<T>,
    /// The observation is handed to the read's flight before the entry is
    /// recorded.
    pub share: bool,
    pub abandon: Abandon,
    pub result: Result<R, ExecutorError<T>>,
}

/// One worker leg to run.
#[derive(Debug)]
pub enum WorkerCall<T = String> {
    Read { scope_root: T, path: T },
    Write { scope_root: T, path: T, expected: FileIdentity },
    Exec { scope_root: T, program: T },
    Egress { url: T },
}

/// Where a run stands: the step the caller has to do next.
#[derive(Debug)]
pub enum Progress<T = String, R = EffectOutcome> {
    /// Nothing is checked yet.
    Start,
    /// Ask the store whether the task is cancelled.
    AskCancelled,
    /// Look up the facts of the decision, or resolve the target.
    Consult,
    /// Record that the attempt runs.
    MarkRunning,
    /// Take the observation that the read's flight already has.
    TakeShared,
    /// Run a worker leg.
    Perform(WorkerCall<T>),
    /// Record how the attempt closes.
    Record(Closing<T, R>),
    /// The run is over; a read leaves its flight where `abandon` says so.
    Return { result: Result<R, ExecutorError<T>>, abandon: bool },
}

/// The answer to a step.
#[derive(Debug)]
pub enum Answer {
    Go,
    Cancelled(Result<bool, StoreError>),
    Facts { facts: ContextFacts, resolved: PathOutcome },
    Marked(Result<(), StoreError>),
    Shared(Option<ReadObservation>),
    Observed(Result<ReadObservation, WorkerError>),
    Done(Result<(), WorkerError>),
    Recorded(Result<(), StoreError>),
}

/// The mathematical value of an answer.
pub enum AnswerView {
    Go,
    Cancelled(Result<bool, StoreError<Seq<char>>>),
    Facts {
        facts: executor::FactsView,
        resolved: Result<paths::IdentityView, policy::PolicyError<Seq<char>>>,
    },
    Marked(Result<(), StoreError<Seq<char>>>),
    Shared(Option<(Seq<u8>, Seq<char>)>),
    Observed(Result<(Seq<u8>, Seq<char>), WorkerError<Seq<char>>>),
    Done(Result<(), WorkerError<Seq<char>>>),
    Recorded(Result<(), StoreError<Seq<char>>>),
}

pub open spec fn unit_view(r: Result<(), StoreError>) -> Result<(), StoreError<Seq<char>>> {
    match r {
        Ok(_) => Ok(()),
        Err(e) => Err(e@),
    }
}

pub open spec fn observation_view(o: ReadObservation) -> (Seq<u8>, Seq<char>) {
    (o.bytes@, o.digest@)
}

impl View for Answer {
    type V = AnswerView;

    open spec fn view(&self) -> AnswerView {
        match self {
            Answer::Go => AnswerView::Go,
            Answer::Cancelled(r) => AnswerView::Cancelled(executor::bool_view(*r)),
            Answer::Facts { facts, resolved } => AnswerView::Facts {
                facts: facts@,
                resolved: policy::path_outcome(*resolved),
            },
            Answer::Marked(r) => AnswerView::Marked(unit_view(*r)),
            Answer::Shared(o) => AnswerView::Shared(
                match o {
                    Some(x) => Some(observation_view(*x)),
                    None => None,
                },
            ),
            Answer::Observed(r) => AnswerView::Observed(
                match r {
                    Ok(x) => Ok(observation_view(*x)),
                    Err(e) => Err(e@),
                },
            ),
            Answer::Done(r) => AnswerView::Done(macos::unit_outcome(*r)),
            Answer::Recorded(r) => AnswerView::Recorded(unit_view(*r)),
        }
    }
}

/// A run over mathematical values.
pub type RunView = Progress<Seq<char>, EffectOutcome<Seq<char>, Seq<u8>>>;

/// A managed write over mathematical values.
pub type ManagedView = Progress<Seq<char>, ()>;

pub open spec fn call_view(c: WorkerCall) -> WorkerCall<Seq<char>> {
    match c {
        WorkerCall::Read { scope_root, path } => WorkerCall::Read {
            scope_root: scope_root@,
            path: path@,
        },
        WorkerCall::Write { scope_root, path, expected } => WorkerCall::Write {
            scope_root: scope_root@,
            path: path@,
            expected,
        },
        WorkerCall::Exec { scope_root, program } => WorkerCall::Exec {
            scope_root: scope_root@,
            program: program@,
        },
        WorkerCall::Egress { url } => WorkerCall::Egress { url: url@ },
    }
}

pub open spec fn result_view(r: Result<EffectOutcome, ExecutorError>) -> Result<
    EffectOutcome<Seq<char>, Seq<u8>>,
    ExecutorError<Seq<char>>,
> {
    match r {
        Ok(o) => Ok(executor::effect_view(o)),
        Err(e) => Err(e@),
    }
}

pub open spec fn done_view(r: Result<(), ExecutorError>) -> Result<(), ExecutorError<Seq<char>>> {
    match r {
        Ok(_) => Ok(()),
        Err(e) => Err(e@),
    }
}

pub open spec fn closing_view(c: Closing) -> Closing<
    Seq<char>,
    EffectOutcome<Seq<char>, Seq<u8>>,
> {
    Closing {
        state: c.state,
        detail: text::opt_text(c.detail),
        share: c.share,
        abandon: c.abandon,
        result: result_view(c.result),
    }
}

pub open spec fn run_view(p: Progress) -> RunView {
    match p {
        Progress::Start => Progress::Start,
        Progress::AskCancelled => Progress::AskCancelled,
        Progress::Consult => Progress::Consult,
        Progress::MarkRunning => Progress::MarkRunning,
        Progress::TakeShared => Progress::TakeShared,
        Progress::Perform(c) => Progress::Perform(call_view(c)),
        Progress::Record(c) => Progress::Record(closing_view(c)),
        Progress::Return { result, abandon } => Progress::Return {
            result: result_view(result),
            abandon,
        },
    }
}

pub open spec fn managed_view(p: Progress<String, ()>) -> ManagedView {
    match p {
        Progress::Start => Progress::Start,
        Progress::AskCancelled => Progress::AskCancelled,
        Progress::Consult => Progress::Consult,
        Progress::MarkRunning => Progress::MarkRunning,
        Progress::TakeShared => Progress::TakeShared,
        Progress::Perform(c) => Progress::Perform(call_view(c)),
        Progress::Record(c) => Progress::Record(
            Closing {
                state: c.state,
                detail: text::opt_text(c.detail),
                share: c.share,
                abandon: c.abandon,
                result: done_view(c.result),
            },
        ),
        Progress::Return { result, abandon } => Progress::Return {
            result: done_view(result),
            abandon,
        },
    }
}

/// An answer belongs to the step that was asked for.
pub open spec fn answers<R>(p: Progress<Seq<char>, R>, a: AnswerView) -> bool {
    match p {
        Progress::Start => a is Go,
        Progress::AskCancelled => a is Cancelled,
        Progress::Consult => a is Facts,
        Progress::MarkRunning => a is Marked,
        Progress::TakeShared => a is Shared,
        Progress::Perform(WorkerCall::Read { .. }) => a is Observed,
        Progress::Perform(_) => a is Done,
        Progress::Record(_) => a is Recorded,
        Progress::Return { .. } => false,
    }
}

/// The run is over once its closing entry is recorded; a store that does not
/// record it is what the run returns.
pub open spec fn recorded<T, R>(c: Closing<T, R>, stored: Result<(), StoreError<T>>) -> Progress<
    T,
    R,
> {
    match stored {
        Ok(_) => Progress::Return { result: c.result, abandon: c.abandon != Abandon::Never },
        Err(e) => Progress::Return {
            result: Err(ExecutorError::Store(e)),
            abandon: c.abandon == Abandon::Always,
        },
    }
}

fn record_done<R>(closing: Closing<String, R>, stored: Result<(), StoreError>) -> (r: Progress<
    String,
    R,
>)
    ensures
        r == recorded(closing, stored),
{
    match stored {
        Ok(_) => {
            let abandon: bool = match closing.abandon {
                Abandon::Never => false,
                _ => true,
            };
            Progress::Return { result: closing.result, abandon }
        },
        Err(e) => {
            let abandon: bool = match closing.abandon {
                Abandon::Always => true,
                _ => false,
            };
            Progress::Return { result: Err(ExecutorError::Store(e)), abandon }
        },
    }
}

/// The attempt is rejected with a reason, and the run returns an error.
pub open spec fn rejected<R>(
    reason: Seq<char>,
    error: ExecutorError<Seq<char>>,
    abandon: Abandon,
) -> Progress<Seq<char>, R> {
    Progress::Record(
        Closing {
            state: ClosingState::Rejected,
            detail: Some(reason),
            share: false,
            abandon,
            result: Err(error),
        },
    )
}

fn reject<R>(reason: String, error: ExecutorError, abandon: Abandon) -> (r: Progress<String, R>)
    ensures
        r == Progress::<String, R>::Record(
            Closing {
                state: ClosingState::Rejected,
                detail: Some(reason),
                share: false,
                abandon,
                result: Err(error),
            },
        ),
{
    Progress::Record(
        Closing {
            state: ClosingState::Rejected,
            detail: Some(reason),
            share: false,
            abandon,
            result: Err(error),
        },
    )
}

/// A worker leg failed: a write that failed after it changed the target
/// leaves an unknown outcome, everything else is a rejection.
pub open spec fn failed<R>(e: WorkerError<Seq<char>>) -> Progress<Seq<char>, R> {
    Progress::Record(
        Closing {
            state: if e is WriteMutationFailed {
                ClosingState::Unknown
            } else {
                ClosingState::Rejected
            },
            detail: Some(macos::worker_message(e)),
            share: false,
            abandon: Abandon::Always,
            result: Err(ExecutorError::Worker(e)),
        },
    )
}

fn failure<R>(error: WorkerError) -> (r: Progress<String, R>)
    ensures
        r matches Progress::Record(c) && c.state == (if error@ is WriteMutationFailed {
            ClosingState::Unknown
        } else {
            ClosingState::Rejected
        }) && (c.detail matches Some(d) && d@ == macos::worker_message(error@))
            && !c.share && c.abandon == Abandon::Always && (c.result matches Err(
            ExecutorError::Worker(w),
        ) && w@ == error@),
{
    let detail: String = error.message();
    let state: ClosingState = match &error {
        WorkerError::WriteMutationFailed { .. } => ClosingState::Unknown,
        _ => ClosingState::Rejected,
    };
    Progress::Record(
        Closing {
            state,
            detail: Some(detail),
            share: false,
            abandon: Abandon::Always,
            result: Err(ExecutorError::Worker(error)),
        },
    )
}

/// The effect ran and is confirmed with a detail.
pub open spec fn confirmed(detail: Seq<char>) -> RunView {
    Progress::Record(
        Closing {
            state: ClosingState::Confirmed,
            detail: Some(detail),
            share: false,
            abandon: Abandon::Never,
            result: Ok(EffectOutcome::Executed { detail }),
        },
    )
}

fn confirm(detail: String) -> (r: Progress)
    ensures
        run_view(r) == confirmed(detail@),
{
    Progress::Record(
        Closing {
            state: ClosingState::Confirmed,
            detail: Some(detail.clone()),
            share: false,
            abandon: Abandon::Never,
            result: Ok(EffectOutcome::Executed { detail }),
        },
    )
}

/// A read was observed. Where the receipt is lost the attempt stays unknown,
/// with the digest in its detail.
pub open spec fn observed(o: (Seq<u8>, Seq<char>), share: bool, receipt_lost: bool) -> RunView {
    Progress::Record(
        Closing {
            state: if receipt_lost {
                ClosingState::Unknown
            } else {
                ClosingState::Confirmed
            },
            detail: Some(
                if receipt_lost {
                    "read-performed sha256="@ + o.1 + "; receipt lost after dispatch"@
                } else {
                    "read-performed sha256="@ + o.1
                },
            ),
            share,
            abandon: Abandon::Never,
            result: Ok(EffectOutcome::Read { bytes: o.0, digest: o.1 }),
        },
    )
}

fn observe(o: ReadObservation, share: bool, receipt_lost: bool) -> (r: Progress)
    ensures
        run_view(r) == observed(observation_view(o), share, receipt_lost),
{
    let reported: Reported = read_result(o);
    let (state, detail): (ClosingState, String) = if receipt_lost {
        (
            ClosingState::Unknown,
            text2(reported.detail.as_str(), "; receipt lost after dispatch"),
        )
    } else {
        (ClosingState::Confirmed, reported.detail)
    };
    Progress::Record(
        Closing {
            state,
            detail: Some(detail),
            share,
            abandon: Abandon::Never,
            result: Ok(reported.outcome),
        },
    )
}

/// The verdict of a policy on a target.
pub open spec fn ruling(
    policy: Policy,
    target: Seq<char>,
    class: EffectClass,
    ctx: AdmissionContext,
    resolved: Result<paths::IdentityView, policy::PolicyError<Seq<char>>>,
) -> ModeDecision {
    policy::verdict(
        policy::identities(policy.denies@),
        text::texts(policy.raw_denies@),
        target,
        class,
        ctx,
        resolved,
    )
}

/// The error of a verdict that does not allow.
pub open spec fn refusal(d: ModeDecision) -> ExecutorError<Seq<char>> {
    if d == ModeDecision::Ask {
        ExecutorError::ModeAsk
    } else {
        ExecutorError::ModeDenied
    }
}

fn refusal_error(d: ModeDecision) -> (r: ExecutorError)
    ensures
        r@ == refusal(d),
{
    match d {
        ModeDecision::Ask => ExecutorError::ModeAsk,
        _ => ExecutorError::ModeDenied,
    }
}

/// What the grant check before an effect gives: a grant that no longer
/// admits the class rejects the attempt.
pub open spec fn grant_gate<R>(
    admission: Result<policy::GrantView, policy::PolicyError<Seq<char>>>,
) -> Result<Seq<char>, Progress<Seq<char>, R>> {
    match admission {
        Ok(grant) => Ok(grant.scope_root),
        Err(e) => Err(
            rejected(
                executor::executor_message(ExecutorError::Policy(e)),
                ExecutorError::Policy(e),
                Abandon::Always,
            ),
        ),
    }
}

/// What the cancellation check before an effect gives, where the run goes on
/// with a consult.
pub open spec fn cancel_gate<R>(
    cancelled: Result<bool, StoreError<Seq<char>>>,
) -> Progress<Seq<char>, R> {
    match cancelled {
        Err(e) => Progress::Return { result: Err(ExecutorError::Store(e)), abandon: false },
        Ok(true) => rejected(TASK_CANCELLED@, ExecutorError::Cancelled, Abandon::IfRecorded),
        Ok(false) => Progress::Consult,
    }
}

fn cancel_step<R>(cancelled: Result<bool, StoreError>) -> (r: Progress<String, R>)
    ensures
        match cancelled {
            Err(e) => r == (Progress::<String, R>::Return {
                result: Err(ExecutorError::Store(e)),
                abandon: false,
            }),
            Ok(true) => r matches Progress::Record(c) && c.state == ClosingState::Rejected && (
            c.detail matches Some(d) && d@ == TASK_CANCELLED@) && !c.share && c.abandon
                == Abandon::IfRecorded && c.result == Err::<R, ExecutorError>(
                ExecutorError::Cancelled,
            ),
            Ok(false) => r == Progress::<String, R>::Consult,
        },
{
    match cancelled {
        Err(e) => Progress::Return { result: Err(ExecutorError::Store(e)), abandon: false },
        Ok(cancelled) => if cancelled {
            reject(owned(TASK_CANCELLED), ExecutorError::Cancelled, Abandon::IfRecorded)
        } else {
            Progress::Consult
        },
    }
}

/// The next step of a run. The grant is checked again, cancellation settles
/// the attempt, and the mode is consulted under the mode of the admission;
/// only a clear allow reaches the worker.
pub open spec fn next(
    policy: Policy,
    merged: bool,
    receipt_lost: bool,
    admitted: AdmittedEffect,
    at: RunView,
    answer: AnswerView,
) -> RunView {
    let request = admitted.request@;
    let class = executor::request_class(request);
    match (at, answer) {
        (Progress::Start, AnswerView::Go) => if receipt_lost && class != EffectClass::Read {
            Progress::Return { result: Err(ExecutorError::Readonly { class }), abandon: false }
        } else {
            match grant_gate(
                policy::admission(
                    policy.grants@,
                    executor::request_grant(request),
                    class,
                ),
            ) {
                Err(end) => end,
                Ok(_) => Progress::AskCancelled,
            }
        },
        (Progress::AskCancelled, AnswerView::Cancelled(cancelled)) => cancel_gate(cancelled),
        (Progress::Consult, AnswerView::Facts { facts, resolved }) => {
            let target = executor::request_target(request);
            match executor::context_of(admitted.mode, class, target, facts) {
                Err(e) => rejected(executor::executor_message(e), e, Abandon::Always),
                Ok(ctx) => {
                    let decision = ruling(policy, target, class, ctx, resolved);
                    if decision == ModeDecision::Allow {
                        Progress::MarkRunning
                    } else {
                        rejected(
                            executor::refusal_reason(decision),
                            refusal(decision),
                            Abandon::Always,
                        )
                    }
                },
            }
        },
        (Progress::MarkRunning, AnswerView::Marked(Err(e))) => Progress::Return {
            result: Err(ExecutorError::Store(e)),
            abandon: false,
        },
        (Progress::MarkRunning, AnswerView::Marked(Ok(_))) => match request {
            EffectRequest::Read { path, .. } => if merged {
                Progress::TakeShared
            } else {
                Progress::Perform(WorkerCall::Read { scope_root: admitted.scope_root@, path })
            },
            EffectRequest::Write { path, .. } => match admitted.expected_identity {
                None => failed(WorkerError::TargetChanged { target: path }),
                Some(expected) => Progress::Perform(
                    WorkerCall::Write { scope_root: admitted.scope_root@, path, expected },
                ),
            },
            EffectRequest::Exec { program, .. } => Progress::Perform(
                WorkerCall::Exec { scope_root: admitted.scope_root@, program },
            ),
            EffectRequest::Egress { url, .. } => Progress::Perform(WorkerCall::Egress { url }),
        },
        (Progress::TakeShared, AnswerView::Shared(Some(o))) => observed(o, false, receipt_lost),
        (Progress::TakeShared, AnswerView::Shared(None)) => Progress::Perform(
            WorkerCall::Read {
                scope_root: admitted.scope_root@,
                path: executor::request_target(request),
            },
        ),
        (Progress::Perform(_), AnswerView::Observed(Ok(o))) => observed(o, merged, receipt_lost),
        (Progress::Perform(_), AnswerView::Observed(Err(e))) => if receipt_lost {
            Progress::Return { result: Err(ExecutorError::Worker(e)), abandon: false }
        } else {
            failed(e)
        },
        (Progress::Perform(_), AnswerView::Done(Err(e))) => failed(e),
        (Progress::Perform(_), AnswerView::Done(Ok(_))) => confirmed(performed_detail(request)),
        (Progress::Record(closing), AnswerView::Recorded(stored)) => recorded(closing, stored),
        _ => at,
    }
}

/// What the ledger says of an effect that ran.
pub open spec fn performed_detail(r: executor::RequestView) -> Seq<char> {
    match r {
        EffectRequest::Write { bytes, .. } => "write-performed sha256="@
            + digest::digest_text(bytes),
        EffectRequest::Egress { url, .. } => "egress-performed "@ + url,
        _ => "exec-performed exit=ok"@,
    }
}

/// What a control write does next: as [`next`], but the grant must still
/// have the scope of the admission, and a deny rule on the target, not the
/// mode, stops it.
pub open spec fn managed_next(
    policy: Policy,
    admitted: AdmittedManagedWrite,
    at: ManagedView,
    answer: AnswerView,
) -> ManagedView {
    match (at, answer) {
        (Progress::Start, AnswerView::Go) => match grant_gate(
            policy::admission(policy.grants@, admitted.grant_id@, EffectClass::Read),
        ) {
            Err(end) => end,
            Ok(scope_root) => if scope_root != admitted.scope_root@ {
                rejected("grant changed"@, ExecutorError::PolicyDenied, Abandon::Always)
            } else {
                Progress::AskCancelled
            },
        },
        (Progress::AskCancelled, AnswerView::Cancelled(cancelled)) => cancel_gate(cancelled),
        (Progress::Consult, AnswerView::Facts { resolved, .. }) => if policy::path_denied(
            policy::identities(policy.denies@),
            resolved,
        ) {
            rejected("policy deny"@, ExecutorError::PolicyDenied, Abandon::Always)
        } else {
            Progress::MarkRunning
        },
        (Progress::MarkRunning, AnswerView::Marked(Err(e))) => Progress::Return {
            result: Err(ExecutorError::Store(e)),
            abandon: false,
        },
        (Progress::MarkRunning, AnswerView::Marked(Ok(_))) => Progress::Perform(
            WorkerCall::Write {
                scope_root: admitted.scope_root@,
                path: admitted.path@,
                expected: admitted.expected_identity,
            },
        ),
        (Progress::Perform(_), AnswerView::Done(Err(e))) => failed(e),
        (Progress::Perform(_), AnswerView::Done(Ok(_))) => Progress::Record(
            Closing {
                state: ClosingState::Confirmed,
                detail: None,
                share: false,
                abandon: Abandon::Never,
                result: Ok(()),
            },
        ),
        (Progress::Record(closing), AnswerView::Recorded(stored)) => recorded(closing, stored),
        _ => at,
    }
}

/// A write that the helper reports as failed behind the mutation of its target
/// is closed as unknown, and no other failure of the helper is.
pub proof fn law_mutated_write_stays_unknown(
    policy: Policy,
    admitted: AdmittedManagedWrite,
    call: WorkerCall<Seq<char>>,
    code: Option<i32>,
    stdout: Seq<u8>,
    stderr: Seq<char>,
)
    ensures
        executor::io_verdict(code, stdout, stderr, false) matches Err(e) ==> (managed_next(
            policy,
            admitted,
            Progress::Perform(call),
            AnswerView::Done(Err(e)),
        ) matches Progress::Record(c) && c.state == (if code == Some(helper::EXIT_DATA_MUTATED) {
            ClosingState::Unknown
        } else {
            ClosingState::Rejected
        })),
{
}

/// Which read may share one physical read: the same target, the same file,
/// the same scope and the same rights.
#[derive(Debug)]
pub struct ReadFlightKey<T = String> {
    pub target: T,
    pub snapshot: FileIdentity,
    pub scope_root: T,
    pub grant_id: T,
    pub mode: PermissionMode,
}

pub open spec fn key_view(k: Option<ReadFlightKey>) -> Option<ReadFlightKey<Seq<char>>> {
    match k {
        Some(x) => Some(
            ReadFlightKey {
                target: x.target@,
                snapshot: x.snapshot,
                scope_root: x.scope_root@,
                grant_id: x.grant_id@,
                mode: x.mode,
            },
        ),
        None => None,
    }
}

/// An admission whose attempt is to be planned.
#[derive(Debug)]
pub struct Decided<T = String> {
    pub scope_root: T,
    pub expected_identity: Option<FileIdentity>,
    pub decision: ModeDecision,
}

pub open spec fn decided_view(r: Result<Decided, ExecutorError>) -> Result<
    Decided<Seq<char>>,
    ExecutorError<Seq<char>>,
> {
    match r {
        Ok(d) => Ok(
            Decided {
                scope_root: d.scope_root@,
                expected_identity: d.expected_identity,
                decision: d.decision,
            },
        ),
        Err(e) => Err(e@),
    }
}

/// What an admission comes to, before its attempt is planned: the grant, the
/// facts, the file that a write is for, and the verdict.
pub open spec fn deciding(
    policy: Policy,
    request: executor::RequestView,
    mode: PermissionMode,
    facts: executor::FactsView,
    identity: Result<FileIdentity, WorkerError<Seq<char>>>,
    resolved: Result<paths::IdentityView, policy::PolicyError<Seq<char>>>,
) -> Result<Decided<Seq<char>>, ExecutorError<Seq<char>>> {
    let class = executor::request_class(request);
    let target = executor::request_target(request);
    match policy::admission(
        policy.grants@,
        executor::request_grant(request),
        class,
    ) {
        Err(e) => Err(ExecutorError::Policy(e)),
        Ok(grant) => match executor::context_of(mode, class, target, facts) {
            Err(e) => Err(e),
            Ok(ctx) => match (request, identity) {
                (EffectRequest::Write { .. }, Err(e)) => Err(ExecutorError::Worker(e)),
                _ => Ok(
                    Decided {
                        scope_root: grant.scope_root,
                        expected_identity: match (request, identity) {
                            (EffectRequest::Write { .. }, Ok(i)) => Some(i),
                            _ => None,
                        },
                        decision: ruling(policy, target, class, ctx, resolved),
                    },
                ),
            },
        },
    }
}

pub open spec fn identity_view(r: Result<FileIdentity, WorkerError>) -> Result<
    FileIdentity,
    WorkerError<Seq<char>>,
> {
    match r {
        Ok(i) => Ok(i),
        Err(e) => Err(e@),
    }
}

/// What comes of an admission once its attempt is planned.
#[derive(Debug)]
pub enum Planned {
    /// The attempt is rejected in the ledger, and the admission fails.
    Reject { attempt_id: String, reason: &'static str, error: ExecutorError },
    /// The effect is admitted; a read that may be shared joins its flight.
    Admitted { effect: AdmittedEffect, flight: Option<ReadFlightKey> },
    /// The attempt could not be planned.
    Failed(ExecutorError),
}

/// The flight a planned read joins: only a merged run shares reads, and only
/// where the file could be observed.
pub open spec fn flight_of(
    merged: bool,
    request: executor::RequestView,
    mode: PermissionMode,
    scope_root: Seq<char>,
    snapshot: Option<FileIdentity>,
) -> Option<ReadFlightKey<Seq<char>>> {
    match (request, snapshot) {
        (EffectRequest::Read { grant_id, path }, Some(s)) => if merged {
            Some(ReadFlightKey { target: path, snapshot: s, scope_root, grant_id, mode })
        } else {
            None
        },
        _ => None,
    }
}

/// Two reads share a flight only where they are the same read of the same
/// file: in target, file, scope, grant and mode.
pub proof fn law_only_identical_reads_share(
    first: executor::RequestView,
    second: executor::RequestView,
    modes: (PermissionMode, PermissionMode),
    scopes: (Seq<char>, Seq<char>),
    snapshots: (Option<FileIdentity>, Option<FileIdentity>),
    merged: bool,
)
    requires
        flight_of(merged, first, modes.0, scopes.0, snapshots.0) is Some,
        flight_of(merged, first, modes.0, scopes.0, snapshots.0) == flight_of(
            merged,
            second,
            modes.1,
            scopes.1,
            snapshots.1,
        ),
    ensures
        merged,
        first == second,
        first is Read,
        modes.0 == modes.1,
        scopes.0 == scopes.1,
        snapshots.0 == snapshots.1,
{
}

/// A preview: the verdict, and the entry that the ledger gets for it.
#[derive(Debug)]
pub struct Preview {
    pub decision: ModeDecision,
    pub class: EffectClass,
    pub description: String,
    pub reason: &'static str,
}

/// A control write whose attempt is to be planned.
#[derive(Debug)]
pub struct ManagedPlan {
    pub class: EffectClass,
    pub description: String,
    pub grant_id: String,
    pub scope_root: String,
    pub path: String,
    pub bytes: Vec<u8>,
    pub expected_identity: FileIdentity,
}

/// What a control write asks for: only a write is one, and it is admitted
/// against the read class of its grant.
pub open spec fn managed_scope_of(policy: Policy, request: executor::RequestView) -> Result<
    Seq<char>,
    ExecutorError<Seq<char>>,
> {
    match request {
        EffectRequest::Write { grant_id, .. } => match policy::admission(
            policy.grants@,
            grant_id,
            EffectClass::Read,
        ) {
            Ok(grant) => Ok(grant.scope_root),
            Err(e) => Err(ExecutorError::Policy(e)),
        },
        _ => Err(ExecutorError::Readonly { class: executor::request_class(request) }),
    }
}

/// Decides on effects under a policy. A merged executor lets identical reads
/// share one physical read.
#[derive(Debug)]
pub struct Executor<'a> {
    pub policy: &'a Policy,
    pub merged: bool,
}

impl<'a> Executor<'a> {
    /// An executor whose every read is its own physical read.
    pub fn new(policy: &'a Policy) -> (r: Self)
        ensures
            *r.policy == *policy,
            !r.merged,
    {
        Executor { policy, merged: false }
    }

    /// An executor whose identical reads share one physical read.
    pub fn with_flights(policy: &'a Policy) -> (r: Self)
        ensures
            *r.policy == *policy,
            r.merged,
    {
        Executor { policy, merged: true }
    }

    /// The scope that a request may run in: that of its grant.
    pub fn admitted_scope(&self, request: &EffectRequest) -> (r: Result<String, ExecutorError>)
        ensures
            match policy::admission(
                self.policy.grants@,
                executor::request_grant(request@),
                executor::request_class(request@),
            ) {
                Ok(g) => r matches Ok(s) && s@ == g.scope_root,
                Err(e) => r matches Err(x) && x@ == ExecutorError::Policy(e),
            },
    {
        match self.policy.admit_class(request.grant_id(), request.class()) {
            Ok(grant) => Ok(grant.scope_root.clone()),
            Err(e) => Err(ExecutorError::Policy(e)),
        }
    }

    /// Decides on an admission. `facts` are those of the grant's scope and
    /// the target, `identity` is the file at the target, and `resolved` the
    /// identity of the path that [`Policy::deny_consult`] asks for.
    pub fn admit_decide(
        &self,
        request: &EffectRequest,
        mode: PermissionMode,
        facts: ContextFacts,
        identity: Result<FileIdentity, WorkerError>,
        resolved: PathOutcome,
    ) -> (r: Result<Decided, ExecutorError>)
        ensures
            decided_view(r) == deciding(
                *self.policy,
                request@,
                mode,
                facts@,
                identity_view(identity),
                policy::path_outcome(resolved),
            ),
    {
        let grant: &Grant = match self.policy.admit_class(request.grant_id(), request.class()) {
            Ok(g) => g,
            Err(e) => {
                return Err(ExecutorError::Policy(e));
            },
        };
        let target: &str = request.target_path();
        let ctx: AdmissionContext = match admission_context(mode, request.class(), target, facts) {
            Ok(c) => c,
            Err(e) => {
                return Err(e);
            },
        };
        let expected_identity: Option<FileIdentity> = match request {
            EffectRequest::Write { .. } => match identity {
                Ok(i) => Some(i),
                Err(e) => {
                    return Err(ExecutorError::Worker(e));
                },
            },
            _ => None,
        };
        let decision: ModeDecision = self.policy.decide(target, request.class(), &ctx, resolved);
        Ok(Decided { scope_root: grant.scope_root.clone(), expected_identity, decision })
    }

    /// Admits an effect whose attempt was planned: a verdict that does not
    /// allow rejects the attempt. `snapshot` is the file at the target of a
    /// read, where it could be observed.
    pub fn admit_effect(
        &self,
        task_id: &TaskId,
        request: EffectRequest,
        mode: PermissionMode,
        decided: Decided,
        attempt: Result<String, StoreError>,
        snapshot: Option<FileIdentity>,
    ) -> (r: Planned)
        ensures
            match attempt {
                Err(e) => r matches Planned::Failed(x) && x@ == ExecutorError::Store(e@),
                Ok(id) => if decided.decision != ModeDecision::Allow {
                    r matches Planned::Reject { attempt_id, reason, error } && attempt_id@ == id@
                        && reason@ == executor::refusal_reason(decided.decision) && error@
                        == refusal(decided.decision)
                } else {
                    r matches Planned::Admitted { effect, flight } && effect.task_id@ == task_id@
                        && effect.attempt_id@ == id@ && effect.request@ == request@ && effect.mode
                        == mode && effect.expected_identity == decided.expected_identity
                        && effect.scope_root@ == decided.scope_root@ && key_view(flight)
                        == flight_of(
                        self.merged,
                        request@,
                        mode,
                        decided.scope_root@,
                        snapshot,
                    )
                },
            },
    {
        let attempt_id: String = match attempt {
            Ok(id) => id,
            Err(e) => {
                return Planned::Failed(ExecutorError::Store(e));
            },
        };
        match decided.decision {
            ModeDecision::Allow => {},
            refused => {
                return Planned::Reject {
                    attempt_id,
                    reason: mode_reason(refused),
                    error: refusal_error(refused),
                };
            },
        }
        let flight: Option<ReadFlightKey> = match (&request, snapshot) {
            (EffectRequest::Read { grant_id, path }, Some(s)) => if self.merged {
                Some(
                    ReadFlightKey {
                        target: path.clone(),
                        snapshot: s,
                        scope_root: decided.scope_root.clone(),
                        grant_id: grant_id.clone(),
                        mode,
                    },
                )
            } else {
                None
            },
            _ => None,
        };
        Planned::Admitted {
            effect: AdmittedEffect {
                task_id: task_id.clone(),
                attempt_id,
                request,
                mode,
                expected_identity: decided.expected_identity,
                scope_root: decided.scope_root,
            },
            flight,
        }
    }

    /// A preview: the verdict of the mode, with an entry that is rejected as
    /// a dry run whatever the verdict is. The grant is not checked here.
    pub fn submit_preview(
        &self,
        request: &EffectRequest,
        ctx: &AdmissionContext,
        resolved: PathOutcome,
    ) -> (r: Preview)
        ensures
            r.decision == ruling(
                *self.policy,
                executor::request_target(request@),
                executor::request_class(request@),
                (AdmissionContext { dry_run: true, ..*ctx }),
                policy::path_outcome(resolved),
            ),
            r.class == executor::request_class(request@),
            r.description@ == executor::request_text(request@),
            r.reason@ == DRY_RUN_REASON@,
    {
        let forced: AdmissionContext = AdmissionContext { dry_run: true, ..*ctx };
        let decision: ModeDecision = self.policy.decide(
            request.target_path(),
            request.class(),
            &forced,
            resolved,
        );
        Preview {
            decision,
            class: request.class(),
            description: request.describe(),
            reason: DRY_RUN_REASON,
        }
    }

    /// The scope of a control write, or why it is not admitted.
    pub fn managed_scope(&self, request: &EffectRequest) -> (r: Result<String, ExecutorError>)
        ensures
            match managed_scope_of(*self.policy, request@) {
                Ok(s) => r matches Ok(t) && t@ == s,
                Err(e) => r matches Err(x) && x@ == e,
            },
    {
        match request {
            EffectRequest::Write { grant_id, .. } => match self.policy.admit_class(
                grant_id.as_str(),
                EffectClass::Read,
            ) {
                Ok(grant) => Ok(grant.scope_root.clone()),
                Err(e) => Err(ExecutorError::Policy(e)),
            },
            other => Err(ExecutorError::Readonly { class: other.class() }),
        }
    }

    /// Admits a control write against the current grant; `identity` is the
    /// file at the target, inside the scope that [`Executor::managed_scope`]
    /// names.
    pub fn admit_managed_write(
        &self,
        request: EffectRequest,
        identity: Result<FileIdentity, WorkerError>,
    ) -> (r: Result<ManagedPlan, ExecutorError>)
        ensures
            match managed_scope_of(*self.policy, request@) {
                Err(e) => r matches Err(x) && x@ == e,
                Ok(scope) => match identity {
                    Err(w) => r matches Err(x) && x@ == ExecutorError::Worker(w@),
                    Ok(i) => r matches Ok(p) && p.class == EffectClass::Write && p.description@
                        == executor::request_text(request@) && p.scope_root@ == scope
                        && request@ == (EffectRequest::Write {
                        grant_id: p.grant_id@,
                        path: p.path@,
                        bytes: p.bytes@,
                    }) && p.expected_identity == i,
                },
            },
    {
        let scope_root: String = match self.managed_scope(&request) {
            Ok(s) => s,
            Err(e) => {
                return Err(e);
            },
        };
        let expected_identity: FileIdentity = match identity {
            Ok(i) => i,
            Err(e) => {
                return Err(ExecutorError::Worker(e));
            },
        };
        let description: String = request.describe();
        match request {
            EffectRequest::Write { grant_id, path, bytes } => Ok(
                ManagedPlan {
                    class: EffectClass::Write,
                    description,
                    grant_id,
                    scope_root,
                    path,
                    bytes,
                    expected_identity,
                },
            ),
            other => Err(ExecutorError::Readonly { class: other.class() }),
        }
    }

    /// The next step of an admitted effect, from the answer to the last one.
    pub fn execute(
        &self,
        admitted: &AdmittedEffect,
        at: Progress,
        answer: Answer,
    ) -> (r: Progress)
        requires
            answers(run_view(at), answer@),
        ensures
            run_view(r) == next(
                *self.policy,
                self.merged,
                false,
                *admitted,
                run_view(at),
                answer@,
            ),
    {
        self.run_step(admitted, false, at, answer)
    }

    /// The next step of an admitted read whose confirmation never arrives, from
    /// the answer to the last one: the record ends unknown, with the digest of
    /// what was read.
    pub fn execute_unconfirmed(
        &self,
        admitted: &AdmittedEffect,
        at: Progress,
        answer: Answer,
    ) -> (r: Progress)
        requires
            answers(run_view(at), answer@),
        ensures
            run_view(r) == next(
                *self.policy,
                self.merged,
                true,
                *admitted,
                run_view(at),
                answer@,
            ),
    {
        self.run_step(admitted, true, at, answer)
    }

    /// Executable [`next`].
    fn run_step(
        &self,
        admitted: &AdmittedEffect,
        receipt_lost: bool,
        at: Progress,
        answer: Answer,
    ) -> (r: Progress)
        requires
            answers(run_view(at), answer@),
        ensures
            run_view(r) == next(
                *self.policy,
                self.merged,
                receipt_lost,
                *admitted,
                run_view(at),
                answer@,
            ),
    {
        match (at, answer) {
            (Progress::Start, Answer::Go) => self.grant_step(admitted, receipt_lost),
            (Progress::AskCancelled, Answer::Cancelled(cancelled)) => cancel_step(cancelled),
            (Progress::Consult, Answer::Facts { facts, resolved }) => self.mode_gate(
                admitted,
                facts,
                resolved,
            ),
            (Progress::MarkRunning, Answer::Marked(marked)) => match marked {
                Err(e) => Progress::Return { result: Err(ExecutorError::Store(e)), abandon: false },
                Ok(_) => self.start_effect(admitted),
            },
            (Progress::TakeShared, Answer::Shared(shared)) => match shared {
                Some(o) => observe(o, false, receipt_lost),
                None => Progress::Perform(
                    WorkerCall::Read {
                        scope_root: admitted.scope_root.clone(),
                        path: owned(admitted.request.target_path()),
                    },
                ),
            },
            (Progress::Perform(_), Answer::Observed(read)) => match read {
                Ok(o) => observe(o, self.merged, receipt_lost),
                Err(e) => if receipt_lost {
                    Progress::Return { result: Err(ExecutorError::Worker(e)), abandon: false }
                } else {
                    failure(e)
                },
            },
            (Progress::Perform(_), Answer::Done(done)) => match done {
                Err(e) => failure(e),
                Ok(_) => match &admitted.request {
                    EffectRequest::Write { bytes, .. } => {
                        let digest: String = digest_hex(bytes);
                        confirm(text2("write-performed sha256=", digest.as_str()))
                    },
                    EffectRequest::Egress { url, .. } => confirm(
                        text2("egress-performed ", url.as_str()),
                    ),
                    _ => confirm(owned("exec-performed exit=ok")),
                },
            },
            (Progress::Record(closing), Answer::Recorded(stored)) => record_done(closing, stored),
            (other, _) => other,
        }
    }

    fn grant_step(&self, admitted: &AdmittedEffect, receipt_lost: bool) -> (r: Progress)
        ensures
            run_view(r) == next(
                *self.policy,
                self.merged,
                receipt_lost,
                *admitted,
                Progress::Start,
                AnswerView::Go,
            ),
    {
        let class: EffectClass = admitted.request.class();
        if receipt_lost && class != EffectClass::Read {
            return Progress::Return {
                result: Err(ExecutorError::Readonly { class }),
                abandon: false,
            };
        }
        match self.policy.admit_class(admitted.request.grant_id(), class) {
            Ok(_) => Progress::AskCancelled,
            Err(e) => {
                let error: ExecutorError = ExecutorError::Policy(e);
                let detail: String = error.message();
                reject(detail, error, Abandon::Always)
            },
        }
    }

    fn mode_gate(
        &self,
        admitted: &AdmittedEffect,
        facts: ContextFacts,
        resolved: PathOutcome,
    ) -> (r: Progress)
        ensures
            forall|receipt_lost: bool|
                run_view(r) == #[trigger] next(
                    *self.policy,
                    self.merged,
                    receipt_lost,
                    *admitted,
                    Progress::Consult,
                    AnswerView::Facts {
                        facts: facts@,
                        resolved: policy::path_outcome(resolved),
                    },
                ),
    {
        let class: EffectClass = admitted.request.class();
        let target: &str = admitted.request.target_path();
        let ctx: AdmissionContext = match admission_context(admitted.mode, class, target, facts) {
            Ok(c) => c,
            Err(e) => {
                let detail: String = e.message();
                return reject(detail, e, Abandon::Always);
            },
        };
        match self.policy.decide(target, class, &ctx, resolved) {
            ModeDecision::Allow => Progress::MarkRunning,
            refused => reject(
                owned(mode_reason(refused)),
                refusal_error(refused),
                Abandon::Always,
            ),
        }
    }

    fn start_effect(&self, admitted: &AdmittedEffect) -> (r: Progress)
        ensures
            forall|receipt_lost: bool|
                run_view(r) == #[trigger] next(
                    *self.policy,
                    self.merged,
                    receipt_lost,
                    *admitted,
                    Progress::MarkRunning,
                    AnswerView::Marked(Ok(())),
                ),
    {
        let scope_root: String = admitted.scope_root.clone();
        match &admitted.request {
            EffectRequest::Read { path, .. } => if self.merged {
                Progress::TakeShared
            } else {
                Progress::Perform(WorkerCall::Read { scope_root, path: path.clone() })
            },
            EffectRequest::Write { path, .. } => match admitted.expected_identity {
                None => failure(WorkerError::TargetChanged { target: path.clone() }),
                Some(expected) => Progress::Perform(
                    WorkerCall::Write { scope_root, path: path.clone(), expected },
                ),
            },
            EffectRequest::Exec { program, .. } => Progress::Perform(
                WorkerCall::Exec { scope_root, program: program.clone() },
            ),
            EffectRequest::Egress { url, .. } => Progress::Perform(
                WorkerCall::Egress { url: url.clone() },
            ),
        }
    }

    /// The next step of an admitted control write, from the answer to the
    /// last one.
    pub fn execute_managed_write(
        &self,
        admitted: &AdmittedManagedWrite,
        at: Progress<String, ()>,
        answer: Answer,
    ) -> (r: Progress<String, ()>)
        requires
            answers(managed_view(at), answer@),
        ensures
            managed_view(r) == managed_next(*self.policy, *admitted, managed_view(at), answer@),
    {
        match (at, answer) {
            (Progress::Start, Answer::Go) => match self.policy.admit_class(
                admitted.grant_id.as_str(),
                EffectClass::Read,
            ) {
                Err(e) => {
                    let error: ExecutorError = ExecutorError::Policy(e);
                    let detail: String = error.message();
                    reject(detail, error, Abandon::Always)
                },
                Ok(grant) => if !same(grant.scope_root.as_str(), admitted.scope_root.as_str()) {
                    reject(owned("grant changed"), ExecutorError::PolicyDenied, Abandon::Always)
                } else {
                    Progress::AskCancelled
                },
            },
            (Progress::AskCancelled, Answer::Cancelled(cancelled)) => cancel_step(cancelled),
            (Progress::Consult, Answer::Facts { facts: _, resolved }) => if self.policy.covers(
                resolved,
            ) {
                reject(owned("policy deny"), ExecutorError::PolicyDenied, Abandon::Always)
            } else {
                Progress::MarkRunning
            },
            (Progress::MarkRunning, Answer::Marked(marked)) => match marked {
                Err(e) => Progress::Return { result: Err(ExecutorError::Store(e)), abandon: false },
                Ok(_) => Progress::Perform(
                    WorkerCall::Write {
                        scope_root: admitted.scope_root.clone(),
                        path: admitted.path.clone(),
                        expected: admitted.expected_identity,
                    },
                ),
            },
            (Progress::Perform(_), Answer::Done(done)) => match done {
                Err(e) => failure(e),
                Ok(_) => Progress::Record(
                    Closing {
                        state: ClosingState::Confirmed,
                        detail: None,
                        share: false,
                        abandon: Abandon::Never,
                        result: Ok(()),
                    },
                ),
            },
            (Progress::Record(closing), Answer::Recorded(stored)) => record_done(closing, stored),
            (other, _) => other,
        }
    }
}

/// Where a run stands after some answers.
pub open spec fn after(
    policy: Policy,
    merged: bool,
    receipt_lost: bool,
    admitted: AdmittedEffect,
    given: Seq<AnswerView>,
) -> RunView
    decreases given.len(),
{
    if given.len() == 0 {
        Progress::Start
    } else {
        next(
            policy,
            merged,
            receipt_lost,
            admitted,
            after(policy, merged, receipt_lost, admitted, given.drop_last()),
            given.last(),
        )
    }
}

/// Every answer belongs to the step that was asked for.
pub open spec fn proper(
    policy: Policy,
    merged: bool,
    receipt_lost: bool,
    admitted: AdmittedEffect,
    given: Seq<AnswerView>,
) -> bool
    decreases given.len(),
{
    given.len() > 0 ==> proper(policy, merged, receipt_lost, admitted, given.drop_last())
        && answers(
        after(policy, merged, receipt_lost, admitted, given.drop_last()),
        given.last(),
    )
}

/// The grant of an effect admits its class.
pub open spec fn granted(policy: Policy, admitted: AdmittedEffect) -> bool {
    policy::admission(
        policy.grants@,
        executor::request_grant(admitted.request@),
        executor::request_class(admitted.request@),
    ) is Ok
}

/// The facts give a clear allow under the mode of the admission.
pub open spec fn allowed(policy: Policy, admitted: AdmittedEffect, answer: AnswerView) -> bool {
    let class = executor::request_class(admitted.request@);
    let target = executor::request_target(admitted.request@);
    match answer {
        AnswerView::Facts { facts, resolved } => match executor::context_of(
            admitted.mode,
            class,
            target,
            facts,
        ) {
            Ok(ctx) => ruling(policy, target, class, ctx, resolved) == ModeDecision::Allow,
            Err(_) => false,
        },
        _ => false,
    }
}

/// The answers passed every gate in front of the worker.
pub open spec fn gates_passed(
    policy: Policy,
    admitted: AdmittedEffect,
    given: Seq<AnswerView>,
) -> bool {
    &&& given.len() >= 4
    &&& granted(policy, admitted)
    &&& given[1] == AnswerView::Cancelled(Ok(false))
    &&& allowed(policy, admitted, given[2])
    &&& (given[3] matches AnswerView::Marked(Ok(_)))
}

proof fn lemma_steps(
    policy: Policy,
    merged: bool,
    receipt_lost: bool,
    admitted: AdmittedEffect,
    given: Seq<AnswerView>,
)
    requires
        proper(policy, merged, receipt_lost, admitted, given),
    ensures
        match after(policy, merged, receipt_lost, admitted, given) {
            Progress::Start => given.len() == 0,
            Progress::AskCancelled => given.len() == 1 && granted(policy, admitted),
            Progress::Consult => given.len() == 2 && granted(policy, admitted) && given[1]
                == AnswerView::Cancelled(Ok(false)),
            Progress::MarkRunning => given.len() == 3 && granted(policy, admitted) && given[1]
                == AnswerView::Cancelled(Ok(false)) && allowed(policy, admitted, given[2]),
            Progress::TakeShared => given.len() == 4 && gates_passed(policy, admitted, given),
            Progress::Perform(_) => given.len() <= 5 && gates_passed(policy, admitted, given),
            Progress::Record(_) => given.len() <= 6,
            Progress::Return { .. } => given.len() <= 7,
        },
    decreases given.len(),
{
    if given.len() > 0 {
        let before = given.drop_last();
        lemma_steps(policy, merged, receipt_lost, admitted, before);
        assert(forall|i: int| 0 <= i < before.len() ==> before[i] == given[i]);
        assert(given.last() == given[given.len() - 1]);
    }
}

/// No worker leg runs unless the grant admits the class, the task is not
/// cancelled, the consult gives a clear allow under the mode of the
/// admission, and the attempt is recorded as running: in that order, before
/// the leg.
pub proof fn law_effect_passes_every_gate(
    policy: Policy,
    merged: bool,
    receipt_lost: bool,
    admitted: AdmittedEffect,
    given: Seq<AnswerView>,
)
    requires
        proper(policy, merged, receipt_lost, admitted, given),
        after(policy, merged, receipt_lost, admitted, given) is Perform,
    ensures
        gates_passed(policy, admitted, given),
{
    lemma_steps(policy, merged, receipt_lost, admitted, given);
}

/// A run is over after at most seven answers.
pub proof fn law_run_ends(
    policy: Policy,
    merged: bool,
    receipt_lost: bool,
    admitted: AdmittedEffect,
    given: Seq<AnswerView>,
)
    requires
        proper(policy, merged, receipt_lost, admitted, given),
    ensures
        given.len() <= 7,
        given.len() == 7 ==> after(policy, merged, receipt_lost, admitted, given) is Return,
{
    lemma_steps(policy, merged, receipt_lost, admitted, given);
}

/// A target that a deny rule covers reaches no worker leg, whatever the mode
/// of the admission is.
pub proof fn law_denied_target_never_runs(
    policy: Policy,
    merged: bool,
    receipt_lost: bool,
    admitted: AdmittedEffect,
    given: Seq<AnswerView>,
)
    requires
        proper(policy, merged, receipt_lost, admitted, given),
        given.len() > 2,
        given[2] matches AnswerView::Facts { resolved, .. } && policy::denied_target(
            policy::identities(policy.denies@),
            text::texts(policy.raw_denies@),
            executor::request_target(admitted.request@),
            executor::request_class(admitted.request@),
            resolved,
        ),
    ensures
        !(after(policy, merged, receipt_lost, admitted, given) is Perform),
{
    lemma_steps(policy, merged, receipt_lost, admitted, given);
}

/// Where a control write stands after some answers.
pub open spec fn managed_after(
    policy: Policy,
    admitted: AdmittedManagedWrite,
    given: Seq<AnswerView>,
) -> ManagedView
    decreases given.len(),
{
    if given.len() == 0 {
        Progress::Start
    } else {
        managed_next(
            policy,
            admitted,
            managed_after(policy, admitted, given.drop_last()),
            given.last(),
        )
    }
}

/// Every answer belongs to the step that was asked for.
pub open spec fn managed_proper(
    policy: Policy,
    admitted: AdmittedManagedWrite,
    given: Seq<AnswerView>,
) -> bool
    decreases given.len(),
{
    given.len() > 0 ==> managed_proper(policy, admitted, given.drop_last()) && answers(
        managed_after(policy, admitted, given.drop_last()),
        given.last(),
    )
}

/// The grant of a control write still has the scope of its admission.
pub open spec fn scope_held(policy: Policy, admitted: AdmittedManagedWrite) -> bool {
    policy::admission(policy.grants@, admitted.grant_id@, EffectClass::Read) matches Ok(g)
        && g.scope_root == admitted.scope_root@
}

/// The deny rules do not cover the target.
pub open spec fn undenied(policy: Policy, answer: AnswerView) -> bool {
    answer matches AnswerView::Facts { resolved, .. } && !policy::path_denied(
        policy::identities(policy.denies@),
        resolved,
    )
}

proof fn lemma_managed_steps(
    policy: Policy,
    admitted: AdmittedManagedWrite,
    given: Seq<AnswerView>,
)
    requires
        managed_proper(policy, admitted, given),
    ensures
        match managed_after(policy, admitted, given) {
            Progress::Start => given.len() == 0,
            Progress::AskCancelled => given.len() == 1 && scope_held(policy, admitted),
            Progress::Consult => given.len() == 2 && scope_held(policy, admitted) && given[1]
                == AnswerView::Cancelled(Ok(false)),
            Progress::MarkRunning => given.len() == 3 && scope_held(policy, admitted) && given[1]
                == AnswerView::Cancelled(Ok(false)) && undenied(policy, given[2]),
            Progress::TakeShared => false,
            Progress::Perform(call) => given.len() == 4 && scope_held(policy, admitted)
                && given[1] == AnswerView::Cancelled(Ok(false)) && undenied(policy, given[2])
                && (given[3] matches AnswerView::Marked(Ok(_))) && call == (WorkerCall::Write {
                scope_root: admitted.scope_root@,
                path: admitted.path@,
                expected: admitted.expected_identity,
            }),
            _ => true,
        },
    decreases given.len(),
{
    if given.len() > 0 {
        let before = given.drop_last();
        lemma_managed_steps(policy, admitted, before);
        assert(forall|i: int| 0 <= i < before.len() ==> before[i] == given[i]);
        assert(given.last() == given[given.len() - 1]);
    }
}

/// A control write runs only while its grant has the scope it was admitted
/// with, its task is not cancelled and no deny rule covers its target; and
/// it runs against the very file it was admitted for.
pub proof fn law_managed_write_passes_every_gate(
    policy: Policy,
    admitted: AdmittedManagedWrite,
    given: Seq<AnswerView>,
)
    requires
        managed_proper(policy, admitted, given),
        managed_after(policy, admitted, given) is Perform,
    ensures
        given.len() == 4,
        scope_held(policy, admitted),
        given[1] == AnswerView::Cancelled(Ok(false)),
        undenied(policy, given[2]),
        (given[3] matches AnswerView::Marked(Ok(_))),
        managed_after(policy, admitted, given) == ManagedView::Perform(
            WorkerCall::Write {
                scope_root: admitted.scope_root@,
                path: admitted.path@,
                expected: admitted.expected_identity,
            },
        ),
{
    lemma_managed_steps(policy, admitted, given);
}

} // verus!
