//! The local loop between question, broker, executor and evidence: one
//! decision step at a time, with every gate in front of the first effect.

use crate::commands::runtime::Runtime;
use crate::config;
use crate::config::schema::Validated;
use crate::config::settings::{self, Config};
use crate::contracts::{self, AnswerSelection, EffectClass, ErrorCode, TaskSnapshot};
use crate::digest;
use crate::executor::run;
use crate::executor::{
    self, admission_context, mode_reason, ContextFacts, EffectOutcome, ExecutorError,
    TASK_CANCELLED,
};
use crate::helper::{self, join_path};
use crate::model::broker;
use crate::model::{self, ModelError, RequestManifest};
use crate::policy::paths;
use crate::policy::scan::{self, strip_prefix};
use crate::policy::{
    self, AdmissionContext, ModeDecision, PathOutcome, PermissionMode, Policy, PolicyError,
};
use crate::providers::{self, Provider, ProviderReply, ToolCall};
use crate::state::{self, ConflictCause, InvalidCause, StoreError};
use crate::text::{
    self, chars_of, decimal_text, lossy_text, owned, same, text2, text3, text4, text_of,
};
use vstd::prelude::*;

pub mod laws;

verus! {

/// The option that unblocks the one known action without a model.
pub const KNOWN_READY_OPTION: &'static str = "known_ready";

/// Why the record of a model attempt is retained.
pub const DISPATCH_CAUSE: &'static str = "first useful offline dispatch";

/// Why the record of a read that no model asked for is retained.
pub const READ_CAUSE: &'static str = "known ready admitted read";

/// One pass drains at most one full notification queue.
pub const SCHEDULER_DRAIN_LIMIT: usize = 8;

/// What one scheduler pass did.
#[derive(Debug)]
pub enum SchedulerStep {
    /// Nothing was admitted.
    Idle,
    /// One node ran one decision step to its outcome.
    Ran { node: u64, outcome: StepOutcome },
}

/// What one decision step came to.
#[derive(Debug)]
pub enum StepOutcome {
    Completed { snapshot: TaskSnapshot },
    EffectDenied { reason: String, snapshot: TaskSnapshot },
    OutcomeUnknown { attempt_id: String, snapshot: TaskSnapshot },
    Waiting { snapshot: TaskSnapshot },
    NoAction { snapshot: TaskSnapshot },
}

/// Why a decision step failed.
#[derive(Debug)]
pub enum ControllerError<T = String, M = ModelError> {
    Store(StoreError<T>),
    Policy(PolicyError<T>),
    Model(M),
    Executor(ExecutorError<T>),
    Scheduler(T),
    Serialization(T),
}

/// A controller error over mathematical values.
pub type ControllerFault = ControllerError<Seq<char>, model::ModelErrorView>;

impl View for ControllerError {
    type V = ControllerFault;

    open spec fn view(&self) -> ControllerFault {
        match self {
            ControllerError::Store(e) => ControllerError::Store(e@),
            ControllerError::Policy(e) => ControllerError::Policy(e@),
            ControllerError::Model(e) => ControllerError::Model(e@),
            ControllerError::Executor(e) => ControllerError::Executor(e@),
            ControllerError::Scheduler(e) => ControllerError::Scheduler(e@),
            ControllerError::Serialization(e) => ControllerError::Serialization(e@),
        }
    }
}

/// The diagnostic line of a controller error.
pub open spec fn controller_message(e: ControllerFault) -> Seq<char> {
    match e {
        ControllerError::Store(x) => state::store_message(x),
        ControllerError::Policy(x) => policy::policy_message(x),
        ControllerError::Model(x) => model::model_message(x),
        ControllerError::Executor(x) => executor::executor_message(x),
        ControllerError::Scheduler(x) => x,
        ControllerError::Serialization(x) => "serialization failed: "@ + x,
    }
}

/// The wire code of a controller error: a store or an executor error keeps
/// its own code, every other one is internal.
pub open spec fn controller_code(e: ControllerFault) -> ErrorCode {
    match e {
        ControllerError::Store(x) => state::store_code(x),
        ControllerError::Executor(x) => executor::executor_code(x),
        _ => ErrorCode::InternalError,
    }
}

impl ControllerError {
    /// The wire code of this error.
    pub fn error_code(&self) -> (r: ErrorCode)
        ensures
            r == controller_code(self@),
    {
        match self {
            ControllerError::Store(x) => x.code(),
            ControllerError::Executor(x) => x.error_code(),
            _ => ErrorCode::InternalError,
        }
    }

    /// Executable [`controller_message`].
    pub fn message(&self) -> (r: String)
        ensures
            r@ == controller_message(self@),
    {
        match self {
            ControllerError::Store(x) => x.message(),
            ControllerError::Policy(x) => x.message(),
            ControllerError::Model(x) => x.message(),
            ControllerError::Executor(x) => x.message(),
            ControllerError::Scheduler(x) => x.clone(),
            ControllerError::Serialization(x) => text2("serialization failed: ", x.as_str()),
        }
    }
}

/// How a step concludes; the snapshot is read after it.
#[derive(Debug)]
pub enum Conclusion<T = String> {
    Completed,
    EffectDenied { reason: T },
    OutcomeUnknown { attempt_id: T },
    Waiting,
    NoAction,
}

/// What a decision step does next.
#[derive(Debug)]
pub enum Decision<T = String, M = ModelError> {
    /// Read the snapshot of the task.
    Start,
    /// Ask for an attempt of the task that is not settled.
    AskUnresolved,
    /// Look up the facts of the scoped read.
    Consult,
    /// Ask whether the task is cancelled.
    AskCancelled,
    /// Materialize the obligations of the task.
    Materialize,
    /// Read the goal of the task.
    ReadGoal,
    /// Let the broker prepare a request over these inputs.
    Prepare { inputs: T },
    /// Retain the record of a model attempt before it is dispatched.
    RetainDispatch { attempt_id: T, cause: T },
    /// Let the broker dispatch the request.
    Dispatch { attempt_id: T },
    /// Record that nothing is ready.
    MarkNoReady,
    /// Admit a read; `dispatched` is the model attempt it comes from.
    Admit { path: T, dispatched: Option<T> },
    /// Retain the record of a read that no model asked for.
    RetainRead { attempt_id: T, cause: T },
    /// Run the admitted read.
    Execute { attempt_id: T, dispatched: Option<T> },
    /// Record that the outcome is unknown.
    MarkUnknown { attempt_id: T },
    /// Insert one piece of evidence for each obligation.
    Evidence { observation: T, digest: T, attempt_id: T },
    /// Retain the terminal record of the attempt.
    RetainTerminal { attempt_id: T, cause: T },
    /// Complete the task where it is eligible.
    Complete,
    Conclude(Conclusion<T>),
    Fail(ControllerError<T, M>),
}

/// A step over mathematical values.
pub type DecisionView = Decision<Seq<char>, model::ModelErrorView>;

pub open spec fn conclusion_view(c: Conclusion) -> Conclusion<Seq<char>> {
    match c {
        Conclusion::Completed => Conclusion::Completed,
        Conclusion::EffectDenied { reason } => Conclusion::EffectDenied { reason: reason@ },
        Conclusion::OutcomeUnknown { attempt_id } => Conclusion::OutcomeUnknown {
            attempt_id: attempt_id@,
        },
        Conclusion::Waiting => Conclusion::Waiting,
        Conclusion::NoAction => Conclusion::NoAction,
    }
}

impl View for Decision {
    type V = DecisionView;

    open spec fn view(&self) -> DecisionView {
        match self {
            Decision::Start => Decision::Start,
            Decision::AskUnresolved => Decision::AskUnresolved,
            Decision::Consult => Decision::Consult,
            Decision::AskCancelled => Decision::AskCancelled,
            Decision::Materialize => Decision::Materialize,
            Decision::ReadGoal => Decision::ReadGoal,
            Decision::Prepare { inputs } => Decision::Prepare { inputs: inputs@ },
            Decision::RetainDispatch { attempt_id, cause } => Decision::RetainDispatch {
                attempt_id: attempt_id@,
                cause: cause@,
            },
            Decision::Dispatch { attempt_id } => Decision::Dispatch { attempt_id: attempt_id@ },
            Decision::MarkNoReady => Decision::MarkNoReady,
            Decision::Admit { path, dispatched } => Decision::Admit {
                path: path@,
                dispatched: text::opt_text(*dispatched),
            },
            Decision::RetainRead { attempt_id, cause } => Decision::RetainRead {
                attempt_id: attempt_id@,
                cause: cause@,
            },
            Decision::Execute { attempt_id, dispatched } => Decision::Execute {
                attempt_id: attempt_id@,
                dispatched: text::opt_text(*dispatched),
            },
            Decision::MarkUnknown { attempt_id } => Decision::MarkUnknown {
                attempt_id: attempt_id@,
            },
            Decision::Evidence { observation, digest, attempt_id } => Decision::Evidence {
                observation: observation@,
                digest: digest@,
                attempt_id: attempt_id@,
            },
            Decision::RetainTerminal { attempt_id, cause } => Decision::RetainTerminal {
                attempt_id: attempt_id@,
                cause: cause@,
            },
            Decision::Complete => Decision::Complete,
            Decision::Conclude(c) => Decision::Conclude(conclusion_view(*c)),
            Decision::Fail(e) => Decision::Fail(e@),
        }
    }
}

/// The outcome of a step.
#[derive(Debug)]
pub enum Outcome {
    /// Whether the task is in a terminal state.
    Snapshot(Result<bool, StoreError>),
    Unresolved(Result<Option<String>, StoreError>),
    Facts { facts: ContextFacts, resolved: PathOutcome },
    Cancelled(Result<bool, StoreError>),
    Stored(Result<(), StoreError>),
    Goal(Result<Vec<u8>, StoreError>),
    /// The attempt of the prepared request.
    Prepared(Result<String, ModelError>),
    /// The tool calls of the reply.
    Dispatched(Result<Vec<ToolCall>, ModelError>),
    /// The attempt of the admitted read.
    Admitted(Result<String, ExecutorError>),
    Executed(Result<EffectOutcome, ExecutorError>),
}

/// The mathematical value of an outcome.
pub enum OutcomeView {
    Snapshot(Result<bool, StoreError<Seq<char>>>),
    Unresolved(Result<Option<Seq<char>>, StoreError<Seq<char>>>),
    Facts {
        facts: executor::FactsView,
        resolved: Result<paths::IdentityView, PolicyError<Seq<char>>>,
    },
    Cancelled(Result<bool, StoreError<Seq<char>>>),
    Stored(Result<(), StoreError<Seq<char>>>),
    Goal(Result<Seq<u8>, StoreError<Seq<char>>>),
    Prepared(Result<Seq<char>, model::ModelErrorView>),
    Dispatched(Result<Seq<ToolCall<Seq<char>>>, model::ModelErrorView>),
    Admitted(Result<Seq<char>, ExecutorError<Seq<char>>>),
    Executed(Result<EffectOutcome<Seq<char>, Seq<u8>>, ExecutorError<Seq<char>>>),
}

impl View for Outcome {
    type V = OutcomeView;

    open spec fn view(&self) -> OutcomeView {
        match self {
            Outcome::Snapshot(r) => OutcomeView::Snapshot(executor::bool_view(*r)),
            Outcome::Unresolved(r) => OutcomeView::Unresolved(
                match r {
                    Ok(a) => Ok(text::opt_text(*a)),
                    Err(e) => Err(e@),
                },
            ),
            Outcome::Facts { facts, resolved } => OutcomeView::Facts {
                facts: facts@,
                resolved: policy::path_outcome(*resolved),
            },
            Outcome::Cancelled(r) => OutcomeView::Cancelled(executor::bool_view(*r)),
            Outcome::Stored(r) => OutcomeView::Stored(run::unit_view(*r)),
            Outcome::Goal(r) => OutcomeView::Goal(
                match r {
                    Ok(b) => Ok(b@),
                    Err(e) => Err(e@),
                },
            ),
            Outcome::Prepared(r) => OutcomeView::Prepared(
                match r {
                    Ok(a) => Ok(a@),
                    Err(e) => Err(e@),
                },
            ),
            Outcome::Dispatched(r) => OutcomeView::Dispatched(
                match r {
                    Ok(c) => Ok(providers::call_views(c@)),
                    Err(e) => Err(e@),
                },
            ),
            Outcome::Admitted(r) => OutcomeView::Admitted(
                match r {
                    Ok(a) => Ok(a@),
                    Err(e) => Err(e@),
                },
            ),
            Outcome::Executed(r) => OutcomeView::Executed(
                run::result_view(*r),
            ),
        }
    }
}

/// What one decision step is about.
#[derive(Debug)]
pub struct StepContext {
    pub answer: AnswerSelection,
    pub grant_id: String,
    pub scope_root: String,
    pub scoped_file: String,
    /// The process dies after the effect and before its confirmation.
    pub crash_after_dispatch: bool,
}

/// The mathematical value of a step context.
pub struct StepView {
    pub answer: AnswerSelection<Seq<char>>,
    pub grant_id: Seq<char>,
    pub scope_root: Seq<char>,
    pub scoped_file: Seq<char>,
    pub crash_after_dispatch: bool,
}

impl View for StepContext {
    type V = StepView;

    open spec fn view(&self) -> StepView {
        StepView {
            answer: self.answer@,
            grant_id: self.grant_id@,
            scope_root: self.scope_root@,
            scoped_file: self.scoped_file@,
            crash_after_dispatch: self.crash_after_dispatch,
        }
    }
}

/// The answer in words.
pub open spec fn answer_words(a: AnswerSelection<Seq<char>>) -> Seq<char> {
    match a {
        AnswerSelection::Option { option_id } => "option:"@ + option_id.0,
        AnswerSelection::Custom { text } => text,
    }
}

/// Executable [`answer_words`].
pub fn answer_text(answer: &AnswerSelection) -> (r: String)
    ensures
        r@ == answer_words(answer@),
{
    match answer {
        AnswerSelection::Option { option_id } => text2("option:", option_id.0.as_str()),
        AnswerSelection::Custom { text } => text.clone(),
    }
}

/// The answer names the one known action.
pub open spec fn known_ready(a: AnswerSelection<Seq<char>>) -> bool {
    a matches AnswerSelection::Option { option_id } && option_id.0 == KNOWN_READY_OPTION@
}

fn is_known_ready(answer: &AnswerSelection) -> (r: bool)
    ensures
        r == known_ready(answer@),
{
    match answer {
        AnswerSelection::Option { option_id } => same(option_id.0.as_str(), KNOWN_READY_OPTION),
        AnswerSelection::Custom { .. } => false,
    }
}

/// The inputs of the model: the goal, the answer and the scoped file.
pub open spec fn inputs_of(
    goal: Seq<u8>,
    answer: AnswerSelection<Seq<char>>,
    scoped_file: Seq<char>,
) -> Seq<char> {
    "goal: "@ + text::lossy_utf8(goal) + "\nanswer: "@ + answer_words(answer) + "\nread "@
        + scoped_file
}

fn decision_inputs(goal: &Vec<u8>, answer: &AnswerSelection, scoped_file: &str) -> (r: String)
    ensures
        r@ == inputs_of(goal@, answer@, scoped_file@),
{
    let words: String = lossy_text(goal.as_slice());
    let said: String = answer_text(answer);
    let head: String = text4("goal: ", words.as_str(), "\nanswer: ", said.as_str());
    let all: String = text3(head.as_str(), "\nread ", scoped_file);
    all
}

/// The position of the first call of the read tool.
pub open spec fn read_call(calls: Seq<ToolCall<Seq<char>>>) -> int
    decreases calls.len(),
{
    if calls.len() == 0 || calls[0].tool == "read_file"@ {
        0
    } else {
        1 + read_call(calls.skip(1))
    }
}

/// The path that the first call of the read tool names, where there is one:
/// empty where the call names none.
pub open spec fn read_path(calls: Seq<ToolCall<Seq<char>>>) -> Option<Seq<char>> {
    let at = read_call(calls);
    if at < calls.len() {
        Some(
            match calls[at].path {
                Some(p) => p,
                None => Seq::empty(),
            },
        )
    } else {
        None
    }
}

/// Executable [`read_path`].
pub fn find_read(calls: &Vec<ToolCall>) -> (r: Option<String>)
    ensures
        text::opt_text(r) == read_path(providers::call_views(calls@)),
{
    let ghost all = providers::call_views(calls@);
    let mut i: usize = 0;
    assert(all.skip(0) =~= all);
    while i < calls.len()
        invariant
            i <= calls.len(),
            all == providers::call_views(calls@),
            read_call(all) == i + read_call(all.skip(i as int)),
        decreases calls.len() - i,
    {
        assert(all.skip(i as int)[0] == calls@[i as int]@);
        if same(calls[i].tool.as_str(), "read_file") {
            assert(read_call(all) == i);
            assert(all[i as int] == calls@[i as int]@);
            return match &calls[i].path {
                Some(p) => Some(p.clone()),
                None => Some(String::new()),
            };
        }
        assert(all.skip(i as int).skip(1) =~= all.skip(i as int + 1));
        i = i + 1;
    }
    None
}

/// What a read is reported as.
pub open spec fn observation_of(bytes: Seq<u8>, scoped_file: Seq<char>, digest: Seq<char>) -> Seq<
    char,
> {
    "read "@ + text::decimal(bytes.len()) + " bytes from "@ + scoped_file + "; sha256="@
        + digest
}

/// An outcome belongs to the step that was asked for.
pub open spec fn fits(at: DecisionView, outcome: OutcomeView) -> bool {
    match at {
        Decision::Start => outcome is Snapshot,
        Decision::AskUnresolved => outcome is Unresolved,
        Decision::Consult => outcome is Facts,
        Decision::AskCancelled => outcome is Cancelled,
        Decision::Materialize => outcome is Stored,
        Decision::ReadGoal => outcome is Goal,
        Decision::Prepare { .. } => outcome is Prepared,
        Decision::RetainDispatch { .. } => outcome is Stored,
        Decision::Dispatch { .. } => outcome is Dispatched,
        Decision::MarkNoReady => outcome is Stored,
        Decision::Admit { .. } => outcome is Admitted,
        Decision::RetainRead { .. } => outcome is Stored,
        // A read ends with its bytes or is denied.
        Decision::Execute { .. } => outcome matches OutcomeView::Executed(r) && !(r matches Ok(
            EffectOutcome::Executed { .. },
        )),
        Decision::MarkUnknown { .. } => outcome is Stored,
        Decision::Evidence { .. } => outcome is Stored,
        Decision::RetainTerminal { .. } => outcome is Stored,
        Decision::Complete => outcome is Stored,
        Decision::Conclude(_) => false,
        Decision::Fail(_) => false,
    }
}

pub open spec fn store_fault(e: StoreError<Seq<char>>) -> DecisionView {
    Decision::Fail(ControllerError::Store(e))
}

/// The verdict on the scoped read: the mode is the one that asks a person
/// about everything but reads in scope.
pub open spec fn scoped_verdict(
    policy: Policy,
    ctx: StepView,
    facts: executor::FactsView,
    resolved: Result<paths::IdentityView, PolicyError<Seq<char>>>,
) -> Result<ModeDecision, ExecutorError<Seq<char>>> {
    match executor::context_of(
        PermissionMode::Manual,
        EffectClass::Read,
        ctx.scoped_file,
        facts,
    ) {
        Err(e) => Err(e),
        Ok(c) => Ok(
            run::ruling(
                policy,
                ctx.scoped_file,
                EffectClass::Read,
                c,
                resolved,
            ),
        ),
    }
}

/// The next step. Nothing reaches the broker or the worker before the task
/// is live, no attempt of it is open, the grant admits reads, the verdict on
/// the scoped read is a clear allow, and the task is not cancelled.
pub open spec fn decision_next(
    policy: Policy,
    ctx: StepView,
    at: DecisionView,
    outcome: OutcomeView,
) -> DecisionView {
    match (at, outcome) {
        (Decision::Start, OutcomeView::Snapshot(r)) => match r {
            Err(e) => store_fault(e),
            Ok(terminal) => if terminal {
                Decision::Conclude(Conclusion::NoAction)
            } else {
                Decision::AskUnresolved
            },
        },
        (Decision::AskUnresolved, OutcomeView::Unresolved(r)) => match r {
            Err(e) => store_fault(e),
            Ok(Some(attempt_id)) => Decision::Conclude(Conclusion::OutcomeUnknown { attempt_id }),
            Ok(None) => match policy::admission(
                policy.grants@,
                ctx.grant_id,
                EffectClass::Read,
            ) {
                Err(e) => Decision::Fail(ControllerError::Policy(e)),
                Ok(_) => Decision::Consult,
            },
        },
        (Decision::Consult, OutcomeView::Facts { facts, resolved }) => match scoped_verdict(
            policy,
            ctx,
            facts,
            resolved,
        ) {
            Err(e) => Decision::Fail(ControllerError::Executor(e)),
            Ok(verdict) => if verdict == ModeDecision::Allow {
                Decision::AskCancelled
            } else {
                Decision::Conclude(
                    Conclusion::EffectDenied { reason: executor::refusal_reason(verdict) },
                )
            },
        },
        (Decision::AskCancelled, OutcomeView::Cancelled(r)) => match r {
            Err(e) => store_fault(e),
            Ok(cancelled) => if cancelled {
                Decision::Conclude(Conclusion::EffectDenied { reason: TASK_CANCELLED@ })
            } else {
                Decision::Materialize
            },
        },
        (Decision::Materialize, OutcomeView::Stored(r)) => match r {
            Err(e) => store_fault(e),
            Ok(_) => if known_ready(ctx.answer) {
                Decision::Admit { path: ctx.scoped_file, dispatched: None }
            } else {
                Decision::ReadGoal
            },
        },
        (Decision::ReadGoal, OutcomeView::Goal(r)) => match r {
            Err(e) => store_fault(e),
            Ok(goal) => Decision::Prepare {
                inputs: inputs_of(goal, ctx.answer, ctx.scoped_file),
            },
        },
        (Decision::Prepare { .. }, OutcomeView::Prepared(r)) => match r {
            Err(e) => Decision::Fail(ControllerError::Model(e)),
            Ok(attempt_id) => Decision::RetainDispatch { attempt_id, cause: DISPATCH_CAUSE@ },
        },
        (Decision::RetainDispatch { attempt_id, .. }, OutcomeView::Stored(r)) => match r {
            Err(e) => store_fault(e),
            Ok(_) => Decision::Dispatch { attempt_id },
        },
        (Decision::Dispatch { attempt_id }, OutcomeView::Dispatched(r)) => match r {
            Err(e) => Decision::Fail(ControllerError::Model(e)),
            Ok(calls) => match read_path(calls) {
                None => Decision::MarkNoReady,
                Some(path) => Decision::Admit {
                    path: helper::joined(ctx.scope_root, path),
                    dispatched: Some(attempt_id),
                },
            },
        },
        (Decision::MarkNoReady, OutcomeView::Stored(r)) => match r {
            Err(e) => store_fault(e),
            Ok(_) => Decision::Conclude(Conclusion::Waiting),
        },
        (Decision::Admit { dispatched, .. }, OutcomeView::Admitted(r)) => match r {
            Err(e) => Decision::Fail(ControllerError::Executor(e)),
            Ok(attempt_id) => if known_ready(ctx.answer) {
                Decision::RetainRead { attempt_id, cause: READ_CAUSE@ }
            } else {
                Decision::Execute { attempt_id, dispatched }
            },
        },
        (Decision::RetainRead { attempt_id, .. }, OutcomeView::Stored(r)) => match r {
            Err(e) => store_fault(e),
            Ok(_) => Decision::Execute { attempt_id, dispatched: None },
        },
        (Decision::Execute { attempt_id, dispatched }, OutcomeView::Executed(r)) => match r {
            Err(e) => Decision::Fail(ControllerError::Executor(e)),
            Ok(effect) => if ctx.crash_after_dispatch {
                Decision::MarkUnknown { attempt_id }
            } else {
                match effect {
                    EffectOutcome::Read { bytes, digest } => Decision::Evidence {
                        observation: observation_of(bytes, ctx.scoped_file, digest),
                        digest,
                        attempt_id: match dispatched {
                            Some(d) => d,
                            None => attempt_id,
                        },
                    },
                    EffectOutcome::Denied { reason } => Decision::Conclude(
                        Conclusion::EffectDenied { reason },
                    ),
                    EffectOutcome::Executed { .. } => at,
                }
            },
        },
        (Decision::MarkUnknown { attempt_id }, OutcomeView::Stored(r)) => match r {
            Err(e) => store_fault(e),
            Ok(_) => Decision::Conclude(Conclusion::OutcomeUnknown { attempt_id }),
        },
        (Decision::Evidence { observation, attempt_id, .. }, OutcomeView::Stored(r)) => match r {
            Err(e) => store_fault(e),
            Ok(_) => Decision::RetainTerminal { attempt_id, cause: observation },
        },
        (Decision::RetainTerminal { .. }, OutcomeView::Stored(r)) => match r {
            Err(e) => store_fault(e),
            Ok(_) => Decision::Complete,
        },
        (Decision::Complete, OutcomeView::Stored(r)) => match r {
            Err(e) => store_fault(e),
            Ok(_) => Decision::Conclude(Conclusion::Completed),
        },
        _ => at,
    }
}

fn store_failed(e: StoreError) -> (r: Decision)
    ensures
        r@ == store_fault(e@),
{
    Decision::Fail(ControllerError::Store(e))
}

fn consult_step(
    policy: &Policy,
    ctx: &StepContext,
    facts: ContextFacts,
    resolved: PathOutcome,
) -> (r: Decision)
    ensures
        r@ == decision_next(
            *policy,
            ctx@,
            Decision::Consult,
            OutcomeView::Facts {
                facts: facts@,
                resolved: policy::path_outcome(resolved),
            },
        ),
{
    let file: &str = ctx.scoped_file.as_str();
    let context: AdmissionContext = match admission_context(
        PermissionMode::Manual,
        EffectClass::Read,
        file,
        facts,
    ) {
        Ok(c) => c,
        Err(e) => {
            return Decision::Fail(ControllerError::Executor(e));
        },
    };
    match policy.decide(file, EffectClass::Read, &context, resolved) {
        ModeDecision::Allow => Decision::AskCancelled,
        refused => Decision::Conclude(
            Conclusion::EffectDenied { reason: owned(mode_reason(refused)) },
        ),
    }
}

fn executed_step(
    ctx: &StepContext,
    attempt_id: String,
    dispatched: Option<String>,
    effect: EffectOutcome,
) -> (r: Decision)
    ensures
        forall|policy: Policy|
            r@ == #[trigger] decision_next(
                policy,
                ctx@,
                Decision::Execute {
                    attempt_id: attempt_id@,
                    dispatched: text::opt_text(dispatched),
                },
                OutcomeView::Executed(Ok(executor::effect_view(effect))),
            ),
{
    if ctx.crash_after_dispatch {
        return Decision::MarkUnknown { attempt_id };
    }
    match effect {
        EffectOutcome::Read { bytes, digest } => {
            let count: String = decimal_text(bytes.len() as u64);
            let head: String = text4("read ", count.as_str(), " bytes from ", ctx.scoped_file.as_str());
            let observation: String = text3(head.as_str(), "; sha256=", digest.as_str());
            Decision::Evidence {
                observation,
                digest,
                attempt_id: match dispatched {
                    Some(d) => d,
                    None => attempt_id,
                },
            }
        },
        EffectOutcome::Denied { reason } => Decision::Conclude(
            Conclusion::EffectDenied { reason },
        ),
        EffectOutcome::Executed { .. } => Decision::Execute { attempt_id, dispatched },
    }
}

fn stored_step(ctx: &StepContext, at: Decision) -> (r: Decision)
    ensures
        forall|policy: Policy|
            fits(at@, OutcomeView::Stored(Ok(()))) ==> r@ == #[trigger] decision_next(
                policy,
                ctx@,
                at@,
                OutcomeView::Stored(Ok(())),
            ),
{
    match at {
        Decision::Materialize => if is_known_ready(&ctx.answer) {
            Decision::Admit { path: ctx.scoped_file.clone(), dispatched: None }
        } else {
            Decision::ReadGoal
        },
        Decision::RetainDispatch { attempt_id, cause: _ } => Decision::Dispatch { attempt_id },
        Decision::MarkNoReady => Decision::Conclude(Conclusion::Waiting),
        Decision::RetainRead { attempt_id, cause: _ } => Decision::Execute {
            attempt_id,
            dispatched: None,
        },
        Decision::MarkUnknown { attempt_id } => Decision::Conclude(
            Conclusion::OutcomeUnknown { attempt_id },
        ),
        Decision::Evidence { observation, digest: _, attempt_id } => Decision::RetainTerminal {
            attempt_id,
            cause: observation,
        },
        Decision::RetainTerminal { .. } => Decision::Complete,
        Decision::Complete => Decision::Conclude(Conclusion::Completed),
        other => other,
    }
}

/// Executable [`decision_next`]: the next step of a decision, from the
/// outcome of the last one.
fn decision_step(
    policy: &Policy,
    ctx: &StepContext,
    at: Decision,
    outcome: Outcome,
) -> (r: Decision)
    requires
        fits(at@, outcome@),
    ensures
        r@ == decision_next(*policy, ctx@, at@, outcome@),
{
    match (at, outcome) {
        (Decision::Start, Outcome::Snapshot(r)) => match r {
            Err(e) => store_failed(e),
            Ok(terminal) => if terminal {
                Decision::Conclude(Conclusion::NoAction)
            } else {
                Decision::AskUnresolved
            },
        },
        (Decision::AskUnresolved, Outcome::Unresolved(r)) => match r {
            Err(e) => store_failed(e),
            Ok(Some(attempt_id)) => Decision::Conclude(Conclusion::OutcomeUnknown { attempt_id }),
            Ok(None) => match policy.admit_class(ctx.grant_id.as_str(), EffectClass::Read) {
                Err(e) => Decision::Fail(ControllerError::Policy(e)),
                Ok(_) => Decision::Consult,
            },
        },
        (Decision::Consult, Outcome::Facts { facts, resolved }) => consult_step(
            policy,
            ctx,
            facts,
            resolved,
        ),
        (Decision::AskCancelled, Outcome::Cancelled(r)) => match r {
            Err(e) => store_failed(e),
            Ok(cancelled) => if cancelled {
                Decision::Conclude(Conclusion::EffectDenied { reason: owned(TASK_CANCELLED) })
            } else {
                Decision::Materialize
            },
        },
        (Decision::ReadGoal, Outcome::Goal(r)) => match r {
            Err(e) => store_failed(e),
            Ok(goal) => Decision::Prepare {
                inputs: decision_inputs(&goal, &ctx.answer, ctx.scoped_file.as_str()),
            },
        },
        (Decision::Prepare { .. }, Outcome::Prepared(r)) => match r {
            Err(e) => Decision::Fail(ControllerError::Model(e)),
            Ok(attempt_id) => Decision::RetainDispatch {
                attempt_id,
                cause: owned(DISPATCH_CAUSE),
            },
        },
        (Decision::Dispatch { attempt_id }, Outcome::Dispatched(r)) => match r {
            Err(e) => Decision::Fail(ControllerError::Model(e)),
            Ok(calls) => match find_read(&calls) {
                None => Decision::MarkNoReady,
                Some(path) => Decision::Admit {
                    path: join_path(ctx.scope_root.as_str(), path.as_str()),
                    dispatched: Some(attempt_id),
                },
            },
        },
        (Decision::Admit { path: _, dispatched }, Outcome::Admitted(r)) => match r {
            Err(e) => Decision::Fail(ControllerError::Executor(e)),
            Ok(attempt_id) => if is_known_ready(&ctx.answer) {
                Decision::RetainRead { attempt_id, cause: owned(READ_CAUSE) }
            } else {
                Decision::Execute { attempt_id, dispatched }
            },
        },
        (Decision::Execute { attempt_id, dispatched }, Outcome::Executed(r)) => match r {
            Err(e) => Decision::Fail(ControllerError::Executor(e)),
            Ok(effect) => executed_step(ctx, attempt_id, dispatched, effect),
        },
        (at, Outcome::Stored(r)) => match r {
            Err(e) => store_failed(e),
            Ok(_) => stored_step(ctx, at),
        },
        (other, _) => other,
    }
}

/// The subject of the evidence for a task.
pub fn evidence_subject(task_id: &str) -> (r: String)
    ensures
        r@ == "task:"@ + task_id@,
{
    text2("task:", task_id)
}

// ----- reconciliation --------------------------------------------------------

pub open spec fn is_lower_hex(c: char) -> bool {
    ('0' <= c && c <= '9') || ('a' <= c && c <= 'f')
}

fn lower_hex(c: char) -> (r: bool)
    ensures
        r == is_lower_hex(c),
{
    (c >= '0' && c <= '9') || (c >= 'a' && c <= 'f')
}

/// How many lower-case hexadecimal digits a text begins with.
pub open spec fn hex_run(s: Seq<char>) -> int
    decreases s.len(),
{
    if s.len() == 0 || !is_lower_hex(s[0]) {
        0
    } else {
        1 + hex_run(s.skip(1))
    }
}

/// The digest that a detail proves: 64 lower-case hexadecimal digits behind
/// the marker of a performed read.
pub open spec fn performed_digest(detail: Seq<char>) -> Option<Seq<char>> {
    match scan::stripped(detail, "read-performed sha256="@) {
        None => None,
        Some(rest) => if hex_run(rest) == 64 {
            Some(rest.take(64))
        } else {
            None
        },
    }
}

/// Executable [`performed_digest`].
pub fn read_performed_digest(detail: &str) -> (r: Option<String>)
    ensures
        text::opt_text(r) == performed_digest(detail@),
{
    let rest: String = match strip_prefix(detail, "read-performed sha256=") {
        Some(t) => t,
        None => {
            return None;
        },
    };
    let chars: Vec<char> = chars_of(rest.as_str());
    let mut i: usize = 0;
    assert(chars@.skip(0) =~= chars@);
    while i < chars.len() && lower_hex(chars[i])
        invariant
            i <= chars.len(),
            hex_run(chars@) == i + hex_run(chars@.skip(i as int)),
        decreases chars.len() - i,
    {
        assert(chars@.skip(i as int)[0] == chars@[i as int]);
        assert(chars@.skip(i as int).skip(1) =~= chars@.skip(i as int + 1));
        i = i + 1;
    }
    proof {
        if i < chars.len() {
            assert(chars@.skip(i as int)[0] == chars@[i as int]);
        }
    }
    if i == 64 {
        let digest: String = text_of(&chars, 0, 64);
        assert(digest@ =~= chars@.take(64));
        Some(digest)
    } else {
        None
    }
}

/// One attempt of the ledger.
#[derive(Debug)]
pub struct AttemptRow {
    pub owner_task: String,
    pub state: String,
    pub detail: Option<String>,
}

/// What is recorded for an unknown attempt that was performed.
#[derive(Debug)]
pub struct Reconciliation {
    pub marker: String,
    /// The cause of the retained record.
    pub cause: String,
    /// The detail that the attempt is confirmed with.
    pub detail: String,
    /// The observation of every piece of evidence.
    pub evidence: String,
}

/// Whether an unknown attempt can be reconciled: it belongs to the task, is
/// unknown, and its detail proves the read.
pub open spec fn reconciling(
    attempt_id: Seq<char>,
    task_id: Seq<char>,
    row: Option<AttemptRow>,
) -> Result<Seq<char>, StoreError<Seq<char>>> {
    match row {
        None => Err(StoreError::NotFound("attempt "@ + attempt_id)),
        Some(a) => if a.owner_task@ != task_id {
            Err(
                StoreError::InvalidInput(
                    InvalidCause::AttemptTaskMismatch {
                        attempt_id,
                        owner_task: a.owner_task@,
                        expected: task_id,
                    },
                ),
            )
        } else if a.state@ != "unknown"@ {
            Err(
                StoreError::Conflict(
                    ConflictCause::AttemptNotReconcileable { attempt_id, state: a.state@ },
                ),
            )
        } else {
            match a.detail {
                Some(detail) => match performed_digest(detail@) {
                    Some(marker) => Ok(marker),
                    None => Err(
                        StoreError::InvalidInput(InvalidCause::MissingReadMarker { attempt_id }),
                    ),
                },
                None => Err(
                    StoreError::InvalidInput(InvalidCause::MissingReadMarker { attempt_id }),
                ),
            }
        },
    }
}

// ----- scheduling ------------------------------------------------------------

/// How a node leaves its slot.
#[derive(Debug, Clone, Copy, PartialEq, Eq, Structural)]
pub enum NodeRelease {
    Complete,
    Settle,
}

/// Every outcome releases the node: a completed step completes it, everything
/// else settles it, a failed step too.
pub fn node_release(completed: &Result<Conclusion, ControllerError>) -> (r: NodeRelease)
    ensures
        r == (if completed matches Ok(Conclusion::Completed) {
            NodeRelease::Complete
        } else {
            NodeRelease::Settle
        }),
{
    match completed {
        Ok(Conclusion::Completed) => NodeRelease::Complete,
        _ => NodeRelease::Settle,
    }
}

/// What a scheduler pass does next.
#[derive(Debug)]
pub enum PassStep {
    /// Admit the next ready node.
    AdmitNext,
    /// Let an admitted node wait for its children, where it has any.
    BeginWait { node: u64 },
    /// Run one decision step of the node.
    Run { node: u64 },
    /// The tree has nothing to run.
    Idle,
}

/// The next step of a scheduler pass.
pub open spec fn pass_next(at: PassStep, admitted: Option<u64>, waits: bool) -> PassStep {
    match at {
        PassStep::AdmitNext => match admitted {
            Some(node) => PassStep::BeginWait { node },
            None => PassStep::Idle,
        },
        PassStep::BeginWait { node } => if waits {
            PassStep::AdmitNext
        } else {
            PassStep::Run { node }
        },
        PassStep::Run { node } => PassStep::Run { node },
        PassStep::Idle => PassStep::Idle,
    }
}

// ----- the runtime -----------------------------------------------------------

/// What a decision step is about, for a runtime.
pub open spec fn context_for<P>(
    rt: Runtime<P>,
    answer: AnswerSelection<Seq<char>>,
    grant_id: Seq<char>,
    crash_after_dispatch: bool,
) -> StepView {
    StepView {
        answer,
        grant_id,
        scope_root: rt.scope_root@,
        scoped_file: rt.scoped_file@,
        crash_after_dispatch,
    }
}

/// The configuration in force: the user's, or an empty one.
pub open spec fn config_of<P>(rt: Runtime<P>) -> Validated {
    match rt.effective.parsed {
        Some(c) => c.typed(),
        None => settings::unread(),
    }
}

/// A reply of the provider arrived: the call counts.
pub open spec fn counts(outcome: OutcomeView) -> bool {
    outcome matches OutcomeView::Dispatched(Ok(_))
}

impl<P: Provider> Runtime<P> {
    /// The next step of a decision for a task whose question is answered,
    /// from the outcome of the last step: the broker dispatches once, the
    /// only permitted action is a scoped read, and evidence and completion
    /// close the loop.
    pub fn run_decision_step(
        &mut self,
        answer: &AnswerSelection,
        grant_id: &str,
        crash_after_dispatch: bool,
        at: Decision,
        outcome: Outcome,
    ) -> (r: Decision)
        requires
            fits(at@, outcome@),
            counts(outcome@) ==> old(self).provider_calls < u64::MAX,
        ensures
            r@ == decision_next(
                old(self).policy,
                context_for(*old(self), answer@, grant_id@, crash_after_dispatch),
                at@,
                outcome@,
            ),
            *final(self) == (Runtime {
                provider_calls: if counts(outcome@) {
                    (old(self).provider_calls + 1) as u64
                } else {
                    old(self).provider_calls
                },
                ..*old(self)
            }),
    {
        let ctx: StepContext = StepContext {
            answer: answer.clone(),
            grant_id: owned(grant_id),
            scope_root: self.scope_root.clone(),
            scoped_file: self.scoped_file.clone(),
            crash_after_dispatch,
        };
        let replied: bool = matches!(&outcome, Outcome::Dispatched(Ok(_)));
        if replied {
            self.provider_calls = self.provider_calls + 1;
        }
        decision_step(&self.policy, &ctx, at, outcome)
    }

    /// Lets the broker freeze the request of a decision: for the purpose of the
    /// runtime, under the configuration in force.
    pub fn prepare_request(&mut self, world: &str, inputs: &str) -> (r: Result<
        RequestManifest,
        ModelError,
    >)
        ensures
            final(self).broker.provider == old(self).broker.provider,
            exists|id: Seq<char>|
                contracts::is_uuid_v4(id) && (
                    final(self).broker.state(),
                    broker::manifest_outcome(r),
                ) == #[trigger] broker::prepared(
                    old(self).broker.state(),
                    config_of(*old(self)).connections,
                    config_of(*old(self)).models,
                    old(self).purpose@,
                    world@,
                    inputs@,
                    id,
                ),
            *final(self) == (Runtime { broker: final(self).broker, ..*old(self) }),
    {
        let config: Config = self.config_for_broker();
        let purpose: String = self.purpose.clone();
        assert(config.typed() == config_of(*self));
        let ghost typed = config_of(*self);
        let r: Result<RequestManifest, ModelError> = self.broker.prepare(
            purpose.as_str(),
            &config,
            world,
            inputs,
        );
        proof {
            assert(typed.connections == config::connections_of(config.connections));
            assert(typed.models == config.models@);
        }
        r
    }

    /// Lets the broker dispatch the request of a decision.
    pub fn dispatch_request(&mut self, world: &str, manifest: &RequestManifest) -> (r: Result<
        ProviderReply,
        ModelError,
    >)
        ensures
            broker::dispatch_ends(
                old(self).broker.provider,
                final(self).broker.provider,
                old(self).broker.state(),
                world@,
                manifest@,
                broker::reply_outcome(r),
                final(self).broker.state(),
            ),
            *final(self) == (Runtime { broker: final(self).broker, ..*old(self) }),
    {
        self.broker.dispatch(world, manifest)
    }

    /// Executable [`reconciling`], with what is recorded: the digest of the
    /// marker drives all of it.
    pub fn reconcile_unknown(
        &self,
        attempt_id: &str,
        task_id: &str,
        row: Result<Option<AttemptRow>, StoreError>,
    ) -> (r: Result<Reconciliation, StoreError>)
        ensures
            match row {
                Err(e) => r matches Err(x) && x@ == e@,
                Ok(a) => match reconciling(attempt_id@, task_id@, a) {
                    Err(e) => r matches Err(x) && x@ == e,
                    Ok(marker) => r matches Ok(p) && p.marker@ == marker && p.cause@ == "attempt "@
                        + attempt_id@ + " reconciled as executed from sha256="@ + marker && p.detail@
                        == "read-performed sha256="@ + marker && p.evidence@ == "reconciled attempt "@
                        + attempt_id@ + " from sha256="@ + marker,
                },
            },
    {
        let found: AttemptRow = match row {
            Err(e) => {
                return Err(e);
            },
            Ok(None) => {
                return Err(StoreError::NotFound(text2("attempt ", attempt_id)));
            },
            Ok(Some(a)) => a,
        };
        if !same(found.owner_task.as_str(), task_id) {
            return Err(
                StoreError::InvalidInput(
                    InvalidCause::AttemptTaskMismatch {
                        attempt_id: owned(attempt_id),
                        owner_task: found.owner_task,
                        expected: owned(task_id),
                    },
                ),
            );
        }
        if !same(found.state.as_str(), "unknown") {
            return Err(
                StoreError::Conflict(
                    ConflictCause::AttemptNotReconcileable {
                        attempt_id: owned(attempt_id),
                        state: found.state,
                    },
                ),
            );
        }
        let marker: Option<String> = match &found.detail {
            Some(detail) => read_performed_digest(detail.as_str()),
            None => None,
        };
        match marker {
            None => Err(
                StoreError::InvalidInput(
                    InvalidCause::MissingReadMarker { attempt_id: owned(attempt_id) },
                ),
            ),
            Some(m) => {
                let cause: String = text4(
                    "attempt ",
                    attempt_id,
                    " reconciled as executed from sha256=",
                    m.as_str(),
                );
                let detail: String = text2("read-performed sha256=", m.as_str());
                let evidence: String = text4(
                    "reconciled attempt ",
                    attempt_id,
                    " from sha256=",
                    m.as_str(),
                );
                Ok(Reconciliation { marker: m, cause, detail, evidence })
            },
        }
    }

    /// The next step of a scheduler pass: a node that waits for children gave
    /// its slot back, and the next ready one is admitted in the same pass.
    pub fn scheduler_step(&self, at: PassStep, admitted: Option<u64>, waits: bool) -> (r: PassStep)
        ensures
            r == pass_next(at, admitted, waits),
    {
        match at {
            PassStep::AdmitNext => match admitted {
                Some(node) => PassStep::BeginWait { node },
                None => PassStep::Idle,
            },
            PassStep::BeginWait { node } => if waits {
                PassStep::AdmitNext
            } else {
                PassStep::Run { node }
            },
            PassStep::Run { node } => PassStep::Run { node },
            PassStep::Idle => PassStep::Idle,
        }
    }
}

// ----- laws ------------------------------------------------------------------

/// Where a decision stands after some outcomes.
pub open spec fn decided_after(
    policy: Policy,
    ctx: StepView,
    given: Seq<OutcomeView>,
) -> DecisionView
    decreases given.len(),
{
    if given.len() == 0 {
        Decision::Start
    } else {
        decision_next(policy, ctx, decided_after(policy, ctx, given.drop_last()), given.last())
    }
}

/// Every outcome belongs to the step that was asked for.
pub open spec fn decided_proper(
    policy: Policy,
    ctx: StepView,
    given: Seq<OutcomeView>,
) -> bool
    decreases given.len(),
{
    given.len() > 0 ==> decided_proper(policy, ctx, given.drop_last()) && fits(
        decided_after(policy, ctx, given.drop_last()),
        given.last(),
    )
}

/// The outcomes passed every gate in front of the broker and the worker.
pub open spec fn cleared(policy: Policy, ctx: StepView, given: Seq<OutcomeView>, n: int) -> bool {
    &&& given.len() >= n
    &&& n > 0 ==> (given[0] matches OutcomeView::Snapshot(Ok(terminal)) && !terminal)
    &&& n > 1 ==> (given[1] matches OutcomeView::Unresolved(Ok(None))) && policy::admission(
        policy.grants@,
        ctx.grant_id,
        EffectClass::Read,
    ) is Ok
    &&& n > 2 ==> (given[2] matches OutcomeView::Facts { facts, resolved } && scoped_verdict(
        policy,
        ctx,
        facts,
        resolved,
    ) == Ok::<ModeDecision, ExecutorError<Seq<char>>>(ModeDecision::Allow))
    &&& n > 3 ==> (given[3] matches OutcomeView::Cancelled(Ok(cancelled)) && !cancelled)
}

/// A step that comes after the gates.
pub open spec fn past_gates(at: DecisionView) -> bool {
    match at {
        Decision::Start => false,
        Decision::AskUnresolved => false,
        Decision::Consult => false,
        Decision::AskCancelled => false,
        Decision::Conclude(_) => false,
        Decision::Fail(_) => false,
        _ => true,
    }
}

proof fn lemma_decision_steps(policy: Policy, ctx: StepView, given: Seq<OutcomeView>)
    requires
        decided_proper(policy, ctx, given),
    ensures
        match decided_after(policy, ctx, given) {
            Decision::Start => given.len() == 0,
            Decision::AskUnresolved => given.len() == 1 && cleared(policy, ctx, given, 1),
            Decision::Consult => given.len() == 2 && cleared(policy, ctx, given, 2),
            Decision::AskCancelled => given.len() == 3 && cleared(policy, ctx, given, 3),
            at => past_gates(at) ==> given.len() >= 4 && cleared(policy, ctx, given, 4),
        },
    decreases given.len(),
{
    if given.len() > 0 {
        let before = given.drop_last();
        lemma_decision_steps(policy, ctx, before);
        assert(forall|i: int| 0 <= i < before.len() ==> before[i] == given[i]);
        assert(given.last() == given[given.len() - 1]);
    }
}

/// Nothing reaches the broker, the worker or the evidence of a task unless
/// the task was live, had no open attempt, the grant admitted reads, the
/// verdict on the scoped read was a clear allow, and the task was not
/// cancelled.
pub proof fn law_decision_passes_every_gate(
    policy: Policy,
    ctx: StepView,
    given: Seq<OutcomeView>,
)
    requires
        decided_proper(policy, ctx, given),
        past_gates(decided_after(policy, ctx, given)),
    ensures
        cleared(policy, ctx, given, 4),
{
    lemma_decision_steps(policy, ctx, given);
}

/// A task with an open attempt never repeats it: the step ends as unknown
/// before any effect.
pub proof fn law_open_attempt_is_not_repeated(
    policy: Policy,
    ctx: StepView,
    attempt_id: Seq<char>,
)
    ensures
        decision_next(
            policy,
            ctx,
            Decision::AskUnresolved,
            OutcomeView::Unresolved(Ok(Some(attempt_id))),
        ) == DecisionView::Conclude(Conclusion::OutcomeUnknown { attempt_id }),
{
}

/// What the executor records of a performed read is what reconciliation
/// reads back: a confirmed detail, and one whose receipt was lost, both prove
/// the digest. The digest of some bytes is 32 bytes long, in hexadecimal
/// notation.
pub proof fn law_performed_read_reads_back(
    bytes: Seq<u8>,
    sum: Seq<u8>,
    share: bool,
    receipt_lost: bool,
)
    requires
        sum.len() == 32,
    ensures
        run::observed(
            (bytes, digest::hex_text(sum)),
            share,
            receipt_lost,
        ) matches run::Progress::Record(closing) && (
        closing.detail matches Some(detail) && performed_digest(detail) == Some(
            digest::hex_text(sum),
        )),
{
    let digest = digest::hex_text(sum);
    let head = "read-performed sha256="@;
    let tail = "; receipt lost after dispatch"@;
    reveal_strlit("; receipt lost after dispatch");
    lemma_hex_is_lower(sum);
    assert((head + digest).take(head.len() as int) =~= head);
    assert((head + digest).skip(head.len() as int) =~= digest);
    assert((head + digest + tail).take(head.len() as int) =~= head);
    assert((head + digest + tail).skip(head.len() as int) =~= digest + tail);
    lemma_hex_run(digest, Seq::empty());
    assert(digest + Seq::<char>::empty() =~= digest);
    lemma_hex_run(digest, tail);
    assert(digest.take(64) =~= digest);
    assert((digest + tail).take(64) =~= digest);
}

proof fn lemma_hex_is_lower(sum: Seq<u8>)
    ensures
        digest::hex_text(sum).len() == 2 * sum.len(),
        forall|i: int|
            0 <= i < digest::hex_text(sum).len() ==> is_lower_hex(
                #[trigger] digest::hex_text(sum)[i],
            ),
    decreases sum.len(),
{
    if sum.len() > 0 {
        lemma_hex_is_lower(sum.drop_last());
        assert(sum.last() / 16 < 16);
        let a = digest::hex_digit(sum.last() / 16);
        let b = digest::hex_digit(sum.last() % 16);
        assert(is_lower_hex(a) && is_lower_hex(b));
    }
}

proof fn lemma_hex_run(digits: Seq<char>, tail: Seq<char>)
    requires
        forall|i: int| 0 <= i < digits.len() ==> is_lower_hex(#[trigger] digits[i]),
        tail.len() > 0 ==> !is_lower_hex(tail[0]),
    ensures
        hex_run(digits + tail) == digits.len(),
    decreases digits.len(),
{
    let all = digits + tail;
    if digits.len() == 0 {
        assert(all =~= tail);
    } else {
        assert(all[0] == digits[0]);
        assert(all.skip(1) =~= digits.skip(1) + tail);
        assert forall|i: int| 0 <= i < digits.skip(1).len() implies is_lower_hex(
            #[trigger] digits.skip(1)[i],
        ) by {
            assert(digits.skip(1)[i] == digits[i + 1]);
        }
        lemma_hex_run(digits.skip(1), tail);
    }
}

} // verus!
