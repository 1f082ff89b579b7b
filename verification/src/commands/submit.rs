//! A submitted task command, step by step: the store writes first, the
//! scheduler follows only what is stored.

use crate::commands::methods::{Call, CallView};
use crate::commands::{self, envelope_error, store_error};
use crate::contracts::{self, AnswerSelection, ErrorCode, RpcResponse};
use crate::json::{self, Json};
use crate::state::StoreError;
use crate::text::{self, copy_names, copy_opt, owned};
use vstd::prelude::*;

verus! {

/// How a submitted command ends. `T` is text, `J` a JSON value.
#[derive(Debug)]
pub enum Submitted<T = String, J = Json> {
    /// The store took it: its result.
    Done(J),
    /// The store refused it.
    Refused(StoreError<T>),
    /// The store took it, and the scheduler failed.
    Unscheduled { code: ErrorCode, message: T },
}

/// What a submitted command does next. `L` is a list of texts.
#[derive(Debug)]
pub enum SubmitStep<T = String, L = Vec<String>, J = Json> {
    Start,
    /// Read the snapshot of the parent task.
    ReadParent { parent: T },
    /// Write the row of the new task.
    CreateRow {
        session: T,
        command_id: T,
        principal: T,
        goal: T,
        criteria: L,
        constraints: L,
    },
    /// Link the stored child under its parent in the scheduler's tree.
    Adopt { child: T, parent: T, result: J },
    /// Read the snapshot of the task that is answered.
    ReadIntent { task: T },
    /// Store the answer of a person.
    StoreAnswer {
        session: T,
        task: T,
        question: T,
        question_revision: u64,
        selection: AnswerSelection<T>,
        answered_by: T,
    },
    /// Build the runnable node of the answered task.
    SubmitNode { task: T, selection: AnswerSelection<T>, grant: T, result: J },
    /// Run the scheduler until it is idle.
    Drain { session: T, result: J },
    StoreSteer {
        session: T,
        task: T,
        expected_intent: u64,
        expected_task: u64,
        instruction: T,
    },
    StoreCancel { session: T, task: T, expected_intent: u64, reason: Option<T> },
    /// Cancel what is left of the task's tree in the scheduler.
    CancelTree { task: T, result: J },
    End(Submitted<T, J>),
}

/// The outcome of a step.
#[derive(Debug)]
pub enum SubmitEvent<T = String, J = Json> {
    Go,
    /// The intent revision of a snapshot.
    Snapshot(Result<u64, StoreError<T>>),
    /// The id of the new task and the result of its creation.
    Created(Result<(T, J), StoreError<T>>),
    Stored(Result<J, StoreError<T>>),
    Adopted,
    /// Whether there is a runnable node: a settled tree grows none.
    Submitted(Result<bool, (ErrorCode, T)>),
    Scheduled(Result<(), (ErrorCode, T)>),
}

/// A step over mathematical values.
pub type StepView = SubmitStep<Seq<char>, Seq<Seq<char>>, json::JsonView>;

/// An outcome over mathematical values.
pub type EventView = SubmitEvent<Seq<char>, json::JsonView>;

pub open spec fn end_view(s: Submitted) -> Submitted<Seq<char>, json::JsonView> {
    match s {
        Submitted::Done(j) => Submitted::Done(j@),
        Submitted::Refused(e) => Submitted::Refused(e@),
        Submitted::Unscheduled { code, message } => Submitted::Unscheduled {
            code,
            message: message@,
        },
    }
}

impl View for SubmitStep {
    type V = StepView;

    open spec fn view(&self) -> StepView {
        match self {
            SubmitStep::Start => SubmitStep::Start,
            SubmitStep::ReadParent { parent } => SubmitStep::ReadParent { parent: parent@ },
            SubmitStep::CreateRow {
                session,
                command_id,
                principal,
                goal,
                criteria,
                constraints,
            } => SubmitStep::CreateRow {
                session: session@,
                command_id: command_id@,
                principal: principal@,
                goal: goal@,
                criteria: text::texts(criteria@),
                constraints: text::texts(constraints@),
            },
            SubmitStep::Adopt { child, parent, result } => SubmitStep::Adopt {
                child: child@,
                parent: parent@,
                result: result@,
            },
            SubmitStep::ReadIntent { task } => SubmitStep::ReadIntent { task: task@ },
            SubmitStep::StoreAnswer {
                session,
                task,
                question,
                question_revision,
                selection,
                answered_by,
            } => SubmitStep::StoreAnswer {
                session: session@,
                task: task@,
                question: question@,
                question_revision: *question_revision,
                selection: selection@,
                answered_by: answered_by@,
            },
            SubmitStep::SubmitNode { task, selection, grant, result } => SubmitStep::SubmitNode {
                task: task@,
                selection: selection@,
                grant: grant@,
                result: result@,
            },
            SubmitStep::Drain { session, result } => SubmitStep::Drain {
                session: session@,
                result: result@,
            },
            SubmitStep::StoreSteer { session, task, expected_intent, expected_task, instruction } =>
                SubmitStep::StoreSteer {
                session: session@,
                task: task@,
                expected_intent: *expected_intent,
                expected_task: *expected_task,
                instruction: instruction@,
            },
            SubmitStep::StoreCancel { session, task, expected_intent, reason } =>
                SubmitStep::StoreCancel {
                session: session@,
                task: task@,
                expected_intent: *expected_intent,
                reason: text::opt_text(*reason),
            },
            SubmitStep::CancelTree { task, result } => SubmitStep::CancelTree {
                task: task@,
                result: result@,
            },
            SubmitStep::End(s) => SubmitStep::End(end_view(*s)),
        }
    }
}

pub open spec fn scheduled_view<V>(r: Result<V, (ErrorCode, String)>) -> Result<
    V,
    (ErrorCode, Seq<char>),
> {
    match r {
        Ok(v) => Ok(v),
        Err(e) => Err((e.0, e.1@)),
    }
}

impl View for SubmitEvent {
    type V = EventView;

    open spec fn view(&self) -> EventView {
        match self {
            SubmitEvent::Go => SubmitEvent::Go,
            SubmitEvent::Snapshot(r) => SubmitEvent::Snapshot(
                match r {
                    Ok(n) => Ok(*n),
                    Err(e) => Err(e@),
                },
            ),
            SubmitEvent::Created(r) => SubmitEvent::Created(
                match r {
                    Ok(c) => Ok((c.0@, c.1@)),
                    Err(e) => Err(e@),
                },
            ),
            SubmitEvent::Stored(r) => SubmitEvent::Stored(
                match r {
                    Ok(j) => Ok(j@),
                    Err(e) => Err(e@),
                },
            ),
            SubmitEvent::Adopted => SubmitEvent::Adopted,
            SubmitEvent::Submitted(r) => SubmitEvent::Submitted(scheduled_view(*r)),
            SubmitEvent::Scheduled(r) => SubmitEvent::Scheduled(scheduled_view(*r)),
        }
    }
}

/// The call is a submitted command.
pub open spec fn is_command(call: CallView) -> bool {
    call is Create || call is Answer || call is Steer || call is Cancel
}

/// An outcome belongs to the step that was asked for.
pub open spec fn fits(at: StepView, event: EventView) -> bool {
    match at {
        SubmitStep::Start => event is Go,
        SubmitStep::ReadParent { .. } => event is Snapshot,
        SubmitStep::CreateRow { .. } => event is Created,
        SubmitStep::Adopt { .. } => event is Adopted,
        SubmitStep::ReadIntent { .. } => event is Snapshot,
        SubmitStep::StoreAnswer { .. } => event is Stored,
        SubmitStep::SubmitNode { .. } => event is Submitted,
        SubmitStep::Drain { .. } => event is Scheduled,
        SubmitStep::StoreSteer { .. } => event is Stored,
        SubmitStep::StoreCancel { .. } => event is Stored,
        SubmitStep::CancelTree { .. } => event is Scheduled,
        SubmitStep::End(_) => false,
    }
}

/// The row that a creation writes.
pub open spec fn row_of(call: CallView) -> StepView {
    match call {
        Call::Create { session, command_id, principal, goal, criteria, constraints, parent } =>
            SubmitStep::CreateRow { session, command_id, principal, goal, criteria, constraints },
        _ => SubmitStep::Start,
    }
}

/// The first step of a command.
pub open spec fn first_step(call: CallView) -> StepView {
    match call {
        Call::Create { parent, .. } => match parent {
            Some(parent) => SubmitStep::ReadParent { parent },
            None => row_of(call),
        },
        Call::Answer { task, .. } => SubmitStep::ReadIntent { task },
        Call::Steer { session, task, expected_intent, expected_task, instruction } =>
            SubmitStep::StoreSteer { session, task, expected_intent, expected_task, instruction },
        Call::Cancel { session, task, expected_intent, reason } => SubmitStep::StoreCancel {
            session,
            task,
            expected_intent,
            reason,
        },
        _ => SubmitStep::Start,
    }
}

/// What follows the snapshot of an answered task: the answer is stored only
/// while the intent has the expected revision.
pub open spec fn after_intent(call: CallView, current: u64) -> StepView {
    match call {
        Call::Answer { session, task, expected_intent, question, question_revision, selection } =>
            if current == expected_intent {
                SubmitStep::StoreAnswer {
                    session,
                    task,
                    question,
                    question_revision,
                    selection,
                    answered_by: "human"@,
                }
            } else {
                SubmitStep::End(
                    Submitted::Refused(
                        StoreError::StaleIntent { expected: expected_intent, current },
                    ),
                )
            },
        _ => SubmitStep::Start,
    }
}

pub open spec fn refused(e: StoreError<Seq<char>>) -> StepView {
    SubmitStep::End(Submitted::Refused(e))
}

pub open spec fn unscheduled(e: (ErrorCode, Seq<char>)) -> StepView {
    SubmitStep::End(Submitted::Unscheduled { code: e.0, message: e.1 })
}

/// The next step. `grant` is the grant that an answered task runs under.
pub open spec fn submit_step(
    call: CallView,
    grant: Seq<char>,
    at: StepView,
    event: EventView,
) -> StepView {
    match (at, event) {
        (SubmitStep::Start, SubmitEvent::Go) => first_step(call),
        (SubmitStep::ReadParent { .. }, SubmitEvent::Snapshot(r)) => match r {
            Err(e) => refused(e),
            Ok(_) => row_of(call),
        },
        (SubmitStep::CreateRow { .. }, SubmitEvent::Created(r)) => match r {
            Err(e) => refused(e),
            Ok(c) => match call {
                Call::Create { parent: Some(parent), .. } => SubmitStep::Adopt {
                    child: c.0,
                    parent,
                    result: c.1,
                },
                _ => SubmitStep::End(Submitted::Done(c.1)),
            },
        },
        (SubmitStep::Adopt { result, .. }, SubmitEvent::Adopted) => SubmitStep::End(
            Submitted::Done(result),
        ),
        (SubmitStep::ReadIntent { .. }, SubmitEvent::Snapshot(r)) => match r {
            Err(e) => refused(e),
            Ok(current) => after_intent(call, current),
        },
        (SubmitStep::StoreAnswer { task, selection, .. }, SubmitEvent::Stored(r)) => match r {
            Err(e) => refused(e),
            Ok(result) => SubmitStep::SubmitNode { task, selection, grant, result },
        },
        (SubmitStep::SubmitNode { result, .. }, SubmitEvent::Submitted(r)) => match r {
            Err(e) => unscheduled(e),
            Ok(runnable) => match call {
                Call::Answer { session, .. } if runnable => SubmitStep::Drain { session, result },
                _ => SubmitStep::End(Submitted::Done(result)),
            },
        },
        (SubmitStep::Drain { result, .. }, SubmitEvent::Scheduled(r)) => match r {
            Err(e) => unscheduled(e),
            Ok(_) => SubmitStep::End(Submitted::Done(result)),
        },
        (SubmitStep::StoreSteer { .. }, SubmitEvent::Stored(r)) => match r {
            Err(e) => refused(e),
            Ok(result) => SubmitStep::End(Submitted::Done(result)),
        },
        (SubmitStep::StoreCancel { task, .. }, SubmitEvent::Stored(r)) => match r {
            Err(e) => refused(e),
            Ok(result) => SubmitStep::CancelTree { task, result },
        },
        (SubmitStep::CancelTree { result, .. }, SubmitEvent::Scheduled(r)) => match r {
            Err(e) => unscheduled(e),
            Ok(_) => SubmitStep::End(Submitted::Done(result)),
        },
        _ => at,
    }
}

fn create_row(call: &Call) -> (r: SubmitStep)
    ensures
        r@ == row_of(call@),
{
    match call {
        Call::Create { session, command_id, principal, goal, criteria, constraints, parent: _ } =>
            SubmitStep::CreateRow {
            session: session.clone(),
            command_id: command_id.clone(),
            principal: principal.clone(),
            goal: goal.clone(),
            criteria: copy_names(criteria),
            constraints: copy_names(constraints),
        },
        _ => SubmitStep::Start,
    }
}

fn begin(call: &Call) -> (r: SubmitStep)
    ensures
        r@ == first_step(call@),
{
    match call {
        Call::Create { parent, .. } => match parent {
            Some(p) => SubmitStep::ReadParent { parent: p.clone() },
            None => create_row(call),
        },
        Call::Answer { task, .. } => SubmitStep::ReadIntent { task: task.clone() },
        Call::Steer { session, task, expected_intent, expected_task, instruction } =>
            SubmitStep::StoreSteer {
            session: session.clone(),
            task: task.clone(),
            expected_intent: *expected_intent,
            expected_task: *expected_task,
            instruction: instruction.clone(),
        },
        Call::Cancel { session, task, expected_intent, reason } => SubmitStep::StoreCancel {
            session: session.clone(),
            task: task.clone(),
            expected_intent: *expected_intent,
            reason: copy_opt(reason),
        },
        _ => SubmitStep::Start,
    }
}

fn answer_step(call: &Call, current: u64) -> (r: SubmitStep)
    ensures
        r@ == after_intent(call@, current),
{
    match call {
        Call::Answer { session, task, expected_intent, question, question_revision, selection } =>
            if current == *expected_intent {
                SubmitStep::StoreAnswer {
                    session: session.clone(),
                    task: task.clone(),
                    question: question.clone(),
                    question_revision: *question_revision,
                    selection: selection.clone(),
                    answered_by: owned("human"),
                }
            } else {
                SubmitStep::End(
                    Submitted::Refused(
                        StoreError::StaleIntent { expected: *expected_intent, current },
                    ),
                )
            },
        _ => SubmitStep::Start,
    }
}

fn stopped(e: StoreError) -> (r: SubmitStep)
    ensures
        r@ == refused(e@),
{
    SubmitStep::End(Submitted::Refused(e))
}

fn scheduled_step(result: Json, outcome: Result<(), (ErrorCode, String)>) -> (r: SubmitStep)
    ensures
        r@ == (match outcome {
            Ok(_) => SubmitStep::End(Submitted::Done(result@)),
            Err(e) => unscheduled((e.0, e.1@)),
        }),
{
    match outcome {
        Ok(_) => SubmitStep::End(Submitted::Done(result)),
        Err((code, message)) => SubmitStep::End(Submitted::Unscheduled { code, message }),
    }
}

/// Executable [`submit_step`]: the next step of a submitted command, from the
/// outcome of the last one.
pub fn submit_next(call: &Call, grant: &str, at: SubmitStep, event: SubmitEvent) -> (r: SubmitStep)
    requires
        is_command(call@),
        fits(at@, event@),
    ensures
        r@ == submit_step(call@, grant@, at@, event@),
{
    match (at, event) {
        (SubmitStep::Start, SubmitEvent::Go) => begin(call),
        (SubmitStep::ReadParent { .. }, SubmitEvent::Snapshot(s)) => match s {
            Err(e) => stopped(e),
            Ok(_) => create_row(call),
        },
        (SubmitStep::CreateRow { .. }, SubmitEvent::Created(c)) => match c {
            Err(e) => stopped(e),
            Ok((child, result)) => match call {
                Call::Create { parent: Some(p), .. } => SubmitStep::Adopt {
                    child,
                    parent: p.clone(),
                    result,
                },
                _ => SubmitStep::End(Submitted::Done(result)),
            },
        },
        (SubmitStep::Adopt { child: _, parent: _, result }, SubmitEvent::Adopted) =>
            SubmitStep::End(Submitted::Done(result)),
        (SubmitStep::ReadIntent { .. }, SubmitEvent::Snapshot(s)) => match s {
            Err(e) => stopped(e),
            Ok(current) => answer_step(call, current),
        },
        (
            SubmitStep::StoreAnswer {
                session: _,
                task,
                question: _,
                question_revision: _,
                selection,
                answered_by: _,
            },
            SubmitEvent::Stored(s),
        ) => match s {
            Err(e) => stopped(e),
            Ok(result) => SubmitStep::SubmitNode { task, selection, grant: owned(grant), result },
        },
        (
            SubmitStep::SubmitNode { task: _, selection: _, grant: _, result },
            SubmitEvent::Submitted(s),
        ) => match s {
            Err((code, message)) => SubmitStep::End(Submitted::Unscheduled { code, message }),
            Ok(runnable) => match call {
                Call::Answer { session, .. } => if runnable {
                    SubmitStep::Drain { session: session.clone(), result }
                } else {
                    SubmitStep::End(Submitted::Done(result))
                },
                _ => SubmitStep::End(Submitted::Done(result)),
            },
        },
        (SubmitStep::Drain { session: _, result }, SubmitEvent::Scheduled(s)) => scheduled_step(
            result,
            s,
        ),
        (SubmitStep::StoreSteer { .. }, SubmitEvent::Stored(s)) => match s {
            Err(e) => stopped(e),
            Ok(result) => SubmitStep::End(Submitted::Done(result)),
        },
        (
            SubmitStep::StoreCancel { session: _, task, expected_intent: _, reason: _ },
            SubmitEvent::Stored(s),
        ) => match s {
            Err(e) => stopped(e),
            Ok(result) => SubmitStep::CancelTree { task, result },
        },
        (SubmitStep::CancelTree { task: _, result }, SubmitEvent::Scheduled(s)) => scheduled_step(
            result,
            s,
        ),
        (other, _) => other,
    }
}

/// The response to a submitted command that has ended.
pub fn submit_reply(id: Json, end: Submitted) -> (r: RpcResponse)
    ensures
        r@ == (match end {
            Submitted::Done(result) => contracts::succeeded(id@, result@),
            Submitted::Refused(e) => commands::store_failed(id@, e@),
            Submitted::Unscheduled { code, message } => commands::failed(
                id@,
                code,
                -32000,
                message@,
            ),
        }),
{
    match end {
        Submitted::Done(result) => RpcResponse::ok(id, result),
        Submitted::Refused(e) => store_error(id, &e),
        Submitted::Unscheduled { code, message } => envelope_error(id, code, -32000, message),
    }
}

// ----- laws ------------------------------------------------------------------

/// Where a command stands after some outcomes.
pub open spec fn submitted_after(call: CallView, grant: Seq<char>, given: Seq<EventView>) -> StepView
    decreases given.len(),
{
    if given.len() == 0 {
        SubmitStep::Start
    } else {
        submit_step(
            call,
            grant,
            submitted_after(call, grant, given.drop_last()),
            given.last(),
        )
    }
}

/// Every outcome belongs to the step that was asked for.
pub open spec fn proper(call: CallView, grant: Seq<char>, given: Seq<EventView>) -> bool
    decreases given.len(),
{
    given.len() > 0 ==> proper(call, grant, given.drop_last()) && fits(
        submitted_after(call, grant, given.drop_last()),
        given.last(),
    )
}

/// No row is written under a parent that was not found: a creation that names
/// a parent writes its row right after the store gave the parent's snapshot,
/// and ends where the store did not.
pub proof fn law_unknown_parent_writes_nothing(
    call: CallView,
    grant: Seq<char>,
    given: Seq<EventView>,
    parent: Seq<char>,
)
    requires
        call matches Call::Create { parent: p, .. } && p == Some(parent),
        proper(call, grant, given),
    ensures
        submitted_after(call, grant, given) is CreateRow ==> given.len() == 2 && submitted_after(
            call,
            grant,
            given.drop_last(),
        ) == (StepView::ReadParent { parent }) && given.last() matches SubmitEvent::Snapshot(Ok(_)),
        given.len() >= 2 && given[1] is Snapshot && !(given[1] matches SubmitEvent::Snapshot(Ok(_)))
            ==> given.len() == 2 && submitted_after(call, grant, given) is End,
{
    lemma_trace(call, grant, given);
    if given.len() > 0 {
        lemma_trace(call, grant, given.drop_last());
    }
}

/// The scheduler follows the store: a child is adopted only once its row is
/// stored, a node is built only for a stored answer, a drain follows only a
/// runnable node, and a tree is cancelled only after the store cancelled its
/// task.
pub proof fn law_scheduler_follows_the_store(
    call: CallView,
    grant: Seq<char>,
    given: Seq<EventView>,
)
    requires
        is_command(call),
        proper(call, grant, given),
    ensures
        match submitted_after(call, grant, given) {
            SubmitStep::Adopt { child, result, .. } => given.last() == EventView::Created(
                Ok((child, result)),
            ),
            SubmitStep::SubmitNode { result, .. } => given.last() == EventView::Stored(
                Ok(result),
            ) && submitted_after(call, grant, given.drop_last()) is StoreAnswer,
            SubmitStep::Drain { .. } => given.last() == EventView::Submitted(Ok(true)),
            SubmitStep::CancelTree { result, .. } => given.last() == EventView::Stored(
                Ok(result),
            ) && submitted_after(call, grant, given.drop_last()) is StoreCancel,
            _ => true,
        },
{
}

/// An answer is stored only while the intent has the revision that the person
/// saw.
pub proof fn law_stale_answer_is_not_stored(call: CallView, grant: Seq<char>, given: Seq<EventView>)
    requires
        is_command(call),
        proper(call, grant, given),
        submitted_after(call, grant, given) is StoreAnswer,
    ensures
        call matches Call::Answer { expected_intent, .. } && given.last() == EventView::Snapshot(
            Ok(expected_intent),
        ),
{
}

proof fn lemma_trace(call: CallView, grant: Seq<char>, given: Seq<EventView>)
    requires
        call is Create,
        call->parent is Some,
        proper(call, grant, given),
    ensures
        match submitted_after(call, grant, given) {
            SubmitStep::Start => given.len() == 0,
            SubmitStep::ReadParent { parent } => given.len() == 1 && Some(parent) == call->parent,
            SubmitStep::CreateRow { .. } => given.len() == 2 && given[1] matches
                SubmitEvent::Snapshot(Ok(_)),
            SubmitStep::Adopt { .. } => given.len() == 3 && given[1] matches SubmitEvent::Snapshot(
                Ok(_),
            ),
            SubmitStep::End(_) => given.len() >= 2 && (given.len() > 2 ==> given[1] matches
                SubmitEvent::Snapshot(Ok(_))),
            _ => false,
        },
    decreases given.len(),
{
    if given.len() > 0 {
        lemma_trace(call, grant, given.drop_last());
    }
}

} // verus!
