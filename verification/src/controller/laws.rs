//! What a decision step promises: what comes after each answer, and what an
//! unknown attempt is reconciled from.

use crate::contracts::{AnswerSelection, EffectClass};
use crate::controller::{
    self, AttemptRow, Conclusion, ControllerError, Decision, DecisionView, OutcomeView, PassStep,
    StepView,
};
use crate::executor::{self, EffectOutcome, ExecutorError};
use crate::helper;
use crate::model;
use crate::policy::{self, PermissionMode, Policy};
use crate::providers::ToolCall;
use crate::state::{ConflictCause, InvalidCause, StoreError};
use crate::text;
use vstd::prelude::*;

verus! {

/// The gates in front of an effect, one by one. A finished task takes no
/// action. An open attempt ends the step as unknown. A grant that admits no
/// reads fails it. A verdict that is not a clear allow, and a cancelled task,
/// end it as denied. Only a task that passes goes on.
pub proof fn law_gates_are_taken_in_turn(policy: Policy, ctx: StepView, attempt_id: Seq<char>)
    ensures
        controller::decision_next(
            policy,
            ctx,
            Decision::Start,
            OutcomeView::Snapshot(Ok(true)),
        ) == DecisionView::Conclude(Conclusion::NoAction),
        controller::decision_next(
            policy,
            ctx,
            Decision::Start,
            OutcomeView::Snapshot(Ok(false)),
        ) is AskUnresolved,
        controller::decision_next(
            policy,
            ctx,
            Decision::AskUnresolved,
            OutcomeView::Unresolved(Ok(Some(attempt_id))),
        ) == DecisionView::Conclude(Conclusion::OutcomeUnknown { attempt_id }),
        controller::decision_next(
            policy,
            ctx,
            Decision::AskUnresolved,
            OutcomeView::Unresolved(Ok(None)),
        ) is Consult <==> policy.grants@.dom().contains(ctx.grant_id)
            && !policy.grants@[ctx.grant_id]@.revoked
            && policy.grants@[ctx.grant_id]@.classes.contains(EffectClass::Read),
        controller::decision_next(
            policy,
            ctx,
            Decision::AskCancelled,
            OutcomeView::Cancelled(Ok(true)),
        ) matches Decision::Conclude(Conclusion::EffectDenied { reason }) && reason
            == executor::TASK_CANCELLED@,
        controller::decision_next(
            policy,
            ctx,
            Decision::AskCancelled,
            OutcomeView::Cancelled(Ok(false)),
        ) is Materialize,
{
}

/// The scoped read is judged in the mode that asks: it goes on exactly where
/// no rule denies the file and the file lies in the scope of the grant.
pub proof fn law_scoped_read_is_judged_manually(
    policy: Policy,
    ctx: StepView,
    facts: executor::FactsView,
    resolved: Result<policy::paths::IdentityView, policy::PolicyError<Seq<char>>>,
)
    ensures
        ({
            let r = controller::decision_next(
                policy,
                ctx,
                Decision::Consult,
                OutcomeView::Facts { facts, resolved },
            );
            let c = executor::context_of(
                PermissionMode::Manual,
                EffectClass::Read,
                ctx.scoped_file,
                facts,
            );
            let denied = policy::denied_target(
                policy::identities(policy.denies@),
                text::texts(policy.raw_denies@),
                ctx.scoped_file,
                EffectClass::Read,
                resolved,
            );
            &&& r is AskCancelled <==> (c matches Ok(x) && x.in_grant_scope && !denied)
            &&& (c matches Ok(x) && denied) ==> (r matches Decision::Conclude(
                Conclusion::EffectDenied { reason },
            ) && reason == executor::MODE_DENY_REASON@)
            &&& (c matches Ok(x) && !denied && !x.in_grant_scope) ==> (r matches Decision::Conclude(
                Conclusion::EffectDenied { reason },
            ) && reason == executor::MODE_ASK_REASON@)
            &&& c matches Err(e) ==> r == DecisionView::Fail(ControllerError::Executor(e))
        }),
{
}

/// The one known answer reads the scoped file and asks no model; any other
/// answer is taken to the model, together with the goal and the file.
pub proof fn law_known_answer_needs_no_model(
    policy: Policy,
    ctx: StepView,
    goal: Seq<u8>,
    said: Seq<char>,
)
    ensures
        ({
            let known = ctx.answer matches AnswerSelection::Option { option_id } && option_id.0
                == controller::KNOWN_READY_OPTION@;
            let r = controller::decision_next(
                policy,
                ctx,
                Decision::Materialize,
                OutcomeView::Stored(Ok(())),
            );
            &&& known ==> r == (DecisionView::Admit { path: ctx.scoped_file, dispatched: None })
            &&& !known ==> r is ReadGoal
        }),
        ctx.answer == (AnswerSelection::<Seq<char>>::Custom { text: said }) ==> (
        controller::decision_next(
            policy,
            ctx,
            Decision::ReadGoal,
            OutcomeView::Goal(Ok(goal)),
        ) matches Decision::Prepare { inputs } && inputs == "goal: "@ + text::lossy_utf8(goal)
            + "\nanswer: "@ + said + "\nread "@ + ctx.scoped_file),
{
}

/// An attempt is recorded before it has an effect: a prepared request is
/// retained before it is dispatched, and a read that no model asked for is
/// retained before it runs, each under its own id.
pub proof fn law_record_comes_before_the_effect(
    policy: Policy,
    ctx: StepView,
    attempt_id: Seq<char>,
    path: Seq<char>,
    cause: Seq<char>,
    dispatched: Option<Seq<char>>,
)
    ensures
        controller::decision_next(
            policy,
            ctx,
            Decision::Prepare { inputs: path },
            OutcomeView::Prepared(Ok(attempt_id)),
        ) matches Decision::RetainDispatch { attempt_id: kept, .. } && kept == attempt_id,
        controller::decision_next(
            policy,
            ctx,
            Decision::RetainDispatch { attempt_id, cause },
            OutcomeView::Stored(Ok(())),
        ) == (DecisionView::Dispatch { attempt_id }),
        controller::known_ready(ctx.answer) ==> (controller::decision_next(
            policy,
            ctx,
            Decision::Admit { path, dispatched },
            OutcomeView::Admitted(Ok(attempt_id)),
        ) matches Decision::RetainRead { attempt_id: kept, .. } && kept == attempt_id),
        !controller::known_ready(ctx.answer) ==> controller::decision_next(
            policy,
            ctx,
            Decision::Admit { path, dispatched },
            OutcomeView::Admitted(Ok(attempt_id)),
        ) == (DecisionView::Execute { attempt_id, dispatched }),
        controller::decision_next(
            policy,
            ctx,
            Decision::RetainRead { attempt_id, cause },
            OutcomeView::Stored(Ok(())),
        ) == (DecisionView::Execute { attempt_id, dispatched: None }),
{
}

proof fn lemma_read_call(calls: Seq<ToolCall<Seq<char>>>)
    ensures
        ({
            let at = controller::read_call(calls);
            &&& 0 <= at <= calls.len()
            &&& at < calls.len() ==> calls[at].tool == "read_file"@
            &&& forall|i: int| 0 <= i < at ==> (#[trigger] calls[i]).tool != "read_file"@
        }),
    decreases calls.len(),
{
    if calls.len() > 0 && calls[0].tool != "read_file"@ {
        let t = calls.skip(1);
        lemma_read_call(t);
        let at = controller::read_call(calls);
        assert forall|i: int| 0 <= i < at implies (#[trigger] calls[i]).tool != "read_file"@ by {
            if i > 0 {
                assert(t[i - 1] == calls[i]);
            }
        }
        if at < calls.len() {
            assert(t[at - 1] == calls[at]);
        }
    }
}

/// The first call of the read tool is what a reply asks for, below the scope;
/// a reply without one leaves the task waiting.
pub proof fn law_first_read_call_is_taken(
    policy: Policy,
    ctx: StepView,
    attempt_id: Seq<char>,
    calls: Seq<ToolCall<Seq<char>>>,
    i: int,
    path: Seq<char>,
)
    ensures
        0 <= i < calls.len() && calls[i].tool == "read_file"@ && calls[i].path == Some(path)
            && (forall|j: int| 0 <= j < i ==> (#[trigger] calls[j]).tool != "read_file"@)
            ==> controller::decision_next(
            policy,
            ctx,
            Decision::Dispatch { attempt_id },
            OutcomeView::Dispatched(Ok(calls)),
        ) == (DecisionView::Admit {
            path: helper::joined(ctx.scope_root, path),
            dispatched: Some(attempt_id),
        }),
        (forall|j: int| 0 <= j < calls.len() ==> (#[trigger] calls[j]).tool != "read_file"@)
            ==> controller::decision_next(
            policy,
            ctx,
            Decision::Dispatch { attempt_id },
            OutcomeView::Dispatched(Ok(calls)),
        ) is MarkNoReady,
        controller::decision_next(
            policy,
            ctx,
            Decision::MarkNoReady,
            OutcomeView::Stored(Ok(())),
        ) == DecisionView::Conclude(Conclusion::Waiting),
{
    lemma_read_call(calls);
}

/// A performed read becomes evidence under the attempt that asked for it, with
/// its own digest; then the attempt is closed, and the task is completed last.
/// Where the process dies first, the outcome stays unknown and no evidence is
/// made.
pub proof fn law_performed_read_becomes_evidence(
    policy: Policy,
    ctx: StepView,
    attempt_id: Seq<char>,
    dispatched: Option<Seq<char>>,
    bytes: Seq<u8>,
    digest: Seq<char>,
    observation: Seq<char>,
    cause: Seq<char>,
)
    ensures
        ({
            let r = controller::decision_next(
                policy,
                ctx,
                Decision::Execute { attempt_id, dispatched },
                OutcomeView::Executed(Ok(EffectOutcome::Read { bytes, digest })),
            );
            &&& ctx.crash_after_dispatch ==> r == (DecisionView::MarkUnknown { attempt_id })
            &&& !ctx.crash_after_dispatch ==> (r matches Decision::Evidence {
                digest: d,
                attempt_id: a,
                ..
            } && d == digest && (dispatched is Some ==> Some(a) == dispatched) && (
            dispatched is None ==> a == attempt_id))
        }),
        controller::decision_next(
            policy,
            ctx,
            Decision::Evidence { observation, digest, attempt_id },
            OutcomeView::Stored(Ok(())),
        ) == (DecisionView::RetainTerminal { attempt_id, cause: observation }),
        controller::decision_next(
            policy,
            ctx,
            Decision::RetainTerminal { attempt_id, cause },
            OutcomeView::Stored(Ok(())),
        ) is Complete,
        controller::decision_next(
            policy,
            ctx,
            Decision::Complete,
            OutcomeView::Stored(Ok(())),
        ) == DecisionView::Conclude(Conclusion::Completed),
        controller::decision_next(
            policy,
            ctx,
            Decision::MarkUnknown { attempt_id },
            OutcomeView::Stored(Ok(())),
        ) == DecisionView::Conclude(Conclusion::OutcomeUnknown { attempt_id }),
{
}

/// A failure ends the step as itself: of the store, of the broker or of the
/// worker.
pub proof fn law_failures_end_the_step(
    policy: Policy,
    ctx: StepView,
    at: DecisionView,
    e: StoreError<Seq<char>>,
    m: model::ModelErrorView,
    x: ExecutorError<Seq<char>>,
)
    ensures
        controller::fits(at, OutcomeView::Stored(Err(e))) ==> controller::decision_next(
            policy,
            ctx,
            at,
            OutcomeView::Stored(Err(e)),
        ) == DecisionView::Fail(ControllerError::Store(e)),
        controller::fits(at, OutcomeView::Prepared(Err(m))) ==> controller::decision_next(
            policy,
            ctx,
            at,
            OutcomeView::Prepared(Err(m)),
        ) == DecisionView::Fail(ControllerError::Model(m)),
        controller::fits(at, OutcomeView::Dispatched(Err(m))) ==> controller::decision_next(
            policy,
            ctx,
            at,
            OutcomeView::Dispatched(Err(m)),
        ) == DecisionView::Fail(ControllerError::Model(m)),
        controller::fits(at, OutcomeView::Admitted(Err(x))) ==> controller::decision_next(
            policy,
            ctx,
            at,
            OutcomeView::Admitted(Err(x)),
        ) == DecisionView::Fail(ControllerError::Executor(x)),
        controller::fits(at, OutcomeView::Executed(Err(x))) ==> controller::decision_next(
            policy,
            ctx,
            at,
            OutcomeView::Executed(Err(x)),
        ) == DecisionView::Fail(ControllerError::Executor(x)),
{
}

/// An attempt is reconciled exactly where it belongs to the task, is unknown,
/// and its entry proves a performed read; each other case is told apart.
pub proof fn law_only_a_proven_attempt_is_reconciled(
    attempt_id: Seq<char>,
    task_id: Seq<char>,
    row: AttemptRow,
)
    ensures
        ({
            let r = controller::reconciling(attempt_id, task_id, Some(row));
            let own = row.owner_task@ == task_id;
            let open = row.state@ == "unknown"@;
            let proven = match row.detail {
                Some(d) => controller::performed_digest(d@),
                None => None,
            };
            &&& r is Ok <==> own && open && proven is Some
            &&& r matches Ok(marker) ==> Some(marker) == proven
            &&& !own ==> (r matches Err(StoreError::InvalidInput(
                InvalidCause::AttemptTaskMismatch { .. },
            )))
            &&& own && !open ==> (r matches Err(StoreError::Conflict(
                ConflictCause::AttemptNotReconcileable { .. },
            )))
            &&& own && open && proven is None ==> (r matches Err(StoreError::InvalidInput(
                InvalidCause::MissingReadMarker { .. },
            )))
        }),
        controller::reconciling(attempt_id, task_id, None) matches Err(StoreError::NotFound(_)),
{
}

/// A scheduler pass admits a node, lets it wait where it has children, runs it
/// otherwise, and is idle exactly where nothing is ready: a node that waits
/// never keeps the next one from running.
pub proof fn law_pass_runs_what_is_ready(node: u64, admitted: Option<u64>, waits: bool)
    ensures
        controller::pass_next(PassStep::AdmitNext, Some(node), waits) == (PassStep::BeginWait {
            node,
        }),
        controller::pass_next(PassStep::AdmitNext, None, waits) is Idle,
        controller::pass_next(PassStep::BeginWait { node }, admitted, true) is AdmitNext,
        controller::pass_next(PassStep::BeginWait { node }, admitted, false) == (PassStep::Run {
            node,
        }),
{
}

/// A name below a directory stays below it, and an absolute name stands for
/// itself.
pub proof fn law_joined_name(dir: Seq<char>, name: Seq<char>)
    ensures
        name.len() > 0 && name[0] == '/' ==> helper::joined(dir, name) == name,
        !(name.len() > 0 && name[0] == '/') && dir.len() > 0 && dir.last() != '/'
            ==> helper::joined(dir, name) == dir + "/"@ + name,
        !(name.len() > 0 && name[0] == '/') && dir.len() > 0 && dir.last() == '/'
            ==> helper::joined(dir, name) == dir + name,
        !(name.len() > 0 && name[0] == '/') && dir.len() == 0 ==> helper::joined(dir, name) == name,
{
}

proof fn lemma_hex_run(digits: Seq<char>, rest: Seq<char>)
    requires
        forall|i: int| 0 <= i < digits.len() ==> controller::is_lower_hex(#[trigger] digits[i]),
        rest.len() == 0 || !controller::is_lower_hex(rest[0]),
    ensures
        controller::hex_run(digits + rest) == digits.len(),
    decreases digits.len(),
{
    let s = digits + rest;
    if digits.len() == 0 {
        assert(s =~= rest);
    } else {
        let d = digits.skip(1);
        assert(s[0] == digits[0]);
        assert(s.skip(1) =~= d + rest);
        assert forall|i: int| 0 <= i < d.len() implies controller::is_lower_hex(
            #[trigger] d[i],
        ) by {
            assert(d[i] == digits[i + 1]);
        }
        lemma_hex_run(d, rest);
    }
}

/// A detail proves a digest exactly where 64 lower-case hexadecimal digits, no
/// fewer and no more, stand behind the marker; what follows them does not
/// matter. A detail without the marker proves nothing.
pub proof fn law_marker_carries_one_digest(digits: Seq<char>, rest: Seq<char>, other: Seq<char>)
    requires
        forall|i: int|
            0 <= i < digits.len() ==> ('0' <= #[trigger] digits[i] && digits[i] <= '9') || ('a'
                <= digits[i] && digits[i] <= 'f'),
        rest.len() == 0 || !(('0' <= rest[0] && rest[0] <= '9') || ('a' <= rest[0] && rest[0]
            <= 'f')),
        !text::has_prefix(other, "read-performed sha256="@),
    ensures
        digits.len() == 64 ==> controller::performed_digest(
            "read-performed sha256="@ + (digits + rest),
        ) == Some(digits),
        digits.len() != 64 ==> controller::performed_digest(
            "read-performed sha256="@ + (digits + rest),
        ) is None,
        controller::performed_digest(other) is None,
{
    let marker = "read-performed sha256="@;
    let s = marker + (digits + rest);
    assert(s.take(marker.len() as int) =~= marker);
    assert(s.skip(marker.len() as int) =~= digits + rest);
    assert forall|i: int| 0 <= i < digits.len() implies controller::is_lower_hex(
        #[trigger] digits[i],
    ) by {}
    lemma_hex_run(digits, rest);
    if digits.len() == 64 {
        assert((digits + rest).take(64) =~= digits);
    }
}

} // verus!
