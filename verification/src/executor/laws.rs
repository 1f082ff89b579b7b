//! What the executor promises: which paths a scope holds, what the facts of a
//! decision may grant, and what a run does with the answers it gets.

use crate::contracts::EffectClass;
use crate::executor::run::{self, Abandon, AnswerView, ClosingState, Progress, RunView, WorkerCall};
use crate::executor::{
    self, AdmittedEffect, BudgetStatus, EffectOutcome, EffectRequest, ExecutorError, FactsView,
    FileFacts, FileIdentity, WorkerError,
};
use crate::policy::{self, ModeDecision, PermissionMode, Policy};
use crate::state::StoreError;
use crate::text;
use vstd::prelude::*;

verus! {

// ----- scopes ----------------------------------------------------------------

proof fn lemma_split_nonempty(s: Seq<char>, sep: char)
    ensures
        text::split(s, sep).len() > 0,
    decreases s.len(),
{
    if s.len() > 0 {
        lemma_split_nonempty(s.drop_last(), sep);
    }
}

pub proof fn lemma_split_join(a: Seq<char>, sep: char, b: Seq<char>)
    ensures
        text::split(a + seq![sep] + b, sep) == text::split(a, sep) + text::split(b, sep),
    decreases b.len(),
{
    let whole = a + seq![sep] + b;
    lemma_split_nonempty(b, sep);
    if b.len() == 0 {
        assert(whole.drop_last() =~= a);
        assert(text::split(whole, sep) =~= text::split(a, sep) + text::split(b, sep));
    } else {
        let d = b.drop_last();
        lemma_split_join(a, sep, d);
        lemma_split_nonempty(d, sep);
        assert(whole.drop_last() =~= a + seq![sep] + d);
        assert(whole.last() == b.last());
        assert(text::split(whole, sep) =~= text::split(a, sep) + text::split(b, sep));
    }
}

proof fn lemma_parts_join(a: Seq<Seq<char>>, b: Seq<Seq<char>>)
    ensures
        executor::path_parts(a + b) == executor::path_parts(a) + executor::path_parts(b),
    decreases b.len(),
{
    if b.len() == 0 {
        assert(a + b =~= a);
        assert(executor::path_parts(a) + executor::path_parts(b) =~= executor::path_parts(a));
    } else {
        lemma_parts_join(a, b.drop_last());
        assert((a + b).drop_last() =~= a + b.drop_last());
        assert((a + b).last() == b.last());
        assert(executor::path_parts(a + b) =~= executor::path_parts(a) + executor::path_parts(b));
    }
}

/// A separator parts a path: its components are those before it and then those
/// after it.
pub proof fn law_separator_parts_components(a: Seq<char>, b: Seq<char>)
    ensures
        executor::components(a + seq!['/'] + b) == executor::components(a) + executor::components(
            b,
        ),
{
    lemma_split_join(a, '/', b);
    lemma_parts_join(text::split(a, '/'), text::split(b, '/'));
}

pub proof fn lemma_split_one(s: Seq<char>, sep: char)
    requires
        !s.contains(sep),
    ensures
        text::split(s, sep) == seq![s],
    decreases s.len(),
{
    if s.len() > 0 {
        let d = s.drop_last();
        assert(!d.contains(sep)) by {
            if d.contains(sep) {
                let k = choose|k: int| 0 <= k < d.len() && d[k] == sep;
                assert(s[k] == sep);
            }
        }
        lemma_split_one(d, sep);
        assert(s[s.len() - 1] == s.last());
        assert(d.push(s.last()) =~= s);
        assert(text::split(s, sep) =~= seq![s]);
    } else {
        assert(s =~= Seq::<char>::empty());
    }
}

/// A name without a separator is one component; the empty name and the single
/// dot are none.
pub proof fn law_name_is_one_component(name: Seq<char>)
    requires
        !name.contains('/'),
    ensures
        name.len() == 0 || name == "."@ ==> executor::components(name).len() == 0,
        name.len() > 0 && name != "."@ ==> executor::components(name) == seq![name],
{
    lemma_split_one(name, '/');
    let one = seq![name];
    assert(one.last() == name && one.drop_last() =~= Seq::<Seq<char>>::empty());
    assert(executor::path_parts(one.drop_last()) =~= Seq::<Seq<char>>::empty());
    if name.len() > 0 && name != "."@ {
        assert(executor::components(name) =~= seq![name]);
    }
}

/// A scope holds itself and everything spelled below it, and it holds a path
/// exactly where the path goes on from its components: a name that merely
/// begins like the last one of the scope is outside.
pub proof fn law_scope_holds_what_lies_below(
    scope: Seq<char>,
    below: Seq<char>,
    target: Seq<char>,
)
    requires
        scope.len() > 0,
    ensures
        executor::within(scope, scope),
        executor::within(scope, scope + seq!['/'] + below),
        executor::within(scope, target) <==> (scope[0] == '/') == (target.len() > 0 && target[0]
            == '/') && exists|rest: Seq<Seq<char>>|
            executor::components(target) == #[trigger] (executor::components(scope) + rest),
{
    let x = executor::components(scope);
    let y = executor::components(target);
    law_separator_parts_components(scope, below);
    let z = executor::components(scope + seq!['/'] + below);
    assert(x.take(x.len() as int) =~= x);
    assert(z.take(x.len() as int) =~= x);
    assert((scope + seq!['/'] + below)[0] == scope[0]);
    if executor::within(scope, target) {
        assert(y =~= x + y.skip(x.len() as int));
    }
    if exists|rest: Seq<Seq<char>>| y == #[trigger] (x + rest) {
        let rest = choose|rest: Seq<Seq<char>>| y == #[trigger] (x + rest);
        assert(y.take(x.len() as int) =~= x);
    }
}

/// What a scope inside another one holds, the outer one holds too.
pub proof fn law_scopes_nest(outer: Seq<char>, inner: Seq<char>, target: Seq<char>)
    requires
        executor::within(outer, inner),
        executor::within(inner, target),
    ensures
        executor::within(outer, target),
{
    let x = executor::components(outer);
    let y = executor::components(inner);
    let z = executor::components(target);
    assert(z.take(x.len() as int) =~= z.take(y.len() as int).take(x.len() as int));
}

/// A regular file inside the scope is what a worker may open, under its
/// canonical path; anything else is refused, for the first reason of: no
/// scope, no target, outside, no facts, not a regular file.
pub proof fn law_only_a_regular_file_in_scope_is_opened(
    target: Seq<char>,
    scope: Result<Option<Seq<char>>, Seq<char>>,
    canonical: Option<Seq<char>>,
    facts: Result<FileFacts, Seq<char>>,
)
    ensures
        ({
            let r = executor::inspection(target, scope, canonical, facts);
            let held = scope matches Ok(Some(s)) && canonical is Some && executor::within(
                s,
                canonical->0,
            );
            &&& r is Ok <==> held && (facts matches Ok(f) && f.regular)
            &&& r matches Ok(pair) ==> Some(pair.0) == canonical && Ok::<FileFacts, Seq<char>>(
                pair.1,
            ) == facts
            &&& scope is Ok && canonical is Some && !held ==> r == Err::<
                (Seq<char>, FileFacts),
                WorkerError<Seq<char>>,
            >(WorkerError::OutsideScope { target })
            &&& scope is Ok && canonical is None ==> r == Err::<
                (Seq<char>, FileFacts),
                WorkerError<Seq<char>>,
            >(WorkerError::TargetMissing { target })
            &&& held && (facts matches Ok(f) && !f.regular) ==> r == Err::<
                (Seq<char>, FileFacts),
                WorkerError<Seq<char>>,
            >(WorkerError::NotRegularFile { target })
        }),
{
}

// ----- the facts of a decision -----------------------------------------------

/// Units are left exactly where what is spent and what is reserved stay below
/// the limit together.
pub proof fn law_budget_counts_reservations(b: BudgetStatus)
    ensures
        executor::has_units(b) <==> b.spent + b.reserved < b.limit_units,
{
}

/// What cannot be observed never grants. Being in the scope, the trust and the
/// bounds of a run need a scope and a target that both resolve, one inside the
/// other; units need a scope with a budget; a checkpoint needs a scope; an
/// approval, and the bounds of an egress, need a recorded approval.
pub proof fn law_facts_grant_only_what_was_observed(
    mode: PermissionMode,
    class: EffectClass,
    target: Seq<char>,
    facts: FactsView,
)
    ensures
        executor::context_of(mode, class, target, facts) matches Ok(ctx) ==> {
            let inside = facts.scope is Some && facts.canonical_target is Some && executor::within(
                facts.scope->0,
                facts.canonical_target->0,
            );
            &&& ctx.mode == mode
            &&& !ctx.dry_run
            &&& ctx.in_grant_scope == inside
            &&& ctx.in_trusted_scope == inside
            &&& ctx.budget_remaining <==> facts.scope is Some && (facts.budget matches Ok(b)
                && b.spent + b.reserved < b.limit_units)
            &&& ctx.has_checkpoint <==> facts.scope is Some && facts.checkpoint == Ok::<
                bool,
                StoreError<Seq<char>>,
            >(true)
            &&& ctx.previously_approved <==> facts.approved == Ok::<bool, StoreError<Seq<char>>>(
                true,
            )
            &&& ctx.within_declared_bounds <==> (class == EffectClass::Exec && inside) || (class
                == EffectClass::Egress && ctx.previously_approved)
        },
{
}

/// A decision has a context exactly where the target does not resolve outside
/// its scope and the store answered: a scope without a budget merely has no
/// units.
pub proof fn law_context_needs_the_store(
    mode: PermissionMode,
    class: EffectClass,
    target: Seq<char>,
    facts: FactsView,
)
    ensures
        ({
            let r = executor::context_of(mode, class, target, facts);
            let outside = facts.scope is Some && facts.canonical_target is Some
                && !executor::within(facts.scope->0, facts.canonical_target->0);
            &&& outside ==> (r matches Err(ExecutorError::Worker(WorkerError::OutsideScope {
                target: t,
            })) && t == target)
            &&& r is Ok <==> !outside && facts.approved is Ok && (facts.scope is Some ==> (
            facts.budget is Ok || (facts.budget matches Err(StoreError::NotFound(_))))
                && facts.checkpoint is Ok)
        }),
{
}

// ----- what a run does -------------------------------------------------------

/// A run asks for the effect that was admitted, in the scope of the admission:
/// a read of its path, a write of its path against the very file it was
/// admitted for, a run of its program, an egress to its address. A write
/// without a known file is not performed.
pub proof fn law_run_performs_what_was_admitted(
    policy: Policy,
    lost: bool,
    admitted: AdmittedEffect,
)
    ensures
        ({
            let r = run::next(
                policy,
                false,
                lost,
                admitted,
                Progress::MarkRunning,
                AnswerView::Marked(Ok(())),
            );
            let scope_root = admitted.scope_root@;
            match admitted.request@ {
                EffectRequest::Read { path, .. } => r == RunView::Perform(
                    WorkerCall::Read { scope_root, path },
                ),
                EffectRequest::Write { path, .. } => match admitted.expected_identity {
                    Some(expected) => r == RunView::Perform(
                        WorkerCall::Write { scope_root, path, expected },
                    ),
                    None => r matches Progress::Record(c) && c.state == ClosingState::Rejected
                        && c.result is Err,
                },
                EffectRequest::Exec { program, .. } => r == RunView::Perform(
                    WorkerCall::Exec { scope_root, program },
                ),
                EffectRequest::Egress { url, .. } => r == RunView::Perform(
                    WorkerCall::Egress { url },
                ),
            }
        }),
{
}

/// A read of a merged run takes what its flight already has and reads for
/// itself only where there is nothing.
pub proof fn law_shared_read_is_taken(
    policy: Policy,
    lost: bool,
    admitted: AdmittedEffect,
    o: (Seq<u8>, Seq<char>),
)
    requires
        admitted.request@ is Read,
    ensures
        run::next(
            policy,
            true,
            lost,
            admitted,
            Progress::MarkRunning,
            AnswerView::Marked(Ok(())),
        ) is TakeShared,
        run::next(policy, true, lost, admitted, Progress::TakeShared, AnswerView::Shared(None))
            == RunView::Perform(
            WorkerCall::Read {
                scope_root: admitted.scope_root@,
                path: executor::request_target(admitted.request@),
            },
        ),
        run::next(policy, true, lost, admitted, Progress::TakeShared, AnswerView::Shared(Some(o)))
            matches Progress::Record(c) && !c.share && c.result == Ok::<
            EffectOutcome<Seq<char>, Seq<u8>>,
            ExecutorError<Seq<char>>,
        >(EffectOutcome::Read { bytes: o.0, digest: o.1 }),
{
}

/// The consult decides: exactly a clear allow goes on, a question ends the
/// attempt as asked for, a denial as denied, and facts that give no decision
/// end it with their error. The attempt is rejected in each of these.
pub proof fn law_consult_decides(
    policy: Policy,
    merged: bool,
    lost: bool,
    admitted: AdmittedEffect,
    facts: FactsView,
    resolved: Result<policy::paths::IdentityView, policy::PolicyError<Seq<char>>>,
)
    ensures
        ({
            let r = run::next(
                policy,
                merged,
                lost,
                admitted,
                Progress::Consult,
                AnswerView::Facts { facts, resolved },
            );
            let class = executor::request_class(admitted.request@);
            let target = executor::request_target(admitted.request@);
            match executor::context_of(admitted.mode, class, target, facts) {
                Ok(ctx) => {
                    let d = policy::verdict(
                        policy::identities(policy.denies@),
                        text::texts(policy.raw_denies@),
                        target,
                        class,
                        ctx,
                        resolved,
                    );
                    &&& d == ModeDecision::Allow <==> r is MarkRunning
                    &&& d == ModeDecision::Ask ==> (r matches Progress::Record(c) && c.state
                        == ClosingState::Rejected && (c.result matches Err(ExecutorError::ModeAsk)))
                    &&& d == ModeDecision::Deny ==> (r matches Progress::Record(c) && c.state
                        == ClosingState::Rejected && (c.result matches Err(
                        ExecutorError::ModeDenied,
                    )))
                },
                Err(e) => r matches Progress::Record(c) && c.state == ClosingState::Rejected
                    && c.result == Err::<
                    EffectOutcome<Seq<char>, Seq<u8>>,
                    ExecutorError<Seq<char>>,
                >(e),
            }
        }),
{
}

/// A cancelled task runs nothing: the attempt is rejected as cancelled. A task
/// that is not cancelled goes on to the consult, and a store that cannot tell
/// ends the run.
pub proof fn law_cancelled_task_runs_nothing(
    policy: Policy,
    merged: bool,
    lost: bool,
    admitted: AdmittedEffect,
    e: StoreError<Seq<char>>,
)
    ensures
        run::next(
            policy,
            merged,
            lost,
            admitted,
            Progress::AskCancelled,
            AnswerView::Cancelled(Ok(true)),
        ) matches Progress::Record(c) && c.state == ClosingState::Rejected && (c.result matches Err(
            ExecutorError::Cancelled,
        )) && c.abandon == Abandon::IfRecorded,
        run::next(
            policy,
            merged,
            lost,
            admitted,
            Progress::AskCancelled,
            AnswerView::Cancelled(Ok(false)),
        ) is Consult,
        run::next(
            policy,
            merged,
            lost,
            admitted,
            Progress::AskCancelled,
            AnswerView::Cancelled(Err(e)),
        ) == (RunView::Return { result: Err(ExecutorError::Store(e)), abandon: false }),
{
}

/// A grant that does not admit the class stops a run before anything is asked;
/// a run whose receipt is given up is for reads alone.
pub proof fn law_run_begins_with_its_grant(
    policy: Policy,
    merged: bool,
    lost: bool,
    admitted: AdmittedEffect,
)
    ensures
        ({
            let r = run::next(policy, merged, lost, admitted, Progress::Start, AnswerView::Go);
            let class = executor::request_class(admitted.request@);
            let grant = policy::admission(
                policy.grants@,
                executor::request_grant(admitted.request@),
                class,
            );
            &&& r is AskCancelled <==> grant is Ok && !(lost && class != EffectClass::Read)
            &&& lost && class != EffectClass::Read ==> (r matches Progress::Return {
                result: Err(ExecutorError::Readonly { .. }),
                ..
            })
            &&& !(lost && class != EffectClass::Read) && grant is Err ==> (
            r matches Progress::Record(c) && c.state == ClosingState::Rejected && c.result == Err::<
                EffectOutcome<Seq<char>, Seq<u8>>,
                ExecutorError<Seq<char>>,
            >(ExecutorError::Policy(grant->Err_0)))
        }),
{
}

/// A performed read is confirmed with the digest of what was read and gives
/// those bytes; where its receipt is given up it stays unknown, with the same
/// digest in its entry.
pub proof fn law_performed_read_is_recorded(
    policy: Policy,
    merged: bool,
    lost: bool,
    admitted: AdmittedEffect,
    call: WorkerCall<Seq<char>>,
    o: (Seq<u8>, Seq<char>),
)
    ensures
        run::next(
            policy,
            merged,
            lost,
            admitted,
            Progress::Perform(call),
            AnswerView::Observed(Ok(o)),
        ) matches Progress::Record(c) && {
            &&& c.state == (if lost {
                ClosingState::Unknown
            } else {
                ClosingState::Confirmed
            })
            &&& c.detail == Some(
                "read-performed sha256="@ + o.1 + (if lost {
                    "; receipt lost after dispatch"@
                } else {
                    Seq::empty()
                }),
            )
            &&& c.share == merged
            &&& c.abandon == Abandon::Never
            &&& c.result == Ok::<EffectOutcome<Seq<char>, Seq<u8>>, ExecutorError<Seq<char>>>(
                EffectOutcome::Read { bytes: o.0, digest: o.1 },
            )
        },
{
    assert("read-performed sha256="@ + o.1 + Seq::<char>::empty() =~= "read-performed sha256="@
        + o.1);
}

/// An effect that ran is confirmed, and one that failed is rejected with the
/// error of the worker, unless it failed behind the change of its target: then
/// its outcome is unknown.
pub proof fn law_performed_effect_is_recorded(
    policy: Policy,
    merged: bool,
    lost: bool,
    admitted: AdmittedEffect,
    call: WorkerCall<Seq<char>>,
    e: WorkerError<Seq<char>>,
)
    ensures
        run::next(
            policy,
            merged,
            lost,
            admitted,
            Progress::Perform(call),
            AnswerView::Done(Ok(())),
        ) matches Progress::Record(c) && c.state == ClosingState::Confirmed && (
        c.result matches Ok(EffectOutcome::Executed { .. })),
        run::next(
            policy,
            merged,
            lost,
            admitted,
            Progress::Perform(call),
            AnswerView::Done(Err(e)),
        ) matches Progress::Record(c) && (c.state == ClosingState::Unknown
            <==> e is WriteMutationFailed) && (c.state == ClosingState::Rejected
            <==> !(e is WriteMutationFailed)) && c.result == Err::<
            EffectOutcome<Seq<char>, Seq<u8>>,
            ExecutorError<Seq<char>>,
        >(ExecutorError::Worker(e)),
        !lost ==> (run::next(
            policy,
            merged,
            lost,
            admitted,
            Progress::Perform(call),
            AnswerView::Observed(Err(e)),
        ) matches Progress::Record(c) && c.result == Err::<
            EffectOutcome<Seq<char>, Seq<u8>>,
            ExecutorError<Seq<char>>,
        >(ExecutorError::Worker(e)) && c.abandon == Abandon::Always),
{
}

/// A run returns what it recorded, and only after it was recorded: a store
/// that fails is what it returns instead.
pub proof fn law_run_returns_what_it_recorded<R>(
    c: run::Closing<Seq<char>, R>,
    e: StoreError<Seq<char>>,
)
    ensures
        run::recorded(c, Ok(())) == (Progress::<Seq<char>, R>::Return {
            result: c.result,
            abandon: c.abandon == Abandon::Always || c.abandon == Abandon::IfRecorded,
        }),
        run::recorded(c, Err(e)) == (Progress::<Seq<char>, R>::Return {
            result: Err(ExecutorError::Store(e)),
            abandon: c.abandon == Abandon::Always,
        }),
{
}

/// An admission is decided in the scope of its grant; a write needs the
/// identity of its file and keeps it, nothing else has one; and the verdict is
/// that of the policy on the facts.
pub proof fn law_admission_is_decided_by_the_policy(
    policy: Policy,
    request: executor::RequestView,
    mode: PermissionMode,
    facts: FactsView,
    identity: Result<FileIdentity, WorkerError<Seq<char>>>,
    resolved: Result<policy::paths::IdentityView, policy::PolicyError<Seq<char>>>,
)
    ensures
        ({
            let r = run::deciding(policy, request, mode, facts, identity, resolved);
            let class = executor::request_class(request);
            let target = executor::request_target(request);
            let grant = policy::admission(policy.grants@, executor::request_grant(request), class);
            let ctx = executor::context_of(mode, class, target, facts);
            &&& r is Ok <==> grant is Ok && ctx is Ok && (request is Write ==> identity is Ok)
            &&& r matches Ok(d) ==> {
                &&& d.scope_root == grant->Ok_0.scope_root
                &&& request is Write ==> d.expected_identity == Some(identity->Ok_0)
                &&& !(request is Write) ==> d.expected_identity is None
                &&& d.decision == policy::verdict(
                    policy::identities(policy.denies@),
                    text::texts(policy.raw_denies@),
                    target,
                    class,
                    ctx->Ok_0,
                    resolved,
                )
            }
            &&& grant is Err ==> (r matches Err(ExecutorError::Policy(e)) && e == grant->Err_0)
        }),
{
}

/// A control write is a write: it runs under the read class of its own grant,
/// and no other effect is one.
pub proof fn law_control_write_is_a_write(policy: Policy, request: executor::RequestView)
    ensures
        !(request is Write) ==> (run::managed_scope_of(policy, request) matches Err(
            ExecutorError::Readonly { class },
        ) && class == executor::request_class(request)),
        request matches EffectRequest::Write { grant_id, .. } ==> (run::managed_scope_of(
            policy,
            request,
        ) is Ok <==> policy.grants@.dom().contains(grant_id) && !policy.grants@[grant_id]@.revoked
            && policy.grants@[grant_id]@.classes.contains(EffectClass::Read)) && (
        run::managed_scope_of(policy, request) matches Ok(s) ==> s
            == policy.grants@[grant_id]@.scope_root),
{
}

/// A request is what it says: its class, its grant and its target are those it
/// was made with.
pub proof fn law_request_is_what_it_says(grant_id: Seq<char>, target: Seq<char>, bytes: Seq<u8>)
    ensures
        ({
            let read = EffectRequest::Read { grant_id, path: target };
            let write = EffectRequest::Write { grant_id, path: target, bytes };
            let exec = EffectRequest::Exec { grant_id, program: target };
            let egress = EffectRequest::Egress { grant_id, url: target };
            &&& executor::request_class(read) == EffectClass::Read
            &&& executor::request_class(write) == EffectClass::Write
            &&& executor::request_class(exec) == EffectClass::Exec
            &&& executor::request_class(egress) == EffectClass::Egress
            &&& forall|r: executor::RequestView|
                r == read || r == write || r == exec || r == egress ==> #[trigger] executor::request_grant(
                    r,
                ) == grant_id && executor::request_target(r) == target
        }),
{
}

/// Which code an executor error has on the wire: a sandbox that cannot start
/// or time out is a missing capability, a cancelled task is cancelled, a store
/// that fails is unavailable, and every other refusal is a denial.
pub proof fn law_executor_codes(e: ExecutorError<Seq<char>>)
    ensures
        ({
            let code = executor::executor_code(e);
            let missing = e matches ExecutorError::Worker(w) && (w is SandboxSpawnFailed
                || w is SandboxUnavailable || w is ConfinedRunTimedOut);
            &&& missing ==> code == crate::contracts::ErrorCode::CapabilityUnavailable
            &&& e is Cancelled ==> code == crate::contracts::ErrorCode::Cancelled
            &&& e is Store ==> code == crate::contracts::ErrorCode::StorageUnavailable
            &&& !missing && !(e is Cancelled) && !(e is Store) ==> code
                == crate::contracts::ErrorCode::Denied
        }),
{
}

} // verus!
