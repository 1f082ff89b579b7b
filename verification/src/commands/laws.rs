//! What the request surface promises: how a request is opened and routed, and
//! how a submitted command goes through the store and the scheduler.

use crate::commands::carrier::{self, EditView, LocalKind};
use crate::commands::methods::{self, Call, CallView, PlanView};
use crate::commands::params;
use crate::commands::submit::{self, EventView, StepView, SubmitEvent, SubmitStep, Submitted};
use crate::commands::{self, Ingress, RequestError};
use crate::config::effective::EntryView;
use crate::contracts::{self, AnswerSelection, ErrorCode};
use crate::json::{self, JsonView};
use crate::policy::scan;
use crate::state::StoreError;
use crate::text;
use vstd::prelude::*;

verus! {

// ----- opening a request -----------------------------------------------------

/// A request is opened exactly where it has an id that is a short text or an
/// exact integer, speaks the protocol, names a public method, and has an
/// object of parameters of the one schema version. What is opened is what the
/// request says, and every refusal carries its id where it has one.
pub proof fn law_request_opens_as_it_says(parsed: JsonView)
    ensures
        ({
            let id = json::get_spec(parsed, "id"@);
            let method = json::text_spec(json::get_spec(parsed, "method"@));
            let params = json::get_spec(parsed, "params"@);
            let r = commands::opened(parsed);
            &&& r is Ok <==> id is Some && (match id->0 {
                JsonView::Text(t) => vstd::utf8::encode_utf8(t).len() <= 256,
                JsonView::Number(n) => json::is_i64(n),
                _ => false,
            }) && json::text_spec(json::get_spec(parsed, "jsonrpc"@)) == Some("2.0"@)
                && method is Some && commands::is_method(method->0) && params is Some
                && params->0 is Object && json::u64_spec(
                json::get_spec(params->0, "schema_version"@),
            ) == Some(1u64)
            &&& r matches Ok(o) ==> Some(o.id) == id && Some(o.method) == method && Some(o.params)
                == params
            &&& r matches Err(e) ==> e.error is Some && e.result is None && (id is Some ==> e.id
                == id->0) && (id is None ==> e.id == JsonView::Null)
        }),
{
}

/// A refusal has the protocol code of its stage: no JSON, no request, no such
/// method, a capability or a right that is missing, or parameters that do not
/// fit.
pub proof fn law_refusal_codes_follow_the_stage(name: Seq<char>, version: u64)
    ensures
        commands::refusal_rpc_code(RequestError::InvalidJson) == -32700,
        commands::refusal_rpc_code(RequestError::MissingRequestId) == -32600,
        commands::refusal_rpc_code(RequestError::NotificationId) == -32600,
        commands::refusal_rpc_code(RequestError::InvalidRequestId) == -32600,
        commands::refusal_rpc_code(RequestError::WrongJsonRpc) == -32600,
        commands::refusal_rpc_code(RequestError::MissingMethod) == -32600,
        commands::refusal_rpc_code(RequestError::UnknownMethod { method: name }) == -32601,
        commands::refusal_rpc_code(RequestError::UnsupportedVersion { version }) == -32000,
        commands::refusal_rpc_code(RequestError::MachineAnswerDenied) == -32000,
        commands::refusal_rpc_code(RequestError::ParamsNotObject) == -32602,
        commands::refusal_rpc_code(RequestError::Required { field: name }) == -32602,
        commands::refusal_code(RequestError::UnknownMethod { method: name })
            == ErrorCode::UnknownMethod,
        commands::refusal_code(RequestError::UnsupportedVersion { version })
            == ErrorCode::UnsupportedVersion,
        commands::refusal_code(RequestError::MethodUnavailable { method: name })
            == ErrorCode::CapabilityUnavailable,
        commands::refusal_code(RequestError::MachineAnswerDenied) == ErrorCode::Denied,
        commands::refusal_code(RequestError::Required { field: name }) == ErrorCode::InvalidInput,
        commands::refusal_code(RequestError::InvalidJson) == ErrorCode::InvalidInput,
{
}

/// A store error is answered with the code of its kind, and its message goes
/// on with what the caller may do.
pub proof fn law_store_error_keeps_its_code(id: JsonView, e: StoreError<Seq<char>>)
    ensures
        ({
            let r = commands::store_failed(id, e);
            let code = match e {
                StoreError::NotFound(_) => ErrorCode::NotFound,
                StoreError::Conflict(_) => ErrorCode::Conflict,
                StoreError::StaleIntent { .. } => ErrorCode::StaleIntent,
                StoreError::AlreadyTerminal => ErrorCode::AlreadyTerminal,
                StoreError::InvalidInput(_) => ErrorCode::InvalidInput,
                StoreError::Storage(_) => ErrorCode::StorageUnavailable,
            };
            &&& r.id == id && r.result is None && r.error is Some
            &&& r.error->0.code == -32000
            &&& r.error->0.data.code == code
            &&& text::has_prefix(r.error->0.data.message, crate::state::store_message(e))
        }),
{
    let m = crate::state::store_message(e);
    let t = m + commands::store_recovery(e);
    assert(t.take(m.len() as int) =~= m);
}

// ----- parameters ------------------------------------------------------------

/// A page is never empty and never larger than the maximum: a size in between
/// is taken as it is, a larger one is cut, none is refused, and without a size
/// the default holds.
pub proof fn law_page_size_is_bounded(params: JsonView, n: u64)
    ensures
        params::limit_of(params) matches Ok(limit) ==> 1 <= limit <= 200,
        json::get_spec(params, "page"@) is None ==> params::limit_of(params) == Ok::<
            u32,
            commands::Refusal,
        >(20u32),
        json::get_spec(params, "page"@) matches Some(page) && page is Object && json::u64_spec(
            json::get_spec(page, "page_size"@),
        ) == Some(n) ==> {
            &&& n == 0 ==> params::limit_of(params) is Err
            &&& 1 <= n <= 200 ==> (params::limit_of(params) matches Ok(limit) && limit == n)
            &&& n > 200 ==> (params::limit_of(params) matches Ok(limit) && limit == 200)
        },
{
}

/// Events are read after the cursor that is given, and from the beginning
/// where none is.
pub proof fn law_event_cursor_is_taken(params: JsonView, n: u64)
    ensures
        json::get_spec(params, "after_cursor"@) is None ==> params::cursor_after(params) == Ok::<
            u64,
            commands::Refusal,
        >(0u64),
        json::u64_spec(json::get_spec(params, "after_cursor"@)) == Some(n) && n <= i64::MAX
            ==> params::cursor_after(params) == Ok::<u64, commands::Refusal>(n),
        json::u64_spec(json::get_spec(params, "after_cursor"@)) == Some(n) && n > i64::MAX
            ==> params::cursor_after(params) is Err,
{
}

proof fn lemma_decimal(n: nat)
    ensures
        text::all_digits(text::decimal(n)),
        text::digits_value(text::decimal(n)) == n,
        text::decimal(n).len() > 0,
    decreases n,
{
    if n < 10 {
        let d = text::decimal(n);
        assert(d =~= seq![text::digit(n)]);
        assert(d.drop_last() =~= Seq::<char>::empty());
        assert(text::is_digit(d[0]));
        reveal_with_fuel(text::digits_value, 2);
    } else {
        lemma_decimal(n / 10);
        let d = text::decimal(n);
        assert(d.drop_last() =~= text::decimal(n / 10));
        assert(d.last() == text::digit(n % 10));
        assert forall|i: int| 0 <= i < d.len() implies text::is_digit(#[trigger] d[i]) by {
            if i < d.len() - 1 {
                assert(d[i] == text::decimal(n / 10)[i]);
            }
        }
    }
}

proof fn lemma_number_reads_back(n: u64)
    ensures
        text::unsigned_value(text::decimal(n as nat)) == Some(n),
        forall|i: int|
            0 <= i < text::decimal(n as nat).len() ==> text::is_digit(
                #[trigger] text::decimal(n as nat)[i],
            ),
{
    let d = text::decimal(n as nat);
    lemma_decimal(n as nat);
    assert(text::is_digit(d[0]));
    assert(d[0] != '+');
    assert(text::unsigned_digits(d) == d);
}

/// A page cursor reads back: a generation and an offset that are written one
/// after the other are what the cursor stands for; a cursor without an offset
/// stands at the beginning of its generation.
pub proof fn law_page_cursor_reads_back(generation: u64, offset: u64)
    ensures
        params::cursor_text("gen:"@ + text::decimal(generation as nat)) == Ok::<
            (u64, u64),
            commands::Refusal,
        >((generation, 0u64)),
        offset <= i64::MAX ==> params::cursor_text(
            "gen:"@ + (text::decimal(generation as nat) + ":offset:"@ + text::decimal(
                offset as nat,
            )),
        ) == Ok::<(u64, u64), commands::Refusal>((generation, offset)),
{
    let g = text::decimal(generation as nat);
    let o = text::decimal(offset as nat);
    lemma_number_reads_back(generation);
    lemma_number_reads_back(offset);
    reveal_strlit("gen:");
    reveal_strlit(":offset:");
    let p = ":offset:"@;
    assert(("gen:"@ + g).take(4) =~= "gen:"@);
    assert(("gen:"@ + g).skip(4) =~= g);
    assert forall|i: int| 0 <= i < g.len() implies #[trigger] g[i] != ':' by {
        assert(text::is_digit(g[i]));
    }
    lemma_no_text_at(g, p);
    let rest = g + p + o;
    assert(("gen:"@ + rest).take(4) =~= "gen:"@);
    assert(("gen:"@ + rest).skip(4) =~= rest);
    let n = g.len() as int;
    assert(rest.subrange(n, n + p.len()) =~= p);
    assert forall|i: int| 0 <= i < n implies #[trigger] rest[i] != p[0] by {
        assert(rest[i] == g[i]);
    }
    crate::policy::spelling::lemma_text_at(rest, p, n);
    assert(rest.take(n) =~= g);
    assert(rest.skip(n + p.len()) =~= o);
}

proof fn lemma_no_text_at(s: Seq<char>, p: Seq<char>)
    requires
        p.len() > 0,
        forall|i: int| 0 <= i < s.len() ==> #[trigger] s[i] != p[0],
    ensures
        scan::text_at(s, p) is None,
    decreases s.len(),
{
    if text::has_prefix(s, p) {
        assert(s.take(p.len() as int)[0] == s[0]);
    }
    if s.len() > 0 {
        let t = s.skip(1);
        assert forall|i: int| 0 <= i < t.len() implies #[trigger] t[i] != p[0] by {
            assert(t[i] == s[i + 1]);
        }
        lemma_no_text_at(t, p);
    }
}

/// A selection is one thing: an option that is named, or a text of one's own
/// within the limit; one that names both is refused.
pub proof fn law_selection_is_one_thing(value: JsonView)
    ensures
        params::selection_of(value) matches Ok(AnswerSelection::Option { option_id })
            ==> params::text_of_param(value, "kind"@) == Some("option"@) && params::text_of_param(
            value,
            "option_id"@,
        ) == Some(option_id.0) && option_id.0.len() > 0 && json::get_spec(value, "text"@) is None,
        params::selection_of(value) matches Ok(AnswerSelection::Custom { text }) ==> params::text_of_param(
            value,
            "kind"@,
        ) == Some("custom"@) && params::text_of_param(value, "text"@) == Some(text)
            && json::get_spec(value, "option_id"@) is None && vstd::utf8::encode_utf8(text).len()
            <= contracts::TEXT_MAX_BYTES,
        json::get_spec(value, "text"@) is Some && json::get_spec(value, "option_id"@) is Some
            ==> params::selection_of(value) is Err,
{
    reveal_strlit("option");
    reveal_strlit("custom");
    assert("option"@[0] != "custom"@[0]);
}

// ----- routing ---------------------------------------------------------------

proof fn lemma_methods_differ()
    ensures
        ({
            let all = seq![
                "session.open"@,
                "session.attach"@,
                "session.close"@,
                "runtime.status"@,
                "config.read"@,
                "task.submit"@,
                "task.snapshot"@,
                "question.current"@,
                "events.read"@,
                "task.collection"@,
                "command.describe"@,
                "command.execute"@,
                "artifact.read"@,
            ];
            forall|i: int, j: int| 0 <= i < j < 13 ==> #[trigger] all[i] != #[trigger] all[j]
        }),
{
    reveal_strlit("session.open");
    reveal_strlit("session.attach");
    reveal_strlit("session.close");
    reveal_strlit("runtime.status");
    reveal_strlit("config.read");
    reveal_strlit("task.submit");
    reveal_strlit("task.snapshot");
    reveal_strlit("question.current");
    reveal_strlit("events.read");
    reveal_strlit("task.collection");
    reveal_strlit("command.describe");
    reveal_strlit("command.execute");
    reveal_strlit("artifact.read");
    let all = seq![
        "session.open"@,
        "session.attach"@,
        "session.close"@,
        "runtime.status"@,
        "config.read"@,
        "task.submit"@,
        "task.snapshot"@,
        "question.current"@,
        "events.read"@,
        "task.collection"@,
        "command.describe"@,
        "command.execute"@,
        "artifact.read"@,
    ];
    let mark = |s: Seq<char>| (s.len(), s[0]);
    assert forall|i: int, j: int| 0 <= i < j < 13 implies #[trigger] all[i]
        != #[trigger] all[j] by {
        assert(mark(all[i]) != mark(all[j]));
    }
}

/// A method that needs a session is refused without one; the parameters of a
/// call are those of the request; and what is no method is refused by name.
pub proof fn law_method_is_routed(
    params: JsonView,
    digest: Seq<char>,
    workflow: EntryView,
    session: Seq<char>,
    task: Seq<char>,
    method: Seq<char>,
)
    requires
        params::text_of_param(params, "session_id"@) == Some(session),
        params::text_of_param(params, "task_id"@) == Some(task),
    ensures
        methods::planned("task.snapshot"@, params, digest, workflow) == PlanView::Call(
            CallView::Snapshot { task },
        ),
        methods::planned("question.current"@, params, digest, workflow) == PlanView::Call(
            CallView::CurrentQuestion { task },
        ),
        methods::planned("command.describe"@, params, digest, workflow) == PlanView::Call(
            CallView::Describe,
        ),
        params::limit_of(params) is Ok && params::cursor_of(params) is Ok ==> methods::planned(
            "runtime.status"@,
            params,
            digest,
            workflow,
        ) == PlanView::Call(
            CallView::Status {
                session,
                cursor: params::cursor_of(params)->Ok_0,
                limit: params::limit_of(params)->Ok_0,
            },
        ),
        params::limit_of(params) is Ok && params::cursor_after(params) is Ok ==> methods::planned(
            "events.read"@,
            params,
            digest,
            workflow,
        ) == PlanView::Call(
            CallView::Events {
                session,
                task: Some(task),
                after: params::cursor_after(params)->Ok_0,
                limit: params::limit_of(params)->Ok_0,
            },
        ),
        methods::planned("artifact.read"@, params, digest, workflow) == PlanView::Refuse(
            RequestError::ArtifactReadUnavailable,
        ),
        !commands::is_method(method) ==> methods::planned(method, params, digest, workflow)
            == PlanView::Refuse(RequestError::UnknownMethod { method }),
{
    lemma_methods_differ();
    let all = seq![
        "session.open"@,
        "session.attach"@,
        "session.close"@,
        "runtime.status"@,
        "config.read"@,
        "task.submit"@,
        "task.snapshot"@,
        "question.current"@,
        "events.read"@,
        "task.collection"@,
        "command.describe"@,
        "command.execute"@,
        "artifact.read"@,
    ];
    assert(all[0] == "session.open"@ && all[1] == "session.attach"@ && all[2] == "session.close"@
        && all[3] == "runtime.status"@ && all[4] == "config.read"@ && all[5] == "task.submit"@
        && all[6] == "task.snapshot"@ && all[7] == "question.current"@ && all[8] == "events.read"@
        && all[9] == "task.collection"@ && all[10] == "command.describe"@ && all[11]
        == "command.execute"@ && all[12] == "artifact.read"@);
}

/// Without a session no read of one is made.
pub proof fn law_session_is_required(
    params: JsonView,
    digest: Seq<char>,
    workflow: EntryView,
    method: Seq<char>,
)
    requires
        params::text_of_param(params, "session_id"@) is None,
    ensures
        methods::planned(method, params, digest, workflow) matches PlanView::Call(c)
            ==> c is OpenSession || c is Describe || c is Local,
        methods::submitted(Ingress::TrustedHuman, params) == PlanView::Refuse(
            RequestError::Required { field: "session_id"@ },
        ),
        methods::submitted(Ingress::Machine, params) == PlanView::Refuse(
            RequestError::Required { field: "session_id"@ },
        ),
{
}

/// A submitted command says what it was asked: a call that comes of it carries
/// the session, the task and the revisions of its parameters, and a person's
/// and a machine's creations are told apart.
pub proof fn law_command_says_what_was_asked(ingress: Ingress, params: JsonView)
    ensures
        methods::submitted(ingress, params) matches PlanView::Call(c) ==> c is Create || c is Answer
            || c is Steer || c is Cancel,
        methods::submitted(ingress, params) matches PlanView::Call(Call::Create {
            session,
            command_id,
            principal,
            goal,
            parent,
            ..
        }) ==> {
            &&& params::text_of_param(params, "kind"@) == Some("create"@)
            &&& params::text_of_param(params, "session_id"@) == Some(session)
            &&& params::text_of_param(params, "command_id"@) == Some(command_id)
            &&& params::text_of_param(params, "goal"@) == Some(goal)
            &&& params::text_of_param(params, "parent_task_id"@) == parent
            &&& ingress == Ingress::Machine ==> principal == "machine"@
            &&& ingress == Ingress::TrustedHuman ==> principal == "local_user"@
            &&& json::get_spec(params, "task_id"@) is None
        },
        methods::submitted(ingress, params) matches PlanView::Call(Call::Answer {
            session,
            task,
            expected_intent,
            question,
            question_revision,
            ..
        }) ==> {
            &&& params::text_of_param(params, "kind"@) == Some("answer"@)
            &&& params::text_of_param(params, "session_id"@) == Some(session)
            &&& params::text_of_param(params, "task_id"@) == Some(task)
            &&& params::text_of_param(params, "question_id"@) == Some(question)
            &&& params::number_of_param(params, "expected_intent_revision"@) == Some(
                expected_intent,
            )
            &&& params::number_of_param(params, "question_revision"@) == Some(question_revision)
            &&& ingress == Ingress::TrustedHuman
        },
        methods::submitted(ingress, params) matches PlanView::Call(Call::Steer {
            session,
            task,
            expected_intent,
            expected_task,
            instruction,
        }) ==> {
            &&& params::text_of_param(params, "kind"@) == Some("steer"@)
            &&& params::text_of_param(params, "session_id"@) == Some(session)
            &&& params::text_of_param(params, "task_id"@) == Some(task)
            &&& params::number_of_param(params, "expected_intent_revision"@) == Some(
                expected_intent,
            )
            &&& params::number_of_param(params, "expected_task_revision"@) == Some(expected_task)
            &&& params::text_of_param(params, "instruction"@) == Some(instruction)
        },
        methods::submitted(ingress, params) matches PlanView::Call(Call::Cancel {
            session,
            task,
            expected_intent,
            reason,
        }) ==> {
            &&& params::text_of_param(params, "kind"@) == Some("cancel"@)
            &&& params::text_of_param(params, "session_id"@) == Some(session)
            &&& params::text_of_param(params, "task_id"@) == Some(task)
            &&& params::number_of_param(params, "expected_intent_revision"@) == Some(
                expected_intent,
            )
            &&& params::text_of_param(params, "reason"@) == reason
        },
{
    reveal_strlit("create");
    reveal_strlit("answer");
    reveal_strlit("steer");
    reveal_strlit("cancel");
    let none = Seq::<char>::empty();
    assert("create"@.len() == 6 && "answer"@.len() == 6 && "steer"@.len() == 5 && "cancel"@.len()
        == 6);
    assert(none != "create"@ && none != "answer"@ && none != "steer"@ && none != "cancel"@);
}

/// A local command is an edit of one key: a set carries the value that was
/// given, an unset none; a command that is known but not built is told apart
/// from an unknown one.
pub proof fn law_local_command_is_one_edit(
    local: LocalKind,
    kind: Seq<char>,
    params: JsonView,
    key: Seq<char>,
    value: JsonView,
)
    requires
        params::text_of_param(params, "session_id"@) is Some,
        params::text_of_param(params, "key"@) == Some(key),
        json::get_spec(params, "value"@) == Some(value),
    ensures
        carrier::local_plan(LocalKind::ConfigSet, kind, params) == Ok::<EditView, commands::Refusal>(
            EditView::Assign { key, value },
        ),
        carrier::local_plan(LocalKind::ConfigUnset, kind, params) == Ok::<
            EditView,
            commands::Refusal,
        >(EditView::Unset { key }),
        carrier::local_plan(LocalKind::Unknown, kind, params) == Err::<EditView, commands::Refusal>(
            RequestError::UnknownLocalCommand { command: kind },
        ),
        carrier::local_plan(LocalKind::PlannedUnimplemented, kind, params) == Err::<
            EditView,
            commands::Refusal,
        >(RequestError::KnownCommandUnavailable { command: kind }),
{
}

// ----- submitted commands ----------------------------------------------------

/// How an answer goes on: with the expected revision it is stored as a
/// person's, otherwise it is refused as stale; a stored answer builds its node
/// under the grant; a runnable node is drained, and the result is that of the
/// store.
pub proof fn law_answer_goes_through(
    grant: Seq<char>,
    session: Seq<char>,
    task: Seq<char>,
    expected_intent: u64,
    question: Seq<char>,
    question_revision: u64,
    selection: AnswerSelection<Seq<char>>,
    current: u64,
    result: JsonView,
)
    ensures
        ({
            let call = CallView::Answer {
                session,
                task,
                expected_intent,
                question,
                question_revision,
                selection,
            };
            let stored = StepView::StoreAnswer {
                session,
                task,
                question,
                question_revision,
                selection,
                answered_by: "human"@,
            };
            let node = StepView::SubmitNode { task, selection, grant, result };
            let drain = StepView::Drain { session, result };
            let done = StepView::End(Submitted::Done(result));
            &&& submit::submit_step(call, grant, SubmitStep::Start, SubmitEvent::Go) == (
            StepView::ReadIntent { task })
            &&& current == expected_intent ==> submit::submit_step(
                call,
                grant,
                StepView::ReadIntent { task },
                SubmitEvent::Snapshot(Ok(current)),
            ) == stored
            &&& current != expected_intent ==> submit::submit_step(
                call,
                grant,
                StepView::ReadIntent { task },
                SubmitEvent::Snapshot(Ok(current)),
            ) == StepView::End(
                Submitted::Refused(StoreError::StaleIntent { expected: expected_intent, current }),
            )
            &&& submit::submit_step(call, grant, stored, SubmitEvent::Stored(Ok(result))) == node
            &&& submit::submit_step(call, grant, node, SubmitEvent::Submitted(Ok(true))) == drain
            &&& submit::submit_step(call, grant, node, SubmitEvent::Submitted(Ok(false))) == done
            &&& submit::submit_step(call, grant, drain, SubmitEvent::Scheduled(Ok(()))) == done
        }),
{
}

/// How a creation goes on: its row carries what was asked, below a parent only
/// once the parent was found, and the child is then adopted by that parent.
pub proof fn law_creation_goes_through(
    grant: Seq<char>,
    session: Seq<char>,
    command_id: Seq<char>,
    principal: Seq<char>,
    goal: Seq<char>,
    criteria: Seq<Seq<char>>,
    constraints: Seq<Seq<char>>,
    parent: Seq<char>,
    child: Seq<char>,
    revision: u64,
    result: JsonView,
)
    ensures
        ({
            let alone = CallView::Create {
                session,
                command_id,
                principal,
                goal,
                criteria,
                constraints,
                parent: None,
            };
            let below = CallView::Create {
                session,
                command_id,
                principal,
                goal,
                criteria,
                constraints,
                parent: Some(parent),
            };
            let row = StepView::CreateRow {
                session,
                command_id,
                principal,
                goal,
                criteria,
                constraints,
            };
            let done = StepView::End(Submitted::Done(result));
            &&& submit::submit_step(alone, grant, SubmitStep::Start, SubmitEvent::Go) == row
            &&& submit::submit_step(alone, grant, row, SubmitEvent::Created(Ok((child, result))))
                == done
            &&& submit::submit_step(below, grant, SubmitStep::Start, SubmitEvent::Go) == (
            StepView::ReadParent { parent })
            &&& submit::submit_step(
                below,
                grant,
                StepView::ReadParent { parent },
                SubmitEvent::Snapshot(Ok(revision)),
            ) == row
            &&& submit::submit_step(below, grant, row, SubmitEvent::Created(Ok((child, result))))
                == (StepView::Adopt { child, parent, result })
            &&& submit::submit_step(
                below,
                grant,
                StepView::Adopt { child, parent, result },
                SubmitEvent::Adopted,
            ) == done
        }),
{
}

/// How a steering and a cancellation go on: each is stored with the revisions
/// that were expected, a cancelled task has the rest of its tree cancelled
/// too, and the result is that of the store.
pub proof fn law_steer_and_cancel_go_through(
    grant: Seq<char>,
    session: Seq<char>,
    task: Seq<char>,
    expected_intent: u64,
    expected_task: u64,
    instruction: Seq<char>,
    reason: Option<Seq<char>>,
    result: JsonView,
)
    ensures
        ({
            let steer = CallView::Steer {
                session,
                task,
                expected_intent,
                expected_task,
                instruction,
            };
            let cancel = CallView::Cancel { session, task, expected_intent, reason };
            let steering = StepView::StoreSteer {
                session,
                task,
                expected_intent,
                expected_task,
                instruction,
            };
            let cancelling = StepView::StoreCancel { session, task, expected_intent, reason };
            let tree = StepView::CancelTree { task, result };
            let done = StepView::End(Submitted::Done(result));
            &&& submit::submit_step(steer, grant, SubmitStep::Start, SubmitEvent::Go) == steering
            &&& submit::submit_step(steer, grant, steering, SubmitEvent::Stored(Ok(result)))
                == done
            &&& submit::submit_step(cancel, grant, SubmitStep::Start, SubmitEvent::Go)
                == cancelling
            &&& submit::submit_step(cancel, grant, cancelling, SubmitEvent::Stored(Ok(result)))
                == tree
            &&& submit::submit_step(cancel, grant, tree, SubmitEvent::Scheduled(Ok(()))) == done
        }),
{
}

/// A store that refuses ends the command with its error, whatever the step,
/// and a scheduler that fails ends it with its code; neither is reported as
/// done.
pub proof fn law_refused_command_ends(
    call: CallView,
    grant: Seq<char>,
    at: StepView,
    e: StoreError<Seq<char>>,
    code: ErrorCode,
    message: Seq<char>,
)
    ensures
        submit::fits(at, EventView::Stored(Err(e))) ==> submit::submit_step(
            call,
            grant,
            at,
            SubmitEvent::Stored(Err(e)),
        ) == StepView::End(Submitted::Refused(e)),
        submit::fits(at, EventView::Snapshot(Err(e))) ==> submit::submit_step(
            call,
            grant,
            at,
            SubmitEvent::Snapshot(Err(e)),
        ) == StepView::End(Submitted::Refused(e)),
        submit::fits(at, EventView::Created(Err(e))) ==> submit::submit_step(
            call,
            grant,
            at,
            SubmitEvent::Created(Err(e)),
        ) == StepView::End(Submitted::Refused(e)),
        submit::fits(at, EventView::Submitted(Err((code, message)))) ==> submit::submit_step(
            call,
            grant,
            at,
            SubmitEvent::Submitted(Err((code, message))),
        ) == StepView::End(Submitted::Unscheduled { code, message }),
        submit::fits(at, EventView::Scheduled(Err((code, message)))) ==> submit::submit_step(
            call,
            grant,
            at,
            SubmitEvent::Scheduled(Err((code, message))),
        ) == StepView::End(Submitted::Unscheduled { code, message }),
{
}

} // verus!
