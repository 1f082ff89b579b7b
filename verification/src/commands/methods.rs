//! What each method asks of the runtime.

use crate::commands::params::{
    self, after_cursor, page_limit, parse_selection, status_cursor, string_array, text_param,
};
use crate::commands::{
    self, request_error, store_error, Ingress, OpenedRequest, RequestError,
};
use crate::config::WORKFLOW_KEY;
use crate::config::effective::{self, ConfigEntry, EffectiveConfig};
use crate::contracts::{self, AnswerSelection, RpcResponse, SCHEMA_VERSION};
use crate::json::{self, add_item, number_json, put, text_json, Json};
use crate::state::StoreError;
use crate::text::{self, owned, same};
use vstd::prelude::*;

verus! {

/// One call of the runtime. `T` is text, `L` a list of texts, `J` a JSON
/// value.
#[derive(Debug)]
pub enum Call<T = String, L = Vec<String>> {
    OpenSession { bootstrap: T, attach_to: Option<T> },
    Status { session: T, cursor: Option<(u64, u64)>, limit: u32 },
    Snapshot { task: T },
    CurrentQuestion { task: T },
    Events { session: T, task: Option<T>, after: u64, limit: u32 },
    Collection { task: T, collection: T, cursor: Option<(u64, u64)>, limit: u32 },
    Describe,
    /// A local command: its kind decides what it is.
    Local { kind: T },
    /// A parent that is named must exist before a row is written.
    Create {
        session: T,
        command_id: T,
        principal: T,
        goal: T,
        criteria: L,
        constraints: L,
        parent: Option<T>,
    },
    /// The intent must still have the expected revision.
    Answer {
        session: T,
        task: T,
        expected_intent: u64,
        question: T,
        question_revision: u64,
        selection: AnswerSelection<T>,
    },
    Steer {
        session: T,
        task: T,
        expected_intent: u64,
        expected_task: u64,
        instruction: T,
    },
    Cancel { session: T, task: T, expected_intent: u64, reason: Option<T> },
}

/// A call over mathematical values.
pub type CallView = Call<Seq<char>, Seq<Seq<char>>>;

impl View for Call {
    type V = CallView;

    open spec fn view(&self) -> CallView {
        match self {
            Call::OpenSession { bootstrap, attach_to } => Call::OpenSession {
                bootstrap: bootstrap@,
                attach_to: text::opt_text(*attach_to),
            },
            Call::Status { session, cursor, limit } => Call::Status {
                session: session@,
                cursor: *cursor,
                limit: *limit,
            },
            Call::Snapshot { task } => Call::Snapshot { task: task@ },
            Call::CurrentQuestion { task } => Call::CurrentQuestion { task: task@ },
            Call::Events { session, task, after, limit } => Call::Events {
                session: session@,
                task: text::opt_text(*task),
                after: *after,
                limit: *limit,
            },
            Call::Collection { task, collection, cursor, limit } => Call::Collection {
                task: task@,
                collection: collection@,
                cursor: *cursor,
                limit: *limit,
            },
            Call::Describe => Call::Describe,
            Call::Local { kind } => Call::Local { kind: kind@ },
            Call::Create { session, command_id, principal, goal, criteria, constraints, parent } =>
                Call::Create {
                session: session@,
                command_id: command_id@,
                principal: principal@,
                goal: goal@,
                criteria: text::texts(criteria@),
                constraints: text::texts(constraints@),
                parent: text::opt_text(*parent),
            },
            Call::Answer {
                session,
                task,
                expected_intent,
                question,
                question_revision,
                selection,
            } => Call::Answer {
                session: session@,
                task: task@,
                expected_intent: *expected_intent,
                question: question@,
                question_revision: *question_revision,
                selection: selection@,
            },
            Call::Steer { session, task, expected_intent, expected_task, instruction } =>
                Call::Steer {
                session: session@,
                task: task@,
                expected_intent: *expected_intent,
                expected_task: *expected_task,
                instruction: instruction@,
            },
            Call::Cancel { session, task, expected_intent, reason } => Call::Cancel {
                session: session@,
                task: task@,
                expected_intent: *expected_intent,
                reason: text::opt_text(*reason),
            },
        }
    }
}

/// What a method comes to: a refusal, a result, or a call.
#[derive(Debug)]
pub enum Plan {
    Refuse(RequestError),
    Result(Json),
    Call(Call),
}

/// The mathematical value of a plan.
pub enum PlanView {
    Refuse(commands::Refusal),
    Result(json::JsonView),
    Call(CallView),
}

impl View for Plan {
    type V = PlanView;

    open spec fn view(&self) -> PlanView {
        match self {
            Plan::Refuse(e) => PlanView::Refuse(e@),
            Plan::Result(j) => PlanView::Result(j@),
            Plan::Call(c) => PlanView::Call(c@),
        }
    }
}

pub open spec fn require(field: Seq<char>) -> PlanView {
    PlanView::Refuse(RequestError::Required { field })
}

fn required(field: &'static str) -> (r: Plan)
    ensures
        r@ == require(field@),
{
    Plan::Refuse(RequestError::Required { field })
}

// ----- results ---------------------------------------------------------------
//
// The fields of a result stand in the order of their names.

/// What a session is reported as.
pub open spec fn session_json(
    session: Seq<char>,
    generation: u64,
    state: Seq<char>,
    attachment: Seq<char>,
) -> json::JsonView {
    json::JsonView::Object(
        seq![
            ("attachment_id"@, json::JsonView::Text(attachment)),
            (
                "owner_generation"@,
                json::JsonView::Number(text::decimal(generation as nat)),
            ),
            (
                "schema_version"@,
                json::JsonView::Number(text::decimal(SCHEMA_VERSION as nat)),
            ),
            ("session_id"@, json::JsonView::Text(session)),
            ("session_revision"@, json::JsonView::Number(text::decimal(1))),
            ("state"@, json::JsonView::Text(state)),
        ],
    )
}

fn session_result(session: &str, generation: u64, state: &str, attachment: &str) -> (r: Json)
    ensures
        r@ == session_json(session@, generation, state@, attachment@),
{
    let mut fields: Vec<(String, Json)> = Vec::new();
    put(&mut fields, "attachment_id", text_json(attachment));
    put(&mut fields, "owner_generation", number_json(generation));
    put(&mut fields, "schema_version", number_json(SCHEMA_VERSION as u64));
    put(&mut fields, "session_id", text_json(session));
    put(&mut fields, "session_revision", number_json(1));
    put(&mut fields, "state", text_json(state));
    assert(json::object_views(fields@) =~= session_json(
        session@,
        generation,
        state@,
        attachment@,
    )->Object_0);
    Json::Object(fields)
}

/// A session that the store opened.
#[derive(Debug)]
pub struct SessionOpened {
    pub session: String,
    pub attachment: String,
    pub generation: u64,
}

/// The reply to an opened session.
pub fn session_reply(id: Json, session: Result<SessionOpened, StoreError>) -> (r: RpcResponse)
    ensures
        r@ == (match session {
            Ok(s) => contracts::succeeded(
                id@,
                session_json(s.session@, s.generation, "attached"@, s.attachment@),
            ),
            Err(e) => commands::store_failed(id@, e@),
        }),
{
    match session {
        Ok(s) => RpcResponse::ok(
            id,
            session_result(
                s.session.as_str(),
                s.generation,
                "attached",
                s.attachment.as_str(),
            ),
        ),
        Err(e) => store_error(id, &e),
    }
}

/// A page that is the last one.
pub open spec fn page_json(items: Seq<json::JsonView>, generation: u64) -> json::JsonView {
    json::JsonView::Object(
        seq![
            ("items"@, json::JsonView::Array(items)),
            (
                "snapshot_generation"@,
                json::JsonView::Number(text::decimal(generation as nat)),
            ),
        ],
    )
}

fn page_result(page: contracts::Page<Json>) -> (r: Json)
    requires
        page.next_cursor is None,
    ensures
        r@ == page_json(json::array_views(page.items@), page.snapshot_generation),
{
    let ghost want = page_json(json::array_views(page.items@), page.snapshot_generation);
    let mut fields: Vec<(String, Json)> = Vec::new();
    put(&mut fields, "items", Json::Array(page.items));
    put(&mut fields, "snapshot_generation", number_json(page.snapshot_generation));
    assert(json::object_views(fields@) =~= want->Object_0);
    Json::Object(fields)
}

/// The reply of the event read: one page of what the store gave, whose
/// generation is the cursor.
pub fn events_reply(id: Json, after: u64, events: Result<Vec<Json>, StoreError>) -> (r: RpcResponse)
    ensures
        r@ == (match events {
            Ok(items) => contracts::succeeded(
                id@,
                page_json(json::array_views(items@), after),
            ),
            Err(e) => commands::store_failed(id@, e@),
        }),
{
    match events {
        Ok(items) => RpcResponse::ok(id, page_result(contracts::Page::new(items, after))),
        Err(e) => store_error(id, &e),
    }
}

/// What the configuration read serves.
#[derive(Debug)]
pub struct ConfigReadResult<T = String> {
    pub schema_version: u32,
    pub source_digest: T,
    pub entries: contracts::Page<ConfigEntry>,
}

/// The reply of the configuration read: one entry, and the digest of both
/// sources.
pub open spec fn config_json(
    digest: Seq<char>,
    entry: effective::EntryView,
) -> json::JsonView {
    json::JsonView::Object(
        seq![
            (
                "entries"@,
                page_json(seq![effective::entry_json(entry)], 0),
            ),
            (
                "schema_version"@,
                json::JsonView::Number(text::decimal(SCHEMA_VERSION as nat)),
            ),
            ("source_digest"@, json::JsonView::Text(digest)),
        ],
    )
}

fn config_result(digest: &str, entry: &ConfigEntry) -> (r: Json)
    ensures
        r@ == config_json(digest@, entry@),
{
    let mut items: Vec<Json> = Vec::new();
    add_item(&mut items, entry.to_json());
    assert(json::array_views(items@) =~= seq![
        effective::entry_json(entry@),
    ]);
    let page: Json = page_result(contracts::Page::new(items, 0));
    let mut fields: Vec<(String, Json)> = Vec::new();
    put(&mut fields, "entries", page);
    put(&mut fields, "schema_version", number_json(SCHEMA_VERSION as u64));
    put(&mut fields, "source_digest", text_json(digest));
    proof {
        let want = config_json(digest@, entry@)->Object_0;
        assert(json::object_views(fields@) =~= want);
    }
    Json::Object(fields)
}

/// What the status read serves.
#[derive(Debug)]
pub struct StatusResult<T = String> {
    pub schema_version: u32,
    pub session_id: T,
    pub owner_generation: u64,
    pub state: T,
    pub workflow: ConfigEntry,
    pub tasks: Json,
    pub todo: Json,
    pub scheduler: Json,
}

/// The reply of the status read.
pub open spec fn status_json(
    session: Seq<char>,
    generation: u64,
    workflow: effective::EntryView,
    tasks: json::JsonView,
    todo: json::JsonView,
    scheduler: json::JsonView,
) -> json::JsonView {
    json::JsonView::Object(
        seq![
            (
                "owner_generation"@,
                json::JsonView::Number(text::decimal(generation as nat)),
            ),
            ("scheduler"@, scheduler),
            (
                "schema_version"@,
                json::JsonView::Number(text::decimal(SCHEMA_VERSION as nat)),
            ),
            ("session_id"@, json::JsonView::Text(session)),
            ("state"@, json::JsonView::Text("ready"@)),
            ("tasks"@, tasks),
            ("todo"@, todo),
            ("workflow"@, effective::entry_json(workflow)),
        ],
    )
}

/// The reply of the status read: the first page that the store does not give
/// is its error.
pub fn status_reply(
    id: Json,
    session: &str,
    generation: u64,
    workflow: &ConfigEntry,
    tasks: Result<Json, StoreError>,
    todo: Result<Json, StoreError>,
    scheduler: Result<Json, StoreError>,
) -> (r: RpcResponse)
    ensures
        r@ == (match (tasks, todo, scheduler) {
            (Err(e), _, _) => commands::store_failed(id@, e@),
            (Ok(_), Err(e), _) => commands::store_failed(id@, e@),
            (Ok(_), Ok(_), Err(e)) => commands::store_failed(id@, e@),
            (Ok(a), Ok(b), Ok(c)) => contracts::succeeded(
                id@,
                status_json(session@, generation, workflow@, a@, b@, c@),
            ),
        }),
{
    let a: Json = match tasks {
        Ok(v) => v,
        Err(e) => {
            return store_error(id, &e);
        },
    };
    let b: Json = match todo {
        Ok(v) => v,
        Err(e) => {
            return store_error(id, &e);
        },
    };
    let c: Json = match scheduler {
        Ok(v) => v,
        Err(e) => {
            return store_error(id, &e);
        },
    };
    let ghost want = status_json(session@, generation, workflow@, a@, b@, c@);
    let mut fields: Vec<(String, Json)> = Vec::new();
    put(&mut fields, "owner_generation", number_json(generation));
    put(&mut fields, "scheduler", c);
    put(&mut fields, "schema_version", number_json(SCHEMA_VERSION as u64));
    put(&mut fields, "session_id", text_json(session));
    put(&mut fields, "state", text_json("ready"));
    put(&mut fields, "tasks", a);
    put(&mut fields, "todo", b);
    put(&mut fields, "workflow", workflow.to_json());
    assert(json::object_views(fields@) =~= want->Object_0);
    RpcResponse::ok(id, Json::Object(fields))
}

/// The reply to the question read.
pub open spec fn question_json(
    task: Seq<char>,
    task_revision: u64,
    intent_revision: u64,
    question: json::JsonView,
) -> json::JsonView {
    json::JsonView::Object(
        seq![
            (
                "intent_revision"@,
                json::JsonView::Number(text::decimal(intent_revision as nat)),
            ),
            ("question"@, question),
            (
                "schema_version"@,
                json::JsonView::Number(text::decimal(SCHEMA_VERSION as nat)),
            ),
            ("task_id"@, json::JsonView::Text(task)),
            (
                "task_revision"@,
                json::JsonView::Number(text::decimal(task_revision as nat)),
            ),
        ],
    )
}

/// A question as the store holds it.
#[derive(Debug)]
pub struct StoredQuestion {
    pub question: Json,
    pub intent_revision: u64,
    pub task_revision: u64,
}

/// The revisions of a snapshot.
#[derive(Debug, Clone, Copy, PartialEq, Eq, Structural)]
pub struct Revisions {
    pub task: u64,
    pub intent: u64,
}

/// The reply to the question read: without a question the revisions are
/// those of the snapshot.
pub fn question_reply(
    id: Json,
    task: &str,
    question: Result<Option<StoredQuestion>, StoreError>,
    snapshot: Result<Revisions, StoreError>,
) -> (r: RpcResponse)
    ensures
        r@ == (match question {
            Err(e) => commands::store_failed(id@, e@),
            Ok(Some(q)) => contracts::succeeded(
                id@,
                question_json(task@, q.task_revision, q.intent_revision, q.question@),
            ),
            Ok(None) => match snapshot {
                Err(e) => commands::store_failed(id@, e@),
                Ok(s) => contracts::succeeded(
                    id@,
                    question_json(task@, s.task, s.intent, json::JsonView::Null),
                ),
            },
        }),
{
    let (task_revision, intent_revision, value): (u64, u64, Json) = match question {
        Err(e) => {
            return store_error(id, &e);
        },
        Ok(Some(q)) => (q.task_revision, q.intent_revision, q.question),
        Ok(None) => match snapshot {
            Err(e) => {
                return store_error(id, &e);
            },
            Ok(s) => (s.task, s.intent, Json::Null),
        },
    };
    let ghost want = question_json(task@, task_revision, intent_revision, value@);
    let mut fields: Vec<(String, Json)> = Vec::new();
    put(&mut fields, "intent_revision", number_json(intent_revision));
    put(&mut fields, "question", value);
    put(&mut fields, "schema_version", number_json(SCHEMA_VERSION as u64));
    put(&mut fields, "task_id", text_json(task));
    put(&mut fields, "task_revision", number_json(task_revision));
    assert(json::object_views(fields@) =~= want->Object_0);
    RpcResponse::ok(id, Json::Object(fields))
}

// ----- methods ---------------------------------------------------------------

/// The first key that cannot be served, from a position on: one that is no
/// string, one that came before, or one that is not known.
pub open spec fn key_problem(items: Seq<json::JsonView>, from: int) -> Option<
    commands::Refusal,
>
    decreases items.len() - from,
{
    if from < 0 || from >= items.len() {
        None
    } else {
        match items[from] {
            json::JsonView::Text(key) => if items.take(from).contains(items[from]) {
                Some(RequestError::DuplicateKey { key })
            } else if key != WORKFLOW_KEY@ {
                Some(RequestError::InvalidKey { key })
            } else {
                key_problem(items, from + 1)
            },
            _ => Some(RequestError::KeysNotStrings),
        }
    }
}

/// The keys that a configuration read asks for.
pub open spec fn keys_of(params: json::JsonView) -> Option<commands::Refusal> {
    match json::get_spec(params, "keys"@) {
        Some(json::JsonView::Array(items)) => if items.len() == 0 {
            Some(RequestError::EmptyKeys)
        } else {
            key_problem(items, 0)
        },
        _ => Some(RequestError::KeysNotArray),
    }
}

pub open spec fn opt_refusal(e: Option<RequestError>) -> Option<commands::Refusal> {
    match e {
        Some(x) => Some(x@),
        None => None,
    }
}

fn check_keys(params: &Json) -> (r: Option<RequestError>)
    ensures
        opt_refusal(r) == keys_of(params@),
{
    let items: &Vec<Json> = match params.get("keys") {
        Some(Json::Array(items)) => items,
        _ => {
            return Some(RequestError::KeysNotArray);
        },
    };
    let ghost all = json::array_views(items@);
    proof {
        json::lemma_array_views(items@);
    }
    if items.len() == 0 {
        return Some(RequestError::EmptyKeys);
    }
    let mut i: usize = 0;
    while i < items.len()
        invariant
            i <= items.len(),
            items.len() > 0,
            all == json::array_views(items@),
            all.len() == items@.len(),
            forall|j: int| 0 <= j < items@.len() ==> #[trigger] all[j] == items@[j]@,
            forall|j: int|
                0 <= j < i ==> #[trigger] all[j] == json::JsonView::Text(WORKFLOW_KEY@),
            key_problem(all, 0) == key_problem(all, i as int),
            json::get_spec(params@, "keys"@) == Some(json::JsonView::Array(all)),
        decreases items.len() - i,
    {
        assert(all[i as int] == items@[i as int]@);
        match items[i].as_text() {
            None => {
                return Some(RequestError::KeysNotStrings);
            },
            Some(key) => {
                let known: bool = same(key, WORKFLOW_KEY);
                proof {
                    if i > 0 {
                        assert(all.take(i as int)[0] == all[0]);
                    }
                    assert(all.take(i as int).contains(all[i as int]) == (i > 0 && known));
                }
                if i > 0 && known {
                    return Some(RequestError::DuplicateKey { key: owned(key) });
                }
                if !known {
                    return Some(RequestError::InvalidKey { key: owned(key) });
                }
            },
        }
        i = i + 1;
    }
    None
}

/// What a method other than a submission comes to.
pub open spec fn planned(
    method: Seq<char>,
    params: json::JsonView,
    digest: Seq<char>,
    workflow: effective::EntryView,
) -> PlanView {
    let session = params::text_of_param(params, "session_id"@);
    let task = params::text_of_param(params, "task_id"@);
    if method == "session.open"@ || method == "session.attach"@ {
        match params::text_of_param(params, "bootstrap_id"@) {
            Some(bootstrap) => if bootstrap.len() == 0 {
                require("bootstrap_id"@)
            } else {
                PlanView::Call(Call::OpenSession { bootstrap, attach_to: session })
            },
            None => require("bootstrap_id"@),
        }
    } else if method == "command.describe"@ {
        PlanView::Call(Call::Describe)
    } else if method == "artifact.read"@ {
        PlanView::Refuse(RequestError::ArtifactReadUnavailable)
    } else if method == "command.execute"@ {
        match json::get_spec(params, "command"@) {
            Some(command) => match params::text_of_param(command, "kind"@) {
                Some(kind) => PlanView::Call(Call::Local { kind }),
                None => require("command.kind"@),
            },
            None => require("command.kind"@),
        }
    } else if !served(method) {
        PlanView::Refuse(RequestError::UnknownMethod { method })
    } else if session is None {
        require("session_id"@)
    } else {
        planned_in_session(method, params, digest, workflow, session->0, task)
    }
}

/// The methods that need a session.
pub open spec fn served(method: Seq<char>) -> bool {
    ||| method == "session.close"@
    ||| method == "runtime.status"@
    ||| method == "config.read"@
    ||| method == "task.snapshot"@
    ||| method == "question.current"@
    ||| method == "events.read"@
    ||| method == "task.collection"@
}

/// What a method comes to that has its session.
pub open spec fn planned_in_session(
    method: Seq<char>,
    params: json::JsonView,
    digest: Seq<char>,
    workflow: effective::EntryView,
    session: Seq<char>,
    task: Option<Seq<char>>,
) -> PlanView {
    if method == "session.close"@ {
        PlanView::Result(
            session_json(
                session,
                1,
                "closed"@,
                match params::text_of_param(params, "bootstrap_id"@) {
                    Some(t) => t,
                    None => Seq::empty(),
                },
            ),
        )
    } else if method == "runtime.status"@ {
        match (
            params::limit_of(params),
            params::cursor_of(params),
        ) {
            (Err(e), _) => PlanView::Refuse(e),
            (Ok(_), Err(e)) => PlanView::Refuse(e),
            (Ok(limit), Ok(cursor)) => PlanView::Call(Call::Status { session, cursor, limit }),
        }
    } else if method == "config.read"@ {
        match keys_of(params) {
            Some(e) => PlanView::Refuse(e),
            None => PlanView::Result(config_json(digest, workflow)),
        }
    } else if method == "events.read"@ {
        match (
            params::cursor_after(params),
            params::limit_of(params),
        ) {
            (Err(e), _) => PlanView::Refuse(e),
            (Ok(_), Err(e)) => PlanView::Refuse(e),
            (Ok(after), Ok(limit)) => PlanView::Call(Call::Events { session, task, after, limit }),
        }
    } else if task is None {
        require("task_id"@)
    } else if method == "task.snapshot"@ {
        PlanView::Call(Call::Snapshot { task: task->0 })
    } else if method == "question.current"@ {
        PlanView::Call(Call::CurrentQuestion { task: task->0 })
    } else {
        match params::text_of_param(params, "collection"@) {
            None => require("collection"@),
            Some(collection) => match (
                params::cursor_of(params),
                params::limit_of(params),
            ) {
                (Err(e), _) => PlanView::Refuse(e),
                (Ok(_), Err(e)) => PlanView::Refuse(e),
                (Ok(cursor), Ok(limit)) => PlanView::Call(
                    Call::Collection { task: task->0, collection, cursor, limit },
                ),
            },
        }
    }
}

fn plan_in_session(
    method: &str,
    params: &Json,
    effective: &EffectiveConfig,
    session: String,
    task: Option<String>,
) -> (r: Plan)
    ensures
        r@ == planned_in_session(
            method@,
            params@,
            effective.sources_digest@,
            effective.workflow_entry@,
            session@,
            text::opt_text(task),
        ),
{
    if same(method, "session.close") {
        let attachment: String = match text_param(params, "bootstrap_id") {
            Some(t) => t,
            None => String::new(),
        };
        return Plan::Result(session_result(session.as_str(), 1, "closed", attachment.as_str()));
    }
    if same(method, "runtime.status") {
        let limit: u32 = match page_limit(params) {
            Ok(n) => n,
            Err(e) => {
                return Plan::Refuse(e);
            },
        };
        return match status_cursor(params) {
            Ok(cursor) => Plan::Call(Call::Status { session, cursor, limit }),
            Err(e) => Plan::Refuse(e),
        };
    }
    if same(method, "config.read") {
        return match check_keys(params) {
            Some(e) => Plan::Refuse(e),
            None => Plan::Result(
                config_result(effective.sources_digest.as_str(), &effective.workflow_entry),
            ),
        };
    }
    if same(method, "events.read") {
        let after: u64 = match after_cursor(params) {
            Ok(n) => n,
            Err(e) => {
                return Plan::Refuse(e);
            },
        };
        return match page_limit(params) {
            Ok(limit) => Plan::Call(Call::Events { session, task, after, limit }),
            Err(e) => Plan::Refuse(e),
        };
    }
    let named: String = match task {
        Some(t) => t,
        None => {
            return required("task_id");
        },
    };
    if same(method, "task.snapshot") {
        return Plan::Call(Call::Snapshot { task: named });
    }
    if same(method, "question.current") {
        return Plan::Call(Call::CurrentQuestion { task: named });
    }
    let collection: String = match text_param(params, "collection") {
        Some(c) => c,
        None => {
            return required("collection");
        },
    };
    let cursor: Option<(u64, u64)> = match status_cursor(params) {
        Ok(c) => c,
        Err(e) => {
            return Plan::Refuse(e);
        },
    };
    match page_limit(params) {
        Ok(limit) => Plan::Call(Call::Collection { task: named, collection, cursor, limit }),
        Err(e) => Plan::Refuse(e),
    }
}

fn needs_session(method: &str) -> (r: bool)
    ensures
        r == served(method@),
{
    same(method, "session.close") || same(method, "runtime.status") || same(method, "config.read")
        || same(method, "task.snapshot") || same(method, "question.current") || same(
        method,
        "events.read",
    ) || same(method, "task.collection")
}

/// Executable [`planned`].
pub fn plan_method(method: &str, params: &Json, effective: &EffectiveConfig) -> (r: Plan)
    ensures
        r@ == planned(
            method@,
            params@,
            effective.sources_digest@,
            effective.workflow_entry@,
        ),
{
    let session: Option<String> = text_param(params, "session_id");
    if same(method, "session.open") || same(method, "session.attach") {
        return match text_param(params, "bootstrap_id") {
            Some(bootstrap) => {
                let chars: Vec<char> = text::chars_of(bootstrap.as_str());
                if chars.len() == 0 {
                    required("bootstrap_id")
                } else {
                    Plan::Call(Call::OpenSession { bootstrap, attach_to: session })
                }
            },
            None => required("bootstrap_id"),
        };
    }
    if same(method, "command.describe") {
        return Plan::Call(Call::Describe);
    }
    if same(method, "artifact.read") {
        return Plan::Refuse(RequestError::ArtifactReadUnavailable);
    }
    if same(method, "command.execute") {
        return match params.get("command") {
            Some(command) => match text_param(command, "kind") {
                Some(kind) => Plan::Call(Call::Local { kind }),
                None => required("command.kind"),
            },
            None => required("command.kind"),
        };
    }
    if !needs_session(method) {
        return Plan::Refuse(RequestError::UnknownMethod { method: owned(method) });
    }
    match session {
        Some(s) => plan_in_session(
            method,
            params,
            effective,
            s,
            text_param(params, "task_id"),
        ),
        None => required("session_id"),
    }
}

// ----- task commands ---------------------------------------------------------

/// The kinds of task commands.
pub open spec fn is_command_kind(k: Seq<char>) -> bool {
    ||| k == "create"@
    ||| k == "steer"@
    ||| k == "resume"@
    ||| k == "pause"@
    ||| k == "cancel"@
    ||| k == "answer"@
    ||| k == "approve"@
    ||| k == "deny"@
}

fn command_kind(k: &str) -> (r: bool)
    ensures
        r == is_command_kind(k@),
{
    same(k, "create") || same(k, "steer") || same(k, "resume") || same(k, "pause") || same(
        k,
        "cancel",
    ) || same(k, "answer") || same(k, "approve") || same(k, "deny")
}

/// Who a command is from.
pub open spec fn principal_of(ingress: Ingress) -> Seq<char> {
    match ingress {
        Ingress::TrustedHuman => "local_user"@,
        Ingress::Machine => "machine"@,
    }
}

/// What a creation comes to: a task has no id before it exists.
pub open spec fn create_plan(
    ingress: Ingress,
    params: json::JsonView,
    session: Seq<char>,
    command_id: Seq<char>,
) -> PlanView {
    let contract = match json::get_spec(params, "contract"@) {
        Some(c) => c,
        None => json::JsonView::Null,
    };
    if json::get_spec(params, "task_id"@) is Some {
        PlanView::Refuse(RequestError::TaskIdForbiddenOnCreate)
    } else {
        match params::text_of_param(params, "goal"@) {
            None => require("goal"@),
            Some(goal) => match (
                params::strings_of(contract, "criteria"@),
                params::strings_of(contract, "constraints"@),
            ) {
                (Err(e), _) => PlanView::Refuse(e),
                (Ok(_), Err(e)) => PlanView::Refuse(e),
                (Ok(criteria), Ok(constraints)) => PlanView::Call(
                    Call::Create {
                        session,
                        command_id,
                        principal: principal_of(ingress),
                        goal,
                        criteria,
                        constraints,
                        parent: params::text_of_param(
                            params,
                            "parent_task_id"@,
                        ),
                    },
                ),
            },
        }
    }
}

/// What an answer comes to: one from a machine never proves that a person
/// consented.
pub open spec fn answer_plan(
    ingress: Ingress,
    params: json::JsonView,
    session: Seq<char>,
) -> PlanView {
    let task = params::text_of_param(params, "task_id"@);
    let question = params::text_of_param(params, "question_id"@);
    let intent = params::number_of_param(params, "expected_intent_revision"@);
    let revision = params::number_of_param(params, "question_revision"@);
    if ingress == Ingress::Machine {
        PlanView::Refuse(RequestError::MachineAnswerDenied)
    } else if task is None {
        require("task_id"@)
    } else if question is None {
        require("question_id"@)
    } else if intent is None || revision is None {
        PlanView::Refuse(RequestError::MissingRevisionFields)
    } else {
        match json::get_spec(params, "selection"@) {
            None => require("selection"@),
            Some(value) => match params::selection_of(value) {
                Err(e) => PlanView::Refuse(RequestError::Selection(e)),
                Ok(selection) => PlanView::Call(
                    Call::Answer {
                        session,
                        task: task->0,
                        expected_intent: intent->0,
                        question: question->0,
                        question_revision: revision->0,
                        selection,
                    },
                ),
            },
        }
    }
}

/// What a steering comes to.
pub open spec fn steer_plan(params: json::JsonView, session: Seq<char>) -> PlanView {
    let task = params::text_of_param(params, "task_id"@);
    let intent = params::number_of_param(params, "expected_intent_revision"@);
    let revision = params::number_of_param(params, "expected_task_revision"@);
    if task is None {
        require("task_id"@)
    } else if intent is None || revision is None {
        PlanView::Refuse(RequestError::MissingRevisionFields)
    } else {
        match params::text_of_param(params, "instruction"@) {
            None => require("instruction"@),
            Some(instruction) => PlanView::Call(
                Call::Steer {
                    session,
                    task: task->0,
                    expected_intent: intent->0,
                    expected_task: revision->0,
                    instruction,
                },
            ),
        }
    }
}

/// What a cancellation comes to.
pub open spec fn cancel_plan(params: json::JsonView, session: Seq<char>) -> PlanView {
    let task = params::text_of_param(params, "task_id"@);
    let intent = params::number_of_param(params, "expected_intent_revision"@);
    if task is None {
        require("task_id"@)
    } else if intent is None {
        require("expected_intent_revision"@)
    } else {
        PlanView::Call(
            Call::Cancel {
                session,
                task: task->0,
                expected_intent: intent->0,
                reason: params::text_of_param(params, "reason"@),
            },
        )
    }
}

/// What a task command comes to.
pub open spec fn submitted(ingress: Ingress, params: json::JsonView) -> PlanView {
    let kind = match params::text_of_param(params, "kind"@) {
        Some(k) => k,
        None => Seq::empty(),
    };
    match params::text_of_param(params, "session_id"@) {
        None => require("session_id"@),
        Some(session) => match params::text_of_param(params, "command_id"@) {
            None => require("command_id"@),
            Some(command_id) => if command_id.len() == 0 {
                require("command_id"@)
            } else if !is_command_kind(kind) {
                PlanView::Refuse(RequestError::UnknownCommandKind { kind })
            } else if kind == "create"@ {
                create_plan(ingress, params, session, command_id)
            } else if kind == "answer"@ {
                answer_plan(ingress, params, session)
            } else if kind == "steer"@ {
                steer_plan(params, session)
            } else if kind == "cancel"@ {
                cancel_plan(params, session)
            } else {
                PlanView::Refuse(RequestError::MethodUnavailable { method: kind })
            },
        },
    }
}

fn plan_create(ingress: Ingress, params: &Json, session: String, command_id: String) -> (r: Plan)
    ensures
        r@ == create_plan(ingress, params@, session@, command_id@),
{
    if params.get("task_id").is_some() {
        return Plan::Refuse(RequestError::TaskIdForbiddenOnCreate);
    }
    let goal: String = match text_param(params, "goal") {
        Some(g) => g,
        None => {
            return required("goal");
        },
    };
    let contract: Json = match params.get("contract") {
        Some(c) => c.clone(),
        None => Json::Null,
    };
    let criteria: Vec<String> = match string_array(&contract, "criteria") {
        Ok(v) => v,
        Err(e) => {
            return Plan::Refuse(e);
        },
    };
    let constraints: Vec<String> = match string_array(&contract, "constraints") {
        Ok(v) => v,
        Err(e) => {
            return Plan::Refuse(e);
        },
    };
    let principal: String = match ingress {
        Ingress::TrustedHuman => owned("local_user"),
        Ingress::Machine => owned("machine"),
    };
    Plan::Call(
        Call::Create {
            session,
            command_id,
            principal,
            goal,
            criteria,
            constraints,
            parent: text_param(params, "parent_task_id"),
        },
    )
}

fn plan_answer(ingress: Ingress, params: &Json, session: String) -> (r: Plan)
    ensures
        r@ == answer_plan(ingress, params@, session@),
{
    match ingress {
        Ingress::Machine => {
            return Plan::Refuse(RequestError::MachineAnswerDenied);
        },
        Ingress::TrustedHuman => {},
    }
    let task: String = match text_param(params, "task_id") {
        Some(t) => t,
        None => {
            return required("task_id");
        },
    };
    let question: String = match text_param(params, "question_id") {
        Some(q) => q,
        None => {
            return required("question_id");
        },
    };
    let (expected_intent, question_revision): (u64, u64) = match (
        params.get_u64("expected_intent_revision"),
        params.get_u64("question_revision"),
    ) {
        (Some(i), Some(q)) => (i, q),
        _ => {
            return Plan::Refuse(RequestError::MissingRevisionFields);
        },
    };
    let value: &Json = match params.get("selection") {
        Some(v) => v,
        None => {
            return required("selection");
        },
    };
    match parse_selection(value) {
        Err(e) => Plan::Refuse(RequestError::Selection(e)),
        Ok(selection) => Plan::Call(
            Call::Answer {
                session,
                task,
                expected_intent,
                question,
                question_revision,
                selection,
            },
        ),
    }
}

fn plan_steer(params: &Json, session: String) -> (r: Plan)
    ensures
        r@ == steer_plan(params@, session@),
{
    let task: String = match text_param(params, "task_id") {
        Some(t) => t,
        None => {
            return required("task_id");
        },
    };
    let (expected_intent, expected_task): (u64, u64) = match (
        params.get_u64("expected_intent_revision"),
        params.get_u64("expected_task_revision"),
    ) {
        (Some(i), Some(t)) => (i, t),
        _ => {
            return Plan::Refuse(RequestError::MissingRevisionFields);
        },
    };
    match text_param(params, "instruction") {
        None => required("instruction"),
        Some(instruction) => Plan::Call(
            Call::Steer { session, task, expected_intent, expected_task, instruction },
        ),
    }
}

fn plan_cancel(params: &Json, session: String) -> (r: Plan)
    ensures
        r@ == cancel_plan(params@, session@),
{
    let task: String = match text_param(params, "task_id") {
        Some(t) => t,
        None => {
            return required("task_id");
        },
    };
    match params.get_u64("expected_intent_revision") {
        None => required("expected_intent_revision"),
        Some(expected_intent) => Plan::Call(
            Call::Cancel {
                session,
                task,
                expected_intent,
                reason: text_param(params, "reason"),
            },
        ),
    }
}

/// Executable [`submitted`].
pub fn submit_task(ingress: Ingress, params: &Json) -> (r: Plan)
    ensures
        r@ == submitted(ingress, params@),
{
    let session: String = match text_param(params, "session_id") {
        Some(s) => s,
        None => {
            return required("session_id");
        },
    };
    let command_id: String = match text_param(params, "command_id") {
        Some(c) => c,
        None => {
            return required("command_id");
        },
    };
    let chars: Vec<char> = text::chars_of(command_id.as_str());
    if chars.len() == 0 {
        return required("command_id");
    }
    let kind: String = match text_param(params, "kind") {
        Some(k) => k,
        None => String::new(),
    };
    if !command_kind(kind.as_str()) {
        return Plan::Refuse(RequestError::UnknownCommandKind { kind });
    }
    if same(kind.as_str(), "create") {
        plan_create(ingress, params, session, command_id)
    } else if same(kind.as_str(), "answer") {
        plan_answer(ingress, params, session)
    } else if same(kind.as_str(), "steer") {
        plan_steer(params, session)
    } else if same(kind.as_str(), "cancel") {
        plan_cancel(params, session)
    } else {
        Plan::Refuse(RequestError::MethodUnavailable { method: kind })
    }
}

// ----- the whole request -----------------------------------------------------

/// What a request comes to: a response, or a call whose outcome becomes one.
#[derive(Debug)]
pub enum Handled {
    Reply(RpcResponse),
    Call { id: Json, params: Json, call: Call },
}

/// The mathematical value of [`Handled`].
pub enum HandledView {
    Reply(contracts::ResponseView),
    Call { id: json::JsonView, params: json::JsonView, call: CallView },
}

impl View for Handled {
    type V = HandledView;

    open spec fn view(&self) -> HandledView {
        match self {
            Handled::Reply(r) => HandledView::Reply(r@),
            Handled::Call { id, params, call } => HandledView::Call {
                id: id@,
                params: params@,
                call: call@,
            },
        }
    }
}

/// What an opened request comes to.
pub open spec fn handled(
    ingress: Ingress,
    request: commands::OpenedView,
    digest: Seq<char>,
    workflow: effective::EntryView,
) -> HandledView {
    let plan = if request.method == "task.submit"@ {
        submitted(ingress, request.params)
    } else {
        planned(request.method, request.params, digest, workflow)
    };
    match plan {
        PlanView::Refuse(e) => HandledView::Reply(commands::refused(request.id, e)),
        PlanView::Result(result) => HandledView::Reply(
            contracts::succeeded(request.id, result),
        ),
        PlanView::Call(call) => HandledView::Call {
            id: request.id,
            params: request.params,
            call,
        },
    }
}

/// Executable [`handled`].
pub fn handle_method(
    ingress: Ingress,
    request: OpenedRequest,
    effective: &EffectiveConfig,
) -> (r: Handled)
    ensures
        r@ == handled(
            ingress,
            request@,
            effective.sources_digest@,
            effective.workflow_entry@,
        ),
{
    let plan: Plan = if same(request.method.as_str(), "task.submit") {
        submit_task(ingress, &request.params)
    } else {
        plan_method(request.method.as_str(), &request.params, effective)
    };
    match plan {
        Plan::Refuse(e) => Handled::Reply(request_error(request.id, e)),
        Plan::Result(result) => Handled::Reply(RpcResponse::ok(request.id, result)),
        Plan::Call(call) => Handled::Call { id: request.id, params: request.params, call },
    }
}

/// Opens and handles the text of a request.
pub fn dispatch_runtime_request(
    ingress: Ingress,
    request: &str,
    effective: &EffectiveConfig,
) -> (r: Handled)
    ensures
        if vstd::utf8::encode_utf8(request@).len() > contracts::REQUEST_MAX_BYTES {
            r@ == HandledView::Reply(
                commands::refused(
                    json::JsonView::Null,
                    RequestError::RequestTooLarge,
                ),
            )
        } else {
            match json::parsed_json(request@) {
                None => r@ == HandledView::Reply(
                    commands::refused(
                        json::JsonView::Null,
                        RequestError::InvalidJson,
                    ),
                ),
                Some(parsed) => match commands::opened(parsed) {
                    Err(response) => r@ == HandledView::Reply(response),
                    Ok(opened) => r@ == handled(
                        ingress,
                        opened,
                        effective.sources_digest@,
                        effective.workflow_entry@,
                    ),
                },
            }
        },
{
    match commands::open_request(request) {
        Err(response) => Handled::Reply(response),
        Ok(opened) => handle_method(ingress, opened, effective),
    }
}

// ----- laws ------------------------------------------------------------------

/// A machine never answers a question, whatever its parameters say: it is
/// refused as a denial and no call is made.
pub proof fn law_machine_answer_is_denied(params: json::JsonView)
    requires
        params::text_of_param(params, "session_id"@) is Some,
        params::text_of_param(params, "command_id"@) matches Some(c) && c.len()
            > 0,
        params::text_of_param(params, "kind"@) == Some("answer"@),
    ensures
        submitted(Ingress::Machine, params) == PlanView::Refuse(RequestError::MachineAnswerDenied),
        commands::refusal_code(RequestError::MachineAnswerDenied) == contracts::ErrorCode::Denied,
{
    reveal_strlit("create");
    reveal_strlit("answer");
    assert("create"@[0] != "answer"@[0]);
}

/// No machine request makes a call that answers a question.
pub proof fn law_machine_makes_no_answer(params: json::JsonView)
    ensures
        !(submitted(Ingress::Machine, params) matches PlanView::Call(Call::Answer { .. })),
{
}

/// Every refusal answers the request it refuses: the response carries its id.
pub proof fn law_refusal_answers_its_request(
    ingress: Ingress,
    request: commands::OpenedView,
    digest: Seq<char>,
    workflow: effective::EntryView,
)
    ensures
        match handled(ingress, request, digest, workflow) {
            HandledView::Reply(r) => r.id == request.id && (r.result is Some <==> r.error is None),
            HandledView::Call { id, .. } => id == request.id,
        },
{
}

} // verus!
