use rivect::commands::methods::{events_reply, session_reply, Call, SessionOpened};
use rivect::commands::params::{after_cursor, page_limit, parse_selection, status_cursor};
use rivect::commands::submit::{
    submit_next, submit_reply, SubmitEvent, SubmitStep, Submitted,
};
use rivect::commands::{
    dispatch_runtime_request, known_method, open_request, render_response, store_error,
    ConfigFile, Handled, Ingress, RequestError, Runtime, SelectionError,
};
use rivect::config::{resolve_effective, EffectiveConfig};
use rivect::contracts::{AnswerSelection, ErrorCode, RpcResponse};
use rivect::json::{parse_json, Json};
use rivect::owner::OwnerError;
use rivect::providers::LoopbackProvider;
use rivect::state::StoreError;

fn effective() -> EffectiveConfig {
    resolve_effective(None).map_err(|e| e.message()).expect("shipped")
}

fn reply(request: &str) -> RpcResponse {
    match dispatch_runtime_request(Ingress::Machine, request, &effective()) {
        Handled::Reply(response) => response,
        Handled::Call { call, .. } => panic!("{call:?}"),
    }
}

fn code(response: &RpcResponse) -> ErrorCode {
    response.error.as_ref().expect("an error").data.code
}

#[test]
fn the_envelope_is_strict() {
    assert_eq!(reply("{").error.expect("error").code, -32700);
    let no_id = reply("{\"jsonrpc\": \"2.0\", \"method\": \"session.open\"}");
    assert_eq!(no_id.error.as_ref().expect("error").code, -32600);
    let version = reply("{\"jsonrpc\": \"1.0\", \"id\": 1, \"method\": \"session.open\"}");
    assert_eq!(code(&version), ErrorCode::InvalidInput);
    let unknown = reply("{\"jsonrpc\": \"2.0\", \"id\": 7, \"method\": \"session.steal\", \"params\": {}}");
    assert_eq!(unknown.error.as_ref().expect("error").code, -32601);
    assert_eq!(code(&unknown), ErrorCode::UnknownMethod);
    assert!(matches!(&unknown.id, Json::Number(n) if n == "7"), "the reply carries the id");
    let list = reply("{\"jsonrpc\": \"2.0\", \"id\": 1, \"method\": \"session.open\", \"params\": []}");
    assert_eq!(code(&list), ErrorCode::InvalidInput);
    let large = reply(&" ".repeat(1048577));
    assert_eq!(code(&large), ErrorCode::InvalidInput);
    assert!(known_method("task.submit"));
    assert!(!known_method("task.delete"));
}

#[test]
fn a_response_is_one_json_object() {
    let ok = RpcResponse::ok(Json::Number("1".to_string()), Json::Bool(true));
    assert_eq!(render_response(&ok), "{\"jsonrpc\":\"2.0\",\"id\":1,\"result\":true}");
    let failed = store_error(Json::Null, &StoreError::NotFound("task t".to_string()));
    let rendered = render_response(&failed);
    let parsed = parse_json(&rendered).expect("json");
    assert_eq!(
        parsed.get("error").and_then(|e| e.get("data")).and_then(|d| d.get_text("code")),
        Some("not_found")
    );
}

#[test]
fn a_machine_never_answers_a_question() {
    let request = "{\"jsonrpc\": \"2.0\", \"id\": 1, \"method\": \"task.submit\", \"params\": \
        {\"schema_version\": 1, \"session_id\": \"s\", \"command_id\": \"c\", \"kind\": \"answer\", \
        \"task_id\": \"t\", \"question_id\": \"q\", \"selection\": {\"kind\": \"option\", \
        \"option_id\": \"o\"}, \"question_revision\": 1, \"expected_intent_revision\": 1}}";
    let denied = reply(request);
    assert_eq!(code(&denied), ErrorCode::Denied);
    match dispatch_runtime_request(Ingress::TrustedHuman, request, &effective()) {
        Handled::Call { call: Call::Answer { .. }, .. } => {}
        Handled::Call { call, .. } => panic!("{call:?}"),
        Handled::Reply(response) => panic!("{response:?}"),
    }
}

#[test]
fn requests_become_calls() {
    let open = dispatch_runtime_request(
        Ingress::Machine,
        "{\"jsonrpc\": \"2.0\", \"id\": \"a\", \"method\": \"session.open\", \"params\": \
         {\"schema_version\": 1, \"bootstrap_id\": \"b\"}}",
        &effective(),
    );
    match open {
        Handled::Call { call: Call::OpenSession { bootstrap, attach_to }, .. } => {
            assert_eq!(bootstrap, "b");
            assert!(attach_to.is_none());
        }
        Handled::Call { call, .. } => panic!("{call:?}"),
        Handled::Reply(response) => panic!("{response:?}"),
    }
    let opened = session_reply(
        Json::Number("1".to_string()),
        Ok(SessionOpened {
            session: "s".to_string(),
            attachment: "a".to_string(),
            generation: 3,
        }),
    );
    assert!(opened.result.is_some());
    let failed = session_reply(
        Json::Number("1".to_string()),
        Err(StoreError::Storage("disk".to_string())),
    );
    assert_eq!(code(&failed), ErrorCode::StorageUnavailable);
}

#[test]
fn params_have_bounds() {
    let p = |text: &str| parse_json(text).expect("json");
    assert!(matches!(page_limit(&p("{}")), Ok(20)));
    assert!(matches!(page_limit(&p("{\"page\": {\"page_size\": 5}}")), Ok(5)));
    assert!(matches!(page_limit(&p("{\"page\": {\"page_size\": 201}}")), Ok(200)));
    assert!(matches!(
        page_limit(&p("{\"page\": {\"page_size\": 0}}")),
        Err(RequestError::InvalidPageSize)
    ));
    assert!(matches!(page_limit(&p("{\"page\": 3}")), Err(RequestError::InvalidPage)));
    assert!(matches!(after_cursor(&p("{}")), Ok(0)));
    assert!(matches!(after_cursor(&p("{\"after_cursor\": 7}")), Ok(7)));
    assert!(after_cursor(&p("{\"after_cursor\": \"x\"}")).is_err());
    assert!(matches!(status_cursor(&p("{}")), Ok(None)));
}

#[test]
fn selections_are_one_kind_only() {
    let s = |text: &str| parse_selection(&parse_json(text).expect("json"));
    assert!(matches!(
        s("{\"kind\": \"option\", \"option_id\": \"o\"}"),
        Ok(AnswerSelection::Option { option_id }) if option_id.0 == "o"
    ));
    assert!(matches!(
        s("{\"kind\": \"custom\", \"text\": \"t\"}"),
        Ok(AnswerSelection::Custom { text }) if text == "t"
    ));
    assert!(matches!(
        s("{\"kind\": \"option\", \"option_id\": \"o\", \"text\": \"t\"}"),
        Err(SelectionError::ConflictingFields)
    ));
    assert!(matches!(s("{\"kind\": \"option\"}"), Err(SelectionError::MissingOptionId)));
    assert!(matches!(s("{\"kind\": \"custom\"}"), Err(SelectionError::MissingText)));
    assert!(matches!(s("{\"kind\": \"both\"}"), Err(SelectionError::UnsupportedKind)));
    let long = format!("{{\"kind\": \"custom\", \"text\": \"{}\"}}", "a".repeat(65537));
    assert!(matches!(s(&long), Err(SelectionError::TextTooLarge)));
    assert_eq!(SelectionError::MissingText.message(), "custom text is required");
}

#[test]
fn refusals_have_words_and_codes() {
    let denied: RequestError = RequestError::MachineAnswerDenied;
    assert_eq!(denied.code(), ErrorCode::Denied);
    let method: RequestError = RequestError::UnknownMethod { method: "x".to_string() };
    assert_eq!(method.rpc_code(), -32601);
    assert!(method.message().contains('x'));
    assert!(open_request("[]").is_err());
}

fn create(parent: Option<&str>) -> Call {
    Call::Create {
        session: "s".to_string(),
        command_id: "c".to_string(),
        principal: "machine".to_string(),
        goal: "g".to_string(),
        criteria: vec!["done".to_string()],
        constraints: Vec::new(),
        parent: parent.map(str::to_string),
    }
}

fn answer(expected_intent: u64) -> Call {
    Call::Answer {
        session: "s".to_string(),
        task: "t".to_string(),
        expected_intent,
        question: "q".to_string(),
        question_revision: 2,
        selection: AnswerSelection::Custom { text: "yes".to_string() },
    }
}

fn gone() -> StoreError {
    StoreError::NotFound("task p".to_string())
}

#[test]
fn an_unknown_parent_writes_no_row() {
    let call = create(Some("p"));
    let at = submit_next(&call, "", SubmitStep::Start, SubmitEvent::Go);
    assert!(matches!(&at, SubmitStep::ReadParent { parent } if parent == "p"));
    let lost = submit_next(&call, "", at, SubmitEvent::Snapshot(Err(gone())));
    match lost {
        SubmitStep::End(end) => {
            assert_eq!(code(&submit_reply(Json::Null, end)), ErrorCode::NotFound)
        }
        other => panic!("{other:?}"),
    }
}

#[test]
fn a_stored_child_is_adopted() {
    let call = create(Some("p"));
    let at = SubmitStep::ReadParent { parent: "p".to_string() };
    let at = submit_next(&call, "", at, SubmitEvent::Snapshot(Ok(7)));
    assert!(matches!(&at, SubmitStep::CreateRow { goal, criteria, .. }
        if goal == "g" && criteria.len() == 1));
    let created = SubmitEvent::Created(Ok(("child".to_string(), Json::Bool(true))));
    let at = submit_next(&call, "", at, created);
    assert!(matches!(&at, SubmitStep::Adopt { child, parent, .. }
        if child == "child" && parent == "p"));
    let at = submit_next(&call, "", at, SubmitEvent::Adopted);
    assert!(matches!(at, SubmitStep::End(Submitted::Done(Json::Bool(true)))));
    let orphan = create(None);
    let at = submit_next(&orphan, "", SubmitStep::Start, SubmitEvent::Go);
    let created = SubmitEvent::Created(Ok(("child".to_string(), Json::Bool(true))));
    let at = submit_next(&orphan, "", at, created);
    assert!(matches!(at, SubmitStep::End(Submitted::Done(_))));
}

#[test]
fn a_stale_answer_is_refused() {
    let call = answer(3);
    let read = || SubmitStep::ReadIntent { task: "t".to_string() };
    let stale = submit_next(&call, "g", read(), SubmitEvent::Snapshot(Ok(4)));
    assert!(matches!(
        stale,
        SubmitStep::End(Submitted::Refused(StoreError::StaleIntent { expected: 3, current: 4 }))
    ));
    let lost = submit_next(
        &call,
        "g",
        read(),
        SubmitEvent::Snapshot(Err(StoreError::Storage("x".to_string()))),
    );
    match lost {
        SubmitStep::End(end) => {
            assert_eq!(code(&submit_reply(Json::Null, end)), ErrorCode::StorageUnavailable)
        }
        other => panic!("{other:?}"),
    }
}

#[test]
fn a_stored_answer_builds_a_node_and_drains_it() {
    let call = answer(3);
    let at = submit_next(&call, "g", SubmitStep::Start, SubmitEvent::Go);
    let at = submit_next(&call, "g", at, SubmitEvent::Snapshot(Ok(3)));
    assert!(matches!(&at, SubmitStep::StoreAnswer { answered_by, question_revision: 2, .. }
        if answered_by == "human"));
    let at = submit_next(&call, "g", at, SubmitEvent::Stored(Ok(Json::Bool(true))));
    assert!(matches!(&at, SubmitStep::SubmitNode { task, grant, .. } if task == "t" && grant == "g"));
    let at = submit_next(&call, "g", at, SubmitEvent::Submitted(Ok(true)));
    assert!(matches!(&at, SubmitStep::Drain { session, .. } if session == "s"));
    let failed = SubmitEvent::Scheduled(Err((ErrorCode::InternalError, "lost".to_string())));
    match submit_next(&call, "g", at, failed) {
        SubmitStep::End(end) => {
            let reply = submit_reply(Json::Null, end);
            assert_eq!(reply.error.expect("error").data.message, "lost");
        }
        other => panic!("{other:?}"),
    }
    let settled = SubmitStep::SubmitNode {
        task: "t".to_string(),
        selection: AnswerSelection::Custom { text: "yes".to_string() },
        grant: "g".to_string(),
        result: Json::Null,
    };
    let at = submit_next(&call, "g", settled, SubmitEvent::Submitted(Ok(false)));
    assert!(matches!(at, SubmitStep::End(Submitted::Done(_))));
}

#[test]
fn a_tree_is_cancelled_after_its_task() {
    let call = Call::Cancel {
        session: "s".to_string(),
        task: "t".to_string(),
        expected_intent: 1,
        reason: None,
    };
    let at = submit_next(&call, "", SubmitStep::Start, SubmitEvent::Go);
    assert!(matches!(at, SubmitStep::StoreCancel { .. }));
    let at = submit_next(&call, "", at, SubmitEvent::Stored(Ok(Json::Bool(true))));
    assert!(matches!(&at, SubmitStep::CancelTree { task, .. } if task == "t"));
    let at = submit_next(&call, "", at, SubmitEvent::Scheduled(Ok(())));
    assert!(matches!(at, SubmitStep::End(Submitted::Done(Json::Bool(true)))));
}

#[test]
fn a_steer_ends_with_what_was_stored() {
    let call = Call::Steer {
        session: "s".to_string(),
        task: "t".to_string(),
        expected_intent: 1,
        expected_task: 2,
        instruction: "left".to_string(),
    };
    let at = submit_next(&call, "", SubmitStep::Start, SubmitEvent::Go);
    assert!(matches!(&at, SubmitStep::StoreSteer { instruction, .. } if instruction == "left"));
    let at = submit_next(&call, "", at, SubmitEvent::Stored(Ok(Json::Bool(true))));
    assert!(matches!(at, SubmitStep::End(Submitted::Done(Json::Bool(true)))));
}

#[test]
fn events_come_in_a_page_whose_generation_is_the_cursor() {
    let id = Json::Number("1".to_string());
    let page = events_reply(id, 7, Ok(vec![Json::Bool(true), Json::Null]));
    assert_eq!(
        render_response(&page),
        "{\"jsonrpc\":\"2.0\",\"id\":1,\"result\":\
         {\"items\":[true,null],\"snapshot_generation\":7}}"
    );
    assert_eq!(code(&events_reply(Json::Null, 7, Err(gone()))), ErrorCode::NotFound);
}

#[test]
fn a_result_names_its_fields_in_order() {
    let opened = session_reply(
        Json::Number("1".to_string()),
        Ok(SessionOpened {
            session: "s".to_string(),
            attachment: "a".to_string(),
            generation: 4,
        }),
    );
    assert_eq!(
        render_response(&opened),
        "{\"jsonrpc\":\"2.0\",\"id\":1,\"result\":{\"attachment_id\":\"a\",\
         \"owner_generation\":4,\"schema_version\":1,\"session_id\":\"s\",\
         \"session_revision\":1,\"state\":\"attached\"}}"
    );
}

#[test]
fn a_response_renders_every_field_it_has() {
    let mut both = store_error(Json::Null, &gone());
    both.jsonrpc = "1.0";
    both.result = Some(Json::Bool(true));
    let rendered = render_response(&both);
    assert!(
        rendered.starts_with("{\"jsonrpc\":\"1.0\",\"id\":null,\"result\":true,\"error\":{\"code\":-32000"),
        "{rendered}"
    );
    let neither = RpcResponse { jsonrpc: "2.0", id: Json::Null, result: None, error: None };
    assert_eq!(render_response(&neither), "{\"jsonrpc\":\"2.0\",\"id\":null}");
}

fn open(file: ConfigFile) -> Result<Runtime<LoopbackProvider>, OwnerError> {
    Runtime::open("/data", LoopbackProvider::new(), &Vec::new(), file)
}

#[test]
fn a_runtime_opens_over_the_user_document() {
    let fresh = open(ConfigFile::Absent).expect("opens");
    assert_eq!(fresh.config_path, "/data/config.toml");
    assert!(fresh.effective.parsed.is_none());
    assert!(matches!(
        open(ConfigFile::Failed("denied".to_string())),
        Err(OwnerError::ConfigRead { .. })
    ));
    assert!(matches!(
        open(ConfigFile::Bytes(b"x = ".to_vec())),
        Err(OwnerError::Config(_))
    ));
    let broken = String::from_utf8(vec![b'#', 0xff]).expect_err("not text").to_string();
    assert!(matches!(
        open(ConfigFile::Bytes(vec![b'#', 0xff])),
        Err(OwnerError::ConfigRead { source, .. }) if source == broken
    ));
    assert!(matches!(
        open(ConfigFile::Bytes(vec![b'#'; 1048577])),
        Err(OwnerError::ConfigTooLarge { .. })
    ));
}
