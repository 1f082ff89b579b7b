//! The one public ingress: strict JSON-RPC framing, typed parameters per
//! method, and a machine ingress that fails closed. A request becomes a reply
//! or one call of the runtime; the outcome of the call becomes the reply.

use crate::config;
use crate::contracts::{
    self, ErrorCode, RpcErrorBody, RpcResponse, WireError, ARRAY_MAX_ITEMS, REQUEST_MAX_BYTES,
    TEXT_MAX_BYTES,
};
use crate::digest::bytes_of;
use crate::json::{self, fits_i64, parse_json, quote, render_json, signed_text, Json};
use crate::state::{self, StoreError};
use crate::text::{self, decimal_text, owned, same, text2, text3, text4};
use vstd::prelude::*;

pub use crate::commands::methods::{
    dispatch_runtime_request, ConfigReadResult, Handled, StatusResult,
};
pub use crate::commands::runtime::{ConfigFile, Runtime};

pub mod carrier;
pub mod laws;
pub mod methods;
pub mod params;
pub mod runtime;
pub mod submit;

verus! {

/// Where a request comes from.
#[derive(Debug, Clone, Copy, PartialEq, Eq, Structural)]
pub enum Ingress {
    /// Trusted input of a person at this machine.
    TrustedHuman,
    /// Plain machine input: it never proves that a person consented.
    Machine,
}

/// The public methods.
pub open spec fn is_method(m: Seq<char>) -> bool {
    ||| m == "session.open"@
    ||| m == "session.attach"@
    ||| m == "session.close"@
    ||| m == "runtime.status"@
    ||| m == "config.read"@
    ||| m == "task.submit"@
    ||| m == "task.snapshot"@
    ||| m == "question.current"@
    ||| m == "events.read"@
    ||| m == "task.collection"@
    ||| m == "command.describe"@
    ||| m == "command.execute"@
    ||| m == "artifact.read"@
}

/// Executable [`is_method`].
pub fn known_method(m: &str) -> (r: bool)
    ensures
        r == is_method(m@),
{
    same(m, "session.open") || same(m, "session.attach") || same(m, "session.close") || same(
        m,
        "runtime.status",
    ) || same(m, "config.read") || same(m, "task.submit") || same(m, "task.snapshot") || same(
        m,
        "question.current",
    ) || same(m, "events.read") || same(m, "task.collection") || same(m, "command.describe")
        || same(m, "command.execute") || same(m, "artifact.read")
}

/// Why a selection is refused.
#[derive(Debug, Clone, Copy, PartialEq, Eq, Structural)]
pub enum SelectionError {
    ConflictingFields,
    MissingOptionId,
    TextTooLarge,
    MissingText,
    UnsupportedKind,
}

pub open spec fn selection_message(e: SelectionError) -> Seq<char> {
    match e {
        SelectionError::ConflictingFields => "selection cannot carry both option_id and text"@,
        SelectionError::MissingOptionId => "option_id is required"@,
        SelectionError::TextTooLarge => "custom text exceeds "@ + text::decimal(
            TEXT_MAX_BYTES as nat,
        ) + " bytes"@,
        SelectionError::MissingText => "custom text is required"@,
        SelectionError::UnsupportedKind => "selection.kind must be option or custom"@,
    }
}

/// Why a request is refused.
#[derive(Debug)]
pub enum RequestError<T = String, S = &'static str> {
    RequestTooLarge,
    InvalidJson,
    MissingRequestId,
    NotificationId,
    InvalidRequestId,
    WrongJsonRpc,
    MissingMethod,
    InvalidPage,
    InvalidPageSize,
    Serialization,
    InvalidPageCursor,
    PageCursorOffsetOutOfRange,
    InvalidAfterCursor,
    ParamsNotObject,
    UnknownMethod { method: T },
    Required { field: S },
    UnsupportedVersion { version: u64 },
    KeysNotArray,
    ArrayTooLarge { field: S },
    ArrayNotArray { field: S },
    ArrayItemNotString { field: S },
    EmptyKeys,
    KeysNotStrings,
    DuplicateKey { key: T },
    InvalidKey { key: T },
    UnknownLocalCommand { command: T },
    KnownCommandUnavailable { command: T },
    ArtifactReadUnavailable,
    UnknownCommandKind { kind: T },
    TaskIdForbiddenOnCreate,
    MachineAnswerDenied,
    MissingRevisionFields,
    Selection(SelectionError),
    MethodUnavailable { method: T },
}

/// A refusal over mathematical values.
pub type Refusal = RequestError<Seq<char>, Seq<char>>;

impl View for RequestError {
    type V = Refusal;

    open spec fn view(&self) -> Refusal {
        match self {
            RequestError::RequestTooLarge => RequestError::RequestTooLarge,
            RequestError::InvalidJson => RequestError::InvalidJson,
            RequestError::MissingRequestId => RequestError::MissingRequestId,
            RequestError::NotificationId => RequestError::NotificationId,
            RequestError::InvalidRequestId => RequestError::InvalidRequestId,
            RequestError::WrongJsonRpc => RequestError::WrongJsonRpc,
            RequestError::MissingMethod => RequestError::MissingMethod,
            RequestError::InvalidPage => RequestError::InvalidPage,
            RequestError::InvalidPageSize => RequestError::InvalidPageSize,
            RequestError::Serialization => RequestError::Serialization,
            RequestError::InvalidPageCursor => RequestError::InvalidPageCursor,
            RequestError::PageCursorOffsetOutOfRange => RequestError::PageCursorOffsetOutOfRange,
            RequestError::InvalidAfterCursor => RequestError::InvalidAfterCursor,
            RequestError::ParamsNotObject => RequestError::ParamsNotObject,
            RequestError::UnknownMethod { method } => RequestError::UnknownMethod {
                method: method@,
            },
            RequestError::Required { field } => RequestError::Required { field: field@ },
            RequestError::UnsupportedVersion { version } => RequestError::UnsupportedVersion {
                version: *version,
            },
            RequestError::KeysNotArray => RequestError::KeysNotArray,
            RequestError::ArrayTooLarge { field } => RequestError::ArrayTooLarge { field: field@ },
            RequestError::ArrayNotArray { field } => RequestError::ArrayNotArray { field: field@ },
            RequestError::ArrayItemNotString { field } => RequestError::ArrayItemNotString {
                field: field@,
            },
            RequestError::EmptyKeys => RequestError::EmptyKeys,
            RequestError::KeysNotStrings => RequestError::KeysNotStrings,
            RequestError::DuplicateKey { key } => RequestError::DuplicateKey { key: key@ },
            RequestError::InvalidKey { key } => RequestError::InvalidKey { key: key@ },
            RequestError::UnknownLocalCommand { command } => RequestError::UnknownLocalCommand {
                command: command@,
            },
            RequestError::KnownCommandUnavailable { command } =>
                RequestError::KnownCommandUnavailable { command: command@ },
            RequestError::ArtifactReadUnavailable => RequestError::ArtifactReadUnavailable,
            RequestError::UnknownCommandKind { kind } => RequestError::UnknownCommandKind {
                kind: kind@,
            },
            RequestError::TaskIdForbiddenOnCreate => RequestError::TaskIdForbiddenOnCreate,
            RequestError::MachineAnswerDenied => RequestError::MachineAnswerDenied,
            RequestError::MissingRevisionFields => RequestError::MissingRevisionFields,
            RequestError::Selection(e) => RequestError::Selection(*e),
            RequestError::MethodUnavailable { method } => RequestError::MethodUnavailable {
                method: method@,
            },
        }
    }
}

/// The diagnostic line of a refusal.
pub open spec fn refusal_message(e: Refusal) -> Seq<char> {
    match e {
        RequestError::RequestTooLarge => "request exceeds the 1 MiB cap"@,
        RequestError::InvalidJson => "request is not valid JSON"@,
        RequestError::MissingRequestId => "request id is required"@,
        RequestError::NotificationId => "notification ids are not accepted"@,
        RequestError::InvalidRequestId =>
            "id must be a string of at most 256 bytes or an exact integer"@,
        RequestError::WrongJsonRpc => "jsonrpc must be \"2.0\""@,
        RequestError::MissingMethod => "method is required"@,
        RequestError::InvalidPage => "page must be an object"@,
        RequestError::InvalidPageSize => "page_size must be a positive integer"@,
        RequestError::Serialization => "response serialization failed"@,
        RequestError::InvalidPageCursor =>
            "page cursor must be gen:<generation>:offset:<offset>"@,
        RequestError::PageCursorOffsetOutOfRange => "page cursor offset is out of range"@,
        RequestError::InvalidAfterCursor =>
            "after_cursor must be a non-negative integer within the SQLite cursor range"@,
        RequestError::ParamsNotObject => "params must be an object"@,
        RequestError::UnknownMethod { method } => "unknown method "@ + method,
        RequestError::Required { field } => field + " is required"@,
        RequestError::UnsupportedVersion { version } => "unsupported schema_version "@
            + text::decimal(version as nat),
        RequestError::KeysNotArray => "keys must be a non-empty array"@,
        RequestError::ArrayTooLarge { field } => field + " exceeds "@ + text::decimal(
            ARRAY_MAX_ITEMS as nat,
        ) + " items"@,
        RequestError::ArrayNotArray { field } => field + " must be an array"@,
        RequestError::ArrayItemNotString { field } => field + " items must be strings"@,
        RequestError::EmptyKeys => "keys must be a non-empty array"@,
        RequestError::KeysNotStrings => "keys must be strings"@,
        RequestError::DuplicateKey { key } => "duplicate key "@ + key,
        RequestError::InvalidKey { key } => "unknown key "@ + key + "; known keys: "@
            + config::WORKFLOW_KEY@,
        RequestError::UnknownLocalCommand { command } => "unknown local command "@ + command,
        RequestError::KnownCommandUnavailable { command } => command
            + " is known but not available in this build"@,
        RequestError::ArtifactReadUnavailable =>
            "artifact.read is known but not available in this build"@,
        RequestError::UnknownCommandKind { kind } => "unknown command kind "@ + kind,
        RequestError::TaskIdForbiddenOnCreate => "task_id is forbidden on create"@,
        RequestError::MachineAnswerDenied =>
            "machine answer without an explicit delegation is denied; the pending question is preserved"@,
        RequestError::MissingRevisionFields => "revision fields are required"@,
        RequestError::Selection(e) => selection_message(e),
        RequestError::MethodUnavailable { method } => method
            + " is not available in this build"@,
    }
}

/// The wire code of a refusal.
pub open spec fn refusal_code(e: Refusal) -> ErrorCode {
    match e {
        RequestError::UnknownMethod { .. } => ErrorCode::UnknownMethod,
        RequestError::UnsupportedVersion { .. } => ErrorCode::UnsupportedVersion,
        RequestError::KnownCommandUnavailable { .. } => ErrorCode::CapabilityUnavailable,
        RequestError::ArtifactReadUnavailable => ErrorCode::CapabilityUnavailable,
        RequestError::MethodUnavailable { .. } => ErrorCode::CapabilityUnavailable,
        RequestError::MachineAnswerDenied => ErrorCode::Denied,
        RequestError::Serialization => ErrorCode::InternalError,
        _ => ErrorCode::InvalidInput,
    }
}

/// The protocol code of a refusal.
pub open spec fn refusal_rpc_code(e: Refusal) -> int {
    match e {
        RequestError::InvalidJson => -32700,
        RequestError::MissingRequestId => -32600,
        RequestError::NotificationId => -32600,
        RequestError::InvalidRequestId => -32600,
        RequestError::WrongJsonRpc => -32600,
        RequestError::MissingMethod => -32600,
        RequestError::UnknownMethod { .. } => -32601,
        RequestError::UnsupportedVersion { .. } => -32000,
        RequestError::KnownCommandUnavailable { .. } => -32000,
        RequestError::ArtifactReadUnavailable => -32000,
        RequestError::MachineAnswerDenied => -32000,
        RequestError::MethodUnavailable { .. } => -32000,
        RequestError::Serialization => -32000,
        _ => -32602,
    }
}

/// The protocol message of a refusal: the name of its code, but for a text
/// that is no JSON.
pub open spec fn refusal_rpc_message(e: Refusal) -> Seq<char> {
    if e is InvalidJson {
        "parse error"@
    } else {
        contracts::code_name(refusal_code(e))
    }
}

impl SelectionError {
    /// The diagnostic line of this error.
    pub fn message(&self) -> (r: String)
        ensures
            r@ == selection_message(*self),
    {
        match self {
            SelectionError::ConflictingFields => owned(
                "selection cannot carry both option_id and text",
            ),
            SelectionError::MissingOptionId => owned("option_id is required"),
            SelectionError::TextTooLarge => {
                let max: String = decimal_text(TEXT_MAX_BYTES as u64);
                text3("custom text exceeds ", max.as_str(), " bytes")
            },
            SelectionError::MissingText => owned("custom text is required"),
            SelectionError::UnsupportedKind => owned("selection.kind must be option or custom"),
        }
    }
}

impl RequestError {
    /// The diagnostic line of this refusal.
    pub fn message(&self) -> (r: String)
        ensures
            r@ == refusal_message(self@),
    {
        match self {
            RequestError::RequestTooLarge => owned("request exceeds the 1 MiB cap"),
            RequestError::InvalidJson => owned("request is not valid JSON"),
            RequestError::MissingRequestId => owned("request id is required"),
            RequestError::NotificationId => owned("notification ids are not accepted"),
            RequestError::InvalidRequestId => owned(
                "id must be a string of at most 256 bytes or an exact integer",
            ),
            RequestError::WrongJsonRpc => owned("jsonrpc must be \"2.0\""),
            RequestError::MissingMethod => owned("method is required"),
            RequestError::InvalidPage => owned("page must be an object"),
            RequestError::InvalidPageSize => owned("page_size must be a positive integer"),
            RequestError::Serialization => owned("response serialization failed"),
            RequestError::InvalidPageCursor => owned(
                "page cursor must be gen:<generation>:offset:<offset>",
            ),
            RequestError::PageCursorOffsetOutOfRange => owned(
                "page cursor offset is out of range",
            ),
            RequestError::InvalidAfterCursor => owned(
                "after_cursor must be a non-negative integer within the SQLite cursor range",
            ),
            RequestError::ParamsNotObject => owned("params must be an object"),
            RequestError::UnknownMethod { method } => text2("unknown method ", method.as_str()),
            RequestError::Required { field } => text2(field, " is required"),
            RequestError::UnsupportedVersion { version } => {
                let v: String = decimal_text(*version);
                text2("unsupported schema_version ", v.as_str())
            },
            RequestError::KeysNotArray => owned("keys must be a non-empty array"),
            RequestError::ArrayTooLarge { field } => {
                let max: String = decimal_text(ARRAY_MAX_ITEMS as u64);
                text4(field, " exceeds ", max.as_str(), " items")
            },
            RequestError::ArrayNotArray { field } => text2(field, " must be an array"),
            RequestError::ArrayItemNotString { field } => text2(field, " items must be strings"),
            RequestError::EmptyKeys => owned("keys must be a non-empty array"),
            RequestError::KeysNotStrings => owned("keys must be strings"),
            RequestError::DuplicateKey { key } => text2("duplicate key ", key.as_str()),
            RequestError::InvalidKey { key } => text4(
                "unknown key ",
                key.as_str(),
                "; known keys: ",
                config::WORKFLOW_KEY,
            ),
            RequestError::UnknownLocalCommand { command } => text2(
                "unknown local command ",
                command.as_str(),
            ),
            RequestError::KnownCommandUnavailable { command } => text2(
                command.as_str(),
                " is known but not available in this build",
            ),
            RequestError::ArtifactReadUnavailable => owned(
                "artifact.read is known but not available in this build",
            ),
            RequestError::UnknownCommandKind { kind } => text2(
                "unknown command kind ",
                kind.as_str(),
            ),
            RequestError::TaskIdForbiddenOnCreate => owned("task_id is forbidden on create"),
            RequestError::MachineAnswerDenied => owned(
                "machine answer without an explicit delegation is denied; the pending question is preserved",
            ),
            RequestError::MissingRevisionFields => owned("revision fields are required"),
            RequestError::Selection(e) => e.message(),
            RequestError::MethodUnavailable { method } => text2(
                method.as_str(),
                " is not available in this build",
            ),
        }
    }

    /// The wire code of this refusal.
    pub fn code(&self) -> (r: ErrorCode)
        ensures
            r == refusal_code(self@),
    {
        match self {
            RequestError::UnknownMethod { .. } => ErrorCode::UnknownMethod,
            RequestError::UnsupportedVersion { .. } => ErrorCode::UnsupportedVersion,
            RequestError::KnownCommandUnavailable { .. } => ErrorCode::CapabilityUnavailable,
            RequestError::ArtifactReadUnavailable => ErrorCode::CapabilityUnavailable,
            RequestError::MethodUnavailable { .. } => ErrorCode::CapabilityUnavailable,
            RequestError::MachineAnswerDenied => ErrorCode::Denied,
            RequestError::Serialization => ErrorCode::InternalError,
            _ => ErrorCode::InvalidInput,
        }
    }

    /// The protocol code of this refusal.
    pub fn rpc_code(&self) -> (r: i64)
        ensures
            r == refusal_rpc_code(self@),
    {
        match self {
            RequestError::InvalidJson => -32700,
            RequestError::MissingRequestId => -32600,
            RequestError::NotificationId => -32600,
            RequestError::InvalidRequestId => -32600,
            RequestError::WrongJsonRpc => -32600,
            RequestError::MissingMethod => -32600,
            RequestError::UnknownMethod { .. } => -32601,
            RequestError::UnsupportedVersion { .. } => -32000,
            RequestError::KnownCommandUnavailable { .. } => -32000,
            RequestError::ArtifactReadUnavailable => -32000,
            RequestError::MachineAnswerDenied => -32000,
            RequestError::MethodUnavailable { .. } => -32000,
            RequestError::Serialization => -32000,
            _ => -32602,
        }
    }

    /// The protocol message of this refusal.
    pub fn rpc_message(&self) -> (r: &'static str)
        ensures
            r@ == refusal_rpc_message(self@),
    {
        match self {
            RequestError::InvalidJson => "parse error",
            _ => self.code().as_str(),
        }
    }
}

// ----- envelopes -------------------------------------------------------------

/// The response to a refused request.
pub open spec fn refused(id: json::JsonView, e: Refusal) -> contracts::ResponseView {
    contracts::failed(
        id,
        refusal_rpc_code(e),
        refusal_rpc_message(e),
        contracts::plain_error(refusal_code(e), refusal_message(e)),
    )
}

/// Executable [`refused`].
pub fn request_error(id: Json, err: RequestError) -> (r: RpcResponse)
    ensures
        r@ == refused(id@, err@),
{
    let code: ErrorCode = err.code();
    RpcResponse {
        jsonrpc: "2.0",
        id,
        result: None,
        error: Some(
            RpcErrorBody {
                code: err.rpc_code(),
                message: owned(err.rpc_message()),
                data: WireError::new(code, err.message()),
            },
        ),
    }
}

/// A failure with a code and a message.
pub open spec fn failed(
    id: json::JsonView,
    code: ErrorCode,
    rpc_code: int,
    message: Seq<char>,
) -> contracts::ResponseView {
    contracts::failed(
        id,
        rpc_code,
        contracts::code_name(code),
        contracts::plain_error(code, message),
    )
}

/// Executable [`failed`].
pub fn envelope_error(id: Json, code: ErrorCode, rpc_code: i64, message: String) -> (r: RpcResponse)
    ensures
        r@ == failed(id@, code, rpc_code as int, message@),
{
    RpcResponse::error(id, rpc_code, WireError::new(code, message))
}

/// What a caller may do about a store error.
pub open spec fn store_recovery(e: StoreError<Seq<char>>) -> Seq<char> {
    match e {
        StoreError::NotFound(_) => "; read runtime.status to list tasks"@,
        StoreError::Conflict(_) => "; re-read the current snapshot before retrying"@,
        StoreError::StaleIntent { .. } => "; read task.snapshot for current revisions"@,
        StoreError::AlreadyTerminal => "; the historical outcome is preserved"@,
        StoreError::InvalidInput(_) => ""@,
        StoreError::Storage(_) => "; retry after checking local storage"@,
    }
}

/// The response to a store error: its message goes on with the recovery.
pub open spec fn store_failed(
    id: json::JsonView,
    e: StoreError<Seq<char>>,
) -> contracts::ResponseView {
    failed(
        id,
        state::store_code(e),
        -32000,
        state::store_message(e) + store_recovery(e),
    )
}

/// Executable [`store_failed`].
pub fn store_error(id: Json, err: &StoreError) -> (r: RpcResponse)
    ensures
        r@ == store_failed(id@, err@),
{
    let message: String = err.message();
    let recovery: &str = match err {
        StoreError::NotFound(_) => "; read runtime.status to list tasks",
        StoreError::Conflict(_) => "; re-read the current snapshot before retrying",
        StoreError::StaleIntent { .. } => "; read task.snapshot for current revisions",
        StoreError::AlreadyTerminal => "; the historical outcome is preserved",
        StoreError::InvalidInput(_) => "",
        StoreError::Storage(_) => "; retry after checking local storage",
    };
    envelope_error(id, err.code(), -32000, text2(message.as_str(), recovery))
}

/// The response that an answer of the store becomes: its payload, or its
/// error.
pub fn answered(id: Json, payload: Result<Json, StoreError>) -> (r: RpcResponse)
    ensures
        r@ == (match payload {
            Ok(value) => contracts::succeeded(id@, value@),
            Err(e) => store_failed(id@, e@),
        }),
{
    match payload {
        Ok(value) => RpcResponse::ok(id, value),
        Err(e) => store_error(id, &e),
    }
}

// ----- framing ---------------------------------------------------------------

/// A request whose envelope is in order.
#[derive(Debug)]
pub struct OpenedRequest {
    pub id: Json,
    pub method: String,
    pub params: Json,
}

/// The mathematical value of an opened request.
pub struct OpenedView {
    pub id: json::JsonView,
    pub method: Seq<char>,
    pub params: json::JsonView,
}

impl View for OpenedRequest {
    type V = OpenedView;

    open spec fn view(&self) -> OpenedView {
        OpenedView { id: self.id@, method: self.method@, params: self.params@ }
    }
}

/// An id is a string of at most 256 bytes or an exact integer.
pub open spec fn is_request_id(id: json::JsonView) -> bool {
    match id {
        json::JsonView::Text(t) => vstd::utf8::encode_utf8(t).len() <= 256,
        json::JsonView::Number(n) => json::is_i64(n),
        _ => false,
    }
}

/// What a parsed request opens as, or the response that refuses it.
pub open spec fn opened(parsed: json::JsonView) -> Result<
    OpenedView,
    contracts::ResponseView,
> {
    match json::get_spec(parsed, "id"@) {
        None => Err(refused(json::JsonView::Null, RequestError::MissingRequestId)),
        Some(id) => if id is Null {
            Err(refused(id, RequestError::NotificationId))
        } else if !is_request_id(id) {
            Err(refused(id, RequestError::InvalidRequestId))
        } else if json::text_spec(json::get_spec(parsed, "jsonrpc"@)) != Some(
            "2.0"@,
        ) {
            Err(refused(id, RequestError::WrongJsonRpc))
        } else {
            match json::text_spec(json::get_spec(parsed, "method"@)) {
                None => Err(refused(id, RequestError::MissingMethod)),
                Some(method) => match json::get_spec(parsed, "params"@) {
                    Some(params) => if !(params is Object) {
                        Err(refused(id, RequestError::ParamsNotObject))
                    } else if !is_method(method) {
                        Err(refused(id, RequestError::UnknownMethod { method }))
                    } else {
                        match json::u64_spec(
                            json::get_spec(params, "schema_version"@),
                        ) {
                            None => Err(
                                refused(id, RequestError::Required { field: "schema_version"@ }),
                            ),
                            Some(version) => if version != 1 {
                                Err(refused(id, RequestError::UnsupportedVersion { version }))
                            } else {
                                Ok(OpenedView { id, method, params })
                            },
                        }
                    },
                    None => Err(refused(id, RequestError::ParamsNotObject)),
                },
            }
        },
    }
}

pub open spec fn opened_view(r: Result<OpenedRequest, RpcResponse>) -> Result<
    OpenedView,
    contracts::ResponseView,
> {
    match r {
        Ok(o) => Ok(o@),
        Err(e) => Err(e@),
    }
}

fn valid_id(id: &Json) -> (r: bool)
    ensures
        r == is_request_id(id@),
{
    match id {
        Json::Text(t) => bytes_of(t.as_str()).len() <= 256,
        Json::Number(n) => fits_i64(n.as_str()),
        _ => false,
    }
}

/// Executable [`opened`].
pub fn open_parsed(parsed: &Json) -> (r: Result<OpenedRequest, RpcResponse>)
    ensures
        opened_view(r) == opened(parsed@),
{
    let id: Json = match parsed.get("id") {
        Some(id) => id.clone(),
        None => {
            return Err(request_error(Json::Null, RequestError::MissingRequestId));
        },
    };
    match &id {
        Json::Null => {
            return Err(request_error(id, RequestError::NotificationId));
        },
        _ => {},
    }
    if !valid_id(&id) {
        return Err(request_error(id, RequestError::InvalidRequestId));
    }
    let framed: bool = match parsed.get_text("jsonrpc") {
        Some(v) => same(v, "2.0"),
        None => false,
    };
    if !framed {
        return Err(request_error(id, RequestError::WrongJsonRpc));
    }
    let method: &str = match parsed.get_text("method") {
        Some(m) => m,
        None => {
            return Err(request_error(id, RequestError::MissingMethod));
        },
    };
    let params: Json = match parsed.get("params") {
        Some(p) => p.clone(),
        None => {
            return Err(request_error(id, RequestError::ParamsNotObject));
        },
    };
    match &params {
        Json::Object(_) => {},
        _ => {
            return Err(request_error(id, RequestError::ParamsNotObject));
        },
    }
    if !known_method(method) {
        return Err(request_error(id, RequestError::UnknownMethod { method: owned(method) }));
    }
    match params.get_u64("schema_version") {
        None => Err(request_error(id, RequestError::Required { field: "schema_version" })),
        Some(version) => if version != 1 {
            Err(request_error(id, RequestError::UnsupportedVersion { version }))
        } else {
            Ok(OpenedRequest { id, method: owned(method), params })
        },
    }
}

/// Opens the text of a request: its size, its syntax, then its envelope.
pub fn open_request(request: &str) -> (r: Result<OpenedRequest, RpcResponse>)
    ensures
        if vstd::utf8::encode_utf8(request@).len() > REQUEST_MAX_BYTES {
            r matches Err(x) && x@ == refused(
                json::JsonView::Null,
                RequestError::RequestTooLarge,
            )
        } else {
            match json::parsed_json(request@) {
                None => r matches Err(x) && x@ == refused(
                    json::JsonView::Null,
                    RequestError::InvalidJson,
                ),
                Some(parsed) => opened_view(r) == opened(parsed),
            }
        },
{
    if bytes_of(request).len() > REQUEST_MAX_BYTES {
        return Err(request_error(Json::Null, RequestError::RequestTooLarge));
    }
    match parse_json(request) {
        None => Err(request_error(Json::Null, RequestError::InvalidJson)),
        Some(parsed) => open_parsed(&parsed),
    }
}

/// The text of a wire error.
pub open spec fn wire_text(w: WireError<Seq<char>>) -> Seq<char> {
    "{\"code\":"@ + json::quoted(contracts::code_name(w.code)) + ",\"message\":"@
        + json::quoted(w.message) + (match w.boundary_id {
        Some(b) => ",\"boundary_id\":"@ + json::quoted(b),
        None => Seq::empty(),
    }) + ",\"retry_class\":"@ + json::quoted(contracts::retry_name(w.retry_class))
        + "}"@
}

/// The text of an error body.
pub open spec fn error_text(e: contracts::ErrorBodyView) -> Seq<char> {
    "{\"code\":"@ + json::signed(e.code) + ",\"message\":"@ + json::quoted(e.message)
        + ",\"data\":"@ + wire_text(e.data) + "}"@
}

/// The text of a response: a result or an error that is missing is not
/// mentioned.
pub open spec fn response_text(r: contracts::ResponseView) -> Seq<char> {
    "{\"jsonrpc\":"@ + json::quoted(r.jsonrpc) + ",\"id\":"@ + json::rendered(r.id) + (
    match r.result {
        Some(result) => ",\"result\":"@ + json::rendered(result),
        None => Seq::empty(),
    }) + (match r.error {
        Some(e) => ",\"error\":"@ + error_text(e),
        None => Seq::empty(),
    }) + "}"@
}

fn render_wire(w: &WireError) -> (r: String)
    ensures
        r@ == wire_text(w@),
{
    let code: String = quote(w.code.as_str());
    let message: String = quote(w.message.as_str());
    let boundary: String = match &w.boundary_id {
        Some(b) => {
            let q: String = quote(b.as_str());
            text2(",\"boundary_id\":", q.as_str())
        },
        None => String::new(),
    };
    let retry: String = quote(w.retry_class.name());
    let head: String = text4("{\"code\":", code.as_str(), ",\"message\":", message.as_str());
    let tail: String = text3(",\"retry_class\":", retry.as_str(), "}");
    let all: String = text3(head.as_str(), boundary.as_str(), tail.as_str());
    assert(all@ =~= wire_text(w@));
    all
}

fn render_error(body: &RpcErrorBody) -> (r: String)
    ensures
        r@ == error_text(
            contracts::ErrorBodyView {
                code: body.code as int,
                message: body.message@,
                data: body.data@,
            },
        ),
{
    let code: String = signed_text(body.code);
    let message: String = quote(body.message.as_str());
    let data: String = render_wire(&body.data);
    let head: String = text4("{\"code\":", code.as_str(), ",\"message\":", message.as_str());
    text4(head.as_str(), ",\"data\":", data.as_str(), "}")
}

/// Executable [`response_text`].
pub fn render_response(response: &RpcResponse) -> (r: String)
    ensures
        r@ == response_text(response@),
{
    let version: String = quote(response.jsonrpc);
    let id: String = render_json(&response.id);
    let head: String = text4("{\"jsonrpc\":", version.as_str(), ",\"id\":", id.as_str());
    let result: String = match &response.result {
        Some(value) => {
            let body: String = render_json(value);
            text2(",\"result\":", body.as_str())
        },
        None => String::new(),
    };
    let error: String = match &response.error {
        Some(e) => {
            let body: String = render_error(e);
            text2(",\"error\":", body.as_str())
        },
        None => String::new(),
    };
    let all: String = text4(head.as_str(), result.as_str(), error.as_str(), "}");
    assert(all@ =~= response_text(response@));
    all
}

} // verus!
