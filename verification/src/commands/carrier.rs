//! Configuration commands: an accepted edit is served only while it is, or
//! will be, on disk.

use crate::commands::params::{self, text_param};
use crate::commands::{self, envelope_error, store_error, RequestError};
use crate::config::ConfigError;
use crate::config::document;
use crate::config::effective::{self, ConfigEntry, EffectiveConfig};
use crate::config::publication::{
    self, PublicationAdmission, PublicationError, PublicationIntent, PublicationRecovery,
    PublicationVerdict,
};
use crate::config::schema;
use crate::config::settings::{self, Config, ConfigEdit};
use crate::config::wire;
use crate::config;
use crate::contracts::{self, ErrorCode, RpcResponse, SCHEMA_VERSION};
use crate::executor::{self, worker_error_code};
use crate::json::{self, number_json, put, text_json, Json};
use crate::text::{self, chars_of, text5};
use vstd::prelude::*;

verus! {

/// The journal owner of the commands of this surface.
pub const CONFIG_CARRIER_OWNER: &'static str = "cli";

/// What kind of local command a name is.
#[derive(Debug, Clone, Copy, PartialEq, Eq, Structural)]
pub enum LocalKind {
    ConfigSet,
    ConfigUnset,
    PlannedUnimplemented,
    Unknown,
}

/// One edit that is asked for.
#[derive(Debug)]
pub enum EditRequest {
    Assign { key: String, value: Json },
    Unset { key: String },
}

/// The mathematical value of an edit.
pub enum EditView {
    Assign { key: Seq<char>, value: json::JsonView },
    Unset { key: Seq<char> },
}

impl View for EditRequest {
    type V = EditView;

    open spec fn view(&self) -> EditView {
        match self {
            EditRequest::Assign { key, value } => EditView::Assign { key: key@, value: value@ },
            EditRequest::Unset { key } => EditView::Unset { key: key@ },
        }
    }
}

/// What a local command comes to: an edit, or why it is refused.
pub open spec fn local_plan(
    local: LocalKind,
    kind: Seq<char>,
    params: json::JsonView,
) -> Result<EditView, commands::Refusal> {
    let session = params::text_of_param(params, "session_id"@);
    let key = params::text_of_param(params, "key"@);
    match local {
        LocalKind::Unknown => Err(RequestError::UnknownLocalCommand { command: kind }),
        LocalKind::PlannedUnimplemented => Err(
            RequestError::KnownCommandUnavailable { command: kind },
        ),
        LocalKind::ConfigSet => if session is None {
            Err(RequestError::Required { field: "session_id"@ })
        } else if key is None {
            Err(RequestError::Required { field: "key"@ })
        } else {
            match json::get_spec(params, "value"@) {
                None => Err(RequestError::Required { field: "value"@ }),
                Some(value) => Ok(EditView::Assign { key: key->0, value }),
            }
        },
        LocalKind::ConfigUnset => if session is None {
            Err(RequestError::Required { field: "session_id"@ })
        } else if key is None {
            Err(RequestError::Required { field: "key"@ })
        } else {
            Ok(EditView::Unset { key: key->0 })
        },
    }
}

/// Executable [`local_plan`].
pub fn local_command(local: LocalKind, kind: String, params: &Json) -> (r: Result<
    EditRequest,
    RequestError,
>)
    ensures
        match local_plan(local, kind@, params@) {
            Ok(e) => r matches Ok(x) && x@ == e,
            Err(e) => r matches Err(x) && x@ == e,
        },
{
    match local {
        LocalKind::Unknown => Err(RequestError::UnknownLocalCommand { command: kind }),
        LocalKind::PlannedUnimplemented => Err(
            RequestError::KnownCommandUnavailable { command: kind },
        ),
        _ => {
            if text_param(params, "session_id").is_none() {
                return Err(RequestError::Required { field: "session_id" });
            }
            let key: String = match text_param(params, "key") {
                Some(k) => k,
                None => {
                    return Err(RequestError::Required { field: "key" });
                },
            };
            match local {
                LocalKind::ConfigUnset => Ok(EditRequest::Unset { key }),
                _ => match params.get("value") {
                    Some(v) => Ok(EditRequest::Assign { key, value: v.clone() }),
                    None => Err(RequestError::Required { field: "value" }),
                },
            }
        },
    }
}

/// What the surfaces serve of the configuration: the typed view and the
/// document, where one is retained, and the workflow entry.
pub struct Served {
    pub typed: Option<schema::Validated>,
    pub raw: Option<toml_edit::DocumentMut>,
    pub entry: effective::EntryView,
}

/// What a retained configuration and an entry serve.
pub open spec fn served_by(parsed: Option<Config>, entry: ConfigEntry) -> Served {
    Served {
        typed: match parsed {
            Some(c) => Some(c.typed()),
            None => None,
        },
        raw: match parsed {
            Some(c) => c.retained(),
            None => None,
        },
        entry: entry@,
    }
}

/// What a configuration in force serves.
pub open spec fn served(e: EffectiveConfig) -> Served {
    served_by(e.parsed, e.workflow_entry)
}

/// What was served before an edit.
#[derive(Debug)]
pub struct RetainedView {
    pub parsed: Option<Config>,
    pub workflow_entry: ConfigEntry,
}

/// Takes what is served now.
pub fn retained_view(effective: &EffectiveConfig) -> (r: RetainedView)
    ensures
        served_by(r.parsed, r.workflow_entry) == served(*effective),
{
    let parsed: Option<Config> = match &effective.parsed {
        Some(c) => Some(c.clone()),
        None => None,
    };
    RetainedView { parsed, workflow_entry: effective.workflow_entry.clone() }
}

/// Serves again what was served before.
pub fn restore_retained_view(effective: &mut EffectiveConfig, before: RetainedView)
    ensures
        served(*final(effective)) == served_by(before.parsed, before.workflow_entry),
        final(effective).sources_digest == old(effective).sources_digest,
{
    effective.parsed = before.parsed;
    effective.workflow_entry = before.workflow_entry;
}

/// The document that an edit leaves, or why it is rejected.
pub open spec fn edit_outcome(raw: Option<toml_edit::DocumentMut>, edit: EditView) -> Result<
    document::DocState,
    config::Rejection,
> {
    match edit {
        EditView::Assign { key, value } => wire::set_wire_outcome(raw, key, value),
        EditView::Unset { key } => settings::reset_outcome(raw, key),
    }
}

/// The typed view that an edit starts from.
pub open spec fn base_view(s: Served) -> schema::Validated {
    match s.typed {
        Some(v) => v,
        None => settings::unread(),
    }
}

/// An edit that was accepted, and what was served before it.
#[derive(Debug)]
pub struct AcceptedEdit {
    pub edit: ConfigEdit,
    pub before: RetainedView,
}

/// Applies one edit to the retained document. An accepted edit moves the
/// document and its served entry together; a rejected one changes neither.
pub fn commit_config_edit(effective: &mut EffectiveConfig, request: &EditRequest) -> (r: Result<
    AcceptedEdit,
    ConfigError,
>)
    ensures
        final(effective).sources_digest == old(effective).sources_digest,
        final(effective).parsed is Some,
        match edit_outcome(served(*old(effective)).raw, request@) {
            Err(e) => {
                &&& r matches Err(x) && x@ == e
                &&& final(effective).parsed->0.retained() == served(*old(effective)).raw
                &&& final(effective).parsed->0.typed() == base_view(served(*old(effective)))
                &&& final(effective).workflow_entry@ == old(effective).workflow_entry@
            },
            Ok(state) => {
                let now = final(effective).parsed->0;
                &&& r matches Ok(a) && served_by(a.before.parsed, a.before.workflow_entry)
                    == served(*old(effective)) && settings::reports(
                    a.edit,
                    now.retained()->0,
                ) && final(effective).workflow_entry@
                    == effective::workflow_entry_for(
                    now.workflow.enabled,
                    a.edit.digest@,
                )
                &&& now.retained() is Some
                &&& document::document_state(now.retained()->0) == state
                &&& now.typed() == settings::refreshed(
                    base_view(served(*old(effective))),
                    state.tree,
                )
            },
        },
{
    let before: RetainedView = retained_view(effective);
    let mut retained: Config = match &effective.parsed {
        Some(c) => c.clone(),
        None => Config::default(),
    };
    let outcome: Result<ConfigEdit, ConfigError> = match request {
        EditRequest::Assign { key, value } => retained.set_wire(key.as_str(), value),
        EditRequest::Unset { key } => retained.reset(key.as_str()),
    };
    effective.parsed = Some(retained);
    match outcome {
        Err(e) => Err(e),
        Ok(edit) => {
            effective.refresh_workflow_entry(edit.digest.as_str());
            Ok(AcceptedEdit { edit, before })
        },
    }
}

/// The response to a rejected edit.
pub fn config_error(id: Json, err: &ConfigError) -> (r: RpcResponse)
    ensures
        r@ == commands::failed(
            id@,
            ErrorCode::InvalidInput,
            -32602,
            config::error_message(err@),
        ),
{
    envelope_error(id, ErrorCode::InvalidInput, -32602, err.message())
}

/// The response to a publication that failed: the journal keeps the store's
/// own response, and every other cause has a code of its own.
pub open spec fn publication_failed(
    id: json::JsonView,
    e: PublicationError<Seq<char>>,
) -> contracts::ResponseView {
    let message = publication::publication_message(e);
    match e {
        PublicationError::Journal(store) => commands::store_failed(id, store),
        PublicationError::Write(worker) => commands::failed(
            id,
            executor::worker_code(worker),
            -32000,
            message,
        ),
        PublicationError::TargetAbsent(_) => commands::failed(
            id,
            ErrorCode::NotFound,
            -32000,
            message,
        ),
        PublicationError::TargetNotUtf8 => commands::failed(
            id,
            ErrorCode::InvalidInput,
            -32602,
            message,
        ),
        PublicationError::Target(_) => commands::failed(
            id,
            ErrorCode::StorageUnavailable,
            -32000,
            message,
        ),
        PublicationError::IdentityMissing => commands::failed(
            id,
            ErrorCode::InternalError,
            -32000,
            message,
        ),
    }
}

/// Executable [`publication_failed`].
pub fn publication_error(id: Json, err: &PublicationError) -> (r: RpcResponse)
    ensures
        r@ == publication_failed(id@, err@),
{
    let (code, rpc_code): (ErrorCode, i64) = match err {
        PublicationError::Journal(store) => {
            return store_error(id, store);
        },
        PublicationError::Write(worker) => (worker_error_code(worker), -32000),
        PublicationError::TargetAbsent(_) => (ErrorCode::NotFound, -32000),
        PublicationError::TargetNotUtf8 => (ErrorCode::InvalidInput, -32602),
        PublicationError::Target(_) => (ErrorCode::StorageUnavailable, -32000),
        PublicationError::IdentityMissing => (ErrorCode::InternalError, -32000),
    };
    envelope_error(id, code, rpc_code, err.message())
}

/// What an admitted command does next.
#[derive(Debug)]
pub enum CarrierStep {
    /// Write the bytes and record the receipt.
    Publish(PublicationIntent),
    /// Heal an own row, or observe another owner's.
    Resolve(PublicationIntent),
    /// The row is done.
    Answer(PublicationIntent),
}

/// The next step of an admitted command.
pub fn admitted_step(admission: PublicationAdmission) -> (r: CarrierStep)
    ensures
        r == (match admission {
            PublicationAdmission::Staged(i) => CarrierStep::Publish(i),
            PublicationAdmission::Pending(i) => CarrierStep::Resolve(i),
            PublicationAdmission::Applied(i) => CarrierStep::Answer(i),
        }),
{
    match admission {
        PublicationAdmission::Staged(i) => CarrierStep::Publish(i),
        PublicationAdmission::Pending(i) => CarrierStep::Resolve(i),
        PublicationAdmission::Applied(i) => CarrierStep::Answer(i),
    }
}

/// Why an accepted edit was not published.
#[derive(Debug)]
pub struct CarrierFailure {
    /// The command was journaled before it failed.
    pub admitted: bool,
    pub error: PublicationError,
}

/// The result of a configuration command.
pub open spec fn command_json(
    command: Seq<char>,
    key: Seq<char>,
    digest: Seq<char>,
    intent: publication::IntentView,
) -> json::JsonView {
    json::JsonView::Object(
        seq![
            (
                "admission_seq"@,
                json::JsonView::Number(text::decimal(intent.admission_seq as nat)),
            ),
            ("command"@, json::JsonView::Text(command)),
            ("digest"@, json::JsonView::Text(digest)),
            ("key"@, json::JsonView::Text(key)),
            ("owner"@, json::JsonView::Text(intent.owner)),
            (
                "schema_version"@,
                json::JsonView::Number(text::decimal(SCHEMA_VERSION as nat)),
            ),
        ],
    )
}

/// The name of a configuration command.
pub open spec fn command_name(edit: EditView) -> Seq<char> {
    match edit {
        EditView::Assign { .. } => "config.set"@,
        EditView::Unset { .. } => "config.unset"@,
    }
}

pub open spec fn edit_key(edit: EditView) -> Seq<char> {
    match edit {
        EditView::Assign { key, .. } => key,
        EditView::Unset { key } => key,
    }
}

/// Whether an edit that was not published stays served: only where just its
/// receipt is missing, for then its bytes are on disk.
pub open spec fn stays_served(admitted: bool, e: PublicationError<Seq<char>>) -> bool {
    admitted && e is Journal
}

/// Answers an accepted edit. One that did not land is served by no surface;
/// one that landed without a receipt stays served.
pub fn admit_config_command(
    effective: &mut EffectiveConfig,
    id: Json,
    request: &EditRequest,
    accepted: AcceptedEdit,
    outcome: Result<PublicationIntent, CarrierFailure>,
) -> (r: RpcResponse)
    ensures
        final(effective).sources_digest == old(effective).sources_digest,
        match outcome {
            Ok(intent) => {
                &&& r@ == contracts::succeeded(
                    id@,
                    command_json(
                        command_name(request@),
                        edit_key(request@),
                        accepted.edit.digest@,
                        intent@,
                    ),
                )
                &&& *final(effective) == *old(effective)
            },
            Err(f) => {
                &&& r@ == publication_failed(id@, f.error@)
                &&& if stays_served(f.admitted, f.error@) {
                    *final(effective) == *old(effective)
                } else {
                    served(*final(effective)) == served_by(
                        accepted.before.parsed,
                        accepted.before.workflow_entry,
                    )
                }
            },
        },
{
    match outcome {
        Ok(intent) => {
            let (command, key): (&str, &str) = match request {
                EditRequest::Assign { key, .. } => ("config.set", key.as_str()),
                EditRequest::Unset { key } => ("config.unset", key.as_str()),
            };
            let mut fields: Vec<(String, Json)> = Vec::new();
            put(&mut fields, "admission_seq", number_json(intent.admission_seq));
            put(&mut fields, "command", text_json(command));
            put(&mut fields, "digest", text_json(accepted.edit.digest.as_str()));
            put(&mut fields, "key", text_json(key));
            put(&mut fields, "owner", text_json(intent.owner.as_str()));
            put(&mut fields, "schema_version", number_json(SCHEMA_VERSION as u64));
            assert(json::object_views(fields@) =~= command_json(
                command_name(request@),
                edit_key(request@),
                accepted.edit.digest@,
                intent@,
            )->Object_0);
            RpcResponse::ok(id, Json::Object(fields))
        },
        Err(f) => {
            let keeps: bool = match &f.error {
                PublicationError::Journal(_) => f.admitted,
                _ => false,
            };
            if !keeps {
                restore_retained_view(effective, accepted.before);
            }
            publication_error(id, &f.error)
        },
    }
}

// ----- boot diagnostics ------------------------------------------------------

/// One character of a diagnostic: a control character in caret notation.
pub open spec fn inert_char(c: char) -> Seq<char> {
    if c <= '\u{1F}' {
        seq!['^', (c as u8 + 64) as char]
    } else if c == '\u{7F}' {
        seq!['^', '?']
    } else if '\u{80}' <= c && c <= '\u{9F}' {
        seq!['\u{FFFD}']
    } else {
        seq![c]
    }
}

/// A text without control characters.
pub open spec fn inert(s: Seq<char>) -> Seq<char>
    decreases s.len(),
{
    if s.len() == 0 {
        Seq::empty()
    } else {
        inert(s.drop_last()) + inert_char(s.last())
    }
}

fn push_inert(out: &mut String, c: char)
    ensures
        final(out)@ == old(out)@ + inert_char(c),
{
    let ghost before = out@;
    if c <= '\u{1F}' {
        out.push('^');
        out.push((c as u8 + 64) as char);
    } else if c == '\u{7F}' {
        out.push('^');
        out.push('?');
    } else if c >= '\u{80}' && c <= '\u{9F}' {
        out.push('\u{FFFD}');
    } else {
        out.push(c);
    }
    assert(out@ =~= before + inert_char(c));
}

/// Executable [`inert`].
pub fn sanitize_status_cause(s: &str) -> (r: String)
    ensures
        r@ == inert(s@),
{
    let chars: Vec<char> = chars_of(s);
    let mut out: String = String::new();
    let mut i: usize = 0;
    assert(chars@.take(0) =~= Seq::empty());
    while i < chars.len()
        invariant
            i <= chars.len(),
            out@ == inert(chars@.take(i as int)),
        decreases chars.len() - i,
    {
        push_inert(&mut out, chars[i]);
        assert(chars@.take(i as int + 1).drop_last() =~= chars@.take(i as int));
        assert(chars@.take(i as int + 1).last() == chars@[i as int]);
        i = i + 1;
    }
    assert(chars@.take(chars@.len() as int) =~= chars@);
    out
}

/// The token of a verdict that a person must resolve.
pub open spec fn verdict_token(v: PublicationVerdict) -> Option<Seq<char>> {
    match v {
        PublicationVerdict::ExactlyNew => None,
        PublicationVerdict::Old => Some("old"@),
        PublicationVerdict::ByteIdenticalThird => Some("byte_identical_third"@),
        PublicationVerdict::Conflicting => Some("conflicting"@),
        PublicationVerdict::TornOrUnparseable => Some("torn_or_unparseable"@),
        PublicationVerdict::Absent => Some("absent"@),
        PublicationVerdict::Unknown => Some("unknown"@),
    }
}

/// One line for a recovery that a person must resolve: the verdict, the
/// target without control characters, and the resolution. A receipted row
/// stays silent.
pub open spec fn diagnostic(
    verdict: PublicationVerdict,
    target: Seq<char>,
) -> Option<Seq<char>> {
    match verdict_token(verdict) {
        None => None,
        Some(token) => Some(
            "publication recovery: "@ + token + " verdict stays pending at "@ + inert(target)
                + "; resolution: inspect the target, then re-run the configuration edit that owns the pending publication"@,
        ),
    }
}

/// Executable [`diagnostic`].
pub fn recovery_diagnostic(recovery: &PublicationRecovery) -> (r: Option<String>)
    ensures
        text::opt_text(r) == diagnostic(recovery.verdict, recovery.intent.target@),
{
    let token: &str = match recovery.verdict {
        PublicationVerdict::ExactlyNew => {
            return None;
        },
        PublicationVerdict::Old => "old",
        PublicationVerdict::ByteIdenticalThird => "byte_identical_third",
        PublicationVerdict::Conflicting => "conflicting",
        PublicationVerdict::TornOrUnparseable => "torn_or_unparseable",
        PublicationVerdict::Absent => "absent",
        PublicationVerdict::Unknown => "unknown",
    };
    let target: String = sanitize_status_cause(recovery.intent.target.as_str());
    Some(
        text5(
            "publication recovery: ",
            token,
            " verdict stays pending at ",
            target.as_str(),
            "; resolution: inspect the target, then re-run the configuration edit that owns the pending publication",
        ),
    )
}

// ----- laws ------------------------------------------------------------------

proof fn lemma_inert_char(c: char)
    ensures
        forall|i: int|
            0 <= i < inert_char(c).len() ==> !text::is_control(
                #[trigger] inert_char(c)[i],
            ),
        !text::is_control(c) ==> inert_char(c) == seq![c],
{
}

/// A text that was made inert holds no control character, whatever it held
/// before.
pub proof fn law_inert_text_has_no_control(s: Seq<char>)
    ensures
        forall|i: int| 0 <= i < inert(s).len() ==> !text::is_control(#[trigger] inert(s)[i]),
    decreases s.len(),
{
    if s.len() > 0 {
        let head = inert(s.drop_last());
        let tail = inert_char(s.last());
        law_inert_text_has_no_control(s.drop_last());
        lemma_inert_char(s.last());
        assert forall|i: int| 0 <= i < inert(s).len() implies !text::is_control(
            #[trigger] inert(s)[i],
        ) by {
            if i < head.len() {
                assert(inert(s)[i] == head[i]);
            } else {
                assert(inert(s)[i] == tail[i - head.len()]);
            }
        }
    }
}

/// A text without control characters stays as it is.
pub proof fn law_plain_text_is_kept(s: Seq<char>)
    requires
        forall|i: int| 0 <= i < s.len() ==> !text::is_control(#[trigger] s[i]),
    ensures
        inert(s) == s,
    decreases s.len(),
{
    if s.len() > 0 {
        assert forall|i: int| 0 <= i < s.drop_last().len() implies !text::is_control(
            #[trigger] s.drop_last()[i],
        ) by {
            assert(s.drop_last()[i] == s[i]);
        }
        law_plain_text_is_kept(s.drop_last());
        assert(!text::is_control(s[s.len() - 1]));
        lemma_inert_char(s.last());
        assert(inert(s) =~= s);
    } else {
        assert(inert(s) =~= s);
    }
}

/// An edit that was not published stays served only where the journal failed
/// behind an admitted write; nothing else leaves it standing.
pub proof fn law_unpublished_edit_is_taken_back(e: PublicationError<Seq<char>>)
    ensures
        !stays_served(false, e),
        stays_served(true, e) <==> e is Journal,
{
}

/// A recovery is silent exactly where the bytes on disk are the new ones; any
/// other verdict is told in a line of its own, which names the target.
pub proof fn law_only_a_landed_write_is_silent(
    v: PublicationVerdict,
    w: PublicationVerdict,
    target: Seq<char>,
)
    ensures
        diagnostic(v, target) is None <==> v is ExactlyNew,
        verdict_token(v) == verdict_token(w) ==> v == w,
        diagnostic(v, target) matches Some(line) ==> text::has_prefix(
            line,
            "publication recovery: "@,
        ),
{
    reveal_strlit("old");
    reveal_strlit("byte_identical_third");
    reveal_strlit("conflicting");
    reveal_strlit("torn_or_unparseable");
    reveal_strlit("absent");
    reveal_strlit("unknown");
    assert("old"@.len() == 3 && "byte_identical_third"@.len() == 20 && "conflicting"@.len() == 11
        && "torn_or_unparseable"@.len() == 19 && "absent"@.len() == 6 && "unknown"@.len() == 7);
    let head = "publication recovery: "@;
    if let Some(line) = diagnostic(v, target) {
        assert(line.take(head.len() as int) =~= head);
    }
}

} // verus!
