//! Contract types of the runtime: the vocabulary of tasks, questions, events
//! and the request envelope. Every id is a nominal UUIDv4 text.

use crate::json::{self, Json};
use crate::text::{self, owned};
use vstd::prelude::*;

verus! {

pub const SCHEMA_VERSION: u32 = 1;

pub const TEXT_MAX_BYTES: usize = 65536;

pub const LABEL_MAX_BYTES: usize = 256;

pub const ARRAY_MAX_ITEMS: usize = 200;

pub const REQUEST_MAX_BYTES: usize = 1048576;

/// Ceiling on the bytes of one model request with its mandatory parts.
pub const MODEL_WIRE_MAX_BYTES: usize = 1048576;

pub const PAGE_DEFAULT: u32 = 20;

pub const PAGE_MAX: u32 = 200;

/// Error codes of the public contract.
#[derive(Debug, Clone, Copy, PartialEq, Eq, Structural)]
pub enum ErrorCode {
    InvalidInput,
    UnsupportedVersion,
    UnknownMethod,
    NotFound,
    Conflict,
    StaleIntent,
    AlreadyTerminal,
    Denied,
    CapabilityUnavailable,
    DependencyBlocked,
    OutcomeUnknown,
    ContextOverflow,
    BudgetExhausted,
    StorageUnavailable,
    OutputLimit,
    InternalError,
    Cancelled,
}

/// The wire name of an error code.
pub open spec fn code_name(c: ErrorCode) -> Seq<char> {
    match c {
        ErrorCode::InvalidInput => "invalid_input"@,
        ErrorCode::UnsupportedVersion => "unsupported_version"@,
        ErrorCode::UnknownMethod => "unknown_method"@,
        ErrorCode::NotFound => "not_found"@,
        ErrorCode::Conflict => "conflict"@,
        ErrorCode::StaleIntent => "stale_intent"@,
        ErrorCode::AlreadyTerminal => "already_terminal"@,
        ErrorCode::Denied => "denied"@,
        ErrorCode::CapabilityUnavailable => "capability_unavailable"@,
        ErrorCode::DependencyBlocked => "dependency_blocked"@,
        ErrorCode::OutcomeUnknown => "outcome_unknown"@,
        ErrorCode::ContextOverflow => "context_overflow"@,
        ErrorCode::BudgetExhausted => "budget_exhausted"@,
        ErrorCode::StorageUnavailable => "storage_unavailable"@,
        ErrorCode::OutputLimit => "output_limit"@,
        ErrorCode::InternalError => "internal_error"@,
        ErrorCode::Cancelled => "cancelled"@,
    }
}

/// The process exit code of an error code: usage errors are 2, faults of the
/// program itself 1, a cancellation 130, every refusal 3.
pub open spec fn exit_code_of(c: ErrorCode) -> u8 {
    match c {
        ErrorCode::InvalidInput | ErrorCode::UnsupportedVersion | ErrorCode::UnknownMethod => 2,
        ErrorCode::StorageUnavailable | ErrorCode::InternalError | ErrorCode::OutputLimit => 1,
        ErrorCode::Cancelled => 130,
        _ => 3,
    }
}

impl ErrorCode {
    /// The wire name of this code.
    pub fn as_str(self) -> (r: &'static str)
        ensures
            r@ == code_name(self),
    {
        match self {
            ErrorCode::InvalidInput => "invalid_input",
            ErrorCode::UnsupportedVersion => "unsupported_version",
            ErrorCode::UnknownMethod => "unknown_method",
            ErrorCode::NotFound => "not_found",
            ErrorCode::Conflict => "conflict",
            ErrorCode::StaleIntent => "stale_intent",
            ErrorCode::AlreadyTerminal => "already_terminal",
            ErrorCode::Denied => "denied",
            ErrorCode::CapabilityUnavailable => "capability_unavailable",
            ErrorCode::DependencyBlocked => "dependency_blocked",
            ErrorCode::OutcomeUnknown => "outcome_unknown",
            ErrorCode::ContextOverflow => "context_overflow",
            ErrorCode::BudgetExhausted => "budget_exhausted",
            ErrorCode::StorageUnavailable => "storage_unavailable",
            ErrorCode::OutputLimit => "output_limit",
            ErrorCode::InternalError => "internal_error",
            ErrorCode::Cancelled => "cancelled",
        }
    }

    /// The process exit code of the command-line surface.
    pub fn exit_code(self) -> (r: u8)
        ensures
            r == exit_code_of(self),
    {
        match self {
            ErrorCode::InvalidInput | ErrorCode::UnsupportedVersion | ErrorCode::UnknownMethod => 2,
            ErrorCode::StorageUnavailable | ErrorCode::InternalError | ErrorCode::OutputLimit => 1,
            ErrorCode::Cancelled => 130,
            _ => 3,
        }
    }
}

/// The exit code sorts the codes: 130 is a cancellation alone, 2 what the
/// caller spelled wrong, 1 what this program or its storage failed at, and 3
/// every other refusal; none of them looks like a success.
pub proof fn law_exit_code_sorts_the_codes(c: ErrorCode)
    ensures
        exit_code_of(c) == 130 <==> c is Cancelled,
        exit_code_of(c) == 2 <==> (c is InvalidInput || c is UnsupportedVersion
            || c is UnknownMethod),
        exit_code_of(c) == 1 <==> (c is StorageUnavailable || c is InternalError
            || c is OutputLimit),
        exit_code_of(c) == 3 <==> !(c is Cancelled || c is InvalidInput || c is UnsupportedVersion
            || c is UnknownMethod || c is StorageUnavailable || c is InternalError
            || c is OutputLimit),
{
}

/// Two different error codes never share a wire name.
pub proof fn law_codes_are_distinct(a: ErrorCode, b: ErrorCode)
    requires
        code_name(a) == code_name(b),
    ensures
        a == b,
{
    reveal_strlit("invalid_input");
    reveal_strlit("unsupported_version");
    reveal_strlit("unknown_method");
    reveal_strlit("not_found");
    reveal_strlit("conflict");
    reveal_strlit("stale_intent");
    reveal_strlit("already_terminal");
    reveal_strlit("denied");
    reveal_strlit("capability_unavailable");
    reveal_strlit("dependency_blocked");
    reveal_strlit("outcome_unknown");
    reveal_strlit("context_overflow");
    reveal_strlit("budget_exhausted");
    reveal_strlit("storage_unavailable");
    reveal_strlit("output_limit");
    reveal_strlit("internal_error");
    reveal_strlit("cancelled");
    assert("invalid_input"@.len() == 13 && "invalid_input"@[0] == 'i' && "invalid_input"@[2] == 'v');
    assert("unsupported_version"@.len() == 19 && "unsupported_version"@[0] == 'u' && "unsupported_version"@[2] == 's');
    assert("unknown_method"@.len() == 14 && "unknown_method"@[0] == 'u' && "unknown_method"@[2] == 'k');
    assert("not_found"@.len() == 9 && "not_found"@[0] == 'n' && "not_found"@[2] == 't');
    assert("conflict"@.len() == 8 && "conflict"@[0] == 'c' && "conflict"@[2] == 'n');
    assert("stale_intent"@.len() == 12 && "stale_intent"@[0] == 's' && "stale_intent"@[2] == 'a');
    assert("already_terminal"@.len() == 16 && "already_terminal"@[0] == 'a' && "already_terminal"@[2] == 'r');
    assert("denied"@.len() == 6 && "denied"@[0] == 'd' && "denied"@[2] == 'n');
    assert("capability_unavailable"@.len() == 22 && "capability_unavailable"@[0] == 'c' && "capability_unavailable"@[2] == 'p');
    assert("dependency_blocked"@.len() == 18 && "dependency_blocked"@[0] == 'd' && "dependency_blocked"@[2] == 'p');
    assert("outcome_unknown"@.len() == 15 && "outcome_unknown"@[0] == 'o' && "outcome_unknown"@[2] == 't');
    assert("context_overflow"@.len() == 16 && "context_overflow"@[0] == 'c' && "context_overflow"@[2] == 'n');
    assert("budget_exhausted"@.len() == 16 && "budget_exhausted"@[0] == 'b' && "budget_exhausted"@[2] == 'd');
    assert("storage_unavailable"@.len() == 19 && "storage_unavailable"@[0] == 's' && "storage_unavailable"@[2] == 'o');
    assert("output_limit"@.len() == 12 && "output_limit"@[0] == 'o' && "output_limit"@[2] == 't');
    assert("internal_error"@.len() == 14 && "internal_error"@[0] == 'i' && "internal_error"@[2] == 't');
    assert("cancelled"@.len() == 9 && "cancelled"@[0] == 'c' && "cancelled"@[2] == 'n');
}

/// How a failed operation may be retried.
#[derive(Debug, Clone, Copy, PartialEq, Eq, Structural)]
pub enum RetryClass {
    NoRetry,
    Transport,
    Reconcile,
    Semantic,
    Plan,
}

pub open spec fn retry_name(r: RetryClass) -> Seq<char> {
    match r {
        RetryClass::NoRetry => "none"@,
        RetryClass::Transport => "transport"@,
        RetryClass::Reconcile => "reconcile"@,
        RetryClass::Semantic => "semantic"@,
        RetryClass::Plan => "plan"@,
    }
}

impl RetryClass {
    /// The wire name of this class.
    pub fn name(&self) -> (r: &'static str)
        ensures
            r@ == retry_name(*self),
    {
        match self {
            RetryClass::NoRetry => "none",
            RetryClass::Transport => "transport",
            RetryClass::Reconcile => "reconcile",
            RetryClass::Semantic => "semantic",
            RetryClass::Plan => "plan",
        }
    }
}

/// A bounded wire error: it names the failed operation, a safe cause and the
/// allowed recovery read.
#[derive(Debug)]
pub struct WireError<T = String> {
    pub code: ErrorCode,
    pub message: T,
    pub boundary_id: Option<T>,
    pub retry_class: RetryClass,
}

impl View for WireError {
    type V = WireError<Seq<char>>;

    open spec fn view(&self) -> WireError<Seq<char>> {
        WireError {
            code: self.code,
            message: self.message@,
            boundary_id: text::opt_text(self.boundary_id),
            retry_class: self.retry_class,
        }
    }
}

/// The error with no boundary and no retry.
pub open spec fn plain_error(code: ErrorCode, message: Seq<char>) -> WireError<Seq<char>> {
    WireError { code, message, boundary_id: None, retry_class: RetryClass::NoRetry }
}

impl WireError {
    /// An error with no boundary and no retry.
    pub fn new(code: ErrorCode, message: String) -> (r: Self)
        ensures
            r@ == plain_error(code, message@),
    {
        WireError { code, message, boundary_id: None, retry_class: RetryClass::NoRetry }
    }
}

pub open spec fn is_lower_hex(c: char) -> bool {
    ('0' <= c && c <= '9') || ('a' <= c && c <= 'f')
}

/// The hyphenated lower-case notation of a version 4 UUID.
pub open spec fn is_uuid_v4(s: Seq<char>) -> bool {
    &&& s.len() == 36
    &&& s[8] == '-' && s[13] == '-' && s[18] == '-' && s[23] == '-'
    &&& s[14] == '4'
    &&& (s[19] == '8' || s[19] == '9' || s[19] == 'a' || s[19] == 'b')
    &&& forall|i: int|
        0 <= i < 36 && i != 8 && i != 13 && i != 18 && i != 23 ==> is_lower_hex(#[trigger] s[i])
}

/// `Uuid::new_v4().to_string()`: the hyphenated notation of a random version
/// 4 UUID. Nothing ties two calls together.
#[verifier::external_body]
fn fresh_uuid() -> (r: String)
    ensures
        is_uuid_v4(r@),
{
    uuid::Uuid::new_v4().to_string()
}

/// Names a session.
#[derive(Debug, Hash)]
pub struct SessionId(pub String);

impl View for SessionId {
    type V = Seq<char>;

    open spec fn view(&self) -> Seq<char> {
        self.0@
    }
}

impl Clone for SessionId {
    fn clone(&self) -> (r: Self)
        ensures
            r@ == self@,
    {
        SessionId(self.0.clone())
    }
}

impl SessionId {
    /// A new id.
    pub fn generate() -> (r: Self)
        ensures
            is_uuid_v4(r@),
    {
        SessionId(fresh_uuid())
    }
}

/// Names a task.
#[derive(Debug, Hash)]
pub struct TaskId(pub String);

impl View for TaskId {
    type V = Seq<char>;

    open spec fn view(&self) -> Seq<char> {
        self.0@
    }
}

impl Clone for TaskId {
    fn clone(&self) -> (r: Self)
        ensures
            r@ == self@,
    {
        TaskId(self.0.clone())
    }
}

impl TaskId {
    /// A new id.
    pub fn generate() -> (r: Self)
        ensures
            is_uuid_v4(r@),
    {
        TaskId(fresh_uuid())
    }
}

/// Names a command.
#[derive(Debug, Hash)]
pub struct CommandId(pub String);

impl View for CommandId {
    type V = Seq<char>;

    open spec fn view(&self) -> Seq<char> {
        self.0@
    }
}

impl Clone for CommandId {
    fn clone(&self) -> (r: Self)
        ensures
            r@ == self@,
    {
        CommandId(self.0.clone())
    }
}

impl CommandId {
    /// A new id.
    pub fn generate() -> (r: Self)
        ensures
            is_uuid_v4(r@),
    {
        CommandId(fresh_uuid())
    }
}

/// Names a question.
#[derive(Debug, Hash)]
pub struct QuestionId(pub String);

impl View for QuestionId {
    type V = Seq<char>;

    open spec fn view(&self) -> Seq<char> {
        self.0@
    }
}

impl Clone for QuestionId {
    fn clone(&self) -> (r: Self)
        ensures
            r@ == self@,
    {
        QuestionId(self.0.clone())
    }
}

impl QuestionId {
    /// A new id.
    pub fn generate() -> (r: Self)
        ensures
            is_uuid_v4(r@),
    {
        QuestionId(fresh_uuid())
    }
}

/// Names a client attachment.
#[derive(Debug, Hash)]
pub struct AttachmentId(pub String);

impl View for AttachmentId {
    type V = Seq<char>;

    open spec fn view(&self) -> Seq<char> {
        self.0@
    }
}

impl Clone for AttachmentId {
    fn clone(&self) -> (r: Self)
        ensures
            r@ == self@,
    {
        AttachmentId(self.0.clone())
    }
}

impl AttachmentId {
    /// A new id.
    pub fn generate() -> (r: Self)
        ensures
            is_uuid_v4(r@),
    {
        AttachmentId(fresh_uuid())
    }
}

/// Names an acceptance criterion.
#[derive(Debug, Hash)]
pub struct CriterionId(pub String);

impl View for CriterionId {
    type V = Seq<char>;

    open spec fn view(&self) -> Seq<char> {
        self.0@
    }
}

impl Clone for CriterionId {
    fn clone(&self) -> (r: Self)
        ensures
            r@ == self@,
    {
        CriterionId(self.0.clone())
    }
}

impl CriterionId {
    /// A new id.
    pub fn generate() -> (r: Self)
        ensures
            is_uuid_v4(r@),
    {
        CriterionId(fresh_uuid())
    }
}

/// Names a piece of evidence.
#[derive(Debug, Hash)]
pub struct EvidenceId(pub String);

impl View for EvidenceId {
    type V = Seq<char>;

    open spec fn view(&self) -> Seq<char> {
        self.0@
    }
}

impl Clone for EvidenceId {
    fn clone(&self) -> (r: Self)
        ensures
            r@ == self@,
    {
        EvidenceId(self.0.clone())
    }
}

impl EvidenceId {
    /// A new id.
    pub fn generate() -> (r: Self)
        ensures
            is_uuid_v4(r@),
    {
        EvidenceId(fresh_uuid())
    }
}

/// Names an effect attempt.
#[derive(Debug, Hash)]
pub struct AttemptId(pub String);

impl View for AttemptId {
    type V = Seq<char>;

    open spec fn view(&self) -> Seq<char> {
        self.0@
    }
}

impl Clone for AttemptId {
    fn clone(&self) -> (r: Self)
        ensures
            r@ == self@,
    {
        AttemptId(self.0.clone())
    }
}

impl AttemptId {
    /// A new id.
    pub fn generate() -> (r: Self)
        ensures
            is_uuid_v4(r@),
    {
        AttemptId(fresh_uuid())
    }
}

/// Names an action.
#[derive(Debug, Hash)]
pub struct ActionId(pub String);

impl View for ActionId {
    type V = Seq<char>;

    open spec fn view(&self) -> Seq<char> {
        self.0@
    }
}

impl Clone for ActionId {
    fn clone(&self) -> (r: Self)
        ensures
            r@ == self@,
    {
        ActionId(self.0.clone())
    }
}

impl ActionId {
    /// A new id.
    pub fn generate() -> (r: Self)
        ensures
            is_uuid_v4(r@),
    {
        ActionId(fresh_uuid())
    }
}

/// Names a durable artifact.
#[derive(Debug, Hash)]
pub struct ArtifactId(pub String);

impl View for ArtifactId {
    type V = Seq<char>;

    open spec fn view(&self) -> Seq<char> {
        self.0@
    }
}

impl Clone for ArtifactId {
    fn clone(&self) -> (r: Self)
        ensures
            r@ == self@,
    {
        ArtifactId(self.0.clone())
    }
}

impl ArtifactId {
    /// A new id.
    pub fn generate() -> (r: Self)
        ensures
            is_uuid_v4(r@),
    {
        ArtifactId(fresh_uuid())
    }
}

/// Names a recorded decision.
#[derive(Debug, Hash)]
pub struct DecisionRef(pub String);

impl View for DecisionRef {
    type V = Seq<char>;

    open spec fn view(&self) -> Seq<char> {
        self.0@
    }
}

impl Clone for DecisionRef {
    fn clone(&self) -> (r: Self)
        ensures
            r@ == self@,
    {
        DecisionRef(self.0.clone())
    }
}

impl DecisionRef {
    /// A new id.
    pub fn generate() -> (r: Self)
        ensures
            is_uuid_v4(r@),
    {
        DecisionRef(fresh_uuid())
    }
}

/// Names an event.
#[derive(Debug, Hash)]
pub struct EventId(pub String);

impl View for EventId {
    type V = Seq<char>;

    open spec fn view(&self) -> Seq<char> {
        self.0@
    }
}

impl Clone for EventId {
    fn clone(&self) -> (r: Self)
        ensures
            r@ == self@,
    {
        EventId(self.0.clone())
    }
}

impl EventId {
    /// A new id.
    pub fn generate() -> (r: Self)
        ensures
            is_uuid_v4(r@),
    {
        EventId(fresh_uuid())
    }
}

/// Names one option of a question, stable within one revision of it.
#[derive(Debug, Hash)]
pub struct OptionId<T = String>(pub T);

/// Reference to durable immutable bytes.
#[derive(Debug)]
pub struct ArtifactRef {
    pub id: ArtifactId,
    pub digest: String,
    pub size_bytes: u64,
    pub media_type: String,
    pub scope: Option<String>,
}

#[derive(Debug, Clone, Copy, PartialEq, Eq, Structural)]
pub enum Lifecycle {
    Running,
    Waiting,
    Paused,
    Blocked,
    Completed,
    Cancelled,
}

/// The wire name of a lifecycle state.
pub open spec fn lifecycle_name(l: Lifecycle) -> Seq<char> {
    match l {
        Lifecycle::Running => "running"@,
        Lifecycle::Waiting => "waiting"@,
        Lifecycle::Paused => "paused"@,
        Lifecycle::Blocked => "blocked"@,
        Lifecycle::Completed => "completed"@,
        Lifecycle::Cancelled => "cancelled"@,
    }
}

impl Lifecycle {
    /// Whether a task in this state never leaves it.
    pub fn is_terminal(self) -> (r: bool)
        ensures
            r == (self == Lifecycle::Completed || self == Lifecycle::Cancelled),
    {
        match self {
            Lifecycle::Completed | Lifecycle::Cancelled => true,
            _ => false,
        }
    }

    /// The wire name of this state.
    pub fn name(self) -> (r: &'static str)
        ensures
            r@ == lifecycle_name(self),
    {
        match self {
            Lifecycle::Running => "running",
            Lifecycle::Waiting => "waiting",
            Lifecycle::Paused => "paused",
            Lifecycle::Blocked => "blocked",
            Lifecycle::Completed => "completed",
            Lifecycle::Cancelled => "cancelled",
        }
    }
}

#[derive(Debug, Clone, Copy, PartialEq, Eq, Structural)]
pub enum ObligationApplicability {
    Required,
    NotApplicable,
    Unresolved,
}

#[derive(Debug, Clone, Copy, PartialEq, Eq, Structural)]
pub enum ObligationExecution {
    Pending,
    Satisfied,
    Failed,
    Stale,
}

#[derive(Debug)]
pub struct Obligation {
    pub id: String,
    pub criterion_refs: Vec<CriterionId>,
    pub applicability: ObligationApplicability,
    pub execution: ObligationExecution,
    pub basis_refs: Vec<EvidenceId>,
}

#[derive(Debug)]
pub struct Criterion {
    pub id: CriterionId,
    pub text: String,
}

/// One page of a snapshot collection; `next_cursor` is absent on the last
/// page.
#[derive(Debug)]
pub struct Page<T> {
    pub items: Vec<T>,
    pub snapshot_generation: u64,
    pub next_cursor: Option<String>,
}

impl<T> Page<T> {
    /// A page that is the last one.
    pub fn new(items: Vec<T>, snapshot_generation: u64) -> (r: Self)
        ensures
            r.items == items,
            r.snapshot_generation == snapshot_generation,
            r.next_cursor is None,
    {
        Page { items, snapshot_generation, next_cursor: None }
    }
}

/// Why a task cannot progress.
#[derive(Debug)]
pub struct Blocker {
    pub reason: ErrorCode,
    pub owner: String,
    pub condition: ResumeCondition,
}

/// What lets a blocked task go on.
#[derive(Debug)]
pub enum ResumeCondition {
    Decision { question_id: QuestionId, revision: u64 },
    Dependency { action_id: ActionId },
    Reconciliation { action_id: ActionId },
}

#[derive(Debug)]
pub struct TaskSnapshot {
    pub task_id: TaskId,
    pub revision: u64,
    pub intent_revision: u64,
    pub lifecycle: Lifecycle,
    pub goal_ref: ArtifactRef,
    pub contract_revision: u64,
    pub constraints: Page<String>,
    pub criteria: Page<Criterion>,
    pub obligations: Page<Obligation>,
    pub actions: Page<String>,
    pub attempts: Page<AttemptRef>,
    pub decision_refs: Page<DecisionRef>,
    pub event_cursor: u64,
    pub blockers: Option<Vec<Blocker>>,
}

#[derive(Debug)]
pub struct AttemptRef {
    pub attempt_id: AttemptId,
    pub action_id: ActionId,
    pub effect_class: EffectClass,
    pub state: AttemptState,
}

/// What an effect does.
#[derive(Debug, Clone, Copy, PartialEq, Eq, Structural)]
pub enum EffectClass {
    Read,
    Write,
    Exec,
    Egress,
    Model,
    Control,
}

/// The ledger state of an attempt.
#[derive(Debug, Clone, Copy, PartialEq, Eq, Structural)]
pub enum AttemptState {
    Planned,
    Admitted,
    Running,
    Confirmed,
    Rejected,
    CancelRequested,
    Unknown,
}

impl AttemptState {
    /// Whether the outcome of an attempt in this state is decided.
    pub fn is_settled(self) -> (r: bool)
        ensures
            r == (self == AttemptState::Confirmed || self == AttemptState::Rejected || self
                == AttemptState::Unknown),
    {
        match self {
            AttemptState::Confirmed | AttemptState::Rejected | AttemptState::Unknown => true,
            _ => false,
        }
    }
}

/// One entry of the event stream.
#[derive(Debug)]
pub struct Event {
    pub schema_version: u32,
    pub event_id: EventId,
    pub aggregate_id: String,
    pub aggregate_revision: u64,
    pub cursor: u64,
    pub session_id: SessionId,
    pub task_id: Option<TaskId>,
    pub event_type: String,
    pub delta: Json,
    pub origin: String,
}

/// A parsed public task command.
#[derive(Debug)]
pub struct TaskCommand {
    pub command_id: CommandId,
    pub session_id: SessionId,
    pub kind: TaskCommandKind,
    pub variant: TaskCommandVariant,
}

#[derive(Debug, Clone, Copy, PartialEq, Eq, Structural)]
pub enum TaskCommandKind {
    Create,
    Steer,
    Resume,
    Pause,
    Cancel,
    Answer,
    Approve,
    Deny,
}

#[derive(Debug)]
pub enum TaskCommandVariant {
    Create { goal: String, contract: ContractInput },
    Steer {
        task_id: TaskId,
        expected_intent_revision: u64,
        expected_task_revision: u64,
        instruction: String,
    },
    Resume { task_id: TaskId, expected_intent_revision: u64, expected_task_revision: u64 },
    Pause { task_id: TaskId, expected_intent_revision: u64, reason: Option<String> },
    Cancel { task_id: TaskId, expected_intent_revision: u64, reason: Option<String> },
    Answer {
        task_id: TaskId,
        expected_intent_revision: u64,
        question_id: QuestionId,
        question_revision: u64,
        selection: AnswerSelection,
    },
    Approve {
        task_id: TaskId,
        expected_intent_revision: u64,
        grant_request_id: String,
        grant_request_revision: u64,
        effect_digest: String,
    },
    Deny {
        task_id: TaskId,
        expected_intent_revision: u64,
        grant_request_id: String,
        grant_request_revision: u64,
        effect_digest: String,
    },
}

/// What a task is asked to meet.
#[derive(Debug)]
pub struct ContractInput {
    pub criteria: Vec<String>,
    pub constraints: Vec<String>,
}

/// The answer to a question.
#[derive(Debug)]
pub enum AnswerSelection<T = String> {
    Option { option_id: OptionId<T> },
    Custom { text: T },
}

impl View for AnswerSelection {
    type V = AnswerSelection<Seq<char>>;

    open spec fn view(&self) -> AnswerSelection<Seq<char>> {
        match self {
            AnswerSelection::Option { option_id } => AnswerSelection::Option {
                option_id: OptionId(option_id.0@),
            },
            AnswerSelection::Custom { text } => AnswerSelection::Custom { text: text@ },
        }
    }
}

impl Clone for AnswerSelection {
    fn clone(&self) -> (r: Self)
        ensures
            r@ == self@,
    {
        match self {
            AnswerSelection::Option { option_id } => AnswerSelection::Option {
                option_id: OptionId(option_id.0.clone()),
            },
            AnswerSelection::Custom { text } => AnswerSelection::Custom { text: text.clone() },
        }
    }
}

#[derive(Debug)]
pub struct Question {
    pub question_id: QuestionId,
    pub question_revision: u64,
    pub task_id: TaskId,
    pub intent_revision: u64,
    pub prompt: String,
    pub options: Vec<QuestionOption>,
    pub recommended_option_id: OptionId,
    pub recommendation_basis: String,
}

#[derive(Debug)]
pub struct QuestionOption {
    pub option_id: OptionId,
    pub label: String,
    pub consequences: String,
    pub availability: Availability,
}

#[derive(Debug)]
pub enum Availability {
    Enabled,
    Disabled { reason: String },
}

/// Result of a task command: it always carries the current snapshot.
#[derive(Debug)]
pub struct CommandResult {
    pub status: String,
    pub task_id: TaskId,
    pub task_revision: u64,
    pub intent_revision: u64,
    pub event_cursor: u64,
    pub snapshot: TaskSnapshot,
    pub contract_revision: Option<u64>,
}

#[derive(Debug)]
pub struct SessionResult {
    pub schema_version: u32,
    pub session_id: SessionId,
    pub owner_generation: u64,
    pub state: String,
    pub attachment_id: AttachmentId,
    pub session_revision: u64,
}

#[derive(Debug)]
pub struct TaskStatus {
    pub task_id: TaskId,
    pub task_revision: u64,
    pub intent_revision: u64,
    pub lifecycle: Lifecycle,
}

#[derive(Debug)]
pub struct QuestionResult {
    pub schema_version: u32,
    pub task_id: TaskId,
    pub task_revision: u64,
    pub intent_revision: u64,
    pub question: Option<Question>,
}

/// Describes a local command.
#[derive(Debug)]
pub struct CommandDescriptor {
    pub canonical_id: String,
    pub aliases: Vec<String>,
    pub description: String,
    pub busy_policy: String,
    pub available: bool,
    pub unavailability_reason: Option<String>,
}

/// The request envelope.
#[derive(Debug)]
pub struct RpcRequest {
    pub jsonrpc: String,
    pub id: Json,
    pub method: String,
    pub params: Json,
}

#[derive(Debug)]
pub struct RpcErrorBody {
    pub code: i64,
    pub message: String,
    pub data: WireError,
}

/// The response envelope: a result or an error.
#[derive(Debug)]
pub struct RpcResponse {
    pub jsonrpc: &'static str,
    pub id: Json,
    pub result: Option<Json>,
    pub error: Option<RpcErrorBody>,
}

/// The mathematical value of an error body.
pub struct ErrorBodyView {
    pub code: int,
    pub message: Seq<char>,
    pub data: WireError<Seq<char>>,
}

/// The mathematical value of a response.
pub struct ResponseView {
    pub jsonrpc: Seq<char>,
    pub id: json::JsonView,
    pub result: Option<json::JsonView>,
    pub error: Option<ErrorBodyView>,
}

impl View for RpcResponse {
    type V = ResponseView;

    open spec fn view(&self) -> ResponseView {
        ResponseView {
            jsonrpc: self.jsonrpc@,
            id: self.id@,
            result: match self.result {
                Some(result) => Some(result@),
                None => None,
            },
            error: match self.error {
                Some(body) => Some(
                    ErrorBodyView {
                        code: body.code as int,
                        message: body.message@,
                        data: body.data@,
                    },
                ),
                None => None,
            },
        }
    }
}

/// A response that carries a result.
pub open spec fn succeeded(id: json::JsonView, result: json::JsonView) -> ResponseView {
    ResponseView { jsonrpc: "2.0"@, id, result: Some(result), error: None }
}

/// A response that carries an error.
pub open spec fn failed(
    id: json::JsonView,
    code: int,
    message: Seq<char>,
    data: WireError<Seq<char>>,
) -> ResponseView {
    ResponseView {
        jsonrpc: "2.0"@,
        id,
        result: None,
        error: Some(ErrorBodyView { code, message, data }),
    }
}

impl RpcResponse {
    /// A response that carries a result.
    pub fn ok(id: Json, result: Json) -> (r: Self)
        ensures
            r@ == succeeded(id@, result@),
    {
        RpcResponse { jsonrpc: "2.0", id, result: Some(result), error: None }
    }

    /// A response that carries an error; its message is the name of the
    /// error's code.
    pub fn error(id: Json, code: i64, wire: WireError) -> (r: Self)
        ensures
            r@ == failed(id@, code as int, code_name(wire.code), wire@),
    {
        RpcResponse {
            jsonrpc: "2.0",
            id,
            result: None,
            error: Some(RpcErrorBody { code, message: owned(wire.code.as_str()), data: wire }),
        }
    }
}

} // verus!
