//! What the durable store reports when it does not do what it was asked.

use crate::contracts::ErrorCode;
use crate::text::{self, decimal_text, owned, text2, text4, text5};
use vstd::prelude::*;

verus! {

/// Why a write lost against the state that is there.
#[derive(Debug)]
pub enum ConflictCause<T = String> {
    /// An attempt that is not in the unknown state cannot be reconciled.
    AttemptNotReconcileable { attempt_id: T, state: T },
    /// Any other conflict, in the words of the store.
    Other(T),
}

/// Why an input was refused.
#[derive(Debug)]
pub enum InvalidCause<T = String> {
    /// The attempt belongs to another task.
    AttemptTaskMismatch { attempt_id: T, owner_task: T, expected: T },
    /// The detail of the attempt does not prove that the read happened.
    MissingReadMarker { attempt_id: T },
    /// Anything else, in the words of the store.
    Other(T),
}

/// Why the store did not answer.
#[derive(Debug)]
pub enum StoreError<T = String> {
    NotFound(T),
    Conflict(ConflictCause<T>),
    StaleIntent { expected: u64, current: u64 },
    AlreadyTerminal,
    InvalidInput(InvalidCause<T>),
    Storage(T),
}

impl View for StoreError {
    type V = StoreError<Seq<char>>;

    open spec fn view(&self) -> StoreError<Seq<char>> {
        match self {
            StoreError::NotFound(t) => StoreError::NotFound(t@),
            StoreError::Conflict(ConflictCause::AttemptNotReconcileable { attempt_id, state }) =>
                StoreError::Conflict(
                ConflictCause::AttemptNotReconcileable { attempt_id: attempt_id@, state: state@ },
            ),
            StoreError::Conflict(ConflictCause::Other(t)) => StoreError::Conflict(
                ConflictCause::Other(t@),
            ),
            StoreError::StaleIntent { expected, current } => StoreError::StaleIntent {
                expected: *expected,
                current: *current,
            },
            StoreError::AlreadyTerminal => StoreError::AlreadyTerminal,
            StoreError::InvalidInput(
                InvalidCause::AttemptTaskMismatch { attempt_id, owner_task, expected },
            ) => StoreError::InvalidInput(
                InvalidCause::AttemptTaskMismatch {
                    attempt_id: attempt_id@,
                    owner_task: owner_task@,
                    expected: expected@,
                },
            ),
            StoreError::InvalidInput(InvalidCause::MissingReadMarker { attempt_id }) =>
                StoreError::InvalidInput(
                InvalidCause::MissingReadMarker { attempt_id: attempt_id@ },
            ),
            StoreError::InvalidInput(InvalidCause::Other(t)) => StoreError::InvalidInput(
                InvalidCause::Other(t@),
            ),
            StoreError::Storage(t) => StoreError::Storage(t@),
        }
    }
}

/// The wire code of a store error.
pub open spec fn store_code(e: StoreError<Seq<char>>) -> ErrorCode {
    match e {
        StoreError::NotFound(_) => ErrorCode::NotFound,
        StoreError::Conflict(_) => ErrorCode::Conflict,
        StoreError::StaleIntent { .. } => ErrorCode::StaleIntent,
        StoreError::AlreadyTerminal => ErrorCode::AlreadyTerminal,
        StoreError::InvalidInput(_) => ErrorCode::InvalidInput,
        StoreError::Storage(_) => ErrorCode::StorageUnavailable,
    }
}

/// Every cause of a store error has a code of its own.
pub proof fn law_store_codes_tell_the_cause(a: StoreError<Seq<char>>)
    ensures
        store_code(a) is NotFound <==> a is NotFound,
        store_code(a) is Conflict <==> a is Conflict,
        store_code(a) is StaleIntent <==> a is StaleIntent,
        store_code(a) is AlreadyTerminal <==> a is AlreadyTerminal,
        store_code(a) is InvalidInput <==> a is InvalidInput,
        store_code(a) is StorageUnavailable <==> a is Storage,
{
}

/// The diagnostic line of a store error.
pub open spec fn store_message(e: StoreError<Seq<char>>) -> Seq<char> {
    match e {
        StoreError::NotFound(t) => t,
        StoreError::Conflict(ConflictCause::AttemptNotReconcileable { attempt_id, state }) =>
            "attempt "@ + attempt_id + " is not reconcileable in state "@ + state,
        StoreError::Conflict(ConflictCause::Other(t)) => t,
        StoreError::StaleIntent { expected, current } => "stale intent: expected "@
            + text::decimal(expected as nat) + ", current "@ + text::decimal(
            current as nat,
        ),
        StoreError::AlreadyTerminal => "task is already terminal"@,
        StoreError::InvalidInput(
            InvalidCause::AttemptTaskMismatch { attempt_id, owner_task, expected },
        ) => "attempt "@ + attempt_id + " belongs to task "@ + owner_task + (", not "@ + expected),
        StoreError::InvalidInput(InvalidCause::MissingReadMarker { attempt_id }) => "attempt "@
            + attempt_id + " carries no read marker"@,
        StoreError::InvalidInput(InvalidCause::Other(t)) => t,
        StoreError::Storage(t) => t,
    }
}

impl StoreError {
    /// The wire code of this error.
    pub fn code(&self) -> (r: ErrorCode)
        ensures
            r == store_code(self@),
    {
        match self {
            StoreError::NotFound(_) => ErrorCode::NotFound,
            StoreError::Conflict(_) => ErrorCode::Conflict,
            StoreError::StaleIntent { .. } => ErrorCode::StaleIntent,
            StoreError::AlreadyTerminal => ErrorCode::AlreadyTerminal,
            StoreError::InvalidInput(_) => ErrorCode::InvalidInput,
            StoreError::Storage(_) => ErrorCode::StorageUnavailable,
        }
    }

    /// The diagnostic line of this error.
    pub fn message(&self) -> (r: String)
        ensures
            r@ == store_message(self@),
    {
        match self {
            StoreError::NotFound(t) => t.clone(),
            StoreError::Conflict(ConflictCause::AttemptNotReconcileable { attempt_id, state }) =>
                text4(
                "attempt ",
                attempt_id.as_str(),
                " is not reconcileable in state ",
                state.as_str(),
            ),
            StoreError::Conflict(ConflictCause::Other(t)) => t.clone(),
            StoreError::StaleIntent { expected, current } => {
                let e: String = decimal_text(*expected);
                let c: String = decimal_text(*current);
                text4("stale intent: expected ", e.as_str(), ", current ", c.as_str())
            },
            StoreError::AlreadyTerminal => owned("task is already terminal"),
            StoreError::InvalidInput(
                InvalidCause::AttemptTaskMismatch { attempt_id, owner_task, expected },
            ) => {
                let tail: String = text2(", not ", expected.as_str());
                text5(
                    "attempt ",
                    attempt_id.as_str(),
                    " belongs to task ",
                    owner_task.as_str(),
                    tail.as_str(),
                )
            },
            StoreError::InvalidInput(InvalidCause::MissingReadMarker { attempt_id }) =>
                text::text3("attempt ", attempt_id.as_str(), " carries no read marker"),
            StoreError::InvalidInput(InvalidCause::Other(t)) => t.clone(),
            StoreError::Storage(t) => t.clone(),
        }
    }
}

} // verus!
