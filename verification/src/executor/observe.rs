//! How a confined child is watched: its pipes are drained without blocking,
//! and a deadline ends it.

use crate::executor::{drain_retaining_cap, WorkerError};
use vstd::prelude::*;

verus! {

/// How long a confined child may run.
pub const CONFINED_DEADLINE_SECONDS: u64 = 5;

/// What one read of a pipe gave.
#[derive(Debug)]
pub enum PipeRead {
    /// The pipe is at its end.
    End,
    Bytes(Vec<u8>),
    /// Nothing is there yet, or the read was interrupted.
    Again,
    Failed(String),
}

/// A pipe, while it is open, with the bytes that were kept of it.
#[derive(Debug)]
pub struct Drain {
    pub open: bool,
    pub retained: Vec<u8>,
}

/// The bytes that are kept when some more arrive: at most the cap.
pub open spec fn kept(retained: Seq<u8>, more: Seq<u8>, cap: usize) -> Seq<u8> {
    let all = retained + more;
    if all.len() <= cap {
        all
    } else {
        all.take(cap as int)
    }
}

/// What is kept of a stream does not depend on the pieces it arrives in: it
/// is always the beginning of the stream.
pub proof fn law_kept_is_the_beginning(retained: Seq<u8>, first: Seq<u8>, second: Seq<u8>, cap: usize)
    requires
        retained.len() <= cap,
    ensures
        kept(kept(retained, first, cap), second, cap) == kept(retained, first + second, cap),
        kept(retained, first, cap).len() <= cap,
{
    let all = retained + first + second;
    assert(retained + (first + second) =~= all);
    assert(kept(kept(retained, first, cap), second, cap) =~= kept(retained, first + second, cap));
}

/// Takes one read of a pipe in: the end closes it, and an error means that
/// the child cannot be observed.
pub fn drain_pipe(drain: &mut Drain, read: PipeRead, cap: usize) -> (r: Result<(), WorkerError>)
    requires
        old(drain).retained@.len() <= cap,
    ensures
        final(drain).retained@.len() <= cap,
        match read {
            PipeRead::End => r is Ok && !final(drain).open && final(drain).retained@ == old(drain).retained@,
            PipeRead::Bytes(more) => r is Ok && final(drain).open == old(drain).open && final(drain).retained@ == kept(old(drain).retained@, more@, cap),
            PipeRead::Again => r is Ok && final(drain).open == old(drain).open && final(drain).retained@ == old(drain).retained@,
            PipeRead::Failed(e) => (r matches Err(w) && w@ == (WorkerError::SandboxSpawnFailed {
                source: e@,
            })) && final(drain).open == old(drain).open && final(drain).retained@ == old(drain).retained@,
        },
{
    match read {
        PipeRead::End => {
            drain.open = false;
            Ok(())
        },
        PipeRead::Bytes(more) => {
            let ghost before = drain.retained@;
            drain_retaining_cap(&mut drain.retained, &more, cap);
            assert((before + more@).take((before + more@).len() as int) =~= before + more@);
            Ok(())
        },
        PipeRead::Again => Ok(()),
        PipeRead::Failed(source) => Err(WorkerError::SandboxSpawnFailed { source }),
    }
}

/// What one write to a pipe gave.
#[derive(Debug)]
pub enum PipeWrite {
    Accepted(usize),
    /// The pipe is full, or the write was interrupted.
    Again,
    Failed(String),
}

/// How much of a payload the child has, after one more write.
pub fn feed_pipe(sent: usize, total: usize, wrote: PipeWrite) -> (r: Result<usize, WorkerError>)
    requires
        sent <= total,
        wrote matches PipeWrite::Accepted(n) ==> n <= total - sent,
    ensures
        match wrote {
            PipeWrite::Accepted(n) => r == Ok::<usize, WorkerError>((sent + n) as usize),
            PipeWrite::Again => r == Ok::<usize, WorkerError>(sent),
            PipeWrite::Failed(e) => r matches Err(w) && w@ == (WorkerError::SandboxSpawnFailed {
                source: e@,
            }),
        },
{
    match wrote {
        PipeWrite::Accepted(n) => Ok(sent + n),
        PipeWrite::Again => Ok(sent),
        PipeWrite::Failed(source) => Err(WorkerError::SandboxSpawnFailed { source }),
    }
}

/// Whether the child still runs: its exit code where it exited by itself.
#[derive(Debug)]
pub enum ChildState {
    Running,
    Exited { code: Option<i32> },
    Unknown(String),
}

/// What the watcher does next.
#[derive(Debug)]
pub enum WatchStep<T = String> {
    /// Yield, then look again.
    Again,
    /// The child exited: kill what is left of its group, then drain its
    /// pipes to their end.
    Finish { code: Option<i32> },
    /// Kill the group and the child, and fail.
    Kill(WorkerError<T>),
    Fail(WorkerError<T>),
}

pub open spec fn watch_view(s: WatchStep) -> WatchStep<Seq<char>> {
    match s {
        WatchStep::Again => WatchStep::Again,
        WatchStep::Finish { code } => WatchStep::Finish { code },
        WatchStep::Kill(e) => WatchStep::Kill(e@),
        WatchStep::Fail(e) => WatchStep::Fail(e@),
    }
}

/// The next step of watching a child: a child that exited in time is
/// finished even at the deadline.
pub fn observe_confined_child(state: ChildState, expired: bool) -> (r: WatchStep)
    ensures
        watch_view(r) == (match state {
            ChildState::Exited { code } => WatchStep::Finish { code },
            ChildState::Running => if expired {
                WatchStep::Kill(WorkerError::ConfinedRunTimedOut)
            } else {
                WatchStep::Again
            },
            ChildState::Unknown(e) => WatchStep::Fail(
                WorkerError::SandboxSpawnFailed { source: e@ },
            ),
        }),
{
    match state {
        ChildState::Exited { code } => WatchStep::Finish { code },
        ChildState::Running => if expired {
            WatchStep::Kill(WorkerError::ConfinedRunTimedOut)
        } else {
            WatchStep::Again
        },
        ChildState::Unknown(source) => WatchStep::Fail(
            WorkerError::SandboxSpawnFailed { source },
        ),
    }
}

/// Whether a pipe of a child that exited is drained further: an open one is,
/// until the deadline.
pub fn drain_to_end(open: bool, expired: bool) -> (r: Result<bool, WorkerError>)
    ensures
        if !open {
            r == Ok::<bool, WorkerError>(false)
        } else if expired {
            r matches Err(e) && e@ == WorkerError::<Seq<char>>::ConfinedRunTimedOut
        } else {
            r == Ok::<bool, WorkerError>(true)
        },
{
    if !open {
        Ok(false)
    } else if expired {
        Err(WorkerError::ConfinedRunTimedOut)
    } else {
        Ok(true)
    }
}

} // verus!
