//! Removing a segment that a crash left behind.

use crate::call::{nothing, Call, Held, Operation, Progress, Reply};
use crate::error::ArenaError;
use crate::stale::Staleness;
use vstd::prelude::*;

verus! {

/// Unlinks the segment where it is left over, and tells whether the name is gone
/// by that: where the system does not remove it, the answer is that it is not. A
/// segment in use is not touched, and one that does not exist is no error.
#[derive(Clone, Copy, Debug, PartialEq, Eq)]
pub enum Cleanup {
    /// Finding out whether the segment is left over.
    Checking(Staleness),
    /// Removing the name.
    Unlinking,
}

impl Operation for Cleanup {
    type Output = bool;

    open spec fn wf(&self) -> bool {
        match *self {
            Cleanup::Checking(check) => check.wf(),
            Cleanup::Unlinking => true,
        }
    }

    open spec fn pending(&self) -> Call {
        match *self {
            Cleanup::Checking(check) => check.pending(),
            Cleanup::Unlinking => Call::Unlink,
        }
    }

    open spec fn next(self, reply: Reply) -> Progress<Self, bool> {
        match (self, reply) {
            (Cleanup::Checking(check), _) => match check.next(reply) {
                Progress::Pending(check) => Progress::Pending(Cleanup::Checking(check)),
                Progress::Done(Ok(true)) => Progress::Pending(Cleanup::Unlinking),
                Progress::Done(Ok(false)) => Progress::Done(Ok(false)),
                Progress::Done(Err(ArenaError::NotFound)) => Progress::Done(Ok(false)),
                Progress::Done(Err(error)) => Progress::Done(Err(error)),
            },
            (Cleanup::Unlinking, Reply::Done) => Progress::Done(Ok(true)),
            (Cleanup::Unlinking, Reply::Failed(_)) => Progress::Done(Ok(false)),
            _ => Progress::Pending(self),
        }
    }

    open spec fn held(&self) -> Held {
        match *self {
            Cleanup::Checking(check) => check.held(),
            Cleanup::Unlinking => nothing(),
        }
    }

    open spec fn kept(output: bool) -> Held {
        nothing()
    }

    open spec fn rank(&self) -> nat {
        match *self {
            Cleanup::Checking(check) => check.rank() + 1,
            Cleanup::Unlinking => 1,
        }
    }

    fn call(&self) -> Call {
        match *self {
            Cleanup::Checking(check) => check.call(),
            Cleanup::Unlinking => Call::Unlink,
        }
    }

    fn step(self, reply: Reply) -> (progress: Progress<Self, bool>)
    {
        match (self, reply) {
            (Cleanup::Checking(check), _) => match check.step(reply) {
                Progress::Pending(check) => Progress::Pending(Cleanup::Checking(check)),
                Progress::Done(Ok(true)) => Progress::Pending(Cleanup::Unlinking),
                Progress::Done(Ok(false)) => Progress::Done(Ok(false)),
                Progress::Done(Err(ArenaError::NotFound)) => Progress::Done(Ok(false)),
                Progress::Done(Err(error)) => Progress::Done(Err(error)),
            },
            (Cleanup::Unlinking, Reply::Done) => Progress::Done(Ok(true)),
            (Cleanup::Unlinking, Reply::Failed(_)) => Progress::Done(Ok(false)),
            _ => Progress::Pending(self),
        }
    }

    proof fn lemma_step(self, reply: Reply) {
        if let Cleanup::Checking(check) = self {
            check.lemma_step(reply);
        }
    }
}

} // verus!
