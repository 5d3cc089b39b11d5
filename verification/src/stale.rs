//! Telling a segment in use from what a crash left behind.

use crate::acquire::Acquire;
use crate::call::{answers, nothing, Call, Held, Operation, Progress, Reply};
use crate::errno::{esrch, ESRCH};
use crate::error::{ArenaError, OsError};
use crate::header::{SegmentHeader, HEADER_MAGIC};
use crate::peek::Peek;
use vstd::prelude::*;

verus! {

/// The process to probe for `pid`, or `None` where `pid` is no process number:
/// such an owner is dead.
pub open spec fn probe_target(pid: i64) -> Option<i32> {
    if 0 < pid <= i32::MAX {
        Some(pid as i32)
    } else {
        None
    }
}

/// Whether a failed probe shows that the process is dead. Only a process that
/// does not exist is; one that may not be signalled lives.
pub open spec fn shows_death(e: OsError) -> bool {
    e.code == ESRCH
}

/// The process to probe for `pid`, or `None` where `pid` is no process number.
pub fn process_to_probe(pid: i64) -> (target: Option<i32>)
    ensures
        target == probe_target(pid),
{
    if 0 < pid && pid <= i32::MAX as i64 {
        Some(pid as i32)
    } else {
        None
    }
}

/// Whether a failed probe shows that the process is dead.
pub fn is_dead(e: OsError) -> (dead: bool)
    ensures
        dead == shows_death(e),
{
    e.code == esrch()
}

/// Finds out whether the segment is left over: its owner is dead, or it has no
/// valid header.
#[derive(Clone, Copy, Debug, PartialEq, Eq)]
pub enum Staleness {
    /// Reading the owner.
    Peeking(Peek),
    /// Waiting for the sign of life of the owner.
    Probing { pid: i32 },
}

impl Operation for Staleness {
    type Output = bool;

    open spec fn wf(&self) -> bool {
        match *self {
            Staleness::Peeking(peek) => peek.wf(),
            Staleness::Probing { .. } => true,
        }
    }

    open spec fn pending(&self) -> Call {
        match *self {
            Staleness::Peeking(peek) => peek.pending(),
            Staleness::Probing { pid } => Call::Probe { pid },
        }
    }

    open spec fn next(self, reply: Reply) -> Progress<Self, bool> {
        match (self, reply) {
            (Staleness::Peeking(peek), _) => match peek.next(reply) {
                Progress::Pending(peek) => Progress::Pending(Staleness::Peeking(peek)),
                Progress::Done(Ok(owner)) => match probe_target(owner) {
                    Some(pid) => Progress::Pending(Staleness::Probing { pid }),
                    None => Progress::Done(Ok(true)),
                },
                Progress::Done(Err(ArenaError::BadMagic)) => Progress::Done(Ok(true)),
                Progress::Done(Err(error)) => Progress::Done(Err(error)),
            },
            (Staleness::Probing { .. }, Reply::Done) => Progress::Done(Ok(false)),
            (Staleness::Probing { .. }, Reply::Failed(e)) => Progress::Done(Ok(shows_death(e))),
            _ => Progress::Pending(self),
        }
    }

    open spec fn held(&self) -> Held {
        match *self {
            Staleness::Peeking(peek) => peek.held(),
            Staleness::Probing { .. } => nothing(),
        }
    }

    open spec fn kept(output: bool) -> Held {
        nothing()
    }

    open spec fn rank(&self) -> nat {
        match *self {
            Staleness::Peeking(peek) => peek.rank() + 1,
            Staleness::Probing { .. } => 1,
        }
    }

    fn call(&self) -> Call {
        match *self {
            Staleness::Peeking(peek) => peek.call(),
            Staleness::Probing { pid } => Call::Probe { pid },
        }
    }

    fn step(self, reply: Reply) -> (progress: Progress<Self, bool>)
    {
        match (self, reply) {
            (Staleness::Peeking(peek), _) => match peek.step(reply) {
                Progress::Pending(peek) => Progress::Pending(Staleness::Peeking(peek)),
                Progress::Done(Ok(owner)) => match process_to_probe(owner) {
                    Some(pid) => Progress::Pending(Staleness::Probing { pid }),
                    None => Progress::Done(Ok(true)),
                },
                Progress::Done(Err(ArenaError::BadMagic)) => Progress::Done(Ok(true)),
                Progress::Done(Err(error)) => Progress::Done(Err(error)),
            },
            (Staleness::Probing { .. }, Reply::Done) => Progress::Done(Ok(false)),
            (Staleness::Probing { .. }, Reply::Failed(e)) => Progress::Done(Ok(is_dead(e))),
            _ => Progress::Pending(self),
        }
    }

    proof fn lemma_step(self, reply: Reply) {
        if let Staleness::Peeking(peek) = self {
            peek.lemma_step(reply);
        }
    }
}

impl Staleness {
    /// The first state.
    pub open spec fn spec_begin() -> Staleness {
        Staleness::Peeking(Peek::Acquiring(Acquire::Opening { writable: true }))
    }

    /// The first state.
    pub fn begin() -> (op: Staleness)
        ensures
            op == Self::spec_begin(),
            op.wf(),
            op.held() == nothing(),
    {
        Staleness::Peeking(Peek::Acquiring(Acquire::Opening { writable: true }))
    }
}

/// Whatever the system replies, a segment is held to be left over only on
/// evidence: it is shorter than a header, its header has another magic or names
/// no process, or the process that it names does not exist.
pub proof fn law_only_evidence_condemns_a_segment(check: Staleness, reply: Reply)
    requires
        check.wf(),
        answers(check.pending(), reply),
        check.next(reply) == Progress::<Staleness, bool>::Done(Ok(true)),
    ensures
        match check {
            Staleness::Peeking(Peek::Acquiring(Acquire::Failing { error, .. })) => error
                == ArenaError::BadMagic,
            Staleness::Peeking(Peek::Releasing { header, .. }) => header.magic != HEADER_MAGIC
                || probe_target(header.spec_recorded_owner()) is None,
            Staleness::Probing { .. } => reply matches Reply::Failed(e) && e.code == ESRCH,
            _ => false,
        },
{
}

/// The process that is probed is the one that the header names, whatever else the
/// header holds, and one is probed wherever the header names a number that a
/// process can have.
pub proof fn law_probe_concerns_the_recorded_owner(header: SegmentHeader)
    ensures
        0 < header.owner_pid <= i32::MAX ==> probe_target(header.spec_recorded_owner()) == Some(
            header.owner_pid as i32,
        ),
        header.owner_pid == 0 || header.owner_pid > i32::MAX ==> probe_target(
            header.spec_recorded_owner(),
        ) is None,
{
}

/// A failed probe shows a death exactly where the system says that there is no such
/// process.
pub proof fn law_only_absence_shows_death(e: OsError)
    ensures
        shows_death(e) <==> e.code == ESRCH,
{
}

} // verus!
