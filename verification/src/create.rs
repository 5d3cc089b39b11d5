//! Creating a named segment.

use crate::fresh::BuildFresh;
use crate::call::{nothing, Call, Held, Mapping, Operation, Progress, Reply};
use crate::errno::{eexist, EEXIST};
use crate::error::{ArenaError, OsError};
use vstd::prelude::*;

verus! {

/// The access rights of a new segment: its user may read and write it.
pub const SEGMENT_MODE: u32 = 0o600;

/// What it means that a name could not be created.
pub open spec fn create_error(e: OsError) -> ArenaError {
    if e.code == EEXIST {
        ArenaError::AlreadyExists
    } else {
        ArenaError::ShmOpen(e)
    }
}

/// Says what it means that a name could not be created.
pub fn classify_create_error(e: OsError) -> (error: ArenaError)
    ensures
        error == create_error(e),
{
    if e.code == eexist() {
        ArenaError::AlreadyExists
    } else {
        ArenaError::ShmOpen(e)
    }
}

/// Creates a segment under a name that is not in use.
#[derive(Clone, Copy, Debug, PartialEq, Eq)]
pub enum Create {
    /// Waiting for the descriptor of the new name.
    Opening { size: usize },
    /// Making the segment.
    Building(BuildFresh),
}

impl Operation for Create {
    type Output = Mapping;

    open spec fn wf(&self) -> bool {
        match *self {
            Create::Opening { size } => size > 0,
            Create::Building(build) => build.wf(),
        }
    }

    open spec fn pending(&self) -> Call {
        match *self {
            Create::Opening { .. } => Call::Open {
                create: true,
                exclusive: true,
                writable: true,
                mode: SEGMENT_MODE,
            },
            Create::Building(build) => build.pending(),
        }
    }

    open spec fn next(self, reply: Reply) -> Progress<Self, Mapping> {
        match (self, reply) {
            (Create::Opening { size }, Reply::Fd(fd)) => Progress::Pending(
                Create::Building(BuildFresh::spec_begin(fd, size)),
            ),
            (Create::Opening { .. }, Reply::Failed(e)) => Progress::Done(Err(create_error(e))),
            (Create::Building(build), _) => match build.next(reply) {
                Progress::Pending(build) => Progress::Pending(Create::Building(build)),
                Progress::Done(result) => Progress::Done(result),
            },
            _ => Progress::Pending(self),
        }
    }

    open spec fn held(&self) -> Held {
        match *self {
            Create::Opening { .. } => nothing(),
            Create::Building(build) => build.held(),
        }
    }

    open spec fn kept(output: Mapping) -> Held {
        BuildFresh::kept(output)
    }

    open spec fn rank(&self) -> nat {
        match *self {
            Create::Opening { .. } => 6,
            Create::Building(build) => build.rank(),
        }
    }

    fn call(&self) -> Call {
        match *self {
            Create::Opening { .. } => Call::Open {
                create: true,
                exclusive: true,
                writable: true,
                mode: SEGMENT_MODE,
            },
            Create::Building(build) => build.call(),
        }
    }

    fn step(self, reply: Reply) -> (progress: Progress<Self, Mapping>)
        ensures
            progress matches Progress::Done(Ok(mapping)) ==> mapping.holds_segment(),
    {
        match (self, reply) {
            (Create::Opening { size }, Reply::Fd(fd)) => Progress::Pending(
                Create::Building(BuildFresh::begin(fd, size)),
            ),
            (Create::Opening { .. }, Reply::Failed(e)) => Progress::Done(Err(classify_create_error(e))),
            (Create::Building(build), _) => match build.step(reply) {
                Progress::Pending(build) => Progress::Pending(Create::Building(build)),
                Progress::Done(result) => Progress::Done(result),
            },
            _ => Progress::Pending(self),
        }
    }

    proof fn lemma_step(self, reply: Reply) {
        if let Create::Building(build) = self {
            build.lemma_step(reply);
        }
    }
}

/// A name exists already exactly where the system says so; every other error number
/// is handed on.
pub proof fn law_only_presence_is_already_exists(e: OsError)
    ensures
        create_error(e) == ArenaError::AlreadyExists <==> e.code == EEXIST,
        e.code != EEXIST ==> create_error(e) == ArenaError::ShmOpen(e),
{
}

} // verus!
