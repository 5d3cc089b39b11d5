//! Creating a named segment in place of one that a crash left behind.

use crate::fresh::BuildFresh;
use crate::call::{nothing, Call, Held, Mapping, Operation, Progress, Reply};
use crate::create::{classify_create_error, create_error, SEGMENT_MODE};
use crate::error::ArenaError;
use crate::stale::Staleness;
use vstd::prelude::*;

verus! {

/// How often the creation is tried, since others may take or remove the name in
/// between.
pub const ATTEMPTS: u32 = 4;

/// Creates a segment; where the name is taken by a segment that is left over,
/// removes that one and tries again. A segment whose owner lives is left alone.
#[derive(Clone, Copy, Debug, PartialEq, Eq)]
pub enum Recover {
    /// Waiting for the descriptor of the new name, with `left` tries after this.
    Opening { size: usize, left: u32 },
    /// Finding out whether the segment in the way is left over.
    Checking { size: usize, left: u32, check: Staleness },
    /// Removing the segment in the way.
    Unlinking { size: usize, left: u32 },
    /// Making the segment.
    Building(BuildFresh),
}

impl Operation for Recover {
    type Output = Mapping;

    open spec fn wf(&self) -> bool {
        match *self {
            Recover::Opening { size, .. } => size > 0,
            Recover::Checking { size, check, .. } => size > 0 && check.wf(),
            Recover::Unlinking { size, .. } => size > 0,
            Recover::Building(build) => build.wf(),
        }
    }

    open spec fn pending(&self) -> Call {
        match *self {
            Recover::Opening { .. } => Call::Open {
                create: true,
                exclusive: true,
                writable: true,
                mode: SEGMENT_MODE,
            },
            Recover::Checking { check, .. } => check.pending(),
            Recover::Unlinking { .. } => Call::Unlink,
            Recover::Building(build) => build.pending(),
        }
    }

    open spec fn next(self, reply: Reply) -> Progress<Self, Mapping> {
        match (self, reply) {
            (Recover::Opening { size, .. }, Reply::Fd(fd)) => Progress::Pending(
                Recover::Building(BuildFresh::spec_begin(fd, size)),
            ),
            (Recover::Opening { size, left }, Reply::Failed(e)) => match create_error(e) {
                ArenaError::AlreadyExists => Progress::Pending(
                    Recover::Checking { size, left, check: Staleness::spec_begin() },
                ),
                error => Progress::Done(Err(error)),
            },
            (Recover::Checking { size, left, check }, _) => match check.next(reply) {
                Progress::Pending(check) => Progress::Pending(
                    Recover::Checking { size, left, check },
                ),
                Progress::Done(Ok(true)) => Progress::Pending(Recover::Unlinking { size, left }),
                Progress::Done(Ok(false)) => Progress::Done(Err(ArenaError::AlreadyExists)),
                Progress::Done(Err(ArenaError::NotFound)) => Self::spec_retry(size, left),
                Progress::Done(Err(error)) => Progress::Done(Err(error)),
            },
            (Recover::Unlinking { size, left }, _) => Self::spec_retry(size, left),
            (Recover::Building(build), _) => match build.next(reply) {
                Progress::Pending(build) => Progress::Pending(Recover::Building(build)),
                Progress::Done(result) => Progress::Done(result),
            },
            _ => Progress::Pending(self),
        }
    }

    open spec fn held(&self) -> Held {
        match *self {
            Recover::Opening { .. } => nothing(),
            Recover::Checking { check, .. } => check.held(),
            Recover::Unlinking { .. } => nothing(),
            Recover::Building(build) => build.held(),
        }
    }

    open spec fn kept(output: Mapping) -> Held {
        BuildFresh::kept(output)
    }

    open spec fn rank(&self) -> nat {
        match *self {
            Recover::Opening { left, .. } => 16 + 16 * left as nat,
            Recover::Checking { left, check, .. } => check.rank() + 2 + 16 * left as nat,
            Recover::Unlinking { left, .. } => 2 + 16 * left as nat,
            Recover::Building(build) => build.rank(),
        }
    }

    fn call(&self) -> Call {
        match *self {
            Recover::Opening { .. } => Call::Open {
                create: true,
                exclusive: true,
                writable: true,
                mode: SEGMENT_MODE,
            },
            Recover::Checking { check, .. } => check.call(),
            Recover::Unlinking { .. } => Call::Unlink,
            Recover::Building(build) => build.call(),
        }
    }

    fn step(self, reply: Reply) -> (progress: Progress<Self, Mapping>)
        ensures
            progress matches Progress::Done(Ok(mapping)) ==> mapping.holds_segment(),
    {
        match (self, reply) {
            (Recover::Opening { size, .. }, Reply::Fd(fd)) => Progress::Pending(
                Recover::Building(BuildFresh::begin(fd, size)),
            ),
            (Recover::Opening { size, left }, Reply::Failed(e)) => match classify_create_error(e) {
                ArenaError::AlreadyExists => Progress::Pending(
                    Recover::Checking { size, left, check: Staleness::begin() },
                ),
                error => Progress::Done(Err(error)),
            },
            (Recover::Checking { size, left, check }, _) => match check.step(reply) {
                Progress::Pending(check) => Progress::Pending(
                    Recover::Checking { size, left, check },
                ),
                Progress::Done(Ok(true)) => Progress::Pending(Recover::Unlinking { size, left }),
                Progress::Done(Ok(false)) => Progress::Done(Err(ArenaError::AlreadyExists)),
                Progress::Done(Err(ArenaError::NotFound)) => Self::retry(size, left),
                Progress::Done(Err(error)) => Progress::Done(Err(error)),
            },
            (Recover::Unlinking { size, left }, _) => Self::retry(size, left),
            (Recover::Building(build), _) => match build.step(reply) {
                Progress::Pending(build) => Progress::Pending(Recover::Building(build)),
                Progress::Done(result) => Progress::Done(result),
            },
            _ => Progress::Pending(self),
        }
    }

    proof fn lemma_step(self, reply: Reply) {
        match self {
            Recover::Checking { check, .. } => {
                check.lemma_step(reply);
            },
            Recover::Building(build) => {
                build.lemma_step(reply);
            },
            _ => {},
        }
    }
}

impl Recover {
    /// The next try, or the end where none is left.
    pub open spec fn spec_retry(size: usize, left: u32) -> Progress<Recover, Mapping> {
        if left == 0 {
            Progress::Done(Err(ArenaError::AlreadyExists))
        } else {
            Progress::Pending(Recover::Opening { size, left: (left - 1) as u32 })
        }
    }

    fn retry(size: usize, left: u32) -> (progress: Progress<Recover, Mapping>)
        ensures
            progress == Self::spec_retry(size, left),
    {
        if left == 0 {
            Progress::Done(Err(ArenaError::AlreadyExists))
        } else {
            Progress::Pending(Recover::Opening { size, left: left - 1 })
        }
    }
}

} // verus!
