//! Attaching to a named segment for reading and writing.

use crate::acquire::{Acquire, OpenSegment};
use crate::call::{nothing, Call, Held, Mapping, Operation, Progress, Reply};
use crate::error::ArenaError;
use vstd::prelude::*;

verus! {

/// A segment that was attached to.
#[derive(Clone, Copy, Debug, PartialEq, Eq)]
pub struct Attached {
    /// Where it is mapped.
    pub mapping: Mapping,
    /// The address of the creator's mapping, as the header records it.
    pub recorded_base: usize,
}

/// Maps a segment that exists, wherever the system puts it, and checks its header.
#[derive(Clone, Copy, Debug, PartialEq, Eq)]
pub enum Attach {
    /// Opening, measuring and mapping the segment.
    Acquiring(Acquire),
    /// Closing the descriptor, which the mapping outlives.
    Closing { segment: OpenSegment },
    /// Waiting for the header.
    Reading { mapping: Mapping },
    /// Giving the mapping back because of the header.
    Rejecting { mapping: Mapping, error: ArenaError },
}

impl Attach {
    /// Whether the segment is opened and mapped for writing.
    pub open spec fn for_writing(&self) -> bool {
        match *self {
            Attach::Acquiring(acquire) => acquire.for_writing(),
            Attach::Closing { segment } => segment.writable,
            Attach::Reading { mapping } => mapping.writable,
            Attach::Rejecting { mapping, .. } => mapping.writable,
        }
    }
}

impl Operation for Attach {
    type Output = Attached;

    open spec fn wf(&self) -> bool {
        match *self {
            Attach::Acquiring(acquire) => acquire.wf(),
            Attach::Closing { segment } => segment.wf(),
            Attach::Reading { mapping } => mapping.holds_segment(),
            Attach::Rejecting { mapping, .. } => mapping.holds_segment(),
        }
    }

    open spec fn pending(&self) -> Call {
        match *self {
            Attach::Acquiring(acquire) => acquire.pending(),
            Attach::Closing { segment } => Call::Close { fd: segment.fd },
            Attach::Reading { mapping } => Call::ReadHeader { addr: mapping.addr },
            Attach::Rejecting { mapping, .. } => Call::Munmap {
                addr: mapping.addr,
                len: mapping.len,
            },
        }
    }

    open spec fn next(self, reply: Reply) -> Progress<Self, Attached> {
        match (self, reply) {
            (Attach::Acquiring(acquire), _) => match acquire.next(reply) {
                Progress::Pending(acquire) => Progress::Pending(Attach::Acquiring(acquire)),
                Progress::Done(Ok(segment)) => Progress::Pending(Attach::Closing { segment }),
                Progress::Done(Err(error)) => Progress::Done(Err(error)),
            },
            (Attach::Closing { segment }, _) => Progress::Pending(
                Attach::Reading { mapping: segment.mapping() },
            ),
            (Attach::Reading { mapping }, Reply::Header(header)) => match header.spec_check() {
                Ok(()) => Progress::Done(
                    Ok(Attached { mapping, recorded_base: header.spec_recorded_base() }),
                ),
                Err(error) => Progress::Pending(Attach::Rejecting { mapping, error }),
            },
            (Attach::Rejecting { error, .. }, _) => Progress::Done(Err(error)),
            _ => Progress::Pending(self),
        }
    }

    open spec fn held(&self) -> Held {
        match *self {
            Attach::Acquiring(acquire) => acquire.held(),
            Attach::Closing { segment } => Acquire::kept(segment),
            Attach::Reading { mapping } => Held { map: Some(mapping), ..nothing() },
            Attach::Rejecting { mapping, .. } => Held { map: Some(mapping), ..nothing() },
        }
    }

    open spec fn kept(output: Attached) -> Held {
        Held { map: Some(output.mapping), ..nothing() }
    }

    open spec fn rank(&self) -> nat {
        match *self {
            Attach::Acquiring(acquire) => acquire.rank() + 3,
            Attach::Closing { .. } => 3,
            Attach::Reading { .. } => 2,
            Attach::Rejecting { .. } => 1,
        }
    }

    fn call(&self) -> Call {
        match *self {
            Attach::Acquiring(acquire) => acquire.call(),
            Attach::Closing { segment } => Call::Close { fd: segment.fd },
            Attach::Reading { mapping } => Call::ReadHeader { addr: mapping.addr },
            Attach::Rejecting { mapping, .. } => Call::Munmap {
                addr: mapping.addr,
                len: mapping.len,
            },
        }
    }

    fn step(self, reply: Reply) -> (progress: Progress<Self, Attached>)
        ensures
            progress matches Progress::Done(Ok(attached)) ==> attached.mapping.holds_segment(),
    {
        match (self, reply) {
            (Attach::Acquiring(acquire), _) => match acquire.step(reply) {
                Progress::Pending(acquire) => Progress::Pending(Attach::Acquiring(acquire)),
                Progress::Done(Ok(segment)) => Progress::Pending(Attach::Closing { segment }),
                Progress::Done(Err(error)) => Progress::Done(Err(error)),
            },
            (Attach::Closing { segment }, _) => Progress::Pending(
                Attach::Reading { mapping: segment.as_mapping() },
            ),
            (Attach::Reading { mapping }, Reply::Header(header)) => match header.check() {
                Ok(()) => Progress::Done(
                    Ok(Attached { mapping, recorded_base: header.recorded_base() }),
                ),
                Err(error) => Progress::Pending(Attach::Rejecting { mapping, error }),
            },
            (Attach::Rejecting { error, .. }, _) => Progress::Done(Err(error)),
            _ => Progress::Pending(self),
        }
    }

    proof fn lemma_step(self, reply: Reply) {
        if let Attach::Acquiring(acquire) = self {
            acquire.lemma_step(reply);
        }
    }
}

} // verus!
