//! Reading the owner of a named segment.

use crate::acquire::{Acquire, OpenSegment};
use crate::call::{nothing, Call, Held, Mapping, Operation, Progress, Reply};
use crate::error::ArenaError;
use crate::header::{SegmentHeader, HEADER_MAGIC};
use vstd::prelude::*;

verus! {

/// Maps a segment only to read which process its header names as owner. The
/// format version makes no difference.
#[derive(Clone, Copy, Debug, PartialEq, Eq)]
pub enum Peek {
    /// Opening, measuring and mapping the segment.
    Acquiring(Acquire),
    /// Closing the descriptor, which the mapping outlives.
    Closing { segment: OpenSegment },
    /// Waiting for the header.
    Reading { mapping: Mapping },
    /// Giving the mapping back.
    Releasing { mapping: Mapping, header: SegmentHeader },
}

impl Operation for Peek {
    type Output = i64;

    open spec fn wf(&self) -> bool {
        match *self {
            Peek::Acquiring(acquire) => acquire.wf(),
            Peek::Closing { segment } => segment.wf(),
            Peek::Reading { mapping } => mapping.holds_segment(),
            Peek::Releasing { mapping, .. } => mapping.holds_segment(),
        }
    }

    open spec fn pending(&self) -> Call {
        match *self {
            Peek::Acquiring(acquire) => acquire.pending(),
            Peek::Closing { segment } => Call::Close { fd: segment.fd },
            Peek::Reading { mapping } => Call::ReadHeader { addr: mapping.addr },
            Peek::Releasing { mapping, .. } => Call::Munmap {
                addr: mapping.addr,
                len: mapping.len,
            },
        }
    }

    open spec fn next(self, reply: Reply) -> Progress<Self, i64> {
        match (self, reply) {
            (Peek::Acquiring(acquire), _) => match acquire.next(reply) {
                Progress::Pending(acquire) => Progress::Pending(Peek::Acquiring(acquire)),
                Progress::Done(Ok(segment)) => Progress::Pending(Peek::Closing { segment }),
                Progress::Done(Err(error)) => Progress::Done(Err(error)),
            },
            (Peek::Closing { segment }, _) => Progress::Pending(
                Peek::Reading { mapping: segment.mapping() },
            ),
            (Peek::Reading { mapping }, Reply::Header(header)) => Progress::Pending(
                Peek::Releasing { mapping, header },
            ),
            (Peek::Releasing { header, .. }, _) => if header.magic != HEADER_MAGIC {
                Progress::Done(Err(ArenaError::BadMagic))
            } else {
                Progress::Done(Ok(header.spec_recorded_owner()))
            },
            _ => Progress::Pending(self),
        }
    }

    open spec fn held(&self) -> Held {
        match *self {
            Peek::Acquiring(acquire) => acquire.held(),
            Peek::Closing { segment } => Acquire::kept(segment),
            Peek::Reading { mapping } => Held { map: Some(mapping), ..nothing() },
            Peek::Releasing { mapping, .. } => Held { map: Some(mapping), ..nothing() },
        }
    }

    open spec fn kept(output: i64) -> Held {
        nothing()
    }

    open spec fn rank(&self) -> nat {
        match *self {
            Peek::Acquiring(acquire) => acquire.rank() + 3,
            Peek::Closing { .. } => 3,
            Peek::Reading { .. } => 2,
            Peek::Releasing { .. } => 1,
        }
    }

    fn call(&self) -> Call {
        match *self {
            Peek::Acquiring(acquire) => acquire.call(),
            Peek::Closing { segment } => Call::Close { fd: segment.fd },
            Peek::Reading { mapping } => Call::ReadHeader { addr: mapping.addr },
            Peek::Releasing { mapping, .. } => Call::Munmap {
                addr: mapping.addr,
                len: mapping.len,
            },
        }
    }

    fn step(self, reply: Reply) -> (progress: Progress<Self, i64>)
    {
        match (self, reply) {
            (Peek::Acquiring(acquire), _) => match acquire.step(reply) {
                Progress::Pending(acquire) => Progress::Pending(Peek::Acquiring(acquire)),
                Progress::Done(Ok(segment)) => Progress::Pending(Peek::Closing { segment }),
                Progress::Done(Err(error)) => Progress::Done(Err(error)),
            },
            (Peek::Closing { segment }, _) => Progress::Pending(
                Peek::Reading { mapping: segment.as_mapping() },
            ),
            (Peek::Reading { mapping }, Reply::Header(header)) => Progress::Pending(
                Peek::Releasing { mapping, header },
            ),
            (Peek::Releasing { header, .. }, _) => if header.magic != HEADER_MAGIC {
                Progress::Done(Err(ArenaError::BadMagic))
            } else {
                Progress::Done(Ok(header.recorded_owner()))
            },
            _ => Progress::Pending(self),
        }
    }

    proof fn lemma_step(self, reply: Reply) {
        if let Peek::Acquiring(acquire) = self {
            acquire.lemma_step(reply);
        }
    }
}

} // verus!
