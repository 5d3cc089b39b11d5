//! Attaching to a named segment for reading only, at the address of its creator.

use crate::acquire::{Acquire, OpenSegment};
use crate::call::{nothing, Call, Descriptor, Held, Mapping, Operation, Progress, Reply};
use crate::errno::{eexist, EEXIST};
use crate::error::{ArenaError, OsError};
use crate::header::{SegmentHeader, HEADER_SIZE};
use vstd::prelude::*;

verus! {

/// What it means that a mapping at a fixed address failed.
pub open spec fn fixed_map_error(e: OsError) -> ArenaError {
    if e.code == EEXIST {
        ArenaError::BaseAddrUnavailable
    } else {
        ArenaError::Mmap(e)
    }
}

/// Says what it means that a mapping at a fixed address failed.
pub fn classify_fixed_map_error(e: OsError) -> (error: ArenaError)
    ensures
        error == fixed_map_error(e),
{
    if e.code == eexist() {
        ArenaError::BaseAddrUnavailable
    } else {
        ArenaError::Mmap(e)
    }
}

/// Reads the header through a passing mapping, then maps the segment for reading
/// at the address that the header records, where absolute addresses inside the
/// segment hold. An address that is taken is left alone.
#[derive(Clone, Copy, Debug, PartialEq, Eq)]
pub enum Observe {
    /// Opening, measuring and mapping the segment for the header.
    Acquiring(Acquire),
    /// Waiting for the header.
    Reading { segment: OpenSegment },
    /// Giving the passing mapping back.
    Releasing { segment: OpenSegment, header: SegmentHeader },
    /// Closing the descriptor after a failure.
    Refusing { fd: i32, error: ArenaError },
    /// Waiting for the mapping at the recorded address.
    Fixing { fd: i32, total: usize, want: usize },
    /// Closing the descriptor, which the mapping outlives.
    Closing { fd: i32, mapping: Mapping, want: usize },
    /// Giving back a mapping at another address than the recorded one.
    Withdrawing { mapping: Mapping },
}

impl Operation for Observe {
    type Output = Mapping;

    open spec fn wf(&self) -> bool {
        match *self {
            Observe::Acquiring(acquire) => acquire.wf() && !acquire.for_writing(),
            Observe::Reading { segment } => segment.wf() && !segment.writable,
            Observe::Releasing { segment, .. } => segment.wf() && !segment.writable,
            Observe::Refusing { .. } => true,
            Observe::Fixing { total, .. } => HEADER_SIZE <= total,
            Observe::Closing { mapping, .. } => mapping.holds_segment(),
            Observe::Withdrawing { mapping } => mapping.holds_segment(),
        }
    }

    open spec fn pending(&self) -> Call {
        match *self {
            Observe::Acquiring(acquire) => acquire.pending(),
            Observe::Reading { segment } => Call::ReadHeader { addr: segment.addr },
            Observe::Releasing { segment, .. } => Call::Munmap {
                addr: segment.addr,
                len: segment.total,
            },
            Observe::Refusing { fd, .. } => Call::Close { fd },
            Observe::Fixing { fd, total, want } => Call::Mmap {
                from: Some(fd),
                len: total,
                writable: false,
                at: Some(want),
            },
            Observe::Closing { fd, .. } => Call::Close { fd },
            Observe::Withdrawing { mapping } => Call::Munmap {
                addr: mapping.addr,
                len: mapping.len,
            },
        }
    }

    open spec fn next(self, reply: Reply) -> Progress<Self, Mapping> {
        match (self, reply) {
            (Observe::Acquiring(acquire), _) => match acquire.next(reply) {
                Progress::Pending(acquire) => Progress::Pending(Observe::Acquiring(acquire)),
                Progress::Done(Ok(segment)) => Progress::Pending(Observe::Reading { segment }),
                Progress::Done(Err(error)) => Progress::Done(Err(error)),
            },
            (Observe::Reading { segment }, Reply::Header(header)) => Progress::Pending(
                Observe::Releasing { segment, header },
            ),
            (Observe::Releasing { segment, header }, _) => match header.spec_check() {
                Ok(()) => Progress::Pending(
                    Observe::Fixing {
                        fd: segment.fd,
                        total: segment.total,
                        want: header.spec_recorded_base(),
                    },
                ),
                Err(error) => Progress::Pending(Observe::Refusing { fd: segment.fd, error }),
            },
            (Observe::Refusing { error, .. }, _) => Progress::Done(Err(error)),
            (Observe::Fixing { fd, total, want }, Reply::Addr(addr)) => Progress::Pending(
                Observe::Closing {
                    fd,
                    mapping: Mapping { addr, len: total, writable: false },
                    want,
                },
            ),
            (Observe::Fixing { fd, .. }, Reply::Failed(e)) => Progress::Pending(
                Observe::Refusing { fd, error: fixed_map_error(e) },
            ),
            (Observe::Closing { mapping, want, .. }, _) => if mapping.addr == want {
                Progress::Done(Ok(mapping))
            } else {
                Progress::Pending(Observe::Withdrawing { mapping })
            },
            (Observe::Withdrawing { .. }, _) => Progress::Done(
                Err(ArenaError::BaseAddrUnavailable),
            ),
            _ => Progress::Pending(self),
        }
    }

    open spec fn held(&self) -> Held {
        match *self {
            Observe::Acquiring(acquire) => acquire.held(),
            Observe::Reading { segment } => Acquire::kept(segment),
            Observe::Releasing { segment, .. } => Acquire::kept(segment),
            Observe::Refusing { fd, .. } => Held {
                fd: Some(Descriptor { fd, writable: false }),
                ..nothing()
            },
            Observe::Fixing { fd, .. } => Held {
                fd: Some(Descriptor { fd, writable: false }),
                ..nothing()
            },
            Observe::Closing { fd, mapping, .. } => Held {
                fd: Some(Descriptor { fd, writable: false }),
                map: Some(mapping),
                created: false,
            },
            Observe::Withdrawing { mapping } => Held { map: Some(mapping), ..nothing() },
        }
    }

    open spec fn kept(output: Mapping) -> Held {
        Held { map: Some(output), ..nothing() }
    }

    open spec fn rank(&self) -> nat {
        match *self {
            Observe::Acquiring(acquire) => acquire.rank() + 5,
            Observe::Reading { .. } => 5,
            Observe::Releasing { .. } => 4,
            Observe::Fixing { .. } => 3,
            Observe::Closing { .. } => 2,
            Observe::Refusing { .. } => 1,
            Observe::Withdrawing { .. } => 1,
        }
    }

    fn call(&self) -> Call {
        match *self {
            Observe::Acquiring(acquire) => acquire.call(),
            Observe::Reading { segment } => Call::ReadHeader { addr: segment.addr },
            Observe::Releasing { segment, .. } => Call::Munmap {
                addr: segment.addr,
                len: segment.total,
            },
            Observe::Refusing { fd, .. } => Call::Close { fd },
            Observe::Fixing { fd, total, want } => Call::Mmap {
                from: Some(fd),
                len: total,
                writable: false,
                at: Some(want),
            },
            Observe::Closing { fd, .. } => Call::Close { fd },
            Observe::Withdrawing { mapping } => Call::Munmap {
                addr: mapping.addr,
                len: mapping.len,
            },
        }
    }

    fn step(self, reply: Reply) -> (progress: Progress<Self, Mapping>)
        ensures
            progress matches Progress::Done(Ok(mapping)) ==> mapping.holds_segment(),
    {
        match (self, reply) {
            (Observe::Acquiring(acquire), _) => match acquire.step(reply) {
                Progress::Pending(acquire) => Progress::Pending(Observe::Acquiring(acquire)),
                Progress::Done(Ok(segment)) => Progress::Pending(Observe::Reading { segment }),
                Progress::Done(Err(error)) => Progress::Done(Err(error)),
            },
            (Observe::Reading { segment }, Reply::Header(header)) => Progress::Pending(
                Observe::Releasing { segment, header },
            ),
            (Observe::Releasing { segment, header }, _) => match header.check() {
                Ok(()) => Progress::Pending(
                    Observe::Fixing {
                        fd: segment.fd,
                        total: segment.total,
                        want: header.recorded_base(),
                    },
                ),
                Err(error) => Progress::Pending(Observe::Refusing { fd: segment.fd, error }),
            },
            (Observe::Refusing { error, .. }, _) => Progress::Done(Err(error)),
            (Observe::Fixing { fd, total, want }, Reply::Addr(addr)) => Progress::Pending(
                Observe::Closing {
                    fd,
                    mapping: Mapping { addr, len: total, writable: false },
                    want,
                },
            ),
            (Observe::Fixing { fd, .. }, Reply::Failed(e)) => Progress::Pending(
                Observe::Refusing { fd, error: classify_fixed_map_error(e) },
            ),
            (Observe::Closing { mapping, want, .. }, _) => if mapping.addr == want {
                Progress::Done(Ok(mapping))
            } else {
                Progress::Pending(Observe::Withdrawing { mapping })
            },
            (Observe::Withdrawing { .. }, _) => Progress::Done(
                Err(ArenaError::BaseAddrUnavailable),
            ),
            _ => Progress::Pending(self),
        }
    }

    proof fn lemma_step(self, reply: Reply) {
        if let Observe::Acquiring(acquire) = self {
            acquire.lemma_step(reply);
        }
    }
}

/// A base address is unavailable exactly where the system says that something is
/// there; every other error number is handed on.
pub proof fn law_only_presence_makes_a_base_unavailable(e: OsError)
    ensures
        fixed_map_error(e) == ArenaError::BaseAddrUnavailable <==> e.code == EEXIST,
        e.code != EEXIST ==> fixed_map_error(e) == ArenaError::Mmap(e),
{
}

} // verus!
