//! Making a segment out of a name that was just created.

use crate::call::{Call, Descriptor, Held, Mapping, Operation, Progress, Reply};
use crate::error::ArenaError;
use crate::header::{SegmentHeader, HEADER_SIZE};
use vstd::prelude::*;

verus! {

/// Gives a new segment its length, maps it and writes its header. Where a step
/// fails, the descriptor is closed and the name unlinked.
#[derive(Clone, Copy, Debug, PartialEq, Eq)]
pub enum BuildFresh {
    /// Waiting for the length to be set.
    Resizing { fd: i32, total: usize },
    /// Waiting for the mapping.
    Mapping { fd: i32, total: usize },
    /// Closing the descriptor, which the mapping outlives.
    Closing { fd: i32, mapping: Mapping },
    /// Waiting for the process, the clock and the count.
    Stamping { mapping: Mapping },
    /// Writing the header.
    Writing { mapping: Mapping, header: SegmentHeader },
    /// Closing the descriptor after a failure.
    Abandoning { fd: i32, error: ArenaError },
    /// Removing the name after a failure.
    Erasing { error: ArenaError },
}

impl Operation for BuildFresh {
    type Output = Mapping;

    open spec fn wf(&self) -> bool {
        match *self {
            BuildFresh::Resizing { total, .. } => HEADER_SIZE < total <= greatest_length(),
            BuildFresh::Mapping { total, .. } => HEADER_SIZE < total,
            BuildFresh::Closing { mapping, .. } => mapping.holds_segment() && mapping.writable,
            BuildFresh::Stamping { mapping } => mapping.holds_segment() && mapping.writable,
            BuildFresh::Writing { mapping, .. } => mapping.holds_segment() && mapping.writable,
            BuildFresh::Abandoning { .. } => true,
            BuildFresh::Erasing { .. } => true,
        }
    }

    open spec fn pending(&self) -> Call {
        match *self {
            BuildFresh::Resizing { fd, total } => Call::Resize { fd, size: total as i64 },
            BuildFresh::Mapping { fd, total } => Call::Mmap {
                from: Some(fd),
                len: total,
                writable: true,
                at: None,
            },
            BuildFresh::Closing { fd, .. } => Call::Close { fd },
            BuildFresh::Stamping { .. } => Call::DrawStamp,
            BuildFresh::Writing { mapping, header } => Call::WriteHeader {
                addr: mapping.addr,
                header,
            },
            BuildFresh::Abandoning { fd, .. } => Call::Close { fd },
            BuildFresh::Erasing { .. } => Call::Unlink,
        }
    }

    open spec fn next(self, reply: Reply) -> Progress<Self, Mapping> {
        match (self, reply) {
            (BuildFresh::Resizing { fd, total }, Reply::Done) => Progress::Pending(
                BuildFresh::Mapping { fd, total },
            ),
            (BuildFresh::Resizing { fd, .. }, Reply::Failed(e)) => Progress::Pending(
                BuildFresh::Abandoning { fd, error: ArenaError::Ftruncate(e) },
            ),
            (BuildFresh::Mapping { fd, total }, Reply::Addr(addr)) => Progress::Pending(
                BuildFresh::Closing { fd, mapping: Mapping { addr, len: total, writable: true } },
            ),
            (BuildFresh::Mapping { fd, .. }, Reply::Failed(e)) => Progress::Pending(
                BuildFresh::Abandoning { fd, error: ArenaError::Mmap(e) },
            ),
            (BuildFresh::Closing { mapping, .. }, _) => Progress::Pending(
                BuildFresh::Stamping { mapping },
            ),
            (BuildFresh::Stamping { mapping }, Reply::Stamp(stamp)) => Progress::Pending(
                BuildFresh::Writing {
                    mapping,
                    header: SegmentHeader::spec_fresh(mapping.len, mapping.addr, stamp),
                },
            ),
            (BuildFresh::Writing { mapping, .. }, Reply::Done) => Progress::Done(Ok(mapping)),
            (BuildFresh::Abandoning { error, .. }, _) => Progress::Pending(
                BuildFresh::Erasing { error },
            ),
            (BuildFresh::Erasing { error }, _) => Progress::Done(Err(error)),
            _ => Progress::Pending(self),
        }
    }

    open spec fn held(&self) -> Held {
        match *self {
            BuildFresh::Resizing { fd, .. } => Held { fd: Some(Descriptor { fd, writable: true }), map: None, created: true },
            BuildFresh::Mapping { fd, .. } => Held { fd: Some(Descriptor { fd, writable: true }), map: None, created: true },
            BuildFresh::Closing { fd, mapping } => Held {
                fd: Some(Descriptor { fd, writable: true }),
                map: Some(mapping),
                created: true,
            },
            BuildFresh::Stamping { mapping } => Held { fd: None, map: Some(mapping), created: true },
            BuildFresh::Writing { mapping, .. } => Held { fd: None, map: Some(mapping), created: true },
            BuildFresh::Abandoning { fd, .. } => Held { fd: Some(Descriptor { fd, writable: true }), map: None, created: true },
            BuildFresh::Erasing { .. } => Held { fd: None, map: None, created: true },
        }
    }

    open spec fn kept(output: Mapping) -> Held {
        Held { fd: None, map: Some(output), created: true }
    }

    open spec fn rank(&self) -> nat {
        match *self {
            BuildFresh::Resizing { .. } => 5,
            BuildFresh::Mapping { .. } => 4,
            BuildFresh::Closing { .. } => 3,
            BuildFresh::Stamping { .. } => 2,
            BuildFresh::Writing { .. } => 1,
            BuildFresh::Abandoning { .. } => 2,
            BuildFresh::Erasing { .. } => 1,
        }
    }

    fn call(&self) -> Call {
        match *self {
            BuildFresh::Resizing { fd, total } => Call::Resize { fd, size: total as i64 },
            BuildFresh::Mapping { fd, total } => Call::Mmap {
                from: Some(fd),
                len: total,
                writable: true,
                at: None,
            },
            BuildFresh::Closing { fd, .. } => Call::Close { fd },
            BuildFresh::Stamping { .. } => Call::DrawStamp,
            BuildFresh::Writing { mapping, header } => Call::WriteHeader {
                addr: mapping.addr,
                header,
            },
            BuildFresh::Abandoning { fd, .. } => Call::Close { fd },
            BuildFresh::Erasing { .. } => Call::Unlink,
        }
    }

    fn step(self, reply: Reply) -> (progress: Progress<Self, Mapping>)
        ensures
            progress matches Progress::Done(Ok(mapping)) ==> mapping.holds_segment(),
    {
        match (self, reply) {
            (BuildFresh::Resizing { fd, total }, Reply::Done) => Progress::Pending(
                BuildFresh::Mapping { fd, total },
            ),
            (BuildFresh::Resizing { fd, .. }, Reply::Failed(e)) => Progress::Pending(
                BuildFresh::Abandoning { fd, error: ArenaError::Ftruncate(e) },
            ),
            (BuildFresh::Mapping { fd, total }, Reply::Addr(addr)) => Progress::Pending(
                BuildFresh::Closing { fd, mapping: Mapping { addr, len: total, writable: true } },
            ),
            (BuildFresh::Mapping { fd, .. }, Reply::Failed(e)) => Progress::Pending(
                BuildFresh::Abandoning { fd, error: ArenaError::Mmap(e) },
            ),
            (BuildFresh::Closing { mapping, .. }, _) => Progress::Pending(
                BuildFresh::Stamping { mapping },
            ),
            (BuildFresh::Stamping { mapping }, Reply::Stamp(stamp)) => Progress::Pending(
                BuildFresh::Writing {
                    mapping,
                    header: SegmentHeader::fresh(mapping.len, mapping.addr, stamp),
                },
            ),
            (BuildFresh::Writing { mapping, .. }, Reply::Done) => Progress::Done(Ok(mapping)),
            (BuildFresh::Abandoning { error, .. }, _) => Progress::Pending(
                BuildFresh::Erasing { error },
            ),
            (BuildFresh::Erasing { error }, _) => Progress::Done(Err(error)),
            _ => Progress::Pending(self),
        }
    }

    proof fn lemma_step(self, reply: Reply) {
    }
}

/// The greatest length that a segment can be given: the greatest `off_t`, which
/// `ftruncate` takes, unless the address space is smaller.
pub open spec fn greatest_length() -> int {
    if usize::MAX < libc::off_t::MAX {
        usize::MAX as int
    } else {
        libc::off_t::MAX as int
    }
}

/// The refusal of a segment with `size` bytes of data that would be too long.
pub open spec fn too_long(size: usize) -> ArenaError {
    if HEADER_SIZE + size > usize::MAX {
        ArenaError::OutOfMemory {
            requested: size,
            available: (usize::MAX - HEADER_SIZE) as usize,
        }
    } else {
        ArenaError::OutOfMemory {
            requested: (HEADER_SIZE + size) as usize,
            available: greatest_length() as usize,
        }
    }
}

impl BuildFresh {
    /// The first state for a segment with `size` bytes of data behind `fd`: the
    /// header is added, and a sum that cannot be a length is refused.
    pub open spec fn spec_begin(fd: i32, size: usize) -> BuildFresh {
        if HEADER_SIZE + size > greatest_length() {
            BuildFresh::Abandoning { fd, error: too_long(size) }
        } else {
            BuildFresh::Resizing { fd, total: (HEADER_SIZE + size) as usize }
        }
    }

    /// The first state for a segment with `size` bytes of data behind `fd`.
    pub fn begin(fd: i32, size: usize) -> (op: BuildFresh)
        requires
            size > 0,
        ensures
            op == Self::spec_begin(fd, size),
            op.wf(),
            op.held() == (Held { fd: Some(Descriptor { fd, writable: true }), map: None, created: true }),
    {
        match HEADER_SIZE.checked_add(size) {
            None => BuildFresh::Abandoning {
                fd,
                error: ArenaError::OutOfMemory {
                    requested: size,
                    available: usize::MAX - HEADER_SIZE,
                },
            },
            Some(total) => if total as u64 > libc::off_t::MAX as u64 {
                BuildFresh::Abandoning {
                    fd,
                    error: ArenaError::OutOfMemory {
                        requested: total,
                        available: if (usize::MAX as u64) < libc::off_t::MAX as u64 {
                            usize::MAX
                        } else {
                            libc::off_t::MAX as usize
                        },
                    },
                }
            } else {
                BuildFresh::Resizing { fd, total }
            },
        }
    }
}

/// A segment is refused as too long exactly where header and data together exceed
/// what `ftruncate` takes or the address space has, and the refusal tells of both:
/// the length that would be needed and the greatest there is, or, where the length
/// is no number of the machine, the data and the greatest data there is.
pub proof fn law_too_long_tells_the_lengths(fd: i32, size: usize)
    requires
        size > 0,
    ensures
        HEADER_SIZE + size <= libc::off_t::MAX && HEADER_SIZE + size <= usize::MAX
            ==> BuildFresh::spec_begin(fd, size) == (BuildFresh::Resizing {
            fd,
            total: (HEADER_SIZE + size) as usize,
        }),
        HEADER_SIZE + size > usize::MAX ==> BuildFresh::spec_begin(fd, size) == (
        BuildFresh::Abandoning {
            fd,
            error: ArenaError::OutOfMemory {
                requested: size,
                available: (usize::MAX - HEADER_SIZE) as usize,
            },
        }),
        libc::off_t::MAX < HEADER_SIZE + size <= usize::MAX ==> BuildFresh::spec_begin(fd, size)
            == (BuildFresh::Abandoning {
            fd,
            error: ArenaError::OutOfMemory {
                requested: (HEADER_SIZE + size) as usize,
                available: libc::off_t::MAX as usize,
            },
        }),
{
}

} // verus!
