//! Opening and mapping a segment that exists.

use crate::call::{
    nothing, Call, Descriptor, Held, Mapping, Operation, Progress, Reply,
};
use crate::errno::{enoent, ENOENT};
use crate::error::{ArenaError, OsError};
use crate::header::HEADER_SIZE;
use vstd::prelude::*;

verus! {

/// A segment that is open and mapped as a whole.
#[derive(Clone, Copy, Debug, PartialEq, Eq)]
pub struct OpenSegment {
    pub fd: i32,
    pub addr: usize,
    pub total: usize,
    pub writable: bool,
}

impl OpenSegment {
    /// The mapping has room for a header and ends within the address space.
    pub open spec fn wf(&self) -> bool {
        self.mapping().holds_segment()
    }

    /// The mapping of the segment.
    pub open spec fn mapping(&self) -> Mapping {
        Mapping { addr: self.addr, len: self.total, writable: self.writable }
    }

    /// The mapping of the segment.
    pub fn as_mapping(&self) -> (mapping: Mapping)
        ensures
            mapping == self.mapping(),
    {
        Mapping { addr: self.addr, len: self.total, writable: self.writable }
    }
}

/// What it means that a segment could not be opened by its name.
pub open spec fn open_error(e: OsError) -> ArenaError {
    if e.code == ENOENT {
        ArenaError::NotFound
    } else {
        ArenaError::ShmOpen(e)
    }
}

/// The length of a segment whose measured size is `size`; zero where no mapping
/// could have it.
pub open spec fn segment_length(size: i64) -> usize {
    if 0 <= size <= usize::MAX {
        size as usize
    } else {
        0
    }
}

/// Says what it means that a segment could not be opened by its name.
pub fn classify_open_error(e: OsError) -> (error: ArenaError)
    ensures
        error == open_error(e),
{
    if e.code == enoent() {
        ArenaError::NotFound
    } else {
        ArenaError::ShmOpen(e)
    }
}

/// The length of a segment whose measured size is `size`; zero where no mapping
/// could have it.
pub fn measured_length(size: i64) -> (len: usize)
    ensures
        len == segment_length(size),
{
    if 0 <= size && size as u64 <= usize::MAX as u64 {
        size as usize
    } else {
        0
    }
}

/// Opens the segment, measures it and maps all of it. A segment too short for a
/// header counts as one with a bad magic.
#[derive(Clone, Copy, Debug, PartialEq, Eq)]
pub enum Acquire {
    /// Waiting for the descriptor.
    Opening { writable: bool },
    /// Waiting for the size.
    Measuring { fd: i32, writable: bool },
    /// Waiting for the mapping.
    Mapping { fd: i32, total: usize, writable: bool },
    /// Closing the descriptor after a failure.
    Failing { fd: i32, writable: bool, error: ArenaError },
}

impl Acquire {
    /// Whether the segment is opened and mapped for writing.
    pub open spec fn for_writing(&self) -> bool {
        match *self {
            Acquire::Opening { writable } => writable,
            Acquire::Measuring { writable, .. } => writable,
            Acquire::Mapping { writable, .. } => writable,
            Acquire::Failing { writable, .. } => writable,
        }
    }
}

impl Operation for Acquire {
    type Output = OpenSegment;

    open spec fn wf(&self) -> bool {
        match *self {
            Acquire::Mapping { total, .. } => HEADER_SIZE <= total,
            _ => true,
        }
    }

    open spec fn pending(&self) -> Call {
        match *self {
            Acquire::Opening { writable } => Call::Open {
                create: false,
                exclusive: false,
                writable,
                mode: 0,
            },
            Acquire::Measuring { fd, .. } => Call::Measure { fd },
            Acquire::Mapping { fd, total, writable } => Call::Mmap {
                from: Some(fd),
                len: total,
                writable,
                at: None,
            },
            Acquire::Failing { fd, .. } => Call::Close { fd },
        }
    }

    open spec fn next(self, reply: Reply) -> Progress<Self, OpenSegment> {
        match (self, reply) {
            (Acquire::Opening { writable }, Reply::Fd(fd)) => Progress::Pending(
                Acquire::Measuring { fd, writable },
            ),
            (Acquire::Opening { .. }, Reply::Failed(e)) => Progress::Done(Err(open_error(e))),
            (Acquire::Measuring { fd, writable }, Reply::Length(size)) => Progress::Pending(
                if segment_length(size) < HEADER_SIZE {
                    Acquire::Failing { fd, writable, error: ArenaError::BadMagic }
                } else {
                    Acquire::Mapping { fd, total: segment_length(size), writable }
                },
            ),
            (Acquire::Measuring { fd, writable }, Reply::Failed(e)) => Progress::Pending(
                Acquire::Failing { fd, writable, error: ArenaError::ShmOpen(e) },
            ),
            (Acquire::Mapping { fd, total, writable }, Reply::Addr(addr)) => Progress::Done(
                Ok(OpenSegment { fd, addr, total, writable }),
            ),
            (Acquire::Mapping { fd, writable, .. }, Reply::Failed(e)) => Progress::Pending(
                Acquire::Failing { fd, writable, error: ArenaError::Mmap(e) },
            ),
            (Acquire::Failing { error, .. }, _) => Progress::Done(Err(error)),
            _ => Progress::Pending(self),
        }
    }

    open spec fn held(&self) -> Held {
        match *self {
            Acquire::Opening { .. } => nothing(),
            Acquire::Measuring { fd, writable } => Held {
                fd: Some(Descriptor { fd, writable }),
                ..nothing()
            },
            Acquire::Mapping { fd, writable, .. } => Held {
                fd: Some(Descriptor { fd, writable }),
                ..nothing()
            },
            Acquire::Failing { fd, writable, .. } => Held {
                fd: Some(Descriptor { fd, writable }),
                ..nothing()
            },
        }
    }

    open spec fn kept(output: OpenSegment) -> Held {
        Held {
            fd: Some(Descriptor { fd: output.fd, writable: output.writable }),
            map: Some(output.mapping()),
            created: false,
        }
    }

    open spec fn rank(&self) -> nat {
        match *self {
            Acquire::Opening { .. } => 4,
            Acquire::Measuring { .. } => 3,
            Acquire::Mapping { .. } => 2,
            Acquire::Failing { .. } => 1,
        }
    }

    fn call(&self) -> Call {
        match *self {
            Acquire::Opening { writable } => Call::Open {
                create: false,
                exclusive: false,
                writable,
                mode: 0,
            },
            Acquire::Measuring { fd, .. } => Call::Measure { fd },
            Acquire::Mapping { fd, total, writable } => Call::Mmap {
                from: Some(fd),
                len: total,
                writable,
                at: None,
            },
            Acquire::Failing { fd, .. } => Call::Close { fd },
        }
    }

    fn step(self, reply: Reply) -> (progress: Progress<Self, OpenSegment>)
        ensures
            progress matches Progress::Done(Ok(segment)) ==> segment.wf(),
    {
        match (self, reply) {
            (Acquire::Opening { writable }, Reply::Fd(fd)) => Progress::Pending(
                Acquire::Measuring { fd, writable },
            ),
            (Acquire::Opening { .. }, Reply::Failed(e)) => Progress::Done(
                Err(classify_open_error(e)),
            ),
            (Acquire::Measuring { fd, writable }, Reply::Length(size)) => {
                let total: usize = measured_length(size);
                if total < HEADER_SIZE {
                    Progress::Pending(Acquire::Failing { fd, writable, error: ArenaError::BadMagic })
                } else {
                    Progress::Pending(Acquire::Mapping { fd, total, writable })
                }
            },
            (Acquire::Measuring { fd, writable }, Reply::Failed(e)) => Progress::Pending(
                Acquire::Failing { fd, writable, error: ArenaError::ShmOpen(e) },
            ),
            (Acquire::Mapping { fd, total, writable }, Reply::Addr(addr)) => Progress::Done(
                Ok(OpenSegment { fd, addr, total, writable }),
            ),
            (Acquire::Mapping { fd, writable, .. }, Reply::Failed(e)) => Progress::Pending(
                Acquire::Failing { fd, writable, error: ArenaError::Mmap(e) },
            ),
            (Acquire::Failing { error, .. }, _) => Progress::Done(Err(error)),
            _ => Progress::Pending(self),
        }
    }

    proof fn lemma_step(self, reply: Reply) {
    }
}

/// A segment that cannot be opened is not found exactly where the system says that
/// there is none; every other error number is handed on.
pub proof fn law_only_absence_is_not_found(e: OsError)
    ensures
        open_error(e) == ArenaError::NotFound <==> e.code == ENOENT,
        e.code != ENOENT ==> open_error(e) == ArenaError::ShmOpen(e),
{
}

/// A segment is taken to be as long as it was measured, wherever the machine has
/// such a length.
pub proof fn law_length_is_the_measured_one(size: i64)
    ensures
        0 <= size <= usize::MAX ==> segment_length(size) == size,
        size < 0 || size > usize::MAX ==> segment_length(size) == 0,
{
}

} // verus!
