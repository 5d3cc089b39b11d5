//! What the operations achieve on a system that does what it is asked.
//!
//! A [`World`] is what one segment name stands for and which processes live. A
//! reply is faithful where it is what a system in that world gives that has
//! resources enough and no other user of the name meanwhile: it takes back
//! descriptors and mappings, and removes the name where the process may do so. Descriptors and
//! addresses stay arbitrary. The laws say how each operation ends in such a
//! world, and what it leaves there. The memory without a name that a process has
//! is apart from that: it is a byte for each of its addresses.

use crate::acquire::Acquire;
use crate::anonymous::MapAnonymous;
use crate::attach::{Attach, Attached};
use crate::call::{answers, open_for, run, Call, Held, Mapping, Operation, Progress, Reply};
use crate::cleanup::Cleanup;
use crate::create::Create;
use crate::errno::{EEXIST, ENOENT, ESRCH};
use crate::error::ArenaError;
use crate::fresh::{greatest_length, too_long, BuildFresh};
use crate::header::{SegmentHeader, Stamp, HEADER_MAGIC, HEADER_SIZE};
use crate::observe::Observe;
use crate::peek::Peek;
use crate::recover::Recover;
use crate::release::Release;
use crate::stale::{probe_target, Staleness};
use vstd::prelude::*;

verus! {

/// A segment as the system keeps it.
pub struct File {
    /// Its length in bytes.
    pub len: i64,
    /// What its header holds.
    pub header: SegmentHeader,
    /// The bytes after the header.
    pub data: Seq<u8>,
}

/// What one name stands for, and which processes live.
pub struct World {
    /// The segment under the name.
    pub segment: Option<File>,
    /// The processes that live.
    pub living: Set<i32>,
    /// The process that makes the calls.
    pub me: u32,
    /// Whether that process has something mapped where the segment's creator had
    /// it mapped.
    pub base_taken: bool,
    /// Whether that process is let remove the name.
    pub removable: bool,
}

/// The header of a segment that was never written to.
pub open spec fn blank_header() -> SegmentHeader {
    SegmentHeader {
        magic: 0,
        version: 0,
        total_size: 0,
        base_addr: 0,
        owner_pid: 0,
        boot_nonce: 0,
        used: 0,
        state: 0,
    }
}

/// A segment as it is when its name was just created.
pub open spec fn empty_file() -> File {
    File { len: 0, header: blank_header(), data: Seq::empty() }
}

/// That many zeros.
pub open spec fn zeros(len: nat) -> Seq<u8> {
    Seq::new(len, |i: int| 0u8)
}

/// The bytes after the header of a segment that is given the length `size`: what
/// was there stays as far as it fits, and zeros follow.
pub open spec fn resized(data: Seq<u8>, size: i64) -> Seq<u8> {
    let len = if size < HEADER_SIZE {
        0
    } else {
        (size - HEADER_SIZE) as nat
    };
    Seq::new(
        len,
        |i: int|
            if i < data.len() {
                data[i]
            } else {
                0u8
            },
    )
}

/// The world with another segment, or none, under the name.
pub open spec fn with_segment(w: World, segment: Option<File>) -> World {
    World { segment, ..w }
}

/// Whether `reply` is what `call` gets in the world `w` where a process makes it
/// that holds what `held` says. A length is set, and a segment is mapped for
/// writing, only through a descriptor that was opened for writing.
pub open spec fn faithful(w: World, held: Held, call: Call, reply: Reply) -> bool {
    &&& answers(call, reply)
    &&& match call {
        Call::Open { create: true, exclusive: true, .. } => if w.segment is Some {
            reply matches Reply::Failed(e) && e.code == EEXIST
        } else {
            reply is Fd
        },
        Call::Open { .. } => if w.segment is Some {
            reply is Fd
        } else {
            reply matches Reply::Failed(e) && e.code == ENOENT
        },
        Call::Resize { fd, .. } => if open_for(held, fd, true) {
            reply is Done
        } else {
            reply is Failed
        },
        Call::Mmap { from: Some(fd), writable, .. } if !open_for(held, fd, writable) => {
            reply is Failed
        },
        Call::Measure { .. } => w.segment matches Some(file) ==> reply == Reply::Length(file.len),
        Call::Mmap { at: Some(want), .. } => if w.base_taken {
            reply matches Reply::Failed(e) && e.code == EEXIST
        } else {
            reply == Reply::Addr(want)
        },
        Call::Mmap { at: None, .. } => reply is Addr,
        Call::ReadHeader { .. } => w.segment matches Some(file) ==> reply == Reply::Header(
            file.header,
        ),
        Call::DrawStamp => reply matches Reply::Stamp(stamp) && stamp.pid == w.me,
        Call::Probe { pid } => if w.living.contains(pid) {
            reply matches Reply::Failed(e) ==> e.code != ESRCH
        } else {
            reply matches Reply::Failed(e) && e.code == ESRCH
        },
        Call::Close { .. } => reply is Done,
        Call::Munmap { .. } => reply is Done,
        Call::Unlink => if w.segment is Some && w.removable {
            reply is Done
        } else {
            reply is Failed
        },
        Call::WriteHeader { .. } => true,
    }
}

/// The world after `call` had `reply`.
pub open spec fn world_after(w: World, call: Call, reply: Reply) -> World {
    match (call, reply) {
        (Call::Open { create: true, .. }, Reply::Fd(_)) => with_segment(
            w,
            Some(empty_file()),
        ),
        (Call::Resize { size, .. }, Reply::Done) => match w.segment {
            Some(file) => with_segment(
                w,
                Some(File { len: size, header: file.header, data: resized(file.data, size) }),
            ),
            None => w,
        },
        (Call::WriteHeader { header, .. }, Reply::Done) => match w.segment {
            Some(file) => with_segment(w, Some(File { header, ..file })),
            None => w,
        },
        (Call::Unlink, Reply::Done) => with_segment(w, None),
        _ => w,
    }
}

/// Whether every reply of a run is faithful where it is given.
pub open spec fn served<O: Operation>(op: O, w: World, replies: Seq<Reply>) -> bool
    decreases replies.len(),
{
    replies.len() > 0 ==> {
        &&& faithful(w, op.held(), op.pending(), replies[0])
        &&& op.next(replies[0]) matches Progress::Pending(next) ==> served(
            next,
            world_after(w, op.pending(), replies[0]),
            replies.drop_first(),
        )
    }
}

/// The world after a run.
pub open spec fn world_after_run<O: Operation>(op: O, w: World, replies: Seq<Reply>) -> World
    decreases replies.len(),
{
    if replies.len() == 0 {
        w
    } else {
        let then = world_after(w, op.pending(), replies[0]);
        match op.next(replies[0]) {
            Progress::Pending(next) => world_after_run(next, then, replies.drop_first()),
            Progress::Done(_) => then,
        }
    }
}

/// Whether `x` is an address of the `len` bytes from `addr` on.
pub open spec fn within(addr: usize, len: usize, x: int) -> bool {
    addr <= x < addr + len
}

/// The memory without a name of a process, address by address, after `call` had
/// `reply`: what is mapped without a descriptor reads as zeros, and what is
/// unmapped cannot be read.
pub open spec fn memory_after(memory: Map<int, u8>, call: Call, reply: Reply) -> Map<int, u8> {
    match (call, reply) {
        (Call::Mmap { from: None, len, .. }, Reply::Addr(addr)) => Map::new(
            |x: int| within(addr, len, x) || memory.dom().contains(x),
            |x: int|
                if within(addr, len, x) {
                    0u8
                } else {
                    memory[x]
                },
        ),
        (Call::Munmap { addr, len }, Reply::Done) => Map::new(
            |x: int| !within(addr, len, x) && memory.dom().contains(x),
            |x: int| memory[x],
        ),
        _ => memory,
    }
}

/// The memory without a name after a run.
pub open spec fn memory_after_run<O: Operation>(
    op: O,
    memory: Map<int, u8>,
    replies: Seq<Reply>,
) -> Map<int, u8>
    decreases replies.len(),
{
    if replies.len() == 0 {
        memory
    } else {
        let then = memory_after(memory, op.pending(), replies[0]);
        match op.next(replies[0]) {
            Progress::Pending(next) => memory_after_run(next, then, replies.drop_first()),
            Progress::Done(_) => then,
        }
    }
}

/// The `len` bytes of memory from `addr` on.
pub open spec fn memory_at(memory: Map<int, u8>, addr: usize, len: nat) -> Seq<u8> {
    Seq::new(len, |i: int| memory[addr + i])
}

/// An operation whose end in a world is known.
pub trait Modelled: Operation {
    /// How the operation ends that starts at `self` in the world `w`.
    spec fn ends(self, w: World, result: Result<Self::Output, ArenaError>, end: World) -> bool;

    /// Whether the operation that started at `start` in the world `first` can
    /// stand at `self` in the world `w`.
    spec fn reached(self, start: Self, first: World, w: World) -> bool;

    /// A faithful reply leads on to where the operation can stand, or to its end.
    proof fn lemma_reached(self, start: Self, first: World, w: World, reply: Reply)
        requires
            self.wf(),
            self.reached(start, first, w),
            faithful(w, self.held(), self.pending(), reply),
        ensures
            match self.next(reply) {
                Progress::Pending(next) => next.reached(
                    start,
                    first,
                    world_after(w, self.pending(), reply),
                ),
                Progress::Done(result) => start.ends(
                    first,
                    result,
                    world_after(w, self.pending(), reply),
                ),
            },
    ;
}

/// A run with faithful replies that comes to its end ends as is known.
pub proof fn lemma_run_ends<O: Modelled>(
    op: O,
    start: O,
    first: World,
    w: World,
    replies: Seq<Reply>,
)
    requires
        op.wf(),
        op.reached(start, first, w),
        served(op, w, replies),
    ensures
        run(op, replies) matches Progress::Done(result) ==> start.ends(
            first,
            result,
            world_after_run(op, w, replies),
        ),
    decreases replies.len(),
{
    if replies.len() > 0 {
        op.lemma_step(replies[0]);
        op.lemma_reached(start, first, w, replies[0]);
        match op.next(replies[0]) {
            Progress::Pending(next) => {
                lemma_run_ends(
                    next,
                    start,
                    first,
                    world_after(w, op.pending(), replies[0]),
                    replies.drop_first(),
                );
            },
            Progress::Done(_) => {},
        }
    }
}

/// Whether an existing segment can be opened and mapped with its header.
pub open spec fn long_enough(file: File) -> bool {
    HEADER_SIZE <= file.len <= usize::MAX
}

/// Whether the segment is left over: it has no valid header, or the process that
/// its header names is dead.
pub open spec fn stale(file: File, living: Set<i32>) -> bool {
    ||| !long_enough(file)
    ||| file.header.magic != HEADER_MAGIC
    ||| match probe_target(file.header.spec_recorded_owner()) {
        Some(pid) => !living.contains(pid),
        None => true,
    }
}

/// The states of opening and mapping a segment that can be stood at in `w`.
pub open spec fn acquiring(acquire: Acquire, w: World) -> bool {
    match acquire {
        Acquire::Opening { .. } => true,
        Acquire::Measuring { .. } => w.segment is Some,
        Acquire::Mapping { total, .. } => {
            &&& w.segment matches Some(file)
            &&& long_enough(file)
            &&& total == file.len
        },
        Acquire::Failing { error, .. } => {
            &&& w.segment matches Some(file)
            &&& !long_enough(file)
            &&& error == ArenaError::BadMagic
        },
    }
}

/// Whether a mapping shows the segment of `w`.
pub open spec fn shows(mapping: Mapping, w: World) -> bool {
    &&& w.segment matches Some(file)
    &&& long_enough(file)
    &&& mapping.len == file.len
}

impl Modelled for MapAnonymous {
    open spec fn ends(self, w: World, result: Result<Mapping, ArenaError>, end: World) -> bool {
        &&& end == w
        &&& result matches Ok(mapping)
        &&& mapping.addr != 0
        &&& mapping.len == match self {
            MapAnonymous::Mapping { size } => size,
        }
        &&& mapping.writable
    }

    open spec fn reached(self, start: MapAnonymous, first: World, w: World) -> bool {
        &&& w == first
        &&& self == start
    }

    proof fn lemma_reached(self, start: MapAnonymous, first: World, w: World, reply: Reply) {
    }
}

impl Modelled for Attach {
    open spec fn ends(self, w: World, result: Result<Attached, ArenaError>, end: World) -> bool {
        &&& end == w
        &&& match w.segment {
            None => result == Err::<Attached, ArenaError>(ArenaError::NotFound),
            Some(file) => if !long_enough(file) {
                result == Err::<Attached, ArenaError>(ArenaError::BadMagic)
            } else {
                match file.header.spec_check() {
                    Ok(()) => {
                        &&& result matches Ok(attached)
                        &&& attached.mapping.len == file.len
                        &&& attached.mapping.addr != 0
                        &&& attached.mapping.writable == self.for_writing()
                        &&& attached.recorded_base == file.header.spec_recorded_base()
                    },
                    Err(error) => result == Err::<Attached, ArenaError>(error),
                }
            },
        }
    }

    open spec fn reached(self, start: Attach, first: World, w: World) -> bool {
        &&& w == first
        &&& self.for_writing() == start.for_writing()
        &&& match self {
            Attach::Acquiring(acquire) => acquiring(acquire, w),
            Attach::Closing { segment } => shows(segment.mapping(), w) && segment.addr != 0,
            Attach::Reading { mapping } => shows(mapping, w) && mapping.addr != 0,
            Attach::Rejecting { mapping, error } => shows(mapping, w)
                && w.segment->Some_0.header.spec_check() == Err::<(), ArenaError>(error),
        }
    }

    proof fn lemma_reached(self, start: Attach, first: World, w: World, reply: Reply) {
    }
}

impl Modelled for Observe {
    open spec fn ends(self, w: World, result: Result<Mapping, ArenaError>, end: World) -> bool {
        &&& end == w
        &&& match w.segment {
            None => result == Err::<Mapping, ArenaError>(ArenaError::NotFound),
            Some(file) => if !long_enough(file) {
                result == Err::<Mapping, ArenaError>(ArenaError::BadMagic)
            } else {
                match file.header.spec_check() {
                    Ok(()) => if w.base_taken {
                        result == Err::<Mapping, ArenaError>(ArenaError::BaseAddrUnavailable)
                    } else {
                        &&& result matches Ok(mapping)
                        &&& mapping.addr == file.header.spec_recorded_base()
                        &&& mapping.len == file.len
                        &&& !mapping.writable
                    },
                    Err(error) => result == Err::<Mapping, ArenaError>(error),
                }
            },
        }
    }

    open spec fn reached(self, start: Observe, first: World, w: World) -> bool {
        &&& w == first
        &&& match self {
            Observe::Acquiring(acquire) => acquiring(acquire, w),
            Observe::Reading { segment } => shows(segment.mapping(), w),
            Observe::Releasing { segment, header } => shows(segment.mapping(), w) && header
                == w.segment->Some_0.header,
            Observe::Refusing { error, .. } => {
                &&& w.segment matches Some(file)
                &&& long_enough(file)
                &&& match file.header.spec_check() {
                    Ok(()) => w.base_taken && error == ArenaError::BaseAddrUnavailable,
                    Err(reason) => error == reason,
                }
            },
            Observe::Fixing { total, want, .. } => {
                &&& w.segment matches Some(file)
                &&& long_enough(file)
                &&& total == file.len
                &&& file.header.spec_check() is Ok
                &&& want == file.header.spec_recorded_base()
            },
            Observe::Closing { mapping, want, .. } => {
                &&& shows(mapping, w)
                &&& w.segment->Some_0.header.spec_check() is Ok
                &&& want == w.segment->Some_0.header.spec_recorded_base()
                &&& mapping.addr == want
                &&& !mapping.writable
                &&& !w.base_taken
            },
            Observe::Withdrawing { .. } => false,
        }
    }

    proof fn lemma_reached(self, start: Observe, first: World, w: World, reply: Reply) {
    }
}

impl Modelled for Peek {
    open spec fn ends(self, w: World, result: Result<i64, ArenaError>, end: World) -> bool {
        &&& end == w
        &&& match w.segment {
            None => result == Err::<i64, ArenaError>(ArenaError::NotFound),
            Some(file) => if !long_enough(file) || file.header.magic != HEADER_MAGIC {
                result == Err::<i64, ArenaError>(ArenaError::BadMagic)
            } else {
                result == Ok::<i64, ArenaError>(file.header.spec_recorded_owner())
            },
        }
    }

    open spec fn reached(self, start: Peek, first: World, w: World) -> bool {
        &&& w == first
        &&& match self {
            Peek::Acquiring(acquire) => acquiring(acquire, w),
            Peek::Closing { segment } => shows(segment.mapping(), w),
            Peek::Reading { mapping } => shows(mapping, w),
            Peek::Releasing { mapping, header } => shows(mapping, w) && header
                == w.segment->Some_0.header,
        }
    }

    proof fn lemma_reached(self, start: Peek, first: World, w: World, reply: Reply) {
    }
}

impl Modelled for Staleness {
    open spec fn ends(self, w: World, result: Result<bool, ArenaError>, end: World) -> bool {
        &&& end == w
        &&& match w.segment {
            None => result == Err::<bool, ArenaError>(ArenaError::NotFound),
            Some(file) => result == Ok::<bool, ArenaError>(stale(file, w.living)),
        }
    }

    open spec fn reached(self, start: Staleness, first: World, w: World) -> bool {
        &&& w == first
        &&& match self {
            Staleness::Peeking(peek) => peek.reached(peek, first, w),
            Staleness::Probing { pid } => {
                &&& w.segment matches Some(file)
                &&& long_enough(file)
                &&& file.header.magic == HEADER_MAGIC
                &&& probe_target(file.header.spec_recorded_owner()) == Some(pid)
            },
        }
    }

    proof fn lemma_reached(self, start: Staleness, first: World, w: World, reply: Reply) {
        if let Staleness::Peeking(peek) = self {
            peek.lemma_reached(peek, first, w, reply);
        }
    }
}

impl Modelled for Cleanup {
    open spec fn ends(self, w: World, result: Result<bool, ArenaError>, end: World) -> bool {
        match w.segment {
            Some(file) if stale(file, w.living) && w.removable => {
                &&& result == Ok::<bool, ArenaError>(true)
                &&& end == with_segment(w, None)
            },
            _ => {
                &&& result == Ok::<bool, ArenaError>(false)
                &&& end == w
            },
        }
    }

    open spec fn reached(self, start: Cleanup, first: World, w: World) -> bool {
        &&& w == first
        &&& match self {
            Cleanup::Checking(check) => check.reached(check, first, w),
            Cleanup::Unlinking => w.segment matches Some(file) && stale(file, w.living),
        }
    }

    proof fn lemma_reached(self, start: Cleanup, first: World, w: World, reply: Reply) {
        if let Cleanup::Checking(check) = self {
            check.lemma_reached(check, first, w, reply);
        }
    }
}

/// Whether `result` and `end` are those of a segment with `size` bytes of data
/// made under a name that stood for nothing in `w`: a segment with a fresh
/// header and zeros for data, mapped; or a refusal where no segment can be so
/// long, with the name gone again where it can be removed.
pub open spec fn made(
    w: World,
    size: usize,
    result: Result<Mapping, ArenaError>,
    end: World,
) -> bool {
    let total = HEADER_SIZE + size;
    if total > greatest_length() {
        &&& result == Err::<Mapping, ArenaError>(too_long(size))
        &&& end == with_segment(
            w,
            if w.removable {
                None
            } else {
                Some(empty_file())
            },
        )
    } else {
        &&& result matches Ok(mapping)
        &&& mapping.addr != 0
        &&& mapping.len == total
        &&& mapping.writable
        &&& exists|stamp: Stamp| #[trigger]
            stamped(stamp, w) && end == with_segment(
                w,
                Some(
                    File {
                        len: total as i64,
                        header: SegmentHeader::spec_fresh(mapping.len, mapping.addr, stamp),
                        data: zeros(size as nat),
                    },
                ),
            )
    }
}

/// Whether the stamp is one of the process that makes the calls.
pub open spec fn stamped(stamp: Stamp, w: World) -> bool {
    stamp.pid == w.me
}

/// Whether the segment of `w` is as long as asked for and has zeros for data, and
/// `mapping` is one of it.
pub open spec fn prepared(mapping: Mapping, size: usize, w: World) -> bool {
    &&& HEADER_SIZE + size <= greatest_length()
    &&& sized(size, w)
    &&& mapping.addr != 0
    &&& mapping.len == HEADER_SIZE + size
    &&& mapping.writable
}

/// Whether the segment of `w` is as long as asked for and has zeros for data.
pub open spec fn sized(size: usize, w: World) -> bool {
    &&& w.segment matches Some(file)
    &&& file.len == HEADER_SIZE + size
    &&& file.data == zeros(size as nat)
}

/// The states of making a segment with `size` bytes of data that can be stood at
/// in `w`, where `first` differs only in what the name stands for.
pub open spec fn making(op: BuildFresh, size: usize, first: World, w: World) -> bool {
    let total = HEADER_SIZE + size;
    &&& w.segment is Some
    &&& w == with_segment(first, w.segment)
    &&& match op {
        BuildFresh::Resizing { total: t, .. } => {
            &&& t == total
            &&& total <= greatest_length()
            &&& w.segment == Some(empty_file())
        },
        BuildFresh::Mapping { total: t, .. } => {
            &&& t == total
            &&& total <= greatest_length()
            &&& sized(size, w)
        },
        BuildFresh::Closing { mapping, .. } => prepared(mapping, size, w),
        BuildFresh::Stamping { mapping } => prepared(mapping, size, w),
        BuildFresh::Writing { mapping, header } => {
            &&& prepared(mapping, size, w)
            &&& exists|stamp: Stamp| #[trigger]
                stamped(stamp, first) && header == SegmentHeader::spec_fresh(
                    mapping.len,
                    mapping.addr,
                    stamp,
                )
        },
        BuildFresh::Abandoning { error, .. } => {
            &&& error == too_long(size)
            &&& total > greatest_length()
            &&& w.segment == Some(empty_file())
        },
        BuildFresh::Erasing { error } => {
            &&& error == too_long(size)
            &&& total > greatest_length()
            &&& w.segment == Some(empty_file())
        },
    }
}

/// A faithful reply leads on in the making of a segment, or to its end.
proof fn lemma_making(op: BuildFresh, size: usize, first: World, w: World, reply: Reply)
    requires
        op.wf(),
        making(op, size, first, w),
        faithful(w, op.held(), op.pending(), reply),
    ensures
        match op.next(reply) {
            Progress::Pending(next) => making(
                next,
                size,
                first,
                world_after(w, op.pending(), reply),
            ),
            Progress::Done(result) => made(
                first,
                size,
                result,
                world_after(w, op.pending(), reply),
            ),
        },
{
    match (op, reply) {
        (BuildFresh::Stamping { mapping }, Reply::Stamp(stamp)) => {
            assert(stamped(stamp, first));
        },
        (BuildFresh::Resizing { total, .. }, Reply::Done) => {
            assert(resized(empty_file().data, total as i64) =~= zeros(size as nat));
        },
        _ => {},
    }
}

impl Modelled for Create {
    open spec fn ends(self, w: World, result: Result<Mapping, ArenaError>, end: World) -> bool {
        match self {
            Create::Opening { size } => if w.segment is Some {
                &&& result == Err::<Mapping, ArenaError>(ArenaError::AlreadyExists)
                &&& end == w
            } else {
                made(w, size, result, end)
            },
            Create::Building(_) => true,
        }
    }

    open spec fn reached(self, start: Create, first: World, w: World) -> bool {
        match (self, start) {
            (Create::Opening { size }, Create::Opening { size: asked }) => {
                &&& w == first
                &&& size == asked
            },
            (Create::Building(op), Create::Opening { size }) => {
                &&& first.segment is None
                &&& making(op, size, first, w)
            },
            _ => false,
        }
    }

    proof fn lemma_reached(self, start: Create, first: World, w: World, reply: Reply) {
        match (self, start) {
            (Create::Building(op), Create::Opening { size }) => {
                lemma_making(op, size, first, w, reply);
            },
            _ => {},
        }
    }
}

impl Modelled for Recover {
    open spec fn ends(self, w: World, result: Result<Mapping, ArenaError>, end: World) -> bool {
        match self {
            Recover::Opening { size, left } => match w.segment {
                None => made(w, size, result, end),
                Some(file) => if stale(file, w.living) && w.removable {
                    left > 0 ==> made(w, size, result, end)
                } else {
                    &&& result == Err::<Mapping, ArenaError>(ArenaError::AlreadyExists)
                    &&& end == w
                },
            },
            _ => true,
        }
    }

    open spec fn reached(self, start: Recover, first: World, w: World) -> bool {
        match (self, start) {
            (Recover::Opening { size, left }, Recover::Opening { size: asked, left: all }) => {
                &&& size == asked
                &&& {
                    ||| w == first && (left == all || !first.removable)
                    ||| {
                        &&& first.segment matches Some(file)
                        &&& stale(file, first.living)
                        &&& first.removable
                        &&& w == with_segment(first, None)
                    }
                }
            },
            (
                Recover::Checking { size, left, check },
                Recover::Opening { size: asked, left: all },
            ) => {
                &&& size == asked
                &&& left == all || !first.removable
                &&& w == first
                &&& w.segment is Some
                &&& check.reached(check, first, w)
            },
            (Recover::Unlinking { size, left }, Recover::Opening { size: asked, left: all }) => {
                &&& size == asked
                &&& left == all || !first.removable
                &&& w == first
                &&& w.segment matches Some(file)
                &&& stale(file, first.living)
            },
            (Recover::Building(op), Recover::Opening { size, .. }) => {
                &&& first.segment matches Some(file) ==> stale(file, first.living)
                    && first.removable
                &&& making(op, size, first, w)
            },
            _ => false,
        }
    }

    proof fn lemma_reached(self, start: Recover, first: World, w: World, reply: Reply) {
        match (self, start) {
            (Recover::Building(op), Recover::Opening { size, .. }) => {
                lemma_making(op, size, first, w, reply);
            },
            (Recover::Checking { check, .. }, _) => {
                check.lemma_reached(check, first, w, reply);
            },
            _ => {},
        }
    }
}

impl Modelled for Release {
    open spec fn ends(self, w: World, result: Result<(), ArenaError>, end: World) -> bool {
        &&& result == Ok::<(), ArenaError>(())
        &&& match self {
            Release::Unmapping { owner: false, .. } => end == w,
            _ => end == with_segment(
                w,
                if w.removable {
                    None
                } else {
                    w.segment
                },
            ),
        }
    }

    open spec fn reached(self, start: Release, first: World, w: World) -> bool {
        &&& w == first
        &&& self == start || (start matches Release::Unmapping { owner: true, .. } && self
            == Release::Unlinking)
    }

    proof fn lemma_reached(self, start: Release, first: World, w: World, reply: Reply) {
    }
}

} // verus!
