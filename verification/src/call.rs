//! Calls to the operating system as values, and the operations that make them.
//!
//! An [`Operation`] decides which call comes next and what its reply means. Its
//! driver makes the call and hands the reply back, until the operation is done.
//! All calls of an operation on a named segment concern one name, which the
//! driver knows.

use crate::error::{ArenaError, OsError};
use crate::header::{SegmentHeader, Stamp, HEADER_SIZE};
use vstd::prelude::*;

verus! {

/// A call that an operation wants made.
#[derive(Clone, Copy, Debug, PartialEq, Eq)]
pub enum Call {
    /// `shm_open` on the name, with the flags `O_CREAT` and `O_EXCL` as said,
    /// `O_RDWR` where writable and `O_RDONLY` where not, and the mode.
    Open { create: bool, exclusive: bool, writable: bool, mode: u32 },
    /// `ftruncate`.
    Resize { fd: i32, size: i64 },
    /// `fstat`, for the size.
    Measure { fd: i32 },
    /// `mmap` of `len` bytes from offset zero, `MAP_SHARED`, with `PROT_READ`
    /// and, where writable, `PROT_WRITE`. Without a descriptor the mapping is
    /// `MAP_ANONYMOUS`; with an address it is `MAP_FIXED_NOREPLACE` there.
    Mmap { from: Option<i32>, len: usize, writable: bool, at: Option<usize> },
    /// A read of the header at the start of the mapping at `addr`.
    ReadHeader { addr: usize },
    /// The process, the clock and the next count of the process.
    DrawStamp,
    /// A write of the header to the start of the mapping at `addr`.
    WriteHeader { addr: usize, header: SegmentHeader },
    /// `close`.
    Close { fd: i32 },
    /// `munmap`.
    Munmap { addr: usize, len: usize },
    /// `shm_unlink` of the name.
    Unlink,
    /// `kill` with signal zero.
    Probe { pid: i32 },
}

/// What came back of a call.
#[derive(Clone, Copy, Debug, PartialEq, Eq)]
pub enum Reply {
    /// The descriptor that was opened.
    Fd(i32),
    /// The size that was measured.
    Length(i64),
    /// The address of the mapping.
    Addr(usize),
    /// The header that was read.
    Header(SegmentHeader),
    /// The stamp that was drawn.
    Stamp(Stamp),
    /// The call was made.
    Done,
    /// The call failed.
    Failed(OsError),
}

/// Whether a mapping of `len` bytes at `addr` ends within the address space.
pub open spec fn in_address_space(addr: usize, len: usize) -> bool {
    addr + len <= usize::MAX
}

/// Whether `reply` is one that `call` can have.
pub open spec fn answers(call: Call, reply: Reply) -> bool {
    match call {
        Call::Open { .. } => reply is Fd || reply is Failed,
        Call::Resize { .. } => reply is Done || reply is Failed,
        Call::Measure { .. } => reply is Length || reply is Failed,
        Call::Mmap { len, at, .. } => match reply {
            Reply::Addr(addr) => in_address_space(addr, len) && (addr == 0 ==> at == Some(0usize)),
            Reply::Failed(_) => true,
            _ => false,
        },
        Call::ReadHeader { .. } => reply is Header,
        Call::DrawStamp => reply is Stamp,
        Call::WriteHeader { .. } => reply is Done,
        Call::Close { .. } => reply is Done || reply is Failed,
        Call::Munmap { .. } => reply is Done || reply is Failed,
        Call::Unlink => reply is Done || reply is Failed,
        Call::Probe { .. } => reply is Done || reply is Failed,
    }
}

/// What a step of an operation leads to.
#[derive(Debug, PartialEq, Eq)]
pub enum Progress<O, T> {
    /// Another call is wanted.
    Pending(O),
    /// The operation is over.
    Done(Result<T, ArenaError>),
}

/// A mapping in the address space of the process.
#[derive(Clone, Copy, Debug, PartialEq, Eq)]
pub struct Mapping {
    pub addr: usize,
    pub len: usize,
    pub writable: bool,
}

impl Mapping {
    /// Whether the mapping has room for a header and ends within the address space.
    pub open spec fn holds_segment(&self) -> bool {
        &&& HEADER_SIZE <= self.len
        &&& in_address_space(self.addr, self.len)
    }
}

/// An open descriptor, with the access that it was opened with.
pub struct Descriptor {
    pub fd: i32,
    /// Whether it was opened for writing, and not for reading alone.
    pub writable: bool,
}

/// What an operation has acquired and not asked the system to take back. It asks
/// once: where `close`, `munmap` or `shm_unlink` fails, there is nothing more that
/// it could do, and it does not count the thing as its own any longer.
pub struct Held {
    /// An open descriptor.
    pub fd: Option<Descriptor>,
    /// A mapping.
    pub map: Option<Mapping>,
    /// A name that the operation has created.
    pub created: bool,
}

/// Holding nothing.
pub open spec fn nothing() -> Held {
    Held { fd: None, map: None, created: false }
}

/// What is held after `call` had `reply`.
pub open spec fn held_after(held: Held, call: Call, reply: Reply) -> Held {
    match (call, reply) {
        (Call::Open { create, writable, .. }, Reply::Fd(fd)) => Held {
            fd: Some(Descriptor { fd, writable }),
            created: held.created || create,
            ..held
        },
        (Call::Mmap { len, writable, .. }, Reply::Addr(addr)) => Held {
            map: Some(Mapping { addr, len, writable }),
            ..held
        },
        (Call::Close { .. }, _) => Held { fd: None, ..held },
        (Call::Munmap { .. }, _) => Held { map: None, ..held },
        (Call::Unlink, _) => Held { created: false, ..held },
        _ => held,
    }
}

/// Whether what is held is the descriptor `fd`, open for writing where that is
/// asked for.
pub open spec fn open_for(held: Held, fd: i32, writing: bool) -> bool {
    &&& held.fd matches Some(descriptor)
    &&& descriptor.fd == fd
    &&& writing ==> descriptor.writable
}

/// Whether `call` is made on what is held: it uses, closes and unmaps only
/// that, it sets the length of a segment and maps one for writing only where the
/// descriptor was opened for writing, it reads and writes a header only inside a
/// mapping that allows it, and it acquires nothing in place of something that it
/// would then lose.
pub open spec fn permitted(held: Held, call: Call) -> bool {
    match call {
        Call::Open { .. } => held.fd is None && !held.created,
        Call::Resize { fd, .. } => open_for(held, fd, true),
        Call::Measure { fd } => open_for(held, fd, false),
        Call::Mmap { from, writable, .. } => held.map is None && match from {
            Some(fd) => open_for(held, fd, writable),
            None => held.fd is None,
        },
        Call::ReadHeader { addr } => {
            &&& held.map matches Some(map)
            &&& map.addr == addr
            &&& map.len >= HEADER_SIZE
        },
        Call::WriteHeader { addr, .. } => {
            &&& held.map matches Some(map)
            &&& map.addr == addr
            &&& map.len >= HEADER_SIZE
            &&& map.writable
        },
        Call::Close { fd } => open_for(held, fd, false),
        Call::Munmap { addr, len } => {
            &&& held.map matches Some(map)
            &&& map.addr == addr
            &&& map.len == len
        },
        Call::DrawStamp => true,
        Call::Unlink => true,
        Call::Probe { .. } => true,
    }
}

/// A sequence of decisions, each taken on the reply to the call before it.
pub trait Operation: Sized {
    /// What the operation yields in the end.
    type Output;

    /// What every state of the operation satisfies.
    spec fn wf(&self) -> bool;

    /// The call that the operation waits for.
    spec fn pending(&self) -> Call;

    /// What `reply` to that call leads to.
    spec fn next(self, reply: Reply) -> Progress<Self, Self::Output>;

    /// What the operation holds while it waits.
    spec fn held(&self) -> Held;

    /// What the caller holds with the result.
    spec fn kept(output: Self::Output) -> Held;

    /// A bound on the calls that are still to come.
    spec fn rank(&self) -> nat;

    /// The call that the operation waits for.
    fn call(&self) -> (call: Call)
        ensures
            call == self.pending(),
    ;

    /// Takes the reply to that call.
    fn step(self, reply: Reply) -> (progress: Progress<Self, Self::Output>)
        requires
            self.wf(),
            answers(self.pending(), reply),
        ensures
            progress == self.next(reply),
            progress matches Progress::Pending(op) ==> op.wf(),
    ;

    /// A step makes its call on what is held, accounts for all that it acquires
    /// and gives back, and comes closer to the end.
    proof fn lemma_step(self, reply: Reply)
        requires
            self.wf(),
            answers(self.pending(), reply),
        ensures
            permitted(self.held(), self.pending()),
            self.rank() > 0,
            match self.next(reply) {
                Progress::Pending(op) => {
                    &&& op.wf()
                    &&& op.held() == held_after(self.held(), self.pending(), reply)
                    &&& op.rank() < self.rank()
                },
                Progress::Done(Ok(output)) => Self::kept(output) == held_after(
                    self.held(),
                    self.pending(),
                    reply,
                ),
                Progress::Done(Err(_)) => nothing() == held_after(
                    self.held(),
                    self.pending(),
                    reply,
                ),
            },
    ;
}

/// Where an operation stands after a sequence of replies. Replies after its end
/// are not looked at.
pub open spec fn run<O: Operation>(op: O, replies: Seq<Reply>) -> Progress<O, O::Output>
    decreases replies.len(),
{
    if replies.len() == 0 {
        Progress::Pending(op)
    } else {
        match op.next(replies[0]) {
            Progress::Pending(next) => run(next, replies.drop_first()),
            Progress::Done(result) => Progress::Done(result),
        }
    }
}

/// Whether every reply that is looked at is one that its call can have.
pub open spec fn consistent<O: Operation>(op: O, replies: Seq<Reply>) -> bool
    decreases replies.len(),
{
    replies.len() > 0 ==> {
        &&& answers(op.pending(), replies[0])
        &&& op.next(replies[0]) matches Progress::Pending(next) ==> consistent(
            next,
            replies.drop_first(),
        )
    }
}

/// What is held after the calls of a run.
pub open spec fn held_after_run<O: Operation>(held: Held, op: O, replies: Seq<Reply>) -> Held
    decreases replies.len(),
{
    if replies.len() == 0 {
        held
    } else {
        let then = held_after(held, op.pending(), replies[0]);
        match op.next(replies[0]) {
            Progress::Pending(next) => held_after_run(then, next, replies.drop_first()),
            Progress::Done(_) => then,
        }
    }
}

/// Whether every call of a run is made on what is held at that point.
pub open spec fn permitted_run<O: Operation>(held: Held, op: O, replies: Seq<Reply>) -> bool
    decreases replies.len(),
{
    &&& permitted(held, op.pending())
    &&& replies.len() > 0 ==> {
        op.next(replies[0]) matches Progress::Pending(next) ==> permitted_run(
            held_after(held, op.pending(), replies[0]),
            next,
            replies.drop_first(),
        )
    }
}

/// Whatever the operating system replies: an operation makes each of its calls
/// on what it holds; once it fails it holds nothing, neither descriptor nor
/// mapping nor a name that it created, since it has asked for each to be taken
/// back; and with its result the caller holds exactly what the result stands for.
/// Whether the system takes back what it is asked to is the system's to answer
/// for: an operation asks once, and goes on whatever the answer.
pub proof fn law_nothing_leaks<O: Operation>(op: O, replies: Seq<Reply>)
    requires
        op.wf(),
        consistent(op, replies),
    ensures
        permitted_run(op.held(), op, replies),
        match run(op, replies) {
            Progress::Pending(last) => {
                &&& last.wf()
                &&& last.held() == held_after_run(op.held(), op, replies)
            },
            Progress::Done(Ok(output)) => O::kept(output) == held_after_run(
                op.held(),
                op,
                replies,
            ),
            Progress::Done(Err(_)) => nothing() == held_after_run(op.held(), op, replies),
        },
    decreases replies.len(),
{
    if replies.len() > 0 {
        op.lemma_step(replies[0]);
        match op.next(replies[0]) {
            Progress::Pending(next) => {
                law_nothing_leaks(next, replies.drop_first());
            },
            Progress::Done(_) => {},
        }
    } else {
        lemma_waiting(op);
    }
}

/// The call that a well-formed operation waits for is made on what it holds, and
/// counts.
proof fn lemma_waiting<O: Operation>(op: O)
    requires
        op.wf(),
    ensures
        permitted(op.held(), op.pending()),
        op.rank() > 0,
{
    let reply = match op.pending() {
        Call::Open { .. } => Reply::Fd(0),
        Call::Measure { .. } => Reply::Length(0),
        Call::Mmap { .. } => Reply::Failed(OsError { code: 0 }),
        Call::ReadHeader { .. } => Reply::Header(
            SegmentHeader {
                magic: 0,
                version: 0,
                total_size: 0,
                base_addr: 0,
                owner_pid: 0,
                boot_nonce: 0,
                used: 0,
                state: 0,
            },
        ),
        Call::DrawStamp => Reply::Stamp(Stamp { pid: 0, clock: None, count: 0 }),
        _ => Reply::Done,
    };
    op.lemma_step(reply);
}

/// Whatever the operating system replies, an operation is over after as many
/// calls as its rank says, or fewer.
pub proof fn law_operations_end<O: Operation>(op: O, replies: Seq<Reply>)
    requires
        op.wf(),
        consistent(op, replies),
    ensures
        replies.len() >= op.rank() ==> run(op, replies) is Done,
    decreases replies.len(),
{
    if replies.len() > 0 {
        op.lemma_step(replies[0]);
        match op.next(replies[0]) {
            Progress::Pending(next) => {
                law_operations_end(next, replies.drop_first());
            },
            Progress::Done(_) => {},
        }
    } else {
        lemma_waiting(op);
    }
}

/// Replies that come in two parts lead where the second part leads from where the
/// first has led.
pub proof fn law_runs_go_on_where_they_stand<O: Operation>(
    op: O,
    first: Seq<Reply>,
    second: Seq<Reply>,
)
    ensures
        run(op, first + second) == match run(op, first) {
            Progress::Pending(last) => run(last, second),
            Progress::Done(result) => Progress::Done(result),
        },
    decreases first.len(),
{
    if first.len() == 0 {
        assert(first + second =~= second);
    } else {
        assert((first + second).drop_first() =~= first.drop_first() + second);
        if let Progress::Pending(next) = op.next(first[0]) {
            law_runs_go_on_where_they_stand(next, first.drop_first(), second);
        }
    }
}

} // verus!
