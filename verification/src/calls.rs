//! Which calls the operations make, one after the other.
//!
//! `replies` are those that an operation has had so far, in order, and may be any
//! that their calls can have. The laws say which call comes next, with all that is
//! handed to the system.

use crate::anonymous::MapAnonymous;
use crate::arena::{Arena, Job};
use crate::attach::Attach;
use crate::call::{consistent, law_runs_go_on_where_they_stand, run, Call, Mapping, Operation, Progress, Reply};
use crate::cleanup::Cleanup;
use crate::create::Create;
use crate::errno::{EEXIST, ESRCH};
use crate::error::{ArenaError, OsError};
use crate::header::{nonce, Stamp, HEADER_MAGIC, HEADER_SIZE, HEADER_VERSION, STATE_ACTIVE};
use crate::laws::{anonymous, attachment, cleanup, creation, observation, recovery};
use crate::observe::Observe;
use crate::recover::Recover;
use crate::release::Release;
use crate::stale::Staleness;
use vstd::prelude::*;

verus! {

/// The call that comes after some replies, or `None` where the operation is over.
pub open spec fn asked<O: Operation>(op: O, replies: Seq<Reply>) -> Option<Call> {
    match run(op, replies) {
        Progress::Pending(last) => Some(last.pending()),
        Progress::Done(_) => None,
    }
}

/// Whether a segment has room for a header and the machine has such a length.
pub open spec fn usable(reply: Reply) -> bool {
    reply matches Reply::Length(size) && HEADER_SIZE <= size <= usize::MAX
}

/// The descriptor is the one that was opened, the length the measured one, and the
/// address the one that was mapped: what an operation on a segment that exists asks
/// for first, second, third and, where the mapping failed, fourth.
pub open spec fn opens_and_maps(replies: Seq<Reply>, writable: bool, call: Call) -> bool {
    let fd = replies[0]->Fd_0;
    if replies.len() == 0 {
        call == (Call::Open { create: false, exclusive: false, writable, mode: 0 })
    } else if replies.len() == 1 {
        call == (Call::Measure { fd })
    } else if !usable(replies[1]) {
        call == (Call::Close { fd })
    } else if replies.len() == 2 {
        call == (Call::Mmap {
            from: Some(fd),
            len: replies[1]->Length_0 as usize,
            writable,
            at: None,
        })
    } else {
        replies[2] is Failed ==> call == (Call::Close { fd })
    }
}

/// An attachment opens the segment for reading and writing, measures it, maps all of
/// it for reading and writing wherever the system puts it, closes the descriptor and
/// reads the header of the mapping; it gives the mapping back where it refuses.
pub proof fn law_attach_calls(replies: Seq<Reply>)
    requires
        consistent(attachment(), replies),
    ensures
        asked(attachment(), replies) matches Some(call) ==> {
            &&& opens_and_maps(replies, true, call)
            &&& replies.len() == 3 ==> call == (Call::Close { fd: replies[0]->Fd_0 })
            &&& replies.len() == 4 ==> call == (Call::ReadHeader { addr: replies[2]->Addr_0 })
            &&& replies.len() >= 5 ==> call == (Call::Munmap {
                addr: replies[2]->Addr_0,
                len: replies[1]->Length_0 as usize,
            })
            &&& replies.len() <= 5
        },
{
    reveal_with_fuel(run, 8);
    reveal_with_fuel(consistent, 8);
}

/// An attachment for reading opens the segment for reading, measures it, maps it for
/// reading, reads the header and gives the mapping back; then it maps all of the
/// segment for reading at the address that the header records, nowhere else, and
/// closes the descriptor. It asks for no writing at all.
pub proof fn law_attach_readonly_calls(replies: Seq<Reply>)
    requires
        consistent(observation(), replies),
    ensures
        asked(observation(), replies) matches Some(call) ==> {
            let fd = replies[0]->Fd_0;
            let len = replies[1]->Length_0 as usize;
            let header = replies[3]->Header_0;
            &&& opens_and_maps(replies, false, call)
            &&& replies.len() == 3 && replies[2] is Addr ==> call == (Call::ReadHeader {
                addr: replies[2]->Addr_0,
            })
            &&& replies.len() == 4 ==> call == (Call::Munmap { addr: replies[2]->Addr_0, len })
            &&& replies.len() == 5 ==> call == if header.magic == HEADER_MAGIC && header.version
                == HEADER_VERSION {
                Call::Mmap {
                    from: Some(fd),
                    len,
                    writable: false,
                    at: Some(
                        if header.base_addr <= usize::MAX {
                            header.base_addr as usize
                        } else {
                            0
                        },
                    ),
                }
            } else {
                Call::Close { fd }
            }
            &&& replies.len() == 6 ==> call == (Call::Close { fd })
            &&& replies.len() >= 7 ==> call == (Call::Munmap { addr: replies[5]->Addr_0, len })
            &&& replies.len() <= 7
        },
{
    reveal_with_fuel(run, 10);
    reveal_with_fuel(consistent, 10);
}

/// The question whether a segment is left over opens the segment, measures it, maps
/// it, closes the descriptor, reads the header and gives the mapping back; then it
/// probes the process that the header names, and that one only where the header has
/// the magic and the number is one that a process can have.
pub proof fn law_staleness_calls(replies: Seq<Reply>)
    requires
        consistent(Staleness::spec_begin(), replies),
    ensures
        asked(Staleness::spec_begin(), replies) matches Some(call) ==> {
            let header = replies[4]->Header_0;
            &&& opens_and_maps(replies, true, call)
            &&& replies.len() == 3 ==> call == (Call::Close { fd: replies[0]->Fd_0 })
            &&& replies.len() == 4 ==> call == (Call::ReadHeader { addr: replies[2]->Addr_0 })
            &&& replies.len() == 5 ==> call == (Call::Munmap {
                addr: replies[2]->Addr_0,
                len: replies[1]->Length_0 as usize,
            })
            &&& replies.len() >= 6 ==> {
                &&& header.magic == HEADER_MAGIC
                &&& 0 < header.owner_pid <= i32::MAX
                &&& call == (Call::Probe { pid: header.owner_pid as i32 })
            }
            &&& replies.len() <= 6
        },
        replies.len() == 6 && usable(replies[1]) && replies[2] is Addr && replies[0] is Fd && {
            &&& replies[4]->Header_0.magic == HEADER_MAGIC
            &&& 0 < replies[4]->Header_0.owner_pid <= i32::MAX
        } ==> asked(Staleness::spec_begin(), replies) is Some,
{
    reveal_with_fuel(run, 9);
    reveal_with_fuel(consistent, 9);
}

/// A cleanup makes the calls of the question whether the segment is left over, and
/// one more, to remove the name, exactly where the answer is that it is.
pub proof fn law_cleanup_calls(replies: Seq<Reply>)
    requires
        consistent(cleanup(), replies),
    ensures
        match run(Staleness::spec_begin(), replies) {
            Progress::Pending(_) => asked(cleanup(), replies) == asked(
                Staleness::spec_begin(),
                replies,
            ),
            Progress::Done(Ok(true)) => asked(cleanup(), replies) matches Some(call) ==> call
                == Call::Unlink,
            Progress::Done(_) => asked(cleanup(), replies) is None,
        },
{
    reveal_with_fuel(run, 10);
    reveal_with_fuel(consistent, 10);
}

/// Whatever the system replies, a cleanup asks for the name to be removed only on
/// evidence: the segment was measured to be too short for a header or too long for
/// the machine, its header has another magic or names no number that a process can
/// have, or the system says that the process that it names does not exist.
pub proof fn law_cleanup_removes_only_on_evidence(replies: Seq<Reply>)
    requires
        consistent(cleanup(), replies),
        asked(cleanup(), replies) == Some(Call::Unlink),
    ensures
        replies[0] is Fd,
        replies[1] is Length,
        ({
            ||| !usable(replies[1])
            ||| replies[4]->Header_0.magic != HEADER_MAGIC
            ||| replies[4]->Header_0.owner_pid == 0
            ||| replies[4]->Header_0.owner_pid > i32::MAX
            ||| replies[6] matches Reply::Failed(e) && e.code == ESRCH
        }),
{
    reveal_with_fuel(run, 10);
    reveal_with_fuel(consistent, 10);
}

/// Whether the header is a fresh one for a segment of `total` bytes at `addr`.
pub open spec fn writes_fresh_header(call: Call, addr: usize, total: int, stamp: Stamp) -> bool {
    &&& call matches Call::WriteHeader { addr: to, header }
    &&& to == addr
    &&& header.magic == HEADER_MAGIC
    &&& header.version == HEADER_VERSION
    &&& header.total_size == total
    &&& header.base_addr == addr
    &&& header.owner_pid == stamp.pid
    &&& header.boot_nonce == nonce(stamp)
    &&& header.used == 0
    &&& header.state == STATE_ACTIVE
}

/// A creation opens a new name for reading and writing, for its user alone, which
/// fails where the name exists; it gives the segment the length of header and data,
/// maps all of it for reading and writing, closes the descriptor, draws a stamp and
/// writes a fresh header to the start of the mapping. Where a step fails, or the
/// length is none, it closes the descriptor and removes the name.
pub proof fn law_create_calls(size: usize, replies: Seq<Reply>)
    requires
        size > 0,
        consistent(creation(size), replies),
    ensures
        asked(creation(size), replies) matches Some(call) ==> {
            let fd = replies[0]->Fd_0;
            let total = HEADER_SIZE + size;
            if replies.len() == 0 {
                call == (Call::Open {
                    create: true,
                    exclusive: true,
                    writable: true,
                    mode: 0o600,
                })
            } else if total > usize::MAX || total > libc::off_t::MAX {
                &&& replies.len() == 1 ==> call == (Call::Close { fd })
                &&& replies.len() >= 2 ==> call == Call::Unlink
                &&& replies.len() <= 2
            } else if replies.len() == 1 {
                call == (Call::Resize { fd, size: total as i64 })
            } else if replies[1] is Failed {
                &&& replies.len() == 2 ==> call == (Call::Close { fd })
                &&& replies.len() >= 3 ==> call == Call::Unlink
                &&& replies.len() <= 3
            } else if replies.len() == 2 {
                call == (Call::Mmap {
                    from: Some(fd),
                    len: total as usize,
                    writable: true,
                    at: None,
                })
            } else if replies.len() == 3 {
                call == (Call::Close { fd })
            } else if replies[2] is Failed {
                &&& call == Call::Unlink
                &&& replies.len() <= 4
            } else if replies.len() == 4 {
                call == Call::DrawStamp
            } else {
                &&& writes_fresh_header(call, replies[2]->Addr_0, total, replies[4]->Stamp_0)
                &&& replies.len() <= 5
            }
        },
{
    reveal_with_fuel(run, 8);
    reveal_with_fuel(consistent, 8);
}

/// A recovery starts with the call of a creation, and where that gives a descriptor
/// it goes on as the creation does.
pub proof fn law_recovery_creates_as_a_creation_does(
    size: usize,
    left: u32,
    replies: Seq<Reply>,
)
    requires
        size > 0,
        consistent(Recover::Opening { size, left }, replies),
    ensures
        replies.len() == 0 ==> asked(Recover::Opening { size, left }, replies) == Some(
            Call::Open { create: true, exclusive: true, writable: true, mode: 0o600 },
        ),
        replies.len() > 0 && replies[0] is Fd ==> {
            &&& asked(Recover::Opening { size, left }, replies) == asked(creation(size), replies)
            &&& run(creation(size), replies) matches Progress::Done(result) ==> run(
                Recover::Opening { size, left },
                replies,
            ) == Progress::<Recover, Mapping>::Done(result)
        },
{
    reveal_with_fuel(run, 8);
    reveal_with_fuel(consistent, 8);
}

/// A recovery that finds the name taken makes the calls of the question whether the
/// segment in the way is left over. Where the answer has come, it goes by it: where
/// the segment is left over, the name is to be removed, and whatever comes of that
/// the recovery starts again with one try less; where the segment has gone
/// meanwhile, it starts again at once; where no try is left, or the owner lives, it
/// ends with the refusal; any other failure of the question is its own.
pub proof fn law_recovery_judges_what_is_in_the_way(
    size: usize,
    left: u32,
    e: OsError,
    judging: Seq<Reply>,
    removing: Reply,
)
    requires
        size > 0,
        e.code == EEXIST,
        judging.len() > 0,
        run(Staleness::spec_begin(), judging.drop_last()) is Pending,
    ensures
        ({
            let start = Recover::Opening { size, left };
            let before = seq![Reply::Failed(e)] + judging.drop_last();
            let replies = seq![Reply::Failed(e)] + judging;
            let refused = Progress::<Recover, Mapping>::Done(Err(ArenaError::AlreadyExists));
            let again = if left == 0 {
                refused
            } else {
                Progress::<Recover, Mapping>::Pending(
                    Recover::Opening { size, left: (left - 1) as u32 },
                )
            };
            &&& asked(start, before) == asked(Staleness::spec_begin(), judging.drop_last())
            &&& match run(Staleness::spec_begin(), judging) {
                Progress::Pending(_) => asked(start, replies) == asked(
                    Staleness::spec_begin(),
                    judging,
                ),
                Progress::Done(Ok(true)) => {
                    &&& asked(start, replies) == Some(Call::Unlink)
                    &&& run(start, replies + seq![removing]) == again
                },
                Progress::Done(Ok(false)) => run(start, replies) == refused,
                Progress::Done(Err(ArenaError::NotFound)) => run(start, replies) == again,
                Progress::Done(Err(error)) => run(start, replies) == Progress::<
                    Recover,
                    Mapping,
                >::Done(Err(error)),
            }
        }),
{
    let start = Recover::Opening { size, left };
    let taken = seq![Reply::Failed(e)];
    let check = Staleness::spec_begin();
    reveal_with_fuel(run, 2);
    assert(run(start, taken) == Progress::<Recover, Mapping>::Pending(
        Recover::Checking { size, left, check },
    ));
    law_runs_go_on_where_they_stand(start, taken, judging);
    law_runs_go_on_where_they_stand(start, taken, judging.drop_last());
    law_runs_go_on_where_they_stand(start, taken + judging, seq![removing]);
    lemma_recovery_waits(size, left, check, judging.drop_last());
    let last = run(check, judging.drop_last())->Pending_0;
    let answer = seq![judging.last()];
    assert(judging.drop_last() + answer =~= judging);
    law_runs_go_on_where_they_stand(check, judging.drop_last(), answer);
    law_runs_go_on_where_they_stand(
        Recover::Checking { size, left, check },
        judging.drop_last(),
        answer,
    );
}

/// While a segment is judged, a recovery is where the question is.
proof fn lemma_recovery_waits(size: usize, left: u32, check: Staleness, judging: Seq<Reply>)
    requires
        run(check, judging) is Pending,
    ensures
        run(Recover::Checking { size, left, check }, judging) == Progress::<
            Recover,
            Mapping,
        >::Pending(
            Recover::Checking { size, left, check: run(check, judging)->Pending_0 },
        ),
    decreases judging.len(),
{
    if judging.len() > 0 {
        if let Progress::Pending(next) = check.next(judging[0]) {
            lemma_recovery_waits(size, left, next, judging.drop_first());
        }
    }
}

/// A handle that goes unmaps its own mapping, all of it, and, where it owns the
/// name, has the name removed after that; then it is over.
pub proof fn law_release_calls(mapping: Mapping, owner: bool, replies: Seq<Reply>)
    requires
        consistent(Release::Unmapping { mapping, owner }, replies),
    ensures
        asked(Release::Unmapping { mapping, owner }, replies) == if replies.len() == 0 {
            Some(Call::Munmap { addr: mapping.addr, len: mapping.len })
        } else if replies.len() == 1 && owner {
            Some(Call::Unlink)
        } else {
            None
        },
{
    reveal_with_fuel(run, 4);
}

/// Memory without a name takes one call: a shared mapping for reading and writing,
/// as long as asked for, wherever the system puts it. Its address is handed on, and
/// its failure.
pub proof fn law_new_anonymous_calls(size: usize, replies: Seq<Reply>)
    requires
        size > 0,
        consistent(anonymous(size), replies),
    ensures
        asked(anonymous(size), replies) == if replies.len() == 0 {
            Some(Call::Mmap { from: None, len: size, writable: true, at: None })
        } else {
            None
        },
        replies.len() > 0 ==> run(anonymous(size), replies) == Progress::<
            MapAnonymous,
            Mapping,
        >::Done(
            match replies[0] {
                Reply::Addr(addr) => Ok(Mapping { addr, len: size, writable: true }),
                reply => Err(ArenaError::Mmap(reply->Failed_0)),
            },
        ),
{
    reveal_with_fuel(run, 3);
}

/// Whether `r` is a refused start, or one of `first` under the name that was asked
/// for, behind one slash.
pub open spec fn starts_at<O>(r: Result<Job<O>, ArenaError>, name: Seq<char>, first: O) -> bool {
    if exists|i: int| 0 <= i < name.len() && #[trigger] name[i] == '\0' {
        r == Err::<Job<O>, ArenaError>(ArenaError::InvalidName)
    } else {
        &&& r matches Ok(job)
        &&& job.op == first
        &&& job.name@ == name || job.name@ == seq!['/'] + name
        &&& job.name@.len() > 0
        &&& job.name@[0] == '/'
        &&& name.len() > 0 && name[0] == '/' ==> job.name@ == name
    }
}

/// Each start leads to its own operation, with the size that was asked for, under
/// the name that was asked for. A size of zero is refused before the name is looked
/// at, and a name with a NUL character is refused.
pub proof fn law_starts_lead_to_their_operations(
    name: &str,
    size: usize,
    mapped: Result<MapAnonymous, ArenaError>,
    created: Result<Job<Create>, ArenaError>,
    recovered: Result<Job<Recover>, ArenaError>,
    cleaned: Result<Job<Cleanup>, ArenaError>,
    attached: Result<Job<Attach>, ArenaError>,
    observed: Result<Job<Observe>, ArenaError>,
)
    requires
        call_ensures(Arena::new_anonymous, (size,), mapped),
        call_ensures(Arena::create_named, (name, size), created),
        call_ensures(Arena::create_or_recover_named, (name, size), recovered),
        call_ensures(Arena::cleanup_if_stale, (name,), cleaned),
        call_ensures(Arena::attach_named, (name,), attached),
        call_ensures(Arena::attach_named_readonly, (name,), observed),
    ensures
        size == 0 ==> {
            &&& mapped == Err::<MapAnonymous, ArenaError>(ArenaError::ZeroSize)
            &&& created == Err::<Job<Create>, ArenaError>(ArenaError::ZeroSize)
            &&& recovered == Err::<Job<Recover>, ArenaError>(ArenaError::ZeroSize)
        },
        size > 0 ==> {
            &&& mapped == Ok::<MapAnonymous, ArenaError>(anonymous(size))
            &&& starts_at(created, name@, creation(size))
            &&& starts_at(recovered, name@, recovery(size))
        },
        starts_at(cleaned, name@, cleanup()),
        starts_at(attached, name@, attachment()),
        starts_at(observed, name@, observation()),
{
    assert(name@.contains('\0') <==> exists|i: int|
        0 <= i < name@.len() && #[trigger] name@[i] == '\0');
}

} // verus!
