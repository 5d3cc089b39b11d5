//! How the operations end, in terms of the replies that they get.
//!
//! Here the system may do whatever it likes, and fail at any call. `replies` are
//! those that an operation gets, in order; a reply that an operation does not get
//! to is not looked at.

use crate::acquire::{open_error, segment_length, OpenSegment};
use crate::attach::Attached;
use crate::call::{consistent, run, Mapping, Progress, Reply};
use crate::create::create_error;
use crate::error::ArenaError;
use crate::fresh::{greatest_length, too_long};
use crate::header::{HEADER_MAGIC, HEADER_SIZE};
use crate::laws::{attachment, cleanup, creation, observation};
use crate::observe::fixed_map_error;
use crate::recover::Recover;
use crate::stale::{probe_target, shows_death, Staleness};
use vstd::prelude::*;

verus! {

/// What comes of opening, measuring and mapping a segment: the first failure, or
/// the segment. The replies are those to `shm_open`, `fstat` and `mmap`.
pub open spec fn acquired(writable: bool, replies: Seq<Reply>) -> Result<OpenSegment, ArenaError> {
    match (replies[0], replies[1], replies[2]) {
        (Reply::Failed(e), _, _) => Err(open_error(e)),
        (_, Reply::Failed(e), _) => Err(ArenaError::ShmOpen(e)),
        (Reply::Fd(fd), Reply::Length(size), third) => if segment_length(size) < HEADER_SIZE {
            Err(ArenaError::BadMagic)
        } else {
            match third {
                Reply::Addr(addr) => Ok(
                    OpenSegment { fd, addr, total: segment_length(size), writable },
                ),
                Reply::Failed(e) => Err(ArenaError::Mmap(e)),
                _ => arbitrary(),
            }
        },
        _ => arbitrary(),
    }
}

/// What comes of an attachment. After the mapping the descriptor is closed, and
/// the fifth reply is the header.
pub open spec fn attached(replies: Seq<Reply>) -> Result<Attached, ArenaError> {
    match acquired(true, replies) {
        Err(error) => Err(error),
        Ok(segment) => match replies[4]->Header_0.spec_check() {
            Err(error) => Err(error),
            Ok(()) => Ok(
                Attached {
                    mapping: segment.mapping(),
                    recorded_base: replies[4]->Header_0.spec_recorded_base(),
                },
            ),
        },
    }
}

/// What comes of an attachment for reading. The fourth reply is the header, and
/// the sixth is to the mapping at the address that the header records.
pub open spec fn observed(replies: Seq<Reply>) -> Result<Mapping, ArenaError> {
    match acquired(false, replies) {
        Err(error) => Err(error),
        Ok(segment) => {
            let header = replies[3]->Header_0;
            match (header.spec_check(), replies[5]) {
                (Err(error), _) => Err(error),
                (Ok(()), Reply::Failed(e)) => Err(fixed_map_error(e)),
                (Ok(()), reply) => if reply->Addr_0 == header.spec_recorded_base() {
                    Ok(Mapping { addr: reply->Addr_0, len: segment.total, writable: false })
                } else {
                    Err(ArenaError::BaseAddrUnavailable)
                },
            }
        },
    }
}

/// What comes of the question whether a segment is left over. The fifth reply is
/// the header, and the seventh is to the probe of the owner.
pub open spec fn judged(replies: Seq<Reply>) -> Result<bool, ArenaError> {
    match acquired(true, replies) {
        Err(ArenaError::BadMagic) => Ok(true),
        Err(error) => Err(error),
        Ok(_) => {
            let header = replies[4]->Header_0;
            if header.magic != HEADER_MAGIC {
                Ok(true)
            } else {
                match (probe_target(header.spec_recorded_owner()), replies[6]) {
                    (None, _) => Ok(true),
                    (Some(_), Reply::Failed(e)) => Ok(shows_death(e)),
                    (Some(_), _) => Ok(false),
                }
            }
        },
    }
}

/// What comes of a creation: the first failure, or the mapping. The replies are
/// those to `shm_open`, `ftruncate` and `mmap`.
pub open spec fn created(size: usize, replies: Seq<Reply>) -> Result<Mapping, ArenaError> {
    match (replies[0], replies[1], replies[2]) {
        (Reply::Failed(e), _, _) => Err(create_error(e)),
        (_, second, third) => if HEADER_SIZE + size > greatest_length() {
            Err(too_long(size))
        } else {
            match (second, third) {
                (Reply::Failed(e), _) => Err(ArenaError::Ftruncate(e)),
                (_, Reply::Failed(e)) => Err(ArenaError::Mmap(e)),
                (_, reply) => Ok(
                    Mapping {
                        addr: reply->Addr_0,
                        len: (HEADER_SIZE + size) as usize,
                        writable: true,
                    },
                ),
            }
        },
    }
}

/// The replies after the first `n`.
pub open spec fn later(replies: Seq<Reply>, n: nat) -> Seq<Reply>
    decreases n,
{
    if n == 0 {
        replies
    } else {
        later(replies.drop_first(), (n - 1) as nat)
    }
}

/// How many calls the question takes whether a segment is left over. A descriptor
/// is closed and a mapping given back before the answer.
pub open spec fn judging_calls(replies: Seq<Reply>) -> nat {
    match (acquired(true, replies), replies[0], replies[1]) {
        (Err(_), Reply::Failed(_), _) => 1,
        (Err(_), _, Reply::Failed(_)) => 3,
        (Err(ArenaError::BadMagic), _, _) => 3,
        (Err(_), _, _) => 4,
        (Ok(_), _, _) => {
            let header = replies[4]->Header_0;
            if header.magic != HEADER_MAGIC || probe_target(header.spec_recorded_owner()) is None {
                6
            } else {
                7
            }
        },
    }
}

/// What comes of a cleanup: a segment that is left over is removed, and whether it
/// is gone by that is the reply to the last call; one that does not exist is no
/// error.
pub open spec fn cleaned(replies: Seq<Reply>) -> Result<bool, ArenaError> {
    match judged(replies) {
        Ok(true) => Ok(replies[judging_calls(replies) as int] is Done),
        Err(ArenaError::NotFound) => Ok(false),
        result => result,
    }
}

/// What comes of a creation in place of a segment that is left over, with `left`
/// tries after the first: where the name is taken, the segment in the way is
/// judged; where it is left over it is to be removed, and the creation is tried
/// again whether it was or not, as it is where the segment has gone meanwhile.
pub open spec fn recovered(size: usize, left: nat, replies: Seq<Reply>) -> Result<
    Mapping,
    ArenaError,
>
    decreases left,
{
    match replies[0] {
        Reply::Failed(e) if create_error(e) is AlreadyExists => {
            let check = replies.drop_first();
            let then = later(check, judging_calls(check));
            match judged(check) {
                Ok(false) => Err(ArenaError::AlreadyExists),
                Err(error) if !(error is NotFound) => Err(error),
                _ if left == 0 => Err(ArenaError::AlreadyExists),
                Ok(_) => recovered(size, (left - 1) as nat, then.drop_first()),
                Err(_) => recovered(size, (left - 1) as nat, then),
            }
        },
        _ => created(size, replies),
    }
}

/// An attachment ends as its replies say.
pub proof fn law_attach_outcome(replies: Seq<Reply>)
    requires
        consistent(attachment(), replies),
    ensures
        run(attachment(), replies) matches Progress::Done(result) ==> result == attached(replies),
{
    reveal_with_fuel(run, 8);
    reveal_with_fuel(consistent, 8);
}

/// An attachment for reading ends as its replies say.
pub proof fn law_attach_readonly_outcome(replies: Seq<Reply>)
    requires
        consistent(observation(), replies),
    ensures
        run(observation(), replies) matches Progress::Done(result) ==> result == observed(replies),
{
    reveal_with_fuel(run, 10);
    reveal_with_fuel(consistent, 10);
}

/// The question whether a segment is left over ends as its replies say.
pub proof fn law_staleness_outcome(replies: Seq<Reply>)
    requires
        consistent(Staleness::spec_begin(), replies),
    ensures
        run(Staleness::spec_begin(), replies) matches Progress::Done(result) ==> result == judged(
            replies,
        ),
{
    reveal_with_fuel(run, 9);
    reveal_with_fuel(consistent, 9);
}

/// A cleanup ends as its replies say. So it says that it removed the segment only
/// where `shm_unlink` was done.
pub proof fn law_cleanup_outcome(replies: Seq<Reply>)
    requires
        consistent(cleanup(), replies),
    ensures
        run(cleanup(), replies) matches Progress::Done(result) ==> result == cleaned(replies),
{
    reveal_with_fuel(run, 10);
    reveal_with_fuel(consistent, 10);
}

/// A creation ends as its replies say.
pub proof fn law_create_outcome(size: usize, replies: Seq<Reply>)
    requires
        size > 0,
        consistent(creation(size), replies),
    ensures
        run(creation(size), replies) matches Progress::Done(result) ==> result == created(
            size,
            replies,
        ),
{
    reveal_with_fuel(run, 8);
    reveal_with_fuel(consistent, 8);
}

/// A creation in place of a segment that is left over ends as its replies say.
pub proof fn law_create_or_recover_outcome(size: usize, left: u32, replies: Seq<Reply>)
    requires
        size > 0,
        consistent(Recover::Opening { size, left }, replies),
    ensures
        run(Recover::Opening { size, left }, replies) matches Progress::Done(result) ==> result
            == recovered(size, left as nat, replies),
    decreases left,
{
    reveal_with_fuel(run, 10);
    reveal_with_fuel(consistent, 10);
    reveal_with_fuel(later, 8);
    if left > 0 {
        let check = replies.drop_first();
        let then = later(check, judging_calls(check));
        let next = Recover::Opening { size, left: (left - 1) as u32 };
        if consistent(next, then) {
            law_create_or_recover_outcome(size, (left - 1) as u32, then);
        }
        if consistent(next, then.drop_first()) {
            law_create_or_recover_outcome(size, (left - 1) as u32, then.drop_first());
        }
    }
}

} // verus!
