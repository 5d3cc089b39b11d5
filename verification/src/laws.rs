//! What the operations on named segments promise of each other.
//!
//! The laws speak of runs with faithful replies, as [`crate::model`] has them:
//! `replies` are those that an operation gets, in order, and a law holds however
//! far they reach; where they reach the end of the operation, it says how the
//! operation ends and what it leaves under the name. Where a law asks only for
//! replies that their calls can have, it holds whatever the system does.

use crate::acquire::Acquire;
use crate::anonymous::MapAnonymous;
use crate::arena::Arena;
use crate::attach::{Attach, Attached};
use crate::bump::law_granted_range_is_sound;
use crate::call::{consistent, law_operations_end, run, Mapping, Operation, Progress, Reply};
use crate::cleanup::Cleanup;
use crate::create::Create;
use crate::error::ArenaError;
use crate::fresh::greatest_length;
use crate::header::{HEADER_MAGIC, HEADER_SIZE, HEADER_VERSION, STATE_ACTIVE};
use crate::layout::Layout;
use crate::model::{
    lemma_run_ends, made, memory_after_run, memory_at, served, stale, with_segment,
    within, world_after, world_after_run, zeros, File, World,
};
use crate::observe::Observe;
use crate::recover::{Recover, ATTEMPTS};
use crate::release::Release;
use crate::stale::Staleness;
use vstd::prelude::*;

verus! {

/// The start of a mapping without a name.
pub open spec fn anonymous(size: usize) -> MapAnonymous {
    MapAnonymous::Mapping { size }
}

/// The start of a creation.
pub open spec fn creation(size: usize) -> Create {
    Create::Opening { size }
}

/// The start of a creation in place of a segment that is left over.
pub open spec fn recovery(size: usize) -> Recover {
    Recover::Opening { size, left: (ATTEMPTS - 1) as u32 }
}

/// The start of a cleanup.
pub open spec fn cleanup() -> Cleanup {
    Cleanup::Checking(Staleness::spec_begin())
}

/// The start of an attachment for reading and writing.
pub open spec fn attachment() -> Attach {
    Attach::Acquiring(Acquire::Opening { writable: true })
}

/// The start of an attachment for reading.
pub open spec fn observation() -> Observe {
    Observe::Acquiring(Acquire::Opening { writable: false })
}

/// Whether a segment with `size` bytes of data is not too long to exist.
pub open spec fn possible(size: usize) -> bool {
    0 < size && HEADER_SIZE + size <= greatest_length()
}

/// The same segment, in the world as a process finds it that may be another one
/// and come at another time.
pub open spec fn seen_by(
    w: World,
    me: u32,
    living: Set<i32>,
    base_taken: bool,
    removable: bool,
) -> World {
    World { segment: w.segment, living, me, base_taken, removable }
}

/// Faithful replies are such that an operation comes to its end within as many
/// calls as its rank says.
pub proof fn law_served_operations_end<O: Operation>(op: O, w: World, replies: Seq<Reply>)
    requires
        op.wf(),
        served(op, w, replies),
    ensures
        replies.len() >= op.rank() ==> run(op, replies) is Done,
{
    lemma_served_is_consistent(op, w, replies);
    law_operations_end(op, replies);
}

/// Faithful replies are replies to their calls.
proof fn lemma_served_is_consistent<O: Operation>(op: O, w: World, replies: Seq<Reply>)
    requires
        served(op, w, replies),
    ensures
        consistent(op, replies),
    decreases replies.len(),
{
    if replies.len() > 0 {
        match op.next(replies[0]) {
            Progress::Pending(next) => {
                lemma_served_is_consistent(
                    next,
                    world_after(w, op.pending(), replies[0]),
                    replies.drop_first(),
                );
            },
            Progress::Done(_) => {},
        }
    }
}

/// Memory without a name is mapped as long as asked for and writable, and what the
/// name of any segment stands for does not change.
pub proof fn law_new_anonymous(size: usize, w: World, replies: Seq<Reply>)
    requires
        size > 0,
        served(anonymous(size), w, replies),
    ensures
        run(anonymous(size), replies) matches Progress::Done(result) ==> {
            &&& result matches Ok(mapping)
            &&& mapping.addr != 0
            &&& mapping.len == size
            &&& mapping.writable
            &&& world_after_run(anonymous(size), w, replies) == w
        },
{
    lemma_run_ends(anonymous(size), anonymous(size), w, w, replies);
}

/// Memory that was just mapped without a name reads as zeros, as many as were
/// asked for; what the process had in other memory stays. Where the mapping
/// failed, all stays.
pub proof fn law_new_anonymous_memory_reads_zero(
    size: usize,
    memory: Map<int, u8>,
    replies: Seq<Reply>,
)
    requires
        size > 0,
        consistent(anonymous(size), replies),
    ensures
        ({
            let then = memory_after_run(anonymous(size), memory, replies);
            match run(anonymous(size), replies) {
                Progress::Done(Ok(mapping)) => {
                    &&& mapping.len == size
                    &&& memory_at(then, mapping.addr, size as nat) == zeros(size as nat)
                    &&& forall|x: int|
                        within(mapping.addr, size, x) ==> #[trigger] then.dom().contains(x)
                    &&& forall|x: int|
                        !within(mapping.addr, size, x) ==> (#[trigger] then.dom().contains(x)
                            <==> memory.dom().contains(x))
                    &&& forall|x: int|
                        !within(mapping.addr, size, x) && memory.dom().contains(x)
                            ==> #[trigger] then[x] == memory[x]
                },
                _ => then == memory,
            }
        }),
{
    if replies.len() > 0 {
        let then = memory_after_run(anonymous(size), memory, replies);
        if let Reply::Addr(addr) = replies[0] {
            assert(memory_at(then, addr, size as nat) =~= zeros(size as nat));
        }
    }
}

/// In an arena without a name every range reads as zeros when it is first granted:
/// where the memory from the cursor on is as it was mapped, whatever was written
/// before the cursor, an allocation that finds the cursor there gets zeros.
pub proof fn law_first_granted_range_reads_zero(
    size: usize,
    memory: Map<int, u8>,
    replies: Seq<Reply>,
    arena: Arena,
    now: Map<int, u8>,
    seen: usize,
    layout: Layout,
)
    requires
        size > 0,
        consistent(anonymous(size), replies),
        run(anonymous(size), replies) matches Progress::Done(Ok(mapping)) && arena.spec_mapping()
            == mapping,
        arena.wf(),
        arena.spec_name() is None,
        layout.wf(),
        forall|x: int|
            arena.spec_base_ptr() + seen <= x < arena.spec_base_ptr() + arena.spec_capacity()
                ==> #[trigger] now[x] == memory_after_run(anonymous(size), memory, replies)[x],
    ensures
        arena.spec_allocate_at(seen, layout) matches Ok(addr) ==> memory_at(
            now,
            addr,
            layout.size() as nat,
        ) == zeros(layout.size() as nat),
{
    law_new_anonymous_memory_reads_zero(size, memory, replies);
    law_granted_range_is_sound(arena.spec_base_ptr(), seen, arena.spec_capacity(), layout);
    if let Ok(addr) = arena.spec_allocate_at(seen, layout) {
        let mapped = memory_after_run(anonymous(size), memory, replies);
        let start = arena.spec_base_ptr();
        let range = memory_at(now, addr, layout.size() as nat);
        assert forall|i: int| 0 <= i < range.len() implies range[i] == 0 by {
            let at = addr + i - start;
            assert(now[start + at] == mapped[start + at]);
            assert(memory_at(mapped, start, size as nat)[at] == mapped[start + at]);
        }
        assert(range =~= zeros(layout.size() as nat));
    }
}

/// A creation makes a segment of the size asked for, with a fresh header of the
/// calling process, under a name that is free; it refuses a name that is in use,
/// whoever uses it, and a segment that would be too long.
pub proof fn law_create(size: usize, w: World, replies: Seq<Reply>)
    requires
        size > 0,
        served(creation(size), w, replies),
    ensures
        run(creation(size), replies) matches Progress::Done(result) ==> {
            let end = world_after_run(creation(size), w, replies);
            if w.segment is Some {
                &&& result == Err::<Mapping, ArenaError>(ArenaError::AlreadyExists)
                &&& end == w
            } else {
                made(w, size, result, end)
            }
        },
{
    lemma_run_ends(creation(size), creation(size), w, w, replies);
}

/// On a free name a creation succeeds wherever a segment can be so long: there is
/// then a segment of header and data, mapped as a whole for writing, whose header
/// names the calling process and the address of that mapping, with nothing allocated
/// and zeros for data.
pub proof fn law_creation_on_a_free_name(size: usize, w: World, replies: Seq<Reply>)
    requires
        size > 0,
        HEADER_SIZE + size <= usize::MAX,
        HEADER_SIZE + size <= libc::off_t::MAX,
        w.segment is None,
        served(creation(size), w, replies),
        run(creation(size), replies) is Done,
    ensures
        ({
            let end = world_after_run(creation(size), w, replies);
            &&& run(creation(size), replies)->Done_0 matches Ok(mapping)
            &&& mapping.addr != 0
            &&& mapping.len == HEADER_SIZE + size
            &&& mapping.writable
            &&& end.segment matches Some(file)
            &&& end == with_segment(w, Some(file))
            &&& file.len == HEADER_SIZE + size
            &&& file.data == zeros(size as nat)
            &&& file.header.magic == HEADER_MAGIC
            &&& file.header.version == HEADER_VERSION
            &&& file.header.total_size == HEADER_SIZE + size
            &&& file.header.base_addr == mapping.addr
            &&& file.header.owner_pid == w.me
            &&& file.header.used == 0
            &&& file.header.state == STATE_ACTIVE
        }),
{
    law_create(size, w, replies);
}

/// A creation in place of a segment that is left over ends as on a free name
/// where the name is free or its segment is left over and can be removed; where
/// the owner of the segment lives, or the name cannot be removed, it refuses and
/// changes nothing.
pub proof fn law_create_or_recover(size: usize, w: World, replies: Seq<Reply>)
    requires
        size > 0,
        served(recovery(size), w, replies),
    ensures
        run(recovery(size), replies) matches Progress::Done(result) ==> {
            let end = world_after_run(recovery(size), w, replies);
            match w.segment {
                Some(file) if !stale(file, w.living) || !w.removable => {
                    &&& result == Err::<Mapping, ArenaError>(ArenaError::AlreadyExists)
                    &&& end == w
                },
                _ => made(w, size, result, end),
            }
        },
{
    lemma_run_ends(recovery(size), recovery(size), w, w, replies);
}

/// A cleanup removes the segment if and only if it is left over and can be
/// removed, and says so.
pub proof fn law_cleanup(w: World, replies: Seq<Reply>)
    requires
        served(cleanup(), w, replies),
    ensures
        run(cleanup(), replies) matches Progress::Done(result) ==> {
            let end = world_after_run(cleanup(), w, replies);
            match w.segment {
                Some(file) if stale(file, w.living) && w.removable => {
                    &&& result == Ok::<bool, ArenaError>(true)
                    &&& end == with_segment(w, None)
                },
                _ => {
                    &&& result == Ok::<bool, ArenaError>(false)
                    &&& end == w
                },
            }
        },
{
    lemma_run_ends(cleanup(), cleanup(), w, w, replies);
}

/// An attachment maps the whole segment where its header is valid and hands on the
/// address that the header records, tells what is wrong with it where it is not, tells of a name that stands for nothing, and
/// changes nothing.
pub proof fn law_attach(w: World, replies: Seq<Reply>)
    requires
        served(attachment(), w, replies),
    ensures
        run(attachment(), replies) matches Progress::Done(result) ==> {
            &&& world_after_run(attachment(), w, replies) == w
            &&& match w.segment {
                None => result == Err::<Attached, ArenaError>(ArenaError::NotFound),
                Some(file) => if file.len < HEADER_SIZE || file.len > usize::MAX
                    || file.header.magic != HEADER_MAGIC {
                    result == Err::<Attached, ArenaError>(ArenaError::BadMagic)
                } else if file.header.version != HEADER_VERSION {
                    result == Err::<Attached, ArenaError>(
                        ArenaError::VersionMismatch {
                            segment: file.header.version,
                            expected: HEADER_VERSION,
                        },
                    )
                } else {
                    &&& result matches Ok(attached)
                    &&& attached.mapping.len == file.len
                    &&& attached.mapping.writable
                    &&& attached.mapping.addr != 0
                    &&& attached.recorded_base == if file.header.base_addr <= usize::MAX {
                        file.header.base_addr as usize
                    } else {
                        0
                    }
                },
            }
        },
{
    lemma_run_ends(attachment(), attachment(), w, w, replies);
}

/// An attachment for reading maps the whole segment at the address that its
/// header records, or tells that the address is taken; else it ends as an
/// attachment for writing does. It changes nothing.
pub proof fn law_attach_readonly(w: World, replies: Seq<Reply>)
    requires
        served(observation(), w, replies),
    ensures
        run(observation(), replies) matches Progress::Done(result) ==> {
            &&& world_after_run(observation(), w, replies) == w
            &&& match w.segment {
                None => result == Err::<Mapping, ArenaError>(ArenaError::NotFound),
                Some(file) => if file.len < HEADER_SIZE || file.len > usize::MAX
                    || file.header.magic != HEADER_MAGIC {
                    result == Err::<Mapping, ArenaError>(ArenaError::BadMagic)
                } else if file.header.version != HEADER_VERSION {
                    result == Err::<Mapping, ArenaError>(
                        ArenaError::VersionMismatch {
                            segment: file.header.version,
                            expected: HEADER_VERSION,
                        },
                    )
                } else if w.base_taken {
                    result == Err::<Mapping, ArenaError>(ArenaError::BaseAddrUnavailable)
                } else {
                    &&& result matches Ok(mapping)
                    &&& mapping.addr == if file.header.base_addr <= usize::MAX {
                        file.header.base_addr as usize
                    } else {
                        0
                    }
                    &&& mapping.len == file.len
                    &&& !mapping.writable
                },
            }
        },
{
    lemma_run_ends(observation(), observation(), w, w, replies);
}

/// When a handle goes, the name goes with it if and only if the handle owns it and
/// the name can be removed.
pub proof fn law_release(mapping: Mapping, owner: bool, w: World, replies: Seq<Reply>)
    requires
        served(Release::Unmapping { mapping, owner }, w, replies),
    ensures
        run(Release::Unmapping { mapping, owner }, replies) matches Progress::Done(result) ==> {
            &&& result is Ok
            &&& world_after_run(Release::Unmapping { mapping, owner }, w, replies) == if owner
                && w.removable {
                with_segment(w, None)
            } else {
                w
            }
        },
{
    let op = Release::Unmapping { mapping, owner };
    lemma_run_ends(op, op, w, w, replies);
}

/// What a creation made, an attachment finds: it maps as many bytes, so that the
/// arena has the same capacity, and learns the address of the creator's mapping.
pub proof fn law_attach_finds_what_create_made(
    size: usize,
    w: World,
    creating: Seq<Reply>,
    attaching: Seq<Reply>,
)
    requires
        possible(size),
        w.segment is None,
        served(creation(size), w, creating),
        run(creation(size), creating) is Done,
        served(attachment(), world_after_run(creation(size), w, creating), attaching),
        run(attachment(), attaching) is Done,
    ensures
        ({
            let created = run(creation(size), creating)->Done_0;
            let attached = run(attachment(), attaching)->Done_0;
            &&& created is Ok
            &&& attached is Ok
            &&& created->Ok_0.len == HEADER_SIZE + size
            &&& attached->Ok_0.mapping.len == created->Ok_0.len
            &&& attached->Ok_0.recorded_base == created->Ok_0.addr
            &&& created->Ok_0.addr != 0
        }),
{
    law_create(size, w, creating);
    law_attach(world_after_run(creation(size), w, creating), attaching);
}

/// A process that has the creator's address free sees the segment at that
/// address; one that has it taken is told so.
pub proof fn law_view_lies_at_the_base_of_the_creator(
    size: usize,
    w: World,
    creating: Seq<Reply>,
    me: u32,
    living: Set<i32>,
    base_taken: bool,
    removable: bool,
    observing: Seq<Reply>,
)
    requires
        possible(size),
        w.segment is None,
        served(creation(size), w, creating),
        run(creation(size), creating) is Done,
        served(
            observation(),
            seen_by(world_after_run(creation(size), w, creating), me, living, base_taken, removable),
            observing,
        ),
        run(observation(), observing) is Done,
    ensures
        ({
            let created = run(creation(size), creating)->Done_0;
            let observed = run(observation(), observing)->Done_0;
            &&& created is Ok
            &&& if base_taken {
                observed == Err::<Mapping, ArenaError>(ArenaError::BaseAddrUnavailable)
            } else {
                &&& observed is Ok
                &&& observed->Ok_0.addr == created->Ok_0.addr
                &&& observed->Ok_0.len == created->Ok_0.len
            }
        }),
{
    law_create(size, w, creating);
    law_attach_readonly(
        seen_by(world_after_run(creation(size), w, creating), me, living, base_taken, removable),
        observing,
    );
}

/// A name can be created once.
pub proof fn law_second_creation_is_refused(
    size: usize,
    w: World,
    creating: Seq<Reply>,
    again: usize,
    creating_again: Seq<Reply>,
)
    requires
        possible(size),
        again > 0,
        w.segment is None,
        served(creation(size), w, creating),
        run(creation(size), creating) is Done,
        served(creation(again), world_after_run(creation(size), w, creating), creating_again),
        run(creation(again), creating_again) is Done,
    ensures
        run(creation(again), creating_again)->Done_0 == Err::<Mapping, ArenaError>(
            ArenaError::AlreadyExists,
        ),
{
    law_create(size, w, creating);
    law_create(again, world_after_run(creation(size), w, creating), creating_again);
}

/// Whoever comes while the creator of a segment lives is refused the name and
/// cleans nothing up; whoever comes when it is dead and may remove the name gets a
/// fresh segment in its place, or the name cleaned up.
pub proof fn law_a_segment_lasts_as_long_as_its_creator(
    size: usize,
    w: World,
    creating: Seq<Reply>,
    me: u32,
    living: Set<i32>,
    base_taken: bool,
    removable: bool,
    again: usize,
    recovering: Seq<Reply>,
    cleaning: Seq<Reply>,
)
    requires
        possible(size),
        again > 0,
        w.segment is None,
        0 < w.me <= i32::MAX,
        served(creation(size), w, creating),
        run(creation(size), creating) is Done,
        served(
            recovery(again),
            seen_by(world_after_run(creation(size), w, creating), me, living, base_taken, removable),
            recovering,
        ),
        run(recovery(again), recovering) is Done,
        served(
            cleanup(),
            seen_by(world_after_run(creation(size), w, creating), me, living, base_taken, removable),
            cleaning,
        ),
        run(cleanup(), cleaning) is Done,
    ensures
        ({
            let before = seen_by(
                world_after_run(creation(size), w, creating),
                me,
                living,
                base_taken,
                removable,
            );
            let recovered = run(recovery(again), recovering)->Done_0;
            let then = world_after_run(recovery(again), before, recovering);
            let cleaned = run(cleanup(), cleaning)->Done_0;
            if living.contains(w.me as i32) || !removable {
                &&& recovered == Err::<Mapping, ArenaError>(ArenaError::AlreadyExists)
                &&& then == before
                &&& cleaned == Ok::<bool, ArenaError>(false)
                &&& world_after_run(cleanup(), before, cleaning) == before
            } else {
                &&& made(before, again, recovered, then)
                &&& cleaned == Ok::<bool, ArenaError>(true)
                &&& world_after_run(cleanup(), before, cleaning).segment is None
            }
        }),
{
    law_create(size, w, creating);
    let before = seen_by(world_after_run(creation(size), w, creating), me, living, base_taken, removable);
    law_create_or_recover(again, before, recovering);
    law_cleanup(before, cleaning);
}

/// A segment that was made is in use by its maker: its header names that
/// process, passes the check and has nothing allocated, and its data are zeros.
pub proof fn law_made_segment_is_fresh(
    w: World,
    size: usize,
    result: Result<Mapping, ArenaError>,
    end: World,
)
    requires
        possible(size),
        made(w, size, result, end),
    ensures
        result is Ok,
        end.segment is Some,
        ({
            let file = end.segment->Some_0;
            &&& file.header.used == 0
            &&& file.data == zeros(size as nat)
            &&& file.header.magic == HEADER_MAGIC
            &&& file.header.version == HEADER_VERSION
            &&& file.header.total_size == HEADER_SIZE + size
            &&& file.header.base_addr == result->Ok_0.addr
            &&& file.header.owner_pid == w.me
            &&& file.header.state == STATE_ACTIVE
            &&& result->Ok_0.len == HEADER_SIZE + size
            &&& result->Ok_0.writable
            &&& result->Ok_0.addr != 0
            &&& file.header.spec_check() is Ok
            &&& file.header.spec_recorded_owner() == w.me
            &&& file.header.spec_recorded_base() == result->Ok_0.addr
            &&& file.len == HEADER_SIZE + size
            &&& 0 < w.me <= i32::MAX ==> (stale(file, w.living) <==> !w.living.contains(
                w.me as i32,
            ))
        }),
{
}

/// A segment is left over exactly where it is too short for a header or longer than
/// the address space, where its header has another magic or names no number that a
/// process can have, or where the process that it names is dead. Nothing else that
/// the header holds makes a difference, the version, the cursor and the state
/// included.
pub proof fn law_left_over_means_nobody_owns_it(file: File, living: Set<i32>)
    ensures
        stale(file, living) <==> {
            ||| file.len < HEADER_SIZE
            ||| file.len > usize::MAX
            ||| file.header.magic != HEADER_MAGIC
            ||| file.header.owner_pid == 0
            ||| file.header.owner_pid > i32::MAX
            ||| !living.contains(file.header.owner_pid as i32)
        },
{
}

/// A cleanup removes a segment with a valid header exactly where the process that
/// the header names is dead and the name can be removed; while that process lives,
/// the segment stays as it is, and the answer says so.
pub proof fn law_cleanup_spares_what_the_living_own(w: World, cleaning: Seq<Reply>)
    requires
        w.segment matches Some(file) && {
            &&& HEADER_SIZE <= file.len <= usize::MAX
            &&& file.header.magic == HEADER_MAGIC
            &&& 0 < file.header.owner_pid <= i32::MAX
        },
        served(cleanup(), w, cleaning),
        run(cleanup(), cleaning) is Done,
    ensures
        ({
            let owner = w.segment->Some_0.header.owner_pid as i32;
            let gone = !w.living.contains(owner) && w.removable;
            &&& run(cleanup(), cleaning)->Done_0 == Ok::<bool, ArenaError>(gone)
            &&& world_after_run(cleanup(), w, cleaning).segment == if gone {
                None
            } else {
                w.segment
            }
        }),
{
    law_cleanup(w, cleaning);
}

/// A recovery takes the name of a segment with a valid header exactly where the
/// process that the header names is dead and the name can be removed; while that
/// process lives, it refuses and the segment stays as it is.
pub proof fn law_recovery_spares_what_the_living_own(
    size: usize,
    w: World,
    recovering: Seq<Reply>,
)
    requires
        possible(size),
        w.segment matches Some(file) && {
            &&& HEADER_SIZE <= file.len <= usize::MAX
            &&& file.header.magic == HEADER_MAGIC
            &&& 0 < file.header.owner_pid <= i32::MAX
        },
        served(recovery(size), w, recovering),
        run(recovery(size), recovering) is Done,
    ensures
        ({
            let owner = w.segment->Some_0.header.owner_pid as i32;
            let result = run(recovery(size), recovering)->Done_0;
            let end = world_after_run(recovery(size), w, recovering);
            if w.living.contains(owner) || !w.removable {
                &&& result == Err::<Mapping, ArenaError>(ArenaError::AlreadyExists)
                &&& end == w
            } else {
                &&& result matches Ok(mapping)
                &&& mapping.len == HEADER_SIZE + size
                &&& mapping.writable
                &&& end.segment matches Some(file)
                &&& file.len == HEADER_SIZE + size
                &&& file.header.owner_pid == w.me
                &&& file.header.base_addr == mapping.addr
                &&& file.header.used == 0
                &&& file.data == zeros(size as nat)
            }
        }),
{
    law_create_or_recover(size, w, recovering);
}

/// Whatever the system replies, a cleanup tells the truth: where it says that it
/// removed the segment, the name is free; where it says that it did not, where it
/// fails and while it is not over, the segment is as it was.
pub proof fn law_cleanup_tells_what_it_did(w: World, cleaning: Seq<Reply>)
    requires
        consistent(cleanup(), cleaning),
    ensures
        world_after_run(cleanup(), w, cleaning) == if run(cleanup(), cleaning) == Progress::<
            Cleanup,
            bool,
        >::Done(Ok(true)) {
            with_segment(w, None)
        } else {
            w
        },
{
    lemma_cleaning(cleanup(), w, cleaning);
}

/// No call of a cleanup changes anything but the last.
proof fn lemma_cleaning(op: Cleanup, w: World, replies: Seq<Reply>)
    requires
        consistent(op, replies),
    ensures
        world_after_run(op, w, replies) == if run(op, replies) == Progress::<Cleanup, bool>::Done(
            Ok(true),
        ) {
            with_segment(w, None)
        } else {
            w
        },
    decreases replies.len(),
{
    if replies.len() > 0 {
        if let Progress::Pending(next) = op.next(replies[0]) {
            lemma_cleaning(next, w, replies.drop_first());
        }
    }
}

/// What was cleaned up cannot be attached to.
pub proof fn law_cleaned_up_segment_is_not_found(
    w: World,
    cleaning: Seq<Reply>,
    attaching: Seq<Reply>,
)
    requires
        served(cleanup(), w, cleaning),
        run(cleanup(), cleaning) == Progress::<Cleanup, bool>::Done(Ok(true)),
        served(attachment(), world_after_run(cleanup(), w, cleaning), attaching),
        run(attachment(), attaching) is Done,
    ensures
        run(attachment(), attaching)->Done_0 == Err::<Attached, ArenaError>(ArenaError::NotFound),
{
    law_cleanup(w, cleaning);
    law_attach(world_after_run(cleanup(), w, cleaning), attaching);
}

/// What a creation made is gone when its handle, which owns the name, has gone
/// and could remove it: the name can be created again.
pub proof fn law_release_of_the_owner_frees_the_name(
    mapping: Mapping,
    w: World,
    releasing: Seq<Reply>,
    size: usize,
    creating: Seq<Reply>,
)
    requires
        possible(size),
        w.removable,
        served(Release::Unmapping { mapping, owner: true }, w, releasing),
        run(Release::Unmapping { mapping, owner: true }, releasing) is Done,
        served(
            creation(size),
            world_after_run(Release::Unmapping { mapping, owner: true }, w, releasing),
            creating,
        ),
        run(creation(size), creating) is Done,
    ensures
        run(creation(size), creating)->Done_0 is Ok,
{
    law_release(mapping, true, w, releasing);
    law_create(
        size,
        world_after_run(Release::Unmapping { mapping, owner: true }, w, releasing),
        creating,
    );
}

} // verus!
