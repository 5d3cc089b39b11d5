//! What the handles of one segment have in common: its bytes.

use crate::arena::{Arena, ArenaView};
use crate::attach::Attach;
use crate::bump::law_granted_range_is_sound;
use crate::call::{consistent, run, Mapping, Operation, Progress, Reply};
use crate::encoding::{decoded, encoded, law_decoding_reads_what_encoding_wrote, ByteOrder};
use crate::error::ArenaError;
use crate::header::{SegmentHeader, HEADER_SIZE};
use crate::layout::Layout;
use crate::laws::{
    attachment, cleanup, creation, law_attach, law_attach_readonly,
    law_cleanup_spares_what_the_living_own, law_create, law_made_segment_is_fresh,
    law_recovery_spares_what_the_living_own, observation, possible, recovery,
};
use crate::mapped::{
    besides, law_other_mappings_stay, places_after_run, replaces_nothing, with_held, Place,
};
use crate::model::{long_enough, served, with_segment, world_after_run, File, World};
use crate::observe::Observe;
use crate::release::Release;
use vstd::prelude::*;

verus! {

/// The bytes of a segment on a machine of some byte order: its header, then its
/// data.
pub open spec fn segment_bytes(order: ByteOrder, file: File) -> Seq<u8> {
    encoded(order, file.header) + file.data
}

/// The byte at `addr` as it is read through a mapping of the segment of `w`.
pub open spec fn byte_at(order: ByteOrder, w: World, mapping: Mapping, addr: int) -> u8 {
    segment_bytes(order, w.segment->Some_0)[addr - mapping.addr]
}

/// The world after `value` was written to the data at `addr` through a mapping of
/// its segment.
pub open spec fn stored(w: World, mapping: Mapping, addr: int, value: u8) -> World {
    match w.segment {
        Some(file) => with_segment(
            w,
            Some(
                File {
                    data: file.data.update(addr - mapping.addr - HEADER_SIZE, value),
                    ..file
                },
            ),
        ),
        None => w,
    }
}

/// The cursor as it is read in the header at the start of a mapping.
pub open spec fn cursor_at_header(order: ByteOrder, w: World, mapping: Mapping) -> usize {
    decoded(
        order,
        Seq::new(HEADER_SIZE as nat, |i: int| byte_at(order, w, mapping, mapping.addr + i)),
    ).used
}

/// Whether `now` has the segment of `made` after some use of it: its data and its
/// cursor may have changed, and the state, but nothing else of it. The process may
/// be another one.
pub open spec fn in_use(made: World, now: World) -> bool {
    &&& made.segment matches Some(before)
    &&& now.segment matches Some(file)
    &&& file.len == before.len
    &&& file.data.len() == before.data.len()
    &&& file.header == SegmentHeader {
        used: file.header.used,
        state: file.header.state,
        ..before.header
    }
}

/// Whether a segment of `size` bytes of data is created in the world `w`, where the
/// name is free, and the creation is over.
pub open spec fn creates(size: usize, w: World, creating: Seq<Reply>) -> bool {
    &&& possible(size)
    &&& w.segment is None
    &&& served(creation(size), w, creating)
    &&& run(creation(size), creating) is Done
}

/// Whether that segment is attached to in the world `now`, and the attachment is
/// over.
pub open spec fn attaches(
    size: usize,
    w: World,
    creating: Seq<Reply>,
    now: World,
    attaching: Seq<Reply>,
) -> bool {
    &&& creates(size, w, creating)
    &&& in_use(world_after_run(creation(size), w, creating), now)
    &&& served(attachment(), now, attaching)
    &&& run(attachment(), attaching) is Done
}

/// The mapping of the creation that is over.
pub open spec fn creator_mapping(size: usize, creating: Seq<Reply>) -> Mapping {
    run(creation(size), creating)->Done_0->Ok_0
}

/// Whether `owner` is the handle of the creation.
pub open spec fn is_owner(owner: Arena, size: usize, creating: Seq<Reply>) -> bool {
    &&& owner.wf()
    &&& owner.spec_owner()
    &&& owner.spec_mapping() == creator_mapping(size, creating)
}

/// Whether `attached` is the handle of the attachment.
pub open spec fn is_attached(attached: Arena, attaching: Seq<Reply>) -> bool {
    let output = run(attachment(), attaching)->Done_0->Ok_0;
    &&& attached.wf()
    &&& attached.spec_name() is Some
    &&& !attached.spec_owner()
    &&& attached.spec_mapping() == output.mapping
    &&& attached.spec_recorded_base() == output.recorded_base
}

/// Both operations succeed, on the same bytes.
proof fn lemma_attached(
    size: usize,
    w: World,
    creating: Seq<Reply>,
    now: World,
    attaching: Seq<Reply>,
)
    requires
        attaches(size, w, creating, now, attaching),
    ensures
        run(creation(size), creating)->Done_0 is Ok,
        run(attachment(), attaching)->Done_0 is Ok,
        ({
            let created = creator_mapping(size, creating);
            let attached = run(attachment(), attaching)->Done_0->Ok_0;
            &&& created.addr != 0
            &&& created.len == HEADER_SIZE + size
            &&& attached.mapping.len == created.len
            &&& attached.recorded_base == created.addr
            &&& now.segment->Some_0.data.len() == size
            &&& world_after_run(attachment(), now, attaching) == now
        }),
{
    law_create(size, w, creating);
    law_attach(now, attaching);
}

/// A creator and whoever attaches to its segment, in this process or another and
/// after any use of the segment, agree on it: both handles have the capacity that
/// it was created with and the same length, they give the same fixed base, which is
/// where the creator has the segment mapped and is not zero, and the cursor that
/// each reads at its own mapping is the one of the segment.
pub proof fn law_owner_and_attached_agree(
    order: ByteOrder,
    size: usize,
    w: World,
    creating: Seq<Reply>,
    now: World,
    attaching: Seq<Reply>,
    owner: Arena,
    attached: Arena,
)
    requires
        attaches(size, w, creating, now, attaching),
        is_owner(owner, size, creating),
        is_attached(attached, attaching),
    ensures
        run(creation(size), creating)->Done_0 is Ok,
        run(attachment(), attaching)->Done_0 is Ok,
        owner.spec_capacity() == size,
        attached.spec_capacity() == size,
        owner.spec_mapping().len == attached.spec_mapping().len,
        owner.spec_recorded_base() == attached.spec_recorded_base(),
        owner.spec_recorded_base() == owner.spec_base_ptr() - HEADER_SIZE,
        owner.spec_recorded_base() != 0,
        cursor_at_header(order, now, owner.spec_mapping()) == now.segment->Some_0.header.used,
        cursor_at_header(order, now, attached.spec_mapping()) == now.segment->Some_0.header.used,
{
    lemma_attached(size, w, creating, now, attaching);
    lemma_cursor_at_header(order, now, owner.spec_mapping());
    lemma_cursor_at_header(order, now, attached.spec_mapping());
}

/// Every mapping of a segment has the cursor of its header.
proof fn lemma_cursor_at_header(order: ByteOrder, w: World, mapping: Mapping)
    requires
        w.segment is Some,
    ensures
        cursor_at_header(order, w, mapping) == w.segment->Some_0.header.used,
{
    let file = w.segment->Some_0;
    law_decoding_reads_what_encoding_wrote(order, file.header);
    assert(Seq::new(HEADER_SIZE as nat, |i: int| byte_at(order, w, mapping, mapping.addr + i))
        =~= encoded(order, file.header));
}

/// A creator and whoever attaches to its segment have one data area: what is
/// written `i` bytes into the data of one of them is read `i` bytes into the data
/// of the other.
pub proof fn law_handles_share_the_data(
    order: ByteOrder,
    size: usize,
    w: World,
    creating: Seq<Reply>,
    now: World,
    attaching: Seq<Reply>,
    owner: Arena,
    attached: Arena,
    i: int,
    value: u8,
)
    requires
        attaches(size, w, creating, now, attaching),
        is_owner(owner, size, creating),
        is_attached(attached, attaching),
        0 <= i < size,
    ensures
        ({
            let here = owner.spec_mapping();
            let there = attached.spec_mapping();
            let p = owner.spec_base_ptr() + i;
            let q = attached.spec_base_ptr() + i;
            &&& byte_at(order, now, here, p) == byte_at(order, now, there, q)
            &&& byte_at(order, stored(now, here, p, value), there, q) == value
            &&& byte_at(order, stored(now, there, q, value), here, p) == value
        }),
{
    lemma_attached(size, w, creating, now, attaching);
    law_decoding_reads_what_encoding_wrote(order, now.segment->Some_0.header);
}

/// A process that attaches for reading sees the creator's bytes at the creator's
/// addresses, header and data: the byte at any address of the view is the byte that
/// the creator has there, and what the creator writes is read at the same address.
pub proof fn law_view_reads_the_bytes_of_the_creator(
    order: ByteOrder,
    size: usize,
    w: World,
    creating: Seq<Reply>,
    now: World,
    observing: Seq<Reply>,
    owner: Arena,
    view: ArenaView,
)
    requires
        creates(size, w, creating),
        in_use(world_after_run(creation(size), w, creating), now),
        !now.base_taken,
        served(observation(), now, observing),
        run(observation(), observing) is Done,
        is_owner(owner, size, creating),
        view.wf(),
        view.spec_mapping() == run(observation(), observing)->Done_0->Ok_0,
    ensures
        run(observation(), observing)->Done_0 is Ok,
        world_after_run(observation(), now, observing) == now,
        view.spec_base_ptr() == owner.spec_base_ptr(),
        view.spec_capacity() == size,
        view.spec_mapping().addr == owner.spec_recorded_base(),
        ({
            let base = owner.spec_recorded_base();
            let here = owner.spec_mapping();
            let there = view.spec_mapping();
            &&& forall|x: int|
                base <= x < base + here.len ==> #[trigger] byte_at(order, now, there, x) == byte_at(
                    order,
                    now,
                    here,
                    x,
                )
            &&& forall|x: int, value: u8|
                owner.spec_base_ptr() <= x < owner.spec_base_ptr() + size ==> #[trigger] byte_at(
                    order,
                    stored(now, here, x, value),
                    there,
                    x,
                ) == value
        }),
{
    law_create(size, w, creating);
    law_attach_readonly(now, observing);
    law_decoding_reads_what_encoding_wrote(order, now.segment->Some_0.header);
}

/// In a named arena, too, every range reads as zeros when it is first granted: where
/// the data from the cursor on is as it was created, whatever was written before
/// the cursor, an allocation that finds the cursor there gets zeros.
pub proof fn law_first_granted_range_of_a_segment_reads_zero(
    order: ByteOrder,
    size: usize,
    w: World,
    creating: Seq<Reply>,
    now: World,
    owner: Arena,
    seen: usize,
    layout: Layout,
)
    requires
        creates(size, w, creating),
        in_use(world_after_run(creation(size), w, creating), now),
        is_owner(owner, size, creating),
        layout.wf(),
        forall|i: int|
            seen <= i < size ==> #[trigger] now.segment->Some_0.data[i] == world_after_run(
                creation(size),
                w,
                creating,
            ).segment->Some_0.data[i],
    ensures
        owner.spec_allocate_at(seen, layout) matches Ok(addr) ==> forall|x: int|
            addr <= x < addr + layout.size() ==> #[trigger] byte_at(
                order,
                now,
                owner.spec_mapping(),
                x,
            ) == 0,
{
    law_create(size, w, creating);
    law_granted_range_is_sound(owner.spec_base_ptr(), seen, owner.spec_capacity(), layout);
    law_decoding_reads_what_encoding_wrote(order, now.segment->Some_0.header);
    if let Ok(addr) = owner.spec_allocate_at(seen, layout) {
        assert forall|x: int| addr <= x < addr + layout.size() implies #[trigger] byte_at(
            order,
            now,
            owner.spec_mapping(),
            x,
        ) == 0 by {
            let i = x - owner.spec_base_ptr();
            assert(byte_at(order, now, owner.spec_mapping(), x)
                == now.segment->Some_0.data[i]);
        }
    }
}

/// After any use of a segment, whatever its cursor, its state and its data, it is
/// left over exactly where its creator is dead: a cleanup leaves it alone while the
/// creator lives and removes it when the creator is dead and the name can be
/// removed, and a recovery refuses, or makes a fresh segment in its place.
pub proof fn law_a_used_segment_is_left_over_when_its_creator_is_dead(
    size: usize,
    w: World,
    creating: Seq<Reply>,
    now: World,
    cleaning: Seq<Reply>,
    again: usize,
    recovering: Seq<Reply>,
)
    requires
        creates(size, w, creating),
        0 < w.me <= i32::MAX,
        in_use(world_after_run(creation(size), w, creating), now),
        served(cleanup(), now, cleaning),
        run(cleanup(), cleaning) is Done,
        possible(again),
        served(recovery(again), now, recovering),
        run(recovery(again), recovering) is Done,
    ensures
        ({
            let gone = !now.living.contains(w.me as i32) && now.removable;
            let recovered = run(recovery(again), recovering)->Done_0;
            let then = world_after_run(recovery(again), now, recovering);
            &&& run(cleanup(), cleaning)->Done_0 == Ok::<bool, ArenaError>(gone)
            &&& world_after_run(cleanup(), now, cleaning).segment == if gone {
                None
            } else {
                now.segment
            }
            &&& if gone {
                &&& recovered matches Ok(mapping)
                &&& mapping.len == HEADER_SIZE + again
                &&& then.segment matches Some(file)
                &&& file.len == HEADER_SIZE + again
                &&& file.header.owner_pid == now.me
                &&& file.header.used == 0
            } else {
                &&& recovered == Err::<Mapping, ArenaError>(ArenaError::AlreadyExists)
                &&& then == now
            }
        }),
{
    law_create(size, w, creating);
    law_made_segment_is_fresh(
        w,
        size,
        run(creation(size), creating)->Done_0,
        world_after_run(creation(size), w, creating),
    );
    law_cleanup_spares_what_the_living_own(now, cleaning);
    law_recovery_spares_what_the_living_own(again, now, recovering);
}

/// Attaching for reading changes no byte of the segment, neither header nor data,
/// nor its length nor its name, whatever the system replies, on success, on every
/// error and at every moment before.
pub proof fn law_observing_changes_nothing(w: World, observing: Seq<Reply>)
    ensures
        world_after_run(observation(), w, observing) == w,
{
    lemma_observing(observation(), w, observing);
}

/// No call of an attachment for reading changes anything.
proof fn lemma_observing(op: Observe, w: World, replies: Seq<Reply>)
    ensures
        world_after_run(op, w, replies) == w,
    decreases replies.len(),
{
    if replies.len() > 0 {
        if let Progress::Pending(next) = op.next(replies[0]) {
            lemma_observing(next, w, replies.drop_first());
        }
    }
}

/// Attaching for reading leaves every mapping that the process has, whatever the
/// system replies: none is replaced, none is removed.
pub proof fn law_observing_leaves_other_mappings(others: Set<Place>, observing: Seq<Reply>)
    requires
        consistent(observation(), observing),
        replaces_nothing(observation(), others, observing),
    ensures
        others.subset_of(places_after_run(observation(), others, observing)),
{
    law_other_mappings_stay(observation(), others, observing);
}

/// Attaching changes no byte of the segment, nor its cursor, its length or its
/// name, whatever the system replies.
pub proof fn law_attaching_changes_nothing(w: World, attaching: Seq<Reply>)
    ensures
        world_after_run(attachment(), w, attaching) == w,
{
    lemma_attaching(attachment(), w, attaching);
}

/// No call of an attachment changes anything.
proof fn lemma_attaching(op: Attach, w: World, replies: Seq<Reply>)
    ensures
        world_after_run(op, w, replies) == w,
    decreases replies.len(),
{
    if replies.len() > 0 {
        if let Progress::Pending(next) = op.next(replies[0]) {
            lemma_attaching(next, w, replies.drop_first());
        }
    }
}

/// When a handle goes that does not own the name, one call is made, which unmaps
/// the handle's own mapping, and nothing else happens, whatever the system replies:
/// every byte of the segment and its name stay, and so does every other mapping of
/// the process.
pub proof fn law_dropping_an_attached_handle_leaves_the_segment(
    mapping: Mapping,
    w: World,
    releasing: Seq<Reply>,
    others: Set<Place>,
)
    requires
        consistent(Release::Unmapping { mapping, owner: false }, releasing),
        releasing.len() > 0,
        besides(others, (Release::Unmapping { mapping, owner: false }).held()),
        replaces_nothing(
            Release::Unmapping { mapping, owner: false },
            with_held(others, (Release::Unmapping { mapping, owner: false }).held()),
            releasing,
        ),
    ensures
        run(Release::Unmapping { mapping, owner: false }, releasing) == Progress::<
            Release,
            (),
        >::Done(Ok(())),
        world_after_run(Release::Unmapping { mapping, owner: false }, w, releasing) == w,
        others.subset_of(
            places_after_run(
                Release::Unmapping { mapping, owner: false },
                with_held(others, (Release::Unmapping { mapping, owner: false }).held()),
                releasing,
            ),
        ),
{
    law_other_mappings_stay(Release::Unmapping { mapping, owner: false }, others, releasing);
}

/// After a handle has gone that does not own the name, the segment can be attached
/// to as before.
pub proof fn law_segment_outlives_an_attached_handle(
    mapping: Mapping,
    w: World,
    releasing: Seq<Reply>,
    attaching: Seq<Reply>,
)
    requires
        w.segment matches Some(file) && long_enough(file) && file.header.spec_check() is Ok,
        consistent(Release::Unmapping { mapping, owner: false }, releasing),
        served(
            attachment(),
            world_after_run(Release::Unmapping { mapping, owner: false }, w, releasing),
            attaching,
        ),
        run(attachment(), attaching) is Done,
    ensures
        run(attachment(), attaching)->Done_0 is Ok,
{
    assert(world_after_run(Release::Unmapping { mapping, owner: false }, w, releasing) == w);
    law_attach(w, attaching);
}

} // verus!
