//! What a process has mapped, and what an operation does to it.

use crate::call::{
    consistent, held_after, held_after_run, Call, Held, Mapping, Operation, Progress, Reply,
};
use vstd::prelude::*;

verus! {

/// A place in the address space of a process at which something is mapped.
pub struct Place {
    pub addr: usize,
    pub len: usize,
}

/// The place of a mapping.
pub open spec fn place(mapping: Mapping) -> Place {
    Place { addr: mapping.addr, len: mapping.len }
}

/// Whether nothing is mapped at a place, nor at a part of it.
pub open spec fn vacant(places: Set<Place>, at: Place) -> bool {
    &&& !places.contains(at)
    &&& forall|other: Place| #[trigger]
        places.contains(other) ==> other.addr + other.len <= at.addr || at.addr + at.len
            <= other.addr
}

/// The places that are mapped after `call` had `reply`. What the system does not
/// take back stays mapped.
pub open spec fn places_after(places: Set<Place>, call: Call, reply: Reply) -> Set<Place> {
    match (call, reply) {
        (Call::Mmap { len, .. }, Reply::Addr(addr)) => places.insert(Place { addr, len }),
        (Call::Munmap { addr, len }, Reply::Done) => places.remove(Place { addr, len }),
        _ => places,
    }
}

/// The places that are mapped after the calls of a run.
pub open spec fn places_after_run<O: Operation>(
    op: O,
    places: Set<Place>,
    replies: Seq<Reply>,
) -> Set<Place>
    decreases replies.len(),
{
    if replies.len() == 0 {
        places
    } else {
        let then = places_after(places, op.pending(), replies[0]);
        match op.next(replies[0]) {
            Progress::Pending(next) => places_after_run(next, then, replies.drop_first()),
            Progress::Done(_) => then,
        }
    }
}

/// Whether the system maps only what is vacant. It does where it chooses the
/// address itself, and with `MAP_FIXED_NOREPLACE`.
pub open spec fn replaces_nothing<O: Operation>(
    op: O,
    places: Set<Place>,
    replies: Seq<Reply>,
) -> bool
    decreases replies.len(),
{
    replies.len() > 0 ==> {
        &&& match (op.pending(), replies[0]) {
            (Call::Mmap { len, .. }, Reply::Addr(addr)) => vacant(places, Place { addr, len }),
            _ => true,
        }
        &&& op.next(replies[0]) matches Progress::Pending(next) ==> replaces_nothing(
            next,
            places_after(places, op.pending(), replies[0]),
            replies.drop_first(),
        )
    }
}

/// Whether every `munmap` of a run is done.
pub open spec fn takes_back<O: Operation>(op: O, replies: Seq<Reply>) -> bool
    decreases replies.len(),
{
    replies.len() > 0 ==> {
        &&& op.pending() is Munmap ==> replies[0] is Done
        &&& op.next(replies[0]) matches Progress::Pending(next) ==> takes_back(
            next,
            replies.drop_first(),
        )
    }
}

/// The places that are mapped where something is held besides `others`.
pub open spec fn with_held(others: Set<Place>, held: Held) -> Set<Place> {
    match held.map {
        Some(mapping) => others.insert(place(mapping)),
        None => others,
    }
}

/// Whether what is held is none of `others`.
pub open spec fn besides(others: Set<Place>, held: Held) -> bool {
    held.map matches Some(mapping) ==> !others.contains(place(mapping))
}

/// Whatever the system replies, what the process had mapped before an operation
/// stays mapped: the operation replaces and unmaps nothing but its own mappings.
pub proof fn law_other_mappings_stay<O: Operation>(
    op: O,
    others: Set<Place>,
    replies: Seq<Reply>,
)
    requires
        op.wf(),
        consistent(op, replies),
        besides(others, op.held()),
        replaces_nothing(op, with_held(others, op.held()), replies),
    ensures
        others.subset_of(places_after_run(op, with_held(others, op.held()), replies)),
    decreases replies.len(),
{
    if replies.len() > 0 {
        let reply = replies[0];
        let places = with_held(others, op.held());
        let then = places_after(places, op.pending(), reply);
        let held = held_after(op.held(), op.pending(), reply);
        op.lemma_step(reply);
        // A mapping that the system did not take back counts with the others.
        let kept = if op.pending() is Munmap && !(reply is Done) {
            places
        } else {
            others
        };
        assert(with_held(kept, held) =~= then);
        if let Progress::Pending(next) = op.next(reply) {
            law_other_mappings_stay(next, kept, replies.drop_first());
        }
    }
}

/// Where the system takes back what it is asked to, what an operation leaves
/// mapped is what was mapped before and what is held with the result: after a
/// failure nothing else than before.
pub proof fn law_what_is_held_stays_mapped<O: Operation>(
    op: O,
    others: Set<Place>,
    replies: Seq<Reply>,
)
    requires
        op.wf(),
        consistent(op, replies),
        besides(others, op.held()),
        replaces_nothing(op, with_held(others, op.held()), replies),
        takes_back(op, replies),
    ensures
        places_after_run(op, with_held(others, op.held()), replies) == with_held(
            others,
            held_after_run(op.held(), op, replies),
        ),
    decreases replies.len(),
{
    if replies.len() > 0 {
        let reply = replies[0];
        let then = places_after(with_held(others, op.held()), op.pending(), reply);
        let held = held_after(op.held(), op.pending(), reply);
        op.lemma_step(reply);
        assert(with_held(others, held) =~= then);
        if let Progress::Pending(next) = op.next(reply) {
            law_what_is_held_stays_mapped(next, others, replies.drop_first());
        }
    }
}

} // verus!
