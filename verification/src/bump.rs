//! The arithmetic of the bump allocator: where an allocation starts, where it
//! ends, and how the shared cursor moves.

use core::sync::atomic::{AtomicUsize, Ordering};

use crate::error::ArenaError;
use crate::layout::Layout;
use vstd::arithmetic::div_mod::{
    lemma_fundamental_div_mod, lemma_mod_multiples_basic, lemma_mod_multiples_vanish,
};
use vstd::arithmetic::power2::{
    is_pow2, is_pow2_equiv, is_pow2_exists, lemma2_to64, lemma_pow2_adds, lemma_pow2_pos,
    lemma_pow2_strictly_increases, pow2,
};
use vstd::prelude::*;

verus! {

/// The bytes between `addr` and the next multiple of `align`.
pub open spec fn padding(addr: int, align: int) -> int {
    if addr % align == 0 {
        0
    } else {
        align - addr % align
    }
}

/// Where an allocation starts that finds the cursor at `seen`, as an offset into
/// data that starts at `base`: the first offset from there on whose address is a
/// multiple of `align`.
pub open spec fn start_of(base: int, seen: int, align: int) -> int {
    seen + padding(base + seen, align)
}

/// Where that allocation ends, and the cursor with it.
pub open spec fn end_of(base: int, seen: int, size: int, align: int) -> int {
    start_of(base, seen, align) + size
}

/// Whether an arena of `capacity` bytes holds that allocation.
pub open spec fn fits(base: int, seen: int, capacity: int, size: int, align: int) -> bool {
    end_of(base, seen, size, align) <= capacity
}

/// The bytes that are left when the cursor stands at `seen`. A cursor beyond
/// the capacity leaves none.
pub open spec fn left_of(seen: int, capacity: int) -> int {
    if seen <= capacity {
        capacity - seen
    } else {
        0
    }
}

/// A range that an allocation takes, and the cursor value that it takes it at.
#[derive(Clone, Copy, Debug, PartialEq, Eq)]
pub struct Reservation {
    /// The cursor before the allocation.
    pub seen: usize,
    /// The first byte of the range, as an offset into the data.
    pub start: usize,
    /// The first byte after the range, and the cursor after the allocation.
    pub end: usize,
}

/// What an allocation gets that finds the cursor at `seen`, in data of `capacity`
/// bytes that starts at `base`.
pub open spec fn planned(base: usize, seen: usize, capacity: usize, layout: Layout) -> Result<
    Reservation,
    ArenaError,
> {
    let size = layout.size() as int;
    let align = layout.align() as int;
    if fits(base as int, seen as int, capacity as int, size, align) {
        Ok(
            Reservation {
                seen,
                start: start_of(base as int, seen as int, align) as usize,
                end: end_of(base as int, seen as int, size, align) as usize,
            },
        )
    } else {
        Err(
            ArenaError::OutOfMemory {
                requested: (end_of(base as int, seen as int, size, align) - seen) as usize,
                available: left_of(seen as int, capacity as int) as usize,
            },
        )
    }
}

/// The start of an allocation is the least offset from the cursor on whose
/// address is a multiple of the alignment.
pub proof fn lemma_start_of(base: int, seen: int, align: int)
    requires
        align > 0,
    ensures
        (base + start_of(base, seen, align)) % align == 0,
        seen <= start_of(base, seen, align) < seen + align,
        forall|m: int|
            seen <= m && #[trigger] ((base + m) % align) == 0 ==> start_of(base, seen, align) <= m,
{
    let addr = base + seen;
    let q = addr / align;
    let r = addr % align;
    lemma_fundamental_div_mod(addr, align);
    if r != 0 {
        assert((q + 1) * align == q * align + align) by (nonlinear_arith);
        assert(align * q == q * align) by (nonlinear_arith);
        lemma_mod_multiples_basic(q + 1, align);
        assert forall|m: int| seen <= m && #[trigger] ((base + m) % align) == 0 implies start_of(
            base,
            seen,
            align,
        ) <= m by {
            let p = (base + m) / align;
            lemma_fundamental_div_mod(base + m, align);
            assert(p >= q + 1) by (nonlinear_arith)
                requires
                    align * p >= align * q + r,
                    r > 0,
                    align > 0,
            ;
            assert(align * p >= align * (q + 1)) by (nonlinear_arith)
                requires
                    p >= q + 1,
                    align > 0,
            ;
            assert(align * (q + 1) == (q + 1) * align) by (nonlinear_arith);
        }
    }
}

/// A power of two that a `usize` holds divides the number of `usize` values.
proof fn lemma_pow2_divides_word(align: usize)
    requires
        is_pow2(align as int),
    ensures
        align > 0,
        (usize::MAX + 1) % (align as int) == 0,
{
    reveal(is_pow2);
    is_pow2_equiv(align as int);
    assert(is_pow2_exists(align as int));
    let k = choose|i: nat| vstd::arithmetic::power::pow(2, i) == align as int;
    assert(align == pow2(k));
    lemma2_to64();
    let bits = usize::BITS as nat;
    assert(pow2(bits) == usize::MAX + 1);
    if k >= bits {
        if k > bits {
            lemma_pow2_strictly_increases(bits, k);
        }
        assert(false);
    }
    lemma_pow2_adds(k, (bits - k) as nat);
    lemma_pow2_pos(k);
    lemma_mod_multiples_basic(pow2((bits - k) as nat) as int, align as int);
    assert(pow2((bits - k) as nat) * align == align * pow2((bits - k) as nat)) by (nonlinear_arith);
}

/// A sum that leaves the word keeps its remainder by an alignment.
proof fn lemma_wrapped_remainder(base: usize, seen: usize, align: usize)
    requires
        is_pow2(align as int),
    ensures
        base.wrapping_add(seen) as int % align as int == (base + seen) % (align as int),
{
    lemma_pow2_divides_word(align);
    if base + seen > usize::MAX {
        let word = usize::MAX + 1;
        let a = align as int;
        lemma_fundamental_div_mod(word, a);
        lemma_mod_multiples_vanish(word / a, base + seen - word, a);
    }
}

/// Decides the allocation of `layout` in data of `capacity` bytes that starts at
/// `base`, where the cursor stands at `seen`.
pub fn plan(base: usize, seen: usize, capacity: usize, layout: Layout) -> (r: Result<
    Reservation,
    ArenaError,
>)
    ensures
        r == planned(base, seen, capacity, layout),
{
    proof {
        use_type_invariant(&layout);
    }
    let size: usize = layout.size();
    let align: usize = layout.align();
    proof {
        lemma_pow2_divides_word(align);
        lemma_wrapped_remainder(base, seen, align);
        lemma_start_of(base as int, seen as int, align as int);
    }
    let rest: usize = base.wrapping_add(seen) % align;
    let gap: usize = if rest == 0 {
        0
    } else {
        align - rest
    };
    let requested: usize = gap + size;
    if seen > capacity || requested > capacity - seen {
        Err(ArenaError::OutOfMemory { requested, available: capacity.saturating_sub(seen) })
    } else {
        Ok(Reservation { seen, start: seen + gap, end: seen + requested })
    }
}

/// The value that the cursor moves to from `seen`, or `None` where the
/// allocation does not fit.
pub fn next_cursor(base: usize, seen: usize, capacity: usize, layout: Layout) -> (r: Option<usize>)
    ensures
        r == match planned(base, seen, capacity, layout) {
            Ok(reservation) => Some(reservation.end),
            Err(_) => None,
        },
{
    match plan(base, seen, capacity, layout) {
        Ok(reservation) => Some(reservation.end),
        Err(_) => None,
    }
}

/// Whether a weak exchange of `cursor` from the value `from` to the value `to`
/// can succeed, and so has moved it where it did.
pub open spec fn moved(cursor: AtomicUsize, from: usize, to: usize) -> bool {
    call_ensures(
        AtomicUsize::compare_exchange_weak,
        (&cursor, from, to, Ordering::AcqRel, Ordering::Acquire),
        Ok::<usize, usize>(from),
    )
}

/// Moves the cursor by [`AtomicUsize::fetch_update`] with [`next_cursor`].
///
/// The standard library documents that the update function is applied to the
/// value found, that the value is exchanged for the new one where the function
/// gives one, with the two orderings as those of the exchange, and that the value
/// found is handed back: as `Ok` where the function gave a new value, as `Err`
/// where it gave none. The contract says this of the value found, and that the
/// exchange from it to the end of the range succeeded. Which value is found
/// depends on the other holders of the cursor and is left open, and so is what
/// the cursor holds later: the content of a shared atomic has no model here.
#[verifier::external_body]
fn fetch_advance(
    cursor: &AtomicUsize,
    base: usize,
    capacity: usize,
    layout: Layout,
) -> (r: Result<usize, usize>)
    ensures
        match r {
            Ok(seen) => {
                &&& planned(base, seen, capacity, layout) is Ok
                &&& moved(*cursor, seen, planned(base, seen, capacity, layout)->Ok_0.end)
            },
            Err(seen) => planned(base, seen, capacity, layout) is Err,
        },
{
    cursor.fetch_update(
        Ordering::AcqRel,
        Ordering::Acquire,
        |seen| next_cursor(base, seen, capacity, layout),
    )
}

/// Whether an update of `cursor` for `layout`, in data of `capacity` bytes that
/// starts at `base`, can find the value `seen`. It moves the cursor where the
/// allocation fits there.
pub closed spec fn updated(
    cursor: AtomicUsize,
    base: usize,
    capacity: usize,
    layout: Layout,
    seen: usize,
) -> bool {
    if planned(base, seen, capacity, layout) is Ok {
        call_ensures(fetch_advance, (&cursor, base, capacity, layout), Ok::<usize, usize>(seen))
    } else {
        call_ensures(fetch_advance, (&cursor, base, capacity, layout), Err::<usize, usize>(seen))
    }
}

/// What one update of a cursor found there, and what it left there.
pub struct Visit {
    pub found: usize,
    pub left: usize,
}

/// A caller at a shared cursor, with the updates that the caller has made of it, in
/// order. There is no other way to update a cursor than through a visitor.
pub struct Visitor<'c> {
    cursor: &'c AtomicUsize,
    visits: Ghost<Seq<Visit>>,
}

impl<'c> Visitor<'c> {
    /// The cursor.
    pub closed spec fn spec_cursor(&self) -> AtomicUsize {
        *self.cursor
    }

    /// The updates so far.
    pub closed spec fn visits(&self) -> Seq<Visit> {
        self.visits@
    }

    /// A visitor that has made no update yet.
    pub fn of(cursor: &'c AtomicUsize) -> (visitor: Visitor<'c>)
        ensures
            visitor.spec_cursor() == *cursor,
            visitor.visits() == Seq::<Visit>::empty(),
    {
        Visitor { cursor, visits: Ghost(Seq::empty()) }
    }

    /// Updates the cursor once for `layout`, and gives the value found: as `Ok`
    /// where the allocation fits there and the cursor has moved to its end, as
    /// `Err` where it does not fit and the cursor stays.
    pub fn advance(&mut self, base: usize, capacity: usize, layout: Layout) -> (r: Result<
        usize,
        usize,
    >)
        ensures
            final(self).spec_cursor() == old(self).spec_cursor(),
            match r {
                Ok(seen) => {
                    &&& planned(base, seen, capacity, layout) matches Ok(reservation)
                    &&& moved(old(self).spec_cursor(), seen, reservation.end)
                    &&& updated(old(self).spec_cursor(), base, capacity, layout, seen)
                    &&& final(self).visits() == old(self).visits().push(
                        Visit { found: seen, left: reservation.end },
                    )
                },
                Err(seen) => {
                    &&& planned(base, seen, capacity, layout) is Err
                    &&& updated(old(self).spec_cursor(), base, capacity, layout, seen)
                    &&& final(self).visits() == old(self).visits().push(
                        Visit { found: seen, left: seen },
                    )
                },
            },
    {
        let r: Result<usize, usize> = fetch_advance(self.cursor, base, capacity, layout);
        let visits: Ghost<Seq<Visit>> = Ghost(
            self.visits@.push(
                match r {
                    Ok(seen) => Visit {
                        found: seen,
                        left: planned(base, seen, capacity, layout)->Ok_0.end,
                    },
                    Err(seen) => Visit { found: seen, left: seen },
                },
            ),
        );
        self.visits = visits;
        r
    }
}

/// An allocation of a history: its layout, and where its handle has the data.
pub struct Request {
    pub base: usize,
    pub layout: Layout,
}

/// The cursor after an allocation that found it at `seen`. An empty or refused
/// allocation leaves it where it was.
pub open spec fn cursor_after(seen: usize, capacity: usize, request: Request) -> usize {
    match planned(request.base, seen, capacity, request.layout) {
        Ok(reservation) if request.layout.size() > 0 => reservation.end,
        _ => seen,
    }
}

/// The cursor after the first `n` allocations of a history, in the order in
/// which they moved the cursor, whoever made them and through whichever handle.
pub open spec fn cursor_at(first: usize, capacity: usize, history: Seq<Request>, n: int) -> usize
    decreases n,
{
    if n <= 0 {
        first
    } else {
        cursor_after(cursor_at(first, capacity, history, n - 1), capacity, history[n - 1])
    }
}

/// What the `i`-th allocation of a history gets.
pub open spec fn outcome_at(
    first: usize,
    capacity: usize,
    history: Seq<Request>,
    i: int,
) -> Result<Reservation, ArenaError> {
    planned(
        history[i].base,
        cursor_at(first, capacity, history, i),
        capacity,
        history[i].layout,
    )
}

/// A granted range starts at an address that is a multiple of the alignment, is
/// as long as asked for, lies between the cursor found and the capacity, and
/// starts less than one alignment after the cursor found.
pub proof fn law_granted_range_is_sound(base: usize, seen: usize, capacity: usize, layout: Layout)
    requires
        layout.wf(),
    ensures
        planned(base, seen, capacity, layout) matches Ok(reservation) ==> {
            &&& reservation.seen == seen
            &&& (base + reservation.start) % (layout.align() as int) == 0
            &&& reservation.end - reservation.start == layout.size()
            &&& seen <= reservation.start < seen + layout.align()
            &&& reservation.end <= capacity
        },
{
    reveal(is_pow2);
    lemma_start_of(base as int, seen as int, layout.align() as int);
}

/// A refused allocation asks for more than is left, and the error tells how
/// much it asked for: its size and less than one alignment of padding.
pub proof fn law_refusal_reports_the_shortage(
    base: usize,
    seen: usize,
    capacity: usize,
    layout: Layout,
)
    requires
        layout.wf(),
    ensures
        planned(base, seen, capacity, layout) matches Err(error) ==> {
            &&& error matches ArenaError::OutOfMemory { requested, available }
            &&& requested == layout.size() + padding(base + seen, layout.align() as int)
            &&& layout.size() <= requested < layout.size() + layout.align()
            &&& available == left_of(seen as int, capacity as int)
            &&& requested > available || (layout.size() == 0 && seen > capacity)
        },
{
    reveal(is_pow2);
    lemma_start_of(base as int, seen as int, layout.align() as int);
}

/// The cursor never moves back, and from within the capacity it never leaves it.
pub proof fn law_cursor_never_retreats(
    first: usize,
    capacity: usize,
    history: Seq<Request>,
    i: int,
    j: int,
)
    requires
        forall|n: int| 0 <= n < history.len() ==> (#[trigger] history[n]).layout.wf(),
        0 <= i <= j <= history.len(),
    ensures
        cursor_at(first, capacity, history, i) <= cursor_at(first, capacity, history, j),
        first <= capacity ==> cursor_at(first, capacity, history, j) <= capacity,
    decreases j,
{
    if j > 0 {
        law_cursor_never_retreats(
            first,
            capacity,
            history,
            if i < j {
                i
            } else {
                j - 1
            },
            j - 1,
        );
        law_granted_range_is_sound(
            history[j - 1].base,
            cursor_at(first, capacity, history, j - 1),
            capacity,
            history[j - 1].layout,
        );
    }
}

/// Two allocations of a history that both get a range get ranges that do not
/// overlap: the later one starts where the earlier one ends, or after it. It
/// makes no difference where their handles have the data.
pub proof fn law_allocations_do_not_overlap(
    first: usize,
    capacity: usize,
    history: Seq<Request>,
    i: int,
    j: int,
)
    requires
        forall|n: int| 0 <= n < history.len() ==> (#[trigger] history[n]).layout.wf(),
        0 <= i < j < history.len(),
        history[i].layout.size() > 0,
        outcome_at(first, capacity, history, i) is Ok,
        outcome_at(first, capacity, history, j) is Ok,
    ensures
        outcome_at(first, capacity, history, i)->Ok_0.end <= outcome_at(
            first,
            capacity,
            history,
            j,
        )->Ok_0.start,
{
    law_cursor_never_retreats(first, capacity, history, i + 1, j);
    law_granted_range_is_sound(
        history[j].base,
        cursor_at(first, capacity, history, j),
        capacity,
        history[j].layout,
    );
}

/// An allocation that is refused leaves the cursor, so that what follows it
/// gets what it would have got without it.
pub proof fn law_refusal_leaves_no_trace(
    seen: usize,
    capacity: usize,
    refused: Request,
    next: Request,
)
    requires
        planned(refused.base, seen, capacity, refused.layout) is Err,
    ensures
        cursor_after(seen, capacity, refused) == seen,
        planned(next.base, cursor_after(seen, capacity, refused), capacity, next.layout)
            == planned(next.base, seen, capacity, next.layout),
{
}

/// What is granted is the first place from the cursor on that has an aligned
/// address, and it is granted exactly where there is such a place within the
/// capacity. What is refused is told the bytes up to the end of that place and the
/// bytes that are left.
pub proof fn law_grants_the_first_place_that_fits(
    base: usize,
    seen: usize,
    capacity: usize,
    layout: Layout,
    r: Result<Reservation, ArenaError>,
)
    requires
        layout.wf(),
        call_ensures(plan, (base, seen, capacity, layout), r),
    ensures
        r == planned(base, seen, capacity, layout),
        r is Ok <==> exists|place: int|
            {
                &&& seen <= place
                &&& #[trigger] ((base + place) % (layout.align() as int)) == 0
                &&& place + layout.size() <= capacity
            },
        r matches Ok(reservation) ==> {
            &&& reservation.seen == seen
            &&& seen <= reservation.start
            &&& (base + reservation.start) % (layout.align() as int) == 0
            &&& reservation.end == reservation.start + layout.size()
            &&& forall|place: int|
                seen <= place && #[trigger] ((base + place) % (layout.align() as int)) == 0
                    ==> reservation.start <= place
        },
        r matches Err(error) ==> {
            &&& error matches ArenaError::OutOfMemory { requested, available }
            &&& layout.size() <= requested < layout.size() + layout.align()
            &&& (base + seen + requested - layout.size()) % (layout.align() as int) == 0
            &&& available == if seen <= capacity {
                capacity - seen
            } else {
                0
            }
        },
{
    reveal(is_pow2);
    let align = layout.align() as int;
    lemma_start_of(base as int, seen as int, align);
    let start = start_of(base as int, seen as int, align);
    assert((base + start) % align == 0);
    assert(base + seen + padding(base + seen, align) == base + start);
}

/// The cursor moves to the end of the range that is planned, and stays exactly where
/// none is: this is the update that is made of a shared cursor.
pub proof fn law_cursor_moves_to_the_end_of_the_range(
    base: usize,
    seen: usize,
    capacity: usize,
    layout: Layout,
    next: Option<usize>,
    r: Result<Reservation, ArenaError>,
)
    requires
        layout.wf(),
        call_ensures(next_cursor, (base, seen, capacity, layout), next),
        call_ensures(plan, (base, seen, capacity, layout), r),
    ensures
        next is Some <==> r is Ok,
        r matches Ok(reservation) ==> next == Some(reservation.end),
        next matches Some(moved_to) ==> {
            &&& seen + layout.size() <= moved_to <= capacity
            &&& moved_to < seen + layout.size() + layout.align()
            &&& (base + moved_to - layout.size()) % (layout.align() as int) == 0
        },
{
    law_grants_the_first_place_that_fits(base, seen, capacity, layout, r);
    law_granted_range_is_sound(base, seen, capacity, layout);
}

/// Whether nobody else moved the cursor between the updates of one caller, the first
/// of which found `first`.
pub open spec fn undisturbed(first: usize, visits: Seq<Visit>) -> bool {
    forall|i: int|
        0 <= i < visits.len() ==> (#[trigger] visits[i]).found == if i == 0 {
            first
        } else {
            visits[i - 1].left
        }
}

/// Whether each update is that of one allocation of the history, in order.
pub open spec fn one_update_each(capacity: usize, history: Seq<Request>, visits: Seq<Visit>) -> bool {
    &&& visits.len() == history.len()
    &&& forall|i: int|
        0 <= i < visits.len() ==> (#[trigger] visits[i]).left == cursor_after(
            visits[i].found,
            capacity,
            history[i],
        )
}

/// A caller whom nobody disturbs and who makes one update for each allocation finds
/// the cursor, each time, where the allocations before have moved it, so that each
/// range starts less than one alignment after the end of the last, and nothing is
/// lost between them.
pub proof fn law_lone_caller_loses_nothing(
    first: usize,
    capacity: usize,
    history: Seq<Request>,
    visits: Seq<Visit>,
    i: int,
)
    requires
        forall|n: int| 0 <= n < history.len() ==> (#[trigger] history[n]).layout.wf(),
        undisturbed(first, visits),
        one_update_each(capacity, history, visits),
        0 <= i < history.len(),
        history[i].layout.size() > 0,
    ensures
        visits[i].found == cursor_at(first, capacity, history, i),
        visits[i].left == cursor_at(first, capacity, history, i + 1),
        outcome_at(first, capacity, history, i) matches Ok(reservation) ==> {
            &&& reservation.seen == visits[i].found
            &&& reservation.start < visits[i].found + history[i].layout.align()
            &&& visits[i].left == reservation.end
            &&& visits[i].left - visits[i].found < history[i].layout.size()
                + history[i].layout.align()
        },
        outcome_at(first, capacity, history, i) is Err ==> visits[i].left == visits[i].found,
{
    lemma_lone_caller(first, capacity, history, visits, i);
    law_granted_range_is_sound(
        history[i].base,
        visits[i].found,
        capacity,
        history[i].layout,
    );
}

/// The updates of a lone caller find what those before have left.
proof fn lemma_lone_caller(
    first: usize,
    capacity: usize,
    history: Seq<Request>,
    visits: Seq<Visit>,
    i: int,
)
    requires
        undisturbed(first, visits),
        one_update_each(capacity, history, visits),
        0 <= i < history.len(),
    ensures
        visits[i].found == cursor_at(first, capacity, history, i),
        visits[i].left == cursor_at(first, capacity, history, i + 1),
    decreases i,
{
    if i > 0 {
        lemma_lone_caller(first, capacity, history, visits, i - 1);
    }
    assert(visits[i].left == cursor_after(visits[i].found, capacity, history[i]));
}

} // verus!
