//! The arena: a mapped region and the bump allocator on it.

use core::sync::atomic::{AtomicUsize, Ordering};

use crate::acquire::Acquire;
use crate::anonymous::MapAnonymous;
use crate::attach::Attach;
use crate::bump::{
    cursor_after, law_granted_range_is_sound, left_of, lemma_start_of, moved, one_update_each, plan,
    planned, undisturbed, updated, Request, Visit, Visitor,
};
use crate::call::{in_address_space, nothing, Held, Mapping, Operation};
use crate::cleanup::Cleanup;
use crate::create::Create;
use crate::error::ArenaError;
use crate::header::HEADER_SIZE;
use crate::layout::Layout;
use crate::name::{normalized, to_shm_name, ShmName};
use crate::observe::Observe;
use crate::recover::{Recover, ATTEMPTS};
use crate::release::Release;
use crate::stale::Staleness;
use vstd::arithmetic::div_mod::lemma_add_mod_noop;
use vstd::arithmetic::power2::is_pow2;
use vstd::prelude::*;

verus! {

/// Where the cursor of the allocator lives.
enum UsedCursor<'a> {
    /// In the handle, for a region without a name.
    Inline(AtomicUsize),
    /// In the header of the segment, shared by all its mappings.
    Header(&'a AtomicUsize),
}

/// What lies behind the region, and how it is given back.
enum Backing {
    /// Memory without a name.
    Anonymous { mapping: Mapping },
    /// A named segment, with the address that its header records. Its owner
    /// removes the name.
    Named { mapping: Mapping, recorded_base: usize, name: ShmName, owner: bool },
}

/// A contiguous region with an atomic bump allocator. A single allocation is
/// never given back, only the region as a whole.
pub struct Arena<'a> {
    base: usize,
    size: usize,
    used: UsedCursor<'a>,
    backing: Backing,
}

/// An operation on a named segment, with the name that its calls concern.
pub struct Job<O> {
    pub name: ShmName,
    pub op: O,
}

/// Whether `r` is the outcome of starting an operation on the segment `name`:
/// a name with a NUL character is refused, else the operation is at `first` and
/// holds nothing.
pub open spec fn starts<O: Operation>(r: Result<Job<O>, ArenaError>, name: Seq<char>, first: O) -> bool {
    if name.contains('\0') {
        r == Err::<Job<O>, ArenaError>(ArenaError::InvalidName)
    } else {
        &&& r matches Ok(job)
        &&& job.name@ == normalized(name)
        &&& job.op == first
        &&& job.op.wf()
        &&& job.op.held() == nothing()
    }
}

/// Whether `value` is one that an acquiring load of `cursor` gives. Others may
/// move the cursor at any time, so a second load may give another one.
pub open spec fn loaded(cursor: AtomicUsize, value: usize) -> bool {
    call_ensures(AtomicUsize::load, (&cursor, Ordering::Acquire), value)
}

/// Whether `cursor` is a new one that is made with zero.
pub open spec fn made_with_zero(cursor: AtomicUsize) -> bool {
    call_ensures(AtomicUsize::new, (0usize,), cursor)
}

/// Whether an update of `cursor` for `layout`, in data of `capacity` bytes that
/// starts at `base`, can find the value `seen`. It moves the cursor where the
/// allocation fits there.
pub closed spec fn found(
    cursor: AtomicUsize,
    base: usize,
    capacity: usize,
    layout: Layout,
    seen: usize,
) -> bool {
    updated(cursor, base, capacity, layout, seen)
}

impl<'a> Arena<'a> {
    /// Where the data starts.
    pub closed spec fn spec_base_ptr(&self) -> usize {
        self.base
    }

    /// The bytes of data.
    pub closed spec fn spec_capacity(&self) -> usize {
        self.size
    }

    /// The mapping that the arena lies in.
    pub closed spec fn spec_mapping(&self) -> Mapping {
        match self.backing {
            Backing::Anonymous { mapping } => mapping,
            Backing::Named { mapping, .. } => mapping,
        }
    }

    /// The cursor of the allocator.
    pub closed spec fn spec_cursor(&self) -> AtomicUsize {
        match self.used {
            UsedCursor::Inline(cursor) => cursor,
            UsedCursor::Header(cursor) => *cursor,
        }
    }

    /// The name of the segment, if it has one.
    pub closed spec fn spec_name(&self) -> Option<Seq<char>> {
        match self.backing {
            Backing::Anonymous { .. } => None,
            Backing::Named { name, .. } => Some(name@),
        }
    }

    /// Whether the name goes when the arena goes.
    pub closed spec fn spec_owner(&self) -> bool {
        match self.backing {
            Backing::Anonymous { .. } => false,
            Backing::Named { owner, .. } => owner,
        }
    }

    /// The address at which the creator of the region has it mapped.
    pub closed spec fn spec_recorded_base(&self) -> usize {
        match self.backing {
            Backing::Anonymous { mapping } => mapping.addr,
            Backing::Named { recorded_base, .. } => recorded_base,
        }
    }

    /// What every arena satisfies: the data fills the mapping, after the header
    /// where there is one, and an owner has the region where it created it.
    #[verifier::type_invariant]
    pub open spec fn wf(&self) -> bool {
        &&& in_address_space(self.spec_mapping().addr, self.spec_mapping().len)
        &&& self.spec_base_ptr() + self.spec_capacity() == self.spec_mapping().addr
            + self.spec_mapping().len
        &&& self.spec_base_ptr() == self.spec_mapping().addr + (if self.spec_name() is Some {
            HEADER_SIZE as int
        } else {
            0
        })
        &&& self.spec_owner() ==> self.spec_name() is Some
        &&& self.spec_owner() || self.spec_name() is None ==> self.spec_recorded_base()
            == self.spec_mapping().addr
    }

    /// Starts to map `size` bytes without a name.
    pub fn new_anonymous(size: usize) -> (r: Result<MapAnonymous, ArenaError>)
        ensures
            size == 0 ==> r == Err::<MapAnonymous, ArenaError>(ArenaError::ZeroSize),
            size > 0 ==> r == Ok::<MapAnonymous, ArenaError>(MapAnonymous::Mapping { size }),
            r matches Ok(op) ==> op.wf() && op.held() == nothing(),
    {
        if size == 0 {
            return Err(ArenaError::ZeroSize);
        }
        Ok(MapAnonymous::Mapping { size })
    }

    /// Starts to create a segment with `size` bytes of data.
    pub fn create_named(name: &str, size: usize) -> (r: Result<Job<Create>, ArenaError>)
        ensures
            size == 0 ==> r == Err::<Job<Create>, ArenaError>(ArenaError::ZeroSize),
            size > 0 ==> starts(r, name@, Create::Opening { size }),
    {
        if size == 0 {
            return Err(ArenaError::ZeroSize);
        }
        match to_shm_name(name) {
            Ok(name) => Ok(Job { name, op: Create::Opening { size } }),
            Err(error) => Err(error),
        }
    }

    /// Starts to create a segment with `size` bytes of data, in place of one that
    /// a crash left behind.
    pub fn create_or_recover_named(name: &str, size: usize) -> (r: Result<Job<Recover>, ArenaError>)
        ensures
            size == 0 ==> r == Err::<Job<Recover>, ArenaError>(ArenaError::ZeroSize),
            size > 0 ==> starts(
                r,
                name@,
                Recover::Opening { size, left: (ATTEMPTS - 1) as u32 },
            ),
    {
        if size == 0 {
            return Err(ArenaError::ZeroSize);
        }
        match to_shm_name(name) {
            Ok(name) => Ok(Job { name, op: Recover::Opening { size, left: ATTEMPTS - 1 } }),
            Err(error) => Err(error),
        }
    }

    /// Starts to remove a segment that a crash left behind.
    pub fn cleanup_if_stale(name: &str) -> (r: Result<Job<Cleanup>, ArenaError>)
        ensures
            starts(r, name@, Cleanup::Checking(Staleness::spec_begin())),
    {
        match to_shm_name(name) {
            Ok(name) => Ok(Job { name, op: Cleanup::Checking(Staleness::begin()) }),
            Err(error) => Err(error),
        }
    }

    /// Starts to attach to a segment that exists.
    pub fn attach_named(name: &str) -> (r: Result<Job<Attach>, ArenaError>)
        ensures
            starts(r, name@, Attach::Acquiring(Acquire::Opening { writable: true })),
    {
        match to_shm_name(name) {
            Ok(name) => Ok(
                Job { name, op: Attach::Acquiring(Acquire::Opening { writable: true }) },
            ),
            Err(error) => Err(error),
        }
    }

    /// Starts to attach to a segment for reading, at the address of its creator.
    pub fn attach_named_readonly(name: &str) -> (r: Result<Job<Observe>, ArenaError>)
        ensures
            starts(r, name@, Observe::Acquiring(Acquire::Opening { writable: false })),
    {
        match to_shm_name(name) {
            Ok(name) => Ok(
                Job { name, op: Observe::Acquiring(Acquire::Opening { writable: false }) },
            ),
            Err(error) => Err(error),
        }
    }

    /// The arena in memory that was mapped without a name. Nothing is allocated yet.
    pub fn from_anonymous_mapping(mapping: Mapping) -> (arena: Arena<'a>)
        requires
            in_address_space(mapping.addr, mapping.len),
        ensures
            arena.spec_base_ptr() == mapping.addr,
            arena.spec_capacity() == mapping.len,
            arena.spec_mapping() == mapping,
            arena.spec_recorded_base() == mapping.addr,
            arena.spec_name() is None,
            !arena.spec_owner(),
            made_with_zero(arena.spec_cursor()),
    {
        Arena {
            base: mapping.addr,
            size: mapping.len,
            used: UsedCursor::Inline(AtomicUsize::new(0)),
            backing: Backing::Anonymous { mapping },
        }
    }

    /// The arena in the mapping of a named segment, whose header holds `cursor` and
    /// records `recorded_base` as the address of its creator's mapping. An owner is
    /// the creator, and removes the name when the arena goes.
    pub fn from_named_mapping(
        mapping: Mapping,
        recorded_base: usize,
        name: ShmName,
        owner: bool,
        cursor: &'a AtomicUsize,
    ) -> (arena: Arena<'a>)
        requires
            mapping.holds_segment(),
            owner ==> recorded_base == mapping.addr,
        ensures
            arena.spec_base_ptr() == mapping.addr + HEADER_SIZE,
            arena.spec_capacity() == mapping.len - HEADER_SIZE,
            arena.spec_mapping() == mapping,
            arena.spec_recorded_base() == recorded_base,
            arena.spec_name() == Some(name@),
            arena.spec_owner() == owner,
            arena.spec_cursor() == *cursor,
    {
        Arena {
            base: mapping.addr + HEADER_SIZE,
            size: mapping.len - HEADER_SIZE,
            used: UsedCursor::Header(cursor),
            backing: Backing::Named { mapping, recorded_base, name, owner },
        }
    }

    /// The cursor, wherever it lives.
    fn used_atomic(&self) -> (cursor: &AtomicUsize)
        ensures
            *cursor == self.spec_cursor(),
    {
        match &self.used {
            UsedCursor::Inline(cursor) => cursor,
            UsedCursor::Header(cursor) => cursor,
        }
    }

    /// The bytes of data, without the header.
    pub fn capacity(&self) -> (capacity: usize)
        ensures
            capacity == self.spec_capacity(),
            self.wf(),
    {
        proof {
            use_type_invariant(self);
        }
        self.size
    }

    /// The bytes allocated so far: what the cursor holds at some moment of the
    /// call. Others may allocate at any time.
    pub fn used(&self) -> (used: usize)
        ensures
            loaded(self.spec_cursor(), used),
    {
        self.used_atomic().load(Ordering::Acquire)
    }

    /// The bytes that are left when `used` bytes are allocated.
    pub fn remaining_at(&self, used: usize) -> (left: usize)
        ensures
            left == left_of(used as int, self.spec_capacity() as int),
    {
        self.size.saturating_sub(used)
    }

    /// The bytes that are left.
    pub fn remaining(&self) -> (left: usize)
        ensures
            exists|used: usize| #[trigger]
                loaded(self.spec_cursor(), used) && left == left_of(
                    used as int,
                    self.spec_capacity() as int,
                ),
            left <= self.spec_capacity(),
    {
        let used: usize = self.used();
        self.remaining_at(used)
    }

    /// The address at which the data starts.
    pub fn base_ptr(&self) -> (addr: usize)
        ensures
            addr == self.spec_base_ptr(),
            self.wf(),
    {
        proof {
            use_type_invariant(self);
        }
        self.base
    }

    /// The mapping that the arena lies in.
    fn mapping(&self) -> (mapping: Mapping)
        ensures
            mapping == self.spec_mapping(),
    {
        match &self.backing {
            Backing::Anonymous { mapping } => *mapping,
            Backing::Named { mapping, .. } => *mapping,
        }
    }

    /// The address at which the creator of the region has it mapped. A named
    /// segment records it in its header, so that every handle gives the same one,
    /// wherever its own mapping lies; those who attach for reading map there.
    pub fn fixed_base(&self) -> (addr: usize)
        ensures
            addr == self.spec_recorded_base(),
            self.wf(),
    {
        proof {
            use_type_invariant(self);
        }
        match &self.backing {
            Backing::Anonymous { mapping } => mapping.addr,
            Backing::Named { recorded_base, .. } => *recorded_base,
        }
    }

    /// The length of the mapping, header included.
    pub fn segment_len(&self) -> (len: usize)
        ensures
            len == self.spec_mapping().len,
            self.wf(),
    {
        proof {
            use_type_invariant(self);
        }
        self.mapping().len
    }

    /// What kind of arena this is, for people.
    pub fn kind(&self) -> (kind: &'static str)
        ensures
            kind@ == (if self.spec_name() is None {
                "anonymous"@
            } else if self.spec_owner() {
                "named(owner)"@
            } else {
                "named(attached)"@
            }),
    {
        match &self.backing {
            Backing::Anonymous { .. } => "anonymous",
            Backing::Named { owner, .. } => if *owner {
                "named(owner)"
            } else {
                "named(attached)"
            },
        }
    }

    /// The operation that gives the arena's mapping back, and removes the name
    /// where the arena owns it.
    pub fn release(&self) -> (op: Release)
        ensures
            op == (Release::Unmapping { mapping: self.spec_mapping(), owner: self.spec_owner() }),
            op.wf(),
            op.held() == (Held {
                fd: None,
                map: Some(self.spec_mapping()),
                created: self.spec_owner(),
            }),
    {
        let owner: bool = match &self.backing {
            Backing::Anonymous { .. } => false,
            Backing::Named { owner, .. } => *owner,
        };
        Release::Unmapping { mapping: self.mapping(), owner }
    }

    /// What an allocation gets that finds the cursor at `seen`: the address of
    /// its range, or the reason why there is none.
    pub open spec fn spec_allocate_at(&self, seen: usize, layout: Layout) -> Result<usize, ArenaError> {
        match planned(self.spec_base_ptr(), seen, self.spec_capacity(), layout) {
            Ok(reservation) => Ok((self.spec_base_ptr() + reservation.start) as usize),
            Err(error) => Err(error),
        }
    }

    /// What an allocation gets that finds the cursor at `seen`.
    pub fn allocate_at(&self, seen: usize, layout: Layout) -> (r: Result<usize, ArenaError>)
        ensures
            r == self.spec_allocate_at(seen, layout),
    {
        proof {
            use_type_invariant(self);
            use_type_invariant(&layout);
            law_granted_range_is_sound(self.base, seen, self.size, layout);
        }
        match plan(self.base, seen, self.size, layout) {
            Ok(reservation) => Ok(self.base + reservation.start),
            Err(error) => Err(error),
        }
    }

    /// Allocates `layout` and gives the address of its first byte. Any number of
    /// threads and processes may allocate from the same cursor at a time.
    ///
    /// An empty layout consumes nothing and gets its alignment for an address.
    /// Any other gets what is due at the cursor value that it finds: a range
    /// inside the data, at an address that is a multiple of the alignment, with
    /// the cursor moved from that value to the end of the range; or the refusal
    /// for want of room.
    pub fn allocate(&self, layout: Layout) -> (r: Result<usize, ArenaError>)
        ensures
            layout.size() == 0 ==> r == Ok::<usize, ArenaError>(layout.align()),
            layout.size() > 0 ==> exists|seen: usize|
                {
                    &&& #[trigger] found(
                        self.spec_cursor(),
                        self.spec_base_ptr(),
                        self.spec_capacity(),
                        layout,
                        seen,
                    )
                    &&& r == self.spec_allocate_at(seen, layout)
                    &&& r is Ok ==> moved(
                        self.spec_cursor(),
                        seen,
                        planned(
                            self.spec_base_ptr(),
                            seen,
                            self.spec_capacity(),
                            layout,
                        )->Ok_0.end,
                    )
                },
            layout.size() > 0 ==> match r {
                Ok(addr) => {
                    &&& self.spec_base_ptr() <= addr
                    &&& addr + layout.size() <= self.spec_base_ptr() + self.spec_capacity()
                    &&& addr as int % layout.align() as int == 0
                },
                Err(error) => error is OutOfMemory,
            },
            layout.size() > self.spec_capacity() ==> r is Err,
    {
        let mut visitor = Visitor::of(self.used_atomic());
        self.allocate_by(&mut visitor, layout)
    }

    /// Allocates `layout` through a visitor of the arena's cursor.
    ///
    /// An empty layout makes no update of the cursor. Any other makes exactly one,
    /// and gets what is due at the value that this update finds; the update leaves
    /// the end of the range there, or what it found where there is no room.
    pub fn allocate_by(&self, visitor: &mut Visitor, layout: Layout) -> (r: Result<
        usize,
        ArenaError,
    >)
        requires
            old(visitor).spec_cursor() == self.spec_cursor(),
        ensures
            final(visitor).spec_cursor() == old(visitor).spec_cursor(),
            layout.size() == 0 ==> {
                &&& r == Ok::<usize, ArenaError>(layout.align())
                &&& final(visitor).visits() == old(visitor).visits()
            },
            layout.size() > 0 ==> {
                let visit = final(visitor).visits().last();
                &&& final(visitor).visits() == old(visitor).visits().push(visit)
                &&& visit.left == cursor_after(
                    visit.found,
                    self.spec_capacity(),
                    Request { base: self.spec_base_ptr(), layout },
                )
                &&& r == self.spec_allocate_at(visit.found, layout)
                &&& found(
                    self.spec_cursor(),
                    self.spec_base_ptr(),
                    self.spec_capacity(),
                    layout,
                    visit.found,
                )
                &&& match r {
                    Ok(addr) => {
                        &&& moved(self.spec_cursor(), visit.found, visit.left)
                        &&& self.spec_base_ptr() <= addr
                        &&& addr as int % layout.align() as int == 0
                        &&& visit.left == addr + layout.size() - self.spec_base_ptr()
                        &&& visit.left <= self.spec_capacity()
                    },
                    Err(error) => error is OutOfMemory && visit.left == visit.found,
                }
            },
            layout.size() > self.spec_capacity() ==> r is Err,
    {
        if layout.size() == 0 {
            return Ok(layout.align());
        }
        let seen: usize = match visitor.advance(self.base, self.size, layout) {
            Ok(seen) => seen,
            Err(seen) => seen,
        };
        proof {
            use_type_invariant(self);
            use_type_invariant(&layout);
            law_granted_range_is_sound(self.base, seen, self.size, layout);
            assert(found(self.spec_cursor(), self.base, self.size, layout, seen));
        }
        self.allocate_at(seen, layout)
    }
}

/// A named segment mapped for reading, at the address at which its creator
/// mapped it. It cannot allocate, and does not own the name.
pub struct ArenaView<'a> {
    mapping: Mapping,
    base: usize,
    size: usize,
    used: &'a AtomicUsize,
}

impl<'a> ArenaView<'a> {
    /// Where the data starts.
    pub closed spec fn spec_base_ptr(&self) -> usize {
        self.base
    }

    /// The bytes of data.
    pub closed spec fn spec_capacity(&self) -> usize {
        self.size
    }

    /// The mapping that the view lies in.
    pub closed spec fn spec_mapping(&self) -> Mapping {
        self.mapping
    }

    /// The cursor of the allocator.
    pub closed spec fn spec_cursor(&self) -> AtomicUsize {
        *self.used
    }

    /// What every view satisfies: the data follows the header and fills the mapping.
    #[verifier::type_invariant]
    pub open spec fn wf(&self) -> bool {
        &&& in_address_space(self.spec_mapping().addr, self.spec_mapping().len)
        &&& self.spec_base_ptr() == self.spec_mapping().addr + HEADER_SIZE
        &&& self.spec_capacity() == self.spec_mapping().len - HEADER_SIZE
    }

    /// The view in a mapping of a segment, whose header holds `cursor`.
    pub fn from_mapping(mapping: Mapping, cursor: &'a AtomicUsize) -> (view: ArenaView<'a>)
        requires
            mapping.holds_segment(),
        ensures
            view.spec_base_ptr() == mapping.addr + HEADER_SIZE,
            view.spec_capacity() == mapping.len - HEADER_SIZE,
            view.spec_mapping() == mapping,
            view.spec_cursor() == *cursor,
    {
        ArenaView {
            mapping,
            base: mapping.addr + HEADER_SIZE,
            size: mapping.len - HEADER_SIZE,
            used: cursor,
        }
    }

    /// The address at which the data starts.
    pub fn base_ptr(&self) -> (addr: usize)
        ensures
            addr == self.spec_base_ptr(),
            self.wf(),
    {
        proof {
            use_type_invariant(self);
        }
        self.base
    }

    /// The bytes of data, without the header.
    pub fn capacity(&self) -> (capacity: usize)
        ensures
            capacity == self.spec_capacity(),
            self.wf(),
    {
        proof {
            use_type_invariant(self);
        }
        self.size
    }

    /// The address of the mapping.
    pub fn fixed_base(&self) -> (addr: usize)
        ensures
            addr == self.spec_mapping().addr,
            self.wf(),
    {
        proof {
            use_type_invariant(self);
        }
        self.mapping.addr
    }

    /// The bytes that the writers have allocated so far: what the cursor holds at
    /// some moment of the call.
    pub fn used(&self) -> (used: usize)
        ensures
            loaded(self.spec_cursor(), used),
    {
        self.used.load(Ordering::Acquire)
    }

    /// The operation that gives the view's mapping back. The name stays.
    pub fn release(&self) -> (op: Release)
        ensures
            op == (Release::Unmapping { mapping: self.spec_mapping(), owner: false }),
            op.wf(),
            op.held() == (Held { fd: None, map: Some(self.spec_mapping()), created: false }),
    {
        Release::Unmapping { mapping: self.mapping, owner: false }
    }
}

/// A handle of a segment that was made for `size` bytes of data has a capacity of
/// `size` bytes, and so has a view.
pub proof fn law_segment_holds_what_it_was_made_for(arena: Arena, view: ArenaView, size: usize)
    requires
        arena.wf(),
        view.wf(),
        arena.spec_name() is Some,
        arena.spec_mapping().len == HEADER_SIZE + size,
        view.spec_mapping().len == HEADER_SIZE + size,
    ensures
        arena.spec_capacity() == size,
        view.spec_capacity() == size,
{
}

/// Handles of one segment whose data start at addresses that agree modulo the
/// alignment give an allocation that finds the cursor at `seen` the same place in
/// the data, or the same refusal. Mappings start at a page, so this holds of all
/// handles for alignments up to a page; for a greater one the places may differ,
/// since each handle aligns the address that it gives.
pub proof fn law_handles_agree_on_places(a: Arena, b: Arena, seen: usize, layout: Layout)
    requires
        a.wf(),
        b.wf(),
        layout.wf(),
        a.spec_capacity() == b.spec_capacity(),
        a.spec_base_ptr() as int % layout.align() as int == b.spec_base_ptr() as int
            % layout.align() as int,
    ensures
        match (a.spec_allocate_at(seen, layout), b.spec_allocate_at(seen, layout)) {
            (Ok(p), Ok(q)) => p - a.spec_base_ptr() == q - b.spec_base_ptr(),
            (Err(p), Err(q)) => p == q,
            _ => false,
        },
{
    let align = layout.align() as int;
    reveal(is_pow2);
    law_granted_range_is_sound(a.spec_base_ptr(), seen, a.spec_capacity(), layout);
    law_granted_range_is_sound(b.spec_base_ptr(), seen, b.spec_capacity(), layout);
    lemma_add_mod_noop(a.spec_base_ptr() as int, seen as int, align);
    lemma_add_mod_noop(b.spec_base_ptr() as int, seen as int, align);
}

/// The address of an allocation is a multiple of its alignment.
pub proof fn law_addresses_are_aligned(arena: Arena, seen: usize, layout: Layout)
    requires
        arena.wf(),
        layout.wf(),
    ensures
        arena.spec_allocate_at(seen, layout) matches Ok(addr) ==> addr as int % layout.align() as int
            == 0,
{
    law_granted_range_is_sound(arena.spec_base_ptr(), seen, arena.spec_capacity(), layout);
}

/// What a handle tells of itself follows from its mapping: the data lie after the
/// header, where there is one, and fill the mapping, the length is that of the
/// mapping, and what is left is the capacity without what is used, or nothing.
pub proof fn law_handles_tell_their_mapping(
    arena: Arena,
    capacity: usize,
    base: usize,
    len: usize,
    fixed: usize,
    used: usize,
    left: usize,
)
    requires
        arena.wf(),
        call_ensures(Arena::capacity, (&arena,), capacity),
        call_ensures(Arena::base_ptr, (&arena,), base),
        call_ensures(Arena::segment_len, (&arena,), len),
        call_ensures(Arena::fixed_base, (&arena,), fixed),
        call_ensures(Arena::remaining_at, (&arena, used), left),
    ensures
        len == arena.spec_mapping().len,
        arena.spec_name() is Some ==> base == arena.spec_mapping().addr + HEADER_SIZE && capacity
            == len - HEADER_SIZE,
        arena.spec_name() is None ==> base == arena.spec_mapping().addr && capacity == len,
        fixed == arena.spec_recorded_base(),
        arena.spec_owner() ==> fixed == base - HEADER_SIZE,
        arena.spec_name() is None ==> fixed == base,
        used <= capacity ==> used + left == capacity,
        used > capacity ==> left == 0,
{
}

/// What a view tells of itself follows from its mapping, as with a handle that
/// does not own the name; it lies where it says, and gives back its own mapping.
pub proof fn law_views_tell_their_mapping(
    view: ArenaView,
    capacity: usize,
    base: usize,
    fixed: usize,
    op: Release,
)
    requires
        view.wf(),
        call_ensures(ArenaView::capacity, (&view,), capacity),
        call_ensures(ArenaView::base_ptr, (&view,), base),
        call_ensures(ArenaView::fixed_base, (&view,), fixed),
        call_ensures(ArenaView::release, (&view,), op),
    ensures
        fixed == view.spec_mapping().addr,
        base == fixed + HEADER_SIZE,
        capacity == view.spec_mapping().len - HEADER_SIZE,
        op == (Release::Unmapping { mapping: view.spec_mapping(), owner: false }),
{
}

/// Whatever value an allocation finds the cursor at, it gets the first aligned
/// address from there on whose range ends within the data, and is refused exactly
/// where there is none; the refusal tells the bytes that padding and size would take
/// and the bytes that are left.
pub proof fn law_allocation_gets_the_first_aligned_address(
    arena: Arena,
    seen: usize,
    layout: Layout,
    r: Result<usize, ArenaError>,
)
    requires
        arena.wf(),
        layout.wf(),
        call_ensures(Arena::allocate_at, (&arena, seen, layout), r),
    ensures
        ({
            let first = arena.spec_base_ptr() + seen;
            let end = arena.spec_base_ptr() + arena.spec_capacity();
            match r {
                Ok(addr) => {
                    &&& first <= addr < first + layout.align()
                    &&& addr as int % layout.align() as int == 0
                    &&& addr + layout.size() <= end
                },
                Err(error) => {
                    &&& error matches ArenaError::OutOfMemory { requested, available }
                    &&& layout.size() <= requested < layout.size() + layout.align()
                    &&& (first + requested - layout.size()) % (layout.align() as int) == 0
                    &&& first + requested > end
                    &&& available == if first <= end {
                        end - first
                    } else {
                        0
                    }
                },
            }
        }),
{
    let align = layout.align() as int;
    reveal(is_pow2);
    law_granted_range_is_sound(arena.spec_base_ptr(), seen, arena.spec_capacity(), layout);
    lemma_start_of(arena.spec_base_ptr() as int, seen as int, align);
}

/// A handle is made of its mapping as the system gave it, with its name, its
/// ownership and its cursor, and gives that mapping back, with the name exactly
/// where it owns it.
pub proof fn law_handles_are_made_of_their_mapping(
    mapping: Mapping,
    recorded_base: usize,
    name: ShmName,
    owner: bool,
    cursor: &AtomicUsize,
    arena: Arena,
    op: Release,
)
    requires
        mapping.holds_segment(),
        owner ==> recorded_base == mapping.addr,
        call_ensures(
            Arena::from_named_mapping,
            (mapping, recorded_base, name, owner, cursor),
            arena,
        ),
        call_ensures(Arena::release, (&arena,), op),
    ensures
        arena.spec_mapping() == mapping,
        arena.spec_recorded_base() == recorded_base,
        arena.spec_name() == Some(name@),
        arena.spec_owner() == owner,
        arena.spec_cursor() == *cursor,
        arena.spec_base_ptr() == mapping.addr + HEADER_SIZE,
        arena.spec_capacity() == mapping.len - HEADER_SIZE,
        op == (Release::Unmapping { mapping, owner }),
{
}

/// The arena in memory without a name is all of that memory.
pub proof fn law_anonymous_arena_fills_its_mapping(mapping: Mapping, arena: Arena, op: Release)
    requires
        in_address_space(mapping.addr, mapping.len),
        call_ensures(Arena::from_anonymous_mapping, (mapping,), arena),
        call_ensures(Arena::release, (&arena,), op),
    ensures
        arena.spec_mapping() == mapping,
        arena.spec_name() is None,
        !arena.spec_owner(),
        arena.spec_base_ptr() == mapping.addr,
        arena.spec_capacity() == mapping.len,
        made_with_zero(arena.spec_cursor()),
        op == (Release::Unmapping { mapping, owner: false }),
{
}

/// A view is made of its mapping as the system gave it, and of the cursor.
pub proof fn law_views_are_made_of_their_mapping(
    mapping: Mapping,
    cursor: &AtomicUsize,
    view: ArenaView,
    used: usize,
)
    requires
        mapping.holds_segment(),
        call_ensures(ArenaView::from_mapping, (mapping, cursor), view),
        call_ensures(ArenaView::used, (&view,), used),
    ensures
        view.spec_mapping() == mapping,
        view.spec_base_ptr() == mapping.addr + HEADER_SIZE,
        view.spec_capacity() == mapping.len - HEADER_SIZE,
        view.spec_cursor() == *cursor,
        loaded(*cursor, used),
{
}

/// What an arena says is used is what a load of its cursor gives, and what it says is
/// left is the rest of the capacity at such a value.
pub proof fn law_used_and_left_come_from_the_cursor(arena: Arena, used: usize, left: usize)
    requires
        call_ensures(Arena::used, (&arena,), used),
        call_ensures(Arena::remaining, (&arena,), left),
    ensures
        loaded(arena.spec_cursor(), used),
        exists|seen: usize| #[trigger]
            loaded(arena.spec_cursor(), seen) && {
                ||| seen <= arena.spec_capacity() && seen + left == arena.spec_capacity()
                ||| seen > arena.spec_capacity() && left == 0
            },
{
}

/// An empty allocation gets its alignment for an address. Any other finds the cursor
/// at some value and gets what is due there: where that is an address, the cursor has
/// moved from the value found to the end of the range.
pub proof fn law_allocation_moves_the_cursor_to_its_end(
    arena: Arena,
    layout: Layout,
    r: Result<usize, ArenaError>,
)
    requires
        arena.wf(),
        layout.wf(),
        call_ensures(Arena::allocate, (&arena, layout), r),
    ensures
        layout.size() == 0 ==> r == Ok::<usize, ArenaError>(layout.align()),
        layout.size() > 0 ==> exists|seen: usize|
            {
                &&& #[trigger] found(
                    arena.spec_cursor(),
                    arena.spec_base_ptr(),
                    arena.spec_capacity(),
                    layout,
                    seen,
                )
                &&& r == arena.spec_allocate_at(seen, layout)
                &&& r matches Ok(addr) ==> {
                    &&& arena.spec_base_ptr() + seen <= addr < arena.spec_base_ptr() + seen
                        + layout.align()
                    &&& addr as int % layout.align() as int == 0
                    &&& addr + layout.size() <= arena.spec_base_ptr() + arena.spec_capacity()
                    &&& moved(
                        arena.spec_cursor(),
                        seen,
                        (addr + layout.size() - arena.spec_base_ptr()) as usize,
                    )
                }
            },
{
    if layout.size() > 0 {
        let seen = choose|seen: usize|
            {
                &&& #[trigger] found(
                    arena.spec_cursor(),
                    arena.spec_base_ptr(),
                    arena.spec_capacity(),
                    layout,
                    seen,
                )
                &&& r == arena.spec_allocate_at(seen, layout)
                &&& r is Ok ==> moved(
                    arena.spec_cursor(),
                    seen,
                    planned(
                        arena.spec_base_ptr(),
                        seen,
                        arena.spec_capacity(),
                        layout,
                    )->Ok_0.end,
                )
            };
        law_granted_range_is_sound(arena.spec_base_ptr(), seen, arena.spec_capacity(), layout);
        assert(found(
            arena.spec_cursor(),
            arena.spec_base_ptr(),
            arena.spec_capacity(),
            layout,
            seen,
        ));
    }
}

/// Two allocations through one visitor whom nobody disturbs in between, the first of
/// which finds the cursor at `first`: both get what is due, the second at the end of
/// the first, or at `first` where the first was refused. So nothing is lost between
/// them, and the cursor is left at the end of what was granted last.
pub proof fn law_two_allocations_of_a_lone_caller(
    arena: Arena,
    a: Layout,
    b: Layout,
    first: usize,
    visits: Seq<Visit>,
    p: Result<usize, ArenaError>,
    q: Result<usize, ArenaError>,
)
    requires
        arena.wf(),
        a.wf(),
        b.wf(),
        a.size() > 0,
        b.size() > 0,
        undisturbed(first, visits),
        one_update_each(
            arena.spec_capacity(),
            seq![
                Request { base: arena.spec_base_ptr(), layout: a },
                Request { base: arena.spec_base_ptr(), layout: b },
            ],
            visits,
        ),
        p == arena.spec_allocate_at(visits[0].found, a),
        q == arena.spec_allocate_at(visits[1].found, b),
    ensures
        p == arena.spec_allocate_at(first, a),
        p matches Ok(addr) ==> q == arena.spec_allocate_at(
            (addr + a.size() - arena.spec_base_ptr()) as usize,
            b,
        ),
        p is Err ==> q == arena.spec_allocate_at(first, b),
        q matches Ok(addr) ==> visits[1].left == addr + b.size() - arena.spec_base_ptr(),
        p is Ok && q is Ok ==> p->Ok_0 + a.size() <= q->Ok_0 < p->Ok_0 + a.size() + b.align(),
{
    law_granted_range_is_sound(arena.spec_base_ptr(), first, arena.spec_capacity(), a);
    law_granted_range_is_sound(
        arena.spec_base_ptr(),
        visits[1].found,
        arena.spec_capacity(),
        b,
    );
    assert(visits[0].found == first);
    assert(visits[1].found == visits[0].left);
}

/// An arena is called by what it is: without a name, the owner of its name, or
/// attached.
pub proof fn law_kinds_are_told_apart(arena: Arena, kind: &str)
    requires
        call_ensures(Arena::kind, (&arena,), kind),
    ensures
        arena.spec_name() is None ==> kind@ == "anonymous"@,
        arena.spec_name() is Some && arena.spec_owner() ==> kind@ == "named(owner)"@,
        arena.spec_name() is Some && !arena.spec_owner() ==> kind@ == "named(attached)"@,
{
}

} // verus!
