//! The bump allocator, one allocation at a time.

use dlsm_shm::bump::{next_cursor, plan, Reservation};
use dlsm_shm::call::{Operation, Progress, Reply};
use dlsm_shm::{Arena, ArenaError, Layout};

const BASE: usize = 0x7000_0000_0000;

/// An arena in memory that the system mapped at `BASE`.
fn anonymous(size: usize) -> Result<Arena<'static>, ArenaError> {
    anonymous_at(BASE, size)
}

/// An arena in memory that the system mapped at `base`.
fn anonymous_at(base: usize, size: usize) -> Result<Arena<'static>, ArenaError> {
    let op = Arena::new_anonymous(size)?;
    match op.step(Reply::Addr(base)) {
        Progress::Done(Ok(mapping)) => Ok(Arena::from_anonymous_mapping(mapping)),
        Progress::Done(Err(error)) => Err(error),
        Progress::Pending(_) => panic!("one call is enough"),
    }
}

#[test]
fn alloc_returns_pointer_within_arena() {
    let arena = anonymous(4096).unwrap();
    let layout = Layout::from_size_align(64, 8).unwrap();

    let addr = arena
        .allocate(layout)
        .expect("first 64-byte alloc must succeed");

    let base = arena.base_ptr();
    assert!(addr >= base, "allocation must lie at or above base");
    assert!(
        addr + 64 <= base + arena.capacity(),
        "must lie within arena"
    );
    assert_eq!(addr % 8, 0, "must satisfy alignment");
}

#[test]
fn alloc_advances_used_offset() {
    let arena = anonymous(4096).unwrap();
    let layout = Layout::from_size_align(64, 8).unwrap();

    arena.allocate(layout).unwrap();
    assert_eq!(arena.used(), 64);
    assert_eq!(arena.remaining(), 4096 - 64);

    arena.allocate(layout).unwrap();
    assert_eq!(arena.used(), 128);
}

#[test]
fn alloc_returns_distinct_pointers() {
    let arena = anonymous(4096).unwrap();
    let layout = Layout::from_size_align(16, 8).unwrap();

    let p1 = arena.allocate(layout).unwrap();
    let p2 = arena.allocate(layout).unwrap();
    assert_ne!(p1, p2);
    assert!(p2 >= p1 + 16, "p2 must not overlap p1");
}

#[test]
fn alloc_respects_larger_alignment() {
    let arena = anonymous(4096).unwrap();
    // One byte first, so that the cursor is no multiple of 64.
    arena
        .allocate(Layout::from_size_align(1, 1).unwrap())
        .unwrap();

    let layout = Layout::from_size_align(64, 64).unwrap();
    let p = arena.allocate(layout).unwrap();
    assert_eq!(p % 64, 0);
    assert_eq!(p, BASE + 64);
    assert_eq!(arena.used(), 128);
}

#[test]
fn alloc_returns_oom_when_exceeding_capacity() {
    let arena = anonymous(128).unwrap();
    let big = Layout::from_size_align(256, 8).unwrap();

    let err = arena.allocate(big).expect_err("256 > 128 must OOM");
    match err {
        ArenaError::OutOfMemory {
            requested,
            available,
        } => {
            assert_eq!(requested, 256);
            assert_eq!(available, 128);
        }
        other => panic!("expected OutOfMemory, got {other:?}"),
    }

    // A refusal does not move the cursor.
    assert_eq!(arena.used(), 0);
}

#[test]
fn alloc_zero_size_returns_dangling_in_capacity() {
    let arena = anonymous(64).unwrap();
    let layout = Layout::from_size_align(0, 16).unwrap();

    let p = arena
        .allocate(layout)
        .expect("zero-size alloc returns sentinel");
    assert_eq!(p % 16, 0);
    assert_eq!(p, 16);
    assert_eq!(arena.used(), 0, "zero-size alloc must not consume capacity");
}

#[test]
fn alloc_huge_layout_returns_oom_not_panic() {
    let arena = anonymous(64).unwrap();
    let layout = Layout::from_size_align(isize::MAX as usize, 1).unwrap();
    let err = arena.allocate(layout).expect_err("isize::MAX must OOM");
    assert!(matches!(err, ArenaError::OutOfMemory { .. }));
}

#[test]
fn alloc_oom_due_to_padding_reports_padded_request() {
    // One byte of 72 is taken: 63 bytes of padding and 64 of data do not fit.
    let arena = anonymous(72).unwrap();
    arena
        .allocate(Layout::from_size_align(1, 1).unwrap())
        .unwrap();

    let err = arena
        .allocate(Layout::from_size_align(64, 64).unwrap())
        .expect_err("padding + size > remaining must OOM");
    assert!(matches!(err, ArenaError::OutOfMemory { .. }));
    assert_eq!(
        err,
        ArenaError::OutOfMemory {
            requested: 127,
            available: 71
        }
    );
    assert_eq!(arena.used(), 1);
}

#[test]
fn allocation_fills_the_arena_to_the_last_byte() {
    let arena = anonymous(128).unwrap();
    let layout = Layout::from_size_align(64, 8).unwrap();
    assert_eq!(arena.allocate(layout), Ok(BASE));
    assert_eq!(arena.allocate(layout), Ok(BASE + 64));
    assert_eq!(arena.remaining(), 0);
    assert_eq!(
        arena.allocate(Layout::from_size_align(1, 1).unwrap()),
        Err(ArenaError::OutOfMemory {
            requested: 1,
            available: 0
        })
    );
}

#[test]
fn allocations_of_all_shapes_do_not_overlap() {
    let arena = anonymous(4096).unwrap();
    let shapes = [(1, 1), (24, 8), (3, 2), (100, 64), (7, 4), (256, 256), (5, 1)];
    let mut end = BASE;
    for (size, align) in shapes {
        let p = arena
            .allocate(Layout::from_size_align(size, align).unwrap())
            .unwrap();
        assert!(p >= end);
        assert!(p < end + align);
        assert_eq!((p - BASE) % align, 0);
        end = p + size;
        assert_eq!(arena.used(), end - BASE);
    }
}

#[test]
fn a_refused_allocation_leaves_room_for_a_smaller_one() {
    let arena = anonymous(100).unwrap();
    assert!(arena
        .allocate(Layout::from_size_align(101, 1).unwrap())
        .is_err());
    assert_eq!(
        arena.allocate(Layout::from_size_align(100, 1).unwrap()),
        Ok(BASE)
    );
}

#[test]
fn outcome_is_known_for_every_cursor_value() {
    let arena = anonymous(4096).unwrap();
    let layout = Layout::from_size_align(64, 64).unwrap();
    assert_eq!(arena.allocate_at(0, layout), Ok(BASE));
    assert_eq!(arena.allocate_at(1, layout), Ok(BASE + 64));
    assert_eq!(arena.allocate_at(4032, layout), Ok(BASE + 4032));
    assert_eq!(
        arena.allocate_at(4033, layout),
        Err(ArenaError::OutOfMemory {
            requested: 127,
            available: 63
        })
    );
    // A cursor beyond the capacity leaves nothing, up to the end of the word.
    assert_eq!(
        arena.allocate_at(5000, layout),
        Err(ArenaError::OutOfMemory {
            requested: 120,
            available: 0
        })
    );
    assert_eq!(
        arena.allocate_at(usize::MAX, layout),
        Err(ArenaError::OutOfMemory {
            requested: 65,
            available: 0
        })
    );
    assert_eq!(arena.remaining_at(0), 4096);
    assert_eq!(arena.remaining_at(4000), 96);
    assert_eq!(arena.remaining_at(5000), 0);
}

#[test]
fn layouts_are_powers_of_two_and_not_too_large() {
    assert!(Layout::from_size_align(8, 0).is_err());
    assert!(Layout::from_size_align(8, 3).is_err());
    assert!(Layout::from_size_align(8, 12).is_err());
    assert!(Layout::from_size_align(isize::MAX as usize, 2).is_err());
    assert!(Layout::from_size_align(isize::MAX as usize - 1, 2).is_ok());
    assert!(Layout::from_size_align(0, 1 << 63).is_ok());
    assert!(Layout::from_size_align(1, 1 << 63).is_err());
    let layout = Layout::from_size_align(24, 8).unwrap();
    assert_eq!(layout.size(), 24);
    assert_eq!(layout.align(), 8);
}

#[test]
fn addresses_are_aligned_wherever_the_data_starts() {
    for base in [BASE, BASE + 1, BASE + 24, BASE + 64, BASE + 4095] {
        for align in [1, 2, 8, 64, 128, 4096, 1 << 20] {
            let arena = anonymous_at(base, 4 << 20).unwrap();
            arena
                .allocate(Layout::from_size_align(3, 1).unwrap())
                .unwrap();
            let layout = Layout::from_size_align(40, align).unwrap();
            let p = arena.allocate(layout).unwrap();
            assert_eq!(p % align, 0);
            assert!(p >= base + 3 && p < base + 3 + align);
            assert_eq!(arena.used(), p + 40 - base);
            let q = arena.allocate(layout).unwrap();
            assert_eq!(q % align, 0);
            assert!(q >= p + 40);
        }
    }
}

#[test]
fn plan_aligns_the_address_up_to_the_end_of_the_word() {
    let layout = Layout::from_size_align(8, 16).unwrap();
    assert_eq!(
        plan(24, 0, 100, layout),
        Ok(Reservation {
            seen: 0,
            start: 8,
            end: 16
        })
    );
    assert_eq!(next_cursor(24, 0, 100, layout), Some(16));
    assert_eq!(next_cursor(24, 0, 15, layout), None);
    // The sum of base and cursor leaves the word.
    assert_eq!(
        plan(usize::MAX - 7, 9, 100, layout),
        Ok(Reservation {
            seen: 9,
            start: 24,
            end: 32
        })
    );
    assert_eq!(
        plan(usize::MAX, usize::MAX, usize::MAX, layout),
        Err(ArenaError::OutOfMemory {
            requested: 10,
            available: 0
        })
    );
}
