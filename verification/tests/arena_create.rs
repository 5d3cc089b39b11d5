//! Arenas without a name.

use dlsm_shm::call::{Call, Operation, Progress, Reply};
use dlsm_shm::error::OsError;
use dlsm_shm::release::Release;
use dlsm_shm::{Arena, ArenaError};

const BASE: usize = 0x7000_0000_0000;

/// The outcome of mapping an arena where the system gives `reply`.
fn anonymous(size: usize, reply: Reply) -> Result<Arena<'static>, ArenaError> {
    let op = Arena::new_anonymous(size)?;
    match op.step(reply) {
        Progress::Done(Ok(mapping)) => Ok(Arena::from_anonymous_mapping(mapping)),
        Progress::Done(Err(error)) => Err(error),
        Progress::Pending(_) => panic!("one call is enough"),
    }
}

#[test]
fn creates_anonymous_arena_with_given_capacity() {
    let arena =
        anonymous(4096, Reply::Addr(BASE)).expect("anonymous arena should be creatable");
    assert_eq!(arena.capacity(), 4096);
    assert_eq!(arena.used(), 0);
    assert_eq!(arena.remaining(), 4096);
    assert_eq!(arena.base_ptr(), BASE);
    assert_eq!(arena.fixed_base(), BASE);
    assert_eq!(arena.segment_len(), 4096);
    assert_eq!(arena.kind(), "anonymous");
}

#[test]
fn rejects_zero_size_anonymous_arena() {
    let err = Arena::new_anonymous(0).expect_err("zero size must error");
    assert!(matches!(err, ArenaError::ZeroSize));
    assert_eq!(err.to_string(), "arena size must be non-zero");
}

#[test]
fn mmap_failure_reports_io_error() {
    let huge = usize::MAX - 4096;
    let failure = Reply::Failed(OsError { code: libc::ENOMEM });
    let err = match anonymous(huge, failure) {
        Ok(_) => panic!("near-max size must fail"),
        Err(err) => err,
    };
    match err {
        ArenaError::Mmap(io) => {
            assert!(io.raw_os_error().is_some(), "must carry an OS errno");
            assert_eq!(io.raw_os_error(), Some(libc::ENOMEM));
        }
        other => panic!("expected Mmap error, got {other:?}"),
    }
}

#[test]
fn anonymous_arena_asks_for_shared_writable_memory() {
    let op = Arena::new_anonymous(4096).unwrap();
    assert_eq!(
        op.call(),
        Call::Mmap {
            from: None,
            len: 4096,
            writable: true,
            at: None
        }
    );
}

#[test]
fn anonymous_arena_is_unmapped_and_nothing_else() {
    let arena = anonymous(4096, Reply::Addr(BASE)).unwrap();
    let op = arena.release();
    assert_eq!(
        op.call(),
        Call::Munmap {
            addr: BASE,
            len: 4096
        }
    );
    assert_eq!(op.step(Reply::Done), Progress::<Release, ()>::Done(Ok(())));
}
