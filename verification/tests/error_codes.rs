//! Codes and messages of the errors.

use dlsm_shm::error::OsError;
use dlsm_shm::text::render;
use dlsm_shm::ArenaError;

#[test]
fn error_codes_are_stable_and_in_shm_range() {
    assert_eq!(ArenaError::ZeroSize.code(), 10003);
    assert_eq!(ArenaError::AlreadyExists.code(), 10007);
    assert_eq!(ArenaError::NotFound.code(), 10008);
    assert_eq!(ArenaError::BadMagic.code(), 10010);
    assert_eq!(
        ArenaError::OutOfMemory {
            requested: 256,
            available: 128
        }
        .code(),
        10004
    );
    assert_eq!(
        ArenaError::VersionMismatch {
            segment: 2,
            expected: 1
        }
        .code(),
        10011
    );
}

#[test]
fn display_messages_are_english() {
    assert_eq!(
        ArenaError::ZeroSize.to_string(),
        "arena size must be non-zero"
    );
    assert_eq!(
        ArenaError::OutOfMemory {
            requested: 256,
            available: 128
        }
        .to_string(),
        "out of memory: requested 256 bytes, available 128"
    );
    assert_eq!(
        ArenaError::VersionMismatch {
            segment: 2,
            expected: 1
        }
        .to_string(),
        "shm header version mismatch: segment=2, expected=1"
    );
}

#[test]
fn every_error_has_its_code_and_message() {
    let e = OsError { code: 12 };
    let all = [
        (ArenaError::Mmap(e), 10001, "mmap failed: why"),
        (ArenaError::Munmap(e), 10002, "munmap failed: why"),
        (ArenaError::ZeroSize, 10003, "arena size must be non-zero"),
        (ArenaError::ShmOpen(e), 10005, "shm_open failed: why"),
        (ArenaError::Ftruncate(e), 10006, "ftruncate failed: why"),
        (ArenaError::AlreadyExists, 10007, "named segment already exists"),
        (ArenaError::NotFound, 10008, "named segment not found"),
        (ArenaError::InvalidName, 10009, "invalid shm name"),
        (
            ArenaError::BadMagic,
            10010,
            "bad shm header magic (not a DLSM segment or corrupted)",
        ),
        (
            ArenaError::BaseAddrUnavailable,
            10012,
            "fixed base address is occupied in this process",
        ),
    ];
    for (error, code, message) in all {
        assert_eq!(error.code(), code);
        assert_eq!(error.message_with("why"), message);
    }
}

#[test]
fn message_of_a_failed_call_ends_with_the_text_of_the_system() {
    let error = ArenaError::Mmap(OsError { code: libc::ENOMEM });
    let text = std::io::Error::from_raw_os_error(libc::ENOMEM).to_string();
    assert_eq!(error.to_string(), format!("mmap failed: {text}"));
    assert_eq!(error.source(), Some(OsError { code: libc::ENOMEM }));
    assert_eq!(ArenaError::NotFound.source(), None);
}

#[test]
fn numbers_are_rendered_in_decimal() {
    for n in [0, 7, 10, 99, 100, 1_000_000_007, u64::MAX] {
        assert_eq!(render(n), format!("{n}"));
    }
    assert_eq!(render(u64::MAX), "18446744073709551615");
}
