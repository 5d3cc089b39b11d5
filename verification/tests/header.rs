//! The header of a segment, its bytes and its numbers.

use dlsm_shm::encoding::{decode, encode, state_offset, ByteOrder, USED_OFFSET};
use dlsm_shm::header::{
    gen_nonce, SegmentHeader, Stamp, HEADER_MAGIC, HEADER_SIZE, HEADER_VERSION, STATE_ACTIVE,
};
use dlsm_shm::name::to_shm_name;
use dlsm_shm::ArenaError;

const STAMP: Stamp = Stamp {
    pid: 4242,
    clock: Some((1_700_000_000, 123_456_789)),
    count: 3,
};

#[test]
fn fresh_header_records_the_creation() {
    let header = SegmentHeader::fresh(4160, 0x7000_0000_0000, STAMP);
    assert_eq!(header.magic, HEADER_MAGIC);
    assert_eq!(header.version, HEADER_VERSION);
    assert_eq!(header.total_size, 4160);
    assert_eq!(header.base_addr, 0x7000_0000_0000);
    assert_eq!(header.owner_pid, 4242);
    assert_eq!(header.boot_nonce, gen_nonce(STAMP));
    assert_eq!(header.used, 0);
    assert_eq!(header.state, STATE_ACTIVE);
    assert_eq!(header.check(), Ok(()));
    assert_eq!(header.recorded_base(), 0x7000_0000_0000);
    assert_eq!(header.recorded_owner(), 4242);
}

#[test]
fn header_with_another_magic_or_version_is_refused() {
    let good = SegmentHeader::fresh(4160, 0x7000_0000_0000, STAMP);
    let bad = SegmentHeader { magic: 1, version: 9, ..good };
    assert_eq!(bad.check(), Err(ArenaError::BadMagic));
    let old = SegmentHeader { version: 2, ..good };
    assert_eq!(
        old.check(),
        Err(ArenaError::VersionMismatch {
            segment: 2,
            expected: 1
        })
    );
}

#[test]
fn impossible_owner_is_nobody() {
    let good = SegmentHeader::fresh(4160, 0x7000_0000_0000, STAMP);
    let odd = SegmentHeader { owner_pid: u64::MAX, ..good };
    assert_eq!(odd.recorded_owner(), -1);
}

#[test]
fn nonce_mixes_clock_process_and_count() {
    let t: u64 = 1_700_000_000_123_456_789;
    let expected = t ^ (4242u64 << 32) ^ 3u64.wrapping_mul(0x9E37_79B9_7F4A_7C15);
    assert_eq!(gen_nonce(STAMP), expected);
    let early = Stamp { pid: 1, clock: None, count: 0 };
    assert_eq!(gen_nonce(early), 1 << 32);
    let late = Stamp { pid: 0, clock: Some((u64::MAX, 7)), count: 0 };
    assert_eq!(
        gen_nonce(late),
        u64::MAX.wrapping_mul(1_000_000_000).wrapping_add(7)
    );
}

#[test]
fn counts_tell_creations_apart() {
    let mut seen = Vec::new();
    for count in [0, 1, 2, 3, 1 << 32, 1 << 63, u64::MAX - 1, u64::MAX] {
        let number = gen_nonce(Stamp { count, ..STAMP });
        assert!(!seen.contains(&number));
        seen.push(number);
    }
}

#[test]
fn header_fields_have_fixed_places() {
    let header = SegmentHeader {
        magic: HEADER_MAGIC,
        version: 0x0403_0201,
        total_size: 0x18,
        base_addr: 0x19,
        owner_pid: 0x1A,
        boot_nonce: 0x1B,
        used: 0x1C,
        state: 0x1D,
    };
    let bytes = encode(ByteOrder::Little, &header);
    assert_eq!(bytes.len(), HEADER_SIZE);
    assert_eq!(bytes.len(), 64);
    assert_eq!(&bytes[0..8], b"NRA_MSLD");
    assert_eq!(&bytes[8..16], &[1, 2, 3, 4, 0, 0, 0, 0]);
    assert_eq!(bytes[16], 0x18);
    assert_eq!(bytes[24], 0x19);
    assert_eq!(bytes[32], 0x1A);
    assert_eq!(bytes[40], 0x1B);
    assert_eq!(bytes[48], 0x1C);
    assert_eq!(bytes[56], 0x1D);
    assert_eq!(decode(ByteOrder::Little, &bytes), header);
}

#[test]
fn header_has_the_byte_order_of_the_machine() {
    let header = SegmentHeader {
        magic: HEADER_MAGIC,
        version: 0x0403_0201,
        total_size: 0x0102_0304_0506_0708,
        base_addr: 0x19,
        owner_pid: 0x1A,
        boot_nonce: 0x1B,
        used: 0x1C,
        state: 0x1D,
    };
    let bytes = encode(ByteOrder::Big, &header);
    assert_eq!(bytes.len(), HEADER_SIZE);
    assert_eq!(&bytes[0..8], b"DLSM_ARN");
    assert_eq!(&bytes[8..16], &[4, 3, 2, 1, 0, 0, 0, 0]);
    assert_eq!(&bytes[16..24], &[1, 2, 3, 4, 5, 6, 7, 8]);
    assert_eq!(bytes[31], 0x19);
    assert_eq!(bytes[39], 0x1A);
    assert_eq!(bytes[47], 0x1B);
    assert_eq!(
        &bytes[USED_OFFSET..state_offset()],
        &0x1Cusize.to_be_bytes()
    );
    assert_eq!(bytes[state_offset()], 0x1D);
    assert!(bytes[state_offset() + 1..].iter().all(|&b| b == 0));
    assert_eq!(decode(ByteOrder::Big, &bytes), header);
    assert_eq!(decode(ByteOrder::Little, &bytes).version, 0x0102_0304);
    assert_eq!(USED_OFFSET, 48);
    assert_eq!(state_offset(), 48 + core::mem::size_of::<usize>());
}

#[test]
fn names_get_a_slash_and_hold_no_nul() {
    assert_eq!(to_shm_name("seg").unwrap().as_str(), "/seg");
    assert_eq!(to_shm_name("/seg").unwrap().as_str(), "/seg");
    assert_eq!(to_shm_name("").unwrap().as_str(), "/");
    assert_eq!(to_shm_name("段/x").unwrap().as_str(), "/段/x");
    assert!(matches!(to_shm_name("a\0b"), Err(ArenaError::InvalidName)));
    assert!(matches!(to_shm_name("/\0"), Err(ArenaError::InvalidName)));
}
