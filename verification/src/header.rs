//! The header at the start of a named segment.

use crate::error::ArenaError;
use vstd::arithmetic::div_mod::{
    lemma_add_mod_noop, lemma_mod_multiples_vanish, lemma_mul_mod_noop_left, lemma_small_mod,
};
use vstd::prelude::*;

verus! {

/// What a segment starts with: the characters `DLSM_ARN`.
pub const HEADER_MAGIC: u64 = 0x444C_534D_5F41_524E;

/// The format version that this library writes and reads.
pub const HEADER_VERSION: u32 = 1;

/// The bytes that the header takes: one cache line. The data follows.
pub const HEADER_SIZE: usize = 64;

/// The state of a segment in use. Zero stands for a segment that is being set
/// up, two for one that was closed in order.
pub const STATE_ACTIVE: u8 = 1;

/// The fields of a segment header.
#[derive(Clone, Copy, Debug, PartialEq, Eq)]
pub struct SegmentHeader {
    pub magic: u64,
    pub version: u32,
    /// The length of the whole segment, header included.
    pub total_size: u64,
    /// The address at which the creator mapped the segment.
    pub base_addr: u64,
    /// The process that created the segment.
    pub owner_pid: u64,
    /// The number of this creation.
    pub boot_nonce: u64,
    /// The cursor of the allocator.
    pub used: usize,
    /// The state of the segment.
    pub state: u8,
}

/// Who creates a segment, and when.
#[derive(Clone, Copy, Debug, PartialEq, Eq)]
pub struct Stamp {
    /// The creating process.
    pub pid: u32,
    /// The seconds and nanoseconds since the Unix epoch, unless the clock stands
    /// before it.
    pub clock: Option<(u64, u32)>,
    /// How many numbers the process has drawn before.
    pub count: u64,
}

/// The nanoseconds since the Unix epoch, modulo the word; zero before the epoch.
pub open spec fn clock_reading(clock: Option<(u64, u32)>) -> u64 {
    match clock {
        Some((secs, nanos)) => ((secs * 1_000_000_000 + nanos) % 0x1_0000_0000_0000_0000) as u64,
        None => 0,
    }
}

/// The number that tells one creation of a process from the others that it makes
/// at the same reading of the clock: the clock, the process and the count, mixed.
pub open spec fn nonce(stamp: Stamp) -> u64 {
    clock_reading(stamp.clock) ^ ((stamp.pid as u64) << 32) ^ ((stamp.count
        * 0x9E37_79B9_7F4A_7C15) % 0x1_0000_0000_0000_0000) as u64
}

/// Mixes the clock, the process and the count into the number of a creation.
pub fn gen_nonce(stamp: Stamp) -> (r: u64)
    ensures
        r == nonce(stamp),
{
    let t: u64 = match stamp.clock {
        Some((secs, nanos)) => secs.wrapping_mul(1_000_000_000).wrapping_add(nanos as u64),
        None => 0,
    };
    proof {
        if let Some((secs, nanos)) = stamp.clock {
            let whole = secs * 1_000_000_000;
            let word = 0x1_0000_0000_0000_0000int;
            lemma_add_mod_noop(whole, nanos as int, word);
            lemma_small_mod(nanos as nat, word as nat);
        }
    }
    let mixed: u64 = stamp.count.wrapping_mul(0x9E37_79B9_7F4A_7C15);
    t ^ ((stamp.pid as u64) << 32) ^ mixed
}

impl SegmentHeader {
    /// The header of a segment that was just created.
    pub open spec fn spec_fresh(total: usize, addr: usize, stamp: Stamp) -> SegmentHeader {
        SegmentHeader {
            magic: HEADER_MAGIC,
            version: HEADER_VERSION,
            total_size: total as u64,
            base_addr: addr as u64,
            owner_pid: stamp.pid as u64,
            boot_nonce: nonce(stamp),
            used: 0,
            state: STATE_ACTIVE,
        }
    }

    /// What the header says of the segment: nothing against it, or the reason
    /// not to attach to it.
    pub open spec fn spec_check(&self) -> Result<(), ArenaError> {
        if self.magic != HEADER_MAGIC {
            Err(ArenaError::BadMagic)
        } else if self.version != HEADER_VERSION {
            Err(
                ArenaError::VersionMismatch { segment: self.version, expected: HEADER_VERSION },
            )
        } else {
            Ok(())
        }
    }

    /// The address that the creator recorded, or zero where this machine has no
    /// such address.
    pub open spec fn spec_recorded_base(&self) -> usize {
        if self.base_addr <= usize::MAX {
            self.base_addr as usize
        } else {
            0
        }
    }

    /// The process that the header names as owner, or -1 where it names none
    /// that could exist.
    pub open spec fn spec_recorded_owner(&self) -> i64 {
        if self.owner_pid <= i64::MAX {
            self.owner_pid as i64
        } else {
            -1i64
        }
    }

    /// The header of a segment that was just created.
    pub fn fresh(total: usize, addr: usize, stamp: Stamp) -> (header: SegmentHeader)
        ensures
            header == Self::spec_fresh(total, addr, stamp),
    {
        SegmentHeader {
            magic: HEADER_MAGIC,
            version: HEADER_VERSION,
            total_size: total as u64,
            base_addr: addr as u64,
            owner_pid: stamp.pid as u64,
            boot_nonce: gen_nonce(stamp),
            used: 0,
            state: STATE_ACTIVE,
        }
    }

    /// Decides whether a segment with this header may be attached to.
    pub fn check(&self) -> (r: Result<(), ArenaError>)
        ensures
            r == self.spec_check(),
    {
        if self.magic != HEADER_MAGIC {
            return Err(ArenaError::BadMagic);
        }
        if self.version != HEADER_VERSION {
            return Err(
                ArenaError::VersionMismatch { segment: self.version, expected: HEADER_VERSION },
            );
        }
        Ok(())
    }

    /// The address that the creator recorded, or zero where this machine has no
    /// such address.
    pub fn recorded_base(&self) -> (addr: usize)
        ensures
            addr == self.spec_recorded_base(),
    {
        if self.base_addr <= usize::MAX as u64 {
            self.base_addr as usize
        } else {
            0
        }
    }

    /// The process that the header names as owner, or -1 where it names none
    /// that could exist.
    pub fn recorded_owner(&self) -> (pid: i64)
        ensures
            pid == self.spec_recorded_owner(),
    {
        if self.owner_pid <= i64::MAX as u64 {
            self.owner_pid as i64
        } else {
            -1
        }
    }
}

/// The product of a count and the odd constant of [`nonce`], modulo the word, gives
/// the count back when it is multiplied by the inverse of the constant.
proof fn lemma_product_determines_the_count(count: u64)
    ensures
        ((count * 0x9E37_79B9_7F4A_7C15) % 0x1_0000_0000_0000_0000) * 0xF1DE_83E1_9937_733D
            % 0x1_0000_0000_0000_0000 == count,
{
    let word = 0x1_0000_0000_0000_0000int;
    let factor = 0x9E37_79B9_7F4A_7C15int;
    let inverse = 0xF1DE_83E1_9937_733Dint;
    let carry = 10771413168148108919int;
    lemma_mul_mod_noop_left(count * factor, inverse, word);
    assert(factor * inverse == carry * word + 1);
    assert((count * factor) * inverse == word * (count * carry) + count) by (nonlinear_arith)
        requires
            factor * inverse == carry * word + 1,
    ;
    lemma_mod_multiples_vanish(count * carry, count as int, word);
    lemma_small_mod(count as nat, word as nat);
}

/// Creations of one process at one reading of the clock get different numbers,
/// since the process counts them.
pub proof fn law_counts_tell_creations_apart(a: Stamp, b: Stamp)
    requires
        a.clock == b.clock,
        a.pid == b.pid,
        a.count != b.count,
    ensures
        nonce(a) != nonce(b),
{
    let rest = clock_reading(a.clock) ^ ((a.pid as u64) << 32);
    let p = ((a.count * 0x9E37_79B9_7F4A_7C15) % 0x1_0000_0000_0000_0000) as u64;
    let q = ((b.count * 0x9E37_79B9_7F4A_7C15) % 0x1_0000_0000_0000_0000) as u64;
    lemma_product_determines_the_count(a.count);
    lemma_product_determines_the_count(b.count);
    assert(rest ^ p == rest ^ q ==> p == q) by (bit_vector);
}

/// Whether a segment may be attached to rests on the magic and the version alone,
/// whatever else the header holds, the cursor and the state included: another magic
/// is refused as such, whatever the version; another version is reported.
pub proof fn law_magic_and_version_decide(header: SegmentHeader, r: Result<(), ArenaError>)
    requires
        call_ensures(SegmentHeader::check, (&header,), r),
    ensures
        r == header.spec_check(),
        r is Ok <==> header.magic == HEADER_MAGIC && header.version == HEADER_VERSION,
        header.magic != HEADER_MAGIC ==> r == Err::<(), ArenaError>(ArenaError::BadMagic),
        header.magic == HEADER_MAGIC && header.version != HEADER_VERSION ==> r == Err::<
            (),
            ArenaError,
        >(ArenaError::VersionMismatch { segment: header.version, expected: HEADER_VERSION }),
{
}

/// As [`law_magic_and_version_decide`], of the check as the other laws speak of it.
pub proof fn law_check_rests_on_magic_and_version(header: SegmentHeader)
    ensures
        header.spec_check() is Ok <==> header.magic == HEADER_MAGIC && header.version
            == HEADER_VERSION,
        header.magic != HEADER_MAGIC ==> header.spec_check() == Err::<(), ArenaError>(
            ArenaError::BadMagic,
        ),
        header.magic == HEADER_MAGIC && header.version != HEADER_VERSION ==> header.spec_check()
            == Err::<(), ArenaError>(
            ArenaError::VersionMismatch { segment: header.version, expected: HEADER_VERSION },
        ),
{
}

/// The owner of a segment is the one that its header names, whatever else the
/// header holds: every number that a process can have is given as it stands, and a
/// number that no process has is never given as one that a process can have.
pub proof fn law_owner_is_the_recorded_one(header: SegmentHeader)
    ensures
        0 < header.owner_pid <= i32::MAX ==> header.spec_recorded_owner() == header.owner_pid,
        0 < header.spec_recorded_owner() ==> header.spec_recorded_owner() == header.owner_pid,
        header.spec_recorded_owner() == 0 ==> header.owner_pid == 0,
{
}

/// The base of a segment is the one that its header records, whatever else the
/// header holds, wherever the machine has such an address.
pub proof fn law_base_is_the_recorded_one(header: SegmentHeader)
    ensures
        header.base_addr <= usize::MAX ==> header.spec_recorded_base() == header.base_addr,
        header.base_addr > usize::MAX ==> header.spec_recorded_base() == 0,
{
}

/// The number of a creation is made of three parts that stand beside each other:
/// the nanoseconds of the clock, the process moved up by half a word, and the count
/// times an odd constant, each modulo the word.
pub proof fn law_nonce_has_three_parts(stamp: Stamp)
    ensures
        nonce(stamp) == nonce(Stamp { pid: 0, count: 0, ..stamp }) ^ nonce(
            Stamp { pid: stamp.pid, clock: None, count: 0 },
        ) ^ nonce(Stamp { pid: 0, clock: None, count: stamp.count }),
        nonce(Stamp { pid: stamp.pid, clock: None, count: 0 }) == stamp.pid * 0x1_0000_0000,
        nonce(Stamp { pid: 0, clock: None, count: stamp.count }) as int == (stamp.count
            * 0x9E37_79B9_7F4A_7C15) % 0x1_0000_0000_0000_0000,
        stamp.clock matches Some((secs, nanos)) ==> nonce(
            Stamp { pid: 0, count: 0, ..stamp },
        ) as int == (secs * 1_000_000_000 + nanos) % 0x1_0000_0000_0000_0000,
        stamp.clock is None ==> nonce(Stamp { pid: 0, count: 0, ..stamp }) == 0,
{
    let t = clock_reading(stamp.clock);
    let pid = stamp.pid;
    let p = (pid as u64) << 32;
    let c = ((stamp.count * 0x9E37_79B9_7F4A_7C15) % 0x1_0000_0000_0000_0000) as u64;
    assert((pid as u64) << 32 == pid * 0x1_0000_0000) by (bit_vector);
    assert(0u64 << 32 == 0) by (bit_vector);
    assert(0u64 ^ p ^ 0u64 == p && 0u64 ^ 0u64 ^ c == c && t ^ 0u64 ^ 0u64 == t && (t ^ 0u64
        ^ 0u64) ^ (0u64 ^ p ^ 0u64) ^ (0u64 ^ 0u64 ^ c) == t ^ p ^ c) by (bit_vector);
    assert(0u64 ^ 0u64 ^ 0u64 == 0u64) by (bit_vector);
}

/// A fresh header passes the check, and gives back the address and the process
/// that it was made with; its cursor stands at the start.
pub proof fn law_fresh_header_reads_back(total: usize, addr: usize, stamp: Stamp)
    ensures
        ({
            let header = SegmentHeader::spec_fresh(total, addr, stamp);
            &&& header.spec_check() == Ok::<(), ArenaError>(())
            &&& header.spec_recorded_base() == addr
            &&& header.spec_recorded_owner() == stamp.pid
            &&& header.total_size == total
            &&& header.used == 0
            &&& header.state == STATE_ACTIVE
            &&& header.magic == HEADER_MAGIC
            &&& header.version == HEADER_VERSION
            &&& header.base_addr == addr
            &&& header.owner_pid == stamp.pid
        }),
{
}

/// What is drawn, recorded and read of a header is what the laws on it speak of.
pub proof fn law_headers_give_what_they_hold(
    header: SegmentHeader,
    stamp: Stamp,
    total: usize,
    addr: usize,
    number: u64,
    fresh: SegmentHeader,
    base: usize,
    owner: i64,
)
    requires
        call_ensures(gen_nonce, (stamp,), number),
        call_ensures(SegmentHeader::fresh, (total, addr, stamp), fresh),
        call_ensures(SegmentHeader::recorded_base, (&header,), base),
        call_ensures(SegmentHeader::recorded_owner, (&header,), owner),
    ensures
        number == nonce(stamp),
        fresh.magic == HEADER_MAGIC,
        fresh.version == HEADER_VERSION,
        fresh.total_size == total,
        fresh.base_addr == addr,
        fresh.owner_pid == stamp.pid,
        fresh.boot_nonce == number,
        fresh.used == 0,
        fresh.state == STATE_ACTIVE,
        header.base_addr <= usize::MAX ==> base == header.base_addr,
        header.base_addr > usize::MAX ==> base == 0,
        0 < header.owner_pid <= i32::MAX ==> owner == header.owner_pid,
        header.owner_pid == 0 || header.owner_pid > i32::MAX ==> owner <= 0 || owner > i32::MAX,
{
}

} // verus!
