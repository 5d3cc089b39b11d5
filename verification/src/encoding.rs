//! The bytes of a segment header.
//!
//! Processes of different builds read the same segment, so the place of every
//! field is fixed. A header lies in memory as the machine has its numbers there:
//! in the machine's byte order, and with a cursor as long as its words, since the
//! cursor is an `AtomicUsize` in place.

use crate::header::{SegmentHeader, HEADER_SIZE};
use vstd::bytes::{
    lemma_auto_spec_u32_to_from_le_bytes, lemma_auto_spec_u64_to_from_le_bytes,
    spec_u32_from_le_bytes, spec_u32_to_le_bytes, spec_u64_from_le_bytes, spec_u64_to_le_bytes,
    u32_from_le_bytes, u32_to_le_bytes, u64_from_le_bytes, u64_to_le_bytes,
};
use vstd::prelude::*;
use vstd::slice::slice_subrange;

verus! {

/// In which order a machine has the bytes of a number in memory.
#[derive(Clone, Copy, Debug, PartialEq, Eq)]
pub enum ByteOrder {
    /// The least significant byte first.
    Little,
    /// The most significant byte first.
    Big,
}

/// Where the magic is.
pub const MAGIC_OFFSET: usize = 0;

/// Where the format version is. Four bytes of padding follow it.
pub const VERSION_OFFSET: usize = 8;

/// Where the length of the segment is.
pub const TOTAL_SIZE_OFFSET: usize = 16;

/// Where the address of the creator's mapping is.
pub const BASE_ADDR_OFFSET: usize = 24;

/// Where the owner is.
pub const OWNER_PID_OFFSET: usize = 32;

/// Where the number is that tells creations apart.
pub const BOOT_NONCE_OFFSET: usize = 40;

/// Where the cursor is: the first field that changes after the creation.
pub const USED_OFFSET: usize = 48;

/// The bytes of a word of the machine.
pub open spec fn word_len() -> int {
    usize::BITS as int / 8
}

/// Where the state is: right after the cursor.
pub open spec fn state_at() -> int {
    USED_OFFSET + word_len()
}

/// Where the state is: right after the cursor.
pub fn state_offset() -> (offset: usize)
    ensures
        offset == state_at(),
        offset < HEADER_SIZE,
{
    USED_OFFSET + (usize::BITS / 8) as usize
}

/// Bytes that are given with the least significant one first, in the order of the
/// machine; and the other way round.
pub open spec fn ordered(order: ByteOrder, bytes: Seq<u8>) -> Seq<u8> {
    match order {
        ByteOrder::Little => bytes,
        ByteOrder::Big => Seq::new(bytes.len(), |i: int| bytes[bytes.len() - 1 - i]),
    }
}

/// The eight bytes of a number.
pub open spec fn u64_bytes(order: ByteOrder, value: u64) -> Seq<u8> {
    ordered(order, spec_u64_to_le_bytes(value))
}

/// The four bytes of a number.
pub open spec fn u32_bytes(order: ByteOrder, value: u32) -> Seq<u8> {
    ordered(order, spec_u32_to_le_bytes(value))
}

/// The bytes of a word.
pub open spec fn word_bytes(order: ByteOrder, value: usize) -> Seq<u8> {
    if usize::BITS == 64 {
        u64_bytes(order, value as u64)
    } else {
        u32_bytes(order, value as u32)
    }
}

/// The number in the eight bytes of `bytes` from `offset` on.
pub open spec fn u64_at(order: ByteOrder, bytes: Seq<u8>, offset: int) -> u64 {
    spec_u64_from_le_bytes(ordered(order, bytes.subrange(offset, offset + 8)))
}

/// The number in the four bytes of `bytes` from `offset` on.
pub open spec fn u32_at(order: ByteOrder, bytes: Seq<u8>, offset: int) -> u32 {
    spec_u32_from_le_bytes(ordered(order, bytes.subrange(offset, offset + 4)))
}

/// The word in `bytes` from `offset` on.
pub open spec fn word_at(order: ByteOrder, bytes: Seq<u8>, offset: int) -> usize {
    if usize::BITS == 64 {
        u64_at(order, bytes, offset) as usize
    } else {
        u32_at(order, bytes, offset) as usize
    }
}

/// The header that `bytes` hold.
pub open spec fn decoded(order: ByteOrder, bytes: Seq<u8>) -> SegmentHeader {
    SegmentHeader {
        magic: u64_at(order, bytes, MAGIC_OFFSET as int),
        version: u32_at(order, bytes, VERSION_OFFSET as int),
        total_size: u64_at(order, bytes, TOTAL_SIZE_OFFSET as int),
        base_addr: u64_at(order, bytes, BASE_ADDR_OFFSET as int),
        owner_pid: u64_at(order, bytes, OWNER_PID_OFFSET as int),
        boot_nonce: u64_at(order, bytes, BOOT_NONCE_OFFSET as int),
        used: word_at(order, bytes, USED_OFFSET as int),
        state: bytes[state_at()],
    }
}

/// The bytes of a header: its fields, and zeros up to its size.
pub open spec fn encoded(order: ByteOrder, header: SegmentHeader) -> Seq<u8> {
    u64_bytes(order, header.magic) + u32_bytes(order, header.version) + u32_bytes(order, 0)
        + u64_bytes(order, header.total_size) + u64_bytes(order, header.base_addr) + u64_bytes(
        order,
        header.owner_pid,
    ) + u64_bytes(order, header.boot_nonce) + word_bytes(order, header.used) + seq![header.state]
        + Seq::new((HEADER_SIZE - state_at() - 1) as nat, |i: int| 0u8)
}

/// Puts bytes into the order of the machine that are given with the least
/// significant one first; and the other way round.
fn reorder(order: ByteOrder, bytes: &[u8]) -> (r: Vec<u8>)
    ensures
        r@ == ordered(order, bytes@),
{
    let len: usize = bytes.len();
    let mut r: Vec<u8> = Vec::new();
    let mut i: usize = 0;
    while i < len
        invariant
            len == bytes@.len(),
            i <= len,
            r@ == ordered(order, bytes@).take(i as int),
        decreases len - i,
    {
        let byte: u8 = match order {
            ByteOrder::Little => bytes[i],
            ByteOrder::Big => bytes[len - 1 - i],
        };
        r.push(byte);
        i = i + 1;
        assert(r@ =~= ordered(order, bytes@).take(i as int));
    }
    assert(r@ =~= ordered(order, bytes@));
    r
}

/// Appends the eight bytes of a number.
fn push_u64(bytes: &mut Vec<u8>, order: ByteOrder, value: u64)
    ensures
        final(bytes)@ == old(bytes)@ + u64_bytes(order, value),
{
    let mut field: Vec<u8> = reorder(order, u64_to_le_bytes(value).as_slice());
    bytes.append(&mut field);
}

/// Appends the four bytes of a number.
fn push_u32(bytes: &mut Vec<u8>, order: ByteOrder, value: u32)
    ensures
        final(bytes)@ == old(bytes)@ + u32_bytes(order, value),
{
    let mut field: Vec<u8> = reorder(order, u32_to_le_bytes(value).as_slice());
    bytes.append(&mut field);
}

/// Writes a header out as the bytes that a machine of that byte order has in
/// memory.
pub fn encode(order: ByteOrder, header: &SegmentHeader) -> (bytes: Vec<u8>)
    ensures
        bytes@ == encoded(order, *header),
        bytes@.len() == HEADER_SIZE,
{
    proof {
        law_decoding_reads_what_encoding_wrote(order, *header);
    }
    let mut bytes: Vec<u8> = Vec::new();
    push_u64(&mut bytes, order, header.magic);
    push_u32(&mut bytes, order, header.version);
    push_u32(&mut bytes, order, 0);
    push_u64(&mut bytes, order, header.total_size);
    push_u64(&mut bytes, order, header.base_addr);
    push_u64(&mut bytes, order, header.owner_pid);
    push_u64(&mut bytes, order, header.boot_nonce);
    if usize::BITS == 64 {
        push_u64(&mut bytes, order, header.used as u64);
    } else {
        push_u32(&mut bytes, order, header.used as u32);
    }
    bytes.push(header.state);
    assert(bytes@ =~= encoded(order, *header).take(state_at() + 1));
    while bytes.len() < HEADER_SIZE
        invariant
            encoded(order, *header).len() == HEADER_SIZE,
            state_at() < bytes@.len() <= HEADER_SIZE,
            bytes@ == encoded(order, *header).take(bytes@.len() as int),
            forall|i: int| state_at() < i < HEADER_SIZE ==> encoded(order, *header)[i] == 0,
        decreases HEADER_SIZE - bytes.len(),
    {
        bytes.push(0);
        assert(bytes@ =~= encoded(order, *header).take(bytes@.len() as int));
    }
    assert(bytes@ =~= encoded(order, *header));
    bytes
}

/// Reads the number in eight bytes.
fn read_u64(order: ByteOrder, bytes: &[u8], offset: usize) -> (value: u64)
    requires
        offset + 8 <= bytes@.len() <= usize::MAX,
    ensures
        value == u64_at(order, bytes@, offset as int),
{
    u64_from_le_bytes(reorder(order, slice_subrange(bytes, offset, offset + 8)).as_slice())
}

/// Reads the number in four bytes.
fn read_u32(order: ByteOrder, bytes: &[u8], offset: usize) -> (value: u32)
    requires
        offset + 4 <= bytes@.len() <= usize::MAX,
    ensures
        value == u32_at(order, bytes@, offset as int),
{
    u32_from_le_bytes(reorder(order, slice_subrange(bytes, offset, offset + 4)).as_slice())
}

/// Reads a header from the bytes that a machine of that byte order has in memory.
pub fn decode(order: ByteOrder, bytes: &[u8]) -> (header: SegmentHeader)
    requires
        bytes@.len() == HEADER_SIZE,
    ensures
        header == decoded(order, bytes@),
{
    SegmentHeader {
        magic: read_u64(order, bytes, MAGIC_OFFSET),
        version: read_u32(order, bytes, VERSION_OFFSET),
        total_size: read_u64(order, bytes, TOTAL_SIZE_OFFSET),
        base_addr: read_u64(order, bytes, BASE_ADDR_OFFSET),
        owner_pid: read_u64(order, bytes, OWNER_PID_OFFSET),
        boot_nonce: read_u64(order, bytes, BOOT_NONCE_OFFSET),
        used: if usize::BITS == 64 {
            read_u64(order, bytes, USED_OFFSET) as usize
        } else {
            read_u32(order, bytes, USED_OFFSET) as usize
        },
        state: bytes[state_offset()],
    }
}

/// The order is put back by putting it on twice.
proof fn lemma_ordered_twice(order: ByteOrder, bytes: Seq<u8>)
    ensures
        ordered(order, ordered(order, bytes)) == bytes,
        ordered(order, bytes).len() == bytes.len(),
{
    assert(ordered(order, ordered(order, bytes)) =~= bytes);
}

/// What eight bytes are read as that were written for a number.
proof fn lemma_u64_read_back(order: ByteOrder, value: u64)
    ensures
        u64_bytes(order, value).len() == 8,
        spec_u64_from_le_bytes(ordered(order, u64_bytes(order, value))) == value,
{
    lemma_auto_spec_u64_to_from_le_bytes();
    lemma_ordered_twice(order, spec_u64_to_le_bytes(value));
}

/// What four bytes are read as that were written for a number.
proof fn lemma_u32_read_back(order: ByteOrder, value: u32)
    ensures
        u32_bytes(order, value).len() == 4,
        spec_u32_from_le_bytes(ordered(order, u32_bytes(order, value))) == value,
{
    lemma_auto_spec_u32_to_from_le_bytes();
    lemma_ordered_twice(order, spec_u32_to_le_bytes(value));
}

/// Reading gives back the header that was written, on machines of either byte
/// order and of either word length.
pub proof fn law_decoding_reads_what_encoding_wrote(order: ByteOrder, header: SegmentHeader)
    ensures
        encoded(order, header).len() == HEADER_SIZE,
        decoded(order, encoded(order, header)) == header,
{
    lemma_u64_read_back(order, header.magic);
    lemma_u32_read_back(order, header.version);
    lemma_u32_read_back(order, 0);
    lemma_u64_read_back(order, header.total_size);
    lemma_u64_read_back(order, header.base_addr);
    lemma_u64_read_back(order, header.owner_pid);
    lemma_u64_read_back(order, header.boot_nonce);
    lemma_u64_read_back(order, header.used as u64);
    lemma_u32_read_back(order, header.used as u32);
    let bytes = encoded(order, header);
    assert(bytes.subrange(0, 8) =~= u64_bytes(order, header.magic));
    assert(bytes.subrange(8, 12) =~= u32_bytes(order, header.version));
    assert(bytes.subrange(16, 24) =~= u64_bytes(order, header.total_size));
    assert(bytes.subrange(24, 32) =~= u64_bytes(order, header.base_addr));
    assert(bytes.subrange(32, 40) =~= u64_bytes(order, header.owner_pid));
    assert(bytes.subrange(40, 48) =~= u64_bytes(order, header.boot_nonce));
    assert(bytes.subrange(48, 48 + word_len()) =~= word_bytes(order, header.used));
}

/// Whether the bytes of `bytes` from `offset` on are those of `plain`, which has the
/// least significant one first, as a machine of that byte order has them.
pub open spec fn lies_at(order: ByteOrder, bytes: Seq<u8>, offset: int, plain: Seq<u8>) -> bool {
    &&& 0 <= offset
    &&& offset + plain.len() <= bytes.len()
    &&& forall|i: int|
        0 <= i < plain.len() ==> bytes[match order {
            ByteOrder::Little => offset + i,
            ByteOrder::Big => offset + plain.len() - 1 - i,
        }] == #[trigger] plain[i]
}

/// Every field of a header lies at its own fixed place, whatever the other fields
/// hold, in the byte order of the machine; the cursor is as long as a word, the
/// state is the byte after it, and what is left is zero.
pub proof fn law_every_field_has_its_place(order: ByteOrder, header: SegmentHeader)
    ensures
        ({
            let bytes = encoded(order, header);
            let after = USED_OFFSET + usize::BITS as int / 8;
            &&& bytes.len() == HEADER_SIZE
            &&& lies_at(order, bytes, 0, spec_u64_to_le_bytes(header.magic))
            &&& lies_at(order, bytes, 8, spec_u32_to_le_bytes(header.version))
            &&& lies_at(order, bytes, 16, spec_u64_to_le_bytes(header.total_size))
            &&& lies_at(order, bytes, 24, spec_u64_to_le_bytes(header.base_addr))
            &&& lies_at(order, bytes, 32, spec_u64_to_le_bytes(header.owner_pid))
            &&& lies_at(order, bytes, 40, spec_u64_to_le_bytes(header.boot_nonce))
            &&& usize::BITS == 64 ==> lies_at(
                order,
                bytes,
                48,
                spec_u64_to_le_bytes(header.used as u64),
            )
            &&& usize::BITS == 32 ==> lies_at(
                order,
                bytes,
                48,
                spec_u32_to_le_bytes(header.used as u32),
            )
            &&& bytes[after] == header.state
            &&& forall|i: int| after < i < HEADER_SIZE ==> #[trigger] bytes[i] == 0
        }),
{
    law_decoding_reads_what_encoding_wrote(order, header);
    lemma_auto_spec_u64_to_from_le_bytes();
    lemma_auto_spec_u32_to_from_le_bytes();
}

/// Every field of a header is read from its own fixed place, whatever the other bytes
/// hold, the padding included.
pub proof fn law_every_field_is_read_from_its_place(order: ByteOrder, bytes: Seq<u8>)
    requires
        bytes.len() == HEADER_SIZE,
    ensures
        ({
            let header = decoded(order, bytes);
            &&& lies_at(order, bytes, 0, spec_u64_to_le_bytes(header.magic))
            &&& lies_at(order, bytes, 8, spec_u32_to_le_bytes(header.version))
            &&& lies_at(order, bytes, 16, spec_u64_to_le_bytes(header.total_size))
            &&& lies_at(order, bytes, 24, spec_u64_to_le_bytes(header.base_addr))
            &&& lies_at(order, bytes, 32, spec_u64_to_le_bytes(header.owner_pid))
            &&& lies_at(order, bytes, 40, spec_u64_to_le_bytes(header.boot_nonce))
            &&& usize::BITS == 64 ==> lies_at(
                order,
                bytes,
                48,
                spec_u64_to_le_bytes(header.used as u64),
            )
            &&& usize::BITS == 32 ==> lies_at(
                order,
                bytes,
                48,
                spec_u32_to_le_bytes(header.used as u32),
            )
            &&& header.state == bytes[USED_OFFSET + usize::BITS as int / 8]
        }),
{
    lemma_u64_lies_at(order, bytes, 0);
    lemma_u32_lies_at(order, bytes, 8);
    lemma_u64_lies_at(order, bytes, 16);
    lemma_u64_lies_at(order, bytes, 24);
    lemma_u64_lies_at(order, bytes, 32);
    lemma_u64_lies_at(order, bytes, 40);
    lemma_u64_lies_at(order, bytes, 48);
    lemma_u32_lies_at(order, bytes, 48);
}

/// The number that eight bytes are read as has those bytes.
proof fn lemma_u64_lies_at(order: ByteOrder, bytes: Seq<u8>, offset: int)
    requires
        0 <= offset,
        offset + 8 <= bytes.len(),
    ensures
        lies_at(order, bytes, offset, spec_u64_to_le_bytes(u64_at(order, bytes, offset))),
{
    lemma_auto_spec_u64_to_from_le_bytes();
    let field = bytes.subrange(offset, offset + 8);
    let plain = ordered(order, field);
    assert(plain.len() == 8);
    assert(spec_u64_to_le_bytes(spec_u64_from_le_bytes(plain)) == plain);
    assert forall|i: int| 0 <= i < plain.len() implies bytes[match order {
        ByteOrder::Little => offset + i,
        ByteOrder::Big => offset + plain.len() - 1 - i,
    }] == #[trigger] plain[i] by {
    }
}

/// The number that four bytes are read as has those bytes.
proof fn lemma_u32_lies_at(order: ByteOrder, bytes: Seq<u8>, offset: int)
    requires
        0 <= offset,
        offset + 4 <= bytes.len(),
    ensures
        lies_at(order, bytes, offset, spec_u32_to_le_bytes(u32_at(order, bytes, offset))),
{
    lemma_auto_spec_u32_to_from_le_bytes();
    let field = bytes.subrange(offset, offset + 4);
    let plain = ordered(order, field);
    assert(plain.len() == 4);
    assert(spec_u32_to_le_bytes(spec_u32_from_le_bytes(plain)) == plain);
    assert forall|i: int| 0 <= i < plain.len() implies bytes[match order {
        ByteOrder::Little => offset + i,
        ByteOrder::Big => offset + plain.len() - 1 - i,
    }] == #[trigger] plain[i] by {
    }
}

/// What is written out is read back, field by field, on a machine of the same byte
/// order.
pub proof fn law_written_headers_are_read_back(
    order: ByteOrder,
    header: SegmentHeader,
    bytes: Vec<u8>,
    slice: &[u8],
    read: SegmentHeader,
)
    requires
        call_ensures(encode, (order, &header), bytes),
        slice@ == bytes@,
        call_ensures(decode, (order, slice), read),
    ensures
        bytes@.len() == HEADER_SIZE,
        read == header,
{
    law_decoding_reads_what_encoding_wrote(order, header);
}

} // verus!
