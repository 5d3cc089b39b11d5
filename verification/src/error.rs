//! Errors of the arena, with their stable numeric codes and English messages.

use crate::text::{decimal, render};
use vstd::prelude::*;
use vstd::string::{to_string_from_display_ensures, StringExecFns};

verus! {

/// The error of the standard library that carries an error number.
#[verifier::external_type_specification]
#[verifier::external_body]
pub struct ExIoError(std::io::Error);

/// [`std::io::Error::from_raw_os_error`]: the error that carries `code`. Nothing
/// is claimed of it: its text comes from the operating system and its locale.
pub assume_specification[ std::io::Error::from_raw_os_error ](code: i32) -> (e: std::io::Error);

/// The error number that a failed system call left behind.
#[derive(Clone, Copy, Debug, PartialEq, Eq)]
pub struct OsError {
    pub code: i32,
}

/// What can go wrong while an arena is created, attached or allocated from.
#[derive(Clone, Copy, Debug, PartialEq, Eq)]
pub enum ArenaError {
    /// `mmap` failed.
    Mmap(OsError),
    /// `munmap` failed. Recorded while a handle is dropped, never returned to a caller.
    Munmap(OsError),
    /// A size of zero was asked for.
    ZeroSize,
    /// The rest of the arena cannot hold the allocation with its padding.
    OutOfMemory {
        /// The bytes that would be consumed, alignment padding counted in.
        requested: usize,
        /// The bytes that are left.
        available: usize,
    },
    /// `shm_open` failed for another reason than presence or absence of the name.
    ShmOpen(OsError),
    /// `ftruncate` failed.
    Ftruncate(OsError),
    /// A segment of that name exists already.
    AlreadyExists,
    /// No segment of that name exists.
    NotFound,
    /// The name holds a NUL character.
    InvalidName,
    /// The header does not start with the segment magic.
    BadMagic,
    /// The header was written in another format version.
    VersionMismatch {
        /// The version that the segment records.
        segment: u32,
        /// The version that this library reads.
        expected: u32,
    },
    /// The recorded base address is taken in this process.
    BaseAddrUnavailable,
}

/// Whether `text` is a text of the operating system for the error number `code`:
/// one that the standard library's error displays which is made of that number.
pub open spec fn system_text(code: i32, text: String) -> bool {
    exists|e: std::io::Error| #[trigger]
        call_ensures(std::io::Error::from_raw_os_error, (code,), e)
            && to_string_from_display_ensures::<std::io::Error>(&e, text)
}

impl OsError {
    /// The error number, in the form in which the standard library gives it.
    pub fn raw_os_error(&self) -> (code: Option<i32>)
        ensures
            code == Some(self.code),
    {
        Some(self.code)
    }

    /// The operating system's text for the error number. It depends on the
    /// system and its locale.
    fn text(&self) -> (text: String)
        ensures
            system_text(self.code, text),
    {
        let error = std::io::Error::from_raw_os_error(self.code);
        error.to_string()
    }
}

/// The least error code of this library's range.
pub const FIRST_CODE: u32 = 10000;

/// The greatest error code of this library's range.
pub const LAST_CODE: u32 = 19999;

impl ArenaError {
    /// The code that stands for the error in logs and protocols.
    pub open spec fn spec_code(&self) -> u32 {
        match *self {
            ArenaError::Mmap(_) => 10001,
            ArenaError::Munmap(_) => 10002,
            ArenaError::ZeroSize => 10003,
            ArenaError::OutOfMemory { .. } => 10004,
            ArenaError::ShmOpen(_) => 10005,
            ArenaError::Ftruncate(_) => 10006,
            ArenaError::AlreadyExists => 10007,
            ArenaError::NotFound => 10008,
            ArenaError::InvalidName => 10009,
            ArenaError::BadMagic => 10010,
            ArenaError::VersionMismatch { .. } => 10011,
            ArenaError::BaseAddrUnavailable => 10012,
        }
    }

    /// The error of the operating system that lies behind this one, if any.
    pub open spec fn spec_source(&self) -> Option<OsError> {
        match *self {
            ArenaError::Mmap(e) => Some(e),
            ArenaError::Munmap(e) => Some(e),
            ArenaError::ShmOpen(e) => Some(e),
            ArenaError::Ftruncate(e) => Some(e),
            _ => None,
        }
    }

    /// The English message, where `detail` is the text of the operating
    /// system's error behind it.
    pub open spec fn message(&self, detail: Seq<char>) -> Seq<char> {
        match *self {
            ArenaError::Mmap(_) => "mmap failed: "@ + detail,
            ArenaError::Munmap(_) => "munmap failed: "@ + detail,
            ArenaError::ZeroSize => "arena size must be non-zero"@,
            ArenaError::OutOfMemory { requested, available } => "out of memory: requested "@
                + decimal(requested as nat) + " bytes, available "@ + decimal(available as nat),
            ArenaError::ShmOpen(_) => "shm_open failed: "@ + detail,
            ArenaError::Ftruncate(_) => "ftruncate failed: "@ + detail,
            ArenaError::AlreadyExists => "named segment already exists"@,
            ArenaError::NotFound => "named segment not found"@,
            ArenaError::InvalidName => "invalid shm name"@,
            ArenaError::BadMagic => "bad shm header magic (not a DLSM segment or corrupted)"@,
            ArenaError::VersionMismatch { segment, expected } =>
                "shm header version mismatch: segment="@ + decimal(segment as nat) + ", expected="@
                    + decimal(expected as nat),
            ArenaError::BaseAddrUnavailable => "fixed base address is occupied in this process"@,
        }
    }

    /// The code that stands for the error in logs and protocols.
    pub fn code(&self) -> (code: u32)
        ensures
            code == self.spec_code(),
    {
        match self {
            ArenaError::Mmap(_) => 10001,
            ArenaError::Munmap(_) => 10002,
            ArenaError::ZeroSize => 10003,
            ArenaError::OutOfMemory { .. } => 10004,
            ArenaError::ShmOpen(_) => 10005,
            ArenaError::Ftruncate(_) => 10006,
            ArenaError::AlreadyExists => 10007,
            ArenaError::NotFound => 10008,
            ArenaError::InvalidName => 10009,
            ArenaError::BadMagic => 10010,
            ArenaError::VersionMismatch { .. } => 10011,
            ArenaError::BaseAddrUnavailable => 10012,
        }
    }

    /// The error of the operating system that lies behind this one, if any.
    pub fn source(&self) -> (source: Option<OsError>)
        ensures
            source == self.spec_source(),
    {
        match *self {
            ArenaError::Mmap(e) => Some(e),
            ArenaError::Munmap(e) => Some(e),
            ArenaError::ShmOpen(e) => Some(e),
            ArenaError::Ftruncate(e) => Some(e),
            _ => None,
        }
    }

    /// The English message, where `detail` is the text of the operating
    /// system's error behind it.
    pub fn message_with(&self, detail: &str) -> (text: String)
        ensures
            text@ == self.message(detail@),
    {
        match *self {
            ArenaError::Mmap(_) => String::from_str("mmap failed: ").concat(detail),
            ArenaError::Munmap(_) => String::from_str("munmap failed: ").concat(detail),
            ArenaError::ZeroSize => String::from_str("arena size must be non-zero"),
            ArenaError::OutOfMemory { requested, available } => {
                String::from_str("out of memory: requested ").concat(
                    render(requested as u64).as_str(),
                ).concat(" bytes, available ").concat(render(available as u64).as_str())
            },
            ArenaError::ShmOpen(_) => String::from_str("shm_open failed: ").concat(detail),
            ArenaError::Ftruncate(_) => String::from_str("ftruncate failed: ").concat(detail),
            ArenaError::AlreadyExists => String::from_str("named segment already exists"),
            ArenaError::NotFound => String::from_str("named segment not found"),
            ArenaError::InvalidName => String::from_str("invalid shm name"),
            ArenaError::BadMagic => String::from_str(
                "bad shm header magic (not a DLSM segment or corrupted)",
            ),
            ArenaError::VersionMismatch { segment, expected } => {
                String::from_str("shm header version mismatch: segment=").concat(
                    render(segment as u64).as_str(),
                ).concat(", expected=").concat(render(expected as u64).as_str())
            },
            ArenaError::BaseAddrUnavailable => String::from_str(
                "fixed base address is occupied in this process",
            ),
        }
    }

    /// The English message. Where an error of the operating system lies behind
    /// this one, its text is one that the system gives for the error number.
    pub fn to_string(&self) -> (text: String)
        ensures
            exists|detail: Seq<char>| text@ == #[trigger] self.message(detail),
            self.spec_source() is None ==> text@ == self.message(Seq::empty()),
            self.spec_source() matches Some(e) ==> exists|detail: String| #[trigger]
                system_text(e.code, detail) && text@ == self.message(detail@),
    {
        match self.source() {
            Some(e) => {
                let detail: String = e.text();
                self.message_with(detail.as_str())
            },
            None => self.message_with(""),
        }
    }
}

/// Every code lies in the library's range, and errors of different kinds have
/// different codes.
pub proof fn law_codes_identify_errors(a: ArenaError, b: ArenaError)
    ensures
        FIRST_CODE <= a.spec_code() <= LAST_CODE,
        a.spec_code() == b.spec_code() <==> {
            ||| a is Mmap && b is Mmap
            ||| a is Munmap && b is Munmap
            ||| a is ZeroSize && b is ZeroSize
            ||| a is OutOfMemory && b is OutOfMemory
            ||| a is ShmOpen && b is ShmOpen
            ||| a is Ftruncate && b is Ftruncate
            ||| a is AlreadyExists && b is AlreadyExists
            ||| a is NotFound && b is NotFound
            ||| a is InvalidName && b is InvalidName
            ||| a is BadMagic && b is BadMagic
            ||| a is VersionMismatch && b is VersionMismatch
            ||| a is BaseAddrUnavailable && b is BaseAddrUnavailable
        },
{
}

/// An error of the operating system lies behind exactly those errors that carry one,
/// and it is the one that they carry.
pub proof fn law_source_is_the_carried_error(error: ArenaError, e: OsError)
    ensures
        error.spec_source() == Some(e) <==> {
            ||| error == ArenaError::Mmap(e)
            ||| error == ArenaError::Munmap(e)
            ||| error == ArenaError::ShmOpen(e)
            ||| error == ArenaError::Ftruncate(e)
        },
{
}

/// The message of an error that carries one of the operating system ends with the
/// text of that one, after words that are the same for every error number; the
/// message of any other does not rest on such a text.
pub proof fn law_message_ends_with_the_system_text(error: ArenaError, detail: Seq<char>, code: i32)
    ensures
        error.spec_source() is Some ==> error.message(detail) == error.message(Seq::empty())
            + detail,
        error.spec_source() is None ==> error.message(detail) == error.message(Seq::empty()),
        error is Mmap ==> error.message(detail) == ArenaError::Mmap(OsError { code }).message(
            detail,
        ),
        error is Munmap ==> error.message(detail) == ArenaError::Munmap(
            OsError { code },
        ).message(detail),
        error is ShmOpen ==> error.message(detail) == ArenaError::ShmOpen(
            OsError { code },
        ).message(detail),
        error is Ftruncate ==> error.message(detail) == ArenaError::Ftruncate(
            OsError { code },
        ).message(detail),
{
    assert(error.spec_source() is Some ==> error.message(detail) =~= error.message(Seq::empty())
        + detail);
}

/// The message of a refusal tells both numbers, in decimal, between words that are
/// the same for all numbers.
pub proof fn law_message_tells_the_numbers(p: usize, q: usize, v: u32, w: u32, detail: Seq<char>)
    ensures
        (ArenaError::OutOfMemory { requested: p, available: q }).message(detail)
            == "out of memory: requested "@ + decimal(p as nat) + " bytes, available "@ + decimal(
            q as nat,
        ),
        (ArenaError::VersionMismatch { segment: v, expected: w }).message(detail)
            == "shm header version mismatch: segment="@ + decimal(v as nat) + ", expected="@
            + decimal(w as nat),
{
}

/// An error gives the code of its kind, the error that it carries with its number,
/// and its own message around the text that it is given.
pub proof fn law_errors_tell_what_they_are(
    error: ArenaError,
    detail: &str,
    code: u32,
    source: Option<OsError>,
    text: String,
    e: OsError,
    number: Option<i32>,
)
    requires
        call_ensures(ArenaError::code, (&error,), code),
        call_ensures(ArenaError::source, (&error,), source),
        call_ensures(ArenaError::message_with, (&error, detail), text),
        call_ensures(OsError::raw_os_error, (&e,), number),
    ensures
        FIRST_CODE < code <= LAST_CODE,
        error is OutOfMemory ==> code == 10004,
        error is VersionMismatch ==> code == 10011,
        source is Some <==> error is Mmap || error is Munmap || error is ShmOpen
            || error is Ftruncate,
        source matches Some(carried) ==> {
            ||| error == ArenaError::Mmap(carried)
            ||| error == ArenaError::Munmap(carried)
            ||| error == ArenaError::ShmOpen(carried)
            ||| error == ArenaError::Ftruncate(carried)
        },
        source is Some ==> text@ == error.message(Seq::empty()) + detail@,
        source is None ==> text@ == error.message(Seq::empty()),
        number == Some(e.code),
{
    law_message_ends_with_the_system_text(error, detail@, 0);
}

} // verus!
