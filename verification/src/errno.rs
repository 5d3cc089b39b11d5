//! The error numbers that decide what a failed call means.

use vstd::prelude::*;

verus! {

/// No such segment.
pub const ENOENT: i32 = 2;

/// No such process.
pub const ESRCH: i32 = 3;

/// The segment, or a mapping at the address, exists already.
pub const EEXIST: i32 = 17;

/// [`libc::ENOENT`], which is 2 on Linux.
#[verifier::external_body]
pub(crate) fn enoent() -> (code: i32)
    ensures
        code == ENOENT,
{
    libc::ENOENT
}

/// [`libc::ESRCH`], which is 3 on Linux.
#[verifier::external_body]
pub(crate) fn esrch() -> (code: i32)
    ensures
        code == ESRCH,
{
    libc::ESRCH
}

/// [`libc::EEXIST`], which is 17 on Linux.
#[verifier::external_body]
pub(crate) fn eexist() -> (code: i32)
    ensures
        code == EEXIST,
{
    libc::EEXIST
}

} // verus!
