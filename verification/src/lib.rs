//! A shared-memory arena allocator.
//!
//! An arena is a region that threads and processes map in common, with a bump
//! allocator on it whose cursor they share. The region has no name, or it is a
//! named segment that any process can attach to by its name; the cursor then
//! lives in the header at the start of the segment.
//!
//! This library takes the decisions and does the arithmetic. The calls to the
//! operating system are values that it hands out and whose replies it takes: see
//! [`call`]. [`arena`] starts the operations and allocates, [`bump`] has the
//! arithmetic of the allocator, [`header`] and [`encoding`] have the header of a
//! segment. Which calls the operations make stands in [`calls`]; how they end, reply
//! by reply, in [`outcome`]; what they promise of each other, and what they leave
//! behind, in [`laws`]; what the handles of one segment share, in [`sharing`]; and
//! what becomes of the other mappings of a process, in [`mapped`].

pub mod acquire;
pub mod anonymous;
pub mod arena;
pub mod attach;
pub mod bump;
pub mod call;
pub mod calls;
pub mod cleanup;
pub mod create;
pub mod encoding;
pub mod errno;
pub mod error;
pub mod fresh;
pub mod header;
pub mod laws;
pub mod layout;
pub mod mapped;
pub mod model;
pub mod name;
pub mod observe;
pub mod outcome;
pub mod peek;
pub mod recover;
pub mod release;
pub mod sharing;
pub mod stale;
pub mod text;

pub use arena::{Arena, ArenaView};
pub use error::ArenaError;
pub use layout::Layout;
