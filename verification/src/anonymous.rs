//! Mapping memory without a name.

use crate::call::{in_address_space, nothing, Call, Held, Mapping, Operation, Progress, Reply};
use crate::error::ArenaError;
use vstd::prelude::*;

verus! {

/// Maps memory that has no name: threads and forked processes share it.
#[derive(Clone, Copy, Debug, PartialEq, Eq)]
pub enum MapAnonymous {
    /// Waiting for the mapping.
    Mapping { size: usize },
}

impl Operation for MapAnonymous {
    type Output = Mapping;

    open spec fn wf(&self) -> bool {
        match *self {
            MapAnonymous::Mapping { size } => size > 0,
        }
    }

    open spec fn pending(&self) -> Call {
        match *self {
            MapAnonymous::Mapping { size } => Call::Mmap {
                from: None,
                len: size,
                writable: true,
                at: None,
            },
        }
    }

    open spec fn next(self, reply: Reply) -> Progress<Self, Mapping> {
        match (self, reply) {
            (MapAnonymous::Mapping { size }, Reply::Addr(addr)) => Progress::Done(
                Ok(Mapping { addr, len: size, writable: true }),
            ),
            (MapAnonymous::Mapping { .. }, Reply::Failed(e)) => Progress::Done(
                Err(ArenaError::Mmap(e)),
            ),
            _ => Progress::Pending(self),
        }
    }

    open spec fn held(&self) -> Held {
        match *self {
            MapAnonymous::Mapping { .. } => nothing(),
        }
    }

    open spec fn kept(output: Mapping) -> Held {
        Held { map: Some(output), ..nothing() }
    }

    open spec fn rank(&self) -> nat {
        match *self {
            MapAnonymous::Mapping { .. } => 1,
        }
    }

    fn call(&self) -> Call {
        match *self {
            MapAnonymous::Mapping { size } => Call::Mmap {
                from: None,
                len: size,
                writable: true,
                at: None,
            },
        }
    }

    fn step(self, reply: Reply) -> (progress: Progress<Self, Mapping>)
        ensures
            progress matches Progress::Done(Ok(mapping)) ==> in_address_space(
                mapping.addr,
                mapping.len,
            ) && mapping.addr != 0,
    {
        match (self, reply) {
            (MapAnonymous::Mapping { size }, Reply::Addr(addr)) => Progress::Done(
                Ok(Mapping { addr, len: size, writable: true }),
            ),
            (MapAnonymous::Mapping { .. }, Reply::Failed(e)) => Progress::Done(
                Err(ArenaError::Mmap(e)),
            ),
            _ => Progress::Pending(self),
        }
    }

    proof fn lemma_step(self, reply: Reply) {
    }
}

} // verus!
