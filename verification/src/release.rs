//! Giving a mapping back when its handle goes.

use crate::call::{nothing, Call, Held, Mapping, Operation, Progress, Reply};
use vstd::prelude::*;

verus! {

/// Unmaps a mapping; where its handle owns the name, removes the name after it.
#[derive(Clone, Copy, Debug, PartialEq, Eq)]
pub enum Release {
    /// Giving the mapping back.
    Unmapping { mapping: Mapping, owner: bool },
    /// Removing the name.
    Unlinking,
}

impl Operation for Release {
    type Output = ();

    open spec fn wf(&self) -> bool {
        true
    }

    open spec fn pending(&self) -> Call {
        match *self {
            Release::Unmapping { mapping, .. } => Call::Munmap {
                addr: mapping.addr,
                len: mapping.len,
            },
            Release::Unlinking => Call::Unlink,
        }
    }

    open spec fn next(self, reply: Reply) -> Progress<Self, ()> {
        match (self, reply) {
            (Release::Unmapping { owner, .. }, _) => if owner {
                Progress::Pending(Release::Unlinking)
            } else {
                Progress::Done(Ok(()))
            },
            (Release::Unlinking, _) => Progress::Done(Ok(())),
        }
    }

    open spec fn held(&self) -> Held {
        match *self {
            Release::Unmapping { mapping, owner } => Held {
                fd: None,
                map: Some(mapping),
                created: owner,
            },
            Release::Unlinking => Held { fd: None, map: None, created: true },
        }
    }

    open spec fn kept(output: ()) -> Held {
        nothing()
    }

    open spec fn rank(&self) -> nat {
        match *self {
            Release::Unmapping { .. } => 2,
            Release::Unlinking => 1,
        }
    }

    fn call(&self) -> Call {
        match *self {
            Release::Unmapping { mapping, .. } => Call::Munmap {
                addr: mapping.addr,
                len: mapping.len,
            },
            Release::Unlinking => Call::Unlink,
        }
    }

    fn step(self, reply: Reply) -> Progress<Self, ()> {
        match (self, reply) {
            (Release::Unmapping { owner, .. }, _) => if owner {
                Progress::Pending(Release::Unlinking)
            } else {
                Progress::Done(Ok(()))
            },
            (Release::Unlinking, _) => Progress::Done(Ok(())),
        }
    }

    proof fn lemma_step(self, reply: Reply) {
    }
}

} // verus!
