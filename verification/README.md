# dlsm_shm

A shared-memory arena allocator, verified with Verus.

An arena is a region that threads and processes map in common, with an atomic
bump allocator on it. It has no name, or it is a named segment that any process
can attach to; a segment that a crash left behind is recognised by its dead owner
and replaced or removed.

- `src/` is the library. It holds the arithmetic of the allocator, the header of
  a segment and every decision of the operations on segments. The calls to the
  operating system are values (`call.rs`): an operation hands out the next call
  and takes its reply. `outcome.rs` states how the operations end, whatever the
  replies; `laws.rs` what they promise of each other on a system that does what it
  is asked, and that fresh memory reads as zeros; `sharing.rs` that the handles of a segment read each other's bytes, and
  that attaching changes none; `mapped.rs` that an operation leaves the other
  mappings of a process alone; and `bump.rs` that allocations never overlap.
  `call.rs` states that no operation leaks: whatever the system replies, it asks
  for everything that it acquired and does not hand on to be taken back, once.
  Whether a `close`, `munmap` or `shm_unlink` then succeeds is up to the system.
- `app/` makes the calls on Linux and owns the mappings.
- `tests/` runs the library on a system that the tests play themselves.

The header of a segment has its numbers as the machine has them in memory, in its
byte order and with a cursor as long as its words.
