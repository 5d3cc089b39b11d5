//! Named segments, on a system that is played by the test.

use core::sync::atomic::{AtomicUsize, Ordering};
use std::collections::{HashMap, HashSet};

use dlsm_shm::call::{Call, Mapping, Operation, Progress, Reply};
use dlsm_shm::encoding::{decode, encode, ByteOrder, USED_OFFSET};
use dlsm_shm::error::OsError;
use dlsm_shm::header::{Stamp, HEADER_SIZE};
use dlsm_shm::name::{to_shm_name, ShmName};
use dlsm_shm::{Arena, ArenaError, ArenaView, Layout};

/// A segment: its bytes, and the cursor that lives among them.
struct Segment {
    bytes: Vec<u8>,
    cursor: &'static AtomicUsize,
}

/// A mapping of a segment, or of memory without a name, in a process.
struct Mapped {
    addr: usize,
    len: usize,
    segment: usize,
    writable: bool,
}

/// A process: its descriptors and its mappings.
#[derive(Default)]
struct Process {
    fds: HashMap<i32, usize>,
    maps: Vec<Mapped>,
}

/// The system: its segments, the names of some of them, and its processes.
struct System {
    segments: Vec<Segment>,
    names: HashMap<String, usize>,
    processes: HashMap<u32, Process>,
    alive: HashSet<i32>,
    me: u32,
    serial: usize,
    log: Vec<Call>,
    /// The calls that fail, by their number in the log, and how.
    faults: HashMap<usize, i32>,
}

const PARENT: u32 = 100;
const CHILD: u32 = 101;

fn failed(code: i32) -> Reply {
    Reply::Failed(OsError { code })
}

impl System {
    fn new() -> System {
        let mut system = System {
            segments: Vec::new(),
            names: HashMap::new(),
            processes: HashMap::new(),
            alive: HashSet::new(),
            me: PARENT,
            serial: 0,
            log: Vec::new(),
            faults: HashMap::new(),
        };
        system.enter(PARENT);
        system
    }

    /// Goes on as the process `pid`, which lives.
    fn enter(&mut self, pid: u32) {
        self.me = pid;
        self.alive.insert(pid as i32);
        self.processes.entry(pid).or_default();
    }

    /// Ends the process `pid` without any of its handles being dropped.
    fn kill(&mut self, pid: u32) {
        self.alive.remove(&(pid as i32));
        self.processes.remove(&pid);
    }

    fn process(&mut self) -> &mut Process {
        self.processes.get_mut(&self.me).unwrap()
    }

    /// Fails the next call but `skip` with `code`.
    fn fail_after(&mut self, skip: usize, code: i32) {
        self.faults.insert(self.log.len() + skip, code);
    }

    fn add_segment(&mut self, bytes: Vec<u8>) -> usize {
        self.segments.push(Segment {
            bytes,
            cursor: Box::leak(Box::new(AtomicUsize::new(0))),
        });
        self.segments.len() - 1
    }

    fn map(&mut self, segment: usize, len: usize, writable: bool, at: Option<usize>) -> Reply {
        self.serial += 1;
        let addr = match at {
            Some(addr) => addr,
            None => 0x7000_0000_0000 + self.serial * 0x100_0000,
        };
        let taken = |m: &Mapped| addr < m.addr + m.len && m.addr < addr + len;
        if self.process().maps.iter().any(taken) {
            return failed(libc::EEXIST);
        }
        self.process().maps.push(Mapped {
            addr,
            len,
            segment,
            writable,
        });
        Reply::Addr(addr)
    }

    fn perform(&mut self, name: &str, call: Call) -> Reply {
        let fault = self.faults.remove(&self.log.len());
        self.log.push(call);
        if let Some(code) = fault {
            return failed(code);
        }
        match call {
            Call::Open {
                create, exclusive, ..
            } => {
                let found = self.names.get(name).copied();
                let segment = match found {
                    Some(_) if create && exclusive => return failed(libc::EEXIST),
                    Some(segment) => segment,
                    None if !create => return failed(libc::ENOENT),
                    None => {
                        let segment = self.add_segment(Vec::new());
                        self.names.insert(name.to_string(), segment);
                        segment
                    }
                };
                self.serial += 1;
                let fd = self.serial as i32;
                self.process().fds.insert(fd, segment);
                Reply::Fd(fd)
            }
            Call::Resize { fd, size } => {
                let segment = self.process().fds[&fd];
                self.segments[segment].bytes.resize(size as usize, 0);
                Reply::Done
            }
            Call::Measure { fd } => {
                let segment = self.process().fds[&fd];
                Reply::Length(self.segments[segment].bytes.len() as i64)
            }
            Call::Mmap {
                from,
                len,
                writable,
                at,
            } => {
                let segment = match from {
                    Some(fd) => self.process().fds[&fd],
                    None => self.add_segment(vec![0; len]),
                };
                self.map(segment, len, writable, at)
            }
            Call::ReadHeader { addr } => {
                let segment = self.find(addr, HEADER_SIZE).0;
                let segment = &self.segments[segment];
                let mut bytes = segment.bytes[..HEADER_SIZE].to_vec();
                let used = segment.cursor.load(Ordering::Acquire).to_le_bytes();
                bytes[USED_OFFSET..USED_OFFSET + used.len()].copy_from_slice(&used);
                Reply::Header(decode(ByteOrder::Little, &bytes))
            }
            Call::DrawStamp => {
                self.serial += 1;
                Reply::Stamp(Stamp {
                    pid: self.me,
                    clock: Some((1_700_000_000, 1)),
                    count: self.serial as u64,
                })
            }
            Call::WriteHeader { addr, header } => {
                let (segment, _, writable) = self.find(addr, HEADER_SIZE);
                assert!(writable);
                let segment = &mut self.segments[segment];
                segment.bytes[..HEADER_SIZE].copy_from_slice(&encode(ByteOrder::Little, &header));
                segment.cursor.store(header.used, Ordering::Release);
                Reply::Done
            }
            Call::Close { fd } => {
                assert!(self.process().fds.remove(&fd).is_some());
                Reply::Done
            }
            Call::Munmap { addr, len } => {
                let before = self.process().maps.len();
                self.process().maps.retain(|m| m.addr != addr || m.len != len);
                assert_eq!(self.process().maps.len(), before - 1);
                Reply::Done
            }
            Call::Unlink => match self.names.remove(name) {
                Some(_) => Reply::Done,
                None => failed(libc::ENOENT),
            },
            Call::Probe { pid } => {
                if self.alive.contains(&pid) {
                    Reply::Done
                } else {
                    failed(libc::ESRCH)
                }
            }
        }
    }

    fn drive<O: Operation>(&mut self, name: &str, mut op: O) -> Result<O::Output, ArenaError> {
        loop {
            let reply = self.perform(name, op.call());
            match op.step(reply) {
                Progress::Pending(next) => op = next,
                Progress::Done(result) => return result,
            }
        }
    }

    /// The segment, the offset and the writability of `len` bytes at `addr`.
    fn find(&self, addr: usize, len: usize) -> (usize, usize, bool) {
        let process = &self.processes[&self.me];
        for m in &process.maps {
            if m.addr <= addr && addr + len <= m.addr + m.len {
                return (m.segment, addr - m.addr, m.writable);
            }
        }
        panic!("no mapping at {addr:#x}");
    }

    fn read(&self, addr: usize) -> u64 {
        let (segment, at, _) = self.find(addr, 8);
        u64::from_le_bytes(self.segments[segment].bytes[at..at + 8].try_into().unwrap())
    }

    fn write(&mut self, addr: usize, value: u64) {
        let (segment, at, writable) = self.find(addr, 8);
        assert!(writable);
        self.segments[segment].bytes[at..at + 8].copy_from_slice(&value.to_le_bytes());
    }

    fn cursor_of(&self, mapping: Mapping) -> &'static AtomicUsize {
        self.segments[self.find(mapping.addr, HEADER_SIZE).0].cursor
    }

    fn owner(&self, mapping: Mapping, name: ShmName) -> Arena<'static> {
        let cursor = self.cursor_of(mapping);
        Arena::from_named_mapping(mapping, mapping.addr, name, true, cursor)
    }

    fn new_anonymous(&mut self, size: usize) -> Result<Arena<'static>, ArenaError> {
        let op = Arena::new_anonymous(size)?;
        let mapping = self.drive("", op)?;
        Ok(Arena::from_anonymous_mapping(mapping))
    }

    fn create_named(&mut self, name: &str, size: usize) -> Result<Arena<'static>, ArenaError> {
        let job = Arena::create_named(name, size)?;
        let mapping = self.drive(job.name.as_str(), job.op)?;
        Ok(self.owner(mapping, job.name))
    }

    fn create_or_recover_named(
        &mut self,
        name: &str,
        size: usize,
    ) -> Result<Arena<'static>, ArenaError> {
        let job = Arena::create_or_recover_named(name, size)?;
        let mapping = self.drive(job.name.as_str(), job.op)?;
        Ok(self.owner(mapping, job.name))
    }

    fn cleanup_if_stale(&mut self, name: &str) -> Result<bool, ArenaError> {
        let job = Arena::cleanup_if_stale(name)?;
        self.drive(job.name.as_str(), job.op)
    }

    fn attach_named(&mut self, name: &str) -> Result<Arena<'static>, ArenaError> {
        let job = Arena::attach_named(name)?;
        let attached = self.drive(job.name.as_str(), job.op)?;
        Ok(Arena::from_named_mapping(
            attached.mapping,
            attached.recorded_base,
            job.name,
            false,
            self.cursor_of(attached.mapping),
        ))
    }

    fn attach_named_readonly(&mut self, name: &str) -> Result<ArenaView<'static>, ArenaError> {
        let job = Arena::attach_named_readonly(name)?;
        let mapping = self.drive(job.name.as_str(), job.op)?;
        Ok(ArenaView::from_mapping(mapping, self.cursor_of(mapping)))
    }

    fn drop_arena(&mut self, name: &str, arena: Arena<'static>) {
        let name = to_shm_name(name).unwrap();
        self.drive(name.as_str(), arena.release()).unwrap();
    }

    /// Nothing is open or mapped in the current process, and the name is free.
    fn assert_clean(&self, name: &str) {
        let process = &self.processes[&self.me];
        assert!(process.fds.is_empty());
        assert!(process.maps.is_empty());
        assert!(!self.names.contains_key(name));
    }

    /// A process creates the segment and dies.
    fn spawn_leaked_segment(&mut self, name: &str, size: usize) {
        self.enter(CHILD);
        self.create_named(name, size).expect("child create");
        self.kill(CHILD);
        self.enter(PARENT);
    }
}

fn error<T>(r: Result<T, ArenaError>, why: &str) -> ArenaError {
    match r {
        Ok(_) => panic!("{why}"),
        Err(e) => e,
    }
}

fn layout(size: usize, align: usize) -> Layout {
    Layout::from_size_align(size, align).unwrap()
}

#[test]
fn named_segment_is_shared_between_handles() {
    let mut system = System::new();
    let name = "share";
    let owner = system.create_named(name, 64 * 1024).unwrap();
    let attached = system.attach_named(name).unwrap();

    let p = owner.allocate(layout(8, 8)).unwrap();
    system.write(p, 0x0BAD_C0DE_DEAD_BEEF);

    assert_eq!(attached.used(), owner.used());

    let offset = p - owner.base_ptr();
    let seen = system.read(attached.base_ptr() + offset);
    assert_eq!(seen, 0x0BAD_C0DE_DEAD_BEEF);
}

#[test]
fn allocator_state_is_coherent_across_handles() {
    let mut system = System::new();
    let name = "alloc";
    let owner = system.create_named(name, 64 * 1024).unwrap();
    let attached = system.attach_named(name).unwrap();

    owner.allocate(layout(64, 8)).unwrap();
    assert_eq!(attached.used(), 64);

    attached.allocate(layout(64, 8)).unwrap();
    assert_eq!(owner.used(), 128);
}

#[test]
fn attach_nonexistent_returns_not_found() {
    let mut system = System::new();
    let name = "missing";
    let err = error(
        system.attach_named(name),
        "attach to missing segment must fail",
    );
    assert!(matches!(err, ArenaError::NotFound), "got {err:?}");
}

#[test]
fn create_twice_returns_already_exists() {
    let mut system = System::new();
    let name = "dup";
    let _owner = system.create_named(name, 4096).unwrap();
    let err = error(system.create_named(name, 4096), "second create must fail");
    assert!(matches!(err, ArenaError::AlreadyExists), "got {err:?}");
}

#[test]
fn create_rejects_zero_size() {
    let mut system = System::new();
    let name = "zero";
    let err = error(system.create_named(name, 0), "zero size must error");
    assert!(matches!(err, ArenaError::ZeroSize));
    let err = error(system.create_or_recover_named(name, 0), "zero size must error");
    assert!(matches!(err, ArenaError::ZeroSize));
    assert!(system.log.is_empty());
}

#[test]
fn forked_process_attaches_and_shares_data() {
    let mut system = System::new();
    let name = "fork";
    let owner = system.create_named(name, 64 * 1024).unwrap();

    let p = owner.allocate(layout(8, 8)).unwrap();
    system.write(p, 0);
    let counter_off = p - owner.base_ptr();

    system.enter(CHILD);
    let child = system.attach_named(name).expect("child attach");
    let c = child.base_ptr() + counter_off;
    let before = system.read(c);
    system.write(c, before + 42);
    system.kill(CHILD);

    system.enter(PARENT);
    assert_eq!(
        system.read(owner.base_ptr() + counter_off),
        42,
        "parent must observe child's cross-process write"
    );
}

#[test]
fn create_or_recover_on_fresh_name_creates() {
    let mut system = System::new();
    let name = "recov_fresh";
    let a = system.create_or_recover_named(name, 64 * 1024).unwrap();
    assert_eq!(a.used(), 0);
    assert_eq!(a.capacity(), 64 * 1024);
}

#[test]
fn create_or_recover_reclaims_stale_segment() {
    let mut system = System::new();
    let name = "recov_stale";
    system.spawn_leaked_segment(name, 64 * 1024);

    let a = system.create_or_recover_named(name, 64 * 1024).unwrap();
    assert_eq!(a.used(), 0, "reclaimed segment must be fresh");
}

#[test]
fn create_or_recover_refuses_when_owner_alive() {
    let mut system = System::new();
    let name = "recov_live";
    let _owner = system.create_named(name, 4096).unwrap();
    let err = error(
        system.create_or_recover_named(name, 4096),
        "must refuse while owner is alive",
    );
    assert!(matches!(err, ArenaError::AlreadyExists), "got {err:?}");
}

#[test]
fn cleanup_if_stale_removes_dead_owner_segment() {
    let mut system = System::new();
    let name = "clean_dead";
    system.spawn_leaked_segment(name, 4096);

    let cleaned = system.cleanup_if_stale(name).unwrap();
    assert!(cleaned, "stale segment with dead owner must be cleaned");
    assert!(matches!(
        system.attach_named(name),
        Err(ArenaError::NotFound)
    ));
}

#[test]
fn cleanup_if_stale_keeps_live_segment() {
    let mut system = System::new();
    let name = "clean_live";
    let _owner = system.create_named(name, 4096).unwrap();
    let cleaned = system.cleanup_if_stale(name).unwrap();
    assert!(!cleaned, "segment with live owner must not be cleaned");
    assert!(system.attach_named(name).is_ok());
}

#[test]
fn cleanup_if_stale_on_missing_is_false() {
    let mut system = System::new();
    let name = "clean_missing";
    let cleaned = system.cleanup_if_stale(name).unwrap();
    assert!(!cleaned, "cleanup of a missing segment must return false");
}

#[test]
fn create_named_records_its_mapping_base() {
    let mut system = System::new();
    let name = "fb_base";
    let owner = system.create_named(name, 4096).unwrap();
    assert_ne!(owner.fixed_base(), 0);
    assert!(owner.base_ptr() > owner.fixed_base());
    assert!(owner.segment_len() >= owner.capacity());
    assert_eq!(owner.base_ptr(), owner.fixed_base() + 64);
    assert_eq!(owner.segment_len(), 4096 + 64);
}

#[test]
fn readonly_attach_same_process_hits_occupied_base() {
    let mut system = System::new();
    let name = "fb_occupied";
    let _owner = system.create_named(name, 4096).unwrap();
    let err = error(
        system.attach_named_readonly(name),
        "base occupied must fail",
    );
    assert!(
        matches!(err, ArenaError::BaseAddrUnavailable),
        "got {err:?}"
    );
    assert!(system.process().fds.is_empty());
    assert_eq!(system.process().maps.len(), 1);
}

#[test]
fn readonly_attach_missing_returns_not_found() {
    let mut system = System::new();
    let name = "fb_missing";
    let err = error(system.attach_named_readonly(name), "missing must fail");
    assert!(matches!(err, ArenaError::NotFound), "got {err:?}");
}

#[test]
fn forked_observer_attaches_at_fixed_base_and_resolves_absolute_pointer() {
    let mut system = System::new();
    let name = "fb_fork";
    let owner = system.create_named(name, 64 * 1024).unwrap();

    let b = owner.allocate(layout(8, 8)).unwrap();
    system.write(b, 0xCAFE_F00D_1234_5678);
    let a = owner.allocate(layout(8, 8)).unwrap();
    system.write(a, b as u64);
    let a_off = a - owner.base_ptr();
    let base = owner.fixed_base();

    system.enter(CHILD);
    let view = system.attach_named_readonly(name).unwrap();
    assert_eq!(view.fixed_base(), base);
    assert_eq!(view.base_ptr(), owner.base_ptr());
    assert_eq!(view.capacity(), 64 * 1024);
    assert_eq!(view.used(), 16);
    let b_addr = system.read(view.base_ptr() + a_off);
    assert_eq!(system.read(b_addr as usize), 0xCAFE_F00D_1234_5678);

    let op = view.release();
    system.drive("/fb_fork", op).unwrap();
    assert!(system.process().maps.is_empty());
    assert!(system.names.contains_key("/fb_fork"));
}

#[test]
fn attached_handle_has_the_capacity_of_the_owner() {
    let mut system = System::new();
    for size in [1, 63, 64, 4096, 12345] {
        let name = format!("cap{size}");
        let owner = system.create_named(&name, size).unwrap();
        let attached = system.attach_named(&name).unwrap();
        assert_eq!(owner.capacity(), size);
        assert_eq!(attached.capacity(), size);
        assert_eq!(owner.kind(), "named(owner)");
        assert_eq!(attached.kind(), "named(attached)");
        let p = owner.allocate(layout(1, 1)).unwrap();
        assert_eq!(p, owner.base_ptr());
    }
}

#[test]
fn interleaved_handles_get_distinct_ranges() {
    let mut system = System::new();
    let owner = system.create_named("inter", 1024).unwrap();
    let attached = system.attach_named("inter").unwrap();
    let mut offsets = Vec::new();
    for i in 0..16 {
        let handle = if i % 3 == 0 { &owner } else { &attached };
        let p = handle.allocate(layout(64, 8)).unwrap();
        offsets.push(p - handle.base_ptr());
    }
    let distinct: HashSet<usize> = offsets.iter().copied().collect();
    assert_eq!(distinct.len(), 16);
    assert_eq!(owner.remaining(), 0);
    for handle in [&owner, &attached] {
        assert_eq!(
            handle.allocate(layout(64, 8)),
            Err(ArenaError::OutOfMemory {
                requested: 64,
                available: 0
            })
        );
    }
    assert_eq!(owner.used(), 1024);
}

#[test]
fn name_without_slash_is_the_same_segment() {
    let mut system = System::new();
    let _owner = system.create_named("/slash", 64).unwrap();
    assert!(system.attach_named("slash").is_ok());
    let err = error(system.create_named("a\0b", 64), "NUL must be refused");
    assert_eq!(err, ArenaError::InvalidName);
    let err = error(system.attach_named("a\0b"), "NUL must be refused");
    assert_eq!(err, ArenaError::InvalidName);
    let err = error(system.attach_named_readonly("a\0b"), "NUL must be refused");
    assert_eq!(err, ArenaError::InvalidName);
    assert_eq!(system.cleanup_if_stale("a\0b"), Err(ArenaError::InvalidName));
    let err = error(
        system.create_or_recover_named("a\0b", 64),
        "NUL must be refused",
    );
    assert_eq!(err, ArenaError::InvalidName);
}

#[test]
fn name_goes_with_its_owner_only() {
    let mut system = System::new();
    let owner = system.create_named("own", 64).unwrap();
    let attached = system.attach_named("own").unwrap();
    system.drop_arena("own", attached);
    assert!(system.names.contains_key("/own"));
    system.drop_arena("own", owner);
    system.assert_clean("/own");
    assert!(system.create_named("own", 64).is_ok());
}

#[test]
fn creation_makes_its_calls_in_order() {
    let mut system = System::new();
    let owner = system.create_named("order", 4096).unwrap();
    let header = match system.log[5] {
        Call::WriteHeader { header, .. } => header,
        other => panic!("got {other:?}"),
    };
    assert_eq!(header.owner_pid, u64::from(PARENT));
    assert_eq!(header.base_addr, owner.fixed_base() as u64);
    assert_eq!(header.total_size, 4160);
    let addr = owner.fixed_base();
    assert_eq!(
        system.log,
        vec![
            Call::Open {
                create: true,
                exclusive: true,
                writable: true,
                mode: 0o600
            },
            Call::Resize { fd: 1, size: 4160 },
            Call::Mmap {
                from: Some(1),
                len: 4160,
                writable: true,
                at: None
            },
            Call::Close { fd: 1 },
            Call::DrawStamp,
            Call::WriteHeader { addr, header },
        ]
    );
}

#[test]
fn failed_creation_leaves_nothing_behind() {
    let mut system = System::new();

    system.fail_after(0, libc::EACCES);
    let err = error(system.create_named("f", 64), "open failed");
    assert_eq!(err, ArenaError::ShmOpen(OsError { code: libc::EACCES }));
    system.assert_clean("/f");

    system.fail_after(1, libc::ENOSPC);
    let err = error(system.create_named("f", 64), "ftruncate failed");
    assert_eq!(err, ArenaError::Ftruncate(OsError { code: libc::ENOSPC }));
    system.assert_clean("/f");

    system.fail_after(2, libc::ENOMEM);
    let err = error(system.create_named("f", 64), "mmap failed");
    assert_eq!(err, ArenaError::Mmap(OsError { code: libc::ENOMEM }));
    system.assert_clean("/f");

    system.fail_after(2, libc::ENOMEM);
    let err = error(system.create_or_recover_named("f", 64), "mmap failed");
    assert_eq!(err, ArenaError::Mmap(OsError { code: libc::ENOMEM }));
    system.assert_clean("/f");
}

#[test]
fn segment_that_would_be_too_long_is_refused() {
    let mut system = System::new();
    let err = error(system.create_named("big", usize::MAX), "too long");
    assert_eq!(
        err,
        ArenaError::OutOfMemory {
            requested: usize::MAX,
            available: usize::MAX - 64
        }
    );
    system.assert_clean("/big");
    let err = error(
        system.create_named("big", isize::MAX as usize),
        "too long",
    );
    assert_eq!(
        err,
        ArenaError::OutOfMemory {
            requested: isize::MAX as usize + 64,
            available: isize::MAX as usize
        }
    );
    system.assert_clean("/big");
}

#[test]
fn failed_attachment_leaves_nothing_behind() {
    let mut system = System::new();
    let owner = system.create_named("a", 64).unwrap();
    system.enter(CHILD);

    system.fail_after(0, libc::EACCES);
    let err = error(system.attach_named("a"), "open failed");
    assert_eq!(err, ArenaError::ShmOpen(OsError { code: libc::EACCES }));
    system.fail_after(1, libc::EIO);
    let err = error(system.attach_named("a"), "fstat failed");
    assert_eq!(err, ArenaError::ShmOpen(OsError { code: libc::EIO }));
    system.fail_after(2, libc::ENOMEM);
    let err = error(system.attach_named("a"), "mmap failed");
    assert_eq!(err, ArenaError::Mmap(OsError { code: libc::ENOMEM }));
    system.fail_after(2, libc::ENOMEM);
    let err = error(system.attach_named_readonly("a"), "mmap failed");
    assert_eq!(err, ArenaError::Mmap(OsError { code: libc::ENOMEM }));
    system.fail_after(5, libc::ENOMEM);
    let err = error(system.attach_named_readonly("a"), "fixed mmap failed");
    assert_eq!(err, ArenaError::Mmap(OsError { code: libc::ENOMEM }));
    assert!(system.process().fds.is_empty());
    assert!(system.process().maps.is_empty());

    system.enter(PARENT);
    assert_eq!(owner.used(), 0);
}

#[test]
fn foreign_segment_is_refused_and_counts_as_left_over() {
    let mut system = System::new();
    let _owner = system.create_named("m", 64).unwrap();
    let segment = system.names["/m"];

    system.segments[segment].bytes[8] = 2;
    let expected = ArenaError::VersionMismatch {
        segment: 2,
        expected: 1,
    };
    assert_eq!(error(system.attach_named("m"), "version"), expected);
    assert_eq!(error(system.attach_named_readonly("m"), "version"), expected);
    // The owner of another version is still looked at.
    assert_eq!(system.cleanup_if_stale("m"), Ok(false));

    system.segments[segment].bytes[0] = 0;
    assert_eq!(error(system.attach_named("m"), "magic"), ArenaError::BadMagic);
    assert_eq!(
        error(system.attach_named_readonly("m"), "magic"),
        ArenaError::BadMagic
    );
    assert_eq!(system.cleanup_if_stale("m"), Ok(true));
    assert!(!system.names.contains_key("/m"));
    assert!(system.process().fds.is_empty());
    assert_eq!(system.process().maps.len(), 1);
}

#[test]
fn segment_shorter_than_a_header_counts_as_left_over() {
    let mut system = System::new();
    let _owner = system.create_named("s", 64).unwrap();
    let segment = system.names["/s"];
    system.segments[segment].bytes.truncate(63);
    assert_eq!(error(system.attach_named("s"), "short"), ArenaError::BadMagic);
    let a = system.create_or_recover_named("s", 128).unwrap();
    assert_eq!(a.capacity(), 128);
}

#[test]
fn owner_that_may_not_be_signalled_lives() {
    let mut system = System::new();
    system.spawn_leaked_segment("p", 64);
    // Open, measure, map, close, read, unmap, then the probe.
    system.fail_after(6, libc::EPERM);
    assert_eq!(system.cleanup_if_stale("p"), Ok(false));
    assert_eq!(system.cleanup_if_stale("p"), Ok(true));
}

#[test]
fn owner_that_is_no_process_number_is_dead() {
    let mut system = System::new();
    for pid in [0u64, 1 << 31, u64::MAX] {
        let _owner = system.create_named("n", 64).unwrap();
        let segment = system.names["/n"];
        system.segments[segment].bytes[32..40].copy_from_slice(&pid.to_le_bytes());
        let calls = system.log.len();
        assert_eq!(system.cleanup_if_stale("n"), Ok(true));
        for call in &system.log[calls..] {
            assert!(!matches!(call, Call::Probe { .. }));
        }
    }
}

#[test]
fn recovery_gives_up_after_four_attempts() {
    let mut system = System::new();
    // Each time the name is taken at the creation and gone at the check.
    for i in 0..4 {
        system.fail_after(2 * i, libc::EEXIST);
    }
    let err = error(system.create_or_recover_named("g", 64), "attempts used up");
    assert_eq!(err, ArenaError::AlreadyExists);
    assert_eq!(system.log.len(), 8);

    // With one attempt left it succeeds.
    for i in 0..3 {
        system.fail_after(2 * i, libc::EEXIST);
    }
    assert!(system.create_or_recover_named("g", 64).is_ok());
}

#[test]
fn recovery_passes_on_what_the_check_runs_into() {
    let mut system = System::new();
    system.spawn_leaked_segment("r", 64);
    system.fail_after(1, libc::EACCES);
    let err = error(system.create_or_recover_named("r", 64), "check failed");
    assert_eq!(err, ArenaError::ShmOpen(OsError { code: libc::EACCES }));
    assert!(system.names.contains_key("/r"));
    system.fail_after(2, libc::ENOMEM);
    assert_eq!(
        system.cleanup_if_stale("r"),
        Err(ArenaError::Mmap(OsError { code: libc::ENOMEM }))
    );
    assert!(system.names.contains_key("/r"));
}

#[test]
fn view_at_another_address_is_given_back() {
    let mut system = System::new();
    let owner = system.create_named("w", 64).unwrap();
    let base = owner.fixed_base();
    system.enter(CHILD);
    let job = Arena::attach_named_readonly("w").unwrap();
    let mut op = job.op;
    loop {
        let call = op.call();
        let reply = match call {
            // The system ignores the address.
            Call::Mmap {
                from: Some(fd),
                len,
                writable: false,
                at: Some(want),
            } => {
                assert_eq!(want, base);
                let segment = system.process().fds[&fd];
                system.map(segment, len, false, None)
            }
            other => system.perform("/w", other),
        };
        match op.step(reply) {
            Progress::Pending(next) => op = next,
            Progress::Done(result) => {
                assert_eq!(result, Err(ArenaError::BaseAddrUnavailable));
                break;
            }
        }
    }
    assert!(system.process().fds.is_empty());
    assert!(system.process().maps.is_empty());
}

#[test]
fn allocation_in_a_named_arena_is_aligned_beyond_the_header() {
    let mut system = System::new();
    let owner = system.create_named("align", 4096).unwrap();
    assert_eq!(owner.base_ptr() % 128, 64);
    let p = owner.allocate(layout(128, 128)).unwrap();
    assert_eq!(p % 128, 0);
    assert_eq!(p, owner.base_ptr() + 64);
    assert_eq!(owner.used(), 192);
    let q = owner.allocate(layout(8, 1024)).unwrap();
    assert_eq!(q % 1024, 0);
    assert_eq!(q, owner.base_ptr() - 64 + 1024);
    assert_eq!(
        owner.allocate(layout(4096, 128)),
        Err(ArenaError::OutOfMemory {
            requested: 4096 + 120,
            available: 4096 - 968
        })
    );

    let attached = system.attach_named("align").unwrap();
    let r = attached.allocate(layout(8, 128)).unwrap();
    assert_eq!(r % 128, 0);
    assert_eq!(r - attached.base_ptr(), 1088);
}

#[test]
fn every_handle_gives_the_base_of_the_creator() {
    let mut system = System::new();
    let owner = system.create_named("fixed", 4096).unwrap();
    let attached = system.attach_named("fixed").unwrap();
    assert_ne!(attached.base_ptr(), owner.base_ptr());
    assert_ne!(owner.fixed_base(), 0);
    assert_eq!(owner.fixed_base(), owner.base_ptr() - 64);
    assert_eq!(attached.fixed_base(), owner.fixed_base());
    assert_eq!(attached.segment_len(), owner.segment_len());

    system.enter(CHILD);
    let child = system.attach_named("fixed").unwrap();
    assert_eq!(child.fixed_base(), owner.fixed_base());
    let own = child.base_ptr() - 64;
    assert_ne!(own, child.fixed_base());
    // The handle gives its own mapping back, not the creator's place.
    assert_eq!(
        child.release().call(),
        Call::Munmap {
            addr: own,
            len: 4160
        }
    );
}

#[test]
fn cleanup_says_so_where_the_name_stays() {
    let mut system = System::new();
    system.spawn_leaked_segment("stay", 64);
    // Open, measure, map, close, read, unmap, probe, then the removal.
    system.fail_after(7, libc::EACCES);
    assert_eq!(system.cleanup_if_stale("stay"), Ok(false));
    assert!(system.names.contains_key("/stay"));
    assert!(matches!(system.log.last(), Some(Call::Unlink)));
    assert!(system.attach_named("stay").is_ok());
    assert_eq!(system.cleanup_if_stale("stay"), Ok(true));
    assert!(!system.names.contains_key("/stay"));
}

#[test]
fn recovery_tries_again_where_the_name_stays() {
    let mut system = System::new();
    system.spawn_leaked_segment("retry", 64);
    system.fail_after(8, libc::EACCES);
    let a = system.create_or_recover_named("retry", 128).unwrap();
    assert_eq!(a.capacity(), 128);

    system.spawn_leaked_segment("never", 64);
    let calls = system.log.len();
    for i in 0..4 {
        system.fail_after(9 * i + 8, libc::EACCES);
    }
    let err = error(system.create_or_recover_named("never", 64), "name stays");
    assert_eq!(err, ArenaError::AlreadyExists);
    assert_eq!(system.log.len(), calls + 36);
    assert!(system.names.contains_key("/never"));
}

#[test]
fn what_cannot_be_given_back_is_asked_for_once() {
    let mut system = System::new();
    let owner = system.create_named("once", 64).unwrap();

    // A `close` that fails does not keep from attaching.
    let calls = system.log.len();
    system.fail_after(3, libc::EINTR);
    assert!(system.attach_named("once").is_ok());
    assert_eq!(system.log.len(), calls + 5);

    // Nor does a `munmap` or a `close` change the error.
    let segment = system.names["/once"];
    system.segments[segment].bytes[0] = 0;
    let calls = system.log.len();
    system.fail_after(5, libc::EINVAL);
    assert_eq!(error(system.attach_named("once"), "magic"), ArenaError::BadMagic);
    assert_eq!(system.log.len(), calls + 6);
    system.fail_after(5, libc::EINTR);
    assert_eq!(
        error(system.attach_named_readonly("once"), "magic"),
        ArenaError::BadMagic
    );

    // A name that has gone already does not keep its owner from going.
    system.names.remove("/once");
    system.drop_arena("once", owner);

    // A creation that fails tells why, though the name stays.
    system.fail_after(2, libc::ENOMEM);
    system.fail_after(4, libc::EACCES);
    let err = error(system.create_named("half", 64), "mmap failed");
    assert_eq!(err, ArenaError::Mmap(OsError { code: libc::ENOMEM }));
    assert!(system.names.contains_key("/half"));
    // It counts as left over.
    assert_eq!(system.cleanup_if_stale("half"), Ok(true));
}

#[test]
fn new_segment_reads_zeros() {
    let mut system = System::new();
    let owner = system.create_named("zeros", 256).unwrap();
    for i in 0..32 {
        assert_eq!(system.read(owner.base_ptr() + 8 * i), 0);
    }
}

#[test]
fn handles_read_what_the_other_wrote() {
    let mut system = System::new();
    let owner = system.create_named("both", 256).unwrap();
    let attached = system.attach_named("both").unwrap();
    for i in 0..32 {
        let value = 1000 + i as u64;
        system.write(owner.base_ptr() + 8 * i, value);
        assert_eq!(system.read(attached.base_ptr() + 8 * i), value);
        system.write(attached.base_ptr() + 8 * i, value + 1);
        assert_eq!(system.read(owner.base_ptr() + 8 * i), value + 1);
    }
}

#[test]
fn attaching_and_dropping_change_no_byte() {
    let mut system = System::new();
    let owner = system.create_named("quiet", 256).unwrap();
    let p = owner.allocate(layout(24, 8)).unwrap();
    system.write(p, 0xFEED);
    let segment = system.names["/quiet"];
    let before = system.segments[segment].bytes.clone();

    let attached = system.attach_named("quiet").unwrap();
    assert_eq!(attached.used(), 24);
    system.drop_arena("quiet", attached);
    assert_eq!(
        error(system.attach_named_readonly("quiet"), "taken"),
        ArenaError::BaseAddrUnavailable
    );
    assert_eq!(system.process().maps.len(), 1);
    assert_eq!(system.process().maps[0].addr, owner.fixed_base());

    system.enter(CHILD);
    let view = system.attach_named_readonly("quiet").unwrap();
    for offset in (0..256).step_by(8) {
        let addr = owner.base_ptr() + offset;
        let seen = system.read(addr);
        system.enter(PARENT);
        assert_eq!(system.read(addr), seen);
        system.enter(CHILD);
    }
    let op = view.release();
    system.drive("/quiet", op).unwrap();

    assert_eq!(system.segments[segment].bytes, before);
    assert_eq!(owner.used(), 24);
    assert_eq!(system.names["/quiet"], segment);
    assert!(system.attach_named("quiet").is_ok());
}

#[test]
fn map_anonymous_pages_are_zero_initialized() {
    let mut system = System::new();
    let arena = system.new_anonymous(4096).unwrap();
    let p = arena.allocate(layout(128, 8)).unwrap();
    for i in 0..16 {
        assert_eq!(system.read(p + 8 * i), 0);
    }
}

#[test]
fn first_granted_range_reads_zero_beside_what_was_written() {
    let mut system = System::new();
    let other = system.new_anonymous(64).unwrap();
    system.write(other.base_ptr(), 7);
    let unnamed = system.new_anonymous(4096).unwrap();
    let named = system.create_named("first", 4096).unwrap();
    for arena in [&unnamed, &named] {
        for _ in 0..16 {
            let p = arena.allocate(layout(64, 8)).unwrap();
            for i in 0..8 {
                assert_eq!(system.read(p + 8 * i), 0);
                system.write(p + 8 * i, u64::MAX);
            }
        }
    }
    assert_eq!(system.read(other.base_ptr()), 7);
}
