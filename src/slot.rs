//! The slot that holds at most one process identifier, and the report that a
//! read of it produces from the host's process table.
use vstd::prelude::*;
use vstd::rwlock::{RwLock, RwLockPredicate};

use crate::error::ErrorKind;
use crate::render::{copy_truncated, render_report, report_line};
use crate::text::{parse_pid, pid_of};

verus! {

/// What the process table tells of one live process.
pub struct ProcessInfo {
    /// The command name that the process runs under.
    pub command_name: String,
    /// The host's scheduling-state code for the process.
    pub state: i32,
}

impl View for ProcessInfo {
    type V = (Seq<char>, i32);

    open spec fn view(&self) -> (Seq<char>, i32) {
        (self.command_name@, self.state)
    }
}

/// What a lookup in the process table returned, as plain values.
pub open spec fn found_view(found: Option<ProcessInfo>) -> Option<(Seq<char>, i32)> {
    match found {
        Some(info) => Some(info@),
        None => None,
    }
}

/// The host's table of live processes, which a read of the slot consults.
pub trait ProcessTable {
    /// The live process whose identifier is `pid`, if there is one.
    fn lookup(&self, pid: i32) -> Option<ProcessInfo>;
}

/// The slot's content after `bytes` are written into a slot holding
/// `current`: the identifier they spell, or `current` where they spell none.
pub open spec fn next_pid(current: Option<i32>, bytes: Seq<u8>) -> Option<i32> {
    match pid_of(bytes) {
        Ok(p) => Some(p),
        Err(_) => current,
    }
}

/// What a write of `bytes` returns: all of them consumed, or why they were
/// refused.
pub open spec fn write_result(bytes: Seq<u8>) -> Result<usize, ErrorKind> {
    match pid_of(bytes) {
        Ok(_) => Ok(bytes.len() as usize),
        Err(e) => Err(e),
    }
}

/// The report on `pid` into a buffer that held `before`, where the process
/// table gave `found`, returned `r` and left the buffer as `after`: `NotFound`
/// with the buffer untouched where no process was found, else the report line
/// copied into the buffer as far as it fits, and the number of bytes copied.
pub open spec fn report_outcome(
    pid: i32,
    found: Option<(Seq<char>, i32)>,
    before: Seq<u8>,
    r: Result<usize, ErrorKind>,
    after: Seq<u8>,
) -> bool {
    match found {
        None => r == Err::<usize, ErrorKind>(ErrorKind::NotFound) && after == before,
        Some((name, state)) => {
            let line = report_line(name, pid as int, state as int);
            let n = if line.len() < before.len() {
                line.len() as int
            } else {
                before.len() as int
            };
            &&& r == Ok::<usize, ErrorKind>(n as usize)
            &&& after == line.subrange(0, n) + before.subrange(n, before.len() as int)
        },
    }
}

/// Writes into `buffer` the report on process `pid`, given what the process
/// table returned for it.
pub fn report_into(pid: i32, found: Option<ProcessInfo>, buffer: &mut [u8]) -> (r: Result<
    usize,
    ErrorKind,
>)
    ensures
        report_outcome(pid, found_view(found), old(buffer)@, r, final(buffer)@),
{
    match found {
        None => Err(ErrorKind::NotFound),
        Some(info) => {
            let line = render_report(info.command_name.as_str(), pid, info.state);
            let n = copy_truncated(line.as_slice(), buffer);
            Ok(n)
        },
    }
}

/// The slot's state held exclusively by its owner: empty, or one process
/// identifier.
pub struct SlotState {
    pid: Option<i32>,
}

impl View for SlotState {
    type V = Option<i32>;

    closed spec fn view(&self) -> Option<i32> {
        self.pid
    }
}

impl SlotState {
    /// An empty slot.
    pub fn new() -> (s: Self)
        ensures
            s@ is None,
    {
        SlotState { pid: None }
    }

    /// The identifier held, if any.
    pub fn stored(&self) -> (r: Option<i32>)
        ensures
            r == self@,
    {
        self.pid
    }

    /// Writes `data`: where it spells a process identifier, that identifier
    /// replaces the one held and all of `data` counts as consumed; else the
    /// slot is left as it was and the error says why.
    pub fn set(&mut self, data: &[u8]) -> (r: Result<usize, ErrorKind>)
        ensures
            final(self)@ == next_pid(old(self)@, data@),
            r == write_result(data@),
    {
        match parse_pid(data) {
            Ok(p) => {
                self.pid = Some(p);
                Ok(data.len())
            },
            Err(e) => Err(e),
        }
    }

    /// Reads the slot into `buffer`: nothing where it is empty, else the
    /// report on the process it names, from `table`.
    pub fn snapshot<T: ProcessTable>(&self, table: &T, buffer: &mut [u8]) -> (r: Result<
        usize,
        ErrorKind,
    >)
        ensures
            self@ is None ==> r == Ok::<usize, ErrorKind>(0) && final(buffer)@ == old(buffer)@,
            self@ matches Some(p) ==> exists|found: Option<(Seq<char>, i32)>|
                report_outcome(p, found, old(buffer)@, r, final(buffer)@),
    {
        match self.pid {
            None => Ok(0),
            Some(p) => {
                let found = table.lookup(p);
                let ghost seen = found_view(found);
                let r = report_into(p, found, buffer);
                assert(report_outcome(p, seen, old(buffer)@, r, buffer@));
                r
            },
        }
    }
}

/// The lock's invariant: any content is admissible.
pub struct AnyContent;

impl RwLockPredicate<Option<i32>> for AnyContent {
    open spec fn inv(self, v: Option<i32>) -> bool {
        true
    }
}

/// The slot shared among concurrent callers: its content sits behind a lock
/// that each write and each read holds only to store or load it.
pub struct PidSlot {
    lock: RwLock<Option<i32>, AnyContent>,
}

impl PidSlot {
    /// An empty slot.
    pub fn new() -> (s: Self) {
        PidSlot { lock: RwLock::new(None, Ghost(AnyContent)) }
    }

    /// The identifier held at the moment of the call, if any.
    pub fn stored(&self) -> (r: Option<i32>) {
        let handle = self.lock.acquire_read();
        let r = *handle.borrow();
        handle.release_read();
        r
    }

    /// Writes `data`: where it spells a process identifier, that identifier
    /// replaces the one held, whole, and all of `data` counts as consumed;
    /// else the slot is not touched and the error says why.
    pub fn set(&self, data: &[u8]) -> (r: Result<usize, ErrorKind>)
        ensures
            r == write_result(data@),
    {
        match parse_pid(data) {
            Ok(p) => {
                let (_, handle) = self.lock.acquire_write();
                handle.release_write(Some(p));
                Ok(data.len())
            },
            Err(e) => Err(e),
        }
    }

    /// Reads the slot into `buffer`: nothing where it is empty, else the
    /// report on the process it names, from `table`. The lock is released
    /// before the table is consulted.
    pub fn snapshot<T: ProcessTable>(&self, table: &T, buffer: &mut [u8]) -> (r: Result<
        usize,
        ErrorKind,
    >)
        ensures
            (r == Ok::<usize, ErrorKind>(0) && final(buffer)@ == old(buffer)@) || exists|
                p: i32,
                found: Option<(Seq<char>, i32)>,
            | report_outcome(p, found, old(buffer)@, r, final(buffer)@),
    {
        let current = SlotState { pid: self.stored() };
        current.snapshot(table, buffer)
    }
}

} // verus!
