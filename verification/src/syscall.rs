use vstd::prelude::*;

use std::collections::HashMap;

verus! {

broadcast use vstd::std_specs::hash::group_hash_axioms;

/// A system call of the tracee, as far as the mocks care.
#[derive(Debug, Clone, Copy, PartialEq, Eq, Structural)]
pub enum Syscall {
    Execve,
    Getcwd,
    Stat,
    Unknown(u64),
}

/// Whether a tracee stops on entering or on leaving a system call.
#[derive(Debug, Clone, Copy, PartialEq, Eq, Structural)]
pub enum SyscallStop {
    Enter,
    Exit,
}

/// The number of `execve`.
/// Returns `libc::SYS_execve`, which the source of `libc` defines as 59 on
/// x86_64 Linux.
#[verifier::external_body]
pub(crate) fn execve_number() -> (n: i64)
    ensures
        n == 59,
{
    libc::SYS_execve
}

/// The number of `getcwd`.
/// Returns `libc::SYS_getcwd`, which the source of `libc` defines as 79 on
/// x86_64 Linux.
#[verifier::external_body]
pub(crate) fn getcwd_number() -> (n: i64)
    ensures
        n == 79,
{
    libc::SYS_getcwd
}

/// The number of `stat`.
/// Returns `libc::SYS_stat`, which the source of `libc` defines as 4 on
/// x86_64 Linux.
#[verifier::external_body]
pub(crate) fn stat_number() -> (n: i64)
    ensures
        n == 4,
{
    libc::SYS_stat
}

/// The number of `read`.
/// Returns `libc::SYS_read`, which the source of `libc` defines as 0 on
/// x86_64 Linux.
#[verifier::external_body]
pub(crate) fn read_number() -> (n: i64)
    ensures
        n == 0,
{
    libc::SYS_read
}

/// The number of `write`.
/// Returns `libc::SYS_write`, which the source of `libc` defines as 1 on
/// x86_64 Linux.
#[verifier::external_body]
pub(crate) fn write_number() -> (n: i64)
    ensures
        n == 1,
{
    libc::SYS_write
}

/// The number of `open`.
/// Returns `libc::SYS_open`, which the source of `libc` defines as 2 on
/// x86_64 Linux.
#[verifier::external_body]
pub(crate) fn open_number() -> (n: i64)
    ensures
        n == 2,
{
    libc::SYS_open
}

/// The number of `close`.
/// Returns `libc::SYS_close`, which the source of `libc` defines as 3 on
/// x86_64 Linux.
#[verifier::external_body]
pub(crate) fn close_number() -> (n: i64)
    ensures
        n == 3,
{
    libc::SYS_close
}

/// The number of `fstat`.
/// Returns `libc::SYS_fstat`, which the source of `libc` defines as 5 on
/// x86_64 Linux.
#[verifier::external_body]
pub(crate) fn fstat_number() -> (n: i64)
    ensures
        n == 5,
{
    libc::SYS_fstat
}

/// The number of `dup2`.
/// Returns `libc::SYS_dup2`, which the source of `libc` defines as 33 on
/// x86_64 Linux.
#[verifier::external_body]
pub(crate) fn dup2_number() -> (n: i64)
    ensures
        n == 33,
{
    libc::SYS_dup2
}

/// The number of `fcntl`.
/// Returns `libc::SYS_fcntl`, which the source of `libc` defines as 72 on
/// x86_64 Linux.
#[verifier::external_body]
pub(crate) fn fcntl_number() -> (n: i64)
    ensures
        n == 72,
{
    libc::SYS_fcntl
}

/// The number of `openat`.
/// Returns `libc::SYS_openat`, which the source of `libc` defines as 257 on
/// x86_64 Linux.
#[verifier::external_body]
pub(crate) fn openat_number() -> (n: i64)
    ensures
        n == 257,
{
    libc::SYS_openat
}

/// The system call with a number.
pub open spec fn syscall_of(number: u64) -> Syscall {
    if number == 59 {
        Syscall::Execve
    } else if number == 79 {
        Syscall::Getcwd
    } else if number == 4 {
        Syscall::Stat
    } else {
        Syscall::Unknown(number)
    }
}

impl Syscall {
    /// The system call with a number (from the `orig_rax` register).
    pub fn from_number(number: u64) -> (result: Syscall)
        ensures
            result == syscall_of(number),
    {
        if number == execve_number() as u64 {
            Syscall::Execve
        } else if number == getcwd_number() as u64 {
            Syscall::Getcwd
        } else if number == stat_number() as u64 {
            Syscall::Stat
        } else {
            Syscall::Unknown(number)
        }
    }
}

/// The message for a process that leaves another system call than the one
/// it entered.
pub open spec fn wrong_syscall_message() -> Seq<char> {
    "update_syscall_state: exiting with the wrong syscall"@
}

/// The system calls that processes are inside, by process id, and whether a
/// stop of process `pid` at `syscall` enters or leaves it: a process that is
/// inside no system call enters one; one that is inside it leaves it; one
/// that is inside another one is an error, and nothing changes.
pub open spec fn syscall_step(entered: Map<i32, Syscall>, pid: i32, syscall: Syscall) -> (
    Map<i32, Syscall>,
    Result<SyscallStop, Seq<char>>,
) {
    if !entered.contains_key(pid) {
        (entered.insert(pid, syscall), Ok(SyscallStop::Enter))
    } else if entered[pid] != syscall {
        (entered, Err(wrong_syscall_message()))
    } else {
        (entered.remove(pid), Ok(SyscallStop::Exit))
    }
}

/// Keeps track of which process is inside which system call.
#[derive(Debug)]
pub struct SyscallTracker {
    entered_syscalls: HashMap<i32, Syscall>,
}

impl SyscallTracker {
    /// The system calls that processes are inside, by process id.
    pub closed spec fn view(&self) -> Map<i32, Syscall> {
        self.entered_syscalls@
    }

    /// No process is inside a system call.
    pub fn new() -> (result: SyscallTracker)
        ensures
            result.view() == Map::<i32, Syscall>::empty(),
    {
        SyscallTracker { entered_syscalls: HashMap::new() }
    }

    /// Whether a stop of process `pid` at `syscall` enters or leaves it (see
    /// `syscall_step`).
    pub fn update_syscall_state(&mut self, pid: i32, syscall: Syscall) -> (result: Result<SyscallStop, String>)
        ensures
            ({
                let (entered, stop) = syscall_step(old(self).view(), pid, syscall);
                &&& final(self).view() == entered
                &&& match stop {
                    Ok(s) => result == Ok::<SyscallStop, String>(s),
                    Err(message) => result matches Err(m) && m@ == message,
                }
            }),
    {
        match self.entered_syscalls.get(&pid) {
            None => {
                self.entered_syscalls.insert(pid, syscall);
                Ok(SyscallStop::Enter)
            },
            Some(old) => {
                if *old != syscall {
                    Err(String::from_str("update_syscall_state: exiting with the wrong syscall"))
                } else {
                    self.entered_syscalls.remove(&pid);
                    Ok(SyscallStop::Exit)
                }
            },
        }
    }
}

/// Entering a system call and leaving it restores the state, and the stops
/// are an entry and an exit.
pub proof fn lemma_enter_exit(entered: Map<i32, Syscall>, pid: i32, syscall: Syscall)
    requires
        !entered.contains_key(pid),
    ensures
        syscall_step(entered, pid, syscall).1 == Ok::<SyscallStop, Seq<char>>(SyscallStop::Enter),
        syscall_step(syscall_step(entered, pid, syscall).0, pid, syscall) == (entered, Ok::<
            SyscallStop,
            Seq<char>,
        >(SyscallStop::Exit)),
{
    assert(entered.insert(pid, syscall).remove(pid) =~= entered);
}

/// The stops of one process do not change what another process is inside.
pub proof fn lemma_processes_independent(entered: Map<i32, Syscall>, pid: i32, other: i32, syscall: Syscall)
    requires
        pid != other,
    ensures
        syscall_step(entered, pid, syscall).0.contains_key(other) == entered.contains_key(other),
        entered.contains_key(other) ==> syscall_step(entered, pid, syscall).0[other] == entered[other],
{
}

/// What a stop of the tracer means for the mock.
#[derive(Debug, Clone, Copy, PartialEq, Eq, Structural)]
pub enum SyscallEvent {
    /// A child of the tracee is about to run a command.
    ExecveEnter,
    /// A process has got its working directory.
    GetcwdExit,
    /// A process has got the status of a file.
    StatExit,
    /// Nothing to do.
    Other,
}

/// What a stop of process `pid` means, where `tracee` is the tracee that
/// runs the tested script: entering `execve` in a process other than the
/// tracee, whose own `execve` runs the script; leaving `getcwd`; leaving
/// `stat`; else nothing.
pub open spec fn event_of(syscall: Syscall, stop: SyscallStop, pid: i32, tracee: i32) -> SyscallEvent {
    match (syscall, stop) {
        (Syscall::Execve, SyscallStop::Enter) => if pid != tracee {
            SyscallEvent::ExecveEnter
        } else {
            SyscallEvent::Other
        },
        (Syscall::Getcwd, SyscallStop::Exit) => SyscallEvent::GetcwdExit,
        (Syscall::Stat, SyscallStop::Exit) => SyscallEvent::StatExit,
        _ => SyscallEvent::Other,
    }
}

/// What a stop of process `pid` means (see `event_of`).
pub fn syscall_event(syscall: Syscall, stop: SyscallStop, pid: i32, tracee: i32) -> (result: SyscallEvent)
    ensures
        result == event_of(syscall, stop, pid, tracee),
{
    match (syscall, stop) {
        (Syscall::Execve, SyscallStop::Enter) => {
            if pid != tracee {
                SyscallEvent::ExecveEnter
            } else {
                SyscallEvent::Other
            }
        },
        (Syscall::Getcwd, SyscallStop::Exit) => SyscallEvent::GetcwdExit,
        (Syscall::Stat, SyscallStop::Exit) => SyscallEvent::StatExit,
        _ => SyscallEvent::Other,
    }
}

} // verus!
