//! System call numbers, the addresses of messages, what user space reads from the
//! kernel's answers, and how the interpreter's system calls are dispatched.
use vstd::prelude::*;

verus! {

pub const SYS_SPAWN: u64 = 1;
pub const SYS_EXIT: u64 = 2;
pub const SYS_SCHED: u64 = 3;
pub const SYS_GETPID: u64 = 4;
pub const SYS_SEND: u64 = 5;
pub const SYS_RECV: u64 = 6;
pub const SYS_SET_ALLOC: u64 = 7;
pub const SYS_UNMAP: u64 = 8;
pub const SYS_KILL: u64 = 9;

/// Where a message goes to or comes from.
#[derive(Debug, Clone, Copy, PartialEq, Eq, Structural)]
pub enum Locator {
    Process(u32),
    Device(u32),
    Unknown,
}

/// The process ID in the answer to `SYS_SPAWN`; a negative answer is a failure.
pub fn spawn(ret: isize) -> (r: Option<u32>)
    ensures
        ret < 0 ==> r is None,
        ret >= 0 ==> r == Some(ret as u32),
{
    if ret < 0 {
        None
    } else {
        Some(ret as u32)
    }
}

/// The process ID in the answer to `SYS_GETPID`.
pub fn getpid(ret: isize) -> (r: u32)
    ensures
        r == ret as u32,
{
    ret as u32
}

/// Whether the answer to `SYS_SEND` reports delivery.
pub fn send(ret: isize) -> (r: bool)
    ensures
        r == (ret == 1),
{
    ret == 1
}

/// The value in the answer to `SYS_RECV`.
pub fn recv(ret: isize) -> (r: u32)
    ensures
        r == ret as u32,
{
    ret as u32
}

/// What a system call of the interpreter asks for.
#[derive(Debug, Clone, Copy, PartialEq, Eq, Structural)]
pub enum Callback {
    Spawn(usize),
    Exit,
    Sched,
    GetPid,
    Send(Locator, u32),
    Recv,
    Kill(u32),
    /// A number that is no system call.
    Unsupported(u64),
    /// An argument out of range: the call answers nothing.
    Invalid,
}

/// The system call of the interpreter with number `x` and arguments `y` and `z`, each
/// given as what it converts to (`None` when out of range).
pub open spec fn callback_of(x: Option<u64>, y_usize: Option<usize>, y_u32: Option<u32>, z_u32: Option<u32>) -> Callback {
    match x {
        None => Callback::Invalid,
        Some(c) => if c == SYS_SPAWN {
            match y_usize { Some(a) => Callback::Spawn(a), None => Callback::Invalid }
        } else if c == SYS_EXIT {
            Callback::Exit
        } else if c == SYS_SCHED {
            Callback::Sched
        } else if c == SYS_GETPID {
            Callback::GetPid
        } else if c == SYS_SEND {
            match (y_u32, z_u32) {
                (Some(a), Some(v)) => Callback::Send(Locator::Process(a), v),
                _ => Callback::Invalid,
            }
        } else if c == SYS_RECV {
            Callback::Recv
        } else if c == SYS_KILL {
            match y_u32 { Some(p) => Callback::Kill(p), None => Callback::Invalid }
        } else {
            Callback::Unsupported(c)
        },
    }
}

/// Law: each system call number of the interpreter is dispatched to its own call
/// (`SYS_KILL` with a process in range kills it), and only the other numbers are
/// unsupported.
pub proof fn law_syscall_numbers(x: Option<u64>, y_usize: Option<usize>, y_u32: Option<u32>, z_u32: Option<u32>)
    ensures
        x == Some(9u64) && y_u32 is Some ==> callback_of(x, y_usize, y_u32, z_u32) == Callback::Kill(y_u32->Some_0),
        x == Some(1u64) && y_usize is Some ==> callback_of(x, y_usize, y_u32, z_u32) == Callback::Spawn(y_usize->Some_0),
        x == Some(2u64) ==> callback_of(x, y_usize, y_u32, z_u32) == Callback::Exit,
        x == Some(3u64) ==> callback_of(x, y_usize, y_u32, z_u32) == Callback::Sched,
        x == Some(4u64) ==> callback_of(x, y_usize, y_u32, z_u32) == Callback::GetPid,
        x == Some(5u64) && y_u32 is Some && z_u32 is Some ==>
            callback_of(x, y_usize, y_u32, z_u32) == Callback::Send(Locator::Process(y_u32->Some_0), z_u32->Some_0),
        x == Some(6u64) ==> callback_of(x, y_usize, y_u32, z_u32) == Callback::Recv,
        callback_of(x, y_usize, y_u32, z_u32) is Unsupported <==>
            (x is Some && !(x == Some(1u64) || x == Some(2u64) || x == Some(3u64) || x == Some(4u64) || x == Some(5u64)
                || x == Some(6u64) || x == Some(9u64))),
{
}

/// Dispatches a system call of the interpreter.
pub fn callback(x: Option<u64>, y_usize: Option<usize>, y_u32: Option<u32>, z_u32: Option<u32>) -> (r: Callback)
    ensures
        r == callback_of(x, y_usize, y_u32, z_u32),
        x is None ==> r == Callback::Invalid,
        x == Some(1u64) ==> r == match y_usize { Some(a) => Callback::Spawn(a), None => Callback::Invalid },
        x == Some(2u64) ==> r == Callback::Exit,
        x == Some(3u64) ==> r == Callback::Sched,
        x == Some(4u64) ==> r == Callback::GetPid,
        x == Some(5u64) ==> r == match (y_u32, z_u32) {
            (Some(a), Some(v)) => Callback::Send(Locator::Process(a), v),
            _ => Callback::Invalid,
        },
        x == Some(6u64) ==> r == Callback::Recv,
        x == Some(9u64) ==> r == match y_u32 { Some(p) => Callback::Kill(p), None => Callback::Invalid },
        forall|c: u64| x == Some(c) && !(c == 1 || c == 2 || c == 3 || c == 4 || c == 5 || c == 6 || c == 9)
            ==> r == Callback::Unsupported(c),
        r is Unsupported ==> x == Some(r->Unsupported_0),
{
    let c = match x {
        Some(c) => c,
        None => {
            return Callback::Invalid;
        },
    };
    if c == SYS_SPAWN {
        match y_usize {
            Some(a) => Callback::Spawn(a),
            None => Callback::Invalid,
        }
    } else if c == SYS_EXIT {
        Callback::Exit
    } else if c == SYS_SCHED {
        Callback::Sched
    } else if c == SYS_GETPID {
        Callback::GetPid
    } else if c == SYS_SEND {
        match (y_u32, z_u32) {
            (Some(a), Some(v)) => Callback::Send(Locator::Process(a), v),
            _ => Callback::Invalid,
        }
    } else if c == SYS_RECV {
        Callback::Recv
    } else if c == SYS_KILL {
        match y_u32 {
            Some(p) => Callback::Kill(p),
            None => Callback::Invalid,
        }
    } else {
        Callback::Unsupported(c)
    }
}

} // verus!
