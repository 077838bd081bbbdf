use vstd::prelude::*;

verus! {

/// Standard input descriptor.
pub const STDIN: u64 = 0;

/// Standard output descriptor.
pub const STDOUT: u64 = 1;

/// Standard error descriptor.
pub const STDERR: u64 = 2;

/// Identifier reported by `GetPid`.
pub const REPORTED_PID: u64 = 1;

/// System call numbers, as passed in `rax`.
#[derive(Clone, Copy, Debug, PartialEq, Eq, Structural)]
pub enum SyscallNumber {
    Write,
    Read,
    Exit,
    GetPid,
    Fork,
    Exec,
}

/// Why a system call failed.
#[derive(Clone, Copy, Debug, PartialEq, Eq, Structural)]
pub enum SyscallError {
    InvalidSyscall,
    InvalidFileDescriptor,
    InvalidBuffer,
    NotImplemented,
}

/// The call that number `n` names, if any.
pub open spec fn syscall_of(n: u64) -> Option<SyscallNumber> {
    if n == 0 {
        Some(SyscallNumber::Write)
    } else if n == 1 {
        Some(SyscallNumber::Read)
    } else if n == 2 {
        Some(SyscallNumber::Exit)
    } else if n == 3 {
        Some(SyscallNumber::GetPid)
    } else if n == 4 {
        Some(SyscallNumber::Fork)
    } else if n == 5 {
        Some(SyscallNumber::Exec)
    } else {
        None
    }
}

/// What a system call returns, from its number and first three arguments.
/// A write goes to standard output or standard error only, and reports the
/// full length written (0 for a null or empty buffer).
pub open spec fn syscall_result(n: u64, arg1: u64, arg2: u64, arg3: u64) -> Result<u64, SyscallError> {
    match syscall_of(n) {
        None => Err(SyscallError::InvalidSyscall),
        Some(SyscallNumber::Write) => if arg1 != STDOUT && arg1 != STDERR {
            Err(SyscallError::InvalidFileDescriptor)
        } else if arg2 == 0 || arg3 == 0 {
            Ok(0)
        } else {
            Ok(arg3)
        },
        Some(SyscallNumber::Read) => Err(SyscallError::NotImplemented),
        Some(SyscallNumber::Exit) => Ok(0),
        Some(SyscallNumber::GetPid) => Ok(REPORTED_PID),
        Some(_) => Err(SyscallError::NotImplemented),
    }
}

impl SyscallNumber {
    /// The call that number `n` names, if any.
    pub fn from_u64(n: u64) -> (r: Option<SyscallNumber>)
        ensures
            r == syscall_of(n),
    {
        match n {
            0 => Some(SyscallNumber::Write),
            1 => Some(SyscallNumber::Read),
            2 => Some(SyscallNumber::Exit),
            3 => Some(SyscallNumber::GetPid),
            4 => Some(SyscallNumber::Fork),
            5 => Some(SyscallNumber::Exec),
            _ => None,
        }
    }
}

/// Write: checks the descriptor and reports how many bytes are written.
/// Copying the bytes out of the caller's buffer is left to the caller.
fn sys_write(fd: u64, buf: u64, len: u64) -> (r: Result<u64, SyscallError>)
    ensures
        r == syscall_result(0, fd, buf, len),
{
    if fd != STDOUT && fd != STDERR {
        return Err(SyscallError::InvalidFileDescriptor);
    }
    if buf == 0 || len == 0 {
        return Ok(0);
    }
    Ok(len)
}

/// Read: no input is buffered yet.
fn sys_read(_fd: u64, _buf: u64, _len: u64) -> (r: Result<u64, SyscallError>)
    ensures
        r == Err::<u64, SyscallError>(SyscallError::NotImplemented),
{
    Err(SyscallError::NotImplemented)
}

/// Exit: accepted.
fn sys_exit(_code: u64) -> (r: Result<u64, SyscallError>)
    ensures
        r == Ok::<u64, SyscallError>(0),
{
    Ok(0)
}

/// GetPid.
fn sys_getpid() -> (r: Result<u64, SyscallError>)
    ensures
        r == Ok::<u64, SyscallError>(REPORTED_PID),
{
    Ok(REPORTED_PID)
}

/// Decodes the call number and runs the call with its arguments (System V
/// order: `rdi`, `rsi`, `rdx`, `r10`, `r8`, `r9`).
pub fn dispatch_syscall(
    syscall_num: u64,
    arg1: u64,
    arg2: u64,
    arg3: u64,
    _arg4: u64,
    _arg5: u64,
    _arg6: u64,
) -> (r: Result<u64, SyscallError>)
    ensures
        r == syscall_result(syscall_num, arg1, arg2, arg3),
{
    let syscall = match SyscallNumber::from_u64(syscall_num) {
        Some(s) => s,
        None => return Err(SyscallError::InvalidSyscall),
    };
    match syscall {
        SyscallNumber::Write => sys_write(arg1, arg2, arg3),
        SyscallNumber::Read => sys_read(arg1, arg2, arg3),
        SyscallNumber::Exit => sys_exit(arg1),
        SyscallNumber::GetPid => sys_getpid(),
        SyscallNumber::Fork => Err(SyscallError::NotImplemented),
        SyscallNumber::Exec => Err(SyscallError::NotImplemented),
    }
}

} // verus!
