//! The return values of the null kernel's IO and process
//! syscalls.

use vstd::prelude::*;

verus! {

/// File descriptor of standard output.
pub const STDOUT: usize = 1;

/// File descriptor of debug output.
pub const STDDEBUG: usize = 2;

/// Whether `fd` names a console: standard output or debug output.
pub open spec fn is_console_fd(fd: usize) -> bool {
    fd == STDOUT || fd == STDDEBUG
}

/// Whether a write to `fd` goes to the console.
pub fn is_console(fd: usize) -> (b: bool)
    ensures
        b == is_console_fd(fd),
        b <==> (fd == 1 || fd == 2),
{
    fd == STDOUT || fd == STDDEBUG
}

/// Serves the IO and process syscalls of the null kernel.
pub struct SyscallContext;

impl SyscallContext {
    /// Return value of a write of `count` bytes to file descriptor `fd`:
    /// the count when `fd` is a console (standard output or debug output),
    /// -1 otherwise.
    pub fn write(&self, fd: usize, count: usize) -> (r: isize)
        ensures
            is_console_fd(fd) ==> r == count as isize,
            !is_console_fd(fd) ==> r == -1,
    {
        if is_console(fd) {
            count as isize
        } else {
            -1
        }
    }

    /// Return value of an exit: always 0.
    pub fn exit(&self, status: usize) -> (r: isize)
        ensures
            r == 0,
    {
        0
    }
}

} // verus!
