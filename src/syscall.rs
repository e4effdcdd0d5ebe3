use crate::keyboard::{pop_input, InputBuffer};
use crate::process::{free_post, malloc_post, valid_layout, FreeError, Layout, Process};
use crate::scheduler::Scheduler;
use vstd::prelude::*;

verus! {

/// Selector: write a NUL-terminated string from user memory to the console.
pub const SYSCALL_WRITE_STRING: u64 = 1;

/// Selector: end the current process.
pub const SYSCALL_EXIT: u64 = 2;

/// Selector: take one pending input byte (0 when none is pending).
pub const SYSCALL_READ_INPUT: u64 = 3;

/// Selector: allocate from the current process's heap.
pub const SYSCALL_ALLOC: u64 = 4;

/// Selector: release an allocation of the current process.
pub const SYSCALL_FREE: u64 = 5;

/// Selector: file operations (reserved; does nothing yet).
pub const SYSCALL_FILE: u64 = 6;

/// Why a system call could not be served. Each of these ends the kernel's
/// handling of the call; none is turned into a result word.
#[derive(Debug, Clone, Copy, PartialEq, Eq, Structural)]
pub enum SyscallError {
    /// The selector names no operation.
    UnknownSyscall(u64),
    /// A call that acts on the current process arrived while none was current.
    NoCurrentProcess,
    /// An allocation request's size and alignment do not form a valid layout.
    InvalidLayout { size: u64, align: u64 },
    /// A release named an address the current process does not own.
    InvalidFree(u64),
}

/// The size and alignment words form a valid layout on this machine.
pub open spec fn alloc_request_valid(size: u64, align: u64) -> bool {
    &&& size <= usize::MAX
    &&& align <= usize::MAX
    &&& valid_layout(size as usize, align as usize)
}

/// What the allocation call does to the scheduler and what it returns.
pub open spec fn alloc_post(before: Scheduler, after: Scheduler, size: u64, align: u64, r: Result<
    u64,
    SyscallError,
>) -> bool {
    &&& after.wf()
    &&& if !alloc_request_valid(size, align) {
        r == Err::<u64, SyscallError>(SyscallError::InvalidLayout { size, align }) && after == before
    } else {
        match before.current() {
            None => r == Err::<u64, SyscallError>(SyscallError::NoCurrentProcess) && after == before,
            Some(p) => match r {
                Ok(word) => {
                    &&& after.queue() == before.queue()
                    &&& after.current() matches Some(q) && malloc_post(
                        p,
                        q,
                        Layout { size: size as usize, align: align as usize },
                        word as usize,
                    )
                    &&& word as usize == word
                },
                Err(_) => false,
            },
        }
    }
}

/// What the release call does to the scheduler and what it returns.
pub open spec fn free_call_post(before: Scheduler, after: Scheduler, ptr: u64, r: Result<
    (),
    SyscallError,
>) -> bool {
    &&& after.wf()
    &&& match before.current() {
        None => r == Err::<(), SyscallError>(SyscallError::NoCurrentProcess) && after == before,
        Some(p) => {
            &&& after.queue() == before.queue()
            &&& after.current() matches Some(q) && free_post(
                p,
                q,
                ptr,
                match r {
                    Ok(()) => Ok::<(), FreeError>(()),
                    Err(_) => Err(FreeError { addr: ptr }),
                },
            )
            &&& (r matches Err(e) ==> e == SyscallError::InvalidFree(ptr))
        },
    }
}

/// What the input call returns: the oldest pending byte, which it consumes,
/// or 0 when nothing is pending.
pub open spec fn read_input_post(before: InputBuffer, after: InputBuffer, r: u64) -> bool {
    if before.pending().len() == 0 {
        r == 0 && after.pending() == before.pending()
    } else {
        r == before.pending()[0] as u64 && after.pending() == before.pending().drop_first()
    }
}

/// Ends the current process; the exit code is not kept. With no current
/// process nothing changes and the call is refused.
pub fn syscall_exit(sched: &mut Scheduler, exit_code: u64) -> (r: Result<(), SyscallError>)
    requires
        old(sched).wf(),
    ensures
        final(sched).wf(),
        old(sched).current() is None ==> r == Err::<(), SyscallError>(SyscallError::NoCurrentProcess)
            && *final(sched) == *old(sched),
        old(sched).current() is Some ==> r == Ok::<(), SyscallError>(()) && final(sched).current()
            == None::<Process> && final(sched).queue() == old(sched).queue(),
{
    if sched.get_current_process().is_none() {
        return Err(SyscallError::NoCurrentProcess);
    }
    sched.end_current_process();
    Ok(())
}

/// Takes one pending input byte; 0 when none is pending.
pub fn syscall_read_keyboard(input: &mut InputBuffer) -> (r: u64)
    ensures
        read_input_post(*old(input), *final(input), r),
{
    match pop_input(input) {
        Some(byte) => byte as u64,
        None => 0,
    }
}

/// Allocates `size` bytes aligned to `align` for the current process and
/// returns the address, or 0 when its heap has no room.
pub fn syscall_alloc(sched: &mut Scheduler, size: u64, align: u64) -> (r: Result<u64, SyscallError>)
    requires
        old(sched).wf(),
    ensures
        alloc_post(*old(sched), *final(sched), size, align, r),
{
    if size > usize::MAX as u64 || align > usize::MAX as u64 {
        return Err(SyscallError::InvalidLayout { size, align });
    }
    let layout = match Layout::from_size_align(size as usize, align as usize) {
        Ok(l) => l,
        Err(_) => {
            return Err(SyscallError::InvalidLayout { size, align });
        },
    };
    if sched.get_current_process().is_none() {
        return Err(SyscallError::NoCurrentProcess);
    }
    match sched.malloc_current(layout) {
        Some(addr) => Ok(addr as u64),
        None => Err(SyscallError::NoCurrentProcess),
    }
}

/// Releases the current process's allocation at `ptr`.
pub fn syscall_free(sched: &mut Scheduler, ptr: u64) -> (r: Result<(), SyscallError>)
    requires
        old(sched).wf(),
    ensures
        free_call_post(*old(sched), *final(sched), ptr, r),
{
    if sched.get_current_process().is_none() {
        return Err(SyscallError::NoCurrentProcess);
    }
    match sched.free_current(ptr) {
        Some(Ok(())) => Ok(()),
        Some(Err(_)) => Err(SyscallError::InvalidFree(ptr)),
        None => Err(SyscallError::NoCurrentProcess),
    }
}

/// File operations are reserved and do nothing yet.
pub fn file_syscall_handler() {
}

/// Serves one system call. `rdi` selects the operation; `rsi` and `rdx` carry
/// its arguments. Returns the result word, or the reason the call cannot be
/// served. Writing a string reads user memory, which the caller does; here it
/// only yields the result word 0.
pub fn syscall_handler(
    sched: &mut Scheduler,
    input: &mut InputBuffer,
    rdi: u64,
    rsi: u64,
    rdx: u64,
    rcx: u64,
    r8: u64,
    r9: u64,
) -> (r: Result<u64, SyscallError>)
    requires
        old(sched).wf(),
    ensures
        final(sched).wf(),
        rdi != SYSCALL_READ_INPUT ==> *final(input) == *old(input),
        rdi == SYSCALL_WRITE_STRING || rdi == SYSCALL_FILE ==> r == Ok::<u64, SyscallError>(0)
            && *final(sched) == *old(sched),
        rdi == SYSCALL_EXIT && old(sched).current() is None ==> r == Err::<u64, SyscallError>(
            SyscallError::NoCurrentProcess,
        ) && *final(sched) == *old(sched),
        rdi == SYSCALL_EXIT && old(sched).current() is Some ==> r == Ok::<u64, SyscallError>(0)
            && final(sched).current() == None::<Process> && final(sched).queue() == old(sched).queue(),
        rdi == SYSCALL_READ_INPUT ==> (r matches Ok(w) && read_input_post(*old(input), *final(input), w))
            && *final(sched) == *old(sched),
        rdi == SYSCALL_ALLOC ==> alloc_post(*old(sched), *final(sched), rsi, rdx, r),
        rdi == SYSCALL_FREE ==> free_call_post(
            *old(sched),
            *final(sched),
            rsi,
            match r {
                Ok(_) => Ok::<(), SyscallError>(()),
                Err(e) => Err(e),
            },
        ) && (r matches Ok(w) ==> w == 0),
        !(1 <= rdi <= 6) ==> r == Err::<u64, SyscallError>(SyscallError::UnknownSyscall(rdi))
            && *final(sched) == *old(sched),
{
    if rdi == SYSCALL_WRITE_STRING {
        Ok(0)
    } else if rdi == SYSCALL_EXIT {
        match syscall_exit(sched, rsi) {
            Ok(()) => Ok(0),
            Err(e) => Err(e),
        }
    } else if rdi == SYSCALL_READ_INPUT {
        Ok(syscall_read_keyboard(input))
    } else if rdi == SYSCALL_ALLOC {
        syscall_alloc(sched, rsi, rdx)
    } else if rdi == SYSCALL_FREE {
        match syscall_free(sched, rsi) {
            Ok(()) => Ok(0),
            Err(e) => Err(e),
        }
    } else if rdi == SYSCALL_FILE {
        file_syscall_handler();
        Ok(0)
    } else {
        Err(SyscallError::UnknownSyscall(rdi))
    }
}

} // verus!
