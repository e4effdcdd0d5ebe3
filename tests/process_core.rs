use rust_kernel::arena::{Arena, ClaimError, SpanRegistry};
use rust_kernel::keyboard::{init, push_input};
use rust_kernel::process::{FreeError, Layout, Process};
use rust_kernel::scheduler::Scheduler;
use rust_kernel::syscall::{syscall_alloc, syscall_free, syscall_handler, SyscallError};

fn process(pid: usize) -> Process {
    let mut registry = SpanRegistry::new();
    Process::new(&mut registry, pid, 0x400000, 0x500000, 0x600000 + pid * 65536, 65536).unwrap()
}

fn arena(start: usize, len: usize) -> Arena {
    Arena::claim(&mut SpanRegistry::new(), start, len).unwrap()
}

#[test]
fn claim_rejects_bad_spans() {
    assert_eq!(Arena::claim(&mut SpanRegistry::new(), 0x1000, 0).err(), Some(ClaimError::EmptySpan));
    assert_eq!(Arena::claim(&mut SpanRegistry::new(), 0, 64).err(), Some(ClaimError::NullBase));
    assert_eq!(Arena::claim(&mut SpanRegistry::new(), 0x1001, 64).err(), Some(ClaimError::Misaligned));
    assert_eq!(Arena::claim(&mut SpanRegistry::new(), usize::MAX - 7, 16).err(), Some(ClaimError::OutOfAddressSpace));
    assert!(Arena::claim(&mut SpanRegistry::new(), 0x1000, 64).is_ok());
}

#[test]
fn arena_first_fit_and_reuse() {
    let mut a = arena(0x1000, 0x100);
    assert_eq!(a.allocate(16, 16), Some(0x1000));
    assert_eq!(a.allocate(16, 16), Some(0x1010));
    assert!(a.release(0x1000, 16));
    // the freed range is handed out again
    assert_eq!(a.allocate(8, 8), Some(0x1000));
    assert_eq!(a.allocate(8, 8), Some(0x1008));
    assert_eq!(a.allocate(8, 8), Some(0x1020));
}

#[test]
fn arena_alignment_is_honoured() {
    let mut a = arena(0x1008, 0x100);
    assert_eq!(a.allocate(8, 16), Some(0x1010));
    assert_eq!(a.allocate(1, 1), Some(0x1008));
    assert_eq!(a.allocate(4, 64), Some(0x1040));
}

#[test]
fn arena_exhaustion_is_reported() {
    let mut a = arena(0x1000, 64);
    assert_eq!(a.allocate(64, 1), Some(0x1000));
    assert_eq!(a.allocate(1, 1), None);
    assert!(a.release(0x1000, 64));
    assert_eq!(a.allocate(65, 1), None);
    assert_eq!(a.allocate(64, 1), Some(0x1000));
}

#[test]
fn arena_zero_size_requests_get_distinct_addresses() {
    let mut a = arena(0x1000, 4);
    assert_eq!(a.allocate(0, 1), Some(0x1000));
    assert_eq!(a.allocate(0, 1), Some(0x1001));
}

#[test]
fn arena_release_checks_address_and_size() {
    let mut a = arena(0x1000, 0x100);
    assert_eq!(a.allocate(32, 8), Some(0x1000));
    assert!(!a.release(0x1008, 32));
    assert!(!a.release(0x1000, 16));
    assert!(a.release(0x1000, 32));
    assert!(!a.release(0x1000, 32));
}

#[test]
fn replay_matches_idealized_allocator() {
    // outstanding set after a mixed sequence, compared with a simple model
    let mut a = arena(0x2000, 0x400);
    let mut model: Vec<(usize, usize)> = Vec::new();
    let sizes = [24usize, 100, 8, 64, 3, 200, 17, 40];
    for (k, size) in sizes.iter().enumerate() {
        let r = a.allocate(*size, 8).unwrap();
        assert!(model.iter().all(|(b, _)| *b != r));
        model.push((r, *size));
        if k % 3 == 2 {
            let (b, s) = model.remove(0);
            assert!(a.release(b, s));
        }
    }
    for (b, s) in model.iter() {
        assert!(a.release(*b, *s));
    }
    assert_eq!(a.allocate(0x400, 1), Some(0x2000));
}

#[test]
fn live_allocations_never_overlap() {
    let mut a = arena(0x3000, 0x200);
    let mut live: Vec<(usize, usize)> = Vec::new();
    let requests = [(10usize, 4usize), (33, 16), (7, 1), (64, 64), (5, 2), (90, 8)];
    for (size, align) in requests.iter() {
        if let Some(r) = a.allocate(*size, *align) {
            assert_eq!(r % align, 0);
            assert!(r >= 0x3000 && r + size <= 0x3200);
            for (b, s) in live.iter() {
                assert!(r + size <= *b || b + s <= r);
            }
            live.push((r, *size));
        }
    }
    assert!(live.len() >= 5);
}

#[test]
fn layout_validation() {
    assert!(Layout::from_size_align(64, 8).is_ok());
    assert!(Layout::from_size_align(64, 3).is_err());
    assert!(Layout::from_size_align(64, 0).is_err());
    assert!(Layout::from_size_align(isize::MAX as usize, 1).is_ok());
    assert!(Layout::from_size_align(isize::MAX as usize, 2).is_err());
    let l = Layout::from_size_align(16, 4).unwrap();
    assert_eq!((l.size(), l.align()), (16, 4));
}

#[test]
fn process_new_reports_claim_failure() {
    let mut registry = SpanRegistry::new();
    assert_eq!(Process::new(&mut registry, 1, 0, 0, 0x600000, 0).err(), Some(ClaimError::EmptySpan));
    let p = process(7);
    assert_eq!((p.pid(), p.instruction_pointer(), p.stack_pointer()), (7, 0x400000, 0x500000));
}

#[test]
fn process_malloc_records_and_free_releases() {
    let mut p = process(1);
    let l = Layout::from_size_align(64, 8).unwrap();
    let a = p.malloc(l);
    assert_ne!(a, 0);
    assert!(p.owns(a));
    assert_eq!(p.free(a as u64), Ok(()));
    assert!(!p.owns(a));
}

#[test]
fn process_malloc_returns_zero_when_full() {
    let mut p = process(1);
    let big = Layout::from_size_align(65536, 8).unwrap();
    let a = p.malloc(big);
    assert_eq!(a, 0x610000);
    assert_eq!(p.malloc(Layout::from_size_align(1, 1).unwrap()), 0);
}

#[test]
fn free_of_foreign_or_released_address_fails_without_damage() {
    let mut p = process(1);
    let a = p.malloc(Layout::from_size_align(32, 8).unwrap());
    assert_eq!(p.free(0x123456), Err(FreeError { addr: 0x123456 }));
    assert_eq!(p.free(0), Err(FreeError { addr: 0 }));
    assert!(p.owns(a));
    assert_eq!(p.free(a as u64), Ok(()));
    assert_eq!(p.free(a as u64), Err(FreeError { addr: a as u64 }));
    assert_eq!(p.free(a as u64), Err(FreeError { addr: a as u64 }));
    // the heap is intact: the same block comes back
    assert_eq!(p.malloc(Layout::from_size_align(32, 8).unwrap()), a);
}

#[test]
fn scheduler_runs_queue_in_fifo_order() {
    let mut s = Scheduler::new();
    assert!(s.get_current_process().is_none());
    s.add_to_queue(process(1));
    s.add_to_queue(process(2));
    s.next_process();
    assert_eq!(s.get_current_process().map(|p| p.pid()), Some(1));
    assert_eq!(s.queued_pids(), vec![2]);
    s.next_process();
    assert_eq!(s.get_current_process().map(|p| p.pid()), Some(2));
    assert!(s.queued_pids().is_empty());
    s.next_process();
    assert!(s.get_current_process().is_none());
}

#[test]
fn terminate_leaves_no_current_process() {
    let mut s = Scheduler::new();
    s.end_current_process();
    assert!(s.get_current_process().is_none());
    s.add_to_queue(process(1));
    s.add_to_queue(process(2));
    s.next_process();
    s.end_current_process();
    assert!(s.get_current_process().is_none());
    assert_eq!(s.queued_pids(), vec![2]);
}

#[test]
fn resume_gives_entry_registers() {
    let mut s = Scheduler::new();
    assert_eq!(s.resume_current_process(), None);
    s.add_to_queue(process(1));
    s.next_process();
    assert_eq!(s.resume_current_process(), Some((0x400000, 0x500000)));
}

#[test]
fn end_to_end_allocate_and_release() {
    let mut s = Scheduler::new();
    let mut input = init();
    let mut registry = SpanRegistry::new();
    s.add_to_queue(Process::new(&mut registry, 1, 0x400000, 0x500000, 0x600000, 65536).unwrap());
    s.next_process();
    let addr = syscall_handler(&mut s, &mut input, 4, 64, 8, 0, 0, 0).unwrap();
    assert_ne!(addr, 0);
    assert!(addr >= 0x600000 && addr + 64 <= 0x600000 + 65536);
    assert_eq!(syscall_handler(&mut s, &mut input, 5, addr, 0, 0, 0, 0), Ok(0));
    assert_eq!(
        syscall_handler(&mut s, &mut input, 5, addr, 0, 0, 0, 0),
        Err(SyscallError::InvalidFree(addr))
    );
}

#[test]
fn end_to_end_read_input() {
    let mut s = Scheduler::new();
    let mut input = init();
    assert_eq!(syscall_handler(&mut s, &mut input, 3, 0, 0, 0, 0, 0), Ok(0));
    push_input(&mut input, 0x41);
    assert_eq!(syscall_handler(&mut s, &mut input, 3, 0, 0, 0, 0, 0), Ok(0x41));
    assert_eq!(syscall_handler(&mut s, &mut input, 3, 0, 0, 0, 0, 0), Ok(0));
    push_input(&mut input, 1);
    push_input(&mut input, 2);
    push_input(&mut input, 3);
    assert_eq!(syscall_handler(&mut s, &mut input, 3, 0, 0, 0, 0, 0), Ok(1));
    assert_eq!(syscall_handler(&mut s, &mut input, 3, 0, 0, 0, 0, 0), Ok(2));
    assert_eq!(syscall_handler(&mut s, &mut input, 3, 0, 0, 0, 0, 0), Ok(3));
}

#[test]
fn end_to_end_unknown_selector_is_an_error() {
    let mut s = Scheduler::new();
    let mut input = init();
    assert_eq!(
        syscall_handler(&mut s, &mut input, 99, 0, 0, 0, 0, 0),
        Err(SyscallError::UnknownSyscall(99))
    );
    assert_eq!(
        syscall_handler(&mut s, &mut input, 0, 0, 0, 0, 0, 0),
        Err(SyscallError::UnknownSyscall(0))
    );
}

#[test]
fn syscalls_without_current_process_are_errors() {
    let mut s = Scheduler::new();
    assert_eq!(syscall_alloc(&mut s, 64, 8), Err(SyscallError::NoCurrentProcess));
    assert_eq!(syscall_free(&mut s, 0x600000), Err(SyscallError::NoCurrentProcess));
}

#[test]
fn syscall_alloc_rejects_bad_layout_first() {
    let mut s = Scheduler::new();
    assert_eq!(
        syscall_alloc(&mut s, 64, 3),
        Err(SyscallError::InvalidLayout { size: 64, align: 3 })
    );
}

#[test]
fn syscall_exit_ends_current_process() {
    let mut s = Scheduler::new();
    let mut input = init();
    s.add_to_queue(process(1));
    s.next_process();
    assert_eq!(syscall_handler(&mut s, &mut input, 2, 0, 0, 0, 0, 0), Ok(0));
    assert!(s.get_current_process().is_none());
    assert_eq!(syscall_handler(&mut s, &mut input, 2, 0, 0, 0, 0, 0), Err(SyscallError::NoCurrentProcess));
    assert_eq!(syscall_handler(&mut s, &mut input, 4, 8, 8, 0, 0, 0), Err(SyscallError::NoCurrentProcess));
}

#[test]
fn write_and_file_selectors_return_zero() {
    let mut s = Scheduler::new();
    let mut input = init();
    assert_eq!(syscall_handler(&mut s, &mut input, 1, 0x1234, 0, 0, 0, 0), Ok(0));
    assert_eq!(syscall_handler(&mut s, &mut input, 6, 0, 0, 0, 0, 0), Ok(0));
}

#[test]
fn allocation_exhaustion_returns_zero_word() {
    let mut s = Scheduler::new();
    s.add_to_queue(Process::new(&mut SpanRegistry::new(), 1, 0, 0, 0x10000, 64).unwrap());
    s.next_process();
    assert_eq!(syscall_alloc(&mut s, 64, 8), Ok(0x10000));
    assert_eq!(syscall_alloc(&mut s, 8, 8), Ok(0));
}

#[test]
fn overlapping_heap_spans_are_refused() {
    let mut registry = SpanRegistry::new();
    let p = Process::new(&mut registry, 1, 0, 0, 0x600000, 65536).unwrap();
    assert_eq!(Process::new(&mut registry, 2, 0, 0, 0x600000, 65536).err(), Some(ClaimError::Overlapping));
    assert_eq!(Process::new(&mut registry, 2, 0, 0, 0x608000, 65536).err(), Some(ClaimError::Overlapping));
    assert_eq!(Process::new(&mut registry, 2, 0, 0, 0x5F0000, 65544).err(), Some(ClaimError::Overlapping));
    assert!(Process::new(&mut registry, 2, 0, 0, 0x610000, 65536).is_ok());
    assert!(Process::new(&mut registry, 3, 0, 0, 0x5F0000, 65536).is_ok());
    assert!(registry.overlaps(0x60FFFF, 1));
    assert!(!registry.overlaps(0x620000, 8));
    // ending a process gives its span back
    assert!(p.destroy(&mut registry));
    assert!(Process::new(&mut registry, 4, 0, 0, 0x600000, 65536).is_ok());
}

#[test]
fn registry_release_of_unknown_span() {
    let mut registry = SpanRegistry::new();
    assert!(Arena::claim(&mut registry, 0x1000, 64).is_ok());
    assert!(!registry.release(0x1000, 32));
    assert!(registry.release(0x1000, 64));
    assert!(!registry.release(0x1000, 64));
    assert!(Arena::claim(&mut registry, 0x1000, 64).is_ok());
}
