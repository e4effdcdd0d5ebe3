use crate::arena::{claim_error, claimable, footprint, overlaps_claimed, Arena, ClaimError, SpanRegistry};
use std::collections::BTreeMap;
use vstd::prelude::*;

verus! {

broadcast use vstd::std_specs::btree::group_btree_axioms, vstd::laws_cmp::group_laws_cmp;

/// `n` is 1, 2, 4, 8, ...
pub open spec fn is_power_of_two(n: nat) -> bool
    decreases n,
{
    if n == 0 {
        false
    } else if n == 1 {
        true
    } else {
        n % 2 == 0 && is_power_of_two(n / 2)
    }
}

/// A size and alignment for an allocation request is acceptable: the alignment
/// is a power of two and the size, rounded up to it, stays within `isize::MAX`.
pub open spec fn valid_layout(size: usize, align: usize) -> bool {
    &&& is_power_of_two(align as nat)
    &&& size + align - 1 <= isize::MAX
}

/// The size and alignment of one allocation request.
#[derive(Debug, Clone, Copy, PartialEq, Eq, Structural)]
pub struct Layout {
    pub size: usize,
    pub align: usize,
}

/// The size and alignment given to `Layout::from_size_align` are not acceptable.
#[derive(Debug, Clone, Copy, PartialEq, Eq, Structural)]
pub struct LayoutError;

fn power_of_two(n: usize) -> (r: bool)
    ensures
        r == is_power_of_two(n as nat),
{
    let mut m: usize = n;
    while m > 1 && m % 2 == 0
        invariant
            is_power_of_two(m as nat) == is_power_of_two(n as nat),
        decreases m,
    {
        m = m / 2;
    }
    m == 1
}

impl Layout {
    /// Checks a size and an alignment and pairs them.
    pub fn from_size_align(size: usize, align: usize) -> (r: Result<Layout, LayoutError>)
        ensures
            match r {
                Ok(l) => valid_layout(size, align) && l.size == size && l.align == align,
                Err(_) => !valid_layout(size, align),
            },
    {
        if !power_of_two(align) {
            return Err(LayoutError);
        }
        if align - 1 > isize::MAX as usize || size > (isize::MAX as usize) - (align - 1) {
            return Err(LayoutError);
        }
        Ok(Layout { size, align })
    }

    pub fn size(&self) -> (r: usize)
        ensures
            r == self.size,
    {
        self.size
    }

    pub fn align(&self) -> (r: usize)
        ensures
            r == self.align,
    {
        self.align
    }
}

/// A release named an address that is not a live allocation of the process:
/// it was never handed out, or it was already released.
#[derive(Debug, Clone, Copy, PartialEq, Eq, Structural)]
pub struct FreeError {
    pub addr: u64,
}

/// An isolated execution context: its identity, the registers it starts with,
/// and a private heap whose allocations are recorded in a ledger.
pub struct Process {
    pid: usize,
    saved_stack_pointer: usize,
    saved_instruction_pointer: usize,
    heap: Arena,
    allocations: BTreeMap<usize, Layout>,
}

impl Process {
    pub closed spec fn spec_pid(&self) -> usize {
        self.pid
    }

    pub closed spec fn spec_stack_pointer(&self) -> usize {
        self.saved_stack_pointer
    }

    pub closed spec fn spec_instruction_pointer(&self) -> usize {
        self.saved_instruction_pointer
    }

    /// The process's heap arena.
    pub closed spec fn heap(&self) -> Arena {
        self.heap
    }

    /// The ledger: each live allocation's address and the request it served.
    pub closed spec fn ledger(&self) -> Map<usize, Layout> {
        self.allocations@
    }

    /// The heap is well formed and the ledger names exactly its live
    /// allocations, each with the footprint of the recorded size.
    pub closed spec fn wf(&self) -> bool {
        &&& self.heap.wf()
        &&& forall|a: usize| #[trigger]
            self.allocations@.contains_key(a) <==> self.heap.live().contains_key(a)
        &&& forall|a: usize| #[trigger]
            self.allocations@.contains_key(a) ==> self.heap.live()[a] == footprint(
                self.allocations@[a].size,
            )
    }

    /// Builds a process whose heap is a fresh arena over
    /// `[heap_start, heap_start + heap_len)`, claimed in `registry`, with an
    /// empty ledger. Fails, with nothing recorded, when the span cannot be
    /// claimed.
    pub fn new(
        registry: &mut SpanRegistry,
        pid: usize,
        ip: usize,
        sp: usize,
        heap_start: usize,
        heap_len: usize,
    ) -> (r: Result<Process, ClaimError>)
        ensures
            match r {
                Ok(p) => {
                    &&& claimable(heap_start, heap_len)
                    &&& !overlaps_claimed(old(registry).claimed(), heap_start as int, heap_len as int)
                    &&& final(registry).claimed() == old(registry).claimed().push((heap_start, heap_len))
                    &&& p.wf()
                    &&& p.spec_pid() == pid
                    &&& p.spec_instruction_pointer() == ip
                    &&& p.spec_stack_pointer() == sp
                    &&& p.heap().span_start() == heap_start
                    &&& p.heap().span_end() == heap_start + heap_len
                    &&& p.ledger() == Map::<usize, Layout>::empty()
                },
                Err(e) => {
                    &&& final(registry).claimed() == old(registry).claimed()
                    &&& if !claimable(heap_start, heap_len) {
                        e == claim_error(heap_start, heap_len)
                    } else {
                        &&& overlaps_claimed(old(registry).claimed(), heap_start as int, heap_len as int)
                        &&& e == ClaimError::Overlapping
                    }
                },
            },
    {
        match Arena::claim(registry, heap_start, heap_len) {
            Ok(heap) => {
                let allocations = BTreeMap::new();
                Ok(Process {
                    pid,
                    saved_stack_pointer: sp,
                    saved_instruction_pointer: ip,
                    heap,
                    allocations,
                })
            },
            Err(e) => Err(e),
        }
    }

    /// Ends the process: its whole heap span goes back to `registry` at once.
    pub fn destroy(self, registry: &mut SpanRegistry) -> (r: bool)
        requires
            self.wf(),
        ensures
            ({
                let span = (self.heap().span_start() as usize, (self.heap().span_end() - self.heap().span_start()) as usize);
                &&& r == old(registry).claimed().contains(span)
                &&& r ==> exists|i: int|
                    0 <= i < old(registry).claimed().len() && old(registry).claimed()[i] == span
                        && final(registry).claimed() == old(registry).claimed().remove(i)
                &&& !r ==> final(registry).claimed() == old(registry).claimed()
            }),
    {
        let (start, len) = self.heap.span();
        registry.release(start, len)
    }

    pub fn pid(&self) -> (r: usize)
        ensures
            r == self.spec_pid(),
    {
        self.pid
    }

    pub fn instruction_pointer(&self) -> (r: usize)
        ensures
            r == self.spec_instruction_pointer(),
    {
        self.saved_instruction_pointer
    }

    pub fn stack_pointer(&self) -> (r: usize)
        ensures
            r == self.spec_stack_pointer(),
    {
        self.saved_stack_pointer
    }

    /// Whether `addr` is a live allocation of this process.
    pub fn owns(&self, addr: usize) -> (r: bool)
        requires
            self.wf(),
        ensures
            r == self.ledger().contains_key(addr),
    {
        self.allocations.contains_key(&addr)
    }
}

/// What `malloc` does: on success the address is new, the request fits there in
/// the heap, and the ledger records it; `0` comes back, with nothing changed,
/// exactly when no place in the heap fits the request.
pub open spec fn malloc_post(before: Process, after: Process, layout: Layout, r: usize) -> bool {
    &&& after.wf()
    &&& after.spec_pid() == before.spec_pid()
    &&& after.spec_instruction_pointer() == before.spec_instruction_pointer()
    &&& after.spec_stack_pointer() == before.spec_stack_pointer()
    &&& after.heap().span_start() == before.heap().span_start()
    &&& after.heap().span_end() == before.heap().span_end()
    &&& if r == 0 {
        &&& after.ledger() == before.ledger()
        &&& after.heap().live() == before.heap().live()
        &&& forall|a: int| !before.heap().fits(a, footprint(layout.size), layout.align as nat)
    } else {
        &&& before.heap().fits(r as int, footprint(layout.size), layout.align as nat)
        &&& !before.ledger().contains_key(r)
        &&& after.ledger() == before.ledger().insert(r, layout)
        &&& after.heap().live() == before.heap().live().insert(r, footprint(layout.size))
    }
}

/// What `free` does: it succeeds exactly when `ptr` is in the ledger, and then
/// drops that entry and gives the recorded footprint back to the heap; on
/// failure nothing changes.
pub open spec fn free_post(before: Process, after: Process, ptr: u64, r: Result<(), FreeError>) -> bool {
    &&& after.wf()
    &&& after.spec_pid() == before.spec_pid()
    &&& after.spec_instruction_pointer() == before.spec_instruction_pointer()
    &&& after.spec_stack_pointer() == before.spec_stack_pointer()
    &&& after.heap().span_start() == before.heap().span_start()
    &&& after.heap().span_end() == before.heap().span_end()
    &&& match r {
        Ok(()) => {
            &&& ptr <= usize::MAX
            &&& before.ledger().contains_key(ptr as usize)
            &&& after.ledger() == before.ledger().remove(ptr as usize)
            &&& after.heap().live() == before.heap().live().remove(ptr as usize)
        },
        Err(e) => {
            &&& e == FreeError { addr: ptr }
            &&& !(ptr <= usize::MAX && before.ledger().contains_key(ptr as usize))
            &&& after == before
        },
    }
}

impl Process {
    /// Allocates from the process heap and records the allocation in the
    /// ledger before handing out its address; returns 0 when the heap has no
    /// room for the request.
    pub fn malloc(&mut self, layout: Layout) -> (r: usize)
        requires
            old(self).wf(),
            layout.align > 0,
        ensures
            malloc_post(*old(self), *final(self), layout, r),
    {
        match self.heap.allocate(layout.size, layout.align) {
            Some(addr) => {
                self.allocations.insert(addr, layout);
                addr
            },
            None => 0,
        }
    }

    /// Releases the allocation at `ptr`, with the size that the ledger
    /// recorded for it.
    pub fn free(&mut self, ptr: u64) -> (r: Result<(), FreeError>)
        requires
            old(self).wf(),
        ensures
            free_post(*old(self), *final(self), ptr, r),
    {
        if ptr > usize::MAX as u64 {
            return Err(FreeError { addr: ptr });
        }
        let addr = ptr as usize;
        if !self.allocations.contains_key(&addr) {
            return Err(FreeError { addr: ptr });
        }
        match self.allocations.remove(&addr) {
            Some(layout) => {
                let released = self.heap.release(addr, layout.size);
                proof {
                    assert(released);
                    assert forall|a: usize| #[trigger]
                        self.allocations@.contains_key(a) implies self.heap.live()[a] == footprint(
                        self.allocations@[a].size,
                    ) by {
                        assert(old(self).allocations@.contains_key(a));
                    }
                }
                Ok(())
            },
            None => Err(FreeError { addr: ptr }),
        }
    }
}

/// One call made on a process's heap, with what it returned.
pub enum ProcessCall {
    Malloc { layout: Layout, returned: usize },
    Free { ptr: u64, result: Result<(), FreeError> },
}

/// The call was made on `before`, left `after`, and returned what it records.
pub open spec fn process_call_post(before: Process, after: Process, call: ProcessCall) -> bool {
    match call {
        ProcessCall::Malloc { layout, returned } => layout.align > 0 && malloc_post(
            before,
            after,
            layout,
            returned,
        ),
        ProcessCall::Free { ptr, result } => free_post(before, after, ptr, result),
    }
}

/// An idealized allocator's outstanding addresses after one call: a non-zero
/// allocation result is added, a release removes the address if outstanding.
pub open spec fn ideal_ledger_step(s: Set<usize>, call: ProcessCall) -> Set<usize> {
    match call {
        ProcessCall::Malloc { returned, .. } => if returned != 0 {
            s.insert(returned)
        } else {
            s
        },
        ProcessCall::Free { ptr, .. } => if ptr <= usize::MAX && s.contains(ptr as usize) {
            s.remove(ptr as usize)
        } else {
            s
        },
    }
}

/// The idealized allocator's outstanding addresses after a sequence of calls.
pub open spec fn ideal_ledger(s: Set<usize>, calls: Seq<ProcessCall>) -> Set<usize>
    decreases calls.len(),
{
    if calls.len() == 0 {
        s
    } else {
        ideal_ledger_step(ideal_ledger(s, calls.drop_last()), calls.last())
    }
}

/// Replaying any sequence of `malloc` and `free` calls on one process leaves
/// in its ledger exactly the addresses that an idealized allocator, fed the
/// same calls and results, holds outstanding: nothing counted twice, nothing
/// that was not handed out; and no allocation returns an address still
/// outstanding.
pub proof fn lemma_process_replay_matches_ideal(states: Seq<Process>, calls: Seq<ProcessCall>)
    requires
        states.len() == calls.len() + 1,
        states[0].wf(),
        forall|k: int| 0 <= k < calls.len() ==> process_call_post(#[trigger] states[k], states[k + 1], calls[k]),
    ensures
        states.last().ledger().dom() == ideal_ledger(states[0].ledger().dom(), calls),
        forall|k: int|
            0 <= k < calls.len() ==> (#[trigger] calls[k] matches ProcessCall::Malloc { returned, .. } ==> (
            returned != 0 ==> !states[k].ledger().contains_key(returned))),
    decreases calls.len(),
{
    if calls.len() > 0 {
        let n = calls.len() - 1;
        let s2 = states.drop_last();
        let c2 = calls.drop_last();
        assert forall|k: int| 0 <= k < c2.len() implies process_call_post(#[trigger] s2[k], s2[k + 1], c2[k]) by {
            assert(process_call_post(states[k], states[k + 1], calls[k]));
        }
        lemma_process_replay_matches_ideal(s2, c2);
        assert(s2.last() == states[n as int]);
        let before = states[n as int];
        let after = states[n + 1];
        assert(process_call_post(before, after, calls[n as int]));
        match calls[n as int] {
            ProcessCall::Malloc { layout, returned } => {
                if returned != 0 {
                    assert(after.ledger().dom() =~= before.ledger().dom().insert(returned));
                }
            },
            ProcessCall::Free { ptr, result } => {
                if result is Ok {
                    assert(after.ledger().dom() =~= before.ledger().dom().remove(ptr as usize));
                }
            },
        }
        assert forall|k: int|
            0 <= k < calls.len() implies (#[trigger] calls[k] matches ProcessCall::Malloc { returned, .. } ==> (
            returned != 0 ==> !states[k].ledger().contains_key(returned))) by {
            assert(process_call_post(states[k], states[k + 1], calls[k]));
        }
    }
}

/// In a well-formed process the ledger names exactly the live allocations of
/// its heap, each with the footprint of the size it records; the heap's live
/// allocations lie inside its span and never overlap.
pub proof fn lemma_ledger_matches_heap(p: Process)
    requires
        p.wf(),
    ensures
        p.heap().wf(),
        forall|a: usize| #[trigger] p.ledger().contains_key(a) <==> p.heap().live().contains_key(a),
        forall|a: usize| #[trigger]
            p.ledger().contains_key(a) ==> p.heap().live()[a] == footprint(p.ledger()[a].size),
{
}

/// Whatever a first release of `ptr` did (release a live allocation, or fail
/// on an address never handed out or already released), a second release of
/// the same address fails and leaves the process, its ledger and its heap
/// exactly as the first left them.
pub proof fn lemma_double_free_rejected(
    start: Process,
    once: Process,
    twice: Process,
    ptr: u64,
    first: Result<(), FreeError>,
    second: Result<(), FreeError>,
)
    requires
        free_post(start, once, ptr, first),
        free_post(once, twice, ptr, second),
    ensures
        second == Err::<(), FreeError>(FreeError { addr: ptr }),
        twice == once,
{
    if ptr <= usize::MAX {
        assert(!once.ledger().contains_key(ptr as usize));
    }
}

} // verus!
