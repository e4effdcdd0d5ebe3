use crate::process::{free_post, malloc_post, FreeError, Layout, Process};
use std::collections::VecDeque;
use vstd::prelude::*;

verus! {

/// A cooperative scheduler: a FIFO queue of processes that have not run yet
/// and at most one current process.
///
/// Processes are held by value, so the current process is never also in the
/// queue.
pub struct Scheduler {
    current_process: Option<Process>,
    queue: VecDeque<Process>,
}

impl Scheduler {
    /// The process that holds the processor, if any.
    pub closed spec fn current(&self) -> Option<Process> {
        self.current_process
    }

    /// The ready queue, head first.
    pub closed spec fn queue(&self) -> Seq<Process> {
        self.queue@
    }

    /// Every process the scheduler holds is well formed.
    pub closed spec fn wf(&self) -> bool {
        &&& (self.current_process matches Some(p) ==> p.wf())
        &&& forall|i: int| 0 <= i < self.queue@.len() ==> (#[trigger] self.queue@[i]).wf()
    }

    /// An idle scheduler with an empty queue.
    pub fn new() -> (r: Scheduler)
        ensures
            r.wf(),
            r.current() == None::<Process>,
            r.queue() == Seq::<Process>::empty(),
    {
        Scheduler { current_process: None, queue: VecDeque::new() }
    }

    /// Appends `process` to the tail of the ready queue.
    pub fn add_to_queue(&mut self, process: Process)
        requires
            old(self).wf(),
            process.wf(),
        ensures
            final(self).wf(),
            final(self).current() == old(self).current(),
            final(self).queue() == old(self).queue().push(process),
    {
        self.queue.push_back(process);
    }

    /// Drops the current process without putting it back in the queue.
    pub fn end_current_process(&mut self)
        requires
            old(self).wf(),
        ensures
            final(self).wf(),
            final(self).current() == None::<Process>,
            final(self).queue() == old(self).queue(),
    {
        self.current_process = None;
    }

    /// Makes the head of the queue the current process, replacing whatever was
    /// current; with an empty queue nothing is current afterwards.
    pub fn next_process(&mut self)
        requires
            old(self).wf(),
        ensures
            final(self).wf(),
            old(self).queue().len() == 0 ==> final(self).current() == None::<Process>
                && final(self).queue() == old(self).queue(),
            old(self).queue().len() > 0 ==> final(self).current() == Some(old(self).queue()[0])
                && final(self).queue() == old(self).queue().drop_first(),
    {
        let new_process = self.queue.pop_front();
        self.current_process = new_process;
    }

    /// The instruction and stack pointers to enter user mode with, for the
    /// current process; `None` when nothing is current.
    pub fn resume_current_process(&self) -> (r: Option<(usize, usize)>)
        ensures
            match self.current() {
                Some(p) => r == Some((p.spec_instruction_pointer(), p.spec_stack_pointer())),
                None => r == None::<(usize, usize)>,
            },
    {
        match &self.current_process {
            Some(process) => Some((process.instruction_pointer(), process.stack_pointer())),
            None => None,
        }
    }

    pub fn get_current_process(&self) -> (r: Option<&Process>)
        ensures
            match r {
                Some(p) => self.current() == Some(*p),
                None => self.current() == None::<Process>,
            },
    {
        self.current_process.as_ref()
    }

    /// The identities of the queued processes, head first.
    pub fn queued_pids(&self) -> (r: Vec<usize>)
        ensures
            r@ == self.queue().map_values(|p: Process| p.spec_pid()),
    {
        let mut r: Vec<usize> = Vec::new();
        let mut i: usize = 0;
        while i < self.queue.len()
            invariant
                i <= self.queue@.len(),
                r@ == self.queue@.subrange(0, i as int).map_values(|p: Process| p.spec_pid()),
            decreases self.queue@.len() - i,
        {
            r.push(self.queue[i].pid());
            proof {
                assert(r@ =~= self.queue@.subrange(0, i + 1).map_values(|p: Process| p.spec_pid()));
            }
            i = i + 1;
        }
        proof {
            assert(self.queue@.subrange(0, self.queue@.len() as int) =~= self.queue@);
        }
        r
    }

    /// Allocates for the current process; `None` when nothing is current.
    pub fn malloc_current(&mut self, layout: Layout) -> (r: Option<usize>)
        requires
            old(self).wf(),
            layout.align > 0,
        ensures
            final(self).wf(),
            final(self).queue() == old(self).queue(),
            match (old(self).current(), r) {
                (Some(before), Some(addr)) => final(self).current() matches Some(after) && malloc_post(
                    before,
                    after,
                    layout,
                    addr,
                ),
                (None, None) => final(self).current() == None::<Process>,
                _ => false,
            },
    {
        match &mut self.current_process {
            Some(process) => Some(process.malloc(layout)),
            None => None,
        }
    }

    /// Releases an allocation of the current process; `None` when nothing is
    /// current.
    pub fn free_current(&mut self, ptr: u64) -> (r: Option<Result<(), FreeError>>)
        requires
            old(self).wf(),
        ensures
            final(self).wf(),
            final(self).queue() == old(self).queue(),
            match (old(self).current(), r) {
                (Some(before), Some(res)) => final(self).current() matches Some(after) && free_post(
                    before,
                    after,
                    ptr,
                    res,
                ),
                (None, None) => final(self).current() == None::<Process>,
                _ => false,
            },
    {
        match &mut self.current_process {
            Some(process) => Some(process.free(ptr)),
            None => None,
        }
    }
}

} // verus!
