use vstd::prelude::*;
use crate::task::Task;
use crate::store::DbId;
use crate::actor::Event;

verus! {

/// What the polling executor does next.
#[derive(Debug, Clone, Copy, PartialEq, Eq, Structural)]
pub enum Action {
    /// Execute the given task next.
    Run(DbId, Task),
    /// The pass is over: wait for the next period, then fetch again.
    Sleep,
}

/// The polling executor's state within one pass: the tasks that the pass
/// fetched, in execution order, and how many of them have been handed out.
pub struct Executor {
    batch: Vec<(DbId, Task)>,
    next: usize,
}

impl View for Executor {
    type V = (Seq<(DbId, Task)>, nat);

    closed spec fn view(&self) -> (Seq<(DbId, Task)>, nat) {
        (self.batch@, self.next as nat)
    }
}

impl Executor {
    /// No more tasks are handed out than the pass fetched.
    pub open spec fn wf(&self) -> bool {
        self@.1 <= self@.0.len()
    }

    /// An executor with nothing left to run.
    pub fn new() -> (r: Executor)
        ensures
            r.wf(),
            r@ == (Seq::<(DbId, Task)>::empty(), 0nat),
    {
        Executor { batch: Vec::new(), next: 0 }
    }

    /// Starts a pass over the due tasks `tasks`, already in execution order.
    pub fn start_pass(&mut self, tasks: Vec<(DbId, Task)>)
        ensures
            final(self).wf(),
            final(self)@ == (tasks@, 0nat),
    {
        self.batch = tasks;
        self.next = 0;
    }

    /// Hands out the next task of the pass, strictly one at a time and in
    /// order, or `Sleep` once every task of the pass has been handed out.
    pub fn next_action(&mut self) -> (r: Action)
        requires
            old(self).wf(),
        ensures
            final(self).wf(),
            old(self)@.1 < old(self)@.0.len() ==> r == Action::Run(
                old(self)@.0[old(self)@.1 as int].0,
                old(self)@.0[old(self)@.1 as int].1,
            ) && final(self)@ == (old(self)@.0, old(self)@.1 + 1),
            old(self)@.1 == old(self)@.0.len() ==> r == Action::Sleep && final(self)@ == old(self)@,
    {
        if self.next < self.batch.len() {
            let (id, task) = self.batch[self.next];
            self.next = self.next + 1;
            Action::Run(id, task)
        } else {
            Action::Sleep
        }
    }

    /// The intent that reports a task as run. It is sent whatever the task's
    /// own outcome was.
    pub fn finished(id: DbId) -> (r: Event)
        ensures
            r == Event::Complete(id),
    {
        Event::Complete(id)
    }
}

} // verus!
