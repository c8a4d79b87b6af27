//! Worker-pool dispatch: the request handed to the pool, the descriptor of
//! one drain task, and a model of a pool of such tasks running against the
//! shared queue in any interleaving.

use crate::queue::AdmissionQueue;
use vstd::prelude::*;

verus! {

/// One request to the worker pool: run `tasks` concurrent drain tasks, each
/// allowed to take `quota` connections. Both numbers are fixed when the
/// request is made.
#[derive(Debug, Clone, Copy, PartialEq, Eq, Structural)]
pub struct Dispatch {
    /// Number of concurrent tasks to schedule.
    pub tasks: u32,
    /// Number of connections each task may take.
    pub quota: u32,
}

/// What one visit of a drain task to the queue does: the queue after it, the
/// number of connections the task may still take, and the connection taken.
///
/// A task that has used up its quota takes nothing. A task that finds the
/// queue empty takes nothing and gives up the rest of its quota: it ends
/// rather than wait.
pub open spec fn drain_step<T>(queued: Seq<T>, remaining: nat) -> (Seq<T>, nat, Option<T>) {
    if remaining == 0 || queued.len() == 0 {
        (queued, 0, None)
    } else {
        (queued.drop_first(), (remaining - 1) as nat, Some(queued[0]))
    }
}

/// Descriptor of one drain task.
pub struct DrainTask {
    remaining: u32,
}

impl View for DrainTask {
    type V = nat;

    /// Number of connections the task may still take; zero once it has
    /// ended.
    closed spec fn view(&self) -> nat {
        self.remaining as nat
    }
}

impl DrainTask {
    /// A task that may take `quota` connections.
    pub fn new(quota: u32) -> (task: DrainTask)
        ensures
            task@ == quota,
    {
        DrainTask { remaining: quota }
    }

    /// Whether the task has ended.
    pub fn is_finished(&self) -> (finished: bool)
        ensures
            finished == (self@ == 0),
    {
        self.remaining == 0
    }

    /// One visit to the queue: takes the connection at the front for the
    /// caller to handle, or returns `None` once the task has ended.
    pub fn next_connection<T>(&mut self, queue: &mut AdmissionQueue<T>) -> (connection: Option<T>)
        ensures
            (final(queue)@, final(self)@, connection) == drain_step(old(queue)@, old(self)@),
            connection is None ==> final(self)@ == 0,
    {
        if self.remaining == 0 {
            return None;
        }
        match queue.dequeue_one() {
            Some(handle) => {
                self.remaining = self.remaining - 1;
                Some(handle)
            },
            None => {
                self.remaining = 0;
                None
            },
        }
    }
}

impl Dispatch {
    /// The descriptor with which each task of this request starts.
    pub fn new_task(&self) -> (task: DrainTask)
        ensures
            task@ == self.quota,
    {
        DrainTask::new(self.quota)
    }
}

} // verus!
