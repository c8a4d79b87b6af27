//! Shared admission queue: the FIFO through which accepted connections pass
//! from the acceptor to the worker tasks.
//!
//! The queue itself knows nothing of locks. Its owner keeps it behind one
//! mutual-exclusion lock and calls one operation per critical section, so
//! every operation here is a single in-memory step.

use std::collections::VecDeque;
use vstd::prelude::*;

verus! {

/// Why a connection was not queued.
#[derive(Debug, Clone, Copy, PartialEq, Eq, Structural)]
pub enum EnqueueError {
    /// The handle of the connection could not be duplicated.
    HandleDuplicationError,
}

/// FIFO of connection handles, oldest first.
pub struct AdmissionQueue<T> {
    handles: VecDeque<T>,
}

impl<T> View for AdmissionQueue<T> {
    type V = Seq<T>;

    /// The queued handles, the front of the queue at index 0.
    closed spec fn view(&self) -> Seq<T> {
        self.handles@
    }
}

impl<T> AdmissionQueue<T> {
    /// An empty queue.
    pub fn new() -> (queue: AdmissionQueue<T>)
        ensures
            queue@ == Seq::<T>::empty(),
    {
        AdmissionQueue { handles: VecDeque::new() }
    }

    /// Number of queued handles.
    pub fn len(&self) -> (count: usize)
        ensures
            count == self@.len(),
    {
        self.handles.len()
    }

    /// Whether no handle is queued.
    pub fn is_empty(&self) -> (empty: bool)
        ensures
            empty == (self@.len() == 0),
    {
        self.handles.len() == 0
    }

    /// Appends the duplicated handle of an accepted connection.
    ///
    /// `duplicate` is what the attempt to duplicate the handle gave: the new
    /// handle, or `None` where it failed. A failure is returned as an error and leaves
    /// the queue as it was.
    pub fn try_enqueue(&mut self, duplicate: Option<T>) -> (outcome: Result<(), EnqueueError>)
        ensures
            duplicate is Some ==> outcome is Ok && final(self)@ == old(self)@.push(
                duplicate->Some_0,
            ),
            duplicate is None ==> outcome == Err::<(), EnqueueError>(
                EnqueueError::HandleDuplicationError,
            ) && final(self)@ == old(self)@,
            duplicate is Some && old(self)@.no_duplicates() && !old(self)@.contains(
                duplicate->Some_0,
            ) ==> final(self)@.no_duplicates(),
    {
        match duplicate {
            Some(handle) => {
                proof {
                    if self@.no_duplicates() && !self@.contains(handle) {
                        lemma_push_keeps_distinct(self@, handle);
                    }
                }
                self.handles.push_back(handle);
                Ok(())
            },
            None => Err(EnqueueError::HandleDuplicationError),
        }
    }

    /// Removes and returns the handle at the front, or returns `None` where
    /// the queue is empty.
    pub fn dequeue_one(&mut self) -> (front: Option<T>)
        ensures
            old(self)@.len() == 0 ==> front is None && final(self)@ == old(self)@,
            old(self)@.len() > 0 ==> front == Some(old(self)@[0]) && final(self)@ == old(
                self,
            )@.drop_first(),
            old(self)@.no_duplicates() ==> final(self)@.no_duplicates(),
            old(self)@.no_duplicates() && front is Some ==> !final(self)@.contains(front->Some_0),
    {
        proof {
            if self@.no_duplicates() {
                lemma_drop_first_keeps_distinct(self@);
            }
        }
        self.handles.pop_front()
    }
}

/// Appending a handle that is not queued yet keeps all queued handles
/// distinct.
pub proof fn lemma_push_keeps_distinct<T>(queued: Seq<T>, handle: T)
    requires
        queued.no_duplicates(),
        !queued.contains(handle),
    ensures
        queued.push(handle).no_duplicates(),
{
    let pushed = queued.push(handle);
    assert forall|i: int, j: int| 0 <= i < pushed.len() && 0 <= j < pushed.len() && i != j implies pushed[i]
        != pushed[j] by {
        if i < queued.len() {
            assert(queued.contains(queued[i]));
        }
        if j < queued.len() {
            assert(queued.contains(queued[j]));
        }
    }
}

/// Taking the front handle away keeps the rest distinct, and the handle taken
/// is no longer queued.
pub proof fn lemma_drop_first_keeps_distinct<T>(queued: Seq<T>)
    requires
        queued.no_duplicates(),
    ensures
        queued.len() > 0 ==> queued.drop_first().no_duplicates(),
        queued.len() > 0 ==> !queued.drop_first().contains(queued[0]),
{
    if queued.len() > 0 {
        let rest = queued.drop_first();
        assert forall|i: int, j: int| 0 <= i < rest.len() && 0 <= j < rest.len() && i != j implies rest[i]
            != rest[j] by {
            assert(rest[i] == queued[i + 1]);
            assert(rest[j] == queued[j + 1]);
        }
        if rest.contains(queued[0]) {
            let k = choose|k: int| 0 <= k < rest.len() && rest[k] == queued[0];
            assert(rest[k] == queued[k + 1]);
        }
    }
}

} // verus!
