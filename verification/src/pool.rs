//! Model of a dispatch at work: any number of drain tasks visiting the
//! shared queue one at a time, in any order, while the acceptor may go on
//! queuing connections.
//!
//! The queue sits behind one lock, so whatever the tasks do concurrently
//! amounts to some sequence of single visits. The laws below hold for every
//! such sequence.

use crate::worker::{drain_step, Dispatch};
use vstd::prelude::*;

verus! {

/// One critical section on the shared queue.
pub enum PoolEvent<T> {
    /// The acceptor queues a connection.
    Enqueue(T),
    /// The task of this index visits the queue.
    Visit(int),
}

/// State of a pool of drain tasks and the queue they share.
pub struct PoolRun<T> {
    /// The queue, oldest connection first.
    pub queued: Seq<T>,
    /// For each task, the number of connections it may still take.
    pub remaining: Seq<nat>,
    /// The connections taken so far, each with the index of the task that
    /// took it, in the order in which they left the queue.
    pub handled: Seq<(int, T)>,
}

/// The connections that a sequence of events queues, in order.
pub open spec fn enqueued<T>(events: Seq<PoolEvent<T>>) -> Seq<T>
    decreases events.len(),
{
    if events.len() == 0 {
        Seq::empty()
    } else {
        match events.last() {
            PoolEvent::Enqueue(handle) => enqueued(events.drop_last()).push(handle),
            PoolEvent::Visit(_) => enqueued(events.drop_last()),
        }
    }
}

/// Number of connections in `handled` that the task of index `task` took.
pub open spec fn taken_by<T>(handled: Seq<(int, T)>, task: int) -> nat
    decreases handled.len(),
{
    if handled.len() == 0 {
        0
    } else if handled.last().0 == task {
        taken_by(handled.drop_last(), task) + 1
    } else {
        taken_by(handled.drop_last(), task)
    }
}

/// Sum of what all tasks may still take.
pub open spec fn total(remaining: Seq<nat>) -> nat
    decreases remaining.len(),
{
    if remaining.len() == 0 {
        0
    } else {
        total(remaining.drop_last()) + remaining.last()
    }
}

/// Whether every event is a visit of a task, none an arrival.
pub open spec fn visits_only<T>(events: Seq<PoolEvent<T>>) -> bool {
    forall|i: int| 0 <= i < events.len() ==> #[trigger] events[i] is Visit
}

impl<T> PoolRun<T> {
    /// The pool as a dispatch starts it on a queue: every task has its full
    /// quota and nothing was taken yet.
    pub open spec fn start(queued: Seq<T>, dispatch: Dispatch) -> PoolRun<T> {
        PoolRun {
            queued,
            remaining: Seq::new(dispatch.tasks as nat, |task: int| dispatch.quota as nat),
            handled: Seq::empty(),
        }
    }

    /// The pool after one event. A visit by an index that names no task
    /// changes nothing.
    pub open spec fn step(self, event: PoolEvent<T>) -> PoolRun<T> {
        match event {
            PoolEvent::Enqueue(handle) => PoolRun { queued: self.queued.push(handle), ..self },
            PoolEvent::Visit(task) => {
                if 0 <= task < self.remaining.len() {
                    let (queued, left, connection) = drain_step(self.queued, self.remaining[task]);
                    PoolRun {
                        queued,
                        remaining: self.remaining.update(task, left),
                        handled: match connection {
                            Some(handle) => self.handled.push((task, handle)),
                            None => self.handled,
                        },
                    }
                } else {
                    self
                }
            },
        }
    }

    /// The pool after a sequence of events.
    pub open spec fn run(self, events: Seq<PoolEvent<T>>) -> PoolRun<T>
        decreases events.len(),
    {
        if events.len() == 0 {
            self
        } else {
            self.run(events.drop_last()).step(events.last())
        }
    }

    /// The connections taken so far, in the order in which they left the
    /// queue.
    pub open spec fn handles(self) -> Seq<T> {
        Seq::new(self.handled.len(), |i: int| self.handled[i].1)
    }

    /// Whether every task has ended.
    pub open spec fn finished(self) -> bool {
        forall|task: int| 0 <= task < self.remaining.len() ==> #[trigger] self.remaining[task] == 0
    }
}

/// Whatever the interleaving, connections leave the queue in the order in
/// which they entered it, none is lost and none is taken twice: those taken
/// so far, followed by those still queued, are those that were queued at the
/// start followed by those that arrived since.
pub proof fn lemma_run_is_fifo<T>(pool: PoolRun<T>, events: Seq<PoolEvent<T>>)
    ensures
        pool.run(events).handles() + pool.run(events).queued == pool.handles() + pool.queued
            + enqueued(events),
        pool.run(events).remaining.len() == pool.remaining.len(),
        pool.handled.is_prefix_of(pool.run(events).handled),
    decreases events.len(),
{
    if events.len() == 0 {
        assert(pool.handles() + pool.queued + enqueued(events) =~= pool.handles() + pool.queued);
    } else {
        let before = pool.run(events.drop_last());
        let after = before.step(events.last());
        lemma_run_is_fifo(pool, events.drop_last());
        let earlier = pool.handles() + pool.queued + enqueued(events.drop_last());
        assert(before.handles() + before.queued == earlier);
        match events.last() {
            PoolEvent::Enqueue(handle) => {
                assert(after.handles() =~= before.handles());
                assert(after.handles() + after.queued =~= (before.handles() + before.queued).push(
                    handle,
                ));
                assert(pool.handles() + pool.queued + enqueued(events) =~= earlier.push(handle));
            },
            PoolEvent::Visit(task) => {
                if 0 <= task < before.remaining.len() && before.remaining[task] > 0
                    && before.queued.len() > 0 {
                    assert(after.handles() =~= before.handles().push(before.queued[0]));
                    assert(after.queued =~= before.queued.drop_first());
                    assert(after.handles() + after.queued =~= before.handles() + before.queued);
                } else {
                    assert(after.handles() =~= before.handles());
                    assert(after.queued =~= before.queued);
                }
            },
        }
    }
}

/// A dispatch started on a queue hands the connections out in queue order,
/// each at most once, whatever the interleaving and whatever arrives
/// meanwhile.
pub proof fn lemma_dispatch_is_fifo<T>(
    queued: Seq<T>,
    dispatch: Dispatch,
    events: Seq<PoolEvent<T>>,
)
    ensures
        ({
            let end = PoolRun::start(queued, dispatch).run(events);
            let offered = queued + enqueued(events);
            &&& end.handles() + end.queued == offered
            &&& end.handles() == offered.take(end.handles().len() as int)
            &&& end.queued == offered.skip(end.handles().len() as int)
            &&& offered.no_duplicates() ==> end.handles().no_duplicates()
                && end.queued.no_duplicates() && forall|handle: T|
                !(end.handles().contains(handle) && end.queued.contains(handle))
        }),
{
    let pool = PoolRun::start(queued, dispatch);
    let end = pool.run(events);
    let offered = queued + enqueued(events);
    lemma_run_is_fifo(pool, events);
    assert(pool.handles() + pool.queued + enqueued(events) =~= offered);
    let taken = end.handles().len() as int;
    assert(end.handles() =~= offered.take(taken));
    assert(end.queued =~= offered.skip(taken));
    if offered.no_duplicates() {
        assert forall|i: int, j: int|
            0 <= i < end.handles().len() && 0 <= j < end.handles().len() && i != j implies end.handles()[i]
            != end.handles()[j] by {
            assert(end.handles()[i] == offered[i]);
            assert(end.handles()[j] == offered[j]);
        }
        assert forall|i: int, j: int|
            0 <= i < end.queued.len() && 0 <= j < end.queued.len() && i != j implies end.queued[i]
            != end.queued[j] by {
            assert(end.queued[i] == offered[taken + i]);
            assert(end.queued[j] == offered[taken + j]);
        }
        assert forall|handle: T|
            !(end.handles().contains(handle) && end.queued.contains(handle)) by {
            if end.handles().contains(handle) && end.queued.contains(handle) {
                let i = choose|i: int| 0 <= i < end.handles().len() && end.handles()[i] == handle;
                let j = choose|j: int| 0 <= j < end.queued.len() && end.queued[j] == handle;
                assert(end.handles()[i] == offered[i]);
                assert(end.queued[j] == offered[taken + j]);
            }
        }
    }
}

/// Replacing one entry changes the sum by the difference of the two values.
pub proof fn lemma_total_update(remaining: Seq<nat>, task: int, left: nat)
    requires
        0 <= task < remaining.len(),
    ensures
        total(remaining.update(task, left)) + remaining[task] == total(remaining) + left,
    decreases remaining.len(),
{
    let updated = remaining.update(task, left);
    if task == remaining.len() - 1 {
        assert(updated.drop_last() =~= remaining.drop_last());
    } else {
        assert(updated.drop_last() =~= remaining.drop_last().update(task, left));
        lemma_total_update(remaining.drop_last(), task, left);
    }
}

/// `tasks` entries of `quota` each sum to their product.
pub proof fn lemma_total_of_equal_shares(tasks: nat, quota: nat)
    ensures
        total(Seq::new(tasks, |task: int| quota)) == tasks * quota,
    decreases tasks,
{
    let shares = Seq::new(tasks, |task: int| quota);
    if tasks == 0 {
        assert(tasks * quota == 0) by (nonlinear_arith)
            requires
                tasks == 0,
        ;
    } else {
        assert(shares.drop_last() =~= Seq::new((tasks - 1) as nat, |task: int| quota));
        lemma_total_of_equal_shares((tasks - 1) as nat, quota);
        assert((tasks - 1) * quota + quota == tasks * quota) by (nonlinear_arith);
    }
}

/// Where every task has ended nothing is left to take.
pub proof fn lemma_total_of_finished(remaining: Seq<nat>)
    requires
        forall|task: int| 0 <= task < remaining.len() ==> #[trigger] remaining[task] == 0,
    ensures
        total(remaining) == 0,
    decreases remaining.len(),
{
    if remaining.len() > 0 {
        assert forall|task: int| 0 <= task < remaining.drop_last().len() implies #[trigger] remaining.drop_last()[task]
            == 0 by {
            assert(remaining.drop_last()[task] == remaining[task]);
        }
        lemma_total_of_finished(remaining.drop_last());
    }
}

/// No task takes more than what it was allowed at the start, and all tasks
/// together take no more than the sum of their allowances.
pub proof fn lemma_run_respects_quota<T>(pool: PoolRun<T>, events: Seq<PoolEvent<T>>, task: int)
    requires
        0 <= task < pool.remaining.len(),
    ensures
        pool.run(events).remaining.len() == pool.remaining.len(),
        taken_by(pool.run(events).handled, task) + pool.run(events).remaining[task] <= taken_by(
            pool.handled,
            task,
        ) + pool.remaining[task],
        pool.run(events).handled.len() + total(pool.run(events).remaining) <= pool.handled.len()
            + total(pool.remaining),
    decreases events.len(),
{
    if events.len() > 0 {
        let before = pool.run(events.drop_last());
        let after = before.step(events.last());
        lemma_run_respects_quota(pool, events.drop_last(), task);
        match events.last() {
            PoolEvent::Enqueue(handle) => {},
            PoolEvent::Visit(visitor) => {
                if 0 <= visitor < before.remaining.len() {
                    let (queued, left, connection) = drain_step(
                        before.queued,
                        before.remaining[visitor],
                    );
                    lemma_total_update(before.remaining, visitor, left);
                    if connection is Some {
                        let entry = (visitor, connection->Some_0);
                        assert(after.handled == before.handled.push(entry));
                        assert(after.handled.drop_last() =~= before.handled);
                        assert(after.handled.last() == entry);
                    }
                }
            },
        }
    }
}

/// A dispatch never takes more than `quota` connections per task, nor more
/// than `tasks * quota` in all.
pub proof fn lemma_dispatch_respects_quota<T>(
    queued: Seq<T>,
    dispatch: Dispatch,
    events: Seq<PoolEvent<T>>,
)
    ensures
        PoolRun::start(queued, dispatch).run(events).handles().len() <= dispatch.tasks
            * dispatch.quota,
        forall|task: int|
            0 <= task < dispatch.tasks ==> taken_by(
                #[trigger] PoolRun::start(queued, dispatch).run(events).handled,
                task,
            ) <= dispatch.quota,
{
    let pool = PoolRun::start(queued, dispatch);
    lemma_total_of_equal_shares(dispatch.tasks as nat, dispatch.quota as nat);
    lemma_run_is_fifo(pool, events);
    if dispatch.tasks > 0 {
        lemma_run_respects_quota(pool, events, 0);
    } else {
        lemma_no_task_no_dequeue(pool, events);
        assert(dispatch.tasks * dispatch.quota == 0) by (nonlinear_arith)
            requires
                dispatch.tasks == 0,
        ;
    }
    assert forall|task: int| 0 <= task < dispatch.tasks implies taken_by(
        #[trigger] pool.run(events).handled,
        task,
    ) <= dispatch.quota by {
        lemma_run_respects_quota(pool, events, task);
    }
}

/// A pool without tasks, or one whose tasks have all ended, never takes a
/// connection out of the queue: whatever visits are made, the queue only
/// grows by what arrives.
pub proof fn lemma_no_task_no_dequeue<T>(pool: PoolRun<T>, events: Seq<PoolEvent<T>>)
    requires
        pool.finished(),
    ensures
        pool.run(events).queued == pool.queued + enqueued(events),
        pool.run(events).handled == pool.handled,
        pool.run(events).remaining == pool.remaining,
    decreases events.len(),
{
    if events.len() == 0 {
        assert(pool.queued + enqueued(events) =~= pool.queued);
    } else {
        let before = pool.run(events.drop_last());
        lemma_no_task_no_dequeue(pool, events.drop_last());
        match events.last() {
            PoolEvent::Enqueue(handle) => {
                assert(pool.queued + enqueued(events) =~= (pool.queued + enqueued(
                    events.drop_last(),
                )).push(handle));
            },
            PoolEvent::Visit(task) => {
                if 0 <= task < before.remaining.len() {
                    assert(before.remaining[task] == 0);
                    assert(before.remaining.update(task, 0) =~= before.remaining);
                }
            },
        }
    }
}

/// A dispatch for zero workers schedules no task, and one with a quota of
/// zero starts only tasks that have ended already; neither ever takes a
/// connection out of the queue.
pub proof fn lemma_empty_dispatch_never_dequeues<T>(
    queued: Seq<T>,
    dispatch: Dispatch,
    events: Seq<PoolEvent<T>>,
)
    requires
        dispatch.tasks == 0 || dispatch.quota == 0,
    ensures
        PoolRun::start(queued, dispatch).remaining.len() == dispatch.tasks,
        PoolRun::start(queued, dispatch).run(events).queued == queued + enqueued(events),
        PoolRun::start(queued, dispatch).run(events).handled == Seq::<(int, T)>::empty(),
{
    lemma_no_task_no_dequeue(PoolRun::start(queued, dispatch), events);
}

/// While connections are left in the queue and nothing new arrives, no task
/// has given up any of its quota: what was taken and what may still be taken
/// add up to what the pool started with.
pub proof fn lemma_busy_queue_wastes_no_quota<T>(pool: PoolRun<T>, events: Seq<PoolEvent<T>>)
    requires
        visits_only(events),
        pool.run(events).queued.len() > 0,
    ensures
        pool.run(events).handled.len() + total(pool.run(events).remaining) == pool.handled.len()
            + total(pool.remaining),
        pool.run(events).queued.len() <= pool.queued.len(),
    decreases events.len(),
{
    if events.len() > 0 {
        let before = pool.run(events.drop_last());
        assert(visits_only(events.drop_last())) by {
            assert forall|i: int| 0 <= i < events.drop_last().len() implies #[trigger] events.drop_last()[i] is Visit by {
                assert(events.drop_last()[i] == events[i]);
            }
        }
        assert(events.last() == events[events.len() - 1]);
        let visitor = events.last()->Visit_0;
        assert(before.queued.len() > 0);
        lemma_busy_queue_wastes_no_quota(pool, events.drop_last());
        if 0 <= visitor < before.remaining.len() {
            let (queued, left, connection) = drain_step(before.queued, before.remaining[visitor]);
            lemma_total_update(before.remaining, visitor, left);
        }
    }
}

/// A dispatch that runs to its end on a queue to which nothing is added
/// takes the first `tasks * quota` connections, or all of them where there
/// are fewer, in queue order, and leaves the rest queued.
pub proof fn lemma_finished_dispatch_takes_its_share<T>(
    queued: Seq<T>,
    dispatch: Dispatch,
    events: Seq<PoolEvent<T>>,
)
    requires
        visits_only(events),
        PoolRun::start(queued, dispatch).run(events).finished(),
    ensures
        ({
            let end = PoolRun::start(queued, dispatch).run(events);
            let capacity = dispatch.tasks * dispatch.quota;
            let share = if queued.len() <= capacity {
                queued.len() as int
            } else {
                capacity
            };
            &&& end.handles() == queued.take(share)
            &&& end.queued == queued.skip(share)
        }),
{
    let pool = PoolRun::start(queued, dispatch);
    let end = pool.run(events);
    lemma_dispatch_is_fifo(queued, dispatch, events);
    lemma_dispatch_respects_quota(queued, dispatch, events);
    lemma_total_of_equal_shares(dispatch.tasks as nat, dispatch.quota as nat);
    lemma_total_of_finished(end.remaining);
    lemma_visits_enqueue_nothing(events);
    assert(queued + enqueued(events) =~= queued);
    if end.queued.len() > 0 {
        lemma_busy_queue_wastes_no_quota(pool, events);
    }
}

/// A sequence of visits queues nothing.
pub proof fn lemma_visits_enqueue_nothing<T>(events: Seq<PoolEvent<T>>)
    requires
        visits_only(events),
    ensures
        enqueued(events) == Seq::<T>::empty(),
    decreases events.len(),
{
    if events.len() > 0 {
        assert forall|i: int| 0 <= i < events.drop_last().len() implies #[trigger] events.drop_last()[i] is Visit by {
            assert(events.drop_last()[i] == events[i]);
        }
        assert(events.last() == events[events.len() - 1]);
        lemma_visits_enqueue_nothing(events.drop_last());
    }
}

} // verus!
