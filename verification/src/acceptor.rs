//! Acceptor loop: the counters it keeps and the step it takes for each
//! outcome of a non-blocking accept.
//!
//! The caller owns the listening socket, the clock and the worker pool. For
//! every accept attempt it hands the outcome to [`boxmode_step`] and carries
//! out what comes back: a request to the pool, a message to the diagnostics
//! sink, or nothing.

use crate::batch::{active_batch_size, idle_batch_size, scale_by_magnitude_spec, task_quota};
use crate::pool::{enqueued, lemma_empty_dispatch_never_dequeues, PoolEvent, PoolRun};
use crate::queue::{lemma_push_keeps_distinct, AdmissionQueue};
use crate::rate::{lemma_quiet_interval_never_raises, ReqCounter};
use crate::tick::{
    elapsed_spec, is_nst_gt_ost_helfsec, is_nst_gt_ost_timeout, is_stamp, wrapped_elapsed,
};
use crate::worker::Dispatch;
use vstd::prelude::*;

verus! {

/// Tuning parameters, read once when the loop is set up. The three
/// magnitudes are in thousandths.
#[derive(Debug, Clone, Copy, PartialEq, Eq, Structural)]
pub struct Tuning {
    /// Damping applied to the batch size whenever a dispatch is made.
    pub box_magnitude: u32,
    /// Magnitude of the idle batch size, applied to the worker count.
    pub box_init_magnitude: u32,
    /// Magnitude of the active batch size, applied to the rate estimate.
    pub xrps_predict_magnitude: u32,
    /// Number of tasks requested from the pool at each dispatch.
    pub worker_thread_count: u32,
}

/// Counters of the acceptor loop.
#[derive(Debug, Clone, Copy, PartialEq, Eq, Structural)]
pub struct StreamResultCounters {
    /// State of the rate estimator.
    pub req_counter: ReqCounter,
    /// Stamp of the last coarse tick.
    pub old_stamp: i16,
    /// Latest stamp of the coarse cadence.
    pub new_stamp: i16,
    /// Connections accepted since the last coarse tick.
    pub tmp_counter: u32,
    /// Current batch size.
    pub box_num_per_thread: u32,
    /// The batch size was recomputed and no connection came since.
    pub flag_new_box_num: bool,
    /// Fine stamp as it stood at the last dispatch made for an accepted
    /// connection.
    pub old_stamp_timeout: i16,
    /// Latest stamp of the fine cadence.
    pub new_stamp_timeout: i16,
}

/// Outcome of one non-blocking accept attempt.
pub enum AcceptEvent<T> {
    /// A connection was ready. `duplicate` is the duplicated handle, or
    /// `None` where duplicating it failed; `now` is the stamp sampled for it.
    Connection { duplicate: Option<T>, now: i16 },
    /// No connection was ready. `now` is the stamp sampled for the attempt.
    WouldBlock { now: i16 },
    /// The attempt failed for any other reason.
    Failed,
}

/// Message owed to the diagnostics sink after a step.
#[derive(Debug, Clone, Copy, PartialEq, Eq, Structural)]
pub enum Notice {
    /// Nothing to say.
    Quiet,
    /// Debug trace of a connection that was queued.
    ConnectionTrace,
    /// Warning: the handle of a connection could not be duplicated and the
    /// connection was dropped.
    DuplicationWarning,
    /// Error: the accept attempt failed.
    AcceptError,
}

/// What the caller has to do after a step.
#[derive(Debug, Clone, Copy, PartialEq, Eq, Structural)]
pub struct StepOutcome {
    /// The request to hand to the worker pool, if any.
    pub dispatch: Option<Dispatch>,
    /// The message to hand to the diagnostics sink.
    pub notice: Notice,
}

/// Batch size with which the loop starts: three connections per worker.
pub open spec fn initial_batch_size(worker_thread_count: u32) -> u32 {
    if 3 * worker_thread_count > u32::MAX {
        u32::MAX
    } else {
        (3 * worker_thread_count) as u32
    }
}

/// One more accepted connection, the count staying at the largest `u32` once
/// it is there.
pub open spec fn counted_up(count: u32) -> u32 {
    if count < u32::MAX {
        (count + 1) as u32
    } else {
        u32::MAX
    }
}

/// The counters once a connection was queued at stamp `now`.
pub open spec fn after_ok_vars_init(counters: StreamResultCounters, now: i16) -> StreamResultCounters {
    StreamResultCounters {
        tmp_counter: counted_up(counters.tmp_counter),
        new_stamp: now,
        flag_new_box_num: false,
        ..counters
    }
}

/// The counters once an accept attempt found nothing at stamp `now`.
pub open spec fn after_err_vars_init(counters: StreamResultCounters, now: i16) -> StreamResultCounters {
    StreamResultCounters { new_stamp_timeout: now, new_stamp: now, ..counters }
}

/// Whether a coarse tick is due: more than 500 ms from the last one to the
/// latest coarse stamp.
pub open spec fn coarse_tick_due(counters: StreamResultCounters) -> bool {
    elapsed_spec(counters.old_stamp as int, counters.new_stamp as int, 500)
}

/// The counters after the coarse-cadence check. Where a tick is due the
/// accepted count is folded into the rate estimate and reset, the batch
/// size becomes that of the active regime, and the batch size is marked as
/// fresh; otherwise nothing changes.
pub open spec fn after_new_tick_start(
    counters: StreamResultCounters,
    xrps_predict_magnitude: u32,
) -> StreamResultCounters {
    if coarse_tick_due(counters) {
        let req_counter = counters.req_counter.spec_change(counters.tmp_counter);
        StreamResultCounters {
            old_stamp: counters.new_stamp,
            req_counter,
            tmp_counter: 0,
            box_num_per_thread: scale_by_magnitude_spec(
                req_counter@,
                xrps_predict_magnitude as nat,
            ) as u32,
            flag_new_box_num: true,
            ..counters
        }
    } else {
        counters
    }
}

/// The request that a dispatch makes of the pool: one task per worker, each
/// with the current batch size damped by the box magnitude.
pub open spec fn dispatch_of(counters: StreamResultCounters, tuning: Tuning) -> Dispatch {
    Dispatch {
        tasks: tuning.worker_thread_count,
        quota: scale_by_magnitude_spec(
            counters.box_num_per_thread as nat,
            tuning.box_magnitude as nat,
        ) as u32,
    }
}

/// The active step: what follows a connection queued at stamp `now`.
///
/// The connection is counted. Where more than 50 ms lie between the two fine
/// stamps, the coarse-cadence check runs, a dispatch is made with the batch
/// size that the check left, and the fine cadence starts anew.
pub open spec fn after_active_step(counters: StreamResultCounters, tuning: Tuning, now: i16) -> (
    StreamResultCounters,
    Option<Dispatch>,
) {
    let counted = after_ok_vars_init(counters, now);
    if elapsed_spec(counted.old_stamp_timeout as int, counted.new_stamp_timeout as int, 50) {
        let ticked = after_new_tick_start(counted, tuning.xrps_predict_magnitude);
        (
            StreamResultCounters { old_stamp_timeout: ticked.new_stamp_timeout, ..ticked },
            Some(dispatch_of(ticked, tuning)),
        )
    } else {
        (counted, None)
    }
}

/// The idle step: what follows an accept attempt that found nothing at stamp
/// `now`.
///
/// Both cadences take the new stamp and the coarse-cadence check runs. Where
/// the batch size is fresh, or more than 50 ms lie between the two coarse
/// stamps, a dispatch is made with the batch size that the check left, and
/// only then the batch size falls back to that of the idle regime.
pub open spec fn after_idle_step(counters: StreamResultCounters, tuning: Tuning, now: i16) -> (
    StreamResultCounters,
    Option<Dispatch>,
) {
    let ticked = after_new_tick_start(
        after_err_vars_init(counters, now),
        tuning.xrps_predict_magnitude,
    );
    if ticked.flag_new_box_num || elapsed_spec(
        ticked.old_stamp as int,
        ticked.new_stamp as int,
        50,
    ) {
        (
            StreamResultCounters {
                box_num_per_thread: scale_by_magnitude_spec(
                    tuning.worker_thread_count as nat,
                    tuning.box_init_magnitude as nat,
                ) as u32,
                ..ticked
            },
            Some(dispatch_of(ticked, tuning)),
        )
    } else {
        (ticked, None)
    }
}

/// One iteration of the acceptor loop: the counters, the queue and the
/// outcome that follow an accept event.
///
/// A connection whose handle was duplicated is queued and the active step
/// runs. A connection whose handle could not be duplicated is dropped with a
/// warning, and neither the counters nor the queue change. An attempt that
/// found nothing runs the idle step. Any other failure is passed on as an
/// error and changes nothing.
pub open spec fn after_boxmode_step<T>(
    counters: StreamResultCounters,
    tuning: Tuning,
    queued: Seq<T>,
    event: AcceptEvent<T>,
) -> (StreamResultCounters, Seq<T>, StepOutcome) {
    match event {
        AcceptEvent::Connection { duplicate: Some(handle), now } => {
            let (next, dispatch) = after_active_step(counters, tuning, now);
            (next, queued.push(handle), StepOutcome { dispatch, notice: Notice::ConnectionTrace })
        },
        AcceptEvent::Connection { duplicate: None, .. } => (
            counters,
            queued,
            StepOutcome { dispatch: None, notice: Notice::DuplicationWarning },
        ),
        AcceptEvent::WouldBlock { now } => {
            let (next, dispatch) = after_idle_step(counters, tuning, now);
            (next, queued, StepOutcome { dispatch, notice: Notice::Quiet })
        },
        AcceptEvent::Failed => (
            counters,
            queued,
            StepOutcome { dispatch: None, notice: Notice::AcceptError },
        ),
    }
}

impl StreamResultCounters {
    /// All four stamps lie in the stamp cycle.
    pub open spec fn wf(self) -> bool {
        &&& is_stamp(self.old_stamp as int)
        &&& is_stamp(self.new_stamp as int)
        &&& is_stamp(self.old_stamp_timeout as int)
        &&& is_stamp(self.new_stamp_timeout as int)
    }

    /// The counters with which the loop starts, from the worker count and
    /// the four stamps sampled at setup.
    pub fn new(
        worker_thread_count: u32,
        old_stamp: i16,
        new_stamp: i16,
        old_stamp_timeout: i16,
        new_stamp_timeout: i16,
    ) -> (counters: StreamResultCounters)
        ensures
            counters.req_counter@ == 0,
            counters.old_stamp == old_stamp,
            counters.new_stamp == new_stamp,
            counters.tmp_counter == 0,
            counters.box_num_per_thread == initial_batch_size(worker_thread_count),
            !counters.flag_new_box_num,
            counters.old_stamp_timeout == old_stamp_timeout,
            counters.new_stamp_timeout == new_stamp_timeout,
    {
        StreamResultCounters {
            req_counter: ReqCounter::new(),
            old_stamp,
            new_stamp,
            tmp_counter: 0,
            box_num_per_thread: if worker_thread_count > u32::MAX / 3 {
                u32::MAX
            } else {
                worker_thread_count * 3
            },
            flag_new_box_num: false,
            old_stamp_timeout,
            new_stamp_timeout,
        }
    }
}

/// Takes the new fine stamp after an accept attempt that found nothing, and
/// mirrors it into the coarse cadence.
pub fn err_vars_init(counters: &mut StreamResultCounters, now: i16)
    ensures
        *final(counters) == after_err_vars_init(*old(counters), now),
{
    counters.new_stamp_timeout = now;
    counters.new_stamp = counters.new_stamp_timeout;
}

/// Counts a queued connection, takes the new coarse stamp and marks the
/// batch size as no longer fresh.
pub fn ok_vars_init(counters: &mut StreamResultCounters, now: i16)
    ensures
        *final(counters) == after_ok_vars_init(*old(counters), now),
{
    if counters.tmp_counter < u32::MAX {
        counters.tmp_counter += 1;
    }
    counters.new_stamp = now;
    counters.flag_new_box_num = false;
}

/// Coarse-cadence check: on a tick, re-estimates the rate and recomputes the
/// batch size from it.
pub fn if_new_tick_start(counters: &mut StreamResultCounters, xrps_predict_magnitude: u32)
    ensures
        *final(counters) == after_new_tick_start(*old(counters), xrps_predict_magnitude),
{
    if is_nst_gt_ost_helfsec(&counters.old_stamp, &counters.new_stamp) {
        counters.old_stamp = counters.new_stamp;
        let xrps = counters.req_counter.update(counters.tmp_counter);
        counters.tmp_counter = 0;
        counters.box_num_per_thread = active_batch_size(xrps, xrps_predict_magnitude);
        counters.flag_new_box_num = true;
    }
}

/// The request for the worker pool at the current batch size.
pub fn dispatch_request(counters: &StreamResultCounters, tuning: &Tuning) -> (dispatch: Dispatch)
    ensures
        dispatch == dispatch_of(*counters, *tuning),
{
    Dispatch {
        tasks: tuning.worker_thread_count,
        quota: task_quota(counters.box_num_per_thread, tuning.box_magnitude),
    }
}

/// The active step of the loop, taken once a connection was queued.
pub fn active_step(counters: &mut StreamResultCounters, tuning: &Tuning, now: i16) -> (dispatch:
    Option<Dispatch>)
    ensures
        *final(counters) == after_active_step(*old(counters), *tuning, now).0,
        dispatch == after_active_step(*old(counters), *tuning, now).1,
{
    ok_vars_init(counters, now);
    if is_nst_gt_ost_timeout(&counters.old_stamp_timeout, &counters.new_stamp_timeout) {
        if_new_tick_start(counters, tuning.xrps_predict_magnitude);
        let dispatch = dispatch_request(counters, tuning);
        counters.old_stamp_timeout = counters.new_stamp_timeout;
        Some(dispatch)
    } else {
        None
    }
}

/// The idle step of the loop, taken when no connection was ready.
pub fn idle_step(counters: &mut StreamResultCounters, tuning: &Tuning, now: i16) -> (dispatch:
    Option<Dispatch>)
    ensures
        *final(counters) == after_idle_step(*old(counters), *tuning, now).0,
        dispatch == after_idle_step(*old(counters), *tuning, now).1,
{
    err_vars_init(counters, now);
    if_new_tick_start(counters, tuning.xrps_predict_magnitude);
    if counters.flag_new_box_num || is_nst_gt_ost_timeout(
        &counters.old_stamp,
        &counters.new_stamp,
    ) {
        let dispatch = dispatch_request(counters, tuning);
        counters.box_num_per_thread = idle_batch_size(
            tuning.worker_thread_count,
            tuning.box_init_magnitude,
        );
        Some(dispatch)
    } else {
        None
    }
}

/// One iteration of the acceptor loop.
pub fn boxmode_step<T>(
    counters: &mut StreamResultCounters,
    tuning: &Tuning,
    queue: &mut AdmissionQueue<T>,
    event: AcceptEvent<T>,
) -> (outcome: StepOutcome)
    ensures
        *final(counters) == after_boxmode_step(*old(counters), *tuning, old(queue)@, event).0,
        final(queue)@ == after_boxmode_step(*old(counters), *tuning, old(queue)@, event).1,
        outcome == after_boxmode_step(*old(counters), *tuning, old(queue)@, event).2,
{
    match event {
        AcceptEvent::Connection { duplicate, now } => {
            match queue.try_enqueue(duplicate) {
                Ok(()) => {
                    let dispatch = active_step(counters, tuning, now);
                    StepOutcome { dispatch, notice: Notice::ConnectionTrace }
                },
                Err(_) => StepOutcome { dispatch: None, notice: Notice::DuplicationWarning },
            }
        },
        AcceptEvent::WouldBlock { now } => {
            let dispatch = idle_step(counters, tuning, now);
            StepOutcome { dispatch, notice: Notice::Quiet }
        },
        AcceptEvent::Failed => StepOutcome { dispatch: None, notice: Notice::AcceptError },
    }
}

/// Half a second or more without a single accepted connection, ended by an
/// idle step: the rate estimate does not rise, the step makes a dispatch and
/// leaves the batch size of the idle regime behind. Past the half second the
/// step is a coarse tick: its own dispatch is still made at the batch size
/// of the active regime, taken from the new estimate, and the batch size
/// counts as fresh. A next idle step that is no coarse tick itself then
/// dispatches at the idle batch size, if it dispatches at all, and it does
/// so whenever the batch size is fresh.
pub proof fn lemma_quiet_coarse_interval(
    counters: StreamResultCounters,
    tuning: Tuning,
    now: i16,
    later: i16,
)
    requires
        counters.tmp_counter == 0,
        wrapped_elapsed(counters.old_stamp as int, now as int) >= 500,
        !elapsed_spec(
            after_idle_step(counters, tuning, now).0.old_stamp as int,
            later as int,
            500,
        ),
    ensures
        ({
            let (quiet, dispatch) = after_idle_step(counters, tuning, now);
            let ticked = elapsed_spec(counters.old_stamp as int, now as int, 500);
            let idle_size = scale_by_magnitude_spec(
                tuning.worker_thread_count as nat,
                tuning.box_init_magnitude as nat,
            );
            let active_size = scale_by_magnitude_spec(
                quiet.req_counter@,
                tuning.xrps_predict_magnitude as nat,
            );
            let (next, next_dispatch) = after_idle_step(quiet, tuning, later);
            &&& quiet.req_counter@ <= counters.req_counter@
            &&& quiet.tmp_counter == 0
            &&& dispatch is Some
            &&& quiet.box_num_per_thread == idle_size
            &&& ticked ==> quiet.flag_new_box_num && quiet.old_stamp == now && dispatch == Some(
                Dispatch {
                    tasks: tuning.worker_thread_count,
                    quota: scale_by_magnitude_spec(active_size, tuning.box_magnitude as nat) as u32,
                },
            )
            &&& quiet.flag_new_box_num ==> next_dispatch is Some
            &&& next_dispatch is Some ==> next_dispatch == Some(
                Dispatch {
                    tasks: tuning.worker_thread_count,
                    quota: scale_by_magnitude_spec(idle_size, tuning.box_magnitude as nat) as u32,
                },
            )
            &&& next.box_num_per_thread == idle_size
            &&& next.req_counter == quiet.req_counter
        }),
{
    lemma_quiet_interval_never_raises(counters.req_counter@);
}

/// A fine tick without a coarse tick, on an accepted connection: the step
/// dispatches at the batch size it found, and neither the batch size nor the
/// rate estimate changes.
pub proof fn lemma_fine_tick_keeps_batch_size(
    counters: StreamResultCounters,
    tuning: Tuning,
    now: i16,
)
    requires
        elapsed_spec(counters.old_stamp_timeout as int, counters.new_stamp_timeout as int, 50),
        !elapsed_spec(counters.old_stamp as int, now as int, 500),
    ensures
        ({
            let (next, dispatch) = after_active_step(counters, tuning, now);
            &&& dispatch == Some(
                Dispatch {
                    tasks: tuning.worker_thread_count,
                    quota: scale_by_magnitude_spec(
                        counters.box_num_per_thread as nat,
                        tuning.box_magnitude as nat,
                    ) as u32,
                },
            )
            &&& next.box_num_per_thread == counters.box_num_per_thread
            &&& next.req_counter == counters.req_counter
            &&& next.tmp_counter == counted_up(counters.tmp_counter)
            &&& next.old_stamp == counters.old_stamp
            &&& next.old_stamp_timeout == counters.new_stamp_timeout
            &&& !next.flag_new_box_num
        }),
{
}

/// The active step by cases. A dispatch is made exactly when the fine stamps
/// are more than 50 ms apart, and the rate is re-estimated exactly when, in
/// addition, the last coarse tick lies more than 500 ms before `now`: the
/// estimate then takes in the connections counted so far and this one, and
/// the dispatch is made at the batch size of the new estimate. Otherwise
/// estimate and batch size stay as they are.
pub proof fn lemma_active_step_cases(counters: StreamResultCounters, tuning: Tuning, now: i16)
    ensures
        ({
            let (next, dispatch) = after_active_step(counters, tuning, now);
            let fine = elapsed_spec(
                counters.old_stamp_timeout as int,
                counters.new_stamp_timeout as int,
                50,
            );
            let coarse = elapsed_spec(counters.old_stamp as int, now as int, 500);
            let estimate = counters.req_counter.spec_change(counted_up(counters.tmp_counter));
            let active_size = scale_by_magnitude_spec(
                estimate@,
                tuning.xrps_predict_magnitude as nat,
            );
            &&& dispatch is Some <==> fine
            &&& next.new_stamp == now
            &&& next.new_stamp_timeout == counters.new_stamp_timeout
            &&& next.old_stamp_timeout == if fine {
                counters.new_stamp_timeout
            } else {
                counters.old_stamp_timeout
            }
            &&& fine && coarse ==> {
                &&& next.req_counter == estimate
                &&& next.tmp_counter == 0
                &&& next.old_stamp == now
                &&& next.box_num_per_thread == active_size
                &&& next.flag_new_box_num
                &&& dispatch->Some_0.quota == scale_by_magnitude_spec(
                    active_size,
                    tuning.box_magnitude as nat,
                )
            }
            &&& !(fine && coarse) ==> {
                &&& next.req_counter == counters.req_counter
                &&& next.tmp_counter == counted_up(counters.tmp_counter)
                &&& next.old_stamp == counters.old_stamp
                &&& next.box_num_per_thread == counters.box_num_per_thread
                &&& !next.flag_new_box_num
            }
            &&& fine && !coarse ==> dispatch->Some_0.quota == scale_by_magnitude_spec(
                counters.box_num_per_thread as nat,
                tuning.box_magnitude as nat,
            )
        }),
{
}

/// The idle step by cases. The rate is re-estimated exactly when the last
/// coarse tick lies more than 500 ms before `now`. A dispatch is made when
/// that is so, when the batch size was fresh already, or when the last
/// coarse tick lies more than 50 ms before `now`; it is made at the batch
/// size of the new estimate in the first case and at the batch size found in
/// the others. After a dispatch the batch size is that of the idle regime.
pub proof fn lemma_idle_step_cases(counters: StreamResultCounters, tuning: Tuning, now: i16)
    ensures
        ({
            let (next, dispatch) = after_idle_step(counters, tuning, now);
            let fine = elapsed_spec(counters.old_stamp as int, now as int, 50);
            let coarse = elapsed_spec(counters.old_stamp as int, now as int, 500);
            let estimate = counters.req_counter.spec_change(counters.tmp_counter);
            let active_size = scale_by_magnitude_spec(
                estimate@,
                tuning.xrps_predict_magnitude as nat,
            );
            let idle_size = scale_by_magnitude_spec(
                tuning.worker_thread_count as nat,
                tuning.box_init_magnitude as nat,
            );
            &&& dispatch is Some <==> coarse || fine || counters.flag_new_box_num
            &&& next.new_stamp == now
            &&& next.new_stamp_timeout == now
            &&& next.old_stamp_timeout == counters.old_stamp_timeout
            &&& next.flag_new_box_num == (coarse || counters.flag_new_box_num)
            &&& coarse ==> {
                &&& next.req_counter == estimate
                &&& next.tmp_counter == 0
                &&& next.old_stamp == now
                &&& dispatch->Some_0.quota == scale_by_magnitude_spec(
                    active_size,
                    tuning.box_magnitude as nat,
                )
            }
            &&& !coarse ==> {
                &&& next.req_counter == counters.req_counter
                &&& next.tmp_counter == counters.tmp_counter
                &&& next.old_stamp == counters.old_stamp
            }
            &&& !coarse && dispatch is Some ==> dispatch->Some_0.quota == scale_by_magnitude_spec(
                counters.box_num_per_thread as nat,
                tuning.box_magnitude as nat,
            )
            &&& next.box_num_per_thread == if dispatch is Some {
                idle_size
            } else {
                counters.box_num_per_thread as nat
            }
        }),
{
}

/// Every dispatch asks for exactly as many tasks as there are workers, so
/// with a worker count of zero it schedules no task; and a step never takes
/// a connection out of the queue: the queue stays as it is, or grows by the
/// one connection of the event.
pub proof fn lemma_step_asks_one_task_per_worker<T>(
    counters: StreamResultCounters,
    tuning: Tuning,
    queued: Seq<T>,
    event: AcceptEvent<T>,
)
    ensures
        ({
            let (next, after, outcome) = after_boxmode_step(counters, tuning, queued, event);
            &&& outcome.dispatch is Some ==> outcome.dispatch->Some_0.tasks
                == tuning.worker_thread_count
            &&& after == queued || (event matches AcceptEvent::Connection {
                duplicate: Some(handle),
                ..
            } && after == queued.push(handle))
            &&& queued.is_prefix_of(after)
        }),
{
}

/// With a worker count of zero a dispatch schedules no task, and however the
/// pool is then visited, no connection leaves the queue.
pub proof fn lemma_zero_workers_never_dequeue<T>(
    counters: StreamResultCounters,
    tuning: Tuning,
    queued: Seq<T>,
    event: AcceptEvent<T>,
    visits: Seq<PoolEvent<T>>,
)
    requires
        tuning.worker_thread_count == 0,
    ensures
        ({
            let (next, after, outcome) = after_boxmode_step(counters, tuning, queued, event);
            outcome.dispatch matches Some(dispatch) ==> {
                let pool = PoolRun::start(after, dispatch);
                &&& dispatch.tasks == 0
                &&& pool.remaining.len() == 0
                &&& pool.run(visits).handled == Seq::<(int, T)>::empty()
                &&& pool.run(visits).queued == after + enqueued(visits)
            }
        }),
{
    let (next, after, outcome) = after_boxmode_step(counters, tuning, queued, event);
    if let Some(dispatch) = outcome.dispatch {
        lemma_empty_dispatch_never_dequeues(after, dispatch, visits);
    }
}

/// Steps keep stamps in the stamp cycle: from well-formed counters and an
/// event whose stamp lies in the cycle, the counters that follow are
/// well-formed.
pub proof fn lemma_step_keeps_stamps<T>(
    counters: StreamResultCounters,
    tuning: Tuning,
    queued: Seq<T>,
    event: AcceptEvent<T>,
)
    requires
        counters.wf(),
        event matches AcceptEvent::Connection { now, .. } ==> is_stamp(now as int),
        event matches AcceptEvent::WouldBlock { now } ==> is_stamp(now as int),
    ensures
        after_boxmode_step(counters, tuning, queued, event).0.wf(),
{
}

/// A step keeps the queued handles distinct, provided the handle that the
/// event brings is not queued already.
pub proof fn lemma_step_keeps_handles_distinct<T>(
    counters: StreamResultCounters,
    tuning: Tuning,
    queued: Seq<T>,
    event: AcceptEvent<T>,
)
    requires
        queued.no_duplicates(),
        event matches AcceptEvent::Connection { duplicate: Some(handle), .. } ==> !queued.contains(
            handle,
        ),
    ensures
        after_boxmode_step(counters, tuning, queued, event).1.no_duplicates(),
{
    if let AcceptEvent::Connection { duplicate: Some(handle), .. } = event {
        lemma_push_keeps_distinct(queued, handle);
    }
}

} // verus!
