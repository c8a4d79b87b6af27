use boxmode::acceptor::{
    active_step, boxmode_step, dispatch_request, err_vars_init, idle_step, if_new_tick_start,
    ok_vars_init, AcceptEvent, Notice, StepOutcome, StreamResultCounters, Tuning,
};
use boxmode::batch::{active_batch_size, idle_batch_size, task_quota};
use boxmode::queue::AdmissionQueue;
use boxmode::rate::ReqCounter;
use boxmode::worker::Dispatch;

fn tuning() -> Tuning {
    Tuning {
        box_magnitude: 500,
        box_init_magnitude: 750,
        xrps_predict_magnitude: 300,
        worker_thread_count: 4,
    }
}

fn counters() -> StreamResultCounters {
    StreamResultCounters {
        req_counter: ReqCounter { xrps: 100 },
        old_stamp: 100,
        new_stamp: 100,
        tmp_counter: 0,
        box_num_per_thread: 30,
        flag_new_box_num: false,
        old_stamp_timeout: 100,
        new_stamp_timeout: 100,
    }
}

#[test]
fn counters_start_with_three_connections_per_worker() {
    let started = StreamResultCounters::new(4, 1, 2, 3, 4);
    assert_eq!(
        started,
        StreamResultCounters {
            req_counter: ReqCounter::new(),
            old_stamp: 1,
            new_stamp: 2,
            tmp_counter: 0,
            box_num_per_thread: 12,
            flag_new_box_num: false,
            old_stamp_timeout: 3,
            new_stamp_timeout: 4,
        }
    );
    assert_eq!(started.req_counter.get_xrps(), 0);
}

#[test]
fn initial_batch_size_is_capped() {
    assert_eq!(StreamResultCounters::new(0, 0, 0, 0, 0).box_num_per_thread, 0);
    assert_eq!(
        StreamResultCounters::new(1_431_655_765, 0, 0, 0, 0).box_num_per_thread,
        u32::MAX
    );
    assert_eq!(
        StreamResultCounters::new(1_431_655_764, 0, 0, 0, 0).box_num_per_thread,
        4_294_967_292
    );
    assert_eq!(
        StreamResultCounters::new(1_431_655_766, 0, 0, 0, 0).box_num_per_thread,
        u32::MAX
    );
    assert_eq!(StreamResultCounters::new(u32::MAX, 0, 0, 0, 0).box_num_per_thread, u32::MAX);
}

#[test]
fn ok_vars_init_counts_and_stamps() {
    let mut state = counters();
    state.flag_new_box_num = true;
    state.tmp_counter = 6;
    ok_vars_init(&mut state, 345);
    let mut expected = counters();
    expected.tmp_counter = 7;
    expected.new_stamp = 345;
    expected.flag_new_box_num = false;
    assert_eq!(state, expected);
}

#[test]
fn ok_vars_init_stops_counting_at_the_largest_u32() {
    let mut state = counters();
    state.tmp_counter = u32::MAX - 1;
    ok_vars_init(&mut state, 1);
    assert_eq!(state.tmp_counter, u32::MAX);
    ok_vars_init(&mut state, 2);
    assert_eq!(state.tmp_counter, u32::MAX);
    assert_eq!(state.new_stamp, 2);
}

#[test]
fn err_vars_init_stamps_both_cadences() {
    let mut state = counters();
    state.flag_new_box_num = true;
    state.tmp_counter = 6;
    err_vars_init(&mut state, 777);
    let mut expected = counters();
    expected.flag_new_box_num = true;
    expected.tmp_counter = 6;
    expected.new_stamp = 777;
    expected.new_stamp_timeout = 777;
    assert_eq!(state, expected);
}

#[test]
fn coarse_tick_re_estimates_and_resizes() {
    let mut state = counters();
    state.req_counter = ReqCounter::new();
    state.tmp_counter = 50;
    state.new_stamp = 700;
    if_new_tick_start(&mut state, 300);
    let mut expected = counters();
    expected.req_counter = ReqCounter { xrps: 50 };
    expected.old_stamp = 700;
    expected.new_stamp = 700;
    expected.tmp_counter = 0;
    expected.box_num_per_thread = 15;
    expected.flag_new_box_num = true;
    assert_eq!(state, expected);
}

#[test]
fn coarse_tick_is_strict_at_half_a_second() {
    let mut state = counters();
    state.tmp_counter = 50;
    state.new_stamp = 600;
    let before = state;
    if_new_tick_start(&mut state, 300);
    assert_eq!(state, before);
    state.new_stamp = 601;
    if_new_tick_start(&mut state, 300);
    assert_eq!(state.old_stamp, 601);
    assert_eq!(state.req_counter.get_xrps(), 100);
    assert_eq!(state.box_num_per_thread, 30);
    assert!(state.flag_new_box_num);
}

#[test]
fn coarse_tick_across_the_wrap() {
    let mut state = counters();
    state.old_stamp = 900;
    state.new_stamp = 401;
    state.tmp_counter = 10;
    if_new_tick_start(&mut state, 1000);
    assert_eq!(state.old_stamp, 401);
    // (100 + 2 * 10) / 2
    assert_eq!(state.req_counter.get_xrps(), 60);
    assert_eq!(state.box_num_per_thread, 60);
    assert_eq!(state.tmp_counter, 0);
}

#[test]
fn dispatch_request_damps_the_batch_size() {
    let state = counters();
    assert_eq!(dispatch_request(&state, &tuning()), Dispatch { tasks: 4, quota: 15 });
    let mut odd = counters();
    odd.box_num_per_thread = 5;
    // 2.5 rounds up.
    assert_eq!(dispatch_request(&odd, &tuning()), Dispatch { tasks: 4, quota: 3 });
}

#[test]
fn quiet_coarse_interval_then_idle_batch_size() {
    let tuning = Tuning { box_magnitude: 1000, ..tuning() };
    let mut state = counters();
    // More than 500 ms without a connection.
    let first = idle_step(&mut state, &tuning, 700);
    assert_eq!(state.req_counter.get_xrps(), 50);
    assert!(state.req_counter.get_xrps() <= 100);
    assert_eq!(first, Some(Dispatch { tasks: 4, quota: active_batch_size(50, 300) }));
    assert_eq!(first, Some(Dispatch { tasks: 4, quota: 15 }));
    assert_eq!(state.box_num_per_thread, idle_batch_size(4, 750));
    assert_eq!(state.box_num_per_thread, 3);
    assert!(state.flag_new_box_num);
    assert_eq!(state.old_stamp, 700);
    // The next idle step is no coarse tick and dispatches at the idle size.
    let second = idle_step(&mut state, &tuning, 750);
    assert_eq!(second, Some(Dispatch { tasks: 4, quota: 3 }));
    assert_eq!(state.box_num_per_thread, 3);
    assert_eq!(state.req_counter.get_xrps(), 50);
}

#[test]
fn quiet_coarse_intervals_never_raise_the_estimate() {
    let tuning = tuning();
    let mut state = counters();
    let mut last = state.req_counter.get_xrps();
    let mut now = 100i16;
    for _ in 0..12 {
        now = (now + 600) % 1000;
        let dispatch = idle_step(&mut state, &tuning, now);
        let estimate = state.req_counter.get_xrps();
        assert!(estimate <= last);
        assert_eq!(estimate, last / 2);
        assert_eq!(
            dispatch,
            Some(Dispatch { tasks: 4, quota: task_quota(active_batch_size(estimate, 300), 500) })
        );
        assert_eq!(state.box_num_per_thread, 3);
        last = estimate;
    }
    assert_eq!(last, 0);
}

#[test]
fn fine_tick_without_coarse_tick_keeps_the_batch_size() {
    let tuning = tuning();
    let mut state = counters();
    state.new_stamp_timeout = 200;
    state.box_num_per_thread = 12;
    let dispatch = active_step(&mut state, &tuning, 210);
    assert_eq!(dispatch, Some(Dispatch { tasks: 4, quota: 6 }));
    let mut expected = counters();
    expected.new_stamp_timeout = 200;
    expected.old_stamp_timeout = 200;
    expected.box_num_per_thread = 12;
    expected.tmp_counter = 1;
    expected.new_stamp = 210;
    assert_eq!(state, expected);
}

#[test]
fn fine_tick_is_strict_at_fifty_milliseconds() {
    let tuning = tuning();
    let mut state = counters();
    state.new_stamp_timeout = 150;
    assert_eq!(active_step(&mut state, &tuning, 160), None);
    assert_eq!(state.tmp_counter, 1);
    assert_eq!(state.old_stamp_timeout, 100);
    state.new_stamp_timeout = 151;
    assert_eq!(active_step(&mut state, &tuning, 170), Some(Dispatch { tasks: 4, quota: 15 }));
    assert_eq!(state.tmp_counter, 2);
    assert_eq!(state.old_stamp_timeout, 151);
}

#[test]
fn active_step_without_fine_tick_only_counts() {
    let tuning = tuning();
    let mut state = counters();
    // The coarse stamps are far apart, but the fine stamps are not.
    let dispatch = active_step(&mut state, &tuning, 900);
    assert_eq!(dispatch, None);
    let mut expected = counters();
    expected.tmp_counter = 1;
    expected.new_stamp = 900;
    assert_eq!(state, expected);
}

#[test]
fn active_step_with_both_ticks_dispatches_the_new_batch_size() {
    let tuning = tuning();
    let mut state = counters();
    state.new_stamp_timeout = 200;
    state.tmp_counter = 199;
    state.flag_new_box_num = true;
    let dispatch = active_step(&mut state, &tuning, 650);
    // 200 connections: (100 + 400) / 2 = 250, times 0.3 = 75, times 0.5 = 37.5.
    assert_eq!(dispatch, Some(Dispatch { tasks: 4, quota: 38 }));
    assert_eq!(
        state,
        StreamResultCounters {
            req_counter: ReqCounter { xrps: 250 },
            old_stamp: 650,
            new_stamp: 650,
            tmp_counter: 0,
            box_num_per_thread: 75,
            flag_new_box_num: true,
            old_stamp_timeout: 200,
            new_stamp_timeout: 200,
        }
    );
}

#[test]
fn idle_step_dispatches_before_it_cools_down() {
    let tuning = tuning();
    let mut state = counters();
    // 60 ms since the last coarse tick: a fine tick, no coarse tick.
    let dispatch = idle_step(&mut state, &tuning, 160);
    assert_eq!(dispatch, Some(Dispatch { tasks: 4, quota: 15 }));
    let mut expected = counters();
    expected.new_stamp = 160;
    expected.new_stamp_timeout = 160;
    expected.box_num_per_thread = 3;
    assert_eq!(state, expected);
    // The cooled-down size shows at the next dispatch: 3 * 0.5 rounds up.
    assert_eq!(idle_step(&mut state, &tuning, 170), Some(Dispatch { tasks: 4, quota: 2 }));
}

#[test]
fn idle_step_without_tick_or_fresh_size_does_nothing_more() {
    let tuning = tuning();
    let mut state = counters();
    let dispatch = idle_step(&mut state, &tuning, 150);
    assert_eq!(dispatch, None);
    let mut expected = counters();
    expected.new_stamp = 150;
    expected.new_stamp_timeout = 150;
    assert_eq!(state, expected);
}

#[test]
fn idle_step_dispatches_on_a_fresh_batch_size() {
    let tuning = tuning();
    let mut state = counters();
    state.flag_new_box_num = true;
    let dispatch = idle_step(&mut state, &tuning, 101);
    assert_eq!(dispatch, Some(Dispatch { tasks: 4, quota: 15 }));
    assert_eq!(state.box_num_per_thread, 3);
    assert!(state.flag_new_box_num);
    assert_eq!(state.old_stamp_timeout, 100);
}

#[test]
fn step_queues_a_connection_and_runs_the_active_step() {
    let tuning = tuning();
    let mut state = counters();
    state.new_stamp_timeout = 200;
    let mut queue = AdmissionQueue::new();
    let event = AcceptEvent::Connection { duplicate: Some("c1"), now: 210 };
    let outcome = boxmode_step(&mut state, &tuning, &mut queue, event);
    assert_eq!(
        outcome,
        StepOutcome {
            dispatch: Some(Dispatch { tasks: 4, quota: 15 }),
            notice: Notice::ConnectionTrace,
        }
    );
    assert_eq!(queue.len(), 1);
    assert_eq!(state.tmp_counter, 1);
    assert_eq!(state.new_stamp, 210);
    assert_eq!(state.old_stamp_timeout, 200);
    assert_eq!(queue.dequeue_one(), Some("c1"));
}

#[test]
fn step_drops_a_connection_whose_handle_cannot_be_duplicated() {
    let tuning = tuning();
    let mut state = counters();
    state.new_stamp_timeout = 200;
    state.flag_new_box_num = true;
    let before = state;
    let mut queue: AdmissionQueue<u32> = AdmissionQueue::new();
    assert_eq!(queue.try_enqueue(Some(1)), Ok(()));
    let event = AcceptEvent::Connection { duplicate: None, now: 900 };
    let outcome = boxmode_step(&mut state, &tuning, &mut queue, event);
    assert_eq!(outcome, StepOutcome { dispatch: None, notice: Notice::DuplicationWarning });
    assert_eq!(state, before);
    assert_eq!(queue.len(), 1);
    assert_eq!(queue.dequeue_one(), Some(1));
}

#[test]
fn step_runs_the_idle_step_when_accept_would_block() {
    let tuning = tuning();
    let mut state = counters();
    let mut queue: AdmissionQueue<u32> = AdmissionQueue::new();
    assert_eq!(queue.try_enqueue(Some(1)), Ok(()));
    let outcome = boxmode_step(&mut state, &tuning, &mut queue, AcceptEvent::WouldBlock { now: 160 });
    assert_eq!(
        outcome,
        StepOutcome { dispatch: Some(Dispatch { tasks: 4, quota: 15 }), notice: Notice::Quiet }
    );
    assert_eq!(state.box_num_per_thread, 3);
    assert_eq!(state.new_stamp_timeout, 160);
    assert_eq!(queue.len(), 1);
    // The coarse stamp of the last tick stays at 100, so the fine cadence is
    // still met one millisecond later, now at the cooled-down batch size.
    let again = boxmode_step(&mut state, &tuning, &mut queue, AcceptEvent::WouldBlock { now: 161 });
    assert_eq!(
        again,
        StepOutcome { dispatch: Some(Dispatch { tasks: 4, quota: 2 }), notice: Notice::Quiet }
    );
    let mut rested = counters();
    let quiet = boxmode_step(&mut rested, &tuning, &mut queue, AcceptEvent::WouldBlock { now: 150 });
    assert_eq!(quiet, StepOutcome { dispatch: None, notice: Notice::Quiet });
    assert_eq!(queue.len(), 1);
}

#[test]
fn step_reports_other_accept_failures_and_changes_nothing() {
    let tuning = tuning();
    let mut state = counters();
    state.flag_new_box_num = true;
    let before = state;
    let mut queue: AdmissionQueue<u32> = AdmissionQueue::new();
    assert_eq!(queue.try_enqueue(Some(1)), Ok(()));
    let outcome = boxmode_step(&mut state, &tuning, &mut queue, AcceptEvent::Failed);
    assert_eq!(outcome, StepOutcome { dispatch: None, notice: Notice::AcceptError });
    assert_eq!(state, before);
    assert_eq!(queue.len(), 1);
}

#[test]
fn zero_workers_dispatch_zero_tasks_and_never_dequeue() {
    let tuning = Tuning { worker_thread_count: 0, ..tuning() };
    let mut state = StreamResultCounters::new(0, 100, 100, 100, 100);
    assert_eq!(state.box_num_per_thread, 0);
    let mut queue = AdmissionQueue::new();
    for (handle, now) in [(1u32, 110i16), (2, 120), (3, 130)] {
        let event = AcceptEvent::Connection { duplicate: Some(handle), now };
        let outcome = boxmode_step(&mut state, &tuning, &mut queue, event);
        assert_eq!(outcome, StepOutcome { dispatch: None, notice: Notice::ConnectionTrace });
    }
    let outcome = boxmode_step(&mut state, &tuning, &mut queue, AcceptEvent::WouldBlock { now: 700 });
    let dispatch = outcome.dispatch.unwrap();
    assert_eq!(dispatch.tasks, 0);
    // (0 + 2 * 3) / 2 = 3, times 0.3 = 0.9, rounds to 1; times 0.5 rounds to 1.
    assert_eq!(dispatch, Dispatch { tasks: 0, quota: 1 });
    assert_eq!(state.box_num_per_thread, 0);
    assert_eq!(queue.len(), 3);
    assert_eq!(queue.dequeue_one(), Some(1));
}

#[test]
fn burst_then_quiet_period() {
    let tuning = tuning();
    let mut state = StreamResultCounters::new(4, 0, 0, 0, 0);
    let mut queue = AdmissionQueue::new();
    // A burst of 40 connections within 40 ms: nothing is dispatched yet.
    for handle in 0u32..40 {
        let event = AcceptEvent::Connection { duplicate: Some(handle), now: handle as i16 };
        let outcome = boxmode_step(&mut state, &tuning, &mut queue, event);
        assert_eq!(outcome, StepOutcome { dispatch: None, notice: Notice::ConnectionTrace });
    }
    assert_eq!(state.tmp_counter, 40);
    assert_eq!(queue.len(), 40);
    // The listener runs dry 60 ms in: a fine tick on the coarse stamps.
    let outcome = boxmode_step(&mut state, &tuning, &mut queue, AcceptEvent::WouldBlock { now: 60 });
    assert_eq!(outcome.dispatch, Some(Dispatch { tasks: 4, quota: 6 }));
    assert_eq!(state.box_num_per_thread, 3);
    // One more connection: the fine stamps are now 60 ms apart.
    let event = AcceptEvent::Connection { duplicate: Some(40u32), now: 70 };
    let outcome = boxmode_step(&mut state, &tuning, &mut queue, event);
    assert_eq!(outcome.dispatch, Some(Dispatch { tasks: 4, quota: 2 }));
    assert_eq!(state.old_stamp_timeout, 60);
    assert_eq!(state.tmp_counter, 41);
    // Past half a second the rate is estimated: (0 + 82) / 2 = 41, times 0.3 is 12.3.
    let outcome = boxmode_step(&mut state, &tuning, &mut queue, AcceptEvent::WouldBlock { now: 501 });
    assert_eq!(state.req_counter.get_xrps(), 41);
    assert_eq!(outcome.dispatch, Some(Dispatch { tasks: 4, quota: 6 }));
    assert_eq!(state.tmp_counter, 0);
    assert_eq!(state.box_num_per_thread, 3);
    assert_eq!(queue.len(), 41);
}
