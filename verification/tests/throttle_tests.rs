use smpp_loadgen::throttle::SubmitWindow;

#[test]
fn fresh_window_is_empty() {
    let w = SubmitWindow::new(50, 16);
    assert_eq!(w.max_tps, 50);
    assert_eq!(w.max_inflight, 16);
    assert_eq!(w.allowance, 0);
    assert_eq!(w.remainder, 0);
    assert_eq!(w.inflight, 0);
}

#[test]
fn fifty_tps_grants_one_every_other_tick() {
    let mut w = SubmitWindow::new(50, 16);
    let n1 = w.on_tick();
    assert_eq!(n1, 0);
    assert_eq!(w.remainder, 50);
    let n2 = w.on_tick();
    assert_eq!(n2, 1);
    assert_eq!(w.remainder, 0);
    assert_eq!(w.inflight, 1);
}

#[test]
fn one_second_of_ticks_launches_exactly_the_rate() {
    let mut w = SubmitWindow::new(50, 16);
    let mut launched: u64 = 0;
    for _ in 0..100 {
        let n = w.on_tick();
        launched += n as u64;
        // Every submission completes before the next tick.
        for _ in 0..n {
            w.on_completion();
        }
    }
    assert_eq!(launched, 50);
}

#[test]
fn fractional_rates_average_out_over_a_second() {
    let mut w = SubmitWindow::new(105, 1000);
    let mut launched: u64 = 0;
    for _ in 0..100 {
        let n = w.on_tick();
        launched += n as u64;
        for _ in 0..n {
            w.on_completion();
        }
    }
    assert_eq!(launched, 105);
}

#[test]
fn inflight_never_exceeds_the_ceiling() {
    let mut w = SubmitWindow::new(500, 4);
    for tick in 0..50 {
        let n = w.on_tick();
        assert!(w.inflight <= w.max_inflight);
        assert!(n <= 4);
        if tick % 3 == 0 && w.inflight > 0 {
            w.on_completion();
        }
        assert!(w.inflight <= w.max_inflight);
    }
}

#[test]
fn grants_are_held_while_the_window_is_full() {
    let mut w = SubmitWindow::new(200, 2);
    let n = w.on_tick();
    assert_eq!(n, 2);
    assert_eq!(w.inflight, 2);
    assert_eq!(w.allowance, 0);
    let n = w.on_tick();
    assert_eq!(n, 0);
    assert_eq!(w.allowance, 2);
    w.on_completion();
    let n = w.on_tick();
    assert_eq!(n, 1);
    assert_eq!(w.inflight, 2);
    assert_eq!(w.allowance, 3);
}

#[test]
fn cumulative_launches_never_exceed_rate_times_elapsed_plus_window() {
    let mut w = SubmitWindow::new(50, 16);
    let mut cumulative: u64 = 0;
    for tick in 1..=400u64 {
        let n = w.on_tick();
        cumulative += n as u64;
        assert!(cumulative <= (50 * tick) / 100 + 1 + 16);
        // Half of the outstanding submissions complete between ticks.
        for _ in 0..(w.inflight / 2) {
            w.on_completion();
        }
    }
}

#[test]
fn unthrottled_fill_and_refill_keep_the_window_bounded() {
    let mut w = SubmitWindow::new(0, 4);
    let n = w.initial_fill();
    assert_eq!(n, 4);
    assert_eq!(w.inflight, 4);
    w.on_completion();
    assert!(w.refill_one(false));
    assert_eq!(w.inflight, 4);
    w.on_completion();
    assert!(!w.refill_one(true));
    assert_eq!(w.inflight, 3);
    assert!(w.inflight <= w.max_inflight);
}
