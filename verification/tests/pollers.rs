use e2e_harness::poller::{Poller, Verdict, CONSOLE_INTERVAL_MS, REACHABILITY_INTERVAL_MS};

#[test]
fn intervals_of_the_two_waits() {
    assert_eq!(CONSOLE_INTERVAL_MS, 10);
    assert_eq!(REACHABILITY_INTERVAL_MS, 100);
    assert_eq!(Poller::for_console_logs(200), Poller { interval_ms: 10, timeout_ms: 200 });
    assert_eq!(Poller::for_reachability(5000), Poller { interval_ms: 100, timeout_ms: 5000 });
    assert_eq!(Poller::new(7, 9), Poller { interval_ms: 7, timeout_ms: 9 });
}

#[test]
fn condition_that_holds_ends_the_wait() {
    let poller = Poller::for_reachability(1000);
    assert_eq!(poller.judge(0, true, "up"), Verdict::Satisfied("up"));
    assert_eq!(poller.judge(1000, true, "up"), Verdict::Satisfied("up"));
}

#[test]
fn observation_after_the_deadline_comes_too_late() {
    let poller = Poller::for_reachability(1000);
    assert_eq!(poller.judge(1001, true, "up"), Verdict::TimedOut("up"));
    assert_eq!(poller.judge(1001, false, "down"), Verdict::TimedOut("down"));
}

#[test]
fn timeout_carries_the_last_observation() {
    let poller = Poller::for_console_logs(50);
    assert_eq!(poller.judge(50, false, vec![1, 2, 3]), Verdict::TimedOut(vec![1, 2, 3]));
}

#[test]
fn retry_sleeps_for_the_interval() {
    let poller = Poller::for_reachability(1000);
    assert_eq!(poller.judge(0, false, ()), Verdict::Retry { wait_ms: 100 });
    assert_eq!(poller.judge(900, false, ()), Verdict::Retry { wait_ms: 100 });
}

#[test]
fn last_sleep_ends_at_the_deadline() {
    let poller = Poller::for_reachability(1000);
    assert_eq!(poller.judge(950, false, ()), Verdict::Retry { wait_ms: 50 });
    assert_eq!(poller.judge(999, false, ()), Verdict::Retry { wait_ms: 1 });
    assert_eq!(poller.judge(1000, false, ()), Verdict::TimedOut(()));
}

#[test]
fn wait_without_time_observes_once() {
    let poller = Poller::for_console_logs(0);
    assert_eq!(poller.judge(0, true, ()), Verdict::Satisfied(()));
    assert_eq!(poller.judge(0, false, ()), Verdict::TimedOut(()));
}

#[test]
fn wait_is_over_after_a_bounded_number_of_observations() {
    let poller = Poller::new(3, 100);
    let mut elapsed = 0;
    let mut observations = 0;
    loop {
        observations += 1;
        match poller.judge(elapsed, false, ()) {
            Verdict::Retry { wait_ms } => {
                assert!(wait_ms >= 1 && wait_ms <= 3);
                elapsed += wait_ms;
            }
            Verdict::TimedOut(()) => break,
            Verdict::Satisfied(()) => panic!("the condition never held"),
        }
    }
    assert_eq!(elapsed, 100);
    assert_eq!(observations, 35);
}
