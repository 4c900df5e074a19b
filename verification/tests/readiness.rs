use e2e_harness::readiness::{ProducerStatus, ReadinessError, ReadinessGate, ReadinessState};

#[test]
fn new_gate_is_pending() {
    let gate = ReadinessGate::new();
    assert_eq!(gate.state(), ReadinessState::Pending);
    assert!(!gate.is_settled());
    assert_eq!(gate.producer, ProducerStatus::Running);
}

#[test]
fn silent_producer_times_out_at_the_deadline() {
    let mut gate = ReadinessGate::new();
    assert_eq!(gate.wait(0, 100), None);
    assert_eq!(gate.wait(50, 100), None);
    assert_eq!(gate.wait(99, 100), None);
    assert_eq!(gate.state(), ReadinessState::Pending);
    assert_eq!(gate.wait(100, 100), Some(Err(ReadinessError::Timeout)));
    assert_eq!(gate.state(), ReadinessState::TimedOut);
    assert!(gate.is_settled());
}

#[test]
fn ended_producer_abandons_before_the_deadline() {
    let mut gate = ReadinessGate::new();
    assert_eq!(gate.wait(10, 100), None);
    gate.producer_ended();
    assert_eq!(gate.producer, ProducerStatus::Gone);
    assert_eq!(gate.wait(20, 100), Some(Err(ReadinessError::Abandoned)));
    assert_eq!(gate.state(), ReadinessState::Abandoned);
}

#[test]
fn ended_producer_abandons_after_the_deadline_too() {
    let mut gate = ReadinessGate::new();
    gate.producer_ended();
    assert_eq!(gate.wait(500, 100), Some(Err(ReadinessError::Abandoned)));
}

#[test]
fn signal_releases_the_consumer() {
    let mut gate = ReadinessGate::new();
    gate.signal();
    assert_eq!(gate.state(), ReadinessState::Pending);
    assert_eq!(gate.wait(5, 100), Some(Ok(())));
    assert_eq!(gate.state(), ReadinessState::Signaled);
}

#[test]
fn signal_counts_even_at_the_deadline() {
    let mut gate = ReadinessGate::new();
    gate.signal();
    assert_eq!(gate.wait(100, 100), Some(Ok(())));
}

#[test]
fn producer_that_ends_after_its_signal_has_signaled() {
    let mut gate = ReadinessGate::new();
    gate.signal();
    gate.producer_ended();
    assert_eq!(gate.producer, ProducerStatus::Signaled);
    assert_eq!(gate.wait(1, 100), Some(Ok(())));
}

#[test]
fn settled_gate_keeps_its_outcome() {
    let mut gate = ReadinessGate::new();
    assert_eq!(gate.wait(100, 100), Some(Err(ReadinessError::Timeout)));
    gate.signal();
    assert_eq!(gate.wait(101, 100), Some(Err(ReadinessError::Timeout)));
    assert_eq!(gate.wait(0, 100), Some(Err(ReadinessError::Timeout)));
    assert_eq!(gate.state(), ReadinessState::TimedOut);

    let mut gate = ReadinessGate::new();
    gate.signal();
    assert_eq!(gate.wait(1, 100), Some(Ok(())));
    gate.producer_ended();
    assert_eq!(gate.wait(1000, 100), Some(Ok(())));
}

#[test]
fn wait_without_time_times_out_at_once() {
    let mut gate = ReadinessGate::new();
    assert_eq!(gate.wait(0, 0), Some(Err(ReadinessError::Timeout)));
}
