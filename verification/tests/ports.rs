use e2e_harness::port::{
    Dispensed, NoPortAvailable, PortFinder, FIRST_PORT, MAX_ATTEMPTS, PORT_LIMIT,
};
use std::cell::Cell;
use std::collections::HashSet;

#[test]
fn range_is_a_thousand_ports_from_8000() {
    assert_eq!(FIRST_PORT, 8000);
    assert_eq!(PORT_LIMIT, 9000);
    assert_eq!(MAX_ATTEMPTS, 1000);
}

#[test]
fn first_candidates_count_up_from_the_lowest_port() {
    let mut finder = PortFinder::new();
    assert_eq!(finder.dispense(), Dispensed::Candidate(8000));
    assert_eq!(finder.dispense(), Dispensed::Candidate(8001));
    assert_eq!(finder.dispense(), Dispensed::Candidate(8002));
}

#[test]
fn cursor_wraps_to_the_lowest_port() {
    let mut finder = PortFinder::new();
    for port in 8000..9000u16 {
        assert_eq!(finder.dispense(), Dispensed::Candidate(port));
    }
    assert_eq!(finder.dispense(), Dispensed::Wrapped);
    assert_eq!(finder.dispense(), Dispensed::Candidate(8000));
    assert_eq!(finder.dispense(), Dispensed::Candidate(8001));
}

#[test]
fn candidates_of_one_round_are_pairwise_distinct() {
    let mut finder = PortFinder::new();
    for _ in 0..357 {
        finder.dispense();
    }
    let mut seen = HashSet::new();
    let mut wraps = 0;
    for _ in 0..1001 {
        match finder.dispense() {
            Dispensed::Candidate(port) => assert!(seen.insert(port)),
            Dispensed::Wrapped => wraps += 1,
        }
    }
    assert_eq!(seen.len(), 1000);
    assert_eq!(wraps, 1);
}

#[test]
fn free_port_is_returned_at_once() {
    let mut finder = PortFinder::new();
    assert_eq!(finder.get_available_port(|_| true), Ok(8000));
    assert_eq!(finder.get_available_port(|_| true), Ok(8001));
}

#[test]
fn acquired_ports_are_distinct_and_were_probed() {
    let mut finder = PortFinder::new();
    let probed = Cell::new(Vec::new());
    let mut acquired = HashSet::new();
    for _ in 0..50 {
        let port = finder
            .get_available_port(|port| {
                let mut ports = probed.take();
                ports.push(port);
                probed.set(ports);
                port % 3 == 0
            })
            .unwrap();
        assert_eq!(port % 3, 0);
        assert!(acquired.insert(port));
        assert_eq!(probed.take().last(), Some(&port));
    }
}

#[test]
fn occupied_ports_are_skipped() {
    let mut finder = PortFinder::new();
    let occupied = [8000u16, 8001, 8003];
    assert_eq!(finder.get_available_port(|port| !occupied.contains(&port)), Ok(8002));
    assert_eq!(finder.get_available_port(|port| !occupied.contains(&port)), Ok(8004));
}

#[test]
fn search_gives_up_after_a_thousand_attempts() {
    let mut finder = PortFinder::new();
    let probes = Cell::new(0u32);
    let result = finder.get_available_port(|_| {
        probes.set(probes.get() + 1);
        false
    });
    assert_eq!(result, Err(NoPortAvailable));
    assert_eq!(probes.get(), 1000);
    probes.set(0);
    let result = finder.get_available_port(|_| {
        probes.set(probes.get() + 1);
        false
    });
    assert_eq!(result, Err(NoPortAvailable));
    assert_eq!(probes.get(), 999);
}

#[test]
fn wrap_counts_as_an_attempt() {
    let mut finder = PortFinder::new();
    for _ in 0..1000 {
        finder.dispense();
    }
    assert_eq!(finder.get_available_port(|port| port == 8998), Ok(8998));
    assert_eq!(finder.dispense(), Dispensed::Candidate(8999));
    assert_eq!(finder.get_available_port(|port| port == 8999), Err(NoPortAvailable));
}

#[test]
fn no_port_message() {
    assert_eq!(
        NoPortAvailable.message(),
        "Could not find available port in range 8000-8999 after 1000 attempts"
    );
}
