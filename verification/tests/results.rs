use e2e_harness::results::{BenchmarkResults, SummaryRow};
use e2e_harness::stats::Statistics;
use std::time::Duration;

#[test]
fn new_results_are_empty() {
    let results = BenchmarkResults::new(20);
    assert_eq!(results.iteration(), 20);
    assert_eq!(results.benchmark_names(), Vec::<&str>::new());
    assert_eq!(results.get_timings("connect"), None);
    assert_eq!(results.statistics("connect"), None);
    assert_eq!(results.summary(), Vec::new());
}

#[test]
fn timings_are_recorded_in_whole_milliseconds() {
    let mut results = BenchmarkResults::new(1);
    results.add_timing("connect", Duration::from_millis(45));
    results.add_timing("connect", Duration::from_micros(23_999));
    results.add_timing("connect", Duration::from_secs(2));
    assert_eq!(results.get_timings("connect"), Some(&[45u128, 23, 2000][..]));
}

#[test]
fn names_are_created_on_first_use() {
    let mut results = BenchmarkResults::new(2);
    results.add_timing("num", Duration::from_millis(3));
    results.add_timing("connect", Duration::from_millis(5));
    results.add_timing("num", Duration::from_millis(4));
    assert_eq!(results.benchmark_names(), vec!["num", "connect"]);
    assert_eq!(results.get_timings("num"), Some(&[3u128, 4][..]));
    assert_eq!(results.get_timings("connect"), Some(&[5u128][..]));
    assert_eq!(results.get_timings("disconnect"), None);
    assert_eq!(results.get_timings("Num"), None);
    assert_eq!(results.iteration(), 2);
}

#[test]
fn timings_keep_the_order_of_recording() {
    let mut results = BenchmarkResults::new(4);
    for millis in [40u64, 10, 30, 20] {
        results.add_timing(&format!("test_{}", 1), Duration::from_millis(millis));
    }
    assert_eq!(results.get_timings("test_1"), Some(&[40u128, 10, 30, 20][..]));
    let _ = results.statistics("test_1");
    assert_eq!(results.get_timings("test_1"), Some(&[40u128, 10, 30, 20][..]));
}

#[test]
fn statistics_of_a_name() {
    let mut results = BenchmarkResults::new(4);
    for millis in [10u64, 20, 30, 40] {
        results.add_timing("num", Duration::from_millis(millis));
    }
    assert_eq!(
        results.statistics("num"),
        Some(Statistics { avg: 25, min: 10, max: 40, median: 25 })
    );
    assert_eq!(results.statistics("other"), None);
}

#[test]
fn summary_is_ordered_by_name() {
    let mut results = BenchmarkResults::new(2);
    results.add_timing("disconnect", Duration::from_millis(23));
    results.add_timing("connect", Duration::from_millis(45));
    results.add_timing("Zeta", Duration::from_millis(1));
    results.add_timing("connect", Duration::from_millis(47));
    assert_eq!(
        results.summary(),
        vec![
            SummaryRow {
                name: "Zeta".to_string(),
                samples: 1,
                stats: Statistics { avg: 1, min: 1, max: 1, median: 1 },
            },
            SummaryRow {
                name: "connect".to_string(),
                samples: 2,
                stats: Statistics { avg: 46, min: 45, max: 47, median: 46 },
            },
            SummaryRow {
                name: "disconnect".to_string(),
                samples: 1,
                stats: Statistics { avg: 23, min: 23, max: 23, median: 23 },
            },
        ]
    );
    assert_eq!(results.benchmark_names(), vec!["disconnect", "connect", "Zeta"]);
}
