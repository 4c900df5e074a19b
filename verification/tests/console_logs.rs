use e2e_harness::console_log::{
    same_logs, ConsoleLog, ConsoleWatch, LogLevel, TableError, CLEAR_SCRIPT, INSTALL_SCRIPT,
    READ_SCRIPT,
};
use e2e_harness::poller::Verdict;

fn row(cells: &[&str]) -> Vec<String> {
    cells.iter().map(|cell| cell.to_string()).collect()
}

#[test]
fn new_lowercases_the_level_and_trims_the_message() {
    let log = ConsoleLog::new("ERROR", "  Failed \n");
    assert_eq!(log.level, "error");
    assert_eq!(log.message, vec!["Failed".to_string()]);
}

#[test]
fn new_keeps_a_plain_entry() {
    let log = ConsoleLog::new("log", "User logged in");
    assert_eq!(
        log,
        ConsoleLog { level: "log".to_string(), message: vec!["User logged in".to_string()] }
    );
}

#[test]
fn captured_parts_are_trimmed_and_the_level_kept() {
    let log = ConsoleLog::from_captured(
        "Warn".to_string(),
        vec![" a ".to_string(), "b".to_string(), "\t".to_string()],
    );
    assert_eq!(log.level, "Warn");
    assert_eq!(log.message, vec!["a".to_string(), "b".to_string(), String::new()]);
}

#[test]
fn captured_entry_without_parts() {
    let log = ConsoleLog::from_captured("log".to_string(), Vec::new());
    assert_eq!(log.message, Vec::<String>::new());
}

#[test]
fn table_rows_become_entries() {
    let rows = vec![row(&[" User logged in ", " LOG "]), row(&["Connection failed", "error", "x"])];
    let logs = ConsoleLog::from_table(&rows).unwrap();
    assert_eq!(
        logs,
        vec![
            ConsoleLog::new("log", "User logged in"),
            ConsoleLog::new("error", "Connection failed"),
        ]
    );
}

#[test]
fn empty_table_gives_no_entries() {
    assert_eq!(ConsoleLog::from_table(&Vec::new()), Ok(Vec::new()));
}

#[test]
fn first_short_row_is_reported() {
    let rows = vec![row(&["a", "log"]), row(&["only"]), row(&[])];
    assert_eq!(ConsoleLog::from_table(&rows), Err(TableError { row: 1, columns: 1 }));
    let rows = vec![row(&[]), row(&["a", "log"])];
    assert_eq!(ConsoleLog::from_table(&rows), Err(TableError { row: 0, columns: 0 }));
}

#[test]
fn same_as_compares_level_and_parts() {
    let a = ConsoleLog::new("log", "A");
    assert!(a.same_as(&ConsoleLog::new("LOG", " A ")));
    assert!(!a.same_as(&ConsoleLog::new("info", "A")));
    assert!(!a.same_as(&ConsoleLog::new("log", "B")));
    let two = ConsoleLog::from_captured("log".to_string(), vec!["A".to_string(), "B".to_string()]);
    assert!(!a.same_as(&two));
    assert!(two.same_as(&two.clone()));
}

#[test]
fn same_logs_is_exact() {
    let a = ConsoleLog::new("log", "A");
    let b = ConsoleLog::new("log", "B");
    assert!(same_logs(&[], &[]));
    assert!(same_logs(&[a.clone()], &[a.clone()]));
    assert!(!same_logs(&[a.clone(), b.clone()], &[a.clone()]));
    assert!(!same_logs(&[a.clone()], &[a.clone(), b.clone()]));
    assert!(!same_logs(&[b.clone(), a.clone()], &[a.clone(), b.clone()]));
    assert!(!same_logs(&[], &[a.clone()]));
    assert!(same_logs(&[a.clone(), b.clone()], &[a, b]));
}

#[test]
fn wait_succeeds_on_exactly_the_expected_entry() {
    let watch = ConsoleWatch::new(vec![ConsoleLog::new("log", "A")], 200);
    let observed = vec![ConsoleLog::new("log", "A")];
    assert_eq!(watch.observe(observed.clone(), 30), Verdict::Satisfied(observed));
}

#[test]
fn wait_times_out_on_an_extra_entry() {
    let watch = ConsoleWatch::new(vec![ConsoleLog::new("log", "A")], 200);
    let observed = vec![ConsoleLog::new("log", "A"), ConsoleLog::new("log", "B")];
    let mut elapsed = 0;
    let mut observations = 0;
    let last = loop {
        observations += 1;
        match watch.observe(observed.clone(), elapsed) {
            Verdict::Satisfied(_) => panic!("a longer console must not match"),
            Verdict::Retry { wait_ms } => {
                assert_eq!(wait_ms, 10);
                elapsed += wait_ms;
            }
            Verdict::TimedOut(last) => break last,
        }
    };
    assert_eq!(elapsed, 200);
    assert_eq!(observations, 21);
    assert_eq!(last, observed);
}

#[test]
fn wait_goes_on_while_the_console_is_empty() {
    let watch = ConsoleWatch::new(vec![ConsoleLog::new("log", "A")], 200);
    assert_eq!(watch.observe(Vec::new(), 0), Verdict::Retry { wait_ms: 10 });
    assert_eq!(watch.observe(Vec::new(), 195), Verdict::Retry { wait_ms: 5 });
    assert_eq!(watch.observe(Vec::new(), 200), Verdict::TimedOut(Vec::new()));
}

#[test]
fn levels_are_parsed_by_name() {
    assert_eq!(LogLevel::parse("log"), Some(LogLevel::Log));
    assert_eq!(LogLevel::parse("info"), Some(LogLevel::Info));
    assert_eq!(LogLevel::parse("warn"), Some(LogLevel::Warn));
    assert_eq!(LogLevel::parse("error"), Some(LogLevel::Error));
    assert_eq!(LogLevel::parse("debug"), Some(LogLevel::Debug));
    assert_eq!(LogLevel::parse("trace"), None);
    assert_eq!(LogLevel::parse("LOG"), None);
    for level in [LogLevel::Log, LogLevel::Info, LogLevel::Warn, LogLevel::Error, LogLevel::Debug] {
        assert_eq!(LogLevel::parse(level.name()), Some(level));
    }
}

#[test]
fn kind_of_an_entry() {
    assert_eq!(ConsoleLog::new("WARN", "x").kind(), Some(LogLevel::Warn));
    assert_eq!(ConsoleLog::new("verbose", "x").kind(), None);
}

#[test]
fn scripts_use_the_storage_key_and_the_guard() {
    assert!(INSTALL_SCRIPT.starts_with("if (!window.__consoleLoggerInstalled__) {"));
    assert!(INSTALL_SCRIPT.contains("window.__consoleLoggerInstalled__ = true;"));
    assert!(INSTALL_SCRIPT.contains("['log', 'info', 'warn', 'error', 'debug']"));
    assert!(INSTALL_SCRIPT.contains("sessionStorage.setItem('__consoleLogs__', JSON.stringify(logs));"));
    assert!(INSTALL_SCRIPT.contains("original.apply(console, args);"));
    assert!(INSTALL_SCRIPT.contains("timestamp: Date.now()"));
    assert_eq!(READ_SCRIPT, "return JSON.parse(sessionStorage.getItem('__consoleLogs__') || '[]');");
    assert_eq!(CLEAR_SCRIPT, "sessionStorage.removeItem('__consoleLogs__');");
}
