//! Browser console entries: how they are built from test tables and from
//! what the page captured, when two of them are the same, and how a wait for
//! an expected sequence of them is judged.

use crate::poller::{Poller, Verdict};
use crate::text::{lowercase_of, same_text, trim, trimmed};
use vstd::prelude::*;

verus! {

/// Script that installs the capture once per page load. It wraps the five
/// logging methods of the console, appends a record of each call to the
/// session storage of the page and then calls the wrapped method.
pub const INSTALL_SCRIPT: &'static str =
    "if (!window.__consoleLoggerInstalled__) {\n    window.__consoleLoggerInstalled__ = true;\n    if (!sessionStorage.getItem('__consoleLogs__')) {\n        sessionStorage.setItem('__consoleLogs__', JSON.stringify([]));\n    }\n    ['log', 'info', 'warn', 'error', 'debug'].forEach(method => {\n        const original = console[method];\n        console[method] = function(...args) {\n            const logs = JSON.parse(sessionStorage.getItem('__consoleLogs__') || '[]');\n            logs.push({\n                level: method,\n                message: args.map(arg => {\n                    try {\n                        return typeof arg === 'object' ? JSON.stringify(arg) : String(arg);\n                    } catch(e) {\n                        return String(arg);\n                    }\n                }),\n                timestamp: Date.now()\n            });\n            sessionStorage.setItem('__consoleLogs__', JSON.stringify(logs));\n            original.apply(console, args);\n        };\n    });\n}";

/// Script that returns the captured entries as a JSON array.
pub const READ_SCRIPT: &'static str =
    "return JSON.parse(sessionStorage.getItem('__consoleLogs__') || '[]');";

/// Script that forgets the captured entries.
pub const CLEAR_SCRIPT: &'static str = "sessionStorage.removeItem('__consoleLogs__');";

/// The texts of a sequence of strings.
pub open spec fn texts(parts: Seq<String>) -> Seq<Seq<char>> {
    Seq::new(parts.len(), |i: int| parts[i]@)
}

/// What a console entry says: its level and the parts of its message. The
/// time of the call is no part of it.
pub struct LogModel {
    pub level: Seq<char>,
    pub message: Seq<Seq<char>>,
}

/// One captured call of a logging method of the browser console.
#[derive(Debug, Clone, PartialEq, Eq)]
pub struct ConsoleLog {
    /// Name of the logging method, in lowercase.
    pub level: String,
    /// The arguments of the call as texts, each without surrounding
    /// whitespace.
    pub message: Vec<String>,
}

impl View for ConsoleLog {
    type V = LogModel;

    open spec fn view(&self) -> LogModel {
        LogModel { level: self.level@, message: texts(self.message@) }
    }
}

/// What each entry of a sequence says.
pub open spec fn models(logs: Seq<ConsoleLog>) -> Seq<LogModel> {
    Seq::new(logs.len(), |i: int| logs[i]@)
}

/// The entry with one message part that `ConsoleLog::new` builds.
pub open spec fn entry_of(level: Seq<char>, message: Seq<char>) -> LogModel {
    LogModel { level: lowercase_of(level), message: seq![trimmed(message)] }
}

/// The entry that a table row stands for: its first cell is the message,
/// its second the level.
pub open spec fn entry_of_row(row: Seq<String>) -> LogModel {
    entry_of(lowercase_of(trimmed(row[1]@)), trimmed(row[0]@))
}

/// Each part without surrounding whitespace.
pub open spec fn trimmed_parts(parts: Seq<String>) -> Seq<Seq<char>> {
    Seq::new(parts.len(), |i: int| trimmed(parts[i]@))
}

/// A table row that has fewer than the two cells of an entry.
#[derive(Debug, Clone, Copy, PartialEq, Eq, Structural)]
pub struct TableError {
    /// Index of the first such row.
    pub row: usize,
    /// Number of cells it has.
    pub columns: usize,
}

/// The five logging methods that the capture script wraps.
#[derive(Debug, Clone, Copy, PartialEq, Eq, Structural)]
pub enum LogLevel {
    Log,
    Info,
    Warn,
    Error,
    Debug,
}

impl LogLevel {
    /// Name of the logging method.
    pub open spec fn name_of(self) -> Seq<char> {
        match self {
            LogLevel::Log => "log"@,
            LogLevel::Info => "info"@,
            LogLevel::Warn => "warn"@,
            LogLevel::Error => "error"@,
            LogLevel::Debug => "debug"@,
        }
    }

    /// Name of the logging method.
    pub fn name(&self) -> (name: &'static str)
        ensures
            name@ == self.name_of(),
    {
        match self {
            LogLevel::Log => "log",
            LogLevel::Info => "info",
            LogLevel::Warn => "warn",
            LogLevel::Error => "error",
            LogLevel::Debug => "debug",
        }
    }

    /// The logging method of that name, if the name is one of the five.
    pub fn parse(name: &str) -> (level: Option<LogLevel>)
        ensures
            match level {
                Some(found) => name@ == found.name_of(),
                None => forall|any: LogLevel| name@ != any.name_of(),
            },
    {
        if same_text(name, "log") {
            Some(LogLevel::Log)
        } else if same_text(name, "info") {
            Some(LogLevel::Info)
        } else if same_text(name, "warn") {
            Some(LogLevel::Warn)
        } else if same_text(name, "error") {
            Some(LogLevel::Error)
        } else if same_text(name, "debug") {
            Some(LogLevel::Debug)
        } else {
            None
        }
    }
}

/// Whether two message-part lists hold the same texts in the same order.
fn same_parts(left: &Vec<String>, right: &Vec<String>) -> (same: bool)
    ensures
        same == (texts(left@) == texts(right@)),
{
    if left.len() != right.len() {
        assert(texts(left@).len() != texts(right@).len());
        return false;
    }
    let mut i: usize = 0;
    while i < left.len()
        invariant
            i <= left@.len() == right@.len(),
            forall|k: int| 0 <= k < i ==> left@[k]@ == right@[k]@,
        decreases left@.len() - i,
    {
        if !same_text(left[i].as_str(), right[i].as_str()) {
            assert(texts(left@)[i as int] != texts(right@)[i as int]);
            return false;
        }
        i = i + 1;
    }
    assert(texts(left@) =~= texts(right@));
    true
}

impl ConsoleLog {
    /// An entry with one message part. The level is put in lowercase, the
    /// message loses surrounding whitespace.
    pub fn new(level: &str, message: &str) -> (log: ConsoleLog)
        ensures
            log@ == entry_of(level@, message@),
    {
        let mut parts: Vec<String> = Vec::new();
        parts.push(trim(message));
        let log = ConsoleLog { level: level.to_lowercase(), message: parts };
        assert(log@.message =~= seq![trimmed(message@)]);
        log
    }

    /// The entry for a record that the page captured: the level as it was
    /// recorded, each message part without surrounding whitespace.
    pub fn from_captured(level: String, parts: Vec<String>) -> (log: ConsoleLog)
        ensures
            log@.level == level@,
            log@.message == trimmed_parts(parts@),
    {
        let mut message: Vec<String> = Vec::new();
        let mut i: usize = 0;
        while i < parts.len()
            invariant
                i <= parts@.len(),
                message@.len() == i,
                forall|k: int| 0 <= k < i ==> message@[k]@ == trimmed(parts@[k]@),
            decreases parts@.len() - i,
        {
            message.push(trim(parts[i].as_str()));
            i = i + 1;
        }
        let log = ConsoleLog { level, message };
        assert(log@.message =~= trimmed_parts(parts@));
        log
    }

    /// The entries that the rows of a test table stand for, in the order of
    /// the rows. A row needs two cells, message and level; further cells are
    /// not read. The first row with fewer cells is reported.
    pub fn from_table(rows: &Vec<Vec<String>>) -> (result: Result<Vec<ConsoleLog>, TableError>)
        ensures
            match result {
                Ok(logs) => {
                    &&& forall|i: int| 0 <= i < rows@.len() ==> rows@[i]@.len() >= 2
                    &&& logs@.len() == rows@.len()
                    &&& forall|i: int| 0 <= i < rows@.len() ==> logs@[i]@ == entry_of_row(rows@[i]@)
                },
                Err(error) => {
                    &&& error.row < rows@.len()
                    &&& rows@[error.row as int]@.len() < 2
                    &&& error.columns == rows@[error.row as int]@.len()
                    &&& forall|i: int| 0 <= i < error.row ==> rows@[i]@.len() >= 2
                },
            },
    {
        let mut logs: Vec<ConsoleLog> = Vec::new();
        let mut i: usize = 0;
        while i < rows.len()
            invariant
                i <= rows@.len(),
                logs@.len() == i,
                forall|k: int| 0 <= k < i ==> rows@[k]@.len() >= 2,
                forall|k: int| 0 <= k < i ==> logs@[k]@ == entry_of_row(rows@[k]@),
            decreases rows@.len() - i,
        {
            let row = &rows[i];
            if row.len() < 2 {
                return Err(TableError { row: i, columns: row.len() });
            }
            let message = trim(row[0].as_str());
            let cell = trim(row[1].as_str());
            let level = cell.as_str().to_lowercase();
            logs.push(ConsoleLog::new(level.as_str(), message.as_str()));
            i = i + 1;
        }
        Ok(logs)
    }

    /// Whether two entries say the same: same level, same message parts in
    /// the same order.
    pub fn same_as(&self, other: &ConsoleLog) -> (same: bool)
        ensures
            same == (self@ == other@),
    {
        same_text(self.level.as_str(), other.level.as_str()) && same_parts(
            &self.message,
            &other.message,
        )
    }

    /// The logging method that made the entry, if its level names one of the
    /// five.
    pub fn kind(&self) -> (level: Option<LogLevel>)
        ensures
            match level {
                Some(found) => self@.level == found.name_of(),
                None => forall|any: LogLevel| self@.level != any.name_of(),
            },
    {
        LogLevel::parse(self.level.as_str())
    }
}

/// Whether the observed entries are exactly the expected ones: as many, each
/// saying the same as the expected entry in its place.
pub fn same_logs(observed: &[ConsoleLog], expected: &[ConsoleLog]) -> (same: bool)
    ensures
        same == (models(observed@) == models(expected@)),
{
    if observed.len() != expected.len() {
        assert(models(observed@).len() != models(expected@).len());
        return false;
    }
    let mut i: usize = 0;
    while i < observed.len()
        invariant
            i <= observed@.len() == expected@.len(),
            forall|k: int| 0 <= k < i ==> observed@[k]@ == expected@[k]@,
        decreases observed@.len() - i,
    {
        if !observed[i].same_as(&expected[i]) {
            assert(models(observed@)[i as int] != models(expected@)[i as int]);
            return false;
        }
        i = i + 1;
    }
    assert(models(observed@) =~= models(expected@));
    true
}

/// Two sequences of entries match exactly when they are equally long and
/// agree at every place.
pub proof fn lemma_match_is_exact(observed: Seq<ConsoleLog>, expected: Seq<ConsoleLog>)
    ensures
        models(observed) == models(expected) <==> {
            &&& observed.len() == expected.len()
            &&& forall|i: int| 0 <= i < observed.len() ==> observed[i]@ == expected[i]@
        },
{
    if models(observed) == models(expected) {
        assert(models(observed).len() == models(expected).len());
        assert forall|i: int| 0 <= i < observed.len() implies observed[i]@ == expected[i]@ by {
            assert(models(observed)[i] == models(expected)[i]);
        }
    }
    if observed.len() == expected.len() && (forall|i: int|
        0 <= i < observed.len() ==> observed[i]@ == expected[i]@) {
        assert(models(observed) =~= models(expected));
    }
}

/// What was expected followed by anything more is no match, nor is any
/// proper beginning of what was expected.
pub proof fn lemma_prefix_is_no_match(shorter: Seq<ConsoleLog>, longer: Seq<ConsoleLog>)
    requires
        shorter.len() < longer.len(),
    ensures
        models(shorter) != models(longer),
        models(longer) != models(shorter),
{
    assert(models(shorter).len() != models(longer).len());
}

/// A wait for the console to show exactly the expected entries.
pub struct ConsoleWatch {
    /// The entries that must be all there is in the console.
    pub expected: Vec<ConsoleLog>,
    /// Rhythm and deadline of the wait.
    pub poller: Poller,
}

impl ConsoleWatch {
    /// A wait of at most `timeout_ms` milliseconds that reads the console
    /// every ten milliseconds.
    pub fn new(expected: Vec<ConsoleLog>, timeout_ms: u64) -> (watch: ConsoleWatch)
        ensures
            watch.expected == expected,
            watch.poller.interval_ms == crate::poller::CONSOLE_INTERVAL_MS,
            watch.poller.timeout_ms == timeout_ms,
    {
        ConsoleWatch { expected, poller: Poller::for_console_logs(timeout_ms) }
    }

    /// Judges what the console held `elapsed_ms` after the wait began. The
    /// wait is satisfied only by exactly the expected entries; a timeout
    /// hands back what was last observed.
    pub fn observe(&self, observed: Vec<ConsoleLog>, elapsed_ms: u64) -> (verdict: Verdict<
        Vec<ConsoleLog>,
    >)
        ensures
            verdict == self.poller.verdict(
                elapsed_ms,
                models(observed@) == models(self.expected@),
                observed,
            ),
    {
        let holds = same_logs(observed.as_slice(), self.expected.as_slice());
        self.poller.judge(elapsed_ms, holds, observed)
    }
}

} // verus!
