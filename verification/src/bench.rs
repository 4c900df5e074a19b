//! The trials of a benchmark run: which button is pressed, which console
//! entries show that the effect has taken place, and how long the harness
//! waits for them.

use crate::console_log::{entry_of, models, ConsoleLog};
use crate::text::{decimal, decimal_text, same_text};
use vstd::prelude::*;

verus! {

/// Name under which the timings of the counter button are recorded.
pub const COUNTER_BENCHMARK: &'static str = "num";

/// Name under which the timings of connecting are recorded.
pub const CONNECT_BENCHMARK: &'static str = "connect";

/// Name under which the timings of disconnecting are recorded.
pub const DISCONNECT_BENCHMARK: &'static str = "disconnect";

/// Milliseconds to wait for the counter to report its new value.
pub const COUNTER_TIMEOUT_MS: u64 = 1000;

/// Milliseconds to wait for a connection to open or to close.
pub const CONNECTION_TIMEOUT_MS: u64 = 5000;

/// What the command line of the benchmark holds.
#[derive(Debug, Clone, Copy, PartialEq, Eq, Structural)]
pub struct Cli {
    /// Number of iterations to run for each benchmark.
    pub iteration: usize,
}

/// Which application the benchmark drives.
#[derive(Debug, Clone, Copy, PartialEq, Eq, Structural)]
pub enum BenchmarkMode {
    /// The page with a button that counts its clicks.
    Counter,
    /// The page with a button that opens and closes a WebSocket connection.
    WebSocket,
}

/// One measured interaction: press the button with the given label, then
/// wait until the console holds exactly the expected entries.
#[derive(Debug, Clone, PartialEq, Eq)]
pub struct Trial {
    /// Name under which the timing is recorded.
    pub name: &'static str,
    /// Text that the button must show before it is pressed.
    pub button: String,
    /// The console entries that end the measurement.
    pub expected: Vec<ConsoleLog>,
    /// Milliseconds after which the wait for the entries is given up.
    pub timeout_ms: u64,
}

/// What a trial is, in the terms of its contract.
pub struct TrialModel {
    pub name: Seq<char>,
    pub button: Seq<char>,
    pub expected: Seq<crate::console_log::LogModel>,
    pub timeout_ms: u64,
}

impl View for Trial {
    type V = TrialModel;

    open spec fn view(&self) -> TrialModel {
        TrialModel {
            name: self.name@,
            button: self.button@,
            expected: models(self.expected@),
            timeout_ms: self.timeout_ms,
        }
    }
}

/// The trial on the counter button in iteration `i`, counted from one: the
/// button shows the count of the clicks so far, and the page logs the new
/// count.
pub open spec fn counter_trial(i: nat) -> TrialModel {
    TrialModel {
        name: COUNTER_BENCHMARK@,
        button: "Click Me: "@ + decimal((i - 1) as nat),
        expected: seq![entry_of("log"@, "Update num: "@ + decimal(i))],
        timeout_ms: COUNTER_TIMEOUT_MS,
    }
}

/// The trial that opens the connection.
pub open spec fn connect_trial() -> TrialModel {
    TrialModel {
        name: CONNECT_BENCHMARK@,
        button: "Connect"@,
        expected: seq![entry_of("log"@, "Received: FrontendResponse::HandshakeResponse"@)],
        timeout_ms: CONNECTION_TIMEOUT_MS,
    }
}

/// The trial that closes the connection.
pub open spec fn disconnect_trial() -> TrialModel {
    TrialModel {
        name: DISCONNECT_BENCHMARK@,
        button: "Disconnect"@,
        expected: seq![
            entry_of("error"@, "WebSocket Closed: code: 1005, reason:"@),
            entry_of(
                "error"@,
                "error: error reaching server to call server function: WebSocket Closed: code: 1005, reason:"@,
            ),
        ],
        timeout_ms: CONNECTION_TIMEOUT_MS,
    }
}

/// The trials of iteration `i` in the order in which they are run.
pub open spec fn trials_of(mode: BenchmarkMode, i: nat) -> Seq<TrialModel> {
    match mode {
        BenchmarkMode::Counter => seq![counter_trial(i)],
        BenchmarkMode::WebSocket => seq![connect_trial(), disconnect_trial()],
    }
}

/// The button shows another text than the trial expects.
#[derive(Debug, Clone, PartialEq, Eq)]
pub struct ButtonMismatch {
    /// The text that was expected.
    pub expected: String,
    /// The text that the button shows.
    pub actual: String,
}

impl ButtonMismatch {
    /// The failure in words.
    pub open spec fn message_of(self) -> Seq<char> {
        "Expected button text '"@ + self.expected@ + "', found '"@ + self.actual@ + "'"@
    }

    /// The failure in words.
    pub fn message(&self) -> (text: String)
        ensures
            text@ == self.message_of(),
    {
        let mut text = "Expected button text '".to_owned();
        text.append(self.expected.as_str());
        text.append("', found '");
        text.append(self.actual.as_str());
        text.append("'");
        text
    }
}

/// A benchmark run of a number of iterations.
#[derive(Debug, Clone, Copy, PartialEq, Eq, Structural)]
pub struct Benchmarks {
    /// The application that is driven.
    pub mode: BenchmarkMode,
    /// Number of iterations, counted from one.
    pub iteration: usize,
}

impl Benchmarks {
    /// A run of `iteration` iterations.
    pub fn new(mode: BenchmarkMode, iteration: usize) -> (run: Self)
        ensures
            run == (Benchmarks { mode, iteration }),
    {
        Benchmarks { mode, iteration }
    }

    /// The trial that opens the connection.
    pub fn benchmark_connect() -> (trial: Trial)
        ensures
            trial@ == connect_trial(),
    {
        let mut expected: Vec<ConsoleLog> = Vec::new();
        expected.push(ConsoleLog::new("log", "Received: FrontendResponse::HandshakeResponse"));
        let trial = Trial {
            name: CONNECT_BENCHMARK,
            button: "Connect".to_owned(),
            expected,
            timeout_ms: CONNECTION_TIMEOUT_MS,
        };
        assert(trial@.expected =~= connect_trial().expected);
        trial
    }

    /// The trial that closes the connection.
    pub fn benchmark_disconnect() -> (trial: Trial)
        ensures
            trial@ == disconnect_trial(),
    {
        let mut expected: Vec<ConsoleLog> = Vec::new();
        expected.push(ConsoleLog::new("error", "WebSocket Closed: code: 1005, reason:"));
        expected.push(
            ConsoleLog::new(
                "error",
                "error: error reaching server to call server function: WebSocket Closed: code: 1005, reason:",
            ),
        );
        let trial = Trial {
            name: DISCONNECT_BENCHMARK,
            button: "Disconnect".to_owned(),
            expected,
            timeout_ms: CONNECTION_TIMEOUT_MS,
        };
        assert(trial@.expected =~= disconnect_trial().expected);
        trial
    }

    /// The trial on the counter button in iteration `i`. Iterations are
    /// counted from one.
    pub fn benchmark_num_button(i: usize) -> (trial: Trial)
        requires
            i >= 1,
        ensures
            trial@ == counter_trial(i as nat),
    {
        let mut button = "Click Me: ".to_owned();
        button.append(decimal_text((i - 1) as u128).as_str());
        let mut message = "Update num: ".to_owned();
        message.append(decimal_text(i as u128).as_str());
        let mut expected: Vec<ConsoleLog> = Vec::new();
        expected.push(ConsoleLog::new("log", message.as_str()));
        let trial = Trial {
            name: COUNTER_BENCHMARK,
            button,
            expected,
            timeout_ms: COUNTER_TIMEOUT_MS,
        };
        assert(trial@.expected =~= counter_trial(i as nat).expected);
        trial
    }

    /// The trials of iteration `i`, in the order in which they are run, or
    /// none if the run has no such iteration.
    pub fn trials(&self, i: usize) -> (trials: Vec<Trial>)
        ensures
            trials_in(trials@) == if 1 <= i <= self.iteration {
                trials_of(self.mode, i as nat)
            } else {
                Seq::empty()
            },
    {
        let mut trials: Vec<Trial> = Vec::new();
        if 1 <= i && i <= self.iteration {
            match self.mode {
                BenchmarkMode::Counter => {
                    trials.push(Benchmarks::benchmark_num_button(i));
                },
                BenchmarkMode::WebSocket => {
                    trials.push(Benchmarks::benchmark_connect());
                    trials.push(Benchmarks::benchmark_disconnect());
                },
            }
            assert(trials_in(trials@) =~= trials_of(self.mode, i as nat));
        } else {
            assert(trials_in(trials@) =~= Seq::<TrialModel>::empty());
        }
        trials
    }

    /// Checks that the button shows the text that a trial expects.
    pub fn check_button_text(actual: &str, expected: &str) -> (result: Result<(), ButtonMismatch>)
        ensures
            result is Ok <==> actual@ == expected@,
            result matches Err(mismatch) ==> mismatch.expected@ == expected@ && mismatch.actual@
                == actual@,
    {
        if same_text(actual, expected) {
            Ok(())
        } else {
            Err(ButtonMismatch { expected: expected.to_owned(), actual: actual.to_owned() })
        }
    }
}

/// What each trial of a sequence is.
pub open spec fn trials_in(trials: Seq<Trial>) -> Seq<TrialModel> {
    Seq::new(trials.len(), |k: int| trials[k]@)
}

} // verus!
