//! Bringing up the server under test: the build step that precedes it, the
//! address it is given, and what the harness does once the wait for its
//! readiness has ended.

use crate::address::ServerAddr;
use crate::readiness::{ReadinessError, ReadinessGate};
use crate::text::{decimal, decimal_text, signed_decimal, signed_decimal_text, trim, trimmed};
use vstd::prelude::*;

verus! {

/// The program that builds the frontend.
pub const BUILD_PROGRAM: &'static str = "cargo";

/// The build step ended without success.
#[derive(Debug, Clone, PartialEq, Eq)]
pub struct BuildFailure {
    /// Exit code of the build, if it ended with one.
    pub exit_code: Option<i32>,
    /// What the build wrote to its error stream, without surrounding
    /// whitespace.
    pub stderr: String,
    /// What the build wrote to its output stream, without surrounding
    /// whitespace.
    pub stdout: String,
}

/// An exit code as it is shown in a failure message.
pub open spec fn exit_code_text(exit_code: Option<i32>) -> Seq<char> {
    match exit_code {
        Some(code) => "Some("@ + signed_decimal(code as int) + ")"@,
        None => "None"@,
    }
}

impl BuildFailure {
    /// The failure in words.
    pub open spec fn message_of(self) -> Seq<char> {
        "`cargo leptos build` failed\nExit code: "@ + exit_code_text(self.exit_code)
            + "\nStderr: "@ + self.stderr@ + "\nStdout: "@ + self.stdout@
    }

    /// The failure in words.
    pub fn message(&self) -> (text: String)
        ensures
            text@ == self.message_of(),
    {
        let mut text = "`cargo leptos build` failed\nExit code: ".to_owned();
        match self.exit_code {
            Some(code) => {
                text.append("Some(");
                text.append(signed_decimal_text(code).as_str());
                text.append(")");
                assert(text@ == "`cargo leptos build` failed\nExit code: "@ + ("Some("@
                    + signed_decimal(code as int) + ")"@));
            },
            None => {
                text.append("None");
            },
        }
        text.append("\nStderr: ");
        text.append(self.stderr.as_str());
        text.append("\nStdout: ");
        text.append(self.stdout.as_str());
        text
    }
}

/// Why the server did not become ready.
#[derive(Debug, Clone, Copy, PartialEq, Eq, Structural)]
pub enum StartupError {
    /// The server task ended before it signaled readiness.
    Crashed,
    /// The server did not signal readiness within the given seconds.
    TimedOut { seconds: u64 },
}

impl StartupError {
    /// The failure in words.
    pub open spec fn message_of(self) -> Seq<char> {
        match self {
            StartupError::Crashed => "Server crashed before becoming ready"@,
            StartupError::TimedOut { seconds } => "Server failed to start within "@ + decimal(
                seconds as nat,
            ) + " seconds"@,
        }
    }

    /// The failure in words.
    pub fn message(&self) -> (text: String)
        ensures
            text@ == self.message_of(),
    {
        match self {
            StartupError::Crashed => "Server crashed before becoming ready".to_owned(),
            StartupError::TimedOut { seconds } => {
                let mut text = "Server failed to start within ".to_owned();
                text.append(decimal_text(*seconds as u128).as_str());
                text.append(" seconds");
                text
            },
        }
    }
}

/// What the harness does when the wait for readiness has ended.
#[derive(Debug, Clone, Copy, PartialEq, Eq)]
pub struct StartupVerdict {
    /// Whether the task that runs the server must be aborted.
    pub abort_server: bool,
    /// What the caller is told.
    pub result: Result<(), StartupError>,
}

/// The verdict that follows from how the wait ended: a ready server is left
/// running, any other is aborted and the failure reported.
pub open spec fn verdict_of(outcome: Result<(), ReadinessError>, timeout_secs: u64)
    -> StartupVerdict {
    match outcome {
        Ok(()) => StartupVerdict { abort_server: false, result: Ok(()) },
        Err(ReadinessError::Abandoned) => StartupVerdict {
            abort_server: true,
            result: Err(StartupError::Crashed),
        },
        Err(ReadinessError::Timeout) => StartupVerdict {
            abort_server: true,
            result: Err(StartupError::TimedOut { seconds: timeout_secs }),
        },
    }
}

/// The milliseconds of a timeout given in seconds, or the largest number of
/// milliseconds there is if the seconds are more than that.
pub open spec fn millis_of_secs(timeout_secs: u64) -> u64 {
    if timeout_secs * 1000 > u64::MAX {
        u64::MAX
    } else {
        (timeout_secs * 1000) as u64
    }
}

/// Brings up the server under test.
#[derive(Debug, Clone, Copy, PartialEq, Eq, Structural)]
pub struct LeptosServer;

impl LeptosServer {
    /// The arguments of the build step: an optimised build of the frontend
    /// alone, with code splitting.
    pub fn build_arguments() -> (arguments: Vec<&'static str>)
        ensures
            arguments@.len() == 5,
            arguments@[0]@ == "leptos"@,
            arguments@[1]@ == "build"@,
            arguments@[2]@ == "--split"@,
            arguments@[3]@ == "--frontend-only"@,
            arguments@[4]@ == "--release"@,
    {
        let mut arguments: Vec<&'static str> = Vec::new();
        arguments.push("leptos");
        arguments.push("build");
        arguments.push("--split");
        arguments.push("--frontend-only");
        arguments.push("--release");
        arguments
    }

    /// Judges the build step by its exit status. A failure keeps the exit
    /// code and what the build wrote, without surrounding whitespace.
    pub fn check_build(success: bool, exit_code: Option<i32>, stderr: &str, stdout: &str) -> (result:
        Result<(), BuildFailure>)
        ensures
            result is Ok <==> success,
            result matches Err(failure) ==> {
                &&& failure.exit_code == exit_code
                &&& failure.stderr@ == trimmed(stderr@)
                &&& failure.stdout@ == trimmed(stdout@)
            },
    {
        if success {
            Ok(())
        } else {
            Err(BuildFailure { exit_code, stderr: trim(stderr), stdout: trim(stdout) })
        }
    }

    /// The address that the server is told to bind: the given port on the
    /// loopback host.
    pub fn bind_address(port: u16) -> (addr: ServerAddr)
        ensures
            addr == (ServerAddr { a: 127, b: 0, c: 0, d: 1, port }),
    {
        ServerAddr::loopback(port)
    }

    /// The length in milliseconds of a wait of `timeout_secs` seconds.
    pub fn timeout_ms(timeout_secs: u64) -> (millis: u64)
        ensures
            millis == millis_of_secs(timeout_secs),
    {
        if timeout_secs > u64::MAX / 1000 {
            u64::MAX
        } else {
            timeout_secs * 1000
        }
    }

    /// Looks at the readiness of the server `elapsed_ms` into a wait of
    /// `timeout` seconds. While the wait goes on there is no verdict; once
    /// it has ended, the verdict says whether the server task is aborted and
    /// what the caller is told.
    pub fn serve_and_wait(gate: &mut ReadinessGate, elapsed_ms: u64, timeout: u64) -> (verdict:
        Option<StartupVerdict>)
        ensures
            *final(gate) == old(gate).after_wait(elapsed_ms, millis_of_secs(timeout)),
            verdict == match final(gate).outcome {
                Some(outcome) => Some(verdict_of(outcome, timeout)),
                None => None,
            },
    {
        match gate.wait(elapsed_ms, LeptosServer::timeout_ms(timeout)) {
            Some(outcome) => Some(LeptosServer::startup_verdict(outcome, timeout)),
            None => None,
        }
    }

    /// Decides what follows the wait for readiness.
    pub fn startup_verdict(outcome: Result<(), ReadinessError>, timeout_secs: u64) -> (verdict:
        StartupVerdict)
        ensures
            verdict == verdict_of(outcome, timeout_secs),
    {
        match outcome {
            Ok(()) => StartupVerdict { abort_server: false, result: Ok(()) },
            Err(ReadinessError::Abandoned) => StartupVerdict {
                abort_server: true,
                result: Err(StartupError::Crashed),
            },
            Err(ReadinessError::Timeout) => StartupVerdict {
                abort_server: true,
                result: Err(StartupError::TimedOut { seconds: timeout_secs }),
            },
        }
    }
}

/// The server task is aborted exactly when the caller is told of a failure:
/// no failed start leaves a server running.
pub proof fn lemma_failed_start_aborts(outcome: Result<(), ReadinessError>, timeout_secs: u64)
    ensures
        verdict_of(outcome, timeout_secs).abort_server <==> verdict_of(
            outcome,
            timeout_secs,
        ).result is Err,
        verdict_of(outcome, timeout_secs).result is Ok <==> outcome is Ok,
{
}

} // verus!
