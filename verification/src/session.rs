//! What a browser session is asked to do for a navigation, and what a
//! failure of the harness means for the run.

use crate::address::ServerAddr;
use crate::console_log::INSTALL_SCRIPT;
use crate::readiness::ReadinessError;
use vstd::prelude::*;

verus! {

/// A command to the browser session.
#[derive(Debug, Clone, PartialEq, Eq)]
pub enum SessionCommand {
    /// Load the page at the URL.
    Goto { url: String },
    /// Run the script in the page.
    Execute { script: &'static str },
}

/// The commands of a navigation to `path` on the server at `addr`: load the
/// page, then install the console capture, which a fresh page has lost.
pub fn navigation(addr: &ServerAddr, path: &str) -> (commands: Vec<SessionCommand>)
    ensures
        commands@.len() == 2,
        commands@[0] matches SessionCommand::Goto { url } && url@ == addr.url_of(path@),
        commands@[1] matches SessionCommand::Execute { script } && script@ == INSTALL_SCRIPT@,
{
    let mut commands: Vec<SessionCommand> = Vec::new();
    commands.push(SessionCommand::Goto { url: addr.url_for(path) });
    commands.push(SessionCommand::Execute { script: INSTALL_SCRIPT });
    commands
}

/// The failures of the harness.
#[derive(Debug, Clone, Copy, PartialEq, Eq, Structural)]
pub enum Failure {
    /// A process could not be started.
    Spawn,
    /// No port could be found.
    NoPortAvailable,
    /// The driver variable names no supported driver.
    UnsupportedDriver,
    /// The server did not become ready.
    Readiness(ReadinessError),
    /// The browser could not load a page.
    Navigation,
    /// No element matches a locator.
    ElementNotFound,
    /// A script could not be run in the page.
    ScriptExecution,
    /// What a script returned could not be read.
    Deserialization,
    /// A condition did not hold before its deadline.
    PollTimeout,
}

/// What a failure means for the run.
#[derive(Debug, Clone, Copy, PartialEq, Eq, Structural)]
pub enum Consequence {
    /// The whole run ends.
    AbortRun,
    /// The scenario in which the failure occurred has failed; the other
    /// scenarios are run.
    FailScenario,
}

/// Failures of the setup end the run; failures of a step fail its scenario.
pub open spec fn consequence_of(failure: Failure) -> Consequence {
    match failure {
        Failure::Spawn => Consequence::AbortRun,
        Failure::NoPortAvailable => Consequence::AbortRun,
        Failure::UnsupportedDriver => Consequence::AbortRun,
        Failure::Readiness(_) => Consequence::AbortRun,
        Failure::Navigation => Consequence::FailScenario,
        Failure::ElementNotFound => Consequence::FailScenario,
        Failure::ScriptExecution => Consequence::FailScenario,
        Failure::Deserialization => Consequence::FailScenario,
        Failure::PollTimeout => Consequence::FailScenario,
    }
}

impl Failure {
    /// What the failure means for the run.
    pub fn consequence(&self) -> (consequence: Consequence)
        ensures
            consequence == consequence_of(*self),
    {
        match self {
            Failure::Spawn => Consequence::AbortRun,
            Failure::NoPortAvailable => Consequence::AbortRun,
            Failure::UnsupportedDriver => Consequence::AbortRun,
            Failure::Readiness(_) => Consequence::AbortRun,
            Failure::Navigation => Consequence::FailScenario,
            Failure::ElementNotFound => Consequence::FailScenario,
            Failure::ScriptExecution => Consequence::FailScenario,
            Failure::Deserialization => Consequence::FailScenario,
            Failure::PollTimeout => Consequence::FailScenario,
        }
    }
}

} // verus!
