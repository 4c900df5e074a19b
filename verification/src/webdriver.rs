//! The browser driver of a session: which of the two supported drivers is
//! started, how it is started and reached, and the steps by which a session
//! comes about. A driver process that was started is never left running by
//! a session that failed or was closed.

use crate::text::{decimal, decimal_text, lowercase_of, same_text};
use vstd::prelude::*;

verus! {

/// Name of the environment variable that selects the driver.
pub const DRIVER_VARIABLE: &'static str = "WEBDRIVER";

/// The supported drivers.
#[derive(Debug, Clone, Copy, PartialEq, Eq, Structural)]
pub enum DriverKind {
    /// The driver of the Chromium family.
    Chrome,
    /// The driver of Firefox.
    Gecko,
}

/// The driver variable holds a value that names no supported driver.
#[derive(Debug, Clone, PartialEq, Eq)]
pub struct UnsupportedDriver {
    /// The value, in lowercase.
    pub value: String,
}

impl UnsupportedDriver {
    /// The failure in words.
    pub open spec fn message_of(self) -> Seq<char> {
        "Invalid WEBDRIVER value: `"@ + self.value@ + "`"@
    }

    /// The failure in words.
    pub fn message(&self) -> (text: String)
        ensures
            text@ == self.message_of(),
    {
        let mut text = "Invalid WEBDRIVER value: `".to_owned();
        text.append(self.value.as_str());
        text.append("`");
        text
    }
}

/// The driver that a value of the driver variable selects, or the value in
/// lowercase if it selects none. Letter case does not matter, and without a
/// value the Chromium driver is taken.
pub open spec fn selected(value: Option<Seq<char>>) -> Result<DriverKind, Seq<char>> {
    match value {
        None => Ok(DriverKind::Chrome),
        Some(given) => {
            let name = lowercase_of(given);
            if name == "chromedriver"@ || name == "chrome"@ {
                Ok(DriverKind::Chrome)
            } else if name == "geckodriver"@ || name == "gecko"@ {
                Ok(DriverKind::Gecko)
            } else {
                Err(name)
            }
        },
    }
}

/// The value of an optional text.
pub open spec fn text_of(value: Option<&str>) -> Option<Seq<char>> {
    match value {
        Some(given) => Some(given@),
        None => None,
    }
}

impl DriverKind {
    /// Selects the driver from the value of the driver variable, `None` if
    /// the variable is not set.
    pub fn from_env(value: Option<&str>) -> (result: Result<DriverKind, UnsupportedDriver>)
        ensures
            match result {
                Ok(kind) => selected(text_of(value)) == Ok::<DriverKind, Seq<char>>(kind),
                Err(unsupported) => selected(text_of(value)) == Err::<DriverKind, Seq<char>>(
                    unsupported.value@,
                ),
            },
    {
        match value {
            None => Ok(DriverKind::Chrome),
            Some(given) => {
                let name = given.to_lowercase();
                if same_text(name.as_str(), "chromedriver") || same_text(name.as_str(), "chrome") {
                    Ok(DriverKind::Chrome)
                } else if same_text(name.as_str(), "geckodriver") || same_text(
                    name.as_str(),
                    "gecko",
                ) {
                    Ok(DriverKind::Gecko)
                } else {
                    Err(UnsupportedDriver { value: name })
                }
            },
        }
    }

    /// Name of the driver's executable.
    pub open spec fn program_of(self) -> Seq<char> {
        match self {
            DriverKind::Chrome => "chromedriver"@,
            DriverKind::Gecko => "geckodriver"@,
        }
    }

    /// Name of the driver's executable.
    pub fn program(&self) -> (name: &'static str)
        ensures
            name@ == self.program_of(),
    {
        match self {
            DriverKind::Chrome => "chromedriver",
            DriverKind::Gecko => "geckodriver",
        }
    }

    /// Milliseconds that the driver is given after its start before a
    /// client connects to it.
    pub open spec fn settle_ms_of(self) -> u64 {
        match self {
            DriverKind::Chrome => 500,
            DriverKind::Gecko => 0,
        }
    }

    /// Milliseconds that the driver is given after its start before a
    /// client connects to it.
    pub fn settle_ms(&self) -> (wait_ms: u64)
        ensures
            wait_ms == self.settle_ms_of(),
    {
        match self {
            DriverKind::Chrome => 500,
            DriverKind::Gecko => 0,
        }
    }

    /// The capabilities asked of the browser, as JSON: a headless browser,
    /// and for the Chromium driver the collection of browser and performance
    /// logs.
    pub open spec fn capabilities_of(self) -> Seq<char> {
        match self {
            DriverKind::Chrome =>
                "{\"goog:loggingPrefs\":{\"browser\":\"ALL\",\"performance\":\"ALL\"},\"browserName\":\"chrome\",\"goog:chromeOptions\":{\"args\":[\"--headless\"]}}"@,
            DriverKind::Gecko =>
                "{\"moz:firefoxOptions\":{\"args\":[\"--headless\",\"-headless\"]}}"@,
        }
    }

    /// The capabilities asked of the browser, as JSON.
    pub fn capabilities(&self) -> (json: &'static str)
        ensures
            json@ == self.capabilities_of(),
    {
        match self {
            DriverKind::Chrome =>
                "{\"goog:loggingPrefs\":{\"browser\":\"ALL\",\"performance\":\"ALL\"},\"browserName\":\"chrome\",\"goog:chromeOptions\":{\"args\":[\"--headless\"]}}",
            DriverKind::Gecko =>
                "{\"moz:firefoxOptions\":{\"args\":[\"--headless\",\"-headless\"]}}",
        }
    }
}

/// The argument that tells a driver its port.
pub open spec fn port_argument_of(port: u16) -> Seq<char> {
    "--port="@ + decimal(port as nat)
}

/// The URL under which a driver on this machine is reached.
pub open spec fn endpoint_of(port: u16) -> Seq<char> {
    "http://localhost:"@ + decimal(port as nat)
}

/// The argument that tells a driver its port.
pub fn port_argument(port: u16) -> (argument: String)
    ensures
        argument@ == port_argument_of(port),
{
    let mut argument = "--port=".to_owned();
    argument.append(decimal_text(port as u128).as_str());
    argument
}

/// The URL under which a driver on this machine is reached.
pub fn endpoint(port: u16) -> (url: String)
    ensures
        url@ == endpoint_of(port),
{
    let mut url = "http://localhost:".to_owned();
    url.append(decimal_text(port as u128).as_str());
    url
}

/// Where the making of a session stands.
#[derive(Debug, Clone, Copy, PartialEq, Eq, Structural)]
pub enum SetupStage {
    /// A port for the driver is being looked for.
    AcquiringPort,
    /// The driver process is being started on the port.
    Spawning { port: u16 },
    /// The driver runs and is given time before the client connects.
    Settling { port: u16 },
    /// The client is connecting to the driver.
    Connecting { port: u16 },
    /// The session stands: the driver runs and the client is connected.
    Ready { port: u16 },
    /// The session could not be made.
    Failed,
    /// The session was closed.
    Closed,
}

/// What the outside reports back after it has carried out an action.
#[derive(Debug, Clone, Copy, PartialEq, Eq, Structural)]
pub enum SetupEvent {
    /// A port was found.
    PortAcquired(u16),
    /// No port could be found.
    NoPort,
    /// The driver process runs.
    Spawned,
    /// The driver process could not be started.
    SpawnFailed,
    /// The time given to the driver has passed.
    Settled,
    /// The client is connected.
    Connected,
    /// The client could not connect.
    ConnectFailed,
}

/// Why a session could not be made.
#[derive(Debug, Clone, Copy, PartialEq, Eq, Structural)]
pub enum SetupFailure {
    /// No port could be found for the driver.
    NoPortAvailable,
    /// The driver process could not be started.
    SpawnError,
    /// The client could not connect to the driver.
    ConnectError,
    /// An event was reported that the stage does not wait for.
    OutOfTurn,
}

/// What the outside is to do next.
#[derive(Debug, Clone, Copy, PartialEq, Eq, Structural)]
pub enum SetupAction {
    /// Look for a port.
    AcquirePort,
    /// Start the driver process on the port, its output discarded.
    Spawn { port: u16 },
    /// Wait for the given milliseconds.
    Settle { wait_ms: u64 },
    /// Connect the client to the driver on the port.
    Connect { port: u16 },
    /// Nothing: the session stands.
    Finish,
    /// Report the failure; no driver process runs.
    Fail(SetupFailure),
    /// End the driver process and wait for its end, then report the failure.
    KillDriverAndFail(SetupFailure),
}

/// The making of one session and the driver process that belongs to it.
#[derive(Debug, Clone, Copy, PartialEq, Eq, Structural)]
pub struct SessionSetup {
    /// The driver that the session uses.
    pub kind: DriverKind,
    /// Where the making of the session stands.
    pub stage: SetupStage,
    /// Whether a driver process runs that belongs to the session.
    pub driver_running: bool,
}

impl SessionSetup {
    /// A driver process runs exactly in the stages that follow its start
    /// and precede failure and closing.
    pub open spec fn consistent(self) -> bool {
        self.driver_running <==> (self.stage is Settling || self.stage is Connecting
            || self.stage is Ready)
    }

    /// The failure that the stage meets with the event, if the event is not
    /// one that lets the session proceed.
    pub open spec fn failure_of(stage: SetupStage, event: SetupEvent) -> SetupFailure {
        match (stage, event) {
            (SetupStage::AcquiringPort, SetupEvent::NoPort) => SetupFailure::NoPortAvailable,
            (SetupStage::Spawning { .. }, SetupEvent::SpawnFailed) => SetupFailure::SpawnError,
            (SetupStage::Connecting { .. }, SetupEvent::ConnectFailed) => SetupFailure::ConnectError,
            _ => SetupFailure::OutOfTurn,
        }
    }

    /// The stage that follows if the event lets the session proceed.
    pub open spec fn next_stage(self, event: SetupEvent) -> Option<SetupStage> {
        match (self.stage, event) {
            (SetupStage::AcquiringPort, SetupEvent::PortAcquired(port)) => Some(
                SetupStage::Spawning { port },
            ),
            (SetupStage::Spawning { port }, SetupEvent::Spawned) => if self.kind.settle_ms_of()
                > 0 {
                Some(SetupStage::Settling { port })
            } else {
                Some(SetupStage::Connecting { port })
            },
            (SetupStage::Settling { port }, SetupEvent::Settled) => Some(
                SetupStage::Connecting { port },
            ),
            (SetupStage::Connecting { port }, SetupEvent::Connected) => Some(
                SetupStage::Ready { port },
            ),
            _ => None,
        }
    }

    /// The action with which a stage is entered.
    pub open spec fn entry_action(self, stage: SetupStage) -> SetupAction {
        match stage {
            SetupStage::AcquiringPort => SetupAction::AcquirePort,
            SetupStage::Spawning { port } => SetupAction::Spawn { port },
            SetupStage::Settling { .. } => SetupAction::Settle { wait_ms: self.kind.settle_ms_of() },
            SetupStage::Connecting { port } => SetupAction::Connect { port },
            SetupStage::Ready { .. } => SetupAction::Finish,
            SetupStage::Failed => SetupAction::Fail(SetupFailure::OutOfTurn),
            SetupStage::Closed => SetupAction::Fail(SetupFailure::OutOfTurn),
        }
    }

    /// The session after an event, and the action that the event calls for.
    ///
    /// An event that the stage waits for leads to the next stage. Any other
    /// ends the making of the session in failure, and a driver process that
    /// runs is ended with it. A session that has failed or was closed stays
    /// so.
    pub open spec fn after(self, event: SetupEvent) -> (SessionSetup, SetupAction) {
        match self.next_stage(event) {
            Some(stage) => (
                SessionSetup {
                    kind: self.kind,
                    stage,
                    driver_running: self.driver_running || event == SetupEvent::Spawned,
                },
                self.entry_action(stage),
            ),
            None => {
                let failure = SessionSetup::failure_of(self.stage, event);
                let stage = if self.stage is Closed {
                    SetupStage::Closed
                } else {
                    SetupStage::Failed
                };
                (
                    SessionSetup { kind: self.kind, stage, driver_running: false },
                    if self.driver_running {
                        SetupAction::KillDriverAndFail(failure)
                    } else {
                        SetupAction::Fail(failure)
                    },
                )
            },
        }
    }

    /// Begins the making of a session; the first action is the search for a
    /// port.
    pub fn begin(kind: DriverKind) -> (setup: SessionSetup)
        ensures
            setup == (SessionSetup {
                kind,
                stage: SetupStage::AcquiringPort,
                driver_running: false,
            }),
            setup.consistent(),
    {
        SessionSetup { kind, stage: SetupStage::AcquiringPort, driver_running: false }
    }

    /// Takes an event and says what to do next.
    pub fn step(&mut self, event: SetupEvent) -> (action: SetupAction)
        ensures
            (*final(self), action) == old(self).after(event),
    {
        let next: Option<SetupStage> = match (self.stage, event) {
            (SetupStage::AcquiringPort, SetupEvent::PortAcquired(port)) => Some(
                SetupStage::Spawning { port },
            ),
            (SetupStage::Spawning { port }, SetupEvent::Spawned) => if self.kind.settle_ms() > 0 {
                Some(SetupStage::Settling { port })
            } else {
                Some(SetupStage::Connecting { port })
            },
            (SetupStage::Settling { port }, SetupEvent::Settled) => Some(
                SetupStage::Connecting { port },
            ),
            (SetupStage::Connecting { port }, SetupEvent::Connected) => Some(
                SetupStage::Ready { port },
            ),
            _ => None,
        };
        match next {
            Some(stage) => {
                let action = match stage {
                    SetupStage::AcquiringPort => SetupAction::AcquirePort,
                    SetupStage::Spawning { port } => SetupAction::Spawn { port },
                    SetupStage::Settling { .. } => SetupAction::Settle {
                        wait_ms: self.kind.settle_ms(),
                    },
                    SetupStage::Connecting { port } => SetupAction::Connect { port },
                    SetupStage::Ready { .. } => SetupAction::Finish,
                    SetupStage::Failed => SetupAction::Fail(SetupFailure::OutOfTurn),
                    SetupStage::Closed => SetupAction::Fail(SetupFailure::OutOfTurn),
                };
                if let SetupEvent::Spawned = event {
                    self.driver_running = true;
                }
                self.stage = stage;
                action
            },
            None => {
                let failure = match (self.stage, event) {
                    (SetupStage::AcquiringPort, SetupEvent::NoPort) => SetupFailure::NoPortAvailable,
                    (SetupStage::Spawning { .. }, SetupEvent::SpawnFailed) => SetupFailure::SpawnError,
                    (
                        SetupStage::Connecting { .. },
                        SetupEvent::ConnectFailed,
                    ) => SetupFailure::ConnectError,
                    _ => SetupFailure::OutOfTurn,
                };
                let was_running = self.driver_running;
                if let SetupStage::Closed = self.stage {
                } else {
                    self.stage = SetupStage::Failed;
                }
                self.driver_running = false;
                if was_running {
                    SetupAction::KillDriverAndFail(failure)
                } else {
                    SetupAction::Fail(failure)
                }
            },
        }
    }

    /// Closes the session, whatever its stage, and says whether a driver
    /// process must be ended.
    pub fn close(&mut self) -> (kill_driver: bool)
        ensures
            kill_driver == old(self).driver_running,
            *final(self) == (SessionSetup {
                kind: old(self).kind,
                stage: SetupStage::Closed,
                driver_running: false,
            }),
    {
        let kill_driver = self.driver_running;
        self.stage = SetupStage::Closed;
        self.driver_running = false;
        kill_driver
    }
}

/// A step keeps the record of the driver process in line with the stage.
pub proof fn lemma_step_keeps_consistency(setup: SessionSetup, event: SetupEvent)
    requires
        setup.consistent(),
    ensures
        setup.after(event).0.consistent(),
{
}

/// A session that fails after its driver was started has the driver ended:
/// whenever a step ends in failure while a driver process runs, the action
/// is to end the process, and afterwards none runs.
pub proof fn lemma_failure_ends_driver(setup: SessionSetup, event: SetupEvent)
    requires
        setup.consistent(),
    ensures
        setup.after(event).0.stage is Failed ==> !setup.after(event).0.driver_running,
        setup.driver_running && setup.after(event).0.stage is Failed ==> setup.after(event).1
            is KillDriverAndFail,
        setup.after(event).1 is KillDriverAndFail ==> setup.driver_running && !setup.after(
            event,
        ).0.driver_running,
{
}

/// The session after a run of events.
pub open spec fn after_all(setup: SessionSetup, events: Seq<SetupEvent>) -> SessionSetup
    decreases events.len(),
{
    if events.len() == 0 {
        setup
    } else {
        after_all(setup, events.drop_last()).after(events.last()).0
    }
}

/// Whatever the outside reports and in whatever order, a driver process
/// runs only while the session is being connected or stands: no session
/// that failed or was closed has left one behind.
pub proof fn lemma_no_driver_left_behind(kind: DriverKind, events: Seq<SetupEvent>)
    ensures
        after_all(
            SessionSetup { kind, stage: SetupStage::AcquiringPort, driver_running: false },
            events,
        ).consistent(),
    decreases events.len(),
{
    let start = SessionSetup { kind, stage: SetupStage::AcquiringPort, driver_running: false };
    if events.len() > 0 {
        lemma_no_driver_left_behind(kind, events.drop_last());
        lemma_step_keeps_consistency(after_all(start, events.drop_last()), events.last());
    }
}

/// A session stands only after a port was found, the driver was started
/// and the client has connected, in this order: the stage before `Ready` is
/// `Connecting`, and the event is `Connected`.
pub proof fn lemma_ready_needs_connection(setup: SessionSetup, event: SetupEvent)
    ensures
        setup.after(event).0.stage is Ready ==> setup.stage is Connecting && event
            == SetupEvent::Connected,
{
}

} // verus!
