use e2e_harness::webdriver::{
    endpoint, port_argument, DriverKind, SessionSetup, SetupAction, SetupEvent, SetupFailure,
    SetupStage, UnsupportedDriver, DRIVER_VARIABLE,
};

#[test]
fn driver_variable_name() {
    assert_eq!(DRIVER_VARIABLE, "WEBDRIVER");
}

#[test]
fn chrome_is_the_default_driver() {
    assert_eq!(DriverKind::from_env(None), Ok(DriverKind::Chrome));
}

#[test]
fn drivers_are_selected_by_name() {
    assert_eq!(DriverKind::from_env(Some("chromedriver")), Ok(DriverKind::Chrome));
    assert_eq!(DriverKind::from_env(Some("chrome")), Ok(DriverKind::Chrome));
    assert_eq!(DriverKind::from_env(Some("geckodriver")), Ok(DriverKind::Gecko));
    assert_eq!(DriverKind::from_env(Some("gecko")), Ok(DriverKind::Gecko));
}

#[test]
fn letter_case_of_the_name_does_not_matter() {
    assert_eq!(DriverKind::from_env(Some("GeckoDriver")), Ok(DriverKind::Gecko));
    assert_eq!(DriverKind::from_env(Some("CHROME")), Ok(DriverKind::Chrome));
}

#[test]
fn unknown_driver_is_refused() {
    assert_eq!(
        DriverKind::from_env(Some("Safari")),
        Err(UnsupportedDriver { value: "safari".to_string() })
    );
    assert_eq!(
        DriverKind::from_env(Some("")),
        Err(UnsupportedDriver { value: String::new() })
    );
    assert_eq!(
        DriverKind::from_env(Some(" chrome")),
        Err(UnsupportedDriver { value: " chrome".to_string() })
    );
}

#[test]
fn unsupported_driver_message() {
    let error = UnsupportedDriver { value: "safari".to_string() };
    assert_eq!(error.message(), "Invalid WEBDRIVER value: `safari`");
}

#[test]
fn programs_of_the_drivers() {
    assert_eq!(DriverKind::Chrome.program(), "chromedriver");
    assert_eq!(DriverKind::Gecko.program(), "geckodriver");
}

#[test]
fn only_the_chrome_driver_is_given_time() {
    assert_eq!(DriverKind::Chrome.settle_ms(), 500);
    assert_eq!(DriverKind::Gecko.settle_ms(), 0);
}

#[test]
fn port_argument_and_endpoint() {
    assert_eq!(port_argument(8000), "--port=8000");
    assert_eq!(port_argument(65535), "--port=65535");
    assert_eq!(endpoint(8999), "http://localhost:8999");
}

#[test]
fn chrome_capabilities_ask_for_headless_mode_and_logs() {
    let capabilities: serde_json::Value =
        serde_json::from_str(DriverKind::Chrome.capabilities()).unwrap();
    assert_eq!(capabilities["browserName"], "chrome");
    assert_eq!(capabilities["goog:chromeOptions"]["args"][0], "--headless");
    assert_eq!(capabilities["goog:loggingPrefs"]["browser"], "ALL");
    assert_eq!(capabilities["goog:loggingPrefs"]["performance"], "ALL");
    assert_eq!(capabilities.as_object().unwrap().len(), 3);
}

#[test]
fn gecko_capabilities_ask_for_headless_mode() {
    let capabilities: serde_json::Value =
        serde_json::from_str(DriverKind::Gecko.capabilities()).unwrap();
    let args = capabilities["moz:firefoxOptions"]["args"].as_array().unwrap();
    assert_eq!(args.len(), 2);
    assert_eq!(args[0], "--headless");
    assert_eq!(args[1], "-headless");
    assert_eq!(capabilities.as_object().unwrap().len(), 1);
}

#[test]
fn chrome_session_comes_about_in_five_steps() {
    let mut setup = SessionSetup::begin(DriverKind::Chrome);
    assert_eq!(setup.stage, SetupStage::AcquiringPort);
    assert!(!setup.driver_running);
    assert_eq!(setup.step(SetupEvent::PortAcquired(8004)), SetupAction::Spawn { port: 8004 });
    assert!(!setup.driver_running);
    assert_eq!(setup.step(SetupEvent::Spawned), SetupAction::Settle { wait_ms: 500 });
    assert!(setup.driver_running);
    assert_eq!(setup.step(SetupEvent::Settled), SetupAction::Connect { port: 8004 });
    assert_eq!(setup.step(SetupEvent::Connected), SetupAction::Finish);
    assert_eq!(setup.stage, SetupStage::Ready { port: 8004 });
    assert!(setup.driver_running);
}

#[test]
fn gecko_session_connects_right_after_the_start() {
    let mut setup = SessionSetup::begin(DriverKind::Gecko);
    assert_eq!(setup.step(SetupEvent::PortAcquired(8100)), SetupAction::Spawn { port: 8100 });
    assert_eq!(setup.step(SetupEvent::Spawned), SetupAction::Connect { port: 8100 });
    assert_eq!(setup.step(SetupEvent::Connected), SetupAction::Finish);
    assert_eq!(setup.stage, SetupStage::Ready { port: 8100 });
}

#[test]
fn failed_connection_ends_the_driver() {
    let mut setup = SessionSetup::begin(DriverKind::Gecko);
    setup.step(SetupEvent::PortAcquired(8100));
    setup.step(SetupEvent::Spawned);
    assert!(setup.driver_running);
    assert_eq!(
        setup.step(SetupEvent::ConnectFailed),
        SetupAction::KillDriverAndFail(SetupFailure::ConnectError)
    );
    assert_eq!(setup.stage, SetupStage::Failed);
    assert!(!setup.driver_running);
}

#[test]
fn failure_before_the_start_has_no_driver_to_end() {
    let mut setup = SessionSetup::begin(DriverKind::Chrome);
    assert_eq!(setup.step(SetupEvent::NoPort), SetupAction::Fail(SetupFailure::NoPortAvailable));
    assert_eq!(setup.stage, SetupStage::Failed);

    let mut setup = SessionSetup::begin(DriverKind::Chrome);
    setup.step(SetupEvent::PortAcquired(8000));
    assert_eq!(setup.step(SetupEvent::SpawnFailed), SetupAction::Fail(SetupFailure::SpawnError));
    assert_eq!(setup.stage, SetupStage::Failed);
    assert!(!setup.driver_running);
}

#[test]
fn event_out_of_turn_fails_the_session_and_ends_the_driver() {
    let mut setup = SessionSetup::begin(DriverKind::Chrome);
    setup.step(SetupEvent::PortAcquired(8000));
    setup.step(SetupEvent::Spawned);
    assert_eq!(
        setup.step(SetupEvent::Connected),
        SetupAction::KillDriverAndFail(SetupFailure::OutOfTurn)
    );
    assert_eq!(setup.stage, SetupStage::Failed);
    assert!(!setup.driver_running);
}

#[test]
fn failed_session_stays_failed() {
    let mut setup = SessionSetup::begin(DriverKind::Chrome);
    setup.step(SetupEvent::NoPort);
    assert_eq!(
        setup.step(SetupEvent::PortAcquired(8000)),
        SetupAction::Fail(SetupFailure::OutOfTurn)
    );
    assert_eq!(setup.stage, SetupStage::Failed);
    assert_eq!(setup.step(SetupEvent::Spawned), SetupAction::Fail(SetupFailure::OutOfTurn));
    assert!(!setup.driver_running);
}

#[test]
fn closing_a_session_ends_its_driver() {
    let mut setup = SessionSetup::begin(DriverKind::Gecko);
    setup.step(SetupEvent::PortAcquired(8100));
    setup.step(SetupEvent::Spawned);
    setup.step(SetupEvent::Connected);
    assert!(setup.close());
    assert_eq!(setup.stage, SetupStage::Closed);
    assert!(!setup.driver_running);
    assert!(!setup.close());
    assert_eq!(setup.step(SetupEvent::Connected), SetupAction::Fail(SetupFailure::OutOfTurn));
    assert_eq!(setup.stage, SetupStage::Closed);
}

#[test]
fn closing_before_the_start_ends_nothing() {
    let mut setup = SessionSetup::begin(DriverKind::Chrome);
    assert!(!setup.close());
    assert_eq!(setup.stage, SetupStage::Closed);
}
