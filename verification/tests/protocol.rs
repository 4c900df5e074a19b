use e2e_harness::session::{navigation, Consequence, Failure, SessionCommand};
use e2e_harness::address::ServerAddr;
use e2e_harness::console_log::INSTALL_SCRIPT;
use e2e_harness::readiness::ReadinessError;
use e2e_harness::trace::Trace;
use e2e_harness::ws::{
    handle_input_result, handle_request, Input, Reply, Request, Response, SendError, StreamEvent,
    WebSocketManager, NORMAL_CLOSURE,
};

#[test]
fn navigation_loads_the_page_and_installs_the_capture() {
    assert_eq!(
        navigation(&ServerAddr::loopback(8000), "/about"),
        vec![
            SessionCommand::Goto { url: "http://127.0.0.1:8000/about".to_string() },
            SessionCommand::Execute { script: INSTALL_SCRIPT },
        ]
    );
}

#[test]
fn failures_of_the_setup_end_the_run() {
    assert_eq!(Failure::Spawn.consequence(), Consequence::AbortRun);
    assert_eq!(Failure::NoPortAvailable.consequence(), Consequence::AbortRun);
    assert_eq!(Failure::UnsupportedDriver.consequence(), Consequence::AbortRun);
    assert_eq!(Failure::Readiness(ReadinessError::Timeout).consequence(), Consequence::AbortRun);
    assert_eq!(Failure::Readiness(ReadinessError::Abandoned).consequence(), Consequence::AbortRun);
}

#[test]
fn failures_of_a_step_fail_the_scenario() {
    assert_eq!(Failure::Navigation.consequence(), Consequence::FailScenario);
    assert_eq!(Failure::ElementNotFound.consequence(), Consequence::FailScenario);
    assert_eq!(Failure::ScriptExecution.consequence(), Consequence::FailScenario);
    assert_eq!(Failure::Deserialization.consequence(), Consequence::FailScenario);
    assert_eq!(Failure::PollTimeout.consequence(), Consequence::FailScenario);
}

#[test]
fn log_filter_follows_the_build() {
    assert_eq!(Trace::base_filter("e2e_tests", true), "e2e_tests=debug,cargo_leptos=debug");
    assert_eq!(Trace::base_filter("e2e_tests", false), "e2e_tests=info,cargo_leptos=info");
}

#[test]
fn handshake_is_answered_and_keeps_the_connection() {
    let reply = Reply { response: Some(Response::HandshakeResponse), keep_open: true };
    assert_eq!(handle_request(Request::Handshake { uuid: 7 }), reply);
    assert_eq!(handle_input_result(Input::Received(Request::Handshake { uuid: 7 })), reply);
}

#[test]
fn disconnect_failure_and_end_close_the_connection() {
    let closed = Reply { response: None, keep_open: false };
    assert_eq!(handle_request(Request::Disconnect { uuid: 7 }), closed);
    assert_eq!(handle_input_result(Input::Received(Request::Disconnect { uuid: 7 })), closed);
    assert_eq!(handle_input_result(Input::Failed), closed);
    assert_eq!(handle_input_result(Input::Closed), closed);
}

#[test]
fn client_connects_when_the_handshake_is_accepted() {
    let mut manager = WebSocketManager::new(42);
    assert!(!manager.is_connected);
    assert_eq!(manager.connect(true), Request::Handshake { uuid: 42 });
    assert!(manager.has_channel);
    assert!(!manager.is_connected);
    assert!(manager.handle_response(StreamEvent::Arrived(Response::HandshakeResponse)));
    assert!(manager.is_connected);
}

#[test]
fn client_without_queued_handshake_has_no_channel() {
    let mut manager = WebSocketManager::new(42);
    manager.connect(false);
    assert!(!manager.has_channel);
    assert_eq!(manager.send(), Err(SendError::NotAvailable));
    assert!(!manager.is_connected);
}

#[test]
fn ordinary_closure_ends_the_listening() {
    let mut manager = WebSocketManager::new(1);
    manager.connect(true);
    manager.handle_response(StreamEvent::Arrived(Response::HandshakeResponse));
    assert!(manager.handle_response(StreamEvent::Failed("some other error")));
    assert!(manager.is_connected);
    assert!(!manager.handle_response(StreamEvent::Failed(NORMAL_CLOSURE)));
    assert!(!manager.is_connected);
}

#[test]
fn disconnect_ends_the_conversation() {
    let mut manager = WebSocketManager::new(9);
    manager.connect(true);
    manager.handle_response(StreamEvent::Arrived(Response::HandshakeResponse));
    assert_eq!(manager.send(), Ok(()));
    assert_eq!(manager.disconnect(), Request::Disconnect { uuid: 9 });
    assert!(!manager.is_connected);
    manager.handle_response(StreamEvent::Arrived(Response::HandshakeResponse));
    manager.stream_refused();
    assert!(!manager.is_connected);
}
