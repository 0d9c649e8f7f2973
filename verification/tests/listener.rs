use native_tor::listener::{
    Listener, ListenerAction, ListenerEvent, ListenerState, DEFAULT_SOCKS_PORT,
};
use native_tor::startup::StartupError;

#[test]
fn default_port_is_9050() {
    assert_eq!(DEFAULT_SOCKS_PORT, 9050);
    let l = Listener::on_default_port();
    assert_eq!(l.port(), 9050);
    assert_eq!(l.state(), ListenerState::Binding);
    assert_eq!(Listener::new(1080).port(), 1080);
}

#[test]
fn bound_listener_accepts() {
    let mut l = Listener::new(9050);
    assert_eq!(l.step(ListenerEvent::Bound), ListenerAction::Accept);
    assert_eq!(l.state(), ListenerState::Accepting);
    assert_eq!(l.port(), 9050);
}

#[test]
fn bind_failure_aborts_startup() {
    let mut l = Listener::new(9050);
    assert_eq!(l.step(ListenerEvent::BindFailed), ListenerAction::Abort(StartupError::Bind));
    assert_eq!(l.state(), ListenerState::Failed);
    assert_eq!(l.step(ListenerEvent::Connection), ListenerAction::Ignore);
    assert_eq!(l.step(ListenerEvent::Bound), ListenerAction::Ignore);
    assert_eq!(l.state(), ListenerState::Failed);
}

#[test]
fn every_connection_gets_a_session() {
    let mut l = Listener::new(9050);
    l.step(ListenerEvent::Bound);
    for _ in 0..100 {
        assert_eq!(l.step(ListenerEvent::Connection), ListenerAction::SpawnSession);
        assert_eq!(l.state(), ListenerState::Accepting);
    }
}

#[test]
fn accept_failure_is_logged_and_the_loop_goes_on() {
    let mut l = Listener::new(9050);
    l.step(ListenerEvent::Bound);
    assert_eq!(l.step(ListenerEvent::AcceptFailed), ListenerAction::LogAndContinue);
    assert_eq!(l.step(ListenerEvent::AcceptFailed), ListenerAction::LogAndContinue);
    assert_eq!(l.state(), ListenerState::Accepting);
    assert_eq!(l.step(ListenerEvent::Connection), ListenerAction::SpawnSession);
}

#[test]
fn nothing_is_accepted_before_the_bind() {
    let mut l = Listener::new(9050);
    assert_eq!(l.step(ListenerEvent::Connection), ListenerAction::Ignore);
    assert_eq!(l.step(ListenerEvent::AcceptFailed), ListenerAction::Ignore);
    assert_eq!(l.state(), ListenerState::Binding);
    l.step(ListenerEvent::Bound);
    assert_eq!(l.step(ListenerEvent::Bound), ListenerAction::Ignore);
    assert_eq!(l.step(ListenerEvent::BindFailed), ListenerAction::Ignore);
    assert_eq!(l.state(), ListenerState::Accepting);
}
