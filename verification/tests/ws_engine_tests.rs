use c1_bridge::ws_engine::{ws_engine_start, ws_engine_step, WsCommand, WsEngineAction, WsEngineInput, WsEngineState, WsEvent};

fn step(state: WsEngineState, input: WsEngineInput) -> (WsEngineState, Vec<WsEngineAction>) {
    ws_engine_step(state, input)
}

#[test]
fn engine_starts_by_connecting() {
    let (state, actions) = ws_engine_start();
    assert_eq!(state, WsEngineState::Connecting);
    assert!(matches!(actions.as_slice(), [WsEngineAction::StartConnect]));
}

#[test]
fn connect_success_reports_connected() {
    let (state, actions) = step(WsEngineState::Connecting, WsEngineInput::ConnectSucceeded);
    assert_eq!(state, WsEngineState::Connected);
    assert!(matches!(actions.as_slice(), [WsEngineAction::Emit(WsEvent::Connected)]));
}

#[test]
fn failed_connect_reports_and_waits_then_reconnects() {
    let (state, actions) = step(WsEngineState::Connecting, WsEngineInput::ConnectFailed);
    assert_eq!(state, WsEngineState::WaitingToReconnect);
    assert!(matches!(actions.as_slice(), [WsEngineAction::Emit(WsEvent::Disconnected), WsEngineAction::WaitReconnect]));
    let (state, actions) = step(state, WsEngineInput::ReconnectDelayElapsed);
    assert_eq!(state, WsEngineState::Connecting);
    assert!(matches!(actions.as_slice(), [WsEngineAction::StartConnect]));
}

#[test]
fn sends_go_out_only_while_connected() {
    let (state, actions) = step(WsEngineState::Connected, WsEngineInput::Command(WsCommand::Send("hi".to_string())));
    assert_eq!(state, WsEngineState::Connected);
    assert!(matches!(actions.as_slice(), [WsEngineAction::SendText(t)] if t == "hi"));
    for s in [WsEngineState::Connecting, WsEngineState::WaitingToReconnect, WsEngineState::Stopped] {
        let (next, actions) = step(s, WsEngineInput::Command(WsCommand::Send("hi".to_string())));
        assert_eq!(next, s);
        assert!(actions.is_empty());
    }
}

#[test]
fn shutdown_closes_an_open_socket_and_stops() {
    let (state, actions) = step(WsEngineState::Connected, WsEngineInput::Command(WsCommand::Shutdown));
    assert_eq!(state, WsEngineState::Stopped);
    assert!(matches!(actions.as_slice(), [WsEngineAction::CloseSocket, WsEngineAction::Stop]));
    let (state, actions) = step(WsEngineState::WaitingToReconnect, WsEngineInput::CommandsClosed);
    assert_eq!(state, WsEngineState::Stopped);
    assert!(matches!(actions.as_slice(), [WsEngineAction::Stop]));
    let (state, actions) = step(WsEngineState::Stopped, WsEngineInput::ReconnectDelayElapsed);
    assert_eq!(state, WsEngineState::Stopped);
    assert!(actions.is_empty());
}

#[test]
fn frames_are_reported_as_text() {
    let (_, actions) = step(WsEngineState::Connected, WsEngineInput::TextFrame("{\"a\":1}".to_string()));
    assert!(matches!(actions.as_slice(), [WsEngineAction::Emit(WsEvent::Message(t))] if t == "{\"a\":1}"));
    let (_, actions) = step(WsEngineState::Connected, WsEngineInput::BinaryFrame(vec![0x68, 0x69, 0xff]));
    assert!(matches!(actions.as_slice(), [WsEngineAction::Emit(WsEvent::Message(t))] if t == "hi\u{fffd}"));
    let (state, actions) = step(WsEngineState::Connected, WsEngineInput::OtherFrame);
    assert_eq!(state, WsEngineState::Connected);
    assert!(actions.is_empty());
}

#[test]
fn heartbeat_only_while_connected() {
    let (_, actions) = step(WsEngineState::Connected, WsEngineInput::HeartbeatDue);
    assert!(matches!(actions.as_slice(), [WsEngineAction::SendHeartbeat]));
    let (_, actions) = step(WsEngineState::WaitingToReconnect, WsEngineInput::HeartbeatDue);
    assert!(actions.is_empty());
}

#[test]
fn a_lost_connection_is_reported_and_retried() {
    let (state, actions) = step(WsEngineState::Connected, WsEngineInput::PeerClosed);
    assert_eq!(state, WsEngineState::WaitingToReconnect);
    assert!(matches!(
        actions.as_slice(),
        [WsEngineAction::CloseSocket, WsEngineAction::Emit(WsEvent::Disconnected), WsEngineAction::WaitReconnect]
    ));
    for input in [WsEngineInput::StreamEnded, WsEngineInput::ReadFailed, WsEngineInput::WriteFailed] {
        let (state, actions) = step(WsEngineState::Connected, input);
        assert_eq!(state, WsEngineState::WaitingToReconnect);
        assert!(matches!(actions.as_slice(), [WsEngineAction::Emit(WsEvent::Disconnected), WsEngineAction::WaitReconnect]));
    }
}
