//! The Mixing Station WebSocket engine: its commands and events, and the decisions of its
//! connection loop (connect, reconnect after a delay, heartbeat, stop) as a state machine.

use crate::value_coercion::{coerce_ws_payload_to_text, utf8_lossy_text};
use vstd::prelude::*;

verus! {

/// A command to the WebSocket engine.
#[derive(Debug)]
pub enum WsCommand {
    /// Send a text frame; dropped when the engine is not connected.
    Send(String),
    /// Close the connection and stop the engine.
    Shutdown,
}

/// An event reported by the WebSocket engine.
#[derive(Debug, Clone, PartialEq)]
pub enum WsEvent {
    /// A connection was established.
    Connected,
    /// An inbound text frame (binary frames are decoded to text first).
    Message(String),
    /// The connection was lost, or a connect attempt failed; the engine retries by itself.
    Disconnected,
}

/// Where the engine's connection loop stands.
#[derive(Debug, Clone, Copy, PartialEq, Eq, Structural)]
pub enum WsEngineState {
    /// A connect attempt is under way.
    Connecting,
    /// The connection is open.
    Connected,
    /// The reconnect delay is running.
    WaitingToReconnect,
    /// The engine has stopped for good.
    Stopped,
}

/// What happened to the engine.
#[derive(Debug)]
pub enum WsEngineInput {
    ConnectSucceeded,
    ConnectFailed,
    Command(WsCommand),
    /// Every command sender is gone.
    CommandsClosed,
    TextFrame(String),
    BinaryFrame(Vec<u8>),
    /// A frame that carries no message (ping, pong, raw frame).
    OtherFrame,
    /// The peer sent a Close frame.
    PeerClosed,
    StreamEnded,
    ReadFailed,
    WriteFailed,
    HeartbeatDue,
    ReconnectDelayElapsed,
}

/// What the host does for the engine.
#[derive(Debug)]
pub enum WsEngineAction {
    /// Report an event to the engine's owner.
    Emit(WsEvent),
    /// Send a text frame.
    SendText(String),
    /// Send the keep-alive request.
    SendHeartbeat,
    /// Close the socket.
    CloseSocket,
    /// Start a connect attempt.
    StartConnect,
    /// Start the reconnect delay.
    WaitReconnect,
    /// End the engine.
    Stop,
}

/// The connection is lost: it is reported, and the reconnect delay starts.
pub open spec fn connection_lost(new: WsEngineState, actions: Seq<WsEngineAction>) -> bool {
    new == WsEngineState::WaitingToReconnect
        && actions == seq![WsEngineAction::Emit(WsEvent::Disconnected), WsEngineAction::WaitReconnect]
}

/// Nothing happens.
pub open spec fn ws_idle(s: WsEngineState, new: WsEngineState, actions: Seq<WsEngineAction>) -> bool {
    new == s && actions.len() == 0
}

/// One step of the engine: a stopped engine does nothing. Otherwise a shutdown (or the
/// loss of every command sender) closes an open socket and stops the engine; a send goes
/// out only while connected; a connect attempt ends connected (reported) or lost; the
/// reconnect delay's end starts a new attempt; while connected, text frames are reported
/// as they are, binary ones decoded (lossy UTF-8), the heartbeat is sent when due, a peer
/// Close closes the socket and the connection counts as lost, as does the end of the
/// stream or a failed read or write. Anything else changes nothing.
pub open spec fn ws_engine_transition(s: WsEngineState, input: WsEngineInput, new: WsEngineState, actions: Seq<WsEngineAction>) -> bool {
    if s == WsEngineState::Stopped {
        ws_idle(s, new, actions)
    } else {
        let connected = s == WsEngineState::Connected;
        match input {
            WsEngineInput::Command(WsCommand::Shutdown) => new == WsEngineState::Stopped && actions == if connected {
                seq![WsEngineAction::CloseSocket, WsEngineAction::Stop]
            } else {
                seq![WsEngineAction::Stop]
            },
            WsEngineInput::CommandsClosed => new == WsEngineState::Stopped && actions == if connected {
                seq![WsEngineAction::CloseSocket, WsEngineAction::Stop]
            } else {
                seq![WsEngineAction::Stop]
            },
            WsEngineInput::Command(WsCommand::Send(t)) => if connected {
                new == s && actions == seq![WsEngineAction::SendText(t)]
            } else {
                ws_idle(s, new, actions)
            },
            WsEngineInput::ConnectSucceeded => if s == WsEngineState::Connecting {
                new == WsEngineState::Connected && actions == seq![WsEngineAction::Emit(WsEvent::Connected)]
            } else {
                ws_idle(s, new, actions)
            },
            WsEngineInput::ConnectFailed => if s == WsEngineState::Connecting {
                connection_lost(new, actions)
            } else {
                ws_idle(s, new, actions)
            },
            WsEngineInput::ReconnectDelayElapsed => if s == WsEngineState::WaitingToReconnect {
                new == WsEngineState::Connecting && actions == seq![WsEngineAction::StartConnect]
            } else {
                ws_idle(s, new, actions)
            },
            WsEngineInput::TextFrame(t) => if connected {
                new == s && actions == seq![WsEngineAction::Emit(WsEvent::Message(t))]
            } else {
                ws_idle(s, new, actions)
            },
            WsEngineInput::BinaryFrame(b) => if connected {
                new == s && actions.len() == 1
                    && (actions[0] matches WsEngineAction::Emit(WsEvent::Message(m)) && m@ == utf8_lossy_text(b@))
            } else {
                ws_idle(s, new, actions)
            },
            WsEngineInput::HeartbeatDue => if connected {
                new == s && actions == seq![WsEngineAction::SendHeartbeat]
            } else {
                ws_idle(s, new, actions)
            },
            WsEngineInput::PeerClosed => if connected {
                new == WsEngineState::WaitingToReconnect && actions == seq![WsEngineAction::CloseSocket,
                    WsEngineAction::Emit(WsEvent::Disconnected), WsEngineAction::WaitReconnect]
            } else {
                ws_idle(s, new, actions)
            },
            WsEngineInput::StreamEnded => if connected { connection_lost(new, actions) } else { ws_idle(s, new, actions) },
            WsEngineInput::ReadFailed => if connected { connection_lost(new, actions) } else { ws_idle(s, new, actions) },
            WsEngineInput::WriteFailed => if connected { connection_lost(new, actions) } else { ws_idle(s, new, actions) },
            WsEngineInput::OtherFrame => ws_idle(s, new, actions),
        }
    }
}

/// A new engine: it starts connecting.
pub fn ws_engine_start() -> (res: (WsEngineState, Vec<WsEngineAction>))
    ensures
        res.0 == WsEngineState::Connecting,
        res.1@ == seq![WsEngineAction::StartConnect],
{
    let mut actions: Vec<WsEngineAction> = Vec::new();
    actions.push(WsEngineAction::StartConnect);
    assert(actions@ =~= seq![WsEngineAction::StartConnect]);
    (WsEngineState::Connecting, actions)
}

fn lost() -> (res: (WsEngineState, Vec<WsEngineAction>))
    ensures
        connection_lost(res.0, res.1@),
{
    let mut actions: Vec<WsEngineAction> = Vec::new();
    actions.push(WsEngineAction::Emit(WsEvent::Disconnected));
    actions.push(WsEngineAction::WaitReconnect);
    assert(actions@ =~= seq![WsEngineAction::Emit(WsEvent::Disconnected), WsEngineAction::WaitReconnect]);
    (WsEngineState::WaitingToReconnect, actions)
}

fn one(a: WsEngineAction) -> (res: Vec<WsEngineAction>)
    ensures
        res@ == seq![a],
{
    let mut actions: Vec<WsEngineAction> = Vec::new();
    actions.push(a);
    assert(actions@ =~= seq![a]);
    actions
}

fn stopping(connected: bool) -> (res: (WsEngineState, Vec<WsEngineAction>))
    ensures
        res.0 == WsEngineState::Stopped,
        res.1@ == if connected {
            seq![WsEngineAction::CloseSocket, WsEngineAction::Stop]
        } else {
            seq![WsEngineAction::Stop]
        },
{
    let mut actions: Vec<WsEngineAction> = Vec::new();
    if connected {
        actions.push(WsEngineAction::CloseSocket);
    }
    actions.push(WsEngineAction::Stop);
    if connected {
        assert(actions@ =~= seq![WsEngineAction::CloseSocket, WsEngineAction::Stop]);
    } else {
        assert(actions@ =~= seq![WsEngineAction::Stop]);
    }
    (WsEngineState::Stopped, actions)
}

/// One step of the engine ([`ws_engine_transition`]).
pub fn ws_engine_step(state: WsEngineState, input: WsEngineInput) -> (res: (WsEngineState, Vec<WsEngineAction>))
    ensures
        ws_engine_transition(state, input, res.0, res.1@),
{
    if state == WsEngineState::Stopped {
        return (state, Vec::new());
    }
    let connected = state == WsEngineState::Connected;
    match input {
        WsEngineInput::Command(WsCommand::Shutdown) => stopping(connected),
        WsEngineInput::CommandsClosed => stopping(connected),
        WsEngineInput::Command(WsCommand::Send(t)) => if connected {
            (state, one(WsEngineAction::SendText(t)))
        } else {
            (state, Vec::new())
        },
        WsEngineInput::ConnectSucceeded => if state == WsEngineState::Connecting {
            (WsEngineState::Connected, one(WsEngineAction::Emit(WsEvent::Connected)))
        } else {
            (state, Vec::new())
        },
        WsEngineInput::ConnectFailed => if state == WsEngineState::Connecting {
            lost()
        } else {
            (state, Vec::new())
        },
        WsEngineInput::ReconnectDelayElapsed => if state == WsEngineState::WaitingToReconnect {
            (WsEngineState::Connecting, one(WsEngineAction::StartConnect))
        } else {
            (state, Vec::new())
        },
        WsEngineInput::TextFrame(t) => if connected {
            (state, one(WsEngineAction::Emit(WsEvent::Message(t))))
        } else {
            (state, Vec::new())
        },
        WsEngineInput::BinaryFrame(b) => if connected {
            let text = coerce_ws_payload_to_text(b.as_slice());
            (state, one(WsEngineAction::Emit(WsEvent::Message(text))))
        } else {
            (state, Vec::new())
        },
        WsEngineInput::HeartbeatDue => if connected {
            (state, one(WsEngineAction::SendHeartbeat))
        } else {
            (state, Vec::new())
        },
        WsEngineInput::PeerClosed => if connected {
            let mut actions: Vec<WsEngineAction> = Vec::new();
            actions.push(WsEngineAction::CloseSocket);
            actions.push(WsEngineAction::Emit(WsEvent::Disconnected));
            actions.push(WsEngineAction::WaitReconnect);
            assert(actions@ =~= seq![WsEngineAction::CloseSocket, WsEngineAction::Emit(WsEvent::Disconnected),
                WsEngineAction::WaitReconnect]);
            (WsEngineState::WaitingToReconnect, actions)
        } else {
            (state, Vec::new())
        },
        WsEngineInput::StreamEnded => if connected { lost() } else { (state, Vec::new()) },
        WsEngineInput::ReadFailed => if connected { lost() } else { (state, Vec::new()) },
        WsEngineInput::WriteFailed => if connected { lost() } else { (state, Vec::new()) },
        WsEngineInput::OtherFrame => (state, Vec::new()),
    }
}

} // verus!
