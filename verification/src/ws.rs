//! The WebSocket echo: what to do with each message received.

use vstd::prelude::*;

verus! {

/// What the socket gave.
#[derive(Debug)]
pub enum WsEvent {
    /// A text message.
    Text(String),
    /// A binary message.
    Binary(Vec<u8>),
    /// The peer closes the connection.
    Close,
    /// A ping, pong or other control frame.
    Other,
    /// Reading failed, or the stream ended.
    Ended,
}

/// What to do next.
#[derive(Debug)]
pub enum WsAction {
    /// Send this text back.
    SendText(String),
    /// Send these bytes back.
    SendBinary(Vec<u8>),
    /// Wait for the next message.
    Wait,
    /// Close the connection.
    Stop,
}

/// Echoes text and binary messages as they came, ignores control frames,
/// and stops when the peer closes or the stream fails or ends.
pub fn echo_step(ev: WsEvent) -> (r: WsAction)
    ensures
        match ev {
            WsEvent::Text(t) => r matches WsAction::SendText(s) && s@ == t@,
            WsEvent::Binary(b) => r matches WsAction::SendBinary(c) && c@ == b@,
            WsEvent::Other => r is Wait,
            WsEvent::Close => r is Stop,
            WsEvent::Ended => r is Stop,
        },
{
    match ev {
        WsEvent::Text(t) => WsAction::SendText(t),
        WsEvent::Binary(b) => WsAction::SendBinary(b),
        WsEvent::Other => WsAction::Wait,
        WsEvent::Close => WsAction::Stop,
        WsEvent::Ended => WsAction::Stop,
    }
}

} // verus!
