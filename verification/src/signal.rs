//! The WebSocket protocols of the server, as state machines: the game
//! socket, which only answers pings, and the signaling socket, which turns
//! one SDP offer into a peer connection that joins the room.
//!
//! The sockets and the WebRTC peer connection live outside the library; it
//! performs each action and hands back the event that resulted.

use vstd::prelude::*;

verus! {

// -- Game socket ------------------------------------------------------------

/// A message (or failure) received on the game socket.
#[derive(Debug, PartialEq, Eq, Structural, Clone, Copy)]
pub enum WsEvent {
    Ping,
    Pong,
    Close,
    Text,
    Binary,
    Error,
}

/// What the game socket does with a received message.
#[derive(Debug, PartialEq, Eq, Structural, Clone, Copy)]
pub enum SocketStep {
    /// Answer the ping with a pong carrying the same payload, and go on.
    SendPong,
    /// Go on reading.
    Continue,
    /// Stop reading.
    Stop,
    /// Warn about an unexpected text message, close the socket, stop.
    CloseOnText,
    /// Warn about an unexpected binary message, close the socket, stop.
    CloseOnBinary,
    /// Warn about the socket error, stop.
    StopOnError,
}

pub open spec fn socket_step_of(e: WsEvent) -> SocketStep {
    match e {
        WsEvent::Ping => SocketStep::SendPong,
        WsEvent::Pong => SocketStep::Continue,
        WsEvent::Close => SocketStep::Stop,
        WsEvent::Text => SocketStep::CloseOnText,
        WsEvent::Binary => SocketStep::CloseOnBinary,
        WsEvent::Error => SocketStep::StopOnError,
    }
}

pub fn socket_step(e: WsEvent) -> (r: SocketStep)
    ensures
        r == socket_step_of(e),
{
    match e {
        WsEvent::Ping => SocketStep::SendPong,
        WsEvent::Pong => SocketStep::Continue,
        WsEvent::Close => SocketStep::Stop,
        WsEvent::Text => SocketStep::CloseOnText,
        WsEvent::Binary => SocketStep::CloseOnBinary,
        WsEvent::Error => SocketStep::StopOnError,
    }
}

/// The game socket keeps reading only after pings and pongs.
pub proof fn law_socket_keeps_reading_only_on_ping_pong(e: WsEvent)
    ensures
        (socket_step_of(e) == SocketStep::SendPong || socket_step_of(e) == SocketStep::Continue)
            <==> (e == WsEvent::Ping || e == WsEvent::Pong),
{
}

// -- Signaling socket -------------------------------------------------------

/// Where the signaling exchange stands.
#[derive(Debug, PartialEq, Eq, Structural, Clone, Copy)]
pub enum SignalState {
    /// Waiting for the first message, the SDP offer.
    AwaitOffer,
    /// A peer connection is being created.
    AwaitConnector,
    /// The offer is being set as the remote description.
    AwaitRemote,
    /// The answer is being created.
    AwaitAnswer,
    /// The answer is being set as the local description.
    AwaitLocal,
    /// The exchange is over.
    Finished,
}

/// What happened since the last action.
#[derive(Debug, PartialEq, Eq, Structural, Clone, Copy)]
pub enum SignalEvent {
    /// The socket ended before any message.
    SocketEnded,
    /// Reading the socket failed.
    SocketError,
    /// The first message is not text.
    NonTextMessage,
    /// The first message is text: the offer.
    Offer,
    /// The last step on the peer connection succeeded.
    Succeeded,
    /// The last step on the peer connection failed.
    Failed,
}

/// What the signaling socket does next.
#[derive(Debug, PartialEq, Eq, Structural, Clone, Copy)]
pub enum SignalAction {
    /// Create a peer connection.
    CreateConnector,
    /// Set the offer as the remote description.
    SetRemote,
    /// Create the answer.
    CreateAnswer,
    /// Set the answer as the local description.
    SetLocal,
    /// Send the answer's SDP, add the peer to the room, close the socket.
    SendAnswerAndJoin,
    /// Send the error object of `error_json`, then a close frame.
    RejectOffer { code: u16 },
    /// Send a close frame.
    CloseWith { code: u16 },
    /// Close the socket.
    CloseSocket,
    /// Stop without closing.
    Abandon,
}

/// Close code of a malformed offer.
pub const CLOSE_INVALID_SDP: u16 = 1002;
/// Close code of a first message that is not text.
pub const CLOSE_INVALID_MESSAGE: u16 = 1003;
/// Close code of a failure of the peer connection.
pub const CLOSE_PC_ERROR: u16 = 1011;

/// Whether `e` can follow the action taken in state `s`.
pub open spec fn event_expected(s: SignalState, e: SignalEvent) -> bool {
    match s {
        SignalState::AwaitOffer => e == SignalEvent::SocketEnded || e == SignalEvent::SocketError
            || e == SignalEvent::NonTextMessage || e == SignalEvent::Offer,
        SignalState::Finished => false,
        _ => e == SignalEvent::Succeeded || e == SignalEvent::Failed,
    }
}

/// The signaling protocol.
pub open spec fn signal_step_of(s: SignalState, e: SignalEvent) -> (SignalState, SignalAction) {
    match s {
        SignalState::AwaitOffer => match e {
            SignalEvent::SocketEnded => (SignalState::Finished, SignalAction::CloseSocket),
            SignalEvent::SocketError => (SignalState::Finished, SignalAction::Abandon),
            SignalEvent::NonTextMessage => (
                SignalState::Finished,
                SignalAction::RejectOffer { code: CLOSE_INVALID_MESSAGE },
            ),
            _ => (SignalState::AwaitConnector, SignalAction::CreateConnector),
        },
        SignalState::AwaitConnector => if e == SignalEvent::Succeeded {
            (SignalState::AwaitRemote, SignalAction::SetRemote)
        } else {
            (SignalState::Finished, SignalAction::CloseWith { code: CLOSE_PC_ERROR })
        },
        SignalState::AwaitRemote => if e == SignalEvent::Succeeded {
            (SignalState::AwaitAnswer, SignalAction::CreateAnswer)
        } else {
            (SignalState::Finished, SignalAction::RejectOffer { code: CLOSE_INVALID_SDP })
        },
        SignalState::AwaitAnswer => if e == SignalEvent::Succeeded {
            (SignalState::AwaitLocal, SignalAction::SetLocal)
        } else {
            (SignalState::Finished, SignalAction::CloseWith { code: CLOSE_PC_ERROR })
        },
        SignalState::AwaitLocal => if e == SignalEvent::Succeeded {
            (SignalState::Finished, SignalAction::SendAnswerAndJoin)
        } else {
            (SignalState::Finished, SignalAction::CloseWith { code: CLOSE_PC_ERROR })
        },
        SignalState::Finished => (SignalState::Finished, SignalAction::Abandon),
    }
}

pub fn signal_step(s: SignalState, e: SignalEvent) -> (r: (SignalState, SignalAction))
    requires
        event_expected(s, e),
    ensures
        r == signal_step_of(s, e),
{
    match s {
        SignalState::AwaitOffer => match e {
            SignalEvent::SocketEnded => (SignalState::Finished, SignalAction::CloseSocket),
            SignalEvent::SocketError => (SignalState::Finished, SignalAction::Abandon),
            SignalEvent::NonTextMessage => (
                SignalState::Finished,
                SignalAction::RejectOffer { code: CLOSE_INVALID_MESSAGE },
            ),
            _ => (SignalState::AwaitConnector, SignalAction::CreateConnector),
        },
        SignalState::AwaitConnector => if e == SignalEvent::Succeeded {
            (SignalState::AwaitRemote, SignalAction::SetRemote)
        } else {
            (SignalState::Finished, SignalAction::CloseWith { code: CLOSE_PC_ERROR })
        },
        SignalState::AwaitRemote => if e == SignalEvent::Succeeded {
            (SignalState::AwaitAnswer, SignalAction::CreateAnswer)
        } else {
            (SignalState::Finished, SignalAction::RejectOffer { code: CLOSE_INVALID_SDP })
        },
        SignalState::AwaitAnswer => if e == SignalEvent::Succeeded {
            (SignalState::AwaitLocal, SignalAction::SetLocal)
        } else {
            (SignalState::Finished, SignalAction::CloseWith { code: CLOSE_PC_ERROR })
        },
        SignalState::AwaitLocal => if e == SignalEvent::Succeeded {
            (SignalState::Finished, SignalAction::SendAnswerAndJoin)
        } else {
            (SignalState::Finished, SignalAction::CloseWith { code: CLOSE_PC_ERROR })
        },
        SignalState::Finished => (SignalState::Finished, SignalAction::Abandon),
    }
}

/// Steps left before the exchange is over, at most.
pub open spec fn steps_left(s: SignalState) -> nat {
    match s {
        SignalState::AwaitOffer => 5,
        SignalState::AwaitConnector => 4,
        SignalState::AwaitRemote => 3,
        SignalState::AwaitAnswer => 2,
        SignalState::AwaitLocal => 1,
        SignalState::Finished => 0,
    }
}

/// Every step brings the exchange closer to its end, so it is over after at
/// most five steps; and a peer joins the room only after every step on the
/// peer connection has succeeded.
pub proof fn law_signal_progress(s: SignalState, e: SignalEvent)
    requires
        event_expected(s, e),
    ensures
        steps_left(signal_step_of(s, e).0) < steps_left(s),
        signal_step_of(s, e).1 == SignalAction::SendAnswerAndJoin ==> s == SignalState::AwaitLocal
            && e == SignalEvent::Succeeded,
{
}

/// The offer, followed by four successful steps on the peer connection
/// (create it, set the offer, create the answer, set the answer), sends the
/// answer and joins the room; a failed step ends the exchange: with an
/// invalid-SDP rejection when the offer cannot be set, with a
/// peer-connection error otherwise. A first message that is not text is
/// rejected as an invalid message; a socket that ends is closed, and one that
/// fails is left.
pub proof fn law_signal_outcomes(s: SignalState)
    ensures
        signal_step_of(SignalState::AwaitOffer, SignalEvent::Offer) == (
            SignalState::AwaitConnector,
            SignalAction::CreateConnector,
        ),
        signal_step_of(SignalState::AwaitConnector, SignalEvent::Succeeded) == (
            SignalState::AwaitRemote,
            SignalAction::SetRemote,
        ),
        signal_step_of(SignalState::AwaitRemote, SignalEvent::Succeeded) == (
            SignalState::AwaitAnswer,
            SignalAction::CreateAnswer,
        ),
        signal_step_of(SignalState::AwaitAnswer, SignalEvent::Succeeded) == (
            SignalState::AwaitLocal,
            SignalAction::SetLocal,
        ),
        signal_step_of(SignalState::AwaitLocal, SignalEvent::Succeeded) == (
            SignalState::Finished,
            SignalAction::SendAnswerAndJoin,
        ),
        event_expected(s, SignalEvent::Failed) ==> signal_step_of(s, SignalEvent::Failed).0
            == SignalState::Finished,
        event_expected(s, SignalEvent::Failed) ==> (signal_step_of(s, SignalEvent::Failed).1
            == (SignalAction::RejectOffer { code: 1002 }) <==> s == SignalState::AwaitRemote),
        event_expected(s, SignalEvent::Failed) && s != SignalState::AwaitRemote ==> signal_step_of(
            s,
            SignalEvent::Failed,
        ).1 == (SignalAction::CloseWith { code: 1011 }),
        signal_step_of(SignalState::AwaitOffer, SignalEvent::NonTextMessage).1
            == (SignalAction::RejectOffer { code: 1003 }),
        signal_step_of(SignalState::AwaitOffer, SignalEvent::SocketEnded).1 == SignalAction::CloseSocket,
        signal_step_of(SignalState::AwaitOffer, SignalEvent::SocketError).1 == SignalAction::Abandon,
{
}

/// The reason text of each close code the signaling socket sends.
pub fn close_reason(code: u16) -> (r: &'static str)
    ensures
        code == CLOSE_INVALID_SDP ==> r@ == "invalid SDP"@,
        code == CLOSE_INVALID_MESSAGE ==> r@ == "invalid message"@,
        code != CLOSE_INVALID_SDP && code != CLOSE_INVALID_MESSAGE ==> r@ == "pc error"@,
{
    if code == CLOSE_INVALID_SDP {
        proof { reveal_strlit("invalid SDP"); }
        "invalid SDP"
    } else if code == CLOSE_INVALID_MESSAGE {
        proof { reveal_strlit("invalid message"); }
        "invalid message"
    } else {
        proof { reveal_strlit("pc error"); }
        "pc error"
    }
}

/// The error object sent before rejecting an offer.
pub fn error_json() -> (r: &'static str)
    ensures
        r@ == "{\"error\":\"invalid SDP offer\"}"@,
{
    proof { reveal_strlit("{\"error\":\"invalid SDP offer\"}"); }
    "{\"error\":\"invalid SDP offer\"}"
}

} // verus!
