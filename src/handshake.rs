//! The handshake: the client names its protocol once, and the server's
//! first frame either accepts it or carries an error.
use vstd::prelude::*;
use crate::json::{object_members, parse_object};
use crate::message::optional_string;

verus! {

/// Why a connection attempt failed.
#[derive(Debug, Clone, PartialEq, Eq)]
pub enum ConnectError {
    /// The transport closed or failed before the handshake completed.
    TransportError(String),
    /// The server rejected the handshake with this message.
    HandshakeError(String),
    /// The server's handshake response was not a JSON object whose `error`
    /// member, if any, is a string or `null`.
    InvalidResponse,
}

/// Where a connection stands in its handshake. Once `Ready` or `Failed` is
/// reached it is never left, but for `Closed` after `close`.
#[derive(Debug, Clone, PartialEq, Eq)]
pub enum HandshakeState {
    Idle,
    AwaitingTransportOpen,
    AwaitingHandshakeAck,
    Ready,
    Failed(ConnectError),
    Closed,
}

/// The mathematical content of a `ConnectError`.
pub enum ConnectErrorModel {
    TransportError(Seq<char>),
    HandshakeError(Seq<char>),
    InvalidResponse,
}

impl ConnectError {
    pub open spec fn model(&self) -> ConnectErrorModel {
        match self {
            ConnectError::TransportError(s) => ConnectErrorModel::TransportError(s@),
            ConnectError::HandshakeError(s) => ConnectErrorModel::HandshakeError(s@),
            ConnectError::InvalidResponse => ConnectErrorModel::InvalidResponse,
        }
    }
}

/// The mathematical content of a `HandshakeState`.
pub enum StateModel {
    Idle,
    AwaitingTransportOpen,
    AwaitingHandshakeAck,
    Ready,
    Failed(ConnectErrorModel),
    Closed,
}

impl HandshakeState {
    pub open spec fn model(&self) -> StateModel {
        match self {
            HandshakeState::Idle => StateModel::Idle,
            HandshakeState::AwaitingTransportOpen => StateModel::AwaitingTransportOpen,
            HandshakeState::AwaitingHandshakeAck => StateModel::AwaitingHandshakeAck,
            HandshakeState::Ready => StateModel::Ready,
            HandshakeState::Failed(e) => StateModel::Failed(e.model()),
            HandshakeState::Closed => StateModel::Closed,
        }
    }

    /// A copy of this state.
    pub fn duplicate(&self) -> (r: HandshakeState)
        ensures
            r.model() == self.model(),
    {
        match self {
            HandshakeState::Idle => HandshakeState::Idle,
            HandshakeState::AwaitingTransportOpen => HandshakeState::AwaitingTransportOpen,
            HandshakeState::AwaitingHandshakeAck => HandshakeState::AwaitingHandshakeAck,
            HandshakeState::Ready => HandshakeState::Ready,
            HandshakeState::Failed(e) => HandshakeState::Failed(e.duplicate()),
            HandshakeState::Closed => HandshakeState::Closed,
        }
    }
}

impl ConnectError {
    /// A copy of this error.
    pub fn duplicate(&self) -> (r: ConnectError)
        ensures
            r.model() == self.model(),
    {
        match self {
            ConnectError::TransportError(s) => ConnectError::TransportError(s.clone()),
            ConnectError::HandshakeError(s) => ConnectError::HandshakeError(s.clone()),
            ConnectError::InvalidResponse => ConnectError::InvalidResponse,
        }
    }
}

/// The text of the handshake request, terminator included.
pub open spec fn handshake_request_text() -> Seq<char> {
    "{\"protocol\":\"json\",\"version\":1}\x1E"@
}

/// Writes the handshake request.
pub fn handshake_request() -> (r: String)
    ensures
        r@ == handshake_request_text(),
{
    String::from_str("{\"protocol\":\"json\",\"version\":1}\x1E")
}

/// What the server's handshake response frame means: success where it is an
/// object without an `error` member or with `"error": null`.
pub open spec fn handshake_outcome(frame: Seq<char>) -> Result<(), ConnectErrorModel> {
    match object_members(frame) {
        None => Err(ConnectErrorModel::InvalidResponse),
        Some(ms) => match optional_string(ms, "error"@) {
            None => Err(ConnectErrorModel::InvalidResponse),
            Some(None) => Ok(()),
            Some(Some(e)) => Err(ConnectErrorModel::HandshakeError(e)),
        },
    }
}

/// Reads the server's handshake response frame.
pub fn read_handshake_response(frame: &str) -> (r: Result<(), ConnectError>)
    ensures
        match r {
            Ok(()) => handshake_outcome(frame@) == Ok::<(), ConnectErrorModel>(()),
            Err(e) => handshake_outcome(frame@) == Err::<(), ConnectErrorModel>(e.model()),
        },
{
    let ms = match parse_object(frame) {
        None => return Err(ConnectError::InvalidResponse),
        Some(ms) => ms,
    };
    let ghost all = ms@.map_values(|p: (String, String)| (p.0@, p.1@));
    assert(object_members(frame@) == Some(all)) by {
        assert(all =~= object_members(frame@)->0);
    }
    match crate::message::read_optional_string(&ms, "error") {
        None => Err(ConnectError::InvalidResponse),
        Some(None) => Ok(()),
        Some(Some(e)) => Err(ConnectError::HandshakeError(e)),
    }
}

} // verus!
