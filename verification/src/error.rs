//! What can go wrong for a connection, a lobby or a move, and the code under
//! which each failure is reported to the client.

use crate::ws::protocol::{ErrorCode, ServerMessage, ServerMessageView};
use vstd::prelude::*;
use vstd::string::StringExecFns;

verus! {

/// A failure on one client's connection.
#[derive(Debug, Clone, PartialEq, Eq)]
pub enum ConnectionError {
    WebSocketClosed,
    MessageDeserializationFailed(String),
    StateTransitionInvalid { from: String, action: String },
    LobbyNotFound,
    NotHost,
    PlayerNotFound,
}

/// A failure of a lobby as a whole.
#[derive(Debug, Clone, Copy, PartialEq, Eq, Structural)]
pub enum LobbyError {
    HostDisconnected,
    NoPlayersRemaining,
}

/// A move that the game does not accept.
#[derive(Debug, Clone, Copy, PartialEq, Eq, Structural)]
pub enum GameError {
    NotYourTurn,
    GameLogicError,
}

/// A failure of the registry that all connections share.
#[derive(Debug, Clone, Copy, PartialEq, Eq, Structural)]
pub enum RegistryError {
    /// No unused lobby code came up within the allowed number of draws.
    LobbyCodesExhausted,
}

impl ConnectionError {
    /// The code under which the failure is reported.
    pub open spec fn code_spec(&self) -> ErrorCode {
        match self {
            ConnectionError::WebSocketClosed => ErrorCode::DeserializationFailed,
            ConnectionError::MessageDeserializationFailed(_) => ErrorCode::DeserializationFailed,
            ConnectionError::StateTransitionInvalid { .. } => ErrorCode::InvalidStateTransition,
            ConnectionError::LobbyNotFound => ErrorCode::LobbyNotFound,
            ConnectionError::NotHost => ErrorCode::NotHost,
            ConnectionError::PlayerNotFound => ErrorCode::PlayerNotFound,
        }
    }

    /// The failure in words.
    pub open spec fn message_spec(&self) -> Seq<char> {
        match self {
            ConnectionError::WebSocketClosed => "WebSocket connection was closed"@,
            ConnectionError::MessageDeserializationFailed(reason) => {
                "Failed to deserialize client message: "@ + reason@
            },
            ConnectionError::StateTransitionInvalid { from, action } => {
                "Invalid state transition from "@ + from@ + " with action "@ + action@
            },
            ConnectionError::LobbyNotFound => "Lobby not found"@,
            ConnectionError::NotHost => "Only the host can perform this action"@,
            ConnectionError::PlayerNotFound => "Player not found"@,
        }
    }

    /// The failure in words.
    pub fn message(&self) -> (text: String)
        ensures
            text@ == self.message_spec(),
    {
        match self {
            ConnectionError::WebSocketClosed => "WebSocket connection was closed".to_owned(),
            ConnectionError::MessageDeserializationFailed(reason) => {
                let mut text = "Failed to deserialize client message: ".to_owned();
                text.append(reason.as_str());
                text
            },
            ConnectionError::StateTransitionInvalid { from, action } => {
                let mut text = "Invalid state transition from ".to_owned();
                text.append(from.as_str());
                text.append(" with action ");
                text.append(action.as_str());
                text
            },
            ConnectionError::LobbyNotFound => "Lobby not found".to_owned(),
            ConnectionError::NotHost => "Only the host can perform this action".to_owned(),
            ConnectionError::PlayerNotFound => "Player not found".to_owned(),
        }
    }
}

impl ConnectionError {
    /// The message that tells a client of the failure.
    pub open spec fn envelope_spec(&self) -> ServerMessageView {
        ServerMessageView::Error { code: self.code_spec(), message: self.message_spec() }
    }

    /// The message that tells a client of the failure.
    pub fn envelope(self) -> (message: ServerMessage)
        ensures
            message@ == self.envelope_spec(),
    {
        let text = self.message();
        let code = ErrorCode::from(self);
        ServerMessage::Error { code, message: text }
    }
}

impl LobbyError {
    /// The code under which the failure is reported.
    pub open spec fn code_spec(&self) -> ErrorCode {
        match self {
            LobbyError::HostDisconnected => ErrorCode::InvalidStateTransition,
            LobbyError::NoPlayersRemaining => ErrorCode::LobbyNotFound,
        }
    }

    /// The failure in words.
    pub open spec fn message_spec(&self) -> Seq<char> {
        match self {
            LobbyError::HostDisconnected => "Host disconnected from lobby"@,
            LobbyError::NoPlayersRemaining => "No players remaining in lobby"@,
        }
    }

    /// The failure in words.
    pub fn message(&self) -> (text: String)
        ensures
            text@ == self.message_spec(),
    {
        match self {
            LobbyError::HostDisconnected => "Host disconnected from lobby".to_owned(),
            LobbyError::NoPlayersRemaining => "No players remaining in lobby".to_owned(),
        }
    }
}

impl GameError {
    /// The code under which the failure is reported.
    pub open spec fn code_spec(&self) -> ErrorCode {
        match self {
            GameError::NotYourTurn => ErrorCode::NotYourTurn,
            GameError::GameLogicError => ErrorCode::GameLogicError,
        }
    }

    /// The failure in words.
    pub open spec fn message_spec(&self) -> Seq<char> {
        match self {
            GameError::NotYourTurn => "Not your turn"@,
            GameError::GameLogicError => "Game logic error"@,
        }
    }

    /// The failure in words.
    pub fn message(&self) -> (text: String)
        ensures
            text@ == self.message_spec(),
    {
        match self {
            GameError::NotYourTurn => "Not your turn".to_owned(),
            GameError::GameLogicError => "Game logic error".to_owned(),
        }
    }
}

impl GameError {
    /// The message that tells a client of the failure.
    pub open spec fn envelope_spec(&self) -> ServerMessageView {
        ServerMessageView::Error { code: self.code_spec(), message: self.message_spec() }
    }

    /// The message that tells a client of the failure.
    pub fn envelope(self) -> (message: ServerMessage)
        ensures
            message@ == self.envelope_spec(),
    {
        let text = self.message();
        let code = ErrorCode::from(self);
        ServerMessage::Error { code, message: text }
    }
}

impl From<ConnectionError> for ErrorCode {
    fn from(err: ConnectionError) -> (code: ErrorCode) {
        match err {
            ConnectionError::WebSocketClosed => ErrorCode::DeserializationFailed,
            ConnectionError::MessageDeserializationFailed(_) => ErrorCode::DeserializationFailed,
            ConnectionError::StateTransitionInvalid { .. } => ErrorCode::InvalidStateTransition,
            ConnectionError::LobbyNotFound => ErrorCode::LobbyNotFound,
            ConnectionError::NotHost => ErrorCode::NotHost,
            ConnectionError::PlayerNotFound => ErrorCode::PlayerNotFound,
        }
    }
}

impl vstd::std_specs::convert::FromSpecImpl<ConnectionError> for ErrorCode {
    open spec fn obeys_from_spec() -> bool {
        true
    }

    open spec fn from_spec(err: ConnectionError) -> ErrorCode {
        err.code_spec()
    }
}

impl From<LobbyError> for ErrorCode {
    fn from(err: LobbyError) -> (code: ErrorCode) {
        match err {
            LobbyError::HostDisconnected => ErrorCode::InvalidStateTransition,
            LobbyError::NoPlayersRemaining => ErrorCode::LobbyNotFound,
        }
    }
}

impl vstd::std_specs::convert::FromSpecImpl<LobbyError> for ErrorCode {
    open spec fn obeys_from_spec() -> bool {
        true
    }

    open spec fn from_spec(err: LobbyError) -> ErrorCode {
        err.code_spec()
    }
}

impl From<GameError> for ErrorCode {
    fn from(err: GameError) -> (code: ErrorCode) {
        match err {
            GameError::NotYourTurn => ErrorCode::NotYourTurn,
            GameError::GameLogicError => ErrorCode::GameLogicError,
        }
    }
}

impl vstd::std_specs::convert::FromSpecImpl<GameError> for ErrorCode {
    open spec fn obeys_from_spec() -> bool {
        true
    }

    open spec fn from_spec(err: GameError) -> ErrorCode {
        err.code_spec()
    }
}

} // verus!
