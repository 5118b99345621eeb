use multisweeper::error::{ConnectionError, GameError, LobbyError, RegistryError};
use multisweeper::ws::protocol::ErrorCode;

#[test]
fn connection_errors_map_to_their_codes() {
    assert_eq!(ErrorCode::from(ConnectionError::WebSocketClosed), ErrorCode::DeserializationFailed);
    assert_eq!(
        ErrorCode::from(ConnectionError::MessageDeserializationFailed("eof".to_string())),
        ErrorCode::DeserializationFailed
    );
    assert_eq!(
        ErrorCode::from(ConnectionError::StateTransitionInvalid {
            from: "Idle".to_string(),
            action: "StartGame".to_string()
        }),
        ErrorCode::InvalidStateTransition
    );
    assert_eq!(ErrorCode::from(ConnectionError::LobbyNotFound), ErrorCode::LobbyNotFound);
    assert_eq!(ErrorCode::from(ConnectionError::NotHost), ErrorCode::NotHost);
    assert_eq!(ErrorCode::from(ConnectionError::PlayerNotFound), ErrorCode::PlayerNotFound);
}

#[test]
fn lobby_errors_map_to_their_codes() {
    assert_eq!(ErrorCode::from(LobbyError::HostDisconnected), ErrorCode::InvalidStateTransition);
    assert_eq!(ErrorCode::from(LobbyError::NoPlayersRemaining), ErrorCode::LobbyNotFound);
}

#[test]
fn game_errors_map_to_their_codes() {
    assert_eq!(ErrorCode::from(GameError::NotYourTurn), ErrorCode::NotYourTurn);
    assert_eq!(ErrorCode::from(GameError::GameLogicError), ErrorCode::GameLogicError);
}

#[test]
fn connection_errors_have_their_messages() {
    assert_eq!(ConnectionError::WebSocketClosed.message(), "WebSocket connection was closed");
    assert_eq!(
        ConnectionError::MessageDeserializationFailed("expected value".to_string()).message(),
        "Failed to deserialize client message: expected value"
    );
    assert_eq!(
        ConnectionError::StateTransitionInvalid {
            from: "Lobby".to_string(),
            action: "CreateLobby".to_string()
        }
        .message(),
        "Invalid state transition from Lobby with action CreateLobby"
    );
    assert_eq!(ConnectionError::LobbyNotFound.message(), "Lobby not found");
    assert_eq!(ConnectionError::NotHost.message(), "Only the host can perform this action");
    assert_eq!(ConnectionError::PlayerNotFound.message(), "Player not found");
}

#[test]
fn lobby_and_game_errors_have_their_messages() {
    assert_eq!(LobbyError::HostDisconnected.message(), "Host disconnected from lobby");
    assert_eq!(LobbyError::NoPlayersRemaining.message(), "No players remaining in lobby");
    assert_eq!(GameError::NotYourTurn.message(), "Not your turn");
    assert_eq!(GameError::GameLogicError.message(), "Game logic error");
}

#[test]
fn registry_error_is_comparable() {
    assert_eq!(RegistryError::LobbyCodesExhausted, RegistryError::LobbyCodesExhausted);
}
