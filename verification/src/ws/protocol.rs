//! The messages that clients and server exchange, and the commands that
//! connections send to a lobby.

use crate::text::copy_text;
use crate::ws::lobby::{LobbyCode, LobbyStatus};
use crate::ws::PlayerId;
use tokio::sync::mpsc::{Receiver, Sender};
use vstd::prelude::*;

verus! {

/// The kinds of failure that a client is told about.
#[derive(Debug, Clone, Copy, PartialEq, Eq, Structural)]
pub enum ErrorCode {
    DeserializationFailed,
    InvalidStateTransition,
    LobbyNotFound,
    NotHost,
    PlayerNotFound,
    NotYourTurn,
    GameLogicError,
}

/// What a player without a lobby may ask for.
#[derive(Debug, Clone, PartialEq, Eq)]
pub enum IdleAction {
    CreateLobby,
    JoinLobby { code: LobbyCode },
}

/// What a member of a lobby may ask for.
#[derive(Debug, Clone, Copy, PartialEq, Eq, Structural)]
pub enum LobbyAction {
    StartGame,
    LeaveLobby,
}

/// A move in a running game, with coordinates counted from zero.
#[derive(Debug, Clone, Copy, PartialEq, Eq, Structural)]
pub enum GameAction {
    RevealTile { x: u8, y: u8 },
    FlagTile { x: u8, y: u8 },
}

impl GameAction {
    /// The move on the board that the action asks for.
    pub open spec fn move_spec(&self) -> crate::game::GameAction {
        match self {
            GameAction::RevealTile { x, y } => crate::game::GameAction::Reveal { x: *x, y: *y },
            GameAction::FlagTile { x, y } => crate::game::GameAction::Flag { x: *x, y: *y },
        }
    }

    /// The move on the board that the action asks for.
    pub fn to_move(&self) -> (action: crate::game::GameAction)
        ensures
            action == self.move_spec(),
    {
        match self {
            GameAction::RevealTile { x, y } => crate::game::GameAction::Reveal { x: *x, y: *y },
            GameAction::FlagTile { x, y } => crate::game::GameAction::Flag { x: *x, y: *y },
        }
    }
}

/// A message from a client.
#[derive(Debug, Clone, PartialEq, Eq)]
pub enum ClientMessage {
    IdleClient(IdleAction),
    LobbyClient(LobbyAction),
    GameClient(GameAction),
}

/// How a player's turn ended.
#[derive(Debug, Clone, PartialEq, Eq)]
pub enum PlayerResult {
    Won,
    Lost,
    /// The game goes on; the text is the board after the move.
    Playing(String),
    Stalled,
    Timeout,
}

/// A message to a client.
#[allow(inconsistent_fields)]
#[derive(Debug, Clone, PartialEq, Eq)]
pub enum ServerMessage {
    LobbyState { code: LobbyCode, players: Vec<PlayerId>, host_id: PlayerId, status: LobbyStatus },
    GameStarted,
    GameInfo { code: LobbyCode, width: u8, height: u8, number_of_mines: u8, seed: u64 },
    PlayerTurn(PlayerId),
    PlayerAction(PlayerId, GameAction),
    PlayerResult(PlayerId, PlayerResult),
    Error { code: ErrorCode, message: String },
}

/// The two sending halves that the server holds for one client: one into
/// the client's action channel, one into its message channel.
#[derive(Debug)]
pub struct PlayerConnection {
    pub action_sdr: Sender<ClientMessage>,
    pub message_sdr: Sender<ServerMessage>,
}

/// What a connection asks of a lobby.
pub enum LobbyCommand {
    AddPlayer { id: PlayerId, player_connection: PlayerConnection, action_rcr: Receiver<ClientMessage> },
    RemovePlayer { id: PlayerId, return_to_idle: bool },
}

/// An `IdleAction` with its text as a sequence of characters.
pub enum IdleActionView {
    CreateLobby,
    JoinLobby { code: Seq<char> },
}

/// A `ClientMessage` with its text as sequences of characters.
pub enum ClientMessageView {
    IdleClient(IdleActionView),
    LobbyClient(LobbyAction),
    GameClient(GameAction),
}

/// A `PlayerResult` with its text as a sequence of characters.
pub enum PlayerResultView {
    Won,
    Lost,
    Playing(Seq<char>),
    Stalled,
    Timeout,
}

/// A `ServerMessage` with its text as sequences of characters.
#[allow(inconsistent_fields)]
pub enum ServerMessageView {
    LobbyState { code: Seq<char>, players: Seq<Seq<char>>, host_id: Seq<char>, status: LobbyStatus },
    GameStarted,
    GameInfo { code: Seq<char>, width: u8, height: u8, number_of_mines: u8, seed: u64 },
    PlayerTurn(Seq<char>),
    PlayerAction(Seq<char>, GameAction),
    PlayerResult(Seq<char>, PlayerResultView),
    Error { code: ErrorCode, message: Seq<char> },
}

/// The texts of a list of names.
pub open spec fn names(list: Seq<String>) -> Seq<Seq<char>> {
    Seq::new(list.len(), |i: int| list[i]@)
}

impl View for IdleAction {
    type V = IdleActionView;

    open spec fn view(&self) -> IdleActionView {
        match self {
            IdleAction::CreateLobby => IdleActionView::CreateLobby,
            IdleAction::JoinLobby { code } => IdleActionView::JoinLobby { code: code@ },
        }
    }
}

impl View for ClientMessage {
    type V = ClientMessageView;

    open spec fn view(&self) -> ClientMessageView {
        match self {
            ClientMessage::IdleClient(action) => ClientMessageView::IdleClient(action@),
            ClientMessage::LobbyClient(action) => ClientMessageView::LobbyClient(*action),
            ClientMessage::GameClient(action) => ClientMessageView::GameClient(*action),
        }
    }
}

impl View for PlayerResult {
    type V = PlayerResultView;

    open spec fn view(&self) -> PlayerResultView {
        match self {
            PlayerResult::Won => PlayerResultView::Won,
            PlayerResult::Lost => PlayerResultView::Lost,
            PlayerResult::Playing(board) => PlayerResultView::Playing(board@),
            PlayerResult::Stalled => PlayerResultView::Stalled,
            PlayerResult::Timeout => PlayerResultView::Timeout,
        }
    }
}

impl View for ServerMessage {
    type V = ServerMessageView;

    open spec fn view(&self) -> ServerMessageView {
        match self {
            ServerMessage::LobbyState { code, players, host_id, status } => {
                ServerMessageView::LobbyState {
                    code: code@,
                    players: names(players@),
                    host_id: host_id@,
                    status: *status,
                }
            },
            ServerMessage::GameStarted => ServerMessageView::GameStarted,
            ServerMessage::GameInfo { code, width, height, number_of_mines, seed } => {
                ServerMessageView::GameInfo {
                    code: code@,
                    width: *width,
                    height: *height,
                    number_of_mines: *number_of_mines,
                    seed: *seed,
                }
            },
            ServerMessage::PlayerTurn(player) => ServerMessageView::PlayerTurn(player@),
            ServerMessage::PlayerAction(player, action) => ServerMessageView::PlayerAction(
                player@,
                *action,
            ),
            ServerMessage::PlayerResult(player, result) => ServerMessageView::PlayerResult(
                player@,
                result@,
            ),
            ServerMessage::Error { code, message } => ServerMessageView::Error {
                code: *code,
                message: message@,
            },
        }
    }
}

/// A copy of a list of names.
pub fn copy_names(list: &Vec<String>) -> (copy: Vec<String>)
    ensures
        names(copy@) == names(list@),
{
    let mut copy: Vec<String> = Vec::new();
    let mut index: usize = 0;
    while index < list.len()
        invariant
            index <= list@.len(),
            copy@.len() == index,
            forall|i: int| 0 <= i < index ==> (#[trigger] copy@[i])@ == list@[i]@,
        decreases list@.len() - index,
    {
        copy.push(copy_text(&list[index]));
        index = index + 1;
    }
    assert(names(copy@) =~= names(list@));
    copy
}

impl PlayerResult {
    /// A copy of the result.
    pub fn duplicate(&self) -> (copy: PlayerResult)
        ensures
            copy@ == self@,
    {
        match self {
            PlayerResult::Won => PlayerResult::Won,
            PlayerResult::Lost => PlayerResult::Lost,
            PlayerResult::Playing(board) => PlayerResult::Playing(copy_text(board)),
            PlayerResult::Stalled => PlayerResult::Stalled,
            PlayerResult::Timeout => PlayerResult::Timeout,
        }
    }
}

impl ServerMessage {
    /// A copy of the message.
    pub fn duplicate(&self) -> (copy: ServerMessage)
        ensures
            copy@ == self@,
    {
        match self {
            ServerMessage::LobbyState { code, players, host_id, status } => {
                ServerMessage::LobbyState {
                    code: copy_text(code),
                    players: copy_names(players),
                    host_id: copy_text(host_id),
                    status: *status,
                }
            },
            ServerMessage::GameStarted => ServerMessage::GameStarted,
            ServerMessage::GameInfo { code, width, height, number_of_mines, seed } => {
                ServerMessage::GameInfo {
                    code: copy_text(code),
                    width: *width,
                    height: *height,
                    number_of_mines: *number_of_mines,
                    seed: *seed,
                }
            },
            ServerMessage::PlayerTurn(player) => ServerMessage::PlayerTurn(copy_text(player)),
            ServerMessage::PlayerAction(player, action) => ServerMessage::PlayerAction(
                copy_text(player),
                *action,
            ),
            ServerMessage::PlayerResult(player, result) => ServerMessage::PlayerResult(
                copy_text(player),
                result.duplicate(),
            ),
            ServerMessage::Error { code, message } => ServerMessage::Error {
                code: *code,
                message: copy_text(message),
            },
        }
    }
}

} // verus!
