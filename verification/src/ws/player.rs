//! One client's connection: the state it is in, and what each message,
//! each undecodable frame and the end of the connection lead to.

use crate::error::ConnectionError;
use crate::text::copy_text;
use crate::ws::channel::{bounded_channel, share_sender};
use crate::ws::lobby::LobbyCode;
use crate::ws::protocol::{
    ClientMessage,
    ClientMessageView,
    ErrorCode,
    GameAction,
    IdleAction,
    LobbyAction,
    LobbyCommand,
    PlayerConnection,
    ServerMessage,
    ServerMessageView,
};
use crate::ws::{is_lobby_code, PlayerId, SharedState};
use tokio::sync::mpsc::{Receiver, Sender};
use vstd::prelude::*;

verus! {

/// How many messages each channel of the server buffers.
pub const CHANNEL_CAPACITY: u16 = 32;

/// The state of a connection.
pub enum PlayerStatus {
    /// In no lobby; the connection itself holds the receiving half of its
    /// action channel.
    Idle { action_rcr: Receiver<ClientMessage> },
    /// Member of the lobby with this code.
    Lobby { code: LobbyCode },
    /// In a running game.
    Game,
    /// The connection is over.
    Disconnected,
}

/// What it takes to start the actor of a new lobby.
pub struct LobbySeed {
    /// Where the lobby's commands arrive.
    pub cmd_rcr: Receiver<LobbyCommand>,
    /// The creator, who is the first host.
    pub host: (PlayerId, PlayerConnection),
    /// The creator's action stream.
    pub action_rcr: Receiver<ClientMessage>,
    pub code: LobbyCode,
}

/// What the connection's task does after an event, once it has let go of
/// the registry.
pub struct ConnectionStep {
    /// The state the connection is in now.
    pub status: PlayerStatus,
    /// A message to write to the client.
    pub reply: Option<ServerMessage>,
    /// A message to send into the connection's own action channel.
    pub forward: Option<ClientMessage>,
    /// A command to send to a lobby, with the lobby's handle.
    pub command: Option<(Sender<LobbyCommand>, LobbyCommand)>,
    /// A lobby whose actor is to be started.
    pub spawn: Option<LobbySeed>,
    /// The sending half of a new action channel, to use from now on.
    pub action_sdr: Option<Sender<ClientMessage>>,
    /// Whether to close the socket.
    pub close: bool,
}

/// The name of a state in error messages.
pub open spec fn status_name(status: PlayerStatus) -> Seq<char> {
    match status {
        PlayerStatus::Idle { .. } => "Idle"@,
        PlayerStatus::Lobby { .. } => "Lobby"@,
        PlayerStatus::Game => "Game"@,
        PlayerStatus::Disconnected => "Disconnected"@,
    }
}

/// The name of what a message asks for in error messages.
pub open spec fn action_name(message: ClientMessage) -> Seq<char> {
    match message {
        ClientMessage::IdleClient(IdleAction::CreateLobby) => "CreateLobby"@,
        ClientMessage::IdleClient(IdleAction::JoinLobby { .. }) => "JoinLobby"@,
        ClientMessage::LobbyClient(LobbyAction::StartGame) => "StartGame"@,
        ClientMessage::LobbyClient(LobbyAction::LeaveLobby) => "LeaveLobby"@,
        ClientMessage::GameClient(GameAction::RevealTile { .. }) => "RevealTile"@,
        ClientMessage::GameClient(GameAction::FlagTile { .. }) => "FlagTile"@,
    }
}

/// Whether a connection in `status` may send `message`.
pub open spec fn fits(status: PlayerStatus, message: ClientMessage) -> bool {
    match status {
        PlayerStatus::Idle { .. } => message is IdleClient,
        PlayerStatus::Lobby { .. } => message is LobbyClient,
        PlayerStatus::Game => message is GameClient,
        PlayerStatus::Disconnected => false,
    }
}

/// The error that answers a client when no lobby code is free.
pub open spec fn no_code_view() -> ServerMessageView {
    ServerMessageView::Error { code: ErrorCode::LobbyNotFound, message: "No lobby code is free"@ }
}

impl PlayerStatus {
    fn name(&self) -> (name: String)
        ensures
            name@ == status_name(*self),
    {
        match self {
            PlayerStatus::Idle { .. } => "Idle".to_owned(),
            PlayerStatus::Lobby { .. } => "Lobby".to_owned(),
            PlayerStatus::Game => "Game".to_owned(),
            PlayerStatus::Disconnected => "Disconnected".to_owned(),
        }
    }
}

impl ClientMessage {
    fn name(&self) -> (name: String)
        ensures
            name@ == action_name(*self),
    {
        match self {
            ClientMessage::IdleClient(IdleAction::CreateLobby) => "CreateLobby".to_owned(),
            ClientMessage::IdleClient(IdleAction::JoinLobby { .. }) => "JoinLobby".to_owned(),
            ClientMessage::LobbyClient(LobbyAction::StartGame) => "StartGame".to_owned(),
            ClientMessage::LobbyClient(LobbyAction::LeaveLobby) => "LeaveLobby".to_owned(),
            ClientMessage::GameClient(GameAction::RevealTile { .. }) => "RevealTile".to_owned(),
            ClientMessage::GameClient(GameAction::FlagTile { .. }) => "FlagTile".to_owned(),
        }
    }
}

impl ConnectionStep {
    /// The step asks for nothing but a reply to the client.
    pub open spec fn only_replies(&self, message: ServerMessageView) -> bool {
        &&& self.reply matches Some(reply) && reply@ == message
        &&& self.forward is None
        &&& self.command is None
        &&& self.spawn is None
        &&& self.action_sdr is None
        &&& !self.close
    }

    /// The step asks for nothing but to pass a message on into the
    /// connection's own action channel.
    pub open spec fn only_forwards(&self, message: ClientMessageView) -> bool {
        &&& self.reply is None
        &&& self.forward matches Some(forward) && forward@ == message
        &&& self.command is None
        &&& self.spawn is None
        &&& self.action_sdr is None
        &&& !self.close
    }

    /// The step that answers with an error and leaves the state as it was.
    fn refuse(status: PlayerStatus, error: ConnectionError) -> (step: ConnectionStep)
        ensures
            step.status == status,
            step.only_replies(error.envelope_spec()),
    {
        ConnectionStep {
            status,
            reply: Some(error.envelope()),
            forward: None,
            command: None,
            spawn: None,
            action_sdr: None,
            close: false,
        }
    }

    /// The step that passes a message on and moves to `status`.
    fn pass_on(status: PlayerStatus, message: ClientMessage) -> (step: ConnectionStep)
        ensures
            step.status == status,
            step.only_forwards(message@),
    {
        ConnectionStep {
            status,
            reply: None,
            forward: Some(message),
            command: None,
            spawn: None,
            action_sdr: None,
            close: false,
        }
    }
}

/// What `CreateLobby` from the idle player `id` does. The player leaves the
/// idle players and a lobby is registered for it under a code that was
/// free; the step carries what the new lobby's actor needs, and the
/// connection is in that lobby. If the player is not idle, or no free code
/// came up, the client is told and nothing changes; the latter cannot
/// happen while no lobby is live.
pub open spec fn creates_lobby(
    before: &SharedState,
    after: &SharedState,
    id: Seq<char>,
    action_rcr: Receiver<ClientMessage>,
    step: ConnectionStep,
) -> bool {
    &&& after.minted() == before.minted()
    &&& step.forward is None && step.command is None && step.action_sdr is None && !step.close
    &&& if !before.idle().contains_key(id) {
        &&& after.idle() == before.idle()
        &&& after.lobbies() == before.lobbies()
        &&& step.status == (PlayerStatus::Idle { action_rcr })
        &&& step.spawn is None
        &&& step.reply matches Some(reply) && reply@ == ConnectionError::PlayerNotFound.envelope_spec()
    } else {
        match step.spawn {
            Some(seed) => {
                &&& is_lobby_code(seed.code@)
                &&& !before.lobbies().contains_key(seed.code@)
                &&& after.lobbies().dom() == before.lobbies().dom().insert(seed.code@)
                &&& forall|code: Seq<char>|
                    before.lobbies().contains_key(code) ==> #[trigger] after.lobbies()[code]
                        == before.lobbies()[code]
                &&& after.idle() == before.idle().remove(id)
                &&& seed.host.0@ == id
                &&& seed.host.1 == before.idle()[id]
                &&& seed.action_rcr == action_rcr
                &&& step.status matches PlayerStatus::Lobby { code } && code@ == seed.code@
                &&& step.reply is None
            },
            None => {
                &&& before.code_taken()
                &&& after.idle() == before.idle()
                &&& after.lobbies() == before.lobbies()
                &&& step.status == (PlayerStatus::Idle { action_rcr })
                &&& step.reply matches Some(reply) && reply@ == no_code_view()
            },
        }
    }
}

/// What `JoinLobby` from the idle player `id` does. If the lobby is live
/// and the player idle, the player leaves the idle players, the step
/// carries the command that adds it to the lobby, and the connection is in
/// that lobby. Otherwise the client is told and nothing changes.
pub open spec fn joins_lobby(
    before: &SharedState,
    after: &SharedState,
    id: Seq<char>,
    action_rcr: Receiver<ClientMessage>,
    code: Seq<char>,
    step: ConnectionStep,
) -> bool {
    &&& after.minted() == before.minted()
    &&& after.lobbies() == before.lobbies()
    &&& step.forward is None && step.spawn is None && step.action_sdr is None && !step.close
    &&& if !before.lobbies().contains_key(code) {
        &&& after.idle() == before.idle()
        &&& step.status == (PlayerStatus::Idle { action_rcr })
        &&& step.command is None
        &&& step.reply matches Some(reply) && reply@ == ConnectionError::LobbyNotFound.envelope_spec()
    } else if !before.idle().contains_key(id) {
        &&& after.idle() == before.idle()
        &&& step.status == (PlayerStatus::Idle { action_rcr })
        &&& step.command is None
        &&& step.reply matches Some(reply) && reply@ == ConnectionError::PlayerNotFound.envelope_spec()
    } else {
        &&& after.idle() == before.idle().remove(id)
        &&& step.status matches PlayerStatus::Lobby { code: joined } && joined@ == code
        &&& step.reply is None
        &&& step.command matches Some((_, LobbyCommand::AddPlayer {
            id: added,
            player_connection,
            action_rcr: stream,
        })) && added@ == id && player_connection == before.idle()[id] && stream == action_rcr
    }
}

/// What `LeaveLobby` from the member `id` of the lobby `code` does. If the
/// lobby is live, the step carries the command that takes the player out
/// and back to idle, and the sending half of a new action channel whose
/// receiving half the connection, idle again, holds. If the lobby is gone
/// the client is told and nothing changes.
pub open spec fn leaves_lobby(
    before: &SharedState,
    after: &SharedState,
    id: Seq<char>,
    code: Seq<char>,
    step: ConnectionStep,
) -> bool {
    &&& after.minted() == before.minted()
    &&& after.lobbies() == before.lobbies()
    &&& after.idle() == before.idle()
    &&& step.forward is None && step.spawn is None && !step.close
    &&& if !before.lobbies().contains_key(code) {
        &&& step.status matches PlayerStatus::Lobby { code: stays } && stays@ == code
        &&& step.command is None
        &&& step.action_sdr is None
        &&& step.reply matches Some(reply) && reply@ == ConnectionError::LobbyNotFound.envelope_spec()
    } else {
        &&& step.status is Idle
        &&& step.reply is None
        &&& step.action_sdr is Some
        &&& step.command matches Some((_, LobbyCommand::RemovePlayer { id: removed, return_to_idle }))
            && removed@ == id && return_to_idle
    }
}

/// What a client's message does to its connection and to the registry.
pub open spec fn message_handled(
    before: &SharedState,
    after: &SharedState,
    status: PlayerStatus,
    id: Seq<char>,
    message: ClientMessage,
    step: ConnectionStep,
) -> bool {
    match (status, message) {
        (
            PlayerStatus::Idle { action_rcr },
            ClientMessage::IdleClient(IdleAction::CreateLobby),
        ) => creates_lobby(before, after, id, action_rcr, step),
        (
            PlayerStatus::Idle { action_rcr },
            ClientMessage::IdleClient(IdleAction::JoinLobby { code }),
        ) => joins_lobby(before, after, id, action_rcr, code@, step),
        (PlayerStatus::Lobby { code }, ClientMessage::LobbyClient(LobbyAction::StartGame)) => {
            &&& after.minted() == before.minted()
            &&& after.lobbies() == before.lobbies()
            &&& after.idle() == before.idle()
            &&& step.status == PlayerStatus::Game
            &&& step.only_forwards(message@)
        },
        (PlayerStatus::Lobby { code }, ClientMessage::LobbyClient(LobbyAction::LeaveLobby)) => {
            leaves_lobby(before, after, id, code@, step)
        },
        (PlayerStatus::Game, ClientMessage::GameClient(_)) => {
            &&& after.minted() == before.minted()
            &&& after.lobbies() == before.lobbies()
            &&& after.idle() == before.idle()
            &&& step.status == PlayerStatus::Game
            &&& step.only_forwards(message@)
        },
        _ => {
            &&& after.minted() == before.minted()
            &&& after.lobbies() == before.lobbies()
            &&& after.idle() == before.idle()
            &&& step.status == status
            &&& step.only_replies(
                ServerMessageView::Error {
                    code: ErrorCode::InvalidStateTransition,
                    message: "Invalid state transition from "@ + status_name(status)
                        + " with action "@ + action_name(message),
                },
            )
        },
    }
}

/// A message that does not fit the state never changes it, and never
/// closes the socket: the client gets an error and that is all.
pub proof fn lemma_misfit_changes_nothing(
    before: &SharedState,
    after: &SharedState,
    status: PlayerStatus,
    id: Seq<char>,
    message: ClientMessage,
    step: ConnectionStep,
)
    requires
        !fits(status, message),
        message_handled(before, after, status, id, message, step),
    ensures
        step.status == status,
        !step.close,
        step.reply matches Some(ServerMessage::Error { code, .. }) && code
            == ErrorCode::InvalidStateTransition,
        step.forward is None && step.command is None && step.spawn is None,
        after.idle() == before.idle() && after.lobbies() == before.lobbies(),
{
}

fn create_lobby(
    registry: &mut SharedState,
    player_id: &PlayerId,
    action_rcr: Receiver<ClientMessage>,
) -> (step: ConnectionStep)
    requires
        old(registry).wf(),
    ensures
        final(registry).wf(),
        creates_lobby(old(registry), final(registry), player_id@, action_rcr, step),
{
    let ghost before = *registry;
    let host = match registry.de_idle_player_by_id(copy_text(player_id)) {
        Some(host) => host,
        None => {
            assert(registry.idle() =~= before.idle());
            return ConnectionStep::refuse(
                PlayerStatus::Idle { action_rcr },
                ConnectionError::PlayerNotFound,
            );
        },
    };
    let (cmd_sdr, cmd_rcr) = bounded_channel::<LobbyCommand>(CHANNEL_CAPACITY);
    match registry.register_lobby(cmd_sdr) {
        Ok(code) => {
            let joined = copy_text(&code);
            ConnectionStep {
                status: PlayerStatus::Lobby { code: joined },
                reply: None,
                forward: None,
                command: None,
                spawn: Some(LobbySeed { cmd_rcr, host, action_rcr, code }),
                action_sdr: None,
                close: false,
            }
        },
        Err(_) => {
            let (id, connection) = host;
            registry.register_idle_player(id, connection);
            assert(registry.idle() =~= before.idle());
            ConnectionStep {
                status: PlayerStatus::Idle { action_rcr },
                reply: Some(
                    ServerMessage::Error {
                        code: ErrorCode::LobbyNotFound,
                        message: "No lobby code is free".to_owned(),
                    },
                ),
                forward: None,
                command: None,
                spawn: None,
                action_sdr: None,
                close: false,
            }
        },
    }
}

fn join_lobby(
    registry: &mut SharedState,
    player_id: &PlayerId,
    action_rcr: Receiver<ClientMessage>,
    code: LobbyCode,
) -> (step: ConnectionStep)
    requires
        old(registry).wf(),
    ensures
        final(registry).wf(),
        joins_lobby(old(registry), final(registry), player_id@, action_rcr, code@, step),
{
    let ghost before = *registry;
    let (code, handle) = match registry.get_lobby(code) {
        Some((code, handle)) => (code, share_sender(handle)),
        None => {
            return ConnectionStep::refuse(
                PlayerStatus::Idle { action_rcr },
                ConnectionError::LobbyNotFound,
            );
        },
    };
    match registry.de_idle_player_by_id(copy_text(player_id)) {
        Some((id, player_connection)) => ConnectionStep {
            status: PlayerStatus::Lobby { code },
            reply: None,
            forward: None,
            command: Some((handle, LobbyCommand::AddPlayer { id, player_connection, action_rcr })),
            spawn: None,
            action_sdr: None,
            close: false,
        },
        None => {
            assert(registry.idle() =~= before.idle());
            ConnectionStep::refuse(
                PlayerStatus::Idle { action_rcr },
                ConnectionError::PlayerNotFound,
            )
        },
    }
}

fn leave_lobby(registry: &SharedState, player_id: &PlayerId, code: LobbyCode) -> (step:
    ConnectionStep)
    requires
        registry.wf(),
    ensures
        leaves_lobby(registry, registry, player_id@, code@, step),
{
    let found = match registry.get_lobby(copy_text(&code)) {
        Some((_, handle)) => Some(share_sender(handle)),
        None => None,
    };
    match found {
        Some(handle) => {
            let (action_sdr, action_rcr) = bounded_channel::<ClientMessage>(CHANNEL_CAPACITY);
            ConnectionStep {
                status: PlayerStatus::Idle { action_rcr },
                reply: None,
                forward: None,
                command: Some(
                    (
                        handle,
                        LobbyCommand::RemovePlayer {
                            id: copy_text(player_id),
                            return_to_idle: true,
                        },
                    ),
                ),
                spawn: None,
                action_sdr: Some(action_sdr),
                close: false,
            }
        },
        None => ConnectionStep::refuse(
            PlayerStatus::Lobby { code },
            ConnectionError::LobbyNotFound,
        ),
    }
}

/// Handles a decoded message from the client `player_id`, whose connection
/// is in `status`. The caller holds the registry for the length of this
/// call and carries out the step after letting go of it.
pub fn handle_client_message(
    status: PlayerStatus,
    player_id: &PlayerId,
    message: ClientMessage,
    registry: &mut SharedState,
) -> (step: ConnectionStep)
    requires
        old(registry).wf(),
    ensures
        final(registry).wf(),
        message_handled(old(registry), final(registry), status, player_id@, message, step),
{
    match (status, message) {
        (PlayerStatus::Idle { action_rcr }, ClientMessage::IdleClient(IdleAction::CreateLobby)) => {
            create_lobby(registry, player_id, action_rcr)
        },
        (
            PlayerStatus::Idle { action_rcr },
            ClientMessage::IdleClient(IdleAction::JoinLobby { code }),
        ) => join_lobby(registry, player_id, action_rcr, code),
        (PlayerStatus::Lobby { code }, ClientMessage::LobbyClient(LobbyAction::StartGame)) => {
            ConnectionStep::pass_on(
                PlayerStatus::Game,
                ClientMessage::LobbyClient(LobbyAction::StartGame),
            )
        },
        (PlayerStatus::Lobby { code }, ClientMessage::LobbyClient(LobbyAction::LeaveLobby)) => {
            leave_lobby(registry, player_id, code)
        },
        (PlayerStatus::Game, ClientMessage::GameClient(action)) => ConnectionStep::pass_on(
            PlayerStatus::Game,
            ClientMessage::GameClient(action),
        ),
        (status, message) => {
            let error = ConnectionError::StateTransitionInvalid {
                from: status.name(),
                action: message.name(),
            };
            ConnectionStep::refuse(status, error)
        },
    }
}

/// What the end of a connection does: an idle player leaves the idle
/// players, a member of a live lobby is taken out of it by a command that
/// does not send it back to idle, and the connection is over.
pub open spec fn connection_ended(
    before: &SharedState,
    after: &SharedState,
    status: PlayerStatus,
    id: Seq<char>,
    step: ConnectionStep,
) -> bool {
    &&& after.minted() == before.minted()
    &&& after.lobbies() == before.lobbies()
    &&& step.status == PlayerStatus::Disconnected
    &&& step.forward is None && step.spawn is None && step.action_sdr is None
    &&& step.close
    &&& match status {
        PlayerStatus::Idle { .. } => after.idle() == before.idle().remove(id) && step.command
            is None,
        PlayerStatus::Lobby { code } => {
            &&& after.idle() == before.idle()
            &&& if before.lobbies().contains_key(code@) {
                step.command matches Some((_, LobbyCommand::RemovePlayer {
                    id: removed,
                    return_to_idle,
                })) && removed@ == id && !return_to_idle
            } else {
                step.command is None
            }
        },
        _ => after.idle() == before.idle() && step.command is None,
    }
}

/// Winds the connection up, with `reply` as the last thing to tell the
/// client, if anything.
fn wind_up(
    status: PlayerStatus,
    player_id: &PlayerId,
    registry: &mut SharedState,
    reply: Option<ServerMessage>,
) -> (step: ConnectionStep)
    requires
        old(registry).wf(),
    ensures
        final(registry).wf(),
        connection_ended(old(registry), final(registry), status, player_id@, step),
        step.reply == reply,
{
    let command = match status {
        PlayerStatus::Idle { action_rcr } => {
            registry.de_idle_player_by_id(copy_text(player_id));
            None
        },
        PlayerStatus::Lobby { code } => {
            match registry.get_lobby(code) {
                Some((_, handle)) => Some(
                    (
                        share_sender(handle),
                        LobbyCommand::RemovePlayer {
                            id: copy_text(player_id),
                            return_to_idle: false,
                        },
                    ),
                ),
                None => None,
            }
        },
        _ => None,
    };
    ConnectionStep {
        status: PlayerStatus::Disconnected,
        reply,
        forward: None,
        command,
        spawn: None,
        action_sdr: None,
        close: true,
    }
}

/// The client's connection has ended.
pub fn handle_disconnect(status: PlayerStatus, player_id: &PlayerId, registry: &mut SharedState) -> (step:
    ConnectionStep)
    requires
        old(registry).wf(),
    ensures
        final(registry).wf(),
        connection_ended(old(registry), final(registry), status, player_id@, step),
        step.reply is None,
{
    wind_up(status, player_id, registry, None)
}

/// The client sent a frame that is no message; `reason` says why. The
/// client is told, and the connection ends as in `handle_disconnect`.
pub fn handle_undecodable(
    status: PlayerStatus,
    player_id: &PlayerId,
    reason: String,
    registry: &mut SharedState,
) -> (step: ConnectionStep)
    requires
        old(registry).wf(),
    ensures
        final(registry).wf(),
        connection_ended(old(registry), final(registry), status, player_id@, step),
        step.reply matches Some(reply) && reply@ == ConnectionError::MessageDeserializationFailed(
            reason,
        ).envelope_spec(),
{
    let reply = ConnectionError::MessageDeserializationFailed(reason).envelope();
    wind_up(status, player_id, registry, Some(reply))
}

} // verus!
