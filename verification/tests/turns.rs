use multisweeper::game::board::{Board, RevealResult};
use multisweeper::game::GameDifficulty;
use multisweeper::ws::lobby::{Delivery, Lobby, LobbyStatus};
use multisweeper::ws::lobby_game::{LobbyGame, TurnNext, TURN_SECONDS};
use multisweeper::ws::protocol::{
    ClientMessage, ErrorCode, GameAction, IdleAction, LobbyAction, PlayerConnection, PlayerResult,
    ServerMessage,
};
use tokio::sync::mpsc::channel;

fn lobby_of(count: usize) -> Lobby {
    let mut lobby: Option<Lobby> = None;
    for n in 0..count {
        let (action_sdr, action_rcr) = channel::<ClientMessage>(32);
        let (message_sdr, _message_rcr) = channel::<ServerMessage>(32);
        let connection = PlayerConnection { action_sdr, message_sdr };
        let id = format!("player {n}");
        match lobby.as_mut() {
            None => lobby = Some(Lobby::new(id, connection, action_rcr, "1234".to_string())),
            Some(lobby) => {
                lobby.register_player(id, connection, action_rcr);
            }
        }
    }
    lobby.unwrap()
}

fn to_all(count: usize, message: ServerMessage) -> Vec<Delivery> {
    (0..count)
        .map(|n| Delivery { recipient: format!("player {n}"), message: message.clone() })
        .collect()
}

fn to_one(player: &str, message: ServerMessage) -> Vec<Delivery> {
    vec![Delivery { recipient: player.to_string(), message }]
}

fn turn(count: usize, player: &str) -> Vec<Delivery> {
    to_all(count, ServerMessage::PlayerTurn(player.to_string()))
}

fn result(count: usize, player: &str, result: PlayerResult) -> Vec<Delivery> {
    to_all(count, ServerMessage::PlayerResult(player.to_string(), result))
}

fn action(count: usize, player: &str, action: GameAction) -> Vec<Delivery> {
    to_all(count, ServerMessage::PlayerAction(player.to_string(), action))
}

fn reveal_tile(x: u8, y: u8) -> ClientMessage {
    ClientMessage::GameClient(GameAction::RevealTile { x, y })
}

fn cells(driver: &LobbyGame, mines: bool) -> Vec<(u8, u8)> {
    let board = driver.game().board();
    let mut found = Vec::new();
    for y in 0..board.height() {
        for x in 0..board.width() {
            if board.cell(x, y).unwrap().is_mine == mines {
                found.push((x, y));
            }
        }
    }
    found
}

/// A seed whose 4 by 4 board with 3 mines opens completely from `(0, 0)`.
fn seed_that_opens_from_the_corner() -> u64 {
    for seed in 0..100_000u64 {
        let mut board = Board::new(4, 4, 3, seed);
        if board.reveal_at(0, 0) == Ok(RevealResult::FloodRevealed)
            && board.is_all_safe_cells_revealed()
        {
            return seed;
        }
    }
    panic!("no such seed");
}

/// A seed whose 4 by 4 board with 3 mines has a numbered cell at `(0, 0)`.
fn seed_with_a_numbered_corner() -> u64 {
    for seed in 0..100_000u64 {
        let board = Board::new(4, 4, 3, seed);
        let corner = board.cell(0, 0).unwrap();
        if !corner.is_mine && corner.adjacent_mines > 0 {
            return seed;
        }
    }
    panic!("no such seed");
}

#[test]
fn the_turn_lasts_thirty_seconds() {
    assert_eq!(TURN_SECONDS, 30);
}

#[test]
fn a_game_starts_with_info_and_the_first_turn() {
    let (driver, step) = LobbyGame::start(lobby_of(2), GameDifficulty::Test, 1234);
    let mut expected = to_all(
        2,
        ServerMessage::GameInfo {
            code: "1234".to_string(),
            width: 4,
            height: 4,
            number_of_mines: 3,
            seed: 1234,
        },
    );
    expected.extend(turn(2, "player 0"));
    assert_eq!(step.deliveries, expected);
    assert_eq!(step.next, TurnNext::NewTurn);
    let status = driver.status();
    assert_eq!(status.current, Some("player 0".to_string()));
    assert_eq!(status.waiting, vec!["player 1".to_string()]);
    assert_eq!(driver.lobby().members().len(), 2);
    assert!(driver.is_current(&"player 0".to_string()));
    assert!(!driver.is_current(&"player 1".to_string()));
}

#[test]
fn turn_and_timeout() {
    let (mut driver, _) = LobbyGame::start(lobby_of(2), GameDifficulty::Test, 1234);
    let step = driver.handle_deadline();
    let mut expected = result(2, "player 0", PlayerResult::Timeout);
    expected.extend(turn(2, "player 1"));
    assert_eq!(step.deliveries, expected);
    assert_eq!(step.next, TurnNext::NewTurn);
    let status = driver.status();
    assert_eq!(status.current, Some("player 1".to_string()));
    assert!(status.waiting.is_empty());
}

#[test]
fn a_timeout_is_broadcast_once_per_member() {
    let (mut driver, _) = LobbyGame::start(lobby_of(3), GameDifficulty::Test, 1234);
    let quiet = driver.handle_message(
        &"player 0".to_string(),
        &ClientMessage::LobbyClient(LobbyAction::StartGame),
    );
    assert!(quiet.deliveries.is_empty());
    assert_eq!(quiet.next, TurnNext::Wait);
    let step = driver.handle_deadline();
    for n in 0..3 {
        let count = step
            .deliveries
            .iter()
            .filter(|d| {
                d.recipient == format!("player {n}")
                    && d.message
                        == ServerMessage::PlayerResult(
                            "player 0".to_string(),
                            PlayerResult::Timeout,
                        )
            })
            .count();
        assert_eq!(count, 1);
    }
}

#[test]
fn timeouts_eliminate_until_the_game_is_over() {
    let (mut driver, _) = LobbyGame::start(lobby_of(2), GameDifficulty::Test, 1234);
    assert_eq!(driver.handle_deadline().next, TurnNext::NewTurn);
    let step = driver.handle_deadline();
    assert_eq!(step.deliveries, result(2, "player 1", PlayerResult::Timeout));
    assert_eq!(step.next, TurnNext::Finished);
    assert_eq!(driver.status().current, None);
    let late = driver.handle_deadline();
    assert!(late.deliveries.is_empty());
    assert_eq!(late.next, TurnNext::Finished);
    let ignored = driver.handle_message(&"player 0".to_string(), &reveal_tile(0, 0));
    assert!(ignored.deliveries.is_empty());
    assert_eq!(ignored.next, TurnNext::Finished);
}

#[test]
fn reveal_win() {
    let seed = seed_that_opens_from_the_corner();
    let (mut driver, _) = LobbyGame::start(lobby_of(2), GameDifficulty::Test, seed);
    let step = driver.handle_message(&"player 0".to_string(), &reveal_tile(0, 0));
    let mut expected = action(2, "player 0", GameAction::RevealTile { x: 0, y: 0 });
    expected.extend(result(2, "player 0", PlayerResult::Won));
    assert_eq!(step.deliveries, expected);
    assert_eq!(step.next, TurnNext::Finished);
    let status = driver.status();
    assert_eq!(status.current, None);
    assert!(status.waiting.is_empty());
}

#[test]
fn a_move_passes_the_turn_and_requeues_the_player() {
    let seed = seed_with_a_numbered_corner();
    let (mut driver, _) = LobbyGame::start(lobby_of(3), GameDifficulty::Test, seed);
    let step = driver.handle_message(&"player 0".to_string(), &reveal_tile(0, 0));
    let snapshot = driver.game().snapshot();
    let mut expected = action(3, "player 0", GameAction::RevealTile { x: 0, y: 0 });
    expected.extend(result(3, "player 0", PlayerResult::Playing(snapshot)));
    expected.extend(turn(3, "player 1"));
    assert_eq!(step.deliveries, expected);
    assert_eq!(step.next, TurnNext::NewTurn);
    let status = driver.status();
    assert_eq!(status.current, Some("player 1".to_string()));
    assert_eq!(status.waiting, vec!["player 2".to_string(), "player 0".to_string()]);
    assert!(driver.game().board().cell(0, 0).unwrap().is_revealed);
}

#[test]
fn a_single_player_keeps_playing() {
    let seed = seed_with_a_numbered_corner();
    let (mut driver, _) = LobbyGame::start(lobby_of(1), GameDifficulty::Test, seed);
    let step = driver.handle_message(&"player 0".to_string(), &reveal_tile(0, 0));
    assert_eq!(step.next, TurnNext::NewTurn);
    assert_eq!(step.deliveries.last().unwrap().message, ServerMessage::PlayerTurn("player 0".to_string()));
    assert_eq!(driver.status().current, Some("player 0".to_string()));
}

#[test]
fn a_flag_counts_as_a_move() {
    let (mut driver, _) = LobbyGame::start(lobby_of(2), GameDifficulty::Test, 1234);
    let flag = GameAction::FlagTile { x: 2, y: 1 };
    let step = driver.handle_message(&"player 0".to_string(), &ClientMessage::GameClient(flag));
    let snapshot = driver.game().snapshot();
    assert_eq!(snapshot.lines().nth(1).unwrap().chars().nth(2), Some('F'));
    let mut expected = action(2, "player 0", flag);
    expected.extend(result(2, "player 0", PlayerResult::Playing(snapshot)));
    expected.extend(turn(2, "player 1"));
    assert_eq!(step.deliveries, expected);
}

#[test]
fn a_mine_ends_the_game_and_shows_the_board() {
    let (mut driver, _) = LobbyGame::start(lobby_of(2), GameDifficulty::Test, 1234);
    let (x, y) = cells(&driver, true)[0];
    let step = driver.handle_message(&"player 0".to_string(), &reveal_tile(x, y));
    let snapshot = driver.game().snapshot();
    assert_eq!(snapshot.matches('*').count(), 3);
    let mut expected = action(2, "player 0", GameAction::RevealTile { x, y });
    expected.extend(result(2, "player 0", PlayerResult::Lost));
    expected.extend(result(2, "player 0", PlayerResult::Playing(snapshot)));
    assert_eq!(step.deliveries, expected);
    assert_eq!(step.next, TurnNext::Finished);
    assert_eq!(driver.status().current, None);
    assert!(driver.status().waiting.is_empty());
}

#[test]
fn an_invalid_move_is_answered_to_the_player_alone() {
    let (mut driver, _) = LobbyGame::start(lobby_of(2), GameDifficulty::Test, 1234);
    let error = ServerMessage::Error {
        code: ErrorCode::GameLogicError,
        message: "Game logic error".to_string(),
    };
    let outside = driver.handle_message(&"player 0".to_string(), &reveal_tile(4, 4));
    assert_eq!(outside.deliveries, to_one("player 0", error.clone()));
    assert_eq!(outside.next, TurnNext::Wait);
    let (x, y) = cells(&driver, false)[0];
    let flag = ClientMessage::GameClient(GameAction::FlagTile { x, y });
    assert_eq!(driver.handle_message(&"player 0".to_string(), &flag).next, TurnNext::NewTurn);
    let stalled = driver.handle_message(&"player 1".to_string(), &reveal_tile(x, y));
    assert_eq!(stalled.deliveries, to_one("player 1", error));
    assert_eq!(stalled.next, TurnNext::Wait);
    assert_eq!(driver.status().current, Some("player 1".to_string()));
    assert_eq!(driver.status().waiting, vec!["player 0".to_string()]);
}

#[test]
fn moving_out_of_turn_changes_nothing() {
    let (mut driver, _) = LobbyGame::start(lobby_of(2), GameDifficulty::Test, 1234);
    let before = driver.game().snapshot();
    let (x, y) = cells(&driver, false)[0];
    let step = driver.handle_message(&"player 1".to_string(), &reveal_tile(x, y));
    assert_eq!(
        step.deliveries,
        to_one(
            "player 1",
            ServerMessage::Error {
                code: ErrorCode::NotYourTurn,
                message: "Not your turn".to_string()
            }
        )
    );
    assert_eq!(step.next, TurnNext::Wait);
    assert_eq!(driver.game().snapshot(), before);
    assert!(!driver.game().board().cell(x, y).unwrap().is_revealed);
    assert_eq!(driver.status().current, Some("player 0".to_string()));
}

#[test]
fn other_messages_from_the_current_player_are_ignored() {
    let (mut driver, _) = LobbyGame::start(lobby_of(2), GameDifficulty::Test, 1234);
    let messages = [
        ClientMessage::IdleClient(IdleAction::CreateLobby),
        ClientMessage::IdleClient(IdleAction::JoinLobby { code: "1234".to_string() }),
        ClientMessage::LobbyClient(LobbyAction::StartGame),
        ClientMessage::LobbyClient(LobbyAction::LeaveLobby),
    ];
    for message in messages {
        let step = driver.handle_message(&"player 0".to_string(), &message);
        assert!(step.deliveries.is_empty());
        assert_eq!(step.next, TurnNext::Wait);
        assert_eq!(driver.status().current, Some("player 0".to_string()));
    }
}

#[test]
fn a_closed_stream_of_the_current_player_loses_the_turn() {
    let (mut driver, _) = LobbyGame::start(lobby_of(3), GameDifficulty::Test, 1234);
    let before = driver.game().snapshot();
    let nothing = driver.handle_stream_closed(&"player 2".to_string());
    assert!(nothing.deliveries.is_empty());
    assert_eq!(nothing.next, TurnNext::Wait);
    let step = driver.handle_stream_closed(&"player 0".to_string());
    let mut expected = result(3, "player 0", PlayerResult::Lost);
    expected.extend(turn(3, "player 1"));
    assert_eq!(step.deliveries, expected);
    assert_eq!(step.next, TurnNext::NewTurn);
    assert_eq!(driver.game().snapshot(), before);
    assert_eq!(driver.status().waiting, vec!["player 2".to_string()]);
}

#[test]
fn the_lobby_comes_back_waiting() {
    let mut lobby = lobby_of(2);
    assert!(lobby.start_game(&"player 0".to_string()));
    let (mut driver, _) = LobbyGame::start(lobby, GameDifficulty::Test, 1234);
    assert_eq!(driver.lobby().status(), LobbyStatus::Starting);
    assert_eq!(driver.lobby_mut().action_streams_mut().len(), 2);
    driver.handle_deadline();
    driver.handle_deadline();
    let lobby = driver.finish();
    assert_eq!(lobby.status(), LobbyStatus::Waiting);
    assert_eq!(lobby.members(), vec!["player 0".to_string(), "player 1".to_string()]);
    assert_eq!(lobby.host_id(), "player 0");
}

#[test]
fn a_game_without_players_is_over_at_once() {
    let mut lobby = lobby_of(1);
    lobby.deregister_player(&"player 0".to_string());
    let (driver, step) = LobbyGame::start(lobby, GameDifficulty::Test, 1);
    assert!(step.deliveries.is_empty());
    assert_eq!(step.next, TurnNext::Finished);
    assert_eq!(driver.status().current, None);
}

#[test]
fn results_can_be_copied() {
    for result in [
        PlayerResult::Won,
        PlayerResult::Lost,
        PlayerResult::Playing("12\n..\n".to_string()),
        PlayerResult::Stalled,
        PlayerResult::Timeout,
    ] {
        assert_eq!(result.duplicate(), result);
    }
}

#[test]
fn drained_streams_end_the_current_turn_as_lost() {
    let (mut driver, _) = LobbyGame::start(lobby_of(2), GameDifficulty::Test, 1234);
    let before = driver.game().snapshot();
    let step = driver.handle_streams_drained();
    let mut expected = result(2, "player 0", PlayerResult::Lost);
    expected.extend(turn(2, "player 1"));
    assert_eq!(step.deliveries, expected);
    assert_eq!(step.next, TurnNext::NewTurn);
    assert_eq!(driver.game().snapshot(), before);
    let step = driver.handle_streams_drained();
    assert_eq!(step.deliveries, result(2, "player 1", PlayerResult::Lost));
    assert_eq!(step.next, TurnNext::Finished);
    let step = driver.handle_streams_drained();
    assert!(step.deliveries.is_empty());
    assert_eq!(step.next, TurnNext::Finished);
}
