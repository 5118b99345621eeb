use multisweeper::ws::protocol::{ClientMessage, LobbyCommand, ServerMessage};
use multisweeper::ws::{SharedState, MAX_CODE_ATTEMPTS};
use tokio::sync::mpsc::{channel, Receiver, Sender};

fn client() -> (Sender<ClientMessage>, Receiver<ClientMessage>, Sender<ServerMessage>, Receiver<ServerMessage>)
{
    let (action_sdr, action_rcr) = channel::<ClientMessage>(32);
    let (message_sdr, message_rcr) = channel::<ServerMessage>(32);
    (action_sdr, action_rcr, message_sdr, message_rcr)
}

fn handle() -> (Sender<LobbyCommand>, Receiver<LobbyCommand>) {
    channel::<LobbyCommand>(32)
}

#[test]
fn players_are_named_in_order() {
    let mut state = SharedState::new(69);
    assert_eq!(state.players_registered(), 0);
    for n in 0..25u32 {
        let (action_sdr, _a, message_sdr, _m) = client();
        assert_eq!(state.register_player(action_sdr, message_sdr), format!("player {n}"));
    }
    assert_eq!(state.players_registered(), 25);
}

#[test]
fn a_registered_player_is_idle_until_taken() {
    let mut state = SharedState::new(69);
    let (action_sdr, _a, message_sdr, mut message_rcr) = client();
    let id = state.register_player(action_sdr, message_sdr);
    let (taken_id, connection) = state.de_idle_player_by_id(id.clone()).unwrap();
    assert_eq!(taken_id, id);
    connection.message_sdr.try_send(ServerMessage::GameStarted).unwrap();
    assert_eq!(message_rcr.try_recv().unwrap(), ServerMessage::GameStarted);
    assert!(state.de_idle_player_by_id(id).is_none());
}

#[test]
fn an_unknown_player_is_not_idle() {
    let mut state = SharedState::new(69);
    assert!(state.de_idle_player_by_id("player 7".to_string()).is_none());
    let (action_sdr, _a, message_sdr, _m) = client();
    state.register_player(action_sdr, message_sdr);
    assert!(state.de_idle_player_by_id("player 1".to_string()).is_none());
    assert!(state.de_idle_player_by_id("player 0".to_string()).is_some());
}

#[test]
fn a_player_can_be_made_idle_again() {
    let mut state = SharedState::new(69);
    let (action_sdr, _a, message_sdr, _m) = client();
    let id = state.register_player(action_sdr, message_sdr);
    let (id, connection) = state.de_idle_player_by_id(id).unwrap();
    state.register_idle_player(id.clone(), connection);
    assert!(state.de_idle_player_by_id(id).is_some());
    assert_eq!(state.players_registered(), 1);
}

#[test]
fn lobby_codes_have_four_digits() {
    let mut state = SharedState::new(69);
    for _ in 0..50 {
        let (cmd_sdr, _cmd_rcr) = handle();
        let code = state.register_lobby(cmd_sdr).unwrap();
        assert_eq!(code.len(), 4);
        let number: u32 = code.parse().unwrap();
        assert!((1000..=9999).contains(&number));
    }
}

#[test]
fn lobby_codes_never_collide() {
    let mut state = SharedState::new(1);
    let mut seen = std::collections::HashSet::new();
    for _ in 0..3000 {
        let (cmd_sdr, _cmd_rcr) = handle();
        let code = state.register_lobby(cmd_sdr).unwrap();
        assert!(seen.insert(code));
    }
}

#[test]
fn the_same_seed_draws_the_same_codes() {
    let mut first = SharedState::new(5);
    let mut second = SharedState::new(5);
    for _ in 0..10 {
        let code = first.register_lobby(handle().0).unwrap();
        assert_eq!(second.register_lobby(handle().0).unwrap(), code);
    }
}

#[test]
fn a_registered_lobby_is_found_by_its_code() {
    let mut state = SharedState::new(69);
    let (cmd_sdr, mut cmd_rcr) = handle();
    let code = state.register_lobby(cmd_sdr).unwrap();
    let (found_code, found) = state.get_lobby(code.clone()).unwrap();
    assert_eq!(found_code, code);
    found
        .try_send(LobbyCommand::RemovePlayer { id: "player 3".to_string(), return_to_idle: true })
        .unwrap();
    match cmd_rcr.try_recv().unwrap() {
        LobbyCommand::RemovePlayer { id, return_to_idle } => {
            assert_eq!(id, "player 3");
            assert!(return_to_idle);
        }
        LobbyCommand::AddPlayer { .. } => panic!("wrong command"),
    }
}

#[test]
fn an_unknown_code_finds_no_lobby() {
    let mut state = SharedState::new(69);
    assert!(state.get_lobby("1234".to_string()).is_none());
    let code = state.register_lobby(handle().0).unwrap();
    let other = if code == "1234" { "4321" } else { "1234" };
    assert!(state.get_lobby(other.to_string()).is_none());
    assert!(state.get_lobby("abcd".to_string()).is_none());
    assert!(state.get_lobby(String::new()).is_none());
}

#[test]
fn a_deregistered_lobby_is_gone() {
    let mut state = SharedState::new(69);
    let code = state.register_lobby(handle().0).unwrap();
    let other = state.register_lobby(handle().0).unwrap();
    state.deregister_lobby(&code);
    assert!(state.get_lobby(code.clone()).is_none());
    assert!(state.get_lobby(other).is_some());
    state.deregister_lobby(&code);
    assert!(state.get_lobby(code).is_none());
}

#[test]
fn claiming_a_code_fails_only_when_it_is_taken() {
    let mut state = SharedState::new(69);
    assert_eq!(state.claim_code(1234, handle().0).unwrap(), "1234");
    assert!(state.claim_code(1234, handle().0).is_err());
    assert_eq!(state.claim_code(1235, handle().0).unwrap(), "1235");
    assert!(state.get_lobby("1234".to_string()).is_some());
    state.deregister_lobby(&"1234".to_string());
    assert_eq!(state.claim_code(1234, handle().0).unwrap(), "1234");
}

#[test]
fn a_full_code_space_is_reported() {
    let mut state = SharedState::new(69);
    for number in 1000..=9999u32 {
        assert!(state.claim_code(number, handle().0).is_ok());
    }
    assert!(MAX_CODE_ATTEMPTS >= 9000);
    assert_eq!(
        state.register_lobby(handle().0),
        Err(multisweeper::error::RegistryError::LobbyCodesExhausted)
    );
    state.deregister_lobby(&"5555".to_string());
    assert!(state.get_lobby("5555".to_string()).is_none());
}
