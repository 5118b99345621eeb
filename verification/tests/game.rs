use multisweeper::error::GameError;
use multisweeper::game::{Game, GameAction, GameDifficulty, GameInfo, GamePhase};

fn mine_cells(game: &Game) -> Vec<(u8, u8)> {
    let board = game.board();
    let mut found = Vec::new();
    for y in 0..board.height() {
        for x in 0..board.width() {
            if board.cell(x, y).unwrap().is_mine {
                found.push((x, y));
            }
        }
    }
    found
}

fn safe_cells(game: &Game) -> Vec<(u8, u8)> {
    let board = game.board();
    let mut found = Vec::new();
    for y in 0..board.height() {
        for x in 0..board.width() {
            if !board.cell(x, y).unwrap().is_mine {
                found.push((x, y));
            }
        }
    }
    found
}

#[test]
fn difficulty_scales_board_and_mines() {
    let cases = [
        (GameDifficulty::Test, 1u8),
        (GameDifficulty::Easy, 2),
        (GameDifficulty::Medium, 4),
        (GameDifficulty::Hard, 5),
    ];
    for (difficulty, factor) in cases {
        assert_eq!(difficulty.factor(), factor);
        let game = Game::new(difficulty, 7);
        assert_eq!(
            game.info(),
            GameInfo {
                width: 4 * factor,
                height: 4 * factor,
                number_of_mines: 3 * factor,
                seed: 7
            }
        );
        assert_eq!(game.board().number_of_mines(), 3 * factor as usize);
        assert_eq!(game.difficulty(), difficulty);
    }
}

#[test]
fn a_new_game_is_playing_and_shows_its_board() {
    let game = Game::new(GameDifficulty::Test, 1234);
    assert_eq!(game.phase(), &GamePhase::Playing(game.board().render()));
    assert_eq!(game.snapshot(), game.board().render());
    assert_eq!(game.snapshot().len(), 4 * 5);
}

#[test]
fn revealing_a_mine_loses() {
    let mut game = Game::new(GameDifficulty::Test, 1234);
    let (x, y) = mine_cells(&game)[0];
    assert_eq!(game.handle_action(GameAction::Reveal { x, y }), Ok(GamePhase::Lost));
    assert_eq!(game.phase(), &GamePhase::Lost);
}

#[test]
fn revealing_outside_the_board_is_a_game_error() {
    let mut game = Game::new(GameDifficulty::Test, 1234);
    let before = game.snapshot();
    assert_eq!(
        game.handle_action(GameAction::Reveal { x: 4, y: 0 }),
        Err(GameError::GameLogicError)
    );
    assert_eq!(
        game.handle_action(GameAction::Reveal { x: 0, y: 200 }),
        Err(GameError::GameLogicError)
    );
    assert_eq!(game.snapshot(), before);
    assert_eq!(game.phase(), &GamePhase::Playing(before));
}

#[test]
fn flagging_outside_the_board_is_a_game_error() {
    let mut game = Game::new(GameDifficulty::Test, 1234);
    assert_eq!(game.handle_action(GameAction::Flag { x: 9, y: 9 }), Err(GameError::GameLogicError));
}

#[test]
fn flagging_a_revealed_cell_is_a_game_error() {
    let mut game = Game::new(GameDifficulty::Easy, 3);
    let (x, y) = safe_cells(&game)[0];
    assert!(game.handle_action(GameAction::Reveal { x, y }).is_ok());
    assert_eq!(game.handle_action(GameAction::Flag { x, y }), Err(GameError::GameLogicError));
}

#[test]
fn flagging_keeps_the_game_playing() {
    let mut game = Game::new(GameDifficulty::Test, 1234);
    let result = game.handle_action(GameAction::Flag { x: 1, y: 2 });
    let snapshot = game.snapshot();
    assert_eq!(result, Ok(GamePhase::Playing(snapshot.clone())));
    assert_eq!(snapshot.lines().nth(2).unwrap().chars().nth(1), Some('F'));
    assert!(game.board().cell(1, 2).unwrap().is_flagged);
}

#[test]
fn revealing_twice_stalls() {
    let mut game = Game::new(GameDifficulty::Hard, 11);
    let (x, y) = safe_cells(&game)[0];
    assert!(game.handle_action(GameAction::Reveal { x, y }).is_ok());
    assert_eq!(game.handle_action(GameAction::Reveal { x, y }), Ok(GamePhase::Stalled));
    assert_eq!(game.phase(), &GamePhase::Stalled);
}

#[test]
fn revealing_a_flagged_cell_stalls() {
    let mut game = Game::new(GameDifficulty::Test, 1234);
    let (x, y) = safe_cells(&game)[0];
    assert!(game.handle_action(GameAction::Flag { x, y }).is_ok());
    assert_eq!(game.handle_action(GameAction::Reveal { x, y }), Ok(GamePhase::Stalled));
}

#[test]
fn revealing_every_safe_cell_wins_and_never_loses() {
    for seed in 0..40u64 {
        let mut game = Game::new(GameDifficulty::Easy, seed);
        let mut won = false;
        for (x, y) in safe_cells(&game) {
            let all_before = game.board().is_all_safe_cells_revealed();
            let result = game.handle_action(GameAction::Reveal { x, y }).unwrap();
            assert_ne!(result, GamePhase::Lost);
            let all_after = game.board().is_all_safe_cells_revealed();
            match result {
                GamePhase::Won => {
                    assert!(all_after);
                    won = true;
                }
                GamePhase::Playing(ref snapshot) => {
                    assert!(!all_after);
                    assert_eq!(snapshot, &game.snapshot());
                }
                GamePhase::Stalled => assert_eq!(all_before, all_after),
                GamePhase::Lost => unreachable!(),
            }
            if !all_before && all_after {
                assert_eq!(result, GamePhase::Won);
            }
        }
        assert!(won);
        assert!(game.board().is_all_safe_cells_revealed());
    }
}

#[test]
fn lose_game_reveals_the_whole_board() {
    let mut game = Game::new(GameDifficulty::Test, 1234);
    let mines = mine_cells(&game);
    game.lose_game();
    let board = game.board();
    for y in 0..4u8 {
        for x in 0..4u8 {
            assert!(board.cell(x, y).unwrap().is_revealed);
        }
    }
    let snapshot = game.snapshot();
    for (x, y) in mines {
        assert_eq!(snapshot.lines().nth(y as usize).unwrap().chars().nth(x as usize), Some('*'));
    }
    assert_eq!(snapshot.matches('*').count(), 3);
}

#[test]
fn phases_can_be_copied() {
    let phase = GamePhase::Playing("..\n..\n".to_string());
    assert_eq!(phase.duplicate(), phase);
    assert_eq!(GamePhase::Won.duplicate(), GamePhase::Won);
    assert_eq!(GamePhase::Lost.duplicate(), GamePhase::Lost);
    assert_eq!(GamePhase::Stalled.duplicate(), GamePhase::Stalled);
}
