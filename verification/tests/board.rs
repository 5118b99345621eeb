use multisweeper::game::board::{Board, BoardError, Cell, RevealResult};

fn mines_on(board: &Board) -> Vec<(u8, u8)> {
    let mut found = Vec::new();
    for y in 0..board.height() {
        for x in 0..board.width() {
            if board.cell(x, y).unwrap().is_mine {
                found.push((x, y));
            }
        }
    }
    found
}

fn mines_around(board: &Board, x: u8, y: u8) -> u8 {
    let mut count = 0;
    for dy in -1i16..=1 {
        for dx in -1i16..=1 {
            if dx == 0 && dy == 0 {
                continue;
            }
            let nx = x as i16 + dx;
            let ny = y as i16 + dy;
            if nx < 0 || ny < 0 || nx >= board.width() as i16 || ny >= board.height() as i16 {
                continue;
            }
            if board.cell(nx as u8, ny as u8).unwrap().is_mine {
                count += 1;
            }
        }
    }
    count
}

#[test]
fn new_board_has_the_requested_mines() {
    let board = Board::new(4, 4, 3, 1234);
    assert_eq!(board.width(), 4);
    assert_eq!(board.height(), 4);
    assert_eq!(board.seed(), 1234);
    assert_eq!(board.number_of_mines(), 3);
    assert_eq!(mines_on(&board).len(), 3);
}

#[test]
fn mine_count_is_exact_for_many_seeds() {
    for seed in 0..200u64 {
        let board = Board::new(8, 6, 20, seed);
        assert_eq!(board.number_of_mines(), 20);
        assert_eq!(mines_on(&board).len(), 20);
    }
}

#[test]
fn a_full_board_is_all_mines() {
    let board = Board::new(3, 3, 9, 5);
    assert_eq!(board.number_of_mines(), 9);
    assert_eq!(mines_on(&board).len(), 9);
}

#[test]
fn more_mines_than_cells_fills_the_board() {
    let board = Board::new(2, 2, 200, 5);
    assert_eq!(board.number_of_mines(), 4);
    assert_eq!(mines_on(&board).len(), 4);
}

#[test]
fn an_empty_grid_has_no_mines() {
    let board = Board::new(0, 5, 3, 1);
    assert_eq!(board.number_of_mines(), 0);
    assert!(!board.is_coordinate_valid(0, 0));
    assert_eq!(board.render(), "\n\n\n\n\n");
    let flat = Board::new(5, 0, 3, 1);
    assert_eq!(flat.number_of_mines(), 0);
    assert_eq!(flat.render(), "");
}

#[test]
fn the_same_seed_gives_the_same_board() {
    let first = Board::new(10, 10, 15, 99);
    let second = Board::new(10, 10, 15, 99);
    assert_eq!(mines_on(&first), mines_on(&second));
}

#[test]
fn different_seeds_give_different_boards() {
    let base = mines_on(&Board::new(16, 16, 12, 0));
    let differs = (1..20u64).any(|seed| mines_on(&Board::new(16, 16, 12, seed)) != base);
    assert!(differs);
}

#[test]
fn a_new_board_is_hidden_and_unflagged() {
    let board = Board::new(5, 4, 6, 7);
    for y in 0..4 {
        for x in 0..5 {
            let cell = board.cell(x, y).unwrap();
            assert!(!cell.is_revealed);
            assert!(!cell.is_flagged);
        }
    }
}

#[test]
fn counts_match_the_neighbourhood() {
    for seed in 0..50u64 {
        let board = Board::new(9, 7, 14, seed);
        for y in 0..7 {
            for x in 0..9 {
                assert_eq!(board.cell(x, y).unwrap().adjacent_mines, mines_around(&board, x, y));
            }
        }
    }
}

#[test]
fn counts_for_a_known_layout() {
    let board = Board::with_mines(3, 3, &vec![(1, 1)], 0);
    for y in 0..3u8 {
        for x in 0..3u8 {
            let expected = if (x, y) == (1, 1) { 0 } else { 1 };
            assert_eq!(board.cell(x, y).unwrap().adjacent_mines, expected);
        }
    }
    let ring = Board::with_mines(
        3,
        3,
        &vec![(0, 0), (1, 0), (2, 0), (0, 1), (2, 1), (0, 2), (1, 2), (2, 2)],
        0,
    );
    assert_eq!(ring.cell(1, 1).unwrap().adjacent_mines, 8);
    assert_eq!(ring.cell(0, 0).unwrap().adjacent_mines, 2);
    assert_eq!(ring.cell(1, 0).unwrap().adjacent_mines, 4);
}

#[test]
fn with_mines_skips_repeats_and_outsiders() {
    let board = Board::with_mines(2, 2, &vec![(0, 0), (0, 0), (5, 5), (2, 0), (1, 1)], 42);
    assert_eq!(board.number_of_mines(), 2);
    assert_eq!(mines_on(&board), vec![(0, 0), (1, 1)]);
    assert_eq!(board.seed(), 42);
    assert_eq!(board.cell(1, 0).unwrap().adjacent_mines, 2);
}

#[test]
fn fresh_cell_is_blank() {
    assert_eq!(
        Cell::new(true),
        Cell { is_mine: true, adjacent_mines: 0, is_revealed: false, is_flagged: false }
    );
    assert_eq!(
        Cell::new(false),
        Cell { is_mine: false, adjacent_mines: 0, is_revealed: false, is_flagged: false }
    );
}

#[test]
fn coordinates_are_checked_against_both_sides() {
    let board = Board::with_mines(3, 2, &vec![], 0);
    assert!(board.is_coordinate_valid(0, 0));
    assert!(board.is_coordinate_valid(2, 1));
    assert!(!board.is_coordinate_valid(3, 0));
    assert!(!board.is_coordinate_valid(0, 2));
    assert!(!board.is_coordinate_valid(255, 255));
    assert_eq!(board.cell(3, 0), None);
    assert!(board.cell(2, 1).is_some());
}

#[test]
fn reveal_outside_is_an_error() {
    let mut board = Board::with_mines(3, 3, &vec![(0, 0)], 0);
    assert_eq!(board.reveal_at(3, 0), Err(BoardError));
    assert_eq!(board.reveal_at(0, 3), Err(BoardError));
    assert_eq!(board.render(), ".1.\n11.\n...\n");
}

#[test]
fn reveal_of_a_mine_reports_it_and_changes_nothing() {
    let mut board = Board::with_mines(3, 3, &vec![(0, 0)], 0);
    assert_eq!(board.reveal_at(0, 0), Ok(RevealResult::Mine));
    assert!(!board.cell(0, 0).unwrap().is_revealed);
}

#[test]
fn reveal_of_a_numbered_cell_reveals_only_it() {
    let mut board = Board::with_mines(3, 3, &vec![(0, 0)], 0);
    assert_eq!(board.reveal_at(1, 1), Ok(RevealResult::Revealed(1)));
    for y in 0..3u8 {
        for x in 0..3u8 {
            assert_eq!(board.cell(x, y).unwrap().is_revealed, (x, y) == (1, 1));
        }
    }
    assert_eq!(board.reveal_at(1, 1), Ok(RevealResult::DoNothing));
}

#[test]
fn reveal_of_a_flagged_cell_does_nothing() {
    let mut board = Board::with_mines(3, 3, &vec![(0, 0)], 0);
    assert_eq!(board.flag(2, 2), Ok(()));
    assert_eq!(board.reveal_at(2, 2), Ok(RevealResult::DoNothing));
    assert!(!board.cell(2, 2).unwrap().is_revealed);
}

#[test]
fn flood_reveals_the_open_region_and_its_border() {
    // Mine in the top left corner of a 4 by 4 grid; a reveal in the far
    // corner opens everything but the mine.
    let mut board = Board::with_mines(4, 4, &vec![(0, 0)], 0);
    assert_eq!(board.reveal_at(3, 3), Ok(RevealResult::FloodRevealed));
    for y in 0..4u8 {
        for x in 0..4u8 {
            assert_eq!(board.cell(x, y).unwrap().is_revealed, (x, y) != (0, 0));
        }
    }
    assert!(board.is_all_safe_cells_revealed());
}

#[test]
fn flood_stops_at_numbered_cells() {
    // A wall of mines in column 2 splits the grid; the reveal on the left
    // must not reach the right.
    let mut board = Board::with_mines(5, 3, &vec![(2, 0), (2, 1), (2, 2)], 0);
    assert_eq!(board.reveal_at(0, 1), Ok(RevealResult::FloodRevealed));
    for y in 0..3u8 {
        for x in 0..5u8 {
            assert_eq!(board.cell(x, y).unwrap().is_revealed, x <= 1, "cell {x},{y}");
        }
    }
    assert!(!board.is_all_safe_cells_revealed());
}

#[test]
fn flags_block_the_flood() {
    // One row, no mines: a flag in the middle keeps the flood on one side.
    let mut board = Board::with_mines(5, 1, &vec![], 0);
    assert_eq!(board.flag(2, 0), Ok(()));
    assert_eq!(board.reveal_at(0, 0), Ok(RevealResult::FloodRevealed));
    let revealed: Vec<bool> = (0..5u8).map(|x| board.cell(x, 0).unwrap().is_revealed).collect();
    assert_eq!(revealed, vec![true, true, false, false, false]);
    assert_eq!(board.flag(2, 0), Ok(()));
    assert_eq!(board.reveal_at(2, 0), Ok(RevealResult::FloodRevealed));
    assert!(board.is_all_safe_cells_revealed());
}

#[test]
fn flood_passes_through_diagonals() {
    // Mines at (1,0) and (0,1) close the corner (0,0) off by edges, and the
    // corner touches both, so it carries a number and is no way through.
    let mut board = Board::with_mines(4, 4, &vec![(1, 0), (0, 1)], 0);
    assert_eq!(board.reveal_at(3, 3), Ok(RevealResult::FloodRevealed));
    assert!(!board.cell(0, 0).unwrap().is_revealed);
    assert!(board.cell(1, 1).unwrap().is_revealed);
    assert!(board.cell(2, 0).unwrap().is_revealed);
    assert!(!board.is_all_safe_cells_revealed());
    assert_eq!(board.reveal_at(0, 0), Ok(RevealResult::Revealed(2)));
    assert!(board.is_all_safe_cells_revealed());
}

#[test]
fn flood_covers_a_large_empty_board() {
    let mut board = Board::with_mines(255, 255, &vec![], 0);
    assert_eq!(board.reveal_at(100, 100), Ok(RevealResult::FloodRevealed));
    assert!(board.is_all_safe_cells_revealed());
    assert!(board.cell(254, 254).unwrap().is_revealed);
    assert!(board.cell(0, 0).unwrap().is_revealed);
}

#[test]
fn flag_toggles_hidden_cells_only() {
    let mut board = Board::with_mines(3, 3, &vec![(0, 0)], 0);
    assert_eq!(board.flag(1, 1), Ok(()));
    assert!(board.cell(1, 1).unwrap().is_flagged);
    assert_eq!(board.flag(1, 1), Ok(()));
    assert!(!board.cell(1, 1).unwrap().is_flagged);
    assert_eq!(board.reveal_at(1, 1), Ok(RevealResult::Revealed(1)));
    assert_eq!(board.flag(1, 1), Err(BoardError));
    assert!(!board.cell(1, 1).unwrap().is_flagged);
    assert_eq!(board.flag(3, 0), Err(BoardError));
    assert_eq!(board.flag(0, 3), Err(BoardError));
}

#[test]
fn a_mine_may_be_flagged() {
    let mut board = Board::with_mines(2, 2, &vec![(0, 0)], 0);
    assert_eq!(board.flag(0, 0), Ok(()));
    assert_eq!(board.render(), "F1\n11\n");
}

#[test]
fn all_safe_cells_revealed_ignores_mines() {
    let mut board = Board::with_mines(2, 1, &vec![(0, 0)], 0);
    assert!(!board.is_all_safe_cells_revealed());
    assert_eq!(board.reveal_at(1, 0), Ok(RevealResult::Revealed(1)));
    assert!(board.is_all_safe_cells_revealed());
    let all_mines = Board::with_mines(2, 1, &vec![(0, 0), (1, 0)], 0);
    assert!(all_mines.is_all_safe_cells_revealed());
}

#[test]
fn reveal_all_shows_every_cell() {
    let mut board = Board::with_mines(3, 2, &vec![(0, 0), (2, 1)], 0);
    assert_eq!(board.flag(1, 1), Ok(()));
    board.reveal_all();
    for y in 0..2u8 {
        for x in 0..3u8 {
            assert!(board.cell(x, y).unwrap().is_revealed);
        }
    }
    assert!(board.cell(1, 1).unwrap().is_flagged);
    assert_eq!(board.number_of_mines(), 2);
    assert_eq!(board.render(), "*21\n1F*\n");
}

#[test]
fn render_draws_one_character_per_cell() {
    let mut board = Board::with_mines(3, 2, &vec![(0, 0)], 0);
    assert_eq!(board.render(), ".1.\n11.\n");
    assert_eq!(board.flag(2, 1), Ok(()));
    assert_eq!(board.render(), ".1.\n11F\n");
    board.reveal_all();
    assert_eq!(board.render(), "*1.\n11F\n");
}

#[test]
fn render_shows_counts_up_to_eight() {
    let ring = Board::with_mines(
        3,
        3,
        &vec![(0, 0), (1, 0), (2, 0), (0, 1), (2, 1), (0, 2), (1, 2), (2, 2)],
        0,
    );
    assert_eq!(ring.render(), "242\n484\n242\n");
}

#[test]
fn glyphs_follow_the_order_flag_mine_count() {
    let mut cell = Cell::new(true);
    assert_eq!(cell.glyph(), '.');
    cell.adjacent_mines = 3;
    assert_eq!(cell.glyph(), '3');
    cell.is_revealed = true;
    assert_eq!(cell.glyph(), '*');
    cell.is_flagged = true;
    assert_eq!(cell.glyph(), 'F');
    let mut safe = Cell::new(false);
    assert_eq!(safe.glyph(), '.');
    safe.is_revealed = true;
    assert_eq!(safe.glyph(), '.');
    safe.adjacent_mines = 8;
    assert_eq!(safe.glyph(), '8');
}

#[test]
fn a_board_built_by_hand_gets_its_counts_from_evaluate_cells() {
    let mut board = Board::blank(4, 3, 9);
    assert_eq!(board.number_of_mines(), 0);
    board.place_mine(0, 0);
    board.place_mine(2, 1);
    board.place_mine(2, 1);
    board.place_mine(4, 0);
    board.place_mine(0, 3);
    assert_eq!(mines_on(&board), vec![(0, 0), (2, 1)]);
    for y in 0..3u8 {
        for x in 0..4u8 {
            assert_eq!(board.cell(x, y).unwrap().adjacent_mines, 0);
        }
    }
    board.evaluate_cells();
    assert_eq!(board.number_of_mines(), 2);
    assert_eq!(board.seed(), 9);
    for y in 0..3u8 {
        for x in 0..4u8 {
            let cell = board.cell(x, y).unwrap();
            assert_eq!(cell.adjacent_mines, mines_around(&board, x, y));
            assert_eq!(cell.is_mine, (x, y) == (0, 0) || (x, y) == (2, 1));
            assert!(!cell.is_revealed && !cell.is_flagged);
        }
    }
    assert_eq!(board.render(), ".211\n12.1\n.111\n");
}

#[test]
fn evaluate_cells_agrees_with_with_mines() {
    let mines = vec![(1u8, 1u8), (3, 0), (0, 4), (4, 4), (2, 2), (1, 1)];
    let built = Board::with_mines(5, 5, &mines, 3);
    let mut by_hand = Board::blank(5, 5, 3);
    for (x, y) in &mines {
        by_hand.place_mine(*x, *y);
    }
    by_hand.evaluate_cells();
    for y in 0..5u8 {
        for x in 0..5u8 {
            assert_eq!(by_hand.cell(x, y), built.cell(x, y));
        }
    }
    assert_eq!(by_hand.number_of_mines(), 5);
}
