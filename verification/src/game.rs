//! The game engine: a board, a difficulty and the phase the last move led to.

pub mod board;

use crate::error::GameError;
use crate::game::board::{Board, RevealResult};
use crate::text::copy_text;
use vstd::prelude::*;

verus! {

/// A move on the board.
#[derive(Debug, Clone, Copy, PartialEq, Eq, Structural)]
pub enum GameAction {
    Reveal { x: u8, y: u8 },
    Flag { x: u8, y: u8 },
}

/// How large the board is and how many mines it holds.
#[derive(Debug, Clone, Copy, PartialEq, Eq, Structural)]
pub enum GameDifficulty {
    Test,
    Easy,
    Medium,
    Hard,
}

impl GameDifficulty {
    /// The scaling factor: the board has four times as many rows and
    /// columns, and three times as many mines.
    pub open spec fn factor_spec(&self) -> int {
        match self {
            GameDifficulty::Test => 1,
            GameDifficulty::Easy => 2,
            GameDifficulty::Medium => 4,
            GameDifficulty::Hard => 5,
        }
    }

    /// The scaling factor.
    pub fn factor(&self) -> (factor: u8)
        ensures
            factor == self.factor_spec(),
    {
        match self {
            GameDifficulty::Test => 1,
            GameDifficulty::Easy => 2,
            GameDifficulty::Medium => 4,
            GameDifficulty::Hard => 5,
        }
    }
}

/// Where a game stands after a move.
#[derive(Debug, Clone, PartialEq, Eq)]
pub enum GamePhase {
    Won,
    Lost,
    /// The game goes on; the text is the board as it stands.
    Playing(String),
    /// The move changed nothing.
    Stalled,
}

/// A `GamePhase` with its text as a sequence of characters.
pub enum GamePhaseView {
    Won,
    Lost,
    Playing(Seq<char>),
    Stalled,
}

impl View for GamePhase {
    type V = GamePhaseView;

    open spec fn view(&self) -> GamePhaseView {
        match self {
            GamePhase::Won => GamePhaseView::Won,
            GamePhase::Lost => GamePhaseView::Lost,
            GamePhase::Playing(board) => GamePhaseView::Playing(board@),
            GamePhase::Stalled => GamePhaseView::Stalled,
        }
    }
}

impl GamePhase {
    /// A copy of the phase.
    pub fn duplicate(&self) -> (copy: GamePhase)
        ensures
            copy@ == self@,
    {
        match self {
            GamePhase::Won => GamePhase::Won,
            GamePhase::Lost => GamePhase::Lost,
            GamePhase::Playing(board) => GamePhase::Playing(copy_text(board)),
            GamePhase::Stalled => GamePhase::Stalled,
        }
    }
}

/// The part of a game that moves change besides the board.
#[derive(Debug)]
pub struct GameState {
    phase: GamePhase,
}

impl GameState {
    /// The phase, as a value for contracts.
    pub closed spec fn phase_view(&self) -> GamePhaseView {
        self.phase@
    }

    /// The phase the last accepted move led to.
    pub fn phase(&self) -> (phase: &GamePhase)
        ensures
            phase@ == self.phase_view(),
    {
        &self.phase
    }
}

/// What clients are told of a game when it starts.
#[derive(Debug, Clone, Copy, PartialEq, Eq, Structural)]
pub struct GameInfo {
    pub width: u8,
    pub height: u8,
    pub number_of_mines: u8,
    pub seed: u64,
}

/// A game of Minesweeper.
#[derive(Debug)]
pub struct Game {
    board: Board,
    difficulty: GameDifficulty,
    state: GameState,
}

impl Game {
    /// The board.
    pub closed spec fn board_spec(&self) -> Board {
        self.board
    }

    /// The difficulty.
    pub closed spec fn difficulty_spec(&self) -> GameDifficulty {
        self.difficulty
    }

    /// The phase.
    pub closed spec fn phase_view(&self) -> GamePhaseView {
        self.state.phase_view()
    }

    /// The game's invariant: the board is well-formed and has the size and
    /// the number of mines that the difficulty asks for.
    pub open spec fn wf(&self) -> bool {
        &&& self.board_spec().wf()
        &&& self.board_spec().cols() == 4 * self.difficulty_spec().factor_spec()
        &&& self.board_spec().rows() == 4 * self.difficulty_spec().factor_spec()
        &&& self.board_spec().mine_total() == 3 * self.difficulty_spec().factor_spec()
    }

    /// What the board must look like after `action`.
    pub open spec fn board_after(before: &Board, action: GameAction, after: &Board) -> bool {
        match action {
            GameAction::Reveal { x, y } => after.revealed_from(before, x as int, y as int),
            GameAction::Flag { x, y } => after.flagged_from(before, x as int, y as int),
        }
    }

    /// What `handle_action` answers for `action` on the board `before`,
    /// given the board `after` that the move leaves.
    pub open spec fn verdict(before: &Board, action: GameAction, after: &Board) -> Result<
        GamePhaseView,
        GameError,
    > {
        match action {
            GameAction::Reveal { x, y } => match before.reveal_outcome(x as int, y as int) {
                Err(_) => Err(GameError::GameLogicError),
                Ok(RevealResult::Mine) => Ok(GamePhaseView::Lost),
                Ok(RevealResult::DoNothing) => Ok(GamePhaseView::Stalled),
                Ok(_) => if after.all_safe_revealed() {
                    Ok(GamePhaseView::Won)
                } else {
                    Ok(GamePhaseView::Playing(after.snapshot()))
                },
            },
            GameAction::Flag { x, y } => if before.can_flag(x as int, y as int) {
                Ok(GamePhaseView::Playing(after.snapshot()))
            } else {
                Err(GameError::GameLogicError)
            },
        }
    }

    /// The move that uncovers the last cell without a mine is answered with
    /// `Won`: whatever the action, if some safe cell was hidden before it
    /// and none is after it, the verdict is a win, never a loss.
    pub proof fn lemma_last_safe_cell_wins(before: &Board, action: GameAction, after: &Board)
        requires
            before.wf(),
            Game::board_after(before, action, after),
            !before.all_safe_revealed(),
            after.all_safe_revealed(),
        ensures
            Game::verdict(before, action, after) == Ok::<GamePhaseView, GameError>(
                GamePhaseView::Won,
            ),
    {
        let (cx, cy) = choose|cx: int, cy: int|
            before.in_bounds(cx, cy) && !(#[trigger] before.at(cx, cy)).is_mine && !before.at(
                cx,
                cy,
            ).is_revealed;
        assert(after.in_bounds(cx, cy));
        assert(after.at(cx, cy).is_revealed);
    }

    /// A new game of the given difficulty on a board drawn from `seed`.
    pub fn new(difficulty: GameDifficulty, seed: u64) -> (game: Game)
        ensures
            game.wf(),
            game.difficulty_spec() == difficulty,
            game.board_spec().seed_value() == seed,
            game.board_spec().untouched(),
            game.phase_view() == GamePhaseView::Playing(game.board_spec().snapshot()),
    {
        let factor = difficulty.factor();
        let board = Board::new(factor * 4, factor * 4, factor * 3, seed);
        assert(3 * factor <= (4 * factor) * (4 * factor)) by (nonlinear_arith)
            requires
                1 <= factor,
        ;
        let phase = GamePhase::Playing(board.render());
        Game { board, difficulty, state: GameState { phase } }
    }

    /// The board.
    pub fn board(&self) -> (board: &Board)
        ensures
            *board == self.board_spec(),
    {
        &self.board
    }

    /// The difficulty.
    pub fn difficulty(&self) -> (difficulty: GameDifficulty)
        ensures
            difficulty == self.difficulty_spec(),
    {
        self.difficulty
    }

    /// The phase the last accepted move led to.
    pub fn phase(&self) -> (phase: &GamePhase)
        ensures
            phase@ == self.phase_view(),
    {
        self.state.phase()
    }

    /// The board as text.
    pub fn snapshot(&self) -> (text: String)
        requires
            self.wf(),
        ensures
            text@ == self.board_spec().snapshot(),
    {
        self.board.render()
    }

    /// Size, number of mines and seed of the board.
    pub fn info(&self) -> (info: GameInfo)
        requires
            self.wf(),
        ensures
            info.width == self.board_spec().cols(),
            info.height == self.board_spec().rows(),
            info.number_of_mines == self.board_spec().mine_total(),
            info.seed == self.board_spec().seed_value(),
    {
        GameInfo {
            width: self.board.width(),
            height: self.board.height(),
            number_of_mines: self.difficulty.factor() * 3,
            seed: self.board.seed(),
        }
    }

    fn is_coordinate_valid(&self, x: u8, y: u8) -> (valid: bool)
        ensures
            valid == self.board_spec().in_bounds(x as int, y as int),
    {
        self.board.is_coordinate_valid(x, y)
    }

    /// Reveals `(x, y)` on the board: a mine loses the game, a cell that is
    /// already revealed or flagged stalls it, anything else lets it go on.
    /// `None` stands for a game that goes on.
    fn reveal_at(&mut self, x: u8, y: u8) -> (result: Result<Option<GamePhase>, GameError>)
        requires
            old(self).wf(),
        ensures
            final(self).wf(),
            final(self).difficulty_spec() == old(self).difficulty_spec(),
            final(self).phase_view() == old(self).phase_view(),
            final(self).board_spec().revealed_from(&old(self).board_spec(), x as int, y as int),
            match old(self).board_spec().reveal_outcome(x as int, y as int) {
                Err(_) => result == Err::<Option<GamePhase>, GameError>(GameError::GameLogicError),
                Ok(RevealResult::Mine) => result == Ok::<Option<GamePhase>, GameError>(
                    Some(GamePhase::Lost),
                ),
                Ok(RevealResult::DoNothing) => result == Ok::<Option<GamePhase>, GameError>(
                    Some(GamePhase::Stalled),
                ),
                Ok(_) => result == Ok::<Option<GamePhase>, GameError>(None),
            },
    {
        if !self.is_coordinate_valid(x, y) {
            return Err(GameError::GameLogicError);
        }
        let ghost before = self.board;
        let reveal_result = self.board.reveal_at(x, y);
        proof {
            self.board.lemma_same_mines(&before);
        }
        let revealed_state = match reveal_result {
            Ok(state) => state,
            Err(_) => {
                return Err(GameError::GameLogicError);
            },
        };
        match revealed_state {
            RevealResult::Mine => Ok(Some(GamePhase::Lost)),
            RevealResult::DoNothing => Ok(Some(GamePhase::Stalled)),
            _ => Ok(None),
        }
    }

    /// Flags `(x, y)` on the board or takes the flag away.
    fn flag(&mut self, x: u8, y: u8) -> (result: Result<(), GameError>)
        requires
            old(self).wf(),
        ensures
            final(self).wf(),
            final(self).difficulty_spec() == old(self).difficulty_spec(),
            final(self).phase_view() == old(self).phase_view(),
            final(self).board_spec().flagged_from(&old(self).board_spec(), x as int, y as int),
            result == (if old(self).board_spec().can_flag(x as int, y as int) {
                Ok::<(), GameError>(())
            } else {
                Err::<(), GameError>(GameError::GameLogicError)
            }),
    {
        let ghost before = self.board;
        let done = self.board.flag(x, y);
        proof {
            self.board.lemma_same_mines(&before);
        }
        match done {
            Ok(()) => Ok(()),
            Err(_) => Err(GameError::GameLogicError),
        }
    }

    /// Applies a move to the board and says where the game stands: lost on
    /// a mine, stalled on a reveal that changes nothing, won once no cell
    /// without a mine is hidden, playing otherwise. A move that the board
    /// rejects is an error. An accepted move's phase becomes the game's.
    pub fn handle_action(&mut self, action: GameAction) -> (result: Result<GamePhase, GameError>)
        requires
            old(self).wf(),
        ensures
            final(self).wf(),
            final(self).difficulty_spec() == old(self).difficulty_spec(),
            Game::board_after(&old(self).board_spec(), action, &final(self).board_spec()),
            match result {
                Ok(phase) => Game::verdict(
                    &old(self).board_spec(),
                    action,
                    &final(self).board_spec(),
                ) == Ok::<GamePhaseView, GameError>(phase@) && final(self).phase_view() == phase@,
                Err(error) => Game::verdict(
                    &old(self).board_spec(),
                    action,
                    &final(self).board_spec(),
                ) == Err::<GamePhaseView, GameError>(error) && final(self).phase_view() == old(
                    self,
                ).phase_view(),
            },
    {
        let phase = match action {
            GameAction::Reveal { x, y } => {
                match self.reveal_at(x, y) {
                    Err(error) => {
                        return Err(error);
                    },
                    Ok(Some(phase)) => phase,
                    Ok(None) => {
                        if self.board.is_all_safe_cells_revealed() {
                            GamePhase::Won
                        } else {
                            GamePhase::Playing(self.board.render())
                        }
                    },
                }
            },
            GameAction::Flag { x, y } => {
                match self.flag(x, y) {
                    Err(error) => {
                        return Err(error);
                    },
                    Ok(()) => GamePhase::Playing(self.board.render()),
                }
            },
        };
        self.state.phase = phase.duplicate();
        Ok(phase)
    }

    /// Ends a lost game: every cell is revealed, so that the board shows
    /// where the mines were.
    pub fn lose_game(&mut self)
        requires
            old(self).wf(),
        ensures
            final(self).wf(),
            final(self).difficulty_spec() == old(self).difficulty_spec(),
            final(self).phase_view() == old(self).phase_view(),
            final(self).board_spec().unveiled_from(&old(self).board_spec()),
    {
        let ghost before = self.board;
        self.board.reveal_all();
        proof {
            self.board.lemma_same_mines(&before);
        }
    }
}

} // verus!
