//! The turn driver: while a game runs it owns the lobby, keeps the queue of
//! players whose turn is still to come, and decides what each event of a
//! turn leads to.

use crate::error::GameError;
use crate::game::board::Board;
use crate::game::{Game, GameDifficulty, GamePhase, GamePhaseView};
use crate::text::copy_text;
use crate::ws::lobby::{outbox, round, Delivery, Lobby, LobbyStatus};
use crate::ws::protocol::{
    names,
    ClientMessage,
    GameAction,
    PlayerResult,
    PlayerResultView,
    ServerMessage,
    ServerMessageView,
};
use crate::ws::PlayerId;
use vstd::prelude::*;

verus! {

/// How long a player has for a turn, in seconds.
pub const TURN_SECONDS: u64 = 30;

/// What the driver's caller does once an event has been handled.
#[derive(Debug, Clone, Copy, PartialEq, Eq, Structural)]
pub enum TurnNext {
    /// The turn goes on; its deadline stays as it is.
    Wait,
    /// A new turn has begun: its deadline is `TURN_SECONDS` from now.
    NewTurn,
    /// The game is over: take the lobby back.
    Finished,
}

/// What handling one event asks of the driver's caller.
pub struct TurnStep {
    /// The messages to send, in order.
    pub deliveries: Vec<Delivery>,
    pub next: TurnNext,
}

/// Where a running game stands: whose turn it is and who waits.
#[derive(Debug, Clone, PartialEq, Eq)]
pub struct GameStatus {
    /// The player whose turn it is; `None` once the game is over.
    pub current: Option<PlayerId>,
    /// The players whose turn is still to come, the next one first.
    pub waiting: Vec<PlayerId>,
}

/// The player whose turn is next, if any.
pub open spec fn next_up(waiting: Seq<Seq<char>>) -> Option<Seq<char>> {
    if waiting.len() > 0 {
        Some(waiting[0])
    } else {
        None
    }
}

/// The players that still wait once the next one has taken its turn.
pub open spec fn others(waiting: Seq<Seq<char>>) -> Seq<Seq<char>> {
    if waiting.len() > 0 {
        waiting.subrange(1, waiting.len() as int)
    } else {
        waiting
    }
}

/// The announcement of the next turn to all members, if anyone waits.
pub open spec fn turn_notice(members: Seq<Seq<char>>, waiting: Seq<Seq<char>>) -> Seq<
    (Seq<char>, ServerMessageView),
> {
    if waiting.len() > 0 {
        round(members, ServerMessageView::PlayerTurn(waiting[0]))
    } else {
        Seq::empty()
    }
}

/// A new turn if anyone waits, else the end of the game.
pub open spec fn next_of(waiting: Seq<Seq<char>>) -> TurnNext {
    if waiting.len() > 0 {
        TurnNext::NewTurn
    } else {
        TurnNext::Finished
    }
}

/// The error that answers a move which the game does not accept.
pub open spec fn bad_move_view() -> ServerMessageView {
    GameError::GameLogicError.envelope_spec()
}

/// The error that answers a player who moves out of turn.
pub open spec fn not_your_turn_view() -> ServerMessageView {
    GameError::NotYourTurn.envelope_spec()
}

/// When a turn ends without a move, every member is told the result
/// exactly once: among the deliveries there is one for each member that
/// carries it, and no second one.
pub proof fn lemma_result_told_once(
    members: Seq<Seq<char>>,
    player: Seq<char>,
    result: PlayerResultView,
    waiting: Seq<Seq<char>>,
    member: int,
)
    requires
        members.no_duplicates(),
        0 <= member < members.len(),
    ensures
        ({
            let message = ServerMessageView::PlayerResult(player, result);
            let sent = round(members, message) + turn_notice(members, waiting);
            &&& sent[member] == (members[member], message)
            &&& forall|other: int|
                0 <= other < sent.len() && other != member ==> #[trigger] sent[other] != (
                    members[member],
                    message,
                )
        }),
{
    let message = ServerMessageView::PlayerResult(player, result);
    let first = round(members, message);
    let sent = first + turn_notice(members, waiting);
    assert(sent[member] == first[member]);
    assert forall|other: int| 0 <= other < sent.len() && other != member implies #[trigger] sent[other]
        != (members[member], message) by {
        if other < members.len() {
            assert(sent[other] == first[other]);
        } else {
            assert(sent[other] == turn_notice(members, waiting)[other - members.len()]);
        }
    }
}

/// A lobby in the middle of a game.
pub struct LobbyGame {
    lobby: Lobby,
    game: Game,
    queue: Vec<PlayerId>,
    current: Option<PlayerId>,
}

impl LobbyGame {
    /// The lobby.
    pub closed spec fn lobby_spec(&self) -> Lobby {
        self.lobby
    }

    /// The game.
    pub closed spec fn game_spec(&self) -> Game {
        self.game
    }

    /// The board of the game.
    pub open spec fn board_spec(&self) -> Board {
        self.game_spec().board_spec()
    }

    /// The members of the lobby: everyone who is told what happens.
    pub open spec fn members(&self) -> Seq<Seq<char>> {
        self.lobby_spec().player_ids()
    }

    /// The players whose turn is still to come, the next one first.
    pub closed spec fn waiting(&self) -> Seq<Seq<char>> {
        names(self.queue@)
    }

    /// The player whose turn it is; `None` once the game is over.
    pub closed spec fn current_view(&self) -> Option<Seq<char>> {
        match self.current {
            Some(player) => Some(player@),
            None => None,
        }
    }

    /// The driver's invariant: lobby and game are well-formed, and once the
    /// game is over nobody waits.
    pub open spec fn wf(&self) -> bool {
        &&& self.lobby_spec().wf()
        &&& self.game_spec().wf()
        &&& self.current_view() is None ==> self.waiting().len() == 0
    }

    /// Lobby, difficulty, turn and queue are those of `before`.
    pub open spec fn same_turn(&self, before: &LobbyGame) -> bool {
        &&& self.lobby_spec() == before.lobby_spec()
        &&& self.game_spec().difficulty_spec() == before.game_spec().difficulty_spec()
        &&& self.current_view() == before.current_view()
        &&& self.waiting() == before.waiting()
    }

    /// The turn of `before` has ended and `line` is who waits now: the first
    /// of them is up, or the game is over if there is none.
    pub open spec fn turn_passed(&self, before: &LobbyGame, line: Seq<Seq<char>>) -> bool {
        &&& self.lobby_spec() == before.lobby_spec()
        &&& self.game_spec().difficulty_spec() == before.game_spec().difficulty_spec()
        &&& self.current_view() == next_up(line)
        &&& self.waiting() == others(line)
    }

    /// The message that tells the size of the board.
    pub open spec fn info_view(&self) -> ServerMessageView {
        ServerMessageView::GameInfo {
            code: self.lobby_spec().code_view(),
            width: self.board_spec().cols() as u8,
            height: self.board_spec().rows() as u8,
            number_of_mines: self.board_spec().mine_total() as u8,
            seed: self.board_spec().seed_value(),
        }
    }

    /// Appends one copy of `message` for every member of the lobby.
    fn tell_all(&self, deliveries: &mut Vec<Delivery>, message: &ServerMessage)
        ensures
            outbox(final(deliveries)@) == outbox(old(deliveries)@) + round(
                self.members(),
                message@,
            ),
    {
        let ghost before = deliveries@;
        let mut more = self.lobby.broadcast_message(message);
        let ghost added = more@;
        deliveries.append(&mut more);
        assert(outbox(deliveries@) =~= outbox(before) + outbox(added));
    }

    /// Appends `message` for the one player `to`.
    fn tell(deliveries: &mut Vec<Delivery>, to: &PlayerId, message: ServerMessage)
        ensures
            outbox(final(deliveries)@) == outbox(old(deliveries)@).push((to@, message@)),
    {
        let ghost before = deliveries@;
        deliveries.push(Delivery { recipient: copy_text(to), message });
        assert(outbox(deliveries@) =~= outbox(before).push((to@, message@)));
    }

    /// Makes the first of those who wait the current player and tells every
    /// member; with nobody waiting the game is over.
    fn begin_turn(&mut self, deliveries: &mut Vec<Delivery>) -> (next: TurnNext)
        requires
            old(self).lobby_spec().wf(),
            old(self).game_spec().wf(),
        ensures
            final(self).wf(),
            final(self).game_spec() == old(self).game_spec(),
            final(self).lobby_spec() == old(self).lobby_spec(),
            final(self).current_view() == next_up(old(self).waiting()),
            final(self).waiting() == others(old(self).waiting()),
            outbox(final(deliveries)@) == outbox(old(deliveries)@) + turn_notice(
                old(self).members(),
                old(self).waiting(),
            ),
            next == next_of(old(self).waiting()),
    {
        let ghost line = self.queue@;
        if self.queue.len() > 0 {
            let player = self.queue.remove(0);
            assert(names(self.queue@) =~= others(names(line)));
            let message = ServerMessage::PlayerTurn(copy_text(&player));
            self.current = Some(player);
            self.tell_all(deliveries, &message);
            TurnNext::NewTurn
        } else {
            self.current = None;
            assert(outbox(deliveries@) + Seq::<(Seq<char>, ServerMessageView)>::empty() =~= outbox(
                deliveries@,
            ));
            TurnNext::Finished
        }
    }

    /// Ends the game: nobody is up and nobody waits.
    fn end_game(&mut self)
        requires
            old(self).lobby_spec().wf(),
            old(self).game_spec().wf(),
        ensures
            final(self).wf(),
            final(self).game_spec() == old(self).game_spec(),
            final(self).lobby_spec() == old(self).lobby_spec(),
            final(self).current_view() is None,
            final(self).waiting().len() == 0,
    {
        self.current = None;
        self.queue.clear();
    }

    /// Starts a game for the members of `lobby`: a new board of the given
    /// difficulty drawn from `seed`, the members queued in the order in
    /// which they joined. Every member is told the size of the board and
    /// then whose turn it is.
    pub fn start(lobby: Lobby, difficulty: GameDifficulty, seed: u64) -> (started: (
        LobbyGame,
        TurnStep,
    ))
        requires
            lobby.wf(),
        ensures
            started.0.wf(),
            started.0.lobby_spec() == lobby,
            started.0.game_spec().difficulty_spec() == difficulty,
            started.0.board_spec().seed_value() == seed,
            started.0.board_spec().untouched(),
            started.0.current_view() == next_up(lobby.player_ids()),
            started.0.waiting() == others(lobby.player_ids()),
            outbox(started.1.deliveries@) == round(lobby.player_ids(), started.0.info_view())
                + turn_notice(lobby.player_ids(), lobby.player_ids()),
            started.1.next == next_of(lobby.player_ids()),
    {
        let game = Game::new(difficulty, seed);
        let queue = lobby.members();
        let info = game.info();
        let message = ServerMessage::GameInfo {
            code: copy_text(lobby.code()),
            width: info.width,
            height: info.height,
            number_of_mines: info.number_of_mines,
            seed: info.seed,
        };
        let mut driver = LobbyGame { lobby, game, queue, current: None };
        let mut deliveries: Vec<Delivery> = Vec::new();
        driver.tell_all(&mut deliveries, &message);
        assert(outbox(deliveries@) =~= round(lobby.player_ids(), driver.info_view()));
        let next = driver.begin_turn(&mut deliveries);
        (driver, TurnStep { deliveries, next })
    }

    /// Whose turn it is and who waits.
    pub fn status(&self) -> (status: GameStatus)
        ensures
            (match status.current {
                Some(player) => Some(player@),
                None => None,
            }) == self.current_view(),
            names(status.waiting@) == self.waiting(),
    {
        let current = match &self.current {
            Some(player) => Some(copy_text(player)),
            None => None,
        };
        GameStatus { current, waiting: crate::ws::protocol::copy_names(&self.queue) }
    }

    /// The lobby, for sending what the driver asks to send.
    pub fn lobby(&self) -> (lobby: &Lobby)
        ensures
            *lobby == self.lobby_spec(),
    {
        &self.lobby
    }

    /// The lobby, for polling its action streams. Before the next event is
    /// handled, `Lobby::is_intact` tells whether the streams still match
    /// the members.
    pub fn lobby_mut(&mut self) -> (lobby: &mut Lobby)
        ensures
            *lobby == old(self).lobby_spec(),
            final(self).lobby_spec() == *final(lobby),
            final(self).game_spec() == old(self).game_spec(),
            final(self).current_view() == old(self).current_view(),
            final(self).waiting() == old(self).waiting(),
    {
        &mut self.lobby
    }

    /// The game.
    pub fn game(&self) -> (game: &Game)
        ensures
            *game == self.game_spec(),
    {
        &self.game
    }

    /// Gives the lobby back, waiting again: once the game is over, or
    /// when the lobby's streams no longer match its members and the game
    /// has to be given up.
    pub fn finish(self) -> (lobby: Lobby)
        ensures
            self.lobby_spec().wf() ==> lobby.wf(),
            self.lobby_spec().members_wf() ==> lobby.members_wf(),
            lobby.same_members(&self.lobby_spec()),
            lobby.status_spec() == LobbyStatus::Waiting,
    {
        let mut lobby = self.lobby;
        lobby.reset_status();
        lobby
    }

    /// The deadline of the current turn has passed: every member is told
    /// once that the player timed out, the player is out of the game, and
    /// the next one is up. Without a current player nothing happens.
    pub fn handle_deadline(&mut self) -> (step: TurnStep)
        requires
            old(self).wf(),
        ensures
            final(self).wf(),
            final(self).game_spec() == old(self).game_spec(),
            final(self).turn_passed(old(self), old(self).waiting()),
            match old(self).current_view() {
                Some(player) => {
                    &&& outbox(step.deliveries@) == round(
                        old(self).members(),
                        ServerMessageView::PlayerResult(player, PlayerResultView::Timeout),
                    ) + turn_notice(old(self).members(), old(self).waiting())
                    &&& step.next == next_of(old(self).waiting())
                },
                None => step.deliveries@.len() == 0 && step.next == TurnNext::Finished,
            },
    {
        self.drop_current(PlayerResult::Timeout)
    }

    /// The current player's connection is gone: every member is told once
    /// that the player lost, the player is out of the game, and the next
    /// one is up. The board stays as it is. Anyone else's leaving changes
    /// nothing here.
    pub fn handle_stream_closed(&mut self, player: &PlayerId) -> (step: TurnStep)
        requires
            old(self).wf(),
        ensures
            final(self).wf(),
            final(self).game_spec() == old(self).game_spec(),
            if old(self).current_view() == Some(player@) {
                &&& final(self).turn_passed(old(self), old(self).waiting())
                &&& outbox(step.deliveries@) == round(
                    old(self).members(),
                    ServerMessageView::PlayerResult(player@, PlayerResultView::Lost),
                ) + turn_notice(old(self).members(), old(self).waiting())
                &&& step.next == next_of(old(self).waiting())
            } else {
                &&& final(self).same_turn(old(self))
                &&& step.deliveries@.len() == 0
                &&& step.next == (if old(self).current_view() is None {
                    TurnNext::Finished
                } else {
                    TurnNext::Wait
                })
            },
    {
        if self.is_current(player) {
            self.drop_current(PlayerResult::Lost)
        } else {
            let next = if self.current.is_none() {
                TurnNext::Finished
            } else {
                TurnNext::Wait
            };
            TurnStep { deliveries: Vec::new(), next }
        }
    }

    /// None of the lobby's action streams is left, so the current player's
    /// is gone too: what `handle_stream_closed` does for the current
    /// player. Without a current player nothing happens.
    pub fn handle_streams_drained(&mut self) -> (step: TurnStep)
        requires
            old(self).wf(),
        ensures
            final(self).wf(),
            final(self).game_spec() == old(self).game_spec(),
            final(self).turn_passed(old(self), old(self).waiting()),
            match old(self).current_view() {
                Some(player) => {
                    &&& outbox(step.deliveries@) == round(
                        old(self).members(),
                        ServerMessageView::PlayerResult(player, PlayerResultView::Lost),
                    ) + turn_notice(old(self).members(), old(self).waiting())
                    &&& step.next == next_of(old(self).waiting())
                },
                None => step.deliveries@.len() == 0 && step.next == TurnNext::Finished,
            },
    {
        self.drop_current(PlayerResult::Lost)
    }

    /// Whether it is `player`'s turn.
    pub fn is_current(&self, player: &PlayerId) -> (yes: bool)
        ensures
            yes == (self.current_view() == Some(player@)),
    {
        match &self.current {
            Some(current) => *current == *player,
            None => false,
        }
    }

    /// Ends the current player's turn with `result` and without a move.
    fn drop_current(&mut self, result: PlayerResult) -> (step: TurnStep)
        requires
            old(self).wf(),
        ensures
            final(self).wf(),
            final(self).game_spec() == old(self).game_spec(),
            final(self).turn_passed(old(self), old(self).waiting()),
            match old(self).current_view() {
                Some(player) => {
                    &&& outbox(step.deliveries@) == round(
                        old(self).members(),
                        ServerMessageView::PlayerResult(player, result@),
                    ) + turn_notice(old(self).members(), old(self).waiting())
                    &&& step.next == next_of(old(self).waiting())
                },
                None => step.deliveries@.len() == 0 && step.next == TurnNext::Finished,
            },
    {
        let mut deliveries: Vec<Delivery> = Vec::new();
        match self.current.take() {
            Some(player) => {
                let message = ServerMessage::PlayerResult(player, result);
                self.tell_all(&mut deliveries, &message);
                assert(outbox(deliveries@) =~= round(self.members(), message@));
                let next = self.begin_turn(&mut deliveries);
                TurnStep { deliveries, next }
            },
            None => {
                assert(self.waiting() =~= others(self.waiting()));
                TurnStep { deliveries, next: TurnNext::Finished }
            },
        }
    }

    /// The messages that every member gets when the current player
    /// `player` has made the move `action` and it led to `result`: first
    /// the move, then the result.
    pub open spec fn move_report(
        members: Seq<Seq<char>>,
        player: Seq<char>,
        action: GameAction,
        result: PlayerResultView,
    ) -> Seq<(Seq<char>, ServerMessageView)> {
        round(members, ServerMessageView::PlayerAction(player, action)) + round(
            members,
            ServerMessageView::PlayerResult(player, result),
        )
    }

    /// What a move of the current player `player` does, as the contract of
    /// `handle_message` states it: `verdict` is what the game answers.
    pub open spec fn move_made(
        &self,
        before: &LobbyGame,
        player: Seq<char>,
        action: GameAction,
        verdict: Result<GamePhaseView, GameError>,
        sent: Seq<(Seq<char>, ServerMessageView)>,
        next: TurnNext,
    ) -> bool {
        match verdict {
            Ok(GamePhaseView::Won) => {
                &&& Game::board_after(&before.board_spec(), action.move_spec(), &self.board_spec())
                &&& self.lobby_spec() == before.lobby_spec()
                &&& self.current_view() is None
                &&& self.waiting().len() == 0
                &&& sent == LobbyGame::move_report(
                    before.members(),
                    player,
                    action,
                    PlayerResultView::Won,
                )
                &&& next == TurnNext::Finished
            },
            Ok(GamePhaseView::Lost) => {
                &&& self.board_spec().unveiled_from(&before.board_spec())
                &&& self.lobby_spec() == before.lobby_spec()
                &&& self.current_view() is None
                &&& self.waiting().len() == 0
                &&& sent == LobbyGame::move_report(
                    before.members(),
                    player,
                    action,
                    PlayerResultView::Lost,
                ) + round(
                    before.members(),
                    ServerMessageView::PlayerResult(
                        player,
                        PlayerResultView::Playing(self.board_spec().snapshot()),
                    ),
                )
                &&& next == TurnNext::Finished
            },
            Ok(GamePhaseView::Playing(board)) => {
                &&& Game::board_after(&before.board_spec(), action.move_spec(), &self.board_spec())
                &&& self.turn_passed(before, before.waiting().push(player))
                &&& sent == LobbyGame::move_report(
                    before.members(),
                    player,
                    action,
                    PlayerResultView::Playing(board),
                ) + turn_notice(before.members(), before.waiting().push(player))
                &&& next == TurnNext::NewTurn
            },
            _ => {
                &&& Game::board_after(&before.board_spec(), action.move_spec(), &self.board_spec())
                &&& self.same_turn(before)
                &&& sent == seq![(player, bad_move_view())]
                &&& next == TurnNext::Wait
            },
        }
    }

    /// Handles a message that `from` sent during the game.
    ///
    /// A move of the current player is applied to the game. If the game
    /// goes on, every member is told the move and the new board, the player
    /// goes to the end of the queue and the next one is up. A win or a mine
    /// ends the game for everyone; after a mine the whole board is revealed
    /// and shown to every member once. A move that changes nothing, or that
    /// the game rejects, is answered with an error to the player alone, and
    /// the turn goes on under its old deadline.
    ///
    /// Anything else from the current player is ignored. Whoever sends out
    /// of turn is told so, and nothing changes.
    pub fn handle_message(&mut self, from: &PlayerId, message: &ClientMessage) -> (step: TurnStep)
        requires
            old(self).wf(),
        ensures
            final(self).wf(),
            final(self).game_spec().difficulty_spec() == old(self).game_spec().difficulty_spec(),
            if old(self).current_view() is None {
                &&& final(self).same_turn(old(self))
                &&& final(self).game_spec() == old(self).game_spec()
                &&& step.deliveries@.len() == 0
                &&& step.next == TurnNext::Finished
            } else if old(self).current_view() != Some(from@) {
                &&& final(self).same_turn(old(self))
                &&& final(self).game_spec() == old(self).game_spec()
                &&& outbox(step.deliveries@) == seq![(from@, not_your_turn_view())]
                &&& step.next == TurnNext::Wait
            } else if message is GameClient {
                final(self).move_made(
                    old(self),
                    from@,
                    message->GameClient_0,
                    Game::verdict(
                        &old(self).board_spec(),
                        message->GameClient_0.move_spec(),
                        &final(self).board_spec(),
                    ),
                    outbox(step.deliveries@),
                    step.next,
                )
            } else {
                &&& final(self).same_turn(old(self))
                &&& final(self).game_spec() == old(self).game_spec()
                &&& step.deliveries@.len() == 0
                &&& step.next == TurnNext::Wait
            },
    {
        let mut deliveries: Vec<Delivery> = Vec::new();
        if self.current.is_none() {
            return TurnStep { deliveries, next: TurnNext::Finished };
        }
        if !self.is_current(from) {
            LobbyGame::tell(&mut deliveries, from, GameError::NotYourTurn.envelope());
            assert(outbox(deliveries@) =~= seq![(from@, not_your_turn_view())]);
            return TurnStep { deliveries, next: TurnNext::Wait };
        }
        let action = match message {
            ClientMessage::GameClient(action) => *action,
            _ => {
                return TurnStep { deliveries, next: TurnNext::Wait };
            },
        };
        let ghost before = *self;
        let outcome = self.game.handle_action(action.to_move());
        let result = match outcome {
            Ok(GamePhase::Won) => PlayerResult::Won,
            Ok(GamePhase::Lost) => PlayerResult::Lost,
            Ok(GamePhase::Playing(board)) => PlayerResult::Playing(board),
            _ => {
                LobbyGame::tell(&mut deliveries, from, GameError::GameLogicError.envelope());
                assert(outbox(deliveries@) =~= seq![(from@, bad_move_view())]);
                return TurnStep { deliveries, next: TurnNext::Wait };
            },
        };
        self.tell_all(&mut deliveries, &ServerMessage::PlayerAction(copy_text(from), action));
        let report = ServerMessage::PlayerResult(copy_text(from), result.duplicate());
        self.tell_all(&mut deliveries, &report);
        assert(outbox(deliveries@) =~= LobbyGame::move_report(
            before.members(),
            from@,
            action,
            result@,
        ));
        match result {
            PlayerResult::Playing(_) => {
                let ghost line = self.queue@;
                self.queue.push(copy_text(from));
                assert(names(self.queue@) =~= names(line).push(from@));
                let next = self.begin_turn(&mut deliveries);
                TurnStep { deliveries, next }
            },
            PlayerResult::Lost => {
                self.game.lose_game();
                let shown = ServerMessage::PlayerResult(
                    copy_text(from),
                    PlayerResult::Playing(self.game.snapshot()),
                );
                self.tell_all(&mut deliveries, &shown);
                self.end_game();
                TurnStep { deliveries, next: TurnNext::Finished }
            },
            _ => {
                self.end_game();
                TurnStep { deliveries, next: TurnNext::Finished }
            },
        }
    }
}

} // verus!
