//! The multiplayer layer: the wire messages, the registry shared by all
//! connections, the lobby and the turn driver.

pub mod channel;
pub mod table;
pub mod protocol;
pub mod lobby;
pub mod lobby_game;
pub mod player;

use crate::error::RegistryError;
use crate::random::{draw_in_range, seeded_generator};
use crate::text::{decimal, lemma_decimal_injective, push_decimal};
use crate::ws::lobby::LobbyCode;
use crate::ws::protocol::{ClientMessage, LobbyCommand, PlayerConnection, ServerMessage};
use crate::ws::table::Table;
use rand_pcg::Pcg64;
use tokio::sync::mpsc::Sender;
use vstd::prelude::*;

verus! {

/// The name a connected player goes by: `player 0`, `player 1`, ...
pub type PlayerId = String;

/// The smallest number a lobby code can stand for.
pub const FIRST_LOBBY_CODE: u32 = 1000;

/// The largest number a lobby code can stand for.
pub const LAST_LOBBY_CODE: u32 = 9999;

/// How many codes `register_lobby` draws before it gives up.
pub const MAX_CODE_ATTEMPTS: u32 = 10000;

/// The name of the `number`-th player.
pub open spec fn player_name(number: nat) -> Seq<char> {
    "player "@ + decimal(number)
}

/// The text is a lobby code: the numeral of a number from 1000 to 9999.
pub open spec fn is_lobby_code(code: Seq<char>) -> bool {
    exists|number: nat|
        FIRST_LOBBY_CODE <= number <= LAST_LOBBY_CODE && code == #[trigger] decimal(number)
}

/// No two players are given the same name.
pub proof fn lemma_player_names_differ(a: nat, b: nat)
    requires
        a != b,
    ensures
        player_name(a) != player_name(b),
{
    let prefix = "player "@;
    if player_name(a) == player_name(b) {
        assert(decimal(a) =~= player_name(a).subrange(
            prefix.len() as int,
            player_name(a).len() as int,
        ));
        assert(decimal(b) =~= player_name(b).subrange(
            prefix.len() as int,
            player_name(b).len() as int,
        ));
        lemma_decimal_injective(a, b);
    }
}

/// A lobby code has four characters.
pub proof fn lemma_lobby_code_len(code: Seq<char>)
    requires
        is_lobby_code(code),
    ensures
        code.len() == 4,
{
    let number = choose|number: nat|
        FIRST_LOBBY_CODE <= number <= LAST_LOBBY_CODE && code == #[trigger] decimal(number);
    reveal_with_fuel(decimal, 5);
}

/// The state that all connections share: the players that are in no lobby,
/// the live lobbies, the number of names given out so far, and the
/// generator of lobby codes.
pub struct SharedState {
    lobbies: Table<Sender<LobbyCommand>>,
    idle_players: Table<PlayerConnection>,
    latest_player_id_number: u32,
    rng: Pcg64,
}

impl SharedState {
    /// The live lobbies: from code to the handle that commands go to.
    pub closed spec fn lobbies(&self) -> Map<Seq<char>, Sender<LobbyCommand>> {
        self.lobbies@
    }

    /// The players that are in no lobby, each with its connection.
    pub closed spec fn idle(&self) -> Map<Seq<char>, PlayerConnection> {
        self.idle_players@
    }

    /// How many names have been given out.
    pub closed spec fn minted(&self) -> nat {
        self.latest_player_id_number as nat
    }

    /// Some live lobby has a lobby code: a draw can hit it.
    pub open spec fn code_taken(&self) -> bool {
        exists|code: Seq<char>| is_lobby_code(code) && #[trigger] self.lobbies().contains_key(code)
    }

    /// The registry's invariant: neither table holds a key twice.
    pub closed spec fn wf(&self) -> bool {
        self.lobbies.wf() && self.idle_players.wf()
    }

    /// A registry without players or lobbies, whose lobby codes are drawn
    /// from a generator seeded with `seed`.
    pub fn new(seed: u64) -> (state: SharedState)
        ensures
            state.wf(),
            state.lobbies() == Map::<Seq<char>, Sender<LobbyCommand>>::empty(),
            state.idle() == Map::<Seq<char>, PlayerConnection>::empty(),
            state.minted() == 0,
    {
        SharedState {
            lobbies: Table::new(),
            idle_players: Table::new(),
            latest_player_id_number: 0,
            rng: seeded_generator(seed),
        }
    }

    /// How many names have been given out.
    pub fn players_registered(&self) -> (count: u32)
        ensures
            count == self.minted(),
    {
        self.latest_player_id_number
    }

    /// Gives a new client its name and enters it among the idle players.
    /// Names are numbered from zero, so no name is given twice; the counter
    /// must not have run out.
    pub fn register_player(
        &mut self,
        action_sdr: Sender<ClientMessage>,
        message_sdr: Sender<ServerMessage>,
    ) -> (player_id: PlayerId)
        requires
            old(self).wf(),
            old(self).minted() < u32::MAX,
        ensures
            final(self).wf(),
            player_id@ == player_name(old(self).minted()),
            final(self).minted() == old(self).minted() + 1,
            final(self).idle() == old(self).idle().insert(
                player_id@,
                PlayerConnection { action_sdr, message_sdr },
            ),
            final(self).lobbies() == old(self).lobbies(),
    {
        let connection = PlayerConnection { action_sdr, message_sdr };
        let mut player_id: PlayerId = "player ".to_owned();
        push_decimal(&mut player_id, self.latest_player_id_number);
        self.latest_player_id_number = self.latest_player_id_number + 1;
        let name = player_id.clone();
        self.idle_players.insert(name, connection);
        player_id
    }

    /// Takes a player out of the idle players and hands its connection to
    /// the caller; `None` if the player is not idle.
    pub fn de_idle_player_by_id(&mut self, player_id: PlayerId) -> (taken: Option<
        (PlayerId, PlayerConnection),
    >)
        requires
            old(self).wf(),
        ensures
            final(self).wf(),
            final(self).idle() == old(self).idle().remove(player_id@),
            final(self).lobbies() == old(self).lobbies(),
            final(self).minted() == old(self).minted(),
            match taken {
                Some((id, connection)) => old(self).idle().contains_key(player_id@) && id
                    == player_id && connection == old(self).idle()[player_id@],
                None => !old(self).idle().contains_key(player_id@),
            },
    {
        match self.idle_players.remove(&player_id) {
            Some(connection) => Some((player_id, connection)),
            None => None,
        }
    }

    /// Enters a player that has left its lobby among the idle players
    /// again.
    pub fn register_idle_player(&mut self, player_id: PlayerId, connection: PlayerConnection)
        requires
            old(self).wf(),
        ensures
            final(self).wf(),
            final(self).idle() == old(self).idle().insert(player_id@, connection),
            final(self).lobbies() == old(self).lobbies(),
            final(self).minted() == old(self).minted(),
    {
        self.idle_players.insert(player_id, connection);
    }

    /// Registers a lobby under the numeral of `number` unless that code is
    /// taken; then the handle comes back and nothing changes.
    pub fn claim_code(&mut self, number: u32, cmd_sdr: Sender<LobbyCommand>) -> (claimed: Result<
        LobbyCode,
        Sender<LobbyCommand>,
    >)
        requires
            old(self).wf(),
        ensures
            final(self).wf(),
            final(self).idle() == old(self).idle(),
            final(self).minted() == old(self).minted(),
            match claimed {
                Ok(code) => code@ == decimal(number as nat) && !old(self).lobbies().contains_key(
                    code@,
                ) && final(self).lobbies() == old(self).lobbies().insert(code@, cmd_sdr),
                Err(handle) => old(self).lobbies().contains_key(decimal(number as nat)) && handle
                    == cmd_sdr && final(self).lobbies() == old(self).lobbies(),
            },
    {
        let mut code: LobbyCode = String::new();
        push_decimal(&mut code, number);
        assert(code@ =~= decimal(number as nat));
        if self.lobbies.contains_key(&code) {
            Err(cmd_sdr)
        } else {
            let key = code.clone();
            self.lobbies.insert(key, cmd_sdr);
            Ok(code)
        }
    }

    /// Registers a lobby under a code that no live lobby has. Codes are
    /// drawn at random from 1000 to 9999 until one is free; after
    /// `MAX_CODE_ATTEMPTS` draws that all hit a live lobby the registry is
    /// left as it was and an error is returned. While no lobby is live the
    /// first draw succeeds.
    pub fn register_lobby(&mut self, cmd_sdr: Sender<LobbyCommand>) -> (registered: Result<
        LobbyCode,
        RegistryError,
    >)
        requires
            old(self).wf(),
        ensures
            final(self).wf(),
            final(self).idle() == old(self).idle(),
            final(self).minted() == old(self).minted(),
            match registered {
                Ok(code) => is_lobby_code(code@) && !old(self).lobbies().contains_key(code@)
                    && final(self).lobbies() == old(self).lobbies().insert(code@, cmd_sdr),
                Err(_) => final(self).lobbies() == old(self).lobbies() && old(self).code_taken(),
            },
    {
        let mut handle = cmd_sdr;
        let mut attempts: u32 = 0;
        while attempts < MAX_CODE_ATTEMPTS
            invariant
                self.wf(),
                handle == cmd_sdr,
                self.idle() == old(self).idle(),
                self.minted() == old(self).minted(),
                self.lobbies() == old(self).lobbies(),
                attempts > 0 ==> old(self).code_taken(),
            decreases MAX_CODE_ATTEMPTS - attempts,
        {
            let number = draw_in_range(&mut self.rng, FIRST_LOBBY_CODE, LAST_LOBBY_CODE);
            match self.claim_code(number, handle) {
                Ok(code) => {
                    assert(is_lobby_code(code@)) by {
                        assert(code@ == decimal(number as nat));
                    }
                    return Ok(code);
                },
                Err(back) => {
                    assert(is_lobby_code(decimal(number as nat)));
                    handle = back;
                },
            }
            attempts = attempts + 1;
        }
        Err(RegistryError::LobbyCodesExhausted)
    }

    /// The handle of the lobby with the given code, if it is live.
    pub fn get_lobby(&self, lobby_code: LobbyCode) -> (found: Option<
        (LobbyCode, &Sender<LobbyCommand>),
    >)
        requires
            self.wf(),
        ensures
            match found {
                Some((code, handle)) => self.lobbies().contains_key(lobby_code@) && code
                    == lobby_code && *handle == self.lobbies()[lobby_code@],
                None => !self.lobbies().contains_key(lobby_code@),
            },
    {
        match self.lobbies.get(&lobby_code) {
            Some(handle) => Some((lobby_code, handle)),
            None => None,
        }
    }

    /// Forgets the lobby with the given code.
    pub fn deregister_lobby(&mut self, lobby_code: &LobbyCode)
        requires
            old(self).wf(),
        ensures
            final(self).wf(),
            final(self).lobbies() == old(self).lobbies().remove(lobby_code@),
            final(self).idle() == old(self).idle(),
            final(self).minted() == old(self).minted(),
    {
        self.lobbies.remove(lobby_code);
    }
}

} // verus!
