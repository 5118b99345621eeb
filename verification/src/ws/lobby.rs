//! A lobby: its members in the order they joined, their action streams, the
//! host and whether a game is starting.

use crate::error::ConnectionError;
use crate::text::copy_text;
use crate::ws::channel::{
    count_streams,
    holds_stream,
    insert_stream,
    into_stream,
    new_streams,
    remove_stream,
    stream_keys,
    ActionStreams,
};
use crate::ws::protocol::{
    ClientMessage,
    ErrorCode,
    LobbyAction,
    LobbyCommand,
    PlayerConnection,
    ServerMessage,
    ServerMessageView,
};
use crate::ws::table::Table;
use crate::ws::PlayerId;
use tokio::sync::mpsc::Receiver;
use vstd::multiset::Multiset;
use vstd::prelude::*;

verus! {

/// A lobby's four-digit code.
pub type LobbyCode = String;

/// Whether the lobby is waiting for its host or starting a game.
#[derive(Debug, Clone, Copy, PartialEq, Eq, Structural)]
pub enum LobbyStatus {
    Waiting,
    Starting,
}

/// A message on its way to one player.
#[derive(Debug, Clone, PartialEq, Eq)]
pub struct Delivery {
    pub recipient: PlayerId,
    pub message: ServerMessage,
}

impl View for Delivery {
    type V = (Seq<char>, ServerMessageView);

    open spec fn view(&self) -> (Seq<char>, ServerMessageView) {
        (self.recipient@, self.message@)
    }
}

/// A list of deliveries as recipients and messages.
pub open spec fn outbox(list: Seq<Delivery>) -> Seq<(Seq<char>, ServerMessageView)> {
    Seq::new(list.len(), |i: int| list[i]@)
}

/// One `message` for each of `recipients`, in their order.
pub open spec fn round(recipients: Seq<Seq<char>>, message: ServerMessageView) -> Seq<
    (Seq<char>, ServerMessageView),
> {
    Seq::new(recipients.len(), |i: int| (recipients[i], message))
}

/// In a round to recipients that are all different, each gets the message
/// once: the delivery at a recipient's place is the only one addressed to
/// it.
pub proof fn lemma_round_once(recipients: Seq<Seq<char>>, message: ServerMessageView, i: int)
    requires
        recipients.no_duplicates(),
        0 <= i < recipients.len(),
    ensures
        round(recipients, message).len() == recipients.len(),
        round(recipients, message)[i] == (recipients[i], message),
        forall|j: int|
            0 <= j < recipients.len() && j != i ==> (#[trigger] round(recipients, message)[j]).0
                != recipients[i],
{
}

/// What the lobby's actor does once an event has been handled.
#[derive(Debug, Clone, Copy, PartialEq, Eq, Structural)]
pub enum LobbyNext {
    /// Wait for the next event.
    Continue,
    /// Hand the lobby to the turn driver.
    StartGame,
    /// The lobby is empty: end the actor.
    Shutdown,
}

/// What handling one event asks of the lobby's actor.
pub struct LobbyStep {
    /// The messages to send, in order.
    pub deliveries: Vec<Delivery>,
    /// A player to enter among the idle players again.
    pub returned: Option<(PlayerId, PlayerConnection)>,
    pub next: LobbyNext,
}

/// The members of one lobby and what they share.
pub struct Lobby {
    code: LobbyCode,
    players: Table<PlayerConnection>,
    action_streams: ActionStreams,
    host_id: PlayerId,
    status: LobbyStatus,
}

impl Lobby {
    /// The lobby's code.
    pub closed spec fn code_view(&self) -> Seq<char> {
        self.code@
    }

    /// The members, in the order in which they joined.
    pub closed spec fn player_ids(&self) -> Seq<Seq<char>> {
        self.players.keys()
    }

    /// The members' connections.
    pub closed spec fn connections(&self) -> Map<Seq<char>, PlayerConnection> {
        self.players@
    }

    /// The players whose action stream the lobby holds, each as often as
    /// the lobby holds a stream for it.
    pub closed spec fn stream_ids(&self) -> Multiset<Seq<char>> {
        stream_keys(self.action_streams)
    }

    /// The action streams themselves.
    pub closed spec fn streams(&self) -> ActionStreams {
        self.action_streams
    }

    /// This lobby with other action streams.
    pub closed spec fn with_streams(&self, streams: ActionStreams) -> Lobby {
        Lobby { action_streams: streams, ..*self }
    }

    /// The host.
    pub closed spec fn host_view(&self) -> Seq<char> {
        self.host_id@
    }

    /// The status.
    pub closed spec fn status_spec(&self) -> LobbyStatus {
        self.status
    }

    /// The part of the invariant that no polling of the action streams can
    /// touch: no member is listed twice, and while the lobby has members
    /// the host is one of them.
    pub closed spec fn members_wf(&self) -> bool {
        &&& self.players.wf()
        &&& self.players.keys().len() >= 1 ==> self.players.keys().contains(self.host_id@)
    }

    /// The lobby's invariant: no member is listed twice, the lobby holds
    /// one action stream for each member and none besides, and while it has
    /// members the host is one of them.
    pub closed spec fn wf(&self) -> bool {
        &&& self.members_wf()
        &&& stream_keys(self.action_streams) == self.players.keys().to_multiset()
    }

    /// A list without repetitions whose elements all occur in a multiset of
    /// the list's size is that multiset.
    proof fn lemma_same_size(held: Multiset<Seq<char>>, ids: Seq<Seq<char>>)
        requires
            ids.no_duplicates(),
            held.len() == ids.len(),
            forall|i: int| 0 <= i < ids.len() ==> held.count(#[trigger] ids[i]) > 0,
        ensures
            held == ids.to_multiset(),
    {
        broadcast use vstd::multiset::group_multiset_axioms;

        let listed = ids.to_multiset();
        ids.to_multiset_ensures();
        ids.lemma_multiset_has_no_duplicates();
        assert forall|id: Seq<char>| listed.count(id) <= held.count(id) by {
            if listed.count(id) > 0 {
                assert(ids.contains(id));
                let i = choose|i: int| 0 <= i < ids.len() && ids[i] == id;
                assert(held.count(ids[i]) > 0);
                assert(listed.contains(id));
            }
        }
        assert(listed.subset_of(held));
        let rest = held.sub(listed);
        assert(rest.len() == 0);
        vstd::multiset::lemma_multiset_empty_len(rest);
        assert forall|id: Seq<char>| held.count(id) == listed.count(id) by {
            assert(rest.count(id) == 0);
        }
        assert(held =~= listed);
    }

    /// Whether the lobby still holds one action stream for each member and
    /// none besides. Polling the streams can take an ended one away; this
    /// tells whether that has happened.
    pub fn is_intact(&self) -> (intact: bool)
        requires
            self.members_wf(),
        ensures
            intact == self.wf(),
    {
        proof {
            broadcast use vstd::seq_lib::group_to_multiset_ensures;

            self.players.keys().to_multiset_ensures();
        }
        if count_streams(&self.action_streams) != self.players.len() {
            return false;
        }
        let mut index: usize = 0;
        while index < self.players.len()
            invariant
                index <= self.players.keys().len(),
                forall|i: int|
                    0 <= i < index ==> stream_keys(self.action_streams).count(
                        #[trigger] self.players.keys()[i],
                    ) > 0,
            decreases self.players.keys().len() - index,
        {
            if !holds_stream(&self.action_streams, self.players.key_at(index)) {
                proof {
                    let ids = self.players.keys();
                    ids.to_multiset_ensures();
                    assert(ids.contains(ids[index as int]));
                    assert(ids.to_multiset().count(ids[index as int]) > 0);
                }
                return false;
            }
            index = index + 1;
        }
        proof {
            Lobby::lemma_same_size(stream_keys(self.action_streams), self.players.keys());
        }
        true
    }

    /// What the invariant means for the members, the streams and the host:
    /// the players with a connection and the players with an action stream
    /// are the same, each member has exactly one stream, and a lobby with
    /// members has its host among them.
    pub proof fn lemma_membership(&self)
        requires
            self.wf(),
        ensures
            self.members_wf(),
            self.player_ids().no_duplicates(),
            self.stream_ids() == self.player_ids().to_multiset(),
            self.stream_ids().dom() == self.connections().dom(),
            self.connections().dom() == self.player_ids().to_set(),
            forall|id: Seq<char>|
                #[trigger] self.stream_ids().count(id) == (if self.player_ids().contains(id) {
                    1nat
                } else {
                    0nat
                }),
            self.player_ids().len() >= 1 ==> self.player_ids().contains(self.host_view()),
    {
        broadcast use vstd::seq_lib::group_to_multiset_ensures;

        let ids = self.player_ids();
        ids.lemma_multiset_has_no_duplicates();
        assert(self.connections().dom() =~= ids.to_set());
        assert forall|id: Seq<char>| #[trigger]
            self.stream_ids().count(id) == (if ids.contains(id) {
                1nat
            } else {
                0nat
            }) by {
            ids.to_multiset_ensures();
        }
        assert(self.stream_ids().dom() =~= ids.to_set());
    }

    /// The state of the lobby as it is told to the members.
    pub open spec fn state_view(&self) -> ServerMessageView {
        ServerMessageView::LobbyState {
            code: self.code_view(),
            players: self.player_ids(),
            host_id: self.host_view(),
            status: self.status_spec(),
        }
    }

    /// This lobby is `before` after `id` has joined with `connection`: a new
    /// member goes to the end of the list, a member that joins again keeps
    /// its place, and whoever joins an empty lobby becomes its host.
    pub open spec fn joined_from(
        &self,
        before: &Lobby,
        id: Seq<char>,
        connection: PlayerConnection,
    ) -> bool {
        &&& self.code_view() == before.code_view()
        &&& self.status_spec() == before.status_spec()
        &&& self.player_ids() == (if before.player_ids().contains(id) {
            before.player_ids()
        } else {
            before.player_ids().push(id)
        })
        &&& self.connections() == before.connections().insert(id, connection)
        &&& self.host_view() == (if before.player_ids().len() == 0 {
            id
        } else {
            before.host_view()
        })
    }

    /// This lobby is `before` after `id` has left: the other members keep
    /// their order, and if the host left, the member that joined first of
    /// those that remain is the host.
    pub open spec fn left_from(&self, before: &Lobby, id: Seq<char>) -> bool {
        &&& self.code_view() == before.code_view()
        &&& self.status_spec() == before.status_spec()
        &&& self.player_ids() == (if before.player_ids().contains(id) {
            before.player_ids().remove(before.player_ids().index_of(id))
        } else {
            before.player_ids()
        })
        &&& self.connections() == before.connections().remove(id)
        &&& self.host_view() == (if before.host_view() == id && self.player_ids().len() > 0 {
            self.player_ids()[0]
        } else {
            before.host_view()
        })
    }

    /// This lobby is `before` but for its status.
    pub open spec fn same_members(&self, before: &Lobby) -> bool {
        &&& self.code_view() == before.code_view()
        &&& self.player_ids() == before.player_ids()
        &&& self.connections() == before.connections()
        &&& self.host_view() == before.host_view()
    }

    /// A lobby with its creator as only member and host, waiting.
    pub fn new(
        host_id: PlayerId,
        host_connection: PlayerConnection,
        action_rcr: Receiver<ClientMessage>,
        code: LobbyCode,
    ) -> (lobby: Lobby)
        ensures
            lobby.wf(),
            lobby.code_view() == code@,
            lobby.player_ids() == seq![host_id@],
            lobby.connections() == Map::<Seq<char>, PlayerConnection>::empty().insert(
                host_id@,
                host_connection,
            ),
            lobby.host_view() == host_id@,
            lobby.status_spec() == LobbyStatus::Waiting,
    {
        let mut players: Table<PlayerConnection> = Table::new();
        let mut action_streams = new_streams();
        players.insert(copy_text(&host_id), host_connection);
        insert_stream(&mut action_streams, copy_text(&host_id), into_stream(action_rcr));
        proof {
            broadcast use vstd::seq_lib::group_to_multiset_ensures;

            let none = Seq::<Seq<char>>::empty();
            assert(players.keys() =~= none.push(host_id@));
            assert(players.keys()[0] == host_id@);
            assert(none.to_multiset() =~= Multiset::<Seq<char>>::empty());
            assert(Multiset::<Seq<char>>::empty().remove(host_id@) =~= Multiset::<
                Seq<char>,
            >::empty());
        }
        Lobby { code, players, action_streams, host_id, status: LobbyStatus::Waiting }
    }

    /// Adds a member with its connection and its action stream.
    pub fn register_player(
        &mut self,
        player_id: PlayerId,
        player_connection: PlayerConnection,
        action_rcr: Receiver<ClientMessage>,
    ) -> (registered: PlayerId)
        requires
            old(self).wf(),
        ensures
            final(self).wf(),
            final(self).joined_from(old(self), player_id@, player_connection),
            registered == player_id,
    {
        let ghost before = *self;
        if self.players.len() == 0 {
            self.host_id = copy_text(&player_id);
        }
        self.players.insert(copy_text(&player_id), player_connection);
        insert_stream(&mut self.action_streams, copy_text(&player_id), into_stream(action_rcr));
        proof {
            broadcast use vstd::seq_lib::group_to_multiset_ensures;

            let ids = before.players.keys();
            let held = ids.to_multiset();
            ids.to_multiset_ensures();
            if ids.contains(player_id@) {
                assert(held.remove(player_id@).insert(player_id@) =~= held);
            } else {
                assert(held.remove(player_id@) =~= held);
                assert(ids.push(player_id@)[ids.len() as int] == player_id@);
            }
            if ids.len() >= 1 {
                let i = ids.index_of(before.host_id@);
                assert(self.players.keys()[i] == before.host_id@);
            }
        }
        player_id
    }

    /// Takes a member out, with its action stream, and hands back its
    /// connection; `None` if the player is no member. If the host leaves,
    /// the member that joined first of those that remain becomes host.
    pub fn deregister_player(&mut self, player_id: &PlayerId) -> (connection: Option<
        PlayerConnection,
    >)
        requires
            old(self).wf(),
        ensures
            final(self).wf(),
            final(self).left_from(old(self), player_id@),
            connection == (if old(self).player_ids().contains(player_id@) {
                Some(old(self).connections()[player_id@])
            } else {
                None
            }),
    {
        let ghost before = *self;
        let connection = self.players.remove(player_id);
        remove_stream(&mut self.action_streams, player_id);
        let was_host = self.host_id == *player_id;
        if was_host && self.players.len() > 0 {
            self.host_id = copy_text(self.players.key_at(0));
        }
        proof {
            broadcast use vstd::seq_lib::group_to_multiset_ensures;

            let ids = before.players.keys();
            ids.to_multiset_ensures();
            if ids.contains(player_id@) {
                let i = ids.index_of(player_id@);
                if !was_host && ids.remove(i).len() >= 1 {
                    let h = ids.index_of(before.host_id@);
                    if h < i {
                        assert(ids.remove(i)[h] == before.host_id@);
                    } else {
                        assert(ids.remove(i)[h - 1] == before.host_id@);
                    }
                }
            } else {
                assert(ids.to_multiset().remove(player_id@) =~= ids.to_multiset());
            }
        }
        connection
    }

    /// Starts a game if `from` is the host: then the status becomes
    /// `Starting`. Anyone else changes nothing.
    pub fn start_game(&mut self, from: &PlayerId) -> (started: bool)
        requires
            old(self).wf(),
        ensures
            final(self).wf(),
            final(self).same_members(old(self)),
            started == (from@ == old(self).host_view()),
            final(self).status_spec() == (if started {
                LobbyStatus::Starting
            } else {
                old(self).status_spec()
            }),
    {
        if self.host_id == *from {
            self.status = LobbyStatus::Starting;
            true
        } else {
            false
        }
    }

    /// Back to waiting, once a game is over.
    pub fn reset_status(&mut self)
        ensures
            old(self).wf() ==> final(self).wf(),
            old(self).members_wf() ==> final(self).members_wf(),
            final(self).same_members(old(self)),
            final(self).status_spec() == LobbyStatus::Waiting,
    {
        self.status = LobbyStatus::Waiting;
    }

    /// The lobby's code.
    pub fn code(&self) -> (code: &LobbyCode)
        ensures
            code@ == self.code_view(),
    {
        &self.code
    }

    /// The host.
    pub fn host_id(&self) -> (host: &PlayerId)
        ensures
            host@ == self.host_view(),
    {
        &self.host_id
    }

    /// The status.
    pub fn status(&self) -> (status: LobbyStatus)
        ensures
            status == self.status_spec(),
    {
        self.status
    }

    /// The number of members.
    pub fn player_count(&self) -> (count: usize)
        ensures
            count == self.player_ids().len(),
    {
        self.players.len()
    }

    /// The members, in the order in which they joined.
    pub fn members(&self) -> (list: Vec<PlayerId>)
        ensures
            crate::ws::protocol::names(list@) == self.player_ids(),
    {
        let mut list: Vec<PlayerId> = Vec::new();
        let mut index: usize = 0;
        while index < self.players.len()
            invariant
                index <= self.players.keys().len(),
                list@.len() == index,
                forall|i: int| 0 <= i < index ==> (#[trigger] list@[i])@ == self.players.keys()[i],
            decreases self.players.keys().len() - index,
        {
            list.push(copy_text(self.players.key_at(index)));
            index = index + 1;
        }
        assert(crate::ws::protocol::names(list@) =~= self.player_ids());
        list
    }

    /// The connection of a member.
    pub fn connection(&self, player_id: &PlayerId) -> (found: Option<&PlayerConnection>)
        requires
            self.wf(),
        ensures
            match found {
                Some(connection) => self.connections().contains_key(player_id@) && *connection
                    == self.connections()[player_id@],
                None => !self.connections().contains_key(player_id@),
            },
    {
        self.players.get(player_id)
    }

    /// The action streams, for the actor to poll. Whatever is done to them,
    /// the members stay as they are; `is_intact` tells afterwards whether
    /// the streams still match them.
    pub fn action_streams_mut(&mut self) -> (streams: &mut ActionStreams)
        ensures
            *streams == old(self).streams(),
            *final(self) == old(self).with_streams(*final(streams)),
            old(self).members_wf() ==> final(self).members_wf(),
            final(self).same_members(old(self)),
            final(self).status_spec() == old(self).status_spec(),
    {
        &mut self.action_streams
    }

    /// The message that tells the lobby's state.
    pub fn state_message(&self) -> (message: ServerMessage)
        ensures
            message@ == self.state_view(),
    {
        ServerMessage::LobbyState {
            code: copy_text(&self.code),
            players: self.members(),
            host_id: copy_text(&self.host_id),
            status: self.status,
        }
    }

    /// One copy of `message` for every member, in the order in which they
    /// joined.
    pub fn broadcast_message(&self, message: &ServerMessage) -> (deliveries: Vec<Delivery>)
        ensures
            outbox(deliveries@) == round(self.player_ids(), message@),
    {
        let mut deliveries: Vec<Delivery> = Vec::new();
        let mut index: usize = 0;
        while index < self.players.len()
            invariant
                index <= self.players.keys().len(),
                deliveries@.len() == index,
                forall|i: int|
                    0 <= i < index ==> (#[trigger] deliveries@[i])@ == (
                        self.players.keys()[i],
                        message@,
                    ),
            decreases self.players.keys().len() - index,
        {
            deliveries.push(
                Delivery {
                    recipient: copy_text(self.players.key_at(index)),
                    message: message.duplicate(),
                },
            );
            index = index + 1;
        }
        assert(outbox(deliveries@) =~= round(self.player_ids(), message@));
        deliveries
    }

    /// The lobby's state for every member.
    pub fn broadcast_state(&self) -> (deliveries: Vec<Delivery>)
        ensures
            outbox(deliveries@) == round(self.player_ids(), self.state_view()),
    {
        let message = self.state_message();
        self.broadcast_message(&message)
    }

    /// The notice that the lobby has been closed.
    pub open spec fn closed_view() -> ServerMessageView {
        ServerMessageView::Error {
            code: ErrorCode::LobbyNotFound,
            message: "Lobby has been closed"@,
        }
    }

    /// What the members are told when the lobby shuts down.
    pub fn close(&self) -> (deliveries: Vec<Delivery>)
        ensures
            outbox(deliveries@) == round(self.player_ids(), Lobby::closed_view()),
    {
        let message = ServerMessage::Error {
            code: ErrorCode::LobbyNotFound,
            message: "Lobby has been closed".to_owned(),
        };
        self.broadcast_message(&message)
    }

    /// The lobby's commands have stopped coming, or none of its action
    /// streams is left: every member is told once that the lobby has been
    /// closed, and the lobby shuts down.
    pub fn handle_closed(&self) -> (step: LobbyStep)
        ensures
            outbox(step.deliveries@) == round(self.player_ids(), Lobby::closed_view()),
            step.returned is None,
            step.next == LobbyNext::Shutdown,
    {
        LobbyStep { deliveries: self.close(), returned: None, next: LobbyNext::Shutdown }
    }

    /// Handles a command from a connection. A player is added, or taken out
    /// and, if it asked to go back to idle, handed back with its connection.
    /// Then every member is told the lobby's new state, once. A lobby that
    /// lost its last member shuts down.
    pub fn handle_command(&mut self, command: LobbyCommand) -> (step: LobbyStep)
        requires
            old(self).wf(),
        ensures
            final(self).wf(),
            outbox(step.deliveries@) == round(final(self).player_ids(), final(self).state_view()),
            match command {
                LobbyCommand::AddPlayer { id, player_connection, action_rcr } => {
                    &&& final(self).joined_from(old(self), id@, player_connection)
                    &&& step.returned is None
                    &&& step.next == LobbyNext::Continue
                },
                LobbyCommand::RemovePlayer { id, return_to_idle } => {
                    &&& final(self).left_from(old(self), id@)
                    &&& step.returned == (if return_to_idle && old(self).player_ids().contains(
                        id@,
                    ) {
                        Some((id, old(self).connections()[id@]))
                    } else {
                        None
                    })
                    &&& step.next == (if final(self).player_ids().len() == 0 {
                        LobbyNext::Shutdown
                    } else {
                        LobbyNext::Continue
                    })
                },
            },
    {
        match command {
            LobbyCommand::AddPlayer { id, player_connection, action_rcr } => {
                self.register_player(id, player_connection, action_rcr);
                LobbyStep {
                    deliveries: self.broadcast_state(),
                    returned: None,
                    next: LobbyNext::Continue,
                }
            },
            LobbyCommand::RemovePlayer { id, return_to_idle } => {
                let connection = self.deregister_player(&id);
                let returned = match connection {
                    Some(connection) => {
                        if return_to_idle {
                            Some((id, connection))
                        } else {
                            None
                        }
                    },
                    None => None,
                };
                let next = if self.players.len() == 0 {
                    LobbyNext::Shutdown
                } else {
                    LobbyNext::Continue
                };
                LobbyStep { deliveries: self.broadcast_state(), returned, next }
            },
        }
    }

    /// The notice that only the host starts a game.
    pub open spec fn not_host_view() -> ServerMessageView {
        ConnectionError::NotHost.envelope_spec()
    }

    /// Whoever sends a message, every member is told the lobby's state
    /// exactly once for it: among the deliveries there is one for each
    /// member that carries the state, and no second one.
    pub proof fn lemma_state_told_once(
        before: &Lobby,
        from: Seq<char>,
        message: ClientMessage,
        after: &Lobby,
        member: int,
    )
        requires
            after.wf(),
            0 <= member < after.player_ids().len(),
        ensures
            ({
                let sent = Lobby::action_outbox(before, from, message, after);
                let told = (after.player_ids()[member], after.state_view());
                exists|at: int|
                    0 <= at < sent.len() && sent[at] == told && forall|other: int|
                        0 <= other < sent.len() && other != at ==> (#[trigger] sent[other]).1
                            !is LobbyState || sent[other].0 != told.0
            }),
    {
        after.lemma_membership();
        let ids = after.player_ids();
        let sent = Lobby::action_outbox(before, from, message, after);
        let told = (ids[member], after.state_view());
        let states = round(ids, after.state_view());
        lemma_round_once(ids, after.state_view(), member);
        let shift: int = if message is LobbyClient && message->LobbyClient_0
            == LobbyAction::StartGame && from != before.host_view() {
            1
        } else {
            0
        };
        let at = member + shift;
        assert(sent[at] == states[member]);
        assert forall|other: int| 0 <= other < sent.len() && other != at implies (
        #[trigger] sent[other]).1 !is LobbyState || sent[other].0 != told.0 by {
            if shift <= other < shift + ids.len() {
                assert(sent[other] == states[other - shift]);
            }
        }
    }

    /// The messages that `handle_action` sends for a message from `from`
    /// that leaves the lobby in the state `after`.
    pub open spec fn action_outbox(
        before: &Lobby,
        from: Seq<char>,
        message: ClientMessage,
        after: &Lobby,
    ) -> Seq<(Seq<char>, ServerMessageView)> {
        if message is LobbyClient && message->LobbyClient_0 == LobbyAction::StartGame {
            if from == before.host_view() {
                round(after.player_ids(), after.state_view()) + round(
                    after.player_ids(),
                    ServerMessageView::GameStarted,
                )
            } else {
                seq![(from, Lobby::not_host_view())] + round(
                    after.player_ids(),
                    after.state_view(),
                )
            }
        } else {
            round(after.player_ids(), after.state_view())
        }
    }

    /// Handles a message that a member sent into its action stream. Only
    /// `StartGame` from the host changes anything: the status becomes
    /// `Starting`, every member is told the state and then that the game
    /// has started, and the turn driver is next. `StartGame` from anyone
    /// else is answered with an error to the sender alone. In every case
    /// every member is told the lobby's state, once.
    pub fn handle_action(&mut self, from: &PlayerId, message: &ClientMessage) -> (step: LobbyStep)
        requires
            old(self).wf(),
        ensures
            final(self).wf(),
            final(self).same_members(old(self)),
            final(self).status_spec() == (if message is LobbyClient && message->LobbyClient_0
                == LobbyAction::StartGame && from@ == old(self).host_view() {
                LobbyStatus::Starting
            } else {
                old(self).status_spec()
            }),
            outbox(step.deliveries@) == Lobby::action_outbox(
                old(self),
                from@,
                *message,
                final(self),
            ),
            step.returned is None,
            step.next == (if message is LobbyClient && message->LobbyClient_0
                == LobbyAction::StartGame && from@ == old(self).host_view() {
                LobbyNext::StartGame
            } else {
                LobbyNext::Continue
            }),
    {
        match message {
            ClientMessage::LobbyClient(LobbyAction::StartGame) => {
                if self.start_game(from) {
                    let mut deliveries = self.broadcast_state();
                    let mut started = self.broadcast_message(&ServerMessage::GameStarted);
                    let ghost first = deliveries@;
                    let ghost second = started@;
                    deliveries.append(&mut started);
                    assert(outbox(deliveries@) =~= outbox(first) + outbox(second));
                    LobbyStep { deliveries, returned: None, next: LobbyNext::StartGame }
                } else {
                    let mut deliveries: Vec<Delivery> = Vec::new();
                    deliveries.push(
                        Delivery {
                            recipient: copy_text(from),
                            message: ConnectionError::NotHost.envelope(),
                        },
                    );
                    let mut state = self.broadcast_state();
                    let ghost first = deliveries@;
                    let ghost second = state@;
                    deliveries.append(&mut state);
                    assert(outbox(deliveries@) =~= outbox(first) + outbox(second));
                    assert(outbox(first) =~= seq![(from@, Lobby::not_host_view())]);
                    LobbyStep { deliveries, returned: None, next: LobbyNext::Continue }
                }
            },
            _ => LobbyStep {
                deliveries: self.broadcast_state(),
                returned: None,
                next: LobbyNext::Continue,
            },
        }
    }
}

} // verus!
