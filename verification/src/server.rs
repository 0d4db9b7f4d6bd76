use std::collections::HashMap;
use vstd::prelude::*;

use crate::app_state::AppState;
use crate::protocol::{PlayerInput, ServerMessages, AXIS_RIGHT_BITS, RELIABLE_CHANNEL_ID};
use vstd::std_specs::iter::IteratorSpec;

verus! {

broadcast use vstd::std_specs::hash::group_hash_axioms;

/// The server's roster: client id -> the entity that stands for that
/// client's player in the world.
pub struct Lobby<E> {
    pub players: HashMap<u64, E>,
}

impl<E> View for Lobby<E> {
    type V = Map<u64, E>;

    open spec fn view(&self) -> Map<u64, E> {
        self.players@
    }
}

impl<E> Lobby<E> {
    /// An empty roster.
    pub fn new() -> (lobby: Self)
        ensures
            lobby@ == Map::<u64, E>::empty(),
    {
        Lobby { players: HashMap::new() }
    }

    /// Whether anyone is connected.
    pub fn is_empty(&self) -> (empty: bool)
        ensures
            empty == self@.is_empty(),
    {
        self.players.is_empty()
    }
}

impl<E> Default for Lobby<E> {
    /// An empty roster.
    fn default() -> (lobby: Self)
        ensures
            lobby@ == Map::<u64, E>::empty(),
    {
        Lobby::new()
    }
}

impl<E: Copy> Lobby<E> {
    /// The entity of a connected client, if it is connected.
    pub fn player_entity(&self, client_id: u64) -> (entity: Option<E>)
        ensures
            entity == spec_lookup(self@, client_id),
    {
        match self.players.get(&client_id) {
            Some(e) => Some(*e),
            None => None,
        }
    }
}

/// `m[k]` where it is defined.
pub open spec fn spec_lookup<V>(m: Map<u64, V>, k: u64) -> Option<V> {
    if m.contains_key(k) {
        Some(m[k])
    } else {
        None
    }
}

/// For each client, the last input tick that the server has applied.
pub struct LastInputTicks {
    pub map: HashMap<u64, u64>,
}

impl View for LastInputTicks {
    type V = Map<u64, u64>;

    open spec fn view(&self) -> Map<u64, u64> {
        self.map@
    }
}

impl LastInputTicks {
    /// No tick applied for anyone.
    pub fn new() -> (ticks: Self)
        ensures
            ticks@ == Map::<u64, u64>::empty(),
    {
        LastInputTicks { map: HashMap::new() }
    }

    /// Notes that the input of `client_id` tagged `tick` was applied to its
    /// player. Only a connected client has its tick recorded: the input of a
    /// client without a player entity is dropped.
    pub fn record<E>(&mut self, lobby: &Lobby<E>, client_id: u64, tick: u64) -> (recorded: bool)
        ensures
            recorded == lobby@.contains_key(client_id),
            final(self)@ == (if recorded {
                old(self)@.insert(client_id, tick)
            } else {
                old(self)@
            }),
            ticks_only_for_players(lobby@, old(self)@) ==> ticks_only_for_players(
                lobby@,
                final(self)@,
            ),
    {
        if lobby.players.contains_key(&client_id) {
            self.map.insert(client_id, tick);
            true
        } else {
            false
        }
    }

    /// The last applied tick of a client, if any.
    pub fn last_tick(&self, client_id: u64) -> (tick: Option<u64>)
        ensures
            tick == spec_lookup(self@, client_id),
    {
        match self.map.get(&client_id) {
            Some(t) => Some(*t),
            None => None,
        }
    }
}

impl Default for LastInputTicks {
    /// No tick applied for anyone.
    fn default() -> (ticks: Self)
        ensures
            ticks@ == Map::<u64, u64>::empty(),
    {
        LastInputTicks::new()
    }
}

/// The server keeps input ticks only for clients that are in the lobby.
pub open spec fn ticks_only_for_players<E>(players: Map<u64, E>, ticks: Map<u64, u64>) -> bool {
    forall|id: u64| #[trigger] ticks.contains_key(id) ==> players.contains_key(id)
}

/// A connection event of the transport layer. For a connection, `entity`
/// is the player entity that the world has just spawned for the client.
pub enum ServerEvent<E> {
    ClientConnected { client_id: u64, entity: E },
    ClientDisconnected { client_id: u64 },
}

/// What the server does about a connection event besides updating its
/// bookkeeping: a message to broadcast and the channel to send it on, and
/// the entity, if any, to remove from the world.
pub struct ServerReaction<E> {
    pub broadcast: ServerMessages,
    pub channel: u8,
    pub despawn: Option<E>,
}

/// Roster after a connection event.
pub open spec fn spec_players_after<E>(players: Map<u64, E>, event: ServerEvent<E>) -> Map<u64, E> {
    match event {
        ServerEvent::ClientConnected { client_id, entity } => players.insert(client_id, entity),
        ServerEvent::ClientDisconnected { client_id } => players.remove(client_id),
    }
}

/// Recorded ticks after a connection event.
pub open spec fn spec_ticks_after<E>(ticks: Map<u64, u64>, event: ServerEvent<E>) -> Map<u64, u64> {
    match event {
        ServerEvent::ClientConnected { .. } => ticks,
        ServerEvent::ClientDisconnected { client_id } => ticks.remove(client_id),
    }
}

/// Reaction to a connection event.
pub open spec fn spec_reaction<E>(players: Map<u64, E>, event: ServerEvent<E>) -> ServerReaction<E> {
    match event {
        ServerEvent::ClientConnected { client_id, .. } => ServerReaction {
            broadcast: ServerMessages::PlayerConnected { id: client_id },
            channel: RELIABLE_CHANNEL_ID,
            despawn: None,
        },
        ServerEvent::ClientDisconnected { client_id } => ServerReaction {
            broadcast: ServerMessages::PlayerDisconnected { id: client_id },
            channel: RELIABLE_CHANNEL_ID,
            despawn: spec_lookup(players, client_id),
        },
    }
}

/// Handles one connection event: a connected client gets its player
/// entity in the roster; a disconnected client loses its roster entry and
/// its recorded tick, and its entity is to be despawned. Either way every
/// client is told.
pub fn handle_server_event<E>(
    lobby: &mut Lobby<E>,
    ticks: &mut LastInputTicks,
    event: ServerEvent<E>,
) -> (reaction: ServerReaction<E>)
    ensures
        final(lobby)@ == spec_players_after(old(lobby)@, event),
        final(ticks)@ == spec_ticks_after(old(ticks)@, event),
        reaction == spec_reaction(old(lobby)@, event),
        ticks_only_for_players(old(lobby)@, old(ticks)@) ==> ticks_only_for_players(
            final(lobby)@,
            final(ticks)@,
        ),
{
    match event {
        ServerEvent::ClientConnected { client_id, entity } => {
            lobby.players.insert(client_id, entity);
            ServerReaction {
                broadcast: ServerMessages::PlayerConnected { id: client_id },
                channel: RELIABLE_CHANNEL_ID,
                despawn: None,
            }
        },
        ServerEvent::ClientDisconnected { client_id } => {
            let despawn = lobby.players.remove(&client_id);
            ticks.map.remove(&client_id);
            ServerReaction {
                broadcast: ServerMessages::PlayerDisconnected { id: client_id },
                channel: RELIABLE_CHANNEL_ID,
                despawn,
            }
        },
    }
}

/// What the server tells every client about one player each frame:
/// its id, its entity (whose position and velocity the world supplies)
/// and the last input tick of that player that the server has applied.
pub struct SyncTarget<E> {
    pub id: u64,
    pub entity: E,
    pub last_input_tick: Option<u64>,
}

/// `target` describes a connected player as the roster and the recorded
/// ticks have it.
pub open spec fn is_sync_target<E>(
    players: Map<u64, E>,
    ticks: Map<u64, u64>,
    target: SyncTarget<E>,
) -> bool {
    &&& players.contains_key(target.id)
    &&& target.entity == players[target.id]
    &&& target.last_input_tick == spec_lookup(ticks, target.id)
}

/// One snapshot target per connected player, each exactly once, in the
/// roster's own order (which is unspecified).
pub fn sync_players<E: Copy>(lobby: &Lobby<E>, ticks: &LastInputTicks) -> (targets: Vec<SyncTarget<E>>)
    ensures
        targets@.len() == lobby@.len(),
        forall|i: int|
            0 <= i < targets@.len() ==> is_sync_target(lobby@, ticks@, #[trigger] targets@[i]),
        forall|i: int, j: int|
            0 <= i < targets@.len() && 0 <= j < targets@.len() && i != j ==> #[trigger] targets@[i].id
                != #[trigger] targets@[j].id,
        forall|id: u64|
            #[trigger] lobby@.contains_key(id) ==> exists|i: int|
                0 <= i < targets@.len() && (#[trigger] targets@[i]).id == id,
{
    let mut targets: Vec<SyncTarget<E>> = Vec::new();
    let ghost pairs = vstd::std_specs::hash::spec_hash_map_iter(&lobby.players).remaining();
    for kv in it: lobby.players.iter()
        invariant
            it.seq() == pairs,
            pairs == vstd::std_specs::hash::spec_hash_map_iter(&lobby.players).remaining(),
            pairs.no_duplicates(),
            targets@.len() == it.index(),
            forall|i: int|
                0 <= i < it.index() ==> {
                    &&& (#[trigger] targets@[i]).id == *pairs[i].0
                    &&& targets@[i].entity == *pairs[i].1
                    &&& targets@[i].last_input_tick == spec_lookup(ticks@, targets@[i].id)
                },
    {
        let (id, entity) = kv;
        let last = ticks.last_tick(*id);
        targets.push(SyncTarget { id: *id, entity: *entity, last_input_tick: last });
    }
    proof {
        assert forall|i: int, j: int|
            0 <= i < targets@.len() && 0 <= j < targets@.len() && i != j implies #[trigger] targets@[i].id
                != #[trigger] targets@[j].id by {
            if targets@[i].id == targets@[j].id {
                assert(lobby@[*pairs[i].0] == *pairs[i].1);
                assert(lobby@[*pairs[j].0] == *pairs[j].1);
                assert(pairs[i] == pairs[j]);
            }
        }
        assert forall|id: u64| #[trigger] lobby@.contains_key(id) implies exists|i: int|
            0 <= i < targets@.len() && (#[trigger] targets@[i]).id == id by {
            assert(pairs.contains((&id, &lobby@[id])));
            let i = choose|i: int| 0 <= i < pairs.len() && pairs[i] == (&id, &lobby@[id]);
            assert(targets@[i].id == id);
        }
    }
    targets
}

/// A client that connects and then disconnects leaves the server as it
/// found it, and the entity spawned for it is the one to despawn.
pub proof fn lemma_connect_then_disconnect<E>(
    players: Map<u64, E>,
    ticks: Map<u64, u64>,
    client_id: u64,
    entity: E,
)
    requires
        !players.contains_key(client_id),
        ticks_only_for_players(players, ticks),
    ensures
        ({
            let connect = ServerEvent::ClientConnected { client_id, entity };
            let disconnect = ServerEvent::<E>::ClientDisconnected { client_id };
            let players1 = spec_players_after(players, connect);
            let ticks1 = spec_ticks_after(ticks, connect);
            &&& spec_players_after(players1, disconnect) == players
            &&& spec_ticks_after(ticks1, disconnect) == ticks
            &&& spec_reaction(players1, disconnect).despawn == Some(entity)
        }),
{
    let players1 = players.insert(client_id, entity);
    assert(players1.remove(client_id) =~= players);
    assert(!ticks.contains_key(client_id));
    assert(ticks.remove(client_id) =~= ticks);
}

/// A snapshot reports, for a connected player, the tick of the last input
/// that the server applied to it.
pub proof fn lemma_snapshot_reports_applied_tick<E>(
    players: Map<u64, E>,
    ticks: Map<u64, u64>,
    client_id: u64,
    tick: u64,
    target: SyncTarget<E>,
)
    requires
        players.contains_key(client_id),
        target.id == client_id,
        is_sync_target(players, ticks.insert(client_id, tick), target),
    ensures
        target.last_input_tick == Some(tick),
        target.entity == players[client_id],
{
}

/// After a client disconnects, no snapshot mentions it any more.
pub proof fn lemma_disconnected_player_not_synced<E>(
    players: Map<u64, E>,
    ticks: Map<u64, u64>,
    client_id: u64,
    target: SyncTarget<E>,
)
    requires
        is_sync_target(
            spec_players_after(players, ServerEvent::<E>::ClientDisconnected { client_id }),
            spec_ticks_after(ticks, ServerEvent::<E>::ClientDisconnected { client_id }),
            target,
        ),
    ensures
        target.id != client_id,
{
}

/// The horizontal axis of an input lies between minus one and one (and is
/// a number): the magnitude bits of a binary32 value, read as an unsigned
/// integer, grow with its absolute value, and every NaN lies above those of
/// the infinities.
pub open spec fn spec_axis_in_range(move_axis_bits: u32) -> bool {
    move_axis_bits & 0x7fff_ffffu32 <= AXIS_RIGHT_BITS
}

/// Server-side validation of a client's input before it is applied: an
/// axis outside minus one to one (a tampered client moving faster than
/// the game allows) or not a number is refused.
pub fn accept_input(input: &PlayerInput) -> (accepted: bool)
    ensures
        accepted == spec_axis_in_range(input.move_axis_bits),
{
    input.move_axis_bits & 0x7fff_ffffu32 <= AXIS_RIGHT_BITS
}

/// Input validation treats both directions alike and is monotone in the
/// axis magnitude: flipping the sign never changes the verdict; an axis no
/// larger in magnitude than an accepted one is accepted. The idle axis and
/// both full deflections are accepted; anything beyond magnitude one
/// (starting with the next binary32 number after one), the infinities and
/// every NaN are refused.
pub proof fn lemma_accept_input_shape(bits: u32, other: u32)
    ensures
        spec_axis_in_range(bits ^ 0x8000_0000u32) == spec_axis_in_range(bits),
        spec_axis_in_range(bits) && (other & 0x7fff_ffffu32) <= (bits & 0x7fff_ffffu32)
            ==> spec_axis_in_range(other),
        spec_axis_in_range(0) && spec_axis_in_range(0x3f80_0000u32) && spec_axis_in_range(
            0xbf80_0000u32,
        ),
        !spec_axis_in_range(0x3f80_0001u32) && !spec_axis_in_range(0xbf80_0001u32),
        !spec_axis_in_range(0x7f80_0000u32) && !spec_axis_in_range(0xff80_0000u32),
        (bits & 0x7f80_0000u32) == 0x7f80_0000u32 ==> !spec_axis_in_range(bits),
        (bits & 0x7fff_ffffu32) > 0x3f80_0000u32 ==> !spec_axis_in_range(bits),
{
    assert((bits ^ 0x8000_0000u32) & 0x7fff_ffffu32 == bits & 0x7fff_ffffu32) by (bit_vector);
    assert((bits & 0x7f80_0000u32) == 0x7f80_0000u32 ==> (bits & 0x7fff_ffffu32) >= 0x7f80_0000u32)
        by (bit_vector);
    assert(0x3f80_0001u32 & 0x7fff_ffffu32 == 0x3f80_0001u32) by (bit_vector);
    assert(0xbf80_0001u32 & 0x7fff_ffffu32 == 0x3f80_0001u32) by (bit_vector);
    assert(0x7f80_0000u32 & 0x7fff_ffffu32 == 0x7f80_0000u32) by (bit_vector);
    assert(0xff80_0000u32 & 0x7fff_ffffu32 == 0x7f80_0000u32) by (bit_vector);
    assert(0x3f80_0000u32 & 0x7fff_ffffu32 == 0x3f80_0000u32) by (bit_vector);
    assert(0xbf80_0000u32 & 0x7fff_ffffu32 == 0x3f80_0000u32) by (bit_vector);
    assert(0u32 & 0x7fff_ffffu32 == 0) by (bit_vector);
}

/// A connection adds that client's entity and changes nothing else; a
/// disconnection removes that client, and only it, from the roster and
/// from the recorded ticks, despawning the entity it had. Either way every
/// client hears about it, on the reliable channel.
pub proof fn lemma_connection_events<E>(
    players: Map<u64, E>,
    ticks: Map<u64, u64>,
    client_id: u64,
    entity: E,
)
    ensures
        ({
            let connect = ServerEvent::ClientConnected { client_id, entity };
            let after = spec_players_after(players, connect);
            let reaction = spec_reaction(players, connect);
            &&& after.contains_key(client_id) && after[client_id] == entity
            &&& forall|k: u64|
                k != client_id ==> (#[trigger] after.contains_key(k) <==> players.contains_key(k))
            &&& forall|k: u64| k != client_id && players.contains_key(k) ==> #[trigger] after[k] == players[k]
            &&& spec_ticks_after(ticks, connect) == ticks
            &&& reaction.broadcast == ServerMessages::PlayerConnected { id: client_id }
            &&& reaction.channel == RELIABLE_CHANNEL_ID
            &&& reaction.despawn is None
        }),
        ({
            let disconnect = ServerEvent::<E>::ClientDisconnected { client_id };
            let after = spec_players_after(players, disconnect);
            let ticks_after = spec_ticks_after(ticks, disconnect);
            let reaction = spec_reaction(players, disconnect);
            &&& !after.contains_key(client_id) && !ticks_after.contains_key(client_id)
            &&& forall|k: u64|
                k != client_id ==> (#[trigger] after.contains_key(k) <==> players.contains_key(k))
            &&& forall|k: u64| k != client_id && players.contains_key(k) ==> #[trigger] after[k] == players[k]
            &&& forall|k: u64|
                k != client_id ==> (#[trigger] ticks_after.contains_key(k) <==> ticks.contains_key(k))
            &&& forall|k: u64| k != client_id && ticks.contains_key(k) ==> #[trigger] ticks_after[k] == ticks[k]
            &&& reaction.broadcast == ServerMessages::PlayerDisconnected { id: client_id }
            &&& reaction.channel == RELIABLE_CHANNEL_ID
            &&& (players.contains_key(client_id) ==> reaction.despawn == Some(players[client_id]))
            &&& (!players.contains_key(client_id) ==> reaction.despawn is None)
        }),
{
}

/// Server flow: the server skips the menu and goes to the lobby; from the
/// lobby it starts the game as soon as a player is connected.
pub open spec fn spec_auto_start(state: AppState, has_players: bool) -> Option<AppState> {
    match state {
        AppState::Menu => Some(AppState::Lobby),
        AppState::Lobby => if has_players {
            Some(AppState::InGame)
        } else {
            None
        },
        _ => None,
    }
}

/// The state the server moves to next, if it moves.
pub fn auto_start_game<E>(state: AppState, lobby: &Lobby<E>) -> (next: Option<AppState>)
    ensures
        next == spec_auto_start(state, !lobby@.is_empty()),
{
    let mut next = None;
    if state == AppState::Menu {
        next = Some(AppState::Lobby);
    }
    if state == AppState::Lobby && !lobby.players.is_empty() {
        next = Some(AppState::InGame);
    }
    next
}

} // verus!
