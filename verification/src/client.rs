use std::collections::HashMap;
use std::collections::VecDeque;
use vstd::prelude::*;

use crate::app_state::AppState;
use crate::protocol::{axis_bits, spec_axis_bits, PlayerInput, ServerMessages, Vec2Bits};

verus! {

broadcast use {vstd::std_specs::hash::group_hash_axioms, vstd::std_specs::vecdeque::group_vec_dequeue_axioms};

/// The client's view of who is playing: client id -> the entity that
/// shows that player.
pub struct Lobby<E> {
    pub players: HashMap<u64, E>,
}

impl<E> View for Lobby<E> {
    type V = Map<u64, E>;

    open spec fn view(&self) -> Map<u64, E> {
        self.players@
    }
}

impl<E> Lobby<E> {
    /// Nobody shown yet.
    pub fn new() -> (lobby: Self)
        ensures
            lobby@ == Map::<u64, E>::empty(),
    {
        Lobby { players: HashMap::new() }
    }
}

impl<E> Default for Lobby<E> {
    /// Nobody shown yet.
    fn default() -> (lobby: Self)
        ensures
            lobby@ == Map::<u64, E>::empty(),
    {
        Lobby::new()
    }
}

impl<E: Copy> Lobby<E> {
    /// The entity that shows player `id`, if it is shown.
    pub fn player_entity(&self, id: u64) -> (entity: Option<E>)
        ensures
            entity == (if self@.contains_key(id) {
                Some(self@[id])
            } else {
                None
            }),
    {
        match self.players.get(&id) {
            Some(e) => Some(*e),
            None => None,
        }
    }
}

/// The client's simulation frame counter.
pub struct ClientTick {
    pub tick: u64,
}

impl ClientTick {
    /// Frame zero.
    pub fn new() -> (t: Self)
        ensures
            t.tick == 0,
    {
        ClientTick { tick: 0 }
    }
}

impl Default for ClientTick {
    /// Frame zero.
    fn default() -> (t: Self)
        ensures
            t.tick == 0,
    {
        ClientTick::new()
    }
}

/// Inputs that the client has applied locally and that the server has not
/// yet confirmed, oldest first.
pub struct InputBuffer {
    pub inputs: VecDeque<PlayerInput>,
}

impl View for InputBuffer {
    type V = Seq<PlayerInput>;

    open spec fn view(&self) -> Seq<PlayerInput> {
        self.inputs@
    }
}

impl Default for InputBuffer {
    /// No pending input.
    fn default() -> (buffer: Self)
        ensures
            buffer@ == Seq::<PlayerInput>::empty(),
    {
        InputBuffer::new()
    }
}

/// The inputs of `inputs` whose tick is later than `last_tick`, in their
/// order: those the server has not confirmed when it reports `last_tick`.
pub open spec fn pending_after(inputs: Seq<PlayerInput>, last_tick: u64) -> Seq<PlayerInput>
    decreases inputs.len(),
{
    if inputs.len() == 0 {
        inputs
    } else {
        let rest = pending_after(inputs.drop_last(), last_tick);
        if inputs.last().tick > last_tick {
            rest.push(inputs.last())
        } else {
            rest
        }
    }
}

/// Ticks strictly increase along the buffer.
pub open spec fn ticks_increasing(inputs: Seq<PlayerInput>) -> bool {
    forall|i: int, j: int|
        0 <= i < j < inputs.len() ==> #[trigger] inputs[i].tick < #[trigger] inputs[j].tick
}

/// The buffer holds inputs in capture order, none of them from a frame
/// later than the clock.
pub open spec fn captured_in_order(clock: u64, inputs: Seq<PlayerInput>) -> bool {
    &&& ticks_increasing(inputs)
    &&& forall|i: int| 0 <= i < inputs.len() ==> #[trigger] inputs[i].tick <= clock
}

impl InputBuffer {
    /// No pending input.
    pub fn new() -> (buffer: Self)
        ensures
            buffer@ == Seq::<PlayerInput>::empty(),
    {
        InputBuffer { inputs: VecDeque::new() }
    }

    /// Number of pending inputs.
    pub fn len(&self) -> (n: usize)
        ensures
            n == self@.len(),
    {
        self.inputs.len()
    }

    /// The pending input at position `i`, oldest first.
    pub fn get(&self, i: usize) -> (input: PlayerInput)
        requires
            i < self@.len(),
        ensures
            input == self@[i as int],
    {
        self.inputs[i]
    }

    /// Drops the inputs that the server has confirmed: those whose tick is
    /// not later than `last_tick`. The rest keep their order.
    pub fn retain_after(&mut self, last_tick: u64)
        ensures
            final(self)@ == pending_after(old(self)@, last_tick),
            forall|clock: u64|
                captured_in_order(clock, old(self)@) ==> #[trigger] captured_in_order(
                    clock,
                    final(self)@,
                ),
    {
        let mut kept: VecDeque<PlayerInput> = VecDeque::new();
        let n = self.inputs.len();
        for i in 0..n
            invariant
                n == self.inputs@.len(),
                self.inputs@ == old(self)@,
                kept@ == pending_after(self.inputs@.take(i as int), last_tick),
        {
            let input = self.inputs[i];
            proof {
                assert(self.inputs@.take(i + 1).drop_last() == self.inputs@.take(i as int));
            }
            if input.tick > last_tick {
                kept.push_back(input);
            }
        }
        proof {
            assert(self.inputs@.take(n as int) == self.inputs@);
            assert forall|clock: u64| captured_in_order(clock, old(self)@) implies #[trigger] captured_in_order(
                clock,
                kept@,
            ) by {
                lemma_prune_keeps_order(old(self)@, last_tick, clock);
            }
        }
        self.inputs = kept;
    }
}

/// One fixed-step input capture: advance the frame counter, read the
/// movement keys into an input tagged with the new frame, and buffer it
/// for reconciliation. The caller applies it to the local player at once
/// (prediction) and sends it to the server.
pub fn handle_input(
    tick: &mut ClientTick,
    buffer: &mut InputBuffer,
    left_pressed: bool,
    right_pressed: bool,
    jump_pressed: bool,
) -> (input: PlayerInput)
    requires
        old(tick).tick < u64::MAX,
    ensures
        final(tick).tick == old(tick).tick + 1,
        input == (PlayerInput {
            tick: final(tick).tick,
            move_axis_bits: spec_axis_bits(left_pressed, right_pressed),
            jump: jump_pressed,
        }),
        final(buffer)@ == old(buffer)@.push(input),
        captured_in_order(old(tick).tick, old(buffer)@) ==> captured_in_order(
            final(tick).tick,
            final(buffer)@,
        ),
{
    tick.tick = tick.tick + 1;
    let input = PlayerInput {
        tick: tick.tick,
        move_axis_bits: axis_bits(left_pressed, right_pressed),
        jump: jump_pressed,
    };
    buffer.inputs.push_back(input);
    input
}

/// What the client does with one server message besides updating its
/// roster and input buffer. Positions and velocities travel in the message
/// and are applied by the caller.
pub enum SyncAction<E> {
    /// Snapshot of the local player: the inputs it confirms (if it reports
    /// a tick) are already out of the buffer; snap the entity to the server
    /// state, then replay the buffer's inputs in order.
    Reconcile { entity: E },
    /// Snapshot of another known player: snap the entity to it.
    Snap { entity: E },
    /// Snapshot of a player not shown yet: spawn a visual for it (in the
    /// local colour when `is_local`), then register it.
    Spawn { id: u64, is_local: bool },
    /// A player left: remove its entity.
    Despawn { entity: E },
    /// Nothing to do.
    Ignore,
}

/// The client's decision for one message from the server.
pub open spec fn spec_sync_action<E>(players: Map<u64, E>, local_id: u64, msg: ServerMessages) -> SyncAction<E> {
    match msg {
        ServerMessages::PlayerSync { id, last_input_tick, .. } => {
            if players.contains_key(id) {
                if id == local_id {
                    SyncAction::Reconcile { entity: players[id] }
                } else {
                    SyncAction::Snap { entity: players[id] }
                }
            } else {
                SyncAction::Spawn { id, is_local: id == local_id }
            }
        },
        ServerMessages::PlayerDisconnected { id } => {
            if players.contains_key(id) {
                SyncAction::Despawn { entity: players[id] }
            } else {
                SyncAction::Ignore
            }
        },
        ServerMessages::PlayerConnected { .. } => SyncAction::Ignore,
    }
}

/// The client's roster after one message from the server.
pub open spec fn spec_players_after_message<E>(players: Map<u64, E>, msg: ServerMessages) -> Map<u64, E> {
    match msg {
        ServerMessages::PlayerDisconnected { id } => players.remove(id),
        _ => players,
    }
}

/// The input buffer after one message from the server: a snapshot of the
/// local player that reports a last applied tick confirms every input up
/// to that tick.
pub open spec fn spec_buffer_after_message<E>(
    players: Map<u64, E>,
    local_id: u64,
    msg: ServerMessages,
    inputs: Seq<PlayerInput>,
) -> Seq<PlayerInput> {
    match msg {
        ServerMessages::PlayerSync { id, last_input_tick, .. } => {
            if players.contains_key(id) && id == local_id && last_input_tick is Some {
                pending_after(inputs, last_input_tick->0)
            } else {
                inputs
            }
        },
        _ => inputs,
    }
}

/// Handles one message from the server (server reconciliation): prunes
/// the confirmed inputs of the local player, forgets players that left,
/// and says what the world has to do.
pub fn client_sync_message<E: Copy>(
    lobby: &mut Lobby<E>,
    buffer: &mut InputBuffer,
    local_id: u64,
    msg: ServerMessages,
) -> (action: SyncAction<E>)
    ensures
        action == spec_sync_action(old(lobby)@, local_id, msg),
        final(lobby)@ == spec_players_after_message(old(lobby)@, msg),
        final(buffer)@ == spec_buffer_after_message(old(lobby)@, local_id, msg, old(buffer)@),
        forall|clock: u64|
            captured_in_order(clock, old(buffer)@) ==> #[trigger] captured_in_order(
                clock,
                final(buffer)@,
            ),
{
    match msg {
        ServerMessages::PlayerSync { id, last_input_tick, .. } => {
            match lobby.players.get(&id) {
                Some(e) => {
                    let entity = *e;
                    if id == local_id {
                        if let Some(last_tick) = last_input_tick {
                            buffer.retain_after(last_tick);
                        }
                        SyncAction::Reconcile { entity }
                    } else {
                        SyncAction::Snap { entity }
                    }
                },
                None => SyncAction::Spawn { id, is_local: id == local_id },
            }
        },
        ServerMessages::PlayerDisconnected { id } => {
            match lobby.players.remove(&id) {
                Some(entity) => SyncAction::Despawn { entity },
                None => SyncAction::Ignore,
            }
        },
        ServerMessages::PlayerConnected { .. } => SyncAction::Ignore,
    }
}

/// Entering a game: a client still in the lobby starts playing as soon as
/// it shows a player.
pub open spec fn spec_spawn_next(state: AppState) -> Option<AppState> {
    if state == AppState::Lobby {
        Some(AppState::InGame)
    } else {
        None
    }
}

/// Records the visual just spawned for player `id` and says the state to
/// move to, if any.
pub fn register_spawned<E>(lobby: &mut Lobby<E>, id: u64, entity: E, state: AppState) -> (next: Option<AppState>)
    ensures
        final(lobby)@ == old(lobby)@.insert(id, entity),
        next == spec_spawn_next(state),
{
    lobby.players.insert(id, entity);
    if state == AppState::Lobby {
        Some(AppState::InGame)
    } else {
        None
    }
}

/// Pruning keeps exactly the inputs later than the reported tick: every
/// kept input comes from the buffer and is later than `last_tick`, and
/// every buffered input later than `last_tick` is kept.
pub proof fn lemma_pending_after_members(inputs: Seq<PlayerInput>, last_tick: u64)
    ensures
        pending_after(inputs, last_tick).len() <= inputs.len(),
        forall|i: int|
            0 <= i < pending_after(inputs, last_tick).len() ==> {
                &&& (#[trigger] pending_after(inputs, last_tick)[i]).tick > last_tick
                &&& inputs.contains(pending_after(inputs, last_tick)[i])
            },
        forall|i: int|
            0 <= i < inputs.len() && (#[trigger] inputs[i]).tick > last_tick ==> pending_after(
                inputs,
                last_tick,
            ).contains(inputs[i]),
    decreases inputs.len(),
{
    if inputs.len() > 0 {
        let init = inputs.drop_last();
        lemma_pending_after_members(init, last_tick);
        let p = pending_after(inputs, last_tick);
        let q = pending_after(init, last_tick);
        assert forall|i: int| 0 <= i < p.len() implies (#[trigger] p[i]).tick > last_tick
            && inputs.contains(p[i]) by {
            if i < q.len() {
                assert(p[i] == q[i]);
                let k = choose|k: int| 0 <= k < init.len() && init[k] == q[i];
                assert(inputs[k] == init[k]);
            } else {
                assert(p[i] == inputs.last());
                assert(inputs[inputs.len() - 1] == inputs.last());
            }
        }
        assert forall|i: int| 0 <= i < inputs.len() && (#[trigger] inputs[i]).tick > last_tick implies p.contains(
            inputs[i],
        ) by {
            if i < inputs.len() - 1 {
                assert(init[i] == inputs[i]);
                let k = choose|k: int| 0 <= k < q.len() && q[k] == init[i];
                assert(p[k] == q[k]);
            } else {
                assert(p[p.len() - 1] == inputs[i]);
            }
        }
    }
}

/// The test "later than `last_tick`" on an input.
pub open spec fn later_than(last_tick: u64) -> spec_fn(PlayerInput) -> bool {
    |i: PlayerInput| i.tick > last_tick
}

/// Pruning is the filter of the buffer by "later than the reported tick".
pub proof fn lemma_pending_after_is_filter(inputs: Seq<PlayerInput>, last_tick: u64)
    ensures
        pending_after(inputs, last_tick) == inputs.filter(later_than(last_tick)),
    decreases inputs.len(),
{
    reveal(Seq::filter);
    if inputs.len() > 0 {
        lemma_pending_after_is_filter(inputs.drop_last(), last_tick);
    }
}

/// Pruning twice is pruning once at the later of the two ticks; in
/// particular pruning is idempotent.
pub proof fn lemma_prune_twice(inputs: Seq<PlayerInput>, first: u64, second: u64)
    ensures
        pending_after(pending_after(inputs, first), second) == pending_after(
            inputs,
            if first >= second {
                first
            } else {
                second
            },
        ),
    decreases inputs.len(),
{
    if inputs.len() > 0 {
        lemma_prune_twice(inputs.drop_last(), first, second);
        let p = pending_after(inputs, first);
        if inputs.last().tick > first {
            assert(p.drop_last() == pending_after(inputs.drop_last(), first));
            assert(p.last() == inputs.last());
        }
    }
}

/// Pruning keeps the capture order: on a buffer whose ticks increase, the
/// pending inputs' ticks increase, and none is newer than the clock.
pub proof fn lemma_prune_keeps_order(inputs: Seq<PlayerInput>, last_tick: u64, clock: u64)
    ensures
        ticks_increasing(inputs) ==> ticks_increasing(pending_after(inputs, last_tick)),
        captured_in_order(clock, inputs) ==> captured_in_order(clock, pending_after(inputs, last_tick)),
{
    lemma_pending_after_members(inputs, last_tick);
    let p = pending_after(inputs, last_tick);
    if ticks_increasing(inputs) {
        lemma_prune_is_suffix(inputs, last_tick);
        let k = choose|k: int|
            0 <= k <= inputs.len() && p == inputs.subrange(k, inputs.len() as int);
        assert forall|i: int, j: int| 0 <= i < j < p.len() implies #[trigger] p[i].tick < #[trigger] p[j].tick by {
            assert(p[i] == inputs[k + i]);
            assert(p[j] == inputs[k + j]);
        }
    }
    if captured_in_order(clock, inputs) {
        assert forall|i: int| 0 <= i < p.len() implies #[trigger] p[i].tick <= clock by {
            let m = choose|m: int| 0 <= m < inputs.len() && inputs[m] == p[i];
        }
    }
}

/// On a buffer in capture order, the confirmed inputs are a prefix: pruning
/// drops the first inputs, up to the reported tick, and keeps the rest.
pub proof fn lemma_prune_is_suffix(inputs: Seq<PlayerInput>, last_tick: u64)
    requires
        ticks_increasing(inputs),
    ensures
        exists|k: int|
            0 <= k <= inputs.len() && pending_after(inputs, last_tick) == inputs.subrange(
                k,
                inputs.len() as int,
            ) && forall|i: int| 0 <= i < k ==> (#[trigger] inputs[i]).tick <= last_tick,
    decreases inputs.len(),
{
    let n = inputs.len() as int;
    if n == 0 {
        assert(pending_after(inputs, last_tick) == inputs.subrange(0, 0));
    } else {
        let init = inputs.drop_last();
        assert(ticks_increasing(init)) by {
            assert forall|i: int, j: int| 0 <= i < j < init.len() implies #[trigger] init[i].tick
                < #[trigger] init[j].tick by {
                assert(init[i] == inputs[i]);
                assert(init[j] == inputs[j]);
            }
        }
        lemma_prune_is_suffix(init, last_tick);
        let k = choose|k: int|
            0 <= k <= init.len() && pending_after(init, last_tick) == init.subrange(
                k,
                init.len() as int,
            ) && forall|i: int| 0 <= i < k ==> (#[trigger] init[i]).tick <= last_tick;
        if inputs.last().tick > last_tick {
            assert(pending_after(inputs, last_tick) == inputs.subrange(k, n));
            assert forall|i: int| 0 <= i < k implies (#[trigger] inputs[i]).tick <= last_tick by {
                assert(init[i] == inputs[i]);
            }
        } else {
            assert forall|i: int| 0 <= i < n implies (#[trigger] inputs[i]).tick <= last_tick by {
                if i < n - 1 {
                    assert(inputs[i].tick < inputs[n - 1].tick);
                }
            }
            if k < init.len() {
                assert(init.subrange(k, init.len() as int)[0] == init[k]);
                lemma_pending_after_members(init, last_tick);
                assert(init[k] == inputs[k]);
            }
            assert(pending_after(inputs, last_tick) == inputs.subrange(n, n));
        }
    }
}

/// A player that the client has just registered is followed by the
/// snapshots that concern it: snapshots of another player snap its
/// entity, and those of the local player reconcile it; none of them spawns
/// it again.
pub proof fn lemma_registered_player_is_followed<E>(
    players: Map<u64, E>,
    id: u64,
    entity: E,
    local_id: u64,
    position: Vec2Bits,
    velocity: Vec2Bits,
    last_input_tick: Option<u64>,
)
    ensures
        ({
            let msg = ServerMessages::PlayerSync { id, position, velocity, last_input_tick };
            let action = spec_sync_action(players.insert(id, entity), local_id, msg);
            &&& id != local_id ==> action == SyncAction::Snap { entity }
            &&& id == local_id ==> action == SyncAction::Reconcile { entity }
            &&& !(action is Spawn)
        }),
{
}

/// A snapshot of a player that the client does not show yet asks for a
/// visual for that very player, drawn in the local colour exactly when it
/// is the local player; it changes neither the roster nor the input buffer.
pub proof fn lemma_unknown_player_is_spawned<E>(
    players: Map<u64, E>,
    local_id: u64,
    id: u64,
    position: Vec2Bits,
    velocity: Vec2Bits,
    last_input_tick: Option<u64>,
    inputs: Seq<PlayerInput>,
)
    requires
        !players.contains_key(id),
    ensures
        ({
            let msg = ServerMessages::PlayerSync { id, position, velocity, last_input_tick };
            let action = spec_sync_action(players, local_id, msg);
            &&& action is Spawn
            &&& action->Spawn_id == id
            &&& action->is_local <==> id == local_id
            &&& spec_players_after_message(players, msg) == players
            &&& spec_buffer_after_message(players, local_id, msg, inputs) == inputs
        }),
{
}

/// A snapshot of the shown local player that reports tick `t` confirms
/// exactly the inputs up to `t`: the buffer keeps, in their order, the
/// inputs later than `t` and nothing else; on a buffer in capture order it
/// drops a prefix. The player is reconciled, and the roster is unchanged.
pub proof fn lemma_local_snapshot_prunes_confirmed<E>(
    players: Map<u64, E>,
    local_id: u64,
    position: Vec2Bits,
    velocity: Vec2Bits,
    t: u64,
    inputs: Seq<PlayerInput>,
)
    requires
        players.contains_key(local_id),
    ensures
        ({
            let msg = ServerMessages::PlayerSync {
                id: local_id,
                position,
                velocity,
                last_input_tick: Some(t),
            };
            let after = spec_buffer_after_message(players, local_id, msg, inputs);
            &&& spec_sync_action(players, local_id, msg) == SyncAction::Reconcile {
                entity: players[local_id],
            }
            &&& spec_players_after_message(players, msg) == players
            &&& after == inputs.filter(|i: PlayerInput| i.tick > t)
            &&& after.len() <= inputs.len()
            &&& forall|i: int|
                0 <= i < after.len() ==> (#[trigger] after[i]).tick > t && inputs.contains(after[i])
            &&& forall|k: int|
                0 <= k < inputs.len() ==> ((#[trigger] inputs[k]).tick > t <==> after.contains(
                    inputs[k],
                ))
            &&& ticks_increasing(inputs) ==> exists|k: int|
                0 <= k <= inputs.len() && after == inputs.subrange(k, inputs.len() as int) && forall|
                    i: int,
                | 0 <= i < k ==> (#[trigger] inputs[i]).tick <= t
        }),
{
    lemma_pending_after_members(inputs, t);
    lemma_pending_after_is_filter(inputs, t);
    let after = pending_after(inputs, t);
    assert(later_than(t) =~= (|i: PlayerInput| i.tick > t));
    assert forall|k: int| 0 <= k < inputs.len() implies ((#[trigger] inputs[k]).tick > t
        <==> after.contains(inputs[k])) by {
        if after.contains(inputs[k]) {
            let j = choose|j: int| 0 <= j < after.len() && after[j] == inputs[k];
        }
    }
    if ticks_increasing(inputs) {
        lemma_prune_is_suffix(inputs, t);
    }
}

/// A snapshot of the shown local player that reports no tick confirms
/// nothing: the player is reconciled (snapped, then every buffered input
/// replayed) and the buffer and the roster are unchanged.
pub proof fn lemma_local_snapshot_without_tick_keeps_buffer<E>(
    players: Map<u64, E>,
    local_id: u64,
    position: Vec2Bits,
    velocity: Vec2Bits,
    inputs: Seq<PlayerInput>,
)
    requires
        players.contains_key(local_id),
    ensures
        ({
            let msg = ServerMessages::PlayerSync {
                id: local_id,
                position,
                velocity,
                last_input_tick: None,
            };
            &&& spec_sync_action(players, local_id, msg) == SyncAction::Reconcile {
                entity: players[local_id],
            }
            &&& spec_buffer_after_message(players, local_id, msg, inputs) == inputs
            &&& spec_players_after_message(players, msg) == players
        }),
{
}

/// A snapshot of another shown player snaps that player's own entity and
/// touches neither the roster nor the buffer.
pub proof fn lemma_remote_snapshot_snaps<E>(
    players: Map<u64, E>,
    local_id: u64,
    id: u64,
    position: Vec2Bits,
    velocity: Vec2Bits,
    last_input_tick: Option<u64>,
    inputs: Seq<PlayerInput>,
)
    requires
        players.contains_key(id),
        id != local_id,
    ensures
        ({
            let msg = ServerMessages::PlayerSync { id, position, velocity, last_input_tick };
            &&& spec_sync_action(players, local_id, msg) == SyncAction::Snap { entity: players[id] }
            &&& spec_buffer_after_message(players, local_id, msg, inputs) == inputs
            &&& spec_players_after_message(players, msg) == players
        }),
{
}

/// A departure removes that player, and only that player, from the roster:
/// every other shown player keeps its entity. The departed player's entity
/// is the one to despawn, if it was shown; the buffer is untouched.
pub proof fn lemma_disconnect_forgets_only_that_player<E>(
    players: Map<u64, E>,
    local_id: u64,
    id: u64,
    inputs: Seq<PlayerInput>,
)
    ensures
        ({
            let msg = ServerMessages::PlayerDisconnected { id };
            let after = spec_players_after_message(players, msg);
            let action = spec_sync_action(players, local_id, msg);
            &&& !after.contains_key(id)
            &&& forall|k: u64|
                k != id ==> (#[trigger] after.contains_key(k) <==> players.contains_key(k))
            &&& forall|k: u64| k != id && players.contains_key(k) ==> #[trigger] after[k] == players[k]
            &&& players.dom().finite() ==> after.len() == (if players.contains_key(id) {
                players.len() - 1
            } else {
                players.len() as int
            })
            &&& players.contains_key(id) ==> action == SyncAction::Despawn { entity: players[id] }
            &&& !players.contains_key(id) ==> action is Ignore
            &&& spec_buffer_after_message(players, local_id, msg, inputs) == inputs
        }),
{
    broadcast use {vstd::map::group_map_axioms, vstd::set::group_set_axioms};

    assert(players.remove(id).dom() =~= players.dom().remove(id));
}

/// The roster changes only when a player leaves: announcements and
/// snapshots leave it as it is (a new player is added only once its visual
/// is registered).
pub proof fn lemma_roster_changes_only_on_disconnect<E>(players: Map<u64, E>, msg: ServerMessages)
    requires
        !(msg is PlayerDisconnected),
    ensures
        spec_players_after_message(players, msg) == players,
{
}

/// The input buffer changes only when the server confirms inputs of the
/// shown local player: every other message leaves it as it is.
pub proof fn lemma_buffer_changes_only_on_confirmation<E>(
    players: Map<u64, E>,
    local_id: u64,
    msg: ServerMessages,
    inputs: Seq<PlayerInput>,
)
    requires
        !(msg matches ServerMessages::PlayerSync { id, last_input_tick: Some(_), .. } && id
            == local_id && players.contains_key(id)),
    ensures
        spec_buffer_after_message(players, local_id, msg, inputs) == inputs,
{
}

/// An announcement that a player connected needs nothing from the client:
/// no action, roster and buffer unchanged.
pub proof fn lemma_connect_notice_is_ignored<E>(
    players: Map<u64, E>,
    local_id: u64,
    id: u64,
    inputs: Seq<PlayerInput>,
)
    ensures
        ({
            let msg = ServerMessages::PlayerConnected { id };
            &&& spec_sync_action(players, local_id, msg) is Ignore
            &&& spec_players_after_message(players, msg) == players
            &&& spec_buffer_after_message(players, local_id, msg, inputs) == inputs
        }),
{
}

/// A client picks its id from the wall-clock time in milliseconds: the low
/// 64 bits of the count.
pub fn client_id_from_millis(millis: u128) -> (id: u64)
    ensures
        id as int == millis as int % 0x1_0000_0000_0000_0000,
{
    (millis % 0x1_0000_0000_0000_0000u128) as u64
}

/// Client menu: Enter leaves the menu for the lobby (and starts connecting).
pub open spec fn spec_menu_next(state: AppState, enter_just_pressed: bool) -> Option<AppState> {
    if state == AppState::Menu && enter_just_pressed {
        Some(AppState::Lobby)
    } else {
        None
    }
}

/// The state the client moves to from the menu, if it moves.
pub fn menu_logic(state: AppState, enter_just_pressed: bool) -> (next: Option<AppState>)
    ensures
        next == spec_menu_next(state, enter_just_pressed),
{
    if state == AppState::Menu && enter_just_pressed {
        Some(AppState::Lobby)
    } else {
        None
    }
}

} // verus!
