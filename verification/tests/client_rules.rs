use pet_pvp::app_state::AppState;
use pet_pvp::client::{
    client_id_from_millis, client_sync_message, handle_input, register_spawned, ClientTick, InputBuffer, Lobby,
    SyncAction,
};
use pet_pvp::protocol::{
    PlayerInput, ServerMessages, Vec2Bits, AXIS_LEFT_BITS, AXIS_NEUTRAL_BITS, AXIS_RIGHT_BITS,
};

fn ticks_of(buffer: &InputBuffer) -> Vec<u64> {
    (0..buffer.len()).map(|i| buffer.get(i).tick).collect()
}

fn capture(tick: &mut ClientTick, buffer: &mut InputBuffer, n: usize) {
    for _ in 0..n {
        handle_input(tick, buffer, false, true, false);
    }
}

fn sync(id: u64, last: Option<u64>) -> ServerMessages {
    ServerMessages::PlayerSync {
        id,
        position: Vec2Bits { x: 0, y: 0 },
        velocity: Vec2Bits { x: 0, y: 0 },
        last_input_tick: last,
    }
}

#[test]
fn handle_input_tags_and_buffers() {
    let mut tick = ClientTick::default();
    let mut buffer = InputBuffer::default();
    let a = handle_input(&mut tick, &mut buffer, true, false, true);
    assert_eq!(a, PlayerInput { tick: 1, move_axis_bits: AXIS_LEFT_BITS, jump: true });
    let b = handle_input(&mut tick, &mut buffer, false, true, false);
    assert_eq!(b, PlayerInput { tick: 2, move_axis_bits: AXIS_RIGHT_BITS, jump: false });
    let c = handle_input(&mut tick, &mut buffer, true, true, false);
    assert_eq!(c.move_axis_bits, AXIS_NEUTRAL_BITS);
    assert_eq!(tick.tick, 3);
    assert_eq!(ticks_of(&buffer), vec![1, 2, 3]);
    assert_eq!(buffer.get(0), a);
}

#[test]
fn retain_after_drops_confirmed_inputs() {
    let mut tick = ClientTick::new();
    let mut buffer = InputBuffer::new();
    capture(&mut tick, &mut buffer, 5);
    buffer.retain_after(2);
    assert_eq!(ticks_of(&buffer), vec![3, 4, 5]);
    buffer.retain_after(0);
    assert_eq!(ticks_of(&buffer), vec![3, 4, 5]);
    buffer.retain_after(5);
    assert_eq!(ticks_of(&buffer), Vec::<u64>::new());
}

#[test]
fn retain_after_keeps_later_inputs_in_any_order() {
    let mut buffer = InputBuffer::new();
    for t in [7u64, 2, 9, 4, 9] {
        buffer.inputs.push_back(PlayerInput { tick: t, move_axis_bits: 0, jump: false });
    }
    buffer.retain_after(4);
    assert_eq!(ticks_of(&buffer), vec![7, 9, 9]);
}

#[test]
fn pruning_twice_is_pruning_at_the_later_tick() {
    let mut tick = ClientTick::new();
    let mut a = InputBuffer::new();
    let mut b = InputBuffer::new();
    capture(&mut tick, &mut a, 6);
    let mut tick2 = ClientTick::new();
    capture(&mut tick2, &mut b, 6);
    a.retain_after(4);
    a.retain_after(2);
    b.retain_after(4);
    assert_eq!(ticks_of(&a), ticks_of(&b));
    b.retain_after(4);
    assert_eq!(ticks_of(&a), vec![5, 6]);
    assert_eq!(ticks_of(&b), vec![5, 6]);
}

#[test]
fn unknown_player_is_spawned() {
    let mut lobby: Lobby<u64> = Lobby::new();
    let mut buffer = InputBuffer::new();
    match client_sync_message(&mut lobby, &mut buffer, 1, sync(1, Some(0))) {
        SyncAction::Spawn { id, is_local } => {
            assert_eq!(id, 1);
            assert!(is_local);
        }
        _ => panic!("expected a spawn"),
    }
    match client_sync_message(&mut lobby, &mut buffer, 1, sync(2, None)) {
        SyncAction::Spawn { id, is_local } => {
            assert_eq!(id, 2);
            assert!(!is_local);
        }
        _ => panic!("expected a spawn"),
    }
    assert!(lobby.players.is_empty());
}

#[test]
fn local_snapshot_prunes_and_reconciles() {
    let mut lobby: Lobby<u64> = Lobby::new();
    let mut tick = ClientTick::new();
    let mut buffer = InputBuffer::new();
    register_spawned(&mut lobby, 1, 100, AppState::Lobby);
    capture(&mut tick, &mut buffer, 4);
    match client_sync_message(&mut lobby, &mut buffer, 1, sync(1, Some(3))) {
        SyncAction::Reconcile { entity } => assert_eq!(entity, 100),
        _ => panic!("expected a reconciliation"),
    }
    assert_eq!(ticks_of(&buffer), vec![4]);
}

#[test]
fn local_snapshot_without_tick_reconciles_without_pruning() {
    let mut lobby: Lobby<u64> = Lobby::new();
    let mut tick = ClientTick::new();
    let mut buffer = InputBuffer::new();
    register_spawned(&mut lobby, 1, 100, AppState::InGame);
    capture(&mut tick, &mut buffer, 2);
    match client_sync_message(&mut lobby, &mut buffer, 1, sync(1, None)) {
        SyncAction::Reconcile { entity } => assert_eq!(entity, 100),
        _ => panic!("expected a reconciliation"),
    }
    assert_eq!(ticks_of(&buffer), vec![1, 2]);
}

#[test]
fn remote_snapshot_snaps_without_touching_buffer() {
    let mut lobby: Lobby<u64> = Lobby::new();
    let mut tick = ClientTick::new();
    let mut buffer = InputBuffer::new();
    register_spawned(&mut lobby, 2, 200, AppState::InGame);
    capture(&mut tick, &mut buffer, 3);
    match client_sync_message(&mut lobby, &mut buffer, 1, sync(2, Some(3))) {
        SyncAction::Snap { entity } => assert_eq!(entity, 200),
        _ => panic!("expected a snap"),
    }
    assert_eq!(ticks_of(&buffer), vec![1, 2, 3]);
}

#[test]
fn disconnect_despawns_known_players_only() {
    let mut lobby: Lobby<u64> = Lobby::new();
    let mut buffer = InputBuffer::new();
    register_spawned(&mut lobby, 2, 200, AppState::InGame);
    match client_sync_message(&mut lobby, &mut buffer, 1, ServerMessages::PlayerDisconnected { id: 2 }) {
        SyncAction::Despawn { entity } => assert_eq!(entity, 200),
        _ => panic!("expected a despawn"),
    }
    assert_eq!(lobby.player_entity(2), None);
    assert!(matches!(
        client_sync_message(&mut lobby, &mut buffer, 1, ServerMessages::PlayerDisconnected { id: 2 }),
        SyncAction::Ignore
    ));
    assert!(matches!(
        client_sync_message(&mut lobby, &mut buffer, 1, ServerMessages::PlayerConnected { id: 3 }),
        SyncAction::Ignore
    ));
    assert!(lobby.players.is_empty());
}

#[test]
fn client_id_is_the_low_bits_of_the_millisecond_clock() {
    assert_eq!(client_id_from_millis(1_735_000_000_123), 1_735_000_000_123);
    assert_eq!(client_id_from_millis((1u128 << 64) + 5), 5);
    assert_eq!(client_id_from_millis(u128::MAX), u64::MAX);
}
