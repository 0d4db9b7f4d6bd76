use pet_pvp::protocol::{
    axis_bits, ClientMessages, PlayerInput, ServerMessages, Vec2Bits, AXIS_LEFT_BITS,
    AXIS_NEUTRAL_BITS, AXIS_RIGHT_BITS, PROTOCOL_ID, RELIABLE_CHANNEL_ID, UNRELIABLE_CHANNEL_ID,
};

#[test]
fn network_constants() {
    assert_eq!(RELIABLE_CHANNEL_ID, 0);
    assert_eq!(UNRELIABLE_CHANNEL_ID, 1);
    assert_eq!(PROTOCOL_ID, 7);
    assert_eq!(pet_pvp::protocol::MAX_CLIENTS, 64);
}

#[test]
fn axis_constants_are_the_binary32_numbers() {
    assert_eq!(f32::from_bits(AXIS_RIGHT_BITS), 1.0f32);
    assert_eq!(f32::from_bits(AXIS_LEFT_BITS), -1.0f32);
    assert_eq!(AXIS_NEUTRAL_BITS, 0.0f32.to_bits());
}

#[test]
fn axis_follows_the_keys() {
    assert_eq!(axis_bits(false, false), AXIS_NEUTRAL_BITS);
    assert_eq!(axis_bits(true, false), AXIS_LEFT_BITS);
    assert_eq!(axis_bits(false, true), AXIS_RIGHT_BITS);
    assert_eq!(axis_bits(true, true), AXIS_NEUTRAL_BITS);
}

#[test]
fn axis_matches_float_arithmetic() {
    // The key handling starts at zero, subtracts one for left and adds one
    // for right; the library gives the same bit pattern.
    for left in [false, true] {
        for right in [false, true] {
            let mut axis = 0.0f32;
            if left {
                axis -= 1.0;
            }
            if right {
                axis += 1.0;
            }
            assert_eq!(axis_bits(left, right), axis.to_bits());
        }
    }
}

#[test]
fn default_input_is_idle() {
    let input = PlayerInput::default();
    assert_eq!(input.tick, 0);
    assert_eq!(input.move_axis_bits, 0);
    assert!(!input.jump);
}

#[test]
fn messages_compare_by_fields() {
    let input = PlayerInput { tick: 3, move_axis_bits: AXIS_LEFT_BITS, jump: true };
    let a = ClientMessages::PlayerInput { input };
    let b = ClientMessages::PlayerInput { input: PlayerInput { jump: false, ..input } };
    assert_ne!(a, b);
    let sync = ServerMessages::PlayerSync {
        id: 1,
        position: Vec2Bits { x: 1, y: 2 },
        velocity: Vec2Bits { x: 3, y: 4 },
        last_input_tick: Some(8),
    };
    assert_eq!(sync, sync.clone());
    assert_ne!(sync, ServerMessages::PlayerConnected { id: 1 });
}
