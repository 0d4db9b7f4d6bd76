use vstd::prelude::*;

verus! {

// Network constants: client and server must agree on these to connect.

/// Channel for messages that must arrive (connect / disconnect notices).
pub const RELIABLE_CHANNEL_ID: u8 = 0;

/// Channel for frequent, droppable messages (inputs and position snapshots).
pub const UNRELIABLE_CHANNEL_ID: u8 = 1;

/// Identifier of this game's protocol; a peer with another id is refused.
pub const PROTOCOL_ID: u64 = 7;

/// Most clients the server admits at a time.
pub const MAX_CLIENTS: usize = 64;

/// Bit pattern of the single-precision number one (IEEE-754 binary32).
pub const AXIS_RIGHT_BITS: u32 = 0x3f80_0000;

/// Bit pattern of the single-precision number minus one (IEEE-754 binary32).
pub const AXIS_LEFT_BITS: u32 = 0xbf80_0000;

/// Bit pattern of the single-precision positive zero.
pub const AXIS_NEUTRAL_BITS: u32 = 0;

/// A two-dimensional vector as it travels on the wire: the IEEE-754
/// binary32 bit patterns of its two coordinates. The rules never compute on
/// coordinates; they carry them unchanged from one peer to the other.
#[derive(Clone, Copy, Debug, PartialEq, Eq, Structural)]
pub struct Vec2Bits {
    pub x: u32,
    pub y: u32,
}

/// One frame of player input, sent from client to server.
#[derive(Clone, Copy, Debug, PartialEq, Eq, Structural)]
pub struct PlayerInput {
    /// The client's simulation frame for this input.
    pub tick: u64,
    /// Horizontal movement, from minus one (left) to one (right), as the
    /// bit pattern of a binary32 number.
    pub move_axis_bits: u32,
    /// Whether jump is held.
    pub jump: bool,
}

impl Default for PlayerInput {
    /// Tick zero, no horizontal movement, no jump.
    fn default() -> (input: Self)
        ensures
            input == (PlayerInput { tick: 0, move_axis_bits: AXIS_NEUTRAL_BITS, jump: false }),
    {
        PlayerInput { tick: 0, move_axis_bits: AXIS_NEUTRAL_BITS, jump: false }
    }
}

/// Messages sent from client to server.
#[derive(Clone, Copy, Debug, PartialEq, Eq, Structural)]
pub enum ClientMessages {
    PlayerInput { input: PlayerInput },
}

/// Messages sent from server to client.
#[derive(Clone, Copy, Debug, PartialEq, Eq, Structural)]
pub enum ServerMessages {
    PlayerConnected { id: u64 },
    PlayerDisconnected { id: u64 },
    /// Position snapshot of one player, with the last input tick of that
    /// player that the server has applied.
    PlayerSync { id: u64, position: Vec2Bits, velocity: Vec2Bits, last_input_tick: Option<u64> },
}

/// The horizontal axis that the movement keys give: start from zero,
/// subtract one while "left" is held, add one while "right" is held.
/// Both held cancel out to positive zero.
pub open spec fn spec_axis_bits(left: bool, right: bool) -> u32 {
    if left && !right {
        AXIS_LEFT_BITS
    } else if right && !left {
        AXIS_RIGHT_BITS
    } else {
        AXIS_NEUTRAL_BITS
    }
}

/// Sign bit of a binary32 number.
pub open spec fn sign_bit(bits: u32) -> bool {
    bits & 0x8000_0000u32 != 0
}

/// The movement keys act as the axis says: pressing both or neither gives
/// positive zero; one key alone gives magnitude one, negative exactly for
/// "left"; and swapping the two keys mirrors the axis (flips its sign).
pub proof fn lemma_axis_follows_keys(left: bool, right: bool)
    ensures
        left == right ==> spec_axis_bits(left, right) == 0,
        left != right ==> spec_axis_bits(left, right) & 0x7fff_ffffu32 == 0x3f80_0000u32,
        left != right ==> (sign_bit(spec_axis_bits(left, right)) <==> left),
        left != right ==> spec_axis_bits(right, left) == spec_axis_bits(left, right) ^ 0x8000_0000u32,
{
    assert(0xbf80_0000u32 & 0x7fff_ffffu32 == 0x3f80_0000u32) by (bit_vector);
    assert(0x3f80_0000u32 & 0x7fff_ffffu32 == 0x3f80_0000u32) by (bit_vector);
    assert(0xbf80_0000u32 & 0x8000_0000u32 != 0) by (bit_vector);
    assert(0x3f80_0000u32 & 0x8000_0000u32 == 0) by (bit_vector);
    assert(0xbf80_0000u32 ^ 0x8000_0000u32 == 0x3f80_0000u32) by (bit_vector);
    assert(0x3f80_0000u32 ^ 0x8000_0000u32 == 0xbf80_0000u32) by (bit_vector);
}

/// Horizontal axis from the two movement keys.
pub fn axis_bits(left: bool, right: bool) -> (bits: u32)
    ensures
        bits == spec_axis_bits(left, right),
{
    if left && !right {
        AXIS_LEFT_BITS
    } else if right && !left {
        AXIS_RIGHT_BITS
    } else {
        AXIS_NEUTRAL_BITS
    }
}

} // verus!
