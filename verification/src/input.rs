//! Input codec: one player's intent for one frame, packed into a byte.
//!
//! A symbol carries four direction bits and one fire bit; the three high bits
//! are reserved. The encoder sets at most one direction bit. When several
//! steering keys are held at once it keeps the first of left, right, up, down,
//! so horizontal steering wins over vertical steering and both peers resolve a
//! conflict the same way. The decoder applies the same order to whatever byte
//! arrives and never looks at the reserved bits.

use vstd::prelude::*;

verus! {

/// Direction bit for steering up (+Y).
pub const INPUT_UP: u8 = 1;

/// Direction bit for steering down (-Y).
pub const INPUT_DOWN: u8 = 2;

/// Direction bit for steering left (-X).
pub const INPUT_LEFT: u8 = 4;

/// Direction bit for steering right (+X).
pub const INPUT_RIGHT: u8 = 8;

/// Bit that requests a shot.
pub const INPUT_FIRE: u8 = 16;

/// All bits that carry meaning; the bits outside this mask are reserved.
pub const INPUT_MASK: u8 = 31;

/// The symbol of a player who holds no key.
pub const INPUT_NEUTRAL: u8 = 0;

/// A unit step along one axis, or no movement at all.
#[derive(Clone, Copy, Debug, PartialEq, Eq, Structural)]
pub enum Direction {
    Zero,
    Left,
    Right,
    Up,
    Down,
}

impl Direction {
    /// X component of the unit vector.
    pub open spec fn dx(self) -> int {
        match self {
            Direction::Left => -1,
            Direction::Right => 1,
            _ => 0,
        }
    }

    /// Y component of the unit vector.
    pub open spec fn dy(self) -> int {
        match self {
            Direction::Up => 1,
            Direction::Down => -1,
            _ => 0,
        }
    }

    /// X component of the unit vector: -1, 0 or 1.
    pub fn unit_x(self) -> (r: i64)
        ensures
            r == self.dx(),
    {
        match self {
            Direction::Left => -1,
            Direction::Right => 1,
            _ => 0,
        }
    }

    /// Y component of the unit vector: -1, 0 or 1.
    pub fn unit_y(self) -> (r: i64)
        ensures
            r == self.dy(),
    {
        match self {
            Direction::Up => 1,
            Direction::Down => -1,
            _ => 0,
        }
    }

    /// True for the four unit steps, false for `Zero`.
    pub fn is_moving(self) -> (r: bool)
        ensures
            r == (self != Direction::Zero),
    {
        match self {
            Direction::Zero => false,
            _ => true,
        }
    }
}

/// The keys a player holds during one frame, before conflicts are resolved.
#[derive(Clone, Copy, Debug, PartialEq, Eq, Structural)]
pub struct Keys {
    pub up: bool,
    pub down: bool,
    pub left: bool,
    pub right: bool,
    pub fire: bool,
}

/// What a symbol means: a direction and whether a shot is requested.
#[derive(Clone, Copy, Debug, PartialEq, Eq, Structural)]
pub struct Intent {
    pub direction: Direction,
    pub fire: bool,
}

/// Whether `symbol` has the single bit `bit` set.
pub open spec fn has_bit(symbol: u8, bit: u8) -> bool {
    symbol & bit != 0
}

/// The direction a symbol stands for: the first direction bit that is set, in
/// the order left, right, up, down.
pub open spec fn direction_spec(symbol: u8) -> Direction {
    if has_bit(symbol, INPUT_LEFT) {
        Direction::Left
    } else if has_bit(symbol, INPUT_RIGHT) {
        Direction::Right
    } else if has_bit(symbol, INPUT_UP) {
        Direction::Up
    } else if has_bit(symbol, INPUT_DOWN) {
        Direction::Down
    } else {
        Direction::Zero
    }
}

/// Whether a symbol requests a shot.
pub open spec fn fire_spec(symbol: u8) -> bool {
    has_bit(symbol, INPUT_FIRE)
}

/// The intent a symbol stands for.
pub open spec fn decode_spec(symbol: u8) -> Intent {
    Intent { direction: direction_spec(symbol), fire: fire_spec(symbol) }
}

/// The bit that stands for a direction; no bit for `Zero`.
pub open spec fn direction_bit(direction: Direction) -> u8 {
    match direction {
        Direction::Zero => 0,
        Direction::Left => INPUT_LEFT,
        Direction::Right => INPUT_RIGHT,
        Direction::Up => INPUT_UP,
        Direction::Down => INPUT_DOWN,
    }
}

/// The bit that stands for a shot request.
pub open spec fn fire_bit(fire: bool) -> u8 {
    if fire {
        INPUT_FIRE
    } else {
        0
    }
}

/// The symbol of an intent.
pub open spec fn encode_intent_spec(intent: Intent) -> u8 {
    direction_bit(intent.direction) | fire_bit(intent.fire)
}

/// The intent behind a set of held keys: the first held steering key in the
/// order left, right, up, down, and the fire key as it is.
pub open spec fn resolve_spec(keys: Keys) -> Intent {
    Intent {
        direction: if keys.left {
            Direction::Left
        } else if keys.right {
            Direction::Right
        } else if keys.up {
            Direction::Up
        } else if keys.down {
            Direction::Down
        } else {
            Direction::Zero
        },
        fire: keys.fire,
    }
}

/// The symbol of a set of held keys.
pub open spec fn encode_spec(keys: Keys) -> u8 {
    encode_intent_spec(resolve_spec(keys))
}

/// A symbol as an encoder produces it: at most one direction bit, and no
/// reserved bit.
pub open spec fn is_canonical(symbol: u8) -> bool {
    &&& symbol & INPUT_MASK == symbol
    &&& {
        let d = symbol & 15;
        d == 0 || d == INPUT_UP || d == INPUT_DOWN || d == INPUT_LEFT || d == INPUT_RIGHT
    }
}

proof fn bits_of_encoded_symbols()
    by (bit_vector)
    ensures
        forall|d: u8, f: u8|
            (d == 0 || d == 1 || d == 2 || d == 4 || d == 8) && (f == 0 || f == 16) ==> {
                &&& ((#[trigger] (d | f)) & 4 != 0) == (d == 4)
                &&& ((d | f) & 8 != 0) == (d == 8)
                &&& ((d | f) & 1 != 0) == (d == 1)
                &&& ((d | f) & 2 != 0) == (d == 2)
                &&& ((d | f) & 16 != 0) == (f == 16)
                &&& (d | f) & 31 == (d | f)
                &&& (d | f) & 15 == d
            },
{
}

proof fn reserved_bits_are_ignored()
    by (bit_vector)
    ensures
        forall|s: u8|
            {
                &&& (#[trigger] (s & 31)) & 1 == s & 1
                &&& (s & 31) & 2 == s & 2
                &&& (s & 31) & 4 == s & 4
                &&& (s & 31) & 8 == s & 8
                &&& (s & 31) & 16 == s & 16
            },
{
}

/// Decoding inverts encoding: every intent comes back from its symbol
/// unchanged, the intent without a direction included.
pub proof fn decode_inverts_encode_intent(intent: Intent)
    ensures
        decode_spec(encode_intent_spec(intent)) == intent,
        is_canonical(encode_intent_spec(intent)),
{
    bits_of_encoded_symbols();
    let d = direction_bit(intent.direction);
    let f = fire_bit(intent.fire);
    assert(d == 0 || d == 1 || d == 2 || d == 4 || d == 8);
    assert(f == 0 || f == 16);
    let s = d | f;
    assert(s == encode_intent_spec(intent));
}

/// Decoding the symbol of a set of held keys gives the keys' intent after
/// conflicts are resolved: of several steering keys held together, opposite
/// ones included, the first in the order left, right, up, down survives. The
/// symbol itself has at most one direction bit and no reserved bit.
pub proof fn decode_inverts_encode(keys: Keys)
    ensures
        decode_spec(encode_spec(keys)) == resolve_spec(keys),
        is_canonical(encode_spec(keys)),
{
    decode_inverts_encode_intent(resolve_spec(keys));
}

/// The reserved bits of a symbol never change what it decodes to.
pub proof fn decode_ignores_reserved_bits(symbol: u8)
    ensures
        decode_spec(symbol) == decode_spec(symbol & INPUT_MASK),
{
    reserved_bits_are_ignored();
    let masked = symbol & 31;
    assert(masked & 1 == symbol & 1);
    assert(masked & 2 == symbol & 2);
    assert(masked & 4 == symbol & 4);
    assert(masked & 8 == symbol & 8);
    assert(masked & 16 == symbol & 16);
}

/// Resolves conflicting steering keys by the fixed order left, right, up, down.
pub fn resolve(keys: Keys) -> (intent: Intent)
    ensures
        intent == resolve_spec(keys),
{
    let direction = if keys.left {
        Direction::Left
    } else if keys.right {
        Direction::Right
    } else if keys.up {
        Direction::Up
    } else if keys.down {
        Direction::Down
    } else {
        Direction::Zero
    };
    Intent { direction, fire: keys.fire }
}

/// Packs an intent into its symbol.
pub fn encode_intent(intent: Intent) -> (symbol: u8)
    ensures
        symbol == encode_intent_spec(intent),
        is_canonical(symbol),
        decode_spec(symbol) == intent,
{
    let d: u8 = match intent.direction {
        Direction::Zero => 0,
        Direction::Left => INPUT_LEFT,
        Direction::Right => INPUT_RIGHT,
        Direction::Up => INPUT_UP,
        Direction::Down => INPUT_DOWN,
    };
    let f: u8 = if intent.fire {
        INPUT_FIRE
    } else {
        0
    };
    proof {
        decode_inverts_encode_intent(intent);
    }
    d | f
}

/// Packs the keys held during one frame into a symbol. Total: every set of
/// keys has a symbol, the empty set too.
pub fn encode(keys: Keys) -> (symbol: u8)
    ensures
        symbol == encode_spec(keys),
        is_canonical(symbol),
        decode_spec(symbol) == resolve_spec(keys),
{
    encode_intent(resolve(keys))
}

/// The direction a symbol asks for.
pub fn direction(input: u8) -> (d: Direction)
    ensures
        d == direction_spec(input),
{
    if input & INPUT_LEFT != 0 {
        Direction::Left
    } else if input & INPUT_RIGHT != 0 {
        Direction::Right
    } else if input & INPUT_UP != 0 {
        Direction::Up
    } else if input & INPUT_DOWN != 0 {
        Direction::Down
    } else {
        Direction::Zero
    }
}

/// Whether a symbol asks for a shot.
pub fn fire(input: u8) -> (f: bool)
    ensures
        f == fire_spec(input),
{
    input & INPUT_FIRE != 0
}

/// Unpacks a symbol. Total: every byte decodes, whatever its reserved bits.
pub fn decode(symbol: u8) -> (intent: Intent)
    ensures
        intent == decode_spec(symbol),
{
    Intent { direction: direction(symbol), fire: fire(symbol) }
}

} // verus!
