use rollback_core::input::{
    decode, direction, encode, encode_intent, fire, resolve, Direction, Intent, Keys, INPUT_DOWN,
    INPUT_FIRE, INPUT_LEFT, INPUT_MASK, INPUT_NEUTRAL, INPUT_RIGHT, INPUT_UP,
};

fn held(up: bool, down: bool, left: bool, right: bool, fire: bool) -> Keys {
    Keys { up, down, left, right, fire }
}

const DIRECTIONS: [Direction; 5] =
    [Direction::Zero, Direction::Left, Direction::Right, Direction::Up, Direction::Down];

#[test]
fn every_intent_survives_the_round_trip() {
    for d in DIRECTIONS {
        for f in [false, true] {
            let intent = Intent { direction: d, fire: f };
            assert_eq!(decode(encode_intent(intent)), intent);
        }
    }
}

#[test]
fn symbols_have_the_documented_bits() {
    assert_eq!(INPUT_UP, 1);
    assert_eq!(INPUT_DOWN, 2);
    assert_eq!(INPUT_LEFT, 4);
    assert_eq!(INPUT_RIGHT, 8);
    assert_eq!(INPUT_FIRE, 16);
    assert_eq!(encode_intent(Intent { direction: Direction::Zero, fire: false }), 0);
    assert_eq!(encode_intent(Intent { direction: Direction::Up, fire: false }), 1);
    assert_eq!(encode_intent(Intent { direction: Direction::Down, fire: false }), 2);
    assert_eq!(encode_intent(Intent { direction: Direction::Left, fire: false }), 4);
    assert_eq!(encode_intent(Intent { direction: Direction::Right, fire: false }), 8);
    assert_eq!(encode_intent(Intent { direction: Direction::Zero, fire: true }), 16);
    assert_eq!(encode_intent(Intent { direction: Direction::Right, fire: true }), 24);
}

#[test]
fn no_key_held_is_the_neutral_symbol() {
    let symbol = encode(held(false, false, false, false, false));
    assert_eq!(symbol, INPUT_NEUTRAL);
    assert_eq!(decode(symbol), Intent { direction: Direction::Zero, fire: false });
}

#[test]
fn opposite_keys_resolve_by_precedence() {
    assert_eq!(encode(held(false, false, true, true, false)), INPUT_LEFT);
    assert_eq!(encode(held(true, true, false, false, false)), INPUT_UP);
    assert_eq!(
        decode(encode(held(false, false, true, true, true))),
        Intent { direction: Direction::Left, fire: true }
    );
}

#[test]
fn horizontal_keys_win_over_vertical_keys() {
    assert_eq!(encode(held(true, false, false, true, false)), INPUT_RIGHT);
    assert_eq!(encode(held(false, true, true, false, false)), INPUT_LEFT);
    assert_eq!(encode(held(true, true, true, true, true)), INPUT_LEFT | INPUT_FIRE);
}

#[test]
fn decode_of_encode_is_resolve_for_all_key_sets() {
    for bits in 0u8..32 {
        let keys = held(bits & 1 != 0, bits & 2 != 0, bits & 4 != 0, bits & 8 != 0, bits & 16 != 0);
        let symbol = encode(keys);
        assert_eq!(decode(symbol), resolve(keys));
        assert_eq!(symbol & !INPUT_MASK, 0);
        assert!((symbol & 15).count_ones() <= 1);
    }
}

#[test]
fn reserved_bits_are_ignored() {
    for symbol in 0u8..=255 {
        assert_eq!(decode(symbol), decode(symbol & INPUT_MASK));
    }
    assert_eq!(decode(0xE8), Intent { direction: Direction::Right, fire: false });
    assert_eq!(decode(0xF0), Intent { direction: Direction::Zero, fire: true });
}

#[test]
fn a_symbol_with_several_direction_bits_decodes_by_precedence() {
    assert_eq!(direction(INPUT_LEFT | INPUT_UP), Direction::Left);
    assert_eq!(direction(INPUT_RIGHT | INPUT_DOWN), Direction::Right);
    assert_eq!(direction(INPUT_UP | INPUT_DOWN), Direction::Up);
    assert_eq!(direction(INPUT_LEFT | INPUT_RIGHT), Direction::Left);
    assert_eq!(direction(INPUT_DOWN), Direction::Down);
    assert_eq!(direction(INPUT_FIRE), Direction::Zero);
    assert!(fire(INPUT_FIRE | INPUT_UP));
    assert!(!fire(INPUT_MASK - INPUT_FIRE));
}

#[test]
fn unit_vectors_of_the_directions() {
    assert_eq!((Direction::Zero.unit_x(), Direction::Zero.unit_y()), (0, 0));
    assert_eq!((Direction::Left.unit_x(), Direction::Left.unit_y()), (-1, 0));
    assert_eq!((Direction::Right.unit_x(), Direction::Right.unit_y()), (1, 0));
    assert_eq!((Direction::Up.unit_x(), Direction::Up.unit_y()), (0, 1));
    assert_eq!((Direction::Down.unit_x(), Direction::Down.unit_y()), (0, -1));
    assert!(!Direction::Zero.is_moving());
    assert!(Direction::Down.is_moving());
}
