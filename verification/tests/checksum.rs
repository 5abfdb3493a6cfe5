use rollback_core::arena::{Position, Projectile};
use rollback_core::checksum::{
    mix, mix_coordinate, mix_direction, mix_flag, CHECKSUM_FACTOR, CHECKSUM_MODULUS,
    CHECKSUM_SEED,
};
use rollback_core::input::{Direction, INPUT_FIRE, INPUT_NEUTRAL, INPUT_UP};
use rollback_core::state::{PlayerState, SimulationState};
use rollback_core::step::step;

#[test]
fn mixing_multiplies_adds_and_reduces() {
    assert_eq!(mix(0, 0), 0);
    assert_eq!(mix(1, 2), CHECKSUM_FACTOR + 2);
    assert_eq!(mix(CHECKSUM_MODULUS, 5), 5);
    assert_eq!(mix(3, CHECKSUM_MODULUS + 4), 3 * CHECKSUM_FACTOR + 4);
    assert_eq!(
        mix(CHECKSUM_SEED, 7),
        (CHECKSUM_SEED * CHECKSUM_FACTOR + 7) % CHECKSUM_MODULUS
    );
    assert_eq!(mix(CHECKSUM_SEED, 7), 127004723);
    assert!(mix(u64::MAX, u64::MAX) < CHECKSUM_MODULUS);
}

#[test]
fn values_are_folded_in_as_documented() {
    assert_eq!(mix_coordinate(1, 0), mix(1, 2147483648));
    assert_eq!(mix_coordinate(1, i32::MIN), mix(1, 0));
    assert_eq!(mix_coordinate(1, i32::MAX), mix(1, 4294967295));
    assert_eq!(mix_direction(1, Direction::Zero), mix(1, 0));
    assert_eq!(mix_direction(1, Direction::Left), mix(1, 1));
    assert_eq!(mix_direction(1, Direction::Right), mix(1, 2));
    assert_eq!(mix_direction(1, Direction::Up), mix(1, 3));
    assert_eq!(mix_direction(1, Direction::Down), mix(1, 4));
    assert_eq!(mix_flag(1, false), mix(1, 0));
    assert_eq!(mix_flag(1, true), mix(1, 1));
}

#[test]
fn the_checksum_of_a_state_folds_players_then_slots_then_the_free_list() {
    let player = PlayerState {
        position: Position { x: 3, y: -4 },
        move_dir: Direction::Down,
        bullet_ready: true,
    };
    let mut state = SimulationState::new(vec![player]);
    let mut expected = CHECKSUM_SEED;
    expected = mix_coordinate(expected, 3);
    expected = mix_coordinate(expected, -4);
    expected = mix_direction(expected, Direction::Down);
    expected = mix_flag(expected, true);
    assert_eq!(state.checksum(), expected);

    let shot = Projectile { position: Position { x: 9, y: 8 }, move_dir: Direction::Up };
    state.projectiles.spawn(shot);
    state.projectiles.spawn(shot);
    state.projectiles.despawn(0);
    expected = mix(expected, 0);
    expected = mix(expected, 1);
    expected = mix_coordinate(expected, 9);
    expected = mix_coordinate(expected, 8);
    expected = mix_direction(expected, Direction::Up);
    expected = mix(expected, 0);
    assert_eq!(state.checksum(), expected);
    assert_eq!(state.projectiles.checksum(5), {
        let mut sum = mix(5, 0);
        sum = mix(sum, 1);
        sum = mix_coordinate(sum, 9);
        sum = mix_coordinate(sum, 8);
        sum = mix_direction(sum, Direction::Up);
        mix(sum, 0)
    });
}

#[test]
fn equal_states_have_equal_checksums() {
    let mut first = SimulationState::two_player_start();
    let mut second = SimulationState::two_player_start();
    assert_eq!(first.checksum(), second.checksum());
    for _ in 0..30 {
        step(&mut first, &vec![INPUT_UP | INPUT_FIRE, INPUT_NEUTRAL]);
        step(&mut second, &vec![INPUT_UP | INPUT_FIRE, INPUT_NEUTRAL]);
    }
    assert_eq!(first.checksum(), second.checksum());
    assert_eq!(first.clone().checksum(), first.checksum());
    step(&mut second, &vec![INPUT_FIRE, INPUT_NEUTRAL]);
    assert_ne!(first.checksum(), second.checksum());
}
