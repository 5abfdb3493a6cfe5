//! The checksum that peers compare to detect a desync.
//!
//! A checksum is a fold over the numbers that make up a state. It is a
//! function of these numbers alone, so two peers that hold equal states
//! compute equal checksums.

use vstd::prelude::*;
use crate::input::Direction;

verus! {

/// The value that every checksum starts from.
pub const CHECKSUM_SEED: u64 = 2166136261;

/// The factor by which a checksum is multiplied before a value is added.
pub const CHECKSUM_FACTOR: u64 = 16777619;

/// The modulus of a checksum: the largest prime below 2^32.
pub const CHECKSUM_MODULUS: u64 = 4294967291;

/// The checksum `hash` with one more value folded in.
pub open spec fn mix_spec(hash: u64, value: u64) -> u64 {
    (((hash % CHECKSUM_MODULUS) * CHECKSUM_FACTOR + value % CHECKSUM_MODULUS) % (
    CHECKSUM_MODULUS as int)) as u64
}

/// A coordinate as a value to fold in.
pub open spec fn coordinate_value(coordinate: i32) -> u64 {
    (coordinate + 2147483648) as u64
}

/// A direction as a value to fold in.
pub open spec fn direction_value(direction: Direction) -> u64 {
    match direction {
        Direction::Zero => 0,
        Direction::Left => 1,
        Direction::Right => 2,
        Direction::Up => 3,
        Direction::Down => 4,
    }
}

/// A flag as a value to fold in.
pub open spec fn flag_value(flag: bool) -> u64 {
    if flag {
        1
    } else {
        0
    }
}

/// Folds one more value into a checksum.
pub fn mix(hash: u64, value: u64) -> (mixed: u64)
    ensures
        mixed == mix_spec(hash, value),
        mixed < CHECKSUM_MODULUS,
{
    ((hash % CHECKSUM_MODULUS) * CHECKSUM_FACTOR + value % CHECKSUM_MODULUS) % CHECKSUM_MODULUS
}

/// Folds a coordinate into a checksum.
pub fn mix_coordinate(hash: u64, coordinate: i32) -> (mixed: u64)
    ensures
        mixed == mix_spec(hash, coordinate_value(coordinate)),
{
    mix(hash, (coordinate as i64 + 2147483648) as u64)
}

/// Folds a direction into a checksum.
pub fn mix_direction(hash: u64, direction: Direction) -> (mixed: u64)
    ensures
        mixed == mix_spec(hash, direction_value(direction)),
{
    let value: u64 = match direction {
        Direction::Zero => 0,
        Direction::Left => 1,
        Direction::Right => 2,
        Direction::Up => 3,
        Direction::Down => 4,
    };
    mix(hash, value)
}

/// Folds a flag into a checksum.
pub fn mix_flag(hash: u64, flag: bool) -> (mixed: u64)
    ensures
        mixed == mix_spec(hash, flag_value(flag)),
{
    let value: u64 = if flag {
        1
    } else {
        0
    };
    mix(hash, value)
}

} // verus!
