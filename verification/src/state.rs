//! The simulation state: everything that a step reads or writes.
//!
//! Positions are fixed-point integers, `SCALE` units to one map cell, so that
//! every peer computes the same numbers. A state holds one record per player,
//! indexed by player handle, and the projectiles in flight. Whatever is not in
//! `SimulationState` takes no part in stepping, snapshots or rollback.

use vstd::prelude::*;
use crate::arena::{ArenaView, Position, ProjectileArena};
use crate::checksum::{
    coordinate_value, direction_value, flag_value, mix_coordinate, mix_direction, mix_flag,
    mix_spec, CHECKSUM_SEED,
};
use crate::input::Direction;

verus! {

/// Position units per map cell.
pub const SCALE: i32 = 60;

/// Steps per second; a step lasts one `TICK_RATE`th of a second.
pub const TICK_RATE: i32 = 60;

/// Side length of the square map, in cells.
pub const MAP_SIZE: i32 = 41;

/// Players stay within `-ARENA_LIMIT..=ARENA_LIMIT` on both axes: half a cell
/// inside the edge of the map.
pub const ARENA_LIMIT: i32 = 1200;

/// Distance a player covers in one step: seven cells per second.
pub const PLAYER_STEP: i32 = 7;

/// Distance a projectile covers in one step: twenty cells per second.
pub const PROJECTILE_STEP: i32 = 20;

/// Number of players of a session.
pub const NUM_PLAYERS: usize = 2;

/// Identifies a simulation tick. Frame 0 is the start of the session; the
/// first step simulates frame 1.
pub type FrameNumber = u32;

/// Identifies a participant within a session: 0 or 1.
pub type PlayerHandle = usize;

/// One player's record.
#[derive(Clone, Copy, Debug, PartialEq, Eq, Structural)]
pub struct PlayerState {
    pub position: Position,
    /// The direction of the player's last movement; projectiles inherit it.
    pub move_dir: Direction,
    /// Whether the weapon may fire.
    pub bullet_ready: bool,
}

/// Whether a position lies within the arena.
pub open spec fn in_arena(position: Position) -> bool {
    &&& -ARENA_LIMIT <= position.x <= ARENA_LIMIT
    &&& -ARENA_LIMIT <= position.y <= ARENA_LIMIT
}

/// A simulation state as a mathematical value.
pub struct SimView {
    pub players: Seq<PlayerState>,
    pub projectiles: ArenaView,
}

impl SimView {
    /// The projectile arena is consistent.
    pub open spec fn wf(self) -> bool {
        self.projectiles.wf()
    }

    /// The checksum `hash` with the first `count` players folded in: of each
    /// its coordinates, its stored direction and its weapon flag.
    pub open spec fn checksum_players(self, hash: u64, count: nat) -> u64
        decreases count,
    {
        if count == 0 {
            hash
        } else {
            let player = self.players[count - 1];
            mix_spec(
                mix_spec(
                    mix_spec(
                        mix_spec(
                            self.checksum_players(hash, (count - 1) as nat),
                            coordinate_value(player.position.x),
                        ),
                        coordinate_value(player.position.y),
                    ),
                    direction_value(player.move_dir),
                ),
                flag_value(player.bullet_ready),
            )
        }
    }

    /// The checksum of the state: the players in handle order, then the
    /// projectile arena.
    pub open spec fn checksum(self) -> u64 {
        self.projectiles.checksum(self.checksum_players(CHECKSUM_SEED, self.players.len()))
    }

    /// Every player stands within the arena.
    pub open spec fn players_in_arena(self) -> bool {
        forall|i: int| 0 <= i < self.players.len() ==> in_arena(#[trigger] self.players[i].position)
    }
}

/// The state of a simulation between two steps.
#[derive(Debug)]
pub struct SimulationState {
    /// The players, indexed by handle.
    pub players: Vec<PlayerState>,
    /// The projectiles in flight.
    pub projectiles: ProjectileArena,
}

impl View for SimulationState {
    type V = SimView;

    open spec fn view(&self) -> SimView {
        SimView { players: self.players@, projectiles: self.projectiles@ }
    }
}

/// The players at the start of a two-player session: handle 0 two cells left
/// of the centre, handle 1 two cells right of it, facing each other, weapons
/// ready.
pub open spec fn two_player_start_spec() -> Seq<PlayerState> {
    seq![
        PlayerState {
            position: Position { x: (-120i32), y: 0 },
            move_dir: Direction::Right,
            bullet_ready: true,
        },
        PlayerState {
            position: Position { x: 120, y: 0 },
            move_dir: Direction::Left,
            bullet_ready: true,
        },
    ]
}

impl SimulationState {
    /// The projectile arena is consistent.
    pub open spec fn wf(&self) -> bool {
        self@.wf()
    }

    /// A state with the given players and no projectile.
    pub fn new(players: Vec<PlayerState>) -> (state: SimulationState)
        ensures
            state@ == (SimView { players: players@, projectiles: ArenaView::empty() }),
            state.wf(),
    {
        SimulationState { players, projectiles: ProjectileArena::new() }
    }

    /// The state at the start of a two-player session.
    pub fn two_player_start() -> (state: SimulationState)
        ensures
            state@ == (SimView {
                players: two_player_start_spec(),
                projectiles: ArenaView::empty(),
            }),
            state.wf(),
            state@.players_in_arena(),
            state@.players.len() == NUM_PLAYERS,
    {
        let mut players: Vec<PlayerState> = Vec::new();
        players.push(
            PlayerState {
                position: Position { x: -2 * SCALE, y: 0 },
                move_dir: Direction::Right,
                bullet_ready: true,
            },
        );
        players.push(
            PlayerState {
                position: Position { x: 2 * SCALE, y: 0 },
                move_dir: Direction::Left,
                bullet_ready: true,
            },
        );
        assert(players@ =~= two_player_start_spec());
        SimulationState::new(players)
    }

    /// The record of the player with the given handle, if there is one.
    pub fn player(&self, handle: usize) -> (p: Option<PlayerState>)
        ensures
            p == if handle < self@.players.len() {
                Some(self@.players[handle as int])
            } else {
                None
            },
    {
        if handle < self.players.len() {
            Some(self.players[handle])
        } else {
            None
        }
    }

    /// The checksum of the state. Equal states have equal checksums.
    pub fn checksum(&self) -> (sum: u64)
        ensures
            sum == self@.checksum(),
    {
        let mut mixed: u64 = CHECKSUM_SEED;
        let mut i: usize = 0;
        while i < self.players.len()
            invariant
                i <= self.players.len(),
                mixed == self@.checksum_players(CHECKSUM_SEED, i as nat),
            decreases self.players.len() - i,
        {
            let player = self.players[i];
            mixed = mix_coordinate(mixed, player.position.x);
            mixed = mix_coordinate(mixed, player.position.y);
            mixed = mix_direction(mixed, player.move_dir);
            mixed = mix_flag(mixed, player.bullet_ready);
            i += 1;
        }
        self.projectiles.checksum(mixed)
    }

    /// An independent copy: changing either state afterwards leaves the other
    /// as it is.
    pub fn duplicate(&self) -> (copy: SimulationState)
        ensures
            copy@ == self@,
    {
        let mut players: Vec<PlayerState> = Vec::new();
        let mut i: usize = 0;
        while i < self.players.len()
            invariant
                i <= self.players.len(),
                players@ == self.players@.take(i as int),
            decreases self.players.len() - i,
        {
            players.push(self.players[i]);
            i += 1;
        }
        assert(players@ == self.players@);
        SimulationState { players, projectiles: self.projectiles.duplicate() }
    }

    /// Whether two states are equal in every player record, every projectile
    /// slot and the free list.
    pub fn same_as(&self, other: &SimulationState) -> (same: bool)
        ensures
            same == (self@ == other@),
    {
        if self.players.len() != other.players.len() {
            return false;
        }
        let mut i: usize = 0;
        while i < self.players.len()
            invariant
                i <= self.players.len(),
                self.players.len() == other.players.len(),
                self.players@.take(i as int) == other.players@.take(i as int),
            decreases self.players.len() - i,
        {
            if self.players[i] != other.players[i] {
                return false;
            }
            assert(self.players@.take(i + 1) == self.players@.take(i as int).push(
                self.players@[i as int],
            ));
            assert(other.players@.take(i + 1) == other.players@.take(i as int).push(
                other.players@[i as int],
            ));
            i += 1;
        }
        assert(self.players@ == self.players@.take(self.players.len() as int));
        assert(other.players@ == other.players@.take(other.players.len() as int));
        self.projectiles.same_as(&other.projectiles)
    }
}

impl Clone for SimulationState {
    fn clone(&self) -> (copy: SimulationState)
        ensures
            copy@ == self@,
    {
        self.duplicate()
    }
}

} // verus!
