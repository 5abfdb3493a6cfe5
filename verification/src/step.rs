//! The deterministic step: one frame of the simulation.
//!
//! A step is a fixed pipeline of four stages, each of which visits its
//! records in ascending index order: players move, weapons reload, weapons
//! fire, projectiles fly. The result depends on the state and on the input
//! symbols alone; every stage is specified by a function of both.

use vstd::prelude::*;
use crate::arena::{ArenaView, Position, Projectile, ProjectileArena};
use crate::input::{Direction, direction, direction_spec, fire, fire_spec};
use crate::state::{
    in_arena, PlayerState, SimView, SimulationState, ARENA_LIMIT, PLAYER_STEP, PROJECTILE_STEP,
};

verus! {

/// `value`, moved to the nearer bound where it lies outside `low..=high`.
pub open spec fn clamp_spec(value: int, low: int, high: int) -> int {
    if value < low {
        low
    } else if value > high {
        high
    } else {
        value
    }
}

/// The position one player step away from `position` in `direction`, kept
/// within the arena on both axes.
pub open spec fn moved_position(position: Position, direction: Direction) -> Position {
    Position {
        x: clamp_spec(
            position.x + direction.dx() * PLAYER_STEP,
            -ARENA_LIMIT,
            ARENA_LIMIT as int,
        ) as i32,
        y: clamp_spec(
            position.y + direction.dy() * PLAYER_STEP,
            -ARENA_LIMIT,
            ARENA_LIMIT as int,
        ) as i32,
    }
}

/// A player after the movement stage: a symbol without direction leaves the
/// record alone; any other direction becomes the stored direction and moves
/// the player one step, clamped to the arena.
pub open spec fn move_player_spec(player: PlayerState, input: u8) -> PlayerState {
    let d = direction_spec(input);
    if d == Direction::Zero {
        player
    } else {
        PlayerState {
            position: moved_position(player.position, d),
            move_dir: d,
            bullet_ready: player.bullet_ready,
        }
    }
}

/// The players after the movement stage.
pub open spec fn move_players_spec(players: Seq<PlayerState>, inputs: Seq<u8>) -> Seq<PlayerState> {
    Seq::new(players.len(), |i: int| move_player_spec(players[i], inputs[i]))
}

/// A player after the reload stage: the weapon becomes ready on every frame
/// on which no shot is requested.
pub open spec fn reload_player_spec(player: PlayerState, input: u8) -> PlayerState {
    if fire_spec(input) {
        player
    } else {
        PlayerState { position: player.position, move_dir: player.move_dir, bullet_ready: true }
    }
}

/// The players after the reload stage.
pub open spec fn reload_bullet_spec(players: Seq<PlayerState>, inputs: Seq<u8>) -> Seq<
    PlayerState,
> {
    Seq::new(players.len(), |i: int| reload_player_spec(players[i], inputs[i]))
}

/// Whether a player fires: a shot is requested and the weapon is ready.
pub open spec fn fires(player: PlayerState, input: u8) -> bool {
    fire_spec(input) && player.bullet_ready
}

/// The state after player `handle` had its turn in the fire stage: a player
/// who fires spawns a projectile at its position with its stored direction,
/// and its weapon is no longer ready.
pub open spec fn fire_one_spec(state: SimView, input: u8, handle: int) -> SimView {
    let player = state.players[handle];
    if fires(player, input) {
        SimView {
            players: state.players.update(
                handle,
                PlayerState {
                    position: player.position,
                    move_dir: player.move_dir,
                    bullet_ready: false,
                },
            ),
            projectiles: state.projectiles.spawn(
                Projectile { position: player.position, move_dir: player.move_dir },
            ),
        }
    } else {
        state
    }
}

/// The state after the first `count` players had their turn in the fire
/// stage, in ascending handle order.
pub open spec fn fire_bullets_spec(state: SimView, inputs: Seq<u8>, count: nat) -> SimView
    decreases count,
{
    if count == 0 {
        state
    } else {
        fire_one_spec(
            fire_bullets_spec(state, inputs, (count - 1) as nat),
            inputs[count - 1],
            count - 1,
        )
    }
}

/// A projectile one step further along its direction, or nothing where that
/// position has a coordinate outside the range of positions.
pub open spec fn advance_projectile(projectile: Projectile) -> Option<Projectile> {
    let x = projectile.position.x + projectile.move_dir.dx() * PROJECTILE_STEP;
    let y = projectile.position.y + projectile.move_dir.dy() * PROJECTILE_STEP;
    if i32::MIN <= x <= i32::MAX && i32::MIN <= y <= i32::MAX {
        Some(
            Projectile {
                position: Position { x: x as i32, y: y as i32 },
                move_dir: projectile.move_dir,
            },
        )
    } else {
        None
    }
}

/// The arena after the slot `index` had its turn in the flight stage: a live
/// projectile advances one step, and is retired where it would leave the
/// range of positions.
pub open spec fn move_one_spec(arena: ArenaView, index: int) -> ArenaView {
    match arena.slots[index] {
        None => arena,
        Some(projectile) => match advance_projectile(projectile) {
            Some(advanced) => arena.replace(index, advanced),
            None => arena.despawn(index),
        },
    }
}

/// The arena after the first `count` slots had their turn in the flight
/// stage, in ascending index order.
pub open spec fn move_bullet_spec(arena: ArenaView, count: nat) -> ArenaView
    decreases count,
{
    if count == 0 {
        arena
    } else {
        move_one_spec(move_bullet_spec(arena, (count - 1) as nat), count - 1)
    }
}

/// The state after one step with the given input symbols, one per player:
/// movement, then reload, then fire, then flight.
pub open spec fn step_spec(state: SimView, inputs: Seq<u8>) -> SimView {
    let moved = move_players_spec(state.players, inputs);
    let reloaded = reload_bullet_spec(moved, inputs);
    let fired = fire_bullets_spec(
        SimView { players: reloaded, projectiles: state.projectiles },
        inputs,
        reloaded.len(),
    );
    SimView {
        players: fired.players,
        projectiles: move_bullet_spec(fired.projectiles, fired.projectiles.slots.len()),
    }
}

/// The state after one step for each element of `frames`, in order.
pub open spec fn simulate(origin: SimView, frames: Seq<Seq<u8>>) -> SimView
    decreases frames.len(),
{
    if frames.len() == 0 {
        origin
    } else {
        step_spec(simulate(origin, frames.drop_last()), frames.last())
    }
}

/// The fire stage keeps the number of players and the consistency of the
/// arena.
pub proof fn fire_bullets_keeps_wf(state: SimView, inputs: Seq<u8>, count: nat)
    requires
        state.wf(),
        count <= state.players.len(),
    ensures
        fire_bullets_spec(state, inputs, count).wf(),
        fire_bullets_spec(state, inputs, count).players.len() == state.players.len(),
        forall|i: int|
            0 <= i < state.players.len() ==> (#[trigger] fire_bullets_spec(
                state,
                inputs,
                count,
            ).players[i]).position == state.players[i].position,
        forall|i: int|
            count <= i < state.players.len() ==> #[trigger] fire_bullets_spec(
                state,
                inputs,
                count,
            ).players[i] == state.players[i],
    decreases count,
{
    if count > 0 {
        let before = fire_bullets_spec(state, inputs, (count - 1) as nat);
        fire_bullets_keeps_wf(state, inputs, (count - 1) as nat);
        let player = before.players[count - 1];
        before.projectiles.spawn_keeps_wf(
            Projectile { position: player.position, move_dir: player.move_dir },
        );
    }
}

/// The flight stage keeps the number of slots and the consistency of the
/// arena.
pub proof fn move_bullet_keeps_wf(arena: ArenaView, count: nat)
    requires
        arena.wf(),
        count <= arena.slots.len(),
    ensures
        move_bullet_spec(arena, count).wf(),
        move_bullet_spec(arena, count).slots.len() == arena.slots.len(),
        forall|i: int|
            count <= i < arena.slots.len() ==> #[trigger] move_bullet_spec(arena, count).slots[i]
                == arena.slots[i],
    decreases count,
{
    if count > 0 {
        let before = move_bullet_spec(arena, (count - 1) as nat);
        move_bullet_keeps_wf(arena, (count - 1) as nat);
        let index = count - 1;
        match before.slots[index] {
            None => {},
            Some(projectile) => match advance_projectile(projectile) {
                Some(advanced) => {
                    before.replace_keeps_wf(index, advanced);
                },
                None => {
                    before.despawn_keeps_wf(index);
                },
            },
        }
    }
}

/// A step keeps the number of players and the consistency of the arena.
pub proof fn step_keeps_wf(state: SimView, inputs: Seq<u8>)
    requires
        state.wf(),
    ensures
        step_spec(state, inputs).wf(),
        step_spec(state, inputs).players.len() == state.players.len(),
{
    let moved = move_players_spec(state.players, inputs);
    let reloaded = reload_bullet_spec(moved, inputs);
    let start = SimView { players: reloaded, projectiles: state.projectiles };
    fire_bullets_keeps_wf(start, inputs, reloaded.len());
    let fired = fire_bullets_spec(start, inputs, reloaded.len());
    move_bullet_keeps_wf(fired.projectiles, fired.projectiles.slots.len());
}

/// Any number of steps keeps the number of players and the consistency of
/// the arena.
pub proof fn simulate_keeps_wf(origin: SimView, frames: Seq<Seq<u8>>)
    requires
        origin.wf(),
    ensures
        simulate(origin, frames).wf(),
        simulate(origin, frames).players.len() == origin.players.len(),
    decreases frames.len(),
{
    if frames.len() > 0 {
        simulate_keeps_wf(origin, frames.drop_last());
        step_keeps_wf(simulate(origin, frames.drop_last()), frames.last());
    }
}

/// A player that moves ends up within the arena, wherever it stood before.
pub proof fn moving_player_lands_in_arena(player: PlayerState, input: u8)
    ensures
        direction_spec(input) != Direction::Zero ==> in_arena(
            move_player_spec(player, input).position,
        ),
        direction_spec(input) == Direction::Zero ==> move_player_spec(player, input) == player,
{
}

/// A step never takes a player out of the arena: where every player stands
/// within the bounds before the step, every player does so after it, whatever
/// the input symbols are.
pub proof fn step_keeps_players_in_arena(state: SimView, inputs: Seq<u8>)
    requires
        state.wf(),
        state.players_in_arena(),
    ensures
        step_spec(state, inputs).players_in_arena(),
{
    let moved = move_players_spec(state.players, inputs);
    let reloaded = reload_bullet_spec(moved, inputs);
    let start = SimView { players: reloaded, projectiles: state.projectiles };
    fire_bullets_keeps_wf(start, inputs, reloaded.len());
    let after = step_spec(state, inputs);
    assert forall|i: int| 0 <= i < after.players.len() implies in_arena(
        #[trigger] after.players[i].position,
    ) by {
        assert(in_arena(state.players[i].position));
        moving_player_lands_in_arena(state.players[i], inputs[i]);
        assert(reloaded[i].position == moved[i].position);
        assert(after.players[i].position == start.players[i].position);
    }
}

/// No sequence of inputs takes a player out of the arena: where every player
/// stands within the bounds at the start, every player does so after any
/// number of steps.
pub proof fn simulate_keeps_players_in_arena(origin: SimView, frames: Seq<Seq<u8>>)
    requires
        origin.wf(),
        origin.players_in_arena(),
    ensures
        simulate(origin, frames).players_in_arena(),
    decreases frames.len(),
{
    if frames.len() > 0 {
        simulate_keeps_players_in_arena(origin, frames.drop_last());
        simulate_keeps_wf(origin, frames.drop_last());
        step_keeps_players_in_arena(simulate(origin, frames.drop_last()), frames.last());
    }
}

/// A step is a function of the state and the inputs: from equal states and
/// equal inputs it leads to equal states.
pub proof fn step_is_deterministic(first: SimView, second: SimView, inputs: Seq<u8>)
    requires
        first == second,
    ensures
        step_spec(first, inputs) == step_spec(second, inputs),
{
}

/// Simulating a sequence of frames in two parts gives what simulating it in
/// one go gives.
pub proof fn simulate_splits(origin: SimView, head: Seq<Seq<u8>>, tail: Seq<Seq<u8>>)
    ensures
        simulate(simulate(origin, head), tail) == simulate(origin, head + tail),
    decreases tail.len(),
{
    if tail.len() == 0 {
        assert(head + tail =~= head);
    } else {
        simulate_splits(origin, head, tail.drop_last());
        assert((head + tail).drop_last() =~= head + tail.drop_last());
        assert((head + tail).last() == tail.last());
    }
}

/// Rolling back repairs a misprediction completely. Let `predicted` be the
/// inputs a peer stepped with and `confirmed` the true inputs, the two equal
/// before frame `first_wrong`. Restoring the state reached after the first
/// `first_wrong` predicted frames and simulating the confirmed frames from
/// there on gives the state that stepping with the confirmed inputs from the
/// start gives.
pub proof fn rollback_equals_direct_simulation(
    origin: SimView,
    predicted: Seq<Seq<u8>>,
    confirmed: Seq<Seq<u8>>,
    first_wrong: int,
)
    requires
        0 <= first_wrong <= predicted.len(),
        first_wrong <= confirmed.len(),
        predicted.take(first_wrong) == confirmed.take(first_wrong),
    ensures
        simulate(simulate(origin, predicted.take(first_wrong)), confirmed.skip(first_wrong))
            == simulate(origin, confirmed),
{
    simulate_splits(origin, confirmed.take(first_wrong), confirmed.skip(first_wrong));
    assert(confirmed.take(first_wrong) + confirmed.skip(first_wrong) =~= confirmed);
}

fn clamp_to_arena(value: i64) -> (r: i32)
    ensures
        r == clamp_spec(value as int, -ARENA_LIMIT, ARENA_LIMIT as int),
{
    if value < -(ARENA_LIMIT as i64) {
        -ARENA_LIMIT
    } else if value > ARENA_LIMIT as i64 {
        ARENA_LIMIT
    } else {
        value as i32
    }
}

/// Movement stage. Each player whose symbol carries a direction takes that
/// direction as its stored direction and moves one step along it, clamped to
/// the arena on both axes; the other players stay as they are. Symbols beyond
/// the last player are ignored.
pub fn move_players(players: &mut Vec<PlayerState>, inputs: &Vec<u8>)
    requires
        old(players).len() <= inputs.len(),
    ensures
        final(players)@ == move_players_spec(old(players)@, inputs@),
        forall|i: int|
            0 <= i < old(players).len() && direction_spec(inputs[i]) != Direction::Zero
                ==> in_arena(#[trigger] final(players)[i].position),
{
    let count: usize = players.len();
    let mut i: usize = 0;
    while i < count
        invariant
            i <= count,
            players.len() == count,
            count == old(players).len(),
            count <= inputs.len(),
            forall|j: int|
                0 <= j < i ==> #[trigger] players[j] == move_player_spec(
                    old(players)[j],
                    inputs[j],
                ),
            forall|j: int| i <= j < count ==> #[trigger] players[j] == old(players)[j],
        decreases count - i,
    {
        let d = direction(inputs[i]);
        if d.is_moving() {
            let player = players[i];
            let x: i64 = player.position.x as i64 + d.unit_x() * (PLAYER_STEP as i64);
            let y: i64 = player.position.y as i64 + d.unit_y() * (PLAYER_STEP as i64);
            players.set(
                i,
                PlayerState {
                    position: Position { x: clamp_to_arena(x), y: clamp_to_arena(y) },
                    move_dir: d,
                    bullet_ready: player.bullet_ready,
                },
            );
        }
        i += 1;
    }
    assert(players@ =~= move_players_spec(old(players)@, inputs@));
}

/// Reload stage. The weapon of each player whose symbol requests no shot
/// becomes ready; the other weapons stay as they are. Symbols beyond the last
/// player are ignored.
pub fn reload_bullet(players: &mut Vec<PlayerState>, inputs: &Vec<u8>)
    requires
        old(players).len() <= inputs.len(),
    ensures
        final(players)@ == reload_bullet_spec(old(players)@, inputs@),
{
    let count: usize = players.len();
    let mut i: usize = 0;
    while i < count
        invariant
            i <= count,
            players.len() == count,
            count == old(players).len(),
            count <= inputs.len(),
            forall|j: int|
                0 <= j < i ==> #[trigger] players[j] == reload_player_spec(
                    old(players)[j],
                    inputs[j],
                ),
            forall|j: int| i <= j < count ==> #[trigger] players[j] == old(players)[j],
        decreases count - i,
    {
        if !fire(inputs[i]) {
            let player = players[i];
            players.set(
                i,
                PlayerState {
                    position: player.position,
                    move_dir: player.move_dir,
                    bullet_ready: true,
                },
            );
        }
        i += 1;
    }
    assert(players@ =~= reload_bullet_spec(old(players)@, inputs@));
}

/// Fire stage. In ascending handle order, each player whose symbol requests a
/// shot while the weapon is ready spawns a projectile at its position with
/// its stored direction, and its weapon is no longer ready. Symbols beyond
/// the last player are ignored.
pub fn fire_bullets(state: &mut SimulationState, inputs: &Vec<u8>)
    requires
        old(state).wf(),
        old(state)@.players.len() <= inputs.len(),
    ensures
        final(state).wf(),
        final(state)@ == fire_bullets_spec(old(state)@, inputs@, old(state)@.players.len()),
{
    let count: usize = state.players.len();
    let mut i: usize = 0;
    while i < count
        invariant
            i <= count,
            count == old(state)@.players.len(),
            state.players.len() == count,
            count <= inputs.len(),
            state.wf(),
            state@ == fire_bullets_spec(old(state)@, inputs@, i as nat),
        decreases count - i,
    {
        let player = state.players[i];
        if fire(inputs[i]) && player.bullet_ready {
            state.projectiles.spawn(
                Projectile { position: player.position, move_dir: player.move_dir },
            );
            state.players.set(
                i,
                PlayerState {
                    position: player.position,
                    move_dir: player.move_dir,
                    bullet_ready: false,
                },
            );
        }
        i += 1;
    }
}

/// Flight stage. In ascending slot order, each live projectile moves one
/// step along its direction; one that would leave the range of positions is
/// retired and its slot becomes free.
pub fn move_bullet(projectiles: &mut ProjectileArena)
    requires
        old(projectiles).wf(),
    ensures
        final(projectiles).wf(),
        final(projectiles)@ == move_bullet_spec(old(projectiles)@, old(projectiles)@.slots.len()),
{
    let count: usize = projectiles.slot_count();
    let mut i: usize = 0;
    while i < count
        invariant
            i <= count,
            count == old(projectiles)@.slots.len(),
            projectiles@.slots.len() == count,
            projectiles.wf(),
            projectiles@ == move_bullet_spec(old(projectiles)@, i as nat),
        decreases count - i,
    {
        match projectiles.get(i) {
            Some(projectile) => {
                let x: i64 = projectile.position.x as i64 + projectile.move_dir.unit_x() * (
                PROJECTILE_STEP as i64);
                let y: i64 = projectile.position.y as i64 + projectile.move_dir.unit_y() * (
                PROJECTILE_STEP as i64);
                if i32::MIN as i64 <= x && x <= i32::MAX as i64 && i32::MIN as i64 <= y && y
                    <= i32::MAX as i64 {
                    projectiles.replace(
                        i,
                        Projectile {
                            position: Position { x: x as i32, y: y as i32 },
                            move_dir: projectile.move_dir,
                        },
                    );
                } else {
                    projectiles.despawn(i);
                }
            },
            None => {},
        }
        i += 1;
    }
}

/// One step of the simulation: movement, reload, fire and flight, in this
/// order. `inputs` holds one symbol per player, indexed by handle; symbols
/// beyond the last player are ignored. The result is a function of the state
/// and the symbols alone.
pub fn step(state: &mut SimulationState, inputs: &Vec<u8>)
    requires
        old(state).wf(),
        old(state)@.players.len() <= inputs.len(),
    ensures
        final(state).wf(),
        final(state)@ == step_spec(old(state)@, inputs@),
        final(state)@.players.len() == old(state)@.players.len(),
        old(state)@.players_in_arena() ==> final(state)@.players_in_arena(),
{
    proof {
        step_keeps_wf(state@, inputs@);
        if state@.players_in_arena() {
            step_keeps_players_in_arena(state@, inputs@);
        }
    }
    move_players(&mut state.players, inputs);
    reload_bullet(&mut state.players, inputs);
    fire_bullets(state, inputs);
    move_bullet(&mut state.projectiles);
}

} // verus!
