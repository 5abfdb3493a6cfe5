//! The frame scheduler: stepping, prediction and rollback.
//!
//! The scheduler owns the simulation state, the snapshot store and one input
//! buffer per player, indexed by frame. Frame 0 is the start of the session
//! and carries no input; the first tick simulates frame 1.
//!
//! A tick never waits. The local symbol handed to the tick of frame `f`
//! takes effect at frame `f + input_delay`; the frames up to `input_delay`
//! carry the neutral symbol for both players. Where the remote symbol of a
//! frame has not arrived, the scheduler steps with the symbol of the frame
//! before ("last input held"). Confirmed remote symbols may arrive in any
//! order and more than once. When one contradicts what was stepped with, the
//! next tick first restores the snapshot of the frame before the earliest
//! such frame and simulates again from there. After every tick the state is
//! what stepping from the start of the session gives with, for every frame,
//! the confirmed remote symbol where one is known and the held symbol where
//! none is.

use vstd::prelude::*;
use crate::input::{encode, encode_spec, Keys, INPUT_NEUTRAL};
use crate::snapshot::SnapshotStore;
use crate::state::{FrameNumber, PlayerHandle, SimView, SimulationState, NUM_PLAYERS};
use crate::step::{simulate, simulate_keeps_wf, step, step_spec};
use crate::error::SyncError;

verus! {

/// The longest input delay that a session can be configured with: one second.
pub const MAX_INPUT_DELAY: u32 = 60;

/// One frame of the remote player's input buffer.
#[derive(Clone, Copy, Debug, PartialEq, Eq, Structural)]
struct InputSlot {
    /// The confirmed symbol, or the symbol that stands in for it.
    symbol: u8,
    /// Whether `symbol` is the symbol that the remote player sent.
    confirmed: bool,
}

/// What is known of the remote player's input at one frame.
#[derive(Clone, Copy, Debug, PartialEq, Eq, Structural)]
pub enum InputStatus {
    /// The symbol that the remote player sent.
    Confirmed(u8),
    /// The symbol held in place of one that has not arrived.
    Predicted(u8),
}

/// A local input on its way to the peer: `symbol` is the sender's input for
/// `frame`.
#[derive(Clone, Copy, Debug, PartialEq, Eq, Structural)]
pub struct InputMessage {
    pub sender: PlayerHandle,
    pub frame: FrameNumber,
    pub symbol: u8,
}

/// The remote symbol to step frame `frame` with: the confirmed symbol where
/// `known` has one, else the symbol of the frame before; frame 0 has the
/// neutral symbol.
pub open spec fn held_input(known: Map<int, u8>, frame: int) -> u8
    decreases frame,
{
    if frame <= 0 {
        INPUT_NEUTRAL
    } else if known.contains_key(frame) {
        known[frame]
    } else {
        held_input(known, frame - 1)
    }
}

/// The input symbols of one frame by player handle.
pub open spec fn frame_inputs(local_handle: int, local: u8, remote: u8) -> Seq<u8> {
    if local_handle == 0 {
        seq![local, remote]
    } else {
        seq![remote, local]
    }
}

/// The inputs of the frames `1..=frame`, the remote ones as confirmed or held.
pub open spec fn inputs_through(
    local_handle: int,
    local: Seq<u8>,
    known: Map<int, u8>,
    frame: int,
) -> Seq<Seq<u8>> {
    Seq::new(
        if frame >= 0 {
            frame as nat
        } else {
            0
        },
        |j: int| frame_inputs(local_handle, local[j + 1], held_input(known, j + 1)),
    )
}

/// Whether `confirmed_frame` is the highest frame up to `limit` such that the
/// remote input of every frame from 1 up to it is known.
pub open spec fn is_confirmed_frontier(
    known: Map<int, u8>,
    confirmed_frame: int,
    limit: int,
) -> bool {
    &&& 0 <= confirmed_frame <= limit
    &&& forall|k: int| 1 <= k <= confirmed_frame ==> known.contains_key(k)
    &&& confirmed_frame == limit || !known.contains_key(confirmed_frame + 1)
}

/// The oldest frame whose snapshot is retained.
pub open spec fn retention_floor(confirmed_frame: int, max_rollback: int) -> int {
    if confirmed_frame > max_rollback {
        confirmed_frame - max_rollback
    } else {
        0
    }
}

/// A scheduler as a mathematical value.
pub struct SchedulerView {
    /// The state at the start of the session.
    pub origin: SimView,
    pub local_handle: int,
    pub input_delay: int,
    pub max_rollback: int,
    /// The frame that the next tick simulates.
    pub current_frame: int,
    pub confirmed_frame: int,
    /// The local player's effective symbols by frame.
    pub local_inputs: Seq<u8>,
    /// The remote player's confirmed symbols by frame.
    pub remote_inputs: Map<int, u8>,
    /// The live simulation state.
    pub state: SimView,
    /// The retained snapshots by frame.
    pub snapshots: Map<FrameNumber, SimView>,
}

impl SchedulerView {
    /// The state after frame `frame`, stepping from the start of the session
    /// with the remote inputs as confirmed or held.
    pub open spec fn expected_state(self, frame: int) -> SimView {
        simulate(
            self.origin,
            inputs_through(self.local_handle, self.local_inputs, self.remote_inputs, frame),
        )
    }

    /// Whether `after` is this scheduler one tick later, with `symbol` queued
    /// for the local player. The configuration and the confirmed remote
    /// inputs are the same. The frame that was current has been simulated:
    /// the live state is the expected state after it. The confirmed frame
    /// has moved up to the last simulated frame such that the remote inputs
    /// of all frames up to it are confirmed. The snapshots of the frames from
    /// the retention floor up to the simulated frame are retained, and each
    /// is the expected state after its frame.
    pub open spec fn ticked(self, symbol: u8, after: SchedulerView) -> bool {
        &&& after.origin == self.origin
        &&& after.local_handle == self.local_handle
        &&& after.input_delay == self.input_delay
        &&& after.max_rollback == self.max_rollback
        &&& after.current_frame == self.current_frame + 1
        &&& after.local_inputs == self.local_inputs.push(symbol)
        &&& after.remote_inputs == self.remote_inputs
        &&& after.state == after.expected_state(self.current_frame)
        &&& is_confirmed_frontier(after.remote_inputs, after.confirmed_frame, self.current_frame)
        &&& after.confirmed_frame >= self.confirmed_frame
        &&& forall|f: FrameNumber| #[trigger]
            after.snapshots.contains_key(f) <==> retention_floor(
                after.confirmed_frame,
                after.max_rollback,
            ) <= f <= self.current_frame
        &&& forall|f: FrameNumber| #[trigger]
            after.snapshots.contains_key(f) ==> after.snapshots[f] == after.expected_state(
                f as int,
            )
    }

    /// The remote input to step `frame` with, and whether it is confirmed.
    pub open spec fn remote_status(self, frame: int) -> InputStatus {
        if self.remote_inputs.contains_key(frame) {
            InputStatus::Confirmed(self.remote_inputs[frame])
        } else {
            InputStatus::Predicted(held_input(self.remote_inputs, frame))
        }
    }
}

/// The state after a frame is one step from the state after the frame before.
pub proof fn expected_state_unfolds(view: SchedulerView, frame: int)
    requires
        frame >= 1,
    ensures
        view.expected_state(frame) == step_spec(
            view.expected_state(frame - 1),
            frame_inputs(
                view.local_handle,
                view.local_inputs[frame],
                held_input(view.remote_inputs, frame),
            ),
        ),
{
    let all = inputs_through(view.local_handle, view.local_inputs, view.remote_inputs, frame);
    let before = inputs_through(
        view.local_handle,
        view.local_inputs,
        view.remote_inputs,
        frame - 1,
    );
    assert(all.drop_last() =~= before);
}

/// The state after a frame depends on the inputs up to that frame only.
pub proof fn expected_state_depends_on_past(first: SchedulerView, second: SchedulerView, frame: int)
    requires
        first.origin == second.origin,
        first.local_handle == second.local_handle,
        forall|k: int| 1 <= k <= frame ==> first.local_inputs[k] == second.local_inputs[k],
        forall|k: int|
            1 <= k <= frame ==> held_input(first.remote_inputs, k) == held_input(
                second.remote_inputs,
                k,
            ),
    ensures
        first.expected_state(frame) == second.expected_state(frame),
{
    assert(inputs_through(first.local_handle, first.local_inputs, first.remote_inputs, frame)
        =~= inputs_through(second.local_handle, second.local_inputs, second.remote_inputs, frame));
}

/// Every expected state is consistent and has the players of the origin.
pub proof fn expected_state_is_wf(view: SchedulerView, frame: int)
    requires
        view.origin.wf(),
    ensures
        view.expected_state(frame).wf(),
        view.expected_state(frame).players.len() == view.origin.players.len(),
{
    simulate_keeps_wf(
        view.origin,
        inputs_through(view.local_handle, view.local_inputs, view.remote_inputs, frame),
    );
}

/// A confirmation changes no held input of an earlier frame.
pub proof fn confirmation_keeps_earlier_inputs(
    known: Map<int, u8>,
    frame: int,
    symbol: u8,
    at: int,
)
    requires
        at < frame,
    ensures
        held_input(known.insert(frame, symbol), at) == held_input(known, at),
    decreases at,
{
    if at > 0 {
        confirmation_keeps_earlier_inputs(known, frame, symbol, at - 1);
    }
}

/// A confirmation of the very symbol that was held changes no held input at
/// all.
pub proof fn matching_confirmation_keeps_inputs(
    known: Map<int, u8>,
    frame: int,
    symbol: u8,
    at: int,
)
    requires
        frame >= 1,
        symbol == held_input(known, frame),
    ensures
        held_input(known.insert(frame, symbol), at) == held_input(known, at),
    decreases at,
{
    if at > 0 {
        matching_confirmation_keeps_inputs(known, frame, symbol, at - 1);
    }
}

/// The state after a frame whose inputs are all confirmed is final: whatever
/// is confirmed or queued later, for that frame or any other, the state
/// after the frame stays what it is.
pub proof fn confirmed_state_is_final(earlier: SchedulerView, later: SchedulerView, frame: int)
    requires
        earlier.origin == later.origin,
        earlier.local_handle == later.local_handle,
        forall|k: int| 1 <= k <= frame ==> earlier.local_inputs[k] == later.local_inputs[k],
        forall|k: int|
            1 <= k <= frame ==> #[trigger] earlier.remote_inputs.contains_key(k)
                && later.remote_inputs.contains_key(k) && earlier.remote_inputs[k]
                == later.remote_inputs[k],
    ensures
        earlier.expected_state(frame) == later.expected_state(frame),
{
    assert forall|k: int| 1 <= k <= frame implies held_input(earlier.remote_inputs, k)
        == held_input(later.remote_inputs, k) by {
        assert(earlier.remote_inputs.contains_key(k));
    }
    expected_state_depends_on_past(earlier, later, frame);
}

/// Two peers agree on every frame that is confirmed on both sides. Let the
/// two start from the same state under different handles, and let each know,
/// for every frame up to `frame`, the symbol that took effect at the other
/// side. Then the state after `frame` is the same on both sides.
pub proof fn peers_agree_on_confirmed_frames(one: SchedulerView, other: SchedulerView, frame: int)
    requires
        one.origin == other.origin,
        0 <= one.local_handle <= 1,
        other.local_handle == 1 - one.local_handle,
        forall|k: int|
            1 <= k <= frame ==> #[trigger] one.remote_inputs.contains_key(k)
                && one.remote_inputs[k] == other.local_inputs[k],
        forall|k: int|
            1 <= k <= frame ==> #[trigger] other.remote_inputs.contains_key(k)
                && other.remote_inputs[k] == one.local_inputs[k],
    ensures
        one.expected_state(frame) == other.expected_state(frame),
{
    assert forall|k: int| 1 <= k <= frame implies held_input(one.remote_inputs, k)
        == other.local_inputs[k] && held_input(other.remote_inputs, k) == one.local_inputs[k] by {
        assert(one.remote_inputs.contains_key(k));
        assert(other.remote_inputs.contains_key(k));
    }
    assert(inputs_through(one.local_handle, one.local_inputs, one.remote_inputs, frame)
        =~= inputs_through(other.local_handle, other.local_inputs, other.remote_inputs, frame));
}

/// Rollback equivalence for the scheduler's inputs. Let a peer have stepped
/// through `frame` while it knew the remote inputs `earlier`, and let it know
/// `later` now, which differs from `earlier` by confirmations at
/// `first_wrong` and after. Restoring the snapshot of `first_wrong - 1` and
/// stepping again through `frame` with what is known now gives the state that
/// stepping from the start of the session with `later` gives.
pub proof fn resimulation_equals_direct_simulation(
    earlier: SchedulerView,
    later: SchedulerView,
    first_wrong: int,
    frame: int,
)
    requires
        1 <= first_wrong <= frame,
        earlier.origin == later.origin,
        earlier.local_handle == later.local_handle,
        earlier.local_inputs == later.local_inputs,
        forall|k: int|
            1 <= k < first_wrong ==> held_input(earlier.remote_inputs, k) == held_input(
                later.remote_inputs,
                k,
            ),
    ensures
        simulate(
            earlier.expected_state(first_wrong - 1),
            inputs_through(later.local_handle, later.local_inputs, later.remote_inputs, frame).skip(
                first_wrong - 1,
            ),
        ) == later.expected_state(frame),
{
    let truth = inputs_through(later.local_handle, later.local_inputs, later.remote_inputs, frame);
    let guess = inputs_through(
        earlier.local_handle,
        earlier.local_inputs,
        earlier.remote_inputs,
        frame,
    );
    assert(guess.take(first_wrong - 1) =~= truth.take(first_wrong - 1));
    assert(guess.take(first_wrong - 1) =~= inputs_through(
        earlier.local_handle,
        earlier.local_inputs,
        earlier.remote_inputs,
        first_wrong - 1,
    ));
    crate::step::rollback_equals_direct_simulation(earlier.origin, guess, truth, first_wrong - 1);
}

/// The confirmed symbols that a buffer of remote slots holds, by frame.
spec fn known_inputs(slots: Seq<InputSlot>) -> Map<int, u8> {
    Map::new(|k: int| 1 <= k < slots.len() && slots[k].confirmed, |k: int| slots[k].symbol)
}

/// Steps, predicts and rolls back for one peer of a two-player session.
pub struct FrameScheduler {
    local_handle: PlayerHandle,
    input_delay: u32,
    max_rollback: u32,
    current_frame: FrameNumber,
    confirmed_frame: FrameNumber,
    /// The earliest simulated frame that was stepped with a remote symbol
    /// other than the one confirmed since.
    first_incorrect: Option<FrameNumber>,
    local: Vec<u8>,
    remote: Vec<InputSlot>,
    state: SimulationState,
    store: SnapshotStore,
    origin: Ghost<SimView>,
}

impl View for FrameScheduler {
    type V = SchedulerView;

    closed spec fn view(&self) -> SchedulerView {
        SchedulerView {
            origin: self.origin@,
            local_handle: self.local_handle as int,
            input_delay: self.input_delay as int,
            max_rollback: self.max_rollback as int,
            current_frame: self.current_frame as int,
            confirmed_frame: self.confirmed_frame as int,
            local_inputs: self.local@,
            remote_inputs: known_inputs(self.remote@),
            state: self.state@,
            snapshots: self.store@,
        }
    }
}

fn pair_inputs(local_handle: PlayerHandle, local: u8, remote: u8) -> (inputs: Vec<u8>)
    ensures
        inputs@ == frame_inputs(local_handle as int, local, remote),
{
    let mut inputs: Vec<u8> = Vec::new();
    if local_handle == 0 {
        inputs.push(local);
        inputs.push(remote);
    } else {
        inputs.push(remote);
        inputs.push(local);
    }
    assert(inputs@ =~= frame_inputs(local_handle as int, local, remote));
    inputs
}

/// Makes sure that the slot of `frame` exists and, unless it is confirmed,
/// holds the symbol of the frame before.
fn hold_last(remote: &mut Vec<InputSlot>, frame: usize)
    requires
        1 <= frame <= old(remote).len(),
    ensures
        final(remote)@.len() == if old(remote)@.len() == frame {
            frame + 1
        } else {
            old(remote)@.len() as int
        },
        forall|k: int|
            0 <= k < old(remote)@.len() && k != frame ==> #[trigger] final(remote)@[k]
                == old(remote)@[k],
        final(remote)@[frame as int] == if frame < old(remote)@.len()
            && old(remote)@[frame as int].confirmed {
            old(remote)@[frame as int]
        } else {
            InputSlot { symbol: old(remote)@[frame - 1].symbol, confirmed: false }
        },
        known_inputs(final(remote)@) == known_inputs(old(remote)@),
{
    let held = InputSlot { symbol: remote[frame - 1].symbol, confirmed: false };
    if remote.len() == frame {
        remote.push(held);
    } else if !remote[frame].confirmed {
        remote.set(frame, held);
    }
    assert(known_inputs(remote@) =~= known_inputs(old(remote)@));
}

impl FrameScheduler {
    /// The number of leading frames that are in order: their remote slots
    /// hold the confirmed or held symbol, and their snapshots are the states
    /// that these symbols lead to.
    spec fn clean_frames(&self) -> int {
        match self.first_incorrect {
            Some(frame) => frame as int,
            None => self.current_frame as int,
        }
    }

    spec fn prefix_ok(&self, upto: int) -> bool {
        let v = self@;
        &&& self.local_handle < NUM_PLAYERS
        &&& v.origin.wf()
        &&& v.origin.players.len() == NUM_PLAYERS
        &&& self.store.wf()
        &&& 1 <= upto <= self.remote@.len()
        &&& upto <= self.local@.len()
        &&& forall|k: int|
            0 <= k < upto ==> (#[trigger] self.remote@[k]).symbol == held_input(v.remote_inputs, k)
        &&& forall|f: FrameNumber|
            #[trigger] v.snapshots.contains_key(f) && f < upto ==> v.snapshots[f]
                == v.expected_state(f as int)
    }

    /// The scheduler's invariant: the buffers cover every simulated frame,
    /// the snapshots of the frames from the retention floor up to the last
    /// simulated one are retained, and the frames before the earliest
    /// contradicted prediction are in order.
    pub closed spec fn wf(&self) -> bool {
        let v = self@;
        &&& self.prefix_ok(self.clean_frames())
        &&& 1 <= self.current_frame
        &&& self.input_delay <= MAX_INPUT_DELAY
        &&& self.local@.len() == self.current_frame + self.input_delay
        &&& self.remote@.len() >= self.current_frame
        &&& self.confirmed_frame < self.clean_frames() <= self.current_frame
        &&& forall|k: int|
            1 <= k <= self.confirmed_frame ==> (#[trigger] self.remote@[k]).confirmed
        &&& forall|f: FrameNumber| #[trigger]
            v.snapshots.contains_key(f) <==> retention_floor(
                v.confirmed_frame,
                v.max_rollback,
            ) <= f < self.current_frame
        &&& self.first_incorrect is None ==> v.state == v.expected_state(self.current_frame - 1)
    }

    /// No confirmed input contradicts what the state was stepped with: the
    /// live state and every retained snapshot are the expected states.
    pub closed spec fn in_sync(&self) -> bool {
        self.first_incorrect is None
    }

    /// What the invariant says of a scheduler.
    pub proof fn wf_facts(&self)
        requires
            self.wf(),
        ensures
            self@.local_handle < NUM_PLAYERS,
            self@.origin.wf(),
            self@.origin.players.len() == NUM_PLAYERS,
            0 <= self@.confirmed_frame < self@.current_frame <= u32::MAX,
            0 <= self@.input_delay <= MAX_INPUT_DELAY,
            0 <= self@.max_rollback <= u32::MAX,
            self@.local_inputs.len() == self@.current_frame + self@.input_delay,
            forall|k: int| 1 <= k <= self@.confirmed_frame ==> self@.remote_inputs.contains_key(k),
            forall|k: int| self@.remote_inputs.contains_key(k) ==> 1 <= k,
            forall|f: FrameNumber|
                self@.snapshots.contains_key(f) <==> retention_floor(
                    self@.confirmed_frame,
                    self@.max_rollback,
                ) <= f < self@.current_frame,
            self.in_sync() ==> self@.state == self@.expected_state(self@.current_frame - 1),
            self.in_sync() ==> forall|f: FrameNumber|
                self@.snapshots.contains_key(f) ==> self@.snapshots[f] == self@.expected_state(
                    f as int,
                ),
    {
        assert forall|k: int| 1 <= k <= self@.confirmed_frame
        implies self@.remote_inputs.contains_key(k) by {
            assert(self.remote@[k].confirmed);
        }
    }

    /// A scheduler at the start of a session: frame 1 is next, the snapshot
    /// of frame 0 is `initial`, and the frames up to `input_delay` carry the
    /// neutral symbol for both players. Fails with `ConfigurationError`
    /// exactly when `initial` has a number of players other than two or
    /// `input_delay` is beyond `MAX_INPUT_DELAY`.
    pub fn new(
        local_handle: PlayerHandle,
        input_delay: u32,
        max_rollback: u32,
        initial: SimulationState,
    ) -> (result: Result<FrameScheduler, SyncError>)
        requires
            local_handle < NUM_PLAYERS,
            initial.wf(),
        ensures
            match result {
                Ok(scheduler) => {
                    &&& initial@.players.len() == NUM_PLAYERS
                    &&& input_delay <= MAX_INPUT_DELAY
                    &&& scheduler.wf()
                    &&& scheduler.in_sync()
                    &&& scheduler@.origin == initial@
                    &&& scheduler@.local_handle == local_handle
                    &&& scheduler@.input_delay == input_delay
                    &&& scheduler@.max_rollback == max_rollback
                    &&& scheduler@.current_frame == 1
                    &&& scheduler@.confirmed_frame == 0
                    &&& scheduler@.local_inputs == Seq::new(
                        (input_delay + 1) as nat,
                        |k: int| INPUT_NEUTRAL,
                    )
                    &&& scheduler@.remote_inputs == Map::new(
                        |k: int| 1 <= k <= input_delay,
                        |k: int| INPUT_NEUTRAL,
                    )
                    &&& scheduler@.state == initial@
                    &&& scheduler@.snapshots == Map::<FrameNumber, SimView>::empty().insert(
                        0,
                        initial@,
                    )
                },
                Err(e) => (initial@.players.len() != NUM_PLAYERS || input_delay > MAX_INPUT_DELAY)
                    && e == (SyncError::ConfigurationError {
                    num_players: initial@.players.len() as usize,
                    input_delay,
                }),
            },
    {
        if initial.players.len() != NUM_PLAYERS || input_delay > MAX_INPUT_DELAY {
            return Err(
                SyncError::ConfigurationError { num_players: initial.players.len(), input_delay },
            );
        }
        let mut local: Vec<u8> = Vec::new();
        let mut remote: Vec<InputSlot> = Vec::new();
        local.push(INPUT_NEUTRAL);
        remote.push(InputSlot { symbol: INPUT_NEUTRAL, confirmed: true });
        while local.len() <= input_delay as usize
            invariant
                1 <= local@.len() <= input_delay + 1,
                remote@.len() == local@.len(),
                forall|k: int| 0 <= k < local@.len() ==> #[trigger] local@[k] == INPUT_NEUTRAL,
                forall|k: int|
                    0 <= k < remote@.len() ==> #[trigger] remote@[k] == (InputSlot {
                        symbol: INPUT_NEUTRAL,
                        confirmed: true,
                    }),
            decreases input_delay + 1 - local@.len(),
        {
            local.push(INPUT_NEUTRAL);
            remote.push(InputSlot { symbol: INPUT_NEUTRAL, confirmed: true });
        }
        let mut store = SnapshotStore::new();
        store.put(0, &initial);
        let scheduler = FrameScheduler {
            local_handle,
            input_delay,
            max_rollback,
            current_frame: 1,
            confirmed_frame: 0,
            first_incorrect: None,
            local,
            remote,
            state: initial,
            store,
            origin: Ghost(initial@),
        };
        proof {
            let v = scheduler@;
            assert(v.local_inputs =~= Seq::new((input_delay + 1) as nat, |k: int| INPUT_NEUTRAL));
            assert(v.remote_inputs =~= Map::new(
                |k: int| 1 <= k <= input_delay,
                |k: int| INPUT_NEUTRAL,
            ));
            assert(inputs_through(v.local_handle, v.local_inputs, v.remote_inputs, 0) =~= Seq::<
                Seq<u8>,
            >::empty());
            assert(v.expected_state(0) == initial@);
            assert forall|k: int| 0 <= k < 1 implies (#[trigger] scheduler.remote@[k]).symbol
                == held_input(v.remote_inputs, k) by {}
        }
        Ok(scheduler)
    }

    /// The frame that the next tick simulates.
    pub fn current_frame(&self) -> (frame: FrameNumber)
        ensures
            frame == self@.current_frame,
    {
        self.current_frame
    }

    /// The highest simulated frame such that the remote input of every frame
    /// up to it was confirmed before the last tick ended.
    pub fn confirmed_frame(&self) -> (frame: FrameNumber)
        ensures
            frame == self@.confirmed_frame,
    {
        self.confirmed_frame
    }

    /// The handle of the player on this side.
    pub fn local_player_handle(&self) -> (handle: PlayerHandle)
        ensures
            handle == self@.local_handle,
    {
        self.local_handle
    }

    /// The handle of the player on the other side.
    pub fn remote_player_handle(&self) -> (handle: PlayerHandle)
        requires
            self.wf(),
        ensures
            handle == 1 - self@.local_handle,
    {
        1 - self.local_handle
    }

    /// The number of frames by which a local input is delayed.
    pub fn input_delay(&self) -> (delay: u32)
        ensures
            delay == self@.input_delay,
    {
        self.input_delay
    }

    /// The live simulation state, for reading. After a tick it is the state
    /// after the last simulated frame with every correction applied.
    pub fn current_confirmed_state(&self) -> (state: &SimulationState)
        ensures
            state@ == self@.state,
    {
        &self.state
    }

    /// Whether the next tick begins with a rollback: a confirmed remote
    /// symbol contradicts what a simulated frame was stepped with.
    pub fn rollback_pending(&self) -> (pending: bool)
        ensures
            pending == !self.in_sync(),
    {
        self.first_incorrect.is_some()
    }

    /// Whether a tick is ruled out because the frame counter is at its end.
    pub fn at_frame_limit(&self) -> (at_limit: bool)
        ensures
            at_limit == (self@.current_frame + self@.input_delay >= u32::MAX),
    {
        self.current_frame as u64 + self.input_delay as u64 >= u32::MAX as u64
    }

    /// A copy of the snapshot of `frame`. Fails with `SnapshotMiss` exactly
    /// when that snapshot is not retained.
    pub fn snapshot(&self, frame: FrameNumber) -> (result: Result<SimulationState, SyncError>)
        requires
            self.wf(),
        ensures
            match result {
                Ok(state) => self@.snapshots.contains_key(frame) && state@
                    == self@.snapshots[frame],
                Err(e) => !self@.snapshots.contains_key(frame) && e == (SyncError::SnapshotMiss {
                    frame,
                }),
            },
    {
        match self.store.get(frame) {
            Ok(state) => Ok(state),
            Err(_) => Err(SyncError::SnapshotMiss { frame }),
        }
    }

    /// A copy of the state after the confirmed frame. It rests on confirmed
    /// inputs alone, so no rollback will ever change it.
    pub fn confirmed_state(&self) -> (state: SimulationState)
        requires
            self.wf(),
        ensures
            self@.snapshots.contains_key(self@.confirmed_frame as u32),
            state@ == self@.snapshots[self@.confirmed_frame as u32],
            state@ == self@.expected_state(self@.confirmed_frame),
    {
        assert(self@.snapshots.contains_key(self.confirmed_frame));
        match self.store.get(self.confirmed_frame) {
            Ok(state) => state,
            Err(_) => {
                assert(false);
                self.state.duplicate()
            },
        }
    }

    /// The confirmed frame and the checksum of the state after it, for the
    /// peer to compare with its own.
    pub fn confirmed_checksum(&self) -> (result: (FrameNumber, u64))
        requires
            self.wf(),
        ensures
            result.0 == self@.confirmed_frame,
            result.1 == self@.expected_state(self@.confirmed_frame).checksum(),
    {
        (self.confirmed_frame, self.confirmed_state().checksum())
    }

    /// Holds the peer's checksum of the state after `frame` against this
    /// side's. Only a frame up to the confirmed frame can be judged: for a
    /// later frame the result is `Ok(false)`, and the check may be made
    /// again later. For a frame up to the confirmed frame the check fails
    /// with `SnapshotMiss` where the snapshot is not retained and with
    /// `DesyncDetected` where the checksums differ, and it gives `Ok(true)`
    /// where they are equal.
    pub fn check_remote_checksum(&self, frame: FrameNumber, checksum: u64) -> (result: Result<
        bool,
        SyncError,
    >)
        requires
            self.wf(),
        ensures
            result == if frame > self@.confirmed_frame {
                Ok::<bool, SyncError>(false)
            } else if !self@.snapshots.contains_key(frame) {
                Err::<bool, SyncError>(SyncError::SnapshotMiss { frame })
            } else if self@.snapshots[frame].checksum() != checksum {
                Err::<bool, SyncError>(SyncError::DesyncDetected { frame })
            } else {
                Ok::<bool, SyncError>(true)
            },
    {
        if frame > self.confirmed_frame {
            return Ok(false);
        }
        match self.store.get(frame) {
            Ok(state) => {
                if state.checksum() != checksum {
                    Err(SyncError::DesyncDetected { frame })
                } else {
                    Ok(true)
                }
            },
            Err(_) => Err(SyncError::SnapshotMiss { frame }),
        }
    }

    /// The remote symbol that frame `frame` is stepped with, and whether it
    /// is confirmed or held.
    pub fn remote_input(&self, frame: FrameNumber) -> (status: InputStatus)
        requires
            self.wf(),
            self.in_sync(),
            frame < self@.current_frame,
        ensures
            status == self@.remote_status(frame as int),
    {
        let slot = self.remote[frame as usize];
        if slot.confirmed && frame >= 1 {
            InputStatus::Confirmed(slot.symbol)
        } else {
            InputStatus::Predicted(slot.symbol)
        }
    }

    /// Takes in a confirmed remote symbol. Idempotent: where the input of
    /// `frame` is confirmed already, and for frame 0, which carries no input,
    /// nothing changes and the result is false. The symbols may come in any
    /// order. The simulation state is not touched; the next tick takes the
    /// new symbol into account. The remote buffer grows to cover `frame`.
    pub fn add_remote_input(&mut self, frame: FrameNumber, symbol: u8) -> (fresh: bool)
        requires
            old(self).wf(),
        ensures
            final(self).wf(),
            fresh == (frame >= 1 && !old(self)@.remote_inputs.contains_key(frame as int)),
            final(self)@ == (SchedulerView {
                remote_inputs: if fresh {
                    old(self)@.remote_inputs.insert(frame as int, symbol)
                } else {
                    old(self)@.remote_inputs
                },
                ..old(self)@
            }),
            final(self).in_sync() == (old(self).in_sync() && !(fresh
                && frame < old(self)@.current_frame
                && symbol != held_input(old(self)@.remote_inputs, frame as int))),
    {
        if frame == 0 {
            return false;
        }
        let index: usize = frame as usize;
        let ghost before = self@;
        let ghost clean = self.clean_frames();
        if index < self.remote.len() {
            let slot = self.remote[index];
            if slot.confirmed {
                return false;
            }
            self.remote.set(index, InputSlot { symbol, confirmed: true });
            if frame < self.current_frame && slot.symbol != symbol {
                match self.first_incorrect {
                    Some(earliest) => {
                        if frame < earliest {
                            self.first_incorrect = Some(frame);
                        }
                    },
                    None => {
                        self.first_incorrect = Some(frame);
                    },
                }
            }
        } else {
            while self.remote.len() < index
                invariant
                    old(self).remote@.len() <= self.remote@.len() <= index,
                    self.remote@.take(old(self).remote@.len() as int) == old(self).remote@,
                    forall|k: int|
                        old(self).remote@.len() <= k < self.remote@.len() ==> !(
                        #[trigger] self.remote@[k]).confirmed,
                    self.local_handle == old(self).local_handle,
                    self.input_delay == old(self).input_delay,
                    self.max_rollback == old(self).max_rollback,
                    self.current_frame == old(self).current_frame,
                    self.confirmed_frame == old(self).confirmed_frame,
                    self.first_incorrect == old(self).first_incorrect,
                    self.local == old(self).local,
                    self.state == old(self).state,
                    self.store == old(self).store,
                    self.origin == old(self).origin,
                decreases index - self.remote@.len(),
            {
                let ghost prior = self.remote@;
                self.remote.push(InputSlot { symbol: INPUT_NEUTRAL, confirmed: false });
                assert(self.remote@.take(old(self).remote@.len() as int) =~= prior.take(
                    old(self).remote@.len() as int,
                ));
            }
            let ghost prior = self.remote@;
            self.remote.push(InputSlot { symbol, confirmed: true });
            assert(self.remote@.take(old(self).remote@.len() as int) =~= prior.take(
                old(self).remote@.len() as int,
            ));
            assert forall|k: int| 0 <= k < old(self).remote@.len()
            implies self.remote@[k] == old(self).remote@[k] by {
                assert(self.remote@.take(old(self).remote@.len() as int)[k] == self.remote@[k]);
            }
        }
        proof {
            let after = self@;
            let wanted = before.remote_inputs.insert(frame as int, symbol);
            assert(after.remote_inputs =~= wanted);
            let new_clean = self.clean_frames();
            assert(new_clean <= clean);
            assert(new_clean <= frame || (new_clean == clean && symbol == held_input(
                before.remote_inputs,
                frame as int,
            )));
            assert forall|k: int| 0 <= k < new_clean implies held_input(after.remote_inputs, k)
                == held_input(before.remote_inputs, k) by {
                if new_clean <= frame {
                    confirmation_keeps_earlier_inputs(
                        before.remote_inputs,
                        frame as int,
                        symbol,
                        k,
                    );
                } else {
                    matching_confirmation_keeps_inputs(
                        before.remote_inputs,
                        frame as int,
                        symbol,
                        k,
                    );
                }
            }
            assert forall|f: int| 0 <= f < new_clean implies after.expected_state(f)
                == before.expected_state(f) by {
                expected_state_depends_on_past(after, before, f);
            }
            if self.first_incorrect is None {
                assert(after.expected_state(self.current_frame - 1) == before.expected_state(
                    self.current_frame - 1,
                ));
            }
        }
        true
    }

    /// Takes in a message from the network. A message of the remote player
    /// is handled as `add_remote_input` handles its frame and symbol; any
    /// other message changes nothing, and the result is false.
    pub fn receive(&mut self, message: InputMessage) -> (fresh: bool)
        requires
            old(self).wf(),
        ensures
            final(self).wf(),
            fresh == (message.sender == 1 - old(self)@.local_handle && message.frame >= 1
                && !old(self)@.remote_inputs.contains_key(message.frame as int)),
            final(self)@ == (SchedulerView {
                remote_inputs: if fresh {
                    old(self)@.remote_inputs.insert(message.frame as int, message.symbol)
                } else {
                    old(self)@.remote_inputs
                },
                ..old(self)@
            }),
            final(self).in_sync() == (old(self).in_sync() && !(fresh
                && message.frame < old(self)@.current_frame
                && message.symbol != held_input(old(self)@.remote_inputs, message.frame as int))),
    {
        if message.sender == 1 - self.local_handle {
            self.add_remote_input(message.frame, message.symbol)
        } else {
            false
        }
    }

    /// Steps the live state through `frame`, which the frames before are in
    /// order for, and stores the snapshot of `frame`.
    fn run_frame(&mut self, frame: FrameNumber)
        requires
            old(self).prefix_ok(frame as int),
            frame < old(self).local@.len(),
            old(self).state@ == old(self)@.expected_state(frame - 1),
        ensures
            final(self).prefix_ok(frame + 1),
            final(self)@ == (SchedulerView {
                state: old(self)@.expected_state(frame as int),
                snapshots: old(self)@.snapshots.insert(
                    frame,
                    old(self)@.expected_state(frame as int),
                ),
                ..old(self)@
            }),
            final(self).first_incorrect == old(self).first_incorrect,
            final(self).remote@.len() >= old(self).remote@.len(),
            final(self).remote@.len() > frame,
            forall|k: int|
                0 <= k < old(self).remote@.len() ==> (#[trigger] final(self).remote@[k]).confirmed
                    == old(self).remote@[k].confirmed,
    {
        let ghost before = self@;
        hold_last(&mut self.remote, frame as usize);
        let inputs = pair_inputs(
            self.local_handle,
            self.local[frame as usize],
            self.remote[frame as usize].symbol,
        );
        proof {
            expected_state_unfolds(before, frame as int);
            expected_state_is_wf(before, frame - 1);
            expected_state_is_wf(before, frame as int);
            assert(old(self).remote@[frame - 1].symbol == held_input(
                before.remote_inputs,
                frame - 1,
            ));
            if frame < old(self).remote@.len() && old(self).remote@[frame as int].confirmed {
                assert(before.remote_inputs.contains_key(frame as int));
            }
            assert(self.remote@[frame as int].symbol == held_input(
                before.remote_inputs,
                frame as int,
            ));
        }
        step(&mut self.state, &inputs);
        self.store.put(frame, &self.state);
        proof {
            let after = self@;
            assert forall|k: int| 0 <= k < frame + 1 implies (#[trigger] self.remote@[k]).symbol
                == held_input(after.remote_inputs, k) by {
                if k < frame {
                    assert(self.remote@[k] == old(self).remote@[k]);
                }
            }
            assert forall|f: FrameNumber| #[trigger]
                after.snapshots.contains_key(f) && f < frame + 1 implies after.snapshots[f]
                == after.expected_state(f as int) by {
                if f != frame {
                    assert(before.snapshots.contains_key(f));
                }
            }
            assert forall|k: int| 0 <= k < old(self).remote@.len() implies (
            #[trigger] self.remote@[k]).confirmed == old(self).remote@[k].confirmed by {
                if k != frame {
                    assert(self.remote@[k] == old(self).remote@[k]);
                }
            }
        }
    }

    /// One tick: simulates the current frame and moves on to the next.
    ///
    /// Before that, where a confirmed remote symbol contradicts what a frame
    /// was stepped with, the snapshot of the frame before the earliest such
    /// frame is restored and the frames from there on are simulated again.
    /// Then `local_symbol` is queued for the frame `input_delay` frames
    /// ahead, the current frame is stepped with the local symbol queued for
    /// it and the remote symbol as confirmed or held, and its snapshot is
    /// stored. The confirmed frame moves up, and the snapshots of frames more
    /// than `max_rollback` older than it are evicted.
    ///
    /// The result is the message that tells the peer of `local_symbol`.
    pub fn tick(&mut self, local_symbol: u8) -> (outgoing: InputMessage)
        requires
            old(self).wf(),
            old(self)@.current_frame + old(self)@.input_delay < u32::MAX,
        ensures
            final(self).wf(),
            final(self).in_sync(),
            old(self)@.ticked(local_symbol, final(self)@),
            outgoing == (InputMessage {
                sender: old(self)@.local_handle as usize,
                frame: (old(self)@.current_frame + old(self)@.input_delay) as u32,
                symbol: local_symbol,
            }),
    {
        let ghost before = self@;
        let current: FrameNumber = self.current_frame;
        match self.first_incorrect {
            Some(first) => {
                assert(self.prefix_ok(first as int));
                assert(self@.snapshots.contains_key((first - 1) as u32));
                match self.store.get(first - 1) {
                    Ok(restored) => {
                        self.state = restored;
                    },
                    Err(_) => {
                        assert(false);
                    },
                }
                let mut frame: FrameNumber = first;
                while frame < current
                    invariant
                        first <= frame <= current,
                        current == self.current_frame,
                        self.prefix_ok(frame as int),
                        self.state@ == self@.expected_state(frame - 1),
                        self@ == (SchedulerView {
                            state: self@.state,
                            snapshots: self@.snapshots,
                            ..before
                        }),
                        self.local@.len() == self.current_frame + self.input_delay,
                        self.remote@.len() >= self.current_frame,
                        self.confirmed_frame < first,
                        forall|k: int|
                            1 <= k <= self.confirmed_frame ==> (
                            #[trigger] self.remote@[k]).confirmed,
                        forall|f: FrameNumber| #[trigger]
                            self@.snapshots.contains_key(f) <==> retention_floor(
                                before.confirmed_frame,
                                before.max_rollback,
                            ) <= f < current,
                    decreases current - frame,
                {
                    let ghost dom_before = self@.snapshots.dom();
                    self.run_frame(frame);
                    assert(self@.snapshots.dom() =~= dom_before);
                    frame += 1;
                }
                self.first_incorrect = None;
            },
            None => {},
        }
        assert(self.wf());
        assert(self@ == (SchedulerView {
            state: self@.state,
            snapshots: self@.snapshots,
            ..before
        }));
        let ghost settled = self@;
        self.local.push(local_symbol);
        proof {
            let queued = self@;
            assert forall|f: int| 0 <= f < current implies queued.expected_state(f)
                == settled.expected_state(f) by {
                expected_state_depends_on_past(queued, settled, f);
            }
        }
        self.run_frame(current);
        self.current_frame = current + 1;
        let mut confirmed: FrameNumber = self.confirmed_frame;
        while confirmed < current && self.remote[(confirmed + 1) as usize].confirmed
            invariant
                before.confirmed_frame <= confirmed <= current,
                self.remote@.len() > current,
                forall|k: int| 1 <= k <= confirmed ==> (#[trigger] self.remote@[k]).confirmed,
            decreases current - confirmed,
        {
            confirmed = confirmed + 1;
        }
        let ghost stepped = self@;
        self.confirmed_frame = confirmed;
        assert(self@ == (SchedulerView { confirmed_frame: confirmed as int, ..stepped }));
        assert(self.prefix_ok(current + 1)) by {
            assert forall|f: FrameNumber| #[trigger]
                self@.snapshots.contains_key(f) && f < current + 1 implies self@.snapshots[f]
                == self@.expected_state(f as int) by {
                assert(stepped.snapshots.contains_key(f));
            }
        }
        if self.confirmed_frame > self.max_rollback {
            let ghost kept = self@.snapshots;
            self.store.evict_before(self.confirmed_frame - self.max_rollback);
            assert forall|f: FrameNumber| #[trigger]
                self@.snapshots.contains_key(f) && f < current + 1 implies self@.snapshots[f]
                == self@.expected_state(f as int) by {
                assert(kept.contains_key(f));
            }
        }
        proof {
            let after = self@;
            assert forall|k: int| 1 <= k <= after.confirmed_frame
            implies after.remote_inputs.contains_key(k) by {
                assert(self.remote@[k].confirmed);
            }
        }
        InputMessage {
            sender: self.local_handle,
            frame: current + self.input_delay,
            symbol: local_symbol,
        }
    }

    /// One tick with the keys that the local player holds: the keys are
    /// encoded, and the tick goes on as `tick` does with their symbol.
    pub fn tick_with_keys(&mut self, keys: Keys) -> (outgoing: InputMessage)
        requires
            old(self).wf(),
            old(self)@.current_frame + old(self)@.input_delay < u32::MAX,
        ensures
            final(self).wf(),
            final(self).in_sync(),
            old(self)@.ticked(encode_spec(keys), final(self)@),
            outgoing == (InputMessage {
                sender: old(self)@.local_handle as usize,
                frame: (old(self)@.current_frame + old(self)@.input_delay) as u32,
                symbol: encode_spec(keys),
            }),
    {
        self.tick(encode(keys))
    }
}

} // verus!
