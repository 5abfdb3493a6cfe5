//! The snapshot store: copies of the simulation state, keyed by frame.
//!
//! A snapshot is an independent copy of the state as it was after a frame.
//! Storing a frame again replaces its snapshot. Nothing leaves the store but
//! through `evict_before`.

use vstd::prelude::*;
use crate::state::{FrameNumber, SimView, SimulationState};

verus! {

/// A copy of the simulation state, tagged with the frame it was taken after.
#[derive(Debug)]
pub struct Snapshot {
    pub frame: FrameNumber,
    pub state: SimulationState,
}

/// The failure of a lookup: no snapshot of `frame` is in the store, because
/// none was ever stored or because it was evicted.
#[derive(Clone, Copy, Debug, PartialEq, Eq, Structural)]
pub struct NotFound {
    pub frame: FrameNumber,
}

/// Snapshots by frame.
#[derive(Debug)]
pub struct SnapshotStore {
    entries: Vec<Snapshot>,
}

/// Whether one of `entries` is tagged with `frame`.
spec fn holds(entries: Seq<Snapshot>, frame: FrameNumber) -> bool {
    exists|i: int| 0 <= i < entries.len() && (#[trigger] entries[i]).frame == frame
}

/// An index at which `entries` holds a snapshot of `frame`.
spec fn index_of(entries: Seq<Snapshot>, frame: FrameNumber) -> int {
    choose|i: int| 0 <= i < entries.len() && (#[trigger] entries[i]).frame == frame
}

/// No two of `entries` are tagged with the same frame.
spec fn distinct_frames(entries: Seq<Snapshot>) -> bool {
    forall|i: int, j: int|
        0 <= i < j < entries.len() ==> (#[trigger] entries[i]).frame != (
        #[trigger] entries[j]).frame
}

/// The map from frames to states that `entries` stand for.
spec fn entries_view(entries: Seq<Snapshot>) -> Map<FrameNumber, SimView> {
    Map::new(
        |frame: FrameNumber| holds(entries, frame),
        |frame: FrameNumber| entries[index_of(entries, frame)].state@,
    )
}

proof fn entry_is_found(entries: Seq<Snapshot>, i: int)
    requires
        distinct_frames(entries),
        0 <= i < entries.len(),
    ensures
        holds(entries, entries[i].frame),
        index_of(entries, entries[i].frame) == i,
        entries_view(entries).contains_key(entries[i].frame),
        entries_view(entries)[entries[i].frame] == entries[i].state@,
{
    let frame = entries[i].frame;
    let found = index_of(entries, frame);
    assert(0 <= found < entries.len() && entries[found].frame == frame);
    if found < i {
        assert(entries[found].frame != entries[i].frame);
    } else if i < found {
        assert(entries[i].frame != entries[found].frame);
    }
}

proof fn view_has_len(entries: Seq<Snapshot>)
    requires
        distinct_frames(entries),
    ensures
        entries_view(entries).dom().finite(),
        entries_view(entries).dom().len() == entries.len(),
    decreases entries.len(),
{
    if entries.len() == 0 {
        assert(entries_view(entries).dom() =~= Set::<FrameNumber>::empty());
    } else {
        let rest = entries.drop_last();
        let last = entries.last();
        assert forall|i: int, j: int| 0 <= i < j < rest.len()
        implies (#[trigger] rest[i]).frame != (#[trigger] rest[j]).frame by {
            assert(rest[i] == entries[i]);
            assert(rest[j] == entries[j]);
        }
        view_has_len(rest);
        if holds(rest, last.frame) {
            let i = index_of(rest, last.frame);
            assert(entries[i].frame == rest[i].frame);
            assert(entries[i].frame != entries[entries.len() - 1].frame);
        }
        assert forall|f: FrameNumber| holds(entries, f) == (holds(rest, f) || f == last.frame) by {
            if holds(entries, f) {
                let i = index_of(entries, f);
                if i < rest.len() {
                    assert(rest[i].frame == f);
                }
            }
            if holds(rest, f) {
                let i = index_of(rest, f);
                assert(entries[i].frame == f);
            }
            if f == last.frame {
                assert(entries[entries.len() - 1].frame == f);
            }
        }
        assert(entries_view(entries).dom() =~= entries_view(rest).dom().insert(last.frame));
    }
}

/// The round trip through the store: after a state was stored for a frame,
/// a lookup of that frame finds this state, whatever the store held before,
/// and the snapshots of all other frames are as they were.
pub proof fn stored_snapshot_is_returned(
    store: Map<FrameNumber, SimView>,
    frame: FrameNumber,
    state: SimView,
)
    ensures
        store.insert(frame, state).contains_key(frame),
        store.insert(frame, state)[frame] == state,
        forall|other: FrameNumber|
            other != frame ==> store.insert(frame, state).contains_key(other) == store.contains_key(
                other,
            ),
        forall|other: FrameNumber|
            other != frame && store.contains_key(other) ==> store.insert(frame, state)[other]
                == store[other],
{
}

impl View for SnapshotStore {
    type V = Map<FrameNumber, SimView>;

    closed spec fn view(&self) -> Map<FrameNumber, SimView> {
        entries_view(self.entries@)
    }
}

impl SnapshotStore {
    /// No frame is stored twice.
    pub closed spec fn wf(&self) -> bool {
        distinct_frames(self.entries@)
    }

    /// A store without snapshots.
    pub fn new() -> (store: SnapshotStore)
        ensures
            store.wf(),
            store@ == Map::<FrameNumber, SimView>::empty(),
    {
        let store = SnapshotStore { entries: Vec::new() };
        assert(store@ =~= Map::<FrameNumber, SimView>::empty());
        store
    }

    /// The number of snapshots in the store.
    pub fn len(&self) -> (n: usize)
        requires
            self.wf(),
        ensures
            self@.dom().finite(),
            n == self@.len(),
    {
        proof {
            view_has_len(self.entries@);
        }
        self.entries.len()
    }

    /// Whether the store holds no snapshot.
    pub fn is_empty(&self) -> (empty: bool)
        requires
            self.wf(),
        ensures
            self@.dom().finite(),
            empty == (self@.len() == 0),
    {
        self.len() == 0
    }

    fn position(&self, frame: FrameNumber) -> (found: Option<usize>)
        requires
            self.wf(),
        ensures
            match found {
                Some(i) => i < self.entries@.len() && self.entries@[i as int].frame == frame
                    && self@.contains_key(frame) && self@[frame] == self.entries@[i as int].state@,
                None => !self@.contains_key(frame),
            },
    {
        let mut i: usize = 0;
        while i < self.entries.len()
            invariant
                i <= self.entries.len(),
                self.wf(),
                forall|j: int| 0 <= j < i ==> (#[trigger] self.entries@[j]).frame != frame,
            decreases self.entries.len() - i,
        {
            if self.entries[i].frame == frame {
                proof {
                    entry_is_found(self.entries@, i as int);
                }
                return Some(i);
            }
            i += 1;
        }
        None
    }

    /// Whether a snapshot of `frame` is in the store.
    pub fn contains(&self, frame: FrameNumber) -> (found: bool)
        requires
            self.wf(),
        ensures
            found == self@.contains_key(frame),
    {
        self.position(frame).is_some()
    }

    /// Stores a copy of `state` as the snapshot of `frame`, in place of the
    /// one stored for that frame before, if any. The copy is independent:
    /// what happens to `state` afterwards does not reach it.
    pub fn put(&mut self, frame: FrameNumber, state: &SimulationState)
        requires
            old(self).wf(),
        ensures
            final(self).wf(),
            final(self)@ == old(self)@.insert(frame, state@),
    {
        let snapshot = Snapshot { frame, state: state.duplicate() };
        let ghost before = self.entries@;
        match self.position(frame) {
            Some(i) => {
                self.entries.set(i, snapshot);
                let ghost after = self.entries@;
                assert(distinct_frames(after)) by {
                    assert forall|a: int, b: int| 0 <= a < b < after.len() implies (
                    #[trigger] after[a]).frame != (#[trigger] after[b]).frame by {
                        assert(after[a].frame == before[a].frame);
                        assert(after[b].frame == before[b].frame);
                    }
                }
                assert(self@ =~= old(self)@.insert(frame, state@)) by {
                    assert forall|f: FrameNumber| holds(after, f) == (holds(before, f) || f
                        == frame) by {
                        if holds(after, f) {
                            let k = index_of(after, f);
                            assert(before[k].frame == f);
                        }
                        if holds(before, f) {
                            let k = index_of(before, f);
                            assert(after[k].frame == f);
                        }
                        if f == frame {
                            assert(after[i as int].frame == f);
                        }
                    }
                    assert forall|f: FrameNumber| holds(after, f) implies entries_view(after)[f]
                        == old(self)@.insert(frame, state@)[f] by {
                        let k = index_of(after, f);
                        entry_is_found(after, k);
                        assert(before[k].frame == f);
                        entry_is_found(before, k);
                    }
                }
            },
            None => {
                self.entries.push(snapshot);
                let ghost after = self.entries@;
                assert(distinct_frames(after)) by {
                    assert forall|a: int, b: int| 0 <= a < b < after.len() implies (
                    #[trigger] after[a]).frame != (#[trigger] after[b]).frame by {
                        assert(after[a] == before[a]);
                        if b < before.len() {
                            assert(after[b] == before[b]);
                        } else {
                            assert(holds(before, before[a].frame));
                        }
                    }
                }
                assert(self@ =~= old(self)@.insert(frame, state@)) by {
                    assert forall|f: FrameNumber| holds(after, f) == (holds(before, f) || f
                        == frame) by {
                        if holds(after, f) {
                            let k = index_of(after, f);
                            if k < before.len() {
                                assert(before[k].frame == f);
                            }
                        }
                        if holds(before, f) {
                            let k = index_of(before, f);
                            assert(after[k].frame == f);
                        }
                        if f == frame {
                            assert(after[before.len() as int].frame == f);
                        }
                    }
                    assert forall|f: FrameNumber| holds(after, f) implies entries_view(after)[f]
                        == old(self)@.insert(frame, state@)[f] by {
                        let k = index_of(after, f);
                        entry_is_found(after, k);
                        if k < before.len() {
                            assert(before[k] == after[k]);
                            entry_is_found(before, k);
                        }
                    }
                }
            },
        }
    }

    /// A copy of the snapshot of `frame`. Fails with `NotFound` exactly when
    /// the store holds no snapshot of `frame`.
    pub fn get(&self, frame: FrameNumber) -> (result: Result<SimulationState, NotFound>)
        requires
            self.wf(),
        ensures
            match result {
                Ok(state) => self@.contains_key(frame) && state@ == self@[frame],
                Err(e) => !self@.contains_key(frame) && e.frame == frame,
            },
    {
        match self.position(frame) {
            Some(i) => Ok(self.entries[i].state.duplicate()),
            None => Err(NotFound { frame }),
        }
    }

    /// Removes every snapshot of a frame strictly older than `frame` and
    /// keeps all others.
    pub fn evict_before(&mut self, frame: FrameNumber)
        requires
            old(self).wf(),
        ensures
            final(self).wf(),
            final(self)@ == old(self)@.restrict(Set::new(|f: FrameNumber| f >= frame)),
    {
        let ghost before = self.entries@;
        let mut kept: Vec<Snapshot> = Vec::new();
        while self.entries.len() > 0
            invariant
                distinct_frames(before),
                self.entries@ == before.take(self.entries@.len() as int),
                self.entries@.len() <= before.len(),
                distinct_frames(kept@),
                forall|j: int|
                    0 <= j < kept@.len() ==> (#[trigger] kept@[j]).frame >= frame && exists|i: int|
                        self.entries@.len() <= i < before.len() && before[i] == kept@[j],
                forall|i: int|
                    self.entries@.len() <= i < before.len() && (#[trigger] before[i]).frame >= frame
                        ==> exists|j: int| 0 <= j < kept@.len() && kept@[j] == before[i],
            decreases self.entries@.len(),
        {
            let ghost rest = self.entries@;
            let ghost kept_before = kept@;
            let last = self.entries.pop();
            match last {
                Some(snapshot) => {
                    let ghost n = rest.len() - 1;
                    assert(snapshot == before[n]);
                    assert(self.entries@ =~= before.take(n));
                    if snapshot.frame >= frame {
                        kept.push(snapshot);
                        assert(distinct_frames(kept@)) by {
                            assert forall|a: int, b: int| 0 <= a < b < kept@.len() implies (
                            #[trigger] kept@[a]).frame != (#[trigger] kept@[b]).frame by {
                                assert(kept@[a] == kept_before[a]);
                                if b < kept_before.len() {
                                    assert(kept@[b] == kept_before[b]);
                                } else {
                                    let i = choose|i: int|
                                        rest.len() <= i < before.len() && before[i]
                                            == kept_before[a];
                                    assert(before[n].frame != before[i].frame);
                                }
                            }
                        }
                        assert forall|j: int| 0 <= j < kept@.len() implies (
                        #[trigger] kept@[j]).frame >= frame && exists|i: int|
                            self.entries@.len() <= i < before.len() && before[i] == kept@[j] by {
                            if j < kept_before.len() {
                                assert(kept@[j] == kept_before[j]);
                                let i = choose|i: int|
                                    rest.len() <= i < before.len() && before[i] == kept_before[j];
                                assert(self.entries@.len() <= i < before.len() && before[i]
                                    == kept@[j]);
                            } else {
                                assert(before[n] == kept@[j]);
                            }
                        }
                        assert forall|i: int|
                            self.entries@.len() <= i < before.len() && (
                            #[trigger] before[i]).frame >= frame implies exists|j: int|
                            0 <= j < kept@.len() && kept@[j] == before[i] by {
                            if i == n {
                                assert(kept@[kept_before.len() as int] == before[i]);
                            } else {
                                let j = choose|j: int|
                                    0 <= j < kept_before.len() && kept_before[j] == before[i];
                                assert(kept@[j] == before[i]);
                            }
                        }
                    } else {
                        assert forall|j: int| 0 <= j < kept@.len() implies (
                        #[trigger] kept@[j]).frame >= frame && exists|i: int|
                            self.entries@.len() <= i < before.len() && before[i] == kept@[j] by {
                            let i = choose|i: int|
                                rest.len() <= i < before.len() && before[i] == kept_before[j];
                            assert(self.entries@.len() <= i < before.len()
                                && before[i] == kept@[j]);
                        }
                    }
                },
                None => {},
            }
        }
        self.entries = kept;
        let ghost after = self.entries@;
        let ghost wanted = old(self)@.restrict(Set::new(|f: FrameNumber| f >= frame));
        assert(self@ =~= wanted) by {
            assert forall|f: FrameNumber| holds(after, f) == (holds(before, f) && f >= frame) by {
                if holds(after, f) {
                    let j = index_of(after, f);
                    let i = choose|i: int| 0 <= i < before.len() && before[i] == after[j];
                    assert(before[i].frame == f);
                }
                if holds(before, f) && f >= frame {
                    let i = index_of(before, f);
                    let j = choose|j: int| 0 <= j < after.len() && after[j] == before[i];
                    assert(after[j].frame == f);
                }
            }
            assert forall|f: FrameNumber| holds(after, f) implies entries_view(after)[f]
                == wanted[f] by {
                let j = index_of(after, f);
                entry_is_found(after, j);
                let i = choose|i: int| 0 <= i < before.len() && before[i] == after[j];
                entry_is_found(before, i);
            }
        }
    }
}

} // verus!
