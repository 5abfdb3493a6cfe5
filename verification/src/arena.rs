//! Projectile records in slots with stable indices.
//!
//! A projectile keeps the index it was spawned at for as long as it lives.
//! Slots of retired projectiles are remembered in a free list and handed out
//! again, last retired first; only when no slot is free does the arena grow.
//! A copy of the arena is a plain copy of both lists.

use vstd::prelude::*;
use crate::checksum::{
    coordinate_value, direction_value, mix, mix_coordinate, mix_direction, mix_spec,
};
use crate::input::Direction;

verus! {

/// A point of the playing field, in fixed-point units.
#[derive(Clone, Copy, Debug, PartialEq, Eq, Structural)]
pub struct Position {
    pub x: i32,
    pub y: i32,
}

/// A projectile in flight.
#[derive(Clone, Copy, Debug, PartialEq, Eq, Structural)]
pub struct Projectile {
    pub position: Position,
    pub move_dir: Direction,
}

/// What an arena holds: the slots by index and the free list, oldest entry
/// first.
pub struct ArenaView {
    pub slots: Seq<Option<Projectile>>,
    pub free: Seq<int>,
}

impl ArenaView {
    /// The free list names each empty slot exactly once and nothing else.
    pub open spec fn wf(self) -> bool {
        &&& forall|i: int|
            0 <= i < self.free.len() ==> 0 <= (#[trigger] self.free[i]) < self.slots.len()
                && self.slots[self.free[i]] is None
        &&& forall|i: int, j: int|
            0 <= i < j < self.free.len() ==> #[trigger] self.free[i] != #[trigger] self.free[j]
        &&& forall|s: int|
            0 <= s < self.slots.len() && (#[trigger] self.slots[s]) is None
                ==> self.free.contains(s)
    }

    /// The arena without any slot.
    pub open spec fn empty() -> ArenaView {
        ArenaView { slots: Seq::empty(), free: Seq::empty() }
    }

    /// The index the next spawned projectile gets: the slot retired last, or
    /// a new slot at the end when none is free.
    pub open spec fn spawn_index(self) -> int {
        if self.free.len() > 0 {
            self.free.last()
        } else {
            self.slots.len() as int
        }
    }

    /// The arena after `projectile` was spawned.
    pub open spec fn spawn(self, projectile: Projectile) -> ArenaView {
        if self.free.len() > 0 {
            ArenaView {
                slots: self.slots.update(self.free.last(), Some(projectile)),
                free: self.free.drop_last(),
            }
        } else {
            ArenaView { slots: self.slots.push(Some(projectile)), free: self.free }
        }
    }

    /// Whether a projectile lives at `index`.
    pub open spec fn is_live(self, index: int) -> bool {
        0 <= index < self.slots.len() && self.slots[index] is Some
    }

    /// The arena after the projectile at `index` was retired.
    pub open spec fn despawn(self, index: int) -> ArenaView {
        ArenaView { slots: self.slots.update(index, None), free: self.free.push(index) }
    }

    /// The arena after the projectile at `index` was replaced by `projectile`.
    pub open spec fn replace(self, index: int, projectile: Projectile) -> ArenaView {
        ArenaView { slots: self.slots.update(index, Some(projectile)), free: self.free }
    }

    /// The checksum `hash` with the first `count` slots folded in: for an
    /// empty slot the value 0, for a live projectile the value 1, its
    /// coordinates and its direction.
    pub open spec fn checksum_slots(self, hash: u64, count: nat) -> u64
        decreases count,
    {
        if count == 0 {
            hash
        } else {
            let before = self.checksum_slots(hash, (count - 1) as nat);
            match self.slots[count - 1] {
                None => mix_spec(before, 0),
                Some(projectile) => mix_spec(
                    mix_spec(
                        mix_spec(mix_spec(before, 1), coordinate_value(projectile.position.x)),
                        coordinate_value(projectile.position.y),
                    ),
                    direction_value(projectile.move_dir),
                ),
            }
        }
    }

    /// The checksum `hash` with the first `count` entries of the free list
    /// folded in.
    pub open spec fn checksum_free(self, hash: u64, count: nat) -> u64
        decreases count,
    {
        if count == 0 {
            hash
        } else {
            mix_spec(self.checksum_free(hash, (count - 1) as nat), self.free[count - 1] as u64)
        }
    }

    /// The checksum `hash` with the whole arena folded in: the slots in
    /// ascending order, then the free list.
    pub open spec fn checksum(self, hash: u64) -> u64 {
        self.checksum_free(self.checksum_slots(hash, self.slots.len()), self.free.len())
    }

    /// Spawning keeps the free list exact, and the new projectile lives at
    /// the announced index while every other slot stays as it was.
    pub proof fn spawn_keeps_wf(self, projectile: Projectile)
        requires
            self.wf(),
        ensures
            self.spawn(projectile).wf(),
            self.spawn(projectile).slots[self.spawn_index()] == Some(projectile),
            !self.is_live(self.spawn_index()),
            forall|i: int|
                0 <= i < self.slots.len() && i != self.spawn_index() ==> self.spawn(
                    projectile,
                ).slots[i] == self.slots[i],
    {
        let after = self.spawn(projectile);
        if self.free.len() > 0 {
            let last = self.free.len() - 1;
            let taken = self.free[last];
            assert(taken < self.slots.len());
            assert forall|s: int|
                0 <= s < after.slots.len() && (#[trigger] after.slots[s]) is None
                implies after.free.contains(s) by {
                assert(self.slots[s] is None);
                assert(self.free.contains(s));
                let i = choose|i: int| 0 <= i < self.free.len() && self.free[i] == s;
                assert(i != last);
                assert(after.free[i] == s);
            }
        } else {
            assert forall|s: int| 0 <= s < self.slots.len() implies self.slots[s] is Some by {
                if self.slots[s] is None {
                    assert(self.free.contains(s));
                }
            }
        }
    }

    /// Retiring a live projectile keeps the free list exact.
    pub proof fn despawn_keeps_wf(self, index: int)
        requires
            self.wf(),
            self.is_live(index),
        ensures
            self.despawn(index).wf(),
    {
        let after = self.despawn(index);
        assert forall|i: int| 0 <= i < after.free.len() implies 0 <= (#[trigger] after.free[i])
            < after.slots.len() && after.slots[after.free[i]] is None by {
            if i < self.free.len() {
                assert(self.free[i] == after.free[i]);
            }
        }
        assert forall|i: int, j: int| 0 <= i < j < after.free.len() implies #[trigger] after.free[i]
            != #[trigger] after.free[j] by {
            assert(after.free[i] == self.free[i]);
            if j < self.free.len() {
                assert(after.free[j] == self.free[j]);
            }
        }
        assert forall|s: int|
            0 <= s < after.slots.len() && (#[trigger] after.slots[s]) is None
            implies after.free.contains(s) by {
            if s == index {
                assert(after.free[self.free.len() as int] == s);
            } else {
                assert(self.slots[s] is None);
                let i = choose|i: int| 0 <= i < self.free.len() && self.free[i] == s;
                assert(after.free[i] == s);
            }
        }
    }

    /// There are no more free entries than slots.
    pub proof fn free_list_fits(self)
        requires
            self.wf(),
        ensures
            self.free.len() <= self.slots.len(),
    {
        let bound = self.slots.len() as int;
        assert(self.free.no_duplicates()) by {
            assert forall|i: int, j: int|
                0 <= i < self.free.len() && 0 <= j < self.free.len() && i != j implies self.free[i]
                != self.free[j] by {
                if i < j {
                    assert(self.free[i] != self.free[j]);
                } else {
                    assert(self.free[j] != self.free[i]);
                }
            }
        }
        let indices = self.free.to_set();
        self.free.unique_seq_to_set();
        let all = vstd::set_lib::set_int_range(0, bound);
        vstd::set_lib::lemma_int_range(0, bound);
        assert(indices.subset_of(all)) by {
            assert forall|k: int| indices.contains(k) implies all.contains(k) by {
                let i = choose|i: int| 0 <= i < self.free.len() && self.free[i] == k;
                assert(0 <= self.free[i] < bound);
            }
        }
        vstd::set_lib::lemma_len_subset(indices, all);
    }

    /// Replacing a live projectile keeps the free list exact.
    pub proof fn replace_keeps_wf(self, index: int, projectile: Projectile)
        requires
            self.wf(),
            self.is_live(index),
        ensures
            self.replace(index, projectile).wf(),
    {
        let after = self.replace(index, projectile);
        assert forall|s: int|
            0 <= s < after.slots.len() && (#[trigger] after.slots[s]) is None
            implies after.free.contains(s) by {
            assert(self.slots[s] is None);
        }
    }
}

/// The projectiles of a simulation.
#[derive(Debug)]
pub struct ProjectileArena {
    slots: Vec<Option<Projectile>>,
    free: Vec<usize>,
}

/// A free list as the indices it names.
spec fn as_indices(free: Seq<usize>) -> Seq<int> {
    free.map_values(|index: usize| index as int)
}

proof fn as_indices_is_injective(a: Seq<usize>, b: Seq<usize>)
    requires
        as_indices(a) == as_indices(b),
    ensures
        a == b,
{
    assert(a.len() == as_indices(a).len());
    assert(b.len() == as_indices(b).len());
    assert forall|i: int| 0 <= i < a.len() implies a[i] == b[i] by {
        assert(as_indices(a)[i] == a[i] as int);
        assert(as_indices(b)[i] == b[i] as int);
    }
    assert(a =~= b);
}

impl View for ProjectileArena {
    type V = ArenaView;

    closed spec fn view(&self) -> ArenaView {
        ArenaView { slots: self.slots@, free: as_indices(self.free@) }
    }
}

impl ProjectileArena {
    /// The free list is exact.
    pub open spec fn wf(&self) -> bool {
        self@.wf()
    }

    /// An arena without any slot.
    pub fn new() -> (arena: ProjectileArena)
        ensures
            arena@ == ArenaView::empty(),
            arena.wf(),
    {
        let arena = ProjectileArena { slots: Vec::new(), free: Vec::new() };
        assert(arena@.free =~= Seq::empty());
        arena
    }

    /// Number of slots, live and free together.
    pub fn slot_count(&self) -> (n: usize)
        ensures
            n == self@.slots.len(),
    {
        self.slots.len()
    }

    /// Number of live projectiles.
    pub fn live_count(&self) -> (n: usize)
        requires
            self.wf(),
        ensures
            n == self@.slots.len() - self@.free.len(),
    {
        proof {
            self@.free_list_fits();
        }
        self.slots.len() - self.free.len()
    }

    /// The projectile at `index`, if one lives there.
    pub fn get(&self, index: usize) -> (p: Option<Projectile>)
        ensures
            p == if index < self@.slots.len() {
                self@.slots[index as int]
            } else {
                None
            },
    {
        if index < self.slots.len() {
            self.slots[index]
        } else {
            None
        }
    }

    /// Stores a new projectile and returns its index: the slot retired last,
    /// or a new slot at the end when none is free.
    pub fn spawn(&mut self, projectile: Projectile) -> (index: usize)
        requires
            old(self).wf(),
        ensures
            final(self).wf(),
            final(self)@ == old(self)@.spawn(projectile),
            index == old(self)@.spawn_index(),
    {
        proof {
            self@.spawn_keeps_wf(projectile);
        }
        match self.free.pop() {
            Some(index) => {
                assert(as_indices(old(self).free@).last() == index as int);
                assert(as_indices(self.free@) =~= as_indices(old(self).free@).drop_last());
                self.slots.set(index, Some(projectile));
                index
            },
            None => {
                let index = self.slots.len();
                self.slots.push(Some(projectile));
                index
            },
        }
    }

    /// Retires the projectile at `index` and returns it. Where no projectile
    /// lives at `index`, nothing changes and nothing is returned.
    pub fn despawn(&mut self, index: usize) -> (removed: Option<Projectile>)
        requires
            old(self).wf(),
        ensures
            final(self).wf(),
            old(self)@.is_live(index as int) ==> removed == old(self)@.slots[index as int]
                && final(self)@ == old(self)@.despawn(index as int),
            !old(self)@.is_live(index as int) ==> removed is None && final(self)@ == old(self)@,
    {
        if index >= self.slots.len() {
            return None;
        }
        let current = self.slots[index];
        match current {
            Some(projectile) => {
                proof {
                    self@.despawn_keeps_wf(index as int);
                }
                self.slots.set(index, None);
                self.free.push(index);
                assert(as_indices(self.free@) =~= as_indices(old(self).free@).push(index as int));
                Some(projectile)
            },
            None => None,
        }
    }

    /// Overwrites the live projectile at `index`. Where no projectile lives
    /// at `index`, nothing changes and the result is false.
    pub fn replace(&mut self, index: usize, projectile: Projectile) -> (done: bool)
        requires
            old(self).wf(),
        ensures
            final(self).wf(),
            done == old(self)@.is_live(index as int),
            done ==> final(self)@ == old(self)@.replace(index as int, projectile),
            !done ==> final(self)@ == old(self)@,
    {
        if index >= self.slots.len() {
            return false;
        }
        let current = self.slots[index];
        match current {
            Some(_) => {
                proof {
                    self@.replace_keeps_wf(index as int, projectile);
                }
                self.slots.set(index, Some(projectile));
                true
            },
            None => false,
        }
    }

    /// Folds the arena into the checksum `hash`.
    pub fn checksum(&self, hash: u64) -> (mixed: u64)
        ensures
            mixed == self@.checksum(hash),
    {
        let mut mixed: u64 = hash;
        let mut i: usize = 0;
        while i < self.slots.len()
            invariant
                i <= self.slots.len(),
                mixed == self@.checksum_slots(hash, i as nat),
            decreases self.slots.len() - i,
        {
            match self.slots[i] {
                None => {
                    mixed = mix(mixed, 0);
                },
                Some(projectile) => {
                    mixed = mix(mixed, 1);
                    mixed = mix_coordinate(mixed, projectile.position.x);
                    mixed = mix_coordinate(mixed, projectile.position.y);
                    mixed = mix_direction(mixed, projectile.move_dir);
                },
            }
            i += 1;
        }
        let ghost start = mixed;
        let mut j: usize = 0;
        while j < self.free.len()
            invariant
                j <= self.free.len(),
                start == self@.checksum_slots(hash, self@.slots.len()),
                mixed == self@.checksum_free(start, j as nat),
            decreases self.free.len() - j,
        {
            assert(self@.free[j as int] == self.free@[j as int] as int);
            mixed = mix(mixed, self.free[j] as u64);
            j += 1;
        }
        assert(self@.free.len() == self.free@.len());
        mixed
    }

    /// An independent copy with the same slots and the same free list.
    pub fn duplicate(&self) -> (copy: ProjectileArena)
        ensures
            copy@ == self@,
    {
        let mut slots: Vec<Option<Projectile>> = Vec::new();
        let mut i: usize = 0;
        while i < self.slots.len()
            invariant
                i <= self.slots.len(),
                slots@ == self.slots@.take(i as int),
            decreases self.slots.len() - i,
        {
            slots.push(self.slots[i]);
            i += 1;
        }
        let mut free: Vec<usize> = Vec::new();
        let mut j: usize = 0;
        while j < self.free.len()
            invariant
                j <= self.free.len(),
                free@ == self.free@.take(j as int),
            decreases self.free.len() - j,
        {
            free.push(self.free[j]);
            j += 1;
        }
        assert(slots@ == self.slots@);
        assert(free@ == self.free@);
        ProjectileArena { slots, free }
    }

    /// Whether two arenas hold the same slots and the same free list.
    pub fn same_as(&self, other: &ProjectileArena) -> (same: bool)
        ensures
            same == (self@ == other@),
    {
        if self.slots.len() != other.slots.len() || self.free.len() != other.free.len() {
            assert(self@.free.len() == self.free@.len());
            assert(other@.free.len() == other.free@.len());
            return false;
        }
        let mut i: usize = 0;
        while i < self.slots.len()
            invariant
                i <= self.slots.len(),
                self.slots.len() == other.slots.len(),
                self.slots@.take(i as int) == other.slots@.take(i as int),
            decreases self.slots.len() - i,
        {
            if self.slots[i] != other.slots[i] {
                return false;
            }
            assert(self.slots@.take(i + 1) == self.slots@.take(i as int).push(
                self.slots@[i as int],
            ));
            assert(other.slots@.take(i + 1) == other.slots@.take(i as int).push(
                other.slots@[i as int],
            ));
            i += 1;
        }
        assert(self.slots@ == self.slots@.take(self.slots.len() as int));
        assert(other.slots@ == other.slots@.take(other.slots.len() as int));
        let mut j: usize = 0;
        while j < self.free.len()
            invariant
                j <= self.free.len(),
                self.free.len() == other.free.len(),
                self.free@.take(j as int) == other.free@.take(j as int),
            decreases self.free.len() - j,
        {
            if self.free[j] != other.free[j] {
                proof {
                    if self@ == other@ {
                        as_indices_is_injective(self.free@, other.free@);
                    }
                }
                return false;
            }
            assert(self.free@.take(j + 1) == self.free@.take(j as int).push(self.free@[j as int]));
            assert(other.free@.take(j + 1) == other.free@.take(j as int).push(
                other.free@[j as int],
            ));
            j += 1;
        }
        assert(self.free@ == self.free@.take(self.free.len() as int));
        assert(other.free@ == other.free@.take(other.free.len() as int));
        true
    }
}

} // verus!
