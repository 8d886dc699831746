//! The snapshots of one session: machine states kept at chosen cycles, so
//! that an earlier cycle is reached by replaying from the nearest state below
//! it and not from the start.
//!
//! A store keeps its snapshots in ascending order of cycle, at most one per
//! cycle, and never more than its limit. The first is the anchor, the state
//! at cycle 0: it is never given up, so every cycle stays within reach. When
//! the store is full, the snapshot with the lowest cycle above the anchor
//! makes room.

use vstd::prelude::*;

verus! {

/// A machine state and the cycle at which it was taken. The store does not
/// look into the state.
pub struct Snapshot<M> {
    pub cycle: u64,
    pub state: M,
}

/// The snapshots of one session.
pub struct SnapshotStore<M> {
    snapshots: Vec<Snapshot<M>>,
    limit: usize,
}

/// Whether the cycles of `snapshots` strictly ascend.
pub open spec fn ascending<M>(snapshots: Seq<Snapshot<M>>) -> bool {
    forall|i: int, j: int|
        0 <= i < j < snapshots.len() ==> (#[trigger] snapshots[i]).cycle < (
        #[trigger] snapshots[j]).cycle
}

/// Whether `snapshots` holds one taken at `cycle`.
pub open spec fn holds<M>(snapshots: Seq<Snapshot<M>>, cycle: u64) -> bool {
    exists|i: int| 0 <= i < snapshots.len() && (#[trigger] snapshots[i]).cycle == cycle
}

/// The index of the last snapshot that is not above `cycle`, or -1 where
/// every snapshot is above it.
pub open spec fn floor<M>(snapshots: Seq<Snapshot<M>>, cycle: u64) -> int
    decreases snapshots.len(),
{
    if snapshots.len() == 0 {
        -1
    } else if snapshots.last().cycle <= cycle {
        snapshots.len() - 1
    } else {
        floor(snapshots.drop_last(), cycle)
    }
}

/// The number of snapshots below `cycle`.
pub open spec fn below<M>(snapshots: Seq<Snapshot<M>>, cycle: u64) -> int
    decreases snapshots.len(),
{
    if snapshots.len() == 0 {
        0
    } else {
        below(snapshots.drop_last(), cycle) + if snapshots.last().cycle < cycle {
            1int
        } else {
            0int
        }
    }
}

/// What a store holds after `snapshot` was offered to it: the same where it
/// has one at that cycle already; else the snapshot in its place by cycle,
/// and, where that is one more than `limit`, the one behind the anchor gone.
pub open spec fn offered<M>(snapshots: Seq<Snapshot<M>>, limit: int, snapshot: Snapshot<M>) -> Seq<
    Snapshot<M>,
> {
    if holds(snapshots, snapshot.cycle) {
        snapshots
    } else {
        let grown = snapshots.insert(below(snapshots, snapshot.cycle), snapshot);
        if grown.len() > limit {
            grown.remove(1)
        } else {
            grown
        }
    }
}

/// In an ascending list, the snapshots below a cycle are those before the
/// first that is not.
pub proof fn lemma_below_is_split<M>(snapshots: Seq<Snapshot<M>>, cycle: u64, at: int)
    requires
        0 <= at <= snapshots.len(),
        forall|i: int| 0 <= i < at ==> (#[trigger] snapshots[i]).cycle < cycle,
        forall|i: int| at <= i < snapshots.len() ==> (#[trigger] snapshots[i]).cycle >= cycle,
    ensures
        below(snapshots, cycle) == at,
    decreases snapshots.len(),
{
    if snapshots.len() > 0 {
        let rest = snapshots.drop_last();
        if at == snapshots.len() {
            lemma_below_is_split(rest, cycle, at - 1);
        } else {
            lemma_below_is_split(rest, cycle, at);
        }
    }
}

/// The snapshot at `floor` is the greatest that is not above the cycle.
pub proof fn lemma_floor_is_greatest<M>(snapshots: Seq<Snapshot<M>>, cycle: u64)
    requires
        ascending(snapshots),
    ensures
        -1 <= floor(snapshots, cycle) < snapshots.len(),
        floor(snapshots, cycle) >= 0 ==> snapshots[floor(snapshots, cycle)].cycle <= cycle,
        forall|i: int|
            floor(snapshots, cycle) < i < snapshots.len() ==> (#[trigger] snapshots[i]).cycle
                > cycle,
        forall|i: int|
            0 <= i <= floor(snapshots, cycle) ==> (#[trigger] snapshots[i]).cycle <= cycle,
    decreases snapshots.len(),
{
    if snapshots.len() > 0 && snapshots.last().cycle > cycle {
        let rest = snapshots.drop_last();
        lemma_floor_is_greatest(rest, cycle);
        assert forall|i: int| floor(snapshots, cycle) < i < snapshots.len() implies (
        #[trigger] snapshots[i]).cycle > cycle by {
            if i < rest.len() {
                assert(rest[i].cycle > cycle);
            }
        }
        assert forall|i: int| 0 <= i <= floor(snapshots, cycle) implies (
        #[trigger] snapshots[i]).cycle <= cycle by {
            assert(rest[i].cycle <= cycle);
        }
    }
}

impl<M> View for SnapshotStore<M> {
    type V = Seq<Snapshot<M>>;

    closed spec fn view(&self) -> Seq<Snapshot<M>> {
        self.snapshots@
    }
}

impl<M> SnapshotStore<M> {
    /// The greatest number of snapshots that the store keeps.
    pub closed spec fn spec_limit(&self) -> int {
        self.limit as int
    }

    /// The invariant of a store: it starts with the anchor, its cycles
    /// strictly ascend, and it holds no more than its limit, which is at
    /// least two.
    pub open spec fn well_formed(&self) -> bool {
        &&& 2 <= self.spec_limit()
        &&& 1 <= self@.len() <= self.spec_limit()
        &&& self@[0].cycle == 0
        &&& ascending(self@)
    }

    /// A store that holds the anchor alone and keeps up to `limit` snapshots.
    /// A limit below two counts as two.
    pub fn new(genesis: M, limit: usize) -> (store: SnapshotStore<M>)
        ensures
            store.well_formed(),
            store.spec_limit() == if limit < 2 { 2 } else { limit as int },
            store@ == seq![(Snapshot { cycle: 0, state: genesis })],
    {
        let mut snapshots: Vec<Snapshot<M>> = Vec::new();
        snapshots.push(Snapshot { cycle: 0, state: genesis });
        let limit: usize = if limit < 2 { 2 } else { limit };
        let store = SnapshotStore { snapshots, limit };
        assert(store@ =~= seq![(Snapshot { cycle: 0, state: genesis })]);
        store
    }

    /// The greatest number of snapshots that the store keeps.
    pub fn limit(&self) -> (limit: usize)
        ensures
            limit == self.spec_limit(),
    {
        self.limit
    }

    /// The number of snapshots in the store.
    pub fn len(&self) -> (count: usize)
        ensures
            count == self@.len(),
    {
        self.snapshots.len()
    }

    /// The snapshot at `index`, counted in ascending order of cycle, if the
    /// store has that many.
    pub fn get(&self, index: usize) -> (snapshot: Option<&Snapshot<M>>)
        ensures
            snapshot is Some <==> index < self@.len(),
            snapshot matches Some(found) ==> *found == self@[index as int],
    {
        if index < self.snapshots.len() {
            Some(&self.snapshots[index])
        } else {
            None
        }
    }

    /// Whether the store holds a snapshot taken at `cycle`.
    pub fn contains(&self, cycle: u64) -> (found: bool)
        ensures
            found == holds(self@, cycle),
    {
        let mut i: usize = 0;
        while i < self.snapshots.len()
            invariant
                i <= self.snapshots@.len(),
                forall|j: int| 0 <= j < i ==> (#[trigger] self.snapshots@[j]).cycle != cycle,
            decreases self.snapshots@.len() - i,
        {
            if self.snapshots[i].cycle == cycle {
                return true;
            }
            i += 1;
        }
        false
    }

    /// The snapshot to replay from in order to reach `cycle`: the one with
    /// the greatest cycle that is not above `cycle`.
    pub fn nearest(&self, cycle: u64) -> (snapshot: &Snapshot<M>)
        requires
            self.well_formed(),
        ensures
            0 <= floor(self@, cycle) < self@.len(),
            *snapshot == self@[floor(self@, cycle)],
            snapshot.cycle <= cycle,
    {
        let mut i: usize = self.snapshots.len();
        proof {
            lemma_floor_is_greatest(self@, cycle);
            assert(self@.subrange(0, i as int) =~= self@);
        }
        while i > 1
            invariant
                1 <= i <= self.snapshots@.len(),
                self.well_formed(),
                floor(self@, cycle) == floor(self@.subrange(0, i as int), cycle),
            decreases i,
        {
            i -= 1;
            if self.snapshots[i].cycle <= cycle {
                proof {
                    lemma_floor_is_greatest(self@, cycle);
                }
                return &self.snapshots[i];
            }
            assert(self@.subrange(0, i + 1).drop_last() =~= self@.subrange(0, i as int));
        }
        proof {
            assert(self@.subrange(0, 1).last().cycle == 0);
        }
        &self.snapshots[0]
    }

    /// Offers the store the state of the machine at `cycle`. Where it has a
    /// snapshot at that cycle already, it stays as it is. Else the snapshot
    /// takes its place by cycle, and where that puts the store over its
    /// limit, the snapshot behind the anchor is given up.
    pub fn insert(&mut self, cycle: u64, state: M)
        requires
            old(self).well_formed(),
        ensures
            final(self).well_formed(),
            final(self).spec_limit() == old(self).spec_limit(),
            final(self)@ == offered(old(self)@, old(self).spec_limit(), Snapshot { cycle, state }),
    {
        let mut at: usize = 0;
        while at < self.snapshots.len() && self.snapshots[at].cycle < cycle
            invariant
                at <= self.snapshots@.len(),
                self.well_formed(),
                *self == *old(self),
                forall|j: int| 0 <= j < at ==> (#[trigger] self.snapshots@[j]).cycle < cycle,
            decreases self.snapshots@.len() - at,
        {
            at += 1;
        }
        if at < self.snapshots.len() && self.snapshots[at].cycle == cycle {
            return ;
        }
        proof {
            assert forall|j: int| at <= j < self@.len() implies (#[trigger] self@[j]).cycle
                > cycle by {
                if j > at {
                    assert(self@[at as int].cycle < self@[j].cycle);
                }
            }
            lemma_below_is_split(self@, cycle, at as int);
            assert(!holds(self@, cycle));
            assert(at > 0);
        }
        self.snapshots.insert(at, Snapshot { cycle, state });
        if self.snapshots.len() > self.limit {
            self.snapshots.remove(1);
        }
    }
}

/// Whatever is offered to a store, the anchor stays: every cycle can still
/// be reached by replaying from a snapshot that is not above it.
pub proof fn lemma_every_cycle_in_reach<M>(
    snapshots: Seq<Snapshot<M>>,
    limit: int,
    snapshot: Snapshot<M>,
    cycle: u64,
)
    requires
        limit >= 2,
        1 <= snapshots.len() <= limit,
        snapshots[0].cycle == 0,
        ascending(snapshots),
    ensures
        offered(snapshots, limit, snapshot)[0].cycle == 0,
        ascending(offered(snapshots, limit, snapshot)),
        0 <= floor(offered(snapshots, limit, snapshot), cycle),
        offered(snapshots, limit, snapshot)[floor(offered(snapshots, limit, snapshot), cycle)].cycle
            <= cycle,
{
    let after = offered(snapshots, limit, snapshot);
    if !holds(snapshots, snapshot.cycle) {
        let at = below(snapshots, snapshot.cycle);
        lemma_below_bounds(snapshots, snapshot.cycle);
        assert(snapshots[0].cycle != snapshot.cycle);
        assert(at >= 1);
    }
    lemma_floor_is_greatest(after, cycle);
    if floor(after, cycle) < 0 {
        assert(after[0].cycle > cycle);
    }
}

/// In an ascending list, the snapshots below a cycle come first and the
/// others after them.
pub proof fn lemma_below_bounds<M>(snapshots: Seq<Snapshot<M>>, cycle: u64)
    requires
        ascending(snapshots),
    ensures
        0 <= below(snapshots, cycle) <= snapshots.len(),
        forall|i: int| 0 <= i < below(snapshots, cycle) ==> (#[trigger] snapshots[i]).cycle < cycle,
        forall|i: int|
            below(snapshots, cycle) <= i < snapshots.len() ==> (#[trigger] snapshots[i]).cycle
                >= cycle,
    decreases snapshots.len(),
{
    if snapshots.len() > 0 {
        let rest = snapshots.drop_last();
        lemma_below_bounds(rest, cycle);
        let count = below(rest, cycle);
        assert forall|i: int| 0 <= i < below(snapshots, cycle) implies (
        #[trigger] snapshots[i]).cycle < cycle by {
            if i < rest.len() {
                if i >= count {
                    assert(snapshots.last().cycle < cycle);
                    assert(snapshots[i].cycle < snapshots[snapshots.len() - 1].cycle);
                } else {
                    assert(rest[i].cycle < cycle);
                }
            }
        }
        assert forall|i: int| below(snapshots, cycle) <= i < snapshots.len() implies (
        #[trigger] snapshots[i]).cycle >= cycle by {
            if i < rest.len() {
                assert(rest[i].cycle >= cycle);
            }
        }
    }
}

} // verus!
