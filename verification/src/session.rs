//! One session: a machine bound to an identifier, the cycle it stands at,
//! and its snapshots.
//!
//! The session does not run its machine. It says from which state a cycle is
//! best reached and by how many cycles of replay, and it takes the machine
//! back once the caller has brought it there. Until a machine is committed
//! the session stays at the cycle it was at, so an operation that is given
//! up midway leaves no trace.

use vstd::prelude::*;
use crate::snapshot::{floor, lemma_floor_is_greatest, offered, Snapshot, SnapshotStore};

verus! {

/// Where to start from, and how far to go, to bring a machine to a cycle.
#[derive(Clone, Copy, Debug, PartialEq, Eq, Structural)]
pub struct Route {
    /// The cycle of the state to start from.
    pub start: u64,
    /// Whether that state is the session's machine; else it is the snapshot
    /// taken at `start`.
    pub live: bool,
    /// The number of cycles to run from there.
    pub steps: u64,
}

/// A machine bound to an identifier.
pub struct Session<M> {
    id: String,
    current_cycle: u64,
    machine: M,
    snapshots: SnapshotStore<M>,
}

impl<M> Session<M> {
    /// The identifier of the session.
    pub closed spec fn spec_id(&self) -> Seq<char> {
        self.id@
    }

    /// The cycle that the session's machine stands at.
    pub closed spec fn spec_current_cycle(&self) -> u64 {
        self.current_cycle
    }

    /// The session's machine.
    pub closed spec fn spec_machine(&self) -> M {
        self.machine
    }

    /// The session's snapshots.
    pub closed spec fn spec_snapshots(&self) -> SnapshotStore<M> {
        self.snapshots
    }

    /// The invariant of a session: that of its snapshots.
    pub open spec fn well_formed(&self) -> bool {
        self.spec_snapshots().well_formed()
    }

    /// The route to `target`: from the machine where it stands at or below
    /// the target and no snapshot lies between the two; else from the
    /// nearest snapshot that is not above the target.
    pub open spec fn spec_route(&self, target: u64) -> Route {
        let stored = self.spec_snapshots()@;
        let nearest = stored[floor(stored, target)].cycle;
        let current = self.spec_current_cycle();
        if nearest <= current <= target {
            Route { start: current, live: true, steps: (target - current) as u64 }
        } else {
            Route { start: nearest, live: false, steps: (target - nearest) as u64 }
        }
    }

    /// A session at cycle 0. `machine` is the machine in its initial state,
    /// and `genesis` that same state once more, kept as the anchor of the
    /// snapshots, of which up to `limit` are kept.
    pub fn new(id: String, machine: M, genesis: M, limit: usize) -> (session: Session<M>)
        ensures
            session.well_formed(),
            session.spec_id() == id@,
            session.spec_current_cycle() == 0,
            session.spec_machine() == machine,
            session.spec_snapshots()@ == seq![(Snapshot { cycle: 0, state: genesis })],
            session.spec_snapshots().spec_limit() == if limit < 2 { 2 } else { limit as int },
    {
        Session { id, current_cycle: 0, machine, snapshots: SnapshotStore::new(genesis, limit) }
    }

    /// The identifier of the session.
    pub fn id(&self) -> (id: &String)
        ensures
            id@ == self.spec_id(),
    {
        &self.id
    }

    /// The cycle that the session's machine stands at.
    pub fn current_cycle(&self) -> (cycle: u64)
        ensures
            cycle == self.spec_current_cycle(),
    {
        self.current_cycle
    }

    /// The session's machine.
    pub fn machine(&self) -> (machine: &M)
        ensures
            *machine == self.spec_machine(),
    {
        &self.machine
    }

    /// The session's snapshots.
    pub fn snapshots(&self) -> (snapshots: &SnapshotStore<M>)
        ensures
            *snapshots == self.spec_snapshots(),
    {
        &self.snapshots
    }

    /// Where to start from, and how far to go, to bring a machine to
    /// `target`. The session is not changed.
    pub fn route(&self, target: u64) -> (route: Route)
        requires
            self.well_formed(),
        ensures
            route == self.spec_route(target),
            route.start + route.steps == target,
            route.live ==> route.start == self.spec_current_cycle(),
            !route.live ==> 0 <= floor(self.spec_snapshots()@, target) < self.spec_snapshots()@.len()
                && self.spec_snapshots()@[floor(self.spec_snapshots()@, target)].cycle
                == route.start,
    {
        let nearest: u64 = self.snapshots.nearest(target).cycle;
        if nearest <= self.current_cycle && self.current_cycle <= target {
            Route { start: self.current_cycle, live: true, steps: target - self.current_cycle }
        } else {
            Route { start: nearest, live: false, steps: target - nearest }
        }
    }

    /// The state that the route to `target` starts from.
    pub open spec fn spec_origin(&self, target: u64) -> M {
        if self.spec_route(target).live {
            self.spec_machine()
        } else {
            self.spec_snapshots()@[floor(self.spec_snapshots()@, target)].state
        }
    }

    /// The state that the route to `target` starts from: the session's
    /// machine or one of its snapshots. The caller runs a copy of it, so that
    /// the session keeps the state it has.
    pub fn origin(&self, target: u64) -> (state: &M)
        requires
            self.well_formed(),
        ensures
            *state == self.spec_origin(target),
    {
        let nearest: &Snapshot<M> = self.snapshots.nearest(target);
        if nearest.cycle <= self.current_cycle && self.current_cycle <= target {
            &self.machine
        } else {
            &nearest.state
        }
    }

    /// Takes `machine`, which stands at `cycle`, as the session's machine.
    /// The machine that the session had is offered to the snapshots under the
    /// cycle that it stood at.
    pub fn commit(&mut self, cycle: u64, machine: M)
        requires
            old(self).well_formed(),
        ensures
            final(self).well_formed(),
            final(self).spec_id() == old(self).spec_id(),
            final(self).spec_current_cycle() == cycle,
            final(self).spec_machine() == machine,
            final(self).spec_snapshots().spec_limit() == old(self).spec_snapshots().spec_limit(),
            final(self).spec_snapshots()@ == offered(
                old(self).spec_snapshots()@,
                old(self).spec_snapshots().spec_limit(),
                Snapshot { cycle: old(self).spec_current_cycle(), state: old(self).spec_machine() },
            ),
    {
        let mut previous: M = machine;
        core::mem::swap(&mut self.machine, &mut previous);
        self.snapshots.insert(self.current_cycle, previous);
        self.current_cycle = cycle;
    }
}

/// Whatever a session's cycle and snapshots are, the route to a target ends
/// exactly at the target, and starts from a state that the session has.
pub proof fn lemma_route_is_exact<M>(session: Session<M>, target: u64)
    requires
        session.well_formed(),
    ensures
        session.spec_route(target).start + session.spec_route(target).steps == target,
        session.spec_route(target).live ==> session.spec_route(target).start
            == session.spec_current_cycle(),
        !session.spec_route(target).live ==> crate::snapshot::holds(
            session.spec_snapshots()@,
            session.spec_route(target).start,
        ),
{
    let stored = session.spec_snapshots()@;
    lemma_floor_is_greatest(stored, target);
    if floor(stored, target) < 0 {
        assert(stored[0].cycle > target);
    }
    assert(stored[floor(stored, target)].cycle <= target);
}

} // verus!
