//! The registry of sessions, keyed by identifier.
//!
//! The registry itself is a plain value. A caller that serves requests from
//! several threads puts it behind a lock of its own.

use vstd::prelude::*;
use crate::error::ProtocolError;
use crate::hash::H256;
use crate::messages::NewSessionResult;
use crate::session::Session;
use crate::snapshot::{offered, Snapshot};

verus! {

/// The sessions that are registered, each under its own identifier.
pub struct SessionManager<M> {
    sessions: Vec<Session<M>>,
    snapshot_limit: usize,
}

/// The index of the last session of `sessions` that is registered under
/// `id`, or -1 where none is.
pub open spec fn position<M>(sessions: Seq<Session<M>>, id: Seq<char>) -> int
    decreases sessions.len(),
{
    if sessions.len() == 0 {
        -1
    } else if sessions.last().spec_id() == id {
        sessions.len() - 1
    } else {
        position(sessions.drop_last(), id)
    }
}

/// Whether a session is registered under `id`.
pub open spec fn registered<M>(sessions: Seq<Session<M>>, id: Seq<char>) -> bool {
    position(sessions, id) >= 0
}

/// Whether no two sessions of `sessions` share an identifier.
pub open spec fn distinct<M>(sessions: Seq<Session<M>>) -> bool {
    forall|i: int, j: int|
        0 <= i < j < sessions.len() ==> (#[trigger] sessions[i]).spec_id() != (
        #[trigger] sessions[j]).spec_id()
}

/// Where `position` points, the identifier is found; where it points
/// nowhere, no session has it.
pub proof fn lemma_position<M>(sessions: Seq<Session<M>>, id: Seq<char>)
    ensures
        -1 <= position(sessions, id) < sessions.len(),
        position(sessions, id) >= 0 ==> sessions[position(sessions, id)].spec_id() == id,
        position(sessions, id) < 0 ==> forall|i: int|
            0 <= i < sessions.len() ==> (#[trigger] sessions[i]).spec_id() != id,
    decreases sessions.len(),
{
    if sessions.len() > 0 && sessions.last().spec_id() != id {
        let rest = sessions.drop_last();
        lemma_position(rest, id);
        if position(rest, id) < 0 {
            assert forall|i: int| 0 <= i < sessions.len() implies (
            #[trigger] sessions[i]).spec_id() != id by {
                if i < rest.len() {
                    assert(rest[i].spec_id() != id);
                }
            }
        }
    }
}

/// Whether `after` is `before` with the session under `id` moved on to
/// `cycle` with `machine`: that session has the new machine and cycle, its
/// former machine was offered to its snapshots under its former cycle, and
/// every other session is as it was.
pub open spec fn committed<M>(
    before: Seq<Session<M>>,
    after: Seq<Session<M>>,
    id: Seq<char>,
    cycle: u64,
    machine: M,
) -> bool {
    let at = position(before, id);
    &&& registered(before, id)
    &&& after == before.update(at, after[at])
    &&& after[at].spec_id() == id
    &&& after[at].spec_current_cycle() == cycle
    &&& after[at].spec_machine() == machine
    &&& after[at].spec_snapshots().spec_limit() == before[at].spec_snapshots().spec_limit()
    &&& after[at].spec_snapshots()@ == offered(
        before[at].spec_snapshots()@,
        before[at].spec_snapshots().spec_limit(),
        Snapshot { cycle: before[at].spec_current_cycle(), state: before[at].spec_machine() },
    )
}

/// A session that was just registered is found under its identifier. So
/// a second `create_session` under the same identifier meets a registry in
/// which it is taken: it fails with `DuplicateSessionId` and leaves the
/// registry, the first session in it, as it is.
pub proof fn lemma_created_is_registered<M>(
    before: Seq<Session<M>>,
    after: Seq<Session<M>>,
    id: Seq<char>,
)
    requires
        after.len() == before.len() + 1,
        after.drop_last() == before,
        after.last().spec_id() == id,
    ensures
        registered(after, id),
        position(after, id) == before.len(),
{
}

impl<M> View for SessionManager<M> {
    type V = Seq<Session<M>>;

    closed spec fn view(&self) -> Seq<Session<M>> {
        self.sessions@
    }
}

impl<M> SessionManager<M> {
    /// The number of snapshots that each new session keeps at most.
    pub closed spec fn spec_snapshot_limit(&self) -> int {
        self.snapshot_limit as int
    }

    /// The invariant of the registry: every session is well formed, and no
    /// two share an identifier.
    pub open spec fn well_formed(&self) -> bool {
        &&& forall|i: int| 0 <= i < self@.len() ==> (#[trigger] self@[i]).well_formed()
        &&& distinct(self@)
    }

    /// An empty registry, whose sessions will keep up to `snapshot_limit`
    /// snapshots each.
    pub fn new(snapshot_limit: usize) -> (manager: SessionManager<M>)
        ensures
            manager.well_formed(),
            manager@.len() == 0,
            manager.spec_snapshot_limit() == snapshot_limit,
    {
        SessionManager { sessions: Vec::new(), snapshot_limit }
    }

    /// The number of sessions that are registered.
    pub fn len(&self) -> (count: usize)
        ensures
            count == self@.len(),
    {
        self.sessions.len()
    }

    /// The index of the session registered under `id`.
    fn find(&self, id: &String) -> (index: Option<usize>)
        ensures
            match index {
                Some(at) => at == position(self@, id@) && at < self@.len(),
                None => position(self@, id@) < 0,
            },
    {
        let mut i: usize = self.sessions.len();
        proof {
            assert(self@.subrange(0, i as int) =~= self@);
        }
        while i > 0
            invariant
                i <= self.sessions@.len(),
                position(self@, id@) == position(self@.subrange(0, i as int), id@),
            decreases i,
        {
            i -= 1;
            if *self.sessions[i].id() == *id {
                return Some(i);
            }
            assert(self@.subrange(0, i + 1).drop_last() =~= self@.subrange(0, i as int));
        }
        None
    }

    /// Whether a session is registered under `id`.
    pub fn contains(&self, id: &String) -> (found: bool)
        ensures
            found == registered(self@, id@),
    {
        self.find(id).is_some()
    }

    /// Registers a session under `id`, at cycle 0. `machine` is the machine in
    /// its initial state, `genesis` that state once more for the anchor
    /// snapshot, and `hash` the digest of that state, which is handed back.
    /// Where `id` is taken, nothing is registered and the registry stays as
    /// it is.
    pub fn create_session(&mut self, id: String, machine: M, genesis: M, hash: H256) -> (result:
        Result<NewSessionResult, ProtocolError>)
        requires
            old(self).well_formed(),
        ensures
            final(self).well_formed(),
            final(self).spec_snapshot_limit() == old(self).spec_snapshot_limit(),
            match result {
                Ok(created) => {
                    &&& !registered(old(self)@, id@)
                    &&& registered(final(self)@, id@)
                    &&& created.hash == hash
                    &&& final(self)@.len() == old(self)@.len() + 1
                    &&& final(self)@.drop_last() == old(self)@
                    &&& final(self)@.last().spec_id() == id@
                    &&& final(self)@.last().spec_current_cycle() == 0
                    &&& final(self)@.last().spec_machine() == machine
                    &&& final(self)@.last().spec_snapshots()@ == seq![
                        (Snapshot { cycle: 0, state: genesis }),
                    ]
                    &&& final(self)@.last().spec_snapshots().spec_limit() == if old(
                        self,
                    ).spec_snapshot_limit() < 2 {
                        2
                    } else {
                        old(self).spec_snapshot_limit()
                    }
                },
                Err(error) => {
                    &&& error == ProtocolError::DuplicateSessionId
                    &&& registered(old(self)@, id@)
                    &&& final(self)@ == old(self)@
                },
            },
    {
        if self.find(&id).is_some() {
            return Err(ProtocolError::DuplicateSessionId);
        }
        proof {
            lemma_position(self@, id@);
        }
        let session = Session::new(id, machine, genesis, self.snapshot_limit);
        self.sessions.push(session);
        proof {
            assert(self@.drop_last() =~= old(self)@);
        }
        Ok(NewSessionResult { hash })
    }

    /// The session registered under `id`.
    pub fn lookup(&self, id: &String) -> (result: Result<&Session<M>, ProtocolError>)
        requires
            self.well_formed(),
        ensures
            match result {
                Ok(session) => {
                    &&& registered(self@, id@)
                    &&& *session == self@[position(self@, id@)]
                    &&& session.spec_id() == id@
                    &&& session.well_formed()
                },
                Err(error) => {
                    &&& error == ProtocolError::SessionNotFound
                    &&& !registered(self@, id@)
                },
            },
    {
        proof {
            lemma_position(self@, id@);
        }
        match self.find(id) {
            Some(at) => Ok(&self.sessions[at]),
            None => Err(ProtocolError::SessionNotFound),
        }
    }

    /// Releases the session registered under `id`, and its snapshots with
    /// it. Where none is registered under `id`, that is reported and the
    /// registry stays as it is.
    pub fn destroy(&mut self, id: &String) -> (result: Result<(), ProtocolError>)
        requires
            old(self).well_formed(),
        ensures
            final(self).well_formed(),
            final(self).spec_snapshot_limit() == old(self).spec_snapshot_limit(),
            match result {
                Ok(_) => {
                    &&& registered(old(self)@, id@)
                    &&& final(self)@ == old(self)@.remove(position(old(self)@, id@))
                    &&& !registered(final(self)@, id@)
                },
                Err(error) => {
                    &&& error == ProtocolError::SessionNotFound
                    &&& !registered(old(self)@, id@)
                    &&& final(self)@ == old(self)@
                },
            },
    {
        match self.find(id) {
            Some(at) => {
                let _ = self.sessions.remove(at);
                proof {
                    lemma_position(old(self)@, id@);
                    lemma_position(self@, id@);
                    if position(self@, id@) >= 0 {
                        let found = position(self@, id@);
                        if found < at {
                            assert(old(self)@[found].spec_id() != old(self)@[at as int].spec_id());
                        } else {
                            assert(old(self)@[at as int].spec_id() != old(self)@[found
                                + 1].spec_id());
                        }
                    }
                }
                Ok(())
            },
            None => Err(ProtocolError::SessionNotFound),
        }
    }

    /// Takes `machine`, which stands at `cycle`, as the machine of the
    /// session registered under `id`. The machine that the session had is
    /// offered to its snapshots under the cycle that it stood at. The other
    /// sessions stay as they are.
    pub fn commit(&mut self, id: &String, cycle: u64, machine: M) -> (result: Result<
        (),
        ProtocolError,
    >)
        requires
            old(self).well_formed(),
        ensures
            final(self).well_formed(),
            final(self).spec_snapshot_limit() == old(self).spec_snapshot_limit(),
            match result {
                Ok(_) => committed(old(self)@, final(self)@, id@, cycle, machine),
                Err(error) => {
                    &&& error == ProtocolError::SessionNotFound
                    &&& !registered(old(self)@, id@)
                    &&& final(self)@ == old(self)@
                },
            },
    {
        proof {
            lemma_position(self@, id@);
        }
        match self.find(id) {
            Some(at) => {
                let mut session: Session<M> = self.sessions.remove(at);
                session.commit(cycle, machine);
                self.sessions.insert(at, session);
                proof {
                    assert(self@ =~= old(self)@.update(at as int, session));
                }
                Ok(())
            },
            None => Err(ProtocolError::SessionNotFound),
        }
    }
}

} // verus!
