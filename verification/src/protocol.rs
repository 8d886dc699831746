//! The five operations of the protocol, each in two halves round the work of
//! the emulator.
//!
//! The first half, `plan_..`, takes the request, refuses what the protocol
//! refuses, and says from which state of the session the emulator starts
//! and how far it runs. It never changes a session. The second half,
//! `complete_..`, takes what the emulator produced, checks it, and only if
//! it holds commits the session to its new cycle and hands out the result.
//! A request that fails in either half leaves every session as it was.
//!
//! Reading memory and asking for a proof never move a session: the emulator
//! works on a copy of the state that the route starts from.

use vstd::prelude::*;
use crate::access::{log_view, zero_word, Access, AccessOperation, AccessView};
use crate::error::ProtocolError;
use crate::hash::H256;
use crate::manager::{committed, lemma_position, position, registered, SessionManager};
use crate::merkle::{aligned, is_aligned, Proof, TREE_LOG2_SIZE, WORD_LOG2_SIZE};
use crate::messages::{
    NewSessionRequest,
    NewSessionResult,
    ReadMemoryResponse,
    SessionGetProofRequest,
    SessionGetProofResult,
    SessionReadMemoryRequest,
    SessionReadMemoryResult,
    SessionRunRequest,
    SessionRunResult,
    SessionStepRequest,
    SessionStepResult,
};
use crate::session::{lemma_route_is_exact, Route, Session};
use crate::snapshot::Snapshot;
use crate::wire;

verus! {

/// The operations of the protocol.
#[derive(Clone, Copy, Debug, PartialEq, Eq, Structural)]
pub enum Operation {
    NewSession,
    SessionRun,
    SessionStep,
    SessionReadMemory,
    SessionGetProof,
}

impl Operation {
    /// The name under which the operation is called.
    pub open spec fn spec_method_name(&self) -> &'static str {
        match self {
            Operation::NewSession => "/CartesiManagerHigh.MachineManagerHigh/NewSession",
            Operation::SessionRun => "/CartesiManagerHigh.MachineManagerHigh/SessionRun",
            Operation::SessionStep => "/CartesiManagerHigh.MachineManagerHigh/SessionStep",
            Operation::SessionReadMemory => "/CartesiManagerHigh.MachineManagerHigh/SessionReadMemory",
            Operation::SessionGetProof => "/CartesiManagerHigh.MachineManagerHigh/SessionGetProof",
        }
    }

    /// The name under which the operation is called.
    pub fn method_name(&self) -> (name: &'static str)
        ensures
            name@ == self.spec_method_name()@,
    {
        match self {
            Operation::NewSession => "/CartesiManagerHigh.MachineManagerHigh/NewSession",
            Operation::SessionRun => "/CartesiManagerHigh.MachineManagerHigh/SessionRun",
            Operation::SessionStep => "/CartesiManagerHigh.MachineManagerHigh/SessionStep",
            Operation::SessionReadMemory => "/CartesiManagerHigh.MachineManagerHigh/SessionReadMemory",
            Operation::SessionGetProof => "/CartesiManagerHigh.MachineManagerHigh/SessionGetProof",
        }
    }
}

/// Whether each cycle of `cycles` is above the one before it.
pub open spec fn strictly_ascending(cycles: Seq<u64>) -> bool {
    forall|i: int, j: int| 0 <= i < j < cycles.len() ==> cycles[i] < cycles[j]
}

/// The distances between neighbouring cycles of `cycles`.
pub open spec fn legs(cycles: Seq<u64>) -> Seq<u64> {
    Seq::new(
        if cycles.len() == 0 {
            0nat
        } else {
            (cycles.len() - 1) as nat
        },
        |i: int| (cycles[i + 1] - cycles[i]) as u64,
    )
}

/// The cycle that a run goes to first: its first checkpoint, or, where it
/// has none, the cycle at which the session stands.
pub open spec fn first_target<M>(session: Session<M>, cycles: Seq<u64>) -> u64 {
    if cycles.len() == 0 {
        session.spec_current_cycle()
    } else {
        cycles[0]
    }
}

/// The cycle at which the machine stands when it has followed `route` and
/// the first `index` of `legs`.
pub open spec fn reached(route: Route, legs: Seq<u64>, index: int) -> int
    decreases index,
{
    if index <= 0 {
        route.start + route.steps
    } else {
        reached(route, legs, index - 1) + legs[index - 1]
    }
}

/// Whether a read asks for whole words that lie within the address space.
pub open spec fn readable(position: wire::ReadMemoryRequest) -> bool {
    &&& position.address % 8 == 0
    &&& position.length % 8 == 0
    &&& position.address + position.length <= 0x1_0000_0000_0000_0000
}

/// Whether a proof is asked for a node of the tree: no smaller than a word,
/// no larger than the whole memory, and at a multiple of its size.
pub open spec fn provable(target: wire::GetProofRequest) -> bool {
    &&& WORD_LOG2_SIZE <= target.log2_size <= TREE_LOG2_SIZE
    &&& is_aligned(target.address, target.log2_size as nat)
}

/// Whether every access of a log meets its invariant.
pub open spec fn all_well_formed(log: Seq<AccessView>) -> bool {
    forall|i: int| 0 <= i < log.len() ==> (#[trigger] log[i]).well_formed()
}

/// Whether the proof of every access of a log certifies the access.
pub open spec fn all_verify(log: Seq<AccessView>) -> bool {
    forall|i: int| 0 <= i < log.len() ==> (#[trigger] log[i]).verifies()
}

/// How the emulator serves a run: it follows `route` to the first
/// checkpoint, and from each checkpoint the next of `legs` to the one after.
#[derive(Clone, Debug, PartialEq, Eq)]
pub struct RunPlan {
    pub route: Route,
    pub legs: Vec<u64>,
}

/// Whether the cycles strictly ascend.
pub fn check_cycles(times: &Vec<u64>) -> (result: Result<(), ProtocolError>)
    ensures
        match result {
            Ok(_) => strictly_ascending(times@),
            Err(error) => error == ProtocolError::InvalidCycleOrder && !strictly_ascending(times@),
        },
{
    let mut i: usize = 1;
    while i < times.len()
        invariant
            1 <= i,
            forall|a: int, b: int| 0 <= a < b < i && b < times@.len() ==> times@[a] < times@[b],
        decreases times@.len() - i,
    {
        if times[i - 1] >= times[i] {
            return Err(ProtocolError::InvalidCycleOrder);
        }
        assert forall|a: int, b: int| 0 <= a < b < i + 1 && b < times@.len() implies times@[a]
            < times@[b] by {
            if b == i && a < i - 1 {
                assert(times@[a] < times@[i - 1]);
            }
        }
        i += 1;
    }
    Ok(())
}

/// Registers the session that `request` asks for. `machine` is the machine
/// that the emulator built from the request, in its initial state,
/// `genesis` that state once more, and `hash` its digest, which the result
/// carries. Where the identifier is taken the request fails and the registry
/// stays as it is.
pub fn new_session<M>(
    manager: &mut SessionManager<M>,
    request: NewSessionRequest,
    machine: M,
    genesis: M,
    hash: H256,
) -> (result: Result<NewSessionResult, ProtocolError>)
    requires
        old(manager).well_formed(),
    ensures
        final(manager).well_formed(),
        final(manager).spec_snapshot_limit() == old(manager).spec_snapshot_limit(),
        match result {
            Ok(created) => {
                &&& !registered(old(manager)@, request.session_id@)
                &&& registered(final(manager)@, request.session_id@)
                &&& created.hash == hash
                &&& final(manager)@.len() == old(manager)@.len() + 1
                &&& final(manager)@.drop_last() == old(manager)@
                &&& final(manager)@.last().spec_id() == request.session_id@
                &&& final(manager)@.last().spec_current_cycle() == 0
                &&& final(manager)@.last().spec_machine() == machine
                &&& final(manager)@.last().spec_snapshots()@ == seq![
                    (Snapshot { cycle: 0, state: genesis }),
                ]
                &&& final(manager)@.last().spec_snapshots().spec_limit() == if old(
                    manager,
                ).spec_snapshot_limit() < 2 {
                    2
                } else {
                    old(manager).spec_snapshot_limit()
                }
            },
            Err(error) => {
                &&& error == ProtocolError::DuplicateSessionId
                &&& registered(old(manager)@, request.session_id@)
                &&& final(manager)@ == old(manager)@
            },
        },
{
    manager.create_session(request.session_id, machine, genesis, hash)
}

/// How to serve a run. Fails where no session is registered under the
/// request's identifier, and else where its cycles do not strictly ascend.
pub fn plan_run<M>(manager: &SessionManager<M>, request: &SessionRunRequest) -> (result: Result<
    RunPlan,
    ProtocolError,
>)
    requires
        manager.well_formed(),
    ensures
        match result {
            Ok(plan) => {
                let session = manager@[position(manager@, request.session_id@)];
                &&& registered(manager@, request.session_id@)
                &&& strictly_ascending(request.times@)
                &&& plan.route == session.spec_route(first_target(session, request.times@))
                &&& plan.legs@ == legs(request.times@)
            },
            Err(error) => {
                if !registered(manager@, request.session_id@) {
                    error == ProtocolError::SessionNotFound
                } else {
                    error == ProtocolError::InvalidCycleOrder && !strictly_ascending(
                        request.times@,
                    )
                }
            },
        },
{
    let session = match manager.lookup(&request.session_id) {
        Ok(session) => session,
        Err(error) => {
            return Err(error);
        },
    };
    match check_cycles(&request.times) {
        Ok(_) => {},
        Err(error) => {
            return Err(error);
        },
    }
    let count: usize = request.times.len();
    let first: u64 = if count == 0 {
        session.current_cycle()
    } else {
        request.times[0]
    };
    let route = session.route(first);
    let mut distances: Vec<u64> = Vec::new();
    let mut i: usize = 1;
    while i < count
        invariant
            1 <= i,
            i <= count || i == 1,
            count == request.times@.len(),
            strictly_ascending(request.times@),
            distances@.len() == i - 1,
            forall|j: int|
                0 <= j < i - 1 ==> distances@[j] == request.times@[j + 1] - request.times@[j],
        decreases count - i,
    {
        distances.push(request.times[i] - request.times[i - 1]);
        i += 1;
    }
    assert forall|j: int| 0 <= j < distances@.len() implies distances@[j] == legs(
        request.times@,
    )[j] by {
        assert(request.times@[j] < request.times@[j + 1]);
    }
    assert(distances@ =~= legs(request.times@));
    Ok(RunPlan { route, legs: distances })
}

/// Ends a run. `machine` is the machine as the emulator left it at the last
/// checkpoint, and `hashes` its digest at each checkpoint. Fails where no
/// session is registered under the request's identifier, else where the
/// cycles do not strictly ascend, else where there is not one digest for
/// each checkpoint. On success the session stands at the last checkpoint
/// with `machine`; a run without checkpoints leaves it as it was.
pub fn complete_run<M>(
    manager: &mut SessionManager<M>,
    request: &SessionRunRequest,
    machine: M,
    hashes: Vec<H256>,
) -> (result: Result<SessionRunResult, ProtocolError>)
    requires
        old(manager).well_formed(),
    ensures
        final(manager).well_formed(),
        final(manager).spec_snapshot_limit() == old(manager).spec_snapshot_limit(),
        match result {
            Ok(run) => {
                &&& registered(old(manager)@, request.session_id@)
                &&& strictly_ascending(request.times@)
                &&& hashes@.len() == request.times@.len()
                &&& run.hashes == hashes
                &&& request.times@.len() == 0 ==> final(manager)@ == old(manager)@
                &&& request.times@.len() > 0 ==> committed(
                    old(manager)@,
                    final(manager)@,
                    request.session_id@,
                    request.times@.last(),
                    machine,
                )
            },
            Err(error) => {
                &&& final(manager)@ == old(manager)@
                &&& if !registered(old(manager)@, request.session_id@) {
                    error == ProtocolError::SessionNotFound
                } else if !strictly_ascending(request.times@) {
                    error == ProtocolError::InvalidCycleOrder
                } else {
                    error == ProtocolError::MalformedRequest && hashes@.len()
                        != request.times@.len()
                }
            },
        },
{
    if !manager.contains(&request.session_id) {
        return Err(ProtocolError::SessionNotFound);
    }
    match check_cycles(&request.times) {
        Ok(_) => {},
        Err(error) => {
            return Err(error);
        },
    }
    let count: usize = request.times.len();
    if hashes.len() != count {
        return Err(ProtocolError::MalformedRequest);
    }
    if count > 0 {
        match manager.commit(&request.session_id, request.times[count - 1], machine) {
            Ok(_) => {},
            Err(error) => {
                return Err(error);
            },
        }
    }
    Ok(SessionRunResult { hashes })
}

/// How to serve a logged step: the route to the cycle at which the step
/// starts. Fails where no session is registered under the request's
/// identifier, and else where the step would lead past the last cycle
/// that can be counted.
pub fn plan_step<M>(manager: &SessionManager<M>, request: &SessionStepRequest) -> (result: Result<
    Route,
    ProtocolError,
>)
    requires
        manager.well_formed(),
    ensures
        match result {
            Ok(route) => {
                &&& registered(manager@, request.session_id@)
                &&& request.time < u64::MAX
                &&& route == manager@[position(manager@, request.session_id@)].spec_route(
                    request.time,
                )
            },
            Err(error) => {
                if !registered(manager@, request.session_id@) {
                    error == ProtocolError::SessionNotFound
                } else {
                    error == ProtocolError::InvalidCycleOrder && request.time == u64::MAX
                }
            },
        },
{
    let session = match manager.lookup(&request.session_id) {
        Ok(session) => session,
        Err(error) => {
            return Err(error);
        },
    };
    if request.time == u64::MAX {
        return Err(ProtocolError::InvalidCycleOrder);
    }
    Ok(session.route(request.time))
}

/// Checks the log of a step: first that every access meets its invariant,
/// and, if all do, that every proof certifies its access.
pub fn check_log(log: &Vec<Access>) -> (result: Result<(), ProtocolError>)
    ensures
        match result {
            Ok(_) => all_well_formed(log_view(log@)) && all_verify(log_view(log@)),
            Err(error) => {
                if !all_well_formed(log_view(log@)) {
                    error == ProtocolError::MalformedRequest
                } else {
                    error == ProtocolError::ProofVerificationFailed && !all_verify(log_view(log@))
                }
            },
        },
{
    let ghost views = log_view(log@);
    let mut i: usize = 0;
    while i < log.len()
        invariant
            i <= log@.len(),
            views == log_view(log@),
            forall|j: int| 0 <= j < i ==> (#[trigger] views[j]).well_formed(),
        decreases log@.len() - i,
    {
        if !log[i].is_well_formed() {
            assert(!views[i as int].well_formed());
            return Err(ProtocolError::MalformedRequest);
        }
        i += 1;
    }
    let mut k: usize = 0;
    while k < log.len()
        invariant
            k <= log@.len(),
            views == log_view(log@),
            all_well_formed(views),
            forall|j: int| 0 <= j < k ==> (#[trigger] views[j]).verifies(),
        decreases log@.len() - k,
    {
        assert(views[k as int].well_formed());
        if !log[k].verify() {
            assert(!views[k as int].verifies());
            return Err(ProtocolError::ProofVerificationFailed);
        }
        k += 1;
    }
    Ok(())
}

/// Ends a logged step. `machine` is the machine as the emulator left it
/// after the step, and `log` the accesses of the step. Fails where no
/// session is registered under the request's identifier, else where the step
/// would lead past the last cycle that can be counted, else where the log
/// does not pass `check_log`. On success the session stands one cycle after
/// the cycle of the request, with `machine`, and the result carries the log
/// as it was given.
pub fn complete_step<M>(
    manager: &mut SessionManager<M>,
    request: &SessionStepRequest,
    machine: M,
    log: Vec<Access>,
) -> (result: Result<SessionStepResult, ProtocolError>)
    requires
        old(manager).well_formed(),
    ensures
        final(manager).well_formed(),
        final(manager).spec_snapshot_limit() == old(manager).spec_snapshot_limit(),
        match result {
            Ok(step) => {
                &&& registered(old(manager)@, request.session_id@)
                &&& request.time < u64::MAX
                &&& step.log == log
                &&& all_well_formed(step@)
                &&& all_verify(step@)
                &&& forall|i: int|
                    0 <= i < step@.len() ==> (#[trigger] step@[i]).proof.well_formed()
                        && step@[i].proof.verifies()
                &&& forall|i: int|
                    0 <= i < step@.len() && (#[trigger] step@[i]).operation
                        == AccessOperation::Read ==> step@[i].value_written == zero_word()
                &&& committed(
                    old(manager)@,
                    final(manager)@,
                    request.session_id@,
                    (request.time + 1) as u64,
                    machine,
                )
            },
            Err(error) => {
                &&& final(manager)@ == old(manager)@
                &&& if !registered(old(manager)@, request.session_id@) {
                    error == ProtocolError::SessionNotFound
                } else if request.time == u64::MAX {
                    error == ProtocolError::InvalidCycleOrder
                } else if !all_well_formed(log_view(log@)) {
                    error == ProtocolError::MalformedRequest
                } else {
                    error == ProtocolError::ProofVerificationFailed && !all_verify(log_view(log@))
                }
            },
        },
{
    if !manager.contains(&request.session_id) {
        return Err(ProtocolError::SessionNotFound);
    }
    if request.time == u64::MAX {
        return Err(ProtocolError::InvalidCycleOrder);
    }
    match check_log(&log) {
        Ok(_) => {},
        Err(error) => {
            return Err(error);
        },
    }
    match manager.commit(&request.session_id, request.time + 1, machine) {
        Ok(_) => {},
        Err(error) => {
            return Err(error);
        },
    }
    Ok(SessionStepResult { log })
}

/// Whether a read asks for whole words that lie within the address space.
pub fn check_read(position: &wire::ReadMemoryRequest) -> (result: Result<(), ProtocolError>)
    ensures
        match result {
            Ok(_) => readable(*position),
            Err(error) => error == ProtocolError::MemoryAlignmentError && !readable(*position),
        },
{
    if position.address % 8 != 0 || position.length % 8 != 0 {
        return Err(ProtocolError::MemoryAlignmentError);
    }
    if position.length > 0 && position.length - 1 > u64::MAX - position.address {
        return Err(ProtocolError::MemoryAlignmentError);
    }
    Ok(())
}

/// How to serve a read: the route to the cycle of the request. Fails where
/// no session is registered under the request's identifier, and else where the
/// read does not ask for whole words within the address space.
pub fn plan_read_memory<M>(
    manager: &SessionManager<M>,
    request: &SessionReadMemoryRequest,
) -> (result: Result<Route, ProtocolError>)
    requires
        manager.well_formed(),
    ensures
        match result {
            Ok(route) => {
                &&& registered(manager@, request.session_id@)
                &&& readable(request.position)
                &&& route == manager@[position(manager@, request.session_id@)].spec_route(
                    request.time,
                )
            },
            Err(error) => {
                if !registered(manager@, request.session_id@) {
                    error == ProtocolError::SessionNotFound
                } else {
                    error == ProtocolError::MemoryAlignmentError && !readable(request.position)
                }
            },
        },
{
    let session = match manager.lookup(&request.session_id) {
        Ok(session) => session,
        Err(error) => {
            return Err(error);
        },
    };
    match check_read(&request.position) {
        Ok(_) => {},
        Err(error) => {
            return Err(error);
        },
    }
    Ok(session.route(request.time))
}

/// Ends a read. `data` is what the emulator read. Fails where the read does
/// not ask for whole words within the address space, and else where `data`
/// has not the length that was asked for. The result carries `data` as it
/// was given.
pub fn complete_read_memory(request: &SessionReadMemoryRequest, data: Vec<u8>) -> (result: Result<
    SessionReadMemoryResult,
    ProtocolError,
>)
    ensures
        match result {
            Ok(read) => {
                &&& readable(request.position)
                &&& data@.len() == request.position.length
                &&& read.read_content.data == data
            },
            Err(error) => {
                if !readable(request.position) {
                    error == ProtocolError::MemoryAlignmentError
                } else {
                    error == ProtocolError::MalformedRequest && data@.len()
                        != request.position.length
                }
            },
        },
{
    match check_read(&request.position) {
        Ok(_) => {},
        Err(error) => {
            return Err(error);
        },
    }
    if data.len() as u64 != request.position.length {
        return Err(ProtocolError::MalformedRequest);
    }
    Ok(SessionReadMemoryResult { read_content: ReadMemoryResponse { data } })
}

/// Whether a proof is asked for a node of the tree.
pub fn check_target(target: &wire::GetProofRequest) -> (result: Result<(), ProtocolError>)
    ensures
        match result {
            Ok(_) => provable(*target),
            Err(error) => error == ProtocolError::MemoryAlignmentError && !provable(*target),
        },
{
    if target.log2_size < 3 || target.log2_size > 64 || !aligned(target.address, target.log2_size) {
        Err(ProtocolError::MemoryAlignmentError)
    } else {
        Ok(())
    }
}

/// How to serve a request for a proof: the route to the cycle of the
/// request. Fails where no session is registered under the request's
/// identifier, and else where the target is no node of the tree.
pub fn plan_get_proof<M>(manager: &SessionManager<M>, request: &SessionGetProofRequest) -> (result:
    Result<Route, ProtocolError>)
    requires
        manager.well_formed(),
    ensures
        match result {
            Ok(route) => {
                &&& registered(manager@, request.session_id@)
                &&& provable(request.target)
                &&& route == manager@[position(manager@, request.session_id@)].spec_route(
                    request.time,
                )
            },
            Err(error) => {
                if !registered(manager@, request.session_id@) {
                    error == ProtocolError::SessionNotFound
                } else {
                    error == ProtocolError::MemoryAlignmentError && !provable(request.target)
                }
            },
        },
{
    let session = match manager.lookup(&request.session_id) {
        Ok(session) => session,
        Err(error) => {
            return Err(error);
        },
    };
    match check_target(&request.target) {
        Ok(_) => {},
        Err(error) => {
            return Err(error);
        },
    }
    Ok(session.route(request.time))
}

/// Whether `found` answers a request for a proof of `target`: it is for
/// that address and size, and has one sibling for each level above it.
pub open spec fn answers(target: wire::GetProofRequest, found: crate::merkle::ProofView) -> bool {
    &&& found.address == target.address
    &&& found.log2_size == target.log2_size
    &&& found.well_formed()
}

/// Ends a request for a proof. `found` is the proof that the emulator
/// produced. Fails where the target is no node of the tree, else where the
/// proof is not for the target or has not one sibling per level, else where
/// it does not lead from its target to its root. The result carries the
/// proof as it was given.
pub fn complete_get_proof(request: &SessionGetProofRequest, found: Proof) -> (result: Result<
    SessionGetProofResult,
    ProtocolError,
>)
    ensures
        match result {
            Ok(answer) => {
                &&& provable(request.target)
                &&& answers(request.target, found@)
                &&& found@.verifies()
                &&& answer.proof == found
            },
            Err(error) => {
                if !provable(request.target) {
                    error == ProtocolError::MemoryAlignmentError
                } else if !answers(request.target, found@) {
                    error == ProtocolError::MalformedRequest
                } else {
                    error == ProtocolError::ProofVerificationFailed && !found@.verifies()
                }
            },
        },
{
    match check_target(&request.target) {
        Ok(_) => {},
        Err(error) => {
            return Err(error);
        },
    }
    if found.address != request.target.address || found.log2_size as u64
        != request.target.log2_size || !found.is_well_formed() {
        return Err(ProtocolError::MalformedRequest);
    }
    if !found.verify() {
        return Err(ProtocolError::ProofVerificationFailed);
    }
    Ok(SessionGetProofResult { proof: found })
}

/// A run brings the machine to each of its checkpoints exactly, whatever the
/// cycle and the snapshots of the session are.
pub proof fn lemma_run_reaches_checkpoints<M>(session: Session<M>, cycles: Seq<u64>, index: int)
    requires
        session.well_formed(),
        strictly_ascending(cycles),
        0 <= index < cycles.len(),
    ensures
        reached(session.spec_route(first_target(session, cycles)), legs(cycles), index)
            == cycles[index],
    decreases index,
{
    lemma_route_is_exact(session, cycles[0]);
    if index > 0 {
        lemma_run_reaches_checkpoints(session, cycles, index - 1);
    }
}

/// The digests that a run hands out, one per checkpoint, where the machine's
/// digest is a function `digest_at` of the cycle at which it stands.
pub open spec fn run_digests(
    digest_at: spec_fn(u64) -> Seq<u8>,
    route: Route,
    legs: Seq<u64>,
) -> Seq<Seq<u8>> {
    Seq::new(legs.len() + 1, |i: int| digest_at(reached(route, legs, i) as u64))
}

/// Determinism of a run. Where the machine's digest depends on its cycle
/// alone, a run over three ascending checkpoints hands out the digests that
/// three runs hand out, each to one of the checkpoints and each on a session
/// of its own, whatever the cycles and snapshots of the four sessions are.
pub proof fn lemma_run_splits<M>(
    digest_at: spec_fn(u64) -> Seq<u8>,
    whole: Session<M>,
    first: Session<M>,
    second: Session<M>,
    third: Session<M>,
    c1: u64,
    c2: u64,
    c3: u64,
)
    requires
        whole.well_formed(),
        first.well_formed(),
        second.well_formed(),
        third.well_formed(),
        c1 < c2 < c3,
    ensures
        run_digests(digest_at, whole.spec_route(c1), legs(seq![c1, c2, c3])) == run_digests(
            digest_at,
            first.spec_route(c1),
            legs(seq![c1]),
        ) + run_digests(digest_at, second.spec_route(c2), legs(seq![c2])) + run_digests(
            digest_at,
            third.spec_route(c3),
            legs(seq![c3]),
        ),
        run_digests(digest_at, whole.spec_route(c1), legs(seq![c1, c2, c3])) == seq![
            digest_at(c1),
            digest_at(c2),
            digest_at(c3),
        ],
{
    let cycles = seq![c1, c2, c3];
    lemma_run_reaches_checkpoints(whole, cycles, 0);
    lemma_run_reaches_checkpoints(whole, cycles, 1);
    lemma_run_reaches_checkpoints(whole, cycles, 2);
    lemma_run_reaches_checkpoints(first, seq![c1], 0);
    lemma_run_reaches_checkpoints(second, seq![c2], 0);
    lemma_run_reaches_checkpoints(third, seq![c3], 0);
    let all = run_digests(digest_at, whole.spec_route(c1), legs(cycles));
    let one = run_digests(digest_at, first.spec_route(c1), legs(seq![c1]));
    let two = run_digests(digest_at, second.spec_route(c2), legs(seq![c2]));
    let three = run_digests(digest_at, third.spec_route(c3), legs(seq![c3]));
    assert(all =~= seq![digest_at(c1), digest_at(c2), digest_at(c3)]);
    assert(one =~= seq![digest_at(c1)]);
    assert(two =~= seq![digest_at(c2)]);
    assert(three =~= seq![digest_at(c3)]);
    assert(all =~= one + two + three);
}

/// Determinism of a step. Two sessions, whatever their cycles and snapshots
/// are, bring their machines to the same cycle before a step at that cycle:
/// where the log of a step depends on that cycle alone, as `log_at` gives
/// it, both steps hand out the same log.
pub proof fn lemma_step_repeats<M>(
    log_at: spec_fn(u64) -> Seq<AccessView>,
    left: Session<M>,
    right: Session<M>,
    cycle: u64,
)
    requires
        left.well_formed(),
        right.well_formed(),
    ensures
        left.spec_route(cycle).start + left.spec_route(cycle).steps == cycle,
        right.spec_route(cycle).start + right.spec_route(cycle).steps == cycle,
        log_at((left.spec_route(cycle).start + left.spec_route(cycle).steps) as u64) == log_at(
            (right.spec_route(cycle).start + right.spec_route(cycle).steps) as u64,
        ),
{
    lemma_route_is_exact(left, cycle);
    lemma_route_is_exact(right, cycle);
}

} // verus!
