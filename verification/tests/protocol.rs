use emulator_session::access::{Access, AccessOperation};
use emulator_session::error::ProtocolError;
use emulator_session::hash::{hash_pair, hash_word, H256};
use emulator_session::manager::SessionManager;
use emulator_session::merkle::Proof;
use emulator_session::messages::{
    NewSessionRequest, SessionGetProofRequest, SessionReadMemoryRequest, SessionRunRequest,
    SessionStepRequest,
};
use emulator_session::protocol::{
    check_cycles, check_log, check_read, check_target, complete_get_proof, complete_read_memory,
    complete_run, complete_step, new_session, plan_get_proof, plan_read_memory, plan_run,
    plan_step, Operation,
};
use emulator_session::session::Route;
use emulator_session::wire;

/// A machine whose only word, at address 0, counts its cycles.
#[derive(Clone, Debug, PartialEq)]
struct Counter {
    word: u64,
}

fn empty_subtrees() -> Vec<H256> {
    let mut list = Vec::new();
    let mut current = hash_word(&[0u8; 8]);
    for _ in 0..61 {
        list.push(current);
        current = hash_pair(&current, &current);
    }
    list
}

fn root_over(word: u64) -> H256 {
    let mut current = hash_word(&word.to_le_bytes());
    for sibling in empty_subtrees() {
        current = hash_pair(&current, &sibling);
    }
    current
}

impl Counter {
    fn advance(&mut self, cycles: u64) {
        self.word += cycles;
    }

    fn root(&self) -> H256 {
        root_over(self.word)
    }

    fn proof_of_word(&self) -> Proof {
        Proof {
            address: 0,
            log2_size: 3,
            target_hash: hash_word(&self.word.to_le_bytes()),
            sibling_hashes: empty_subtrees(),
            root_hash: self.root(),
        }
    }

    fn step(&mut self) -> Vec<Access> {
        let before = self.word;
        self.word += 1;
        vec![Access {
            operation: AccessOperation::Write,
            address: 0,
            value_read: before.to_le_bytes(),
            value_written: self.word.to_le_bytes(),
            proof: self.proof_of_word(),
        }]
    }

    fn read(&self, address: u64, length: u64) -> Vec<u8> {
        let mut data = Vec::new();
        for offset in 0..length {
            let at = address + offset;
            data.push(if at < 8 { self.word.to_le_bytes()[at as usize] } else { 0 });
        }
        data
    }
}

fn manager_with(id: &str) -> SessionManager<Counter> {
    let mut manager: SessionManager<Counter> = SessionManager::new(8);
    open(&mut manager, id);
    manager
}

fn open(manager: &mut SessionManager<Counter>, id: &str) -> Result<H256, ProtocolError> {
    let request = NewSessionRequest {
        machine: wire::MachineRequest { config: vec![] },
        session_id: id.to_string(),
    };
    let machine = Counter { word: 0 };
    let hash = machine.root();
    new_session(manager, request, machine.clone(), machine, hash).map(|created| created.hash)
}

fn machine_at(manager: &SessionManager<Counter>, id: &str, cycle: u64, route: Route) -> Counter {
    let session = manager.lookup(&id.to_string()).unwrap();
    let mut machine = session.origin(cycle).clone();
    assert_eq!(machine.word, route.start);
    machine.advance(route.steps);
    machine
}

fn run(
    manager: &mut SessionManager<Counter>,
    id: &str,
    times: Vec<u64>,
) -> Result<Vec<H256>, ProtocolError> {
    let request = SessionRunRequest { session_id: id.to_string(), times };
    let plan = plan_run(manager, &request)?;
    let session = manager.lookup(&request.session_id)?;
    let first = if request.times.is_empty() { session.current_cycle() } else { request.times[0] };
    let mut machine = session.origin(first).clone();
    let mut hashes = Vec::new();
    if !request.times.is_empty() {
        machine.advance(plan.route.steps);
        hashes.push(machine.root());
        for leg in &plan.legs {
            machine.advance(*leg);
            hashes.push(machine.root());
        }
    }
    complete_run(manager, &request, machine, hashes).map(|result| result.hashes)
}

fn step(
    manager: &mut SessionManager<Counter>,
    id: &str,
    cycle: u64,
) -> Result<Vec<Access>, ProtocolError> {
    let request = SessionStepRequest { session_id: id.to_string(), time: cycle };
    let route = plan_step(manager, &request)?;
    let mut machine = machine_at(manager, id, cycle, route);
    let log = machine.step();
    complete_step(manager, &request, machine, log).map(|result| result.log)
}

fn read_memory(
    manager: &SessionManager<Counter>,
    id: &str,
    cycle: u64,
    address: u64,
    length: u64,
) -> Result<Vec<u8>, ProtocolError> {
    let request = SessionReadMemoryRequest {
        session_id: id.to_string(),
        time: cycle,
        position: wire::ReadMemoryRequest { address, length },
    };
    let route = plan_read_memory(manager, &request)?;
    let machine = machine_at(manager, id, cycle, route);
    let data = machine.read(address, length);
    complete_read_memory(&request, data).map(|result| result.read_content.data)
}

fn get_proof(
    manager: &SessionManager<Counter>,
    id: &str,
    cycle: u64,
    address: u64,
    log2_size: u64,
) -> Result<Proof, ProtocolError> {
    let request = SessionGetProofRequest {
        session_id: id.to_string(),
        time: cycle,
        target: wire::GetProofRequest { address, log2_size },
    };
    let route = plan_get_proof(manager, &request)?;
    let machine = machine_at(manager, id, cycle, route);
    complete_get_proof(&request, machine.proof_of_word()).map(|result| result.proof)
}

fn cycle_of(manager: &SessionManager<Counter>, id: &str) -> u64 {
    manager.lookup(&id.to_string()).unwrap().current_cycle()
}

#[test]
fn operations_have_their_method_names() {
    assert_eq!(
        Operation::NewSession.method_name(),
        "/CartesiManagerHigh.MachineManagerHigh/NewSession"
    );
    assert_eq!(
        Operation::SessionRun.method_name(),
        "/CartesiManagerHigh.MachineManagerHigh/SessionRun"
    );
    assert_eq!(
        Operation::SessionStep.method_name(),
        "/CartesiManagerHigh.MachineManagerHigh/SessionStep"
    );
    assert_eq!(
        Operation::SessionReadMemory.method_name(),
        "/CartesiManagerHigh.MachineManagerHigh/SessionReadMemory"
    );
    assert_eq!(
        Operation::SessionGetProof.method_name(),
        "/CartesiManagerHigh.MachineManagerHigh/SessionGetProof"
    );
}

#[test]
fn new_session_returns_the_initial_digest() {
    let mut manager: SessionManager<Counter> = SessionManager::new(8);
    let hash = open(&mut manager, "one").unwrap();
    assert_eq!(hash.bytes, root_over(0).bytes);
    assert_eq!(cycle_of(&manager, "one"), 0);
}

#[test]
fn new_session_twice_fails_and_keeps_the_first() {
    let mut manager = manager_with("one");
    run(&mut manager, "one", vec![4]).unwrap();
    assert_eq!(open(&mut manager, "one"), Err(ProtocolError::DuplicateSessionId));
    assert_eq!(manager.len(), 1);
    assert_eq!(cycle_of(&manager, "one"), 4);
    assert_eq!(manager.lookup(&"one".to_string()).unwrap().machine().word, 4);
}

#[test]
fn cycles_must_strictly_ascend() {
    assert_eq!(check_cycles(&vec![]), Ok(()));
    assert_eq!(check_cycles(&vec![5]), Ok(()));
    assert_eq!(check_cycles(&vec![0, 1, 2, 100]), Ok(()));
    assert_eq!(check_cycles(&vec![3, 3]), Err(ProtocolError::InvalidCycleOrder));
    assert_eq!(check_cycles(&vec![1, 5, 4]), Err(ProtocolError::InvalidCycleOrder));
    assert_eq!(check_cycles(&vec![9, 0]), Err(ProtocolError::InvalidCycleOrder));
}

#[test]
fn run_plan_goes_from_checkpoint_to_checkpoint() {
    let manager = manager_with("one");
    let request = SessionRunRequest { session_id: "one".to_string(), times: vec![3, 10, 11] };
    let plan = plan_run(&manager, &request).unwrap();
    assert_eq!(plan.route, Route { start: 0, live: true, steps: 3 });
    assert_eq!(plan.legs, vec![7, 1]);
    let request = SessionRunRequest { session_id: "one".to_string(), times: vec![] };
    let plan = plan_run(&manager, &request).unwrap();
    assert_eq!(plan.route, Route { start: 0, live: true, steps: 0 });
    assert!(plan.legs.is_empty());
}

#[test]
fn run_returns_one_digest_per_checkpoint_and_stops_at_the_last() {
    let mut manager = manager_with("one");
    let hashes = run(&mut manager, "one", vec![1, 2, 7]).unwrap();
    assert_eq!(hashes.len(), 3);
    assert_eq!(hashes[0].bytes, root_over(1).bytes);
    assert_eq!(hashes[1].bytes, root_over(2).bytes);
    assert_eq!(hashes[2].bytes, root_over(7).bytes);
    assert_eq!(cycle_of(&manager, "one"), 7);
}

#[test]
fn run_without_checkpoints_leaves_the_session() {
    let mut manager = manager_with("one");
    run(&mut manager, "one", vec![5]).unwrap();
    assert_eq!(run(&mut manager, "one", vec![]).unwrap().len(), 0);
    assert_eq!(cycle_of(&manager, "one"), 5);
}

#[test]
fn run_refuses_cycles_out_of_order_and_keeps_the_session() {
    let mut manager = manager_with("one");
    run(&mut manager, "one", vec![5]).unwrap();
    assert_eq!(run(&mut manager, "one", vec![6, 6]), Err(ProtocolError::InvalidCycleOrder));
    assert_eq!(run(&mut manager, "one", vec![8, 7]), Err(ProtocolError::InvalidCycleOrder));
    assert_eq!(cycle_of(&manager, "one"), 5);
    let request = SessionRunRequest { session_id: "one".to_string(), times: vec![8, 7] };
    let result = complete_run(&mut manager, &request, Counter { word: 7 }, vec![]);
    assert_eq!(result.err(), Some(ProtocolError::InvalidCycleOrder));
    assert_eq!(cycle_of(&manager, "one"), 5);
}

#[test]
fn run_on_an_unknown_session_fails() {
    let mut manager = manager_with("one");
    assert_eq!(run(&mut manager, "two", vec![1]), Err(ProtocolError::SessionNotFound));
    let request = SessionRunRequest { session_id: "two".to_string(), times: vec![1] };
    let result = complete_run(&mut manager, &request, Counter { word: 1 }, vec![root_over(1)]);
    assert_eq!(result.err(), Some(ProtocolError::SessionNotFound));
}

#[test]
fn run_needs_one_digest_per_checkpoint() {
    let mut manager = manager_with("one");
    let request = SessionRunRequest { session_id: "one".to_string(), times: vec![1, 2] };
    let result = complete_run(&mut manager, &request, Counter { word: 2 }, vec![root_over(1)]);
    assert_eq!(result.err(), Some(ProtocolError::MalformedRequest));
    assert_eq!(cycle_of(&manager, "one"), 0);
}

#[test]
fn run_backward_replays_from_a_snapshot() {
    let mut manager = manager_with("one");
    run(&mut manager, "one", vec![10]).unwrap();
    run(&mut manager, "one", vec![20]).unwrap();
    let request = SessionRunRequest { session_id: "one".to_string(), times: vec![13, 14] };
    let plan = plan_run(&manager, &request).unwrap();
    assert_eq!(plan.route, Route { start: 10, live: false, steps: 3 });
    assert_eq!(plan.legs, vec![1]);
    let hashes = run(&mut manager, "one", vec![13, 14]).unwrap();
    assert_eq!(hashes[0].bytes, root_over(13).bytes);
    assert_eq!(hashes[1].bytes, root_over(14).bytes);
    assert_eq!(cycle_of(&manager, "one"), 14);
}

#[test]
fn run_of_three_checkpoints_equals_three_runs_on_fresh_sessions() {
    let mut whole = manager_with("whole");
    let hashes = run(&mut whole, "whole", vec![2, 5, 9]).unwrap();
    let mut first = manager_with("first");
    let mut second = manager_with("second");
    let mut third = manager_with("third");
    let one = run(&mut first, "first", vec![2]).unwrap();
    let two = run(&mut second, "second", vec![5]).unwrap();
    let three = run(&mut third, "third", vec![9]).unwrap();
    assert_eq!(hashes[0].bytes, one[0].bytes);
    assert_eq!(hashes[1].bytes, two[0].bytes);
    assert_eq!(hashes[2].bytes, three[0].bytes);
}

#[test]
fn step_on_two_sessions_of_the_same_machine_gives_the_same_log() {
    let mut left = manager_with("left");
    let mut right = manager_with("right");
    run(&mut right, "right", vec![3, 40]).unwrap();
    let a = step(&mut left, "left", 6).unwrap();
    let b = step(&mut right, "right", 6).unwrap();
    assert_eq!(a.len(), b.len());
    for (x, y) in a.iter().zip(b.iter()) {
        assert_eq!(x.operation, y.operation);
        assert_eq!(x.address, y.address);
        assert_eq!(x.value_read, y.value_read);
        assert_eq!(x.value_written, y.value_written);
        assert_eq!(x.proof.address, y.proof.address);
        assert_eq!(x.proof.log2_size, y.proof.log2_size);
        assert_eq!(x.proof.target_hash.bytes, y.proof.target_hash.bytes);
        assert_eq!(x.proof.root_hash.bytes, y.proof.root_hash.bytes);
        assert_eq!(x.proof.sibling_hashes.len(), y.proof.sibling_hashes.len());
        for (s, t) in x.proof.sibling_hashes.iter().zip(y.proof.sibling_hashes.iter()) {
            assert_eq!(s.bytes, t.bytes);
        }
    }
    assert_eq!(cycle_of(&left, "left"), 7);
    assert_eq!(cycle_of(&right, "right"), 7);
}

#[test]
fn step_then_read_then_prove() {
    let mut manager = manager_with("one");
    let log = step(&mut manager, "one", 0).unwrap();
    assert_eq!(log.len(), 1);
    assert_eq!(log[0].operation, AccessOperation::Write);
    assert_eq!(log[0].address, 0);
    assert_eq!(log[0].value_read, [0, 0, 0, 0, 0, 0, 0, 0]);
    assert_eq!(log[0].value_written, [1, 0, 0, 0, 0, 0, 0, 0]);
    let root = log[0].proof.root_hash;
    assert_eq!(root.bytes, root_over(1).bytes);
    assert_eq!(cycle_of(&manager, "one"), 1);
    let data = read_memory(&manager, "one", 1, 0, 8).unwrap();
    assert_eq!(data, vec![1, 0, 0, 0, 0, 0, 0, 0]);
    let proof = get_proof(&manager, "one", 1, 0, 3).unwrap();
    assert_eq!(proof.root_hash.bytes, root.bytes);
    assert!(proof.is_well_formed());
    assert!(proof.verify());
    assert_eq!(cycle_of(&manager, "one"), 1);
}

#[test]
fn written_word_is_read_back_at_the_next_cycle() {
    let mut manager = manager_with("one");
    for cycle in [0u64, 1, 2, 300] {
        let log = step(&mut manager, "one", cycle).unwrap();
        for access in &log {
            assert_eq!(access.operation, AccessOperation::Write);
            let data = read_memory(&manager, "one", cycle + 1, access.address, 8).unwrap();
            assert_eq!(data, access.value_written.to_vec());
        }
    }
}

#[test]
fn proofs_handed_out_verify() {
    let mut manager = manager_with("one");
    let log = step(&mut manager, "one", 12).unwrap();
    for access in &log {
        assert!(access.is_well_formed());
        assert!(access.verify());
        assert!(access.proof.verify());
    }
    let proof = get_proof(&manager, "one", 5, 0, 3).unwrap();
    assert!(proof.verify());
    assert_eq!(proof.root_hash.bytes, root_over(5).bytes);
}

#[test]
fn step_refuses_a_read_that_writes() {
    let mut manager = manager_with("one");
    let machine = Counter { word: 0 };
    let request = SessionStepRequest { session_id: "one".to_string(), time: 0 };
    let good = Access {
        operation: AccessOperation::Read,
        address: 0,
        value_read: [0; 8],
        value_written: [0; 8],
        proof: machine.proof_of_word(),
    };
    assert_eq!(check_log(&vec![good.clone()]), Ok(()));
    let bad = Access { value_written: [0, 0, 0, 0, 0, 0, 0, 1], ..good.clone() };
    assert_eq!(check_log(&vec![good.clone(), bad.clone()]), Err(ProtocolError::MalformedRequest));
    let result = complete_step(&mut manager, &request, machine.clone(), vec![bad]);
    assert_eq!(result.err(), Some(ProtocolError::MalformedRequest));
    assert_eq!(cycle_of(&manager, "one"), 0);
    let result = complete_step(&mut manager, &request, machine, vec![good]).unwrap();
    assert_eq!(result.log[0].value_written, [0; 8]);
    assert_eq!(cycle_of(&manager, "one"), 1);
}

#[test]
fn step_refuses_an_access_that_does_not_fit_its_proof() {
    let machine = Counter { word: 0 };
    let good = Access {
        operation: AccessOperation::Read,
        address: 0,
        value_read: [0; 8],
        value_written: [0; 8],
        proof: machine.proof_of_word(),
    };
    let moved = Access { address: 8, ..good.clone() };
    assert_eq!(check_log(&vec![moved]), Err(ProtocolError::MalformedRequest));
    let mut larger = good.clone();
    larger.proof.log2_size = 4;
    larger.proof.sibling_hashes.pop();
    assert_eq!(check_log(&vec![larger]), Err(ProtocolError::MalformedRequest));
    let mut short = good.clone();
    short.proof.sibling_hashes.pop();
    assert_eq!(check_log(&vec![short]), Err(ProtocolError::MalformedRequest));
    let mut unaligned = good;
    unaligned.address = 4;
    unaligned.proof.address = 4;
    assert_eq!(check_log(&vec![unaligned]), Err(ProtocolError::MalformedRequest));
}

#[test]
fn step_refuses_a_proof_that_does_not_verify_and_keeps_the_session() {
    let mut manager = manager_with("one");
    let request = SessionStepRequest { session_id: "one".to_string(), time: 0 };
    let mut machine = Counter { word: 0 };
    let mut log = machine.step();
    log[0].proof.root_hash.bytes[0] ^= 1;
    assert_eq!(check_log(&log), Err(ProtocolError::ProofVerificationFailed));
    let result = complete_step(&mut manager, &request, machine.clone(), log);
    assert_eq!(result.err(), Some(ProtocolError::ProofVerificationFailed));
    assert_eq!(cycle_of(&manager, "one"), 0);
    assert_eq!(manager.lookup(&"one".to_string()).unwrap().machine().word, 0);
    let mut machine = Counter { word: 0 };
    let mut log = machine.step();
    log[0].value_written = [2, 0, 0, 0, 0, 0, 0, 0];
    assert_eq!(check_log(&log), Err(ProtocolError::ProofVerificationFailed));
}

#[test]
fn step_at_the_last_cycle_fails() {
    let mut manager = manager_with("one");
    let request = SessionStepRequest { session_id: "one".to_string(), time: u64::MAX };
    assert_eq!(plan_step(&manager, &request), Err(ProtocolError::InvalidCycleOrder));
    let result = complete_step(&mut manager, &request, Counter { word: 0 }, vec![]);
    assert_eq!(result.err(), Some(ProtocolError::InvalidCycleOrder));
    let request = SessionStepRequest { session_id: "one".to_string(), time: u64::MAX - 1 };
    assert_eq!(
        plan_step(&manager, &request),
        Ok(Route { start: 0, live: true, steps: u64::MAX - 1 })
    );
    let request = SessionStepRequest { session_id: "two".to_string(), time: 1 };
    assert_eq!(plan_step(&manager, &request), Err(ProtocolError::SessionNotFound));
}

#[test]
fn step_behind_the_machine_replays_from_a_snapshot() {
    let mut manager = manager_with("one");
    run(&mut manager, "one", vec![10]).unwrap();
    let request = SessionStepRequest { session_id: "one".to_string(), time: 3 };
    assert_eq!(plan_step(&manager, &request), Ok(Route { start: 0, live: false, steps: 3 }));
    let log = step(&mut manager, "one", 3).unwrap();
    assert_eq!(log[0].value_read, [3, 0, 0, 0, 0, 0, 0, 0]);
    assert_eq!(log[0].value_written, [4, 0, 0, 0, 0, 0, 0, 0]);
    assert_eq!(cycle_of(&manager, "one"), 4);
}

#[test]
fn read_must_ask_for_whole_words() {
    let read = |address: u64, length: u64| check_read(&wire::ReadMemoryRequest { address, length });
    assert_eq!(read(0, 8), Ok(()));
    assert_eq!(read(64, 0), Ok(()));
    assert_eq!(read(8, 4096), Ok(()));
    assert_eq!(read(4, 8), Err(ProtocolError::MemoryAlignmentError));
    assert_eq!(read(8, 12), Err(ProtocolError::MemoryAlignmentError));
    assert_eq!(read(1, 1), Err(ProtocolError::MemoryAlignmentError));
    assert_eq!(read(u64::MAX - 7, 8), Ok(()));
    assert_eq!(read(u64::MAX - 7, 16), Err(ProtocolError::MemoryAlignmentError));
    assert_eq!(read(8, u64::MAX - 7), Ok(()));
    assert_eq!(read(16, u64::MAX - 7), Err(ProtocolError::MemoryAlignmentError));
    assert_eq!(read(0, u64::MAX - 7), Ok(()));
}

#[test]
fn read_memory_fails_on_misalignment_and_unknown_sessions() {
    let manager = manager_with("one");
    assert_eq!(read_memory(&manager, "one", 0, 4, 8), Err(ProtocolError::MemoryAlignmentError));
    assert_eq!(read_memory(&manager, "two", 0, 0, 8), Err(ProtocolError::SessionNotFound));
    assert_eq!(read_memory(&manager, "two", 0, 4, 8), Err(ProtocolError::SessionNotFound));
    assert_eq!(read_memory(&manager, "one", 9, 0, 16).unwrap().len(), 16);
    assert_eq!(cycle_of(&manager, "one"), 0);
}

#[test]
fn read_memory_needs_the_length_asked_for() {
    let request = SessionReadMemoryRequest {
        session_id: "one".to_string(),
        time: 0,
        position: wire::ReadMemoryRequest { address: 0, length: 8 },
    };
    let result = complete_read_memory(&request, vec![0; 7]);
    assert_eq!(result.err(), Some(ProtocolError::MalformedRequest));
    let result = complete_read_memory(&request, vec![1, 2, 3, 4, 5, 6, 7, 8]).unwrap();
    assert_eq!(result.read_content.data, vec![1, 2, 3, 4, 5, 6, 7, 8]);
}

#[test]
fn proof_target_must_be_a_node_of_the_tree() {
    let target =
        |address: u64, log2_size: u64| check_target(&wire::GetProofRequest { address, log2_size });
    assert_eq!(target(0, 3), Ok(()));
    assert_eq!(target(8, 3), Ok(()));
    assert_eq!(target(16, 4), Ok(()));
    assert_eq!(target(0, 64), Ok(()));
    assert_eq!(target(1u64 << 63, 63), Ok(()));
    assert_eq!(target(4, 3), Err(ProtocolError::MemoryAlignmentError));
    assert_eq!(target(8, 4), Err(ProtocolError::MemoryAlignmentError));
    assert_eq!(target(8, 64), Err(ProtocolError::MemoryAlignmentError));
    assert_eq!(target(0, 65), Err(ProtocolError::MemoryAlignmentError));
    assert_eq!(target(0, 2), Err(ProtocolError::MemoryAlignmentError));
    assert_eq!(target(0, u64::MAX), Err(ProtocolError::MemoryAlignmentError));
}

#[test]
fn get_proof_fails_on_misalignment_and_changes_nothing() {
    let mut manager = manager_with("one");
    run(&mut manager, "one", vec![6]).unwrap();
    assert_eq!(get_proof(&manager, "one", 2, 4, 3).err(), Some(ProtocolError::MemoryAlignmentError));
    assert_eq!(get_proof(&manager, "one", 2, 8, 4).err(), Some(ProtocolError::MemoryAlignmentError));
    assert_eq!(get_proof(&manager, "two", 2, 0, 3).err(), Some(ProtocolError::SessionNotFound));
    let session = manager.lookup(&"one".to_string()).unwrap();
    assert_eq!(session.current_cycle(), 6);
    assert_eq!(session.machine().word, 6);
    assert_eq!(session.snapshots().len(), 1);
}

#[test]
fn get_proof_refuses_a_proof_for_another_target_or_root() {
    let machine = Counter { word: 3 };
    let request = SessionGetProofRequest {
        session_id: "one".to_string(),
        time: 3,
        target: wire::GetProofRequest { address: 8, log2_size: 3 },
    };
    let result = complete_get_proof(&request, machine.proof_of_word());
    assert_eq!(result.err(), Some(ProtocolError::MalformedRequest));
    let request = SessionGetProofRequest {
        session_id: "one".to_string(),
        time: 3,
        target: wire::GetProofRequest { address: 0, log2_size: 3 },
    };
    let mut short = machine.proof_of_word();
    short.sibling_hashes.pop();
    assert_eq!(complete_get_proof(&request, short).err(), Some(ProtocolError::MalformedRequest));
    let mut wrong = machine.proof_of_word();
    wrong.root_hash.bytes[5] ^= 0x10;
    assert_eq!(
        complete_get_proof(&request, wrong).err(),
        Some(ProtocolError::ProofVerificationFailed)
    );
    let answer = complete_get_proof(&request, machine.proof_of_word()).unwrap();
    assert_eq!(answer.proof.root_hash.bytes, root_over(3).bytes);
    let request = SessionGetProofRequest {
        session_id: "one".to_string(),
        time: 3,
        target: wire::GetProofRequest { address: 4, log2_size: 3 },
    };
    let result = complete_get_proof(&request, machine.proof_of_word());
    assert_eq!(result.err(), Some(ProtocolError::MemoryAlignmentError));
}
