//! Decoded messages, as a codec hands them over.
//!
//! A message field that the encoding leaves optional is an `Option` here, a
//! repeated field a `Vec`, and a byte string a `Vec<u8>` of any length. The
//! protocol types of this crate are built from these shapes, and that is
//! where missing fields and wrong sizes are found.

use vstd::prelude::*;

verus! {

/// A digest as it was decoded: any number of bytes.
#[derive(Clone, Debug, PartialEq, Eq)]
pub struct Hash {
    pub content: Vec<u8>,
}

impl View for Hash {
    type V = Seq<u8>;

    open spec fn view(&self) -> Seq<u8> {
        self.content@
    }
}

/// A machine word as it was decoded: any number of bytes.
#[derive(Clone, Debug, PartialEq, Eq)]
pub struct Word {
    pub content: Vec<u8>,
}

impl View for Word {
    type V = Seq<u8>;

    open spec fn view(&self) -> Seq<u8> {
        self.content@
    }
}

/// The bytes of each digest of a decoded list.
pub open spec fn contents(hashes: Seq<Hash>) -> Seq<Seq<u8>> {
    hashes.map_values(|hash: Hash| hash@)
}

/// The bytes of an optional digest.
pub open spec fn hash_field(field: Option<Hash>) -> Option<Seq<u8>> {
    match field {
        Some(hash) => Some(hash@),
        None => None,
    }
}

/// The bytes of an optional word.
pub open spec fn word_field(field: Option<Word>) -> Option<Seq<u8>> {
    match field {
        Some(word) => Some(word@),
        None => None,
    }
}

/// A decoded Merkle proof.
#[derive(Clone, Debug, PartialEq, Eq)]
pub struct Proof {
    pub address: u64,
    pub log2_size: u32,
    pub target_hash: Option<Hash>,
    pub sibling_hashes: Vec<Hash>,
    pub root_hash: Option<Hash>,
}

/// What a decoded Merkle proof holds.
#[verifier::ext_equal]
pub struct ProofView {
    pub address: u64,
    pub log2_size: u32,
    pub target_hash: Option<Seq<u8>>,
    pub sibling_hashes: Seq<Seq<u8>>,
    pub root_hash: Option<Seq<u8>>,
}

impl View for Proof {
    type V = ProofView;

    open spec fn view(&self) -> ProofView {
        ProofView {
            address: self.address,
            log2_size: self.log2_size,
            target_hash: hash_field(self.target_hash),
            sibling_hashes: contents(self.sibling_hashes@),
            root_hash: hash_field(self.root_hash),
        }
    }
}

/// What a decoded optional proof holds.
pub open spec fn proof_field(field: Option<Proof>) -> Option<ProofView> {
    match field {
        Some(proof) => Some(proof@),
        None => None,
    }
}

/// The kind of a memory access, as decoded.
#[derive(Clone, Copy, Debug, PartialEq, Eq, Structural)]
pub enum AccessOperation {
    Read,
    Write,
}

/// A decoded memory access.
#[derive(Clone, Debug, PartialEq, Eq)]
pub struct Access {
    pub operation: AccessOperation,
    pub read: Option<Word>,
    pub written: Option<Word>,
    pub proof: Option<Proof>,
}

/// What a decoded memory access holds.
#[verifier::ext_equal]
pub struct AccessView {
    pub operation: AccessOperation,
    pub read: Option<Seq<u8>>,
    pub written: Option<Seq<u8>>,
    pub proof: Option<ProofView>,
}

impl View for Access {
    type V = AccessView;

    open spec fn view(&self) -> AccessView {
        AccessView {
            operation: self.operation,
            read: word_field(self.read),
            written: word_field(self.written),
            proof: proof_field(self.proof),
        }
    }
}

/// What each access of a decoded list holds.
pub open spec fn access_views(accesses: Seq<Access>) -> Seq<AccessView> {
    accesses.map_values(|access: Access| access@)
}

/// The decoded log of one machine step.
#[derive(Clone, Debug, PartialEq, Eq)]
pub struct AccessLog {
    pub accesses: Vec<Access>,
}

impl View for AccessLog {
    type V = Seq<AccessView>;

    open spec fn view(&self) -> Seq<AccessView> {
        access_views(self.accesses@)
    }
}

/// The description of the machine that a new session is to run, as the bytes
/// of its configuration. Only the emulator reads them.
#[derive(Clone, Debug, PartialEq, Eq)]
pub struct MachineRequest {
    pub config: Vec<u8>,
}

/// The memory range that a read asks for.
#[derive(Clone, Copy, Debug, PartialEq, Eq, Structural)]
pub struct ReadMemoryRequest {
    pub address: u64,
    pub length: u64,
}

/// The bytes that a read returned.
#[derive(Clone, Debug, PartialEq, Eq)]
pub struct ReadMemoryResponse {
    pub data: Vec<u8>,
}

/// The subtree that a proof is asked for.
#[derive(Clone, Copy, Debug, PartialEq, Eq, Structural)]
pub struct GetProofRequest {
    pub address: u64,
    pub log2_size: u64,
}

/// A decoded request for a new session.
#[derive(Clone, Debug, PartialEq, Eq)]
pub struct NewSessionRequest {
    pub machine: Option<MachineRequest>,
    pub session_id: String,
}

/// A decoded request to run a session's machine up to each of a list of
/// cycles.
#[derive(Clone, Debug, PartialEq, Eq)]
pub struct SessionRunRequest {
    pub session_id: String,
    pub final_cycles: Vec<u64>,
}

/// The decoded result of a run: the machine's digest at each cycle asked for.
#[derive(Clone, Debug, PartialEq, Eq)]
pub struct SessionRunResult {
    pub hashes: Vec<Hash>,
}

impl View for SessionRunResult {
    type V = Seq<Seq<u8>>;

    open spec fn view(&self) -> Seq<Seq<u8>> {
        contents(self.hashes@)
    }
}

/// A decoded request for one logged step of a session's machine.
#[derive(Clone, Debug, PartialEq, Eq)]
pub struct SessionStepRequest {
    pub session_id: String,
    pub initial_cycle: u64,
}

/// The decoded result of a logged step.
#[derive(Clone, Debug, PartialEq, Eq)]
pub struct SessionStepResult {
    pub log: Option<AccessLog>,
}

impl View for SessionStepResult {
    type V = Option<Seq<AccessView>>;

    open spec fn view(&self) -> Option<Seq<AccessView>> {
        match self.log {
            Some(log) => Some(log@),
            None => None,
        }
    }
}

/// A decoded request to read a session's memory at a cycle.
#[derive(Clone, Debug, PartialEq, Eq)]
pub struct SessionReadMemoryRequest {
    pub session_id: String,
    pub cycle: u64,
    pub position: Option<ReadMemoryRequest>,
}

/// The decoded result of a memory read.
#[derive(Clone, Debug, PartialEq, Eq)]
pub struct SessionReadMemoryResult {
    pub read_content: Option<ReadMemoryResponse>,
}

/// A decoded request for a Merkle proof of a session's memory at a cycle.
#[derive(Clone, Debug, PartialEq, Eq)]
pub struct SessionGetProofRequest {
    pub session_id: String,
    pub cycle: u64,
    pub target: Option<GetProofRequest>,
}

} // verus!
