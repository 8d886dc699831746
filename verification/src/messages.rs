//! The requests and results of the five operations of the protocol, and how
//! they are built from decoded messages and turned into them.

use vstd::prelude::*;
use crate::access::{log_of_messages, log_view, Access, AccessView};
use crate::error::ProtocolError;
use crate::hash::{digests, H256};
use crate::merkle::{all_digests, digest_list, required_digest, Proof, ProofView};
use crate::wire;

verus! {

/// A request for a new session.
#[derive(Clone, Debug, PartialEq, Eq)]
pub struct NewSessionRequest {
    pub machine: wire::MachineRequest,
    pub session_id: String,
}

impl NewSessionRequest {
    /// The request that a decoded request stands for. One without a machine
    /// is refused.
    pub fn from(result: wire::NewSessionRequest) -> (request: Result<
        NewSessionRequest,
        ProtocolError,
    >)
        ensures
            match request {
                Ok(converted) => {
                    &&& result.machine matches Some(machine)
                    &&& converted == (NewSessionRequest {
                        machine,
                        session_id: result.session_id,
                    })
                },
                Err(error) => {
                    &&& error == ProtocolError::MalformedRequest
                    &&& result.machine is None
                },
            },
    {
        match result.machine {
            Some(machine) => Ok(NewSessionRequest { machine, session_id: result.session_id }),
            None => Err(ProtocolError::MalformedRequest),
        }
    }
}

impl From<NewSessionRequest> for wire::NewSessionRequest {
    fn from(request: NewSessionRequest) -> (message: wire::NewSessionRequest) {
        wire::NewSessionRequest { machine: Some(request.machine), session_id: request.session_id }
    }
}

impl vstd::std_specs::convert::FromSpecImpl<NewSessionRequest> for wire::NewSessionRequest {
    open spec fn obeys_from_spec() -> bool {
        true
    }

    open spec fn from_spec(request: NewSessionRequest) -> wire::NewSessionRequest {
        wire::NewSessionRequest { machine: Some(request.machine), session_id: request.session_id }
    }
}

/// A request to run a session's machine up to each of the cycles in `times`.
#[derive(Clone, Debug, PartialEq, Eq)]
pub struct SessionRunRequest {
    pub session_id: String,
    pub times: Vec<u64>,
}

impl From<wire::SessionRunRequest> for SessionRunRequest {
    fn from(result: wire::SessionRunRequest) -> (request: SessionRunRequest) {
        SessionRunRequest { session_id: result.session_id, times: result.final_cycles }
    }
}

impl vstd::std_specs::convert::FromSpecImpl<wire::SessionRunRequest> for SessionRunRequest {
    open spec fn obeys_from_spec() -> bool {
        true
    }

    open spec fn from_spec(result: wire::SessionRunRequest) -> SessionRunRequest {
        SessionRunRequest { session_id: result.session_id, times: result.final_cycles }
    }
}

impl From<SessionRunRequest> for wire::SessionRunRequest {
    fn from(request: SessionRunRequest) -> (message: wire::SessionRunRequest) {
        wire::SessionRunRequest { session_id: request.session_id, final_cycles: request.times }
    }
}

impl vstd::std_specs::convert::FromSpecImpl<SessionRunRequest> for wire::SessionRunRequest {
    open spec fn obeys_from_spec() -> bool {
        true
    }

    open spec fn from_spec(request: SessionRunRequest) -> wire::SessionRunRequest {
        wire::SessionRunRequest { session_id: request.session_id, final_cycles: request.times }
    }
}

/// The result of a run: the machine's digest at each cycle asked for, in the
/// order of the request.
#[derive(Clone, Debug, PartialEq, Eq)]
pub struct SessionRunResult {
    pub hashes: Vec<H256>,
}

impl View for SessionRunResult {
    type V = Seq<Seq<u8>>;

    open spec fn view(&self) -> Seq<Seq<u8>> {
        digests(self.hashes@)
    }
}

impl SessionRunResult {
    /// The result that a decoded result stands for: the same digests in the
    /// same order. One with a digest that has not 32 bytes is refused.
    pub fn from(result: wire::SessionRunResult) -> (converted: Result<
        SessionRunResult,
        ProtocolError,
    >)
        ensures
            match converted {
                Ok(run) => all_digests(result@) && run@ == result@,
                Err(error) => error == ProtocolError::MalformedRequest && !all_digests(result@),
            },
    {
        match digest_list(&result.hashes) {
            Ok(hashes) => Ok(SessionRunResult { hashes }),
            Err(error) => Err(error),
        }
    }
}

/// The result of creating a session: the digest of the machine's initial
/// state.
#[derive(Clone, Debug, PartialEq, Eq)]
pub struct NewSessionResult {
    pub hash: H256,
}

impl View for NewSessionResult {
    type V = Seq<u8>;

    open spec fn view(&self) -> Seq<u8> {
        self.hash@
    }
}

impl NewSessionResult {
    /// The result that a decoded digest stands for. A digest that has not 32
    /// bytes is refused.
    pub fn from(result: wire::Hash) -> (converted: Result<NewSessionResult, ProtocolError>)
        ensures
            match converted {
                Ok(created) => result@.len() == 32 && created@ == result@,
                Err(error) => error == ProtocolError::MalformedRequest && result@.len() != 32,
            },
    {
        match H256::from_slice(result.content.as_slice()) {
            Some(hash) => Ok(NewSessionResult { hash }),
            None => Err(ProtocolError::MalformedRequest),
        }
    }
}

/// A request for one logged step of a session's machine, starting at the
/// cycle `time`.
#[derive(Clone, Debug, PartialEq, Eq)]
pub struct SessionStepRequest {
    pub session_id: String,
    pub time: u64,
}

impl From<wire::SessionStepRequest> for SessionStepRequest {
    fn from(result: wire::SessionStepRequest) -> (request: SessionStepRequest) {
        SessionStepRequest { session_id: result.session_id, time: result.initial_cycle }
    }
}

impl vstd::std_specs::convert::FromSpecImpl<wire::SessionStepRequest> for SessionStepRequest {
    open spec fn obeys_from_spec() -> bool {
        true
    }

    open spec fn from_spec(result: wire::SessionStepRequest) -> SessionStepRequest {
        SessionStepRequest { session_id: result.session_id, time: result.initial_cycle }
    }
}

impl From<SessionStepRequest> for wire::SessionStepRequest {
    fn from(request: SessionStepRequest) -> (message: wire::SessionStepRequest) {
        wire::SessionStepRequest { session_id: request.session_id, initial_cycle: request.time }
    }
}

impl vstd::std_specs::convert::FromSpecImpl<SessionStepRequest> for wire::SessionStepRequest {
    open spec fn obeys_from_spec() -> bool {
        true
    }

    open spec fn from_spec(request: SessionStepRequest) -> wire::SessionStepRequest {
        wire::SessionStepRequest { session_id: request.session_id, initial_cycle: request.time }
    }
}

/// The result of a logged step: the accesses that the machine made during
/// the step, in the order in which it made them.
#[derive(Clone, Debug, PartialEq, Eq)]
pub struct SessionStepResult {
    pub log: Vec<Access>,
}

impl View for SessionStepResult {
    type V = Seq<AccessView>;

    open spec fn view(&self) -> Seq<AccessView> {
        log_view(self.log@)
    }
}

/// Whether every access of a decoded log decodes.
pub open spec fn all_accesses(log: Seq<wire::AccessView>) -> bool {
    forall|i: int| 0 <= i < log.len() ==> AccessView::decodes(#[trigger] log[i])
}

/// The accesses of a decoded log, in the same order.
pub fn access_list(accesses: Vec<wire::Access>) -> (result: Result<Vec<Access>, ProtocolError>)
    ensures
        match result {
            Ok(list) => {
                &&& all_accesses(wire::access_views(accesses@))
                &&& log_view(list@) == log_of_messages(wire::access_views(accesses@))
            },
            Err(error) => {
                &&& error == ProtocolError::MalformedRequest
                &&& !all_accesses(wire::access_views(accesses@))
            },
        },
{
    let ghost decoded = wire::access_views(accesses@);
    let mut list: Vec<Access> = Vec::with_capacity(accesses.len());
    for access in iter: accesses.into_iter()
        invariant
            decoded == wire::access_views(accesses@),
            iter.seq() == accesses@,
            list@.len() == iter.index(),
            forall|j: int| 0 <= j < iter.index() ==> AccessView::decodes(#[trigger] decoded[j]),
            forall|j: int|
                0 <= j < iter.index() ==> (#[trigger] list@[j])@ == AccessView::of_message(
                    decoded[j],
                ),
    {
        match Access::from(access) {
            Ok(converted) => {
                list.push(converted);
            },
            Err(error) => {
                assert(!AccessView::decodes(decoded[iter.index() as int]));
                return Err(error);
            },
        }
    }
    assert(log_view(list@) =~= log_of_messages(decoded));
    Ok(list)
}

impl SessionStepResult {
    /// Whether a decoded result has its log, and every access of the log
    /// decodes.
    pub open spec fn decodes(message: Option<Seq<wire::AccessView>>) -> bool {
        message matches Some(log) && all_accesses(log)
    }

    /// The result that a decoded result stands for: the accesses of its log
    /// in the same order. One without a log, or with an access that does not
    /// decode, is refused.
    pub fn from(result: wire::SessionStepResult) -> (converted: Result<
        SessionStepResult,
        ProtocolError,
    >)
        ensures
            match converted {
                Ok(step) => {
                    &&& SessionStepResult::decodes(result@)
                    &&& step@ == log_of_messages(result@->0)
                },
                Err(error) => {
                    &&& error == ProtocolError::MalformedRequest
                    &&& !SessionStepResult::decodes(result@)
                },
            },
    {
        match result.log {
            Some(log) => match access_list(log.accesses) {
                Ok(list) => Ok(SessionStepResult { log: list }),
                Err(error) => Err(error),
            },
            None => Err(ProtocolError::MalformedRequest),
        }
    }
}

/// A request to read a session's memory at the cycle `time`.
#[derive(Clone, Debug, PartialEq, Eq)]
pub struct SessionReadMemoryRequest {
    pub session_id: String,
    pub time: u64,
    pub position: wire::ReadMemoryRequest,
}

impl SessionReadMemoryRequest {
    /// The request that a decoded request stands for. One without a position
    /// is refused.
    pub fn from(result: wire::SessionReadMemoryRequest) -> (request: Result<
        SessionReadMemoryRequest,
        ProtocolError,
    >)
        ensures
            match request {
                Ok(converted) => {
                    &&& result.position matches Some(position)
                    &&& converted == (SessionReadMemoryRequest {
                        session_id: result.session_id,
                        time: result.cycle,
                        position,
                    })
                },
                Err(error) => {
                    &&& error == ProtocolError::MalformedRequest
                    &&& result.position is None
                },
            },
    {
        match result.position {
            Some(position) => Ok(
                SessionReadMemoryRequest {
                    session_id: result.session_id,
                    time: result.cycle,
                    position,
                },
            ),
            None => Err(ProtocolError::MalformedRequest),
        }
    }
}

impl From<SessionReadMemoryRequest> for wire::SessionReadMemoryRequest {
    fn from(request: SessionReadMemoryRequest) -> (message: wire::SessionReadMemoryRequest) {
        wire::SessionReadMemoryRequest {
            session_id: request.session_id,
            cycle: request.time,
            position: Some(request.position),
        }
    }
}

impl vstd::std_specs::convert::FromSpecImpl<SessionReadMemoryRequest> for wire::SessionReadMemoryRequest {
    open spec fn obeys_from_spec() -> bool {
        true
    }

    open spec fn from_spec(request: SessionReadMemoryRequest) -> wire::SessionReadMemoryRequest {
        wire::SessionReadMemoryRequest {
            session_id: request.session_id,
            cycle: request.time,
            position: Some(request.position),
        }
    }
}

/// The bytes that a memory read returned.
#[derive(Clone, Debug, PartialEq, Eq)]
pub struct ReadMemoryResponse {
    pub data: Vec<u8>,
}

impl From<wire::ReadMemoryResponse> for ReadMemoryResponse {
    fn from(read: wire::ReadMemoryResponse) -> (response: ReadMemoryResponse) {
        ReadMemoryResponse { data: read.data }
    }
}

impl vstd::std_specs::convert::FromSpecImpl<wire::ReadMemoryResponse> for ReadMemoryResponse {
    open spec fn obeys_from_spec() -> bool {
        true
    }

    open spec fn from_spec(read: wire::ReadMemoryResponse) -> ReadMemoryResponse {
        ReadMemoryResponse { data: read.data }
    }
}

/// The result of a memory read.
#[derive(Clone, Debug, PartialEq, Eq)]
pub struct SessionReadMemoryResult {
    pub read_content: ReadMemoryResponse,
}

impl SessionReadMemoryResult {
    /// The result that a decoded result stands for. One without its content
    /// is refused.
    pub fn from(result: wire::SessionReadMemoryResult) -> (converted: Result<
        SessionReadMemoryResult,
        ProtocolError,
    >)
        ensures
            match converted {
                Ok(read) => {
                    &&& result.read_content matches Some(content)
                    &&& read == (SessionReadMemoryResult {
                        read_content: ReadMemoryResponse { data: content.data },
                    })
                },
                Err(error) => {
                    &&& error == ProtocolError::MalformedRequest
                    &&& result.read_content is None
                },
            },
    {
        match result.read_content {
            Some(content) => Ok(
                SessionReadMemoryResult { read_content: ReadMemoryResponse::from(content) },
            ),
            None => Err(ProtocolError::MalformedRequest),
        }
    }
}

/// A request for a Merkle proof of a session's memory at the cycle `time`.
#[derive(Clone, Debug, PartialEq, Eq)]
pub struct SessionGetProofRequest {
    pub session_id: String,
    pub time: u64,
    pub target: wire::GetProofRequest,
}

impl SessionGetProofRequest {
    /// The request that a decoded request stands for. One without a target
    /// is refused.
    pub fn from(result: wire::SessionGetProofRequest) -> (request: Result<
        SessionGetProofRequest,
        ProtocolError,
    >)
        ensures
            match request {
                Ok(converted) => {
                    &&& result.target matches Some(target)
                    &&& converted == (SessionGetProofRequest {
                        session_id: result.session_id,
                        time: result.cycle,
                        target,
                    })
                },
                Err(error) => {
                    &&& error == ProtocolError::MalformedRequest
                    &&& result.target is None
                },
            },
    {
        match result.target {
            Some(target) => Ok(
                SessionGetProofRequest {
                    session_id: result.session_id,
                    time: result.cycle,
                    target,
                },
            ),
            None => Err(ProtocolError::MalformedRequest),
        }
    }
}

impl From<SessionGetProofRequest> for wire::SessionGetProofRequest {
    fn from(request: SessionGetProofRequest) -> (message: wire::SessionGetProofRequest) {
        wire::SessionGetProofRequest {
            session_id: request.session_id,
            cycle: request.time,
            target: Some(request.target),
        }
    }
}

impl vstd::std_specs::convert::FromSpecImpl<SessionGetProofRequest> for wire::SessionGetProofRequest {
    open spec fn obeys_from_spec() -> bool {
        true
    }

    open spec fn from_spec(request: SessionGetProofRequest) -> wire::SessionGetProofRequest {
        wire::SessionGetProofRequest {
            session_id: request.session_id,
            cycle: request.time,
            target: Some(request.target),
        }
    }
}

/// The result of a request for a Merkle proof.
#[derive(Clone, Debug, PartialEq, Eq)]
pub struct SessionGetProofResult {
    pub proof: Proof,
}

impl View for SessionGetProofResult {
    type V = ProofView;

    open spec fn view(&self) -> ProofView {
        self.proof@
    }
}

impl SessionGetProofResult {
    /// The result that a decoded proof stands for. A proof that does not
    /// decode is refused.
    pub fn from(proof: wire::Proof) -> (converted: Result<SessionGetProofResult, ProtocolError>)
        ensures
            match converted {
                Ok(result) => {
                    &&& ProofView::decodes(proof@)
                    &&& result@ == ProofView::of_message(proof@)
                },
                Err(error) => {
                    &&& error == ProtocolError::MalformedRequest
                    &&& !ProofView::decodes(proof@)
                },
            },
    {
        match Proof::from(proof) {
            Ok(converted) => Ok(SessionGetProofResult { proof: converted }),
            Err(error) => Err(error),
        }
    }
}

} // verus!
