//! The memory accesses that a machine step performs.
//!
//! An access carries a proof for the word it touched, taken at the moment of
//! the access. For a read the proof's target is the digest of the word that
//! was read. For a write it is the digest of the word that was written: the
//! proof of a write certifies the tree as the write left it.

use vstd::prelude::*;
use crate::error::ProtocolError;
use crate::hash::{hash_word, keccak256};
use crate::merkle::{aligned, is_aligned, Proof, ProofView, WORD_LOG2_SIZE};
use crate::wire;

verus! {

/// An access either reads a word or writes one.
#[derive(Clone, Copy, Debug, PartialEq, Eq, Structural)]
pub enum AccessOperation {
    Read,
    Write,
}

impl AccessOperation {
    /// The operation that a decoded operation stands for.
    pub open spec fn of_message(operation: wire::AccessOperation) -> AccessOperation {
        match operation {
            wire::AccessOperation::Read => AccessOperation::Read,
            wire::AccessOperation::Write => AccessOperation::Write,
        }
    }
}

impl From<wire::AccessOperation> for AccessOperation {
    fn from(op: wire::AccessOperation) -> (operation: AccessOperation) {
        match op {
            wire::AccessOperation::Read => AccessOperation::Read,
            wire::AccessOperation::Write => AccessOperation::Write,
        }
    }
}

impl vstd::std_specs::convert::FromSpecImpl<wire::AccessOperation> for AccessOperation {
    open spec fn obeys_from_spec() -> bool {
        true
    }

    open spec fn from_spec(op: wire::AccessOperation) -> AccessOperation {
        AccessOperation::of_message(op)
    }
}

/// One memory access of a machine step.
#[derive(Clone, Debug, PartialEq, Eq)]
pub struct Access {
    pub operation: AccessOperation,
    pub address: u64,
    pub value_read: [u8; 8],
    pub value_written: [u8; 8],
    pub proof: Proof,
}

/// What an access holds, words and digests as their bytes.
#[verifier::ext_equal]
pub struct AccessView {
    pub operation: AccessOperation,
    pub address: u64,
    pub value_read: Seq<u8>,
    pub value_written: Seq<u8>,
    pub proof: ProofView,
}

impl View for Access {
    type V = AccessView;

    open spec fn view(&self) -> AccessView {
        AccessView {
            operation: self.operation,
            address: self.address,
            value_read: self.value_read@,
            value_written: self.value_written@,
            proof: self.proof@,
        }
    }
}

/// What each access of a log holds.
pub open spec fn log_view(log: Seq<Access>) -> Seq<AccessView> {
    log.map_values(|access: Access| access@)
}

/// The accesses that the accesses of a decoded log stand for, in the same
/// order.
pub open spec fn log_of_messages(log: Seq<wire::AccessView>) -> Seq<AccessView> {
    log.map_values(|access: wire::AccessView| AccessView::of_message(access))
}

/// The word of eight zero bytes.
pub open spec fn zero_word() -> Seq<u8> {
    Seq::new(8, |i: int| 0u8)
}

impl AccessView {
    /// Whether a decoded access has its proof and both words, the proof
    /// decodes, and each word has 8 bytes.
    pub open spec fn decodes(message: wire::AccessView) -> bool {
        &&& message.proof matches Some(proof) && ProofView::decodes(proof)
        &&& message.read matches Some(read) && read.len() == 8
        &&& message.written matches Some(written) && written.len() == 8
    }

    /// The access that a decoded access stands for. Its address is the
    /// address of its proof.
    pub open spec fn of_message(message: wire::AccessView) -> AccessView {
        AccessView {
            operation: AccessOperation::of_message(message.operation),
            address: message.proof->0.address,
            value_read: message.read->0,
            value_written: message.written->0,
            proof: ProofView::of_message(message.proof->0),
        }
    }

    /// The word whose digest the proof's target must be: the word read for a
    /// read, the word written for a write.
    pub open spec fn proved_word(self) -> Seq<u8> {
        match self.operation {
            AccessOperation::Read => self.value_read,
            AccessOperation::Write => self.value_written,
        }
    }

    /// The invariant of an access: its proof is for the word at its address,
    /// with one sibling per level, and a read writes the zero word.
    pub open spec fn well_formed(self) -> bool {
        &&& self.proof.well_formed()
        &&& self.proof.log2_size == WORD_LOG2_SIZE
        &&& self.proof.address == self.address
        &&& is_aligned(self.address, WORD_LOG2_SIZE as nat)
        &&& self.operation == AccessOperation::Read ==> self.value_written == zero_word()
    }

    /// Whether the proof certifies the access: its target is the digest of
    /// the word read or written, and it leads from there to its root.
    pub open spec fn verifies(self) -> bool {
        &&& self.proof.target_hash == keccak256(self.proved_word())
        &&& self.proof.verifies()
    }
}

/// The eight bytes of `input` as a word, if `input` has exactly eight.
pub fn to_bytes(input: Vec<u8>) -> (word: Option<[u8; 8]>)
    ensures
        word is Some <==> input@.len() == 8,
        word matches Some(bytes) ==> bytes@ == input@,
{
    if input.len() != 8 {
        None
    } else {
        let bytes: [u8; 8] = [
            input[0],
            input[1],
            input[2],
            input[3],
            input[4],
            input[5],
            input[6],
            input[7],
        ];
        assert(bytes@ =~= input@);
        Some(bytes)
    }
}

/// The word in a required field of a decoded message.
pub fn required_word(field: Option<wire::Word>) -> (result: Result<[u8; 8], ProtocolError>)
    ensures
        match result {
            Ok(word) => field matches Some(content) && content@.len() == 8 && word@ == content@,
            Err(error) => {
                &&& error == ProtocolError::MalformedRequest
                &&& !(field matches Some(content) && content@.len() == 8)
            },
        },
{
    match field {
        Some(content) => match to_bytes(content.content) {
            Some(word) => Ok(word),
            None => Err(ProtocolError::MalformedRequest),
        },
        None => Err(ProtocolError::MalformedRequest),
    }
}

/// Whether `word` is the zero word.
fn is_zero_word(word: &[u8; 8]) -> (zero: bool)
    ensures
        zero == (word@ == zero_word()),
{
    let mut i: usize = 0;
    while i < 8
        invariant
            i <= 8,
            forall|j: int| 0 <= j < i ==> word@[j] == 0,
        decreases 8 - i,
    {
        if word[i] != 0 {
            assert(zero_word()[i as int] == 0);
            return false;
        }
        i += 1;
    }
    assert(word@ =~= zero_word());
    true
}

impl Access {
    /// Whether the access meets its invariant.
    pub fn is_well_formed(&self) -> (ok: bool)
        ensures
            ok == self@.well_formed(),
    {
        let read: bool = match self.operation {
            AccessOperation::Read => true,
            AccessOperation::Write => false,
        };
        self.proof.is_well_formed() && self.proof.log2_size == WORD_LOG2_SIZE && self.proof.address
            == self.address && aligned(self.address, 3) && (!read || is_zero_word(
            &self.value_written,
        ))
    }

    /// Whether the proof certifies the access.
    pub fn verify(&self) -> (ok: bool)
        requires
            self@.well_formed(),
        ensures
            ok == self@.verifies(),
    {
        let leaf = match self.operation {
            AccessOperation::Read => hash_word(&self.value_read),
            AccessOperation::Write => hash_word(&self.value_written),
        };
        self.proof.target_hash.equals(&leaf) && self.proof.verify()
    }

    /// The access that a decoded access stands for. A decoded access without
    /// a proof or a word, or with a proof that does not decode, or with a word
    /// that has not 8 bytes, is refused.
    pub fn from(access: wire::Access) -> (result: Result<Access, ProtocolError>)
        ensures
            match result {
                Ok(converted) => {
                    &&& AccessView::decodes(access@)
                    &&& converted@ == AccessView::of_message(access@)
                },
                Err(error) => {
                    &&& error == ProtocolError::MalformedRequest
                    &&& !AccessView::decodes(access@)
                },
            },
    {
        let wire::Access { operation, read, written, proof: evidence } = access;
        let proof: Proof = match evidence {
            Some(decoded) => match Proof::from(decoded) {
                Ok(converted) => converted,
                Err(error) => {
                    return Err(error);
                },
            },
            None => {
                return Err(ProtocolError::MalformedRequest);
            },
        };
        let value_read = match required_word(read) {
            Ok(word) => word,
            Err(error) => {
                return Err(error);
            },
        };
        let value_written = match required_word(written) {
            Ok(word) => word,
            Err(error) => {
                return Err(error);
            },
        };
        let converted = Access {
            operation: AccessOperation::from(operation),
            address: proof.address,
            value_read,
            value_written,
            proof,
        };
        assert(converted@ =~= AccessView::of_message(access@));
        Ok(converted)
    }
}

} // verus!
