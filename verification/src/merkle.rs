//! Merkle proofs over the machine's memory, and their verification.
//!
//! The memory is a binary tree over the 64-bit address space. A node of size
//! `2^log2_size` at `address` covers the bytes `address .. address + 2^log2_size`;
//! its digest is the Keccak-256 digest of its two children's digests, the
//! child at the lower address first. A leaf covers one 8-byte word.
//!
//! A proof lists the siblings met on the way from its target up to the root,
//! the sibling of the target first. At the step that starts from a node of
//! size `2^k`, bit `k` of the address tells the side: where it is 0 the node
//! is the left child and its sibling the right one, where it is 1 the reverse.

use vstd::prelude::*;
use vstd::arithmetic::power2::pow2;
use crate::error::ProtocolError;
use crate::hash::{digests, hash_pair, keccak256, H256};
use crate::wire;

verus! {

/// Base-2 logarithm of the size of the whole memory tree.
pub const TREE_LOG2_SIZE: u32 = 64;

/// Base-2 logarithm of the size of a leaf, one machine word.
pub const WORD_LOG2_SIZE: u32 = 3;

/// A proof that the subtree of size `2^log2_size` at `address` has the digest
/// `target_hash`, in the tree whose root has the digest `root_hash`.
#[derive(Clone, Debug, PartialEq, Eq)]
pub struct Proof {
    pub address: u64,
    pub log2_size: u32,
    pub target_hash: H256,
    pub sibling_hashes: Vec<H256>,
    pub root_hash: H256,
}

/// What a proof holds, each digest as its bytes.
#[verifier::ext_equal]
pub struct ProofView {
    pub address: u64,
    pub log2_size: u32,
    pub target_hash: Seq<u8>,
    pub sibling_hashes: Seq<Seq<u8>>,
    pub root_hash: Seq<u8>,
}

impl View for Proof {
    type V = ProofView;

    open spec fn view(&self) -> ProofView {
        ProofView {
            address: self.address,
            log2_size: self.log2_size,
            target_hash: self.target_hash@,
            sibling_hashes: digests(self.sibling_hashes@),
            root_hash: self.root_hash@,
        }
    }
}

/// Bit `index` of `address`, the lowest bit having index 0.
pub open spec fn address_bit(address: u64, index: nat) -> bool {
    (address as nat / pow2(index)) % 2 == 1
}

/// Whether `address` is a multiple of `2^log2_size`.
pub open spec fn is_aligned(address: u64, log2_size: nat) -> bool {
    address as nat % pow2(log2_size) == 0
}

/// Whether every digest in a list of decoded digests has 32 bytes.
pub open spec fn all_digests(hashes: Seq<Seq<u8>>) -> bool {
    forall|i: int| 0 <= i < hashes.len() ==> (#[trigger] hashes[i]).len() == 32
}

impl ProofView {
    /// Whether a decoded proof has its target and its root, and every digest
    /// in it has 32 bytes.
    pub open spec fn decodes(message: wire::ProofView) -> bool {
        &&& message.target_hash matches Some(target) && target.len() == 32
        &&& message.root_hash matches Some(root) && root.len() == 32
        &&& all_digests(message.sibling_hashes)
    }

    /// The proof that a decoded proof stands for: the same fields, the
    /// siblings in the same order.
    pub open spec fn of_message(message: wire::ProofView) -> ProofView {
        ProofView {
            address: message.address,
            log2_size: message.log2_size,
            target_hash: message.target_hash->0,
            sibling_hashes: message.sibling_hashes,
            root_hash: message.root_hash->0,
        }
    }

    /// The length invariant: one sibling for each level between the target and
    /// the root.
    pub open spec fn well_formed(self) -> bool {
        &&& self.log2_size <= TREE_LOG2_SIZE
        &&& self.sibling_hashes.len() == TREE_LOG2_SIZE - self.log2_size
    }

    /// The digest of the ancestor that lies `levels` levels above the target,
    /// as the proof's siblings give it.
    pub open spec fn ancestor(self, levels: nat) -> Seq<u8>
        decreases levels,
    {
        if levels == 0 {
            self.target_hash
        } else {
            let below = self.ancestor((levels - 1) as nat);
            let sibling = self.sibling_hashes[levels - 1];
            if address_bit(self.address, (self.log2_size + levels - 1) as nat) {
                keccak256(sibling + below)
            } else {
                keccak256(below + sibling)
            }
        }
    }

    /// The digest of the root, as the proof's siblings give it.
    pub open spec fn computed_root(self) -> Seq<u8> {
        self.ancestor(self.sibling_hashes.len())
    }

    /// Whether the proof leads from its target to its root.
    pub open spec fn verifies(self) -> bool {
        self.computed_root() == self.root_hash
    }
}

/// Bit `index` of `address`.
fn bit_at(address: u64, index: u32) -> (bit: bool)
    requires
        index < 64,
    ensures
        bit == address_bit(address, index as nat),
{
    let shifted: u64 = address >> (index as u64);
    proof {
        vstd::bits::lemma_u64_shr_is_div(address, index as u64);
        assert((shifted & 1 == 1) == (shifted % 2 == 1)) by (bit_vector);
    }
    shifted & 1 == 1
}

/// The digest in a required field of a decoded message.
pub fn required_digest(field: &Option<wire::Hash>) -> (result: Result<H256, ProtocolError>)
    ensures
        match result {
            Ok(hash) => field matches Some(content) && content@.len() == 32 && hash@ == content@,
            Err(error) => {
                &&& error == ProtocolError::MalformedRequest
                &&& !(field matches Some(content) && content@.len() == 32)
            },
        },
{
    match field {
        Some(content) => match H256::from_slice(content.content.as_slice()) {
            Some(hash) => Ok(hash),
            None => Err(ProtocolError::MalformedRequest),
        },
        None => Err(ProtocolError::MalformedRequest),
    }
}

/// The digests in a repeated field of a decoded message, in the same order.
pub fn digest_list(hashes: &Vec<wire::Hash>) -> (result: Result<Vec<H256>, ProtocolError>)
    ensures
        match result {
            Ok(list) => all_digests(wire::contents(hashes@)) && digests(list@) == wire::contents(
                hashes@,
            ),
            Err(error) => {
                &&& error == ProtocolError::MalformedRequest
                &&& !all_digests(wire::contents(hashes@))
            },
        },
{
    let ghost decoded = wire::contents(hashes@);
    let mut list: Vec<H256> = Vec::with_capacity(hashes.len());
    let mut i: usize = 0;
    while i < hashes.len()
        invariant
            i <= hashes@.len(),
            decoded == wire::contents(hashes@),
            list@.len() == i,
            forall|j: int| 0 <= j < i ==> (#[trigger] decoded[j]).len() == 32,
            forall|j: int| 0 <= j < i ==> (#[trigger] list@[j])@ == decoded[j],
        decreases hashes@.len() - i,
    {
        match H256::from_slice(hashes[i].content.as_slice()) {
            Some(hash) => {
                list.push(hash);
            },
            None => {
                assert(decoded[i as int].len() != 32);
                return Err(ProtocolError::MalformedRequest);
            },
        }
        i += 1;
    }
    assert(digests(list@) =~= decoded);
    Ok(list)
}

/// Whether `address` is a multiple of `2^log2_size`.
pub fn aligned(address: u64, log2_size: u64) -> (ok: bool)
    ensures
        ok == is_aligned(address, log2_size as nat),
{
    if log2_size >= 64 {
        proof {
            vstd::arithmetic::power2::lemma2_to64_rest();
            if log2_size > 64 {
                vstd::arithmetic::power2::lemma_pow2_strictly_increases(64, log2_size as nat);
            }
            vstd::arithmetic::div_mod::lemma_small_mod(address as nat, pow2(log2_size as nat));
        }
        address == 0
    } else {
        let unit: u64 = 1u64 << log2_size;
        proof {
            vstd::bits::lemma_u64_pow2_no_overflow(log2_size as nat);
            vstd::bits::lemma_u64_shl_is_mul(1, log2_size);
        }
        address % unit == 0
    }
}

impl Proof {
    /// The proof that a decoded proof stands for. A decoded proof without a
    /// target or a root, or with a digest that has not 32 bytes, is refused.
    pub fn from(proof: wire::Proof) -> (result: Result<Proof, ProtocolError>)
        ensures
            match result {
                Ok(converted) => {
                    &&& ProofView::decodes(proof@)
                    &&& converted@ == ProofView::of_message(proof@)
                },
                Err(error) => {
                    &&& error == ProtocolError::MalformedRequest
                    &&& !ProofView::decodes(proof@)
                },
            },
    {
        let target_hash = match required_digest(&proof.target_hash) {
            Ok(hash) => hash,
            Err(error) => {
                return Err(error);
            },
        };
        let sibling_hashes = match digest_list(&proof.sibling_hashes) {
            Ok(list) => list,
            Err(error) => {
                return Err(error);
            },
        };
        let root_hash = match required_digest(&proof.root_hash) {
            Ok(hash) => hash,
            Err(error) => {
                return Err(error);
            },
        };
        let converted = Proof {
            address: proof.address,
            log2_size: proof.log2_size,
            target_hash,
            sibling_hashes,
            root_hash,
        };
        assert(converted@ =~= ProofView::of_message(proof@));
        Ok(converted)
    }

    /// Whether the proof has one sibling for each level between its target
    /// and the root.
    pub fn is_well_formed(&self) -> (ok: bool)
        ensures
            ok == self@.well_formed(),
    {
        self.log2_size <= TREE_LOG2_SIZE
            && self.sibling_hashes.len() == (TREE_LOG2_SIZE - self.log2_size) as usize
    }

    /// Walks from the target up to the root, combining the digest reached so
    /// far with the next sibling on the side that the address gives, and
    /// compares the digest reached at the top with `root_hash`.
    pub fn verify(&self) -> (ok: bool)
        requires
            self@.well_formed(),
        ensures
            ok == self@.verifies(),
    {
        let count: usize = self.sibling_hashes.len();
        let mut current: H256 = self.target_hash;
        let mut level: usize = 0;
        while level < count
            invariant
                level <= count,
                count == self.sibling_hashes@.len(),
                self@.well_formed(),
                current@ == self@.ancestor(level as nat),
            decreases count - level,
        {
            let sibling: &H256 = &self.sibling_hashes[level];
            let index: u32 = self.log2_size + (level as u32);
            current = if bit_at(self.address, index) {
                hash_pair(sibling, &current)
            } else {
                hash_pair(&current, sibling)
            };
            level += 1;
        }
        current.equals(&self.root_hash)
    }
}

} // verus!
