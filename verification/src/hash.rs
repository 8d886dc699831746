//! Digests, and the hash function under the Merkle tree.

use vstd::prelude::*;

verus! {

/// A 32-byte digest. Two digests are equal when their bytes are.
#[derive(Clone, Copy, Debug)]
pub struct H256 {
    pub bytes: [u8; 32],
}

impl View for H256 {
    type V = Seq<u8>;

    open spec fn view(&self) -> Seq<u8> {
        self.bytes@
    }
}

impl PartialEq for H256 {
    fn eq(&self, other: &H256) -> (same: bool) {
        self.equals(other)
    }
}

impl Eq for H256 {

}

impl vstd::std_specs::cmp::PartialEqSpecImpl for H256 {
    open spec fn obeys_eq_spec() -> bool {
        true
    }

    open spec fn eq_spec(&self, other: &H256) -> bool {
        self@ == other@
    }
}

/// The bytes of each digest of a list.
pub open spec fn digests(hashes: Seq<H256>) -> Seq<Seq<u8>> {
    hashes.map_values(|hash: H256| hash@)
}

/// The Keccak-256 digest of a byte string.
pub uninterp spec fn keccak256(data: Seq<u8>) -> Seq<u8>;

/// Runs `tiny_keccak::Keccak` in its 256-bit variant over `data`: one `update`
/// with the whole input, and `finalize` into 32 bytes. The digest is taken to
/// be a function of the input bytes alone.
#[verifier::external_body]
fn keccak256_digest(data: &[u8]) -> (digest: [u8; 32])
    ensures
        digest@ == keccak256(data@),
{
    let mut hasher = tiny_keccak::Keccak::v256();
    tiny_keccak::Hasher::update(&mut hasher, data);
    let mut digest = [0u8; 32];
    tiny_keccak::Hasher::finalize(hasher, &mut digest);
    digest
}

impl H256 {
    /// The digest held in `bytes`, if they are exactly 32.
    pub fn from_slice(bytes: &[u8]) -> (hash: Option<H256>)
        ensures
            hash is Some <==> bytes@.len() == 32,
            hash matches Some(h) ==> h@ == bytes@,
    {
        if bytes.len() != 32 {
            return None;
        }
        let mut out = [0u8; 32];
        let mut i: usize = 0;
        while i < 32
            invariant
                i <= 32,
                bytes@.len() == 32,
                forall|j: int| 0 <= j < i ==> out@[j] == bytes@[j],
            decreases 32 - i,
        {
            out[i] = bytes[i];
            i += 1;
        }
        let hash = H256 { bytes: out };
        assert(hash@ =~= bytes@);
        Some(hash)
    }

    /// Whether two digests hold the same bytes.
    pub fn equals(&self, other: &H256) -> (same: bool)
        ensures
            same == (self@ == other@),
    {
        let mut i: usize = 0;
        while i < 32
            invariant
                i <= 32,
                forall|j: int| 0 <= j < i ==> self@[j] == other@[j],
            decreases 32 - i,
        {
            if self.bytes[i] != other.bytes[i] {
                return false;
            }
            i += 1;
        }
        assert(self@ =~= other@);
        true
    }
}

/// The digest of a leaf of the memory tree: Keccak-256 of its eight bytes.
pub fn hash_word(word: &[u8; 8]) -> (hash: H256)
    ensures
        hash@ == keccak256(word@),
{
    H256 { bytes: keccak256_digest(word.as_slice()) }
}

/// The digest of an inner node of the memory tree: Keccak-256 of the left
/// child's digest followed by the right child's.
pub fn hash_pair(left: &H256, right: &H256) -> (hash: H256)
    ensures
        hash@ == keccak256(left@ + right@),
{
    let mut joined: Vec<u8> = Vec::with_capacity(64);
    let mut i: usize = 0;
    while i < 32
        invariant
            i <= 32,
            joined@ == left@.subrange(0, i as int),
        decreases 32 - i,
    {
        joined.push(left.bytes[i]);
        i += 1;
    }
    let mut k: usize = 0;
    while k < 32
        invariant
            k <= 32,
            joined@ == left@ + right@.subrange(0, k as int),
        decreases 32 - k,
    {
        joined.push(right.bytes[k]);
        k += 1;
    }
    assert(joined@ =~= left@ + right@);
    H256 { bytes: keccak256_digest(joined.as_slice()) }
}

} // verus!
