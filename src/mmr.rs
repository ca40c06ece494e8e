//! Leaves, merging and membership proofs of the Merkle Mountain Range that a
//! round commits its fragments to.

use ckb_merkle_mountain_range::Error as MmrError;
use core::marker::PhantomData;
use sha3::Digest;
use vstd::prelude::*;

verus! {

/// The 32-byte SHA3-256 digest of `data`.
pub uninterp spec fn sha3_256_of(data: Seq<u8>) -> Seq<u8>;

/// Whether a Merkle Mountain Range proof (`mmr_size`, `items`) takes the leaf
/// `leaf` at position `pos` to the root `root`, when nodes are merged by
/// hashing the concatenation of their two children: `Some(true)` when the
/// recomputed root equals `root`, `Some(false)` when it differs, `None` when
/// the proof is malformed for that position.
pub uninterp spec fn mmr_verdict(
    root: Seq<u8>,
    pos: u64,
    leaf: Seq<u8>,
    mmr_size: u64,
    items: Seq<Seq<u8>>,
) -> Option<bool>;

/// The error of ckb-merkle-mountain-range, which its proof verification
/// returns for a malformed proof.
/// Proof verification handles a proof of this size for a leaf at this
/// position: it computes positions and heights in `u64` arithmetic that
/// overflows for larger sizes or for the last position.
pub open spec fn verifiable(mmr_size: u64, pos: u64) -> bool {
    mmr_size < 0x7fff_ffff_ffff_ffff && pos < u64::MAX
}

/// What checking the leaf `leaf` at position `pos` against `root` with the
/// proof (`mmr_size`, `items`) yields: the verdict of the verification where
/// it can run, and `None` (a malformed proof) where the size or the position is
/// out of its range.
pub open spec fn membership_verdict(
    root: Seq<u8>,
    pos: u64,
    leaf: Seq<u8>,
    mmr_size: u64,
    items: Seq<Seq<u8>>,
) -> Option<bool> {
    if verifiable(mmr_size, pos) {
        mmr_verdict(root, pos, leaf, mmr_size, items)
    } else {
        None
    }
}

#[verifier::external_type_specification]
#[verifier::external_body]
pub struct ExMmrError(MmrError);

/// Relies on `sha3::Sha3_256::digest`: the digest depends on the bytes alone and
/// is 32 bytes long.
#[verifier::external_body]
fn sha3_256(data: &Vec<u8>) -> (r: Vec<u8>)
    ensures
        r@ == sha3_256_of(data@),
        r@.len() == 32,
{
    sha3::Sha3_256::digest(data.as_slice()).to_vec()
}

/// A node of the Merkle Mountain Range: a 32-byte hash.
#[derive(PartialEq, Clone, Debug, Default)]
pub struct Leaf(pub Vec<u8>);

impl Leaf {
    /// The leaf committed for a pre-image: its SHA3-256 digest.
    pub open spec fn of_preimage(data: Seq<u8>) -> Seq<u8> {
        sha3_256_of(data)
    }

    /// Hashes a pre-image into the leaf that commits to it.
    pub fn from_preimage(data: &Vec<u8>) -> (r: Leaf)
        ensures
            r.0@ == Self::of_preimage(data@),
            r.0@.len() == 32,
    {
        Leaf(sha3_256(data))
    }
}

/// Merges two nodes by hashing the concatenation of their bytes.
pub struct MergeLeaves;

impl ckb_merkle_mountain_range::Merge for MergeLeaves {
    type Item = Leaf;

    fn merge(lhs: &Leaf, rhs: &Leaf) -> (r: Result<Leaf, MmrError>)
        ensures
            r matches Ok(parent) && parent.0@ == sha3_256_of(lhs.0@ + rhs.0@) && parent.0@.len() == 32,
    {
        let mut joined: Vec<u8> = Vec::new();
        let mut i: usize = 0;
        while i < lhs.0.len()
            invariant
                i <= lhs.0@.len(),
                joined@ == lhs.0@.take(i as int),
            decreases lhs.0.len() - i,
        {
            joined.push(lhs.0[i]);
            assert(lhs.0@.take(i + 1) =~= lhs.0@.take(i as int).push(lhs.0@[i as int]));
            i = i + 1;
        }
        assert(lhs.0@.take(lhs.0@.len() as int) =~= lhs.0@);
        let mut i: usize = 0;
        while i < rhs.0.len()
            invariant
                i <= rhs.0@.len(),
                joined@ == lhs.0@ + rhs.0@.take(i as int),
            decreases rhs.0.len() - i,
        {
            joined.push(rhs.0[i]);
            assert(rhs.0@.take(i + 1) =~= rhs.0@.take(i as int).push(rhs.0@[i as int]));
            i = i + 1;
        }
        assert(rhs.0@.take(rhs.0@.len() as int) =~= rhs.0@);
        Ok(Leaf(sha3_256(&joined)))
    }
}

/// A membership proof: the size of the range it was generated against and
/// the sibling and peak hashes needed to recompute the root.
pub struct Proof<T, M> {
    pub mmr_size: u64,
    pub proof: Vec<T>,
    pub merge: PhantomData<M>,
}

} // verus!

verus! {

impl Proof<Leaf, MergeLeaves> {
    /// The proof's hashes, each as a sequence of bytes.
    pub open spec fn items(&self) -> Seq<Seq<u8>> {
        self.proof@.map_values(|l: Leaf| l.0@)
    }
}

/// Relies on `MerkleProof::new` and `MerkleProof::verify` of
/// ckb-merkle-mountain-range, with nodes merged by `MergeLeaves`: the result
/// depends on the root, the leaf, its position and the proof alone; it reports a
/// malformed proof as an error and otherwise whether the recomputed root equals
/// the given one.
#[verifier::external_body]
fn verify_membership(
    proof: &Proof<Leaf, MergeLeaves>,
    root: &Vec<u8>,
    pos: u64,
    leaf: &Leaf,
) -> (r: Result<bool, MmrError>)
    requires
        verifiable(proof.mmr_size, pos),
    ensures
        r.is_ok() == mmr_verdict(root@, pos, leaf.0@, proof.mmr_size, proof.items()).is_some(),
        r matches Ok(b) ==> mmr_verdict(root@, pos, leaf.0@, proof.mmr_size, proof.items()) == Some(b),
{
    let checked = ckb_merkle_mountain_range::MerkleProof::<Leaf, MergeLeaves>::new(
        proof.mmr_size,
        proof.proof.clone(),
    );
    checked.verify(Leaf(root.clone()), vec![(pos, leaf.clone())])
}

/// Checks one leaf against a committed root: `Some(true)` for a well-formed proof
/// that leads to the root, `Some(false)` for a well-formed one that does not, and
/// `None` for a proof that is malformed for that position, including one whose
/// size or position is beyond what verification handles.
pub fn check_membership(
    proof: &Proof<Leaf, MergeLeaves>,
    root: &Vec<u8>,
    pos: u64,
    leaf: &Leaf,
) -> (r: Option<bool>)
    ensures
        r == membership_verdict(root@, pos, leaf.0@, proof.mmr_size, proof.items()),
{
    if proof.mmr_size >= 0x7fff_ffff_ffff_ffff || pos == u64::MAX {
        return None;
    }
    match verify_membership(proof, root, pos, leaf) {
        Ok(b) => Some(b),
        Err(_) => None,
    }
}

} // verus!
