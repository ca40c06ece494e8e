use ckb_merkle_mountain_range::util::{MemMMR, MemStore};
use core::marker::PhantomData;
use fragments::ledger;
use fragments::mmr::{Leaf, MergeLeaves, Proof};
use fragments::ownable::Ownable;
use fragments::round::{Error, Fragment, FragmentsRound};
use fragments::token_id::TokenRef;
use fragments::AccountId;
use sha3::Digest;

fn alice() -> AccountId {
    AccountId([0x01; 32])
}

/// The round's own address, under which its ledger is deployed.
fn round_account() -> AccountId {
    AccountId([0x10; 32])
}

fn mock_fragment() -> Fragment {
    Fragment { cid: 1, mmr_pos: 10, release_block: 11 }
}

fn mock_round(mmr_root: Option<Vec<u8>>, fragments: Option<Vec<Fragment>>) -> FragmentsRound {
    FragmentsRound::new(
        fragments.unwrap_or([mock_fragment()].to_vec()),
        mmr_root.unwrap_or(Vec::<u8>::default()),
        alice(),
        round_account(),
    )
}

fn mock_proof() -> Proof<Leaf, MergeLeaves> {
    Proof { mmr_size: 1, proof: vec![Leaf::default()], merge: PhantomData }
}

fn mock_hash_from_elem(elem: u32) -> Vec<u8> {
    sha3::Sha3_256::digest(&elem.to_be_bytes()).to_vec()
}

/// An MMR over the leaves committed by the hashes of 0..8, with the position
/// of each element's leaf.
fn eight_leaves() -> (MemMMR<Leaf, MergeLeaves>, Vec<u64>) {
    let store = MemStore::default();
    let mut mmr = MemMMR::<_, MergeLeaves>::new(0, store);
    let positions: Vec<u64> = (0u32..8)
        .map(|i| mmr.push(Leaf::from_preimage(&mock_hash_from_elem(i))).unwrap())
        .collect();
    (mmr, positions)
}

fn proof_for(mmr: &MemMMR<Leaf, MergeLeaves>, pos: u64) -> Proof<Leaf, MergeLeaves> {
    let proof = mmr.gen_proof(vec![pos]).expect("gen proof");
    Proof { mmr_size: proof.mmr_size(), proof: proof.proof_items().to_vec(), merge: PhantomData }
}

#[test]
fn it_returns_fragments() {
    let round = mock_round(None, None);
    assert_eq!(round.get_fragments(), [mock_fragment()].to_vec());
}

/// The proof names a one-node range, in which position 10 does not lie: it is
/// malformed for the fragment, so the claim cannot be proven.
#[test]
fn it_cant_claim_fragment_with_invalid_proof() {
    let mut round = mock_round(None, Some(vec![mock_fragment()]));
    assert_eq!(
        round.claim_fragment(mock_proof(), 1, vec![0x01], alice(), 0),
        Err(Error::CantBeProven)
    );
}

#[test]
fn it_can_claim_fragment_with_valid_proof() {
    let (mmr, positions) = eight_leaves();
    let root = mmr.get_root().expect("get root");
    let proof_elem: u32 = 5;
    let fragment = Fragment { cid: 1, mmr_pos: positions[proof_elem as usize], release_block: 11 };
    let mut round = mock_round(Some(root.0), Some(vec![fragment.clone()]));
    let proof = proof_for(&mmr, positions[proof_elem as usize]);
    assert_eq!(
        round.claim_fragment(proof, fragment.cid, mock_hash_from_elem(proof_elem), alice(), 0),
        Ok(())
    );
}

#[test]
fn leaf_is_sha3_of_preimage() {
    let leaf = Leaf::from_preimage(&vec![0x01]);
    assert_eq!(
        leaf.0,
        vec![
            39, 103, 241, 92, 138, 242, 242, 199, 34, 93, 82, 115, 253, 214, 131, 237, 199, 20,
            17, 10, 152, 125, 16, 84, 105, 124, 52, 138, 237, 78, 108, 199
        ]
    );
    assert_eq!(
        Leaf::from_preimage(&mock_hash_from_elem(0)).0,
        vec![
            77, 92, 142, 193, 7, 1, 156, 122, 234, 202, 90, 243, 142, 57, 70, 138, 213, 220, 226,
            102, 155, 22, 121, 192, 198, 190, 141, 197, 170, 210, 107, 161
        ]
    );
}

#[test]
fn eight_leaf_range_has_known_root_and_positions() {
    let (mmr, positions) = eight_leaves();
    assert_eq!(positions, vec![0, 1, 3, 4, 7, 8, 10, 11]);
    assert_eq!(
        mmr.get_root().expect("get root").0,
        vec![
            118, 28, 170, 16, 44, 243, 184, 125, 239, 56, 20, 154, 37, 231, 138, 243, 213, 5, 54,
            205, 66, 208, 125, 175, 19, 154, 118, 87, 80, 65, 101, 217
        ]
    );
}

#[test]
fn every_pushed_leaf_verifies_and_a_flipped_bit_does_not() {
    let (mmr, positions) = eight_leaves();
    let root = mmr.get_root().expect("get root").0;
    for (elem, pos) in positions.iter().enumerate() {
        let leaf = Leaf::from_preimage(&mock_hash_from_elem(elem as u32));
        let proof = proof_for(&mmr, *pos);
        assert_eq!(fragments::mmr::check_membership(&proof, &root, *pos, &leaf), Some(true));

        let mut bad_leaf = leaf.clone();
        bad_leaf.0[0] ^= 1;
        assert_eq!(fragments::mmr::check_membership(&proof, &root, *pos, &bad_leaf), Some(false));

        let mut bad_proof = proof_for(&mmr, *pos);
        bad_proof.proof[0].0[31] ^= 0x80;
        assert_eq!(fragments::mmr::check_membership(&bad_proof, &root, *pos, &leaf), Some(false));
    }
}

#[test]
fn claim_succeeds_once_and_mints_the_acknowledgement() {
    let (mmr, positions) = eight_leaves();
    let root = mmr.get_root().expect("get root");
    let fragment = Fragment { cid: 1, mmr_pos: positions[5], release_block: 11 };
    let mut round = mock_round(Some(root.0), Some(vec![fragment]));
    let claimer = AccountId([0x02; 32]);
    assert_eq!(
        round.claim_fragment(proof_for(&mmr, positions[5]), 1, mock_hash_from_elem(5), claimer, 42),
        Ok(())
    );
    let id = TokenRef(1, claimer, 42).token_id();
    assert_eq!(round.fa_nft().owner_of(id), Some(claimer));
    assert_eq!(
        round.fa_nft().get_fragment_acknowledgment(id),
        Some(ledger::FragmentAcknowledgement { fragment_cid: 1, block_number: 42 })
    );
    assert_eq!(
        round.claim_fragment(proof_for(&mmr, positions[5]), 1, mock_hash_from_elem(5), claimer, 42),
        Err(Error::FaNFT(ledger::Error::TokenExists))
    );
    assert_eq!(round.fa_nft().balance_of(claimer), 1);
    assert_eq!(
        round.claim_fragment(proof_for(&mmr, positions[5]), 1, mock_hash_from_elem(5), claimer, 43),
        Ok(())
    );
    assert_eq!(round.fa_nft().balance_of(claimer), 2);
}

#[test]
fn claim_with_wrong_secret_is_invalid() {
    let (mmr, positions) = eight_leaves();
    let root = mmr.get_root().expect("get root");
    let fragment = Fragment { cid: 1, mmr_pos: positions[5], release_block: 11 };
    let mut round = mock_round(Some(root.0), Some(vec![fragment]));
    assert_eq!(
        round.claim_fragment(proof_for(&mmr, positions[5]), 1, mock_hash_from_elem(4), alice(), 0),
        Err(Error::ProofInvalid)
    );
    assert_eq!(round.fa_nft().balance_of(alice()), 0);
}

#[test]
fn claim_of_unknown_fragment_is_not_found() {
    let (mmr, positions) = eight_leaves();
    let root = mmr.get_root().expect("get root");
    let fragment = Fragment { cid: 1, mmr_pos: positions[5], release_block: 11 };
    let mut round = mock_round(Some(root.0), Some(vec![fragment]));
    assert_eq!(
        round.claim_fragment(proof_for(&mmr, positions[5]), 2, mock_hash_from_elem(5), alice(), 0),
        Err(Error::NotFound)
    );
    assert_eq!(round.fa_nft().recorded_events().len(), 0);
}

#[test]
fn claim_looks_up_the_first_fragment_with_the_id() {
    let (mmr, positions) = eight_leaves();
    let root = mmr.get_root().expect("get root");
    let first = Fragment { cid: 1, mmr_pos: positions[5], release_block: 11 };
    let second = Fragment { cid: 1, mmr_pos: positions[4], release_block: 11 };
    let mut round = mock_round(Some(root.0), Some(vec![first, second]));
    assert_eq!(
        round.claim_fragment(proof_for(&mmr, positions[4]), 1, mock_hash_from_elem(4), alice(), 0),
        Err(Error::ProofInvalid)
    );
}

#[test]
fn settling_a_claim_follows_the_verdict() {
    let mut round = mock_round(None, None);
    assert_eq!(round.settle_claim(1, None, alice(), 0), Err(Error::CantBeProven));
    assert_eq!(round.settle_claim(1, Some(false), alice(), 0), Err(Error::ProofInvalid));
    assert_eq!(round.settle_claim(1, Some(true), alice(), 0), Ok(()));
    assert_eq!(
        round.settle_claim(1, Some(true), alice(), 0),
        Err(Error::FaNFT(ledger::Error::TokenExists))
    );
    assert_eq!(
        round.settle_claim(1, Some(true), AccountId([0; 32]), 0),
        Err(Error::FaNFT(ledger::Error::NotAllowed))
    );
}

#[test]
fn round_mints_as_its_own_account() {
    let round = mock_round(None, None);
    assert_eq!(round.owner(), alice());
    assert!(round.fa_nft().is_owner(round_account()));
    assert!(!round.fa_nft().is_owner(alice()));
}

#[test]
fn round_ownership_can_be_handed_on_and_renounced() {
    let mut round = mock_round(None, None);
    let bob = AccountId([0x02; 32]);
    round.transfer_ownership(alice(), bob);
    assert!(round.is_owner(bob));
    assert!(!round.is_owner(alice()));
    round.renounce_ownership(bob);
    assert!(!round.is_owner(bob));
    assert!(round.owner().is_null());
}

#[test]
fn claim_reward_changes_nothing() {
    let round = mock_round(None, None);
    assert_eq!(round.claim_reward(), Ok(()));
}

#[test]
fn claiming_leaf_five_twice_is_refused_by_the_ledger() {
    let (mmr, positions) = eight_leaves();
    let root = mmr.get_root().expect("get root");
    let fragment = Fragment { cid: 1, mmr_pos: positions[5], release_block: 11 };
    let mut round = mock_round(Some(root.0), Some(vec![fragment.clone()]));
    assert_eq!(
        round.claim_fragment(proof_for(&mmr, positions[5]), fragment.cid, mock_hash_from_elem(5), alice(), 0),
        Ok(())
    );
    assert_eq!(
        round.claim_fragment(proof_for(&mmr, positions[5]), fragment.cid, mock_hash_from_elem(5), alice(), 0),
        Err(Error::FaNFT(ledger::Error::TokenExists))
    );
}

#[test]
fn proofs_beyond_the_verifiable_range_cannot_be_proven() {
    let (mmr, positions) = eight_leaves();
    let root = mmr.get_root().expect("get root").0;
    let leaf = Leaf::from_preimage(&mock_hash_from_elem(5));
    let mut huge = proof_for(&mmr, positions[5]);
    huge.mmr_size = u64::MAX;
    assert_eq!(fragments::mmr::check_membership(&huge, &root, positions[5], &leaf), None);
    huge.mmr_size = 0x7fff_ffff_ffff_ffff;
    assert_eq!(fragments::mmr::check_membership(&huge, &root, positions[5], &leaf), None);
    let proof = proof_for(&mmr, positions[5]);
    assert_eq!(fragments::mmr::check_membership(&proof, &root, u64::MAX, &leaf), None);

    let fragment = Fragment { cid: 1, mmr_pos: u64::MAX, release_block: 11 };
    let mut round = mock_round(Some(root), Some(vec![fragment]));
    assert_eq!(
        round.claim_fragment(proof, 1, mock_hash_from_elem(5), alice(), 0),
        Err(Error::CantBeProven)
    );
}

#[test]
fn leaves_and_merged_nodes_are_32_bytes() {
    assert_eq!(Leaf::from_preimage(&vec![]).0.len(), 32);
    assert_eq!(Leaf::from_preimage(&vec![7; 100]).0.len(), 32);
}
