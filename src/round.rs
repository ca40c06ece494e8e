//! Claim rounds: a committed Merkle Mountain Range root, the fragments under
//! it, and the ledger that acknowledges successful claims.

use crate::account::AccountId;
use crate::ledger::{self, FaNft, LedgerView};
use crate::mmr::{check_membership, membership_verdict, Leaf, MergeLeaves, Proof};
use crate::ownable::{holds_role, Ownable};
use crate::ledger::FragmentAcknowledgement;
use crate::token_id::{token_id_of, BlockNumber, FragmentCid};
use vstd::prelude::*;

verus! {

/// A fragment of a round: its content identifier, the position of its leaf in
/// the Merkle Mountain Range, and the block from which it is released.
#[derive(Clone, Copy, Debug, PartialEq, Eq, Structural)]
pub struct Fragment {
    pub cid: FragmentCid,
    pub mmr_pos: u64,
    pub release_block: BlockNumber,
}

/// Why a claim failed. A failed claim leaves the round and its ledger as they were.
#[derive(Clone, Copy, Debug, PartialEq, Eq, Structural)]
pub enum Error {
    /// No fragment of the round has the claimed identifier.
    NotFound,
    /// The proof is malformed for the fragment's position. This does not mean
    /// that the fragment is invalid, only that the proof could not be checked.
    CantBeProven,
    /// The proof is well formed but does not lead to the round's root.
    ProofInvalid,
    /// The ledger refused to mint.
    FaNFT(ledger::Error),
}

/// The first fragment of `s` whose identifier is `cid`.
pub open spec fn find_fragment(s: Seq<Fragment>, cid: FragmentCid) -> Option<Fragment>
    decreases s.len(),
{
    if s.len() == 0 {
        None
    } else if s[0].cid == cid {
        Some(s[0])
    } else {
        find_fragment(s.drop_first(), cid)
    }
}

/// The abstract state of a round.
pub struct RoundView {
    /// The fragments of the round, in order.
    pub fragments: Seq<Fragment>,
    /// The committed root of the Merkle Mountain Range.
    pub mmr_root: Seq<u8>,
    /// The ledger that the round mints through.
    pub ledger: LedgerView,
    /// The round's own address, the ledger's privileged account.
    pub account: AccountId,
    /// The privileged account of the round.
    pub contract_owner: AccountId,
}

impl RoundView {
    /// Minting the acknowledgement of fragment `cid` for `caller` at block
    /// `block`, with a ledger error passed on wrapped.
    pub open spec fn mint_acknowledgement(self, cid: FragmentCid, caller: AccountId, block: BlockNumber) -> (RoundView, Result<(), Error>) {
        let (minted, r) = self.ledger.mint(cid, caller, block);
        match r {
            Ok(_) => (RoundView { ledger: minted, ..self }, Ok(())),
            Err(e) => (self, Err(Error::FaNFT(e))),
        }
    }

    /// Minting the acknowledgement of fragment `cid` for `caller` at block
    /// `block` succeeds: its token does not exist yet and `caller` is not null.
    pub open spec fn can_mint(self, cid: FragmentCid, caller: AccountId, block: BlockNumber) -> bool {
        !self.ledger.owners.contains_key(token_id_of(cid, caller, block)) && !caller.is_null_spec()
    }

    /// `after` holds the acknowledgement of fragment `cid` minted to `caller`
    /// at block `block`, and the round is otherwise as in `self`.
    pub open spec fn acknowledged(self, after: RoundView, cid: FragmentCid, caller: AccountId, block: BlockNumber) -> bool {
        let id = token_id_of(cid, caller, block);
        &&& after.ledger.owners.contains_key(id)
        &&& after.ledger.owners[id] == caller
        &&& after.ledger.acks[id] == (FragmentAcknowledgement { fragment_cid: cid, block_number: block })
        &&& after.fragments == self.fragments
        &&& after.mmr_root == self.mmr_root
        &&& after.contract_owner == self.contract_owner
    }

    /// Settling a claim of fragment `cid` once its proof has been checked:
    /// `verdict` is `None` for a malformed proof, else whether it holds.
    pub open spec fn settle(self, cid: FragmentCid, verdict: Option<bool>, caller: AccountId, block: BlockNumber) -> (RoundView, Result<(), Error>) {
        match verdict {
            None => (self, Err(Error::CantBeProven)),
            Some(false) => (self, Err(Error::ProofInvalid)),
            Some(true) => self.mint_acknowledgement(cid, caller, block),
        }
    }

    /// Claiming fragment `cid` with the proof (`mmr_size`, `items`) and the
    /// pre-image `secret` of its leaf, on behalf of `caller` at block `block`.
    pub open spec fn claim(
        self,
        mmr_size: u64,
        items: Seq<Seq<u8>>,
        cid: FragmentCid,
        secret: Seq<u8>,
        caller: AccountId,
        block: BlockNumber,
    ) -> (RoundView, Result<(), Error>) {
        match find_fragment(self.fragments, cid) {
            None => (self, Err(Error::NotFound)),
            Some(f) => {
                let verdict = membership_verdict(
                    self.mmr_root,
                    f.mmr_pos,
                    Leaf::of_preimage(secret),
                    mmr_size,
                    items,
                );
                self.settle(cid, verdict, caller, block)
            },
        }
    }
}

/// A round of fragments: it holds the committed root of the fragments' Merkle
/// Mountain Range and mints an acknowledgement token to whoever proves that
/// they know a fragment's pre-image.
pub struct FragmentsRound {
    fragments: Vec<Fragment>,
    /// The ledger that the round mints through.
    fa_nft: FaNft,
    /// The round's own address, the ledger's privileged account.
    account: AccountId,
    mmr_root: Vec<u8>,
    contract_owner: AccountId,
}

impl View for FragmentsRound {
    type V = RoundView;

    closed spec fn view(&self) -> RoundView {
        RoundView {
            fragments: self.fragments@,
            mmr_root: self.mmr_root@,
            ledger: self.fa_nft@,
            account: self.account,
            contract_owner: self.contract_owner,
        }
    }
}

impl FragmentsRound {
    /// The round's ledger is well formed and the round may mint through it.
    pub closed spec fn wf(&self) -> bool {
        &&& self.fa_nft.wf()
        &&& self.fa_nft@.is_owner(self.account)
    }

    /// Creates a round over `fragments` committed to by `mmr_root`. `caller`,
    /// the deployer, becomes the round's privileged account; `account` is the
    /// round's own address, under which it deploys its ledger.
    pub fn new(fragments: Vec<Fragment>, mmr_root: Vec<u8>, caller: AccountId, account: AccountId) -> (r: FragmentsRound)
        requires
            !account.is_null_spec(),
        ensures
            r.wf(),
            r@.fragments == fragments@,
            r@.mmr_root == mmr_root@,
            r@.account == account,
            r@.contract_owner == caller,
            r@.ledger.owners.is_empty(),
            r@.ledger.approvals.is_empty(),
            r@.ledger.counts.is_empty(),
            r@.ledger.operators.is_empty(),
            r@.ledger.contract_owner == account,
            r@.ledger.acks.is_empty(),
            r@.ledger.events.len() == 0,
    {
        FragmentsRound { fragments, fa_nft: FaNft::new(account), account, mmr_root, contract_owner: caller }
    }

    /// Returns a copy of all the fragments of the round, in order.
    pub fn get_fragments(&self) -> (r: Vec<Fragment>)
        ensures
            r@ == self@.fragments,
    {
        let mut out: Vec<Fragment> = Vec::new();
        let mut i: usize = 0;
        while i < self.fragments.len()
            invariant
                i <= self.fragments@.len(),
                out@ == self.fragments@.take(i as int),
            decreases self.fragments@.len() - i,
        {
            out.push(self.fragments[i]);
            assert(self.fragments@.take(i + 1) =~= self.fragments@.take(i as int).push(self.fragments@[i as int]));
            i = i + 1;
        }
        assert(self.fragments@.take(self.fragments@.len() as int) =~= self.fragments@);
        out
    }

    /// Returns the ledger that the round mints through.
    pub fn fa_nft(&self) -> (r: &FaNft)
        ensures
            r@ == self@.ledger,
            self.wf() ==> r.wf(),
    {
        &self.fa_nft
    }

    /// Looks up the first fragment whose identifier is `cid`.
    fn get_fragment(&self, cid: FragmentCid) -> (r: Result<Fragment, Error>)
        ensures
            r == (match find_fragment(self@.fragments, cid) {
                Some(f) => Ok::<Fragment, Error>(f),
                None => Err(Error::NotFound),
            }),
    {
        let ghost s = self.fragments@;
        assert(s.skip(0) =~= s);
        let mut i: usize = 0;
        while i < self.fragments.len()
            invariant
                i <= s.len(),
                s == self.fragments@,
                find_fragment(s, cid) == find_fragment(s.skip(i as int), cid),
            decreases s.len() - i,
        {
            let f = self.fragments[i];
            assert(s.skip(i as int)[0] == f);
            if f.cid == cid {
                return Ok(f);
            }
            assert(s.skip(i as int).drop_first() =~= s.skip(i + 1));
            i = i + 1;
        }
        Err(Error::NotFound)
    }

    /// Mints the acknowledgement of fragment `cid` to `caller` at block
    /// `block_number` through the round's ledger.
    fn mint_fragment_acknowledgement(&mut self, cid: FragmentCid, caller: AccountId, block_number: BlockNumber) -> (r: Result<(), Error>)
        requires
            old(self).wf(),
            old(self)@.ledger.mint_fits(cid, caller, block_number),
        ensures
            final(self).wf(),
            (final(self)@, r) == old(self)@.mint_acknowledgement(cid, caller, block_number),
    {
        let account = self.account;
        match self.fa_nft.mint(account, cid, caller, block_number) {
            Ok(_) => Ok(()),
            Err(e) => Err(Error::FaNFT(e)),
        }
    }

    /// Settles a claim of fragment `cid` by `caller` at block `block_number`
    /// once its proof has been checked: `verdict` is `None` for a malformed
    /// proof, `Some(false)` for one that does not lead to the round's root and
    /// `Some(true)` for one that does, in which case the acknowledgement is minted.
    pub fn settle_claim(&mut self, cid: FragmentCid, verdict: Option<bool>, caller: AccountId, block_number: BlockNumber) -> (r: Result<(), Error>)
        requires
            old(self).wf(),
            old(self)@.ledger.mint_fits(cid, caller, block_number),
        ensures
            final(self).wf(),
            (final(self)@, r) == old(self)@.settle(cid, verdict, caller, block_number),
            verdict is None ==> r == Err::<(), Error>(Error::CantBeProven),
            verdict == Some(false) ==> r == Err::<(), Error>(Error::ProofInvalid),
            verdict == Some(true) ==> (r is Ok <==> old(self)@.can_mint(cid, caller, block_number)),
            r is Ok ==> old(self)@.acknowledged(final(self)@, cid, caller, block_number),
            r is Err ==> final(self)@ == old(self)@,
    {
        match verdict {
            None => Err(Error::CantBeProven),
            Some(false) => Err(Error::ProofInvalid),
            Some(true) => self.mint_fragment_acknowledgement(cid, caller, block_number),
        }
    }

    /// Claims fragment `cid` for `caller` at block `block_number`: checks that
    /// `proof` takes the leaf committed by the pre-image `hash`, at the
    /// fragment's position, to the round's root, and if so mints the fragment's
    /// acknowledgement to `caller`.
    pub fn claim_fragment(
        &mut self,
        proof: Proof<Leaf, MergeLeaves>,
        cid: FragmentCid,
        hash: Vec<u8>,
        caller: AccountId,
        block_number: BlockNumber,
    ) -> (r: Result<(), Error>)
        requires
            old(self).wf(),
            old(self)@.ledger.mint_fits(cid, caller, block_number),
        ensures
            final(self).wf(),
            (final(self)@, r) == old(self)@.claim(proof.mmr_size, proof.items(), cid, hash@, caller, block_number),
            find_fragment(old(self)@.fragments, cid) is None ==> r == Err::<(), Error>(Error::NotFound)
                && final(self)@ == old(self)@,
            r is Err ==> final(self)@ == old(self)@,
            find_fragment(old(self)@.fragments, cid) matches Some(f) ==> {
                let verdict = membership_verdict(
                    old(self)@.mmr_root,
                    f.mmr_pos,
                    Leaf::of_preimage(hash@),
                    proof.mmr_size,
                    proof.items(),
                );
                &&& verdict is None ==> r == Err::<(), Error>(Error::CantBeProven)
                &&& verdict == Some(false) ==> r == Err::<(), Error>(Error::ProofInvalid)
                &&& verdict == Some(true) ==> (r is Ok <==> old(self)@.can_mint(cid, caller, block_number))
            },
            r is Ok ==> old(self)@.acknowledged(final(self)@, cid, caller, block_number),
    {
        let fragment = match self.get_fragment(cid) {
            Ok(f) => f,
            Err(e) => {
                return Err(e);
            },
        };
        let leaf = Leaf::from_preimage(&hash);
        let verdict = check_membership(&proof, &self.mmr_root, fragment.mmr_pos, &leaf);
        self.settle_claim(cid, verdict, caller, block_number)
    }

    /// Rewards are not computed yet: claiming one succeeds and changes nothing.
    pub fn claim_reward(&self) -> (r: Result<(), Error>)
        ensures
            r == Ok::<(), Error>(()),
    {
        Ok(())
    }
}

} // verus!

verus! {

impl Ownable for FragmentsRound {
    closed spec fn owner_spec(&self) -> AccountId {
        self.contract_owner
    }

    fn owner(&self) -> (r: AccountId)
        ensures
            r == self@.contract_owner,
    {
        self.contract_owner
    }

    fn is_owner(&self, account: AccountId) -> (r: bool)
        ensures
            r == holds_role(self@.contract_owner, account),
    {
        !account.is_null() && self.contract_owner == account
    }

    fn renounce_ownership(&mut self, caller: AccountId)
        ensures
            final(self)@ == (RoundView { contract_owner: ledger::null_account(), ..old(self)@ }),
            old(self).wf() ==> final(self).wf(),
    {
        let null = AccountId::null();
        proof {
            ledger::lemma_null_account(null);
        }
        self.contract_owner = null;
    }

    fn transfer_ownership(&mut self, caller: AccountId, new_owner: AccountId)
        ensures
            final(self)@ == (RoundView { contract_owner: new_owner, ..old(self)@ }),
            old(self).wf() ==> final(self).wf(),
    {
        self.contract_owner = new_owner;
    }
}

} // verus!
