//! The fragment-acknowledgement token ledger: ownership, delegated rights,
//! minting and burning, as a state machine over an abstract view.

use crate::account::AccountId;
use crate::assoc::{assoc_map, has_key, keys_unique};
use crate::ownable::{holds_role, Ownable};
use crate::token_id::{token_id_of, BlockNumber, FragmentCid, TokenId, TokenRef};
use std::collections::HashMap;
use vstd::prelude::*;

verus! {

broadcast use vstd::std_specs::hash::group_hash_axioms;

/// What a token acknowledges: a fragment, and the block at which it was minted.
#[derive(Clone, Copy, Debug, PartialEq, Eq, Structural)]
pub struct FragmentAcknowledgement {
    /// The fragment CID that was acknowledged.
    pub fragment_cid: FragmentCid,
    /// The block number when the fragment was acknowledged.
    pub block_number: BlockNumber,
}

impl Default for FragmentAcknowledgement {
    fn default() -> (r: FragmentAcknowledgement)
        ensures
            r.fragment_cid == 0,
            r.block_number == 0,
    {
        FragmentAcknowledgement { fragment_cid: 0, block_number: 0 }
    }
}

/// The business errors of the ledger. A call that returns one leaves the
/// ledger as it was.
#[derive(Debug, PartialEq, Eq, Copy, Clone, Structural)]
pub enum Error {
    NotOwner,
    NotApproved,
    TokenExists,
    TokenNotFound,
    CannotInsert,
    CannotFetchValue,
    NotAllowed,
    NotContractOwner,
    TransferFailed,
}

/// A token moved; `from` is the null account for a mint, `to` for a burn.
#[derive(Clone, Copy, Debug, PartialEq, Eq)]
pub struct Transfer {
    pub from: Option<AccountId>,
    pub to: Option<AccountId>,
    pub id: TokenId,
}

/// An account was approved to move one token.
#[derive(Clone, Copy, Debug, PartialEq, Eq)]
pub struct Approval {
    pub from: AccountId,
    pub to: AccountId,
    pub id: TokenId,
}

/// An operator was enabled or disabled for all tokens of an owner.
#[derive(Clone, Copy, Debug, PartialEq, Eq)]
pub struct ApprovalForAll {
    pub owner: AccountId,
    pub operator: AccountId,
    pub approved: bool,
}

/// An event raised by the ledger.
#[derive(Clone, Copy, Debug, PartialEq, Eq)]
pub enum Event {
    Transfer(Transfer),
    Approval(Approval),
    ApprovalForAll(ApprovalForAll),
}

/// The reserved null account.
pub open spec fn null_account() -> AccountId {
    choose|a: AccountId| a.is_null_spec()
}

/// The tokens that `owners` assigns to `a`.
pub open spec fn owned_by(owners: Map<TokenId, AccountId>, a: AccountId) -> Set<TokenId> {
    owners.dom().filter(|id: TokenId| owners[id] == a)
}

/// The count that `counts` stores for `a`, zero where it stores none.
pub open spec fn count_in(counts: Map<AccountId, u32>, a: AccountId) -> nat {
    if counts.contains_key(a) {
        counts[a] as nat
    } else {
        0
    }
}

/// The abstract state of the ledger.
pub struct LedgerView {
    /// The owner of each existing token.
    pub owners: Map<TokenId, AccountId>,
    /// The single approved delegate of a token, where there is one.
    pub approvals: Map<TokenId, AccountId>,
    /// The stored number of tokens of each account; absent means zero.
    pub counts: Map<AccountId, u32>,
    /// The (owner, operator) pairs where the operator may act on all tokens of the owner.
    pub operators: Set<(AccountId, AccountId)>,
    /// The privileged account.
    pub contract_owner: AccountId,
    /// What each minted token acknowledges.
    pub acks: Map<TokenId, FragmentAcknowledgement>,
    /// The events raised so far, oldest first.
    pub events: Seq<Event>,
}

impl LedgerView {
    /// The stored token count of `a`, zero where none is stored.
    pub open spec fn balance(self, a: AccountId) -> nat {
        count_in(self.counts, a)
    }

    /// `account` holds the privileged role.
    pub open spec fn is_owner(self, account: AccountId) -> bool {
        holds_role(self.contract_owner, account)
    }

    /// `operator` may act on all tokens of `owner`.
    pub open spec fn is_operator(self, owner: AccountId, operator: AccountId) -> bool {
        self.operators.contains((owner, operator))
    }

    /// Every stored count is the number of tokens that its account owns.
    pub open spec fn counts_match(self) -> bool {
        &&& self.owners.dom().finite()
        &&& forall|a: AccountId| #[trigger] count_in(self.counts, a) == owned_by(self.owners, a).len()
    }

    /// The invariant of the ledger: counts match ownership, and only existing
    /// tokens have an approved delegate.
    pub open spec fn inv(self) -> bool {
        &&& self.counts_match()
        &&& forall|id: TokenId| #[trigger] self.approvals.contains_key(id) ==> self.owners.contains_key(id)
    }

    /// `caller` may move token `id`, whose owner is `owner`: it is the owner,
    /// the token's approved delegate, or an operator of the owner.
    pub open spec fn approved_or_owner(self, caller: AccountId, id: TokenId, owner: AccountId) -> bool {
        &&& !caller.is_null_spec()
        &&& {
            ||| caller == owner
            ||| (self.approvals.contains_key(id) && self.approvals[id] == caller)
            ||| self.is_operator(owner, caller)
        }
    }

    /// Minting `cid` for `to` at `block` keeps the count of `to` within a
    /// `u32`: either the mint adds no token, or `to` holds fewer than
    /// `u32::MAX` tokens.
    pub open spec fn mint_fits(self, cid: FragmentCid, to: AccountId, block: BlockNumber) -> bool {
        !self.owners.contains_key(token_id_of(cid, to, block)) && !to.is_null_spec()
            ==> self.balance(to) < u32::MAX
    }

    /// Moving token `id` from `from` to `to` on behalf of `caller` keeps the
    /// count of `to` within a `u32`: either the move fails or gives `to` nothing
    /// new, or `to` holds fewer than `u32::MAX` tokens.
    pub open spec fn transfer_fits(self, caller: AccountId, from: AccountId, to: AccountId, id: TokenId) -> bool {
        self.transfer_from(caller, from, to, id).1 is Ok && to != from ==> self.balance(to) < u32::MAX
    }

    /// The ledger with the count of `a` set to `c`.
    pub open spec fn with_count(self, a: AccountId, c: nat) -> LedgerView {
        LedgerView { counts: self.counts.insert(a, c as u32), ..self }
    }

    /// The ledger with the privileged role held by `owner`.
    pub open spec fn with_contract_owner(self, owner: AccountId) -> LedgerView {
        LedgerView { contract_owner: owner, ..self }
    }

    /// The ledger with `event` raised.
    pub open spec fn with_event(self, event: Event) -> LedgerView {
        LedgerView { events: self.events.push(event), ..self }
    }

    /// Token `id` given to `to`, counted for `to`.
    pub open spec fn add_token(self, to: AccountId, id: TokenId) -> LedgerView {
        LedgerView { owners: self.owners.insert(id, to), ..self.with_count(to, self.balance(to) + 1) }
    }

    /// Token `id` taken from `from`, no longer counted for it.
    pub open spec fn remove_token(self, from: AccountId, id: TokenId) -> LedgerView {
        LedgerView { owners: self.owners.remove(id), ..self.with_count(from, (self.balance(from) - 1) as nat) }
    }

    /// Minting the token that acknowledges fragment `cid` for `to` at block
    /// `block`: the new state and the result.
    pub open spec fn mint(self, cid: FragmentCid, to: AccountId, block: BlockNumber) -> (LedgerView, Result<TokenId, Error>) {
        let id = token_id_of(cid, to, block);
        if self.owners.contains_key(id) {
            (self, Err(Error::TokenExists))
        } else if to.is_null_spec() {
            (self, Err(Error::NotAllowed))
        } else {
            let ack = FragmentAcknowledgement { fragment_cid: cid, block_number: block };
            let added = self.add_token(to, id);
            let stored = LedgerView { acks: added.acks.insert(id, ack), ..added };
            let event = Event::Transfer(Transfer { from: Some(null_account()), to: Some(to), id });
            (stored.with_event(event), Ok(id))
        }
    }

    /// Burning token `id` on behalf of `caller`.
    pub open spec fn burn(self, caller: AccountId, id: TokenId) -> (LedgerView, Result<(), Error>) {
        if !self.owners.contains_key(id) {
            (self, Err(Error::TokenNotFound))
        } else if self.owners[id] != caller {
            (self, Err(Error::NotOwner))
        } else {
            let removed = self.remove_token(caller, id);
            let cleared = LedgerView { approvals: removed.approvals.remove(id), ..removed };
            let event = Event::Transfer(Transfer { from: Some(caller), to: Some(null_account()), id });
            (cleared.with_event(event), Ok(()))
        }
    }

    /// Moving token `id` from `from` to `to` on behalf of `caller`.
    pub open spec fn transfer_from(self, caller: AccountId, from: AccountId, to: AccountId, id: TokenId) -> (LedgerView, Result<(), Error>) {
        if !self.owners.contains_key(id) {
            (self, Err(Error::TokenNotFound))
        } else if !self.approved_or_owner(caller, id, self.owners[id]) {
            (self, Err(Error::NotApproved))
        } else if self.owners[id] != from {
            (self, Err(Error::NotOwner))
        } else if to.is_null_spec() {
            (self, Err(Error::NotAllowed))
        } else {
            let cleared = LedgerView { approvals: self.approvals.remove(id), ..self };
            let moved = cleared.remove_token(from, id).add_token(to, id);
            let event = Event::Transfer(Transfer { from: Some(from), to: Some(to), id });
            (moved.with_event(event), Ok(()))
        }
    }

    /// Approving `to` to move token `id`, on behalf of `caller`.
    pub open spec fn approve(self, caller: AccountId, to: AccountId, id: TokenId) -> (LedgerView, Result<(), Error>) {
        if !self.owners.contains_key(id) {
            (self, Err(Error::TokenNotFound))
        } else if !(self.owners[id] == caller || self.is_operator(self.owners[id], caller)) {
            (self, Err(Error::NotAllowed))
        } else if to.is_null_spec() {
            (self, Err(Error::NotAllowed))
        } else if self.approvals.contains_key(id) {
            (self, Err(Error::CannotInsert))
        } else {
            let approved = LedgerView { approvals: self.approvals.insert(id, to), ..self };
            (approved.with_event(Event::Approval(Approval { from: caller, to, id })), Ok(()))
        }
    }

    /// Enabling or disabling `operator` for all tokens of `caller`.
    pub open spec fn set_approval_for_all(self, caller: AccountId, operator: AccountId, approved: bool) -> (LedgerView, Result<(), Error>) {
        if operator == caller {
            (self, Err(Error::NotAllowed))
        } else {
            let operators = if approved {
                self.operators.insert((caller, operator))
            } else {
                self.operators.remove((caller, operator))
            };
            let set = LedgerView { operators, ..self };
            let event = Event::ApprovalForAll(ApprovalForAll { owner: caller, operator, approved });
            (set.with_event(event), Ok(()))
        }
    }
}

} // verus!

verus! {

/// The null account is null.
pub proof fn lemma_null_account_exists()
    ensures
        null_account().is_null_spec(),
{
    let a = AccountId(vstd::array::spec_array_fill_for_copy_type::<u8, 32>(0u8));
    assert(a.0@[0] == 0u8);
    assert(a.is_null_spec());
}

/// Every null account is the null account.
pub proof fn lemma_null_account(a: AccountId)
    requires
        a.is_null_spec(),
    ensures
        a == null_account(),
{
    let n = null_account();
    assert(n.is_null_spec());
    assert(n.0@ =~= a.0@);
    crate::account::lemma_account_eq(n, a);
}

proof fn lemma_owned_by_insert(owners: Map<TokenId, AccountId>, id: TokenId, to: AccountId, a: AccountId)
    requires
        !owners.contains_key(id),
    ensures
        owned_by(owners.insert(id, to), a) =~= if a == to {
            owned_by(owners, a).insert(id)
        } else {
            owned_by(owners, a)
        },
{
}

proof fn lemma_owned_by_remove(owners: Map<TokenId, AccountId>, id: TokenId, a: AccountId)
    ensures
        owned_by(owners.remove(id), a) =~= owned_by(owners, a).remove(id),
{
}

proof fn lemma_owned_by_finite(owners: Map<TokenId, AccountId>, a: AccountId)
    requires
        owners.dom().finite(),
    ensures
        owned_by(owners, a).finite(),
{
    owners.dom().lemma_len_filter(|id: TokenId| owners[id] == a);
}

/// Giving a token that does not exist yet to an account keeps the counts right.
pub proof fn lemma_add_token_counts(v: LedgerView, to: AccountId, id: TokenId)
    requires
        v.counts_match(),
        !v.owners.contains_key(id),
        v.balance(to) < u32::MAX,
    ensures
        v.add_token(to, id).counts_match(),
{
    let w = v.add_token(to, id);
    assert forall|a: AccountId| #[trigger] count_in(w.counts, a) == owned_by(w.owners, a).len() by {
        lemma_owned_by_insert(v.owners, id, to, a);
        lemma_owned_by_finite(v.owners, a);
        assert(v.balance(a) == owned_by(v.owners, a).len());
        assert(!owned_by(v.owners, a).contains(id));
    }
}

/// Taking an existing token from its owner keeps the counts right.
pub proof fn lemma_remove_token_counts(v: LedgerView, from: AccountId, id: TokenId)
    requires
        v.counts_match(),
        v.owners.contains_key(id),
        v.owners[id] == from,
    ensures
        v.remove_token(from, id).counts_match(),
        v.balance(from) >= 1,
{
    let w = v.remove_token(from, id);
    lemma_owned_by_finite(v.owners, from);
    assert(owned_by(v.owners, from).contains(id));
    assert(v.balance(from) == owned_by(v.owners, from).len());
    assert forall|a: AccountId| #[trigger] count_in(w.counts, a) == owned_by(w.owners, a).len() by {
        lemma_owned_by_remove(v.owners, id, a);
        lemma_owned_by_finite(v.owners, a);
        assert(v.balance(a) == owned_by(v.owners, a).len());
    }
}

/// The token ledger: who owns which token, who may move it, and what each
/// token acknowledges.
pub struct FaNft {
    /// Mapping from token to owner.
    token_owner: HashMap<TokenId, AccountId>,
    /// Mapping from token to its approved delegate.
    token_approvals: HashMap<TokenId, AccountId>,
    /// Number of owned tokens per account, one entry per account.
    owned_tokens_count: Vec<(AccountId, u32)>,
    /// Operator approvals per (owner, operator) pair, one entry per pair.
    operator_approvals: Vec<((AccountId, AccountId), bool)>,
    /// The privileged account.
    contract_owner: AccountId,
    /// Mapping from token to fragment acknowledgment.
    fragment_acknowledgments: HashMap<TokenId, FragmentAcknowledgement>,
    /// The events raised so far.
    events: Vec<Event>,
}

/// The set of pairs whose flag is `true` in a list of flagged pairs.
pub open spec fn enabled_pairs(s: Seq<((AccountId, AccountId), bool)>) -> Set<(AccountId, AccountId)> {
    Set::new(|p: (AccountId, AccountId)| assoc_map(s).contains_key(p) && assoc_map(s)[p])
}

impl View for FaNft {
    type V = LedgerView;

    closed spec fn view(&self) -> LedgerView {
        LedgerView {
            owners: self.token_owner@,
            approvals: self.token_approvals@,
            counts: assoc_map(self.owned_tokens_count@),
            operators: enabled_pairs(self.operator_approvals@),
            contract_owner: self.contract_owner,
            acks: self.fragment_acknowledgments@,
            events: self.events@,
        }
    }
}

impl FaNft {
    /// The stored lists have one entry per key.
    closed spec fn lists_wf(&self) -> bool {
        keys_unique(self.owned_tokens_count@) && keys_unique(self.operator_approvals@)
    }

    /// The ledger is well formed: its stored lists are consistent and its
    /// abstract state satisfies the invariant.
    pub closed spec fn wf(&self) -> bool {
        self.lists_wf() && self@.inv()
    }

    /// A well-formed ledger satisfies the invariant of its abstract state.
    pub proof fn lemma_wf_inv(&self)
        requires
            self.wf(),
        ensures
            self@.inv(),
    {
    }

    /// Creates an empty ledger whose privileged account is `caller`, the deployer.
    pub fn new(caller: AccountId) -> (r: FaNft)
        ensures
            r.wf(),
            r@.owners.is_empty(),
            r@.approvals.is_empty(),
            r@.counts.is_empty(),
            r@.operators.is_empty(),
            r@.contract_owner == caller,
            r@.acks.is_empty(),
            r@.events.len() == 0,
    {
        let r = FaNft {
            token_owner: HashMap::new(),
            token_approvals: HashMap::new(),
            owned_tokens_count: Vec::new(),
            operator_approvals: Vec::new(),
            contract_owner: caller,
            fragment_acknowledgments: HashMap::new(),
            events: Vec::new(),
        };
        proof {
            assert(r@.counts =~= Map::empty());
            assert(r@.operators =~= Set::empty());
            assert forall|a: AccountId| #[trigger] count_in(r@.counts, a) == owned_by(r@.owners, a).len() by {
                assert(owned_by(r@.owners, a) =~= Set::empty());
            }
        }
        r
    }

    fn find_count(&self, a: &AccountId) -> (r: Option<usize>)
        ensures
            match r {
                Some(i) => i < self.owned_tokens_count@.len() && self.owned_tokens_count@[i as int].0 == *a,
                None => !has_key(self.owned_tokens_count@, *a),
            },
    {
        let mut i: usize = 0;
        while i < self.owned_tokens_count.len()
            invariant
                i <= self.owned_tokens_count@.len(),
                forall|j: int| 0 <= j < i ==> #[trigger] self.owned_tokens_count@[j].0 != *a,
            decreases self.owned_tokens_count@.len() - i,
        {
            if self.owned_tokens_count[i].0 == *a {
                return Some(i);
            }
            i = i + 1;
        }
        None
    }

    /// Returns the total number of tokens of an account.
    fn balance_of_or_zero(&self, of: &AccountId) -> (r: u32)
        requires
            self.lists_wf(),
        ensures
            r as nat == self@.balance(*of),
    {
        match self.find_count(of) {
            Some(i) => {
                proof {
                    crate::assoc::lemma_assoc_index(self.owned_tokens_count@, i as int);
                }
                self.owned_tokens_count[i].1
            },
            None => 0,
        }
    }

    /// Stores `c` as the token count of `a`.
    fn set_count(&mut self, a: AccountId, c: u32)
        requires
            old(self).lists_wf(),
        ensures
            final(self).lists_wf(),
            final(self)@ == old(self)@.with_count(a, c as nat),
    {
        match self.find_count(&a) {
            Some(i) => {
                proof {
                    crate::assoc::lemma_assoc_update(self.owned_tokens_count@, i as int, c);
                }
                self.owned_tokens_count.set(i, (a, c));
            },
            None => {
                proof {
                    crate::assoc::lemma_assoc_push(self.owned_tokens_count@, a, c);
                }
                self.owned_tokens_count.push((a, c));
            },
        }
    }

    fn find_operator(&self, owner: &AccountId, operator: &AccountId) -> (r: Option<usize>)
        ensures
            match r {
                Some(i) => i < self.operator_approvals@.len() && self.operator_approvals@[i as int].0
                    == (*owner, *operator),
                None => !has_key(self.operator_approvals@, (*owner, *operator)),
            },
    {
        let mut i: usize = 0;
        while i < self.operator_approvals.len()
            invariant
                i <= self.operator_approvals@.len(),
                forall|j: int|
                    0 <= j < i ==> #[trigger] self.operator_approvals@[j].0 != (*owner, *operator),
            decreases self.operator_approvals@.len() - i,
        {
            let entry = &self.operator_approvals[i];
            if entry.0.0 == *owner && entry.0.1 == *operator {
                return Some(i);
            }
            i = i + 1;
        }
        None
    }

    /// Gets an operator on other Account's behalf.
    fn approved_for_all(&self, owner: AccountId, operator: AccountId) -> (r: bool)
        requires
            self.lists_wf(),
        ensures
            r == self@.is_operator(owner, operator),
    {
        match self.find_operator(&owner, &operator) {
            Some(i) => {
                proof {
                    crate::assoc::lemma_assoc_index(self.operator_approvals@, i as int);
                }
                self.operator_approvals[i].1
            },
            None => false,
        }
    }

    /// Enables or disables `operator` for `owner`.
    fn set_operator(&mut self, owner: AccountId, operator: AccountId, approved: bool)
        requires
            old(self).lists_wf(),
        ensures
            final(self).lists_wf(),
            final(self)@ == (LedgerView {
                operators: if approved {
                    old(self)@.operators.insert((owner, operator))
                } else {
                    old(self)@.operators.remove((owner, operator))
                },
                ..old(self)@
            }),
    {
        let ghost pair = (owner, operator);
        let ghost before = self.operator_approvals@;
        match self.find_operator(&owner, &operator) {
            Some(i) => {
                proof {
                    crate::assoc::lemma_assoc_update(before, i as int, approved);
                }
                self.operator_approvals.set(i, ((owner, operator), approved));
            },
            None => {
                if approved {
                    proof {
                        crate::assoc::lemma_assoc_push(before, pair, approved);
                    }
                    self.operator_approvals.push(((owner, operator), approved));
                }
            },
        }
        proof {
            let want = if approved {
                enabled_pairs(before).insert(pair)
            } else {
                enabled_pairs(before).remove(pair)
            };
            assert(enabled_pairs(self.operator_approvals@) =~= want);
        }
    }

    /// Adds the token `id` to the `to` account.
    fn add_token_to(&mut self, to: &AccountId, id: TokenId) -> (r: Result<(), Error>)
        requires
            old(self).lists_wf(),
            old(self)@.counts_match(),
            !old(self)@.owners.contains_key(id) && !to.is_null_spec() ==> old(self)@.balance(*to)
                < u32::MAX,
        ensures
            final(self).lists_wf(),
            final(self)@.counts_match(),
            old(self)@.owners.contains_key(id) ==> r == Err::<(), Error>(Error::TokenExists)
                && final(self)@ == old(self)@,
            !old(self)@.owners.contains_key(id) && to.is_null_spec() ==> r == Err::<(), Error>(
                Error::NotAllowed,
            ) && final(self)@ == old(self)@,
            !old(self)@.owners.contains_key(id) && !to.is_null_spec() ==> r == Ok::<(), Error>(())
                && final(self)@ == old(self)@.add_token(*to, id),
    {
        if self.token_owner.contains_key(&id) {
            return Err(Error::TokenExists);
        }
        if to.is_null() {
            return Err(Error::NotAllowed);
        }
        proof {
            lemma_add_token_counts(self@, *to, id);
        }
        let count = self.balance_of_or_zero(to);
        self.set_count(*to, count + 1);
        self.token_owner.insert(id, *to);
        Ok(())
    }

    /// Removes token `id` from its owner `from`.
    fn remove_token_from(&mut self, from: &AccountId, id: TokenId) -> (r: Result<(), Error>)
        requires
            old(self).lists_wf(),
            old(self)@.counts_match(),
            old(self)@.owners.contains_key(id) ==> old(self)@.owners[id] == *from,
        ensures
            final(self).lists_wf(),
            final(self)@.counts_match(),
            !old(self)@.owners.contains_key(id) ==> r == Err::<(), Error>(Error::TokenNotFound)
                && final(self)@ == old(self)@,
            old(self)@.owners.contains_key(id) ==> r == Ok::<(), Error>(()) && final(self)@
                == old(self)@.remove_token(*from, id),
    {
        if !self.token_owner.contains_key(&id) {
            return Err(Error::TokenNotFound);
        }
        proof {
            lemma_remove_token_counts(self@, *from, id);
        }
        let count = self.balance_of_or_zero(from);
        self.set_count(*from, count - 1);
        self.token_owner.remove(&id);
        Ok(())
    }

    /// Returns the number of tokens that `owner` holds.
    pub fn balance_of(&self, owner: AccountId) -> (r: u32)
        requires
            self.wf(),
        ensures
            r as nat == self@.balance(owner),
            r as nat == owned_by(self@.owners, owner).len(),
    {
        self.balance_of_or_zero(&owner)
    }

    /// Returns the owner of the token, if it exists.
    pub fn owner_of(&self, id: TokenId) -> (r: Option<AccountId>)
        ensures
            r == (if self@.owners.contains_key(id) {
                Some(self@.owners[id])
            } else {
                None
            }),
    {
        match self.token_owner.get(&id) {
            Some(owner) => Some(*owner),
            None => None,
        }
    }

    /// Returns the approved delegate of the token, if any.
    pub fn get_approved(&self, id: TokenId) -> (r: Option<AccountId>)
        ensures
            r == (if self@.approvals.contains_key(id) {
                Some(self@.approvals[id])
            } else {
                None
            }),
    {
        match self.token_approvals.get(&id) {
            Some(delegate) => Some(*delegate),
            None => None,
        }
    }

    /// Returns `true` if `operator` may act on all tokens of `owner`.
    pub fn is_approved_for_all(&self, owner: AccountId, operator: AccountId) -> (r: bool)
        requires
            self.wf(),
        ensures
            r == self@.is_operator(owner, operator),
    {
        self.approved_for_all(owner, operator)
    }

    /// Returns what the token acknowledges, if it was ever minted.
    pub fn get_fragment_acknowledgment(&self, id: TokenId) -> (r: Option<FragmentAcknowledgement>)
        ensures
            r == (if self@.acks.contains_key(id) {
                Some(self@.acks[id])
            } else {
                None
            }),
    {
        match self.fragment_acknowledgments.get(&id) {
            Some(ack) => Some(*ack),
            None => None,
        }
    }

    /// Returns what the token acknowledges together with its owner, for an
    /// existing token.
    pub fn get_fa_info(&self, id: TokenId) -> (r: Option<(FragmentAcknowledgement, AccountId)>)
        ensures
            r == (if self@.acks.contains_key(id) && self@.owners.contains_key(id) {
                Some((self@.acks[id], self@.owners[id]))
            } else {
                None
            }),
    {
        match (self.get_fragment_acknowledgment(id), self.owner_of(id)) {
            (Some(ack), Some(owner)) => Some((ack, owner)),
            _ => None,
        }
    }

    /// Returns the events raised so far, oldest first.
    pub fn recorded_events(&self) -> (r: &Vec<Event>)
        ensures
            r@ == self@.events,
    {
        &self.events
    }

    /// Mints the token that acknowledges fragment `fragment_cid` for `owner` at
    /// block `block_number`, and returns its identifier.
    ///
    /// Only the privileged account may mint: `caller` must hold the role.
    pub fn mint(
        &mut self,
        caller: AccountId,
        fragment_cid: FragmentCid,
        owner: AccountId,
        block_number: BlockNumber,
    ) -> (r: Result<TokenId, Error>)
        requires
            old(self).wf(),
            old(self)@.is_owner(caller),
            old(self)@.mint_fits(fragment_cid, owner, block_number),
        ensures
            final(self).wf(),
            (final(self)@, r) == old(self)@.mint(fragment_cid, owner, block_number),
            r is Err ==> final(self)@ == old(self)@,
            ({
                let id = token_id_of(fragment_cid, owner, block_number);
                &&& old(self)@.owners.contains_key(id) ==> r == Err::<TokenId, Error>(Error::TokenExists)
                &&& !old(self)@.owners.contains_key(id) && owner.is_null_spec() ==> r == Err::<
                    TokenId,
                    Error,
                >(Error::NotAllowed)
                &&& !old(self)@.owners.contains_key(id) && !owner.is_null_spec() ==> {
                    &&& r == Ok::<TokenId, Error>(id)
                    &&& final(self)@.owners == old(self)@.owners.insert(id, owner)
                    &&& final(self)@.balance(owner) == old(self)@.balance(owner) + 1
                    &&& forall|a: AccountId| a != owner ==> #[trigger] final(self)@.balance(a) == old(self)@.balance(a)
                    &&& final(self)@.acks == old(self)@.acks.insert(
                        id,
                        FragmentAcknowledgement { fragment_cid, block_number },
                    )
                    &&& final(self)@.approvals == old(self)@.approvals
                    &&& final(self)@.operators == old(self)@.operators
                    &&& final(self)@.events == old(self)@.events.push(
                        Event::Transfer(Transfer { from: Some(null_account()), to: Some(owner), id }),
                    )
                }
            }),
    {
        let id = TokenRef(fragment_cid, owner, block_number).token_id();
        let ghost before = self@;
        if let Err(e) = self.add_token_to(&owner, id) {
            return Err(e);
        }
        let ghost mid = self@;
        self.fragment_acknowledgments.insert(
            id,
            FragmentAcknowledgement { fragment_cid, block_number },
        );
        let null = AccountId::null();
        proof {
            lemma_null_account(null);
        }
        self.events.push(Event::Transfer(Transfer { from: Some(null), to: Some(owner), id }));
        proof {
            assert forall|t: TokenId| #[trigger] self@.approvals.contains_key(t) implies self@.owners.contains_key(t) by {
                assert(before.approvals.contains_key(t));
            }
            assert(self@.counts == mid.counts);
            assert(self@.owners == mid.owners);
        }
        Ok(id)
    }

    /// Destroys token `id`. Only its owner may burn it; its approval goes with it.
    pub fn burn(&mut self, caller: AccountId, id: TokenId) -> (r: Result<(), Error>)
        requires
            old(self).wf(),
        ensures
            final(self).wf(),
            (final(self)@, r) == old(self)@.burn(caller, id),
            !old(self)@.owners.contains_key(id) ==> r == Err::<(), Error>(Error::TokenNotFound)
                && final(self)@ == old(self)@,
            old(self)@.owners.contains_key(id) && old(self)@.owners[id] != caller ==> r == Err::<
                (),
                Error,
            >(Error::NotOwner) && final(self)@ == old(self)@,
            r is Ok ==> !final(self)@.owners.contains_key(id) && !final(self)@.approvals.contains_key(
                id,
            ),
    {
        let owner = match self.owner_of(id) {
            Some(owner) => owner,
            None => {
                return Err(Error::TokenNotFound);
            },
        };
        if owner != caller {
            return Err(Error::NotOwner);
        }
        let ghost before = self@;
        let removed = self.remove_token_from(&caller, id);
        if removed.is_err() {
            return removed;
        }
        let ghost mid = self@;
        self.clear_approval(id);
        let null = AccountId::null();
        proof {
            lemma_null_account(null);
        }
        self.events.push(Event::Transfer(Transfer { from: Some(caller), to: Some(null), id }));
        proof {
            assert(self@.counts == mid.counts);
            assert(self@.owners == mid.owners);
            assert forall|t: TokenId| #[trigger] self@.approvals.contains_key(t) implies self@.owners.contains_key(t) by {
                assert(before.approvals.contains_key(t));
            }
        }
        Ok(())
    }

    /// Removes any approval of token `id`.
    fn clear_approval(&mut self, id: TokenId)
        ensures
            final(self).lists_wf() == old(self).lists_wf(),
            final(self)@ == (LedgerView { approvals: old(self)@.approvals.remove(id), ..old(self)@ }),
    {
        self.token_approvals.remove(&id);
    }

    /// Returns true if `from` is the owner of token `id` or has been approved
    /// to move it on the owner's behalf.
    fn approved_or_owner(&self, from: AccountId, id: TokenId, owner: AccountId) -> (r: bool)
        requires
            self.lists_wf(),
        ensures
            r == self@.approved_or_owner(from, id, owner),
    {
        !from.is_null() && (from == owner || self.get_approved(id) == Some(from)
            || self.approved_for_all(owner, from))
    }

    /// Moves token `id` from `from` to `to` on behalf of `caller`.
    fn transfer_token_from(
        &mut self,
        caller: AccountId,
        from: &AccountId,
        to: &AccountId,
        id: TokenId,
    ) -> (r: Result<(), Error>)
        requires
            old(self).wf(),
            old(self)@.transfer_fits(caller, *from, *to, id),
        ensures
            final(self).wf(),
            (final(self)@, r) == old(self)@.transfer_from(caller, *from, *to, id),
    {
        let owner = match self.owner_of(id) {
            Some(owner) => owner,
            None => {
                return Err(Error::TokenNotFound);
            },
        };
        if !self.approved_or_owner(caller, id, owner) {
            return Err(Error::NotApproved);
        }
        if owner != *from {
            return Err(Error::NotOwner);
        }
        if to.is_null() {
            return Err(Error::NotAllowed);
        }
        let ghost before = self@;
        self.clear_approval(id);
        let ghost cleared = self@;
        let removed = self.remove_token_from(from, id);
        if removed.is_err() {
            return removed;
        }
        let ghost mid = self@;
        proof {
            lemma_remove_token_counts(cleared, *from, id);
            if *to != *from {
                assert(mid.balance(*to) == before.balance(*to));
            }
        }
        let added = self.add_token_to(to, id);
        if added.is_err() {
            return added;
        }
        let ghost after = self@;
        self.events.push(Event::Transfer(Transfer { from: Some(*from), to: Some(*to), id }));
        proof {
            assert(self@.counts == after.counts);
            assert(self@.owners == after.owners);
            assert forall|t: TokenId| #[trigger] self@.approvals.contains_key(t) implies self@.owners.contains_key(t) by {
                assert(before.approvals.contains_key(t));
            }
        }
        Ok(())
    }

    /// Moves token `id` from `caller`, its owner, to `destination`.
    pub fn transfer(&mut self, caller: AccountId, destination: AccountId, id: TokenId) -> (r: Result<(), Error>)
        requires
            old(self).wf(),
            old(self)@.transfer_fits(caller, caller, destination, id),
        ensures
            final(self).wf(),
            (final(self)@, r) == old(self)@.transfer_from(caller, caller, destination, id),
            r is Ok ==> !final(self)@.approvals.contains_key(id),
            r is Ok ==> final(self)@.owners[id] == destination,
    {
        self.transfer_token_from(caller, &caller, &destination, id)
    }

    /// Moves token `id` from `from` to `to` on behalf of `caller`, which must be
    /// the owner, the token's approved delegate or an operator of the owner.
    pub fn transfer_from(&mut self, caller: AccountId, from: AccountId, to: AccountId, id: TokenId) -> (r: Result<(), Error>)
        requires
            old(self).wf(),
            old(self)@.transfer_fits(caller, from, to, id),
        ensures
            final(self).wf(),
            (final(self)@, r) == old(self)@.transfer_from(caller, from, to, id),
            r is Ok <==> (old(self)@.owners.contains_key(id) && old(self)@.owners[id] == from
                && old(self)@.approved_or_owner(caller, id, from) && !to.is_null_spec()),
            r is Err ==> final(self)@ == old(self)@,
            r is Ok ==> {
                &&& final(self)@.owners == old(self)@.owners.insert(id, to)
                &&& !final(self)@.approvals.contains_key(id)
                &&& final(self)@.approvals == old(self)@.approvals.remove(id)
                &&& final(self)@.operators == old(self)@.operators
                &&& to != from ==> final(self)@.balance(from) == old(self)@.balance(from) - 1
                    && final(self)@.balance(to) == old(self)@.balance(to) + 1
                &&& to == from ==> final(self)@.balance(from) == old(self)@.balance(from)
                &&& forall|a: AccountId| a != from && a != to ==> #[trigger] final(self)@.balance(a) == old(self)@.balance(a)
                &&& final(self)@.events == old(self)@.events.push(
                    Event::Transfer(Transfer { from: Some(from), to: Some(to), id }),
                )
            },
    {
        let ghost before = self@;
        let r = self.transfer_token_from(caller, &from, &to, id);
        proof {
            if r is Ok {
                assert(self@.owners =~= before.owners.insert(id, to));
                let cleared = LedgerView { approvals: before.approvals.remove(id), ..before };
                lemma_remove_token_counts(cleared, from, id);
            }
        }
        r
    }

    /// Approves `to` to move token `id`; `caller` must be the owner or one of
    /// its operators.
    fn approve_for(&mut self, caller: AccountId, to: &AccountId, id: TokenId) -> (r: Result<(), Error>)
        requires
            old(self).wf(),
        ensures
            final(self).wf(),
            (final(self)@, r) == old(self)@.approve(caller, *to, id),
    {
        let owner = match self.owner_of(id) {
            Some(owner) => owner,
            None => {
                return Err(Error::TokenNotFound);
            },
        };
        if !(owner == caller || self.approved_for_all(owner, caller)) {
            return Err(Error::NotAllowed);
        }
        if to.is_null() {
            return Err(Error::NotAllowed);
        }
        if self.token_approvals.contains_key(&id) {
            return Err(Error::CannotInsert);
        }
        let ghost before = self@;
        self.token_approvals.insert(id, *to);
        self.events.push(Event::Approval(Approval { from: caller, to: *to, id }));
        proof {
            assert(self@.counts == before.counts);
            assert(self@.owners == before.owners);
        }
        Ok(())
    }

    /// Approves `to` to move token `id` on behalf of `caller`.
    pub fn approve(&mut self, caller: AccountId, to: AccountId, id: TokenId) -> (r: Result<(), Error>)
        requires
            old(self).wf(),
        ensures
            final(self).wf(),
            (final(self)@, r) == old(self)@.approve(caller, to, id),
            r is Ok ==> final(self)@.approvals[id] == to,
    {
        self.approve_for(caller, &to, id)
    }

    /// Enables or disables `to` as an operator for all tokens of `caller`.
    fn approve_for_all(&mut self, caller: AccountId, to: AccountId, approved: bool) -> (r: Result<(), Error>)
        requires
            old(self).wf(),
        ensures
            final(self).wf(),
            (final(self)@, r) == old(self)@.set_approval_for_all(caller, to, approved),
    {
        if to == caller {
            return Err(Error::NotAllowed);
        }
        let ghost before = self@;
        self.events.push(
            Event::ApprovalForAll(ApprovalForAll { owner: caller, operator: to, approved }),
        );
        self.set_operator(caller, to, approved);
        proof {
            assert(self@.counts == before.counts);
            assert(self@.owners == before.owners);
            assert(self@.approvals == before.approvals);
        }
        Ok(())
    }

    /// Enables or disables `to` as an operator for all tokens of `caller`. An
    /// account cannot be its own operator.
    pub fn set_approval_for_all(&mut self, caller: AccountId, to: AccountId, approved: bool) -> (r: Result<(), Error>)
        requires
            old(self).wf(),
        ensures
            final(self).wf(),
            (final(self)@, r) == old(self)@.set_approval_for_all(caller, to, approved),
            r is Ok ==> final(self)@.is_operator(caller, to) == approved,
    {
        self.approve_for_all(caller, to, approved)
    }

    /// Checks that minting fragment `fragment_cid` for `owner` at block
    /// `block_number` keeps the count of `owner` within a `u32`.
    pub fn mint_fits(&self, fragment_cid: FragmentCid, owner: AccountId, block_number: BlockNumber) -> (r: bool)
        requires
            self.wf(),
        ensures
            r == self@.mint_fits(fragment_cid, owner, block_number),
    {
        let id = TokenRef(fragment_cid, owner, block_number).token_id();
        self.token_owner.contains_key(&id) || owner.is_null() || self.balance_of_or_zero(&owner) < u32::MAX
    }

    /// Checks that moving token `id` from `from` to `to` on behalf of `caller`
    /// keeps the count of `to` within a `u32`.
    pub fn transfer_fits(&self, caller: AccountId, from: AccountId, to: AccountId, id: TokenId) -> (r: bool)
        requires
            self.wf(),
        ensures
            r == self@.transfer_fits(caller, from, to, id),
    {
        if to == from {
            return true;
        }
        let moves = match self.owner_of(id) {
            Some(owner) => self.approved_or_owner(caller, id, owner) && owner == from && !to.is_null(),
            None => false,
        };
        !moves || self.balance_of_or_zero(&to) < u32::MAX
    }
}

} // verus!

verus! {

impl Ownable for FaNft {
    closed spec fn owner_spec(&self) -> AccountId {
        self.contract_owner
    }

    fn owner(&self) -> (r: AccountId)
        ensures
            r == self@.contract_owner,
    {
        self.contract_owner
    }

    fn is_owner(&self, account: AccountId) -> (r: bool)
        ensures
            r == self@.is_owner(account),
    {
        !account.is_null() && self.contract_owner == account
    }

    fn renounce_ownership(&mut self, caller: AccountId)
        ensures
            final(self)@ == old(self)@.with_contract_owner(null_account()),
            old(self).wf() ==> final(self).wf(),
    {
        let ghost before = self@;
        let null = AccountId::null();
        proof {
            lemma_null_account(null);
        }
        self.contract_owner = null;
        proof {
            assert(self@.counts == before.counts && self@.owners == before.owners);
            assert(self@.approvals == before.approvals);
        }
    }

    fn transfer_ownership(&mut self, caller: AccountId, new_owner: AccountId)
        ensures
            final(self)@ == old(self)@.with_contract_owner(new_owner),
            old(self).wf() ==> final(self).wf(),
    {
        let ghost before = self@;
        self.contract_owner = new_owner;
        proof {
            assert(self@.counts == before.counts && self@.owners == before.owners);
            assert(self@.approvals == before.approvals);
        }
    }
}

} // verus!
