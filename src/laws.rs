//! Properties of the ledger and the rounds that span several calls.

use crate::account::AccountId;
use crate::ledger::{
    lemma_add_token_counts, lemma_remove_token_counts, null_account, owned_by, Error, FaNft,
    FragmentAcknowledgement, LedgerView,
};
use crate::ownable::holds_role;
use crate::round::{self, RoundView};
use crate::token_id::{token_id_of, BlockNumber, FragmentCid, TokenId};
use vstd::prelude::*;

verus! {

/// One call of the ledger, with the account that makes it (a mint is made by
/// the privileged account).
pub enum LedgerCall {
    Mint { cid: FragmentCid, to: AccountId, block: BlockNumber },
    Burn { caller: AccountId, id: TokenId },
    TransferFrom { caller: AccountId, from: AccountId, to: AccountId, id: TokenId },
    Approve { caller: AccountId, to: AccountId, id: TokenId },
    SetApprovalForAll { caller: AccountId, operator: AccountId, approved: bool },
    TransferOwnership { new_owner: AccountId },
    RenounceOwnership,
}

/// The state after one call.
pub open spec fn step(l: LedgerView, call: LedgerCall) -> LedgerView {
    match call {
        LedgerCall::Mint { cid, to, block } => l.mint(cid, to, block).0,
        LedgerCall::Burn { caller, id } => l.burn(caller, id).0,
        LedgerCall::TransferFrom { caller, from, to, id } => l.transfer_from(caller, from, to, id).0,
        LedgerCall::Approve { caller, to, id } => l.approve(caller, to, id).0,
        LedgerCall::SetApprovalForAll { caller, operator, approved } => l.set_approval_for_all(
            caller,
            operator,
            approved,
        ).0,
        LedgerCall::TransferOwnership { new_owner } => l.with_contract_owner(new_owner),
        LedgerCall::RenounceOwnership => l.with_contract_owner(null_account()),
    }
}

/// The state after a sequence of calls, made in order.
pub open spec fn run(l: LedgerView, calls: Seq<LedgerCall>) -> LedgerView
    decreases calls.len(),
{
    if calls.len() == 0 {
        l
    } else {
        step(run(l, calls.drop_last()), calls.last())
    }
}

/// `call`, made in state `l`, is a successful mint of token `id`.
pub open spec fn mints(l: LedgerView, call: LedgerCall, id: TokenId) -> bool {
    match call {
        LedgerCall::Mint { cid, to, block } => l.mint(cid, to, block).1 == Ok::<TokenId, Error>(id),
        _ => false,
    }
}

/// `call`, made in state `l`, is a successful burn of token `id`.
pub open spec fn burns(l: LedgerView, call: LedgerCall, id: TokenId) -> bool {
    match call {
        LedgerCall::Burn { caller, id: burned } => burned == id && l.burn(caller, id).1 is Ok,
        _ => false,
    }
}

/// Token `id` was minted by one of `calls` (or existed before them) and no
/// later call burned it.
pub open spec fn minted_and_not_burned(l: LedgerView, calls: Seq<LedgerCall>, id: TokenId) -> bool
    decreases calls.len(),
{
    if calls.len() == 0 {
        l.owners.contains_key(id)
    } else {
        let before = run(l, calls.drop_last());
        if mints(before, calls.last(), id) {
            true
        } else if burns(before, calls.last(), id) {
            false
        } else {
            minted_and_not_burned(l, calls.drop_last(), id)
        }
    }
}

/// A token exists after a call exactly when the call minted it, or it existed
/// before and the call did not burn it.
pub proof fn lemma_step_existence(l: LedgerView, call: LedgerCall, id: TokenId)
    ensures
        step(l, call).owners.contains_key(id) == (mints(l, call, id) || (l.owners.contains_key(id)
            && !burns(l, call, id))),
{
    match call {
        LedgerCall::TransferFrom { caller, from, to, id: moved } => {
            if l.transfer_from(caller, from, to, moved).1 is Ok {
                assert(l.owners.contains_key(moved));
            }
        },
        _ => {},
    }
}

/// After any sequence of calls a token has an owner exactly when it was
/// minted by one of them (or existed before them) and not burned since.
pub proof fn lemma_owner_iff_minted_not_burned(l: LedgerView, calls: Seq<LedgerCall>, id: TokenId)
    ensures
        run(l, calls).owners.contains_key(id) == minted_and_not_burned(l, calls, id),
    decreases calls.len(),
{
    if calls.len() > 0 {
        lemma_owner_iff_minted_not_burned(l, calls.drop_last(), id);
        lemma_step_existence(run(l, calls.drop_last()), calls.last(), id);
    }
}

/// In a well-formed ledger the balance of every account is the number of
/// tokens that it owns.
pub proof fn lemma_balance_counts_tokens(ledger: &FaNft)
    requires
        ledger.wf(),
    ensures
        forall|a: AccountId| #[trigger] ledger@.balance(a) == owned_by(ledger@.owners, a).len(),
{
    ledger.lemma_wf_inv();
}

/// Minting the same (fragment, recipient, block) twice: the second mint fails
/// with `TokenExists` and leaves the state of the first.
pub proof fn lemma_mint_twice(l: LedgerView, cid: FragmentCid, to: AccountId, block: BlockNumber)
    requires
        l.mint(cid, to, block).1 is Ok,
    ensures
        l.mint(cid, to, block).0.mint(cid, to, block) == (
            l.mint(cid, to, block).0,
            Err::<TokenId, Error>(Error::TokenExists),
        ),
{
}

/// Once `owner` has made `operator` its operator, the operator can move any
/// token of the owner to any account but the null one; once the owner has
/// withdrawn that right, the same move fails with `NotApproved`, unless the
/// operator is the token's own approved delegate.
pub proof fn lemma_operator_transfers(
    l: LedgerView,
    owner: AccountId,
    operator: AccountId,
    to: AccountId,
    id: TokenId,
)
    requires
        l.owners.contains_key(id),
        l.owners[id] == owner,
        operator != owner,
        !operator.is_null_spec(),
        !to.is_null_spec(),
    ensures
        l.set_approval_for_all(owner, operator, true).0.transfer_from(operator, owner, to, id).1
            == Ok::<(), Error>(()),
        !(l.approvals.contains_key(id) && l.approvals[id] == operator) ==> l.set_approval_for_all(
            owner,
            operator,
            false,
        ).0.transfer_from(operator, owner, to, id).1 == Err::<(), Error>(Error::NotApproved),
{
}

/// Once the privileged role is renounced, no account holds it, so no account
/// meets the requirement of a privileged call (minting, handing the role on,
/// renouncing it).
pub proof fn lemma_renounced_role_is_vacant(l: LedgerView, account: AccountId)
    ensures
        !l.with_contract_owner(null_account()).is_owner(account),
        !holds_role(null_account(), account),
{
    let n = null_account();
    if holds_role(n, account) {
        crate::ledger::lemma_null_account_exists();
        assert(account.is_null_spec());
    }
}

/// A claim with a correct proof succeeds once and mints the token that
/// acknowledges the fragment for the caller at the call's block; the same
/// claim again fails with the ledger's `TokenExists`, wrapped, and changes nothing.
pub proof fn lemma_claim_once(
    r: RoundView,
    mmr_size: u64,
    items: Seq<Seq<u8>>,
    cid: FragmentCid,
    secret: Seq<u8>,
    caller: AccountId,
    block: BlockNumber,
)
    requires
        r.claim(mmr_size, items, cid, secret, caller, block).1 is Ok,
    ensures
        ({
            let after = r.claim(mmr_size, items, cid, secret, caller, block).0;
            let id = token_id_of(cid, caller, block);
            &&& after.ledger.owners.contains_key(id)
            &&& after.ledger.owners[id] == caller
            &&& after.ledger.acks[id] == (FragmentAcknowledgement { fragment_cid: cid, block_number: block })
            &&& after.claim(mmr_size, items, cid, secret, caller, block) == (
                after,
                Err::<(), round::Error>(round::Error::FaNFT(Error::TokenExists)),
            )
        }),
{
}

/// `call`, made in state `l`, keeps every token count within a `u32`: an
/// account that receives a new token holds fewer than `u32::MAX` of them.
pub open spec fn fits(l: LedgerView, call: LedgerCall) -> bool {
    match call {
        LedgerCall::Mint { cid, to, block } => l.mint_fits(cid, to, block),
        LedgerCall::TransferFrom { caller, from, to, id } => l.transfer_fits(caller, from, to, id),
        _ => true,
    }
}

/// Every call whose counts fit keeps the invariant: counts match ownership and
/// only existing tokens have an approved delegate.
pub proof fn lemma_step_keeps_inv(l: LedgerView, call: LedgerCall)
    requires
        l.inv(),
        fits(l, call),
    ensures
        step(l, call).inv(),
{
    let after = step(l, call);
    match call {
        LedgerCall::Mint { cid, to, block } => {
            let id = token_id_of(cid, to, block);
            if l.mint(cid, to, block).1 is Ok {
                lemma_add_token_counts(l, to, id);
                let added = l.add_token(to, id);
                assert(after.counts == added.counts && after.owners == added.owners);
            }
        },
        LedgerCall::Burn { caller, id } => {
            if l.burn(caller, id).1 is Ok {
                lemma_remove_token_counts(l, caller, id);
                let removed = l.remove_token(caller, id);
                assert(after.counts == removed.counts && after.owners == removed.owners);
            }
        },
        LedgerCall::TransferFrom { caller, from, to, id } => {
            if l.transfer_from(caller, from, to, id).1 is Ok {
                let cleared = LedgerView { approvals: l.approvals.remove(id), ..l };
                assert(cleared.counts_match());
                lemma_remove_token_counts(cleared, from, id);
                let removed = cleared.remove_token(from, id);
                if to != from {
                    assert(removed.balance(to) == l.balance(to));
                }
                lemma_add_token_counts(removed, to, id);
                let added = removed.add_token(to, id);
                assert(after.counts == added.counts && after.owners == added.owners);
            }
        },
        _ => {
            assert(after.counts == l.counts && after.owners == l.owners);
        },
    }
}

/// Starting from a ledger that satisfies the invariant, every state reached by
/// calls whose counts fit satisfies it too; in each, the balance of every
/// account is the number of tokens that it owns.
pub proof fn lemma_run_keeps_inv(l: LedgerView, calls: Seq<LedgerCall>)
    requires
        l.inv(),
        forall|i: int| 0 <= i < calls.len() ==> fits(#[trigger] run(l, calls.take(i)), calls[i]),
    ensures
        run(l, calls).inv(),
        forall|a: AccountId| #[trigger] run(l, calls).balance(a) == owned_by(run(l, calls).owners, a).len(),
    decreases calls.len(),
{
    if calls.len() > 0 {
        let prefix = calls.drop_last();
        assert forall|i: int| 0 <= i < prefix.len() implies fits(#[trigger] run(l, prefix.take(i)), prefix[i]) by {
            assert(prefix.take(i) =~= calls.take(i));
            assert(fits(run(l, calls.take(i)), calls[i]));
        }
        lemma_run_keeps_inv(l, prefix);
        let last = calls.len() - 1;
        assert(calls.take(last) =~= prefix);
        assert(fits(run(l, calls.take(last)), calls[last]));
        lemma_step_keeps_inv(run(l, prefix), calls.last());
    }
}

} // verus!
