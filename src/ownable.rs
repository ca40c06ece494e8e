//! A single privileged role, shared by the ledger and the rounds.

use crate::account::AccountId;
use vstd::prelude::*;

verus! {

/// `account` holds a privileged role whose holder is `owner`. The null
/// account never does.
pub open spec fn holds_role(owner: AccountId, account: AccountId) -> bool {
    !account.is_null_spec() && account == owner
}

/// A single privileged account that may hand its role on or give it up.
///
/// A call by any other account is not a business error but a broken
/// precondition: the operations require the caller to hold the role.
pub trait Ownable {
    /// The account that holds the role.
    spec fn owner_spec(&self) -> AccountId;

    /// Returns the account that holds the role.
    fn owner(&self) -> (r: AccountId)
        ensures
            r == self.owner_spec(),
    ;

    /// Checks whether `account` holds the role.
    fn is_owner(&self, account: AccountId) -> (r: bool)
        ensures
            r == holds_role(self.owner_spec(), account),
    ;

    /// Gives the role up for good: afterwards no account holds it.
    fn renounce_ownership(&mut self, caller: AccountId)
        requires
            holds_role(old(self).owner_spec(), caller),
        ensures
            final(self).owner_spec().is_null_spec(),
    ;

    /// Hands the role to `new_owner`.
    fn transfer_ownership(&mut self, caller: AccountId, new_owner: AccountId)
        requires
            holds_role(old(self).owner_spec(), caller),
        ensures
            final(self).owner_spec() == new_owner,
    ;
}

} // verus!
