//! Account addresses.

use vstd::prelude::*;

verus! {

/// A 32-byte account address.
///
/// The all-zero address is reserved: it stands for "no account" (the source of
/// a mint, the destination of a burn, a renounced privileged role).
#[derive(Clone, Copy, Debug)]
pub struct AccountId(pub [u8; 32]);

impl AccountId {
    /// The reserved all-zero address.
    pub fn null() -> (r: AccountId)
        ensures
            r.is_null_spec(),
    {
        AccountId([0u8; 32])
    }

    /// The address as a sequence of bytes.
    pub open spec fn bytes(self) -> Seq<u8> {
        self.0@
    }

    /// The reserved null address holds zero in every byte.
    pub open spec fn is_null_spec(self) -> bool {
        forall|i: int| 0 <= i < 32 ==> #[trigger] self.0@[i] == 0
    }

    /// Returns `true` exactly for the reserved all-zero address.
    pub fn is_null(&self) -> (r: bool)
        ensures
            r == self.is_null_spec(),
    {
        let mut i: usize = 0;
        while i < 32
            invariant
                0 <= i <= 32,
                forall|j: int| 0 <= j < i ==> #[trigger] self.0@[j] == 0,
            decreases 32 - i,
        {
            if self.0[i] != 0 {
                return false;
            }
            i = i + 1;
        }
        true
    }
}

/// Two addresses are equal when all their bytes are.
pub broadcast proof fn lemma_account_eq(a: AccountId, b: AccountId)
    ensures
        #[trigger] (a.0@ =~= b.0@) <==> a == b,
{
    if a.0@ =~= b.0@ {
        vstd::array::axiom_array_ext_equal(a.0, b.0);
    }
}

impl PartialEq for AccountId {
    fn eq(&self, other: &AccountId) -> (r: bool) {
        let mut i: usize = 0;
        while i < 32
            invariant
                0 <= i <= 32,
                forall|j: int| 0 <= j < i ==> #[trigger] self.0@[j] == other.0@[j],
            decreases 32 - i,
        {
            if self.0[i] != other.0[i] {
                return false;
            }
            i = i + 1;
        }
        proof {
            vstd::array::axiom_array_ext_equal(self.0, other.0);
        }
        true
    }
}

impl vstd::std_specs::cmp::PartialEqSpecImpl for AccountId {
    open spec fn obeys_eq_spec() -> bool {
        true
    }

    open spec fn eq_spec(&self, other: &AccountId) -> bool {
        *self == *other
    }
}

impl Eq for AccountId {
}

} // verus!
