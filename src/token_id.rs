//! Token identifiers, derived by hashing what a token acknowledges.

use crate::account::AccountId;
use vstd::prelude::*;

verus! {

/// The identifier of a token, derived from what it acknowledges.
pub type TokenId = u64;

/// The content identifier of a fragment.
pub type FragmentCid = u32;

/// A logical block number, the only notion of time here.
pub type BlockNumber = u32;

/// The 16-byte BLAKE2b digest of `input`.
pub uninterp spec fn blake2x128_of(input: Seq<u8>) -> Seq<u8>;

/// Relies on `CryptoHash::hash` of ink's `ink::env::hash::Blake2x128` (BLAKE2b
/// with a 16-byte output): the digest depends on the input bytes alone.
#[verifier::external_body]
fn blake2x128(input: &Vec<u8>) -> (r: [u8; 16])
    ensures
        r@ == blake2x128_of(input@),
{
    let mut output = [0u8; 16];
    <ink::env::hash::Blake2x128 as ink::env::hash::CryptoHash>::hash(input.as_slice(), &mut output);
    output
}

/// The canonical (little-endian) encoding of a `u32`.
pub open spec fn le_u32_bytes(x: u32) -> Seq<u8> {
    seq![
        (x % 256) as u8,
        ((x / 256) % 256) as u8,
        ((x / 65536) % 256) as u8,
        (x / 16777216) as u8,
    ]
}

/// The bytes that a token identifier is hashed from: the encodings of the
/// fragment, the recipient and the block number, one after the other.
pub open spec fn token_ref_encoding(cid: u32, account: AccountId, block: u32) -> Seq<u8> {
    le_u32_bytes(cid) + account.bytes() + le_u32_bytes(block)
}

/// The number that the bytes `s` spell in big-endian order.
pub open spec fn be_value(s: Seq<u8>) -> nat
    decreases s.len(),
{
    if s.len() == 0 {
        0
    } else {
        be_value(s.drop_last()) * 256 + s.last() as nat
    }
}

/// `256` to the power `n`.
pub open spec fn pow256(n: nat) -> nat
    decreases n,
{
    if n == 0 {
        1
    } else {
        256 * pow256((n - 1) as nat)
    }
}

/// The identifier of the token that acknowledges fragment `cid` for `account`
/// at block `block`: the first 8 bytes of the BLAKE2b-128 digest of their
/// encoding, read as a big-endian integer.
pub open spec fn token_id_of(cid: u32, account: AccountId, block: u32) -> u64 {
    be_value(blake2x128_of(token_ref_encoding(cid, account, block)).take(8)) as u64
}

proof fn lemma_be_value_bound(s: Seq<u8>)
    ensures
        be_value(s) < pow256(s.len()),
    decreases s.len(),
{
    if s.len() > 0 {
        let p = s.drop_last();
        lemma_be_value_bound(p);
        let a = be_value(p);
        let b = pow256(p.len());
        let c = s.last() as nat;
        assert(a * 256 + c < 256 * b) by (nonlinear_arith)
            requires
                a < b,
                c < 256,
        ;
    }
}

fn push_le_u32(out: &mut Vec<u8>, x: u32)
    ensures
        final(out)@ == old(out)@ + le_u32_bytes(x),
{
    out.push((x % 256) as u8);
    out.push(((x / 256) % 256) as u8);
    out.push(((x / 65536) % 256) as u8);
    out.push((x / 16777216) as u8);
    assert(final(out)@ =~= old(out)@ + le_u32_bytes(x));
}

/// Lays out the bytes that a token identifier is hashed from.
fn encode_token_ref(cid: u32, account: &AccountId, block: u32) -> (r: Vec<u8>)
    ensures
        r@ == token_ref_encoding(cid, *account, block),
{
    let mut out: Vec<u8> = Vec::new();
    push_le_u32(&mut out, cid);
    let mut i: usize = 0;
    while i < 32
        invariant
            0 <= i <= 32,
            out@ == le_u32_bytes(cid) + account.bytes().take(i as int),
        decreases 32 - i,
    {
        out.push(account.0[i]);
        assert(account.bytes().take(i + 1) =~= account.bytes().take(i as int).push(account.0[i as int]));
        i = i + 1;
    }
    assert(account.bytes().take(32) =~= account.bytes());
    push_le_u32(&mut out, block);
    out
}

/// Reads the first 8 bytes of `bytes` as a big-endian integer.
fn be_u64_prefix(bytes: &[u8; 16]) -> (r: u64)
    ensures
        r as nat == be_value(bytes@.take(8)),
{
    proof {
        reveal_with_fuel(pow256, 9);
    }
    assert(pow256(8) == 18446744073709551616);
    let mut acc: u64 = 0;
    let mut i: usize = 0;
    while i < 8
        invariant
            0 <= i <= 8,
            bytes@.len() == 16,
            acc as nat == be_value(bytes@.take(i as int)),
            pow256(8) == 18446744073709551616,
        decreases 8 - i,
    {
        let ghost next = bytes@.take(i + 1);
        assert(next.drop_last() =~= bytes@.take(i as int));
        proof {
            lemma_be_value_bound(next);
            lemma_pow256_monotonic((i + 1) as nat, 8);
        }
        acc = acc * 256 + bytes[i] as u64;
        i = i + 1;
    }
    acc
}

proof fn lemma_pow256_monotonic(m: nat, n: nat)
    requires
        m <= n,
    ensures
        pow256(m) <= pow256(n),
    decreases n - m,
{
    if m < n {
        lemma_pow256_monotonic(m, (n - 1) as nat);
    }
}

/// What a token identifier is derived from: the fragment acknowledged, the
/// account it is minted to, and the block number of the mint.
#[derive(Clone, Copy, Debug)]
pub struct TokenRef(pub FragmentCid, pub AccountId, pub BlockNumber);

impl TokenRef {
    /// Derives the token identifier.
    pub fn token_id(&self) -> (r: TokenId)
        ensures
            r == token_id_of(self.0, self.1, self.2),
    {
        let encoded = encode_token_ref(self.0, &self.1, self.2);
        let digest = blake2x128(&encoded);
        be_u64_prefix(&digest)
    }
}

impl From<TokenRef> for TokenId {
    fn from(input: TokenRef) -> (r: TokenId) {
        input.token_id()
    }
}

impl vstd::std_specs::convert::FromSpecImpl<TokenRef> for TokenId {
    open spec fn obeys_from_spec() -> bool {
        true
    }

    open spec fn from_spec(input: TokenRef) -> TokenId {
        token_id_of(input.0, input.1, input.2)
    }
}

} // verus!
