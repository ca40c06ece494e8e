use fragments::ledger::{Error, FaNft, FragmentAcknowledgement};
use fragments::ownable::Ownable;
use fragments::token_id::{BlockNumber, FragmentCid, TokenId, TokenRef};
use fragments::AccountId;

struct Accounts {
    alice: AccountId,
    bob: AccountId,
    charlie: AccountId,
    eve: AccountId,
    frank: AccountId,
}

fn accounts() -> Accounts {
    Accounts {
        alice: AccountId([0x01; 32]),
        bob: AccountId([0x02; 32]),
        charlie: AccountId([0x03; 32]),
        eve: AccountId([0x05; 32]),
        frank: AccountId([0x06; 32]),
    }
}

/// A ledger deployed by alice, who holds the privileged role.
fn deployed() -> FaNft {
    FaNft::new(accounts().alice)
}

/// The privileged check that the host makes before handing on the call.
fn transfer_ownership_as(fa_nft: &mut FaNft, caller: AccountId, new_owner: AccountId) {
    assert!(fa_nft.is_owner(caller), "Caller is not the contract owner");
    fa_nft.transfer_ownership(caller, new_owner);
}

#[test]
fn mint_works() {
    let accounts = accounts();
    let mut fa_nft = deployed();
    let token_id: TokenId =
        TokenRef(FragmentCid::default(), accounts.bob, BlockNumber::default()).into();
    assert_eq!(fa_nft.owner_of(token_id), None);
    assert_eq!(fa_nft.balance_of(accounts.bob), 0);
    assert_eq!(
        fa_nft.mint(accounts.alice, FragmentCid::default(), accounts.bob, BlockNumber::default()),
        Ok(token_id)
    );
    assert_eq!(fa_nft.balance_of(accounts.bob), 1);
}

#[test]
fn mint_existing_should_fail() {
    let accounts = accounts();
    let mut fa_nft = deployed();
    let token_id: TokenId =
        TokenRef(FragmentCid::default(), accounts.bob, BlockNumber::default()).into();
    assert_eq!(
        fa_nft.mint(accounts.alice, FragmentCid::default(), accounts.bob, BlockNumber::default()),
        Ok(token_id)
    );
    assert_eq!(1, fa_nft.recorded_events().len());
    assert_eq!(fa_nft.balance_of(accounts.bob), 1);
    assert_eq!(fa_nft.owner_of(token_id), Some(accounts.bob));
    assert_eq!(
        fa_nft.mint(accounts.alice, FragmentCid::default(), accounts.bob, BlockNumber::default()),
        Err(Error::TokenExists)
    );
}

#[test]
fn transfer_works() {
    let accounts = accounts();
    let mut fa_nft = deployed();
    assert_eq!(fa_nft.balance_of(accounts.bob), 0);
    let token_id =
        fa_nft.mint(accounts.alice, FragmentCid::default(), accounts.bob, BlockNumber::default());
    assert!(token_id.is_ok());
    assert_eq!(fa_nft.balance_of(accounts.bob), 1);
    assert_eq!(fa_nft.balance_of(accounts.charlie), 0);
    assert_eq!(1, fa_nft.recorded_events().len());
    let caller = accounts.bob;
    assert_eq!(fa_nft.transfer(caller, accounts.charlie, token_id.unwrap()), Ok(()));
    assert_eq!(2, fa_nft.recorded_events().len());
    assert_eq!(fa_nft.balance_of(accounts.charlie), 1);
}

#[test]
fn invalid_transfer_should_fail() {
    let accounts = accounts();
    let token_id: TokenId =
        TokenRef(FragmentCid::default(), accounts.alice, BlockNumber::default()).into();
    let mut fa_nft = deployed();
    assert_eq!(fa_nft.transfer(accounts.alice, accounts.bob, token_id), Err(Error::TokenNotFound));
    assert_eq!(fa_nft.owner_of(token_id), None);
    assert_eq!(
        fa_nft.mint(accounts.alice, FragmentCid::default(), accounts.alice, BlockNumber::default()),
        Ok(token_id)
    );
    assert_eq!(fa_nft.balance_of(accounts.alice), 1);
    assert_eq!(fa_nft.owner_of(token_id), Some(accounts.alice));
    let caller = accounts.bob;
    assert_eq!(fa_nft.transfer(caller, accounts.eve, token_id), Err(Error::NotApproved));
}

#[test]
fn approved_transfer_works() {
    let accounts = accounts();
    let mut fa_nft = deployed();
    let token_id =
        fa_nft.mint(accounts.alice, FragmentCid::default(), accounts.alice, BlockNumber::default());
    assert!(token_id.is_ok());
    let token_id = token_id.unwrap();
    assert_eq!(fa_nft.owner_of(token_id), Some(accounts.alice));
    assert_eq!(fa_nft.approve(accounts.alice, accounts.bob, token_id), Ok(()));
    let caller = accounts.bob;
    assert_eq!(fa_nft.transfer_from(caller, accounts.alice, accounts.eve, token_id), Ok(()));
    assert_eq!(fa_nft.owner_of(token_id), Some(accounts.eve));
    assert_eq!(fa_nft.balance_of(accounts.alice), 0);
    assert_eq!(fa_nft.balance_of(accounts.bob), 0);
    assert_eq!(fa_nft.balance_of(accounts.eve), 1);
}

#[test]
fn approved_for_all_works() {
    let accounts = accounts();
    let mut fa_nft = deployed();
    let token_1 =
        fa_nft.mint(accounts.alice, FragmentCid::default(), accounts.alice, BlockNumber::default());
    assert!(token_1.is_ok());
    let token_1 = token_1.unwrap();
    let token_2 = fa_nft.mint(
        accounts.alice,
        FragmentCid::default() + 1,
        accounts.alice,
        BlockNumber::default(),
    );
    assert!(token_2.is_ok());
    let token_2 = token_2.unwrap();
    assert_eq!(fa_nft.balance_of(accounts.alice), 2);
    assert_eq!(fa_nft.set_approval_for_all(accounts.alice, accounts.bob, true), Ok(()));
    assert!(fa_nft.is_approved_for_all(accounts.alice, accounts.bob));
    let caller = accounts.bob;
    assert_eq!(fa_nft.transfer_from(caller, accounts.alice, accounts.eve, token_1), Ok(()));
    assert_eq!(fa_nft.owner_of(token_1), Some(accounts.eve));
    assert_eq!(fa_nft.balance_of(accounts.alice), 1);
    assert_eq!(fa_nft.transfer_from(caller, accounts.alice, accounts.eve, token_2), Ok(()));
    assert_eq!(fa_nft.balance_of(accounts.bob), 0);
    assert_eq!(fa_nft.balance_of(accounts.eve), 2);
    let caller = accounts.alice;
    assert_eq!(fa_nft.set_approval_for_all(caller, accounts.bob, false), Ok(()));
    assert!(!fa_nft.is_approved_for_all(accounts.alice, accounts.bob));
}

#[test]
fn approve_nonexistent_token_should_fail() {
    let accounts = accounts();
    let mut fa_nft = deployed();
    assert_eq!(fa_nft.approve(accounts.alice, accounts.bob, 1), Err(Error::TokenNotFound));
}

#[test]
fn not_approved_transfer_should_fail() {
    let accounts = accounts();
    let mut fa_nft = deployed();
    let token_id =
        fa_nft.mint(accounts.alice, FragmentCid::default(), accounts.alice, BlockNumber::default());
    assert!(token_id.is_ok());
    assert_eq!(fa_nft.balance_of(accounts.alice), 1);
    assert_eq!(fa_nft.balance_of(accounts.bob), 0);
    assert_eq!(fa_nft.balance_of(accounts.eve), 0);
    let caller = accounts.eve;
    assert_eq!(
        fa_nft.transfer_from(caller, accounts.alice, accounts.frank, token_id.unwrap()),
        Err(Error::NotApproved)
    );
    assert_eq!(fa_nft.balance_of(accounts.alice), 1);
    assert_eq!(fa_nft.balance_of(accounts.bob), 0);
    assert_eq!(fa_nft.balance_of(accounts.eve), 0);
}

#[test]
fn burn_works() {
    let accounts = accounts();
    let mut fa_nft = deployed();
    let token_id =
        fa_nft.mint(accounts.alice, FragmentCid::default(), accounts.alice, BlockNumber::default());
    assert!(token_id.is_ok());
    let token_id = token_id.unwrap();
    assert_eq!(fa_nft.balance_of(accounts.alice), 1);
    assert_eq!(fa_nft.owner_of(token_id), Some(accounts.alice));
    assert_eq!(fa_nft.burn(accounts.alice, token_id), Ok(()));
    assert_eq!(fa_nft.balance_of(accounts.alice), 0);
    assert_eq!(fa_nft.owner_of(token_id), None);
}

#[test]
fn burn_fails_token_not_found() {
    let mut fa_nft = deployed();
    assert_eq!(fa_nft.burn(accounts().alice, 1), Err(Error::TokenNotFound));
}

#[test]
fn burn_fails_not_owner() {
    let accounts = accounts();
    let mut fa_nft = deployed();
    let token_id =
        fa_nft.mint(accounts.alice, FragmentCid::default(), accounts.alice, BlockNumber::default());
    assert!(token_id.is_ok());
    let caller = accounts.eve;
    assert_eq!(fa_nft.burn(caller, token_id.unwrap()), Err(Error::NotOwner));
}

#[test]
fn transfer_from_fails_not_owner() {
    let accounts = accounts();
    let mut fa_nft = deployed();
    let token_1 =
        fa_nft.mint(accounts.alice, FragmentCid::default(), accounts.alice, BlockNumber::default());
    assert!(token_1.is_ok());
    assert_eq!(fa_nft.set_approval_for_all(accounts.alice, accounts.bob, true), Ok(()));
    assert!(fa_nft
        .mint(accounts.alice, FragmentCid::default(), accounts.frank, BlockNumber::default())
        .is_ok());
    let caller = accounts.bob;
    assert_eq!(
        fa_nft.transfer_from(caller, accounts.frank, accounts.bob, token_1.unwrap()),
        Err(Error::NotOwner)
    );
}

#[test]
fn transfer_fails_not_owner() {
    let accounts = accounts();
    let mut fa_nft = deployed();
    let token_id =
        fa_nft.mint(accounts.alice, FragmentCid::default(), accounts.alice, BlockNumber::default());
    assert!(token_id.is_ok());
    assert_eq!(fa_nft.set_approval_for_all(accounts.alice, accounts.bob, true), Ok(()));
    let caller = accounts.bob;
    assert_eq!(fa_nft.transfer(caller, accounts.bob, token_id.unwrap()), Err(Error::NotOwner));
}

#[test]
fn ownership_can_be_transferred() {
    let accounts = accounts();
    let mut fa_nft = deployed();
    assert_eq!(fa_nft.owner(), accounts.alice);
    fa_nft.transfer_ownership(accounts.alice, accounts.bob);
    assert_eq!(fa_nft.owner(), accounts.bob);
}

#[test]
#[should_panic(expected = "Caller is not the contract owner")]
fn ownership_cant_be_transferred_if_not_owner() {
    let accounts = accounts();
    let mut fa_nft = deployed();
    let caller = accounts.bob;
    transfer_ownership_as(&mut fa_nft, caller, accounts.bob)
}

#[test]
fn get_fa_info_works() {
    let accounts = accounts();
    let mut fa_nft = deployed();
    let fragment_acknowledgment = FragmentAcknowledgement::default();
    let owner = accounts.alice;
    let token_id = fa_nft
        .mint(
            accounts.alice,
            fragment_acknowledgment.fragment_cid,
            owner,
            fragment_acknowledgment.block_number,
        )
        .unwrap();
    let result = fa_nft.get_fa_info(token_id);
    assert_eq!(result, Some((fragment_acknowledgment, owner)));
}

#[test]
fn get_fa_info_returns_none_if_not_found() {
    let fa_nft = deployed();
    let result = fa_nft.get_fa_info(1);
    assert_eq!(result, None);
}

#[test]
fn get_fragment_acknowledgment_works() {
    let accounts = accounts();
    let mut fa_nft = deployed();
    let fragment_acknowledgment = FragmentAcknowledgement::default();
    let token_id = fa_nft
        .mint(
            accounts.alice,
            fragment_acknowledgment.fragment_cid,
            accounts.alice,
            fragment_acknowledgment.block_number,
        )
        .unwrap();
    let result = fa_nft.get_fragment_acknowledgment(token_id);
    assert_eq!(result, Some(fragment_acknowledgment));
}

#[test]
fn get_fragment_acknowledgment_returns_none_if_not_found() {
    let fa_nft = deployed();
    let result = fa_nft.get_fragment_acknowledgment(1);
    assert_eq!(result, None);
}

#[test]
fn owner_returns_correct_owner() {
    let fa_nft = deployed();
    assert_eq!(fa_nft.owner(), accounts().alice);
}

#[test]
fn is_owner_returns_true_for_owner() {
    let fa_nft = deployed();
    assert!(fa_nft.is_owner(accounts().alice));
}

#[test]
fn is_owner_returns_false_for_non_owner() {
    let fa_nft = deployed();
    assert!(!fa_nft.is_owner(accounts().bob));
}

#[test]
fn renounce_ownership_works() {
    let accounts = accounts();
    let mut fa_nft = deployed();
    fa_nft.renounce_ownership(accounts.alice);
    assert!(!fa_nft.is_owner(accounts.alice));
}
