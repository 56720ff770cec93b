use nft_currency::model::{NOT_OWNER_NOR_APPROVED, OWNER_CANNOT_BORROW, RENT_WHILE_BORROWED};
use nft_currency::{DispatchError, Error, Event, FeeTransfer, NonFungibleToken, Origin, Pallet};

fn seed(b: u8) -> [u8; 32] {
    [b; 32]
}

/// Mints a token for `owner`, signed by `owner`, and returns its id.
fn mint_for(p: &mut Pallet, owner: u64, b: u8) -> Vec<u8> {
    let events = Pallet::mint_to(p, Origin::Signed(owner), owner, &seed(b)).unwrap();
    match &events[0] {
        Event::Mint(_, id) => id.clone(),
        _ => panic!("a mint deposits a Mint event"),
    }
}

#[test]
fn mint_token_counts_one() {
    let mut p = Pallet::new();
    let events = Pallet::mint_to(&mut p, Origin::Signed(7), 1, &seed(3)).unwrap();
    assert_eq!(Pallet::total_tokens(&p), 1);
    assert_eq!(events, vec![Event::Mint(1, vec![3u8; 32])]);
    assert_eq!(Pallet::owner_of(&p, vec![3u8; 32]), Some(1));
    assert_eq!(Pallet::owned_tokens(&p, 1), vec![vec![3u8; 32]]);
    assert_eq!(Pallet::owned_tokens(&p, 7), Vec::<Vec<u8>>::new());
}

#[test]
fn mint_refuses_unsigned_origin() {
    let mut p = Pallet::new();
    assert_eq!(
        Pallet::mint_to(&mut p, Origin::Unsigned, 1, &seed(3)),
        Err(DispatchError::BadOrigin)
    );
    assert_eq!(Pallet::mint_to(&mut p, Origin::Root, 1, &seed(3)), Err(DispatchError::BadOrigin));
    assert_eq!(Pallet::total_tokens(&p), 0);
    assert_eq!(Pallet::owner_of(&p, vec![3u8; 32]), None);
}

#[test]
fn transfer_token_moves_between_lists() {
    let mut p = Pallet::new();
    let id = mint_for(&mut p, 1, 5);
    let token = Pallet::owned_tokens(&p, 1)[0].clone();
    assert_eq!(token, id);
    let events = Pallet::transfer_token(&mut p, Origin::Signed(1), 2, token.clone()).unwrap();
    assert_eq!(events, vec![Event::Transfer(1, 2, token.clone())]);
    assert_eq!(Pallet::owned_tokens(&p, 1).len(), 0);
    assert_eq!(Pallet::owned_tokens(&p, 2).len(), 1);
    assert_eq!(Pallet::owner_of(&p, token), Some(2));
}

#[test]
fn transfer_token_by_other_account_is_refused() {
    let mut p = Pallet::new();
    let id = mint_for(&mut p, 1, 5);
    assert_eq!(
        Pallet::transfer_token(&mut p, Origin::Signed(2), 3, id.clone()),
        Err(DispatchError::Module(Error::NotOwner))
    );
    assert_eq!(Pallet::owner_of(&p, id.clone()), Some(1));
    assert_eq!(Pallet::owned_tokens(&p, 1), vec![id]);
}

#[test]
fn transfer_to_self_keeps_the_list() {
    let mut p = Pallet::new();
    let a = mint_for(&mut p, 1, 1);
    let b = mint_for(&mut p, 1, 2);
    Pallet::transfer_token(&mut p, Origin::Signed(1), 1, a.clone()).unwrap();
    assert_eq!(Pallet::owner_of(&p, a.clone()), Some(1));
    // the first occurrence of `a` is replaced by the appended copy
    assert_eq!(Pallet::owned_tokens(&p, 1), vec![a, b]);
}

#[test]
fn transfer_swap_removes_from_former_owner() {
    let mut p = Pallet::new();
    let a = mint_for(&mut p, 1, 1);
    let b = mint_for(&mut p, 1, 2);
    let c = mint_for(&mut p, 1, 3);
    Pallet::transfer_token(&mut p, Origin::Signed(1), 9, a.clone()).unwrap();
    assert_eq!(Pallet::owned_tokens(&p, 1), vec![c, b]);
    assert_eq!(Pallet::owned_tokens(&p, 9), vec![a]);
}

#[test]
fn safe_transfer_by_operator() {
    let mut p = Pallet::new();
    let token = mint_for(&mut p, 1, 4);
    let events = Pallet::approve_for_all(&mut p, Origin::Signed(1), 2).unwrap();
    assert_eq!(events, vec![Event::ApproveForAll(1, 2)]);
    assert_eq!(Pallet::is_approve_for_all(&p, (1, 2)), Some(true));
    let events = Pallet::safe_transfer(&mut p, Origin::Signed(2), 1, 2, token.clone()).unwrap();
    assert_eq!(events, vec![Event::Transfer(1, 2, token.clone())]);
    assert_eq!(Pallet::owned_tokens(&p, 1).len(), 0);
    assert_eq!(Pallet::owned_tokens(&p, 2).len(), 1);
}

#[test]
fn safe_transfer_by_owner_needs_no_operator() {
    let mut p = Pallet::new();
    let token = mint_for(&mut p, 1, 4);
    Pallet::safe_transfer(&mut p, Origin::Signed(1), 1, 3, token.clone()).unwrap();
    assert_eq!(Pallet::owner_of(&p, token), Some(3));
}

#[test]
fn safe_transfer_from_wrong_account_is_refused() {
    let mut p = Pallet::new();
    let token = mint_for(&mut p, 1, 4);
    Pallet::approve_for_all(&mut p, Origin::Signed(5), 2).unwrap();
    // 2 operates for 5, but 5 does not own the token
    assert_eq!(
        Pallet::safe_transfer(&mut p, Origin::Signed(2), 5, 2, token.clone()),
        Err(DispatchError::Module(Error::NotOwner))
    );
    assert_eq!(Pallet::owner_of(&p, token), Some(1));
}

#[test]
fn approve_lends_token() {
    let mut p = Pallet::new();
    let token = mint_for(&mut p, 1, 6);
    let events = Pallet::approve(&mut p, Origin::Signed(1), 2, token.clone()).unwrap();
    assert_eq!(events, vec![Event::Approve(1, 2, token.clone())]);
    assert_eq!(Pallet::token_approval(&p, token.clone()).len(), 1);
    assert!(p.is_renter_of_token(2, token.clone()));
    assert!(!p.is_renter_of_token(3, token.clone()));
    assert!(p.is_borrowed_token(token));
}

#[test]
fn lent_token_cannot_be_lent_again_or_moved() {
    let mut p = Pallet::new();
    let token = mint_for(&mut p, 1, 6);
    Pallet::approve(&mut p, Origin::Signed(1), 2, token.clone()).unwrap();
    assert_eq!(
        Pallet::approve(&mut p, Origin::Signed(1), 3, token.clone()),
        Err(DispatchError::Module(Error::IsBorrowed))
    );
    assert_eq!(
        Pallet::transfer_token(&mut p, Origin::Signed(1), 3, token.clone()),
        Err(DispatchError::Module(Error::IsBorrowed))
    );
    assert_eq!(
        Pallet::set_token_rent_info(&mut p, Origin::Signed(1), token.clone(), 10, 20),
        Err(DispatchError::Other(RENT_WHILE_BORROWED))
    );
    assert_eq!(Pallet::token_approval(&p, token.clone()), vec![2]);
    assert_eq!(Pallet::for_rent(&p, token.clone()), None);
    assert_eq!(Pallet::owner_of(&p, token), Some(1));
}

#[test]
fn approve_by_other_account_is_refused() {
    let mut p = Pallet::new();
    let token = mint_for(&mut p, 1, 6);
    assert_eq!(
        Pallet::approve(&mut p, Origin::Signed(2), 2, token.clone()),
        Err(DispatchError::Module(Error::NotOwner))
    );
    assert_eq!(
        p.approve(2, 2, token.clone()),
        Err(DispatchError::Other(NOT_OWNER_NOR_APPROVED))
    );
    assert_eq!(Pallet::token_approval(&p, token), Vec::<u64>::new());
}

#[test]
fn owner_sets_uri_price_and_time() {
    let mut p = Pallet::new();
    let token = mint_for(&mut p, 1, 8);
    assert_eq!(Pallet::token_uri(&p, token.clone()), None);
    Pallet::set_token_uri(&mut p, Origin::Signed(1), token.clone(), b"ipfs://x".to_vec()).unwrap();
    assert_eq!(Pallet::token_uri(&p, token.clone()), Some(b"ipfs://x".to_vec()));
    assert_eq!(NonFungibleToken::token_uri(&p, token.clone()), b"ipfs://x".to_vec());
    assert_eq!(p.renting_price_of_token(token.clone()), 0);
    Pallet::set_token_renting_price(&mut p, Origin::Signed(1), token.clone(), 500).unwrap();
    assert_eq!(p.renting_price_of_token(token.clone()), 500);
    assert_eq!(Pallet::price_of_token(&p, token.clone()), Some(500));
    Pallet::set_token_renting_time(&mut p, Origin::Signed(1), token.clone(), 60).unwrap();
    assert_eq!(p.renting_time_of_token(token.clone()), 60);
    assert_eq!(Pallet::renting_time(&p, token.clone()), Some(60));
    assert!(!p.is_for_rent(token));
}

#[test]
fn others_cannot_set_uri_price_or_time() {
    let mut p = Pallet::new();
    let token = mint_for(&mut p, 1, 8);
    let not_owner = Err(DispatchError::Module(Error::NotOwner));
    assert_eq!(Pallet::set_token_uri(&mut p, Origin::Signed(2), token.clone(), vec![1]), not_owner);
    assert_eq!(Pallet::set_token_renting_price(&mut p, Origin::Signed(2), token.clone(), 5), not_owner);
    assert_eq!(Pallet::set_token_renting_time(&mut p, Origin::Signed(2), token.clone(), 5), not_owner);
    assert_eq!(Pallet::set_token_rent_info(&mut p, Origin::Signed(2), token.clone(), 5, 5), not_owner);
    assert_eq!(
        Pallet::set_token_uri(&mut p, Origin::Root, token.clone(), vec![1]),
        Err(DispatchError::BadOrigin)
    );
    assert_eq!(Pallet::token_uri(&p, token.clone()), None);
    assert_eq!(Pallet::price_of_token(&p, token.clone()), None);
    assert_eq!(Pallet::renting_time(&p, token.clone()), None);
    assert_eq!(Pallet::for_rent(&p, token), None);
}

#[test]
fn renting_flow() {
    let mut p = Pallet::new();
    let token = mint_for(&mut p, 1, 9);
    Pallet::set_token_rent_info(&mut p, Origin::Signed(1), token.clone(), 100, 250).unwrap();
    assert!(p.is_for_rent(token.clone()));
    assert_eq!(p.renting_time_of_token(token.clone()), 100);
    assert_eq!(p.renting_price_of_token(token.clone()), 250);
    let rental = Pallet::rent_nft(&mut p, Origin::Signed(2), token.clone(), 1000).unwrap();
    assert_eq!(
        rental.events,
        vec![Event::PayRentingFee(2, 1, 250), Event::Approve(1, 2, token.clone())]
    );
    assert_eq!(rental.fee, Some(FeeTransfer { from: 2, to: 1, amount: 250 }));
    assert!(!p.is_for_rent(token.clone()));
    assert_eq!(Pallet::for_rent(&p, token.clone()), Some(false));
    assert!(p.is_renter_of_token(2, token.clone()));
    assert_eq!(Pallet::owner_of(&p, token.clone()), Some(1));
    // taken off the market
    assert_eq!(
        Pallet::rent_nft(&mut p, Origin::Signed(3), token.clone(), 1000),
        Err(DispatchError::Module(Error::NotForRent))
    );
    // and locked while lent
    assert_eq!(
        Pallet::transfer_token(&mut p, Origin::Signed(1), 3, token),
        Err(DispatchError::Module(Error::IsBorrowed))
    );
}

#[test]
fn rent_without_enough_balance_asks_no_fee() {
    let mut p = Pallet::new();
    let token = mint_for(&mut p, 1, 9);
    Pallet::set_token_rent_info(&mut p, Origin::Signed(1), token.clone(), 100, 250).unwrap();
    let rental = Pallet::rent_nft(&mut p, Origin::Signed(2), token.clone(), 249).unwrap();
    assert_eq!(rental.fee, None);
    assert_eq!(rental.events[0], Event::PayRentingFee(2, 1, 250));
    assert!(p.is_renter_of_token(2, token));
}

#[test]
fn owner_cannot_rent_own_token() {
    let mut p = Pallet::new();
    let token = mint_for(&mut p, 1, 9);
    Pallet::set_token_rent_info(&mut p, Origin::Signed(1), token.clone(), 1, 2).unwrap();
    assert_eq!(
        Pallet::rent_nft(&mut p, Origin::Signed(1), token.clone(), 1000),
        Err(DispatchError::Other(OWNER_CANNOT_BORROW))
    );
    assert!(p.is_for_rent(token.clone()));
    assert!(!p.is_borrowed_token(token));
}

#[test]
fn renting_checks_offer_before_origin() {
    let mut p = Pallet::new();
    let token = mint_for(&mut p, 1, 9);
    assert_eq!(
        Pallet::rent_nft(&mut p, Origin::Unsigned, token.clone(), 0),
        Err(DispatchError::Module(Error::NotForRent))
    );
    Pallet::set_token_rent_info(&mut p, Origin::Signed(1), token.clone(), 1, 2).unwrap();
    assert_eq!(
        Pallet::rent_nft(&mut p, Origin::Unsigned, token, 0),
        Err(DispatchError::BadOrigin)
    );
}

#[test]
fn renting_a_token_lent_after_the_offer_is_refused() {
    let mut p = Pallet::new();
    let token = mint_for(&mut p, 1, 9);
    Pallet::set_token_rent_info(&mut p, Origin::Signed(1), token.clone(), 1, 2).unwrap();
    Pallet::approve(&mut p, Origin::Signed(1), 4, token.clone()).unwrap();
    assert_eq!(
        Pallet::rent_nft(&mut p, Origin::Signed(2), token.clone(), 100),
        Err(DispatchError::Module(Error::IsBorrowed))
    );
    // nothing was written
    assert!(p.is_for_rent(token.clone()));
    assert_eq!(Pallet::token_approval(&p, token), vec![4]);
}

#[test]
fn pay_renting_fee_checks_balance() {
    assert_eq!(
        Pallet::pay_renting_fee(2, 1, 250, 250),
        Ok(FeeTransfer { from: 2, to: 1, amount: 250 })
    );
    assert_eq!(
        Pallet::pay_renting_fee(2, 1, 250, 249),
        Err(DispatchError::Module(Error::NotEnoughBalance))
    );
    assert_eq!(Pallet::pay_renting_fee(2, 1, 0, 0), Ok(FeeTransfer { from: 2, to: 1, amount: 0 }));
}
