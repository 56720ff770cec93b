use nft_currency::{AccountPair, DispatchError, Error, NonFungibleToken, Origin, Pallet, Table, TokenList};

#[test]
fn randomness_subject_is_the_scale_encoded_count() {
    let mut p = Pallet::new();
    assert_eq!(p.randomness_subject(), vec![0, 0, 0, 0]);
    for i in 0..258u32 {
        let mut seed = [0u8; 32];
        seed[0] = (i % 256) as u8;
        seed[1] = (i / 256) as u8;
        p.mint(1, &seed).unwrap();
    }
    assert_eq!(p.total(), 258);
    assert_eq!(p.randomness_subject(), vec![2, 1, 0, 0]);
}

#[test]
fn token_id_is_the_scale_encoded_randomness() {
    let mut seed = [0u8; 32];
    for i in 0..32 {
        seed[i] = i as u8;
    }
    let id = Pallet::gen_token_id(&seed);
    assert_eq!(id.len(), 32);
    assert_eq!(id, (0u8..32).collect::<Vec<u8>>());
}

#[test]
fn mint_through_trait() {
    let mut p = Pallet::new();
    let id = p.mint(4, &[1u8; 32]).unwrap();
    assert_eq!(id, vec![1u8; 32]);
    assert_eq!(p.total(), 1);
    assert_eq!(p.owner_of_token(id.clone()), 4);
    assert_eq!(Pallet::owned_tokens(&p, 4), vec![id]);
}

#[test]
fn name_and_symbol_start_empty() {
    let p = Pallet::new();
    assert_eq!(Pallet::nft_name(&p), Vec::<u8>::new());
    assert_eq!(Pallet::symbol(&p), Vec::<u8>::new());
    assert_eq!(p.get_name(), Vec::<u8>::new());
    assert_eq!(NonFungibleToken::symbol(&p), Vec::<u8>::new());
}

#[test]
fn trait_transfer_checks_owner_then_loan() {
    let mut p = Pallet::new();
    let id = p.mint(1, &[2u8; 32]).unwrap();
    assert_eq!(p.transfer(2, 3, id.clone()), Err(DispatchError::Module(Error::NotOwner)));
    p.approve(1, 5, id.clone()).unwrap();
    assert_eq!(p.transfer(1, 3, id.clone()), Err(DispatchError::Module(Error::IsBorrowed)));
    assert_eq!(p.owner_of_token(id), 1);
}

#[test]
fn trait_setters_write_what_is_read() {
    let mut p = Pallet::new();
    let id = vec![1, 2, 3];
    p.set_token_uri(id.clone(), vec![9, 9]).unwrap();
    assert_eq!(NonFungibleToken::token_uri(&p, id.clone()), vec![9, 9]);
    p.set_token_renting_price(id.clone(), 77).unwrap();
    p.set_token_renting_time(id.clone(), 88).unwrap();
    assert_eq!(p.renting_price_of_token(id.clone()), 77);
    assert_eq!(p.renting_time_of_token(id.clone()), 88);
    p.set_token_for_rent(id.clone()).unwrap();
    assert!(p.is_for_rent(id.clone()));
    p.set_token_cancel_for_rent(id.clone()).unwrap();
    assert!(!p.is_for_rent(id.clone()));
    p.set_approve_for_all(3, 4).unwrap();
    assert!(NonFungibleToken::is_approve_for_all(&p, (3, 4)));
    assert_eq!(Pallet::is_approve_for_all(&p, (4, 3)), None);
}

#[test]
fn failed_calls_leave_state_unchanged() {
    let mut p = Pallet::new();
    let id = p.mint(1, &[3u8; 32]).unwrap();
    let other = p.mint(2, &[4u8; 32]).unwrap();
    p.approve(1, 9, id.clone()).unwrap();
    let owned_1 = Pallet::owned_tokens(&p, 1);
    let owned_2 = Pallet::owned_tokens(&p, 2);
    assert!(Pallet::transfer_token(&mut p, Origin::Signed(1), 2, id.clone()).is_err());
    assert!(Pallet::safe_transfer(&mut p, Origin::Signed(1), 1, 2, id.clone()).is_err());
    assert!(Pallet::transfer_token(&mut p, Origin::Signed(1), 2, other.clone()).is_err());
    assert!(Pallet::set_token_rent_info(&mut p, Origin::Signed(1), id.clone(), 1, 1).is_err());
    assert_eq!(Pallet::owned_tokens(&p, 1), owned_1);
    assert_eq!(Pallet::owned_tokens(&p, 2), owned_2);
    assert_eq!(Pallet::owner_of(&p, id.clone()), Some(1));
    assert_eq!(Pallet::owner_of(&p, other), Some(2));
    assert_eq!(Pallet::for_rent(&p, id.clone()), None);
    assert_eq!(Pallet::renting_time(&p, id.clone()), None);
    assert_eq!(Pallet::token_approval(&p, id), vec![9]);
}

#[test]
fn owners_list_their_tokens_after_a_round_trip() {
    let mut p = Pallet::new();
    let a = p.mint(1, &[1u8; 32]).unwrap();
    let b = p.mint(2, &[2u8; 32]).unwrap();
    p.transfer(1, 2, a.clone()).unwrap();
    p.transfer(2, 1, b.clone()).unwrap();
    p.transfer(2, 1, a.clone()).unwrap();
    assert!(Pallet::owned_tokens(&p, 1).contains(&a));
    assert!(Pallet::owned_tokens(&p, 1).contains(&b));
    assert_eq!(Pallet::owned_tokens(&p, 2), Vec::<Vec<u8>>::new());
}

#[test]
fn table_insert_get_take() {
    let mut t: Table<Vec<u8>, u64> = Table::new();
    assert_eq!(t.get(&vec![1]), None);
    t.insert(vec![1], 10);
    t.insert(vec![2], 20);
    t.insert(vec![1], 11);
    assert_eq!(t.get(&vec![1]), Some(&11));
    assert_eq!(t.get(&vec![2]), Some(&20));
    assert_eq!(t.take(&vec![1]), Some(11));
    assert_eq!(t.get(&vec![1]), None);
    assert_eq!(t.take(&vec![1]), None);
    assert_eq!(t.get(&vec![2]), Some(&20));
}

#[test]
fn table_with_pair_keys() {
    let mut t: Table<AccountPair, bool> = Table::new();
    t.insert(AccountPair { from: 1, to: 2 }, true);
    assert_eq!(t.get(&AccountPair { from: 1, to: 2 }), Some(&true));
    assert_eq!(t.get(&AccountPair { from: 2, to: 1 }), None);
}

#[test]
fn token_list_remove_first() {
    let mut l = TokenList::new();
    l.push(vec![1]);
    l.push(vec![2]);
    l.push(vec![1]);
    l.push(vec![3]);
    assert!(l.remove_first(&vec![1]));
    assert_eq!(l.to_vec(), vec![vec![3], vec![2], vec![1]]);
    assert!(!l.remove_first(&vec![7]));
    assert_eq!(l.len(), 3);
}

#[test]
fn lent_token_keeps_owner_through_calls() {
    let mut p = Pallet::new();
    let t = p.mint(1, &[5u8; 32]).unwrap();
    let other = p.mint(1, &[6u8; 32]).unwrap();
    Pallet::approve(&mut p, Origin::Signed(1), 2, t.clone()).unwrap();
    assert!(Pallet::transfer_token(&mut p, Origin::Signed(1), 3, t.clone()).is_err());
    Pallet::approve_for_all(&mut p, Origin::Signed(1), 4).unwrap();
    assert!(Pallet::safe_transfer(&mut p, Origin::Signed(4), 1, 4, t.clone()).is_err());
    assert!(Pallet::approve(&mut p, Origin::Signed(1), 5, t.clone()).is_err());
    Pallet::transfer_token(&mut p, Origin::Signed(1), 3, other).unwrap();
    Pallet::set_token_uri(&mut p, Origin::Signed(1), t.clone(), vec![1]).unwrap();
    Pallet::mint_to(&mut p, Origin::Signed(1), 7, &[8u8; 32]).unwrap();
    assert_eq!(Pallet::owner_of(&p, t.clone()), Some(1));
    assert_eq!(Pallet::token_approval(&p, t), vec![2]);
}

#[test]
fn list_lengths_sum_to_token_count() {
    let mut p = Pallet::new();
    for b in 1..=5u8 {
        Pallet::mint_to(&mut p, Origin::Signed(1), (b % 2) as u64, &[b; 32]).unwrap();
    }
    Pallet::transfer_token(&mut p, Origin::Signed(1), 9, vec![1u8; 32]).unwrap();
    let total: usize = [0u64, 1, 9].iter().map(|a| Pallet::owned_tokens(&p, *a).len()).sum();
    assert_eq!(total, 5);
    assert_eq!(Pallet::total_tokens(&p), 5);
}

#[test]
fn only_owned_tokens_are_offered() {
    let mut p = Pallet::new();
    let t = p.mint(1, &[5u8; 32]).unwrap();
    Pallet::set_token_rent_info(&mut p, Origin::Signed(1), t.clone(), 1, 1).unwrap();
    assert!(p.is_for_rent(t.clone()));
    assert!(Pallet::owner_of(&p, t).is_some());
}
