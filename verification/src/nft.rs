//! The operations of a non-fungible token registry, without the checks on
//! who calls them.
use crate::types::DispatchError;
use vstd::prelude::*;

verus! {

pub trait NonFungibleToken<AccountId> {
    /// Whether token `token_id` has an owner.
    spec fn has_token_owner(&self, token_id: Seq<u8>) -> bool;

    /// Whether token `token_id` has a URI.
    spec fn has_token_uri(&self, token_id: Seq<u8>) -> bool;

    /// Whether it is recorded if `to` operates for `from`.
    spec fn has_operator_entry(&self, from: AccountId, to: AccountId) -> bool;

    /// Whether the token count can grow by one.
    spec fn can_count_mint(&self) -> bool;

    fn symbol(&self) -> Vec<u8>;

    fn get_name(&self) -> Vec<u8>;

    fn token_uri(&self, token_id: Vec<u8>) -> Vec<u8>
        requires
            self.has_token_uri(token_id@),
    ;

    fn total(&self) -> u32;

    fn owner_of_token(&self, token_id: Vec<u8>) -> AccountId
        requires
            self.has_token_owner(token_id@),
    ;

    fn renting_price_of_token(&self, token_id: Vec<u8>) -> u128;

    fn renting_time_of_token(&self, token_id: Vec<u8>) -> u128;

    fn is_for_rent(&self, token_id: Vec<u8>) -> bool;

    fn is_renter_of_token(&self, who: AccountId, token_id: Vec<u8>) -> bool;

    fn is_borrowed_token(&self, token_id: Vec<u8>) -> bool;

    /// Mints a token whose id is the encoding of `random_output`, the
    /// randomness drawn for [`crate::Pallet::randomness_subject`].
    fn mint(&mut self, owner: AccountId, random_output: &[u8; 32]) -> Result<Vec<u8>, DispatchError>
        requires
            old(self).can_count_mint(),
    ;

    fn transfer(&mut self, from: AccountId, to: AccountId, token_id: Vec<u8>) -> Result<
        (),
        DispatchError,
    >
        requires
            old(self).has_token_owner(token_id@),
    ;

    fn set_token_uri(&mut self, token_id: Vec<u8>, token_uri: Vec<u8>) -> Result<(), DispatchError>;

    fn is_approve_for_all(&self, account_approve: (AccountId, AccountId)) -> bool
        requires
            self.has_operator_entry(account_approve.0, account_approve.1),
    ;

    fn approve(&mut self, from: AccountId, to: AccountId, token_id: Vec<u8>) -> Result<
        (),
        DispatchError,
    >
        requires
            old(self).has_token_owner(token_id@),
    ;

    fn set_approve_for_all(&mut self, from: AccountId, to: AccountId) -> Result<(), DispatchError>;

    fn set_token_renting_price(&mut self, token_id: Vec<u8>, price: u128) -> Result<
        (),
        DispatchError,
    >;

    fn set_token_renting_time(&mut self, token_id: Vec<u8>, time: u128) -> Result<
        (),
        DispatchError,
    >;

    fn set_token_for_rent(&mut self, token_id: Vec<u8>) -> Result<(), DispatchError>;

    fn set_token_cancel_for_rent(&mut self, token_id: Vec<u8>) -> Result<(), DispatchError>;
}

} // verus!
