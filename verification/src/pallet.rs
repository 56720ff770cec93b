//! The registry: its state, the calls users make, and the operations behind them.
use crate::encode::{le_bytes_u32, scale_encode_bytes32, scale_encode_u32};
use crate::model::{initial_view, Call, PalletView, NOT_OWNER_NOR_APPROVED, OWNER_CANNOT_BORROW, RENT_WHILE_BORROWED};
use crate::nft::NonFungibleToken;
use crate::table::{AccountPair, Table};
use crate::types::{
    copy_bytes, ensure_signed, events_view, signer_of, DispatchError, Error, Event, EventView,
    FeeTransfer, Origin, Rental, TokenList,
};
use vstd::prelude::*;

verus! {

/// The registry's state.
pub struct Pallet {
    name: Vec<u8>,
    symbol: Vec<u8>,
    token_uri: Table<Vec<u8>, Vec<u8>>,
    total_tokens: u32,
    token_owner: Table<Vec<u8>, u64>,
    renting_price: Table<Vec<u8>, u128>,
    renting_time: Table<Vec<u8>, u128>,
    token_for_rent: Table<Vec<u8>, bool>,
    owner_token: Table<u64, TokenList>,
    approval: Table<AccountPair, bool>,
    token_approval: Table<Vec<u8>, Vec<u64>>,
}

impl View for Pallet {
    type V = PalletView;

    closed spec fn view(&self) -> PalletView {
        PalletView {
            name: self.name@,
            symbol: self.symbol@,
            token_uri: self.token_uri.map(),
            total_tokens: self.total_tokens,
            token_owner: self.token_owner.map(),
            renting_price: self.renting_price.map(),
            renting_time: self.renting_time.map(),
            token_for_rent: self.token_for_rent.map(),
            owner_token: self.owner_token.map(),
            approval: self.approval.map(),
            token_approval: self.token_approval.map(),
        }
    }
}

proof fn lemma_remove_insert<K, V>(m: Map<K, V>, k: K, v: V)
    ensures
        m.remove(k).insert(k, v) == m.insert(k, v),
{
    assert(m.remove(k).insert(k, v) =~= m.insert(k, v));
}

/// Whether a state is consistent depends only on its owners, owned lists and
/// lending lists.
proof fn lemma_consistency_from_ownership(s1: PalletView, s2: PalletView)
    requires
        s1.token_owner == s2.token_owner,
        s1.owner_token == s2.owner_token,
        s1.token_approval == s2.token_approval,
        s1.approval == s2.approval,
    ensures
        s1.consistent() == s2.consistent(),
{
}

impl Pallet {
    /// A registry with no tokens, no name and no symbol.
    pub fn new() -> (p: Self)
        ensures
            p@ == initial_view(),
            p@.consistent(),
    {
        Pallet {
            name: Vec::new(),
            symbol: Vec::new(),
            token_uri: Table::new(),
            total_tokens: 0,
            token_owner: Table::new(),
            renting_price: Table::new(),
            renting_time: Table::new(),
            token_for_rent: Table::new(),
            owner_token: Table::new(),
            approval: Table::new(),
            token_approval: Table::new(),
        }
    }

    /// The registry's name.
    pub fn nft_name(pallet: &Self) -> (r: Vec<u8>)
        ensures
            r@ == pallet@.name,
    {
        copy_bytes(&pallet.name)
    }

    /// The registry's symbol.
    pub fn symbol(pallet: &Self) -> (r: Vec<u8>)
        ensures
            r@ == pallet@.symbol,
    {
        copy_bytes(&pallet.symbol)
    }

    /// The URI of a token, if one is set.
    pub fn token_uri(pallet: &Self, token_id: Vec<u8>) -> (r: Option<Vec<u8>>)
        ensures
            r is Some <==> pallet@.token_uri.contains_key(token_id@),
            r is Some ==> r->0@ == pallet@.token_uri[token_id@],
    {
        match pallet.token_uri.get(&token_id) {
            Some(uri) => Some(copy_bytes(uri)),
            None => None,
        }
    }

    /// How many tokens have been minted.
    pub fn total_tokens(pallet: &Self) -> (r: u32)
        ensures
            r == pallet@.total_tokens,
    {
        pallet.total_tokens
    }

    /// The owner of a token, if it has one.
    pub fn owner_of(pallet: &Self, token_id: Vec<u8>) -> (r: Option<u64>)
        ensures
            r is Some <==> pallet@.token_owner.contains_key(token_id@),
            r is Some ==> r->0 == pallet@.token_owner[token_id@],
    {
        match pallet.token_owner.get(&token_id) {
            Some(owner) => Some(*owner),
            None => None,
        }
    }

    /// The renting price of a token, if one is set.
    pub fn price_of_token(pallet: &Self, token_id: Vec<u8>) -> (r: Option<u128>)
        ensures
            r is Some <==> pallet@.renting_price.contains_key(token_id@),
            r is Some ==> r->0 == pallet@.renting_price[token_id@],
    {
        match pallet.renting_price.get(&token_id) {
            Some(price) => Some(*price),
            None => None,
        }
    }

    /// The renting time of a token, if one is set.
    pub fn renting_time(pallet: &Self, token_id: Vec<u8>) -> (r: Option<u128>)
        ensures
            r is Some <==> pallet@.renting_time.contains_key(token_id@),
            r is Some ==> r->0 == pallet@.renting_time[token_id@],
    {
        match pallet.renting_time.get(&token_id) {
            Some(time) => Some(*time),
            None => None,
        }
    }

    /// Whether a token is offered for rent, if that was ever set.
    pub fn for_rent(pallet: &Self, token_id: Vec<u8>) -> (r: Option<bool>)
        ensures
            r is Some <==> pallet@.token_for_rent.contains_key(token_id@),
            r is Some ==> r->0 == pallet@.token_for_rent[token_id@],
    {
        match pallet.token_for_rent.get(&token_id) {
            Some(flag) => Some(*flag),
            None => None,
        }
    }

    /// The tokens recorded for an account.
    pub fn owned_tokens(pallet: &Self, who: u64) -> (r: Vec<Vec<u8>>)
        ensures
            r@.map_values(|t: Vec<u8>| t@) == pallet@.owned_tokens(who),
    {
        match pallet.owner_token.get(&who) {
            Some(list) => list.to_vec(),
            None => {
                let r: Vec<Vec<u8>> = Vec::new();
                assert(r@.map_values(|t: Vec<u8>| t@) =~= Seq::<Seq<u8>>::empty());
                r
            },
        }
    }

    /// Whether `account_approve.1` operates for `account_approve.0`, if that
    /// was ever set.
    pub fn is_approve_for_all(pallet: &Self, account_approve: (u64, u64)) -> (r: Option<bool>)
        ensures
            r is Some <==> pallet@.approval.contains_key(account_approve),
            r is Some ==> r->0 == pallet@.approval[account_approve],
    {
        let key = AccountPair { from: account_approve.0, to: account_approve.1 };
        match pallet.approval.get(&key) {
            Some(flag) => Some(*flag),
            None => None,
        }
    }

    /// The accounts a token is lent to.
    pub fn token_approval(pallet: &Self, token_id: Vec<u8>) -> (r: Vec<u64>)
        ensures
            r@ == pallet@.approvals_of(token_id@),
    {
        match pallet.token_approval.get(&token_id) {
            Some(list) => {
                let r = list.clone();
                assert(r@ =~= list@);
                r
            },
            None => Vec::new(),
        }
    }

    /// What the next token id is drawn from: the SCALE encoding of the
    /// number of tokens minted so far.
    pub fn randomness_subject(&self) -> (r: Vec<u8>)
        ensures
            r@ == le_bytes_u32(self@.total_tokens),
    {
        scale_encode_u32(self.total_tokens)
    }

    /// The token id made from the randomness drawn for
    /// [`Pallet::randomness_subject`]: its SCALE encoding.
    pub fn gen_token_id(random_output: &[u8; 32]) -> (r: Vec<u8>)
        ensures
            r@ == random_output@,
    {
        scale_encode_bytes32(random_output)
    }

    /// The list recorded for `who`, taken out of the table (empty where none is).
    fn take_owned(&mut self, who: u64) -> (l: TokenList)
        ensures
            l@ == old(self)@.owned_tokens(who),
            final(self)@ == (PalletView { owner_token: old(self)@.owner_token.remove(who), ..old(self)@ }),
    {
        match self.owner_token.take(&who) {
            Some(l) => l,
            None => {
                assert(old(self)@.owner_token.remove(who) =~= old(self)@.owner_token);
                TokenList::new()
            },
        }
    }
}

/// The calls users make. Each takes the registry first; a call that fails
/// leaves the registry as it was.
impl Pallet {
    /// Mints a token for `to`; any signed origin may. `random_output` is the
    /// randomness drawn for [`Pallet::randomness_subject`].
    pub fn mint_to(pallet: &mut Self, origin: Origin, to: u64, random_output: &[u8; 32]) -> (r:
        Result<Vec<Event>, DispatchError>)
        requires
            signer_of(origin) is Some ==> old(pallet)@.total_tokens < u32::MAX,
        ensures
            match r {
                Ok(events) => signer_of(origin) is Some && final(pallet)@ == old(pallet)@.with_minted(to, random_output@) && events_view(events@) == seq![
                    EventView::Mint(to, random_output@),
                ],
                Err(e) => signer_of(origin) is None && e == DispatchError::BadOrigin && final(pallet)@ == old(pallet)@,
            },
            final(pallet)@ == old(pallet)@.after(Call::MintTo { origin, to, random_output: random_output@ }),
            old(pallet)@.consistent() ==> final(pallet)@.consistent(),
    {
        let _who = match ensure_signed(origin) {
            Ok(who) => who,
            Err(e) => return Err(e),
        };
        let token_id = match pallet.mint(to, random_output) {
            Ok(id) => id,
            Err(e) => return Err(e),
        };
        let mut events: Vec<Event> = Vec::new();
        events.push(Event::Mint(to, token_id));
        assert(events_view(events@) =~= seq![EventView::Mint(to, random_output@)]);
        Ok(events)
    }

    /// The owner hands token `token_id` to `to`.
    pub fn transfer_token(pallet: &mut Self, origin: Origin, to: u64, token_id: Vec<u8>) -> (r:
        Result<Vec<Event>, DispatchError>)
        requires
            old(pallet)@.owner_known_if_signed(origin, token_id@),
        ensures
            match r {
                Ok(events) => old(pallet)@.transfer_token_error(origin, token_id@) is None
                    && final(pallet)@ == old(pallet)@.with_moved(
                    signer_of(origin)->0,
                    to,
                    token_id@,
                ) && events_view(events@) == seq![
                    EventView::Transfer(signer_of(origin)->0, to, token_id@),
                ],
                Err(e) => old(pallet)@.transfer_token_error(origin, token_id@) == Some(e) && final(pallet)@ == old(pallet)@,
            },
            final(pallet)@ == old(pallet)@.after(Call::TransferToken { origin, to, token_id: token_id@ }),
            old(pallet)@.consistent() ==> final(pallet)@.consistent(),
    {
        let who = match ensure_signed(origin) {
            Ok(who) => who,
            Err(e) => return Err(e),
        };
        let owner = Pallet::owner_of(pallet, copy_bytes(&token_id)).unwrap();
        if who != owner {
            return Err(DispatchError::Module(Error::NotOwner));
        }
        match pallet.transfer(who, to, copy_bytes(&token_id)) {
            Ok(()) => {},
            Err(e) => return Err(e),
        }
        let ghost id = token_id@;
        let mut events: Vec<Event> = Vec::new();
        events.push(Event::Transfer(who, to, token_id));
        assert(events_view(events@) =~= seq![EventView::Transfer(who, to, id)]);
        Ok(events)
    }

    /// The owner of token `token_id`, or an account that operates for `from`,
    /// hands the token from `from` to `to`.
    pub fn safe_transfer(
        pallet: &mut Self,
        origin: Origin,
        from: u64,
        to: u64,
        token_id: Vec<u8>,
    ) -> (r: Result<Vec<Event>, DispatchError>)
        requires
            old(pallet)@.safe_transfer_defined(origin, from, token_id@),
        ensures
            match r {
                Ok(events) => old(pallet)@.safe_transfer_error(origin, from, token_id@) is None
                    && final(pallet)@ == old(pallet)@.with_moved(from, to, token_id@)
                    && events_view(events@) == seq![EventView::Transfer(from, to, token_id@)],
                Err(e) => old(pallet)@.safe_transfer_error(origin, from, token_id@) == Some(e)
                    && final(pallet)@ == old(pallet)@,
            },
            final(pallet)@ == old(pallet)@.after(Call::SafeTransfer { origin, from, to, token_id: token_id@ }),
            old(pallet)@.consistent() ==> final(pallet)@.consistent(),
    {
        let who = match ensure_signed(origin) {
            Ok(who) => who,
            Err(e) => return Err(e),
        };
        let owner = Pallet::owner_of(pallet, copy_bytes(&token_id)).unwrap();
        if !(who == owner || Pallet::is_approve_for_all(pallet, (from, who)).unwrap()) {
            return Err(DispatchError::Module(Error::NotOwnerNorOperator));
        }
        match pallet.transfer(from, to, copy_bytes(&token_id)) {
            Ok(()) => {},
            Err(e) => return Err(e),
        }
        let ghost id = token_id@;
        let mut events: Vec<Event> = Vec::new();
        events.push(Event::Transfer(from, to, token_id));
        assert(events_view(events@) =~= seq![EventView::Transfer(from, to, id)]);
        Ok(events)
    }

    /// The owner lends token `token_id` to `to`.
    pub fn approve(pallet: &mut Self, origin: Origin, to: u64, token_id: Vec<u8>) -> (r: Result<
        Vec<Event>,
        DispatchError,
    >)
        requires
            old(pallet)@.owner_known_if_signed(origin, token_id@),
        ensures
            match r {
                Ok(events) => old(pallet)@.approve_call_error(origin, token_id@) is None && final(pallet)@ == old(pallet)@.with_lent(to, token_id@) && events_view(events@) == seq![
                    EventView::Approve(signer_of(origin)->0, to, token_id@),
                ],
                Err(e) => old(pallet)@.approve_call_error(origin, token_id@) == Some(e) && final(pallet)@ == old(pallet)@,
            },
            final(pallet)@ == old(pallet)@.after(Call::Approve { origin, to, token_id: token_id@ }),
            old(pallet)@.consistent() ==> final(pallet)@.consistent(),
    {
        let who = match ensure_signed(origin) {
            Ok(who) => who,
            Err(e) => return Err(e),
        };
        let owner = Pallet::owner_of(pallet, copy_bytes(&token_id)).unwrap();
        if who != owner {
            return Err(DispatchError::Module(Error::NotOwner));
        }
        match pallet.approve(who, to, copy_bytes(&token_id)) {
            Ok(()) => {},
            Err(e) => return Err(e),
        }
        let ghost id = token_id@;
        let mut events: Vec<Event> = Vec::new();
        events.push(Event::Approve(who, to, token_id));
        assert(events_view(events@) =~= seq![EventView::Approve(who, to, id)]);
        Ok(events)
    }

    /// The signer lets `account` operate for it.
    pub fn approve_for_all(pallet: &mut Self, origin: Origin, account: u64) -> (r: Result<
        Vec<Event>,
        DispatchError,
    >)
        ensures
            match r {
                Ok(events) => signer_of(origin) is Some && final(pallet)@ == old(pallet)@.with_operator(signer_of(origin)->0, account) && events_view(events@) == seq![
                    EventView::ApproveForAll(signer_of(origin)->0, account),
                ],
                Err(e) => signer_of(origin) is None && e == DispatchError::BadOrigin && final(pallet)@ == old(pallet)@,
            },
            final(pallet)@ == old(pallet)@.after(Call::ApproveForAll { origin, account }),
            old(pallet)@.consistent() ==> final(pallet)@.consistent(),
    {
        let who = match ensure_signed(origin) {
            Ok(who) => who,
            Err(e) => return Err(e),
        };
        match pallet.set_approve_for_all(who, account) {
            Ok(()) => {},
            Err(e) => return Err(e),
        }
        let mut events: Vec<Event> = Vec::new();
        events.push(Event::ApproveForAll(who, account));
        assert(events_view(events@) =~= seq![EventView::ApproveForAll(who, account)]);
        Ok(events)
    }

    /// The owner sets the URI of token `token_id`.
    pub fn set_token_uri(
        pallet: &mut Self,
        origin: Origin,
        token_id: Vec<u8>,
        token_uri: Vec<u8>,
    ) -> (r: Result<Vec<Event>, DispatchError>)
        requires
            old(pallet)@.owner_known_if_signed(origin, token_id@),
        ensures
            match r {
                Ok(events) => old(pallet)@.owner_call_error(origin, token_id@) is None && final(pallet)@ == old(pallet)@.with_uri(token_id@, token_uri@) && events@.len() == 0,
                Err(e) => old(pallet)@.owner_call_error(origin, token_id@) == Some(e) && final(pallet)@ == old(pallet)@,
            },
            final(pallet)@ == old(pallet)@.after(Call::SetTokenUri { origin, token_id: token_id@, token_uri: token_uri@ }),
            old(pallet)@.consistent() ==> final(pallet)@.consistent(),
    {
        let who = match ensure_signed(origin) {
            Ok(who) => who,
            Err(e) => return Err(e),
        };
        let owner = Pallet::owner_of(pallet, copy_bytes(&token_id)).unwrap();
        if who != owner {
            return Err(DispatchError::Module(Error::NotOwner));
        }
        match pallet.set_token_uri(token_id, token_uri) {
            Ok(()) => {},
            Err(e) => return Err(e),
        }
        Ok(Vec::new())
    }

    /// The owner sets the renting price of token `token_id`.
    pub fn set_token_renting_price(
        pallet: &mut Self,
        origin: Origin,
        token_id: Vec<u8>,
        price: u128,
    ) -> (r: Result<Vec<Event>, DispatchError>)
        requires
            old(pallet)@.owner_known_if_signed(origin, token_id@),
        ensures
            match r {
                Ok(events) => old(pallet)@.owner_call_error(origin, token_id@) is None && final(pallet)@ == old(pallet)@.with_price(token_id@, price) && events@.len() == 0,
                Err(e) => old(pallet)@.owner_call_error(origin, token_id@) == Some(e) && final(pallet)@ == old(pallet)@,
            },
            final(pallet)@ == old(pallet)@.after(Call::SetTokenRentingPrice { origin, token_id: token_id@, price }),
            old(pallet)@.consistent() ==> final(pallet)@.consistent(),
    {
        let who = match ensure_signed(origin) {
            Ok(who) => who,
            Err(e) => return Err(e),
        };
        let owner = Pallet::owner_of(pallet, copy_bytes(&token_id)).unwrap();
        if who != owner {
            return Err(DispatchError::Module(Error::NotOwner));
        }
        match pallet.set_token_renting_price(token_id, price) {
            Ok(()) => {},
            Err(e) => return Err(e),
        }
        Ok(Vec::new())
    }

    /// The owner sets the renting time of token `token_id`.
    pub fn set_token_renting_time(
        pallet: &mut Self,
        origin: Origin,
        token_id: Vec<u8>,
        time: u128,
    ) -> (r: Result<Vec<Event>, DispatchError>)
        requires
            old(pallet)@.owner_known_if_signed(origin, token_id@),
        ensures
            match r {
                Ok(events) => old(pallet)@.owner_call_error(origin, token_id@) is None && final(pallet)@ == old(pallet)@.with_time(token_id@, time) && events@.len() == 0,
                Err(e) => old(pallet)@.owner_call_error(origin, token_id@) == Some(e) && final(pallet)@ == old(pallet)@,
            },
            final(pallet)@ == old(pallet)@.after(Call::SetTokenRentingTime { origin, token_id: token_id@, time }),
            old(pallet)@.consistent() ==> final(pallet)@.consistent(),
    {
        let who = match ensure_signed(origin) {
            Ok(who) => who,
            Err(e) => return Err(e),
        };
        let owner = Pallet::owner_of(pallet, copy_bytes(&token_id)).unwrap();
        if who != owner {
            return Err(DispatchError::Module(Error::NotOwner));
        }
        match pallet.set_token_renting_time(token_id, time) {
            Ok(()) => {},
            Err(e) => return Err(e),
        }
        Ok(Vec::new())
    }

    /// The owner offers token `token_id` for rent, for `time` at `price`.
    pub fn set_token_rent_info(
        pallet: &mut Self,
        origin: Origin,
        token_id: Vec<u8>,
        time: u128,
        price: u128,
    ) -> (r: Result<Vec<Event>, DispatchError>)
        requires
            old(pallet)@.owner_known_if_signed(origin, token_id@),
        ensures
            match r {
                Ok(events) => old(pallet)@.rent_info_error(origin, token_id@) is None && final(pallet)@ == old(pallet)@.with_rent_flag(token_id@, true).with_time(
                    token_id@,
                    time,
                ).with_price(token_id@, price) && events@.len() == 0,
                Err(e) => old(pallet)@.rent_info_error(origin, token_id@) == Some(e) && final(pallet)@ == old(pallet)@,
            },
            final(pallet)@ == old(pallet)@.after(Call::SetTokenRentInfo { origin, token_id: token_id@, time, price }),
            old(pallet)@.consistent() ==> final(pallet)@.consistent(),
    {
        let who = match ensure_signed(origin) {
            Ok(who) => who,
            Err(e) => return Err(e),
        };
        let owner = Pallet::owner_of(pallet, copy_bytes(&token_id)).unwrap();
        if who != owner {
            return Err(DispatchError::Module(Error::NotOwner));
        }
        match pallet.set_token_for_rent(copy_bytes(&token_id)) {
            Ok(()) => {},
            Err(e) => return Err(e),
        }
        match pallet.set_token_renting_time(copy_bytes(&token_id), time) {
            Ok(()) => {},
            Err(e) => return Err(e),
        }
        match pallet.set_token_renting_price(token_id, price) {
            Ok(()) => {},
            Err(e) => return Err(e),
        }
        Ok(Vec::new())
    }

    /// The signer rents token `token_id`: the token stops being offered and
    /// is lent to the signer. `renter_free_balance` is the signer's free
    /// balance; the fee is asked for only where it covers the price.
    pub fn rent_nft(
        pallet: &mut Self,
        origin: Origin,
        token_id: Vec<u8>,
        renter_free_balance: u128,
    ) -> (r: Result<Rental, DispatchError>)
        requires
            old(pallet)@.rent_defined(origin, token_id@),
        ensures
            match r {
                Ok(rental) => {
                    let renter = signer_of(origin)->0;
                    let owner = old(pallet)@.token_owner[token_id@];
                    let price = old(pallet)@.price_of(token_id@);
                    &&& old(pallet)@.rent_error(origin, token_id@) is None
                    &&& final(pallet)@ == old(pallet)@.with_rent_flag(token_id@, false).with_lent(
                        renter,
                        token_id@,
                    )
                    &&& events_view(rental.events@) == seq![
                        EventView::PayRentingFee(renter, owner, price),
                        EventView::Approve(owner, renter, token_id@),
                    ]
                    &&& rental.fee == if renter_free_balance >= price {
                        Some(FeeTransfer { from: renter, to: owner, amount: price })
                    } else {
                        None
                    }
                },
                Err(e) => old(pallet)@.rent_error(origin, token_id@) == Some(e) && final(pallet)@
                    == old(pallet)@,
            },
            final(pallet)@ == old(pallet)@.after(Call::RentNft { origin, token_id: token_id@ }),
            old(pallet)@.consistent() ==> final(pallet)@.consistent(),
    {
        if !pallet.is_for_rent(copy_bytes(&token_id)) {
            return Err(DispatchError::Module(Error::NotForRent));
        }
        let renter = match ensure_signed(origin) {
            Ok(who) => who,
            Err(e) => return Err(e),
        };
        let nft_owner = Pallet::owner_of(pallet, copy_bytes(&token_id)).unwrap();
        if nft_owner == renter {
            return Err(DispatchError::Other(OWNER_CANNOT_BORROW));
        }
        let _renting_time = pallet.renting_time_of_token(copy_bytes(&token_id));
        let renting_price = pallet.renting_price_of_token(copy_bytes(&token_id));
        // lending below refuses a token that is lent out; refuse it before
        // anything is written
        if pallet.is_borrowed_token(copy_bytes(&token_id)) {
            return Err(DispatchError::Module(Error::IsBorrowed));
        }
        let fee = match Pallet::pay_renting_fee(renter, nft_owner, renting_price, renter_free_balance) {
            Ok(transfer) => Some(transfer),
            Err(_) => None,
        };
        match pallet.set_token_cancel_for_rent(copy_bytes(&token_id)) {
            Ok(()) => {},
            Err(e) => return Err(e),
        }
        let ghost cancelled = pallet@;
        match pallet.approve(nft_owner, renter, copy_bytes(&token_id)) {
            Ok(()) => {},
            Err(e) => return Err(e),
        }
        proof {
            if old(pallet)@.consistent() {
                lemma_consistency_from_ownership(old(pallet)@, cancelled);
            }
        }
        let ghost id = token_id@;
        let mut events: Vec<Event> = Vec::new();
        events.push(Event::PayRentingFee(renter, nft_owner, renting_price));
        events.push(Event::Approve(nft_owner, renter, token_id));
        assert(events_view(events@) =~= seq![
            EventView::PayRentingFee(renter, nft_owner, renting_price),
            EventView::Approve(nft_owner, renter, id),
        ]);
        Ok(Rental { events, fee })
    }

    /// Whether a renter whose free balance is `renter_free_balance` can pay
    /// `price` to `nft_owner`; if so, the transfer the host is asked to make.
    pub fn pay_renting_fee(
        renter: u64,
        nft_owner: u64,
        price: u128,
        renter_free_balance: u128,
    ) -> (r: Result<FeeTransfer, DispatchError>)
        ensures
            r == if renter_free_balance >= price {
                Ok::<FeeTransfer, DispatchError>(
                    FeeTransfer { from: renter, to: nft_owner, amount: price },
                )
            } else {
                Err(DispatchError::Module(Error::NotEnoughBalance))
            },
    {
        if renter_free_balance < price {
            return Err(DispatchError::Module(Error::NotEnoughBalance));
        }
        Ok(FeeTransfer { from: renter, to: nft_owner, amount: price })
    }
}

impl NonFungibleToken<u64> for Pallet {
    open spec fn has_token_owner(&self, token_id: Seq<u8>) -> bool {
        self@.token_owner.contains_key(token_id)
    }

    open spec fn has_token_uri(&self, token_id: Seq<u8>) -> bool {
        self@.token_uri.contains_key(token_id)
    }

    open spec fn has_operator_entry(&self, from: u64, to: u64) -> bool {
        self@.approval.contains_key((from, to))
    }

    open spec fn can_count_mint(&self) -> bool {
        self@.total_tokens < u32::MAX
    }

    fn symbol(&self) -> (r: Vec<u8>)
        ensures
            r@ == self@.symbol,
    {
        copy_bytes(&self.symbol)
    }

    fn get_name(&self) -> (r: Vec<u8>)
        ensures
            r@ == self@.name,
    {
        copy_bytes(&self.name)
    }

    fn token_uri(&self, token_id: Vec<u8>) -> (r: Vec<u8>)
        ensures
            r@ == self@.token_uri[token_id@],
    {
        copy_bytes(self.token_uri.get(&token_id).unwrap())
    }

    fn total(&self) -> (r: u32)
        ensures
            r == self@.total_tokens,
    {
        self.total_tokens
    }

    fn owner_of_token(&self, token_id: Vec<u8>) -> (r: u64)
        ensures
            r == self@.token_owner[token_id@],
    {
        *self.token_owner.get(&token_id).unwrap()
    }

    fn renting_price_of_token(&self, token_id: Vec<u8>) -> (r: u128)
        ensures
            r == self@.price_of(token_id@),
    {
        match self.renting_price.get(&token_id) {
            Some(price) => *price,
            None => 0,
        }
    }

    fn renting_time_of_token(&self, token_id: Vec<u8>) -> (r: u128)
        ensures
            r == self@.time_of(token_id@),
    {
        match self.renting_time.get(&token_id) {
            Some(time) => *time,
            None => 0,
        }
    }

    fn is_for_rent(&self, token_id: Vec<u8>) -> (r: bool)
        ensures
            r == self@.is_for_rent(token_id@),
    {
        match self.token_for_rent.get(&token_id) {
            Some(flag) => *flag,
            None => false,
        }
    }

    fn is_renter_of_token(&self, who: u64, token_id: Vec<u8>) -> (r: bool)
        ensures
            r == self@.is_renter(who, token_id@),
    {
        match self.token_approval.get(&token_id) {
            Some(list) => {
                let mut i: usize = 0;
                while i < list.len()
                    invariant
                        list@ == self@.approvals_of(token_id@),
                        i <= list@.len(),
                        forall|j: int| 0 <= j < i ==> list@[j] != who,
                    decreases list@.len() - i,
                {
                    if list[i] == who {
                        assert(self@.approvals_of(token_id@)[i as int] == who);
                        return true;
                    }
                    i = i + 1;
                }
                false
            },
            None => false,
        }
    }

    fn is_borrowed_token(&self, token_id: Vec<u8>) -> (r: bool)
        ensures
            r == self@.is_borrowed(token_id@),
    {
        match self.token_approval.get(&token_id) {
            Some(list) => list.len() > 0,
            None => false,
        }
    }

    fn mint(&mut self, owner: u64, random_output: &[u8; 32]) -> (r: Result<Vec<u8>, DispatchError>)
        ensures
            r is Ok,
            r->Ok_0@ == random_output@,
            final(self)@ == old(self)@.with_minted(owner, random_output@),
            old(self)@.consistent() ==> final(self)@.consistent(),
    {
        let token_id = Self::gen_token_id(random_output);
        self.total_tokens = self.total_tokens + 1;
        self.token_owner.insert(copy_bytes(&token_id), owner);
        let mut list = self.take_owned(owner);
        list.push(copy_bytes(&token_id));
        self.owner_token.insert(owner, list);
        proof {
            lemma_remove_insert(old(self)@.owner_token, owner, list@);
            if old(self)@.consistent() {
                crate::laws::lemma_mint_keeps_consistency(old(self)@, owner, token_id@);
            }
        }
        Ok(token_id)
    }

    fn transfer(&mut self, from: u64, to: u64, token_id: Vec<u8>) -> (r: Result<(), DispatchError>)
        ensures
            match r {
                Ok(_) => old(self)@.transfer_error(from, token_id@) is None && final(self)@ == old(self)@.with_moved(from, to, token_id@),
                Err(e) => old(self)@.transfer_error(from, token_id@) == Some(e) && final(self)@
                    == old(self)@,
            },
            old(self)@.consistent() ==> final(self)@.consistent(),
    {
        if from != self.owner_of_token(copy_bytes(&token_id)) {
            return Err(DispatchError::Module(Error::NotOwner));
        }
        if self.is_borrowed_token(copy_bytes(&token_id)) {
            return Err(DispatchError::Module(Error::IsBorrowed));
        }
        let ghost s0 = self@;
        self.token_owner.insert(copy_bytes(&token_id), to);
        let mut to_list = self.take_owned(to);
        to_list.push(copy_bytes(&token_id));
        self.owner_token.insert(to, to_list);
        proof {
            lemma_remove_insert(s0.owner_token, to, to_list@);
        }
        let ghost s1 = self@;
        let mut from_list = self.take_owned(from);
        from_list.remove_first(&token_id);
        self.owner_token.insert(from, from_list);
        proof {
            lemma_remove_insert(s1.owner_token, from, from_list@);
            if s0.consistent() {
                crate::laws::lemma_move_keeps_consistency(s0, from, to, token_id@);
            }
        }
        Ok(())
    }

    fn set_token_uri(&mut self, token_id: Vec<u8>, token_uri: Vec<u8>) -> (r: Result<(), DispatchError>)
        ensures
            r is Ok,
            final(self)@ == old(self)@.with_uri(token_id@, token_uri@),
            old(self)@.consistent() ==> final(self)@.consistent(),
    {
        self.token_uri.insert(token_id, token_uri);
        Ok(())
    }

    fn is_approve_for_all(&self, account_approve: (u64, u64)) -> (r: bool)
        ensures
            r == self@.approval[account_approve],
    {
        let key = AccountPair { from: account_approve.0, to: account_approve.1 };
        *self.approval.get(&key).unwrap()
    }

    fn approve(&mut self, from: u64, to: u64, token_id: Vec<u8>) -> (r: Result<(), DispatchError>)
        ensures
            match r {
                Ok(_) => old(self)@.lend_error(from, token_id@) is None && final(self)@ == old(self)@.with_lent(to, token_id@),
                Err(e) => old(self)@.lend_error(from, token_id@) == Some(e) && final(self)@ == old(self)@,
            },
            old(self)@.consistent() ==> final(self)@.consistent(),
    {
        let owner = *self.token_owner.get(&token_id).unwrap();
        if from != owner {
            return Err(DispatchError::Other(NOT_OWNER_NOR_APPROVED));
        }
        if self.is_borrowed_token(copy_bytes(&token_id)) {
            return Err(DispatchError::Module(Error::IsBorrowed));
        }
        let ghost s0 = self@;
        let mut list = match self.token_approval.take(&token_id) {
            Some(l) => l,
            None => Vec::new(),
        };
        list.push(to);
        self.token_approval.insert(token_id, list);
        proof {
            assert(self@.token_approval =~= s0.token_approval.insert(token_id@, s0.approvals_of(token_id@).push(to)));
            if s0.consistent() {
                crate::laws::lemma_lend_keeps_consistency(s0, to, token_id@);
            }
        }
        Ok(())
    }

    fn set_approve_for_all(&mut self, from: u64, to: u64) -> (r: Result<(), DispatchError>)
        ensures
            r is Ok,
            final(self)@ == old(self)@.with_operator(from, to),
            old(self)@.consistent() ==> final(self)@.consistent(),
    {
        self.approval.insert(AccountPair { from, to }, true);
        Ok(())
    }

    fn set_token_renting_price(&mut self, token_id: Vec<u8>, price: u128) -> (r: Result<(), DispatchError>)
        ensures
            r is Ok,
            final(self)@ == old(self)@.with_price(token_id@, price),
            old(self)@.consistent() ==> final(self)@.consistent(),
    {
        self.renting_price.insert(token_id, price);
        Ok(())
    }

    fn set_token_renting_time(&mut self, token_id: Vec<u8>, time: u128) -> (r: Result<(), DispatchError>)
        ensures
            r is Ok,
            final(self)@ == old(self)@.with_time(token_id@, time),
            old(self)@.consistent() ==> final(self)@.consistent(),
    {
        self.renting_time.insert(token_id, time);
        Ok(())
    }

    fn set_token_for_rent(&mut self, token_id: Vec<u8>) -> (r: Result<(), DispatchError>)
        ensures
            match r {
                Ok(_) => old(self)@.rent_offer_error(token_id@) is None && final(self)@ == old(self)@.with_rent_flag(token_id@, true),
                Err(e) => old(self)@.rent_offer_error(token_id@) == Some(e) && final(self)@
                    == old(self)@,
            },
            old(self)@.consistent() ==> final(self)@.consistent(),
    {
        if self.is_borrowed_token(copy_bytes(&token_id)) {
            return Err(DispatchError::Other(RENT_WHILE_BORROWED));
        }
        self.token_for_rent.insert(token_id, true);
        proof {
            lemma_consistency_from_ownership(old(self)@, self@);
        }
        Ok(())
    }

    fn set_token_cancel_for_rent(&mut self, token_id: Vec<u8>) -> (r: Result<(), DispatchError>)
        ensures
            r is Ok,
            final(self)@ == old(self)@.with_rent_flag(token_id@, false),
            old(self)@.consistent() ==> final(self)@.consistent(),
    {
        self.token_for_rent.insert(token_id, false);
        Ok(())
    }
}

} // verus!
