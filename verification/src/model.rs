//! The registry's state as mathematical maps, and what each call does to it.
use crate::types::{signer_of, DispatchError, Error, Origin};
use vstd::prelude::*;

verus! {

/// The refusal when an owner asks to rent its own token.
pub const OWNER_CANNOT_BORROW: &'static str = "Owner cannot borrow his own tokens!";

/// The refusal when someone other than the owner lends a token out.
pub const NOT_OWNER_NOR_APPROVED: &'static str = "Not Owner nor approved";

/// The refusal when a token that is lent out is offered for rent.
pub const RENT_WHILE_BORROWED: &'static str = "Cannot set rent info if someone is borrowing it!";

/// The registry's state. Token ids and URIs are byte strings, accounts are
/// `u64`, prices and times are `u128`.
#[verifier::ext_equal]
pub struct PalletView {
    pub name: Seq<u8>,
    pub symbol: Seq<u8>,
    pub token_uri: Map<Seq<u8>, Seq<u8>>,
    pub total_tokens: u32,
    pub token_owner: Map<Seq<u8>, u64>,
    pub renting_price: Map<Seq<u8>, u128>,
    pub renting_time: Map<Seq<u8>, u128>,
    pub token_for_rent: Map<Seq<u8>, bool>,
    pub owner_token: Map<u64, Seq<Seq<u8>>>,
    pub approval: Map<(u64, u64), bool>,
    pub token_approval: Map<Seq<u8>, Seq<u64>>,
}

/// A call a user makes, with its arguments as values.
pub enum Call {
    MintTo { origin: Origin, to: u64, random_output: Seq<u8> },
    TransferToken { origin: Origin, to: u64, token_id: Seq<u8> },
    SafeTransfer { origin: Origin, from: u64, to: u64, token_id: Seq<u8> },
    Approve { origin: Origin, to: u64, token_id: Seq<u8> },
    ApproveForAll { origin: Origin, account: u64 },
    SetTokenUri { origin: Origin, token_id: Seq<u8>, token_uri: Seq<u8> },
    SetTokenRentingPrice { origin: Origin, token_id: Seq<u8>, price: u128 },
    SetTokenRentingTime { origin: Origin, token_id: Seq<u8>, time: u128 },
    SetTokenRentInfo { origin: Origin, token_id: Seq<u8>, time: u128, price: u128 },
    RentNft { origin: Origin, token_id: Seq<u8> },
}

/// The sum of the lengths of the lists stored under `keys`.
pub open spec fn sum_lengths(m: Map<u64, Seq<Seq<u8>>>, keys: Set<u64>) -> int
    decreases keys.len(),
    when keys.finite()
{
    if keys.len() == 0 {
        0
    } else {
        let k = keys.choose();
        m[k].len() + sum_lengths(m, keys.remove(k))
    }
}

/// The registry's state after the calls of `calls`, made in order from `s`.
pub open spec fn run(s: PalletView, calls: Seq<Call>) -> PalletView
    decreases calls.len(),
{
    if calls.len() == 0 {
        s
    } else {
        run(s, calls.drop_last()).after(calls.last())
    }
}

/// The state of a registry that nothing has happened to yet.
pub open spec fn initial_view() -> PalletView {
    PalletView {
        name: Seq::empty(),
        symbol: Seq::empty(),
        token_uri: Map::empty(),
        total_tokens: 0,
        token_owner: Map::empty(),
        renting_price: Map::empty(),
        renting_time: Map::empty(),
        token_for_rent: Map::empty(),
        owner_token: Map::empty(),
        approval: Map::empty(),
        token_approval: Map::empty(),
    }
}

/// The list stored under `who`, or the empty list.
pub open spec fn list_or_empty(m: Map<u64, Seq<Seq<u8>>>, who: u64) -> Seq<Seq<u8>> {
    if m.contains_key(who) {
        m[who]
    } else {
        Seq::empty()
    }
}

impl PalletView {
    /// The tokens recorded for `who` (none where nothing is recorded).
    pub open spec fn owned_tokens(self, who: u64) -> Seq<Seq<u8>> {
        list_or_empty(self.owner_token, who)
    }

    /// The accounts a token is lent to (none where nothing is recorded).
    pub open spec fn approvals_of(self, t: Seq<u8>) -> Seq<u64> {
        if self.token_approval.contains_key(t) {
            self.token_approval[t]
        } else {
            Seq::empty()
        }
    }

    /// The renting price of a token, 0 where none is set.
    pub open spec fn price_of(self, t: Seq<u8>) -> u128 {
        if self.renting_price.contains_key(t) {
            self.renting_price[t]
        } else {
            0
        }
    }

    /// The renting time of a token, 0 where none is set.
    pub open spec fn time_of(self, t: Seq<u8>) -> u128 {
        if self.renting_time.contains_key(t) {
            self.renting_time[t]
        } else {
            0
        }
    }

    /// Whether a token is offered for rent (false where nothing is set).
    pub open spec fn is_for_rent(self, t: Seq<u8>) -> bool {
        self.token_for_rent.contains_key(t) && self.token_for_rent[t]
    }

    /// Whether a token is lent to someone.
    pub open spec fn is_borrowed(self, t: Seq<u8>) -> bool {
        self.approvals_of(t).len() > 0
    }

    /// Whether `who` is among the accounts a token is lent to.
    pub open spec fn is_renter(self, who: u64, t: Seq<u8>) -> bool {
        self.approvals_of(t).contains(who)
    }

    /// A new token `id` for `owner`: counted, owned, listed for the owner.
    pub open spec fn with_minted(self, owner: u64, id: Seq<u8>) -> PalletView {
        PalletView {
            total_tokens: (self.total_tokens + 1) as u32,
            token_owner: self.token_owner.insert(id, owner),
            owner_token: self.owner_token.insert(owner, self.owned_tokens(owner).push(id)),
            ..self
        }
    }

    /// Token `t` handed from `from` to `to`: `to` owns it and lists it at its
    /// end; then the first occurrence of `t` in `from`'s list is replaced by
    /// that list's last token, which is dropped.
    pub open spec fn with_moved(self, from: u64, to: u64, t: Seq<u8>) -> PalletView {
        let pushed = self.owner_token.insert(to, self.owned_tokens(to).push(t));
        PalletView {
            token_owner: self.token_owner.insert(t, to),
            owner_token: pushed.insert(
                from,
                crate::types::swap_remove_first(list_or_empty(pushed, from), t),
            ),
            ..self
        }
    }

    /// Token `t` lent to one more account, `to`.
    pub open spec fn with_lent(self, to: u64, t: Seq<u8>) -> PalletView {
        PalletView { token_approval: self.token_approval.insert(t, self.approvals_of(t).push(to)), ..self }
    }

    /// `to` now operates for `from`.
    pub open spec fn with_operator(self, from: u64, to: u64) -> PalletView {
        PalletView { approval: self.approval.insert((from, to), true), ..self }
    }

    pub open spec fn with_uri(self, t: Seq<u8>, uri: Seq<u8>) -> PalletView {
        PalletView { token_uri: self.token_uri.insert(t, uri), ..self }
    }

    pub open spec fn with_price(self, t: Seq<u8>, price: u128) -> PalletView {
        PalletView { renting_price: self.renting_price.insert(t, price), ..self }
    }

    pub open spec fn with_time(self, t: Seq<u8>, time: u128) -> PalletView {
        PalletView { renting_time: self.renting_time.insert(t, time), ..self }
    }

    pub open spec fn with_rent_flag(self, t: Seq<u8>, flag: bool) -> PalletView {
        PalletView { token_for_rent: self.token_for_rent.insert(t, flag), ..self }
    }

    /// Why handing over token `t` (which has an owner) from `from` is refused.
    pub open spec fn transfer_error(self, from: u64, t: Seq<u8>) -> Option<DispatchError> {
        if from != self.token_owner[t] {
            Some(DispatchError::Module(Error::NotOwner))
        } else if self.is_borrowed(t) {
            Some(DispatchError::Module(Error::IsBorrowed))
        } else {
            None
        }
    }

    /// Why lending token `t` (which has an owner) out on behalf of `from` is refused.
    pub open spec fn lend_error(self, from: u64, t: Seq<u8>) -> Option<DispatchError> {
        if from != self.token_owner[t] {
            Some(DispatchError::Other(NOT_OWNER_NOR_APPROVED))
        } else if self.is_borrowed(t) {
            Some(DispatchError::Module(Error::IsBorrowed))
        } else {
            None
        }
    }

    /// Why offering token `t` for rent is refused.
    pub open spec fn rent_offer_error(self, t: Seq<u8>) -> Option<DispatchError> {
        if self.is_borrowed(t) {
            Some(DispatchError::Other(RENT_WHILE_BORROWED))
        } else {
            None
        }
    }

    /// Why a call about token `t` that only its owner may make is refused.
    pub open spec fn owner_call_error(self, origin: Origin, t: Seq<u8>) -> Option<DispatchError> {
        match signer_of(origin) {
            None => Some(DispatchError::BadOrigin),
            Some(who) => if who != self.token_owner[t] {
                Some(DispatchError::Module(Error::NotOwner))
            } else {
                None
            },
        }
    }

    /// Whether a signed call about token `t` finds the token owned.
    pub open spec fn owner_known_if_signed(self, origin: Origin, t: Seq<u8>) -> bool {
        signer_of(origin) is Some ==> self.token_owner.contains_key(t)
    }

    pub open spec fn transfer_token_error(self, origin: Origin, t: Seq<u8>) -> Option<DispatchError> {
        if self.owner_call_error(origin, t) is Some {
            self.owner_call_error(origin, t)
        } else {
            self.transfer_error(signer_of(origin)->0, t)
        }
    }

    /// Whether `safe_transfer` finds what it reads: the token's owner, and,
    /// for a caller other than the owner, an operator entry for `(from, caller)`.
    pub open spec fn safe_transfer_defined(self, origin: Origin, from: u64, t: Seq<u8>) -> bool {
        match signer_of(origin) {
            None => true,
            Some(who) => self.token_owner.contains_key(t) && (who != self.token_owner[t]
                ==> self.approval.contains_key((from, who))),
        }
    }

    pub open spec fn safe_transfer_error(self, origin: Origin, from: u64, t: Seq<u8>) -> Option<
        DispatchError,
    > {
        match signer_of(origin) {
            None => Some(DispatchError::BadOrigin),
            Some(who) => if who != self.token_owner[t] && !self.approval[(from, who)] {
                Some(DispatchError::Module(Error::NotOwnerNorOperator))
            } else {
                self.transfer_error(from, t)
            },
        }
    }

    pub open spec fn approve_call_error(self, origin: Origin, t: Seq<u8>) -> Option<DispatchError> {
        if self.owner_call_error(origin, t) is Some {
            self.owner_call_error(origin, t)
        } else {
            self.lend_error(signer_of(origin)->0, t)
        }
    }

    pub open spec fn rent_info_error(self, origin: Origin, t: Seq<u8>) -> Option<DispatchError> {
        if self.owner_call_error(origin, t) is Some {
            self.owner_call_error(origin, t)
        } else {
            self.rent_offer_error(t)
        }
    }

    /// Whether `rent_nft` finds the owner of a token offered for rent.
    pub open spec fn rent_defined(self, origin: Origin, t: Seq<u8>) -> bool {
        self.is_for_rent(t) && signer_of(origin) is Some ==> self.token_owner.contains_key(t)
    }

    pub open spec fn rent_error(self, origin: Origin, t: Seq<u8>) -> Option<DispatchError> {
        if !self.is_for_rent(t) {
            Some(DispatchError::Module(Error::NotForRent))
        } else {
            match signer_of(origin) {
                None => Some(DispatchError::BadOrigin),
                Some(renter) => if renter == self.token_owner[t] {
                    Some(DispatchError::Other(OWNER_CANNOT_BORROW))
                } else {
                    self.lend_error(self.token_owner[t], t)
                },
            }
        }
    }

    /// Whether the call finds what it reads: the call's function requires this.
    pub open spec fn defined(self, c: Call) -> bool {
        match c {
            Call::MintTo { origin, .. } => signer_of(origin) is Some ==> self.total_tokens
                < u32::MAX,
            Call::TransferToken { origin, token_id, .. } => self.owner_known_if_signed(
                origin,
                token_id,
            ),
            Call::SafeTransfer { origin, from, token_id, .. } => self.safe_transfer_defined(
                origin,
                from,
                token_id,
            ),
            Call::Approve { origin, token_id, .. } => self.owner_known_if_signed(origin, token_id),
            Call::ApproveForAll { .. } => true,
            Call::SetTokenUri { origin, token_id, .. } => self.owner_known_if_signed(
                origin,
                token_id,
            ),
            Call::SetTokenRentingPrice { origin, token_id, .. } => self.owner_known_if_signed(
                origin,
                token_id,
            ),
            Call::SetTokenRentingTime { origin, token_id, .. } => self.owner_known_if_signed(
                origin,
                token_id,
            ),
            Call::SetTokenRentInfo { origin, token_id, .. } => self.owner_known_if_signed(
                origin,
                token_id,
            ),
            Call::RentNft { origin, token_id } => self.rent_defined(origin, token_id),
        }
    }

    /// The state after call `c`; a refused call leaves the state as it was.
    pub open spec fn after(self, c: Call) -> PalletView {
        match c {
            Call::MintTo { origin, to, random_output } => if signer_of(origin) is Some {
                self.with_minted(to, random_output)
            } else {
                self
            },
            Call::TransferToken { origin, to, token_id } => if self.transfer_token_error(
                origin,
                token_id,
            ) is None {
                self.with_moved(signer_of(origin)->0, to, token_id)
            } else {
                self
            },
            Call::SafeTransfer { origin, from, to, token_id } => if self.safe_transfer_error(
                origin,
                from,
                token_id,
            ) is None {
                self.with_moved(from, to, token_id)
            } else {
                self
            },
            Call::Approve { origin, to, token_id } => if self.approve_call_error(
                origin,
                token_id,
            ) is None {
                self.with_lent(to, token_id)
            } else {
                self
            },
            Call::ApproveForAll { origin, account } => if signer_of(origin) is Some {
                self.with_operator(signer_of(origin)->0, account)
            } else {
                self
            },
            Call::SetTokenUri { origin, token_id, token_uri } => if self.owner_call_error(
                origin,
                token_id,
            ) is None {
                self.with_uri(token_id, token_uri)
            } else {
                self
            },
            Call::SetTokenRentingPrice { origin, token_id, price } => if self.owner_call_error(
                origin,
                token_id,
            ) is None {
                self.with_price(token_id, price)
            } else {
                self
            },
            Call::SetTokenRentingTime { origin, token_id, time } => if self.owner_call_error(
                origin,
                token_id,
            ) is None {
                self.with_time(token_id, time)
            } else {
                self
            },
            Call::SetTokenRentInfo { origin, token_id, time, price } => if self.rent_info_error(
                origin,
                token_id,
            ) is None {
                self.with_rent_flag(token_id, true).with_time(token_id, time).with_price(
                    token_id,
                    price,
                )
            } else {
                self
            },
            Call::RentNft { origin, token_id } => if self.rent_error(origin, token_id) is None {
                self.with_rent_flag(token_id, false).with_lent(signer_of(origin)->0, token_id)
            } else {
                self
            },
        }
    }

    /// Owners and lists agree both ways, and no list holds a token twice.
    pub open spec fn lists_are_exact(self) -> bool {
        &&& self.owners_list_their_tokens()
        &&& forall|a: u64, t: Seq<u8>| #[trigger]
            self.owned_tokens(a).contains(t) ==> self.token_owner.contains_key(t)
                && self.token_owner[t] == a
        &&& forall|a: u64| #[trigger] self.owned_tokens(a).no_duplicates()
    }

    /// Every token offered for rent has an owner.
    pub open spec fn offers_are_owned(self) -> bool {
        forall|t: Seq<u8>| #[trigger] self.is_for_rent(t) ==> self.token_owner.contains_key(t)
    }

    /// The number of tokens that have an owner.
    pub open spec fn owned_count(self) -> nat {
        self.token_owner.dom().len()
    }

    /// The sum of the lengths of all accounts' lists.
    pub open spec fn listed_count(self) -> int {
        sum_lengths(self.owner_token, self.owner_token.dom())
    }

    /// Both maps that are counted have finitely many keys.
    pub open spec fn counts_are_finite(self) -> bool {
        self.token_owner.dom().finite() && self.owner_token.dom().finite()
    }

    /// Every list of accounts a token is lent to holds at most one account.
    pub open spec fn lends_to_at_most_one(self) -> bool {
        forall|t: Seq<u8>| #[trigger]
            self.token_approval.contains_key(t) ==> self.token_approval[t].len() <= 1
    }

    /// Every token that has an owner is in its owner's list.
    pub open spec fn owners_list_their_tokens(self) -> bool {
        forall|t: Seq<u8>| #[trigger]
            self.token_owner.contains_key(t) ==> self.owned_tokens(self.token_owner[t]).contains(
                t,
            )
    }

    /// Every recorded operator flag says yes.
    pub open spec fn operator_flags_are_set(self) -> bool {
        forall|k: (u64, u64)| #[trigger] self.approval.contains_key(k) ==> self.approval[k]
    }

    /// What every call keeps.
    pub open spec fn consistent(self) -> bool {
        &&& self.lends_to_at_most_one()
        &&& self.owners_list_their_tokens()
        &&& self.operator_flags_are_set()
    }
}

} // verus!
