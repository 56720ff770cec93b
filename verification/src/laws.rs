//! Properties of the registry that hold across its operations.
use crate::model::{initial_view, list_or_empty, run, sum_lengths, Call, PalletView, OWNER_CANNOT_BORROW};
use crate::types::{signer_of, DispatchError, Error, Origin};
use crate::types::{first_index_of, swap_remove_first};
use vstd::prelude::*;

verus! {

/// Where `s` holds `x`, swap-removing the first occurrence of another token
/// leaves `x` in it.
pub proof fn lemma_swap_remove_first_keeps_others(s: Seq<Seq<u8>>, t: Seq<u8>, x: Seq<u8>)
    requires
        s.contains(x),
        x != t,
    ensures
        swap_remove_first(s, t).contains(x),
{
    if s.contains(t) {
        let i = first_index_of(s, t);
        let k = choose|k: int| 0 <= k < s.len() && s[k] == x;
        let w = choose|w: int| 0 <= w < s.len() && s[w] == t;
        assert(0 <= w < s.len() && s[w] == t);
        lemma_first_index_of(s, t);
        let r = s.update(i, s.last()).drop_last();
        if k == s.len() - 1 {
            assert(r[i] == x);
        } else {
            assert(r[k] == x);
        }
    }
}

/// The first occurrence of a token that occurs is an occurrence, and none
/// comes before it.
pub proof fn lemma_first_index_of(s: Seq<Seq<u8>>, t: Seq<u8>)
    requires
        s.contains(t),
    ensures
        0 <= first_index_of(s, t) < s.len(),
        s[first_index_of(s, t)] == t,
        forall|j: int| 0 <= j < first_index_of(s, t) ==> s[j] != t,
{
    let w = choose|w: int| 0 <= w < s.len() && s[w] == t;
    lemma_earliest_occurrence(s, t, w);
}

proof fn lemma_earliest_occurrence(s: Seq<Seq<u8>>, t: Seq<u8>, w: int)
    requires
        0 <= w < s.len(),
        s[w] == t,
    ensures
        exists|i: int| 0 <= i < s.len() && s[i] == t && forall|j: int| 0 <= j < i ==> s[j] != t,
    decreases w,
{
    if exists|j: int| 0 <= j < w && s[j] == t {
        let j = choose|j: int| 0 <= j < w && s[j] == t;
        lemma_earliest_occurrence(s, t, j);
    } else {
        assert(0 <= w < s.len() && s[w] == t && forall|j: int| 0 <= j < w ==> s[j] != t);
    }
}

/// Where `s` holds `t`, appending `t` and then swap-removing its first
/// occurrence leaves `t` in the list.
pub proof fn lemma_push_then_swap_remove_keeps(s: Seq<Seq<u8>>, t: Seq<u8>)
    requires
        s.contains(t),
    ensures
        swap_remove_first(s.push(t), t).contains(t),
{
    let p = s.push(t);
    let w = choose|w: int| 0 <= w < s.len() && s[w] == t;
    assert(p[w] == t);
    assert(p.contains(t));
    lemma_first_index_of(p, t);
    let i = first_index_of(p, t);
    assert(i <= w);
    let r = p.update(i, p.last()).drop_last();
    assert(r[i] == t);
}

/// Minting keeps the registry consistent.
pub proof fn lemma_mint_keeps_consistency(s: PalletView, owner: u64, id: Seq<u8>)
    requires
        s.consistent(),
    ensures
        s.with_minted(owner, id).consistent(),
{
    let s2 = s.with_minted(owner, id);
    assert forall|t: Seq<u8>| #[trigger]
        s2.token_owner.contains_key(t) implies s2.owned_tokens(s2.token_owner[t]).contains(t) by {
        let l = s.owned_tokens(owner).push(id);
        assert(l[l.len() - 1] == id);
        if t != id {
            let o = s.token_owner[t];
            let k = choose|k: int| 0 <= k < s.owned_tokens(o).len() && s.owned_tokens(o)[k] == t;
            if o == owner {
                assert(l[k] == t);
            }
        }
    }
}

/// Handing a token from its owner to anyone keeps the registry consistent.
pub proof fn lemma_move_keeps_consistency(s: PalletView, from: u64, to: u64, t: Seq<u8>)
    requires
        s.consistent(),
        s.token_owner.contains_key(t),
        s.token_owner[t] == from,
    ensures
        s.with_moved(from, to, t).consistent(),
{
    let s2 = s.with_moved(from, to, t);
    let pushed = s.owner_token.insert(to, s.owned_tokens(to).push(t));
    let l1 = s.owned_tokens(to).push(t);
    assert(l1[l1.len() - 1] == t);
    assert forall|x: Seq<u8>| #[trigger]
        s2.token_owner.contains_key(x) implies s2.owned_tokens(s2.token_owner[x]).contains(x) by {
        if x == t {
            if from == to {
                assert(s.owned_tokens(from).contains(t));
                lemma_push_then_swap_remove_keeps(s.owned_tokens(to), t);
            }
        } else {
            let o = s.token_owner[x];
            assert(s.owned_tokens(o).contains(x));
            if o == from {
                if from == to {
                    let k = choose|k: int|
                        0 <= k < s.owned_tokens(o).len() && s.owned_tokens(o)[k] == x;
                    assert(l1[k] == x);
                }
                lemma_swap_remove_first_keeps_others(list_or_empty(pushed, from), t, x);
            } else if o == to {
                let k = choose|k: int| 0 <= k < s.owned_tokens(o).len() && s.owned_tokens(o)[k] == x;
                assert(l1[k] == x);
            }
        }
    }
}

/// Lending a token that is not lent out keeps the registry consistent.
pub proof fn lemma_lend_keeps_consistency(s: PalletView, to: u64, t: Seq<u8>)
    requires
        s.consistent(),
        !s.is_borrowed(t),
    ensures
        s.with_lent(to, t).consistent(),
{
}

/// Minting counts one more token, gives it to its owner and appends it to
/// the owner's list.
pub proof fn law_mint_counts_and_records(s: PalletView, owner: u64, id: Seq<u8>)
    requires
        s.total_tokens < u32::MAX,
    ensures
        s.with_minted(owner, id).total_tokens == s.total_tokens + 1,
        s.with_minted(owner, id).token_owner[id] == owner,
        s.with_minted(owner, id).owned_tokens(owner) == s.owned_tokens(owner).push(id),
        forall|who: u64| who != owner ==> s.with_minted(owner, id).owned_tokens(who) == s.owned_tokens(who),
{
}

/// Handing a token over from its owner to another account makes that account
/// its owner and lists it there, takes exactly one occurrence of it out of the
/// former owner's list, and leaves every other account's list alone.
pub proof fn law_transfer_hands_over(s: PalletView, from: u64, to: u64, t: Seq<u8>)
    requires
        s.consistent(),
        s.token_owner.contains_key(t),
        s.token_owner[t] == from,
        from != to,
    ensures
        s.with_moved(from, to, t).token_owner[t] == to,
        s.with_moved(from, to, t).owned_tokens(to) == s.owned_tokens(to).push(t),
        s.with_moved(from, to, t).owned_tokens(from) == swap_remove_first(s.owned_tokens(from), t),
        s.with_moved(from, to, t).owned_tokens(from).len() + 1 == s.owned_tokens(from).len(),
        forall|who: u64|
            who != from && who != to ==> s.with_moved(from, to, t).owned_tokens(who)
                == s.owned_tokens(who),
{
    assert(s.owned_tokens(from).contains(t));
    lemma_first_index_of(s.owned_tokens(from), t);
}

/// A token that is lent out can be neither handed over, nor lent again, nor
/// offered for rent.
pub proof fn law_borrowed_token_is_locked(s: PalletView, from: u64, t: Seq<u8>)
    requires
        s.token_owner.contains_key(t),
        s.is_borrowed(t),
    ensures
        s.transfer_error(from, t) is Some,
        s.lend_error(from, t) is Some,
        s.rent_offer_error(t) is Some,
        from == s.token_owner[t] ==> s.transfer_error(from, t) == Some(
            DispatchError::Module(Error::IsBorrowed),
        ),
{
}

/// Renting a token takes it off the market and lends it to the renter, and
/// changes no owner.
pub proof fn law_rent_lends_to_renter(s: PalletView, origin: Origin, t: Seq<u8>)
    requires
        s.rent_defined(origin, t),
        s.rent_error(origin, t) is None,
    ensures
        ({
            let renter = signer_of(origin)->0;
            let s2 = s.with_rent_flag(t, false).with_lent(renter, t);
            &&& s.is_for_rent(t)
            &&& renter != s.token_owner[t]
            &&& !s2.is_for_rent(t)
            &&& s2.is_borrowed(t)
            &&& s2.is_renter(renter, t)
            &&& s2.approvals_of(t) == seq![renter]
            &&& s2.token_owner == s.token_owner
            &&& s2.owner_token == s.owner_token
        }),
{
    let renter = signer_of(origin)->0;
    let s2 = s.with_rent_flag(t, false).with_lent(renter, t);
    assert(s.approvals_of(t) =~= Seq::<u64>::empty());
    assert(s2.approvals_of(t) =~= seq![renter]);
    assert(s2.approvals_of(t)[0] == renter);
}

/// An owner cannot rent its own token.
pub proof fn law_owner_cannot_rent_own_token(s: PalletView, who: u64, t: Seq<u8>)
    requires
        s.is_for_rent(t),
        s.token_owner.contains_key(t),
        s.token_owner[t] == who,
    ensures
        s.rent_error(Origin::Signed(who), t) == Some(DispatchError::Other(OWNER_CANNOT_BORROW)),
{
}

/// A token that is not offered for rent cannot be rented, whoever asks.
pub proof fn law_only_offered_tokens_are_rented(s: PalletView, origin: Origin, t: Seq<u8>)
    requires
        !s.is_for_rent(t),
    ensures
        s.rent_error(origin, t) == Some(DispatchError::Module(Error::NotForRent)),
{
}

/// Only a token's owner may hand it over, lend it, or set its URI, price,
/// time or offer.
pub proof fn law_only_owner_acts_on_token(s: PalletView, who: u64, t: Seq<u8>)
    requires
        s.token_owner.contains_key(t),
        who != s.token_owner[t],
    ensures
        s.owner_call_error(Origin::Signed(who), t) == Some(DispatchError::Module(Error::NotOwner)),
        s.transfer_token_error(Origin::Signed(who), t) == Some(
            DispatchError::Module(Error::NotOwner),
        ),
        s.approve_call_error(Origin::Signed(who), t) == Some(
            DispatchError::Module(Error::NotOwner),
        ),
        s.rent_info_error(Origin::Signed(who), t) == Some(DispatchError::Module(Error::NotOwner)),
{
}

/// A call that is not signed is refused as such, except that renting a
/// token not offered for rent is refused for that first.
pub proof fn law_unsigned_calls_are_refused(
    s: PalletView,
    origin: Origin,
    from: u64,
    t: Seq<u8>,
)
    requires
        signer_of(origin) is None,
    ensures
        s.owner_call_error(origin, t) == Some(DispatchError::BadOrigin),
        s.transfer_token_error(origin, t) == Some(DispatchError::BadOrigin),
        s.safe_transfer_error(origin, from, t) == Some(DispatchError::BadOrigin),
        s.approve_call_error(origin, t) == Some(DispatchError::BadOrigin),
        s.rent_info_error(origin, t) == Some(DispatchError::BadOrigin),
        s.is_for_rent(t) ==> s.rent_error(origin, t) == Some(DispatchError::BadOrigin),
{
}

/// In a consistent registry, `safe_transfer` is never refused for want of an
/// operator: a caller other than the owner has an operator entry, and every
/// entry says yes.
pub proof fn law_operator_entries_never_refuse(s: PalletView, origin: Origin, from: u64, t: Seq<u8>)
    requires
        s.consistent(),
        s.safe_transfer_defined(origin, from, t),
    ensures
        s.safe_transfer_error(origin, from, t) != Some(
            DispatchError::Module(Error::NotOwnerNorOperator),
        ),
{
    if let Some(who) = signer_of(origin) {
        if who != s.token_owner[t] {
            assert(s.approval.contains_key((from, who)));
        }
    }
}

/// An operator of the former owner may hand a token over for it, as long as
/// the token is not lent out.
pub proof fn law_operator_may_transfer(s: PalletView, operator: u64, from: u64, t: Seq<u8>)
    requires
        s.token_owner.contains_key(t),
        s.token_owner[t] == from,
        s.approval.contains_key((from, operator)),
        s.approval[(from, operator)],
        !s.is_borrowed(t),
    ensures
        s.safe_transfer_error(Origin::Signed(operator), from, t) is None,
{
}

/// What is written is what is read back: the URI, price, time, rent offer and
/// operator flag of a token or pair of accounts are those last set, and
/// setting one leaves the others alone.
pub proof fn law_read_after_write(
    s: PalletView,
    t: Seq<u8>,
    u: Seq<u8>,
    uri: Seq<u8>,
    price: u128,
    time: u128,
    flag: bool,
    from: u64,
    to: u64,
)
    ensures
        s.with_uri(t, uri).token_uri[t] == uri,
        u != t ==> s.with_uri(t, uri).token_uri.contains_key(u) == s.token_uri.contains_key(u),
        u != t && s.token_uri.contains_key(u) ==> s.with_uri(t, uri).token_uri[u] == s.token_uri[u],
        s.with_price(t, price).price_of(t) == price,
        u != t ==> s.with_price(t, price).price_of(u) == s.price_of(u),
        s.with_time(t, time).time_of(t) == time,
        u != t ==> s.with_time(t, time).time_of(u) == s.time_of(u),
        s.with_rent_flag(t, flag).is_for_rent(t) == flag,
        u != t ==> s.with_rent_flag(t, flag).is_for_rent(u) == s.is_for_rent(u),
        s.with_operator(from, to).approval[(from, to)],
{
}

/// Every user call keeps every token lent to at most one account, under that
/// hypothesis alone.
pub proof fn law_calls_keep_at_most_one_borrower(s: PalletView, c: Call)
    requires
        s.lends_to_at_most_one(),
    ensures
        s.after(c).lends_to_at_most_one(),
{
    match c {
        Call::Approve { origin, to, token_id } => {
            if s.approve_call_error(origin, token_id) is None {
                law_lending_keeps_at_most_one_borrower(s, signer_of(origin)->0, to, token_id);
            }
        },
        Call::RentNft { origin, token_id } => {
            if s.rent_error(origin, token_id) is None {
                let s1 = s.with_rent_flag(token_id, false);
                law_lending_keeps_at_most_one_borrower(
                    s1,
                    s.token_owner[token_id],
                    signer_of(origin)->0,
                    token_id,
                );
            }
        },
        _ => {},
    }
}

/// Lending a token through the operation behind `approve` keeps every token
/// lent to at most one account.
pub proof fn law_lending_keeps_at_most_one_borrower(s: PalletView, from: u64, to: u64, t: Seq<u8>)
    requires
        s.lends_to_at_most_one(),
    ensures
        s.lend_error(from, t) is None ==> s.with_lent(to, t).lends_to_at_most_one(),
{
    if s.lend_error(from, t) is None {
        assert(s.approvals_of(t).len() == 0);
    }
}

/// Every user call keeps every token that is offered for rent owned.
pub proof fn law_calls_keep_offers_owned(s: PalletView, c: Call)
    requires
        s.offers_are_owned(),
        s.defined(c),
    ensures
        s.after(c).offers_are_owned(),
{
    let s2 = s.after(c);
    assert forall|x: Seq<u8>| #[trigger] s2.is_for_rent(x) implies s2.token_owner.contains_key(x) by {
        match c {
            Call::SetTokenRentInfo { origin, token_id, .. } => {
                if x != token_id {
                    assert(s.is_for_rent(x));
                }
            },
            Call::RentNft { origin, token_id } => {
                if x != token_id {
                    assert(s.is_for_rent(x));
                }
            },
            _ => {
                assert(s.is_for_rent(x));
            },
        }
    }
}

/// Call `c` mints no token with id `t`.
pub open spec fn mints_no(c: Call, t: Seq<u8>) -> bool {
    match c {
        Call::MintTo { random_output, .. } => random_output != t,
        _ => true,
    }
}

/// While token `t` is lent out, a user call that mints no token `t` keeps
/// its owner and its borrowers, and any call that would move it is refused.
pub proof fn law_lent_token_step(s: PalletView, c: Call, t: Seq<u8>)
    requires
        s.token_owner.contains_key(t),
        s.is_borrowed(t),
        mints_no(c, t),
    ensures
        s.after(c).token_owner.contains_key(t),
        s.after(c).token_owner[t] == s.token_owner[t],
        s.after(c).approvals_of(t) == s.approvals_of(t),
        match c {
            Call::TransferToken { origin, token_id, .. } => token_id == t
                ==> s.transfer_token_error(origin, t) is Some,
            Call::SafeTransfer { origin, from, token_id, .. } => token_id == t
                ==> s.safe_transfer_error(origin, from, t) is Some,
            _ => true,
        },
{
}

proof fn lemma_run_keeps_lent_token(s: PalletView, calls: Seq<Call>, t: Seq<u8>)
    requires
        s.token_owner.contains_key(t),
        s.is_borrowed(t),
        forall|i: int| 0 <= i < calls.len() ==> mints_no(#[trigger] calls[i], t),
    ensures
        run(s, calls).token_owner.contains_key(t),
        run(s, calls).token_owner[t] == s.token_owner[t],
        run(s, calls).approvals_of(t) == s.approvals_of(t),
    decreases calls.len(),
{
    if calls.len() > 0 {
        let init = calls.drop_last();
        assert forall|i: int| 0 <= i < init.len() implies mints_no(#[trigger] init[i], t) by {
            assert(init[i] == calls[i]);
        }
        lemma_run_keeps_lent_token(s, init, t);
        assert(mints_no(calls[calls.len() - 1], t));
        law_lent_token_step(run(s, init), calls.last(), t);
    }
}

/// While a token is lent out, every user call leaves its owner and its
/// borrowers as they are (other than a mint of the same id), and every call
/// that would move it is refused: after each call of any such sequence.
pub proof fn law_lent_token_stays_with_owner(s: PalletView, calls: Seq<Call>, t: Seq<u8>)
    requires
        s.token_owner.contains_key(t),
        s.is_borrowed(t),
        forall|i: int| 0 <= i < calls.len() ==> mints_no(#[trigger] calls[i], t),
    ensures
        forall|k: int|
            0 <= k <= calls.len() ==> {
                let r = #[trigger] run(s, calls.take(k));
                &&& r.token_owner.contains_key(t)
                &&& r.token_owner[t] == s.token_owner[t]
                &&& r.approvals_of(t) == s.approvals_of(t)
            },
        forall|k: int|
            0 <= k < calls.len() ==> match #[trigger] calls[k] {
                Call::TransferToken { origin, token_id, .. } => token_id == t ==> run(
                    s,
                    calls.take(k),
                ).transfer_token_error(origin, t) is Some,
                Call::SafeTransfer { origin, from, token_id, .. } => token_id == t ==> run(
                    s,
                    calls.take(k),
                ).safe_transfer_error(origin, from, t) is Some,
                _ => true,
            },
{
    assert forall|k: int| 0 <= k <= calls.len() implies {
        let r = #[trigger] run(s, calls.take(k));
        &&& r.token_owner.contains_key(t)
        &&& r.token_owner[t] == s.token_owner[t]
        &&& r.approvals_of(t) == s.approvals_of(t)
    } by {
        let pre = calls.take(k);
        assert forall|i: int| 0 <= i < pre.len() implies mints_no(#[trigger] pre[i], t) by {
            assert(pre[i] == calls[i]);
        }
        lemma_run_keeps_lent_token(s, pre, t);
    }
    assert forall|k: int| 0 <= k < calls.len() implies match #[trigger] calls[k] {
        Call::TransferToken { origin, token_id, .. } => token_id == t ==> run(
            s,
            calls.take(k),
        ).transfer_token_error(origin, t) is Some,
        Call::SafeTransfer { origin, from, token_id, .. } => token_id == t ==> run(
            s,
            calls.take(k),
        ).safe_transfer_error(origin, from, t) is Some,
        _ => true,
    } by {
        let r = run(s, calls.take(k));
        assert(r.token_owner.contains_key(t) && r.approvals_of(t) == s.approvals_of(t));
        law_lent_token_step(r, calls[k], t);
    }
}

/// The call is a mint made with a signed origin, which always succeeds.
pub open spec fn is_signed_mint(c: Call) -> bool {
    match c {
        Call::MintTo { origin, .. } => signer_of(origin) is Some,
        _ => false,
    }
}

/// After n signed mints from a fresh registry, the token count is n.
pub proof fn law_mints_are_counted(calls: Seq<Call>)
    requires
        forall|i: int| 0 <= i < calls.len() ==> is_signed_mint(#[trigger] calls[i]),
        calls.len() < u32::MAX,
    ensures
        run(initial_view(), calls).total_tokens == calls.len(),
    decreases calls.len(),
{
    if calls.len() > 0 {
        let init = calls.drop_last();
        assert forall|i: int| 0 <= i < init.len() implies is_signed_mint(#[trigger] init[i]) by {
            assert(init[i] == calls[i]);
        }
        law_mints_are_counted(init);
        assert(is_signed_mint(calls[calls.len() - 1]));
    }
}

/// In a list without repeats that holds `t`, swap-removing `t` leaves exactly
/// the other tokens, still without repeats, and one fewer of them.
pub proof fn lemma_swap_remove_first_distinct(l: Seq<Seq<u8>>, t: Seq<u8>)
    requires
        l.no_duplicates(),
        l.contains(t),
    ensures
        swap_remove_first(l, t).no_duplicates(),
        swap_remove_first(l, t).len() + 1 == l.len(),
        forall|x: Seq<u8>| #[trigger]
            swap_remove_first(l, t).contains(x) <==> (l.contains(x) && x != t),
{
    lemma_first_index_of(l, t);
    let i = first_index_of(l, t);
    let n = l.len() - 1;
    let r = swap_remove_first(l, t);
    assert forall|j: int| 0 <= j < r.len() implies #[trigger] r[j] == (if j == i {
        l[n]
    } else {
        l[j]
    }) by {}
    assert forall|a: int, b: int| 0 <= a < r.len() && 0 <= b < r.len() && a != b implies r[a]
        != r[b] by {
        let fa = if a == i {
            n
        } else {
            a
        };
        let fb = if b == i {
            n
        } else {
            b
        };
        assert(r[a] == l[fa] && r[b] == l[fb]);
    }
    assert forall|x: Seq<u8>| #[trigger] r.contains(x) <==> (l.contains(x) && x != t) by {
        if r.contains(x) {
            let j = choose|j: int| 0 <= j < r.len() && r[j] == x;
            let fj = if j == i {
                n
            } else {
                j
            };
            assert(l[fj] == x);
            assert(fj != i);
        }
        if l.contains(x) && x != t {
            let k = choose|k: int| 0 <= k < l.len() && l[k] == x;
            assert(k != i);
            if k == n {
                assert(r[i] == x);
            } else {
                assert(r[k] == x);
            }
        }
    }
}

/// Handing a token from its owner to anyone keeps owners and lists agreeing
/// both ways with no token listed twice.
pub proof fn law_move_keeps_exact_lists(s: PalletView, from: u64, to: u64, t: Seq<u8>)
    requires
        s.lists_are_exact(),
        s.token_owner.contains_key(t),
        s.token_owner[t] == from,
    ensures
        s.with_moved(from, to, t).lists_are_exact(),
{
    let s2 = s.with_moved(from, to, t);
    let lf = s.owned_tokens(from);
    let lt = s.owned_tokens(to);
    assert(lf.contains(t));
    assert(lf.no_duplicates());
    if from == to {
        let w = choose|w: int| 0 <= w < lf.len() && lf[w] == t;
        assert(lf.push(t)[w] == t);
        lemma_first_index_of(lf.push(t), t);
        let i = first_index_of(lf.push(t), t);
        assert(i <= w);
        assert(swap_remove_first(lf.push(t), t) =~= lf);
        assert(s2.owner_token =~= s.owner_token.insert(from, lf));
        assert forall|a: u64| #[trigger] s2.owned_tokens(a) == s.owned_tokens(a) by {}
        assert(s2.token_owner =~= s.token_owner);
    } else {
        assert(!lt.contains(t));
        let lt2 = lt.push(t);
        assert(lt2[lt.len() as int] == t);
        assert forall|x: Seq<u8>| #[trigger] lt2.contains(x) <==> (lt.contains(x) || x == t) by {
            if lt2.contains(x) {
                let j = choose|j: int| 0 <= j < lt2.len() && lt2[j] == x;
                if j < lt.len() {
                    assert(lt[j] == x);
                }
            }
            if lt.contains(x) {
                let j = choose|j: int| 0 <= j < lt.len() && lt[j] == x;
                assert(lt2[j] == x);
            }
        }
        assert(lt.no_duplicates());
        assert(lt2.no_duplicates()) by {
            assert forall|a: int, b: int|
                0 <= a < lt2.len() && 0 <= b < lt2.len() && a != b implies lt2[a] != lt2[b] by {
                if a < lt.len() && b < lt.len() {
                    assert(lt2[a] == lt[a] && lt2[b] == lt[b]);
                } else if a < lt.len() {
                    assert(lt2[a] == lt[a] && lt2[b] == t);
                    assert(lt.contains(lt[a]));
                } else {
                    assert(lt2[b] == lt[b] && lt2[a] == t);
                    assert(lt.contains(lt[b]));
                }
            }
        }
        lemma_swap_remove_first_distinct(lf, t);
        assert(s2.owned_tokens(to) == lt2);
        assert(s2.owned_tokens(from) == swap_remove_first(lf, t));
        assert forall|a: u64| a != from && a != to implies #[trigger] s2.owned_tokens(a)
            == s.owned_tokens(a) by {}
        assert forall|x: Seq<u8>| #[trigger]
            s2.token_owner.contains_key(x) implies s2.owned_tokens(s2.token_owner[x]).contains(
            x,
        ) by {
            if x != t {
                assert(s.owned_tokens(s.token_owner[x]).contains(x));
            }
        }
        assert forall|a: u64, x: Seq<u8>| #[trigger]
            s2.owned_tokens(a).contains(x) implies s2.token_owner.contains_key(x)
            && s2.token_owner[x] == a by {
            if a == to {
                if x != t {
                    assert(lt.contains(x));
                }
            } else if a == from {
                assert(lf.contains(x));
            } else {
                assert(s.owned_tokens(a).contains(x));
            }
        }
        assert forall|a: u64| #[trigger] s2.owned_tokens(a).no_duplicates() by {
            if a != from && a != to {
                assert(s.owned_tokens(a).no_duplicates());
            }
        }
    }
}

/// Handing a token over through the operation behind the transfer calls
/// keeps owners and lists agreeing both ways with no token listed twice,
/// whether the hand-over succeeds or is refused.
pub proof fn law_transfer_keeps_exact_lists(s: PalletView, from: u64, to: u64, t: Seq<u8>)
    requires
        s.lists_are_exact(),
        s.token_owner.contains_key(t),
    ensures
        (if s.transfer_error(from, t) is None {
            s.with_moved(from, to, t)
        } else {
            s
        }).lists_are_exact(),
{
    if s.transfer_error(from, t) is None {
        law_move_keeps_exact_lists(s, from, to, t);
    }
}

/// Minting a token whose id nobody owns keeps owners and lists agreeing both
/// ways with no token listed twice.
pub proof fn law_fresh_mint_keeps_exact_lists(s: PalletView, owner: u64, id: Seq<u8>)
    requires
        s.lists_are_exact(),
        !s.token_owner.contains_key(id),
    ensures
        s.with_minted(owner, id).lists_are_exact(),
{
    let s2 = s.with_minted(owner, id);
    let l = s.owned_tokens(owner);
    let l2 = l.push(id);
    assert(!l.contains(id));
    assert(l2[l.len() as int] == id);
    assert forall|x: Seq<u8>| #[trigger] l2.contains(x) <==> (l.contains(x) || x == id) by {
        if l2.contains(x) {
            let j = choose|j: int| 0 <= j < l2.len() && l2[j] == x;
            if j < l.len() {
                assert(l[j] == x);
            }
        }
        if l.contains(x) {
            let j = choose|j: int| 0 <= j < l.len() && l[j] == x;
            assert(l2[j] == x);
        }
    }
    assert(l.no_duplicates());
    assert(l2.no_duplicates()) by {
        assert forall|a: int, b: int|
            0 <= a < l2.len() && 0 <= b < l2.len() && a != b implies l2[a] != l2[b] by {
            if a < l.len() && b < l.len() {
                assert(l2[a] == l[a] && l2[b] == l[b]);
            } else if a < l.len() {
                assert(l2[a] == l[a] && l2[b] == id);
                assert(l.contains(l[a]));
            } else {
                assert(l2[b] == l[b] && l2[a] == id);
                assert(l.contains(l[b]));
            }
        }
    }
    assert(s2.owned_tokens(owner) == l2);
    assert forall|x: Seq<u8>| #[trigger]
        s2.token_owner.contains_key(x) implies s2.owned_tokens(s2.token_owner[x]).contains(x) by {
        if x != id {
            assert(s.owned_tokens(s.token_owner[x]).contains(x));
        }
    }
    assert forall|a: u64, x: Seq<u8>| #[trigger]
        s2.owned_tokens(a).contains(x) implies s2.token_owner.contains_key(x) && s2.token_owner[x]
        == a by {
        if a == owner {
            if x != id {
                assert(l.contains(x));
            }
        } else {
            assert(s.owned_tokens(a).contains(x));
        }
    }
    assert forall|a: u64| #[trigger] s2.owned_tokens(a).no_duplicates() by {
        if a != owner {
            assert(s.owned_tokens(a).no_duplicates());
        }
    }
}

/// Every user call keeps owners and lists agreeing both ways with no token
/// listed twice, where a mint's id is one nobody owns.
pub proof fn law_calls_keep_exact_lists(s: PalletView, c: Call)
    requires
        s.lists_are_exact(),
        s.defined(c),
        match c {
            Call::MintTo { random_output, .. } => !s.token_owner.contains_key(random_output),
            _ => true,
        },
    ensures
        s.after(c).lists_are_exact(),
{
    match c {
        Call::MintTo { origin, to, random_output } => {
            assert(!s.token_owner.contains_key(random_output));
            if signer_of(origin) is Some {
                law_fresh_mint_keeps_exact_lists(s, to, random_output);
            }
        },
        Call::TransferToken { origin, to, token_id } => {
            if s.transfer_token_error(origin, token_id) is None {
                law_move_keeps_exact_lists(s, signer_of(origin)->0, to, token_id);
            }
        },
        Call::SafeTransfer { origin, from, to, token_id } => {
            if s.safe_transfer_error(origin, from, token_id) is None {
                law_move_keeps_exact_lists(s, from, to, token_id);
            }
        },
        _ => {
            lemma_exact_lists_from_ownership(s, s.after(c));
        },
    }
}

/// Whether owners and lists agree exactly depends only on the owners and the
/// lists.
proof fn lemma_exact_lists_from_ownership(s1: PalletView, s2: PalletView)
    requires
        s1.token_owner == s2.token_owner,
        s1.owner_token == s2.owner_token,
    ensures
        s1.lists_are_exact() ==> s2.lists_are_exact(),
{
    if s1.lists_are_exact() {
        assert forall|x: Seq<u8>| #[trigger]
            s2.token_owner.contains_key(x) implies s2.owned_tokens(s2.token_owner[x]).contains(
            x,
        ) by {
            assert(s1.token_owner.contains_key(x));
            assert(s1.owned_tokens(s1.token_owner[x]) == s2.owned_tokens(s2.token_owner[x]));
        }
        assert forall|a: u64, x: Seq<u8>| #[trigger]
            s2.owned_tokens(a).contains(x) implies s2.token_owner.contains_key(x)
            && s2.token_owner[x] == a by {
            assert(s1.owned_tokens(a) == s2.owned_tokens(a));
            assert(s1.owned_tokens(a).contains(x));
        }
        assert forall|a: u64| #[trigger] s2.owned_tokens(a).no_duplicates() by {
            assert(s1.owned_tokens(a) == s2.owned_tokens(a));
            assert(s1.owned_tokens(a).no_duplicates());
        }
    }
}

/// The sum over a finite set of keys can start with any key of the set.
pub proof fn lemma_sum_lengths_remove(m: Map<u64, Seq<Seq<u8>>>, keys: Set<u64>, a: u64)
    requires
        keys.finite(),
        keys.contains(a),
    ensures
        sum_lengths(m, keys) == m[a].len() + sum_lengths(m, keys.remove(a)),
    decreases keys.len(),
{
    let c = keys.choose();
    if c != a {
        lemma_sum_lengths_remove(m, keys.remove(c), a);
        lemma_sum_lengths_remove(m, keys.remove(a), c);
        assert(keys.remove(c).remove(a) =~= keys.remove(a).remove(c));
    }
}

/// The sum over a set of keys depends only on the lists under those keys.
pub proof fn lemma_sum_lengths_agree(
    m1: Map<u64, Seq<Seq<u8>>>,
    m2: Map<u64, Seq<Seq<u8>>>,
    keys: Set<u64>,
)
    requires
        keys.finite(),
        forall|k: u64| keys.contains(k) ==> #[trigger] m1[k] == m2[k],
    ensures
        sum_lengths(m1, keys) == sum_lengths(m2, keys),
    decreases keys.len(),
{
    if keys.len() > 0 {
        let c = keys.choose();
        lemma_sum_lengths_agree(m1, m2, keys.remove(c));
    }
}

/// Storing list `l` under `a` changes the sum of all lengths by the change
/// in the length of the list under `a`.
pub proof fn lemma_sum_lengths_insert(m: Map<u64, Seq<Seq<u8>>>, a: u64, l: Seq<Seq<u8>>)
    requires
        m.dom().finite(),
    ensures
        m.insert(a, l).dom().finite(),
        sum_lengths(m.insert(a, l), m.insert(a, l).dom()) == sum_lengths(m, m.dom())
            - list_or_empty(m, a).len() + l.len(),
{
    let m2 = m.insert(a, l);
    if m.dom().contains(a) {
        assert(m2.dom() =~= m.dom());
        lemma_sum_lengths_remove(m2, m.dom(), a);
        lemma_sum_lengths_remove(m, m.dom(), a);
        lemma_sum_lengths_agree(m2, m, m.dom().remove(a));
    } else {
        assert(m2.dom() =~= m.dom().insert(a));
        lemma_sum_lengths_remove(m2, m2.dom(), a);
        assert(m2.dom().remove(a) =~= m.dom());
        lemma_sum_lengths_agree(m2, m, m.dom());
    }
}

/// Minting a token whose id nobody owns keeps the lists exact, keeps the
/// token count equal to the number of owned tokens, and keeps the sum of the
/// lengths of all lists equal to the token count.
pub proof fn law_fresh_mint_is_counted(s: PalletView, owner: u64, id: Seq<u8>)
    requires
        s.lists_are_exact(),
        s.counts_are_finite(),
        s.total_tokens == s.owned_count(),
        s.listed_count() == s.total_tokens,
        s.total_tokens < u32::MAX,
        !s.token_owner.contains_key(id),
    ensures
        s.with_minted(owner, id).lists_are_exact(),
        s.with_minted(owner, id).counts_are_finite(),
        s.with_minted(owner, id).total_tokens == s.with_minted(owner, id).owned_count(),
        s.with_minted(owner, id).listed_count() == s.with_minted(owner, id).total_tokens,
{
    let s2 = s.with_minted(owner, id);
    law_fresh_mint_keeps_exact_lists(s, owner, id);
    assert(s2.token_owner.dom() =~= s.token_owner.dom().insert(id));
    lemma_sum_lengths_insert(s.owner_token, owner, s.owned_tokens(owner).push(id));
}

/// A token that is offered for rent, has an owner and is lent to nobody is
/// rented to any signed account other than its owner, whatever else that
/// account owns: the offer is withdrawn, the renter becomes the token's only
/// borrower, and no owner or list of owned tokens changes.
pub proof fn law_offered_token_is_rented_to_non_owner(s: PalletView, renter: u64, t: Seq<u8>)
    requires
        s.token_for_rent.contains_key(t),
        s.token_for_rent[t],
        s.token_owner.contains_key(t),
        s.token_owner[t] != renter,
        !s.token_approval.contains_key(t) || s.token_approval[t].len() == 0,
    ensures
        s.rent_error(Origin::Signed(renter), t) is None,
        s.after(Call::RentNft { origin: Origin::Signed(renter), token_id: t }).token_for_rent[t]
            == false,
        s.after(Call::RentNft { origin: Origin::Signed(renter), token_id: t }).token_approval[t]
            == seq![renter],
        s.after(Call::RentNft { origin: Origin::Signed(renter), token_id: t }).token_owner
            == s.token_owner,
        s.after(Call::RentNft { origin: Origin::Signed(renter), token_id: t }).owner_token
            == s.owner_token,
{
    assert(s.approvals_of(t) =~= Seq::<u64>::empty());
    assert(Seq::<u64>::empty().push(renter) =~= seq![renter]);
}

/// The owner of a token that is lent to nobody may always hand it over,
/// whether or not it is offered for rent: afterwards the receiver owns it and
/// lists it last, and nothing but ownership and the two lists changes.
pub proof fn law_owner_hands_over_unlent_token(s: PalletView, owner: u64, to: u64, t: Seq<u8>)
    requires
        s.token_owner.contains_key(t),
        s.token_owner[t] == owner,
        !s.token_approval.contains_key(t) || s.token_approval[t].len() == 0,
    ensures
        s.transfer_token_error(Origin::Signed(owner), t) is None,
        s.after(Call::TransferToken { origin: Origin::Signed(owner), to, token_id: t }).token_owner
            == s.token_owner.insert(t, to),
        s.after(
            Call::TransferToken { origin: Origin::Signed(owner), to, token_id: t },
        ).token_for_rent == s.token_for_rent,
        s.after(
            Call::TransferToken { origin: Origin::Signed(owner), to, token_id: t },
        ).token_approval == s.token_approval,
        owner != to ==> s.after(
            Call::TransferToken { origin: Origin::Signed(owner), to, token_id: t },
        ).owner_token[to] == list_or_empty(s.owner_token, to).push(t),
{
    assert(s.approvals_of(t).len() == 0);
}

/// The owner of a token that is lent to nobody may always set its rent
/// offer, also when the token is offered already: afterwards it is offered
/// for exactly the given time and price.
pub proof fn law_owner_sets_offer_of_unlent_token(
    s: PalletView,
    owner: u64,
    t: Seq<u8>,
    time: u128,
    price: u128,
)
    requires
        s.token_owner.contains_key(t),
        s.token_owner[t] == owner,
        !s.token_approval.contains_key(t) || s.token_approval[t].len() == 0,
    ensures
        s.rent_info_error(Origin::Signed(owner), t) is None,
        s.after(
            Call::SetTokenRentInfo { origin: Origin::Signed(owner), token_id: t, time, price },
        ).token_for_rent[t],
        s.after(
            Call::SetTokenRentInfo { origin: Origin::Signed(owner), token_id: t, time, price },
        ).renting_time[t] == time,
        s.after(
            Call::SetTokenRentInfo { origin: Origin::Signed(owner), token_id: t, time, price },
        ).renting_price[t] == price,
        s.after(
            Call::SetTokenRentInfo { origin: Origin::Signed(owner), token_id: t, time, price },
        ).token_owner == s.token_owner,
{
    assert(s.approvals_of(t).len() == 0);
}

/// Letting `to` operate for `from` writes that one entry and keeps every
/// other operator entry as it was, so earlier grants, of `from` or anyone
/// else, stay in force.
pub proof fn law_operator_grant_keeps_other_grants(s: PalletView, from: u64, to: u64)
    ensures
        s.with_operator(from, to).approval.contains_key((from, to)),
        s.with_operator(from, to).approval[(from, to)],
        forall|k: (u64, u64)|
            k != (from, to) ==> (#[trigger] s.with_operator(from, to).approval.contains_key(k)
                == s.approval.contains_key(k)),
        forall|k: (u64, u64)|
            k != (from, to) && s.approval.contains_key(k) ==> #[trigger] s.with_operator(
                from,
                to,
            ).approval[k] == s.approval[k],
        s.after(Call::ApproveForAll { origin: Origin::Signed(from), account: to }).approval
            == s.approval.insert((from, to), true),
{
}

/// An account rents a token exactly when it is in the list of accounts the
/// token is lent to; owning the token does not make one its renter.
pub proof fn law_renter_is_listed_borrower(s: PalletView, who: u64, t: Seq<u8>)
    ensures
        s.is_renter(who, t) <==> (s.token_approval.contains_key(t) && exists|i: int|
            0 <= i < s.token_approval[t].len() && s.token_approval[t][i] == who),
        s.token_owner.contains_key(t) && s.token_owner[t] == who && (
        !s.token_approval.contains_key(t) || !s.token_approval[t].contains(who))
            ==> !s.is_renter(who, t),
{
}

/// The owner of a token that is lent to nobody may always lend it: afterwards
/// the borrower is its only borrower and its owner is unchanged.
pub proof fn law_owner_lends_unlent_token(s: PalletView, owner: u64, to: u64, t: Seq<u8>)
    requires
        s.token_owner.contains_key(t),
        s.token_owner[t] == owner,
        !s.token_approval.contains_key(t) || s.token_approval[t].len() == 0,
    ensures
        s.approve_call_error(Origin::Signed(owner), t) is None,
        s.after(Call::Approve { origin: Origin::Signed(owner), to, token_id: t }).token_approval[t]
            == seq![to],
        s.after(Call::Approve { origin: Origin::Signed(owner), to, token_id: t }).token_owner
            == s.token_owner,
        s.after(Call::Approve { origin: Origin::Signed(owner), to, token_id: t }).token_for_rent
            == s.token_for_rent,
{
    assert(s.approvals_of(t) =~= Seq::<u64>::empty());
    assert(Seq::<u64>::empty().push(to) =~= seq![to]);
}

/// The owner of a token may always set its URI, renting price and renting
/// time, lent or not; each writes exactly its own entry.
pub proof fn law_owner_sets_token_details(
    s: PalletView,
    owner: u64,
    t: Seq<u8>,
    uri: Seq<u8>,
    price: u128,
    time: u128,
)
    requires
        s.token_owner.contains_key(t),
        s.token_owner[t] == owner,
    ensures
        s.owner_call_error(Origin::Signed(owner), t) is None,
        s.after(
            Call::SetTokenUri { origin: Origin::Signed(owner), token_id: t, token_uri: uri },
        ).token_uri == s.token_uri.insert(t, uri),
        s.after(
            Call::SetTokenRentingPrice { origin: Origin::Signed(owner), token_id: t, price },
        ).renting_price == s.renting_price.insert(t, price),
        s.after(
            Call::SetTokenRentingTime { origin: Origin::Signed(owner), token_id: t, time },
        ).renting_time == s.renting_time.insert(t, time),
{
}

/// A signed mint always succeeds: the new token is owned by the receiver,
/// listed last for it, and counted.
pub proof fn law_signed_mint_records_token(s: PalletView, who: u64, to: u64, id: Seq<u8>)
    requires
        s.total_tokens < u32::MAX,
    ensures
        s.after(Call::MintTo { origin: Origin::Signed(who), to, random_output: id }).token_owner
            == s.token_owner.insert(id, to),
        s.after(
            Call::MintTo { origin: Origin::Signed(who), to, random_output: id },
        ).owner_token[to] == list_or_empty(s.owner_token, to).push(id),
        s.after(
            Call::MintTo { origin: Origin::Signed(who), to, random_output: id },
        ).total_tokens == s.total_tokens + 1,
{
}

/// A token is lent out exactly when its list of borrowers is recorded and
/// not empty.
pub proof fn law_borrowed_means_listed_borrower(s: PalletView, t: Seq<u8>)
    ensures
        s.is_borrowed(t) <==> (s.token_approval.contains_key(t) && s.token_approval[t].len() > 0),
        s.is_borrowed(t) <==> exists|who: u64| s.is_renter(who, t),
{
    if s.is_borrowed(t) {
        assert(s.is_renter(s.approvals_of(t)[0], t));
    }
}

} // verus!
