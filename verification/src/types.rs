//! Origins, errors, events and the list of tokens an account owns.
use vstd::prelude::*;

verus! {

/// Where a call comes from.
#[derive(Clone, Copy, Debug, PartialEq, Eq)]
pub enum Origin {
    Root,
    Signed(u64),
    Unsigned,
}

/// The account that signed `origin`, if one did.
pub open spec fn signer_of(origin: Origin) -> Option<u64> {
    match origin {
        Origin::Signed(who) => Some(who),
        _ => None,
    }
}

/// The signing account of `origin`; any other origin is refused.
pub fn ensure_signed(origin: Origin) -> (r: Result<u64, DispatchError>)
    ensures
        r == match signer_of(origin) {
            Some(who) => Ok::<u64, DispatchError>(who),
            None => Err(DispatchError::BadOrigin),
        },
{
    match origin {
        Origin::Signed(who) => Ok(who),
        _ => Err(DispatchError::BadOrigin),
    }
}

/// The registry's own errors.
#[derive(Clone, Copy, Debug, PartialEq, Eq)]
pub enum Error {
    NoneValue,
    StorageOverflow,
    Invalid,
    NotOwner,
    NoneExist,
    NotOwnerNorOperator,
    NotEnoughBalance,
    NotForRent,
    IsBorrowed,
}

/// Why a call failed.
#[derive(Clone, Copy, Debug, PartialEq, Eq)]
pub enum DispatchError {
    /// The call was not signed.
    BadOrigin,
    /// One of the registry's errors.
    Module(Error),
    /// A refusal that carries only a message.
    Other(&'static str),
}

/// What a successful call deposits as events.
#[derive(Debug, PartialEq, Eq)]
pub enum Event {
    Mint(u64, Vec<u8>),
    Transfer(u64, u64, Vec<u8>),
    Approve(u64, u64, Vec<u8>),
    ApproveForAll(u64, u64),
    PayRentingFee(u64, u64, u128),
}

pub enum EventView {
    Mint(u64, Seq<u8>),
    Transfer(u64, u64, Seq<u8>),
    Approve(u64, u64, Seq<u8>),
    ApproveForAll(u64, u64),
    PayRentingFee(u64, u64, u128),
}

impl View for Event {
    type V = EventView;

    open spec fn view(&self) -> EventView {
        match self {
            Event::Mint(who, id) => EventView::Mint(*who, id@),
            Event::Transfer(from, to, id) => EventView::Transfer(*from, *to, id@),
            Event::Approve(from, to, id) => EventView::Approve(*from, *to, id@),
            Event::ApproveForAll(from, to) => EventView::ApproveForAll(*from, *to),
            Event::PayRentingFee(from, to, price) => EventView::PayRentingFee(*from, *to, *price),
        }
    }
}

/// The views of a list of events.
pub open spec fn events_view(events: Seq<Event>) -> Seq<EventView> {
    events.map_values(|e: Event| e@)
}

/// A payment that the host is asked to make: `amount` from `from` to `to`.
#[derive(Clone, Copy, Debug, PartialEq, Eq)]
pub struct FeeTransfer {
    pub from: u64,
    pub to: u64,
    pub amount: u128,
}

/// What a successful rental hands back: the events to deposit, and the
/// renting fee the host is asked to move, where the renter's free balance
/// covers it.
#[derive(Debug, PartialEq, Eq)]
pub struct Rental {
    pub events: Vec<Event>,
    pub fee: Option<FeeTransfer>,
}

/// A copy of a byte string.
pub fn copy_bytes(v: &Vec<u8>) -> (r: Vec<u8>)
    ensures
        r@ == v@,
{
    let r = v.clone();
    assert(r@ =~= v@);
    r
}

/// The index of the first occurrence of `t` in `s` (where `s` contains it).
pub open spec fn first_index_of(s: Seq<Seq<u8>>, t: Seq<u8>) -> int {
    choose|i: int| 0 <= i < s.len() && s[i] == t && forall|j: int| 0 <= j < i ==> s[j] != t
}

/// `s` with the first occurrence of `t` replaced by its last element, and its
/// last element dropped; `s` itself where `t` does not occur.
pub open spec fn swap_remove_first(s: Seq<Seq<u8>>, t: Seq<u8>) -> Seq<Seq<u8>> {
    if s.contains(t) {
        s.update(first_index_of(s, t), s.last()).drop_last()
    } else {
        s
    }
}

/// The tokens an account owns, in the order they were recorded.
pub struct TokenList {
    ids: Vec<Vec<u8>>,
}

impl View for TokenList {
    type V = Seq<Seq<u8>>;

    closed spec fn view(&self) -> Seq<Seq<u8>> {
        self.ids@.map_values(|t: Vec<u8>| t@)
    }
}

impl TokenList {
    pub fn new() -> (l: Self)
        ensures
            l@ == Seq::<Seq<u8>>::empty(),
    {
        let l = TokenList { ids: Vec::new() };
        assert(l@ =~= Seq::<Seq<u8>>::empty());
        l
    }

    pub fn len(&self) -> (n: usize)
        ensures
            n == self@.len(),
    {
        self.ids.len()
    }

    pub fn push(&mut self, t: Vec<u8>)
        ensures
            final(self)@ == old(self)@.push(t@),
    {
        self.ids.push(t);
        assert(self@ =~= old(self)@.push(t@));
    }

    /// Takes out the first occurrence of `t`, moving the last token into its
    /// place; says whether there was one.
    pub fn remove_first(&mut self, t: &Vec<u8>) -> (found: bool)
        ensures
            found == old(self)@.contains(t@),
            final(self)@ == swap_remove_first(old(self)@, t@),
    {
        let ghost s = self@;
        let mut i: usize = 0;
        while i < self.ids.len()
            invariant
                s == self@,
                s == old(self)@,
                i <= self.ids@.len(),
                forall|j: int| 0 <= j < i ==> s[j] != t@,
            decreases self.ids@.len() - i,
        {
            if crate::table::bytes_equal(&self.ids[i], t) {
                proof {
                    assert(s[i as int] == t@);
                    assert(s.contains(t@));
                    let k = first_index_of(s, t@);
                    assert(k == i) by {
                        if k < i {
                            assert(s[k] != t@);
                        }
                        if k > i {
                            assert(s[i as int] != t@);
                        }
                    }
                }
                self.ids.swap_remove(i);
                assert(self@ =~= s.update(i as int, s.last()).drop_last());
                return true;
            }
            i = i + 1;
        }
        assert(!s.contains(t@));
        false
    }

    /// The tokens, as byte strings.
    pub fn to_vec(&self) -> (v: Vec<Vec<u8>>)
        ensures
            v@.map_values(|t: Vec<u8>| t@) == self@,
    {
        let mut v: Vec<Vec<u8>> = Vec::new();
        let mut i: usize = 0;
        while i < self.ids.len()
            invariant
                i <= self.ids@.len(),
                v@.len() == i,
                forall|j: int| 0 <= j < i ==> (#[trigger] v@[j])@ == self.ids@[j]@,
            decreases self.ids@.len() - i,
        {
            v.push(copy_bytes(&self.ids[i]));
            i = i + 1;
        }
        assert(v@.map_values(|t: Vec<u8>| t@) =~= self@);
        v
    }
}

} // verus!
