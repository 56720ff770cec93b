//! A non-fungible token registry with renting, verified with Verus.
//!
//! The registry keeps, per token id, its owner, URI, renting price, renting
//! time, whether it is offered for rent, and the accounts it is lent to; per
//! account, the tokens it owns; per pair of accounts, whether the second one
//! operates for the first one.
pub mod encode;
pub mod laws;
pub mod model;
pub mod nft;
pub mod pallet;
pub mod table;
pub mod types;

pub use nft::NonFungibleToken;
pub use pallet::Pallet;
pub use table::{AccountPair, Table, TableKey};
pub use types::{ensure_signed, DispatchError, Error, Event, FeeTransfer, Origin, Rental, TokenList};
