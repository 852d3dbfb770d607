//! A proof-of-existence registry: who holds which claim, and since when.
//!
//! A claim is an opaque byte string. The registry records, for every claim
//! that exists, the account that owns it and the block at which it was last
//! assigned. Claims are created, revoked and transferred; every operation is
//! all-or-nothing and answers with the event to announce or with the reason
//! for refusing.

pub mod laws;
pub mod model;
pub mod pallet;
pub mod rules;
pub mod types;

pub use pallet::Pallet;
pub use types::{
    AccountId, BlockNumber, Config, Error, Event, EventView, Outcome, OutcomeView, Registration,
};
