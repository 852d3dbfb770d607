//! The values the registry stores, takes and answers with.

use vstd::prelude::*;

verus! {

/// The identity of a party, as resolved by the host before a call arrives.
pub type AccountId = u64;

/// A logical time stamp: the height of the block in which a call is made.
pub type BlockNumber = u64;

/// What the registry knows about a claim that exists.
#[derive(Clone, Copy, Debug, PartialEq, Eq, Structural)]
pub struct Registration {
    /// The account that may revoke or transfer the claim.
    pub owner: AccountId,
    /// The block of the creation or of the latest transfer.
    pub registered_at: BlockNumber,
}

/// Why an operation was refused. A refused operation changes nothing.
#[derive(Clone, Copy, Debug, PartialEq, Eq, Structural)]
pub enum Error {
    /// The claim to create is already registered.
    ProofAlreadyExist,
    /// The claim to revoke or transfer is not registered.
    ClaimNotExist,
    /// The caller does not own the claim.
    NotProofOwner,
    /// The claim to create is longer than the configured limit.
    ClaimSizeTooBig,
}

/// The announcement that goes with a successful operation.
#[derive(Clone, Debug, PartialEq, Eq)]
pub enum Event {
    /// `ClaimCreated(owner, claim)`
    ClaimCreated(AccountId, Vec<u8>),
    /// `ClaimRevoked(owner, claim)`
    ClaimRevoked(AccountId, Vec<u8>),
    /// `ClaimTransferred(previous owner, claim, new owner)`
    ClaimTransferred(AccountId, Vec<u8>, AccountId),
}

/// An [`Event`] with its claim as a sequence of bytes.
pub enum EventView {
    ClaimCreated(AccountId, Seq<u8>),
    ClaimRevoked(AccountId, Seq<u8>),
    ClaimTransferred(AccountId, Seq<u8>, AccountId),
}

impl View for Event {
    type V = EventView;

    open spec fn view(&self) -> EventView {
        match *self {
            Event::ClaimCreated(who, claim) => EventView::ClaimCreated(who, claim@),
            Event::ClaimRevoked(who, claim) => EventView::ClaimRevoked(who, claim@),
            Event::ClaimTransferred(from, claim, to) => EventView::ClaimTransferred(
                from,
                claim@,
                to,
            ),
        }
    }
}

impl Event {
    /// The claim that the event is about.
    pub open spec fn spec_claim(&self) -> Seq<u8> {
        match *self {
            Event::ClaimCreated(_, claim) => claim@,
            Event::ClaimRevoked(_, claim) => claim@,
            Event::ClaimTransferred(_, claim, _) => claim@,
        }
    }

    /// The claim that the event is about.
    pub fn claim(&self) -> (claim: &Vec<u8>)
        ensures
            claim@ == self.spec_claim(),
    {
        match self {
            Event::ClaimCreated(_, claim) => claim,
            Event::ClaimRevoked(_, claim) => claim,
            Event::ClaimTransferred(_, claim, _) => claim,
        }
    }
}

/// What a successful operation asks for: the new content of the claim's
/// slot (`None` empties it) and the event to announce.
#[derive(Clone, Debug, PartialEq, Eq)]
pub struct Outcome {
    pub entry: Option<Registration>,
    pub event: Event,
}

/// An [`Outcome`] with its event as an [`EventView`].
pub struct OutcomeView {
    pub entry: Option<Registration>,
    pub event: EventView,
}

impl View for Outcome {
    type V = OutcomeView;

    open spec fn view(&self) -> OutcomeView {
        OutcomeView { entry: self.entry, event: self.event@ }
    }
}

/// The parameters a deployment fixes.
#[derive(Clone, Copy, Debug, PartialEq, Eq, Structural)]
pub struct Config {
    /// The greatest length, in bytes, that a new claim may have. With a
    /// limit of zero only the empty claim can be created.
    pub claim_size: usize,
}

} // verus!
