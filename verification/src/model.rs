//! The registry as a mathematical map, and what calls do to it.
//!
//! The contracts of [`crate::pallet::Pallet`] are stated over these
//! functions, and so are the laws in [`crate::laws`].

use crate::rules::{create_rule, revoke_rule, transfer_rule};
use crate::types::{AccountId, BlockNumber, Error, OutcomeView, Registration};
use vstd::prelude::*;

verus! {

/// The content of a registry: the claims that exist, each with its
/// registration. A claim that is not a key does not exist.
pub type Proofs = Map<Seq<u8>, Registration>;

/// The slot of `claim`: its registration, or `None` where it does not exist.
pub open spec fn lookup(proofs: Proofs, claim: Seq<u8>) -> Option<Registration> {
    if proofs.contains_key(claim) {
        Some(proofs[claim])
    } else {
        None
    }
}

/// `proofs` with the slot of `claim` set to `entry`; every other slot is as
/// it was.
pub open spec fn store(proofs: Proofs, claim: Seq<u8>, entry: Option<Registration>) -> Proofs {
    match entry {
        Some(registration) => proofs.insert(claim, registration),
        None => proofs.remove(claim),
    }
}

/// Whether every claim that exists is at most `claim_size` bytes long.
pub open spec fn within_limit(proofs: Proofs, claim_size: nat) -> bool {
    forall|claim: Seq<u8>| #[trigger] proofs.contains_key(claim) ==> claim.len() <= claim_size
}

/// A call to the registry, with the caller and the block it is made in.
pub enum Call {
    CreateClaim { sender: AccountId, claim: Seq<u8>, current_block: BlockNumber },
    RevokeClaim { sender: AccountId, claim: Seq<u8> },
    TransferClaim {
        sender: AccountId,
        claim: Seq<u8>,
        receiver: AccountId,
        current_block: BlockNumber,
    },
}

impl Call {
    /// The claim that the call is about.
    pub open spec fn claim(self) -> Seq<u8> {
        match self {
            Call::CreateClaim { claim, .. } => claim,
            Call::RevokeClaim { claim, .. } => claim,
            Call::TransferClaim { claim, .. } => claim,
        }
    }
}

/// What a registry that holds `proofs` and limits claims to `claim_size`
/// bytes answers to `call`.
pub open spec fn decide(proofs: Proofs, claim_size: nat, call: Call) -> Result<OutcomeView, Error> {
    match call {
        Call::CreateClaim { sender, claim, current_block } => create_rule(
            lookup(proofs, claim),
            sender,
            claim,
            claim_size,
            current_block,
        ),
        Call::RevokeClaim { sender, claim } => revoke_rule(lookup(proofs, claim), sender, claim),
        Call::TransferClaim { sender, claim, receiver, current_block } => transfer_rule(
            lookup(proofs, claim),
            sender,
            claim,
            receiver,
            current_block,
        ),
    }
}

/// What the registry holds after `call`: a call that succeeds replaces the
/// slot of its claim, a call that is refused changes nothing.
pub open spec fn apply(proofs: Proofs, claim_size: nat, call: Call) -> Proofs {
    match decide(proofs, claim_size, call) {
        Ok(outcome) => store(proofs, call.claim(), outcome.entry),
        Err(_) => proofs,
    }
}

/// What the registry holds after `calls`, made one after the other.
pub open spec fn run(proofs: Proofs, claim_size: nat, calls: Seq<Call>) -> Proofs
    decreases calls.len(),
{
    if calls.len() == 0 {
        proofs
    } else {
        apply(run(proofs, claim_size, calls.drop_last()), claim_size, calls.last())
    }
}

} // verus!
