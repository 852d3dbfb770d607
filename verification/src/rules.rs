//! The rules of the registry, claim by claim.
//!
//! Each claim has a slot that is empty or holds a [`Registration`]. A rule
//! looks at the slot and at the call, and either refuses with an [`Error`] or
//! answers with the slot's new content and the event to announce. Nothing
//! here touches a store: whoever keeps the slots reads one, asks the rule, and
//! writes back what it answers.

use crate::types::{AccountId, BlockNumber, Error, Event, EventView, Outcome, OutcomeView, Registration};
use vstd::prelude::*;

verus! {

/// Creating a claim of `claim.len()` bytes in a slot that holds `entry`.
///
/// The length is judged first, then the slot: a claim longer than
/// `claim_size` is too big whether or not it exists.
pub open spec fn create_rule(
    entry: Option<Registration>,
    sender: AccountId,
    claim: Seq<u8>,
    claim_size: nat,
    current_block: BlockNumber,
) -> Result<OutcomeView, Error> {
    if claim.len() > claim_size {
        Err(Error::ClaimSizeTooBig)
    } else if entry is Some {
        Err(Error::ProofAlreadyExist)
    } else {
        Ok(
            OutcomeView {
                entry: Some(Registration { owner: sender, registered_at: current_block }),
                event: EventView::ClaimCreated(sender, claim),
            },
        )
    }
}

/// Revoking the claim whose slot holds `entry`.
pub open spec fn revoke_rule(entry: Option<Registration>, sender: AccountId, claim: Seq<u8>) -> Result<
    OutcomeView,
    Error,
> {
    match entry {
        None => Err(Error::ClaimNotExist),
        Some(registration) => if registration.owner != sender {
            Err(Error::NotProofOwner)
        } else {
            Ok(OutcomeView { entry: None, event: EventView::ClaimRevoked(sender, claim) })
        },
    }
}

/// Handing the claim whose slot holds `entry` to `receiver`.
///
/// The receiver may be the sender: the claim then stays where it is and only
/// its block is refreshed.
pub open spec fn transfer_rule(
    entry: Option<Registration>,
    sender: AccountId,
    claim: Seq<u8>,
    receiver: AccountId,
    current_block: BlockNumber,
) -> Result<OutcomeView, Error> {
    match entry {
        None => Err(Error::ClaimNotExist),
        Some(registration) => if registration.owner != sender {
            Err(Error::NotProofOwner)
        } else {
            Ok(
                OutcomeView {
                    entry: Some(Registration { owner: receiver, registered_at: current_block }),
                    event: EventView::ClaimTransferred(registration.owner, claim, receiver),
                },
            )
        },
    }
}

/// Whether `got` is what `rule` asks for.
pub open spec fn answers(got: Result<Outcome, Error>, rule: Result<OutcomeView, Error>) -> bool {
    match got {
        Ok(outcome) => rule == Ok::<OutcomeView, Error>(outcome@),
        Err(error) => rule == Err::<OutcomeView, Error>(error),
    }
}

/// Decides a call to create `claim` for `sender` at `current_block`, given
/// the content `entry` of the claim's slot and the length limit `claim_size`.
pub fn create(
    entry: Option<Registration>,
    sender: AccountId,
    claim: Vec<u8>,
    claim_size: usize,
    current_block: BlockNumber,
) -> (r: Result<Outcome, Error>)
    ensures
        answers(r, create_rule(entry, sender, claim@, claim_size as nat, current_block)),
{
    if claim.len() > claim_size {
        return Err(Error::ClaimSizeTooBig);
    }
    if entry.is_some() {
        return Err(Error::ProofAlreadyExist);
    }
    Ok(
        Outcome {
            entry: Some(Registration { owner: sender, registered_at: current_block }),
            event: Event::ClaimCreated(sender, claim),
        },
    )
}

/// Decides a call by `sender` to revoke `claim`, given the content `entry` of
/// the claim's slot.
pub fn revoke(entry: Option<Registration>, sender: AccountId, claim: Vec<u8>) -> (r: Result<
    Outcome,
    Error,
>)
    ensures
        answers(r, revoke_rule(entry, sender, claim@)),
{
    match entry {
        None => Err(Error::ClaimNotExist),
        Some(registration) => {
            if registration.owner != sender {
                return Err(Error::NotProofOwner);
            }
            Ok(Outcome { entry: None, event: Event::ClaimRevoked(sender, claim) })
        },
    }
}

/// Decides a call by `sender` to hand `claim` to `receiver` at
/// `current_block`, given the content `entry` of the claim's slot.
pub fn transfer(
    entry: Option<Registration>,
    sender: AccountId,
    claim: Vec<u8>,
    receiver: AccountId,
    current_block: BlockNumber,
) -> (r: Result<Outcome, Error>)
    ensures
        answers(r, transfer_rule(entry, sender, claim@, receiver, current_block)),
{
    match entry {
        None => Err(Error::ClaimNotExist),
        Some(registration) => {
            if registration.owner != sender {
                return Err(Error::NotProofOwner);
            }
            Ok(
                Outcome {
                    entry: Some(Registration { owner: receiver, registered_at: current_block }),
                    event: Event::ClaimTransferred(registration.owner, claim, receiver),
                },
            )
        },
    }
}

} // verus!
