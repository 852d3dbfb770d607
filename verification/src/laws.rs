//! What holds of the registry whatever it holds and whatever it is asked.
//!
//! Every statement is about [`decide`], [`apply`] and [`run`], the functions
//! in which the contracts of [`crate::pallet::Pallet`] are written, so each
//! holds of the registry as it runs.

use crate::model::{apply, decide, lookup, run, within_limit, Call, Proofs};
use crate::types::{AccountId, BlockNumber, Error, OutcomeView, Registration};
use vstd::prelude::*;

verus! {

/// Whether `call`, made when the registry holds `proofs`, creates `claim`.
pub open spec fn creates(proofs: Proofs, claim_size: nat, call: Call, claim: Seq<u8>) -> bool {
    call is CreateClaim && call.claim() == claim && decide(proofs, claim_size, call) is Ok
}

/// Whether `call`, made when the registry holds `proofs`, revokes `claim`.
pub open spec fn revokes(proofs: Proofs, claim_size: nat, call: Call, claim: Seq<u8>) -> bool {
    call is RevokeClaim && call.claim() == claim && decide(proofs, claim_size, call) is Ok
}

/// Whether none of `calls`, made one after the other from `proofs` on,
/// creates `claim`.
pub open spec fn never_created(
    proofs: Proofs,
    claim_size: nat,
    calls: Seq<Call>,
    claim: Seq<u8>,
) -> bool {
    forall|i: int|
        0 <= i < calls.len() ==> !creates(
            run(proofs, claim_size, #[trigger] calls.take(i)),
            claim_size,
            calls[i],
            claim,
        )
}

/// Whether none of `calls`, made one after the other from `proofs` on,
/// revokes `claim`.
pub open spec fn never_revoked(
    proofs: Proofs,
    claim_size: nat,
    calls: Seq<Call>,
    claim: Seq<u8>,
) -> bool {
    forall|i: int|
        0 <= i < calls.len() ==> !revokes(
            run(proofs, claim_size, #[trigger] calls.take(i)),
            claim_size,
            calls[i],
            claim,
        )
}

/// A call that is refused changes nothing: every lookup answers afterwards
/// what it answered before.
pub proof fn refused_call_changes_nothing(proofs: Proofs, claim_size: nat, call: Call)
    requires
        decide(proofs, claim_size, call) is Err,
    ensures
        apply(proofs, claim_size, call) == proofs,
        forall|claim: Seq<u8>|
            lookup(apply(proofs, claim_size, call), claim) == lookup(proofs, claim),
{
}

/// A call, refused or not, leaves every claim but its own as it was.
pub proof fn call_touches_only_its_claim(
    proofs: Proofs,
    claim_size: nat,
    call: Call,
    other: Seq<u8>,
)
    requires
        other != call.claim(),
    ensures
        lookup(apply(proofs, claim_size, call), other) == lookup(proofs, other),
{
}

/// A claim exists from its creation until it is revoked: whatever else is
/// asked of the registry meanwhile, the claim stays.
pub proof fn claim_exists_until_revoked(
    proofs: Proofs,
    claim_size: nat,
    calls: Seq<Call>,
    claim: Seq<u8>,
)
    requires
        proofs.contains_key(claim),
        never_revoked(proofs, claim_size, calls, claim),
    ensures
        run(proofs, claim_size, calls).contains_key(claim),
    decreases calls.len(),
{
    if calls.len() > 0 {
        let earlier = calls.drop_last();
        assert forall|i: int| 0 <= i < earlier.len() implies !revokes(
            run(proofs, claim_size, #[trigger] earlier.take(i)),
            claim_size,
            earlier[i],
            claim,
        ) by {
            assert(earlier.take(i) == calls.take(i));
        }
        claim_exists_until_revoked(proofs, claim_size, earlier, claim);
        assert(calls.take(calls.len() - 1) == earlier);
        assert(!revokes(run(proofs, claim_size, earlier), claim_size, calls.last(), claim));
    }
}

/// A claim that does not exist stays away until it is created: whatever
/// else is asked of the registry meanwhile, no lookup finds it.
pub proof fn claim_is_absent_until_created(
    proofs: Proofs,
    claim_size: nat,
    calls: Seq<Call>,
    claim: Seq<u8>,
)
    requires
        !proofs.contains_key(claim),
        never_created(proofs, claim_size, calls, claim),
    ensures
        !run(proofs, claim_size, calls).contains_key(claim),
    decreases calls.len(),
{
    if calls.len() > 0 {
        let earlier = calls.drop_last();
        assert forall|i: int| 0 <= i < earlier.len() implies !creates(
            run(proofs, claim_size, #[trigger] earlier.take(i)),
            claim_size,
            earlier[i],
            claim,
        ) by {
            assert(earlier.take(i) == calls.take(i));
        }
        claim_is_absent_until_created(proofs, claim_size, earlier, claim);
        assert(calls.take(calls.len() - 1) == earlier);
        assert(!creates(run(proofs, claim_size, earlier), claim_size, calls.last(), claim));
    }
}

/// No call puts a claim into the registry that is longer than the limit.
pub proof fn claims_stay_within_limit(proofs: Proofs, claim_size: nat, call: Call)
    requires
        within_limit(proofs, claim_size),
    ensures
        within_limit(apply(proofs, claim_size, call), claim_size),
{
}

/// Once a claim has been created, every further attempt to create it, by
/// whomever and whenever, is refused with [`Error::ProofAlreadyExist`], for
/// as long as the claim is not revoked.
pub proof fn created_claim_cannot_be_created_again(
    proofs: Proofs,
    claim_size: nat,
    sender: AccountId,
    claim: Seq<u8>,
    current_block: BlockNumber,
    calls: Seq<Call>,
    other_sender: AccountId,
    later_block: BlockNumber,
)
    requires
        decide(proofs, claim_size, (Call::CreateClaim { sender, claim, current_block })) is Ok,
        never_revoked(
            apply(proofs, claim_size, (Call::CreateClaim { sender, claim, current_block })),
            claim_size,
            calls,
            claim,
        ),
    ensures
        decide(
            run(
                apply(proofs, claim_size, (Call::CreateClaim { sender, claim, current_block })),
                claim_size,
                calls,
            ),
            claim_size,
            (Call::CreateClaim { sender: other_sender, claim, current_block: later_block }),
        ) == Err::<OutcomeView, Error>(Error::ProofAlreadyExist),
{
    let created = apply(proofs, claim_size, (Call::CreateClaim { sender, claim, current_block }));
    claim_exists_until_revoked(created, claim_size, calls, claim);
}

/// The owner of a claim may revoke it and may transfer it to anyone;
/// whoever else tries either is refused with [`Error::NotProofOwner`].
pub proof fn only_the_owner_may_revoke_or_transfer(
    proofs: Proofs,
    claim_size: nat,
    claim: Seq<u8>,
    sender: AccountId,
    receiver: AccountId,
    current_block: BlockNumber,
)
    requires
        proofs.contains_key(claim),
    ensures
        sender == proofs[claim].owner ==> {
            &&& decide(proofs, claim_size, (Call::RevokeClaim { sender, claim })) is Ok
            &&& decide(
                proofs,
                claim_size,
                (Call::TransferClaim { sender, claim, receiver, current_block }),
            ) is Ok
        },
        sender != proofs[claim].owner ==> {
            &&& decide(proofs, claim_size, (Call::RevokeClaim { sender, claim })) == Err::<
                OutcomeView,
                Error,
            >(Error::NotProofOwner)
            &&& decide(
                proofs,
                claim_size,
                (Call::TransferClaim { sender, claim, receiver, current_block }),
            ) == Err::<OutcomeView, Error>(Error::NotProofOwner)
        },
{
}

/// A claim that does not exist can be neither revoked nor transferred;
/// both are refused with [`Error::ClaimNotExist`].
pub proof fn absent_claim_is_not_found(
    proofs: Proofs,
    claim_size: nat,
    claim: Seq<u8>,
    sender: AccountId,
    receiver: AccountId,
    current_block: BlockNumber,
)
    requires
        !proofs.contains_key(claim),
    ensures
        decide(proofs, claim_size, (Call::RevokeClaim { sender, claim })) == Err::<
            OutcomeView,
            Error,
        >(Error::ClaimNotExist),
        decide(
            proofs,
            claim_size,
            (Call::TransferClaim { sender, claim, receiver, current_block }),
        ) == Err::<OutcomeView, Error>(Error::ClaimNotExist),
{
}

/// A claim that was never created is not found: in a registry that started
/// empty, revoking or transferring it is refused with
/// [`Error::ClaimNotExist`].
pub proof fn never_created_claim_is_not_found(
    claim_size: nat,
    calls: Seq<Call>,
    claim: Seq<u8>,
    sender: AccountId,
    receiver: AccountId,
    current_block: BlockNumber,
)
    requires
        never_created(Proofs::empty(), claim_size, calls, claim),
    ensures
        decide(
            run(Proofs::empty(), claim_size, calls),
            claim_size,
            (Call::RevokeClaim { sender, claim }),
        ) == Err::<OutcomeView, Error>(Error::ClaimNotExist),
        decide(
            run(Proofs::empty(), claim_size, calls),
            claim_size,
            (Call::TransferClaim { sender, claim, receiver, current_block }),
        ) == Err::<OutcomeView, Error>(Error::ClaimNotExist),
{
    claim_is_absent_until_created(Proofs::empty(), claim_size, calls, claim);
}

/// A claim that was revoked is not found: until it is created again,
/// revoking or transferring it is refused with [`Error::ClaimNotExist`].
pub proof fn revoked_claim_is_not_found(
    proofs: Proofs,
    claim_size: nat,
    owner: AccountId,
    claim: Seq<u8>,
    calls: Seq<Call>,
    sender: AccountId,
    receiver: AccountId,
    current_block: BlockNumber,
)
    requires
        decide(proofs, claim_size, (Call::RevokeClaim { sender: owner, claim })) is Ok,
        never_created(
            apply(proofs, claim_size, (Call::RevokeClaim { sender: owner, claim })),
            claim_size,
            calls,
            claim,
        ),
    ensures
        decide(
            run(
                apply(proofs, claim_size, (Call::RevokeClaim { sender: owner, claim })),
                claim_size,
                calls,
            ),
            claim_size,
            (Call::RevokeClaim { sender, claim }),
        ) == Err::<OutcomeView, Error>(Error::ClaimNotExist),
        decide(
            run(
                apply(proofs, claim_size, (Call::RevokeClaim { sender: owner, claim })),
                claim_size,
                calls,
            ),
            claim_size,
            (Call::TransferClaim { sender, claim, receiver, current_block }),
        ) == Err::<OutcomeView, Error>(Error::ClaimNotExist),
{
    let revoked = apply(proofs, claim_size, (Call::RevokeClaim { sender: owner, claim }));
    claim_is_absent_until_created(revoked, claim_size, calls, claim);
}

/// A claim longer than the limit is refused with
/// [`Error::ClaimSizeTooBig`], whether or not it exists, and the registry
/// stays as it was.
pub proof fn oversized_claim_is_refused(
    proofs: Proofs,
    claim_size: nat,
    sender: AccountId,
    claim: Seq<u8>,
    current_block: BlockNumber,
)
    requires
        claim.len() > claim_size,
    ensures
        decide(proofs, claim_size, (Call::CreateClaim { sender, claim, current_block })) == Err::<
            OutcomeView,
            Error,
        >(Error::ClaimSizeTooBig),
        apply(proofs, claim_size, (Call::CreateClaim { sender, claim, current_block })) == proofs,
{
}

/// A claim that does not exist yet and is no longer than the limit, and so
/// one of exactly the limit's length, is created, owned by the sender since
/// the block of the call.
pub proof fn claim_within_limit_is_created(
    proofs: Proofs,
    claim_size: nat,
    sender: AccountId,
    claim: Seq<u8>,
    current_block: BlockNumber,
)
    requires
        claim.len() <= claim_size,
        !proofs.contains_key(claim),
    ensures
        decide(proofs, claim_size, (Call::CreateClaim { sender, claim, current_block })) is Ok,
        lookup(
            apply(proofs, claim_size, (Call::CreateClaim { sender, claim, current_block })),
            claim,
        ) == Some(Registration { owner: sender, registered_at: current_block }),
{
}

/// After a transfer the claim is owned by the receiver, since the block of
/// the call. This holds also where the owner transfers the claim to itself:
/// the block is refreshed all the same.
pub proof fn transfer_moves_the_claim(
    proofs: Proofs,
    claim_size: nat,
    sender: AccountId,
    claim: Seq<u8>,
    receiver: AccountId,
    current_block: BlockNumber,
)
    requires
        decide(
            proofs,
            claim_size,
            (Call::TransferClaim { sender, claim, receiver, current_block }),
        ) is Ok,
    ensures
        lookup(
            apply(
                proofs,
                claim_size,
                (Call::TransferClaim { sender, claim, receiver, current_block }),
            ),
            claim,
        ) == Some(Registration { owner: receiver, registered_at: current_block }),
{
}

/// After a transfer to someone else the former owner has no say: revoking
/// the claim or transferring it again is refused with
/// [`Error::NotProofOwner`].
pub proof fn former_owner_loses_the_claim(
    proofs: Proofs,
    claim_size: nat,
    sender: AccountId,
    claim: Seq<u8>,
    receiver: AccountId,
    current_block: BlockNumber,
    next_receiver: AccountId,
    later_block: BlockNumber,
)
    requires
        decide(
            proofs,
            claim_size,
            (Call::TransferClaim { sender, claim, receiver, current_block }),
        ) is Ok,
        receiver != sender,
    ensures
        decide(
            apply(
                proofs,
                claim_size,
                (Call::TransferClaim { sender, claim, receiver, current_block }),
            ),
            claim_size,
            (Call::RevokeClaim { sender, claim }),
        ) == Err::<OutcomeView, Error>(Error::NotProofOwner),
        decide(
            apply(
                proofs,
                claim_size,
                (Call::TransferClaim { sender, claim, receiver, current_block }),
            ),
            claim_size,
            (Call::TransferClaim {
                sender,
                claim,
                receiver: next_receiver,
                current_block: later_block,
            }),
        ) == Err::<OutcomeView, Error>(Error::NotProofOwner),
{
}

/// A claim that does not exist and is within the limit can be created by
/// one account, revoked by it, and created again by another, which then
/// owns it.
pub proof fn revoked_claim_can_be_created_again(
    proofs: Proofs,
    claim_size: nat,
    first: AccountId,
    second: AccountId,
    claim: Seq<u8>,
    block_created: BlockNumber,
    block_created_again: BlockNumber,
)
    requires
        claim.len() <= claim_size,
        !proofs.contains_key(claim),
    ensures
        ({
            let create = Call::CreateClaim {
                sender: first,
                claim,
                current_block: block_created,
            };
            let revoke = Call::RevokeClaim { sender: first, claim };
            let create_again = Call::CreateClaim {
                sender: second,
                claim,
                current_block: block_created_again,
            };
            let created = apply(proofs, claim_size, create);
            let revoked = apply(created, claim_size, revoke);
            let created_again = apply(revoked, claim_size, create_again);
            &&& decide(proofs, claim_size, create) is Ok
            &&& decide(created, claim_size, revoke) is Ok
            &&& decide(revoked, claim_size, create_again) is Ok
            &&& lookup(created_again, claim) == Some(
                Registration { owner: second, registered_at: block_created_again },
            )
            &&& created_again == run(proofs, claim_size, seq![create, revoke, create_again])
        }),
{
    let create = Call::CreateClaim { sender: first, claim, current_block: block_created };
    let revoke = Call::RevokeClaim { sender: first, claim };
    let create_again = Call::CreateClaim {
        sender: second,
        claim,
        current_block: block_created_again,
    };
    let calls = seq![create, revoke, create_again];
    assert(calls.drop_last() == seq![create, revoke]);
    assert(calls.drop_last().drop_last() == seq![create]);
    assert(calls.drop_last().drop_last().drop_last() == Seq::<Call>::empty());
    reveal_with_fuel(run, 4);
}

/// A claim that was revoked is free again: whoever asks next, and whenever,
/// may create it. (The registry must hold no claim beyond the limit, as
/// every registry does.)
pub proof fn revoked_claim_may_be_created_by_anyone(
    proofs: Proofs,
    claim_size: nat,
    owner: AccountId,
    claim: Seq<u8>,
    sender: AccountId,
    current_block: BlockNumber,
)
    requires
        within_limit(proofs, claim_size),
        decide(proofs, claim_size, (Call::RevokeClaim { sender: owner, claim })) is Ok,
    ensures
        lookup(apply(proofs, claim_size, (Call::RevokeClaim { sender: owner, claim })), claim)
            is None,
        decide(
            apply(proofs, claim_size, (Call::RevokeClaim { sender: owner, claim })),
            claim_size,
            (Call::CreateClaim { sender, claim, current_block }),
        ) is Ok,
{
    assert(proofs.contains_key(claim));
}

/// The block of a claim never goes back: as long as the clock does not, a
/// claim that a call leaves in the registry has a block no earlier than the
/// one it had.
pub proof fn block_of_a_claim_never_decreases(
    proofs: Proofs,
    claim_size: nat,
    call: Call,
    claim: Seq<u8>,
)
    requires
        proofs.contains_key(claim),
        apply(proofs, claim_size, call).contains_key(claim),
        call matches Call::TransferClaim { current_block, .. } ==> current_block
            >= proofs[claim].registered_at,
    ensures
        apply(proofs, claim_size, call)[claim].registered_at >= proofs[claim].registered_at,
{
}

} // verus!
