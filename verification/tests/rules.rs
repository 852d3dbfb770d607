use poe::rules::{create, revoke, transfer};
use poe::{Error, Event, Outcome, Registration};

fn held_by(owner: u64, registered_at: u64) -> Option<Registration> {
    Some(Registration { owner, registered_at })
}

#[test]
fn create_rule_fills_an_empty_slot() {
    assert_eq!(
        create(None, 1, vec![0, 1], 2, 7),
        Ok(Outcome { entry: held_by(1, 7), event: Event::ClaimCreated(1, vec![0, 1]) })
    );
    assert_eq!(
        create(None, 3, vec![], 0, 0),
        Ok(Outcome { entry: held_by(3, 0), event: Event::ClaimCreated(3, vec![]) })
    );
}

#[test]
fn create_rule_refuses_a_filled_slot() {
    assert_eq!(create(held_by(1, 7), 1, vec![0, 1], 2, 8), Err(Error::ProofAlreadyExist));
    assert_eq!(create(held_by(1, 7), 2, vec![0, 1], 2, 8), Err(Error::ProofAlreadyExist));
}

#[test]
fn create_rule_refuses_a_long_claim_first() {
    assert_eq!(create(None, 1, vec![0, 1, 2], 2, 7), Err(Error::ClaimSizeTooBig));
    assert_eq!(create(held_by(1, 7), 1, vec![0, 1, 2], 2, 7), Err(Error::ClaimSizeTooBig));
}

#[test]
fn revoke_rule_empties_the_owners_slot() {
    assert_eq!(
        revoke(held_by(1, 7), 1, vec![0, 1]),
        Ok(Outcome { entry: None, event: Event::ClaimRevoked(1, vec![0, 1]) })
    );
    assert_eq!(revoke(held_by(1, 7), 2, vec![0, 1]), Err(Error::NotProofOwner));
    assert_eq!(revoke(None, 1, vec![0, 1]), Err(Error::ClaimNotExist));
}

#[test]
fn transfer_rule_reassigns_the_owners_slot() {
    assert_eq!(
        transfer(held_by(1, 7), 1, vec![0, 1], 2, 9),
        Ok(Outcome { entry: held_by(2, 9), event: Event::ClaimTransferred(1, vec![0, 1], 2) })
    );
    assert_eq!(
        transfer(held_by(1, 7), 1, vec![0, 1], 1, 9),
        Ok(Outcome { entry: held_by(1, 9), event: Event::ClaimTransferred(1, vec![0, 1], 1) })
    );
    assert_eq!(transfer(held_by(1, 7), 2, vec![0, 1], 2, 9), Err(Error::NotProofOwner));
    assert_eq!(transfer(None, 1, vec![0, 1], 2, 9), Err(Error::ClaimNotExist));
}
