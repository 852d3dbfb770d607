use poe::{BlockNumber, Config, Error, Event, Pallet, Registration};

const CLAIM_SIZE: usize = 2;

fn new_test_ext() -> Pallet {
    Pallet::new(Config { claim_size: CLAIM_SIZE })
}

fn block_number() -> BlockNumber {
    1
}

fn assert_ok(got: Result<Event, Error>) {
    assert!(got.is_ok(), "expected Ok, got {:?}", got);
}

/// The call was refused with `want`, and the registry is as `before` shows it.
fn assert_noop(before: String, pallet: &Pallet, got: Result<Event, Error>, want: Error) {
    assert_eq!(got, Err(want));
    assert_eq!(format!("{:?}", pallet), before);
}

fn snapshot(pallet: &Pallet) -> String {
    format!("{:?}", pallet)
}

#[test]
fn create_claim_works() {
    let mut poe = new_test_ext();
    let claim = vec![0; CLAIM_SIZE];
    assert_ok(poe.create_claim(1, claim.clone(), block_number()));
    assert_eq!(
        poe.proofs(&claim),
        Some(Registration { owner: 1, registered_at: block_number() })
    );
}

#[test]
fn create_claim_failed_when_claim_already_exist() {
    let mut poe = new_test_ext();
    let claim = vec![0, 1];
    let _ = poe.create_claim(1, claim.clone(), block_number());
    let before = snapshot(&poe);
    let got = poe.create_claim(1, claim.clone(), block_number());
    assert_noop(before, &poe, got, Error::ProofAlreadyExist);
}

#[test]
fn revoke_claim_works() {
    let mut poe = new_test_ext();
    let claim = vec![0, 1];
    let _ = poe.create_claim(1, claim.clone(), block_number());
    assert_ok(poe.revoke_claim(1, claim.clone()));
    assert_eq!(poe.proofs(&claim), None);
}

#[test]
fn revoke_claim_failed_when_claim_is_not_exist() {
    let mut poe = new_test_ext();
    let claim = vec![0, 1];
    let before = snapshot(&poe);
    let got = poe.revoke_claim(1, claim.clone());
    assert_noop(before, &poe, got, Error::ClaimNotExist);
}

#[test]
fn revoke_claim_failed_when_origin_is_not_owner() {
    let mut poe = new_test_ext();
    let claim = vec![0, 1];
    let _ = poe.create_claim(1, claim.clone(), block_number());
    let before = snapshot(&poe);
    let got = poe.revoke_claim(2, claim.clone());
    assert_noop(before, &poe, got, Error::NotProofOwner);
}

#[test]
fn transfer_claim_works() {
    let mut poe = new_test_ext();
    let claim = vec![0, 1];
    let _ = poe.create_claim(1, claim.clone(), block_number());

    assert_ok(poe.transfer_claim(1, claim.clone(), 2, block_number()));
    assert_eq!(
        poe.proofs(&claim),
        Some(Registration { owner: 2, registered_at: block_number() })
    );
    let before = snapshot(&poe);
    let got = poe.revoke_claim(1, claim.clone());
    assert_noop(before, &poe, got, Error::NotProofOwner);
}

#[test]
fn transfer_claim_failed_when_claim_is_not_exist() {
    let mut poe = new_test_ext();
    let claim = vec![0, 1];
    let before = snapshot(&poe);
    let got = poe.transfer_claim(1, claim.clone(), 2, block_number());
    assert_noop(before, &poe, got, Error::ClaimNotExist);
}

#[test]
fn transfer_claim_failed_when_origin_is_not_owner() {
    let mut poe = new_test_ext();
    let claim = vec![0, 1];
    let _ = poe.create_claim(1, claim.clone(), block_number());
    let before = snapshot(&poe);
    let got = poe.transfer_claim(2, claim.clone(), 2, block_number());
    assert_noop(before, &poe, got, Error::NotProofOwner);
}

#[test]
fn create_claim_failed_when_size_too_big() {
    let mut poe = new_test_ext();
    let claim = vec![0; CLAIM_SIZE + 1];
    let before = snapshot(&poe);
    let got = poe.create_claim(1, claim.clone(), block_number());
    assert_noop(before, &poe, got, Error::ClaimSizeTooBig);
}
