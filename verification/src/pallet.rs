//! The registry itself: a store of claims and the three calls that change it.

use crate::model::{apply, decide, lookup, store, within_limit, Call, Proofs};
use crate::rules;
use crate::types::{
    AccountId, BlockNumber, Config, Error, Event, Outcome, OutcomeView, Registration,
};
use vstd::prelude::*;

verus! {

/// One claim that exists, with its registration.
#[derive(Clone, Debug)]
struct Proof {
    claim: Vec<u8>,
    registration: Registration,
}

/// A registry of claims.
///
/// Its content, `self@`, is a map from claims to registrations. The claims
/// are kept in no particular order; no claim is kept twice.
#[derive(Clone, Debug)]
pub struct Pallet {
    claim_size: usize,
    proofs: Vec<Proof>,
}

impl View for Pallet {
    type V = Proofs;

    closed spec fn view(&self) -> Proofs {
        Map::new(
            |claim: Seq<u8>| self.holds(claim),
            |claim: Seq<u8>| self.proofs[self.slot_of(claim)].registration,
        )
    }
}

impl Pallet {
    /// Whether some slot holds `claim`.
    spec fn holds(&self, claim: Seq<u8>) -> bool {
        exists|i: int| 0 <= i < self.proofs.len() && #[trigger] self.proofs[i].claim@ == claim
    }

    /// A slot that holds `claim`, where there is one.
    spec fn slot_of(&self, claim: Seq<u8>) -> int {
        choose|i: int| 0 <= i < self.proofs.len() && #[trigger] self.proofs[i].claim@ == claim
    }

    /// The greatest length, in bytes, that a new claim may have.
    pub closed spec fn max_claim_len(&self) -> nat {
        self.claim_size as nat
    }

    /// Whether the registry is well formed: no claim is kept twice, and none
    /// is longer than the limit.
    pub closed spec fn wf(&self) -> bool {
        &&& forall|i: int, j: int|
            0 <= i < j < self.proofs.len() ==> #[trigger] self.proofs[i].claim@
                != #[trigger] self.proofs[j].claim@
        &&& forall|i: int|
            0 <= i < self.proofs.len() ==> (#[trigger] self.proofs[i]).claim@.len()
                <= self.claim_size
    }

    /// An empty registry that limits claims to `config.claim_size` bytes.
    pub fn new(config: Config) -> (pallet: Pallet)
        ensures
            pallet.wf(),
            pallet@ == Proofs::empty(),
            pallet.max_claim_len() == config.claim_size,
    {
        let pallet = Pallet { claim_size: config.claim_size, proofs: Vec::new() };
        assert(pallet@ =~= Proofs::empty());
        pallet
    }

    /// The limit that the registry was made with.
    pub fn claim_size(&self) -> (claim_size: usize)
        ensures
            claim_size == self.max_claim_len(),
    {
        self.claim_size
    }

    /// Looks a claim up: its registration, or `None` where it does not exist.
    pub fn proofs(&self, claim: &Vec<u8>) -> (r: Option<Registration>)
        requires
            self.wf(),
        ensures
            r == lookup(self@, claim@),
    {
        match self.find(claim) {
            Some(i) => Some(self.proofs[i].registration),
            None => None,
        }
    }

    /// Registers `claim` for `sender` at `current_block`.
    ///
    /// Refused with [`Error::ClaimSizeTooBig`] where the claim is longer than
    /// the limit, else with [`Error::ProofAlreadyExist`] where it exists.
    /// Otherwise the claim now exists, owned by `sender` since
    /// `current_block`, and the answer is [`Event::ClaimCreated`].
    pub fn create_claim(&mut self, sender: AccountId, claim: Vec<u8>, current_block: BlockNumber) -> (r:
        Result<Event, Error>)
        requires
            old(self).wf(),
        ensures
            final(self).wf(),
            final(self).max_claim_len() == old(self).max_claim_len(),
            final(self)@ == apply(
                old(self)@,
                old(self).max_claim_len(),
                (Call::CreateClaim { sender, claim: claim@, current_block }),
            ),
            announces(
                r,
                decide(
                    old(self)@,
                    old(self).max_claim_len(),
                    (Call::CreateClaim { sender, claim: claim@, current_block }),
                ),
            ),
            r is Err ==> final(self)@ == old(self)@,
    {
        let found = self.find(&claim);
        let entry = self.entry_at(found);
        let decided = rules::create(entry, sender, claim, self.claim_size, current_block);
        self.settle(found, decided)
    }

    /// Removes `claim`, on behalf of its owner `sender`.
    ///
    /// Refused with [`Error::ClaimNotExist`] where the claim does not exist,
    /// else with [`Error::NotProofOwner`] where `sender` does not own it.
    /// Otherwise the claim no longer exists, and the answer is
    /// [`Event::ClaimRevoked`].
    pub fn revoke_claim(&mut self, sender: AccountId, claim: Vec<u8>) -> (r: Result<Event, Error>)
        requires
            old(self).wf(),
        ensures
            final(self).wf(),
            final(self).max_claim_len() == old(self).max_claim_len(),
            final(self)@ == apply(
                old(self)@,
                old(self).max_claim_len(),
                (Call::RevokeClaim { sender, claim: claim@ }),
            ),
            announces(
                r,
                decide(
                    old(self)@,
                    old(self).max_claim_len(),
                    (Call::RevokeClaim { sender, claim: claim@ }),
                ),
            ),
            r is Err ==> final(self)@ == old(self)@,
    {
        let found = self.find(&claim);
        let entry = self.entry_at(found);
        let decided = rules::revoke(entry, sender, claim);
        proof {
            self.lemma_fits(found);
        }
        self.settle(found, decided)
    }

    /// Hands `claim` from its owner `sender` to `receiver` at `current_block`.
    ///
    /// Refused with [`Error::ClaimNotExist`] where the claim does not exist,
    /// else with [`Error::NotProofOwner`] where `sender` does not own it.
    /// Otherwise the claim is owned by `receiver` since `current_block`, also
    /// where `receiver` is `sender`, and the answer is
    /// [`Event::ClaimTransferred`].
    pub fn transfer_claim(
        &mut self,
        sender: AccountId,
        claim: Vec<u8>,
        receiver: AccountId,
        current_block: BlockNumber,
    ) -> (r: Result<Event, Error>)
        requires
            old(self).wf(),
        ensures
            final(self).wf(),
            final(self).max_claim_len() == old(self).max_claim_len(),
            final(self)@ == apply(
                old(self)@,
                old(self).max_claim_len(),
                (Call::TransferClaim { sender, claim: claim@, receiver, current_block }),
            ),
            announces(
                r,
                decide(
                    old(self)@,
                    old(self).max_claim_len(),
                    (Call::TransferClaim { sender, claim: claim@, receiver, current_block }),
                ),
            ),
            r is Err ==> final(self)@ == old(self)@,
    {
        let found = self.find(&claim);
        let entry = self.entry_at(found);
        let decided = rules::transfer(entry, sender, claim, receiver, current_block);
        proof {
            self.lemma_fits(found);
        }
        self.settle(found, decided)
    }

    /// In a well-formed registry every claim that exists is within the limit.
    pub proof fn claims_are_within_limit(&self)
        requires
            self.wf(),
        ensures
            within_limit(self@, self.max_claim_len()),
    {
        assert forall|claim: Seq<u8>| #[trigger] self@.contains_key(claim) implies claim.len()
            <= self.max_claim_len() by {
            let i = self.slot_of(claim);
            assert(self.proofs[i].claim@ == claim);
        }
    }

    /// The slot that holds `claim`, if it exists.
    fn find(&self, claim: &Vec<u8>) -> (found: Option<usize>)
        requires
            self.wf(),
        ensures
            match found {
                Some(i) => i < self.proofs.len() && self.proofs[i as int].claim@ == claim@
                    && self@.contains_key(claim@) && self@[claim@]
                    == self.proofs[i as int].registration,
                None => !self@.contains_key(claim@),
            },
    {
        let mut i: usize = 0;
        while i < self.proofs.len()
            invariant
                self.wf(),
                i <= self.proofs.len(),
                forall|j: int| 0 <= j < i ==> (#[trigger] self.proofs[j]).claim@ != claim@,
            decreases self.proofs.len() - i,
        {
            if self.proofs[i].claim == *claim {
                proof {
                    self.lemma_slot(i as int);
                }
                return Some(i);
            }
            i += 1;
        }
        assert(!self.holds(claim@));
        None
    }

    /// The registration in the slot at `found`.
    fn entry_at(&self, found: Option<usize>) -> (entry: Option<Registration>)
        requires
            found matches Some(i) ==> i < self.proofs.len(),
        ensures
            entry == match found {
                Some(i) => Some(self.proofs[i as int].registration),
                None => None,
            },
    {
        match found {
            Some(i) => Some(self.proofs[i].registration),
            None => None,
        }
    }

    /// Carries out what a rule decided for `claim`, found at `found`.
    fn settle(&mut self, found: Option<usize>, decided: Result<Outcome, Error>) -> (r: Result<
        Event,
        Error,
    >)
        requires
            old(self).wf(),
            decided matches Ok(outcome) ==> {
                &&& outcome.event.spec_claim().len() <= old(self).max_claim_len()
                &&& match found {
                    Some(i) => i < old(self).proofs.len() && old(self).proofs[i as int].claim@
                        == outcome.event.spec_claim(),
                    None => !old(self)@.contains_key(outcome.event.spec_claim()),
                }
            },
        ensures
            final(self).wf(),
            final(self).max_claim_len() == old(self).max_claim_len(),
            match decided {
                Ok(outcome) => r matches Ok(event) && event == outcome.event && final(self)@
                    == store(old(self)@, outcome.event.spec_claim(), outcome.entry),
                Err(error) => r == Err::<Event, Error>(error) && final(self)@ == old(self)@,
            },
    {
        match decided {
            Ok(outcome) => {
                let Outcome { entry, event } = outcome;
                self.write(found, event.claim(), entry);
                Ok(event)
            },
            Err(error) => Err(error),
        }
    }

    /// Sets the slot of `claim` to `entry`, where `found` is the place of
    /// the claim among the slots.
    fn write(&mut self, found: Option<usize>, claim: &Vec<u8>, entry: Option<Registration>)
        requires
            old(self).wf(),
            match found {
                Some(i) => i < old(self).proofs.len() && old(self).proofs[i as int].claim@
                    == claim@,
                None => !old(self)@.contains_key(claim@),
            },
            claim@.len() <= old(self).max_claim_len(),
        ensures
            final(self).wf(),
            final(self).max_claim_len() == old(self).max_claim_len(),
            final(self)@ == store(old(self)@, claim@, entry),
    {
        proof {
            old(self).lemma_view();
        }
        match (found, entry) {
            (Some(i), Some(registration)) => {
                self.proofs.set(i, Proof { claim: claim.clone(), registration });
                proof {
                    self.lemma_view();
                    assert forall|c: Seq<u8>| self.holds(c) == old(self).holds(c) by {
                        if self.holds(c) {
                            let k = self.slot_of(c);
                            assert(old(self).proofs[k].claim@ == c);
                        }
                        if old(self).holds(c) {
                            let k = old(self).slot_of(c);
                            assert(self.proofs[k].claim@ == c);
                        }
                    }
                    assert(self@ =~= store(old(self)@, claim@, entry));
                }
            },
            (Some(i), None) => {
                self.proofs.remove(i);
                proof {
                    self.lemma_view();
                    let after = store(old(self)@, claim@, entry);
                    assert forall|c: Seq<u8>| self@.contains_key(c) implies after.contains_key(c)
                        && after[c] == self@[c] by {
                        let k = self.slot_of(c);
                        let k0 = if k < i { k } else { k + 1 };
                        assert(self.proofs[k] == old(self).proofs[k0]);
                        assert(old(self).proofs[k0].claim@ == c);
                    }
                    assert forall|c: Seq<u8>| after.contains_key(c) implies self@.contains_key(
                        c,
                    ) by {
                        let k0 = old(self).slot_of(c);
                        let k = if k0 < i { k0 } else { k0 - 1 };
                        assert(self.proofs[k] == old(self).proofs[k0]);
                        assert(self.proofs[k].claim@ == c);
                    }
                    assert(self@ =~= after);
                }
            },
            (None, Some(registration)) => {
                self.proofs.push(Proof { claim: claim.clone(), registration });
                proof {
                    self.lemma_view();
                    let last = old(self).proofs.len() as int;
                    let after = store(old(self)@, claim@, entry);
                    assert(self.proofs[last].claim@ == claim@);
                    assert forall|c: Seq<u8>| self@.contains_key(c) implies after.contains_key(c)
                        && after[c] == self@[c] by {
                        let k = self.slot_of(c);
                        if k < last {
                            assert(self.proofs[k] == old(self).proofs[k]);
                            assert(old(self).proofs[k].claim@ == c);
                        }
                    }
                    assert forall|c: Seq<u8>| after.contains_key(c) implies self@.contains_key(
                        c,
                    ) by {
                        if c != claim@ {
                            let k = old(self).slot_of(c);
                            assert(self.proofs[k] == old(self).proofs[k]);
                            assert(self.proofs[k].claim@ == c);
                        }
                    }
                    assert(self@ =~= after);
                }
            },
            (None, None) => {
                assert(self@ =~= store(old(self)@, claim@, entry));
            },
        }
    }

    /// In a well-formed registry the claim in a slot is within the limit.
    proof fn lemma_fits(&self, found: Option<usize>)
        requires
            self.wf(),
            found matches Some(i) ==> i < self.proofs.len(),
        ensures
            found matches Some(i) ==> self.proofs[i as int].claim@.len() <= self.max_claim_len(),
    {
    }

    /// In a well-formed registry the claim in slot `i` is found there.
    proof fn lemma_slot(&self, i: int)
        requires
            self.wf(),
            0 <= i < self.proofs.len(),
        ensures
            self.holds(self.proofs[i].claim@),
            self.slot_of(self.proofs[i].claim@) == i,
            self@.contains_key(self.proofs[i].claim@),
            self@[self.proofs[i].claim@] == self.proofs[i].registration,
    {
        let claim = self.proofs[i].claim@;
        assert(self.holds(claim));
        let k = self.slot_of(claim);
        assert(0 <= k < self.proofs.len() && self.proofs[k].claim@ == claim);
        if k < i {
            assert(self.proofs[k].claim@ != self.proofs[i].claim@);
        } else if i < k {
            assert(self.proofs[i].claim@ != self.proofs[k].claim@);
        }
    }

    /// In a well-formed registry the content is what the slots hold.
    proof fn lemma_view(&self)
        requires
            self.wf(),
        ensures
            forall|claim: Seq<u8>| #[trigger] self@.contains_key(claim) <==> self.holds(claim),
            forall|i: int|
                0 <= i < self.proofs.len() ==> self@.contains_key(
                    (#[trigger] self.proofs[i]).claim@,
                ) && self@[self.proofs[i].claim@] == self.proofs[i].registration,
    {
        assert forall|i: int| 0 <= i < self.proofs.len() implies self@.contains_key(
            (#[trigger] self.proofs[i]).claim@,
        ) && self@[self.proofs[i].claim@] == self.proofs[i].registration by {
            self.lemma_slot(i);
        }
    }
}

/// Whether the answer `r` of a call is the one that was decided: the
/// decided event where the call succeeds, the decided error where it is
/// refused.
pub open spec fn announces(r: Result<Event, Error>, decided: Result<OutcomeView, Error>) -> bool {
    match r {
        Ok(event) => decided matches Ok(outcome) && outcome.event == event@,
        Err(error) => decided == Err::<OutcomeView, Error>(error),
    }
}

} // verus!
