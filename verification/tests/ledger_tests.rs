//! Tests of the ledger's bookkeeping that need no real signatures: value
//! bounds, counter allocation, the store operations, and gates that fail
//! before any signature is consulted.

use stake_contract::data::{Counter, Key, Message, Note, PublicKey, Signature, Stake};
use stake_contract::lifecycle::TransferRequest;
use stake_contract::params::{MAXIMUM_STAKE, MINIMUM_STAKE, PENALTY};
use stake_contract::store::StakeContract;

fn pk_from_byte(b: u8) -> PublicKey {
    PublicKey { bytes: [b; 96] }
}

fn garbage_signature() -> Signature {
    Signature { bytes: [7u8; 48] }
}

#[test]
fn stake_below_minimum_fails_without_mutation() {
    let mut ledger = StakeContract::new();
    let (counter, request) = ledger.stake(MINIMUM_STAKE - 1, pk_from_byte(1), vec![], 100);
    assert_eq!(counter.value, 0);
    assert!(request.is_none());
    // The slot was never created.
    let key = Key { pk: pk_from_byte(1), w_i: Counter { value: 0 } };
    assert!(ledger.get_stake(&key).is_none());
    // The counter did not advance: the next stake still gets counter 0.
    let (counter, request) = ledger.stake(MINIMUM_STAKE, pk_from_byte(1), vec![], 100);
    assert_eq!(counter.value, 0);
    assert!(request.is_some());
}

#[test]
fn stake_above_maximum_fails() {
    let mut ledger = StakeContract::new();
    let (counter, request) = ledger.stake(MAXIMUM_STAKE + 1, pk_from_byte(1), vec![], 100);
    assert_eq!(counter.value, 0);
    assert!(request.is_none());
}

#[test]
fn stake_at_bounds_succeeds() {
    let mut ledger = StakeContract::new();
    let (c_min, r_min) = ledger.stake(MINIMUM_STAKE, pk_from_byte(1), vec![], 5);
    assert_eq!(c_min.value, 0);
    assert!(r_min.is_some());
    let (c_max, r_max) = ledger.stake(MAXIMUM_STAKE, pk_from_byte(2), vec![], 5);
    assert_eq!(c_max.value, 1);
    assert!(r_max.is_some());
}

#[test]
fn stake_requests_deposit_of_the_staked_value() {
    let mut ledger = StakeContract::new();
    let proof = vec![1u8, 2, 3, 4];
    let (_, request) = ledger.stake(MINIMUM_STAKE + 7, pk_from_byte(3), proof.clone(), 42);
    match request {
        Some(TransferRequest::DepositFromCaller { amount, proof: sent }) => {
            assert_eq!(amount, MINIMUM_STAKE + 7);
            assert_eq!(sent, proof);
        }
        other => panic!("expected a deposit request, got {:?}", other),
    }
}

#[test]
fn stake_records_eligibility_and_expiration() {
    let mut ledger = StakeContract::new();
    let (counter, _) = ledger.stake(MINIMUM_STAKE, pk_from_byte(1), vec![], 100);
    let key = Key { pk: pk_from_byte(1), w_i: counter };
    let stake = ledger.get_stake(&key).expect("the stake was recorded");
    assert_eq!(stake.value, MINIMUM_STAKE);
    assert_eq!(stake.eligibility, 100);
    assert_eq!(stake.expiration, 100 + 250_000);
}

#[test]
fn counters_increase_and_are_never_reused() {
    let mut ledger = StakeContract::new();
    let (c0, _) = ledger.stake(MINIMUM_STAKE, pk_from_byte(1), vec![], 1);
    let (c1, _) = ledger.stake(MINIMUM_STAKE, pk_from_byte(1), vec![], 2);
    let (c2, _) = ledger.stake(MINIMUM_STAKE, pk_from_byte(9), vec![], 3);
    assert_eq!(c0.value, 0);
    assert_eq!(c1.value, 1);
    assert_eq!(c2.value, 2);
    // Both stakes of the same key live side by side under their counters.
    let s0 = ledger.get_stake(&Key { pk: pk_from_byte(1), w_i: c0 });
    let s1 = ledger.get_stake(&Key { pk: pk_from_byte(1), w_i: c1 });
    assert!(s0.is_some() && s1.is_some());
}

#[test]
fn counter_default_is_zero() {
    let c: Counter = Default::default();
    assert_eq!(c.value, 0);
}

#[test]
fn store_insert_get_remove_identifier() {
    let mut ledger = StakeContract::new();
    let key = Key { pk: pk_from_byte(5), w_i: Counter { value: 17 } };
    assert!(ledger.insert_identifier(Counter { value: 17 }, key).is_none());
    let found = ledger.get_identifier(&Counter { value: 17 }).expect("inserted");
    assert_eq!(found.w_i.value, 17);
    assert_eq!(found.pk.bytes, [5u8; 96]);
    // A second insertion under the same counter reports the occupant.
    let other = Key { pk: pk_from_byte(6), w_i: Counter { value: 17 } };
    let prev = ledger.insert_identifier(Counter { value: 17 }, other).expect("occupied");
    assert_eq!(prev.pk.bytes, [5u8; 96]);
    // Removal returns the current occupant; a second removal finds nothing.
    let removed = ledger.remove_identifier(&Counter { value: 17 }).expect("occupied");
    assert_eq!(removed.pk.bytes, [6u8; 96]);
    assert!(ledger.remove_identifier(&Counter { value: 17 }).is_none());
    assert!(ledger.get_identifier(&Counter { value: 17 }).is_none());
}

#[test]
fn store_insert_get_remove_stake() {
    let mut ledger = StakeContract::new();
    let key = Key { pk: pk_from_byte(5), w_i: Counter { value: 0 } };
    let stake = Stake { value: MINIMUM_STAKE, pk: pk_from_byte(5), eligibility: 1, expiration: 2 };
    assert!(ledger.insert_stake(key, stake).is_none());
    let found = ledger.get_stake(&key).expect("inserted");
    assert_eq!(found.value, MINIMUM_STAKE);
    // Lookup under another public key misses even with the same counter.
    let other = Key { pk: pk_from_byte(6), w_i: Counter { value: 0 } };
    assert!(ledger.get_stake(&other).is_none());
    let removed = ledger.remove_stake(&key).expect("occupied");
    assert_eq!(removed.expiration, 2);
    assert!(ledger.remove_stake(&key).is_none());
}

#[test]
fn extend_of_absent_slot_fails() {
    let mut ledger = StakeContract::new();
    let ok = ledger.extend_stake(Counter { value: 0 }, pk_from_byte(1), garbage_signature());
    assert!(!ok);
}

#[test]
fn withdraw_of_absent_slot_fails() {
    let mut ledger = StakeContract::new();
    let r = ledger.withdraw_stake(
        Counter { value: 3 },
        pk_from_byte(1),
        garbage_signature(),
        Note { value: 5 },
        1_000_000,
    );
    assert!(r.is_none());
}

#[test]
fn slash_with_equal_messages_fails() {
    let mut ledger = StakeContract::new();
    let (counter, _) = ledger.stake(MINIMUM_STAKE, pk_from_byte(1), vec![], 1);
    let message = Message { bytes: [9u8; 32] };
    let r = ledger.slash(
        pk_from_byte(1),
        counter,
        1,
        0,
        message,
        message,
        garbage_signature(),
        garbage_signature(),
        Note { value: PENALTY },
        1,
    );
    assert!(r.is_none());
    // The slot is untouched.
    let key = Key { pk: pk_from_byte(1), w_i: counter };
    assert!(ledger.get_stake(&key).is_some());
}
