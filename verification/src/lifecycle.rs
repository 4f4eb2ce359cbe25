//! The lifecycle of a stake: creation, signature-authorized extension and
//! withdrawal, and confiscation on evidence of equivocation.
//!
//! Every operation validates its inputs and the stored state, mutates the
//! store, and — where value has to move — returns a description of the
//! transfer for the host to perform against the external value-transfer
//! ledger. The local mutation commits before the transfer is performed;
//! the host reports the operation as successful only if the transfer also
//! succeeds. The counter likewise advances even if the downstream transfer
//! later fails: counter values are spent, never rolled back.

use vstd::prelude::*;

verus! {

use crate::data::{Counter, Key, KeyV, Message, Note, PublicKey, Signature, Stake, StakeV};
use crate::params::{
    stake_value_in_bounds, ARBITRATION_CUTOFF_HEIGHT, COOLDOWN_PERIOD, EXPIRATION_PERIOD,
    MATURITY_PERIOD, MAXIMUM_STAKE, MINIMUM_STAKE, PENALTY,
};
use crate::sig::{bls_verify, height_message, height_message_bytes, sig_verifies};
use crate::store::{stake_record_valid, StakeContract};

/// A transfer the host must perform against the external value-transfer
/// ledger. Each such transfer either succeeds atomically or fails leaving
/// balances unchanged; the host reports the overall operation as successful
/// only if the transfer succeeded.
#[derive(Debug)]
pub enum TransferRequest {
    /// Move `amount` from the caller into this ledger's custody,
    /// authorized by the spending proof.
    DepositFromCaller { amount: u64, proof: Vec<u8> },
    /// Pay `note` out of this ledger's custody to the caller.
    WithdrawToCaller { note: Note },
}

/// Where the confiscated remainder of a slashed stake is sent.
#[derive(Clone, Copy, Debug, PartialEq, Eq, Structural)]
pub enum SlashDestination {
    /// An arbitration contract, used below the cutoff height.
    Arbitration,
    /// A void destination, used from the cutoff height on.
    Void,
}

/// The transfer plan of a successful slash: the host first pays the
/// penalty note out of this ledger's custody to the accuser; only if that
/// succeeded, it moves the remainder of the slashed stake's value to the
/// destination. A failed first step aborts the second.
#[derive(Clone, Copy, Debug, PartialEq, Eq, Structural)]
pub struct SlashRequest {
    pub penalty_note: Note,
    pub remainder: u64,
    pub destination: SlashDestination,
}

/// The key of the stake slot that `pk` opened when the counter stood at
/// `c`.
pub open spec fn new_key(pk: Seq<u8>, c: u64) -> KeyV {
    KeyV { pk: pk, w_i: c }
}

/// The record a successful stake at `height` writes: eligible after the
/// maturity period, active for the expiration period from then on.
pub open spec fn created_stake(value: u64, pk: Seq<u8>, height: u64) -> StakeV {
    StakeV {
        value: value,
        pk: pk,
        eligibility: (height + MATURITY_PERIOD) as u64,
        expiration: (height + MATURITY_PERIOD + EXPIRATION_PERIOD) as u64,
    }
}

/// The two ledgers hold the same state.
pub open spec fn same_state(a: StakeContract, b: StakeContract) -> bool {
    &&& a.counter_val() == b.counter_val()
    &&& a.ids() == b.ids()
    &&& a.stakes() == b.stakes()
}

/// How a successful stake changes the ledger: the returned counter is the
/// counter value before the call, the counter advances by exactly one, and
/// both mappings gain the new slot.
pub open spec fn stake_transition(
    pre: StakeContract,
    post: StakeContract,
    value: u64,
    pk: Seq<u8>,
    height: u64,
    c: u64,
) -> bool {
    &&& c == pre.counter_val()
    &&& post.counter_val() == c + 1
    &&& post.ids() == pre.ids().insert(c, new_key(pk, c))
    &&& post.stakes() == pre.stakes().insert(new_key(pk, c), created_stake(value, pk, height))
}

/// When an extension is granted: the slot is live, the signature verifies
/// over the record's current expiration height, and the extended
/// expiration still fits a block height.
pub open spec fn extend_accepted(pre: StakeContract, pk: Seq<u8>, c: u64, sig: Seq<u8>) -> bool {
    let k = new_key(pk, c);
    &&& pre.stakes().contains_key(k)
    &&& sig_verifies(pk, sig, height_message(pre.stakes()[k].expiration))
    &&& pre.stakes()[k].expiration + EXPIRATION_PERIOD <= u64::MAX
}

/// How a successful extension changes the ledger: the record's expiration
/// grows by exactly the expiration period and nothing else changes.
pub open spec fn extend_transition(
    pre: StakeContract,
    post: StakeContract,
    pk: Seq<u8>,
    c: u64,
) -> bool {
    let k = new_key(pk, c);
    let s = pre.stakes()[k];
    &&& post.counter_val() == pre.counter_val()
    &&& post.ids() == pre.ids()
    &&& post.stakes() == pre.stakes().insert(
        k,
        StakeV {
            value: s.value,
            pk: s.pk,
            eligibility: s.eligibility,
            expiration: (s.expiration + EXPIRATION_PERIOD) as u64,
        },
    )
}

/// When a withdrawal is granted: the slot is live, the stake has cleared
/// its expiration plus the cooldown period, and the signature verifies
/// over the record's expiration height.
pub open spec fn withdraw_accepted(
    pre: StakeContract,
    pk: Seq<u8>,
    c: u64,
    sig: Seq<u8>,
    height: u64,
) -> bool {
    let k = new_key(pk, c);
    &&& pre.stakes().contains_key(k)
    &&& pre.stakes()[k].expiration + COOLDOWN_PERIOD <= height
    &&& sig_verifies(pk, sig, height_message(pre.stakes()[k].expiration))
}

/// How consuming a slot (withdrawal or slash) changes the ledger: the key
/// leaves both mappings in lock-step and the counter stands still, so the
/// counter value is never recycled.
pub open spec fn removal_transition(pre: StakeContract, post: StakeContract, k: KeyV) -> bool {
    &&& post.counter_val() == pre.counter_val()
    &&& post.ids() == pre.ids().remove(k.w_i)
    &&& post.stakes() == pre.stakes().remove(k)
}

/// When a slash is granted: the two messages differ (otherwise there is no
/// equivocation), both signatures verify under the accused key, the
/// evidence note carries exactly the penalty amount, and the slot is live.
pub open spec fn slash_accepted(
    pre: StakeContract,
    pk: Seq<u8>,
    c: u64,
    m1: Seq<u8>,
    m2: Seq<u8>,
    s1: Seq<u8>,
    s2: Seq<u8>,
    note: Note,
) -> bool {
    &&& m1 != m2
    &&& sig_verifies(pk, s1, m1)
    &&& sig_verifies(pk, s2, m2)
    &&& note.value == PENALTY
    &&& pre.stakes().contains_key(new_key(pk, c))
}

impl StakeContract {
    /// Creates a stake of `value` bound to `public_key` at `block_height`.
    ///
    /// A value outside the policy bounds is rejected outright: the default
    /// counter comes back with no transfer request and no state is
    /// touched. Otherwise the new slot is recorded under the current
    /// counter value, the counter advances, and the host is asked to move
    /// `value` from the caller into custody, authorized by
    /// `spending_proof`.
    pub fn stake(
        &mut self,
        value: u64,
        public_key: PublicKey,
        spending_proof: Vec<u8>,
        block_height: u64,
    ) -> (r: (Counter, Option<TransferRequest>))
        requires
            old(self).wf(),
            old(self).counter_val() < u64::MAX,
            block_height + MATURITY_PERIOD + EXPIRATION_PERIOD <= u64::MAX,
        ensures
            final(self).wf(),
            !stake_value_in_bounds(value) ==> r.0@ == 0 && r.1 is None && same_state(
                *final(self),
                *old(self),
            ),
            stake_value_in_bounds(value) ==> {
                &&& r.0@ == old(self).counter_val()
                &&& stake_transition(
                    *old(self),
                    *final(self),
                    value,
                    public_key@,
                    block_height,
                    r.0@,
                )
                &&& r.1 matches Some(t) && t matches TransferRequest::DepositFromCaller {
                    amount,
                    proof,
                } && amount == value && proof@ == spending_proof@
            },
    {
        if value > MAXIMUM_STAKE || value < MINIMUM_STAKE {
            return (Counter { value: 0 }, None);
        }
        let eligibility = block_height + MATURITY_PERIOD;
        let expiration = eligibility + EXPIRATION_PERIOD;
        let stake = Stake { value, pk: public_key, eligibility, expiration };
        let w_i = self.current_counter();
        let key = Key { pk: public_key, w_i };
        let ghost c = old(self).counter_val();
        let ghost kv = new_key(public_key@, c);

        // A live identifier below the counter can never collide with the
        // counter itself, so neither insertion finds an existing entry.
        let prev_id = self.insert_identifier(w_i, key);
        if prev_id.is_some() {
            proof {
                assert(old(self).ids().contains_key(c));
                assert(false);
            }
            return (w_i, None);
        }
        let prev_stake = self.insert_stake(key, stake);
        if prev_stake.is_some() {
            proof {
                assert(old(self).stakes().contains_key(kv));
                assert(old(self).ids().contains_key(kv.w_i));
                assert(false);
            }
            return (w_i, None);
        }
        self.advance_counter();
        proof {
            assert(stake@ == created_stake(value, public_key@, block_height));
            assert forall|c2: u64| #[trigger] self.ids().contains_key(c2) implies c2
                < self.counter_val() && self.ids()[c2].w_i == c2 && self.stakes().contains_key(
                self.ids()[c2],
            ) by {
                if c2 != c {
                    assert(old(self).ids().contains_key(c2));
                    assert(old(self).ids()[c2].w_i == c2);
                }
            }
            assert forall|k2: KeyV| #[trigger] self.stakes().contains_key(k2) implies self.ids()
                .contains_key(k2.w_i) && self.ids()[k2.w_i] == k2 && stake_record_valid(
                self.stakes()[k2],
                k2,
            ) by {
                if k2 != kv {
                    assert(old(self).stakes().contains_key(k2));
                    assert(old(self).ids().contains_key(k2.w_i));
                    assert(k2.w_i != c);
                }
            }
        }
        (w_i, Some(TransferRequest::DepositFromCaller { amount: value, proof: spending_proof }))
    }

    /// Extends the stake in slot `(public_key, w_i)` by exactly the
    /// expiration period.
    ///
    /// The signature must verify over the record's current expiration
    /// height; signing the current expiration rather than a nonce binds
    /// the proof to the exact state being extended, so it cannot be
    /// replayed after a previous extension. An absent slot, a failing
    /// signature, or an extension that would not fit a block height leaves
    /// the ledger unchanged and returns `false`.
    pub fn extend_stake(&mut self, w_i: Counter, pk: PublicKey, sig: Signature) -> (r: bool)
        requires
            old(self).wf(),
        ensures
            final(self).wf(),
            r == extend_accepted(*old(self), pk@, w_i@, sig@),
            r ==> extend_transition(*old(self), *final(self), pk@, w_i@),
            !r ==> same_state(*final(self), *old(self)),
    {
        let key = Key { pk, w_i };
        let stake = match self.get_stake(&key) {
            Some(s) => s,
            None => {
                return false;
            },
        };
        let msg = height_message_bytes(stake.expiration);
        if !bls_verify(&pk.bytes, &sig.bytes, &msg) {
            return false;
        }
        let new_expiration = match stake.expiration.checked_add(EXPIRATION_PERIOD) {
            Some(e) => e,
            None => {
                return false;
            },
        };
        let updated = Stake {
            value: stake.value,
            pk: stake.pk,
            eligibility: stake.eligibility,
            expiration: new_expiration,
        };
        let prev = self.insert_stake(key, updated);
        proof {
            assert(self.stakes().dom() =~= old(self).stakes().dom());
            assert forall|k2: KeyV| #[trigger] self.stakes().contains_key(k2) implies self.ids()
                .contains_key(k2.w_i) && self.ids()[k2.w_i] == k2 && stake_record_valid(
                self.stakes()[k2],
                k2,
            ) by {
                assert(old(self).stakes().contains_key(k2));
            }
        }
        // The overwrite must have replaced a live record; a fresh insertion
        // here would mean the slot vanished underneath us.
        match prev {
            Some(_) => true,
            None => {
                proof {
                    assert(false);
                }
                false
            },
        }
    }

    /// Withdraws the stake in slot `(public_key, w_i)`.
    ///
    /// The stake must have cleared its expiration height plus the cooldown
    /// period, and the signature must verify over the record's expiration
    /// height. On success the slot leaves both mappings at once, and the
    /// host is asked to pay `note` out of custody to the caller; the local
    /// removal commits before that transfer is performed.
    pub fn withdraw_stake(
        &mut self,
        w_i: Counter,
        pk: PublicKey,
        sig: Signature,
        note: Note,
        block_height: u64,
    ) -> (r: Option<TransferRequest>)
        requires
            old(self).wf(),
        ensures
            final(self).wf(),
            (r is Some) == withdraw_accepted(*old(self), pk@, w_i@, sig@, block_height),
            r matches Some(t) ==> (t matches TransferRequest::WithdrawToCaller { note: n } && n
                == note) && removal_transition(*old(self), *final(self), new_key(pk@, w_i@)),
            r is None ==> same_state(*final(self), *old(self)),
    {
        let key = Key { pk, w_i };
        let stake = match self.get_stake(&key) {
            Some(s) => s,
            None => {
                return None;
            },
        };
        if !(block_height >= COOLDOWN_PERIOD && stake.expiration <= block_height
            - COOLDOWN_PERIOD) {
            return None;
        }
        assert(stake.expiration + COOLDOWN_PERIOD <= block_height);
        let msg = height_message_bytes(stake.expiration);
        if !bls_verify(&pk.bytes, &sig.bytes, &msg) {
            return None;
        }
        self.consume_slot(key);
        Some(TransferRequest::WithdrawToCaller { note })
    }

    /// Confiscates the stake in slot `(public_key, w_i)` on evidence that
    /// its owner signed two distinct messages in the consensus context
    /// `(_round, _step)`.
    ///
    /// Every check is made before anything is touched, so each failure —
    /// equal messages, a failing signature, a note whose value is not
    /// exactly the penalty, an absent slot — is free of side effects. On
    /// success the slot leaves both mappings, and the host is handed the
    /// transfer plan: pay the penalty note out of custody, then move the
    /// remainder of the stake's value to the arbitration destination below
    /// the cutoff height and to the void from it on.
    pub fn slash(
        &mut self,
        pk: PublicKey,
        w_i: Counter,
        _round: u64,
        _step: u8,
        message_1: Message,
        message_2: Message,
        signature_1: Signature,
        signature_2: Signature,
        note: Note,
        block_height: u64,
    ) -> (r: Option<SlashRequest>)
        requires
            old(self).wf(),
        ensures
            final(self).wf(),
            (r is Some) == slash_accepted(
                *old(self),
                pk@,
                w_i@,
                message_1@,
                message_2@,
                signature_1@,
                signature_2@,
                note,
            ),
            r matches Some(q) ==> {
                &&& q.penalty_note == note
                &&& q.remainder == old(self).stakes()[new_key(pk@, w_i@)].value - PENALTY
                &&& q.destination == (if block_height < ARBITRATION_CUTOFF_HEIGHT {
                    SlashDestination::Arbitration
                } else {
                    SlashDestination::Void
                })
                &&& removal_transition(*old(self), *final(self), new_key(pk@, w_i@))
            },
            r is None ==> same_state(*final(self), *old(self)),
            message_1@ == message_2@ ==> r is None,
            note.value != PENALTY ==> r is None,
    {
        if message_1.matches(&message_2) {
            return None;
        }
        if !bls_verify(&pk.bytes, &signature_1.bytes, &message_1.bytes) {
            return None;
        }
        if !bls_verify(&pk.bytes, &signature_2.bytes, &message_2.bytes) {
            return None;
        }
        if note.value != PENALTY {
            return None;
        }
        let key = Key { pk, w_i };
        let stake = match self.get_stake(&key) {
            Some(s) => s,
            None => {
                return None;
            },
        };
        self.consume_slot(key);
        let destination = if block_height < ARBITRATION_CUTOFF_HEIGHT {
            SlashDestination::Arbitration
        } else {
            SlashDestination::Void
        };
        Some(SlashRequest { penalty_note: note, remainder: stake.value - PENALTY, destination })
    }

    /// Removes a live slot from both mappings in lock-step.
    fn consume_slot(&mut self, key: Key)
        requires
            old(self).wf(),
            old(self).stakes().contains_key(key@),
        ensures
            final(self).wf(),
            removal_transition(*old(self), *final(self), key@),
    {
        let ghost kv = key@;
        let ghost c = kv.w_i;
        let removed = self.remove_stake(&key);
        proof {
            assert(removed is Some);
        }
        let removed_id = self.remove_identifier(&key.w_i);
        proof {
            assert(removed_id is Some);
            assert forall|c2: u64| #[trigger] self.ids().contains_key(c2) implies c2
                < self.counter_val() && self.ids()[c2].w_i == c2 && self.stakes().contains_key(
                self.ids()[c2],
            ) by {
                assert(old(self).ids().contains_key(c2));
                assert(old(self).ids()[c2].w_i == c2);
                assert(c2 != c);
                if self.ids()[c2] == kv {
                    assert(old(self).ids()[c2] == kv);
                    assert(kv.w_i == c2);
                    assert(false);
                }
            }
            assert forall|k2: KeyV| #[trigger] self.stakes().contains_key(k2) implies self.ids()
                .contains_key(k2.w_i) && self.ids()[k2.w_i] == k2 && stake_record_valid(
                self.stakes()[k2],
                k2,
            ) by {
                assert(old(self).stakes().contains_key(k2));
                assert(k2 != kv);
                if k2.w_i == c {
                    assert(old(self).ids()[c] == k2);
                    assert(old(self).ids()[kv.w_i] == kv);
                    assert(false);
                }
            }
        }
    }
}

} // verus!
