//! Properties of the ledger that relate several operations: counters are
//! handed out strictly increasingly, and a consumed slot can never be
//! withdrawn or slashed again.

use vstd::prelude::*;

verus! {

use crate::data::Note;
use crate::lifecycle::{
    new_key, removal_transition, slash_accepted, stake_transition, withdraw_accepted,
};
use crate::store::StakeContract;

/// One successful stake creation, as seen in the contract of
/// [`StakeContract::stake`]: its admitted inputs and the counter it
/// returned.
pub ghost struct StakeCall {
    pub value: u64,
    pub pk: Seq<u8>,
    pub height: u64,
    pub c: u64,
}

/// Two successful stake creations in a row return strictly increasing
/// counters: each returns the counter value the ledger held before it and
/// leaves the counter exactly one higher.
pub proof fn lemma_stake_counters_increase(
    s0: StakeContract,
    s1: StakeContract,
    s2: StakeContract,
    call1: StakeCall,
    call2: StakeCall,
)
    requires
        stake_transition(s0, s1, call1.value, call1.pk, call1.height, call1.c),
        stake_transition(s1, s2, call2.value, call2.pk, call2.height, call2.c),
    ensures
        call1.c < call2.c,
{
}

/// Over any chain of successful stake creations, the returned counters are
/// strictly increasing — and so all distinct — whatever values, keys and
/// heights the calls carried.
pub proof fn lemma_stake_counters_all_distinct(
    states: Seq<StakeContract>,
    calls: Seq<StakeCall>,
    i: int,
    j: int,
)
    requires
        states.len() == calls.len() + 1,
        forall|t: int| #![trigger calls[t]]
            0 <= t < calls.len() ==> stake_transition(
                states[t],
                states[t + 1],
                calls[t].value,
                calls[t].pk,
                calls[t].height,
                calls[t].c,
            ),
        0 <= i < j < calls.len(),
    ensures
        calls[i].c < calls[j].c,
    decreases j - i,
{
    if i + 1 < j {
        lemma_stake_counters_all_distinct(states, calls, i, j - 1);
    }
}

/// Consuming a slot is final: once a withdrawal or a slash has removed a
/// key, a second withdrawal or slash of the same slot finds nothing, so it
/// must fail — whatever signatures, messages, heights or notes accompany
/// the second attempt.
pub proof fn lemma_second_removal_fails(
    pre: StakeContract,
    post: StakeContract,
    pk: Seq<u8>,
    c: u64,
)
    requires
        removal_transition(pre, post, new_key(pk, c)),
    ensures
        !post.stakes().contains_key(new_key(pk, c)),
        forall|sig: Seq<u8>, height: u64| !withdraw_accepted(post, pk, c, sig, height),
        forall|m1: Seq<u8>, m2: Seq<u8>, s1: Seq<u8>, s2: Seq<u8>, note: Note|
            !slash_accepted(post, pk, c, m1, m2, s1, s2, note),
{
}

} // verus!
