//! The durable state of the ledger: the identifier counter, the
//! reverse-lookup identifier set (Counter -> Key) and the primary stake
//! mapping (Key -> Stake), with insert, get and remove operations that
//! report whether an existing entry was found, so that callers can detect
//! and reject duplicates instead of silently overwriting.

use vstd::prelude::*;

verus! {

use crate::data::{Counter, Key, KeyV, Stake, StakeV};
use crate::params::{MAXIMUM_STAKE, MINIMUM_STAKE};
use crate::seqmap::{
    distinct_keys, lemma_distinct_push, lemma_map_of_contains, lemma_map_of_index,
    lemma_map_of_push, lemma_map_of_remove, lemma_map_of_update, map_of,
};

/// What must hold of every live stake record under its key: the value lies
/// within the policy bounds and the record belongs to the key's owner.
pub open spec fn stake_record_valid(s: StakeV, k: KeyV) -> bool {
    &&& MINIMUM_STAKE <= s.value <= MAXIMUM_STAKE
    &&& s.pk == k.pk
}

/// The stake ledger: the identifier counter and the two mappings. The
/// mappings are held as entry sequences with pairwise distinct keys; the
/// contracts speak of the mappings they denote.
pub struct StakeContract {
    counter: Counter,
    identifier_entries: Vec<(Counter, Key)>,
    stake_entries: Vec<(Key, Stake)>,
}

impl StakeContract {
    /// The current value of the identifier counter.
    pub closed spec fn counter_val(&self) -> u64 {
        self.counter@
    }

    spec fn id_entries(&self) -> Seq<(u64, KeyV)> {
        self.identifier_entries@.map_values(|e: (Counter, Key)| (e.0@, e.1@))
    }

    spec fn stake_entry_views(&self) -> Seq<(KeyV, StakeV)> {
        self.stake_entries@.map_values(|e: (Key, Stake)| (e.0@, e.1@))
    }

    /// The identifier set: the mapping from counter values to keys.
    pub closed spec fn ids(&self) -> Map<u64, KeyV> {
        map_of(self.id_entries())
    }

    /// The stake mapping: the authoritative record of the live stakes.
    pub closed spec fn stakes(&self) -> Map<KeyV, StakeV> {
        map_of(self.stake_entry_views())
    }

    /// The storage discipline: no counter and no key is held by two
    /// entries.
    pub closed spec fn entries_well_formed(&self) -> bool {
        &&& distinct_keys(self.id_entries())
        &&& distinct_keys(self.stake_entry_views())
    }

    /// The identifier set and the stake mapping are consistent bijections
    /// over the live keys; every identifier lies below the counter, so a
    /// counter value is never handed out twice; and every record is valid
    /// for its key.
    pub open spec fn consistent(&self) -> bool {
        &&& forall|c: u64| #[trigger]
            self.ids().contains_key(c) ==> c < self.counter_val() && self.ids()[c].w_i == c
                && self.stakes().contains_key(self.ids()[c])
        &&& forall|k: KeyV| #[trigger]
            self.stakes().contains_key(k) ==> self.ids().contains_key(k.w_i) && self.ids()[k.w_i]
                == k && stake_record_valid(self.stakes()[k], k)
    }

    /// Well-formedness: the storage discipline together with consistency.
    /// Established by [`StakeContract::new`] and preserved by every
    /// lifecycle operation.
    pub open spec fn wf(&self) -> bool {
        &&& self.entries_well_formed()
        &&& self.consistent()
    }

    /// An empty ledger: counter at zero, no identifiers, no stakes.
    pub fn new() -> (r: StakeContract)
        ensures
            r.wf(),
            r.counter_val() == 0,
            r.ids() == Map::<u64, KeyV>::empty(),
            r.stakes() == Map::<KeyV, StakeV>::empty(),
    {
        let r = StakeContract {
            counter: Counter { value: 0 },
            identifier_entries: Vec::new(),
            stake_entries: Vec::new(),
        };
        proof {
            assert(r.id_entries() =~= Seq::<(u64, KeyV)>::empty());
            assert(r.stake_entry_views() =~= Seq::<(KeyV, StakeV)>::empty());
        }
        r
    }

    /// The counter value that the next created stake will be keyed by.
    pub fn current_counter(&self) -> (r: Counter)
        ensures
            r@ == self.counter_val(),
    {
        self.counter
    }

    /// Advances the identifier counter by one; the mappings are untouched.
    pub fn advance_counter(&mut self)
        requires
            old(self).counter_val() < u64::MAX,
        ensures
            final(self).counter_val() == old(self).counter_val() + 1,
            final(self).ids() == old(self).ids(),
            final(self).stakes() == old(self).stakes(),
            old(self).entries_well_formed() ==> final(self).entries_well_formed(),
    {
        self.counter.increment();
    }

    fn find_id_index(&self, counter: &Counter) -> (r: Option<usize>)
        ensures
            match r {
                Some(i) => i < self.id_entries().len() && self.id_entries()[i as int].0
                    == counter@,
                None => forall|i: int|
                    0 <= i < self.id_entries().len() ==> self.id_entries()[i].0 != counter@,
            },
    {
        let n = self.identifier_entries.len();
        let mut i: usize = 0;
        while i < n
            invariant
                n == self.identifier_entries@.len(),
                0 <= i <= n,
                forall|j: int| 0 <= j < i ==> self.id_entries()[j].0 != counter@,
            decreases n - i,
        {
            if self.identifier_entries[i].0.value == counter.value {
                return Some(i);
            }
            i = i + 1;
        }
        None
    }

    fn find_stake_index(&self, key: &Key) -> (r: Option<usize>)
        ensures
            match r {
                Some(i) => i < self.stake_entry_views().len() && self.stake_entry_views()[
                    i as int
                ].0 == key@,
                None => forall|i: int|
                    0 <= i < self.stake_entry_views().len() ==> self.stake_entry_views()[i].0
                        != key@,
            },
    {
        let n = self.stake_entries.len();
        let mut i: usize = 0;
        while i < n
            invariant
                n == self.stake_entries@.len(),
                0 <= i <= n,
                forall|j: int| 0 <= j < i ==> self.stake_entry_views()[j].0 != key@,
            decreases n - i,
        {
            if self.stake_entries[i].0.matches(key) {
                return Some(i);
            }
            i = i + 1;
        }
        None
    }

    /// Binds `counter` to `key` in the identifier set. Returns the key the
    /// counter was bound to before, or `None` for a fresh insertion.
    pub fn insert_identifier(&mut self, counter: Counter, key: Key) -> (prev: Option<Key>)
        requires
            old(self).entries_well_formed(),
        ensures
            final(self).entries_well_formed(),
            final(self).ids() == old(self).ids().insert(counter@, key@),
            final(self).stakes() == old(self).stakes(),
            final(self).counter_val() == old(self).counter_val(),
            match prev {
                Some(k) => old(self).ids().contains_key(counter@) && k@ == old(self).ids()[
                    counter@
                ],
                None => !old(self).ids().contains_key(counter@),
            },
    {
        proof {
            lemma_map_of_contains(self.id_entries(), counter@);
        }
        match self.find_id_index(&counter) {
            Some(i) => {
                proof {
                    lemma_map_of_index(self.id_entries(), i as int);
                    lemma_map_of_update(self.id_entries(), i as int, key@);
                }
                let previous = self.identifier_entries[i];
                self.identifier_entries.set(i, (counter, key));
                proof {
                    assert(self.id_entries() =~= old(self).id_entries().update(
                        i as int,
                        (counter@, key@),
                    ));
                    assert(self.stake_entry_views() =~= old(self).stake_entry_views());
                }
                Some(previous.1)
            },
            None => {
                proof {
                    lemma_map_of_push(self.id_entries(), counter@, key@);
                    lemma_distinct_push(self.id_entries(), counter@, key@);
                }
                self.identifier_entries.push((counter, key));
                proof {
                    assert(self.id_entries() =~= old(self).id_entries().push((counter@, key@)));
                    assert(self.stake_entry_views() =~= old(self).stake_entry_views());
                }
                None
            },
        }
    }

    /// Binds `key` to `stake` in the stake mapping. Returns the record the
    /// key was bound to before, or `None` for a fresh insertion.
    pub fn insert_stake(&mut self, key: Key, stake: Stake) -> (prev: Option<Stake>)
        requires
            old(self).entries_well_formed(),
        ensures
            final(self).entries_well_formed(),
            final(self).stakes() == old(self).stakes().insert(key@, stake@),
            final(self).ids() == old(self).ids(),
            final(self).counter_val() == old(self).counter_val(),
            match prev {
                Some(s) => old(self).stakes().contains_key(key@) && s@ == old(self).stakes()[key@],
                None => !old(self).stakes().contains_key(key@),
            },
    {
        proof {
            lemma_map_of_contains(self.stake_entry_views(), key@);
        }
        match self.find_stake_index(&key) {
            Some(i) => {
                proof {
                    lemma_map_of_index(self.stake_entry_views(), i as int);
                    lemma_map_of_update(self.stake_entry_views(), i as int, stake@);
                }
                let previous = self.stake_entries[i];
                self.stake_entries.set(i, (key, stake));
                proof {
                    assert(self.stake_entry_views() =~= old(self).stake_entry_views().update(
                        i as int,
                        (key@, stake@),
                    ));
                    assert(self.id_entries() =~= old(self).id_entries());
                }
                Some(previous.1)
            },
            None => {
                proof {
                    lemma_map_of_push(self.stake_entry_views(), key@, stake@);
                    lemma_distinct_push(self.stake_entry_views(), key@, stake@);
                }
                self.stake_entries.push((key, stake));
                proof {
                    assert(self.stake_entry_views() =~= old(self).stake_entry_views().push(
                        (key@, stake@),
                    ));
                    assert(self.id_entries() =~= old(self).id_entries());
                }
                None
            },
        }
    }

    /// Looks a key up in the identifier set.
    pub fn get_identifier(&self, counter: &Counter) -> (r: Option<Key>)
        requires
            self.entries_well_formed(),
        ensures
            match r {
                Some(k) => self.ids().contains_key(counter@) && k@ == self.ids()[counter@],
                None => !self.ids().contains_key(counter@),
            },
    {
        proof {
            lemma_map_of_contains(self.id_entries(), counter@);
        }
        match self.find_id_index(counter) {
            Some(i) => {
                proof {
                    lemma_map_of_index(self.id_entries(), i as int);
                }
                Some(self.identifier_entries[i].1)
            },
            None => None,
        }
    }

    /// Looks a record up in the stake mapping.
    pub fn get_stake(&self, key: &Key) -> (r: Option<Stake>)
        requires
            self.entries_well_formed(),
        ensures
            match r {
                Some(s) => self.stakes().contains_key(key@) && s@ == self.stakes()[key@],
                None => !self.stakes().contains_key(key@),
            },
    {
        proof {
            lemma_map_of_contains(self.stake_entry_views(), key@);
        }
        match self.find_stake_index(key) {
            Some(i) => {
                proof {
                    lemma_map_of_index(self.stake_entry_views(), i as int);
                }
                Some(self.stake_entries[i].1)
            },
            None => None,
        }
    }

    /// Removes a counter's binding from the identifier set. Returns the key
    /// it was bound to, or `None` if it was absent.
    pub fn remove_identifier(&mut self, counter: &Counter) -> (prev: Option<Key>)
        requires
            old(self).entries_well_formed(),
        ensures
            final(self).entries_well_formed(),
            final(self).ids() == old(self).ids().remove(counter@),
            final(self).stakes() == old(self).stakes(),
            final(self).counter_val() == old(self).counter_val(),
            match prev {
                Some(k) => old(self).ids().contains_key(counter@) && k@ == old(self).ids()[
                    counter@
                ],
                None => !old(self).ids().contains_key(counter@),
            },
    {
        proof {
            lemma_map_of_contains(self.id_entries(), counter@);
        }
        match self.find_id_index(counter) {
            Some(i) => {
                proof {
                    lemma_map_of_index(self.id_entries(), i as int);
                    lemma_map_of_remove(self.id_entries(), i as int);
                }
                let previous = self.identifier_entries.remove(i);
                proof {
                    assert(self.id_entries() =~= old(self).id_entries().remove(i as int));
                    assert(self.stake_entry_views() =~= old(self).stake_entry_views());
                }
                Some(previous.1)
            },
            None => {
                proof {
                    assert(final(self).ids() =~= old(self).ids().remove(counter@));
                }
                None
            },
        }
    }

    /// Removes a key's record from the stake mapping. Returns the record it
    /// was bound to, or `None` if it was absent.
    pub fn remove_stake(&mut self, key: &Key) -> (prev: Option<Stake>)
        requires
            old(self).entries_well_formed(),
        ensures
            final(self).entries_well_formed(),
            final(self).stakes() == old(self).stakes().remove(key@),
            final(self).ids() == old(self).ids(),
            final(self).counter_val() == old(self).counter_val(),
            match prev {
                Some(s) => old(self).stakes().contains_key(key@) && s@ == old(self).stakes()[key@],
                None => !old(self).stakes().contains_key(key@),
            },
    {
        proof {
            lemma_map_of_contains(self.stake_entry_views(), key@);
        }
        match self.find_stake_index(key) {
            Some(i) => {
                proof {
                    lemma_map_of_index(self.stake_entry_views(), i as int);
                    lemma_map_of_remove(self.stake_entry_views(), i as int);
                }
                let previous = self.stake_entries.remove(i);
                proof {
                    assert(self.stake_entry_views() =~= old(self).stake_entry_views().remove(
                        i as int,
                    ));
                    assert(self.id_entries() =~= old(self).id_entries());
                }
                Some(previous.1)
            },
            None => {
                proof {
                    assert(final(self).stakes() =~= old(self).stakes().remove(key@));
                }
                None
            },
        }
    }
}

} // verus!
