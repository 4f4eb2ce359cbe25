//! Data model of the ledger: counters, keys, stakes, and the plain-value
//! forms of the cryptographic material the ledger logic reads.

use vstd::prelude::*;

verus! {

/// A BLS public key, as its 96-byte serialized form. The ledger never
/// performs curve arithmetic on it: it only compares and stores the bytes,
/// and hands them to the signature verifier.
#[derive(Clone, Copy, Debug)]
pub struct PublicKey {
    pub bytes: [u8; 96],
}

impl View for PublicKey {
    type V = Seq<u8>;

    open spec fn view(&self) -> Seq<u8> {
        self.bytes@
    }
}

/// A BLS signature, as its 48-byte serialized form.
#[derive(Clone, Copy, Debug)]
pub struct Signature {
    pub bytes: [u8; 48],
}

impl View for Signature {
    type V = Seq<u8>;

    open spec fn view(&self) -> Seq<u8> {
        self.bytes@
    }
}

/// A signed message: the canonical 32-byte encoding of a field element of
/// the BLS12-381 scalar field. Two messages are the same exactly when their
/// encodings are, since the encoding is canonical.
#[derive(Clone, Copy, Debug)]
pub struct Message {
    pub bytes: [u8; 32],
}

impl View for Message {
    type V = Seq<u8>;

    open spec fn view(&self) -> Seq<u8> {
        self.bytes@
    }
}

/// What the ledger reads of an obfuscated transfer note: the amount of
/// value it carries. The full note lives with the external transfer ledger;
/// the host converts between the two forms.
#[derive(Clone, Copy, Debug, PartialEq, Eq, Structural)]
pub struct Note {
    pub value: u64,
}

/// A monotonically increasing sequence number. Incremented exactly once per
/// successful stake creation; never reused, never decremented.
#[derive(Clone, Copy, Debug, PartialEq, Eq, Structural)]
pub struct Counter {
    pub value: u64,
}

impl View for Counter {
    type V = u64;

    open spec fn view(&self) -> u64 {
        self.value
    }
}

impl Default for Counter {
    /// The zero element of the sequence.
    fn default() -> (r: Counter)
        ensures
            r@ == 0u64,
    {
        Counter { value: 0 }
    }
}

impl Counter {
    /// Advances the sequence by one.
    pub fn increment(&mut self)
        requires
            old(self)@ < u64::MAX,
        ensures
            final(self)@ == old(self)@ + 1,
    {
        self.value = self.value + 1;
    }
}

/// Mathematical form of a [`Key`].
pub ghost struct KeyV {
    pub pk: Seq<u8>,
    pub w_i: u64,
}

/// Identifies one stake slot: a public key together with the value the
/// ledger's counter had when the stake was created. Two stakes from the
/// same public key always carry different counters.
#[derive(Clone, Copy, Debug)]
pub struct Key {
    pub pk: PublicKey,
    pub w_i: Counter,
}

impl View for Key {
    type V = KeyV;

    open spec fn view(&self) -> KeyV {
        KeyV { pk: self.pk@, w_i: self.w_i@ }
    }
}

/// Mathematical form of a [`Stake`].
pub ghost struct StakeV {
    pub value: u64,
    pub pk: Seq<u8>,
    pub eligibility: u64,
    pub expiration: u64,
}

/// A bonded deposit: an amount of value (fixed point, 10 decimal places),
/// its owner, and the block heights at which it becomes usable and at which
/// it stops being active.
#[derive(Clone, Copy, Debug)]
pub struct Stake {
    pub value: u64,
    pub pk: PublicKey,
    pub eligibility: u64,
    pub expiration: u64,
}

impl View for Stake {
    type V = StakeV;

    open spec fn view(&self) -> StakeV {
        StakeV {
            value: self.value,
            pk: self.pk@,
            eligibility: self.eligibility,
            expiration: self.expiration,
        }
    }
}

/// Byte-for-byte comparison of two fixed-size byte strings.
pub fn bytes_eq<const N: usize>(a: &[u8; N], b: &[u8; N]) -> (r: bool)
    ensures
        r == (a@ == b@),
{
    let mut i: usize = 0;
    while i < N
        invariant
            0 <= i <= N,
            forall|j: int| 0 <= j < i ==> a@[j] == b@[j],
        decreases N - i,
    {
        if a[i] != b[i] {
            assert(a@[i as int] != b@[i as int]);
            return false;
        }
        i = i + 1;
    }
    assert(a@ =~= b@);
    true
}

impl PublicKey {
    /// Whether two public keys are the same key.
    pub fn matches(&self, other: &PublicKey) -> (r: bool)
        ensures
            r == (self@ == other@),
    {
        bytes_eq(&self.bytes, &other.bytes)
    }
}

impl Message {
    /// Whether two messages are the same message.
    pub fn matches(&self, other: &Message) -> (r: bool)
        ensures
            r == (self@ == other@),
    {
        bytes_eq(&self.bytes, &other.bytes)
    }
}

impl Key {
    /// Whether two keys identify the same stake slot.
    pub fn matches(&self, other: &Key) -> (r: bool)
        ensures
            r == (self@ == other@),
    {
        if self.w_i.value != other.w_i.value {
            return false;
        }
        self.pk.matches(&other.pk)
    }
}

} // verus!
