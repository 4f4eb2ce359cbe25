//! A stake-management ledger for a proof-of-stake network.
//!
//! The ledger records deposits of value ("stakes") bound to a participant's
//! BLS public key, enforces time-gated eligibility and expiration windows,
//! allows signature-authorized lifecycle extension and withdrawal, and can
//! confiscate ("slash") a stake when evidence of equivocation is presented.
//!
//! Value custody itself is the business of an external transfer ledger: the
//! operations here validate inputs and mutate the local record store, and
//! return a description of the transfer the host must perform. Signature
//! verification is delegated to the BLS12-381 signature scheme.

pub mod data;
pub mod laws;
pub mod lifecycle;
pub mod params;
pub mod seqmap;
pub mod sig;
pub mod store;
