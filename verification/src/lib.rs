//! A proof-commitment and attestation registry.
//!
//! Anonymous sources publish cryptographic commitments about intelligence
//! claims; independent verifiers attest to them with bounded confidence
//! scores. The registry aggregates attestations per proof, derives a
//! verification status, keeps per-source statistics, and computes a bounded
//! reputation score per source. Only hashes and scores are ever stored.
//!
//! Around that core stand the adjacent ledgers of the same platform: a
//! per-account content-pointer registry, a feed of sources, posts and
//! access passes, a source-list token ledger with ratings and royalty
//! splits, and the key-custody half of a decrypt-on-access content
//! gate.

pub mod hex;
pub mod types;
pub mod reputation;
pub mod data_registry;
pub mod gate;
pub mod feed;
pub mod source_list;
pub mod registry;
