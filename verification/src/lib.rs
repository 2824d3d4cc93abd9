//! Aggregation of proof-of-balance claims for Stellar: many private balance checks become one
//! proof, and one contract call verifies it.
//!
//! - [`witness`]: the claim of one account, a balance and a nonce behind a SHA-256 commitment.
//! - [`batch`]: the guest program, which checks the claims of a batch and reveals one hash.
//! - [`public_inputs`]: what the prover reads back from a run of the guest.
//! - [`contract`]: the rules of the Soroban contract that verifies the aggregated proof.
//! - [`history`]: what holds of the contract over any sequence of invocations.
//! - [`pairing`]: what it means for a proof to be accepted, where the pairing is a bilinear map.
//! - [`cost`]: the cost of verifying claims one by one and as one batch.
//! - [`bn254`], [`digest`], [`encoding`], [`random`], [`stream`]: curve points, hashing, byte
//!   encodings, the seeded generator and the input stream of the guest.

#![allow(unused_imports)]

pub mod batch;
pub mod bn254;
pub mod contract;
pub mod cost;
pub mod digest;
pub mod encoding;
pub mod history;
pub mod pairing;
pub mod public_inputs;
pub mod random;
pub mod stream;
pub mod witness;
