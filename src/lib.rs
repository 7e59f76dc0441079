//! Password-protected secret sharing over BLS12-381: a threshold oblivious-PRF
//! scheme, Shamir secret sharing, domain-separated hashing, and Schnorr
//! signatures.
pub mod error;
pub mod field;
pub mod group;
pub mod hashing;
pub mod ppss;
pub mod schnorr;
pub mod shamir;
