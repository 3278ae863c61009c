//! Decentralized identity primitives: a DID registry, verifiable credentials,
//! and tiered KYC verification, each with its state and operations verified.

pub mod bytes;
pub mod credentials;
pub mod did;
pub mod kyc;
pub mod hash;
pub mod store;
