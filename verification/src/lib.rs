//! BABE consensus: slot and epoch bookkeeping, on-chain randomness collected
//! from VRF outputs, the pre-runtime and consensus digests that carry them,
//! the slot inherent, and the command-line helpers of the chain-spec builder.

pub mod primitives;
pub mod codec;
pub mod digest;
pub mod hashing;
pub mod module;
pub mod inherent;
pub mod chain_spec_builder;
pub mod offence;
pub mod laws;
