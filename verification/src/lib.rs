//! Verified core of a private-note vault: Groth16 proof checking over BN254, note commitments
//! and their leaf accumulator, and the rent of vault balances.

pub mod bytes;
pub mod curve;
pub mod error;
pub mod host;
pub mod vaults;
pub mod zk;

pub use error::ContractError;
