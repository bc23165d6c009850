//! Zero-knowledge notes: their commitments and accumulator, and the proofs about them.

pub mod groth16;
pub mod note;
