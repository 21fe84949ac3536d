//! Groth16 proof verification over BN254 and the credential registry built on it.

pub mod agents;
pub mod contract;
pub mod curve;
pub mod decimal;
pub mod errors;
pub mod events;
pub mod groth16;
pub mod jobs;
pub mod storage;
pub mod string_set;
pub mod types;

pub use contract::{Logged, ZKVerifier};
pub use errors::ContractError;
pub use groth16::verify_groth16_proof;
pub use types::{
    CircuitType, ContractConfig, ContractStats, Credential, Groth16Proof, PaginatedCredentials,
    VerificationKey, VerificationResult, VerifyProofInput,
};
