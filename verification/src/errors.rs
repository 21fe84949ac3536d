//! The reasons for which the registry refuses a call.

use vstd::prelude::*;
use vstd::string::*;
use crate::decimal::{decimal_digits, u128_to_decimal};

verus! {

/// Why a call was refused.
#[derive(Debug)]
pub enum ContractError {
    /// No verification key registered for the given circuit type
    VerificationKeyNotFound(String),
    /// Groth16 proof verification failed (pairing check)
    ProofVerificationFailed,
    /// Proof format is invalid (wrong number of elements, non-numeric strings)
    InvalidProofFormat(String),
    /// Public signals count doesn't match verification key IC length
    InvalidPublicSignals(String),
    /// Contract is paused, no operations allowed
    ContractPaused,
    /// Caller is not the contract owner
    Unauthorized,
    /// Credential not found by ID
    CredentialNotFound(String),
    /// Credential has expired
    CredentialExpired(String),
    /// Attached deposit is less than required storage cost
    InsufficientDeposit { required: u128, attached: u128 },
    /// Verification key format is invalid
    InvalidVerificationKey(String),
    /// Expiration period is zero or reaches beyond the range of the clock
    InvalidExpiration(String),
    /// The id that the next credential would take is in use or revoked
    CredentialIdUnavailable(String),
    /// A counter cannot grow any more
    CounterOverflow,
}

/// A `ContractError` with its texts as character sequences.
pub enum ErrorView {
    VerificationKeyNotFound(Seq<char>),
    ProofVerificationFailed,
    InvalidProofFormat(Seq<char>),
    InvalidPublicSignals(Seq<char>),
    ContractPaused,
    Unauthorized,
    CredentialNotFound(Seq<char>),
    CredentialExpired(Seq<char>),
    InsufficientDeposit { required: u128, attached: u128 },
    InvalidVerificationKey(Seq<char>),
    InvalidExpiration(Seq<char>),
    CredentialIdUnavailable(Seq<char>),
    CounterOverflow,
}

impl ErrorView {
    /// The text shown for this error.
    pub open spec fn message(self) -> Seq<char> {
        match self {
            ErrorView::VerificationKeyNotFound(ct) => "No verification key registered for circuit: "@
                + ct,
            ErrorView::ProofVerificationFailed => "Groth16 proof verification failed"@,
            ErrorView::InvalidProofFormat(msg) => "Invalid proof format: "@ + msg,
            ErrorView::InvalidPublicSignals(msg) => "Invalid public signals: "@ + msg,
            ErrorView::ContractPaused => "Contract is paused"@,
            ErrorView::Unauthorized => "Unauthorized: caller is not contract owner"@,
            ErrorView::CredentialNotFound(id) => "Credential not found: "@ + id,
            ErrorView::CredentialExpired(id) => "Credential has expired: "@ + id,
            ErrorView::InsufficientDeposit { required, attached } => "Insufficient deposit: required "@
                + decimal_digits(required as nat) + " yoctoNEAR, attached "@ + decimal_digits(
                attached as nat,
            ),
            ErrorView::InvalidVerificationKey(msg) => "Invalid verification key: "@ + msg,
            ErrorView::InvalidExpiration(msg) => "Invalid expiration: "@ + msg,
            ErrorView::CredentialIdUnavailable(id) => "Credential id unavailable: "@ + id,
            ErrorView::CounterOverflow => "Counter overflow"@,
        }
    }
}

impl View for ContractError {
    type V = ErrorView;

    open spec fn view(&self) -> ErrorView {
        match self {
            ContractError::VerificationKeyNotFound(ct) => ErrorView::VerificationKeyNotFound(ct@),
            ContractError::ProofVerificationFailed => ErrorView::ProofVerificationFailed,
            ContractError::InvalidProofFormat(msg) => ErrorView::InvalidProofFormat(msg@),
            ContractError::InvalidPublicSignals(msg) => ErrorView::InvalidPublicSignals(msg@),
            ContractError::ContractPaused => ErrorView::ContractPaused,
            ContractError::Unauthorized => ErrorView::Unauthorized,
            ContractError::CredentialNotFound(id) => ErrorView::CredentialNotFound(id@),
            ContractError::CredentialExpired(id) => ErrorView::CredentialExpired(id@),
            ContractError::InsufficientDeposit { required, attached } => {
                ErrorView::InsufficientDeposit { required: *required, attached: *attached }
            },
            ContractError::InvalidVerificationKey(msg) => ErrorView::InvalidVerificationKey(msg@),
            ContractError::InvalidExpiration(msg) => ErrorView::InvalidExpiration(msg@),
            ContractError::CredentialIdUnavailable(id) => ErrorView::CredentialIdUnavailable(id@),
            ContractError::CounterOverflow => ErrorView::CounterOverflow,
        }
    }
}

/// `prefix` followed by `rest`.
fn prefixed(prefix: &str, rest: &str) -> (r: String)
    ensures
        r@ == prefix@ + rest@,
{
    let mut s = String::from_str(prefix);
    s.append(rest);
    s
}

impl ContractError {
    /// The text shown for this error.
    pub fn message(&self) -> (r: String)
        ensures
            r@ == self@.message(),
    {
        match self {
            ContractError::VerificationKeyNotFound(ct) => prefixed(
                "No verification key registered for circuit: ",
                ct.as_str(),
            ),
            ContractError::ProofVerificationFailed => String::from_str(
                "Groth16 proof verification failed",
            ),
            ContractError::InvalidProofFormat(msg) => prefixed("Invalid proof format: ", msg.as_str()),
            ContractError::InvalidPublicSignals(msg) => prefixed(
                "Invalid public signals: ",
                msg.as_str(),
            ),
            ContractError::ContractPaused => String::from_str("Contract is paused"),
            ContractError::Unauthorized => String::from_str(
                "Unauthorized: caller is not contract owner",
            ),
            ContractError::CredentialNotFound(id) => prefixed("Credential not found: ", id.as_str()),
            ContractError::CredentialExpired(id) => prefixed("Credential has expired: ", id.as_str()),
            ContractError::InsufficientDeposit { required, attached } => {
                let mut s = prefixed(
                    "Insufficient deposit: required ",
                    u128_to_decimal(*required).as_str(),
                );
                s.append(" yoctoNEAR, attached ");
                s.append(u128_to_decimal(*attached).as_str());
                s
            },
            ContractError::InvalidVerificationKey(msg) => prefixed(
                "Invalid verification key: ",
                msg.as_str(),
            ),
            ContractError::InvalidExpiration(msg) => prefixed("Invalid expiration: ", msg.as_str()),
            ContractError::CredentialIdUnavailable(id) => prefixed(
                "Credential id unavailable: ",
                id.as_str(),
            ),
            ContractError::CounterOverflow => String::from_str("Counter overflow"),
        }
    }
}

} // verus!
