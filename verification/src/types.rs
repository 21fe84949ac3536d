//! The values that cross the registry's boundary.

use vstd::prelude::*;
use vstd::string::*;

verus! {

/// The texts of a sequence of strings.
pub open spec fn texts(v: Seq<String>) -> Seq<Seq<char>> {
    Seq::new(v.len(), |i: int| v[i]@)
}

/// The texts of a sequence of string rows.
pub open spec fn text_rows(v: Seq<Vec<String>>) -> Seq<Seq<Seq<char>>> {
    Seq::new(v.len(), |i: int| texts(v[i]@))
}

/// Circuit types supported by the verifier.
#[derive(Debug, Clone, Copy, PartialEq, Eq, Hash, Structural)]
pub enum CircuitType {
    VerifiedBuilder,
    GrantTrackRecord,
    TeamAttestation,
}

impl CircuitType {
    /// The kebab-case identifier of the circuit type.
    pub open spec fn key(self) -> Seq<char> {
        match self {
            CircuitType::VerifiedBuilder => "verified-builder"@,
            CircuitType::GrantTrackRecord => "grant-track-record"@,
            CircuitType::TeamAttestation => "team-attestation"@,
        }
    }

    /// Returns a string key suitable for storage map lookups.
    pub fn as_key(&self) -> (r: String)
        ensures
            r@ == self.key(),
    {
        match self {
            CircuitType::VerifiedBuilder => String::from_str("verified-builder"),
            CircuitType::GrantTrackRecord => String::from_str("grant-track-record"),
            CircuitType::TeamAttestation => String::from_str("team-attestation"),
        }
    }
}

/// Distinct circuit types have distinct keys.
pub proof fn lemma_circuit_keys_distinct(a: CircuitType, b: CircuitType)
    ensures
        a.key() == b.key() <==> a == b,
{
    reveal_strlit("verified-builder");
    reveal_strlit("grant-track-record");
    reveal_strlit("team-attestation");
    if a != b {
        assert(a.key()[0] != b.key()[0]);
    }
}

/// Groth16 proof in the wire format of snarkjs.
#[derive(Debug, Clone)]
pub struct Groth16Proof {
    /// G1 point: [x, y, "1"]
    pub pi_a: Vec<String>,
    /// G2 point: [[x_c1, x_c0], [y_c1, y_c0], ["1", "0"]]
    pub pi_b: Vec<Vec<String>>,
    /// G1 point: [x, y, "1"]
    pub pi_c: Vec<String>,
}

/// Verification key for a Groth16 circuit.
#[derive(Debug, Clone)]
pub struct VerificationKey {
    /// Alpha G1 point
    pub alpha: Vec<String>,
    /// Beta G2 point
    pub beta: Vec<Vec<String>>,
    /// Gamma G2 point
    pub gamma: Vec<Vec<String>>,
    /// Delta G2 point
    pub delta: Vec<Vec<String>>,
    /// IC (input commitment) G1 points, one more than there are public inputs
    pub ic: Vec<Vec<String>>,
}

/// Input to the verify_proof method.
#[derive(Debug, Clone)]
pub struct VerifyProofInput {
    pub circuit_type: CircuitType,
    pub proof: Groth16Proof,
    pub public_signals: Vec<String>,
    /// If true, store a credential after successful verification
    pub store_credential: bool,
    /// Optional custom expiration in seconds from now
    pub custom_expiration: Option<u64>,
    /// Optional claim text to attach to the credential
    pub claim: Option<String>,
}

/// Credential stored after successful proof verification.
#[derive(Debug)]
pub struct Credential {
    pub id: String,
    pub owner: String,
    pub circuit_type: CircuitType,
    pub public_signals: Vec<String>,
    pub verified_at: u64,
    pub expires_at: u64,
    pub claim: Option<String>,
}

/// A `Credential` with its texts as character sequences.
pub struct CredentialView {
    pub id: Seq<char>,
    pub owner: Seq<char>,
    pub circuit_type: CircuitType,
    pub public_signals: Seq<Seq<char>>,
    pub verified_at: u64,
    pub expires_at: u64,
    pub claim: Option<Seq<char>>,
}

/// The text of an optional string.
pub open spec fn optional_text(s: Option<String>) -> Option<Seq<char>> {
    match s {
        Some(t) => Some(t@),
        None => None,
    }
}

impl View for Credential {
    type V = CredentialView;

    open spec fn view(&self) -> CredentialView {
        CredentialView {
            id: self.id@,
            owner: self.owner@,
            circuit_type: self.circuit_type,
            public_signals: texts(self.public_signals@),
            verified_at: self.verified_at,
            expires_at: self.expires_at,
            claim: optional_text(self.claim),
        }
    }
}

/// A copy of a list of strings.
pub fn clone_strings(v: &Vec<String>) -> (r: Vec<String>)
    ensures
        texts(r@) == texts(v@),
{
    let mut r: Vec<String> = Vec::new();
    let mut i: usize = 0;
    while i < v.len()
        invariant
            0 <= i <= v.len(),
            r.len() == i,
            forall|k: int| 0 <= k < i ==> (#[trigger] r[k])@ == v[k]@,
        decreases v.len() - i,
    {
        r.push(v[i].clone());
        i += 1;
    }
    assert(texts(r@) =~= texts(v@));
    r
}

/// A copy of an optional string.
pub fn clone_optional_string(s: &Option<String>) -> (r: Option<String>)
    ensures
        optional_text(r) == optional_text(*s),
{
    match s {
        Some(t) => Some(t.clone()),
        None => None,
    }
}

impl Clone for Credential {
    fn clone(&self) -> (r: Self)
        ensures
            r@ == self@,
    {
        Credential {
            id: self.id.clone(),
            owner: self.owner.clone(),
            circuit_type: self.circuit_type,
            public_signals: clone_strings(&self.public_signals),
            verified_at: self.verified_at,
            expires_at: self.expires_at,
            claim: clone_optional_string(&self.claim),
        }
    }
}

/// Result returned from verify_proof.
#[derive(Debug, Clone)]
pub struct VerificationResult {
    pub valid: bool,
    pub credential_id: Option<String>,
    pub gas_used: u64,
}

/// Contract configuration.
#[derive(Debug, Clone)]
pub struct ContractConfig {
    pub owner: String,
    pub proposed_owner: Option<String>,
    pub is_paused: bool,
    /// Default credential expiration in seconds (30 days)
    pub default_expiration_secs: u64,
    /// Required storage deposit in yoctoNEAR (0.01 NEAR)
    pub storage_cost_per_credential: u128,
}

impl ContractConfig {
    /// 30 days in seconds
    pub const DEFAULT_EXPIRATION_SECS: u64 = 30 * 24 * 60 * 60;

    /// 0.01 NEAR in yoctoNEAR
    pub const DEFAULT_STORAGE_COST: u128 = 10_000_000_000_000_000_000_000;
}

/// Paginated credentials response.
#[derive(Debug, Clone)]
pub struct PaginatedCredentials {
    pub credentials: Vec<Credential>,
    pub total: u32,
    pub has_more: bool,
}

/// Contract statistics.
#[derive(Debug, Clone)]
pub struct ContractStats {
    pub total_verifications: u64,
    pub total_credentials: u64,
    pub is_paused: bool,
    pub verification_keys_registered: u32,
}

} // verus!
