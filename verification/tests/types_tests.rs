use zk_verifier::decimal::{decimal_less_than, is_canonical, u128_to_decimal, u64_to_decimal};
use zk_verifier::errors::ContractError;
use zk_verifier::agents::{emit_template_audited, AgentStatus, Capability};
use zk_verifier::jobs::{emit_job_checkpointed, emit_job_failed, Config, JobStatus, JobType};
use zk_verifier::types::CircuitType;

#[test]
fn circuit_type_as_key() {
    assert_eq!(CircuitType::VerifiedBuilder.as_key(), "verified-builder");
    assert_eq!(CircuitType::GrantTrackRecord.as_key(), "grant-track-record");
    assert_eq!(CircuitType::TeamAttestation.as_key(), "team-attestation");
}

#[test]
fn errors_error_display() {
    let err = ContractError::VerificationKeyNotFound("verified-builder".into());
    assert!(err.message().contains("verified-builder"));

    let err = ContractError::InsufficientDeposit {
        required: 100,
        attached: 50,
    };
    assert!(err.message().contains("100"));
    assert!(err.message().contains("50"));
}

#[test]
fn job_type_as_key() {
    assert_eq!(JobType::DocumentAnalysis.as_key(), "document-analysis");
    assert_eq!(JobType::ProposalReview.as_key(), "proposal-review");
    assert_eq!(JobType::CompetitiveResearch.as_key(), "competitive-research");
    assert_eq!(JobType::GrantMatching.as_key(), "grant-matching");
    assert_eq!(JobType::WeeklySynthesis.as_key(), "weekly-synthesis");
}

#[test]
fn job_status_terminal() {
    assert!(!JobStatus::Pending.is_terminal());
    assert!(!JobStatus::Processing.is_terminal());
    assert!(!JobStatus::Paused.is_terminal());
    assert!(JobStatus::Completed.is_terminal());
    assert!(JobStatus::Failed.is_terminal());
    assert!(JobStatus::Timeout.is_terminal());
}

#[test]
fn default_config() {
    let config = Config::default();
    assert_eq!(config.min_deposit, Config::DEFAULT_MIN_DEPOSIT);
    assert_eq!(config.max_active_jobs_per_user, Config::DEFAULT_MAX_ACTIVE_JOBS);
    assert_eq!(config.job_timeout_ns, Config::DEFAULT_JOB_TIMEOUT_NS);
}

#[test]
fn job_status_names() {
    assert_eq!(JobStatus::Pending.as_str(), "pending");
    assert_eq!(JobStatus::Processing.as_str(), "processing");
    assert_eq!(JobStatus::Paused.as_str(), "paused");
    assert_eq!(JobStatus::Completed.as_str(), "completed");
    assert_eq!(JobStatus::Failed.as_str(), "failed");
    assert_eq!(JobStatus::Timeout.as_str(), "timeout");
}

#[test]
fn every_error_has_its_message() {
    assert_eq!(
        ContractError::VerificationKeyNotFound("verified-builder".into()).message(),
        "No verification key registered for circuit: verified-builder"
    );
    assert_eq!(
        ContractError::ProofVerificationFailed.message(),
        "Groth16 proof verification failed"
    );
    assert_eq!(
        ContractError::InvalidProofFormat("bad".into()).message(),
        "Invalid proof format: bad"
    );
    assert_eq!(
        ContractError::InvalidPublicSignals("bad".into()).message(),
        "Invalid public signals: bad"
    );
    assert_eq!(ContractError::ContractPaused.message(), "Contract is paused");
    assert_eq!(
        ContractError::Unauthorized.message(),
        "Unauthorized: caller is not contract owner"
    );
    assert_eq!(
        ContractError::CredentialNotFound("cred-1".into()).message(),
        "Credential not found: cred-1"
    );
    assert_eq!(
        ContractError::CredentialExpired("cred-1".into()).message(),
        "Credential has expired: cred-1"
    );
    assert_eq!(
        ContractError::InsufficientDeposit {
            required: 10_000_000_000_000_000_000_000,
            attached: 0
        }
        .message(),
        "Insufficient deposit: required 10000000000000000000000 yoctoNEAR, attached 0"
    );
    assert_eq!(
        ContractError::InvalidVerificationKey("bad".into()).message(),
        "Invalid verification key: bad"
    );
    assert_eq!(
        ContractError::InvalidExpiration("bad".into()).message(),
        "Invalid expiration: bad"
    );
    assert_eq!(
        ContractError::CredentialIdUnavailable("cred-1".into()).message(),
        "Credential id unavailable: cred-1"
    );
    assert_eq!(ContractError::CounterOverflow.message(), "Counter overflow");
}

#[test]
fn decimal_numerals() {
    assert_eq!(u128_to_decimal(0), "0");
    assert_eq!(u128_to_decimal(9), "9");
    assert_eq!(u128_to_decimal(10), "10");
    assert_eq!(u128_to_decimal(u128::MAX), u128::MAX.to_string());
    assert_eq!(u64_to_decimal(2_592_000), "2592000");
    assert!(is_canonical("0"));
    assert!(is_canonical("120"));
    assert!(!is_canonical(""));
    assert!(!is_canonical("012"));
    assert!(!is_canonical("12a"));
    assert!(decimal_less_than("9", "10"));
    assert!(decimal_less_than("199", "200"));
    assert!(!decimal_less_than("200", "200"));
    assert!(!decimal_less_than("201", "200"));
    assert!(!decimal_less_than("1000", "999"));
    assert!(decimal_less_than("0", "1"));
}

#[test]
fn capability_names() {
    assert_eq!(Capability::ReadDocuments.as_str(), "read-documents");
    assert_eq!(Capability::WriteDocuments.as_str(), "write-documents");
    assert_eq!(Capability::AiChat.as_str(), "ai-chat");
    assert_eq!(Capability::AiAnalysis.as_str(), "ai-analysis");
    assert_eq!(Capability::BlockchainRead.as_str(), "blockchain-read");
    assert_eq!(Capability::BlockchainWrite.as_str(), "blockchain-write");
    assert_eq!(Capability::IpfsRead.as_str(), "ipfs-read");
    assert_eq!(Capability::IpfsWrite.as_str(), "ipfs-write");
    assert_eq!(Capability::SocialRead.as_str(), "social-read");
    assert_eq!(Capability::SocialWrite.as_str(), "social-write");
}

#[test]
fn agent_status_names() {
    assert_eq!(AgentStatus::Active.as_str(), "active");
    assert_eq!(AgentStatus::Paused.as_str(), "paused");
    assert_eq!(AgentStatus::Deactivated.as_str(), "deactivated");
}

#[test]
fn sibling_event_lines() {
    assert_eq!(
        emit_job_checkpointed("job-1", 40, "read \"a\""),
        "EVENT_JSON:{\"standard\":\"shade-async-ai\",\"version\":\"1.0.0\",\"event\":\"job_checkpointed\",\"data\":[{\"job_id\":\"job-1\",\"progress\":40,\"step\":\"read \\\"a\\\"\"}]}"
    );
    assert_eq!(
        emit_job_checkpointed("job-1", 255, ""),
        "EVENT_JSON:{\"standard\":\"shade-async-ai\",\"version\":\"1.0.0\",\"event\":\"job_checkpointed\",\"data\":[{\"job_id\":\"job-1\",\"progress\":255,\"step\":\"\"}]}"
    );
    assert_eq!(
        emit_job_failed("job-1", "timed out"),
        "EVENT_JSON:{\"standard\":\"shade-async-ai\",\"version\":\"1.0.0\",\"event\":\"job_failed\",\"data\":[{\"job_id\":\"job-1\",\"error\":\"timed out\"}]}"
    );
    assert_eq!(
        emit_template_audited("tmpl-1"),
        "EVENT_JSON:{\"standard\":\"shade-agent-registry\",\"version\":\"1.0.0\",\"event\":\"template_audited\",\"data\":[{\"template_id\":\"tmpl-1\"}]}"
    );
}
