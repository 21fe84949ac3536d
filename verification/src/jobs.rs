//! The job types, statuses and event lines of the AI job processor, a
//! sibling of the registry that names its kinds, keeps its defaults and
//! logs its events in the same way.

use vstd::prelude::*;
use vstd::string::*;
use crate::decimal::{decimal_digits, u64_to_decimal};
use crate::events::{json_string_text, standard_event_line, standard_event_text, text_member};

verus! {

/// Supported AI job types.
#[derive(Debug, Clone, Copy, PartialEq, Eq, Structural)]
pub enum JobType {
    DocumentAnalysis,
    ProposalReview,
    CompetitiveResearch,
    GrantMatching,
    WeeklySynthesis,
}

impl JobType {
    /// The kebab-case identifier of the job type.
    pub open spec fn key(self) -> Seq<char> {
        match self {
            JobType::DocumentAnalysis => "document-analysis"@,
            JobType::ProposalReview => "proposal-review"@,
            JobType::CompetitiveResearch => "competitive-research"@,
            JobType::GrantMatching => "grant-matching"@,
            JobType::WeeklySynthesis => "weekly-synthesis"@,
        }
    }

    /// The identifier under which jobs of this type are keyed.
    pub fn as_key(&self) -> (r: String)
        ensures
            r@ == self.key(),
    {
        match self {
            JobType::DocumentAnalysis => String::from_str("document-analysis"),
            JobType::ProposalReview => String::from_str("proposal-review"),
            JobType::CompetitiveResearch => String::from_str("competitive-research"),
            JobType::GrantMatching => String::from_str("grant-matching"),
            JobType::WeeklySynthesis => String::from_str("weekly-synthesis"),
        }
    }
}

/// Job lifecycle status.
#[derive(Debug, Clone, Copy, PartialEq, Eq, Structural)]
pub enum JobStatus {
    Pending,
    Processing,
    Paused,
    Completed,
    Failed,
    Timeout,
}

impl JobStatus {
    /// The lower-case name of the status.
    pub open spec fn name(self) -> Seq<char> {
        match self {
            JobStatus::Pending => "pending"@,
            JobStatus::Processing => "processing"@,
            JobStatus::Paused => "paused"@,
            JobStatus::Completed => "completed"@,
            JobStatus::Failed => "failed"@,
            JobStatus::Timeout => "timeout"@,
        }
    }

    /// A status after which a job does not change any more.
    pub open spec fn terminal(self) -> bool {
        self == JobStatus::Completed || self == JobStatus::Failed || self == JobStatus::Timeout
    }

    /// The lower-case name of the status.
    pub fn as_str(&self) -> (r: &'static str)
        ensures
            r@ == self.name(),
    {
        match self {
            JobStatus::Pending => "pending",
            JobStatus::Processing => "processing",
            JobStatus::Paused => "paused",
            JobStatus::Completed => "completed",
            JobStatus::Failed => "failed",
            JobStatus::Timeout => "timeout",
        }
    }

    /// Whether this is a terminal status (no further transitions allowed).
    pub fn is_terminal(&self) -> (r: bool)
        ensures
            r == self.terminal(),
    {
        match self {
            JobStatus::Completed => true,
            JobStatus::Failed => true,
            JobStatus::Timeout => true,
            _ => false,
        }
    }
}

/// Intermediate checkpoint saved during job processing.
#[derive(Debug, Clone)]
pub struct Checkpoint {
    /// Progress percentage (0 to 100)
    pub progress: u8,
    /// Current processing step description
    pub step: String,
    /// Serialized intermediate state (JSON string)
    pub state: String,
    /// Timestamp in nanoseconds
    pub timestamp: u64,
}

/// Configuration of the job processor.
#[derive(Debug, Clone)]
pub struct Config {
    /// Minimum deposit required to submit a job (yoctoNEAR)
    pub min_deposit: u128,
    /// Maximum active (non-terminal) jobs per user
    pub max_active_jobs_per_user: u32,
    /// Job timeout in nanoseconds (default 10 minutes)
    pub job_timeout_ns: u64,
}

impl Config {
    /// 0.01 NEAR in yoctoNEAR
    pub const DEFAULT_MIN_DEPOSIT: u128 = 10_000_000_000_000_000_000_000;

    /// 5 concurrent jobs per user
    pub const DEFAULT_MAX_ACTIVE_JOBS: u32 = 5;

    /// 10 minutes in nanoseconds
    pub const DEFAULT_JOB_TIMEOUT_NS: u64 = 10 * 60 * 1_000_000_000;
}

impl Default for Config {
    fn default() -> (r: Self)
        ensures
            r.min_deposit == Config::DEFAULT_MIN_DEPOSIT,
            r.max_active_jobs_per_user == Config::DEFAULT_MAX_ACTIVE_JOBS,
            r.job_timeout_ns == Config::DEFAULT_JOB_TIMEOUT_NS,
    {
        Config {
            min_deposit: Config::DEFAULT_MIN_DEPOSIT,
            max_active_jobs_per_user: Config::DEFAULT_MAX_ACTIVE_JOBS,
            job_timeout_ns: Config::DEFAULT_JOB_TIMEOUT_NS,
        }
    }
}

/// Statistics of the job processor.
#[derive(Debug, Clone)]
pub struct Stats {
    pub total_jobs: u64,
    pub pending_jobs: u64,
    pub completed_jobs: u64,
    pub failed_jobs: u64,
    pub registered_workers: u32,
    pub is_paused: bool,
}

/// The payload of `job_checkpointed`.
pub open spec fn job_checkpointed_payload(job_id: Seq<char>, progress: u8, step: Seq<char>) -> Seq<
    char,
> {
    "\"job_id\":"@ + json_string_text(job_id) + ",\"progress\":"@ + decimal_digits(progress as nat)
        + ",\"step\":"@ + json_string_text(step)
}

/// The payload of `job_failed`.
pub open spec fn job_failed_payload(job_id: Seq<char>, error: Seq<char>) -> Seq<char> {
    "\"job_id\":"@ + json_string_text(job_id) + ",\"error\":"@ + json_string_text(error)
}

/// The log line for a checkpoint saved by a job's worker.
pub fn emit_job_checkpointed(job_id: &str, progress: u8, step: &str) -> (r: String)
    ensures
        r@ == standard_event_text(
            "shade-async-ai"@,
            "job_checkpointed"@,
            job_checkpointed_payload(job_id@, progress, step@),
        ),
{
    let mut p = text_member("", "\"job_id\":", job_id);
    p.append(",\"progress\":");
    p.append(u64_to_decimal(progress as u64).as_str());
    let p = text_member(p.as_str(), ",\"step\":", step);
    proof {
        reveal_strlit("");
        assert(""@ + "\"job_id\":"@ =~= "\"job_id\":"@);
    }
    standard_event_line("shade-async-ai", "job_checkpointed", p.as_str())
}

/// The log line for a failed job.
pub fn emit_job_failed(job_id: &str, error: &str) -> (r: String)
    ensures
        r@ == standard_event_text(
            "shade-async-ai"@,
            "job_failed"@,
            job_failed_payload(job_id@, error@),
        ),
{
    let p = text_member("", "\"job_id\":", job_id);
    let p = text_member(p.as_str(), ",\"error\":", error);
    proof {
        reveal_strlit("");
        assert(""@ + "\"job_id\":"@ =~= "\"job_id\":"@);
    }
    standard_event_line("shade-async-ai", "job_failed", p.as_str())
}

} // verus!
