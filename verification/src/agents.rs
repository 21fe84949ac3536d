//! The capabilities, statuses and event lines of the agent registry, a
//! sibling of the credential registry that names its kinds and logs its
//! events in the same way.

use vstd::prelude::*;
use vstd::string::*;
use crate::events::{json_string_text, standard_event_line, standard_event_text, text_member};

verus! {

/// Agent capability types.
#[derive(Debug, Clone, Copy, PartialEq, Eq, Structural)]
pub enum Capability {
    ReadDocuments,
    WriteDocuments,
    AiChat,
    AiAnalysis,
    BlockchainRead,
    BlockchainWrite,
    IpfsRead,
    IpfsWrite,
    SocialRead,
    SocialWrite,
}

impl Capability {
    /// The kebab-case name of the capability.
    pub open spec fn name(self) -> Seq<char> {
        match self {
            Capability::ReadDocuments => "read-documents"@,
            Capability::WriteDocuments => "write-documents"@,
            Capability::AiChat => "ai-chat"@,
            Capability::AiAnalysis => "ai-analysis"@,
            Capability::BlockchainRead => "blockchain-read"@,
            Capability::BlockchainWrite => "blockchain-write"@,
            Capability::IpfsRead => "ipfs-read"@,
            Capability::IpfsWrite => "ipfs-write"@,
            Capability::SocialRead => "social-read"@,
            Capability::SocialWrite => "social-write"@,
        }
    }

    /// The kebab-case name of the capability.
    pub fn as_str(&self) -> (r: &'static str)
        ensures
            r@ == self.name(),
    {
        match self {
            Capability::ReadDocuments => "read-documents",
            Capability::WriteDocuments => "write-documents",
            Capability::AiChat => "ai-chat",
            Capability::AiAnalysis => "ai-analysis",
            Capability::BlockchainRead => "blockchain-read",
            Capability::BlockchainWrite => "blockchain-write",
            Capability::IpfsRead => "ipfs-read",
            Capability::IpfsWrite => "ipfs-write",
            Capability::SocialRead => "social-read",
            Capability::SocialWrite => "social-write",
        }
    }
}

/// Agent instance lifecycle status.
#[derive(Debug, Clone, Copy, PartialEq, Eq, Structural)]
pub enum AgentStatus {
    Active,
    Paused,
    Deactivated,
}

impl AgentStatus {
    /// The lower-case name of the status.
    pub open spec fn name(self) -> Seq<char> {
        match self {
            AgentStatus::Active => "active"@,
            AgentStatus::Paused => "paused"@,
            AgentStatus::Deactivated => "deactivated"@,
        }
    }

    /// The lower-case name of the status.
    pub fn as_str(&self) -> (r: &'static str)
        ensures
            r@ == self.name(),
    {
        match self {
            AgentStatus::Active => "active",
            AgentStatus::Paused => "paused",
            AgentStatus::Deactivated => "deactivated",
        }
    }
}

/// The payload of `template_audited`.
pub open spec fn template_audited_payload(template_id: Seq<char>) -> Seq<char> {
    "\"template_id\":"@ + json_string_text(template_id)
}

/// The log line for a template that was marked as audited.
pub fn emit_template_audited(template_id: &str) -> (r: String)
    ensures
        r@ == standard_event_text(
            "shade-agent-registry"@,
            "template_audited"@,
            template_audited_payload(template_id@),
        ),
{
    let p = text_member("", "\"template_id\":", template_id);
    proof {
        reveal_strlit("");
        assert(""@ + "\"template_id\":"@ =~= "\"template_id\":"@);
    }
    standard_event_line("shade-agent-registry", "template_audited", p.as_str())
}

} // verus!
