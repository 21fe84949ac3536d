//! The structured log lines of the registry's events.
//!
//! Each function returns the line to log: `EVENT_JSON:` followed by a
//! compact JSON object with the keys `standard`, `version`, `event` and
//! `data`, in that order, where `data` is an array that holds the event's
//! payload. The registry's events go under the standard
//! `shade-zk-verifier`.

use vstd::prelude::*;
use vstd::string::*;
use crate::decimal::{decimal_digits, u64_to_decimal};

verus! {

/// The JSON string literal for a text: the text in double quotes, with
/// the escapes that JSON asks for.
pub uninterp spec fn json_string_text(s: Seq<char>) -> Seq<char>;

/// Calls `Display` for `serde_json::Value::String`, which writes the JSON
/// string literal of the text it holds.
#[verifier::external_body]
fn json_string(s: &str) -> (r: String)
    ensures
        r@ == json_string_text(s@),
{
    serde_json::Value::String(s.to_owned()).to_string()
}

/// The JSON literal for a truth value.
pub open spec fn json_bool_text(b: bool) -> Seq<char> {
    if b {
        "true"@
    } else {
        "false"@
    }
}

/// The JSON literal for an optional text: `null` where there is none.
pub open spec fn json_optional_text(s: Option<Seq<char>>) -> Seq<char> {
    match s {
        Some(t) => json_string_text(t),
        None => "null"@,
    }
}

/// The log line of the event `name` of the contract whose events go under
/// `standard`, with the members `payload` in its data object.
pub open spec fn standard_event_text(
    standard: Seq<char>,
    name: Seq<char>,
    payload: Seq<char>,
) -> Seq<char> {
    "EVENT_JSON:{\"standard\":\""@ + standard + "\",\"version\":\"1.0.0\",\"event\":\""@ + name
        + "\",\"data\":[{"@ + payload + "}]}"@
}

/// The log line of the registry's event `name` with the members `payload`
/// in its data object.
pub open spec fn event_text(name: Seq<char>, payload: Seq<char>) -> Seq<char> {
    standard_event_text("shade-zk-verifier"@, name, payload)
}

/// The payload of `verification_key_set`.
pub open spec fn verification_key_set_payload(circuit_type: Seq<char>, updated: bool) -> Seq<char> {
    "\"circuit_type\":"@ + json_string_text(circuit_type) + ",\"updated\":"@ + json_bool_text(
        updated,
    )
}

/// The payload of `proof_verified`.
pub open spec fn proof_verified_payload(
    circuit_type: Seq<char>,
    valid: bool,
    credential_id: Option<Seq<char>>,
) -> Seq<char> {
    "\"circuit_type\":"@ + json_string_text(circuit_type) + ",\"valid\":"@ + json_bool_text(valid)
        + ",\"credential_id\":"@ + json_optional_text(credential_id)
}

/// The payload of `credential_stored`.
pub open spec fn credential_stored_payload(
    credential_id: Seq<char>,
    owner: Seq<char>,
    circuit_type: Seq<char>,
    expires_at: u64,
) -> Seq<char> {
    "\"credential_id\":"@ + json_string_text(credential_id) + ",\"owner\":"@ + json_string_text(
        owner,
    ) + ",\"circuit_type\":"@ + json_string_text(circuit_type) + ",\"expires_at\":"@
        + decimal_digits(expires_at as nat)
}

/// The payload of `credential_removed`.
pub open spec fn credential_removed_payload(credential_id: Seq<char>, removed_by: Seq<char>) -> Seq<
    char,
> {
    "\"credential_id\":"@ + json_string_text(credential_id) + ",\"removed_by\":"@
        + json_string_text(removed_by)
}

/// The payload of `credential_revoked`.
pub open spec fn credential_revoked_payload(
    credential_id: Seq<char>,
    revoked_by: Seq<char>,
    reason: Seq<char>,
) -> Seq<char> {
    "\"credential_id\":"@ + json_string_text(credential_id) + ",\"revoked_by\":"@
        + json_string_text(revoked_by) + ",\"reason\":"@ + json_string_text(reason)
}

/// The payload of `contract_paused`.
pub open spec fn contract_paused_payload(paused: bool) -> Seq<char> {
    "\"paused\":"@ + json_bool_text(paused)
}

/// The payload of `ownership_proposed`.
pub open spec fn ownership_proposed_payload(
    current_owner: Seq<char>,
    proposed_owner: Seq<char>,
) -> Seq<char> {
    "\"current_owner\":"@ + json_string_text(current_owner) + ",\"proposed_owner\":"@
        + json_string_text(proposed_owner)
}

/// The payload of `ownership_transferred`.
pub open spec fn ownership_transferred_payload(old_owner: Seq<char>, new_owner: Seq<char>) -> Seq<
    char,
> {
    "\"old_owner\":"@ + json_string_text(old_owner) + ",\"new_owner\":"@ + json_string_text(
        new_owner,
    )
}

/// The payload of `admin_added` and of `admin_removed`.
pub open spec fn admin_changed_payload(account: Seq<char>) -> Seq<char> {
    "\"account\":"@ + json_string_text(account)
}

fn json_bool(b: bool) -> (r: &'static str)
    ensures
        r@ == json_bool_text(b),
{
    if b {
        "true"
    } else {
        "false"
    }
}

/// `"key":` followed by the JSON string literal of `value`, after `lead`.
pub fn text_member(lead: &str, key: &str, value: &str) -> (r: String)
    ensures
        r@ == lead@ + key@ + json_string_text(value@),
{
    let mut s = String::from_str(lead);
    s.append(key);
    s.append(json_string(value).as_str());
    s
}

/// The log line of the event `name` of the contract whose events go under
/// `standard`, with the members `payload` in its data object.
pub fn standard_event_line(standard: &str, name: &str, payload: &str) -> (r: String)
    ensures
        r@ == standard_event_text(standard@, name@, payload@),
{
    let mut s = String::from_str("EVENT_JSON:{\"standard\":\"");
    s.append(standard);
    s.append("\",\"version\":\"1.0.0\",\"event\":\"");
    s.append(name);
    s.append("\",\"data\":[{");
    s.append(payload);
    s.append("}]}");
    s
}

/// The log line of the registry's event `name` with the members `payload`
/// in its data object.
fn event_line(name: &str, payload: &str) -> (r: String)
    ensures
        r@ == event_text(name@, payload@),
{
    standard_event_line("shade-zk-verifier", name, payload)
}

/// The log line for the installation of a verification key.
pub fn emit_verification_key_set(circuit_type: &str, updated: bool) -> (r: String)
    ensures
        r@ == event_text(
            "verification_key_set"@,
            verification_key_set_payload(circuit_type@, updated),
        ),
{
    let mut p = text_member("", "\"circuit_type\":", circuit_type);
    p.append(",\"updated\":");
    p.append(json_bool(updated));
    proof {
        reveal_strlit("");
        assert(""@ + "\"circuit_type\":"@ =~= "\"circuit_type\":"@);
    }
    event_line("verification_key_set", p.as_str())
}

/// The log line for a verification, valid or not.
pub fn emit_proof_verified(circuit_type: &str, valid: bool, credential_id: Option<&str>) -> (r:
    String)
    ensures
        r@ == event_text(
            "proof_verified"@,
            proof_verified_payload(
                circuit_type@,
                valid,
                match credential_id {
                    Some(id) => Some(id@),
                    None => None,
                },
            ),
        ),
{
    let mut p = text_member("", "\"circuit_type\":", circuit_type);
    p.append(",\"valid\":");
    p.append(json_bool(valid));
    p.append(",\"credential_id\":");
    match credential_id {
        Some(id) => {
            p.append(json_string(id).as_str());
        },
        None => {
            p.append("null");
        },
    }
    proof {
        reveal_strlit("");
        assert(""@ + "\"circuit_type\":"@ =~= "\"circuit_type\":"@);
    }
    event_line("proof_verified", p.as_str())
}

/// The log line for a stored credential.
pub fn emit_credential_stored(
    credential_id: &str,
    owner: &str,
    circuit_type: &str,
    expires_at: u64,
) -> (r: String)
    ensures
        r@ == event_text(
            "credential_stored"@,
            credential_stored_payload(credential_id@, owner@, circuit_type@, expires_at),
        ),
{
    let p = text_member("", "\"credential_id\":", credential_id);
    let p = text_member(p.as_str(), ",\"owner\":", owner);
    let mut p = text_member(p.as_str(), ",\"circuit_type\":", circuit_type);
    p.append(",\"expires_at\":");
    p.append(u64_to_decimal(expires_at).as_str());
    proof {
        reveal_strlit("");
        assert(""@ + "\"credential_id\":"@ =~= "\"credential_id\":"@);
    }
    event_line("credential_stored", p.as_str())
}

/// The log line for a credential removed by its owner.
pub fn emit_credential_removed(credential_id: &str, removed_by: &str) -> (r: String)
    ensures
        r@ == event_text(
            "credential_removed"@,
            credential_removed_payload(credential_id@, removed_by@),
        ),
{
    let p = text_member("", "\"credential_id\":", credential_id);
    let p = text_member(p.as_str(), ",\"removed_by\":", removed_by);
    proof {
        reveal_strlit("");
        assert(""@ + "\"credential_id\":"@ =~= "\"credential_id\":"@);
    }
    event_line("credential_removed", p.as_str())
}

/// The log line for a revoked credential.
pub fn emit_credential_revoked(credential_id: &str, revoked_by: &str, reason: &str) -> (r: String)
    ensures
        r@ == event_text(
            "credential_revoked"@,
            credential_revoked_payload(credential_id@, revoked_by@, reason@),
        ),
{
    let p = text_member("", "\"credential_id\":", credential_id);
    let p = text_member(p.as_str(), ",\"revoked_by\":", revoked_by);
    let p = text_member(p.as_str(), ",\"reason\":", reason);
    proof {
        reveal_strlit("");
        assert(""@ + "\"credential_id\":"@ =~= "\"credential_id\":"@);
    }
    event_line("credential_revoked", p.as_str())
}

/// The log line for a change of the pause flag.
pub fn emit_contract_paused(paused: bool) -> (r: String)
    ensures
        r@ == event_text("contract_paused"@, contract_paused_payload(paused)),
{
    let mut p = String::from_str("\"paused\":");
    p.append(json_bool(paused));
    event_line("contract_paused", p.as_str())
}

/// The log line for a proposed transfer of ownership.
pub fn emit_ownership_proposed(current_owner: &str, proposed_owner: &str) -> (r: String)
    ensures
        r@ == event_text(
            "ownership_proposed"@,
            ownership_proposed_payload(current_owner@, proposed_owner@),
        ),
{
    let p = text_member("", "\"current_owner\":", current_owner);
    let p = text_member(p.as_str(), ",\"proposed_owner\":", proposed_owner);
    proof {
        reveal_strlit("");
        assert(""@ + "\"current_owner\":"@ =~= "\"current_owner\":"@);
    }
    event_line("ownership_proposed", p.as_str())
}

/// The log line for an accepted transfer of ownership.
pub fn emit_ownership_transferred(old_owner: &str, new_owner: &str) -> (r: String)
    ensures
        r@ == event_text(
            "ownership_transferred"@,
            ownership_transferred_payload(old_owner@, new_owner@),
        ),
{
    let p = text_member("", "\"old_owner\":", old_owner);
    let p = text_member(p.as_str(), ",\"new_owner\":", new_owner);
    proof {
        reveal_strlit("");
        assert(""@ + "\"old_owner\":"@ =~= "\"old_owner\":"@);
    }
    event_line("ownership_transferred", p.as_str())
}

/// The log line for a new admin.
pub fn emit_admin_added(account: &str) -> (r: String)
    ensures
        r@ == event_text("admin_added"@, admin_changed_payload(account@)),
{
    let p = text_member("", "\"account\":", account);
    proof {
        reveal_strlit("");
        assert(""@ + "\"account\":"@ =~= "\"account\":"@);
    }
    event_line("admin_added", p.as_str())
}

/// The log line for a removed admin.
pub fn emit_admin_removed(account: &str) -> (r: String)
    ensures
        r@ == event_text("admin_removed"@, admin_changed_payload(account@)),
{
    let p = text_member("", "\"account\":", account);
    proof {
        reveal_strlit("");
        assert(""@ + "\"account\":"@ =~= "\"account\":"@);
    }
    event_line("admin_removed", p.as_str())
}

} // verus!
