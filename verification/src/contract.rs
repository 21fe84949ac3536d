//! The registry: verification keys, access control, and the life of a
//! credential from a verified proof to its removal or revocation.
//!
//! Every operation takes the caller, the time and the attached deposit as
//! arguments and returns the refusal as an error; a refused call leaves
//! the state as it was.

use vstd::prelude::*;
use vstd::string::*;
use crate::decimal::u128_to_decimal;
use crate::errors::{ContractError, ErrorView};
use crate::events::{
    admin_changed_payload, contract_paused_payload, credential_removed_payload,
    credential_revoked_payload, credential_stored_payload, emit_admin_added, emit_admin_removed,
    emit_contract_paused, emit_credential_removed, emit_credential_revoked,
    emit_credential_stored, emit_ownership_proposed, emit_ownership_transferred,
    emit_proof_verified, emit_verification_key_set, event_text, ownership_proposed_payload,
    ownership_transferred_payload, proof_verified_payload, verification_key_set_payload,
};
use crate::groth16::{
    arity_error, signal_count_error, verification_outcome, verify_groth16_proof,
};
use crate::storage::{
    clamp_u32, credential_id_of, erase_credential_at, erased, is_credential_id,
    find_credential, generate_credential_id, get_credentials_by_owner, inserted,
    is_credential_valid, lemma_lookup_at, lemma_lookup_some, lookup, matching, owner_ids, page_of,
    passes_filter,
    record_views, remove_credential, set_views, store_consistent, store_credential,
    OwnerCredentials, OwnerSetView,
};
use crate::string_set::{contains_string, insert_string, remove_string, text_set, texts_distinct};
use crate::types::{
    clone_optional_string, optional_text, texts, CircuitType, ContractConfig, ContractStats,
    Credential, CredentialView, PaginatedCredentials, VerificationKey, VerificationResult,
    VerifyProofInput,
};

verus! {

/// The registry's state as a mathematical value.
pub struct ContractState {
    pub owner: Seq<char>,
    pub proposed_owner: Option<Seq<char>>,
    pub admins: Set<Seq<char>>,
    pub is_paused: bool,
    pub default_expiration_secs: u64,
    pub storage_cost_per_credential: u128,
    pub keys: Map<CircuitType, VerificationKey>,
    pub records: Seq<CredentialView>,
    pub index: Seq<OwnerSetView>,
    pub total_verifications: u64,
    pub total_credentials: u64,
    pub vk_count: u32,
    pub credential_nonce: u64,
    pub revoked: Set<Seq<char>>,
}

/// The result of an operation together with the log lines of the events
/// that it gives rise to, in the order in which they are to be logged.
#[derive(Debug)]
pub struct Logged<T> {
    pub value: T,
    pub events: Vec<String>,
}

/// A list with one log line.
fn one_event(line: String) -> (r: Vec<String>)
    ensures
        texts(r@) == seq![line@],
{
    let mut r: Vec<String> = Vec::new();
    r.push(line);
    assert(texts(r@) =~= seq![line@]);
    r
}

/// An empty list of log lines.
fn no_events() -> (r: Vec<String>)
    ensures
        texts(r@) == Seq::<Seq<char>>::empty(),
{
    let r: Vec<String> = Vec::new();
    assert(texts(r@) =~= Seq::<Seq<char>>::empty());
    r
}

/// What holds of the state after every operation: the owner sets and the
/// records agree, the credential counter is the number of records, no
/// revoked id has a record, every record expires later than it was made,
/// and every stored key has an IC point.
pub open spec fn state_invariant(s: ContractState) -> bool {
    &&& store_consistent(s.records, s.index)
    &&& s.total_credentials == s.records.len()
    &&& forall|id: Seq<char>| s.revoked.contains(id) ==> (#[trigger] lookup(s.records, id)) is None
    &&& forall|id: Seq<char>|
        (#[trigger] lookup(s.records, id)) is Some ==> lookup(s.records, id)->0.verified_at
            < lookup(s.records, id)->0.expires_at
    &&& forall|ct: CircuitType| #[trigger]
        s.keys.contains_key(ct) ==> s.keys[ct].ic@.len() >= 1
}

/// What no operation undoes: the nonce never decreases, a revoked id
/// stays revoked, and a circuit type that has a key keeps having one.
pub open spec fn history_kept(pre: ContractState, post: ContractState) -> bool {
    &&& pre.credential_nonce <= post.credential_nonce
    &&& pre.revoked.subset_of(post.revoked)
    &&& pre.keys.dom().subset_of(post.keys.dom())
}

/// The state right after initialization by `owner`.
pub open spec fn initial_state(owner: Seq<char>) -> ContractState {
    ContractState {
        owner,
        proposed_owner: None,
        admins: Set::empty(),
        is_paused: false,
        default_expiration_secs: ContractConfig::DEFAULT_EXPIRATION_SECS,
        storage_cost_per_credential: ContractConfig::DEFAULT_STORAGE_COST,
        keys: Map::empty(),
        records: Seq::empty(),
        index: Seq::empty(),
        total_verifications: 0,
        total_credentials: 0,
        vk_count: 0,
        credential_nonce: 0,
        revoked: Set::empty(),
    }
}

/// `caller` is the owner or an admin.
pub open spec fn owner_or_admin(s: ContractState, caller: Seq<char>) -> bool {
    caller == s.owner || s.admins.contains(caller)
}

/// Why a call that only the owner may make, paused or not, is refused, if
/// it is.
pub open spec fn owner_refusal(s: ContractState, caller: Seq<char>) -> Option<ErrorView> {
    if caller != s.owner {
        Some(ErrorView::Unauthorized)
    } else {
        None
    }
}

/// Why a call guarded by owner-only and by the pause flag is refused, if
/// it is: the authorization is checked first.
pub open spec fn owner_unpaused_refusal(s: ContractState, caller: Seq<char>) -> Option<ErrorView> {
    if caller != s.owner {
        Some(ErrorView::Unauthorized)
    } else if s.is_paused {
        Some(ErrorView::ContractPaused)
    } else {
        None
    }
}

/// Why a call guarded by owner-or-admin and by the pause flag is refused, if
/// it is: the authorization is checked first.
pub open spec fn admin_refusal(s: ContractState, caller: Seq<char>) -> Option<ErrorView> {
    if !owner_or_admin(s, caller) {
        Some(ErrorView::Unauthorized)
    } else if s.is_paused {
        Some(ErrorView::ContractPaused)
    } else {
        None
    }
}

/// Why the installation of `vk` is refused, if it is.
pub open spec fn set_key_refusal(s: ContractState, caller: Seq<char>, vk: VerificationKey) -> Option<
    ErrorView,
> {
    if admin_refusal(s, caller) is Some {
        admin_refusal(s, caller)
    } else if vk.ic@.len() == 0 {
        Some(ErrorView::InvalidVerificationKey("IC array must not be empty"@))
    } else {
        None
    }
}

/// Why a verification request is refused, if it is: the pause flag, then
/// the missing key, then the number of signals.
pub open spec fn verification_refusal(s: ContractState, input: VerifyProofInput) -> Option<
    ErrorView,
> {
    if s.is_paused {
        Some(ErrorView::ContractPaused)
    } else if !s.keys.contains_key(input.circuit_type) {
        Some(ErrorView::VerificationKeyNotFound(input.circuit_type.key()))
    } else if s.keys[input.circuit_type].ic@.len() != input.public_signals@.len() + 1 {
        Some(arity_error(s.keys[input.circuit_type].ic@.len(), input.public_signals@.len()))
    } else {
        None
    }
}

/// Whether the request's proof verifies against the stored key. A proof or
/// key that does not parse counts as not verifying.
pub open spec fn proof_accepted(s: ContractState, input: VerifyProofInput) -> bool {
    verification_outcome(
        s.keys[input.circuit_type],
        input.proof,
        texts(input.public_signals@),
    ) == Ok::<bool, ErrorView>(true)
}

/// The seconds for which a credential of this request lasts.
pub open spec fn expiry_of(s: ContractState, input: VerifyProofInput) -> u64 {
    match input.custom_expiration {
        Some(secs) => secs,
        None => s.default_expiration_secs,
    }
}

/// The id of the next credential that `caller` stores for `circuit_type`.
pub open spec fn next_credential_id(
    s: ContractState,
    caller: Seq<char>,
    circuit_type: CircuitType,
) -> Seq<char> {
    credential_id_of(caller, circuit_type, (s.credential_nonce + 1) as u64)
}

/// The credential that a successful request stores.
pub open spec fn new_credential(
    s: ContractState,
    input: VerifyProofInput,
    caller: Seq<char>,
    now_secs: u64,
) -> CredentialView {
    CredentialView {
        id: next_credential_id(s, caller, input.circuit_type),
        owner: caller,
        circuit_type: input.circuit_type,
        public_signals: texts(input.public_signals@),
        verified_at: now_secs,
        expires_at: (now_secs + expiry_of(s, input)) as u64,
        claim: optional_text(input.claim),
    }
}

/// The request asks for a credential and its proof verifies.
pub open spec fn stores_credential(s: ContractState, input: VerifyProofInput) -> bool {
    proof_accepted(s, input) && input.store_credential
}

/// Why the credential of a request is not stored, if it is not: the
/// deposit does not cover the storage cost; the credential would expire at
/// the moment it is made, or at a time beyond the range of the clock; the
/// nonce cannot grow; or the id that the credential would take is in use
/// or revoked. In that order.
pub open spec fn storing_refusal(
    s: ContractState,
    input: VerifyProofInput,
    caller: Seq<char>,
    now_secs: u64,
    attached_deposit: u128,
) -> Option<ErrorView> {
    let id = next_credential_id(s, caller, input.circuit_type);
    if attached_deposit < s.storage_cost_per_credential {
        Some(
            ErrorView::InsufficientDeposit {
                required: s.storage_cost_per_credential,
                attached: attached_deposit,
            },
        )
    } else if expiry_of(s, input) == 0 {
        Some(ErrorView::InvalidExpiration("expiration must be greater than zero"@))
    } else if now_secs + expiry_of(s, input) > u64::MAX {
        Some(ErrorView::InvalidExpiration("expiration exceeds the range of the clock"@))
    } else if s.credential_nonce == u64::MAX {
        Some(ErrorView::CounterOverflow)
    } else if lookup(s.records, id) is Some || s.revoked.contains(id) {
        Some(ErrorView::CredentialIdUnavailable(id))
    } else {
        None
    }
}

/// Why a verification request fails, if it does: it is refused before the
/// proof is looked at; or it cannot be counted; or its proof verifies and
/// it asks for a credential that cannot be stored. A request that asks for
/// no credential, or whose proof does not verify, never fails for the
/// deposit, the expiration or the id.
pub open spec fn verification_error(
    s: ContractState,
    input: VerifyProofInput,
    caller: Seq<char>,
    now_secs: u64,
    attached_deposit: u128,
) -> Option<ErrorView> {
    if verification_refusal(s, input) is Some {
        verification_refusal(s, input)
    } else if s.total_verifications == u64::MAX {
        Some(ErrorView::CounterOverflow)
    } else if stores_credential(s, input) {
        storing_refusal(s, input, caller, now_secs, attached_deposit)
    } else {
        None
    }
}

/// The log lines of an accepted verification request: `credential_stored`
/// where a credential is stored, and `proof_verified` in any case.
pub open spec fn verification_events(
    pre: ContractState,
    input: VerifyProofInput,
    caller: Seq<char>,
    now_secs: u64,
) -> Seq<Seq<char>> {
    let key = input.circuit_type.key();
    if stores_credential(pre, input) {
        let c = new_credential(pre, input, caller, now_secs);
        seq![
            event_text(
                "credential_stored"@,
                credential_stored_payload(c.id, caller, key, c.expires_at),
            ),
            event_text("proof_verified"@, proof_verified_payload(key, true, Some(c.id))),
        ]
    } else {
        seq![
            event_text(
                "proof_verified"@,
                proof_verified_payload(key, proof_accepted(pre, input), None),
            ),
        ]
    }
}

/// What a verification request does to the state and what it returns.
///
/// A request that fails changes nothing. Any other is counted and logged.
/// Where its proof verifies and it asks for a credential, the nonce grows
/// by one and the new credential, which expires later than it was made, is
/// stored under a new id and counted; else nothing is stored.
pub open spec fn verification_result(
    pre: ContractState,
    post: ContractState,
    input: VerifyProofInput,
    caller: Seq<char>,
    now_secs: u64,
    attached_deposit: u128,
    r: Result<Logged<VerificationResult>, ContractError>,
) -> bool {
    let storing = stores_credential(pre, input);
    match r {
        Err(e) => {
            &&& post == pre
            &&& verification_error(pre, input, caller, now_secs, attached_deposit) == Some(e@)
        },
        Ok(Logged { value: res, events }) => {
            &&& verification_error(pre, input, caller, now_secs, attached_deposit) is None
            &&& res.valid == proof_accepted(pre, input)
            &&& res.gas_used == 0
            &&& texts(events@) == verification_events(pre, input, caller, now_secs)
            &&& if storing {
                &&& optional_text(res.credential_id) == Some(
                    next_credential_id(pre, caller, input.circuit_type),
                )
                &&& is_credential_id(next_credential_id(pre, caller, input.circuit_type))
                &&& new_credential(pre, input, caller, now_secs).expires_at == now_secs
                    + expiry_of(pre, input)
                &&& new_credential(pre, input, caller, now_secs).verified_at < new_credential(
                    pre,
                    input,
                    caller,
                    now_secs,
                ).expires_at
                &&& inserted(
                    pre.records,
                    pre.index,
                    post.records,
                    post.index,
                    new_credential(pre, input, caller, now_secs),
                )
                &&& post == ContractState {
                    total_verifications: (pre.total_verifications + 1) as u64,
                    total_credentials: (pre.total_credentials + 1) as u64,
                    credential_nonce: (pre.credential_nonce + 1) as u64,
                    records: post.records,
                    index: post.index,
                    ..pre
                }
            } else {
                &&& res.credential_id is None
                &&& post == ContractState {
                    total_verifications: (pre.total_verifications + 1) as u64,
                    ..pre
                }
            }
        },
    }
}

/// What the validity probe answers for `id` at time `now`.
pub open spec fn validity(s: ContractState, id: Seq<char>, now: u64) -> Option<bool> {
    if s.revoked.contains(id) {
        Some(false)
    } else {
        match lookup(s.records, id) {
            Some(c) => Some(c.expires_at > now),
            None => None,
        }
    }
}

/// The state after the revocation of `id`: nothing changes where the id
/// was revoked before; else the id is revoked and its record, if any, is
/// erased.
pub open spec fn revoked_from(pre: ContractState, post: ContractState, id: Seq<char>) -> bool {
    if pre.revoked.contains(id) {
        post == pre
    } else {
        &&& post == ContractState {
            revoked: pre.revoked.insert(id),
            records: post.records,
            index: post.index,
            total_credentials: post.total_credentials,
            ..pre
        }
        &&& match lookup(pre.records, id) {
            Some(c) => erased(pre.records, pre.index, post.records, post.index, id, c.owner)
                && post.total_credentials == pre.total_credentials - 1,
            None => post.records == pre.records && post.index == pre.index
                && post.total_credentials == pre.total_credentials,
        }
    }
}

/// Groth16 proof verifier and credential registry.
pub struct ZKVerifier {
    owner: String,
    proposed_owner: Option<String>,
    admins: Vec<String>,
    is_paused: bool,
    default_expiration_secs: u64,
    storage_cost_per_credential: u128,
    key_verified_builder: Option<VerificationKey>,
    key_grant_track_record: Option<VerificationKey>,
    key_team_attestation: Option<VerificationKey>,
    credentials: Vec<Credential>,
    credentials_by_owner: Vec<OwnerCredentials>,
    total_verifications: u64,
    total_credentials: u64,
    vk_count: u32,
    credential_nonce: u64,
    revoked_credentials: Vec<String>,
}

/// One if the slot holds a key, else zero.
pub open spec fn slot_count(slot: Option<VerificationKey>) -> nat {
    if slot is Some {
        1
    } else {
        0
    }
}

impl View for ZKVerifier {
    type V = ContractState;

    closed spec fn view(&self) -> ContractState {
        ContractState {
            owner: self.owner@,
            proposed_owner: optional_text(self.proposed_owner),
            admins: text_set(self.admins@),
            is_paused: self.is_paused,
            default_expiration_secs: self.default_expiration_secs,
            storage_cost_per_credential: self.storage_cost_per_credential,
            keys: Map::new(
                |ct: CircuitType| self.slot(ct) is Some,
                |ct: CircuitType| self.slot(ct)->0,
            ),
            records: record_views(self.credentials@),
            index: set_views(self.credentials_by_owner@),
            total_verifications: self.total_verifications,
            total_credentials: self.total_credentials,
            vk_count: self.vk_count,
            credential_nonce: self.credential_nonce,
            revoked: text_set(self.revoked_credentials@),
        }
    }
}

impl ZKVerifier {
    /// The key stored for a circuit type, if any.
    pub closed spec fn slot(&self, ct: CircuitType) -> Option<VerificationKey> {
        match ct {
            CircuitType::VerifiedBuilder => self.key_verified_builder,
            CircuitType::GrantTrackRecord => self.key_grant_track_record,
            CircuitType::TeamAttestation => self.key_team_attestation,
        }
    }

    /// The registry is well formed: the state invariant holds and the
    /// sets are held without repetitions.
    pub closed spec fn wf(&self) -> bool {
        &&& state_invariant(self@)
        &&& texts_distinct(self.admins@)
        &&& texts_distinct(self.revoked_credentials@)
        &&& self.vk_count == slot_count(self.key_verified_builder) + slot_count(
            self.key_grant_track_record,
        ) + slot_count(self.key_team_attestation)
    }

    /// A well-formed registry satisfies the state invariant.
    pub proof fn lemma_wf_state_invariant(&self)
        requires
            self.wf(),
        ensures
            state_invariant(self@),
    {
    }

    /// Initialize the registry with an owner account.
    pub fn new(owner: String) -> (r: Self)
        ensures
            r.wf(),
            r@ == initial_state(owner@),
    {
        let r = ZKVerifier {
            owner,
            proposed_owner: None,
            admins: Vec::new(),
            is_paused: false,
            default_expiration_secs: ContractConfig::DEFAULT_EXPIRATION_SECS,
            storage_cost_per_credential: ContractConfig::DEFAULT_STORAGE_COST,
            key_verified_builder: None,
            key_grant_track_record: None,
            key_team_attestation: None,
            credentials: Vec::new(),
            credentials_by_owner: Vec::new(),
            total_verifications: 0,
            total_credentials: 0,
            vk_count: 0,
            credential_nonce: 0,
            revoked_credentials: Vec::new(),
        };
        proof {
            assert(r@.admins =~= Set::<Seq<char>>::empty());
            assert(r@.revoked =~= Set::<Seq<char>>::empty());
            assert(r@.keys =~= Map::<CircuitType, VerificationKey>::empty());
            assert(r@.records =~= Seq::<CredentialView>::empty());
            assert(r@.index =~= Seq::<OwnerSetView>::empty());
        }
        r
    }

    fn caller_is_owner(&self, caller: &String) -> (r: bool)
        ensures
            r == (caller@ == self@.owner),
    {
        *caller == self.owner
    }

    fn caller_is_owner_or_admin(&self, caller: &String) -> (r: bool)
        ensures
            r == owner_or_admin(self@, caller@),
    {
        *caller == self.owner || contains_string(&self.admins, caller)
    }

    fn key_for(&self, circuit_type: CircuitType) -> (r: &Option<VerificationKey>)
        ensures
            *r == self.slot(circuit_type),
            (*r is Some) == self@.keys.contains_key(circuit_type),
            *r is Some ==> r->0 == self@.keys[circuit_type],
    {
        match circuit_type {
            CircuitType::VerifiedBuilder => &self.key_verified_builder,
            CircuitType::GrantTrackRecord => &self.key_grant_track_record,
            CircuitType::TeamAttestation => &self.key_team_attestation,
        }
    }

    /// Register or update a verification key for a circuit type. Callable
    /// by owner or admin. Returns whether a key was replaced, with the log
    /// line of `verification_key_set`.
    pub fn set_verification_key(
        &mut self,
        caller: &String,
        circuit_type: CircuitType,
        vk: VerificationKey,
    ) -> (r: Result<Logged<bool>, ContractError>)
        requires
            old(self).wf(),
        ensures
            final(self).wf(),
            history_kept(old(self)@, final(self)@),
            match r {
                Ok(Logged { value: updated, events }) => {
                    &&& set_key_refusal(old(self)@, caller@, vk) is None
                    &&& updated == old(self)@.keys.contains_key(circuit_type)
                    &&& texts(events@) == seq![
                        event_text(
                            "verification_key_set"@,
                            verification_key_set_payload(circuit_type.key(), updated),
                        ),
                    ]
                    &&& final(self)@ == ContractState {
                        keys: old(self)@.keys.insert(circuit_type, vk),
                        vk_count: if updated {
                            old(self)@.vk_count
                        } else {
                            (old(self)@.vk_count + 1) as u32
                        },
                        ..old(self)@
                    }
                },
                Err(e) => set_key_refusal(old(self)@, caller@, vk) == Some(e@) && final(self)@
                    == old(self)@,
            },
    {
        if !self.caller_is_owner_or_admin(caller) {
            return Err(ContractError::Unauthorized);
        }
        if self.is_paused {
            return Err(ContractError::ContractPaused);
        }
        if vk.ic.len() == 0 {
            return Err(
                ContractError::InvalidVerificationKey(String::from_str("IC array must not be empty")),
            );
        }
        let updated = self.key_for(circuit_type).is_some();
        match circuit_type {
            CircuitType::VerifiedBuilder => {
                self.key_verified_builder = Some(vk);
            },
            CircuitType::GrantTrackRecord => {
                self.key_grant_track_record = Some(vk);
            },
            CircuitType::TeamAttestation => {
                self.key_team_attestation = Some(vk);
            },
        }
        if !updated {
            self.vk_count += 1;
        }
        proof {
            assert(self@.keys =~= old(self)@.keys.insert(circuit_type, vk));
            assert(self@ =~= (ContractState {
                keys: old(self)@.keys.insert(circuit_type, vk),
                vk_count: self.vk_count,
                ..old(self)@
            }));
        }
        let line = emit_verification_key_set(circuit_type.as_key().as_str(), updated);
        Ok(Logged { value: updated, events: one_event(line) })
    }

    /// Pause or unpause the registry. Owner only; the pause flag does not
    /// stop it, so that the registry can be unpaused. Returns the log line
    /// of `contract_paused`.
    pub fn set_paused(&mut self, caller: &String, paused: bool) -> (r: Result<
        Logged<()>,
        ContractError,
    >)
        requires
            old(self).wf(),
        ensures
            final(self).wf(),
            history_kept(old(self)@, final(self)@),
            match r {
                Ok(done) => owner_refusal(old(self)@, caller@) is None && final(self)@ == (ContractState {
                    is_paused: paused,
                    ..old(self)@
                }) && texts(done.events@) == seq![
                    event_text("contract_paused"@, contract_paused_payload(paused)),
                ],
                Err(e) => owner_refusal(old(self)@, caller@) == Some(e@) && final(self)@ == old(self)@,
            },
    {
        if !self.caller_is_owner(caller) {
            return Err(ContractError::Unauthorized);
        }
        self.is_paused = paused;
        proof {
            assert(self@.keys =~= old(self)@.keys);
            assert(self@ =~= (ContractState { is_paused: paused, ..old(self)@ }));
        }
        Ok(Logged { value: (), events: one_event(emit_contract_paused(paused)) })
    }

    /// Propose ownership transfer to a new account (step 1 of 2). Owner
    /// only, and refused while paused. Returns the log line of
    /// `ownership_proposed`.
    pub fn propose_owner(&mut self, caller: &String, new_owner: String) -> (r: Result<
        Logged<()>,
        ContractError,
    >)
        requires
            old(self).wf(),
        ensures
            final(self).wf(),
            history_kept(old(self)@, final(self)@),
            match r {
                Ok(done) => owner_unpaused_refusal(old(self)@, caller@) is None && final(self)@ == (ContractState {
                    proposed_owner: Some(new_owner@),
                    ..old(self)@
                }) && texts(done.events@) == seq![
                    event_text(
                        "ownership_proposed"@,
                        ownership_proposed_payload(old(self)@.owner, new_owner@),
                    ),
                ],
                Err(e) => owner_unpaused_refusal(old(self)@, caller@) == Some(e@) && final(self)@ == old(self)@,
            },
    {
        if !self.caller_is_owner(caller) {
            return Err(ContractError::Unauthorized);
        }
        if self.is_paused {
            return Err(ContractError::ContractPaused);
        }
        let line = emit_ownership_proposed(self.owner.as_str(), new_owner.as_str());
        self.proposed_owner = Some(new_owner);
        proof {
            assert(self@.keys =~= old(self)@.keys);
            assert(self@ =~= (ContractState { proposed_owner: Some(new_owner@), ..old(self)@ }));
        }
        Ok(Logged { value: (), events: one_event(line) })
    }

    /// Accept ownership transfer (step 2 of 2). Only the proposed owner may
    /// call it; the pause flag does not stop it. Returns the log line of
    /// `ownership_transferred`.
    pub fn accept_ownership(&mut self, caller: &String) -> (r: Result<Logged<()>, ContractError>)
        requires
            old(self).wf(),
        ensures
            final(self).wf(),
            history_kept(old(self)@, final(self)@),
            match r {
                Ok(done) => {
                    &&& old(self)@.proposed_owner == Some(caller@)
                    &&& texts(done.events@) == seq![
                        event_text(
                            "ownership_transferred"@,
                            ownership_transferred_payload(old(self)@.owner, caller@),
                        ),
                    ]
                    &&& final(self)@ == ContractState {
                        owner: caller@,
                        proposed_owner: None,
                        ..old(self)@
                    }
                },
                Err(e) => {
                    &&& old(self)@.proposed_owner != Some(caller@)
                    &&& e@ == ErrorView::Unauthorized
                    &&& final(self)@ == old(self)@
                },
            },
    {
        let accepted = match &self.proposed_owner {
            Some(proposed) => *proposed == *caller,
            None => false,
        };
        if !accepted {
            return Err(ContractError::Unauthorized);
        }
        let line = emit_ownership_transferred(self.owner.as_str(), caller.as_str());
        self.owner = caller.clone();
        self.proposed_owner = None;
        proof {
            assert(self@.keys =~= old(self)@.keys);
            assert(self@ =~= (ContractState {
                owner: caller@,
                proposed_owner: None,
                ..old(self)@
            }));
        }
        Ok(Logged { value: (), events: one_event(line) })
    }

    /// Add an admin account. Owner only, and refused while paused. Returns
    /// the log line of `admin_added`.
    pub fn add_admin(&mut self, caller: &String, account: String) -> (r: Result<
        Logged<()>,
        ContractError,
    >)
        requires
            old(self).wf(),
        ensures
            final(self).wf(),
            history_kept(old(self)@, final(self)@),
            match r {
                Ok(done) => owner_unpaused_refusal(old(self)@, caller@) is None && final(self)@ == (ContractState {
                    admins: old(self)@.admins.insert(account@),
                    ..old(self)@
                }) && texts(done.events@) == seq![
                    event_text("admin_added"@, admin_changed_payload(account@)),
                ],
                Err(e) => owner_unpaused_refusal(old(self)@, caller@) == Some(e@) && final(self)@ == old(self)@,
            },
    {
        if !self.caller_is_owner(caller) {
            return Err(ContractError::Unauthorized);
        }
        if self.is_paused {
            return Err(ContractError::ContractPaused);
        }
        let line = emit_admin_added(account.as_str());
        insert_string(&mut self.admins, account);
        proof {
            assert(self@.keys =~= old(self)@.keys);
            assert(self@ =~= (ContractState {
                admins: old(self)@.admins.insert(account@),
                ..old(self)@
            }));
        }
        Ok(Logged { value: (), events: one_event(line) })
    }

    /// Remove an admin account. Owner only, and refused while paused.
    /// Returns the log line of `admin_removed`.
    pub fn remove_admin(&mut self, caller: &String, account: &String) -> (r: Result<
        Logged<()>,
        ContractError,
    >)
        requires
            old(self).wf(),
        ensures
            final(self).wf(),
            history_kept(old(self)@, final(self)@),
            match r {
                Ok(done) => owner_unpaused_refusal(old(self)@, caller@) is None && final(self)@ == (ContractState {
                    admins: old(self)@.admins.remove(account@),
                    ..old(self)@
                }) && texts(done.events@) == seq![
                    event_text("admin_removed"@, admin_changed_payload(account@)),
                ],
                Err(e) => owner_unpaused_refusal(old(self)@, caller@) == Some(e@) && final(self)@ == old(self)@,
            },
    {
        if !self.caller_is_owner(caller) {
            return Err(ContractError::Unauthorized);
        }
        if self.is_paused {
            return Err(ContractError::ContractPaused);
        }
        remove_string(&mut self.admins, account);
        proof {
            assert(self@.keys =~= old(self)@.keys);
            assert(self@ =~= (ContractState {
                admins: old(self)@.admins.remove(account@),
                ..old(self)@
            }));
        }
        Ok(Logged { value: (), events: one_event(emit_admin_removed(account.as_str())) })
    }

    /// Check if an account is an admin.
    pub fn is_admin(&self, account: &String) -> (r: bool)
        ensures
            r == self@.admins.contains(account@),
    {
        contains_string(&self.admins, account)
    }

    /// Update the default credential expiration period. Owner only, and
    /// refused while paused.
    pub fn set_default_expiration(&mut self, caller: &String, seconds: u64) -> (r: Result<
        (),
        ContractError,
    >)
        requires
            old(self).wf(),
        ensures
            final(self).wf(),
            history_kept(old(self)@, final(self)@),
            match r {
                Ok(_) => owner_unpaused_refusal(old(self)@, caller@) is None && final(self)@ == (ContractState {
                    default_expiration_secs: seconds,
                    ..old(self)@
                }),
                Err(e) => owner_unpaused_refusal(old(self)@, caller@) == Some(e@) && final(self)@ == old(self)@,
            },
    {
        if !self.caller_is_owner(caller) {
            return Err(ContractError::Unauthorized);
        }
        if self.is_paused {
            return Err(ContractError::ContractPaused);
        }
        self.default_expiration_secs = seconds;
        proof {
            assert(self@.keys =~= old(self)@.keys);
            assert(self@ =~= (ContractState { default_expiration_secs: seconds, ..old(self)@ }));
        }
        Ok(())
    }

    /// Why a verification request is refused, or the key to verify against.
    fn checked_key(&self, input: &VerifyProofInput) -> (r: Result<&VerificationKey, ContractError>)
        ensures
            match r {
                Ok(vk) => verification_refusal(self@, *input) is None && *vk
                    == self@.keys[input.circuit_type],
                Err(e) => verification_refusal(self@, *input) == Some(e@),
            },
    {
        if self.is_paused {
            return Err(ContractError::ContractPaused);
        }
        match self.key_for(input.circuit_type) {
            None => Err(ContractError::VerificationKeyNotFound(input.circuit_type.as_key())),
            Some(vk) => {
                let n: usize = input.public_signals.len();
                if vk.ic.len() == 0 || vk.ic.len() - 1 != n {
                    Err(signal_count_error(vk.ic.len(), n))
                } else {
                    Ok(vk)
                }
            },
        }
    }

    /// Verify without side effects: the pause flag, the key lookup and the
    /// verification, nothing else. `gas_used` is left at zero.
    pub fn verify_proof_view(&self, input: VerifyProofInput) -> (r: Result<
        VerificationResult,
        ContractError,
    >)
        ensures
            match r {
                Ok(res) => {
                    &&& verification_refusal(self@, input) is None
                    &&& res.valid == proof_accepted(self@, input)
                    &&& res.credential_id is None
                    &&& res.gas_used == 0
                },
                Err(e) => verification_refusal(self@, input) == Some(e@),
            },
    {
        let vk = match self.checked_key(&input) {
            Ok(vk) => vk,
            Err(e) => {
                return Err(e);
            },
        };
        let valid = match verify_groth16_proof(vk, &input.proof, input.public_signals.as_slice()) {
            Ok(valid) => valid,
            Err(_) => false,
        };
        Ok(VerificationResult { valid, credential_id: None, gas_used: 0 })
    }

    /// Whether a record is stored under `id`.
    fn has_credential(&self, id: &String) -> (r: bool)
        requires
            self.wf(),
        ensures
            r == (lookup(self@.records, id@) is Some),
    {
        let ghost p = record_views(self.credentials@);
        proof {
            lemma_lookup_some(p, id@);
        }
        match find_credential(&self.credentials, id) {
            None => {
                proof {
                    if lookup(p, id@) is Some {
                        let r = lookup(p, id@)->0;
                        let a = choose|a: int| 0 <= a < p.len() && p[a] == r;
                        assert(self.credentials[a].id@ == id@);
                    }
                }
                false
            },
            Some(i) => {
                proof {
                    assert(p[i as int] == self.credentials[i as int]@);
                    lemma_lookup_at(p, i as int);
                }
                true
            },
        }
    }

    /// Verify a Groth16 proof and, where the input asks for it and the
    /// proof is valid, store a credential for `caller`, whose id is derived
    /// from the caller, the circuit type and the next nonce.
    ///
    /// Storing needs `attached_deposit` to cover the storage cost, an
    /// expiration of more than zero seconds that ends within the range of
    /// the clock, and an id that is neither in use nor revoked; else the
    /// request fails and nothing changes. `gas_used` is left at zero.
    pub fn verify_proof(
        &mut self,
        input: VerifyProofInput,
        caller: &String,
        now_secs: u64,
        attached_deposit: u128,
    ) -> (r: Result<Logged<VerificationResult>, ContractError>)
        requires
            old(self).wf(),
        ensures
            final(self).wf(),
            history_kept(old(self)@, final(self)@),
            verification_result(
                old(self)@,
                final(self)@,
                input,
                caller@,
                now_secs,
                attached_deposit,
                r,
            ),
    {
        let vk = match self.checked_key(&input) {
            Ok(vk) => vk,
            Err(e) => {
                return Err(e);
            },
        };
        if self.total_verifications == u64::MAX {
            return Err(ContractError::CounterOverflow);
        }
        let valid = match verify_groth16_proof(vk, &input.proof, input.public_signals.as_slice()) {
            Ok(valid) => valid,
            Err(_) => false,
        };
        if !(valid && input.store_credential) {
            self.total_verifications += 1;
            proof {
                assert(self@.keys =~= old(self)@.keys);
                assert(self@ =~= (ContractState {
                    total_verifications: (old(self)@.total_verifications + 1) as u64,
                    ..old(self)@
                }));
            }
            let line = emit_proof_verified(input.circuit_type.as_key().as_str(), valid, None);
            return Ok(
                Logged {
                    value: VerificationResult { valid, credential_id: None, gas_used: 0 },
                    events: one_event(line),
                },
            );
        }
        if attached_deposit < self.storage_cost_per_credential {
            return Err(
                ContractError::InsufficientDeposit {
                    required: self.storage_cost_per_credential,
                    attached: attached_deposit,
                },
            );
        }
        let expiry = match input.custom_expiration {
            Some(secs) => secs,
            None => self.default_expiration_secs,
        };
        if expiry == 0 {
            return Err(
                ContractError::InvalidExpiration(
                    String::from_str("expiration must be greater than zero"),
                ),
            );
        }
        if expiry > u64::MAX - now_secs {
            return Err(
                ContractError::InvalidExpiration(
                    String::from_str("expiration exceeds the range of the clock"),
                ),
            );
        }
        if self.credential_nonce == u64::MAX {
            return Err(ContractError::CounterOverflow);
        }
        let id = generate_credential_id(caller, &input.circuit_type, self.credential_nonce + 1);
        if self.has_credential(&id) || contains_string(&self.revoked_credentials, &id) {
            return Err(ContractError::CredentialIdUnavailable(id));
        }
        let credential = Credential {
            id: id.clone(),
            owner: caller.clone(),
            circuit_type: input.circuit_type,
            public_signals: input.public_signals,
            verified_at: now_secs,
            expires_at: now_secs + expiry,
            claim: input.claim,
        };
        let ghost c = credential@;
        let key = input.circuit_type.as_key();
        let stored = emit_credential_stored(
            id.as_str(),
            caller.as_str(),
            key.as_str(),
            credential.expires_at,
        );
        let verified = emit_proof_verified(key.as_str(), valid, Some(id.as_str()));
        let mut events = one_event(stored);
        assert(events@.len() == 1 && events@[0]@ == stored@) by {
            assert(texts(events@).len() == 1);
            assert(texts(events@)[0] == stored@);
        }
        events.push(verified);
        assert(texts(events@) =~= seq![stored@, verified@]);
        self.total_verifications += 1;
        self.credential_nonce += 1;
        store_credential(&mut self.credentials, &mut self.credentials_by_owner, credential);
        assert(self.credentials@.len() == old(self).credentials@.len() + 1) by {
            assert(record_views(self.credentials@).len() == self.credentials@.len());
            assert(record_views(old(self).credentials@).len() == old(self).credentials@.len());
        }
        assert(self.total_credentials == old(self)@.records.len());
        assert(self.total_credentials + 1 == self.credentials.len());
        self.total_credentials += 1;
        proof {
            assert(c == new_credential(old(self)@, input, caller@, now_secs));
            assert(self@.keys =~= old(self)@.keys);
            assert(self@ =~= (ContractState {
                total_verifications: (old(self)@.total_verifications + 1) as u64,
                total_credentials: (old(self)@.total_credentials + 1) as u64,
                credential_nonce: (old(self)@.credential_nonce + 1) as u64,
                records: self@.records,
                index: self@.index,
                ..old(self)@
            }));
        }
        Ok(
            Logged {
                value: VerificationResult { valid, credential_id: Some(id), gas_used: 0 },
                events,
            },
        )
    }

    /// Get a credential by id.
    pub fn get_credential(&self, credential_id: &String) -> (r: Option<Credential>)
        requires
            self.wf(),
        ensures
            match r {
                Some(c) => lookup(self@.records, credential_id@) == Some(c@),
                None => lookup(self@.records, credential_id@) is None,
            },
    {
        let ghost p = record_views(self.credentials@);
        proof {
            lemma_lookup_some(p, credential_id@);
        }
        match find_credential(&self.credentials, credential_id) {
            None => {
                proof {
                    if lookup(p, credential_id@) is Some {
                        let r = lookup(p, credential_id@)->0;
                        let a = choose|a: int| 0 <= a < p.len() && p[a] == r;
                        assert(self.credentials[a].id@ == credential_id@);
                    }
                }
                None
            },
            Some(i) => {
                proof {
                    assert(p[i as int] == self.credentials[i as int]@);
                    lemma_lookup_at(p, i as int);
                }
                Some(self.credentials[i].clone())
            },
        }
    }

    /// Check if a credential exists, is not expired at `now_secs`, and is
    /// not revoked. A revoked id reports `Some(false)` whether or not it
    /// ever had a record.
    pub fn is_credential_valid(&self, credential_id: &String, now_secs: u64) -> (r: Option<bool>)
        requires
            self.wf(),
        ensures
            r == validity(self@, credential_id@, now_secs),
    {
        if contains_string(&self.revoked_credentials, credential_id) {
            return Some(false);
        }
        is_credential_valid(&self.credentials, credential_id, now_secs)
    }

    /// Get credentials for an owner account with pagination. Without the
    /// optional arguments, expired credentials are left out, the offset is
    /// 0 and the limit 50. `total` counts all that pass the filter (the
    /// largest `u32` where they are more), and `has_more` tells whether
    /// the page ends before that count.
    pub fn get_credentials_by_owner(
        &self,
        owner: &String,
        include_expired: Option<bool>,
        offset: Option<u32>,
        limit: Option<u32>,
        now_secs: u64,
    ) -> (r: PaginatedCredentials)
        requires
            self.wf(),
        ensures
            ({
                let ids = owner_ids(self@.index, owner@);
                let with_expired = match include_expired {
                    Some(b) => b,
                    None => false,
                };
                let first: nat = match offset {
                    Some(n) => n as nat,
                    None => 0,
                };
                let most: nat = match limit {
                    Some(n) => n as nat,
                    None => 50,
                };
                let all = matching(self@.records, ids, with_expired, now_secs, ids.len());
                &&& r.total == clamp_u32(all.len())
                &&& record_views(r.credentials@) == page_of(all, first, most)
                &&& r.has_more == (first + r.credentials@.len() < r.total)
            }),
    {
        let with_expired = match include_expired {
            Some(b) => b,
            None => false,
        };
        let first: u32 = match offset {
            Some(n) => n,
            None => 0,
        };
        let most: u32 = match limit {
            Some(n) => n,
            None => 50,
        };
        let (credentials, total) = get_credentials_by_owner(
            &self.credentials,
            &self.credentials_by_owner,
            owner,
            with_expired,
            first,
            most,
            now_secs,
        );
        let has_more = (first as u64) + (credentials.len() as u64) < (total as u64);
        PaginatedCredentials { credentials, total, has_more }
    }

    /// Remove a credential. Only the credential's owner can do this; for
    /// anyone else, and for an id without a record, nothing happens and
    /// the answer is `false`. No tombstone is left. A removal comes with
    /// the log line of `credential_removed`.
    pub fn remove_credential(&mut self, caller: &String, credential_id: &String) -> (r: Result<
        Logged<bool>,
        ContractError,
    >)
        requires
            old(self).wf(),
        ensures
            final(self).wf(),
            history_kept(old(self)@, final(self)@),
            ({
                let pre = old(self)@;
                let post = final(self)@;
                match r {
                    Err(e) => pre.is_paused && e@ == ErrorView::ContractPaused && post == pre,
                    Ok(Logged { value: removed, events }) => {
                        &&& !pre.is_paused
                        &&& removed == (lookup(pre.records, credential_id@) is Some && lookup(
                            pre.records,
                            credential_id@,
                        )->0.owner == caller@)
                        &&& texts(events@) == if removed {
                            seq![
                                event_text(
                                    "credential_removed"@,
                                    credential_removed_payload(credential_id@, caller@),
                                ),
                            ]
                        } else {
                            Seq::<Seq<char>>::empty()
                        }
                        &&& if removed {
                            &&& erased(
                                pre.records,
                                pre.index,
                                post.records,
                                post.index,
                                credential_id@,
                                caller@,
                            )
                            &&& post == ContractState {
                                records: post.records,
                                index: post.index,
                                total_credentials: (pre.total_credentials - 1) as u64,
                                ..pre
                            }
                        } else {
                            post == pre
                        }
                    },
                }
            }),
    {
        if self.is_paused {
            return Err(ContractError::ContractPaused);
        }
        let removed = remove_credential(
            &mut self.credentials,
            &mut self.credentials_by_owner,
            credential_id,
            caller,
        );
        if removed {
            self.total_credentials = self.total_credentials - 1;
        }
        proof {
            assert(self@.keys =~= old(self)@.keys);
            if removed {
                assert(self@ =~= (ContractState {
                    records: self@.records,
                    index: self@.index,
                    total_credentials: (old(self)@.total_credentials - 1) as u64,
                    ..old(self)@
                }));
            } else {
                assert(self@ =~= old(self)@);
            }
        }
        let events = if removed {
            one_event(emit_credential_removed(credential_id.as_str(), caller.as_str()))
        } else {
            no_events()
        };
        Ok(Logged { value: removed, events })
    }

    /// Revoke a credential. Only callable by owner or admin. Erases the
    /// credential's record, if there is one, and marks the id as revoked
    /// for good, also where it never had a record. Returns the log line of
    /// `credential_revoked`.
    pub fn revoke_credential(&mut self, caller: &String, credential_id: String, reason: &String) -> (r:
        Result<Logged<()>, ContractError>)
        requires
            old(self).wf(),
        ensures
            final(self).wf(),
            history_kept(old(self)@, final(self)@),
            match r {
                Ok(done) => admin_refusal(old(self)@, caller@) is None && revoked_from(
                    old(self)@,
                    final(self)@,
                    credential_id@,
                ) && final(self)@.revoked.contains(credential_id@) && texts(done.events@) == seq![
                    event_text(
                        "credential_revoked"@,
                        credential_revoked_payload(credential_id@, caller@, reason@),
                    ),
                ],
                Err(e) => admin_refusal(old(self)@, caller@) == Some(e@) && final(self)@ == old(self)@,
            },
    {
        if !self.caller_is_owner_or_admin(caller) {
            return Err(ContractError::Unauthorized);
        }
        if self.is_paused {
            return Err(ContractError::ContractPaused);
        }
        let ghost p = record_views(self.credentials@);
        let ghost id = credential_id@;
        proof {
            lemma_lookup_some(p, id);
        }
        match find_credential(&self.credentials, &credential_id) {
            Some(i) => {
                proof {
                    assert(p[i as int] == self.credentials[i as int]@);
                    lemma_lookup_at(p, i as int);
                }
                erase_credential_at(&mut self.credentials, &mut self.credentials_by_owner, i);
                self.total_credentials = self.total_credentials - 1;
            },
            None => {
                proof {
                    if lookup(p, id) is Some {
                        let r = lookup(p, id)->0;
                        let a = choose|a: int| 0 <= a < p.len() && p[a] == r;
                        assert(self.credentials[a].id@ == id);
                    }
                }
            },
        }
        let line = emit_credential_revoked(
            credential_id.as_str(),
            caller.as_str(),
            reason.as_str(),
        );
        insert_string(&mut self.revoked_credentials, credential_id);
        proof {
            let pre = old(self)@;
            assert(self@.keys =~= pre.keys);
            if pre.revoked.contains(id) {
                assert(self@.revoked =~= pre.revoked);
                assert(self@.records =~= pre.records);
                assert(self@.index =~= pre.index);
                assert(self@ =~= pre);
            } else {
                assert(self@ =~= (ContractState {
                    revoked: pre.revoked.insert(id),
                    records: self@.records,
                    index: self@.index,
                    total_credentials: self@.total_credentials,
                    ..pre
                }));
            }
        }
        Ok(Logged { value: (), events: one_event(line) })
    }

    /// Check if a credential has been revoked.
    pub fn is_credential_revoked(&self, credential_id: &String) -> (r: bool)
        ensures
            r == self@.revoked.contains(credential_id@),
    {
        contains_string(&self.revoked_credentials, credential_id)
    }

    /// Get the registry's configuration.
    pub fn get_config(&self) -> (r: ContractConfig)
        ensures
            r.owner@ == self@.owner,
            optional_text(r.proposed_owner) == self@.proposed_owner,
            r.is_paused == self@.is_paused,
            r.default_expiration_secs == self@.default_expiration_secs,
            r.storage_cost_per_credential == self@.storage_cost_per_credential,
    {
        ContractConfig {
            owner: self.owner.clone(),
            proposed_owner: clone_optional_string(&self.proposed_owner),
            is_paused: self.is_paused,
            default_expiration_secs: self.default_expiration_secs,
            storage_cost_per_credential: self.storage_cost_per_credential,
        }
    }

    /// Get the registry's statistics.
    pub fn get_stats(&self) -> (r: ContractStats)
        ensures
            r.total_verifications == self@.total_verifications,
            r.total_credentials == self@.total_credentials,
            r.is_paused == self@.is_paused,
            r.verification_keys_registered == self@.vk_count,
    {
        ContractStats {
            total_verifications: self.total_verifications,
            total_credentials: self.total_credentials,
            is_paused: self.is_paused,
            verification_keys_registered: self.vk_count,
        }
    }

    /// Check if a verification key is registered for a circuit type.
    pub fn has_verification_key(&self, circuit_type: CircuitType) -> (r: bool)
        ensures
            r == self@.keys.contains_key(circuit_type),
    {
        self.key_for(circuit_type).is_some()
    }

    /// Get the required storage deposit for storing a credential, as a
    /// decimal numeral.
    pub fn get_storage_cost(&self) -> (r: String)
        ensures
            r@ == crate::decimal::decimal_digits(self@.storage_cost_per_credential as nat),
    {
        u128_to_decimal(self.storage_cost_per_credential)
    }
}

/// Every id in an owner's set has a record, and that record names the
/// same owner.
pub proof fn lemma_owner_sets_name_records(s: ContractState, owner: Seq<char>, k: int)
    requires
        state_invariant(s),
        0 <= k < owner_ids(s.index, owner).len(),
    ensures
        lookup(s.records, owner_ids(s.index, owner)[k]) is Some,
        lookup(s.records, owner_ids(s.index, owner)[k])->0.owner == owner,
        lookup(s.records, owner_ids(s.index, owner)[k])->0.id == owner_ids(s.index, owner)[k],
{
    lemma_lookup_some(s.records, owner_ids(s.index, owner)[k]);
}

/// Every record is listed in the set of its owner, and once only.
pub proof fn lemma_records_are_listed(s: ContractState, id: Seq<char>)
    requires
        state_invariant(s),
        lookup(s.records, id) is Some,
    ensures
        owner_ids(s.index, lookup(s.records, id)->0.owner).contains(id),
        owner_ids(s.index, lookup(s.records, id)->0.owner).no_duplicates(),
{
}

/// A record is stored under its own id and expires later than the time of
/// its verification.
pub proof fn lemma_record_times(s: ContractState, id: Seq<char>)
    requires
        state_invariant(s),
        lookup(s.records, id) is Some,
    ensures
        lookup(s.records, id)->0.id == id,
        lookup(s.records, id)->0.verified_at < lookup(s.records, id)->0.expires_at,
{
    lemma_lookup_some(s.records, id);
}

/// The credential counter is the number of live records.
pub proof fn lemma_total_is_record_count(s: ContractState)
    requires
        state_invariant(s),
    ensures
        s.total_credentials == s.records.len(),
{
}

/// A revoked id has no record and is in no owner's set.
pub proof fn lemma_revoked_is_absent(s: ContractState, id: Seq<char>, owner: Seq<char>)
    requires
        state_invariant(s),
        s.revoked.contains(id),
    ensures
        lookup(s.records, id) is None,
        !owner_ids(s.index, owner).contains(id),
{
    if owner_ids(s.index, owner).contains(id) {
        let k = choose|k: int|
            0 <= k < owner_ids(s.index, owner).len() && owner_ids(s.index, owner)[k] == id;
        lemma_owner_sets_name_records(s, owner, k);
    }
}

/// Every stored verification key has at least one IC point.
pub proof fn lemma_stored_key_has_ic(s: ContractState, circuit_type: CircuitType)
    requires
        state_invariant(s),
        s.keys.contains_key(circuit_type),
    ensures
        s.keys[circuit_type].ic@.len() >= 1,
{
}

/// Over any two consecutive operations the nonce does not decrease,
/// revoked ids stay revoked and no verification key is deleted.
pub proof fn lemma_history_kept_transitive(a: ContractState, b: ContractState, c: ContractState)
    requires
        history_kept(a, b),
        history_kept(b, c),
    ensures
        history_kept(a, c),
{
}

/// The nonce is strictly monotonic: every stored credential takes a nonce
/// that is larger than all before it, and the request that does not store
/// one leaves the nonce alone.
pub proof fn lemma_nonce_grows_with_each_credential(
    pre: ContractState,
    post: ContractState,
    input: VerifyProofInput,
    caller: Seq<char>,
    now_secs: u64,
    attached_deposit: u128,
    res: Logged<VerificationResult>,
)
    requires
        verification_result(
            pre,
            post,
            input,
            caller,
            now_secs,
            attached_deposit,
            Ok::<Logged<VerificationResult>, ContractError>(res),
        ),
    ensures
        res.value.credential_id is Some ==> post.credential_nonce == pre.credential_nonce + 1
            && lookup(post.records, next_credential_id(pre, caller, input.circuit_type)) == Some(
            new_credential(pre, input, caller, now_secs),
        ),
        res.value.credential_id is None ==> post.credential_nonce == pre.credential_nonce,
{
}

/// A verification request moves the credential counter with the records:
/// both grow by one where a credential is stored, and neither changes
/// where none is, be the request counted or failed.
pub proof fn lemma_verification_counts_with_records(
    pre: ContractState,
    post: ContractState,
    input: VerifyProofInput,
    caller: Seq<char>,
    now_secs: u64,
    attached_deposit: u128,
    r: Result<Logged<VerificationResult>, ContractError>,
)
    requires
        state_invariant(pre),
        state_invariant(post),
        verification_result(pre, post, input, caller, now_secs, attached_deposit, r),
    ensures
        post.total_credentials == post.records.len(),
        r is Ok && r->Ok_0.value.credential_id is Some ==> {
            &&& post.records.len() == pre.records.len() + 1
            &&& post.total_credentials == pre.total_credentials + 1
            &&& post.total_verifications == pre.total_verifications + 1
        },
        r is Ok && r->Ok_0.value.credential_id is None ==> {
            &&& post.records == pre.records
            &&& post.index == pre.index
            &&& post.total_credentials == pre.total_credentials
            &&& post.credential_nonce == pre.credential_nonce
            &&& post.total_verifications == pre.total_verifications + 1
        },
        r is Err ==> post == pre,
{
}

/// A request whose proof does not verify is counted, returns `valid:
/// false` without an id, and stores nothing, whatever it asks for and
/// whatever is attached.
pub proof fn lemma_rejected_proof_stores_nothing(
    pre: ContractState,
    post: ContractState,
    input: VerifyProofInput,
    caller: Seq<char>,
    now_secs: u64,
    attached_deposit: u128,
    r: Result<Logged<VerificationResult>, ContractError>,
)
    requires
        verification_refusal(pre, input) is None,
        pre.total_verifications < u64::MAX,
        !proof_accepted(pre, input),
        verification_result(pre, post, input, caller, now_secs, attached_deposit, r),
    ensures
        r is Ok,
        !r->Ok_0.value.valid,
        r->Ok_0.value.credential_id is None,
        post == (ContractState {
            total_verifications: (pre.total_verifications + 1) as u64,
            ..pre
        }),
{
}

/// After a credential is stored for an owner who had none, the owner's
/// list, read before the credential expires and without the expired ones,
/// holds that one record: it fills the first page and is all there is.
pub proof fn lemma_first_credential_page(
    pre: ContractState,
    post: ContractState,
    input: VerifyProofInput,
    caller: Seq<char>,
    now_secs: u64,
    attached_deposit: u128,
    res: Logged<VerificationResult>,
    read_at: u64,
)
    requires
        owner_ids(pre.index, caller).len() == 0,
        verification_result(
            pre,
            post,
            input,
            caller,
            now_secs,
            attached_deposit,
            Ok::<Logged<VerificationResult>, ContractError>(res),
        ),
        res.value.credential_id is Some,
        read_at < now_secs + expiry_of(pre, input),
    ensures
        ({
            let c = new_credential(pre, input, caller, now_secs);
            let ids = owner_ids(post.index, caller);
            let all = matching(post.records, ids, false, read_at, ids.len());
            &&& ids == seq![c.id]
            &&& all == seq![c]
            &&& page_of(all, 0, 50) == seq![c]
            &&& clamp_u32(all.len()) == 1
            &&& c.owner == caller
            &&& c.public_signals == texts(input.public_signals@)
            &&& c.verified_at == now_secs
            &&& c.expires_at == now_secs + expiry_of(pre, input)
        }),
{
    let c = new_credential(pre, input, caller, now_secs);
    let ids = owner_ids(post.index, caller);
    assert(ids == owner_ids(pre.index, caller).push(c.id));
    assert(ids =~= seq![c.id]);
    assert(lookup(post.records, c.id) == Some(c));
    assert(passes_filter(post.records, ids[0], false, read_at));
    let none = matching(post.records, ids, false, read_at, 0);
    assert(none =~= Seq::<CredentialView>::empty());
    let all = matching(post.records, ids, false, read_at, 1);
    assert(all == none.push(c));
    assert(all =~= seq![c]);
    assert(page_of(all, 0, 50) =~= seq![c]);
}

/// No credential is ever stored under a revoked id: a request whose next
/// id is revoked, or in use, fails and changes nothing.
pub proof fn lemma_revoked_id_is_never_stored(
    pre: ContractState,
    post: ContractState,
    input: VerifyProofInput,
    caller: Seq<char>,
    now_secs: u64,
    attached_deposit: u128,
    r: Result<Logged<VerificationResult>, ContractError>,
)
    requires
        stores_credential(pre, input),
        pre.credential_nonce < u64::MAX,
        pre.revoked.contains(next_credential_id(pre, caller, input.circuit_type)) || lookup(
            pre.records,
            next_credential_id(pre, caller, input.circuit_type),
        ) is Some,
        verification_result(pre, post, input, caller, now_secs, attached_deposit, r),
    ensures
        r is Err,
        post == pre,
{
}

/// Revocation is idempotent: revoking the same id a second time changes
/// nothing.
pub proof fn lemma_revocation_idempotent(
    before: ContractState,
    once: ContractState,
    twice: ContractState,
    id: Seq<char>,
)
    requires
        revoked_from(before, once, id),
        revoked_from(once, twice, id),
    ensures
        once.revoked.contains(id),
        twice == once,
{
}

/// A tombstone is permanent: once an id is revoked, after any operations
/// it is still revoked and the validity probe answers `Some(false)`.
pub proof fn lemma_tombstone_permanent(
    pre: ContractState,
    post: ContractState,
    id: Seq<char>,
    now_secs: u64,
)
    requires
        pre.revoked.contains(id),
        history_kept(pre, post),
    ensures
        post.revoked.contains(id),
        validity(post, id, now_secs) == Some(false),
{
}

} // verus!
