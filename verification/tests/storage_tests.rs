use zk_verifier::events::{
    emit_admin_added, emit_admin_removed, emit_contract_paused, emit_credential_removed,
    emit_credential_revoked, emit_credential_stored, emit_ownership_proposed,
    emit_ownership_transferred, emit_proof_verified, emit_verification_key_set,
};
use zk_verifier::storage::{
    credential_hash_input, credential_id_from_digest, find_credential, generate_credential_id,
    get_credentials_by_owner,
    is_credential_valid, owner_storage_key, remove_credential, store_credential,
    OwnerCredentials, StorageKey,
};
use zk_verifier::types::{CircuitType, Credential};

fn credential(id: &str, owner: &str, expires_at: u64) -> Credential {
    Credential {
        id: id.to_string(),
        owner: owner.to_string(),
        circuit_type: CircuitType::VerifiedBuilder,
        public_signals: vec!["9".to_string()],
        verified_at: 100,
        expires_at,
        claim: None,
    }
}

#[test]
fn storage_storage_keys_are_distinct() {
    let key1 = StorageKey::VerificationKeys.to_bytes();
    let key2 = StorageKey::Credentials.to_bytes();
    let key3 = StorageKey::CredentialsByOwner.to_bytes();
    assert_ne!(key1, key2);
    assert_ne!(key2, key3);
    assert_ne!(key1, key3);
}

#[test]
fn storage_key_prefixes() {
    assert_eq!(StorageKey::VerificationKeys.to_bytes(), vec![0u8]);
    assert_eq!(StorageKey::Credentials.to_bytes(), vec![1u8]);
    assert_eq!(StorageKey::CredentialsByOwner.to_bytes(), vec![2u8]);
    assert_eq!(StorageKey::Admins.to_bytes(), vec![4u8]);
    assert_eq!(StorageKey::RevokedCredentials.to_bytes(), vec![5u8]);
    let key = StorageKey::OwnerCredentials {
        owner_hash: vec![0xaa, 0xbb, 0xcc],
    };
    assert_eq!(key.to_bytes(), vec![3u8, 3, 0, 0, 0, 0xaa, 0xbb, 0xcc]);
    let long = StorageKey::OwnerCredentials {
        owner_hash: vec![7u8; 258],
    };
    assert_eq!(&long.to_bytes()[..5], &[3u8, 2, 1, 0, 0]);
    assert_eq!(long.to_bytes().len(), 5 + 258);
}

#[test]
fn credential_id_is_hex_of_the_first_sixteen_bytes() {
    let digest: Vec<u8> = (0..32u8).map(|i| i.wrapping_mul(17)).collect();
    let id = credential_id_from_digest(&digest);
    assert_eq!(id, "cred-00112233445566778899aabbccddeeff");
    let id = credential_id_from_digest(&[0xffu8; 16]);
    assert_eq!(id, "cred-ffffffffffffffffffffffffffffffff");
}

#[test]
fn credential_id_is_derived_from_the_sha256_of_the_hash_input() {
    assert_eq!(
        generate_credential_id(&"alice.testnet".to_string(), &CircuitType::VerifiedBuilder, 1),
        "cred-495829e80ec83ac310ecd524beebdf8a"
    );
    assert_eq!(
        generate_credential_id(&"alice.testnet".to_string(), &CircuitType::TeamAttestation, 7),
        "cred-923763a535390edc9f1e6835f62f8dcc"
    );
    assert_ne!(
        generate_credential_id(&"alice.testnet".to_string(), &CircuitType::VerifiedBuilder, 1),
        generate_credential_id(&"alice.testnet".to_string(), &CircuitType::VerifiedBuilder, 2)
    );
    for nonce in [0u64, 1, 99, u64::MAX] {
        let id = generate_credential_id(&"".to_string(), &CircuitType::GrantTrackRecord, nonce);
        assert_eq!(id.len(), 37);
        assert!(id.starts_with("cred-"));
        assert!(id[5..]
            .chars()
            .all(|c| c.is_ascii_digit() || ('a'..='f').contains(&c)));
        assert_eq!(
            id,
            generate_credential_id(&"".to_string(), &CircuitType::GrantTrackRecord, nonce)
        );
    }
}

#[test]
fn hash_input_joins_owner_key_and_nonce() {
    assert_eq!(
        credential_hash_input(&"alice.testnet".to_string(), &CircuitType::TeamAttestation, 0),
        "alice.testnet:team-attestation:0"
    );
    assert_eq!(
        credential_hash_input(&"a".to_string(), &CircuitType::GrantTrackRecord, u64::MAX),
        "a:grant-track-record:18446744073709551615"
    );
}

#[test]
fn store_and_remove_keep_map_and_sets_in_step() {
    let mut creds: Vec<Credential> = Vec::new();
    let mut index: Vec<OwnerCredentials> = Vec::new();
    store_credential(&mut creds, &mut index, credential("c1", "alice", 200));
    store_credential(&mut creds, &mut index, credential("c2", "bob", 200));
    store_credential(&mut creds, &mut index, credential("c3", "alice", 150));
    assert_eq!(creds.len(), 3);
    assert_eq!(index.len(), 2);
    assert_eq!(index[0].owner, "alice");
    assert_eq!(index[0].ids, vec!["c1".to_string(), "c3".to_string()]);
    assert_eq!(index[1].ids, vec!["c2".to_string()]);
    assert_eq!(find_credential(&creds, &"c2".to_string()), Some(1));
    assert_eq!(find_credential(&creds, &"c9".to_string()), None);

    assert_eq!(is_credential_valid(&creds, &"c3".to_string(), 149), Some(true));
    assert_eq!(is_credential_valid(&creds, &"c3".to_string(), 150), Some(false));
    assert_eq!(is_credential_valid(&creds, &"c9".to_string(), 0), None);

    let alice = "alice".to_string();
    let (page, total) = get_credentials_by_owner(&creds, &index, &alice, false, 0, 50, 160);
    assert_eq!(total, 1);
    assert_eq!(page.len(), 1);
    assert_eq!(page[0].id, "c1");
    let (page, total) = get_credentials_by_owner(&creds, &index, &alice, true, 1, 50, 160);
    assert_eq!(total, 2);
    assert_eq!(page.len(), 1);
    assert_eq!(page[0].id, "c3");

    assert!(!remove_credential(&mut creds, &mut index, &"c1".to_string(), &"bob".to_string()));
    assert_eq!(creds.len(), 3);
    assert!(remove_credential(&mut creds, &mut index, &"c1".to_string(), &alice));
    assert_eq!(creds.len(), 2);
    assert_eq!(index[0].ids, vec!["c3".to_string()]);
    assert!(!remove_credential(&mut creds, &mut index, &"c1".to_string(), &alice));
    assert!(remove_credential(&mut creds, &mut index, &"c3".to_string(), &alice));
    assert!(index[0].ids.is_empty());
    let (page, total) = get_credentials_by_owner(&creds, &index, &alice, true, 0, 50, 0);
    assert_eq!(total, 0);
    assert!(page.is_empty());
}

fn line(event: &str, payload: &str) -> String {
    format!(
        "EVENT_JSON:{{\"standard\":\"shade-zk-verifier\",\"version\":\"1.0.0\",\"event\":\"{}\",\"data\":[{{{}}}]}}",
        event, payload
    )
}

#[test]
fn event_lines() {
    assert_eq!(
        emit_verification_key_set("verified-builder", true),
        "EVENT_JSON:{\"standard\":\"shade-zk-verifier\",\"version\":\"1.0.0\",\"event\":\"verification_key_set\",\"data\":[{\"circuit_type\":\"verified-builder\",\"updated\":true}]}"
    );
    assert_eq!(
        emit_proof_verified("verified-builder", false, None),
        line(
            "proof_verified",
            "\"circuit_type\":\"verified-builder\",\"valid\":false,\"credential_id\":null"
        )
    );
    assert_eq!(
        emit_proof_verified("verified-builder", true, Some("cred-01")),
        line(
            "proof_verified",
            "\"circuit_type\":\"verified-builder\",\"valid\":true,\"credential_id\":\"cred-01\""
        )
    );
    assert_eq!(
        emit_credential_stored("cred-01", "alice.testnet", "verified-builder", 1702592000),
        line(
            "credential_stored",
            "\"credential_id\":\"cred-01\",\"owner\":\"alice.testnet\",\"circuit_type\":\"verified-builder\",\"expires_at\":1702592000"
        )
    );
    assert_eq!(
        emit_credential_removed("cred-01", "alice.testnet"),
        line(
            "credential_removed",
            "\"credential_id\":\"cred-01\",\"removed_by\":\"alice.testnet\""
        )
    );
    assert_eq!(
        emit_contract_paused(true),
        line("contract_paused", "\"paused\":true")
    );
    assert_eq!(
        emit_contract_paused(false),
        line("contract_paused", "\"paused\":false")
    );
    assert_eq!(
        emit_ownership_proposed("o.testnet", "a.testnet"),
        line(
            "ownership_proposed",
            "\"current_owner\":\"o.testnet\",\"proposed_owner\":\"a.testnet\""
        )
    );
    assert_eq!(
        emit_ownership_transferred("o.testnet", "a.testnet"),
        line(
            "ownership_transferred",
            "\"old_owner\":\"o.testnet\",\"new_owner\":\"a.testnet\""
        )
    );
    assert_eq!(
        emit_admin_added("a.testnet"),
        line("admin_added", "\"account\":\"a.testnet\"")
    );
    assert_eq!(
        emit_admin_removed("a.testnet"),
        line("admin_removed", "\"account\":\"a.testnet\"")
    );
}

#[test]
fn event_texts_are_escaped_as_json_strings() {
    assert_eq!(
        emit_credential_revoked("cred-01", "o.testnet", "said \"no\"\n\\"),
        line(
            "credential_revoked",
            "\"credential_id\":\"cred-01\",\"revoked_by\":\"o.testnet\",\"reason\":\"said \\\"no\\\"\\n\\\\\""
        )
    );
}

#[test]
fn event_lines_parse_as_json() {
    let text = emit_credential_revoked("cred-\u{1}", "o.testnet", "tab\there \"q\"");
    let json = text.strip_prefix("EVENT_JSON:").unwrap();
    let value: serde_json::Value = serde_json::from_str(json).unwrap();
    assert_eq!(value["standard"], "shade-zk-verifier");
    assert_eq!(value["version"], "1.0.0");
    assert_eq!(value["event"], "credential_revoked");
    assert_eq!(value["data"][0]["credential_id"], "cred-\u{1}");
    assert_eq!(value["data"][0]["revoked_by"], "o.testnet");
    assert_eq!(value["data"][0]["reason"], "tab\there \"q\"");
    assert_eq!(value["data"].as_array().unwrap().len(), 1);
}

#[test]
fn owner_set_key_carries_the_digest_of_the_owner() {
    let key = owner_storage_key(&"alice.testnet".to_string());
    match &key {
        StorageKey::OwnerCredentials { owner_hash } => {
            assert_eq!(owner_hash.len(), 32);
            assert_eq!(
                hex::encode(owner_hash),
                "9a7068ee6434852cdaff3acb2f7d0f002fdad589c8e388b299e8a48a831ca3e4"
            );
        }
        _ => panic!("not an owner set key"),
    }
    let bytes = key.to_bytes();
    assert_eq!(&bytes[..5], &[3u8, 32, 0, 0, 0]);
    assert_eq!(bytes.len(), 37);
    let other = owner_storage_key(&"bob.testnet".to_string());
    assert_ne!(other.to_bytes(), bytes);
}
