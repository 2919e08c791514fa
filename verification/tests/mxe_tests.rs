use contact_discovery::mxe::{mxe_execute, EncryptedShare, PsiJobInput};
use contact_discovery::psi::{hash_contact, session_blind, ContactHash};
use sha2::{Digest, Sha256};

fn make_set(ids: &[&str]) -> Vec<ContactHash> {
    ids.iter().map(|id| hash_contact(b"sharedDemoSalt!!", id)).collect()
}

fn job(id: [u8; 32]) -> PsiJobInput {
    PsiJobInput {
        job_id: id,
        party_a_shares: vec![EncryptedShare { ciphertext: vec![1, 2], nonce: [0u8; 12], tag: [0u8; 16], party_id: 0 }],
        party_b_shares: vec![],
        session_a: String::from("sessionA"),
        session_b: String::from("sessionB"),
    }
}

fn attestation(job_id: &[u8; 32], count: u64) -> Vec<u8> {
    let mut pre = b"arcium-mxe-attestation-v1".to_vec();
    pre.extend_from_slice(job_id);
    pre.extend_from_slice(&count.to_le_bytes());
    Sha256::digest(&pre).to_vec()
}

#[test]
fn mxe_execute_matches_blinded_common_contacts() {
    let a = make_set(&["alice@example.com", "bob@example.com", "charlie@example.com", "dave@example.com"]);
    let b = make_set(&["bob@example.com", "charlie@example.com", "eve@example.com", "frank@example.com"]);
    let mut id = [0u8; 32];
    id[0] = 0xde;
    id[1] = 0xad;
    let out = mxe_execute(&job(id), &a, &b);
    assert_eq!(out.job_id, id);
    assert_eq!(out.match_count_a, 2);
    assert_eq!(out.match_count_b, 2);
    let expected: Vec<Vec<u8>> = vec![
        session_blind(&b[0], &id).as_bytes().to_vec(),
        session_blind(&b[1], &id).as_bytes().to_vec(),
    ];
    assert_eq!(out.matched_hashes, expected);
    assert_eq!(out.attestation, attestation(&id, 2));
    assert_eq!(out.attestation.len(), 32);
    assert!(out.matched_hashes.iter().all(|m| m.len() == 32));
}

#[test]
fn mxe_execute_without_matches() {
    let a = make_set(&["alice@example.com"]);
    let b = make_set(&["bob@example.com"]);
    let id = [3u8; 32];
    let out = mxe_execute(&job(id), &a, &b);
    assert!(out.matched_hashes.is_empty());
    assert_eq!(out.match_count_a, 0);
    assert_eq!(out.match_count_b, 0);
    assert_eq!(out.attestation, attestation(&id, 0));
}
