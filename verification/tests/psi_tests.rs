use contact_discovery::psi::{compute_psi, hash_contact, session_blind, ContactHash};
use sha2::{Digest, Sha256};

fn make_set(ids: &[&str]) -> Vec<ContactHash> {
    let salt = b"testSalt12345678";
    ids.iter().map(|id| hash_contact(salt, id)).collect()
}

#[test]
fn test_psi_basic() {
    let a = make_set(&["alice@x.com", "bob@x.com", "charlie@x.com"]);
    let b = make_set(&["bob@x.com", "charlie@x.com", "dave@x.com"]);
    let result = compute_psi(&a, &b);
    assert_eq!(result.len(), 2);
}

#[test]
fn test_psi_no_overlap() {
    let a = make_set(&["alice@x.com"]);
    let b = make_set(&["bob@x.com"]);
    let result = compute_psi(&a, &b);
    assert_eq!(result.len(), 0);
}

#[test]
fn test_psi_full_overlap() {
    let a = make_set(&["alice@x.com", "bob@x.com"]);
    let b = make_set(&["alice@x.com", "bob@x.com"]);
    let result = compute_psi(&a, &b);
    assert_eq!(result.len(), 2);
}

#[test]
fn test_hash_deterministic() {
    let salt = b"testSalt12345678";
    let h1 = hash_contact(salt, "test@example.com");
    let h2 = hash_contact(salt, "test@example.com");
    assert_eq!(h1, h2);
}

#[test]
fn test_different_salts_different_hashes() {
    let h1 = hash_contact(b"salt111111111111", "test@example.com");
    let h2 = hash_contact(b"salt222222222222", "test@example.com");
    assert_ne!(h1, h2, "Different salts must produce different hashes");
}

#[test]
fn test_session_blinding() {
    let salt = b"testSalt12345678";
    let h = hash_contact(salt, "test@example.com");
    let job1 = [1u8; 32];
    let job2 = [2u8; 32];
    let b1 = session_blind(&h, &job1);
    let b2 = session_blind(&h, &job2);
    assert_ne!(b1, b2, "Different sessions must produce different blindings");
    assert_ne!(b1, h, "Blinded hash must differ from original");
}

#[test]
fn test_psi_empty() {
    let a = make_set(&[]);
    let b = make_set(&["bob@x.com"]);
    let result = compute_psi(&a, &b);
    assert_eq!(result.len(), 0);
}

#[test]
fn psi_keeps_order_of_second_set_and_only_common_hashes() {
    let a = make_set(&["dave@x.com", "bob@x.com", "alice@x.com"]);
    let b = make_set(&["alice@x.com", "eve@x.com", "bob@x.com", "frank@x.com"]);
    let result = compute_psi(&a, &b);
    assert_eq!(result, vec![b[0].clone(), b[2].clone()]);
}

#[test]
fn psi_keeps_duplicates_of_second_set() {
    let a = make_set(&["bob@x.com"]);
    let b = make_set(&["bob@x.com", "carol@x.com", "bob@x.com"]);
    let result = compute_psi(&a, &b);
    assert_eq!(result.len(), 2);
    assert_eq!(result[0], a[0]);
    assert_eq!(result[1], a[0]);
}

#[test]
fn psi_of_a_set_with_itself_is_the_set() {
    let a = make_set(&["alice@x.com", "bob@x.com", "carol@x.com"]);
    assert_eq!(compute_psi(&a, &a), a);
}

#[test]
fn psi_count_is_symmetric_for_distinct_sets() {
    let a = make_set(&["alice@x.com", "bob@x.com", "charlie@x.com", "dave@x.com"]);
    let b = make_set(&["bob@x.com", "charlie@x.com", "eve@x.com"]);
    assert_eq!(compute_psi(&a, &b).len(), compute_psi(&b, &a).len());
    assert_eq!(compute_psi(&a, &b).len(), 2);
}

#[test]
fn hash_contact_is_sha256_of_salt_then_identifier() {
    let salt = b"aliceSalt1234567";
    let h = hash_contact(salt, "alice@example.com");
    let mut pre = salt.to_vec();
    pre.extend_from_slice("alice@example.com".as_bytes());
    let expected: [u8; 32] = Sha256::digest(&pre).into();
    assert_eq!(h.as_bytes(), &expected);
}

#[test]
fn hash_contact_encodes_identifier_as_utf8() {
    let salt = [0u8; 16];
    let h = hash_contact(&salt, "zoë@例え.jp");
    let mut pre = salt.to_vec();
    pre.extend_from_slice("zoë@例え.jp".as_bytes());
    let expected: [u8; 32] = Sha256::digest(&pre).into();
    assert_eq!(h.as_bytes(), &expected);
}

#[test]
fn session_blind_is_sha256_of_hash_then_job_id() {
    let h = ContactHash::from_bytes(&[7u8; 32]).unwrap();
    let job = [9u8; 32];
    let b = session_blind(&h, &job);
    let mut pre = vec![7u8; 32];
    pre.extend_from_slice(&job);
    let expected: [u8; 32] = Sha256::digest(&pre).into();
    assert_eq!(b.as_bytes(), &expected);
}

#[test]
fn sha256_known_answer_through_session_blind() {
    // SHA-256 of 64 zero bytes.
    let h = ContactHash::from_bytes(&[0u8; 32]).unwrap();
    let b = session_blind(&h, &[0u8; 32]);
    assert_eq!(
        b.to_hex(),
        "f5a5fd42d16a20302798ef6ed309979b43003d2320d9f0e8ea9831a92759fb4b"
    );
}

#[test]
fn from_bytes_accepts_exactly_32_bytes() {
    assert!(ContactHash::from_bytes(&[1u8; 31]).is_none());
    assert!(ContactHash::from_bytes(&[1u8; 33]).is_none());
    assert!(ContactHash::from_bytes(&[]).is_none());
    let bytes: Vec<u8> = (0u8..32).collect();
    let h = ContactHash::from_bytes(&bytes).unwrap();
    assert_eq!(h.as_bytes().to_vec(), bytes);
}

#[test]
fn to_hex_is_lower_case_two_digits_per_byte() {
    let mut bytes = [0u8; 32];
    bytes[0] = 0xde;
    bytes[1] = 0xad;
    bytes[2] = 0x0f;
    bytes[31] = 0xa0;
    let h = ContactHash::from_bytes(&bytes).unwrap();
    let hex = h.to_hex();
    assert_eq!(hex.len(), 64);
    assert!(hex.starts_with("dead0f00"));
    assert!(hex.ends_with("00a0"));
}
