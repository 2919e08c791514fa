use contact_discovery::merkle::compute_merkle_root;
use contact_discovery::program::{
    close_session, init_session, register_identity, submit_psi_result, DiscoveryError,
    SessionStatus, MAX_CONTACTS, SESSION_SPACE,
};
use sha2::{Digest, Sha256};

const VERIFIER: [u8; 32] = [0xaa; 32];

fn h(b: u8) -> [u8; 32] {
    [b; 32]
}

fn pair(a: &[u8; 32], b: &[u8; 32]) -> [u8; 32] {
    let mut pre = a.to_vec();
    pre.extend_from_slice(b);
    Sha256::digest(&pre).into()
}

#[test]
fn merkle_root_of_empty_is_zero() {
    assert_eq!(compute_merkle_root(&[]), [0u8; 32]);
}

#[test]
fn merkle_root_of_single_is_the_hash() {
    assert_eq!(compute_merkle_root(&[h(5)]), h(5));
}

#[test]
fn merkle_root_of_pair() {
    assert_eq!(compute_merkle_root(&[h(1), h(2)]), pair(&h(1), &h(2)));
}

#[test]
fn merkle_root_of_three_repeats_last() {
    let expected = pair(&pair(&h(1), &h(2)), &pair(&h(3), &h(3)));
    assert_eq!(compute_merkle_root(&[h(1), h(2), h(3)]), expected);
}

#[test]
fn merkle_root_of_five() {
    let l1a = pair(&h(1), &h(2));
    let l1b = pair(&h(3), &h(4));
    let l1c = pair(&h(5), &h(5));
    let l2a = pair(&l1a, &l1b);
    let l2b = pair(&l1c, &l1c);
    let expected = pair(&l2a, &l2b);
    assert_eq!(compute_merkle_root(&[h(1), h(2), h(3), h(4), h(5)]), expected);
}

#[test]
fn init_session_accepts_matching_root() {
    let hashes = vec![h(1), h(2), h(3)];
    let root = compute_merkle_root(&hashes);
    let (session, ev) = init_session(h(9), hashes.clone(), root, 1_700_000_000, 254).unwrap();
    assert_eq!(session.owner, h(9));
    assert_eq!(session.contact_hashes, hashes.iter().map(|x| x.to_vec()).collect::<Vec<_>>());
    assert_eq!(session.merkle_root, root);
    assert_eq!(compute_merkle_root(&hashes), session.merkle_root);
    assert_eq!(session.created_at, 1_700_000_000);
    assert_eq!(session.status, 0);
    assert_eq!(session.mxe_job_id, [0u8; 32]);
    assert!(session.matched_hashes.is_empty());
    assert_eq!(session.bump, 254);
    assert_eq!(ev.owner, h(9));
    assert_eq!(ev.contact_count, 3);
    assert_eq!(ev.timestamp, 1_700_000_000);
}

#[test]
fn init_session_rejects_too_many_contacts() {
    let hashes: Vec<[u8; 32]> = (0..=MAX_CONTACTS).map(|i| h(i as u8)).collect();
    let root = compute_merkle_root(&hashes);
    let r = init_session(h(9), hashes, root, 0, 0);
    assert_eq!(r.err(), Some(DiscoveryError::TooManyContacts));
}

#[test]
fn init_session_accepts_exactly_max_contacts() {
    let hashes: Vec<[u8; 32]> = (0..MAX_CONTACTS).map(|i| h(i as u8)).collect();
    let root = compute_merkle_root(&hashes);
    let (_, ev) = init_session(h(9), hashes, root, 0, 0).unwrap();
    assert_eq!(ev.contact_count, 200);
}

#[test]
fn init_session_rejects_empty_list() {
    let r = init_session(h(9), vec![], [0u8; 32], 0, 0);
    assert_eq!(r.err(), Some(DiscoveryError::NoContacts));
}

#[test]
fn init_session_rejects_wrong_root() {
    let hashes = vec![h(1), h(2)];
    let r = init_session(h(9), hashes, h(1), 0, 0);
    assert_eq!(r.err(), Some(DiscoveryError::InvalidMerkleRoot));
}

#[test]
fn submit_psi_result_completes_a_pending_session_once() {
    let hashes = vec![h(1), h(2)];
    let root = compute_merkle_root(&hashes);
    let (mut session, _) = init_session(h(9), hashes, root, 10, 1).unwrap();
    let matched = vec![vec![1u8; 32]];
    let ev = submit_psi_result(&mut session, VERIFIER, VERIFIER, h(7), matched.clone(), 20).unwrap();
    assert_eq!(ev.owner, h(9));
    assert_eq!(ev.job_id, h(7));
    assert_eq!(ev.match_count, 1);
    assert_eq!(ev.timestamp, 20);
    assert_eq!(session.status, 1);
    assert_eq!(session.mxe_job_id, h(7));
    assert_eq!(session.matched_hashes, matched);
    assert_eq!(session.created_at, 10);

    let again = submit_psi_result(&mut session, VERIFIER, VERIFIER, h(8), vec![], 30);
    assert_eq!(again.err(), Some(DiscoveryError::SessionNotPending));
    assert_eq!(session.mxe_job_id, h(7));
    assert_eq!(session.matched_hashes, matched);
}

#[test]
fn submit_psi_result_rejects_too_many_matches() {
    let hashes = vec![h(1)];
    let root = compute_merkle_root(&hashes);
    let (mut session, _) = init_session(h(9), hashes, root, 10, 1).unwrap();
    let matched = vec![vec![0u8; 32]; MAX_CONTACTS + 1];
    let r = submit_psi_result(&mut session, VERIFIER, VERIFIER, h(7), matched, 20);
    assert_eq!(r.err(), Some(DiscoveryError::TooManyContacts));
    assert_eq!(session.status, 0);
    assert!(session.matched_hashes.is_empty());
}

#[test]
fn close_and_register_report_owner_and_time() {
    let hashes = vec![h(1)];
    let root = compute_merkle_root(&hashes);
    let (session, _) = init_session(h(9), hashes, root, 10, 1).unwrap();
    let ev = close_session(&session, 42);
    assert_eq!(ev.owner, h(9));
    assert_eq!(ev.timestamp, 42);

    let (identity, ev) = register_identity(h(4), h(5), [6u8; 16], 77, 3);
    assert_eq!(identity.owner, h(4));
    assert_eq!(identity.identity_hash, h(5));
    assert_eq!(identity.salt, [6u8; 16]);
    assert_eq!(identity.registered_at, 77);
    assert_eq!(identity.bump, 3);
    assert_eq!(ev.owner, h(4));
    assert_eq!(ev.timestamp, 77);
}

#[test]
fn status_codes_and_messages() {
    assert_eq!(SessionStatus::Pending.code(), 0);
    assert_eq!(SessionStatus::Complete.code(), 1);
    assert_eq!(SessionStatus::Failed.code(), 2);
    assert_eq!(DiscoveryError::TooManyContacts.message(), "Contact list exceeds maximum of 200 entries");
    assert_eq!(DiscoveryError::NoContacts.message(), "Contact list cannot be empty");
    assert_eq!(DiscoveryError::InvalidMerkleRoot.message(), "Merkle root does not match submitted hashes");
    assert_eq!(DiscoveryError::SessionNotPending.message(), "Session is not in pending state");
    assert_eq!(
        DiscoveryError::Unauthorized.message(),
        "Unauthorized: only the Arcium MXE verifier can submit results"
    );
    assert_eq!(SESSION_SPACE, 12922);
}

#[test]
fn submit_psi_result_rejects_other_callers() {
    let hashes = vec![h(1), h(2)];
    let root = compute_merkle_root(&hashes);
    let (mut session, _) = init_session(h(9), hashes, root, 10, 1).unwrap();
    let r = submit_psi_result(&mut session, h(9), VERIFIER, h(7), vec![vec![1u8; 32]], 20);
    assert_eq!(r.err(), Some(DiscoveryError::Unauthorized));
    assert_eq!(session.status, 0);
    assert_eq!(session.mxe_job_id, [0u8; 32]);
    assert!(session.matched_hashes.is_empty());

    // The caller is checked before the size of the result.
    let too_many = vec![vec![0u8; 32]; MAX_CONTACTS + 1];
    let r = submit_psi_result(&mut session, h(9), VERIFIER, h(7), too_many, 20);
    assert_eq!(r.err(), Some(DiscoveryError::Unauthorized));

    let ok = submit_psi_result(&mut session, VERIFIER, VERIFIER, h(7), vec![vec![1u8; 32]], 20);
    assert!(ok.is_ok());
    assert_eq!(session.status, 1);
}
