//! The on-chain session program: sessions commit to their contact hashes,
//! receive exactly one PSI result, and are closed; users register salted
//! identity hashes. Accounts are identified by their 32-byte public keys.

use vstd::prelude::*;
use crate::bytes::{append_bytes, bytes32_eq};
use crate::merkle::{array_views, compute_merkle_root, merkle_root};
use crate::mxe::byte_rows;

verus! {

/// Maximum contacts per user session.
pub const MAX_CONTACTS: usize = 200;

/// Size of one hashed contact (a SHA-256 digest).
pub const CONTACT_HASH_SIZE: usize = 32;

/// Space of a session account: discriminator, owner, contact hashes,
/// Merkle commitment, creation time, status, job id, matched hashes and bump.
pub const SESSION_SPACE: usize = 8 + 32 + 4 + (MAX_CONTACTS * CONTACT_HASH_SIZE) + 32 + 8 + 1 + 32
    + 4 + (MAX_CONTACTS * 32) + 1;

/// Space of an identity account: discriminator, owner, identity hash, salt,
/// registration time and bump.
pub const IDENTITY_SPACE: usize = 8 + 32 + 32 + 16 + 8 + 1;

/// The lifecycle state of a session.
#[derive(Debug, Clone, Copy, PartialEq, Eq, Structural)]
pub enum SessionStatus {
    Pending,
    Complete,
    Failed,
}

/// The byte with which a status is stored in a session account.
pub open spec fn status_code(s: SessionStatus) -> u8 {
    match s {
        SessionStatus::Pending => 0,
        SessionStatus::Complete => 1,
        SessionStatus::Failed => 2,
    }
}

impl SessionStatus {
    /// The byte with which this status is stored in a session account.
    pub fn code(&self) -> (c: u8)
        ensures
            c == status_code(*self),
    {
        match self {
            SessionStatus::Pending => 0,
            SessionStatus::Complete => 1,
            SessionStatus::Failed => 2,
        }
    }
}

/// The reasons for which the program refuses an instruction.
#[derive(Debug, Clone, Copy, PartialEq, Eq, Structural)]
pub enum DiscoveryError {
    TooManyContacts,
    NoContacts,
    InvalidMerkleRoot,
    SessionNotPending,
    Unauthorized,
}

impl DiscoveryError {
    /// The message reported with this error.
    pub fn message(&self) -> (m: &'static str)
        ensures
            *self == DiscoveryError::TooManyContacts ==> m@ == "Contact list exceeds maximum of 200 entries"@,
            *self == DiscoveryError::NoContacts ==> m@ == "Contact list cannot be empty"@,
            *self == DiscoveryError::InvalidMerkleRoot ==> m@ == "Merkle root does not match submitted hashes"@,
            *self == DiscoveryError::SessionNotPending ==> m@ == "Session is not in pending state"@,
            *self == DiscoveryError::Unauthorized ==> m@ == "Unauthorized: only the Arcium MXE verifier can submit results"@,
    {
        match self {
            DiscoveryError::TooManyContacts => "Contact list exceeds maximum of 200 entries",
            DiscoveryError::NoContacts => "Contact list cannot be empty",
            DiscoveryError::InvalidMerkleRoot => "Merkle root does not match submitted hashes",
            DiscoveryError::SessionNotPending => "Session is not in pending state",
            DiscoveryError::Unauthorized => "Unauthorized: only the Arcium MXE verifier can submit results",
        }
    }
}

/// A discovery session account.
pub struct DiscoverySession {
    pub owner: [u8; 32],
    /// The hashed contact list (never raw contacts).
    pub contact_hashes: Vec<Vec<u8>>,
    /// The Merkle root to which the owner committed the contact list.
    pub merkle_root: [u8; 32],
    pub created_at: i64,
    pub status: u8,
    pub mxe_job_id: [u8; 32],
    /// The intersection result posted by the enclave.
    pub matched_hashes: Vec<Vec<u8>>,
    pub bump: u8,
}

/// A registered identity account.
pub struct UserIdentity {
    pub owner: [u8; 32],
    /// SHA-256(salt || identifier).
    pub identity_hash: [u8; 32],
    pub salt: [u8; 16],
    pub registered_at: i64,
    pub bump: u8,
}

/// Emitted when a session is initialised.
pub struct SessionCreated {
    pub owner: [u8; 32],
    pub contact_count: u32,
    pub timestamp: i64,
}

/// Emitted when a PSI result is posted to a session.
pub struct PsiResultReady {
    pub owner: [u8; 32],
    pub job_id: [u8; 32],
    pub match_count: u32,
    pub timestamp: i64,
}

/// Emitted when a session is closed.
pub struct SessionClosed {
    pub owner: [u8; 32],
    pub timestamp: i64,
}

/// Emitted when an identity is registered.
pub struct IdentityRegistered {
    pub owner: [u8; 32],
    pub timestamp: i64,
}

/// Whether a session may be initialised with `n` contact hashes whose
/// committed root does (`root_ok`) or does not match: the checks in order.
pub open spec fn init_check(n: nat, root_ok: bool) -> Result<(), DiscoveryError> {
    if n > MAX_CONTACTS {
        Err(DiscoveryError::TooManyContacts)
    } else if n == 0 {
        Err(DiscoveryError::NoContacts)
    } else if !root_ok {
        Err(DiscoveryError::InvalidMerkleRoot)
    } else {
        Ok(())
    }
}

/// Whether a session in state `status` accepts a result of `n` matched
/// hashes posted by a caller who is (`authorized`) or is not the enclave
/// verifier: the checks in order.
pub open spec fn submit_check(authorized: bool, status: u8, n: nat) -> Result<(), DiscoveryError> {
    if !authorized {
        Err(DiscoveryError::Unauthorized)
    } else if n > MAX_CONTACTS {
        Err(DiscoveryError::TooManyContacts)
    } else if status != status_code(SessionStatus::Pending) {
        Err(DiscoveryError::SessionNotPending)
    } else {
        Ok(())
    }
}

/// Checks a session's committed Merkle root against the root computed from
/// its contact hashes.
pub fn check_commitment(computed_root: &[u8; 32], committed_root: &[u8; 32]) -> (r: Result<(), DiscoveryError>)
    ensures
        r is Ok <==> computed_root@ == committed_root@,
        r is Err ==> r == Err::<(), DiscoveryError>(DiscoveryError::InvalidMerkleRoot),
{
    if bytes32_eq(computed_root, committed_root) {
        Ok(())
    } else {
        Err(DiscoveryError::InvalidMerkleRoot)
    }
}

/// Initialises a discovery session for `owner` at time `now`. The owner
/// commits to the hashed contact list with its Merkle root; the list must
/// hold between one and `MAX_CONTACTS` hashes and match the root.
pub fn init_session(
    owner: [u8; 32],
    contact_hashes: Vec<[u8; 32]>,
    merkle_root_in: [u8; 32],
    now: i64,
    bump: u8,
) -> (r: Result<(DiscoverySession, SessionCreated), DiscoveryError>)
    ensures
        match init_check(
            contact_hashes@.len(),
            merkle_root(array_views(contact_hashes@)) == merkle_root_in@,
        ) {
            Err(e) => r == Err::<(DiscoverySession, SessionCreated), DiscoveryError>(e),
            Ok(_) => r matches Ok((s, ev)) && {
                &&& s.owner == owner
                &&& byte_rows(s.contact_hashes@) == array_views(contact_hashes@)
                &&& s.merkle_root == merkle_root_in
                &&& merkle_root(byte_rows(s.contact_hashes@)) == s.merkle_root@
                &&& s.created_at == now
                &&& s.status == status_code(SessionStatus::Pending)
                &&& s.mxe_job_id@ == Seq::new(32, |i: int| 0u8)
                &&& s.matched_hashes@.len() == 0
                &&& s.bump == bump
                &&& ev.owner == owner
                &&& ev.contact_count == contact_hashes@.len()
                &&& ev.timestamp == now
            },
        },
{
    if contact_hashes.len() > MAX_CONTACTS {
        return Err(DiscoveryError::TooManyContacts);
    }
    if contact_hashes.len() == 0 {
        return Err(DiscoveryError::NoContacts);
    }
    let computed_root = compute_merkle_root(contact_hashes.as_slice());
    match check_commitment(&computed_root, &merkle_root_in) {
        Ok(()) => {},
        Err(e) => {
            return Err(e);
        },
    }
    let mut stored: Vec<Vec<u8>> = Vec::new();
    let mut i: usize = 0;
    while i < contact_hashes.len()
        invariant
            0 <= i <= contact_hashes@.len(),
            stored@.len() == i,
            forall|k: int| 0 <= k < i ==> #[trigger] stored@[k]@ == contact_hashes@[k]@,
        decreases contact_hashes@.len() - i,
    {
        let mut row: Vec<u8> = Vec::new();
        append_bytes(&mut row, contact_hashes[i].as_slice());
        stored.push(row);
        i = i + 1;
    }
    assert(byte_rows(stored@) =~= array_views(contact_hashes@));
    let zero = [0u8; 32];
    assert(zero@ =~= Seq::new(32, |i: int| 0u8));
    let count = contact_hashes.len() as u32;
    let session = DiscoverySession {
        owner,
        contact_hashes: stored,
        merkle_root: merkle_root_in,
        created_at: now,
        status: SessionStatus::Pending.code(),
        mxe_job_id: zero,
        matched_hashes: Vec::new(),
        bump,
    };
    let event = SessionCreated { owner, contact_count: count, timestamp: now };
    Ok((session, event))
}

/// Checks that the caller posting a result is the enclave verifier.
pub fn check_authority(authority: &[u8; 32], verifier: &[u8; 32]) -> (r: Result<(), DiscoveryError>)
    ensures
        r is Ok <==> authority@ == verifier@,
        r is Err ==> r == Err::<(), DiscoveryError>(DiscoveryError::Unauthorized),
{
    if bytes32_eq(authority, verifier) {
        Ok(())
    } else {
        Err(DiscoveryError::Unauthorized)
    }
}

/// Posts the PSI result of job `mxe_job_id` to a pending session at time
/// `now`; the session becomes complete. Only the enclave verifier may post:
/// a call whose `authority` is not `verifier` is refused, and so are a
/// result of more than `MAX_CONTACTS` hashes and a session that is not
/// pending; a refused call leaves the session unchanged.
pub fn submit_psi_result(
    session: &mut DiscoverySession,
    authority: [u8; 32],
    verifier: [u8; 32],
    mxe_job_id: [u8; 32],
    matched_hashes: Vec<Vec<u8>>,
    now: i64,
) -> (r: Result<PsiResultReady, DiscoveryError>)
    ensures
        match submit_check(authority@ == verifier@, old(session).status, matched_hashes@.len()) {
            Err(e) => r == Err::<PsiResultReady, DiscoveryError>(e) && *final(session) == *old(session),
            Ok(_) => r matches Ok(ev) && {
                &&& final(session).owner == old(session).owner
                &&& final(session).contact_hashes == old(session).contact_hashes
                &&& final(session).merkle_root == old(session).merkle_root
                &&& final(session).created_at == old(session).created_at
                &&& final(session).status == status_code(SessionStatus::Complete)
                &&& final(session).mxe_job_id == mxe_job_id
                &&& final(session).matched_hashes@ == matched_hashes@
                &&& final(session).bump == old(session).bump
                &&& ev.owner == old(session).owner
                &&& ev.job_id == mxe_job_id
                &&& ev.match_count == matched_hashes@.len()
                &&& ev.timestamp == now
            },
        },
{
    match check_authority(&authority, &verifier) {
        Ok(()) => {},
        Err(e) => {
            return Err(e);
        },
    }
    if matched_hashes.len() > MAX_CONTACTS {
        return Err(DiscoveryError::TooManyContacts);
    }
    if session.status != SessionStatus::Pending.code() {
        return Err(DiscoveryError::SessionNotPending);
    }
    let count = matched_hashes.len() as u32;
    session.mxe_job_id = mxe_job_id;
    session.matched_hashes = matched_hashes;
    session.status = SessionStatus::Complete.code();
    Ok(PsiResultReady { owner: session.owner, job_id: mxe_job_id, match_count: count, timestamp: now })
}

/// Closes a session at time `now`; the account's rent goes back to its owner.
pub fn close_session(session: &DiscoverySession, now: i64) -> (ev: SessionClosed)
    ensures
        ev.owner == session.owner,
        ev.timestamp == now,
{
    SessionClosed { owner: session.owner, timestamp: now }
}

/// Registers `owner` as discoverable under a salted identity hash at time
/// `now`, replacing any earlier registration.
pub fn register_identity(
    owner: [u8; 32],
    identity_hash: [u8; 32],
    salt: [u8; 16],
    now: i64,
    bump: u8,
) -> (r: (UserIdentity, IdentityRegistered))
    ensures
        r.0.owner == owner,
        r.0.identity_hash == identity_hash,
        r.0.salt == salt,
        r.0.registered_at == now,
        r.0.bump == bump,
        r.1.owner == owner,
        r.1.timestamp == now,
{
    let identity = UserIdentity { owner, identity_hash, salt, registered_at: now, bump };
    (identity, IdentityRegistered { owner, timestamp: now })
}

/// A session accepts at most one result: once a result has been posted and
/// the session is complete, every further result is refused, and one that
/// the verifier posts within the size limit is refused as not pending.
pub proof fn lemma_result_posted_once(n1: nat, authorized: bool, n2: nat)
    requires
        submit_check(true, status_code(SessionStatus::Pending), n1) is Ok,
    ensures
        submit_check(authorized, status_code(SessionStatus::Complete), n2) is Err,
        authorized && n2 <= MAX_CONTACTS ==> submit_check(
            authorized,
            status_code(SessionStatus::Complete),
            n2,
        ) == Err::<(), DiscoveryError>(DiscoveryError::SessionNotPending),
{
}

/// Only the enclave verifier can post a result: any other caller is
/// refused as unauthorised, whatever the session's state and the result.
pub proof fn lemma_only_verifier_posts(status: u8, n: nat)
    ensures
        submit_check(false, status, n) == Err::<(), DiscoveryError>(DiscoveryError::Unauthorized),
{
}

/// A freshly initialised session is pending, so it accepts a result from the
/// verifier exactly when the result respects the size limit.
pub proof fn lemma_fresh_session_accepts(n: nat)
    ensures
        submit_check(true, status_code(SessionStatus::Pending), n) is Ok <==> n <= MAX_CONTACTS,
{
}

/// Initialisation refuses exactly: more than `MAX_CONTACTS` hashes as too
/// many, an empty list as empty, and a list within the limits whose root is
/// not the committed one as a root mismatch; it accepts every other list.
pub proof fn lemma_init_outcome(n: nat, root_ok: bool)
    ensures
        init_check(n, root_ok) == Err::<(), DiscoveryError>(DiscoveryError::TooManyContacts)
            <==> n > 200,
        init_check(n, root_ok) == Err::<(), DiscoveryError>(DiscoveryError::NoContacts) <==> n
            == 0,
        init_check(n, root_ok) == Err::<(), DiscoveryError>(DiscoveryError::InvalidMerkleRoot)
            <==> (1 <= n <= 200 && !root_ok),
        init_check(n, root_ok) is Ok <==> (1 <= n <= 200 && root_ok),
{
}

/// Posting a result refuses exactly: any caller but the verifier as
/// unauthorised, then more than `MAX_CONTACTS` hashes as too many, then a
/// session that is not pending; it accepts every other call.
pub proof fn lemma_submit_outcome(authorized: bool, status: u8, n: nat)
    ensures
        submit_check(authorized, status, n) == Err::<(), DiscoveryError>(DiscoveryError::Unauthorized)
            <==> !authorized,
        submit_check(authorized, status, n) == Err::<(), DiscoveryError>(
            DiscoveryError::TooManyContacts,
        ) <==> (authorized && n > 200),
        submit_check(authorized, status, n) == Err::<(), DiscoveryError>(
            DiscoveryError::SessionNotPending,
        ) <==> (authorized && n <= 200 && status != 0),
        submit_check(authorized, status, n) is Ok <==> (authorized && n <= 200 && status == 0),
{
}

} // verus!
