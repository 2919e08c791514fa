//! The PSI job that runs inside the secure execution environment.

use vstd::prelude::*;
use vstd::bytes::{
    lemma_auto_spec_u64_to_from_le_bytes, spec_u64_from_le_bytes, spec_u64_to_le_bytes,
    u64_to_le_bytes,
};
use vstd::utf8::encode_utf8;
use crate::bytes::append_bytes;
use crate::digest::{sha256, sha256_digest};
use crate::psi::{ContactHash, blind_digest, compute_psi, hash_views, psi, session_blind};

verus! {

/// An encrypted contact hash share as received from a party.
pub struct EncryptedShare {
    /// The encrypted bytes (AES-256-GCM under the enclave's public key).
    pub ciphertext: Vec<u8>,
    /// Nonce / IV.
    pub nonce: [u8; 12],
    /// Authentication tag.
    pub tag: [u8; 16],
    /// Party identifier (A or B).
    pub party_id: u8,
}

/// A PSI job as the enclave receives it from the on-chain program.
pub struct PsiJobInput {
    pub job_id: [u8; 32],
    pub party_a_shares: Vec<EncryptedShare>,
    pub party_b_shares: Vec<EncryptedShare>,
    /// Session accounts to call back with the results.
    pub session_a: String,
    pub session_b: String,
}

/// The result of a PSI job as the enclave returns it.
pub struct PsiJobOutput {
    pub job_id: [u8; 32],
    /// The intersection hashes (safe to reveal: both parties had them).
    pub matched_hashes: Vec<Vec<u8>>,
    /// Match count reported to party A.
    pub match_count_a: u32,
    /// Match count reported to party B.
    pub match_count_b: u32,
    /// The attestation over the job and its match count.
    pub attestation: Vec<u8>,
}

/// The domain-separation tag that starts every attestation preimage.
pub const ATTESTATION_DOMAIN: &'static str = "arcium-mxe-attestation-v1";

/// The byte contents of a sequence of byte vectors.
pub open spec fn byte_rows(rows: Seq<Vec<u8>>) -> Seq<Seq<u8>> {
    rows.map_values(|r: Vec<u8>| r@)
}

/// The session-blinded views of a sequence of hash views.
pub open spec fn blind_views(views: Seq<Seq<u8>>, job_id: Seq<u8>) -> Seq<Seq<u8>> {
    views.map_values(|h: Seq<u8>| blind_digest(h, job_id))
}

/// The hashes a job matches: the blinded hashes of party B that also occur
/// among the blinded hashes of party A, in party B's order.
pub open spec fn matched_views(a: Seq<ContactHash>, b: Seq<ContactHash>, job_id: Seq<u8>) -> Seq<Seq<u8>> {
    psi(blind_views(hash_views(a), job_id), blind_views(hash_views(b), job_id))
}

/// The attestation for a job: SHA-256 over the domain tag, the job id and
/// the match count as 8 little-endian bytes.
pub open spec fn attestation_digest(job_id: Seq<u8>, match_count: u64) -> Seq<u8> {
    sha256_digest(encode_utf8(ATTESTATION_DOMAIN@) + job_id + spec_u64_to_le_bytes(match_count))
}

/// Blinds every hash of `set` with the job id.
fn blind_all(set: &[ContactHash], job_id: &[u8; 32]) -> (r: Vec<ContactHash>)
    ensures
        hash_views(r@) == blind_views(hash_views(set@), job_id@),
{
    let mut out: Vec<ContactHash> = Vec::new();
    let mut i: usize = 0;
    while i < set.len()
        invariant
            0 <= i <= set@.len(),
            out@.len() == i,
            forall|k: int| 0 <= k < i ==> #[trigger] out@[k]@ == blind_digest(set@[k]@, job_id@),
        decreases set@.len() - i,
    {
        out.push(session_blind(&set[i], job_id));
        i = i + 1;
    }
    assert(hash_views(out@) =~= blind_views(hash_views(set@), job_id@));
    out
}

/// Placeholder attestation: SHA-256(domain tag || job id || match count as
/// u64 little-endian).
fn generate_mock_attestation(job_id: &[u8; 32], match_count: usize) -> (r: Vec<u8>)
    ensures
        r@ == attestation_digest(job_id@, match_count as u64),
        r@.len() == 32,
{
    let mut buf: Vec<u8> = Vec::new();
    append_bytes(&mut buf, ATTESTATION_DOMAIN.as_bytes());
    append_bytes(&mut buf, job_id.as_slice());
    let count = u64_to_le_bytes(match_count as u64);
    append_bytes(&mut buf, count.as_slice());
    let digest = sha256(buf.as_slice());
    let mut out: Vec<u8> = Vec::new();
    append_bytes(&mut out, digest.as_slice());
    out
}

/// Runs a PSI job on the decrypted hash sets: blinds both sets with the job
/// id, intersects them, and reports the matched hashes, their count to both
/// parties, and an attestation.
pub fn mxe_execute(job: &PsiJobInput, set_a: &[ContactHash], set_b: &[ContactHash]) -> (out: PsiJobOutput)
    ensures
        out.job_id == job.job_id,
        byte_rows(out.matched_hashes@) == matched_views(set_a@, set_b@, job.job_id@),
        out.match_count_a == matched_views(set_a@, set_b@, job.job_id@).len() as u32,
        out.match_count_b == out.match_count_a,
        out.attestation@ == attestation_digest(
            job.job_id@,
            matched_views(set_a@, set_b@, job.job_id@).len() as u64,
        ),
        out.attestation@.len() == 32,
        forall|k: int|
            0 <= k < out.matched_hashes@.len() ==> #[trigger] out.matched_hashes@[k]@.len() == 32,
{
    let blinded_a = blind_all(set_a, &job.job_id);
    let blinded_b = blind_all(set_b, &job.job_id);
    let intersection = compute_psi(blinded_a.as_slice(), blinded_b.as_slice());
    let ghost matched = matched_views(set_a@, set_b@, job.job_id@);
    assert(hash_views(intersection@) == matched);

    let mut matched_hashes: Vec<Vec<u8>> = Vec::new();
    let mut i: usize = 0;
    while i < intersection.len()
        invariant
            0 <= i <= intersection@.len(),
            matched_hashes@.len() == i,
            forall|k: int| 0 <= k < i ==> #[trigger] matched_hashes@[k]@ == intersection@[k]@,
            forall|k: int| 0 <= k < i ==> #[trigger] matched_hashes@[k]@.len() == 32,
        decreases intersection@.len() - i,
    {
        let mut row: Vec<u8> = Vec::new();
        append_bytes(&mut row, intersection[i].as_bytes().as_slice());
        matched_hashes.push(row);
        i = i + 1;
    }
    assert(byte_rows(matched_hashes@) =~= hash_views(intersection@));

    let attestation = generate_mock_attestation(&job.job_id, matched_hashes.len());
    let count = intersection.len() as u32;
    PsiJobOutput {
        job_id: job.job_id,
        match_count_a: count,
        match_count_b: count,
        matched_hashes,
        attestation,
    }
}

/// Blinding keeps matches and reveals nothing else: a contact that both
/// parties hold is matched (in its blinded form), and every matched hash is
/// the blinding of a hash of party A and of a hash of party B.
pub proof fn lemma_blinded_matches(a: Seq<ContactHash>, b: Seq<ContactHash>, job_id: Seq<u8>, y: Seq<u8>)
    ensures
        (exists|x: ContactHash| a.contains(x) && b.contains(x) && y == blind_digest(x@, job_id))
            ==> matched_views(a, b, job_id).contains(y),
        matched_views(a, b, job_id).contains(y) ==> {
            &&& exists|i: int| 0 <= i < a.len() && y == blind_digest(#[trigger] a[i]@, job_id)
            &&& exists|j: int| 0 <= j < b.len() && y == blind_digest(#[trigger] b[j]@, job_id)
        },
{
    let ba = blind_views(hash_views(a), job_id);
    let bb = blind_views(hash_views(b), job_id);
    crate::psi::lemma_psi_membership(ba, bb, y);
    if exists|x: ContactHash| a.contains(x) && b.contains(x) && y == blind_digest(x@, job_id) {
        let x = choose|x: ContactHash| a.contains(x) && b.contains(x) && y == blind_digest(x@, job_id);
        let i = choose|i: int| 0 <= i < a.len() && a[i] == x;
        let j = choose|j: int| 0 <= j < b.len() && b[j] == x;
        assert(ba[i] == y);
        assert(bb[j] == y);
    }
    if matched_views(a, b, job_id).contains(y) {
        let i = choose|i: int| 0 <= i < ba.len() && ba[i] == y;
        let j = choose|j: int| 0 <= j < bb.len() && bb[j] == y;
        assert(y == blind_digest(a[i]@, job_id));
        assert(y == blind_digest(b[j]@, job_id));
    }
}

/// The attestation binds the job and its match count: it is the SHA-256 of
/// a preimage that starts with the UTF-8 domain tag, continues with the job
/// id, and ends with exactly 8 bytes that decode (little-endian) to the
/// match count.
pub proof fn lemma_attestation_binds_job_and_count(job_id: Seq<u8>, match_count: u64)
    ensures
        exists|p: Seq<u8>|
            {
                let tag = encode_utf8(ATTESTATION_DOMAIN@);
                &&& attestation_digest(job_id, match_count) == #[trigger] sha256_digest(p)
                &&& p.len() == tag.len() + job_id.len() + 8
                &&& p.subrange(0, tag.len() as int) == tag
                &&& p.subrange(tag.len() as int, (tag.len() + job_id.len()) as int) == job_id
                &&& spec_u64_from_le_bytes(p.subrange((tag.len() + job_id.len()) as int, p.len() as int))
                    == match_count
            },
{
    lemma_auto_spec_u64_to_from_le_bytes();
    let tag = encode_utf8(ATTESTATION_DOMAIN@);
    let le = spec_u64_to_le_bytes(match_count);
    let p = tag + job_id + le;
    assert(p.subrange(0, tag.len() as int) =~= tag);
    assert(p.subrange(tag.len() as int, (tag.len() + job_id.len()) as int) =~= job_id);
    assert(p.subrange((tag.len() + job_id.len()) as int, p.len() as int) =~= le);
    assert(attestation_digest(job_id, match_count) == sha256_digest(p));
    assert(spec_u64_from_le_bytes(p.subrange((tag.len() + job_id.len()) as int, p.len() as int))
        == match_count);
}

/// Attestations of different match counts for one job come from different
/// preimages (their trailing count bytes differ).
pub proof fn lemma_attestation_counts_distinguished(job_id: Seq<u8>, c1: u64, c2: u64)
    requires
        c1 != c2,
    ensures
        spec_u64_to_le_bytes(c1) != spec_u64_to_le_bytes(c2),
        encode_utf8(ATTESTATION_DOMAIN@) + job_id + spec_u64_to_le_bytes(c1)
            != encode_utf8(ATTESTATION_DOMAIN@) + job_id + spec_u64_to_le_bytes(c2),
{
    lemma_auto_spec_u64_to_from_le_bytes();
    let pre = encode_utf8(ATTESTATION_DOMAIN@) + job_id;
    let p1 = pre + spec_u64_to_le_bytes(c1);
    let p2 = pre + spec_u64_to_le_bytes(c2);
    if p1 == p2 {
        assert(p1.subrange(pre.len() as int, p1.len() as int) =~= spec_u64_to_le_bytes(c1));
        assert(p2.subrange(pre.len() as int, p2.len() as int) =~= spec_u64_to_le_bytes(c2));
    }
}

/// Blinding is applied hash by hash, in order.
pub proof fn lemma_blind_views_pointwise(views: Seq<Seq<u8>>, job_id: Seq<u8>, i: int)
    requires
        0 <= i < views.len(),
    ensures
        blind_views(views, job_id).len() == views.len(),
        blind_views(views, job_id)[i] == sha256_digest(views[i] + job_id),
{
    crate::psi::lemma_blind_digest_preimage(views[i], job_id);
}

/// The matches are built from party B's hashes in order: appending a hash
/// to B appends its blinding to the matches exactly when the blinding occurs
/// among party A's blinded hashes.
pub proof fn lemma_matched_push(a: Seq<ContactHash>, b: Seq<ContactHash>, x: ContactHash, job_id: Seq<u8>)
    ensures
        matched_views(a, b.push(x), job_id) == (if blind_views(hash_views(a), job_id).contains(
            blind_digest(x@, job_id),
        ) {
            matched_views(a, b, job_id).push(blind_digest(x@, job_id))
        } else {
            matched_views(a, b, job_id)
        }),
{
    let ba = blind_views(hash_views(a), job_id);
    assert(blind_views(hash_views(b.push(x)), job_id) =~= blind_views(hash_views(b), job_id).push(
        blind_digest(x@, job_id),
    ));
    crate::psi::lemma_psi_push(ba, blind_views(hash_views(b), job_id), blind_digest(x@, job_id));
}

} // verus!
