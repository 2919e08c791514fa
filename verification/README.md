# contact_discovery

Private contact discovery: two users learn which contacts they share
without revealing the rest. Contacts are hashed client-side as
SHA-256(salt || identifier); inside the secure enclave both hash sets are
blinded with the job id and intersected; the on-chain program records each
session's Merkle commitment and its single PSI result.

Layout:

- `src/digest.rs` — the trusted SHA-256 and hex-encoding calls.
- `src/psi.rs` — `ContactHash`, hashing, blinding, the intersection and its laws.
- `src/mxe.rs` — the enclave job: blinding, intersection, attestation.
- `src/merkle.rs` — the Merkle root of a session's contact hashes.
- `src/program.rs` — the session state machine of the on-chain program.
- `app/` — the Anchor program glue (accounts, clock, events) and the enclave demo.
