//! Contact hashes and the private set intersection computed over them.

use vstd::prelude::*;
use crate::bytes::{append_bytes, bytes32_eq};
use crate::digest::{sha256, sha256_digest, hex_encode, hex_lower};
use vstd::utf8::{decode_utf8, encode_utf8};

verus! {

broadcast use vstd::array::group_array_axioms;

/// A 32-byte contact hash (SHA-256 output). Inside the secure boundary it is
/// compared only for equality.
#[derive(Debug, Clone, PartialEq, Eq, Hash)]
pub struct ContactHash([u8; 32]);

impl View for ContactHash {
    type V = Seq<u8>;

    /// The 32 bytes of the hash.
    closed spec fn view(&self) -> Seq<u8> {
        self.0@
    }
}

/// The byte views of a sequence of contact hashes, in order.
pub open spec fn hash_views(s: Seq<ContactHash>) -> Seq<Seq<u8>> {
    s.map_values(|h: ContactHash| h@)
}

/// Membership in `a`, as a predicate.
pub open spec fn member_of<T>(a: Seq<T>) -> spec_fn(T) -> bool {
    |x: T| a.contains(x)
}

/// The private set intersection as this library computes it: the items of
/// `b` that also occur in `a`, in the order (and with the multiplicity) in
/// which they occur in `b`.
pub open spec fn psi<T>(a: Seq<T>, b: Seq<T>) -> Seq<T> {
    b.filter(member_of(a))
}

/// A contact hash is determined by its bytes.
pub proof fn lemma_view_injective(h1: ContactHash, h2: ContactHash)
    ensures
        h1@ == h2@ <==> h1 == h2,
{
    if h1@ == h2@ {
        assert(h1.0 =~= h2.0);
    }
}

/// Taking byte views commutes with the intersection.
pub proof fn lemma_psi_views(a: Seq<ContactHash>, b: Seq<ContactHash>)
    ensures
        hash_views(psi(a, b)) == psi(hash_views(a), hash_views(b)),
    decreases b.len(),
{
    reveal(Seq::filter);
    if b.len() == 0 {
        assert(hash_views(psi(a, b)) =~= psi(hash_views(a), hash_views(b)));
    } else {
        let rest = b.drop_last();
        lemma_psi_views(a, rest);
        assert(hash_views(b).drop_last() =~= hash_views(rest));
        let x = b.last();
        assert(hash_views(b).last() == x@);
        assert(a.contains(x) <==> hash_views(a).contains(x@)) by {
            if a.contains(x) {
                let j = choose|j: int| 0 <= j < a.len() && a[j] == x;
                assert(hash_views(a)[j] == x@);
            }
            if hash_views(a).contains(x@) {
                let j = choose|j: int| 0 <= j < hash_views(a).len() && hash_views(a)[j] == x@;
                lemma_view_injective(a[j], x);
                assert(a[j] == x);
            }
        }
        if a.contains(x) {
            assert(hash_views(psi(a, b)) =~= hash_views(psi(a, rest)).push(x@));
        } else {
            assert(hash_views(psi(a, b)) =~= hash_views(psi(a, rest)));
        }
    }
}

impl ContactHash {
    /// Builds a contact hash from exactly 32 bytes; any other length is refused.
    pub fn from_bytes(b: &[u8]) -> (r: Option<Self>)
        ensures
            r is Some <==> b@.len() == 32,
            r matches Some(h) ==> h@ == b@,
    {
        if b.len() == 32 {
            let mut arr = [0u8; 32];
            let mut i: usize = 0;
            while i < 32
                invariant
                    b@.len() == 32,
                    0 <= i <= 32,
                    forall|j: int| 0 <= j < i ==> arr@[j] == b@[j],
                decreases 32 - i,
            {
                arr[i] = b[i];
                i = i + 1;
            }
            let h = ContactHash(arr);
            assert(h@ =~= b@);
            Some(h)
        } else {
            None
        }
    }

    /// The 32 bytes of the hash.
    pub fn as_bytes(&self) -> (r: &[u8; 32])
        ensures
            r@ == self@,
    {
        &self.0
    }

    /// The hash as 64 lower-case hexadecimal digits.
    pub fn to_hex(&self) -> (s: String)
        ensures
            s@ == hex_lower(self@),
    {
        hex_encode(self.0.as_slice())
    }
}

/// Whether `h` occurs in `set`. The whole set is scanned, and every byte of
/// every entry compared, wherever (and whether) `h` occurs.
fn contains_hash(set: &[ContactHash], h: &ContactHash) -> (found: bool)
    ensures
        found == set@.contains(*h),
{
    let mut found = false;
    let mut i: usize = 0;
    while i < set.len()
        invariant
            0 <= i <= set@.len(),
            found == (exists|j: int| 0 <= j < i && set@[j] == *h),
        decreases set@.len() - i,
    {
        let same = bytes32_eq(&set[i].0, &h.0);
        proof {
            lemma_view_injective(set@[i as int], *h);
        }
        found = found || same;
        i = i + 1;
        assert(found == (exists|j: int| 0 <= j < i && set@[j] == *h)) by {
            if same {
                assert(set@[i - 1] == *h);
            }
        }
    }
    found
}

/// Computes the intersection of two contact hash sets: the hashes of
/// `set_b` that also occur in `set_a`, in the order of `set_b`.
pub fn compute_psi(set_a: &[ContactHash], set_b: &[ContactHash]) -> (r: Vec<ContactHash>)
    ensures
        r@ == psi(set_a@, set_b@),
        hash_views(r@) == psi(hash_views(set_a@), hash_views(set_b@)),
{
    let mut out: Vec<ContactHash> = Vec::new();
    let mut i: usize = 0;
    while i < set_b.len()
        invariant
            0 <= i <= set_b@.len(),
            out@ == psi(set_a@, set_b@.take(i as int)),
        decreases set_b@.len() - i,
    {
        proof {
            reveal_with_fuel(Seq::filter, 1);
            assert(set_b@.take(i + 1).drop_last() =~= set_b@.take(i as int));
        }
        if contains_hash(set_a, &set_b[i]) {
            out.push(ContactHash(set_b[i].0));
        }
        i = i + 1;
    }
    proof {
        assert(set_b@.take(set_b@.len() as int) =~= set_b@);
        lemma_psi_views(set_a@, set_b@);
    }
    out
}

/// The contact hash of `identifier` under `salt`: SHA-256 over the salt
/// followed by the UTF-8 bytes of the identifier.
pub open spec fn contact_digest(salt: Seq<u8>, identifier: Seq<char>) -> Seq<u8> {
    sha256_digest(salt + encode_utf8(identifier))
}

/// The session blinding of a hash under a job id: SHA-256 over the hash
/// followed by the job id.
pub open spec fn blind_digest(hash: Seq<u8>, job_id: Seq<u8>) -> Seq<u8> {
    sha256_digest(hash + job_id)
}

/// Hashes a contact identifier with a per-user salt:
/// SHA-256(salt || identifier as UTF-8).
pub fn hash_contact(salt: &[u8; 16], identifier: &str) -> (h: ContactHash)
    ensures
        h@ == contact_digest(salt@, identifier@),
{
    let mut buf: Vec<u8> = Vec::new();
    append_bytes(&mut buf, salt.as_slice());
    append_bytes(&mut buf, identifier.as_bytes());
    ContactHash(sha256(buf.as_slice()))
}

/// Blinds a contact hash for one session: SHA-256(hash || job_id), so that
/// hashes from different sessions cannot be correlated.
pub fn session_blind(hash: &ContactHash, job_id: &[u8; 32]) -> (b: ContactHash)
    ensures
        b@ == blind_digest(hash@, job_id@),
{
    let mut buf: Vec<u8> = Vec::new();
    append_bytes(&mut buf, hash.0.as_slice());
    append_bytes(&mut buf, job_id.as_slice());
    ContactHash(sha256(buf.as_slice()))
}

/// A contact is in the intersection exactly when both parties hold it, and
/// the intersection is never longer than party B's set.
pub proof fn lemma_psi_membership<T>(a: Seq<T>, b: Seq<T>, x: T)
    ensures
        psi(a, b).contains(x) <==> (a.contains(x) && b.contains(x)),
        psi(a, b).len() <= b.len(),
{
    broadcast use vstd::seq_lib::group_filter_ensures;

    let out = psi(a, b);
    if out.contains(x) {
        b.lemma_filter_contains_rev(member_of(a), x);
        let i = choose|i: int| 0 <= i < out.len() && out[i] == x;
        assert(member_of(a)(out[i]));
    }
    if a.contains(x) && b.contains(x) {
        let i = choose|i: int| 0 <= i < b.len() && b[i] == x;
        assert(member_of(a)(b[i]));
        assert(out.contains(b[i]));
    }
}

/// When one party holds no contacts, nothing matches.
pub proof fn lemma_psi_empty<T>(a: Seq<T>, b: Seq<T>)
    requires
        a.len() == 0 || b.len() == 0,
    ensures
        psi(a, b).len() == 0,
{
    if psi(a, b).len() > 0 {
        lemma_psi_membership(a, b, psi(a, b)[0]);
        assert(psi(a, b).contains(psi(a, b)[0]));
    }
}

/// Filtering by a predicate that every item satisfies changes nothing.
proof fn lemma_filter_all<T>(s: Seq<T>, p: spec_fn(T) -> bool)
    requires
        forall|i: int| 0 <= i < s.len() ==> p(#[trigger] s[i]),
    ensures
        s.filter(p) == s,
    decreases s.len(),
{
    reveal(Seq::filter);
    if s.len() > 0 {
        lemma_filter_all(s.drop_last(), p);
        assert(s.drop_last().push(s.last()) =~= s);
    } else {
        assert(s.filter(p) =~= s);
    }
}

/// When both parties hold the same list, all of it matches.
pub proof fn lemma_psi_self<T>(a: Seq<T>)
    ensures
        psi(a, a) == a,
{
    assert forall|i: int| 0 <= i < a.len() implies member_of(a)(#[trigger] a[i]) by {
        assert(a.contains(a[i]));
    }
    lemma_filter_all(a, member_of(a));
}

/// Filtering a list without duplicates yields a list without duplicates.
proof fn lemma_filter_no_duplicates<T>(s: Seq<T>, p: spec_fn(T) -> bool)
    requires
        s.no_duplicates(),
    ensures
        s.filter(p).no_duplicates(),
    decreases s.len(),
{
    reveal(Seq::filter);
    if s.len() > 0 {
        let rest = s.drop_last();
        let sub = rest.filter(p);
        assert(rest.no_duplicates());
        lemma_filter_no_duplicates(rest, p);
        if p(s.last()) {
            let out = sub.push(s.last());
            assert(!sub.contains(s.last())) by {
                if sub.contains(s.last()) {
                    rest.lemma_filter_contains_rev(p, s.last());
                    let j = choose|j: int| 0 <= j < rest.len() && rest[j] == s.last();
                    assert(s[j] == s[s.len() - 1]);
                }
            }
            assert forall|i: int, j: int|
                0 <= i < out.len() && 0 <= j < out.len() && i != j implies out[i] != out[j] by {
                if i == out.len() - 1 {
                    assert(sub[j] == out[j]);
                } else if j == out.len() - 1 {
                    assert(sub[i] == out[i]);
                } else {
                    assert(sub[i] == out[i] && sub[j] == out[j]);
                }
            }
        }
    }
}

/// For duplicate-free sets, both parties learn the same number of matches:
/// the intersection has the same size whichever side it is computed from.
pub proof fn lemma_psi_count_symmetric<T>(a: Seq<T>, b: Seq<T>)
    requires
        a.no_duplicates(),
        b.no_duplicates(),
    ensures
        psi(a, b).len() == psi(b, a).len(),
{
    lemma_filter_no_duplicates(b, member_of(a));
    lemma_filter_no_duplicates(a, member_of(b));
    psi(a, b).unique_seq_to_set();
    psi(b, a).unique_seq_to_set();
    assert forall|x: T| psi(a, b).to_set().contains(x) <==> psi(b, a).to_set().contains(x) by {
        lemma_psi_membership(a, b, x);
        lemma_psi_membership(b, a, x);
    }
    assert(psi(a, b).to_set() =~= psi(b, a).to_set());
}

/// Hashing is deterministic: two contact hashes computed from the same salt
/// and identifier are equal.
pub proof fn lemma_hash_contact_deterministic(
    salt: Seq<u8>,
    identifier: Seq<char>,
    h1: ContactHash,
    h2: ContactHash,
)
    requires
        h1@ == contact_digest(salt, identifier),
        h2@ == contact_digest(salt, identifier),
    ensures
        h1 == h2,
{
    lemma_view_injective(h1, h2);
}

/// A contact hash is the SHA-256 of a preimage made of the whole salt
/// followed by all the UTF-8 bytes of the identifier: the bytes after the
/// salt decode back to the identifier, whatever its length.
pub proof fn lemma_contact_digest_preimage(salt: Seq<u8>, identifier: Seq<char>)
    ensures
        exists|p: Seq<u8>|
            {
                &&& contact_digest(salt, identifier) == sha256_digest(p)
                &&& p.len() == salt.len() + encode_utf8(identifier).len()
                &&& p.subrange(0, salt.len() as int) == salt
                &&& p.subrange(salt.len() as int, p.len() as int) == encode_utf8(identifier)
                &&& decode_utf8(p.subrange(salt.len() as int, p.len() as int)) == identifier
            },
{
    broadcast use vstd::utf8::encode_utf8_decode_utf8;

    let p = salt + encode_utf8(identifier);
    assert(p.subrange(0, salt.len() as int) =~= salt);
    assert(p.subrange(salt.len() as int, p.len() as int) =~= encode_utf8(identifier));
    assert(decode_utf8(encode_utf8(identifier)) == identifier);
    assert(contact_digest(salt, identifier) == sha256_digest(p));
}

/// Different identifiers (or different salts of the same length) are hashed
/// from different preimages.
pub proof fn lemma_contact_preimages_distinct(
    salt1: Seq<u8>,
    id1: Seq<char>,
    salt2: Seq<u8>,
    id2: Seq<char>,
)
    requires
        salt1.len() == salt2.len(),
        salt1 != salt2 || id1 != id2,
    ensures
        salt1 + encode_utf8(id1) != salt2 + encode_utf8(id2),
{
    broadcast use vstd::utf8::encode_utf8_decode_utf8;

    let p1 = salt1 + encode_utf8(id1);
    let p2 = salt2 + encode_utf8(id2);
    if p1 == p2 {
        assert(p1.subrange(0, salt1.len() as int) =~= salt1);
        assert(p2.subrange(0, salt2.len() as int) =~= salt2);
        assert(p1.subrange(salt1.len() as int, p1.len() as int) =~= encode_utf8(id1));
        assert(p2.subrange(salt2.len() as int, p2.len() as int) =~= encode_utf8(id2));
        assert(decode_utf8(encode_utf8(id1)) == decode_utf8(encode_utf8(id2)));
    }
}

/// A blinded hash is the SHA-256 of the hash followed by the job id, for
/// every hash and job id: the hash always comes first.
pub proof fn lemma_blind_digest_preimage(hash: Seq<u8>, job_id: Seq<u8>)
    ensures
        blind_digest(hash, job_id) == sha256_digest(hash + job_id),
        exists|p: Seq<u8>|
            {
                &&& blind_digest(hash, job_id) == sha256_digest(p)
                &&& p.len() == hash.len() + job_id.len()
                &&& p.subrange(0, hash.len() as int) == hash
                &&& p.subrange(hash.len() as int, p.len() as int) == job_id
            },
{
    let p = hash + job_id;
    assert(p.subrange(0, hash.len() as int) =~= hash);
    assert(p.subrange(hash.len() as int, p.len() as int) =~= job_id);
}

/// The intersection is built item by item from B: nothing matches in an
/// empty B, and an item appended to B is appended to the result exactly when
/// A holds it.
pub proof fn lemma_psi_push<T>(a: Seq<T>, b: Seq<T>, x: T)
    ensures
        psi(a, Seq::<T>::empty()) == Seq::<T>::empty(),
        psi(a, b.push(x)) == (if a.contains(x) {
            psi(a, b).push(x)
        } else {
            psi(a, b)
        }),
{
    reveal(Seq::filter);
    assert(psi(a, Seq::<T>::empty()) =~= Seq::<T>::empty());
    assert(b.push(x).drop_last() =~= b);
}

} // verus!
