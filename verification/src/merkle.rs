//! The binary Merkle root with which a session commits to its contact hashes.

use vstd::prelude::*;
use crate::bytes::append_bytes;
use crate::digest::{sha256, sha256_digest};

verus! {

/// The byte views of a sequence of 32-byte hashes.
pub open spec fn array_views(s: Seq<[u8; 32]>) -> Seq<Seq<u8>> {
    s.map_values(|h: [u8; 32]| h@)
}

/// A layer of odd length gets its last node repeated.
pub open spec fn pad_even(layer: Seq<Seq<u8>>) -> Seq<Seq<u8>> {
    if layer.len() % 2 != 0 {
        layer.push(layer.last())
    } else {
        layer
    }
}

/// Hashes consecutive pairs of an even-length layer: node `i` of the
/// result is SHA-256(layer[2i] || layer[2i + 1]).
pub open spec fn hash_pairs(layer: Seq<Seq<u8>>) -> Seq<Seq<u8>> {
    Seq::new(layer.len() / 2, |i: int| sha256_digest(layer[2 * i] + layer[2 * i + 1]))
}

/// The layer above `layer` in the tree.
pub open spec fn next_layer(layer: Seq<Seq<u8>>) -> Seq<Seq<u8>> {
    hash_pairs(pad_even(layer))
}

/// Folds a non-empty layer up to its single root node.
pub open spec fn merkle_fold(layer: Seq<Seq<u8>>) -> Seq<u8>
    decreases layer.len(),
{
    if layer.len() <= 1 {
        layer[0]
    } else {
        merkle_fold(next_layer(layer))
    }
}

/// The 32 zero bytes that stand for the root of an empty list.
pub open spec fn zero_root() -> Seq<u8> {
    Seq::new(32, |i: int| 0u8)
}

/// The Merkle root of a list of hashes: all zero bytes for the empty list,
/// the hash itself for a single hash, and otherwise the fold of the list.
pub open spec fn merkle_root(leaves: Seq<Seq<u8>>) -> Seq<u8> {
    if leaves.len() == 0 {
        zero_root()
    } else {
        merkle_fold(leaves)
    }
}

/// Repeats the last node of a layer of odd length.
pub fn pad_to_even(layer: &mut Vec<[u8; 32]>)
    ensures
        array_views(final(layer)@) == pad_even(array_views(old(layer)@)),
{
    if layer.len() % 2 != 0 {
        let last = layer[layer.len() - 1];
        layer.push(last);
    }
    assert(array_views(layer@) =~= pad_even(array_views(old(layer)@)));
}

/// One step of the fold: hashes the pairs of an even-length layer.
pub fn hash_layer(layer: &Vec<[u8; 32]>) -> (next: Vec<[u8; 32]>)
    requires
        layer@.len() % 2 == 0,
    ensures
        array_views(next@) == hash_pairs(array_views(layer@)),
{
    let half = layer.len() / 2;
    let mut next: Vec<[u8; 32]> = Vec::new();
    let mut j: usize = 0;
    while j < half
        invariant
            half == layer@.len() / 2,
            2 * half == layer@.len(),
            layer@.len() <= usize::MAX,
            0 <= j <= half,
            next@.len() == j,
            forall|k: int|
                0 <= k < j ==> #[trigger] next@[k]@ == sha256_digest(
                    layer@[2 * k]@ + layer@[2 * k + 1]@,
                ),
        decreases half - j,
    {
        let mut buf: Vec<u8> = Vec::new();
        append_bytes(&mut buf, layer[2 * j].as_slice());
        append_bytes(&mut buf, layer[2 * j + 1].as_slice());
        let h = sha256(buf.as_slice());
        next.push(h);
        j = j + 1;
    }
    assert(array_views(next@) =~= hash_pairs(array_views(layer@)));
    next
}

/// Computes the binary Merkle root of a list of hashes. Each layer of odd
/// length has its last node repeated; each pair is hashed as
/// SHA-256(left || right). The empty list has the all-zero root.
pub fn compute_merkle_root(hashes: &[[u8; 32]]) -> (root: [u8; 32])
    ensures
        root@ == merkle_root(array_views(hashes@)),
{
    if hashes.len() == 0 {
        let zero = [0u8; 32];
        assert(zero@ =~= zero_root());
        return zero;
    }
    let mut layer: Vec<[u8; 32]> = Vec::new();
    let mut i: usize = 0;
    while i < hashes.len()
        invariant
            0 <= i <= hashes@.len(),
            layer@ == hashes@.take(i as int),
        decreases hashes@.len() - i,
    {
        layer.push(hashes[i]);
        i = i + 1;
        assert(layer@ =~= hashes@.take(i as int));
    }
    assert(hashes@.take(hashes@.len() as int) =~= hashes@);
    while layer.len() > 1
        invariant
            layer@.len() >= 1,
            merkle_fold(array_views(layer@)) == merkle_fold(array_views(hashes@)),
        decreases layer@.len(),
    {
        let ghost before = array_views(layer@);
        pad_to_even(&mut layer);
        let next = hash_layer(&layer);
        assert(array_views(next@) == next_layer(before));
        layer = next;
    }
    layer[0]
}

/// The root of a single hash is that hash.
pub proof fn lemma_merkle_single(h: Seq<u8>)
    ensures
        merkle_root(seq![h]) == h,
{
}

/// The root of two hashes is the hash of their concatenation.
pub proof fn lemma_merkle_pair(h1: Seq<u8>, h2: Seq<u8>)
    ensures
        merkle_root(seq![h1, h2]) == sha256_digest(h1 + h2),
{
    let leaves = seq![h1, h2];
    assert(pad_even(leaves) == leaves);
    assert(next_layer(leaves) =~= seq![sha256_digest(h1 + h2)]);
    assert(merkle_fold(next_layer(leaves)) == sha256_digest(h1 + h2));
}

/// The root of no hashes is 32 zero bytes.
pub proof fn lemma_merkle_empty()
    ensures
        merkle_root(Seq::<Seq<u8>>::empty()) == Seq::new(32, |i: int| 0u8),
{
}

/// The root of two or more hashes is the root of the layer above them: node
/// `i` of that layer hashes leaf `2i` followed by leaf `2i + 1`, or by leaf
/// `2i` again when leaf `2i` is the last of an odd number. Every leaf takes
/// part, so together with the one-hash case this fixes the root of every
/// list.
pub proof fn lemma_merkle_layer(leaves: Seq<Seq<u8>>)
    requires
        leaves.len() >= 2,
    ensures
        merkle_root(leaves) == merkle_root(
            Seq::new(
                ((leaves.len() + 1) / 2) as nat,
                |i: int|
                    sha256_digest(
                        leaves[2 * i] + (if 2 * i + 1 < leaves.len() {
                            leaves[2 * i + 1]
                        } else {
                            leaves[2 * i]
                        }),
                    ),
            ),
        ),
{
    let up = Seq::new(
        ((leaves.len() + 1) / 2) as nat,
        |i: int|
            sha256_digest(
                leaves[2 * i] + (if 2 * i + 1 < leaves.len() {
                    leaves[2 * i + 1]
                } else {
                    leaves[2 * i]
                }),
            ),
    );
    let padded = pad_even(leaves);
    assert forall|i: int| 0 <= i < up.len() implies #[trigger] next_layer(leaves)[i] == up[i] by {
        if 2 * i + 1 >= leaves.len() {
            assert(padded[2 * i + 1] == leaves[2 * i]);
        }
    }
    assert(next_layer(leaves) =~= up);
    assert(up.len() >= 1);
}

} // verus!
