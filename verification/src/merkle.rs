//! Merkle membership proofs with sorted-pair hashing.
//!
//! A proof is an ordered sequence of sibling hashes. Verification folds the
//! claimed leaf with each sibling in turn, hashing the lexicographically
//! smaller value first, and compares the result with the committed root.
//! The module also carries a specification-level model of the trees the
//! off-chain builder produces, and proves that the sibling path of every
//! leaf of such a tree verifies against the tree's root.

use vstd::prelude::*;
use crate::bytes32::eq_bytes32;
use crate::hashing::node_hash;

verus! {

/// The views of the 32-byte nodes of a proof, in order.
pub open spec fn node_views(path: Seq<[u8; 32]>) -> Seq<Seq<u8>> {
    Seq::new(path.len(), |i: int| path[i]@)
}

/// Folds a leaf hash up the tree along a path of sibling hashes.
pub open spec fn fold_path(leaf: Seq<u8>, path: Seq<Seq<u8>>) -> Seq<u8>
    decreases path.len(),
{
    if path.len() == 0 {
        leaf
    } else {
        fold_path(node_hash(leaf, path[0]), path.subrange(1, path.len() as int))
    }
}

/// A proof verifies exactly when folding the leaf along it reproduces the root.
pub open spec fn proof_verifies(path: Seq<Seq<u8>>, root: Seq<u8>, leaf: Seq<u8>) -> bool {
    fold_path(leaf, path) == root
}

/// Checks a membership proof: folds `leaf` with each node of `path` in
/// order, hashing the lexicographically smaller value first, and compares
/// the result with `root`.
pub fn verify_proof(path: &Vec<[u8; 32]>, root: [u8; 32], leaf: [u8; 32]) -> (r: bool)
    ensures
        r == proof_verifies(node_views(path@), root@, leaf@),
{
    let ghost all = node_views(path@);
    let mut computed: [u8; 32] = leaf;
    let mut i: usize = 0;
    proof {
        assert(all.subrange(0, all.len() as int) =~= all);
    }
    while i < path.len()
        invariant
            0 <= i <= path@.len(),
            all == node_views(path@),
            fold_path(computed@, all.subrange(i as int, all.len() as int))
                == fold_path(leaf@, all),
        decreases path@.len() - i,
    {
        let p: [u8; 32] = path[i];
        let next = crate::hashing::hash_node(&computed, &p);
        proof {
            let rest = all.subrange(i as int, all.len() as int);
            assert(rest[0] == all[i as int]);
            assert(rest.subrange(1, rest.len() as int)
                =~= all.subrange(i + 1, all.len() as int));
        }
        computed = next;
        i = i + 1;
    }
    proof {
        assert(all.subrange(all.len() as int, all.len() as int).len() == 0);
    }
    eq_bytes32(&computed, &root)
}

/// Specification-level model of the trees the off-chain builder produces:
/// a leaf hash, or an interior node over two subtrees.
pub enum MerkleTree {
    Leaf { hash: Seq<u8> },
    Node { left: Box<MerkleTree>, right: Box<MerkleTree> },
}

/// The root hash of a tree: interior nodes hash their children with
/// sorted-pair hashing.
pub open spec fn tree_root(t: MerkleTree) -> Seq<u8>
    decreases t,
{
    match t {
        MerkleTree::Leaf { hash } => hash,
        MerkleTree::Node { left, right } => node_hash(tree_root(*left), tree_root(*right)),
    }
}

/// The leaf hashes of a tree, left to right.
pub open spec fn tree_leaves(t: MerkleTree) -> Seq<Seq<u8>>
    decreases t,
{
    match t {
        MerkleTree::Leaf { hash } => seq![hash],
        MerkleTree::Node { left, right } => tree_leaves(*left) + tree_leaves(*right),
    }
}

/// The sibling path of the `i`-th leaf, from the leaf's sibling up to the
/// sibling of the subtree below the root.
pub open spec fn tree_path(t: MerkleTree, i: int) -> Seq<Seq<u8>>
    decreases t,
{
    match t {
        MerkleTree::Leaf { hash } => Seq::empty(),
        MerkleTree::Node { left, right } => {
            if i < tree_leaves(*left).len() {
                tree_path(*left, i).push(tree_root(*right))
            } else {
                tree_path(*right, i - tree_leaves(*left).len()).push(tree_root(*left))
            }
        },
    }
}

/// Folding along a path extended by one more sibling hashes the folded
/// value with that sibling last.
proof fn lemma_fold_path_push(leaf: Seq<u8>, path: Seq<Seq<u8>>, x: Seq<u8>)
    ensures
        fold_path(leaf, path.push(x)) == node_hash(fold_path(leaf, path), x),
    decreases path.len(),
{
    let ext = path.push(x);
    assert(fold_path(leaf, ext)
        == fold_path(node_hash(leaf, ext[0]), ext.subrange(1, ext.len() as int)));
    if path.len() == 0 {
        assert(ext[0] == x);
        assert(ext.subrange(1, 1) =~= Seq::<Seq<u8>>::empty());
        assert(fold_path(node_hash(leaf, x), Seq::<Seq<u8>>::empty()) == node_hash(leaf, x));
        assert(fold_path(leaf, path) == leaf);
    } else {
        assert(ext[0] == path[0]);
        assert(ext.subrange(1, ext.len() as int)
            =~= path.subrange(1, path.len() as int).push(x));
        lemma_fold_path_push(node_hash(leaf, path[0]), path.subrange(1, path.len() as int), x);
        assert(fold_path(leaf, path)
            == fold_path(node_hash(leaf, path[0]), path.subrange(1, path.len() as int)));
    }
}

/// Proof correctness: in any tree built with sorted-pair hashing, the
/// sibling path of every leaf verifies against the tree's root.
pub proof fn lemma_tree_path_verifies(t: MerkleTree, i: int)
    requires
        0 <= i < tree_leaves(t).len(),
    ensures
        proof_verifies(tree_path(t, i), tree_root(t), tree_leaves(t)[i]),
    decreases t,
{
    match t {
        MerkleTree::Leaf { hash } => {
            assert(tree_leaves(t) =~= seq![hash]);
            assert(tree_leaves(t)[0] == hash);
            assert(tree_path(t, i) =~= Seq::<Seq<u8>>::empty());
            assert(fold_path(hash, Seq::<Seq<u8>>::empty()) == hash);
        },
        MerkleTree::Node { left, right } => {
            let nl = tree_leaves(*left).len() as int;
            assert(tree_leaves(t) == tree_leaves(*left) + tree_leaves(*right));
            if i < nl {
                assert(tree_leaves(t)[i] == tree_leaves(*left)[i]);
                assert(tree_path(t, i) == tree_path(*left, i).push(tree_root(*right)));
                lemma_tree_path_verifies(*left, i);
                assert(fold_path(tree_leaves(*left)[i], tree_path(*left, i)) == tree_root(*left));
                lemma_fold_path_push(
                    tree_leaves(*left)[i],
                    tree_path(*left, i),
                    tree_root(*right),
                );
                assert(fold_path(tree_leaves(t)[i], tree_path(t, i))
                    == node_hash(tree_root(*left), tree_root(*right)));
            } else {
                assert(tree_leaves(t)[i] == tree_leaves(*right)[i - nl]);
                assert(tree_path(t, i) == tree_path(*right, i - nl).push(tree_root(*left)));
                lemma_tree_path_verifies(*right, i - nl);
                assert(fold_path(tree_leaves(*right)[i - nl], tree_path(*right, i - nl))
                    == tree_root(*right));
                lemma_fold_path_push(
                    tree_leaves(*right)[i - nl],
                    tree_path(*right, i - nl),
                    tree_root(*left),
                );
                assert(fold_path(tree_leaves(t)[i], tree_path(t, i))
                    == node_hash(tree_root(*right), tree_root(*left)));
                crate::bytes32::lemma_lex_le_total(tree_root(*left), tree_root(*right));
                assert(node_hash(tree_root(*right), tree_root(*left))
                    == node_hash(tree_root(*left), tree_root(*right)));
            }
        },
    }
}

} // verus!
