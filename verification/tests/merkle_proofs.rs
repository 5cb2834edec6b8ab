use token_distributor::hashing::hash_leaf;
use token_distributor::hashing::hash_node;
use token_distributor::merkle::verify_proof;

fn leaf(id: u8, amount: u64) -> [u8; 32] {
    hash_leaf(&[id; 32], amount)
}

/// A four-leaf tree built with sorted-pair hashing; every leaf's sibling
/// path verifies against the root.
#[test]
fn four_leaf_tree_proofs_verify() {
    let l0 = leaf(1, 100);
    let l1 = leaf(2, 50);
    let l2 = leaf(3, 25);
    let l3 = leaf(4, 10);
    let n01 = hash_node(&l0, &l1);
    let n23 = hash_node(&l2, &l3);
    let root = hash_node(&n01, &n23);

    assert!(verify_proof(&vec![l1, n23], root, l0));
    assert!(verify_proof(&vec![l0, n23], root, l1));
    assert!(verify_proof(&vec![l3, n01], root, l2));
    assert!(verify_proof(&vec![l2, n01], root, l3));
}

#[test]
fn altered_proof_element_is_rejected() {
    let l0 = leaf(1, 100);
    let l1 = leaf(2, 50);
    let l2 = leaf(3, 25);
    let l3 = leaf(4, 10);
    let n01 = hash_node(&l0, &l1);
    let n23 = hash_node(&l2, &l3);
    let root = hash_node(&n01, &n23);

    let mut bad = l1;
    bad[0] ^= 0x01;
    assert!(!verify_proof(&vec![bad, n23], root, l0));
    let mut bad2 = n23;
    bad2[31] ^= 0x80;
    assert!(!verify_proof(&vec![l1, bad2], root, l0));
}

#[test]
fn truncated_proof_is_rejected() {
    let l0 = leaf(1, 100);
    let l1 = leaf(2, 50);
    let l2 = leaf(3, 25);
    let l3 = leaf(4, 10);
    let n01 = hash_node(&l0, &l1);
    let n23 = hash_node(&l2, &l3);
    let root = hash_node(&n01, &n23);

    assert!(!verify_proof(&vec![l1], root, l0));
    assert!(!verify_proof(&vec![n23], root, l0));
    assert!(!verify_proof(&vec![], root, l0));
}

#[test]
fn reordered_proof_is_rejected() {
    let l0 = leaf(1, 100);
    let l1 = leaf(2, 50);
    let l2 = leaf(3, 25);
    let l3 = leaf(4, 10);
    let n01 = hash_node(&l0, &l1);
    let n23 = hash_node(&l2, &l3);
    let root = hash_node(&n01, &n23);

    assert!(!verify_proof(&vec![n23, l1], root, l0));
}

#[test]
fn wrong_leaf_is_rejected() {
    let l0 = leaf(1, 100);
    let l1 = leaf(2, 50);
    let root = hash_node(&l0, &l1);

    // A leaf for the right claimer but the wrong amount fails.
    assert!(!verify_proof(&vec![l1], root, leaf(1, 101)));
    // A leaf for a claimer outside the tree fails.
    assert!(!verify_proof(&vec![l1], root, leaf(9, 100)));
}

#[test]
fn empty_proof_accepts_exactly_the_root_leaf() {
    let l0 = leaf(7, 42);
    assert!(verify_proof(&vec![], l0, l0));
    assert!(!verify_proof(&vec![], l0, leaf(7, 43)));
}

/// The pair hash is order-insensitive (sorted-pair hashing) but not the
/// identity on either argument.
#[test]
fn node_hash_is_symmetric_and_mixes() {
    let a = leaf(1, 1);
    let b = leaf(2, 2);
    assert_eq!(hash_node(&a, &b), hash_node(&b, &a));
    assert_ne!(hash_node(&a, &b), a);
    assert_ne!(hash_node(&a, &b), b);
}

/// Leaf hashing depends on both the claimer identity and the amount.
#[test]
fn leaf_hash_depends_on_both_inputs() {
    assert_ne!(leaf(1, 100), leaf(1, 99));
    assert_ne!(leaf(1, 100), leaf(2, 100));
    assert_ne!(leaf(1, 100), [1u8; 32]);
}
