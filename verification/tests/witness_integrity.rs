//! The witness integrity checker over honest, tampered and truncated
//! Merkle proofs.

use aqua_chain::chain::{genesis_chain, witness_revision};
use aqua_chain::hashes::{HashValue, TxHash};
use aqua_chain::integrity::RevisionIntegrity;
use aqua_chain::model::{HashChain, MerkleNode, RevisionWitness};
use aqua_chain::verification::{merkle_successor, witness_hash};
use aqua_chain::witness_check::only_witness_hash_integrity;

fn fresh_chain() -> HashChain {
    genesis_chain(
        b"witnessed content".to_vec(),
        "w.txt".to_string(),
        17,
        "domain0".to_string(),
        "20240101000000".to_string(),
    )
}

fn hash_of(b: u8) -> HashValue {
    HashValue::from_bytes(vec![b; 64]).unwrap()
}

/// A witness anchoring `leaf` through a balanced four-leaf proof built by
/// repeatedly hashing sibling pairs up to the root.
fn balanced_witness(leaf: &HashValue) -> RevisionWitness {
    let l2 = hash_of(2);
    let l3 = hash_of(3);
    let l4 = hash_of(4);
    let s1 = merkle_successor(leaf, &l2);
    let s2 = merkle_successor(&l3, &l4);
    let root = merkle_successor(&s1, &s2);
    let proof = vec![
        MerkleNode {
            left_leaf: leaf.duplicate(),
            right_leaf: l2.duplicate(),
            successor: s1.duplicate(),
        },
        MerkleNode {
            left_leaf: l3.duplicate(),
            right_leaf: l4.duplicate(),
            successor: s2.duplicate(),
        },
        MerkleNode {
            left_leaf: s1.duplicate(),
            right_leaf: s2.duplicate(),
            successor: root.duplicate(),
        },
    ];
    let tx = TxHash::from_bytes(vec![0x99u8; 32]).unwrap();
    let dsgh = hash_of(0);
    let wh = witness_hash(&dsgh, &root, "sepolia", &tx);
    RevisionWitness {
        domain_snapshot_genesis_hash: dsgh,
        merkle_root: root.duplicate(),
        witness_network: "sepolia".to_string(),
        witness_event_transaction_hash: tx,
        witness_event_verification_hash: merkle_successor(&hash_of(0), &root),
        witness_hash: wh,
        structured_merkle_proof: proof,
    }
}

#[test]
fn witness_append_round_trip() {
    // The witness the append path builds passes its own checker.
    let mut chain = fresh_chain();
    let tx = TxHash::from_bytes(vec![0x77u8; 32]).unwrap();
    witness_revision(&mut chain, "sepolia".to_string(), tx, "20240101000001".to_string());
    let prev = &chain.revisions[0].1;
    let rev = &chain.revisions[1].1;
    let flags = only_witness_hash_integrity(rev, Some(prev));
    assert!(flags.is_empty());
}

#[test]
fn balanced_merkle_proof_round_trip() {
    // A balanced proof built by repeatedly hashing sibling pairs up to a
    // root yields an empty flag set.
    let mut chain = fresh_chain();
    let leaf = chain.revisions[0].1.metadata.verification_hash.duplicate();
    let witness = balanced_witness(&leaf);
    let mut rev = genesis_chain(
        b"next".to_vec(),
        "n.txt".to_string(),
        4,
        "domain0".to_string(),
        "20240101000001".to_string(),
    )
    .revisions
    .remove(0)
    .1;
    rev.witness = Some(witness);
    let prev = &chain.revisions.remove(0).1;
    let flags = only_witness_hash_integrity(&rev, Some(prev));
    assert!(flags.is_empty());
}

#[test]
fn duplicate_leaf_is_flagged() {
    // A leaf consumed twice breaks the proof.
    let mut chain = fresh_chain();
    let leaf = chain.revisions[0].1.metadata.verification_hash.duplicate();
    let mut witness = balanced_witness(&leaf);
    // Reuse the anchored leaf in the second node's left slot.
    witness.structured_merkle_proof[1].left_leaf = leaf.duplicate();
    let mut rev = chain.revisions.remove(0).1;
    rev.witness = Some(witness);
    let prev_chain = fresh_chain();
    let flags = only_witness_hash_integrity(&rev, Some(&prev_chain.revisions[0].1));
    assert!(flags.contains(RevisionIntegrity::DuplicateMerkleLeaf));
}

#[test]
fn truncated_proof_is_incomplete() {
    // Dropping the final reduction step leaves free roots unconsumed and
    // the claimed root never computed.
    let mut chain = fresh_chain();
    let leaf = chain.revisions[0].1.metadata.verification_hash.duplicate();
    let mut witness = balanced_witness(&leaf);
    witness.structured_merkle_proof.pop();
    let mut rev = chain.revisions.remove(0).1;
    rev.witness = Some(witness);
    let prev_chain = fresh_chain();
    let flags = only_witness_hash_integrity(&rev, Some(&prev_chain.revisions[0].1));
    assert!(flags.contains(RevisionIntegrity::MerkleTreeIncomplete));
    assert!(!flags.contains(RevisionIntegrity::DuplicateMerkleLeaf));
}

#[test]
fn foreign_leaf_is_not_in_tree() {
    // A proof over other leaves does not cover this revision's predecessor.
    let mut chain = fresh_chain();
    let witness = balanced_witness(&hash_of(0xAA));
    let mut rev = chain.revisions.remove(0).1;
    rev.witness = Some(witness);
    let prev_chain = fresh_chain();
    let flags = only_witness_hash_integrity(&rev, Some(&prev_chain.revisions[0].1));
    assert!(flags.contains(RevisionIntegrity::VerificationHashNotInMerkleTree));
}

#[test]
fn witness_hash_mismatch_is_flagged() {
    let mut chain = fresh_chain();
    let tx = TxHash::from_bytes(vec![0x77u8; 32]).unwrap();
    witness_revision(&mut chain, "sepolia".to_string(), tx, "20240101000001".to_string());
    {
        let layer = chain.revisions[1].1.witness.as_mut().unwrap();
        layer.witness_hash = hash_of(0x5A);
    }
    let prev = &chain.revisions[0].1;
    let rev = &chain.revisions[1].1;
    let flags = only_witness_hash_integrity(rev, Some(prev));
    assert!(flags.contains(RevisionIntegrity::WitnessHashNotMatching));
    assert!(!flags.contains(RevisionIntegrity::MerkleTreeIncomplete));
}

#[test]
fn unwitnessed_revision_reports_no_witness() {
    let chain = fresh_chain();
    let flags = only_witness_hash_integrity(&chain.revisions[0].1, None);
    assert!(flags.contains(RevisionIntegrity::NoWitness));
}

#[test]
fn witness_without_predecessor_reports_no_prev_revision() {
    let mut chain = fresh_chain();
    let tx = TxHash::from_bytes(vec![0x77u8; 32]).unwrap();
    witness_revision(&mut chain, "sepolia".to_string(), tx, "20240101000001".to_string());
    let flags = only_witness_hash_integrity(&chain.revisions[1].1, None);
    assert!(flags.contains(RevisionIntegrity::NoPrevRevision));
    assert!(!flags.contains(RevisionIntegrity::NoWitness));
}
