//! The verification-hash integrity checker over intact and tampered
//! revisions.

use aqua_chain::chain::{genesis_chain, sign_revision};
use aqua_chain::hashes::HashValue;
use aqua_chain::integrity::{RevisionIntegrity, RevisionIntegritySet};
use aqua_chain::model::HashChain;
use aqua_chain::revision_check::only_verification_hash_integrity;

fn fresh_chain() -> HashChain {
    let mut chain = genesis_chain(
        b"checked content".to_vec(),
        "c.txt".to_string(),
        15,
        "domain0".to_string(),
        "20240101000000".to_string(),
    );
    sign_revision(
        &mut chain,
        vec![0x42u8; 65],
        vec![0x04u8; 65],
        "0x0000000000000000000000000000000000000000".to_string(),
        "20240101000001".to_string(),
    );
    chain
}

#[test]
fn intact_revisions_raise_no_flags() {
    let chain = fresh_chain();
    let genesis_flags = only_verification_hash_integrity(&chain.revisions[0].1, None);
    assert_eq!(genesis_flags, RevisionIntegritySet::empty());
    let linked_flags =
        only_verification_hash_integrity(&chain.revisions[1].1, Some(&chain.revisions[0].1));
    assert!(linked_flags.is_empty());
}

#[test]
fn missing_predecessor_is_flagged() {
    let chain = fresh_chain();
    let flags = only_verification_hash_integrity(&chain.revisions[1].1, None);
    assert!(flags.contains(RevisionIntegrity::NoPrevRevision));
}

#[test]
fn unexpected_predecessor_is_flagged() {
    // A genesis revision checked against a predecessor: the pointer and the
    // predecessor must both exist or both be absent.
    let chain = fresh_chain();
    let flags =
        only_verification_hash_integrity(&chain.revisions[0].1, Some(&chain.revisions[1].1));
    assert!(flags.contains(RevisionIntegrity::PrevVerificationHashNotMatching));
}

#[test]
fn wrong_pointer_is_flagged() {
    let mut chain = fresh_chain();
    chain.revisions[1].1.metadata.previous_verification_hash =
        Some(HashValue::from_bytes(vec![9u8; 64]).unwrap());
    let flags =
        only_verification_hash_integrity(&chain.revisions[1].1, Some(&chain.revisions[0].1));
    assert!(flags.contains(RevisionIntegrity::PrevVerificationHashNotMatching));
    // The pointer also feeds the metadata hash.
    assert!(flags.contains(RevisionIntegrity::MetadataHashNotMatching));
}

#[test]
fn swapped_file_is_flagged() {
    let mut chain = fresh_chain();
    chain.revisions[0].1.content.file.as_mut().unwrap().data = b"other bytes".to_vec();
    let flags = only_verification_hash_integrity(&chain.revisions[0].1, None);
    assert!(flags.contains(RevisionIntegrity::FileHashNotMatching));
    // The content map itself was not altered.
    assert!(!flags.contains(RevisionIntegrity::ContentHashNotMatching));
}

#[test]
fn dropped_file_with_file_hash_entry_is_flagged() {
    let mut chain = fresh_chain();
    chain.revisions[0].1.content.file = None;
    let flags = only_verification_hash_integrity(&chain.revisions[0].1, None);
    assert!(flags.contains(RevisionIntegrity::NoFile));
}

#[test]
fn tampered_content_value_is_flagged() {
    let mut chain = fresh_chain();
    chain.revisions[0]
        .1
        .content
        .content
        .insert("file_hash".to_string(), "not the hash".to_string());
    let flags = only_verification_hash_integrity(&chain.revisions[0].1, None);
    assert!(flags.contains(RevisionIntegrity::ContentHashNotMatching));
    assert!(flags.contains(RevisionIntegrity::FileHashNotMatching));
}

#[test]
fn tampered_timestamp_is_flagged() {
    let mut chain = fresh_chain();
    chain.revisions[0].1.metadata.time_stamp = "19990101000000".to_string();
    let flags = only_verification_hash_integrity(&chain.revisions[0].1, None);
    assert!(flags.contains(RevisionIntegrity::MetadataHashNotMatching));
    assert!(!flags.contains(RevisionIntegrity::ContentHashNotMatching));
}

#[test]
fn tampered_verification_hash_is_flagged() {
    let mut chain = fresh_chain();
    chain.revisions[0].1.metadata.verification_hash =
        HashValue::from_bytes(vec![7u8; 64]).unwrap();
    let flags = only_verification_hash_integrity(&chain.revisions[0].1, None);
    assert!(flags.contains(RevisionIntegrity::VerificationHashNotMatching));
}

#[test]
fn flag_set_contains_matches_fields() {
    let mut set = RevisionIntegritySet::empty();
    assert!(set.is_empty());
    assert!(!set.contains(RevisionIntegrity::NoSignature));
    set.no_signature = true;
    set.duplicate_merkle_leaf = true;
    assert!(!set.is_empty());
    assert!(set.contains(RevisionIntegrity::NoSignature));
    assert!(set.contains(RevisionIntegrity::DuplicateMerkleLeaf));
    assert!(!set.contains(RevisionIntegrity::NoWitness));
}
