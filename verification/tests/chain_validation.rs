//! The chain and genesis validator over chains built by the append path,
//! tampered chains, and chains with a missing or ambiguous genesis.

use aqua_chain::chain::{genesis_chain, sign_revision, witness_revision};
use aqua_chain::hashes::TxHash;
use aqua_chain::model::HashChain;
use aqua_chain::util::{
    check_if_page_data_revision_are_okay, compute_content_hash, revsions_has_valid_genesis,
    verify_page_data,
};

fn build_chain() -> HashChain {
    let mut chain = genesis_chain(
        b"hello world".to_vec(),
        "hello.txt".to_string(),
        11,
        "domain0".to_string(),
        "20240101000000".to_string(),
    );
    sign_revision(
        &mut chain,
        vec![0x42u8; 65],
        vec![0x04u8; 65],
        "0x0000000000000000000000000000000000000000".to_string(),
        "20240101000001".to_string(),
    );
    let tx = TxHash::from_bytes(vec![0x77u8; 32]).unwrap();
    witness_revision(&mut chain, "sepolia".to_string(), tx, "20240101000002".to_string());
    chain
}

#[test]
fn chain_validity_round_trip() {
    // A chain built via the normal append path must validate.
    let chain = build_chain();
    assert_eq!(chain.revisions.len(), 3);
    let (ok, reason) = check_if_page_data_revision_are_okay(&chain.revisions);
    assert!(ok, "{}", reason);
    assert_eq!(reason, "");
    let (ok2, _) = verify_page_data(&chain);
    assert!(ok2);
}

#[test]
fn genesis_scan_finds_the_genesis() {
    let chain = build_chain();
    let g = revsions_has_valid_genesis(&chain.revisions).unwrap();
    assert!(g.equals(&chain.revisions[0].1.metadata.verification_hash));
}

#[test]
fn tamper_detection_on_content_value() {
    // Flipping one character in a stored content value of a non-terminal
    // revision must make the validator report a content-hash mismatch.
    let mut chain = build_chain();
    let stored = chain.revisions[1]
        .1
        .content
        .content
        .get("file_hash")
        .unwrap()
        .clone();
    let mut flipped = stored.into_bytes();
    flipped[0] = if flipped[0] == b'0' { b'1' } else { b'0' };
    let tampered = String::from_utf8(flipped).unwrap();
    chain.revisions[1]
        .1
        .content
        .content
        .insert("file_hash".to_string(), tampered);

    let (ok, reason) = check_if_page_data_revision_are_okay(&chain.revisions);
    assert!(!ok);
    let expected = format!("a hash is not valid : {}", chain.revisions[1].0.to_hex());
    assert_eq!(reason, expected);
}

#[test]
fn single_revision_chain_passes_trivially() {
    // One revision has nothing to cross-link.
    let chain = genesis_chain(
        b"abc".to_vec(),
        "a.txt".to_string(),
        3,
        "d".to_string(),
        "t".to_string(),
    );
    let (ok, reason) = check_if_page_data_revision_are_okay(&chain.revisions);
    assert!(ok);
    assert_eq!(reason, "");
    assert!(revsions_has_valid_genesis(&chain.revisions).is_none());
}

#[test]
fn two_genesis_candidates_fail_validation() {
    // Two revisions both lacking a previous-hash pointer: an ambiguous
    // genesis.
    let mut chain = build_chain();
    let other = genesis_chain(
        b"other".to_vec(),
        "b.txt".to_string(),
        5,
        "d2".to_string(),
        "t2".to_string(),
    );
    let entry = other.revisions.into_iter().next().unwrap();
    chain.revisions.push(entry);
    let (ok, reason) = check_if_page_data_revision_are_okay(&chain.revisions);
    assert!(!ok);
    assert_eq!(reason, "revisions do not contain a valid genesis");
    assert!(revsions_has_valid_genesis(&chain.revisions).is_none());
}

#[test]
fn zero_genesis_candidates_fail_validation() {
    // A headless chain: every revision lists a predecessor.
    let mut chain = build_chain();
    let pointer = chain.revisions[2].0.duplicate();
    chain.revisions[0].1.metadata.previous_verification_hash = Some(pointer);
    let (ok, reason) = check_if_page_data_revision_are_okay(&chain.revisions);
    assert!(!ok);
    assert_eq!(reason, "revisions do not contain a valid genesis");
}

#[test]
fn compute_content_hash_recomputes_from_the_file() {
    let chain = genesis_chain(
        b"abc".to_vec(),
        "a.txt".to_string(),
        3,
        "d".to_string(),
        "t".to_string(),
    );
    let recomputed = compute_content_hash(&chain.revisions[0].1.content).unwrap();
    assert!(recomputed.equals(&chain.revisions[0].1.content.content_hash));
}

#[test]
fn compute_content_hash_rejects_a_missing_file() {
    let mut chain = genesis_chain(
        b"abc".to_vec(),
        "a.txt".to_string(),
        3,
        "d".to_string(),
        "t".to_string(),
    );
    chain.revisions[0].1.content.file = None;
    let err = compute_content_hash(&chain.revisions[0].1.content).unwrap_err();
    assert_eq!(err, "revision content has no file");
}

#[test]
fn verify_page_data_rejects_empty_chain() {
    let mut chain = build_chain();
    chain.revisions.clear();
    let (ok, reason) = verify_page_data(&chain);
    assert!(!ok);
    assert_eq!(reason, "no revisions found");
}

#[test]
fn verify_page_data_single_revision_checks_the_file() {
    let mut chain = genesis_chain(
        b"abc".to_vec(),
        "a.txt".to_string(),
        3,
        "d".to_string(),
        "t".to_string(),
    );
    let (ok, _) = verify_page_data(&chain);
    assert!(ok);

    // Swap the file: the recomputation no longer matches the stored hash.
    chain.revisions[0].1.content.file.as_mut().unwrap().data = b"abd".to_vec();
    let (ok2, reason) = verify_page_data(&chain);
    assert!(!ok2);
    assert!(reason.starts_with("a hash is not valid : "));
}

#[test]
fn genesis_chain_shape() {
    let chain = genesis_chain(
        b"abc".to_vec(),
        "a.txt".to_string(),
        3,
        "d".to_string(),
        "t".to_string(),
    );
    assert_eq!(chain.title, "a.txt");
    assert_eq!(chain.domain_id, "d");
    assert_eq!(chain.namespace, 0);
    assert_eq!(chain.chain_height, 0);
    assert_eq!(chain.genesis_hash, chain.revisions[0].0.to_hex());
    let rev = &chain.revisions[0].1;
    assert!(rev.metadata.previous_verification_hash.is_none());
    assert!(rev.signature.is_none());
    assert!(rev.witness.is_none());
    assert!(rev.content.file.is_some());
    assert!(chain.revisions[0]
        .0
        .equals(&rev.metadata.verification_hash));
}

#[test]
fn append_links_to_predecessor() {
    let chain = build_chain();
    for i in 1..chain.revisions.len() {
        let prev_key = &chain.revisions[i - 1].0;
        let ptr = chain.revisions[i]
            .1
            .metadata
            .previous_verification_hash
            .as_ref()
            .unwrap();
        assert!(ptr.equals(prev_key));
        assert!(chain.revisions[i]
            .0
            .equals(&chain.revisions[i].1.metadata.verification_hash));
    }
}
