//! The signature integrity checker with real secp256k1 signatures.

use aqua_chain::chain::{genesis_chain, sign_revision};
use aqua_chain::integrity::RevisionIntegrity;
use aqua_chain::model::HashChain;
use aqua_chain::signature_check::{only_signature_hash_integrity, signing_message};
use aqua_chain::verification::signature_hash;
use sha3::Digest;

fn keccak(data: &[u8]) -> [u8; 32] {
    let d = sha3::Keccak256::digest(data);
    let mut out = [0u8; 32];
    out.copy_from_slice(&d);
    out
}

/// Sign the fixed message for the chain's newest verification hash with the
/// given secret key, in the 65-byte r‖s‖v form the chain stores.
fn sign_over_head(chain: &HashChain, seckey: &[u8; 32]) -> (Vec<u8>, Vec<u8>) {
    let head = &chain.revisions.last().unwrap().1.metadata.verification_hash;
    let message = signing_message(head);
    let msg = libsecp256k1::Message::parse(&keccak(&message));
    let sk = libsecp256k1::SecretKey::parse(seckey).unwrap();
    let pk = libsecp256k1::PublicKey::from_secret_key(&sk);
    let (sig, rid) = libsecp256k1::sign(&msg, &sk);
    let mut sig_bytes = sig.serialize().to_vec();
    sig_bytes.push(27 + rid.serialize());
    (sig_bytes, pk.serialize().to_vec())
}

fn fresh_chain() -> HashChain {
    genesis_chain(
        b"signed content".to_vec(),
        "s.txt".to_string(),
        14,
        "domain0".to_string(),
        "20240101000000".to_string(),
    )
}

#[test]
fn signature_round_trip() {
    // Signing the correct fixed message with a known key pair yields an
    // empty flag set.
    let mut chain = fresh_chain();
    let (sig, pk) = sign_over_head(&chain, &[0x11u8; 32]);
    sign_revision(
        &mut chain,
        sig,
        pk,
        "0x1111111111111111111111111111111111111111".to_string(),
        "20240101000001".to_string(),
    );
    let prev = &chain.revisions[0].1;
    let rev = &chain.revisions[1].1;
    let flags = only_signature_hash_integrity(rev, Some(prev));
    assert!(flags.is_empty());
}

#[test]
fn foreign_signature_hash_is_flagged() {
    // Recomputing the signature hash with a different key's public key must
    // flag the stored signature hash as not matching.
    let mut chain = fresh_chain();
    let (sig, pk) = sign_over_head(&chain, &[0x11u8; 32]);
    sign_revision(
        &mut chain,
        sig,
        pk,
        "0x1111111111111111111111111111111111111111".to_string(),
        "20240101000001".to_string(),
    );
    let other_sk = libsecp256k1::SecretKey::parse(&[0x22u8; 32]).unwrap();
    let other_pk = libsecp256k1::PublicKey::from_secret_key(&other_sk).serialize().to_vec();
    {
        let layer = chain.revisions[1].1.signature.as_mut().unwrap();
        layer.signature_hash = signature_hash(&layer.signature, &other_pk);
    }
    let prev = &chain.revisions[0].1;
    let rev = &chain.revisions[1].1;
    let flags = only_signature_hash_integrity(rev, Some(prev));
    assert!(!flags.is_empty());
    assert!(flags.contains(RevisionIntegrity::SignatureHashNotMatching));
    assert!(!flags.contains(RevisionIntegrity::SignatureError));
}

#[test]
fn foreign_public_key_is_flagged() {
    // A stored public key other than the recovered one is flagged, while
    // the signature hash over the stored fields still matches.
    let mut chain = fresh_chain();
    let (sig, _) = sign_over_head(&chain, &[0x11u8; 32]);
    let other_sk = libsecp256k1::SecretKey::parse(&[0x22u8; 32]).unwrap();
    let other_pk = libsecp256k1::PublicKey::from_secret_key(&other_sk).serialize().to_vec();
    sign_revision(
        &mut chain,
        sig,
        other_pk,
        "0x2222222222222222222222222222222222222222".to_string(),
        "20240101000001".to_string(),
    );
    let prev = &chain.revisions[0].1;
    let rev = &chain.revisions[1].1;
    let flags = only_signature_hash_integrity(rev, Some(prev));
    assert!(flags.contains(RevisionIntegrity::PublicKeyNotMatching));
    assert!(!flags.contains(RevisionIntegrity::SignatureHashNotMatching));
}

#[test]
fn malformed_signature_is_an_error() {
    // A recovery id outside the Ethereum RPC domain cannot be parsed.
    let mut chain = fresh_chain();
    let (mut sig, pk) = sign_over_head(&chain, &[0x11u8; 32]);
    sig[64] = 5;
    sign_revision(
        &mut chain,
        sig,
        pk,
        "0x1111111111111111111111111111111111111111".to_string(),
        "20240101000001".to_string(),
    );
    let prev = &chain.revisions[0].1;
    let rev = &chain.revisions[1].1;
    let flags = only_signature_hash_integrity(rev, Some(prev));
    assert!(flags.contains(RevisionIntegrity::SignatureError));
    // Recovery failed, so nothing else was checked.
    assert!(!flags.contains(RevisionIntegrity::SignatureHashNotMatching));
    assert!(!flags.contains(RevisionIntegrity::PublicKeyNotMatching));
}

#[test]
fn unsigned_revision_reports_no_signature() {
    let chain = fresh_chain();
    let rev = &chain.revisions[0].1;
    let flags = only_signature_hash_integrity(rev, None);
    assert!(flags.contains(RevisionIntegrity::NoSignature));
    assert!(!flags.contains(RevisionIntegrity::NoPrevRevision));
}

#[test]
fn signature_without_predecessor_reports_no_prev_revision() {
    // A signature attests to the previous revision's verification hash;
    // without a predecessor there is nothing to check against.
    let mut chain = fresh_chain();
    let (sig, pk) = sign_over_head(&chain, &[0x11u8; 32]);
    sign_revision(
        &mut chain,
        sig,
        pk,
        "0x1111111111111111111111111111111111111111".to_string(),
        "20240101000001".to_string(),
    );
    let rev = &chain.revisions[1].1;
    let flags = only_signature_hash_integrity(rev, None);
    assert!(flags.contains(RevisionIntegrity::NoPrevRevision));
    assert!(!flags.contains(RevisionIntegrity::NoSignature));
}

#[test]
fn signing_message_has_the_fixed_shape() {
    let chain = fresh_chain();
    let head = &chain.revisions[0].1.metadata.verification_hash;
    let message = signing_message(head);
    let expected = format!(
        "\x19Ethereum Signed Message:\n177I sign the following page verification_hash: [0x{}]",
        head.to_hex()
    );
    assert_eq!(message, expected.into_bytes());
}
