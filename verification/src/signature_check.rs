//! The signature integrity check: a signature attests to the *previous*
//! revision's verification hash (never to the signed revision's own content,
//! so a revision cannot self-certify). The check recovers the signer's
//! public key from the fixed Ethereum personal message and cross-checks the
//! stored public key and signature hash.

use vstd::prelude::*;
use vstd::string::StrSliceExecFns;
use vstd::string::StringSliceAdditionalSpecFns;
use crate::crypt::ecdsa_recover;
use crate::crypt::keccak256;
use crate::crypt::keccak256_digest;
use crate::crypt::recover_public_key;
use crate::hashes::bytes_equal;
use crate::hashes::hex_encode;
use crate::hashes::hex_of;
use crate::hashes::HashValue;
use crate::integrity::RevisionIntegritySet;
use crate::model::Revision;
use crate::verification::spec_signature_hash;
use crate::verification::signature_hash;

verus! {

/// The exact fixed message a wallet signs for a revision: the Ethereum
/// personal-message prefix and length, the literal text, and the previous
/// verification hash in hex, in brackets. The length tag 177 counts the
/// text, the 128 hex characters and the closing bracket.
pub open spec fn spec_signing_message(prev_verification_hash: Seq<u8>) -> Seq<u8> {
    ("\x19Ethereum Signed Message:\n177I sign the following page verification_hash: [0x").spec_bytes()
        + hex_of(prev_verification_hash) + ("]").spec_bytes()
}

/// Build the fixed message a wallet must sign to attest to a verification
/// hash.
pub fn signing_message(prev_verification_hash: &HashValue) -> (r: Vec<u8>)
    ensures
        r@ == spec_signing_message(prev_verification_hash@),
{
    let mut buf = (
    "\x19Ethereum Signed Message:\n177I sign the following page verification_hash: [0x").as_bytes_vec();
    let mut hx = hex_encode(prev_verification_hash.as_bytes());
    buf.append(&mut hx);
    let mut close = ("]").as_bytes_vec();
    buf.append(&mut close);
    buf
}

/// The public key recovery outcome for a revision signed over a previous
/// verification hash.
pub open spec fn spec_recovered_key(signature: Seq<u8>, prev_verification_hash: Seq<u8>) -> Option<
    Seq<u8>,
> {
    ecdsa_recover(keccak256(spec_signing_message(prev_verification_hash)), signature)
}

/// Check the signature layer of one revision: `no_signature` when the layer
/// is absent, `no_prev_revision` when there is nothing to attest to,
/// `signature_error` when recovery fails, and otherwise exactly the flags
/// for a recovered key differing from the stored one and for a stored
/// signature hash differing from its recomputation. The empty set means the
/// signature layer is fully valid.
pub fn only_signature_hash_integrity(rev: &Revision, prev: Option<&Revision>) -> (r:
    RevisionIntegritySet)
    requires
        rev.wf(),
    ensures
        r.no_signature == (rev.signature is None),
        r.no_prev_revision == (rev.signature is Some && prev is None),
        (match (rev.signature, prev) {
            (Some(s), Some(p)) => {
                let recovered = spec_recovered_key(s.signature@, p.metadata.verification_hash@);
                &&& r.signature_error == (recovered is None)
                &&& r.public_key_not_matching == (recovered is Some && recovered != Some(
                    s.public_key@,
                ))
                &&& r.signature_hash_not_matching == (recovered is Some && spec_signature_hash(
                    s.signature@,
                    s.public_key@,
                ) != s.signature_hash@)
            },
            _ => r.signature_error == false && r.public_key_not_matching == false
                && r.signature_hash_not_matching == false,
        }),
        r.prev_verification_hash_not_matching == false && r.no_file == false
            && r.file_hash_not_matching == false && r.content_hash_not_matching == false
            && r.metadata_hash_not_matching == false && r.verification_hash_not_matching == false
            && r.no_witness == false && r.duplicate_merkle_leaf == false
            && r.verification_hash_not_in_merkle_tree == false && r.merkle_tree_incomplete == false
            && r.witness_hash_not_matching == false,
{
    let mut integrity = RevisionIntegritySet::empty();

    let sign = match &rev.signature {
        Some(s) => s,
        None => {
            integrity.no_signature = true;
            return integrity;
        },
    };
    let prev_hash = match prev {
        Some(p) => &p.metadata.verification_hash,
        None => {
            integrity.no_prev_revision = true;
            return integrity;
        },
    };

    // Hash the fixed message with the Ethereum personal-message scheme and
    // recover the signer's public key.
    let message = signing_message(prev_hash);
    let message_hash = keccak256_digest(message.as_slice());
    let recovered = match recover_public_key(message_hash.as_slice(), sign.signature.as_slice()) {
        Some(pk) => pk,
        None => {
            integrity.signature_error = true;
            return integrity;
        },
    };

    if !bytes_equal(&recovered, &sign.public_key) {
        integrity.public_key_not_matching = true;
    }

    let computed = signature_hash(&sign.signature, &sign.public_key);
    if !computed.equals(&sign.signature_hash) {
        integrity.signature_hash_not_matching = true;
    }

    integrity
}

} // verus!
