//! Trusted bindings for the cryptographic primitives every hash layer rests
//! on: SHA3-512 for the chain hashes, Keccak-256 for the Ethereum personal
//! message scheme, and secp256k1 public-key recovery for signatures.

use vstd::prelude::*;
use sha3::Digest;

verus! {

/// The SHA3-512 digest of a byte sequence. The process-wide hash function of
/// the chain: every hash layer (content, metadata, verification, signature,
/// witness, Merkle successor) is this digest over an input assembled in
/// verified code.
pub uninterp spec fn sha3_512(data: Seq<u8>) -> Seq<u8>;

/// The Keccak-256 digest of a byte sequence, used only to hash the fixed
/// Ethereum personal message a wallet signs.
pub uninterp spec fn keccak256(data: Seq<u8>) -> Seq<u8>;

/// The public key recovered from a 32-byte message hash and a 65-byte
/// recoverable signature (64 bytes r‖s followed by a recovery id in the
/// Ethereum RPC encoding, 27 to 30), serialized in the 65-byte uncompressed
/// form; `None` when the signature bytes or the recovery id do not parse or
/// recovery fails.
pub uninterp spec fn ecdsa_recover(message_hash: Seq<u8>, signature: Seq<u8>) -> Option<Seq<u8>>;

/// Relies on sha3::Sha3_512 through the Digest trait: the 64-byte SHA3-512
/// digest, a function of the input bytes alone.
#[verifier::external_body]
pub(crate) fn sha3_512_digest(data: &[u8]) -> (res: Vec<u8>)
    ensures
        res@ == sha3_512(data@),
        res@.len() == 64,
{
    sha3::Sha3_512::digest(data).to_vec()
}

/// Relies on sha3::Keccak256 through the Digest trait: the 32-byte
/// Keccak-256 digest, a function of the input bytes alone.
#[verifier::external_body]
pub(crate) fn keccak256_digest(data: &[u8]) -> (res: Vec<u8>)
    ensures
        res@ == keccak256(data@),
        res@.len() == 32,
{
    sha3::Keccak256::digest(data).to_vec()
}

/// Relies on libsecp256k1: Signature::parse_standard over bytes 0..64,
/// RecoveryId::parse_rpc over byte 64, recover, and PublicKey::serialize
/// (65-byte uncompressed form). The outcome is deterministic elliptic-curve
/// arithmetic, a function of the message hash and the signature bytes alone.
#[verifier::external_body]
pub(crate) fn recover_public_key(message_hash: &[u8], signature: &[u8]) -> (res: Option<
    Vec<u8>,
>)
    requires
        message_hash@.len() == 32,
        signature@.len() == 65,
    ensures
        match (res, ecdsa_recover(message_hash@, signature@)) {
            (Some(v), Some(s)) => v@ == s && v@.len() == 65,
            (None, None) => true,
            _ => false,
        },
{
    let mut msg = [0u8; 32];
    msg.copy_from_slice(message_hash);
    let mut sig_bytes = [0u8; 64];
    sig_bytes.copy_from_slice(&signature[..64]);
    let sig = libsecp256k1::Signature::parse_standard(&sig_bytes).ok()?;
    let rec_id = libsecp256k1::RecoveryId::parse_rpc(signature[64]).ok()?;
    let msg = libsecp256k1::Message::parse(&msg);
    let pk = libsecp256k1::recover(&msg, &sig, &rec_id).ok()?;
    Some(pk.serialize().to_vec())
}

} // verus!
