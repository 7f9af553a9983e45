//! The hash primitives: deterministic, keyed-order hashing building blocks.
//!
//! All five primitives share one underlying hash function (SHA3-512), are
//! order-sensitive, never fail, and hash a hash value through its canonical
//! lowercase hex form. Each executable function's contract states exactly
//! which bytes are fed, so two calls on equal inputs provably agree.

use vstd::prelude::*;
use vstd::string::StrSliceExecFns;
use vstd::utf8::encode_utf8;
use crate::content::ContentMap;
use crate::content::lemma_sorted_map_determined;
use crate::crypt::sha3_512;
use crate::crypt::sha3_512_digest;
use crate::hashes::hex_encode;
use crate::hashes::hex_of;
use crate::hashes::HashValue;
use crate::hashes::TxHash;

verus! {

/// The concatenated UTF-8 bytes of an entry sequence's values, in entry
/// order (keys themselves are not hashed).
pub open spec fn values_bytes(entries: Seq<(Seq<char>, Seq<char>)>) -> Seq<u8>
    decreases entries.len(),
{
    if entries.len() == 0 {
        Seq::empty()
    } else {
        encode_utf8(entries.first().1) + values_bytes(entries.drop_first())
    }
}

/// What `content_hash` returns: the digest of the values in key order.
pub open spec fn spec_content_hash(entries: Seq<(Seq<char>, Seq<char>)>) -> Seq<u8> {
    sha3_512(values_bytes(entries))
}

/// The bytes an optional hash contributes: its hex form if present, nothing
/// otherwise.
pub open spec fn opt_hash_hex(h: Option<Seq<u8>>) -> Seq<u8> {
    match h {
        Some(b) => hex_of(b),
        None => Seq::empty(),
    }
}

/// What `metadata_hash` returns: the digest of the domain id, the
/// timestamp's string form, and — only if present — the previous
/// verification hash's hex form.
pub open spec fn spec_metadata_hash(
    domain_id: Seq<char>,
    time_stamp: Seq<char>,
    previous_verification_hash: Option<Seq<u8>>,
) -> Seq<u8> {
    sha3_512(
        encode_utf8(domain_id) + encode_utf8(time_stamp) + opt_hash_hex(
            previous_verification_hash,
        ),
    )
}

/// What `verification_hash` returns: the digest of the content hash, the
/// metadata hash, then optionally the signature hash and the witness hash,
/// each in hex form, in that fixed order.
pub open spec fn spec_verification_hash(
    content_hash: Seq<u8>,
    metadata_hash: Seq<u8>,
    signature_hash: Option<Seq<u8>>,
    witness_hash: Option<Seq<u8>>,
) -> Seq<u8> {
    sha3_512(
        hex_of(content_hash) + hex_of(metadata_hash) + opt_hash_hex(signature_hash) + opt_hash_hex(
            witness_hash,
        ),
    )
}

/// What `signature_hash` returns: the digest of the signature's and the
/// public key's hex forms.
pub open spec fn spec_signature_hash(signature: Seq<u8>, public_key: Seq<u8>) -> Seq<u8> {
    sha3_512(hex_of(signature) + hex_of(public_key))
}

/// What `witness_hash` returns: the digest of the domain snapshot genesis
/// hash, the Merkle root, the network name (raw UTF-8) and the transaction
/// hash, the hashes in hex form, in that order.
pub open spec fn spec_witness_hash(
    domain_snapshot_genesis_hash: Seq<u8>,
    merkle_root: Seq<u8>,
    witness_network: Seq<char>,
    witness_event_transaction_hash: Seq<u8>,
) -> Seq<u8> {
    sha3_512(
        hex_of(domain_snapshot_genesis_hash) + hex_of(merkle_root) + encode_utf8(witness_network)
            + hex_of(witness_event_transaction_hash),
    )
}

/// The hash a Merkle proof node's successor must carry: the digest of the
/// two sibling hashes' hex forms.
pub open spec fn spec_merkle_successor(left: Seq<u8>, right: Seq<u8>) -> Seq<u8> {
    sha3_512(hex_of(left) + hex_of(right))
}

/// Hash a revision's content map: feed each value in key order (keys are
/// not hashed), then finalize.
pub fn content_hash(content: &ContentMap) -> (h: HashValue)
    ensures
        h@ == spec_content_hash(content@),
        h.wf(),
{
    let mut buf: Vec<u8> = Vec::new();
    let n = content.len();
    proof {
        assert(content@.skip(0) =~= content@);
    }
    for i in 0..n
        invariant
            n == content@.len(),
            values_bytes(content@) =~= buf@ + values_bytes(content@.skip(i as int)),
    {
        let mut vb = content.value_at(i).as_str().as_bytes_vec();
        proof {
            assert(content@.skip(i as int).first() == content@[i as int]);
            assert(content@.skip(i as int).drop_first() =~= content@.skip(i as int + 1));
        }
        buf.append(&mut vb);
    }
    proof {
        assert(content@.skip(n as int) =~= Seq::<(Seq<char>, Seq<char>)>::empty());
        assert(buf@ == values_bytes(content@));
    }
    let digest = sha3_512_digest(buf.as_slice());
    HashValue::from_digest(digest)
}

/// Hash a revision's metadata: feed the domain id, the timestamp's string
/// form, and — only if present — the previous verification hash's hex form.
pub fn metadata_hash(
    domain_id: &str,
    time_stamp: &str,
    previous_verification_hash: Option<&HashValue>,
) -> (h: HashValue)
    ensures
        h@ == spec_metadata_hash(
            domain_id@,
            time_stamp@,
            (match previous_verification_hash {
                Some(p) => Some(p@),
                None => None,
            }),
        ),
        h.wf(),
{
    let mut buf = domain_id.as_bytes_vec();
    let mut ts = time_stamp.as_bytes_vec();
    buf.append(&mut ts);
    match previous_verification_hash {
        Some(p) => {
            let mut hx = hex_encode(p.as_bytes());
            buf.append(&mut hx);
        },
        None => {},
    }
    let digest = sha3_512_digest(buf.as_slice());
    HashValue::from_digest(digest)
}

/// Hash a revision's top layer: feed the content hash, the metadata hash,
/// then optionally the signature hash and the witness hash, in that fixed
/// order, each in hex form. Because the optional layers come last, a chain
/// can be extended from unsigned to signed to witnessed by re-deriving this
/// hash without altering content or metadata.
pub fn verification_hash(
    content_hash: &HashValue,
    metadata_hash: &HashValue,
    signature_hash: Option<&HashValue>,
    witness_hash: Option<&HashValue>,
) -> (h: HashValue)
    ensures
        h@ == spec_verification_hash(
            content_hash@,
            metadata_hash@,
            (match signature_hash {
                Some(s) => Some(s@),
                None => None,
            }),
            (match witness_hash {
                Some(w) => Some(w@),
                None => None,
            }),
        ),
        h.wf(),
{
    let mut buf = hex_encode(content_hash.as_bytes());
    let mut mh = hex_encode(metadata_hash.as_bytes());
    buf.append(&mut mh);
    match signature_hash {
        Some(s) => {
            let mut hx = hex_encode(s.as_bytes());
            buf.append(&mut hx);
        },
        None => {},
    }
    match witness_hash {
        Some(w) => {
            let mut hx = hex_encode(w.as_bytes());
            buf.append(&mut hx);
        },
        None => {},
    }
    let digest = sha3_512_digest(buf.as_slice());
    HashValue::from_digest(digest)
}

/// Hash a signature layer: feed the signature's hex form, then the public
/// key's hex form.
pub fn signature_hash(signature: &Vec<u8>, public_key: &Vec<u8>) -> (h: HashValue)
    ensures
        h@ == spec_signature_hash(signature@, public_key@),
        h.wf(),
{
    let mut buf = hex_encode(signature.as_slice());
    let mut pk = hex_encode(public_key.as_slice());
    buf.append(&mut pk);
    let digest = sha3_512_digest(buf.as_slice());
    HashValue::from_digest(digest)
}

/// Hash a witness layer: feed the domain snapshot genesis hash, the Merkle
/// root, the network name as raw UTF-8, and the transaction hash, in order.
pub fn witness_hash(
    domain_snapshot_genesis_hash: &HashValue,
    merkle_root: &HashValue,
    witness_network: &str,
    witness_event_transaction_hash: &TxHash,
) -> (h: HashValue)
    ensures
        h@ == spec_witness_hash(
            domain_snapshot_genesis_hash@,
            merkle_root@,
            witness_network@,
            witness_event_transaction_hash@,
        ),
        h.wf(),
{
    let mut buf = hex_encode(domain_snapshot_genesis_hash.as_bytes());
    let mut mr = hex_encode(merkle_root.as_bytes());
    buf.append(&mut mr);
    let mut net = witness_network.as_bytes_vec();
    buf.append(&mut net);
    let mut tx = hex_encode(witness_event_transaction_hash.as_bytes());
    buf.append(&mut tx);
    let digest = sha3_512_digest(buf.as_slice());
    HashValue::from_digest(digest)
}

/// Hash a Merkle sibling pair up to its successor: feed the left leaf's hex
/// form, then the right leaf's.
pub fn merkle_successor(left: &HashValue, right: &HashValue) -> (h: HashValue)
    ensures
        h@ == spec_merkle_successor(left@, right@),
        h.wf(),
{
    let mut buf = hex_encode(left.as_bytes());
    let mut r = hex_encode(right.as_bytes());
    buf.append(&mut r);
    let digest = sha3_512_digest(buf.as_slice());
    HashValue::from_digest(digest)
}

/// Determinism of the content hash: it depends on the key→value mapping
/// alone. Two well-formed content maps holding the same pairs — whatever
/// order the pairs were inserted in — hash identically, because a sorted
/// map's entry sequence is determined by the mapping it denotes.
pub proof fn lemma_content_hash_key_order(m1: ContentMap, m2: ContentMap)
    requires
        m1.wf(),
        m2.wf(),
        m1.as_map() == m2.as_map(),
    ensures
        spec_content_hash(m1@) == spec_content_hash(m2@),
{
    lemma_sorted_map_determined(m1@, m2@);
}

} // verus!
