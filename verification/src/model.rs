//! The revision and chain data model.
//!
//! A revision bundles content, metadata and the optional signature and
//! witness layers; a chain is an ordered sequence of revisions keyed by each
//! revision's own verification hash and rooted at a single genesis revision
//! (the one revision without a previous-hash pointer).

use vstd::prelude::*;
use crate::content::ContentMap;
use crate::hashes::clone_bytes;
use crate::hashes::HashValue;
use crate::hashes::TxHash;

verus! {

/// The raw file a revision may carry: its bytes, name, declared size and a
/// comment. The file is tied into the content hash through a `file_hash`
/// entry of the content map.
pub struct FileContent {
    pub data: Vec<u8>,
    pub filename: String,
    pub size: u32,
    pub comment: String,
}

impl FileContent {
    pub fn duplicate(&self) -> (r: FileContent)
        ensures
            r.data@ == self.data@,
            r.filename@ == self.filename@,
            r.size == self.size,
            r.comment@ == self.comment@,
    {
        FileContent {
            data: clone_bytes(&self.data),
            filename: self.filename.clone(),
            size: self.size,
            comment: self.comment.clone(),
        }
    }
}

/// A revision's content: the ordered key/value map the content hash is
/// computed over, the optional raw file, and the stored content hash.
pub struct RevisionContent {
    pub content: ContentMap,
    pub file: Option<FileContent>,
    pub content_hash: HashValue,
}

impl RevisionContent {
    pub open spec fn wf(&self) -> bool {
        self.content.wf() && self.content_hash.wf()
    }

    pub fn duplicate(&self) -> (r: RevisionContent)
        ensures
            r.content@ == self.content@,
            r.content_hash@ == self.content_hash@,
            (match (self.file, r.file) {
                (Some(a), Some(b)) => b.data@ == a.data@ && b.filename@ == a.filename@ && b.size
                    == a.size && b.comment@ == a.comment@,
                (None, None) => true,
                _ => false,
            }),
    {
        let file = match &self.file {
            Some(f) => Some(f.duplicate()),
            None => None,
        };
        RevisionContent {
            content: self.content.duplicate(),
            file,
            content_hash: self.content_hash.duplicate(),
        }
    }
}

/// A revision's metadata: the issuing service instance, the timestamp's
/// canonical string form, the chain-link pointer (`None` marks a genesis
/// candidate), and the stored metadata and verification hashes.
pub struct RevisionMetadata {
    pub domain_id: String,
    pub time_stamp: String,
    pub previous_verification_hash: Option<HashValue>,
    pub metadata_hash: HashValue,
    pub verification_hash: HashValue,
}

impl RevisionMetadata {
    pub open spec fn wf(&self) -> bool {
        &&& (match self.previous_verification_hash {
            Some(p) => p.wf(),
            None => true,
        })
        &&& self.metadata_hash.wf()
        &&& self.verification_hash.wf()
    }
}

/// The optional signature layer: a 65-byte recoverable ECDSA signature
/// (64 bytes r‖s followed by a recovery id in the Ethereum RPC encoding),
/// the signer's public key in the 65-byte uncompressed form, the stored
/// signature hash, and the signer's wallet address.
pub struct RevisionSignature {
    pub signature: Vec<u8>,
    pub public_key: Vec<u8>,
    pub signature_hash: HashValue,
    pub wallet_address: String,
}

impl RevisionSignature {
    pub open spec fn wf(&self) -> bool {
        self.signature@.len() == 65 && self.public_key@.len() == 65 && self.signature_hash.wf()
    }
}

/// One node of a structured Merkle proof: a sibling pair and the stated
/// hash of their concatenated hex forms.
pub struct MerkleNode {
    pub left_leaf: HashValue,
    pub right_leaf: HashValue,
    pub successor: HashValue,
}

impl MerkleNode {
    pub open spec fn wf(&self) -> bool {
        self.left_leaf.wf() && self.right_leaf.wf() && self.successor.wf()
    }
}

/// The optional witness layer: the Merkle anchoring of the previous
/// revision's verification hash in an external blockchain transaction.
pub struct RevisionWitness {
    pub domain_snapshot_genesis_hash: HashValue,
    pub merkle_root: HashValue,
    pub witness_network: String,
    pub witness_event_transaction_hash: TxHash,
    pub witness_event_verification_hash: HashValue,
    pub witness_hash: HashValue,
    pub structured_merkle_proof: Vec<MerkleNode>,
}

impl RevisionWitness {
    pub open spec fn wf(&self) -> bool {
        &&& self.domain_snapshot_genesis_hash.wf()
        &&& self.merkle_root.wf()
        &&& self.witness_event_transaction_hash.wf()
        &&& self.witness_event_verification_hash.wf()
        &&& self.witness_hash.wf()
        &&& forall|i: int|
            0 <= i < self.structured_merkle_proof@.len()
                ==> (#[trigger] self.structured_merkle_proof@[i]).wf()
    }
}

/// One immutable entry of a hash chain: content, metadata, and the optional
/// signature and witness layers.
pub struct Revision {
    pub content: RevisionContent,
    pub metadata: RevisionMetadata,
    pub signature: Option<RevisionSignature>,
    pub witness: Option<RevisionWitness>,
}

impl Revision {
    pub open spec fn wf(&self) -> bool {
        &&& self.content.wf()
        &&& self.metadata.wf()
        &&& (match self.signature {
            Some(s) => s.wf(),
            None => true,
        })
        &&& (match self.witness {
            Some(w) => w.wf(),
            None => true,
        })
    }
}

/// An ordered sequence of revisions rooted at a genesis revision, each keyed
/// by its own verification hash.
pub struct HashChain {
    pub genesis_hash: String,
    pub domain_id: String,
    pub title: String,
    pub namespace: u64,
    pub chain_height: u64,
    pub revisions: Vec<(HashValue, Revision)>,
}

impl HashChain {
    pub open spec fn wf(&self) -> bool {
        forall|i: int|
            0 <= i < self.revisions@.len() ==> (#[trigger] self.revisions@[i]).0.wf()
                && self.revisions@[i].1.wf()
    }
}

} // verus!
