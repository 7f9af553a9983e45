//! The failure taxonomy: every defect a check can report is one flag, and a
//! check returns a combinable set of flags rather than a single boolean, so
//! a caller sees precisely what is wrong.

use vstd::prelude::*;

verus! {

/// One per-revision defect.
#[derive(Clone, Copy, Debug, PartialEq, Eq, Structural)]
pub enum RevisionIntegrity {
    NoPrevRevision,
    PrevVerificationHashNotMatching,
    NoFile,
    FileHashNotMatching,
    ContentHashNotMatching,
    MetadataHashNotMatching,
    VerificationHashNotMatching,
    /// No signature field was present; may be ignored where a signature is
    /// not required.
    NoSignature,
    SignatureError,
    PublicKeyNotMatching,
    SignatureHashNotMatching,
    /// No witness field was present; may be ignored where a witness is not
    /// required.
    NoWitness,
    DuplicateMerkleLeaf,
    VerificationHashNotInMerkleTree,
    MerkleTreeIncomplete,
    WitnessHashNotMatching,
}

/// One per-chain defect.
#[derive(Clone, Copy, Debug, PartialEq, Eq, Structural)]
pub enum HashChainIntegrity {
    KeyValueMismatch,
    /// The latest verification hash is missing.
    ChainHeadMissing,
    /// The genesis hash is not among the revisions.
    GenesisHashMissing,
    /// No path from the latest verification hash to the genesis hash.
    ChainLinkMissing,
    /// The genesis hash is not a root.
    ChainGenesisIsLink,
    /// The last chain link lists a previous revision.
    ChainRootMissing,
    /// Revisions not involved in the chain.
    UnusedRevisions,
    /// A revision's integrity is compromised.
    RevisionIntegrityFatal,
}

/// A combinable set of per-revision defects; the empty set means the checked
/// layer is fully valid.
#[derive(Clone, Copy, Debug, PartialEq, Eq, Structural)]
pub struct RevisionIntegritySet {
    pub no_prev_revision: bool,
    pub prev_verification_hash_not_matching: bool,
    pub no_file: bool,
    pub file_hash_not_matching: bool,
    pub content_hash_not_matching: bool,
    pub metadata_hash_not_matching: bool,
    pub verification_hash_not_matching: bool,
    pub no_signature: bool,
    pub signature_error: bool,
    pub public_key_not_matching: bool,
    pub signature_hash_not_matching: bool,
    pub no_witness: bool,
    pub duplicate_merkle_leaf: bool,
    pub verification_hash_not_in_merkle_tree: bool,
    pub merkle_tree_incomplete: bool,
    pub witness_hash_not_matching: bool,
}

impl RevisionIntegritySet {
    /// The set with no flag raised.
    pub open spec fn spec_empty() -> RevisionIntegritySet {
        RevisionIntegritySet {
            no_prev_revision: false,
            prev_verification_hash_not_matching: false,
            no_file: false,
            file_hash_not_matching: false,
            content_hash_not_matching: false,
            metadata_hash_not_matching: false,
            verification_hash_not_matching: false,
            no_signature: false,
            signature_error: false,
            public_key_not_matching: false,
            signature_hash_not_matching: false,
            no_witness: false,
            duplicate_merkle_leaf: false,
            verification_hash_not_in_merkle_tree: false,
            merkle_tree_incomplete: false,
            witness_hash_not_matching: false,
        }
    }

    pub fn empty() -> (r: RevisionIntegritySet)
        ensures
            r == RevisionIntegritySet::spec_empty(),
    {
        RevisionIntegritySet {
            no_prev_revision: false,
            prev_verification_hash_not_matching: false,
            no_file: false,
            file_hash_not_matching: false,
            content_hash_not_matching: false,
            metadata_hash_not_matching: false,
            verification_hash_not_matching: false,
            no_signature: false,
            signature_error: false,
            public_key_not_matching: false,
            signature_hash_not_matching: false,
            no_witness: false,
            duplicate_merkle_leaf: false,
            verification_hash_not_in_merkle_tree: false,
            merkle_tree_incomplete: false,
            witness_hash_not_matching: false,
        }
    }

    /// Whether a given flag is in the set.
    pub open spec fn spec_contains(&self, flag: RevisionIntegrity) -> bool {
        match flag {
            RevisionIntegrity::NoPrevRevision => self.no_prev_revision,
            RevisionIntegrity::PrevVerificationHashNotMatching => self
                .prev_verification_hash_not_matching,
            RevisionIntegrity::NoFile => self.no_file,
            RevisionIntegrity::FileHashNotMatching => self.file_hash_not_matching,
            RevisionIntegrity::ContentHashNotMatching => self.content_hash_not_matching,
            RevisionIntegrity::MetadataHashNotMatching => self.metadata_hash_not_matching,
            RevisionIntegrity::VerificationHashNotMatching => self.verification_hash_not_matching,
            RevisionIntegrity::NoSignature => self.no_signature,
            RevisionIntegrity::SignatureError => self.signature_error,
            RevisionIntegrity::PublicKeyNotMatching => self.public_key_not_matching,
            RevisionIntegrity::SignatureHashNotMatching => self.signature_hash_not_matching,
            RevisionIntegrity::NoWitness => self.no_witness,
            RevisionIntegrity::DuplicateMerkleLeaf => self.duplicate_merkle_leaf,
            RevisionIntegrity::VerificationHashNotInMerkleTree => self
                .verification_hash_not_in_merkle_tree,
            RevisionIntegrity::MerkleTreeIncomplete => self.merkle_tree_incomplete,
            RevisionIntegrity::WitnessHashNotMatching => self.witness_hash_not_matching,
        }
    }

    pub fn contains(&self, flag: RevisionIntegrity) -> (r: bool)
        ensures
            r == self.spec_contains(flag),
    {
        match flag {
            RevisionIntegrity::NoPrevRevision => self.no_prev_revision,
            RevisionIntegrity::PrevVerificationHashNotMatching => self
                .prev_verification_hash_not_matching,
            RevisionIntegrity::NoFile => self.no_file,
            RevisionIntegrity::FileHashNotMatching => self.file_hash_not_matching,
            RevisionIntegrity::ContentHashNotMatching => self.content_hash_not_matching,
            RevisionIntegrity::MetadataHashNotMatching => self.metadata_hash_not_matching,
            RevisionIntegrity::VerificationHashNotMatching => self.verification_hash_not_matching,
            RevisionIntegrity::NoSignature => self.no_signature,
            RevisionIntegrity::SignatureError => self.signature_error,
            RevisionIntegrity::PublicKeyNotMatching => self.public_key_not_matching,
            RevisionIntegrity::SignatureHashNotMatching => self.signature_hash_not_matching,
            RevisionIntegrity::NoWitness => self.no_witness,
            RevisionIntegrity::DuplicateMerkleLeaf => self.duplicate_merkle_leaf,
            RevisionIntegrity::VerificationHashNotInMerkleTree => self
                .verification_hash_not_in_merkle_tree,
            RevisionIntegrity::MerkleTreeIncomplete => self.merkle_tree_incomplete,
            RevisionIntegrity::WitnessHashNotMatching => self.witness_hash_not_matching,
        }
    }

    pub fn is_empty(&self) -> (r: bool)
        ensures
            r == (*self == RevisionIntegritySet::spec_empty()),
    {
        !(self.no_prev_revision || self.prev_verification_hash_not_matching || self.no_file
            || self.file_hash_not_matching || self.content_hash_not_matching
            || self.metadata_hash_not_matching || self.verification_hash_not_matching
            || self.no_signature || self.signature_error || self.public_key_not_matching
            || self.signature_hash_not_matching || self.no_witness || self.duplicate_merkle_leaf
            || self.verification_hash_not_in_merkle_tree || self.merkle_tree_incomplete
            || self.witness_hash_not_matching)
    }
}

} // verus!
