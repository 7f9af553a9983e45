//! The verification-hash integrity check: confirms that a revision's stored
//! content, metadata and verification hashes match what its fields hash to,
//! and that its chain-link pointer matches the previous revision. It says
//! nothing about the signature or witness layers.

use vstd::prelude::*;
use crate::content::spec_contains_key;
use crate::content::seq_as_map;
use crate::crypt::sha3_512;
use crate::crypt::sha3_512_digest;
use crate::hashes::hex_chars_of;
use crate::hashes::hex_string;
use crate::integrity::RevisionIntegritySet;
use crate::model::Revision;
use crate::verification::spec_content_hash;
use crate::verification::spec_metadata_hash;
use crate::verification::spec_verification_hash;
use crate::verification::content_hash;
use crate::verification::metadata_hash;
use crate::verification::verification_hash;

verus! {

/// The stored signature hash a revision's verification hash was derived
/// over, if the revision is signed.
pub open spec fn spec_stored_signature_hash(rev: Revision) -> Option<Seq<u8>> {
    match rev.signature {
        Some(s) => Some(s.signature_hash@),
        None => None,
    }
}

/// The stored witness hash a revision's verification hash was derived over,
/// if the revision is witnessed.
pub open spec fn spec_stored_witness_hash(rev: Revision) -> Option<Seq<u8>> {
    match rev.witness {
        Some(w) => Some(w.witness_hash@),
        None => None,
    }
}

/// The view of a revision's chain-link pointer.
pub open spec fn spec_prev_pointer(rev: Revision) -> Option<Seq<u8>> {
    match rev.metadata.previous_verification_hash {
        Some(p) => Some(p@),
        None => None,
    }
}

/// Whether the chain-link pointer is inconsistent: pointer and previous
/// revision must both exist or both be absent, and where both exist the
/// pointer must equal the previous revision's verification hash. (A missing
/// previous revision with a pointer present is the separate
/// `no_prev_revision` flag.)
pub open spec fn spec_prev_mismatch(rev: Revision, prev: Option<Revision>) -> bool {
    match (rev.metadata.previous_verification_hash, prev) {
        (Some(p), Some(pr)) => pr.metadata.verification_hash@ != p@,
        (None, Some(_)) => true,
        _ => false,
    }
}

/// Whether the stored file disagrees with the content map: a file present
/// must have a `file_hash` entry holding the hex form of its digest.
pub open spec fn spec_file_mismatch(rev: Revision) -> bool {
    match rev.content.file {
        Some(f) => !spec_contains_key(rev.content.content@, "file_hash"@) || seq_as_map(
            rev.content.content@,
        )["file_hash"@] != hex_chars_of(sha3_512(f.data@)),
        None => false,
    }
}

/// Check the hash layers of one revision against a possible predecessor:
/// the chain-link pointer, the file hash, and the recomputed content,
/// metadata and verification hashes. Each defect raises exactly one flag;
/// the empty set means content and metadata have not been tampered with.
pub fn only_verification_hash_integrity(rev: &Revision, prev: Option<&Revision>) -> (r:
    RevisionIntegritySet)
    requires
        rev.wf(),
    ensures
        r.no_prev_revision == (rev.metadata.previous_verification_hash is Some && prev is None),
        r.prev_verification_hash_not_matching == spec_prev_mismatch(
            *rev,
            (match prev {
                Some(p) => Some(*p),
                None => None,
            }),
        ),
        r.no_file == (rev.content.file is None && spec_contains_key(
            rev.content.content@,
            "file_hash"@,
        )),
        r.file_hash_not_matching == spec_file_mismatch(*rev),
        r.content_hash_not_matching == (spec_content_hash(rev.content.content@)
            != rev.content.content_hash@),
        r.metadata_hash_not_matching == (spec_metadata_hash(
            rev.metadata.domain_id@,
            rev.metadata.time_stamp@,
            spec_prev_pointer(*rev),
        ) != rev.metadata.metadata_hash@),
        r.verification_hash_not_matching == (spec_verification_hash(
            rev.content.content_hash@,
            rev.metadata.metadata_hash@,
            spec_stored_signature_hash(*rev),
            spec_stored_witness_hash(*rev),
        ) != rev.metadata.verification_hash@),
        r.no_signature == false && r.signature_error == false && r.public_key_not_matching
            == false && r.signature_hash_not_matching == false && r.no_witness == false
            && r.duplicate_merkle_leaf == false && r.verification_hash_not_in_merkle_tree == false
            && r.merkle_tree_incomplete == false && r.witness_hash_not_matching == false,
{
    let mut integrity = RevisionIntegritySet::empty();

    // Chain-link pointer: both or neither of the pointer and the previous
    // revision exist, and where both exist they agree.
    match &rev.metadata.previous_verification_hash {
        Some(prev_verification_hash) => {
            match prev {
                Some(p) => {
                    if !p.metadata.verification_hash.equals(prev_verification_hash) {
                        integrity.prev_verification_hash_not_matching = true;
                    }
                },
                None => {
                    integrity.no_prev_revision = true;
                },
            }
        },
        None => {
            if prev.is_some() {
                integrity.prev_verification_hash_not_matching = true;
            }
        },
    }

    // File hash: both or neither of the file and the `file_hash` entry
    // exist, and the entry holds the hex form of the file's digest.
    match &rev.content.file {
        Some(file) => {
            match rev.content.content.get("file_hash") {
                Some(stored) => {
                    let digest = sha3_512_digest(file.data.as_slice());
                    let computed = hex_string(digest.as_slice());
                    if !(computed == *stored) {
                        integrity.file_hash_not_matching = true;
                    }
                },
                None => {
                    integrity.file_hash_not_matching = true;
                },
            }
        },
        None => {
            if rev.content.content.contains_key("file_hash") {
                integrity.no_file = true;
            }
        },
    }

    // Content hash: recompute from the stored content map.
    let computed_content = content_hash(&rev.content.content);
    if !computed_content.equals(&rev.content.content_hash) {
        integrity.content_hash_not_matching = true;
    }

    // Metadata hash: recompute from the stored metadata fields.
    let prev_ptr = match &rev.metadata.previous_verification_hash {
        Some(p) => Some(p),
        None => None,
    };
    let computed_metadata = metadata_hash(
        rev.metadata.domain_id.as_str(),
        rev.metadata.time_stamp.as_str(),
        prev_ptr,
    );
    if !computed_metadata.equals(&rev.metadata.metadata_hash) {
        integrity.metadata_hash_not_matching = true;
    }

    // Verification hash: recompute over the stored layer hashes.
    let sig_hash = match &rev.signature {
        Some(s) => Some(&s.signature_hash),
        None => None,
    };
    let wit_hash = match &rev.witness {
        Some(w) => Some(&w.witness_hash),
        None => None,
    };
    let computed_verification = verification_hash(
        &rev.content.content_hash,
        &rev.metadata.metadata_hash,
        sig_hash,
        wit_hash,
    );
    if !computed_verification.equals(&rev.metadata.verification_hash) {
        integrity.verification_hash_not_matching = true;
    }

    integrity
}

} // verus!
