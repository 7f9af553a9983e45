//! The append path: the one way revisions come into being. A chain starts
//! with a genesis revision over an uploaded file; a signature or a witness
//! extends it by one revision that copies the content, points at its
//! predecessor, carries the new layer, and re-derives the metadata and
//! verification hashes. Chains built this way provably pass the validator.

use vstd::prelude::*;
use crate::content::ContentMap;
use crate::content::lemma_singleton_map_entries;
use crate::crypt::sha3_512;
use crate::hashes::hex_chars_of;
use crate::hashes::hex_string;
use crate::hashes::HashValue;
use crate::hashes::TxHash;
use crate::model::FileContent;
use crate::model::HashChain;
use crate::model::MerkleNode;
use crate::model::Revision;
use crate::model::RevisionContent;
use crate::model::RevisionMetadata;
use crate::model::RevisionSignature;
use crate::model::RevisionWitness;
use crate::revision_check::spec_file_mismatch;
use crate::revision_check::spec_prev_mismatch;
use crate::revision_check::spec_prev_pointer;
use crate::revision_check::spec_stored_signature_hash;
use crate::revision_check::spec_stored_witness_hash;
use crate::content::spec_contains_key;
use crate::util::content_ok;
use crate::util::is_genesis_candidate;
use crate::util::unique_genesis;
use crate::verification::spec_content_hash;
use crate::verification::spec_merkle_successor;
use crate::verification::spec_metadata_hash;
use crate::verification::spec_signature_hash;
use crate::verification::spec_verification_hash;
use crate::verification::spec_witness_hash;
use crate::verification::content_hash;
use crate::verification::merkle_successor;
use crate::verification::metadata_hash;
use crate::verification::signature_hash;
use crate::verification::verification_hash;
use crate::verification::witness_hash;
use crate::util::make_empty_hash;

verus! {

/// The content entries of a genesis revision over a file: one `file_hash`
/// entry holding the hex form of the file's digest.
pub open spec fn spec_genesis_content_entries(file_data: Seq<u8>) -> Seq<(Seq<char>, Seq<char>)> {
    seq![("file_hash"@, hex_chars_of(sha3_512(file_data)))]
}

/// The verification hash of a genesis revision: content and metadata layers
/// only.
pub open spec fn spec_genesis_verification(
    file_data: Seq<u8>,
    domain_id: Seq<char>,
    time_stamp: Seq<char>,
) -> Seq<u8> {
    spec_verification_hash(
        spec_content_hash(spec_genesis_content_entries(file_data)),
        spec_metadata_hash(domain_id, time_stamp, None),
        None,
        None,
    )
}

/// One revision of a chain with every stored hash layer intact: the entry
/// is keyed by the revision's own verification hash; the content hash is
/// what the content map recomputes to; the metadata and verification hashes
/// are what the stored fields hash to; and the file — where one is carried —
/// agrees with the `file_hash` entry of the content map.
pub open spec fn entry_intact(revs: Seq<(HashValue, Revision)>, i: int) -> bool {
    let rev = revs[i].1;
    &&& content_ok(revs, i)
    &&& revs[i].0@ == rev.metadata.verification_hash@
    &&& spec_metadata_hash(
        rev.metadata.domain_id@,
        rev.metadata.time_stamp@,
        spec_prev_pointer(rev),
    ) == rev.metadata.metadata_hash@
    &&& spec_verification_hash(
        rev.content.content_hash@,
        rev.metadata.metadata_hash@,
        spec_stored_signature_hash(rev),
        spec_stored_witness_hash(rev),
    ) == rev.metadata.verification_hash@
    &&& !spec_file_mismatch(rev)
    &&& !(rev.content.file is None && spec_contains_key(rev.content.content@, "file_hash"@))
}

/// The revision at a position points at the entry before it.
pub open spec fn entry_linked(revs: Seq<(HashValue, Revision)>, i: int) -> bool {
    match revs[i].1.metadata.previous_verification_hash {
        Some(p) => p@ == revs[i - 1].0@,
        None => false,
    }
}

/// A chain as the append path builds it: its first revision is the one
/// genesis candidate, every later revision points at its predecessor's
/// entry, and every revision's stored hash layers are intact.
pub open spec fn well_built(chain: HashChain) -> bool {
    &&& chain.revisions@.len() > 0
    &&& is_genesis_candidate(chain.revisions@, 0)
    &&& forall|i: int| 1 <= i < chain.revisions@.len() ==> #[trigger] entry_linked(
        chain.revisions@,
        i,
    )
    &&& forall|i: int| 0 <= i < chain.revisions@.len() ==> #[trigger] entry_intact(
        chain.revisions@,
        i,
    )
}

/// Chain validity round-trip: a chain of any height built via the normal
/// append path — a genesis revision, then signature and witness appends in
/// any order — has exactly one genesis and every content hash intact, so
/// the chain validator (whose verdict equals exactly these conditions for a
/// chain of more than one revision, and is trivially positive otherwise)
/// reports success over its revisions. Moreover every revision would pass
/// the per-revision hash check: each chain-link pointer equals the previous
/// revision's own verification hash, and no recomputed layer disagrees with
/// its stored hash.
pub proof fn lemma_append_path_chain_valid(chain: HashChain)
    requires
        well_built(chain),
    ensures
        unique_genesis(chain.revisions@),
        forall|i: int| 0 <= i < chain.revisions@.len() ==> #[trigger] content_ok(
            chain.revisions@,
            i,
        ),
        forall|i: int| 0 <= i < chain.revisions@.len() ==> #[trigger] entry_intact(
            chain.revisions@,
            i,
        ),
        chain.revisions@[0].1.metadata.previous_verification_hash is None,
        forall|i: int|
            1 <= i < chain.revisions@.len() ==> !#[trigger] spec_prev_mismatch(
                chain.revisions@[i].1,
                Some(chain.revisions@[i - 1].1),
            ),
{
    assert(is_genesis_candidate(chain.revisions@, 0));
    assert forall|i: int, j: int|
        is_genesis_candidate(chain.revisions@, i) && is_genesis_candidate(
            chain.revisions@,
            j,
        ) implies i == j by {
        if 1 <= i < chain.revisions@.len() {
            assert(entry_linked(chain.revisions@, i));
        }
        if 1 <= j < chain.revisions@.len() {
            assert(entry_linked(chain.revisions@, j));
        }
    }
    assert forall|i: int| 0 <= i < chain.revisions@.len() implies #[trigger] content_ok(
        chain.revisions@,
        i,
    ) by {
        assert(entry_intact(chain.revisions@, i));
    }
    assert forall|i: int|
        1 <= i < chain.revisions@.len() implies !#[trigger] spec_prev_mismatch(
        chain.revisions@[i].1,
        Some(chain.revisions@[i - 1].1),
    ) by {
        assert(entry_linked(chain.revisions@, i));
        assert(entry_intact(chain.revisions@, i - 1));
    }
}

/// Build the one-revision chain a file upload creates: hash the raw file
/// bytes, tie the digest into the content map under `file_hash`, derive the
/// content, metadata and verification hashes, and root the chain at the new
/// revision's verification hash.
pub fn genesis_chain(
    file_data: Vec<u8>,
    file_name: String,
    file_size: u32,
    api_domain: String,
    time_stamp: String,
) -> (c: HashChain)
    ensures
        c.wf(),
        well_built(c),
        c.genesis_hash@ == hex_chars_of(
            spec_genesis_verification(file_data@, api_domain@, time_stamp@),
        ),
        c.domain_id@ == api_domain@,
        c.title@ == file_name@,
        c.namespace == 0,
        c.chain_height == 0,
        c.revisions@.len() == 1,
        c.revisions@[0].0@ == spec_genesis_verification(file_data@, api_domain@, time_stamp@),
        ({
            let rev = c.revisions@[0].1;
            &&& rev.content.content@ == spec_genesis_content_entries(file_data@)
            &&& rev.content.content_hash@ == spec_content_hash(
                spec_genesis_content_entries(file_data@),
            )
            &&& (match rev.content.file {
                Some(f) => f.data@ == file_data@ && f.filename@ == file_name@ && f.size == file_size
                    && f.comment@ == Seq::<char>::empty(),
                None => false,
            })
            &&& rev.metadata.domain_id@ == api_domain@
            &&& rev.metadata.time_stamp@ == time_stamp@
            &&& rev.metadata.previous_verification_hash is None
            &&& rev.metadata.metadata_hash@ == spec_metadata_hash(api_domain@, time_stamp@, None)
            &&& rev.metadata.verification_hash@ == spec_genesis_verification(
                file_data@,
                api_domain@,
                time_stamp@,
            )
            &&& rev.signature is None
            &&& rev.witness is None
        }),
{
    let file_hash = crate::crypt::sha3_512_digest(file_data.as_slice());
    let file_hash_hex = hex_string(file_hash.as_slice());

    let mut content_current = ContentMap::new();
    content_current.insert(String::from_str("file_hash"), file_hash_hex);
    proof {
        lemma_singleton_map_entries(
            content_current@,
            "file_hash"@,
            hex_chars_of(sha3_512(file_data@)),
        );
    }

    let content_hash_current = content_hash(&content_current);
    let metadata_hash_current = metadata_hash(api_domain.as_str(), time_stamp.as_str(), None);
    let verification_hash_current = verification_hash(
        &content_hash_current,
        &metadata_hash_current,
        None,
        None,
    );

    let revision = Revision {
        content: RevisionContent {
            file: Some(
                FileContent {
                    data: file_data,
                    filename: file_name.clone(),
                    size: file_size,
                    comment: String::new(),
                },
            ),
            content: content_current,
            content_hash: content_hash_current,
        },
        metadata: RevisionMetadata {
            domain_id: api_domain.clone(),
            time_stamp,
            previous_verification_hash: None,
            metadata_hash: metadata_hash_current,
            verification_hash: verification_hash_current.duplicate(),
        },
        signature: None,
        witness: None,
    };

    let genesis_hex = verification_hash_current.to_hex();
    let mut revisions: Vec<(HashValue, Revision)> = Vec::new();
    let ghost gpair = (verification_hash_current, revision);
    revisions.push((verification_hash_current, revision));
    let c = HashChain {
        genesis_hash: genesis_hex,
        domain_id: api_domain,
        title: file_name,
        namespace: 0,
        chain_height: 0,
        revisions,
    };
    proof {
        let revs = c.revisions@;
        assert(revs[0] == gpair);
        assert(entry_intact(revs, 0)) by {
            let rev = revs[0].1;
            assert(rev.content.content@[0].0 == "file_hash"@);
            assert(spec_contains_key(rev.content.content@, "file_hash"@));
            assert(crate::content::spec_key_index(rev.content.content@, "file_hash"@) == 0);
            assert(crate::content::seq_as_map(rev.content.content@)["file_hash"@]
                == hex_chars_of(sha3_512(file_data@)));
        }
    }
    c
}

/// Append a signed revision: copy the last revision's content, point at the
/// last revision's hash, attach the signature layer with its recomputed
/// signature hash, drop any witness, and re-derive the metadata and
/// verification hashes over the new layer.
pub fn sign_revision(
    chain: &mut HashChain,
    signature: Vec<u8>,
    public_key: Vec<u8>,
    wallet_address: String,
    time_stamp: String,
)
    requires
        old(chain).wf(),
        well_built(*old(chain)),
        signature@.len() == 65,
        public_key@.len() == 65,
    ensures
        final(chain).wf(),
        well_built(*final(chain)),
        final(chain).genesis_hash@ == old(chain).genesis_hash@,
        final(chain).domain_id@ == old(chain).domain_id@,
        final(chain).title@ == old(chain).title@,
        final(chain).namespace == old(chain).namespace,
        final(chain).chain_height == old(chain).chain_height,
        final(chain).revisions@.len() == old(chain).revisions@.len() + 1,
        final(chain).revisions@.subrange(0, old(chain).revisions@.len() as int) == old(
            chain,
        ).revisions@,
        ({
            let prev = old(chain).revisions@.last();
            let entry = final(chain).revisions@.last();
            let rev = entry.1;
            let sig_hash = spec_signature_hash(signature@, public_key@);
            let meta_hash = spec_metadata_hash(
                old(chain).domain_id@,
                time_stamp@,
                Some(prev.0@),
            );
            let ver_hash = spec_verification_hash(
                prev.1.content.content_hash@,
                meta_hash,
                Some(sig_hash),
                None,
            );
            &&& rev.content.content@ == prev.1.content.content@
            &&& rev.content.content_hash@ == prev.1.content.content_hash@
            &&& rev.metadata.domain_id@ == old(chain).domain_id@
            &&& rev.metadata.time_stamp@ == time_stamp@
            &&& rev.metadata.previous_verification_hash matches Some(p) && p@ == prev.0@
            &&& rev.metadata.metadata_hash@ == meta_hash
            &&& rev.metadata.verification_hash@ == ver_hash
            &&& entry.0@ == ver_hash
            &&& rev.witness is None
            &&& (rev.signature matches Some(s) && s.signature@ == signature@ && s.public_key@
                == public_key@ && s.wallet_address@ == wallet_address@ && s.signature_hash@
                == sig_hash)
        }),
{
    let last = chain.revisions.len() - 1;
    let (ver1, rev1) = &chain.revisions[last];

    let sig_hash = signature_hash(&signature, &public_key);
    let metadata_hash_current = metadata_hash(
        chain.domain_id.as_str(),
        time_stamp.as_str(),
        Some(ver1),
    );
    let verification_hash_current = verification_hash(
        &rev1.content.content_hash,
        &metadata_hash_current,
        Some(&sig_hash),
        None,
    );

    let rev2 = Revision {
        content: rev1.content.duplicate(),
        metadata: RevisionMetadata {
            domain_id: chain.domain_id.clone(),
            time_stamp,
            previous_verification_hash: Some(ver1.duplicate()),
            metadata_hash: metadata_hash_current,
            verification_hash: verification_hash_current.duplicate(),
        },
        signature: Some(
            RevisionSignature {
                signature,
                public_key,
                signature_hash: sig_hash,
                wallet_address,
            },
        ),
        witness: None,
    };
    let ghost new_entry = (verification_hash_current, rev2);
    chain.revisions.push((verification_hash_current, rev2));
    proof {
        assert(final(chain).revisions@.last() == new_entry);
        assert(final(chain).revisions@.subrange(0, old(chain).revisions@.len() as int) =~= old(
            chain,
        ).revisions@);
        let prev_i = old(chain).revisions@.len() - 1;
        assert(entry_intact(old(chain).revisions@, prev_i));
        assert(old(chain).revisions@.last() == old(chain).revisions@[prev_i]);
        assert forall|i: int| 0 <= i < final(chain).revisions@.len()
            implies #[trigger] entry_intact(final(chain).revisions@, i) by {
            if i < old(chain).revisions@.len() {
                assert(entry_intact(old(chain).revisions@, i));
                assert(final(chain).revisions@[i] == old(chain).revisions@[i]);
            } else {
                assert(final(chain).revisions@[i] == new_entry);
            }
        }
        assert forall|i: int| 1 <= i < final(chain).revisions@.len()
            implies #[trigger] entry_linked(final(chain).revisions@, i) by {
            if i < old(chain).revisions@.len() {
                assert(entry_linked(old(chain).revisions@, i));
                assert(final(chain).revisions@[i] == old(chain).revisions@[i]);
                assert(final(chain).revisions@[i - 1] == old(chain).revisions@[i - 1]);
            } else {
                assert(final(chain).revisions@[i] == new_entry);
                assert(final(chain).revisions@[i - 1] == old(chain).revisions@[i - 1]);
            }
        }
    }
}

/// Append a witnessed revision: copy the last revision's content, point at
/// the last revision's hash, and anchor the last revision's verification
/// hash in a one-node Merkle proof — the hash paired with the empty-input
/// digest, reducing to the claimed Merkle root — tied to the given
/// transaction; drop any signature, and re-derive the metadata and
/// verification hashes over the witness layer.
pub fn witness_revision(
    chain: &mut HashChain,
    witness_network: String,
    tx_hash: TxHash,
    time_stamp: String,
)
    requires
        old(chain).wf(),
        well_built(*old(chain)),
        tx_hash.wf(),
    ensures
        final(chain).wf(),
        well_built(*final(chain)),
        final(chain).genesis_hash@ == old(chain).genesis_hash@,
        final(chain).domain_id@ == old(chain).domain_id@,
        final(chain).title@ == old(chain).title@,
        final(chain).namespace == old(chain).namespace,
        final(chain).chain_height == old(chain).chain_height,
        final(chain).revisions@.len() == old(chain).revisions@.len() + 1,
        final(chain).revisions@.subrange(0, old(chain).revisions@.len() as int) == old(
            chain,
        ).revisions@,
        ({
            let prev = old(chain).revisions@.last();
            let entry = final(chain).revisions@.last();
            let rev = entry.1;
            let empty_hash = sha3_512(Seq::<u8>::empty());
            let leaf = prev.1.metadata.verification_hash@;
            let root = spec_merkle_successor(leaf, empty_hash);
            let wit_hash = spec_witness_hash(empty_hash, root, witness_network@, tx_hash@);
            let meta_hash = spec_metadata_hash(
                old(chain).domain_id@,
                time_stamp@,
                Some(prev.0@),
            );
            let ver_hash = spec_verification_hash(
                prev.1.content.content_hash@,
                meta_hash,
                None,
                Some(wit_hash),
            );
            &&& rev.content.content@ == prev.1.content.content@
            &&& rev.content.content_hash@ == prev.1.content.content_hash@
            &&& rev.metadata.domain_id@ == old(chain).domain_id@
            &&& rev.metadata.time_stamp@ == time_stamp@
            &&& rev.metadata.previous_verification_hash matches Some(p) && p@ == prev.0@
            &&& rev.metadata.metadata_hash@ == meta_hash
            &&& rev.metadata.verification_hash@ == ver_hash
            &&& entry.0@ == ver_hash
            &&& rev.signature is None
            &&& (rev.witness matches Some(w) && {
                &&& w.domain_snapshot_genesis_hash@ == empty_hash
                &&& w.merkle_root@ == root
                &&& w.witness_network@ == witness_network@
                &&& w.witness_event_transaction_hash@ == tx_hash@
                &&& w.witness_event_verification_hash@ == spec_merkle_successor(empty_hash, root)
                &&& w.witness_hash@ == wit_hash
                &&& w.structured_merkle_proof@.len() == 1
                &&& w.structured_merkle_proof@[0].left_leaf@ == leaf
                &&& w.structured_merkle_proof@[0].right_leaf@ == empty_hash
                &&& w.structured_merkle_proof@[0].successor@ == root
            })
        }),
{
    let last = chain.revisions.len() - 1;
    let (ver1, rev1) = &chain.revisions[last];

    let domain_snapshot_genesis_hash = make_empty_hash();
    let leaf = &rev1.metadata.verification_hash;
    let right = make_empty_hash();
    let merkle_root = merkle_successor(leaf, &right);

    let mut merkle_tree: Vec<MerkleNode> = Vec::new();
    merkle_tree.push(
        MerkleNode {
            left_leaf: leaf.duplicate(),
            right_leaf: right,
            successor: merkle_root.duplicate(),
        },
    );

    // The witness event binds the domain snapshot to the Merkle root by the
    // same pair hashing the tree itself uses.
    let witness_event_verification_hash = merkle_successor(
        &domain_snapshot_genesis_hash,
        &merkle_root,
    );
    let wit_hash = witness_hash(
        &domain_snapshot_genesis_hash,
        &merkle_root,
        witness_network.as_str(),
        &tx_hash,
    );

    let metadata_hash_current = metadata_hash(
        chain.domain_id.as_str(),
        time_stamp.as_str(),
        Some(ver1),
    );
    let verification_hash_current = verification_hash(
        &rev1.content.content_hash,
        &metadata_hash_current,
        None,
        Some(&wit_hash),
    );

    let rev2 = Revision {
        content: rev1.content.duplicate(),
        metadata: RevisionMetadata {
            domain_id: chain.domain_id.clone(),
            time_stamp,
            previous_verification_hash: Some(ver1.duplicate()),
            metadata_hash: metadata_hash_current,
            verification_hash: verification_hash_current.duplicate(),
        },
        signature: None,
        witness: Some(
            RevisionWitness {
                domain_snapshot_genesis_hash,
                merkle_root,
                witness_network,
                witness_event_transaction_hash: tx_hash,
                witness_event_verification_hash,
                witness_hash: wit_hash,
                structured_merkle_proof: merkle_tree,
            },
        ),
    };
    let ghost new_entry = (verification_hash_current, rev2);
    chain.revisions.push((verification_hash_current, rev2));
    proof {
        assert(final(chain).revisions@.last() == new_entry);
        assert(final(chain).revisions@.subrange(0, old(chain).revisions@.len() as int) =~= old(
            chain,
        ).revisions@);
        let prev_i = old(chain).revisions@.len() - 1;
        assert(entry_intact(old(chain).revisions@, prev_i));
        assert(old(chain).revisions@.last() == old(chain).revisions@[prev_i]);
        assert forall|i: int| 0 <= i < final(chain).revisions@.len()
            implies #[trigger] entry_intact(final(chain).revisions@, i) by {
            if i < old(chain).revisions@.len() {
                assert(entry_intact(old(chain).revisions@, i));
                assert(final(chain).revisions@[i] == old(chain).revisions@[i]);
            } else {
                assert(final(chain).revisions@[i] == new_entry);
            }
        }
        assert forall|i: int| 1 <= i < final(chain).revisions@.len()
            implies #[trigger] entry_linked(final(chain).revisions@, i) by {
            if i < old(chain).revisions@.len() {
                assert(entry_linked(old(chain).revisions@, i));
                assert(final(chain).revisions@[i] == old(chain).revisions@[i]);
                assert(final(chain).revisions@[i - 1] == old(chain).revisions@[i - 1]);
            } else {
                assert(final(chain).revisions@[i] == new_entry);
                assert(final(chain).revisions@[i - 1] == old(chain).revisions@[i - 1]);
            }
        }
    }
}

} // verus!
