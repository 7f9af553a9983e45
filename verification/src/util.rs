//! The chain and genesis validator: walks a chain's revisions, recomputes
//! content hashes, and confirms a single, reachable genesis, reporting a
//! pass/fail verdict with a human-readable reason naming the offending hash
//! or structural defect.

use vstd::prelude::*;
use vstd::string::StringExecFns;
use crate::content::ContentMap;
use crate::content::lemma_sorted_map_determined;
use crate::content::sorted_by_key;
use crate::content::seq_as_map;
use crate::crypt::sha3_512;
use crate::crypt::sha3_512_digest;
use crate::hashes::hex_chars_of;
use crate::hashes::hex_string;
use crate::hashes::HashValue;
use crate::model::HashChain;
use crate::model::Revision;
use crate::model::RevisionContent;
use crate::verification::spec_content_hash;
use crate::verification::content_hash;

verus! {

/// Whether the revision at a given position is a genesis candidate: one
/// without a previous-hash pointer.
pub open spec fn is_genesis_candidate(revs: Seq<(HashValue, Revision)>, i: int) -> bool {
    0 <= i < revs.len() && revs[i].1.metadata.previous_verification_hash is None
}

/// Whether exactly one revision is a genesis candidate.
pub open spec fn unique_genesis(revs: Seq<(HashValue, Revision)>) -> bool {
    &&& exists|i: int| is_genesis_candidate(revs, i)
    &&& forall|i: int, j: int|
        is_genesis_candidate(revs, i) && is_genesis_candidate(revs, j) ==> i == j
}

/// Whether the revision at a given position stores the content hash its
/// content map recomputes to.
pub open spec fn content_ok(revs: Seq<(HashValue, Revision)>, i: int) -> bool {
    spec_content_hash(revs[i].1.content.content@) == revs[i].1.content.content_hash@
}

/// Every revision of the sequence is well-formed.
pub open spec fn revisions_wf(revs: Seq<(HashValue, Revision)>) -> bool {
    forall|i: int| 0 <= i < revs.len() ==> (#[trigger] revs[i]).0.wf() && revs[i].1.wf()
}

/// Scan a chain's revisions for its genesis: the hash of the one revision
/// without a previous-hash pointer. `None` when the sequence is too short
/// to cross-link, when no revision qualifies, or when more than one does
/// (an ambiguous or headless chain).
pub fn revsions_has_valid_genesis(revisions: &Vec<(HashValue, Revision)>) -> (r: Option<HashValue>)
    requires
        revisions_wf(revisions@),
    ensures
        (r is Some) == (revisions@.len() > 1 && unique_genesis(revisions@)),
        (match r {
            Some(h) => h.wf() && exists|i: int|
                is_genesis_candidate(revisions@, i) && h@ == revisions@[
                    i
                ].1.metadata.verification_hash@,
            None => true,
        }),
{
    let n = revisions.len();
    if n <= 1 {
        return None;
    }
    let mut count: usize = 0;
    let mut first_idx: usize = 0;
    let mut second_idx: usize = 0;
    let mut i: usize = 0;
    while i < n
        invariant
            i <= n,
            n == revisions@.len(),
            count <= i,
            count == 0 ==> forall|j: int| 0 <= j < i ==> !is_genesis_candidate(revisions@, j),
            count == 1 ==> is_genesis_candidate(revisions@, first_idx as int) && first_idx < i
                && forall|j: int|
                0 <= j < i && j != first_idx ==> !is_genesis_candidate(revisions@, j),
            count >= 2 ==> is_genesis_candidate(revisions@, first_idx as int)
                && is_genesis_candidate(revisions@, second_idx as int) && first_idx != second_idx,
        decreases n - i,
    {
        if revisions[i].1.metadata.previous_verification_hash.is_none() {
            if count == 0 {
                first_idx = i;
            } else if count == 1 {
                second_idx = i;
            }
            count = count + 1;
        }
        i = i + 1;
    }
    if count == 1 {
        Some(revisions[first_idx].1.metadata.verification_hash.duplicate())
    } else {
        None
    }
}

/// Whether some revision of the sequence is keyed by the given hash.
fn hashes_contain(revisions: &Vec<(HashValue, Revision)>, h: &HashValue) -> (r: bool)
    ensures
        r == exists|j: int| #![auto] 0 <= j < revisions@.len() && revisions@[j].0@ == h@,
{
    let n = revisions.len();
    let mut i: usize = 0;
    while i < n
        invariant
            i <= n,
            n == revisions@.len(),
            forall|j: int| #![auto] 0 <= j < i ==> revisions@[j].0@ != h@,
        decreases n - i,
    {
        if revisions[i].0.equals(h) {
            return true;
        }
        i = i + 1;
    }
    false
}

/// Validate a chain's revisions: a sequence of at most one revision has
/// nothing to cross-link and passes trivially; otherwise the chain must
/// hold exactly one genesis, and every revision's stored content hash must
/// equal its recomputation from the stored content map. On failure the
/// reason names the defect — the missing or ambiguous genesis, or the first
/// offending revision's key hash.
pub fn check_if_page_data_revision_are_okay(revisions: &Vec<(HashValue, Revision)>) -> (r: (
    bool,
    String,
))
    requires
        revisions_wf(revisions@),
    ensures
        revisions@.len() <= 1 ==> r.0 && r.1@ == Seq::<char>::empty(),
        revisions@.len() > 1 && !unique_genesis(revisions@) ==> !r.0 && r.1@
            == "revisions do not contain a valid genesis"@,
        revisions@.len() > 1 && unique_genesis(revisions@) ==> {
            &&& r.0 == forall|i: int|
                0 <= i < revisions@.len() ==> #[trigger] content_ok(revisions@, i)
            &&& (r.0 ==> r.1@ == Seq::<char>::empty())
            &&& (!r.0 ==> exists|i: int|
                #![auto]
                0 <= i < revisions@.len() && !content_ok(revisions@, i) && (forall|j: int|
                    0 <= j < i ==> content_ok(revisions@, j)) && r.1@ == "a hash is not valid : "@
                    + hex_chars_of(revisions@[i].0@))
        },
{
    let n = revisions.len();
    if n <= 1 {
        return (true, String::new());
    }
    let genesis = match revsions_has_valid_genesis(revisions) {
        Some(g) => g,
        None => {
            return (false, String::from_str("revisions do not contain a valid genesis"));
        },
    };

    let mut i: usize = 0;
    while i < n
        invariant
            i <= n,
            n == revisions@.len(),
            n > 1,
            unique_genesis(revisions@),
            revisions_wf(revisions@),
            forall|j: int| 0 <= j < i ==> #[trigger] content_ok(revisions@, j),
        decreases n - i,
    {
        let (current_hash, current_revision) = &revisions[i];

        // Recompute the content hash from the stored content map.
        let recomputed = content_hash(&current_revision.content.content);
        if !recomputed.equals(&current_revision.content.content_hash) {
            let mut msg = String::from_str("a hash is not valid : ");
            let hx = current_hash.to_hex();
            msg.append(hx.as_str());
            proof {
                assert(!content_ok(revisions@, i as int));
                assert(msg@ == "a hash is not valid : "@ + hex_chars_of(revisions@[i as int].0@));
            }
            return (false, msg);
        }

        // Every non-genesis revision's own hash must be present among the
        // chain's hashes: no orphaned revision spliced in.
        if !current_hash.equals(&genesis) {
            if !hashes_contain(revisions, current_hash) {
                proof {
                    assert(revisions@[i as int].0@ == current_hash@);
                }
                return (false, String::from_str("Hash chain is invalid "));
            }
        }
        i = i + 1;
    }
    (true, String::new())
}

/// Recompute a revision's content hash from its file alone: hash the raw
/// file bytes, place the digest's hex form under the `file_hash` key of a
/// fresh content map, and hash that map. A revision without a file cannot
/// be recomputed this way and is reported as an error.
pub fn compute_content_hash(content_par: &RevisionContent) -> (r: Result<HashValue, String>)
    ensures
        (match r {
            Ok(h) => content_par.file is Some && h.wf() && h@ == spec_content_hash(
                seq![
                    ("file_hash"@, hex_chars_of(sha3_512(content_par.file->Some_0.data@))),
                ],
            ),
            Err(e) => content_par.file is None && e@ == "revision content has no file"@,
        }),
{
    let file = match &content_par.file {
        Some(f) => f,
        None => {
            return Err(String::from_str("revision content has no file"));
        },
    };
    let digest = sha3_512_digest(file.data.as_slice());
    let file_hash_hex = hex_string(digest.as_slice());

    let mut content_current = ContentMap::new();
    content_current.insert(String::from_str("file_hash"), file_hash_hex);

    proof {
        let witness = seq![("file_hash"@, hex_chars_of(sha3_512(file.data@)))];
        assert(sorted_by_key(witness));
        let m1 = content_current.as_map();
        let m2 = seq_as_map(witness);
        assert(witness[0].0 == "file_hash"@);
        assert forall|x: Seq<char>| m2.dom().contains(x) <==> m1.dom().contains(x) by {
            if crate::content::spec_contains_key(witness, x) {
                assert(witness[0].0 == x);
            }
        }
        assert forall|x: Seq<char>| m1.dom().contains(x) implies m1[x] == m2[x] by {
            assert(x == "file_hash"@);
            assert(crate::content::spec_key_index(witness, x) == 0);
        }
        assert(m1 =~= m2);
        lemma_sorted_map_determined(content_current@, witness);
    }
    Ok(content_hash(&content_current))
}

/// The digest of the empty input: the placeholder hash the witness layer
/// uses for a missing domain snapshot and for padding a sibling pair.
pub fn make_empty_hash() -> (h: HashValue)
    ensures
        h@ == sha3_512(Seq::<u8>::empty()),
        h.wf(),
{
    let empty: Vec<u8> = Vec::new();
    let digest = sha3_512_digest(empty.as_slice());
    HashValue::from_digest(digest)
}

/// Verify an externally supplied chain before trusting it: a chain of
/// several revisions goes through the chain validator; a single revision's
/// content hash is checked against its recomputation from the file (a
/// revision whose file is absent cannot be recomputed and is let through);
/// an empty chain is rejected.
pub fn verify_page_data(chain: &HashChain) -> (r: (bool, String))
    requires
        chain.wf(),
    ensures
        chain.revisions@.len() == 0 ==> !r.0 && r.1@ == "no revisions found"@,
        chain.revisions@.len() > 1 ==> {
            &&& (chain.revisions@.len() > 1 && !unique_genesis(chain.revisions@) ==> !r.0 && r.1@
                == "revisions do not contain a valid genesis"@)
            &&& (unique_genesis(chain.revisions@) ==> r.0 == forall|i: int|
                0 <= i < chain.revisions@.len() ==> #[trigger] content_ok(chain.revisions@, i))
        },
        chain.revisions@.len() == 1 ==> {
            let rev = chain.revisions@[0].1;
            match rev.content.file {
                Some(f) => r.0 == (spec_content_hash(
                    seq![("file_hash"@, hex_chars_of(sha3_512(f.data@)))],
                ) == rev.content.content_hash@),
                None => r.0,
            }
        },
{
    let n = chain.revisions.len();
    if n == 0 {
        return (false, String::from_str("no revisions found"));
    }
    if n > 1 {
        return check_if_page_data_revision_are_okay(&chain.revisions);
    }
    let (_verification_hash, revision) = &chain.revisions[0];
    match compute_content_hash(&revision.content) {
        Ok(recomputed) => {
            if recomputed.equals(&revision.content.content_hash) {
                (true, String::new())
            } else {
                let mut msg = String::from_str("a hash is not valid : ");
                let hx = revision.content.content_hash.to_hex();
                msg.append(hx.as_str());
                (false, msg)
            }
        },
        Err(_) => (true, String::new()),
    }
}

} // verus!
