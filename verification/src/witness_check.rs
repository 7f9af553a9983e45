//! The witness integrity check: reconstructs a Merkle tree from the
//! structured proof, walking its nodes with three sets of hash values —
//! free leaves (seeded with the claimed Merkle root), free roots, and
//! matched — and confirms the proof reduces to one root, covers the
//! previous revision's verification hash, and consumes every value exactly
//! once; then recomputes the witness hash.

use vstd::prelude::*;
use crate::content::compare_bytes;
use crate::content::KeyOrder;
use crate::hashes::HashValue;
use crate::integrity::RevisionIntegritySet;
use crate::model::MerkleNode;
use crate::model::Revision;
use crate::model::RevisionWitness;
use crate::verification::spec_merkle_successor;
use crate::verification::spec_witness_hash;
use crate::verification::merkle_successor;
use crate::verification::witness_hash;

verus! {

/// A scratch set of hash values, with set semantics: an element is held at
/// most once.
struct DigestSet {
    items: Vec<Vec<u8>>,
}

impl View for DigestSet {
    type V = Set<Seq<u8>>;

    closed spec fn view(&self) -> Set<Seq<u8>> {
        Set::new(
            |s: Seq<u8>|
                exists|i: int| #![auto] 0 <= i < self.items@.len() && self.items@[i]@ == s,
        )
    }
}

impl DigestSet {
    spec fn wf(&self) -> bool {
        forall|i: int, j: int|
            #![trigger self.items@[i], self.items@[j]]
            0 <= i < j < self.items@.len() ==> self.items@[i]@ != self.items@[j]@
    }

    fn new() -> (r: DigestSet)
        ensures
            r@ == Set::<Seq<u8>>::empty(),
            r.wf(),
    {
        let r = DigestSet { items: Vec::new() };
        proof {
            assert(r@ =~= Set::<Seq<u8>>::empty());
        }
        r
    }

    fn contains(&self, x: &[u8]) -> (r: bool)
        ensures
            r == self@.contains(x@),
    {
        let n = self.items.len();
        let mut i: usize = 0;
        while i < n
            invariant
                i <= n,
                n == self.items@.len(),
                forall|j: int| #![auto] 0 <= j < i ==> self.items@[j]@ != x@,
            decreases n - i,
        {
            if matches!(compare_bytes(self.items[i].as_slice(), x), KeyOrder::Equal) {
                return true;
            }
            i = i + 1;
        }
        false
    }

    fn is_empty(&self) -> (r: bool)
        ensures
            r == (self@ == Set::<Seq<u8>>::empty()),
    {
        let r = self.items.is_empty();
        proof {
            if r {
                assert(self@ =~= Set::<Seq<u8>>::empty());
            } else {
                assert(self@.contains(self.items@[0]@));
            }
        }
        r
    }

    fn insert(&mut self, x: Vec<u8>)
        requires
            old(self).wf(),
        ensures
            final(self).wf(),
            final(self)@ == old(self)@.insert(x@),
    {
        if self.contains(x.as_slice()) {
            proof {
                assert(self@ =~= old(self)@.insert(x@));
            }
            return ;
        }
        self.items.push(x);
        proof {
            assert forall|s: Seq<u8>|
                final(self)@.contains(s) <==> old(self)@.insert(x@).contains(s) by {
                if final(self)@.contains(s) {
                    let i = choose|i: int|
                        #![auto]
                        0 <= i < self.items@.len() && self.items@[i]@ == s;
                    if i < self.items@.len() - 1 {
                        assert(old(self).items@[i]@ == s);
                    }
                }
                if old(self)@.contains(s) {
                    let i = choose|i: int|
                        #![auto]
                        0 <= i < old(self).items@.len() && old(self).items@[i]@ == s;
                    assert(self.items@[i]@ == s);
                }
                if s == x@ {
                    assert(self.items@[self.items@.len() - 1]@ == s);
                }
            }
            assert(final(self)@ =~= old(self)@.insert(x@));
            assert forall|i: int, j: int|
                #![trigger self.items@[i], self.items@[j]]
                0 <= i < j < self.items@.len() implies self.items@[i]@ != self.items@[j]@ by {
                if j < self.items@.len() - 1 {
                    assert(old(self).items@[i]@ != old(self).items@[j]@);
                } else {
                    assert(self.items@[i]@ == old(self).items@[i]@);
                    assert(!old(self)@.contains(x@));
                    assert(old(self).items@[i]@ != x@);
                }
            }
        }
    }

    fn remove(&mut self, x: &[u8]) -> (r: bool)
        requires
            old(self).wf(),
        ensures
            final(self).wf(),
            r == old(self)@.contains(x@),
            final(self)@ == old(self)@.remove(x@),
    {
        let n = self.items.len();
        let mut i: usize = 0;
        while i < n
            invariant
                i <= n,
                n == self.items@.len(),
                self.items@ == old(self).items@,
                old(self).wf(),
                forall|j: int| #![auto] 0 <= j < i ==> self.items@[j]@ != x@,
            decreases n - i,
        {
            if matches!(compare_bytes(self.items[i].as_slice(), x), KeyOrder::Equal) {
                self.items.remove(i);
                proof {
                    assert(old(self)@.contains(x@));
                    assert forall|s: Seq<u8>|
                        final(self)@.contains(s) <==> old(self)@.remove(x@).contains(s) by {
                        if final(self)@.contains(s) {
                            let j = choose|j: int|
                                #![auto]
                                0 <= j < self.items@.len() && self.items@[j]@ == s;
                            if j < i as int {
                                assert(old(self).items@[j]@ == s);
                                assert(s != x@);
                            } else {
                                assert(old(self).items@[j + 1]@ == s);
                                assert(s != x@);
                            }
                            assert(old(self)@.contains(s));
                        }
                        if old(self)@.contains(s) && s != x@ {
                            let j = choose|j: int|
                                #![auto]
                                0 <= j < old(self).items@.len() && old(self).items@[j]@ == s;
                            assert(j != i as int);
                            if j < i as int {
                                assert(self.items@[j]@ == s);
                            } else {
                                assert(self.items@[j - 1]@ == s);
                            }
                        }
                    }
                    assert(final(self)@ =~= old(self)@.remove(x@));
                    assert forall|p: int, q: int|
                        #![trigger self.items@[p], self.items@[q]]
                        0 <= p < q < self.items@.len() implies self.items@[p]@ != self.items@[q]@ by {
                        let p2: int = if p < i as int {
                            p
                        } else {
                            p + 1
                        };
                        let q2: int = if q < i as int {
                            q
                        } else {
                            q + 1
                        };
                        assert(self.items@[p]@ == old(self).items@[p2]@);
                        assert(self.items@[q]@ == old(self).items@[q2]@);
                    }
                }
                return true;
            }
            i = i + 1;
        }
        proof {
            assert(!old(self)@.contains(x@));
            assert(final(self)@ =~= old(self)@.remove(x@));
        }
        false
    }
}

/// The state of the Merkle reconstruction after some prefix of the proof:
/// the free leaves (values produced as inputs, seeded with the claimed
/// root), the free roots (computed successors not yet consumed), the
/// matched values (consumed exactly once), and whether a duplicate was seen.
pub struct MerkleWalkState {
    pub free_leaves: Set<Seq<u8>>,
    pub free_roots: Set<Seq<u8>>,
    pub matched: Set<Seq<u8>>,
    pub duplicate: bool,
}

/// The walk's starting state: the claimed Merkle root is the one expected
/// leaf.
pub open spec fn merkle_walk_init(merkle_root: Seq<u8>) -> MerkleWalkState {
    MerkleWalkState {
        free_leaves: Set::<Seq<u8>>::empty().insert(merkle_root),
        free_roots: Set::<Seq<u8>>::empty(),
        matched: Set::<Seq<u8>>::empty(),
        duplicate: false,
    }
}

/// One step of the walk over a sibling pair: a leaf already produced is a
/// duplicate; each leaf moves from the free roots into matched or becomes a
/// free leaf; the computed successor must be new, and moves from the free
/// leaves into matched or becomes a free root.
pub open spec fn merkle_step(st: MerkleWalkState, left: Seq<u8>, right: Seq<u8>) -> MerkleWalkState {
    let dup_leaf = st.matched.contains(left) || st.free_leaves.contains(left)
        || st.matched.contains(right) || st.free_leaves.contains(right);
    let st1 = if st.free_roots.contains(left) {
        MerkleWalkState {
            free_roots: st.free_roots.remove(left),
            matched: st.matched.insert(left),
            ..st
        }
    } else {
        MerkleWalkState { free_leaves: st.free_leaves.insert(left), ..st }
    };
    let st2 = if st1.free_roots.contains(right) {
        MerkleWalkState {
            free_roots: st1.free_roots.remove(right),
            matched: st1.matched.insert(right),
            ..st1
        }
    } else {
        MerkleWalkState { free_leaves: st1.free_leaves.insert(right), ..st1 }
    };
    let succ = spec_merkle_successor(left, right);
    let dup_succ = st2.matched.contains(succ) || st2.free_roots.contains(succ);
    let st3 = if st2.free_leaves.contains(succ) {
        MerkleWalkState {
            free_leaves: st2.free_leaves.remove(succ),
            matched: st2.matched.insert(succ),
            ..st2
        }
    } else {
        MerkleWalkState { free_roots: st2.free_roots.insert(succ), ..st2 }
    };
    MerkleWalkState { duplicate: st.duplicate || dup_leaf || dup_succ, ..st3 }
}

/// The sibling pairs of a structured proof.
pub open spec fn proof_pairs(proof: Seq<MerkleNode>) -> Seq<(Seq<u8>, Seq<u8>)> {
    Seq::new(proof.len(), |i: int| (proof[i].left_leaf@, proof[i].right_leaf@))
}

/// The walk's state after the first `k` sibling pairs.
pub open spec fn merkle_walk(
    pairs: Seq<(Seq<u8>, Seq<u8>)>,
    k: int,
    merkle_root: Seq<u8>,
) -> MerkleWalkState
    decreases k,
{
    if k <= 0 {
        merkle_walk_init(merkle_root)
    } else {
        merkle_step(merkle_walk(pairs, k - 1, merkle_root), pairs[k - 1].0, pairs[k - 1].1)
    }
}

/// The walk's final state for a witness's whole structured proof.
pub open spec fn spec_witness_walk(w: RevisionWitness) -> MerkleWalkState {
    merkle_walk(
        proof_pairs(w.structured_merkle_proof@),
        w.structured_merkle_proof@.len() as int,
        w.merkle_root@,
    )
}

/// Once the walk has seen a duplicate, every later state keeps the flag.
pub proof fn lemma_walk_duplicate_monotone(
    pairs: Seq<(Seq<u8>, Seq<u8>)>,
    k1: int,
    k2: int,
    merkle_root: Seq<u8>,
)
    requires
        0 <= k1 <= k2,
        merkle_walk(pairs, k1, merkle_root).duplicate,
    ensures
        merkle_walk(pairs, k2, merkle_root).duplicate,
    decreases k2 - k1,
{
    if k2 > k1 {
        lemma_walk_duplicate_monotone(pairs, k1, k2 - 1, merkle_root);
    }
}

/// A value a node once produced as a leaf stays among the free leaves or
/// the matched values for the rest of the walk.
pub proof fn lemma_walk_consumed_monotone(
    pairs: Seq<(Seq<u8>, Seq<u8>)>,
    k1: int,
    k2: int,
    merkle_root: Seq<u8>,
    v: Seq<u8>,
)
    requires
        0 <= k1 <= k2,
        merkle_walk(pairs, k1, merkle_root).free_leaves.contains(v) || merkle_walk(
            pairs,
            k1,
            merkle_root,
        ).matched.contains(v),
    ensures
        merkle_walk(pairs, k2, merkle_root).free_leaves.contains(v) || merkle_walk(
            pairs,
            k2,
            merkle_root,
        ).matched.contains(v),
    decreases k2 - k1,
{
    if k2 > k1 {
        lemma_walk_consumed_monotone(pairs, k1, k2 - 1, merkle_root, v);
    }
}

/// Whether a value stands in a leaf slot of the proof's node at a position.
pub open spec fn is_leaf_at(pairs: Seq<(Seq<u8>, Seq<u8>)>, i: int, v: Seq<u8>) -> bool {
    0 <= i < pairs.len() && (pairs[i].0 == v || pairs[i].1 == v)
}

/// Tamper detection for Merkle proofs: a value standing in leaf slots of
/// two distinct nodes is consumed twice, and the walk ends with the
/// duplicate flag raised — so the witness checker reports
/// `DuplicateMerkleLeaf` for any proof with a repeated leaf.
pub proof fn lemma_duplicate_leaf_detected(
    pairs: Seq<(Seq<u8>, Seq<u8>)>,
    merkle_root: Seq<u8>,
    i: int,
    j: int,
    v: Seq<u8>,
)
    requires
        is_leaf_at(pairs, i, v),
        is_leaf_at(pairs, j, v),
        i < j,
    ensures
        merkle_walk(pairs, pairs.len() as int, merkle_root).duplicate,
{
    // After node i, the value is among the free leaves or matched…
    let st_after_i = merkle_walk(pairs, i + 1, merkle_root);
    assert(st_after_i.free_leaves.contains(v) || st_after_i.matched.contains(v));
    // …and stays there up to node j, whose leaf check then flags it.
    lemma_walk_consumed_monotone(pairs, i + 1, j, merkle_root, v);
    let st_j = merkle_walk(pairs, j + 1, merkle_root);
    assert(st_j.duplicate);
    lemma_walk_duplicate_monotone(pairs, j + 1, pairs.len() as int, merkle_root);
}

/// Merkle proof round-trip for a one-node proof, the shape the append path
/// builds: a proof whose single node pairs a leaf with a padding value and
/// whose claimed root is their computed successor walks to a clean final
/// state — the leaf is covered, nothing is left unconsumed, and the root is
/// matched — provided the three values are pairwise distinct (inputs on
/// which the hash function collides are excluded).
pub proof fn lemma_single_node_round_trip(left: Seq<u8>, right: Seq<u8>, merkle_root: Seq<u8>)
    requires
        merkle_root == spec_merkle_successor(left, right),
        merkle_root != left,
        merkle_root != right,
        left != right,
    ensures
        ({
            let st = merkle_walk(seq![(left, right)], 1, merkle_root);
            &&& !st.duplicate
            &&& st.free_leaves.contains(left)
            &&& st.free_roots == Set::<Seq<u8>>::empty()
            &&& st.matched.contains(merkle_root)
        }),
{
    let pairs = seq![(left, right)];
    let init = merkle_walk_init(merkle_root);
    assert(pairs[0] == (left, right));
    assert(merkle_walk(pairs, 0, merkle_root) == init);
    assert(merkle_walk(pairs, 1, merkle_root) == merkle_step(init, left, right));
    assert(!init.free_leaves.contains(left));
    assert(!init.free_leaves.contains(right));
    assert(init.free_leaves.insert(left).insert(right).contains(
        spec_merkle_successor(left, right),
    ));
}

/// Check the witness layer of one revision: `no_witness` when the layer is
/// absent, `no_prev_revision` when there is nothing to anchor; otherwise
/// walk the structured proof and flag duplicates, a previous verification
/// hash the tree does not cover, a proof that does not reduce to the
/// claimed root, and a stored witness hash differing from its
/// recomputation. The empty set means the witness layer is fully valid.
pub fn only_witness_hash_integrity(rev: &Revision, prev: Option<&Revision>) -> (r:
    RevisionIntegritySet)
    requires
        rev.wf(),
    ensures
        r.no_witness == (rev.witness is None),
        r.no_prev_revision == (rev.witness is Some && prev is None),
        (match (rev.witness, prev) {
            (Some(w), Some(p)) => {
                let st = spec_witness_walk(w);
                &&& r.duplicate_merkle_leaf == st.duplicate
                &&& r.verification_hash_not_in_merkle_tree == !st.free_leaves.contains(
                    p.metadata.verification_hash@,
                )
                &&& r.merkle_tree_incomplete == (st.free_roots != Set::<Seq<u8>>::empty()
                    || !st.matched.contains(w.merkle_root@))
                &&& r.witness_hash_not_matching == (spec_witness_hash(
                    w.domain_snapshot_genesis_hash@,
                    w.merkle_root@,
                    w.witness_network@,
                    w.witness_event_transaction_hash@,
                ) != w.witness_hash@)
            },
            _ => r.duplicate_merkle_leaf == false && r.verification_hash_not_in_merkle_tree == false
                && r.merkle_tree_incomplete == false && r.witness_hash_not_matching == false,
        }),
        r.prev_verification_hash_not_matching == false && r.no_file == false
            && r.file_hash_not_matching == false && r.content_hash_not_matching == false
            && r.metadata_hash_not_matching == false && r.verification_hash_not_matching == false
            && r.no_signature == false && r.signature_error == false && r.public_key_not_matching
            == false && r.signature_hash_not_matching == false,
{
    let mut integrity = RevisionIntegritySet::empty();

    let witness = match &rev.witness {
        Some(w) => w,
        None => {
            integrity.no_witness = true;
            return integrity;
        },
    };
    let prev_hash = match prev {
        Some(p) => &p.metadata.verification_hash,
        None => {
            integrity.no_prev_revision = true;
            return integrity;
        },
    };

    let ghost pairs = proof_pairs(witness.structured_merkle_proof@);
    let ghost root = witness.merkle_root@;

    // Free leaves, seeded with the claimed Merkle root.
    let mut a = DigestSet::new();
    a.insert(witness.merkle_root.to_vec());
    // Free roots.
    let mut b = DigestSet::new();
    // Matched.
    let mut c = DigestSet::new();

    let n = witness.structured_merkle_proof.len();
    let mut i: usize = 0;
    while i < n
        invariant
            i <= n,
            n == witness.structured_merkle_proof@.len(),
            pairs == proof_pairs(witness.structured_merkle_proof@),
            root == witness.merkle_root@,
            a.wf() && b.wf() && c.wf(),
            a@ == merkle_walk(pairs, i as int, root).free_leaves,
            b@ == merkle_walk(pairs, i as int, root).free_roots,
            c@ == merkle_walk(pairs, i as int, root).matched,
            integrity.duplicate_merkle_leaf == merkle_walk(pairs, i as int, root).duplicate,
            integrity == (RevisionIntegritySet {
                duplicate_merkle_leaf: integrity.duplicate_merkle_leaf,
                ..RevisionIntegritySet::spec_empty()
            }),
        decreases n - i,
    {
        let node = &witness.structured_merkle_proof[i];
        let ghost st = merkle_walk(pairs, i as int, root);
        proof {
            assert(pairs[i as int] == (node.left_leaf@, node.right_leaf@));
        }

        // A leaf already produced by an earlier node, or equal to the
        // expected root, is consumed twice.
        if c.contains(node.left_leaf.as_bytes()) || a.contains(node.left_leaf.as_bytes()) {
            integrity.duplicate_merkle_leaf = true;
        }
        if c.contains(node.right_leaf.as_bytes()) || a.contains(node.right_leaf.as_bytes()) {
            integrity.duplicate_merkle_leaf = true;
        }

        // Each leaf was either produced earlier (a free root, now matched)
        // or is a new input (a free leaf).
        if b.remove(node.left_leaf.as_bytes()) {
            c.insert(node.left_leaf.to_vec());
        } else {
            a.insert(node.left_leaf.to_vec());
        }
        if b.remove(node.right_leaf.as_bytes()) {
            c.insert(node.right_leaf.to_vec());
        } else {
            a.insert(node.right_leaf.to_vec());
        }

        // The computed successor must be new; it either matches a
        // pre-declared free leaf or accumulates upward as a free root.
        let succ = merkle_successor(&node.left_leaf, &node.right_leaf);
        if c.contains(succ.as_bytes()) || b.contains(succ.as_bytes()) {
            integrity.duplicate_merkle_leaf = true;
        }
        if a.remove(succ.as_bytes()) {
            c.insert(succ.into_bytes());
        } else {
            b.insert(succ.into_bytes());
        }

        proof {
            let st_next = merkle_walk(pairs, i as int + 1, root);
            assert(st_next == merkle_step(st, node.left_leaf@, node.right_leaf@));
        }
        i = i + 1;
    }

    // The previous revision's verification hash must be covered by the tree.
    if !a.contains(prev_hash.as_bytes()) {
        integrity.verification_hash_not_in_merkle_tree = true;
    }
    // Every produced value must be consumed, and the claimed root must have
    // been computed.
    if !b.is_empty() {
        integrity.merkle_tree_incomplete = true;
    }
    if !c.contains(witness.merkle_root.as_bytes()) {
        integrity.merkle_tree_incomplete = true;
    }

    // The witness hash must match its recomputation from the stored fields.
    let computed = witness_hash(
        &witness.domain_snapshot_genesis_hash,
        &witness.merkle_root,
        witness.witness_network.as_str(),
        &witness.witness_event_transaction_hash,
    );
    if !computed.equals(&witness.witness_hash) {
        integrity.witness_hash_not_matching = true;
    }

    integrity
}

} // verus!
