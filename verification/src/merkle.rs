//! Balanced Merkle proofs and their round trip through the witness walk.
//!
//! A balanced proof lists, level by level, the sibling pairs obtained by
//! repeatedly hashing neighbours up to a single root. The law proved here:
//! the witness walk accepts every such proof — no duplicate is flagged, the
//! original leaves are covered, no value is left unconsumed, and the root
//! is matched — provided the values of the tree are pairwise distinct
//! (inputs on which the hash function collides are excluded).

use vstd::prelude::*;
use crate::model::RevisionWitness;
use crate::verification::spec_merkle_successor;
use crate::witness_check::merkle_step;
use crate::witness_check::merkle_walk;
use crate::witness_check::merkle_walk_init;
use crate::witness_check::proof_pairs;
use crate::witness_check::spec_witness_walk;
use crate::witness_check::MerkleWalkState;

verus! {

/// Walk some prefix of the sibling pairs from an arbitrary starting state.
pub open spec fn merkle_walk_from(
    pairs: Seq<(Seq<u8>, Seq<u8>)>,
    k: int,
    st: MerkleWalkState,
) -> MerkleWalkState
    decreases k,
{
    if k <= 0 {
        st
    } else {
        merkle_step(merkle_walk_from(pairs, k - 1, st), pairs[k - 1].0, pairs[k - 1].1)
    }
}

/// The plain walk is the walk from the seeded initial state.
pub proof fn lemma_walk_is_walk_from(pairs: Seq<(Seq<u8>, Seq<u8>)>, k: int, merkle_root: Seq<u8>)
    ensures
        merkle_walk(pairs, k, merkle_root) == merkle_walk_from(pairs, k, merkle_walk_init(merkle_root)),
    decreases k,
{
    if k > 0 {
        lemma_walk_is_walk_from(pairs, k - 1, merkle_root);
    }
}

/// Only the walked prefix matters.
proof fn lemma_walk_from_prefix(
    p1: Seq<(Seq<u8>, Seq<u8>)>,
    p2: Seq<(Seq<u8>, Seq<u8>)>,
    k: int,
    st: MerkleWalkState,
)
    requires
        0 <= k <= p1.len(),
        p2.len() >= k,
        forall|i: int| 0 <= i < k ==> p1[i] == p2[i],
    ensures
        merkle_walk_from(p1, k, st) == merkle_walk_from(p2, k, st),
    decreases k,
{
    if k > 0 {
        lemma_walk_from_prefix(p1, p2, k - 1, st);
    }
}

/// Walking a concatenation is walking the first part, then the second.
proof fn lemma_walk_from_concat(
    p1: Seq<(Seq<u8>, Seq<u8>)>,
    p2: Seq<(Seq<u8>, Seq<u8>)>,
    st: MerkleWalkState,
)
    ensures
        merkle_walk_from(p1 + p2, p1.len() + p2.len() as int, st) == merkle_walk_from(
            p2,
            p2.len() as int,
            merkle_walk_from(p1, p1.len() as int, st),
        ),
    decreases p2.len(),
{
    if p2.len() == 0 {
        assert(p1 + p2 =~= p1);
    } else {
        let front = p2.drop_last();
        assert(p1 + front =~= (p1 + p2).subrange(0, p1.len() + p2.len() - 1));
        lemma_walk_from_concat(p1, front, st);
        assert((p1 + p2)[p1.len() + p2.len() - 1] == p2[p2.len() - 1]);
        assert(forall|i: int|
            0 <= i < p1.len() + front.len() ==> (p1 + front)[i] == (p1 + p2)[i]);
        lemma_walk_from_prefix(p1 + front, p1 + p2, p1.len() + front.len() as int, st);
        assert(forall|i: int| 0 <= i < front.len() ==> front[i] == p2[i]);
        lemma_walk_from_prefix(front, p2, front.len() as int, merkle_walk_from(p1, p1.len() as int, st));
    }
}

/// Whether a value stands somewhere in a sequence of hash values.
pub open spec fn in_values(s: Seq<Seq<u8>>, v: Seq<u8>) -> bool {
    exists|i: int| #![auto] 0 <= i < s.len() && s[i] == v
}

/// All values of a sequence are pairwise distinct.
pub open spec fn distinct_seq(s: Seq<Seq<u8>>) -> bool {
    forall|i: int, j: int| #![trigger s[i], s[j]] 0 <= i < j < s.len() ==> s[i] != s[j]
}

/// The sibling pairs of one tree level.
pub open spec fn level_pairs(level: Seq<Seq<u8>>) -> Seq<(Seq<u8>, Seq<u8>)> {
    Seq::new(level.len() / 2, |i: int| (level[2 * i], level[2 * i + 1]))
}

/// The level above: each sibling pair hashed to its successor.
pub open spec fn next_level(level: Seq<Seq<u8>>) -> Seq<Seq<u8>> {
    Seq::new(level.len() / 2, |i: int| spec_merkle_successor(level[2 * i], level[2 * i + 1]))
}

/// The whole balanced proof over a level: its sibling pairs, then the
/// proof over the level above, up to a single value.
pub open spec fn balanced_pairs(level: Seq<Seq<u8>>) -> Seq<(Seq<u8>, Seq<u8>)>
    decreases level.len(),
{
    if level.len() < 2 {
        Seq::empty()
    } else {
        level_pairs(level) + balanced_pairs(next_level(level))
    }
}

/// The root a balanced reduction arrives at.
pub open spec fn tree_root(level: Seq<Seq<u8>>) -> Seq<u8>
    recommends
        level.len() >= 1,
    decreases level.len(),
{
    if level.len() <= 1 {
        level[0]
    } else {
        tree_root(next_level(level))
    }
}

/// Every value of the tree over a level, the level itself included.
pub open spec fn tree_values(level: Seq<Seq<u8>>) -> Set<Seq<u8>>
    decreases level.len(),
{
    if level.len() <= 1 {
        Set::new(|v: Seq<u8>| in_values(level, v))
    } else {
        Set::new(|v: Seq<u8>| in_values(level, v)).union(tree_values(next_level(level)))
    }
}

/// No value occurs twice anywhere in the tree: each level is duplicate-free
/// and disjoint from everything above it.
pub open spec fn tree_distinct(level: Seq<Seq<u8>>) -> bool
    decreases level.len(),
{
    if level.len() <= 1 {
        true
    } else {
        &&& distinct_seq(level)
        &&& (forall|v: Seq<u8>|
            in_values(level, v) ==> !#[trigger] tree_values(next_level(level)).contains(v))
        &&& tree_distinct(next_level(level))
    }
}

/// A power of two.
pub open spec fn is_pow2(n: int) -> bool
    decreases n,
{
    if n <= 0 {
        false
    } else if n == 1 {
        true
    } else {
        n % 2 == 0 && is_pow2(n / 2)
    }
}

/// A level's own values are tree values.
proof fn lemma_values_in_tree(level: Seq<Seq<u8>>, v: Seq<u8>)
    requires
        in_values(level, v),
    ensures
        tree_values(level).contains(v),
{
}

/// Walking one level's sibling pairs: with the level's leaves either all
/// fresh (the bottom level) or all among the free roots (a produced level),
/// and the successors new, no duplicate is flagged; the leaves settle into
/// the free leaves or move to matched, and each successor moves a matching
/// free leaf to matched or becomes a free root.
proof fn lemma_walk_level(level: Seq<Seq<u8>>, st0: MerkleWalkState, base: bool)
    requires
        level.len() % 2 == 0,
        distinct_seq(level),
        distinct_seq(next_level(level)),
        forall|v: Seq<u8>| #[trigger]
            in_values(level, v) ==> !st0.matched.contains(v) && (if base {
                !st0.free_leaves.contains(v) && !st0.free_roots.contains(v)
            } else {
                st0.free_roots.contains(v) && !st0.free_leaves.contains(v)
            }),
        forall|v: Seq<u8>| #[trigger]
            in_values(next_level(level), v) ==> !st0.free_roots.contains(v)
                && !st0.matched.contains(v) && !in_values(level, v),
        !st0.duplicate,
    ensures
        ({
            let st1 = merkle_walk_from(level_pairs(level), level.len() as int / 2, st0);
            let nl = next_level(level);
            &&& !st1.duplicate
            &&& (forall|v: Seq<u8>|
                #[trigger] st1.free_leaves.contains(v) <==> ((st0.free_leaves.contains(v)
                    && !in_values(nl, v)) || (base && in_values(level, v))))
            &&& (forall|v: Seq<u8>|
                #[trigger] st1.free_roots.contains(v) <==> ((st0.free_roots.contains(v)
                    && !in_values(level, v)) || (in_values(nl, v) && !st0.free_leaves.contains(
                    v,
                ))))
            &&& (forall|v: Seq<u8>|
                #[trigger] st1.matched.contains(v) <==> (st0.matched.contains(v) || (!base
                    && in_values(level, v)) || (in_values(nl, v) && st0.free_leaves.contains(v))))
        }),
    decreases level.len(),
{
    let nl = next_level(level);
    if level.len() == 0 {
        assert(merkle_walk_from(level_pairs(level), 0, st0) == st0);
        assert(forall|v: Seq<u8>| !in_values(level, v) && !in_values(nl, v));
    } else {
        let l = level[0];
        let r = level[1];
        let s0 = spec_merkle_successor(l, r);
        assert(in_values(level, l));
        assert(in_values(level, r));
        assert(nl[0] == s0);
        assert(in_values(nl, s0));
        let st_a = merkle_step(st0, l, r);

        let rest = level.skip(2);
        let nrest = next_level(rest);
        assert(rest.len() == level.len() - 2);
        assert(forall|i: int| 0 <= i < rest.len() ==> rest[i] == level[i + 2]);
        assert(nrest =~= nl.skip(1)) by {
            assert forall|i: int| 0 <= i < nrest.len() implies nrest[i] == nl[i + 1] by {
                assert(rest[2 * i] == level[2 * i + 2]);
                assert(rest[2 * i + 1] == level[2 * i + 3]);
            }
        }
        // Value membership decomposes over the first pair.
        assert forall|v: Seq<u8>| #[trigger]
            in_values(level, v) implies (v == l || v == r || in_values(rest, v)) by {
            let i = choose|i: int| #![auto] 0 <= i < level.len() && level[i] == v;
            if i >= 2 {
                assert(rest[i - 2] == v);
            }
        }
        assert(forall|v: Seq<u8>| #[trigger]
            in_values(rest, v) ==> in_values(level, v));
        assert forall|v: Seq<u8>| #[trigger]
            in_values(nl, v) implies (v == s0 || in_values(nrest, v)) by {
            let i = choose|i: int| #![auto] 0 <= i < nl.len() && nl[i] == v;
            if i >= 1 {
                assert(nrest[i - 1] == v);
            }
        }
        assert forall|v: Seq<u8>| #[trigger]
            in_values(nrest, v) implies in_values(nl, v) by {
            let i = choose|i: int| #![auto] 0 <= i < nrest.len() && nrest[i] == v;
            assert(nl[i + 1] == v);
        }
        // The first pair and its successor are distinct from the rest.
        assert(l != r);
        assert(!in_values(rest, l) && !in_values(rest, r)) by {
            if in_values(rest, l) {
                let i = choose|i: int| #![auto] 0 <= i < rest.len() && rest[i] == l;
                assert(level[i + 2] == l);
            }
            if in_values(rest, r) {
                let i = choose|i: int| #![auto] 0 <= i < rest.len() && rest[i] == r;
                assert(level[i + 2] == r);
            }
        }
        assert(!in_values(nrest, s0)) by {
            if in_values(nrest, s0) {
                let i = choose|i: int| #![auto] 0 <= i < nrest.len() && nrest[i] == s0;
                assert(nl[i + 1] == s0);
            }
        }
        assert(!in_values(level, s0));
        assert(!in_values(nl, l) && !in_values(nl, r));

        // Distinctness carries to the remaining level and its successors.
        assert(distinct_seq(rest)) by {
            assert forall|i: int, j: int|
                #![trigger rest[i], rest[j]]
                0 <= i < j < rest.len() implies rest[i] != rest[j] by {
                assert(rest[i] == level[i + 2] && rest[j] == level[j + 2]);
            }
        }
        assert(distinct_seq(nrest)) by {
            assert forall|i: int, j: int|
                #![trigger nrest[i], nrest[j]]
                0 <= i < j < nrest.len() implies nrest[i] != nrest[j] by {
                assert(nrest[i] == nl[i + 1] && nrest[j] == nl[j + 1]);
            }
        }

        lemma_walk_level(rest, st_a, base);

        // Chain the first step before the walk of the rest.
        let lp = level_pairs(level);
        assert(lp[0] == (l, r));
        assert(lp.drop_first() =~= level_pairs(rest)) by {
            assert forall|i: int| 0 <= i < lp.len() - 1 implies lp.drop_first()[i] == level_pairs(
                rest,
            )[i] by {
                assert(lp[i + 1] == (level[2 * i + 2], level[2 * i + 3]));
                assert(level_pairs(rest)[i] == (rest[2 * i], rest[2 * i + 1]));
                assert(rest[2 * i] == level[2 * i + 2] && rest[2 * i + 1] == level[2 * i + 3]);
            }
        }
        lemma_walk_from_shift(lp, level.len() as int / 2, st0);
        assert(merkle_walk_from(lp, level.len() as int / 2, st0) == merkle_walk_from(
            lp.drop_first(),
            level.len() / 2 - 1,
            st_a,
        ));
        lemma_walk_from_prefix(
            lp.drop_first(),
            level_pairs(rest),
            level.len() / 2 - 1,
            st_a,
        );
    }
}

/// Dropping the first pair and starting from the stepped state walks the
/// same way.
proof fn lemma_walk_from_shift(pairs: Seq<(Seq<u8>, Seq<u8>)>, k: int, st: MerkleWalkState)
    requires
        1 <= k <= pairs.len(),
    ensures
        merkle_walk_from(pairs, k, st) == merkle_walk_from(
            pairs.drop_first(),
            k - 1,
            merkle_step(st, pairs[0].0, pairs[0].1),
        ),
    decreases k,
{
    let st_a = merkle_step(st, pairs[0].0, pairs[0].1);
    if k == 1 {
        assert(merkle_walk_from(pairs, 0, st) == st);
        assert(merkle_walk_from(pairs.drop_first(), 0, st_a) == st_a);
    } else {
        lemma_walk_from_shift(pairs, k - 1, st);
        assert(pairs.drop_first()[k - 2] == pairs[k - 1]);
        assert(merkle_walk_from(pairs.drop_first(), k - 1, st_a) == merkle_step(
            merkle_walk_from(pairs.drop_first(), k - 2, st_a),
            pairs.drop_first()[k - 2].0,
            pairs.drop_first()[k - 2].1,
        ));
    }
}

/// Walking the balanced proof of a produced level — its values among the
/// free roots, the tree above it fresh but for the root waiting among the
/// free leaves — consumes exactly the level and everything above it into
/// matched, takes the root out of the free leaves, and flags nothing.
proof fn lemma_walk_balanced_upper(level: Seq<Seq<u8>>, st0: MerkleWalkState)
    requires
        level.len() >= 2,
        is_pow2(level.len() as int),
        tree_distinct(level),
        forall|v: Seq<u8>| #[trigger]
            in_values(level, v) ==> st0.free_roots.contains(v) && !st0.free_leaves.contains(v)
                && !st0.matched.contains(v),
        st0.free_leaves.contains(tree_root(level)),
        !st0.free_roots.contains(tree_root(level)),
        !st0.matched.contains(tree_root(level)),
        forall|v: Seq<u8>|
            #[trigger] tree_values(next_level(level)).contains(v) && v != tree_root(level)
                ==> !st0.free_leaves.contains(v) && !st0.free_roots.contains(v)
                && !st0.matched.contains(v),
        !st0.duplicate,
    ensures
        ({
            let st1 = merkle_walk_from(
                balanced_pairs(level),
                balanced_pairs(level).len() as int,
                st0,
            );
            &&& !st1.duplicate
            &&& (forall|v: Seq<u8>|
                #[trigger] st1.free_leaves.contains(v) <==> (st0.free_leaves.contains(v) && v
                    != tree_root(level)))
            &&& (forall|v: Seq<u8>|
                #[trigger] st1.free_roots.contains(v) <==> (st0.free_roots.contains(v)
                    && !in_values(level, v)))
            &&& (forall|v: Seq<u8>|
                #[trigger] st1.matched.contains(v) <==> (st0.matched.contains(v) || tree_values(
                    level,
                ).contains(v)))
        }),
    decreases level.len(),
{
    let nl = next_level(level);
    let root = tree_root(level);
    assert(root == tree_root(nl));
    assert(level.len() % 2 == 0);
    // The successors of this level are tree values of the level above.
    assert forall|v: Seq<u8>| #[trigger] in_values(nl, v) implies tree_values(nl).contains(v) by {
        lemma_values_in_tree(nl, v);
    }
    assert(distinct_seq(nl)) by {
        if nl.len() >= 2 {
            assert(tree_distinct(nl));
            assert(distinct_seq(nl) && tree_distinct(next_level(nl)));
        }
    }
    if level.len() == 2 {
        // One pair reduces straight to the root.
        assert(nl.len() == 1);
        assert(nl[0] == root);
        assert(in_values(nl, root));
        assert(balanced_pairs(nl) =~= Seq::<(Seq<u8>, Seq<u8>)>::empty());
        assert(balanced_pairs(level) =~= level_pairs(level));
        lemma_walk_level(level, st0, false);
        let st1 = merkle_walk_from(level_pairs(level), 1int, st0);
        assert forall|v: Seq<u8>| #[trigger]
            st1.matched.contains(v) <==> (st0.matched.contains(v) || tree_values(level).contains(
            v,
        )) by {
            if in_values(nl, v) {
                assert(v == root);
            }
            if tree_values(level).contains(v) {
                if in_values(level, v) {
                } else {
                    assert(tree_values(nl).contains(v));
                    assert(v == root);
                }
            }
        }
        assert(merkle_walk_from(balanced_pairs(level), balanced_pairs(level).len() as int, st0)
            == st1);
    } else {
        // Process this level's pairs, then recurse on the level above.
        assert(nl.len() >= 2);
        assert(is_pow2(nl.len() as int));
        assert(tree_distinct(nl));
        // The root lives strictly above the next level.
        assert(tree_values(next_level(nl)).contains(root)) by {
            lemma_tree_root_in_upper(nl);
        }
        assert(!in_values(nl, root)) by {
            if in_values(nl, root) {
                assert(!tree_values(next_level(nl)).contains(root));
            }
        }
        lemma_walk_level(level, st0, false);
        let st_mid = merkle_walk_from(level_pairs(level), level.len() as int / 2, st0);
        assert forall|v: Seq<u8>| #[trigger]
            in_values(nl, v) implies st_mid.free_roots.contains(v) && !st_mid.free_leaves.contains(
            v,
        ) && !st_mid.matched.contains(v) by {
            assert(tree_values(nl).contains(v));
            assert(v != root ==> !st0.free_leaves.contains(v));
            if v == root {
                assert(false);
            }
        }
        assert(st_mid.free_leaves.contains(root));
        assert(!st_mid.free_roots.contains(root));
        assert(!st_mid.matched.contains(root));
        assert forall|v: Seq<u8>|
            #[trigger] tree_values(next_level(nl)).contains(v) && v != root
                implies !st_mid.free_leaves.contains(v) && !st_mid.free_roots.contains(v)
                && !st_mid.matched.contains(v) by {
            assert(tree_values(nl).contains(v));
            assert(!in_values(level, v));
            if in_values(nl, v) {
                assert(!tree_values(next_level(nl)).contains(v));
            }
        }
        lemma_walk_balanced_upper(nl, st_mid);
        // Chain the two walks.
        lemma_walk_from_concat(level_pairs(level), balanced_pairs(nl), st0);
        assert(balanced_pairs(level) == level_pairs(level) + balanced_pairs(nl));
        let st1 = merkle_walk_from(balanced_pairs(level), balanced_pairs(level).len() as int, st0);
        let st2 = merkle_walk_from(balanced_pairs(nl), balanced_pairs(nl).len() as int, st_mid);
        assert(st1 == st2);
        assert forall|v: Seq<u8>| #[trigger]
            st1.matched.contains(v) <==> (st0.matched.contains(v) || tree_values(level).contains(
            v,
        )) by {
            if tree_values(level).contains(v) && !in_values(level, v) {
                assert(tree_values(nl).contains(v));
            }
            if st2.matched.contains(v) && !st_mid.matched.contains(v) {
                assert(tree_values(nl).contains(v));
            }
        }
    }
}

/// The root of a tree of two or more values lies strictly above its base
/// level.
proof fn lemma_tree_root_in_upper(level: Seq<Seq<u8>>)
    requires
        level.len() >= 2,
        is_pow2(level.len() as int),
    ensures
        tree_values(next_level(level)).contains(tree_root(level)),
    decreases level.len(),
{
    let nl = next_level(level);
    assert(tree_root(level) == tree_root(nl));
    if nl.len() == 1 {
        assert(tree_root(nl) == nl[0]);
        assert(in_values(nl, nl[0]));
        assert(tree_values(nl).contains(nl[0]));
    } else {
        lemma_tree_root_in_upper(nl);
        assert(tree_values(nl) == Set::new(|v: Seq<u8>| in_values(nl, v)).union(
            tree_values(next_level(nl)),
        ));
        assert(tree_values(nl).contains(tree_root(nl)));
    }
}

/// Merkle proof round-trip: walking the balanced proof built by repeatedly
/// hashing sibling pairs up to a root — from the checker's initial state,
/// seeded with that root — flags no duplicate, keeps every original leaf
/// among the free leaves, consumes every produced value, and matches the
/// root; so the witness checker returns an empty flag set for a witness
/// carrying such a proof whose stored witness hash is intact and whose
/// anchored verification hash is one of the leaves. Holds whenever the
/// tree's values are pairwise distinct (inputs on which the hash function
/// collides are excluded).
pub proof fn lemma_balanced_proof_round_trip(leaves: Seq<Seq<u8>>)
    requires
        leaves.len() >= 2,
        is_pow2(leaves.len() as int),
        tree_distinct(leaves),
    ensures
        ({
            let st = merkle_walk(
                balanced_pairs(leaves),
                balanced_pairs(leaves).len() as int,
                tree_root(leaves),
            );
            &&& !st.duplicate
            &&& (forall|v: Seq<u8>| #[trigger] in_values(leaves, v) ==> st.free_leaves.contains(v))
            &&& st.free_roots == Set::<Seq<u8>>::empty()
            &&& st.matched.contains(tree_root(leaves))
        }),
{
    let root = tree_root(leaves);
    let nl = next_level(leaves);
    let init = merkle_walk_init(root);
    lemma_walk_is_walk_from(balanced_pairs(leaves), balanced_pairs(leaves).len() as int, root);
    lemma_tree_root_in_upper(leaves);
    assert(!in_values(leaves, root)) by {
        if in_values(leaves, root) {
            assert(!tree_values(nl).contains(root));
        }
    }
    assert(distinct_seq(nl)) by {
        if nl.len() >= 2 {
            assert(tree_distinct(nl));
            assert(distinct_seq(nl) && tree_distinct(next_level(nl)));
        }
    }
    assert forall|v: Seq<u8>| #[trigger] in_values(nl, v) implies tree_values(nl).contains(v) by {
        lemma_values_in_tree(nl, v);
    }
    assert(init.free_leaves.contains(root));
    lemma_walk_level(leaves, init, true);
    let st_mid = merkle_walk_from(level_pairs(leaves), leaves.len() as int / 2, init);
    if leaves.len() == 2 {
        assert(nl.len() == 1);
        assert(nl[0] == root);
        assert(balanced_pairs(nl) =~= Seq::<(Seq<u8>, Seq<u8>)>::empty());
        assert(balanced_pairs(leaves) =~= level_pairs(leaves));
        let st = merkle_walk_from(balanced_pairs(leaves), balanced_pairs(leaves).len() as int, init);
        assert(st == st_mid);
        assert(st.free_roots =~= Set::<Seq<u8>>::empty()) by {
            assert forall|v: Seq<u8>| !(#[trigger] st.free_roots.contains(v)) by {
                if in_values(nl, v) {
                    assert(v == root);
                }
            }
        }
        assert(st.matched.contains(root)) by {
            assert(in_values(nl, root));
        }
    } else {
        assert(nl.len() >= 2);
        assert(tree_values(next_level(nl)).contains(root)) by {
            lemma_tree_root_in_upper(nl);
        }
        assert(!in_values(nl, root)) by {
            if in_values(nl, root) {
                assert(tree_distinct(nl));
                assert(!tree_values(next_level(nl)).contains(root));
            }
        }
        assert forall|v: Seq<u8>| #[trigger]
            in_values(nl, v) implies st_mid.free_roots.contains(v) && !st_mid.free_leaves.contains(
            v,
        ) && !st_mid.matched.contains(v) by {
            assert(tree_values(nl).contains(v));
            assert(!in_values(leaves, v));
            assert(v != root);
        }
        assert(st_mid.free_leaves.contains(root));
        assert(!st_mid.free_roots.contains(root));
        assert(!st_mid.matched.contains(root));
        assert(tree_distinct(nl));
        assert forall|v: Seq<u8>|
            #[trigger] tree_values(next_level(nl)).contains(v) && v != root
                implies !st_mid.free_leaves.contains(v) && !st_mid.free_roots.contains(v)
                && !st_mid.matched.contains(v) by {
            assert(tree_values(nl).contains(v));
            assert(!in_values(leaves, v));
            if in_values(nl, v) {
                assert(!tree_values(next_level(nl)).contains(v));
            }
        }
        lemma_walk_balanced_upper(nl, st_mid);
        lemma_walk_from_concat(level_pairs(leaves), balanced_pairs(nl), init);
        assert(balanced_pairs(leaves) == level_pairs(leaves) + balanced_pairs(nl));
        let st = merkle_walk_from(balanced_pairs(leaves), balanced_pairs(leaves).len() as int, init);
        assert(st == merkle_walk_from(balanced_pairs(nl), balanced_pairs(nl).len() as int, st_mid));
        assert forall|v: Seq<u8>| #[trigger] in_values(leaves, v) implies st.free_leaves.contains(
            v,
        ) by {
            assert(st_mid.free_leaves.contains(v));
            assert(v != root);
        }
        assert(st.free_roots =~= Set::<Seq<u8>>::empty()) by {
            assert forall|v: Seq<u8>| !(#[trigger] st.free_roots.contains(v)) by {
                if st.free_roots.contains(v) {
                    assert(st_mid.free_roots.contains(v) && !in_values(nl, v));
                    assert(in_values(nl, v));
                }
            }
        }
        assert(st.matched.contains(root)) by {
            lemma_values_in_tree(nl, nl[0]);
            assert(tree_values(nl).contains(root));
        }
    }
}

/// The round trip at the witness level: a witness whose structured proof
/// lists a balanced reduction of distinct values, whose claimed Merkle root
/// is that reduction's top, and which anchors one of the original leaves,
/// walks to a state the checker raises no structural flag for.
pub proof fn lemma_witness_balanced_round_trip(
    w: RevisionWitness,
    prev_verification_hash: Seq<u8>,
    leaves: Seq<Seq<u8>>,
)
    requires
        leaves.len() >= 2,
        is_pow2(leaves.len() as int),
        tree_distinct(leaves),
        proof_pairs(w.structured_merkle_proof@) == balanced_pairs(leaves),
        w.merkle_root@ == tree_root(leaves),
        in_values(leaves, prev_verification_hash),
    ensures
        ({
            let st = spec_witness_walk(w);
            &&& !st.duplicate
            &&& st.free_leaves.contains(prev_verification_hash)
            &&& st.free_roots == Set::<Seq<u8>>::empty()
            &&& st.matched.contains(w.merkle_root@)
        }),
{
    lemma_balanced_proof_round_trip(leaves);
    assert(w.structured_merkle_proof@.len() == balanced_pairs(leaves).len());
}

} // verus!
