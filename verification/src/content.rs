//! The ordered key/value map a revision's content is hashed over.
//!
//! Iteration order is key order (byte-wise lexicographic on the UTF-8 form,
//! the order a B-tree map over strings iterates in), not insertion order;
//! this ordering is load-bearing for hash determinism. The map's entry
//! sequence is fully determined by the key→value pairs it holds, so two
//! maps built by inserting the same pairs in any order hash identically.

use vstd::prelude::*;
use vstd::string::StrSliceExecFns;
use vstd::utf8::encode_utf8;
use vstd::utf8::encode_utf8_decode_utf8;

verus! {

/// Strict byte-wise lexicographic order.
pub open spec fn lex_lt(a: Seq<u8>, b: Seq<u8>) -> bool
    decreases a.len(),
{
    if b.len() == 0 {
        false
    } else if a.len() == 0 {
        true
    } else if a.first() < b.first() {
        true
    } else if a.first() > b.first() {
        false
    } else {
        lex_lt(a.drop_first(), b.drop_first())
    }
}

pub proof fn lemma_lex_lt_irreflexive(a: Seq<u8>)
    ensures
        !lex_lt(a, a),
    decreases a.len(),
{
    if a.len() > 0 {
        lemma_lex_lt_irreflexive(a.drop_first());
    }
}

pub proof fn lemma_lex_lt_asymmetric(a: Seq<u8>, b: Seq<u8>)
    ensures
        !(lex_lt(a, b) && lex_lt(b, a)),
    decreases a.len(),
{
    if a.len() > 0 && b.len() > 0 && a.first() == b.first() {
        lemma_lex_lt_asymmetric(a.drop_first(), b.drop_first());
    }
}

pub proof fn lemma_lex_lt_transitive(a: Seq<u8>, b: Seq<u8>, c: Seq<u8>)
    requires
        lex_lt(a, b),
        lex_lt(b, c),
    ensures
        lex_lt(a, c),
    decreases a.len(),
{
    if a.len() > 0 && b.len() > 0 && c.len() > 0 && a.first() == b.first() && b.first()
        == c.first() {
        lemma_lex_lt_transitive(a.drop_first(), b.drop_first(), c.drop_first());
    }
}

/// Three-way outcome of a byte comparison.
#[derive(Clone, Copy, Debug, PartialEq, Eq, Structural)]
pub enum KeyOrder {
    Less,
    Equal,
    Greater,
}

/// Compare two byte slices in lexicographic order.
pub fn compare_bytes(a: &[u8], b: &[u8]) -> (r: KeyOrder)
    ensures
        (r == KeyOrder::Less) <==> lex_lt(a@, b@),
        (r == KeyOrder::Equal) <==> a@ == b@,
        (r == KeyOrder::Greater) <==> lex_lt(b@, a@),
{
    let a_len: usize = a.len();
    let b_len: usize = b.len();
    let mut i: usize = 0;
    proof {
        assert(a@.skip(0) =~= a@);
        assert(b@.skip(0) =~= b@);
    }
    while i < a_len && i < b_len
        invariant
            i <= a_len && i <= b_len,
            a_len == a@.len() && b_len == b@.len(),
            lex_lt(a@, b@) == lex_lt(a@.skip(i as int), b@.skip(i as int)),
            lex_lt(b@, a@) == lex_lt(b@.skip(i as int), a@.skip(i as int)),
            a@.subrange(0, i as int) =~= b@.subrange(0, i as int),
        decreases a_len - i,
    {
        let x = a[i];
        let y = b[i];
        proof {
            assert(a@.skip(i as int).first() == a@[i as int]);
            assert(b@.skip(i as int).first() == b@[i as int]);
        }
        if x < y {
            proof {
                if a@ == b@ {
                    assert(a@[i as int] == b@[i as int]);
                }
            }
            return KeyOrder::Less;
        }
        if x > y {
            proof {
                if a@ == b@ {
                    assert(a@[i as int] == b@[i as int]);
                }
            }
            return KeyOrder::Greater;
        }
        proof {
            assert(a@.skip(i as int).drop_first() =~= a@.skip(i as int + 1));
            assert(b@.skip(i as int).drop_first() =~= b@.skip(i as int + 1));
            assert(a@.subrange(0, i as int + 1) =~= a@.subrange(0, i as int).push(a@[i as int]));
            assert(b@.subrange(0, i as int + 1) =~= b@.subrange(0, i as int).push(b@[i as int]));
        }
        i = i + 1;
    }
    proof {
        if a@.len() == b@.len() {
            assert(a@.subrange(0, a@.len() as int) =~= a@);
            assert(b@.subrange(0, b@.len() as int) =~= b@);
        }
    }
    if a_len < b_len {
        proof {
            assert(a@.skip(i as int).len() == 0);
            assert(b@.skip(i as int).len() > 0);
            if a@ == b@ {
                assert(a@.len() == b@.len());
            }
        }
        KeyOrder::Less
    } else if a_len > b_len {
        proof {
            assert(b@.skip(i as int).len() == 0);
            assert(a@.skip(i as int).len() > 0);
            if a@ == b@ {
                assert(a@.len() == b@.len());
            }
        }
        KeyOrder::Greater
    } else {
        proof {
            assert(a@ =~= b@);
            lemma_lex_lt_irreflexive(a@);
        }
        KeyOrder::Equal
    }
}

/// Whether the entry sequence holds a given key.
pub open spec fn spec_contains_key(s: Seq<(Seq<char>, Seq<char>)>, k: Seq<char>) -> bool {
    exists|i: int| #![auto] 0 <= i < s.len() && s[i].0 == k
}

/// The index of a given key in the entry sequence.
pub open spec fn spec_key_index(s: Seq<(Seq<char>, Seq<char>)>, k: Seq<char>) -> int {
    choose|i: int| #![auto] 0 <= i < s.len() && s[i].0 == k
}

/// The key→value mapping an entry sequence denotes.
pub open spec fn seq_as_map(s: Seq<(Seq<char>, Seq<char>)>) -> Map<Seq<char>, Seq<char>> {
    Map::new(|k: Seq<char>| spec_contains_key(s, k), |k: Seq<char>| s[spec_key_index(s, k)].1)
}

/// Entries stand in strictly increasing key order (so keys are unique).
pub open spec fn sorted_by_key(s: Seq<(Seq<char>, Seq<char>)>) -> bool {
    forall|i: int, j: int|
        #![trigger s[i].0, s[j].0]
        0 <= i < j < s.len() ==> lex_lt(encode_utf8(s[i].0), encode_utf8(s[j].0))
}

/// In a sorted entry sequence all keys are distinct.
pub proof fn lemma_sorted_keys_unique(s: Seq<(Seq<char>, Seq<char>)>)
    requires
        sorted_by_key(s),
    ensures
        forall|i: int, j: int|
            #![trigger s[i].0, s[j].0]
            0 <= i < s.len() && 0 <= j < s.len() && i != j ==> s[i].0 != s[j].0,
{
    assert forall|i: int, j: int|
        #![trigger s[i].0, s[j].0]
        0 <= i < s.len() && 0 <= j < s.len() && i != j implies s[i].0 != s[j].0 by {
        if s[i].0 == s[j].0 {
            if i < j {
                lemma_lex_lt_irreflexive(encode_utf8(s[i].0));
            } else {
                lemma_lex_lt_irreflexive(encode_utf8(s[j].0));
            }
        }
    }
}

/// An ordered mapping from string key to string value: the content of a
/// revision, iterated in key order for hashing.
#[derive(Debug)]
pub struct ContentMap {
    entries: Vec<(String, String)>,
}

impl View for ContentMap {
    type V = Seq<(Seq<char>, Seq<char>)>;

    closed spec fn view(&self) -> Seq<(Seq<char>, Seq<char>)> {
        Seq::new(self.entries@.len(), |i: int| (self.entries@[i].0@, self.entries@[i].1@))
    }
}

impl ContentMap {
    /// A well-formed content map keeps its entries in strict key order.
    pub open spec fn wf(&self) -> bool {
        sorted_by_key(self@)
    }

    /// The key→value mapping this content denotes.
    pub open spec fn as_map(&self) -> Map<Seq<char>, Seq<char>> {
        seq_as_map(self@)
    }

    pub fn new() -> (r: ContentMap)
        ensures
            r@ == Seq::<(Seq<char>, Seq<char>)>::empty(),
            r.wf(),
            r.as_map() == Map::<Seq<char>, Seq<char>>::empty(),
    {
        let r = ContentMap { entries: Vec::new() };
        proof {
            assert(r@ =~= Seq::<(Seq<char>, Seq<char>)>::empty());
            assert(r.as_map() =~= Map::<Seq<char>, Seq<char>>::empty());
        }
        r
    }

    pub fn len(&self) -> (n: usize)
        ensures
            n == self@.len(),
    {
        self.entries.len()
    }

    pub fn key_at(&self, i: usize) -> (k: &String)
        requires
            i < self@.len(),
        ensures
            k@ == self@[i as int].0,
    {
        &self.entries[i].0
    }

    pub fn value_at(&self, i: usize) -> (v: &String)
        requires
            i < self@.len(),
        ensures
            v@ == self@[i as int].1,
    {
        &self.entries[i].1
    }

    /// Look a key up; `Some` exactly when the key is present, with the value
    /// the map holds for it.
    pub fn get(&self, key: &str) -> (r: Option<&String>)
        requires
            self.wf(),
        ensures
            match r {
                Some(v) => spec_contains_key(self@, key@) && v@ == self.as_map()[key@],
                None => !spec_contains_key(self@, key@),
            },
    {
        let n = self.entries.len();
        let mut i: usize = 0;
        while i < n
            invariant
                self.wf(),
                i <= n,
                n == self@.len(),
                forall|j: int| #![auto] 0 <= j < i ==> self@[j].0 != key@,
            decreases n - i,
        {
            let cmp = compare_bytes(self.entries[i].0.as_str().as_bytes(), key.as_bytes());
            proof {
                if self.entries@[i as int].0@ == key@ {
                    assert(encode_utf8(self@[i as int].0) == encode_utf8(key@));
                }
                if encode_utf8(self@[i as int].0) == encode_utf8(key@) {
                    encode_utf8_decode_utf8(self@[i as int].0);
                    encode_utf8_decode_utf8(key@);
                }
            }
            if matches!(cmp, KeyOrder::Equal) {
                proof {
                    lemma_sorted_keys_unique(self@);
                    assert(spec_contains_key(self@, key@));
                    let w = spec_key_index(self@, key@);
                    assert(0 <= w < self@.len() && self@[w].0 == key@);
                    assert(w == i as int);
                }
                return Some(&self.entries[i].1);
            }
            i = i + 1;
        }
        None
    }

    pub fn contains_key(&self, key: &str) -> (r: bool)
        requires
            self.wf(),
        ensures
            r == spec_contains_key(self@, key@),
    {
        match self.get(key) {
            Some(_) => true,
            None => false,
        }
    }

    /// Insert a key/value pair, replacing the value if the key is present,
    /// keeping entries in key order.
    pub fn insert(&mut self, key: String, value: String)
        requires
            old(self).wf(),
        ensures
            final(self).wf(),
            final(self).as_map() == old(self).as_map().insert(key@, value@),
    {
        let kb = key.as_str().as_bytes_vec();
        let ghost kseq = key@;
        let ghost vseq = value@;
        let ghost gpair = (key, value);
        let ghost oldv = self@;
        let n = self.entries.len();
        let mut i: usize = 0;
        while i < n
            invariant
                self.wf(),
                self@ == oldv,
                self.entries@ == old(self).entries@,
                kb@ == encode_utf8(kseq),
                gpair == (key, value),
                kseq == key@ && vseq == value@,
                i <= n,
                n == self@.len(),
                forall|j: int| #![auto] 0 <= j < i ==> lex_lt(encode_utf8(self@[j].0), kb@),
            decreases n - i,
        {
            let cmp = compare_bytes(kb.as_slice(), self.entries[i].0.as_str().as_bytes());
            match cmp {
                KeyOrder::Less => {
                    self.entries.insert(i, (key, value));
                    proof {
                        let newv = oldv.insert(i as int, (kseq, vseq));
                        old(self).entries@.insert_ensures(i as int, gpair);
                        oldv.insert_ensures(i as int, (kseq, vseq));
                        assert(self.entries@ == old(self).entries@.insert(i as int, gpair));
                        assert forall|j: int| 0 <= j < self@.len() implies self@[j] == newv[j] by {
                            if j < i as int {
                                assert(self.entries@[j] == old(self).entries@[j]);
                                assert(newv[j] == oldv[j]);
                            } else if j == i as int {
                                assert(self.entries@[j] == gpair);
                            } else {
                                assert(self.entries@[j] == old(self).entries@[j - 1]);
                                assert(newv[j] == oldv[j - 1]);
                            }
                        }
                        assert(self@ =~= newv);
                        Self::lemma_insert_at(oldv, self@, i as int, kseq, vseq);
                    }
                    return ;
                },
                KeyOrder::Equal => {
                    proof {
                        encode_utf8_decode_utf8(kseq);
                        encode_utf8_decode_utf8(oldv[i as int].0);
                        assert(oldv[i as int].0 == kseq);
                    }
                    self.entries.remove(i);
                    self.entries.insert(i, (key, value));
                    proof {
                        let newv = oldv.update(i as int, (kseq, vseq));
                        assert forall|j: int| 0 <= j < self@.len() implies self@[j] == newv[j] by {
                            if j < i as int {
                                assert(self.entries@[j] == old(self).entries@[j]);
                            } else if j == i as int {
                                assert(self.entries@[j].0@ == kseq);
                                assert(self.entries@[j].1@ == vseq);
                            } else {
                                assert(self.entries@[j] == old(self).entries@[j]);
                            }
                        }
                        assert(self@ =~= newv);
                        Self::lemma_replace_at(oldv, self@, i as int, kseq, vseq);
                    }
                    return ;
                },
                KeyOrder::Greater => {
                    i = i + 1;
                },
            }
        }
        self.entries.push((key, value));
        proof {
            let newv = oldv.insert(n as int, (kseq, vseq));
            oldv.insert_ensures(n as int, (kseq, vseq));
            assert(self.entries@ == old(self).entries@.push(gpair));
            assert forall|j: int| 0 <= j < self@.len() implies self@[j] == newv[j] by {
                if j < n as int {
                    assert(self.entries@[j] == old(self).entries@[j]);
                    assert(newv[j] == oldv[j]);
                } else {
                    assert(self.entries@[j] == gpair);
                    assert(newv[j] == (kseq, vseq));
                }
            }
            assert(self@ =~= newv);
            Self::lemma_insert_at(oldv, self@, n as int, kseq, vseq);
        }
    }

    /// The new entry sequence after inserting a fresh key at position `i`
    /// denotes the old mapping plus that pair, and stays sorted.
    proof fn lemma_insert_at(
        oldv: Seq<(Seq<char>, Seq<char>)>,
        newv: Seq<(Seq<char>, Seq<char>)>,
        i: int,
        k: Seq<char>,
        v: Seq<char>,
    )
        requires
            sorted_by_key(oldv),
            0 <= i <= oldv.len(),
            newv =~= oldv.insert(i, (k, v)),
            forall|j: int| #![auto] 0 <= j < i ==> lex_lt(encode_utf8(oldv[j].0), encode_utf8(k)),
            i < oldv.len() ==> lex_lt(encode_utf8(k), encode_utf8(oldv[i].0)),
        ensures
            sorted_by_key(newv),
            seq_as_map(newv) == seq_as_map(oldv).insert(k, v),
    {
        assert forall|p: int, q: int|
            #![trigger newv[p].0, newv[q].0]
            0 <= p < q < newv.len() implies lex_lt(encode_utf8(newv[p].0), encode_utf8(newv[q].0)) by {
            if p < i && q < i {
                assert(newv[p] == oldv[p] && newv[q] == oldv[q]);
            } else if p < i && q == i {
                assert(newv[p] == oldv[p]);
            } else if p < i && q > i {
                assert(newv[p] == oldv[p] && newv[q] == oldv[q - 1]);
            } else if p == i && q > i {
                assert(newv[q] == oldv[q - 1]);
                if q - 1 > i {
                    lemma_lex_lt_transitive(
                        encode_utf8(k),
                        encode_utf8(oldv[i].0),
                        encode_utf8(oldv[q - 1].0),
                    );
                } else {
                    assert(q - 1 == i);
                }
            } else {
                assert(p > i && q > i);
                assert(newv[p] == oldv[p - 1] && newv[q] == oldv[q - 1]);
            }
        }
        lemma_sorted_keys_unique(oldv);
        lemma_sorted_keys_unique(newv);
        let m1 = seq_as_map(newv);
        let m2 = seq_as_map(oldv).insert(k, v);
        assert forall|x: Seq<char>| m1.dom().contains(x) <==> m2.dom().contains(x) by {
            if spec_contains_key(newv, x) {
                let j = spec_key_index(newv, x);
                assert(0 <= j < newv.len() && newv[j].0 == x);
                if j < i {
                    assert(newv[j] == oldv[j]);
                    assert(spec_contains_key(oldv, x));
                } else if j == i {
                    assert(x == k);
                } else {
                    assert(newv[j] == oldv[j - 1]);
                    assert(spec_contains_key(oldv, x));
                }
            }
            if x == k {
                assert(newv[i].0 == k);
                assert(spec_contains_key(newv, x));
            } else if spec_contains_key(oldv, x) {
                let j = spec_key_index(oldv, x);
                assert(0 <= j < oldv.len() && oldv[j].0 == x);
                if j < i {
                    assert(newv[j] == oldv[j]);
                    assert(spec_contains_key(newv, x));
                } else {
                    assert(newv[j + 1] == oldv[j]);
                    assert(spec_contains_key(newv, x));
                }
            }
        }
        assert forall|x: Seq<char>| m1.dom().contains(x) implies m1[x] == m2[x] by {
            let j = spec_key_index(newv, x);
            assert(0 <= j < newv.len() && newv[j].0 == x);
            if x == k {
                assert(newv[i].0 == k);
                assert(j == i);
                assert(m1[x] == v);
            } else {
                assert(j != i);
                if j < i {
                    assert(newv[j] == oldv[j]);
                    let j2 = spec_key_index(oldv, x);
                    assert(oldv[j2].0 == x);
                    assert(j2 == j);
                    assert(m2[x] == oldv[j].1);
                } else {
                    assert(newv[j] == oldv[j - 1]);
                    let j2 = spec_key_index(oldv, x);
                    assert(oldv[j2].0 == x);
                    assert(j2 == j - 1);
                    assert(m2[x] == oldv[j - 1].1);
                }
            }
        }
        assert(m1 =~= m2);
    }

    /// The new entry sequence after replacing the value at an existing key
    /// denotes the old mapping with that value overwritten.
    proof fn lemma_replace_at(
        oldv: Seq<(Seq<char>, Seq<char>)>,
        newv: Seq<(Seq<char>, Seq<char>)>,
        i: int,
        k: Seq<char>,
        v: Seq<char>,
    )
        requires
            sorted_by_key(oldv),
            0 <= i < oldv.len(),
            oldv[i].0 == k,
            newv =~= oldv.update(i, (k, v)),
        ensures
            sorted_by_key(newv),
            seq_as_map(newv) == seq_as_map(oldv).insert(k, v),
    {
        assert forall|p: int, q: int|
            #![trigger newv[p].0, newv[q].0]
            0 <= p < q < newv.len() implies lex_lt(encode_utf8(newv[p].0), encode_utf8(newv[q].0)) by {
            assert(newv[p].0 == oldv[p].0 && newv[q].0 == oldv[q].0);
        }
        lemma_sorted_keys_unique(oldv);
        lemma_sorted_keys_unique(newv);
        let m1 = seq_as_map(newv);
        let m2 = seq_as_map(oldv).insert(k, v);
        assert forall|x: Seq<char>| m1.dom().contains(x) <==> m2.dom().contains(x) by {
            if spec_contains_key(newv, x) {
                let j = spec_key_index(newv, x);
                assert(newv[j].0 == oldv[j].0);
                assert(spec_contains_key(oldv, x));
            }
            if spec_contains_key(oldv, x) {
                let j = spec_key_index(oldv, x);
                assert(newv[j].0 == oldv[j].0);
                assert(spec_contains_key(newv, x));
            }
        }
        assert forall|x: Seq<char>| m1.dom().contains(x) implies m1[x] == m2[x] by {
            let j = spec_key_index(newv, x);
            assert(0 <= j < newv.len() && newv[j].0 == x);
            if x == k {
                assert(j == i);
                assert(m1[x] == v);
            } else {
                assert(j != i);
                assert(newv[j] == oldv[j]);
                let j2 = spec_key_index(oldv, x);
                assert(j2 == j);
                assert(m2[x] == oldv[j].1);
            }
        }
        assert(m1 =~= m2);
    }

    /// Copy a content map.
    pub fn duplicate(&self) -> (r: ContentMap)
        ensures
            r@ == self@,
    {
        let n = self.entries.len();
        let mut entries: Vec<(String, String)> = Vec::new();
        let mut i: usize = 0;
        while i < n
            invariant
                i <= n,
                n == self@.len(),
                entries@.len() == i,
                forall|j: int|
                    #![auto]
                    0 <= j < i ==> entries@[j].0@ == self@[j].0 && entries@[j].1@ == self@[j].1,
            decreases n - i,
        {
            let k = self.entries[i].0.clone();
            let v = self.entries[i].1.clone();
            entries.push((k, v));
            i = i + 1;
        }
        let r = ContentMap { entries };
        proof {
            assert(r@ =~= self@);
        }
        r
    }
}

/// A well-formed content map's entry sequence is determined by the mapping
/// it denotes: two sorted maps holding the same key→value pairs are equal
/// entry for entry, whatever order their pairs were inserted in.
pub proof fn lemma_sorted_map_determined(
    s1: Seq<(Seq<char>, Seq<char>)>,
    s2: Seq<(Seq<char>, Seq<char>)>,
)
    requires
        sorted_by_key(s1),
        sorted_by_key(s2),
        seq_as_map(s1) == seq_as_map(s2),
    ensures
        s1 == s2,
    decreases s1.len(),
{
    lemma_sorted_keys_unique(s1);
    lemma_sorted_keys_unique(s2);
    if s1.len() == 0 {
        if s2.len() > 0 {
            assert(spec_contains_key(s2, s2[0].0));
            assert(seq_as_map(s2).dom().contains(s2[0].0));
            assert(spec_contains_key(s1, s2[0].0));
            assert(false);
        }
        assert(s1 =~= s2);
    } else if s2.len() == 0 {
        assert(spec_contains_key(s1, s1[0].0));
        assert(seq_as_map(s1).dom().contains(s1[0].0));
        assert(spec_contains_key(s2, s1[0].0));
        assert(false);
    } else {
        // The two head keys coincide: each head key occurs in the other
        // sequence, and a strictly later occurrence would order the two
        // head keys both ways.
        assert(spec_contains_key(s1, s1[0].0));
        assert(seq_as_map(s1).dom().contains(s1[0].0));
        assert(spec_contains_key(s2, s1[0].0));
        let j = spec_key_index(s2, s1[0].0);
        assert(0 <= j < s2.len() && s2[j].0 == s1[0].0);
        assert(spec_contains_key(s2, s2[0].0));
        assert(seq_as_map(s2).dom().contains(s2[0].0));
        assert(spec_contains_key(s1, s2[0].0));
        let j2 = spec_key_index(s1, s2[0].0);
        assert(0 <= j2 < s1.len() && s1[j2].0 == s2[0].0);
        if j > 0 && j2 > 0 {
            assert(lex_lt(encode_utf8(s2[0].0), encode_utf8(s2[j].0)));
            assert(lex_lt(encode_utf8(s1[0].0), encode_utf8(s1[j2].0)));
            lemma_lex_lt_asymmetric(encode_utf8(s1[0].0), encode_utf8(s2[0].0));
            assert(false);
        }
        assert(s1[0].0 == s2[0].0);
        // Equal values at the head key.
        let k0 = s1[0].0;
        assert(spec_key_index(s1, k0) == 0);
        assert(spec_key_index(s2, k0) == 0);
        assert(seq_as_map(s1)[k0] == s1[0].1);
        assert(seq_as_map(s2)[k0] == s2[0].1);
        assert(s1[0] == s2[0]);
        // The tails denote the same mapping; recurse.
        let t1 = s1.drop_first();
        let t2 = s2.drop_first();
        assert(sorted_by_key(t1)) by {
            assert forall|p: int, q: int|
                #![trigger t1[p].0, t1[q].0]
                0 <= p < q < t1.len() implies lex_lt(encode_utf8(t1[p].0), encode_utf8(t1[q].0)) by {
                assert(t1[p] == s1[p + 1] && t1[q] == s1[q + 1]);
            }
        }
        assert(sorted_by_key(t2)) by {
            assert forall|p: int, q: int|
                #![trigger t2[p].0, t2[q].0]
                0 <= p < q < t2.len() implies lex_lt(encode_utf8(t2[p].0), encode_utf8(t2[q].0)) by {
                assert(t2[p] == s2[p + 1] && t2[q] == s2[q + 1]);
            }
        }
        lemma_as_map_drop_first(s1);
        lemma_as_map_drop_first(s2);
        assert(seq_as_map(t1) =~= seq_as_map(t2));
        lemma_sorted_map_determined(t1, t2);
        assert(s1.len() == t1.len() + 1 && s2.len() == t2.len() + 1);
        assert forall|i: int| 0 <= i < s1.len() implies s1[i] == s2[i] by {
            if i > 0 {
                assert(t1[i - 1] == s1.subrange(1, s1.len() as int)[i - 1]);
                assert(t2[i - 1] == s2.subrange(1, s2.len() as int)[i - 1]);
                assert(s1[i] == t1[i - 1]);
                assert(s2[i] == t2[i - 1]);
            }
        }
        assert(s1 =~= s2);
    }
}

/// A sorted entry sequence denoting a one-pair mapping is that one entry.
pub proof fn lemma_singleton_map_entries(s: Seq<(Seq<char>, Seq<char>)>, k: Seq<char>, v: Seq<char>)
    requires
        sorted_by_key(s),
        seq_as_map(s) == Map::<Seq<char>, Seq<char>>::empty().insert(k, v),
    ensures
        s == seq![(k, v)],
{
    let witness = seq![(k, v)];
    assert(sorted_by_key(witness));
    let m1 = seq_as_map(witness);
    let m2 = Map::<Seq<char>, Seq<char>>::empty().insert(k, v);
    assert(witness[0].0 == k);
    assert forall|x: Seq<char>| m1.dom().contains(x) <==> m2.dom().contains(x) by {
        if spec_contains_key(witness, x) {
            assert(witness[0].0 == x);
        }
        if x == k {
            assert(spec_contains_key(witness, x));
        }
    }
    assert forall|x: Seq<char>| m1.dom().contains(x) implies m1[x] == m2[x] by {
        assert(x == k);
        assert(spec_key_index(witness, x) == 0);
    }
    assert(m1 =~= m2);
    lemma_sorted_map_determined(s, witness);
}

/// Dropping the head entry of a sorted sequence removes exactly its key
/// from the denoted mapping.
proof fn lemma_as_map_drop_first(s: Seq<(Seq<char>, Seq<char>)>)
    requires
        sorted_by_key(s),
        s.len() > 0,
    ensures
        seq_as_map(s.drop_first()) == seq_as_map(s).remove(s[0].0),
{
    lemma_sorted_keys_unique(s);
    let t = s.drop_first();
    let m1 = seq_as_map(t);
    let m2 = seq_as_map(s).remove(s[0].0);
    assert forall|x: Seq<char>| m1.dom().contains(x) <==> m2.dom().contains(x) by {
        if spec_contains_key(t, x) {
            let j = spec_key_index(t, x);
            assert(t[j] == s[j + 1]);
            assert(spec_contains_key(s, x));
            assert(x != s[0].0);
        }
        if spec_contains_key(s, x) && x != s[0].0 {
            let j = spec_key_index(s, x);
            assert(0 <= j < s.len() && s[j].0 == x);
            assert(j != 0);
            assert(t[j - 1] == s[j]);
            assert(spec_contains_key(t, x));
        }
    }
    assert forall|x: Seq<char>| m1.dom().contains(x) implies m1[x] == m2[x] by {
        let j = spec_key_index(t, x);
        assert(0 <= j < t.len() && t[j].0 == x);
        assert(t[j] == s[j + 1]);
        let j2 = spec_key_index(s, x);
        assert(s[j2].0 == x);
        assert(j2 == j + 1);
        assert(m2[x] == s[j + 1].1);
    }
    assert(m1 =~= m2);
}

} // verus!
