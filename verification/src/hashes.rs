//! Hash values and their canonical lowercase hex form.
//!
//! A `HashValue` is the fixed-width SHA3-512 digest every chain layer is
//! built from; a `TxHash` is the 32-byte hash of the anchoring blockchain
//! transaction. Both serialize to and from a canonical lowercase hex string,
//! and the codec here is verified: encoding is injective and parsing accepts
//! exactly the strings the encoder produces.

use vstd::prelude::*;
use vstd::string::StrSliceExecFns;
use vstd::string::StringSliceAdditionalSpecFns;

verus! {

/// Lowercase hex digit, as an ASCII byte, for a nibble value.
pub open spec fn hex_digit(n: u8) -> u8 {
    if n < 10 {
        (48 + n) as u8
    } else {
        (87 + n) as u8
    }
}

/// Canonical lowercase hex encoding of a byte sequence, as ASCII bytes.
pub open spec fn hex_of(data: Seq<u8>) -> Seq<u8>
    decreases data.len(),
{
    if data.len() == 0 {
        Seq::empty()
    } else {
        seq![
            hex_digit((data.first() as int / 16) as u8),
            hex_digit((data.first() as int % 16) as u8),
        ] + hex_of(data.drop_first())
    }
}

/// Lowercase hex digit, as a character, for a nibble value.
pub open spec fn hex_char(n: u8) -> char {
    if n == 0 {
        '0'
    } else if n == 1 {
        '1'
    } else if n == 2 {
        '2'
    } else if n == 3 {
        '3'
    } else if n == 4 {
        '4'
    } else if n == 5 {
        '5'
    } else if n == 6 {
        '6'
    } else if n == 7 {
        '7'
    } else if n == 8 {
        '8'
    } else if n == 9 {
        '9'
    } else if n == 10 {
        'a'
    } else if n == 11 {
        'b'
    } else if n == 12 {
        'c'
    } else if n == 13 {
        'd'
    } else if n == 14 {
        'e'
    } else {
        'f'
    }
}

/// Canonical lowercase hex encoding of a byte sequence, as characters.
pub open spec fn hex_chars_of(data: Seq<u8>) -> Seq<char>
    decreases data.len(),
{
    if data.len() == 0 {
        Seq::empty()
    } else {
        seq![
            hex_char((data.first() as int / 16) as u8),
            hex_char((data.first() as int % 16) as u8),
        ] + hex_chars_of(data.drop_first())
    }
}

fn hex_digit_byte(n: u8) -> (r: u8)
    requires
        n < 16,
    ensures
        r == hex_digit(n),
{
    if n < 10 {
        48 + n
    } else {
        87 + n
    }
}

/// Encode a byte slice as its canonical lowercase hex form, in ASCII bytes.
pub fn hex_encode(data: &[u8]) -> (res: Vec<u8>)
    ensures
        res@ == hex_of(data@),
{
    let mut res: Vec<u8> = Vec::new();
    let n: usize = data.len();
    proof {
        assert(data@.skip(0) =~= data@);
    }
    for i in 0..n
        invariant
            n == data@.len(),
            hex_of(data@) =~= res@ + hex_of(data@.skip(i as int)),
    {
        let b = data[i];
        proof {
            assert(data@.skip(i as int).first() == data@[i as int]);
            assert(data@.skip(i as int).drop_first() =~= data@.skip(i as int + 1));
        }
        res.push(hex_digit_byte(b / 16));
        res.push(hex_digit_byte(b % 16));
    }
    proof {
        assert(data@.skip(n as int) =~= Seq::<u8>::empty());
    }
    res
}

fn push_hex_char(s: &mut String, n: u8)
    requires
        n < 16,
    ensures
        final(s)@ == old(s)@ + seq![hex_char(n)],
{
    if n == 0 {
        proof {
            reveal_strlit("0");
        }
        s.append("0");
    } else if n == 1 {
        proof {
            reveal_strlit("1");
        }
        s.append("1");
    } else if n == 2 {
        proof {
            reveal_strlit("2");
        }
        s.append("2");
    } else if n == 3 {
        proof {
            reveal_strlit("3");
        }
        s.append("3");
    } else if n == 4 {
        proof {
            reveal_strlit("4");
        }
        s.append("4");
    } else if n == 5 {
        proof {
            reveal_strlit("5");
        }
        s.append("5");
    } else if n == 6 {
        proof {
            reveal_strlit("6");
        }
        s.append("6");
    } else if n == 7 {
        proof {
            reveal_strlit("7");
        }
        s.append("7");
    } else if n == 8 {
        proof {
            reveal_strlit("8");
        }
        s.append("8");
    } else if n == 9 {
        proof {
            reveal_strlit("9");
        }
        s.append("9");
    } else if n == 10 {
        proof {
            reveal_strlit("a");
        }
        s.append("a");
    } else if n == 11 {
        proof {
            reveal_strlit("b");
        }
        s.append("b");
    } else if n == 12 {
        proof {
            reveal_strlit("c");
        }
        s.append("c");
    } else if n == 13 {
        proof {
            reveal_strlit("d");
        }
        s.append("d");
    } else if n == 14 {
        proof {
            reveal_strlit("e");
        }
        s.append("e");
    } else {
        proof {
            reveal_strlit("f");
        }
        s.append("f");
    }
}

/// Encode a byte slice as its canonical lowercase hex string.
pub fn hex_string(data: &[u8]) -> (res: String)
    ensures
        res@ == hex_chars_of(data@),
{
    let mut res = String::new();
    let n: usize = data.len();
    proof {
        assert(data@.skip(0) =~= data@);
    }
    for i in 0..n
        invariant
            n == data@.len(),
            hex_chars_of(data@) =~= res@ + hex_chars_of(data@.skip(i as int)),
    {
        let b = data[i];
        proof {
            assert(data@.skip(i as int).first() == data@[i as int]);
            assert(data@.skip(i as int).drop_first() =~= data@.skip(i as int + 1));
        }
        push_hex_char(&mut res, b / 16);
        push_hex_char(&mut res, b % 16);
    }
    proof {
        assert(data@.skip(n as int) =~= Seq::<u8>::empty());
    }
    res
}

/// Whether an ASCII byte is a lowercase hex digit.
pub open spec fn is_hex_digit_byte(b: u8) -> bool {
    (48 <= b <= 57) || (97 <= b <= 102)
}

/// The hex form of a byte sequence is twice as long.
pub proof fn lemma_hex_of_len(data: Seq<u8>)
    ensures
        hex_of(data).len() == 2 * data.len(),
    decreases data.len(),
{
    if data.len() > 0 {
        lemma_hex_of_len(data.drop_first());
    }
}

/// The two hex digits any byte of the input contributes, by position.
pub proof fn lemma_hex_of_index(data: Seq<u8>, i: int)
    requires
        0 <= i < data.len(),
    ensures
        hex_of(data).len() == 2 * data.len(),
        hex_of(data)[2 * i] == hex_digit((data[i] as int / 16) as u8),
        hex_of(data)[2 * i + 1] == hex_digit((data[i] as int % 16) as u8),
    decreases data.len(),
{
    lemma_hex_of_len(data);
    if i == 0 {
        lemma_hex_of_len(data.drop_first());
    } else {
        lemma_hex_of_index(data.drop_first(), i - 1);
        assert(data.drop_first()[i - 1] == data[i]);
    }
}

/// Extending the input by one byte appends its two hex digits.
pub proof fn lemma_hex_of_push(data: Seq<u8>, v: u8)
    ensures
        hex_of(data.push(v)) == hex_of(data) + seq![
            hex_digit((v as int / 16) as u8),
            hex_digit((v as int % 16) as u8),
        ],
    decreases data.len(),
{
    if data.len() == 0 {
        assert(data.push(v).len() == 1);
        assert(data.push(v).first() == v);
        assert(data.push(v).drop_first() =~= Seq::<u8>::empty());
        assert(hex_of(Seq::<u8>::empty()) == Seq::<u8>::empty());
        assert(hex_of(data.push(v)) == seq![
            hex_digit((v as int / 16) as u8),
            hex_digit((v as int % 16) as u8),
        ] + hex_of(data.push(v).drop_first()));
        assert(hex_of(data.push(v)) =~= hex_of(data) + seq![
            hex_digit((v as int / 16) as u8),
            hex_digit((v as int % 16) as u8),
        ]);
    } else {
        lemma_hex_of_push(data.drop_first(), v);
        assert(data.push(v).drop_first() =~= data.drop_first().push(v));
        assert(data.push(v).first() == data.first());
        assert(hex_of(data.push(v)) =~= hex_of(data) + seq![
            hex_digit((v as int / 16) as u8),
            hex_digit((v as int % 16) as u8),
        ]);
    }
}

/// Hex encoding is injective: distinct byte sequences have distinct hex
/// forms, so the canonical hex form pins the hash value down.
pub proof fn lemma_hex_of_injective(a: Seq<u8>, b: Seq<u8>)
    requires
        hex_of(a) == hex_of(b),
    ensures
        a == b,
{
    lemma_hex_of_len(a);
    lemma_hex_of_len(b);
    assert forall|i: int| 0 <= i < a.len() implies a[i] == b[i] by {
        lemma_hex_of_index(a, i);
        lemma_hex_of_index(b, i);
        assert(a[i] as int / 16 == b[i] as int / 16 && a[i] as int % 16 == b[i] as int % 16);
        assert(a[i] as int == 16 * (a[i] as int / 16) + a[i] as int % 16);
    }
    assert(a =~= b);
}

/// The UTF-8 bytes of a hex character: one byte, the hex digit itself.
proof fn lemma_hex_char_scalar(n: u8)
    requires
        n < 16,
    ensures
        vstd::utf8::encode_scalar(hex_char(n) as u32) == seq![hex_digit(n)],
{
    assert(forall|v: u32| v <= 0x7F ==> (v & 0x7F) == v) by (bit_vector);
    assert(vstd::utf8::encode_scalar(hex_char(n) as u32) =~= seq![hex_digit(n)]);
}

/// Encoding a character sequence starts with the first character's bytes.
proof fn lemma_encode_cons(c: char, rest: Seq<char>)
    ensures
        vstd::utf8::encode_utf8(seq![c] + rest) == vstd::utf8::encode_scalar(c as u32)
            + vstd::utf8::encode_utf8(rest),
{
    let s = seq![c] + rest;
    assert(s.len() == 1 + rest.len());
    assert(s[0] == c);
    assert(s.drop_first() =~= rest);
}

/// The UTF-8 bytes of a hex character string are the hex digit bytes: the
/// string form and the byte form of a hex encoding agree.
pub proof fn lemma_hex_chars_encode(data: Seq<u8>)
    ensures
        vstd::utf8::encode_utf8(hex_chars_of(data)) == hex_of(data),
    decreases data.len(),
{
    if data.len() == 0 {
        assert(vstd::utf8::encode_utf8(hex_chars_of(data)) =~= hex_of(data));
    } else {
        let d1 = (data.first() as int / 16) as u8;
        let d2 = (data.first() as int % 16) as u8;
        lemma_hex_char_scalar(d1);
        lemma_hex_char_scalar(d2);
        lemma_hex_chars_encode(data.drop_first());
        let rest = hex_chars_of(data.drop_first());
        let cs = hex_chars_of(data);
        assert(cs =~= seq![hex_char(d1)] + (seq![hex_char(d2)] + rest));
        lemma_encode_cons(hex_char(d1), seq![hex_char(d2)] + rest);
        lemma_encode_cons(hex_char(d2), rest);
        assert(vstd::utf8::encode_utf8(cs) =~= hex_of(data));
    }
}

fn hex_digit_value(b: u8) -> (r: Option<u8>)
    ensures
        (match r {
            Some(v) => is_hex_digit_byte(b) && v < 16 && hex_digit(v) == b,
            None => !is_hex_digit_byte(b),
        }),
{
    if 48 <= b && b <= 57 {
        Some(b - 48)
    } else if 97 <= b && b <= 102 {
        Some(b - 87)
    } else {
        None
    }
}

/// Parse a canonical lowercase hex string into the byte sequence it
/// encodes: `Some` exactly for the hex form of a sequence of the asked-for
/// length, and then precisely that sequence.
pub fn parse_hex(s: &str, out_len: usize) -> (r: Option<Vec<u8>>)
    requires
        out_len <= usize::MAX / 2,
    ensures
        (match r {
            Some(v) => v@.len() == out_len && hex_of(v@) == s.spec_bytes(),
            None => forall|b: Seq<u8>| b.len() == out_len ==> hex_of(b) != s.spec_bytes(),
        }),
{
    let bytes = s.as_bytes();
    if bytes.len() != out_len * 2 {
        proof {
            assert forall|b: Seq<u8>| b.len() == out_len implies hex_of(b) != s.spec_bytes() by {
                lemma_hex_of_len(b);
            }
        }
        return None;
    }
    let mut out: Vec<u8> = Vec::new();
    let mut i: usize = 0;
    while i < out_len
        invariant
            i <= out_len,
            out_len <= usize::MAX / 2,
            bytes@.len() == 2 * out_len,
            bytes@ == s.spec_bytes(),
            out@.len() == i,
            hex_of(out@) =~= bytes@.subrange(0, 2 * i as int),
        decreases out_len - i,
    {
        let hi = bytes[2 * i];
        let lo = bytes[2 * i + 1];
        let hv = match hex_digit_value(hi) {
            Some(v) => v,
            None => {
                proof {
                    assert forall|b: Seq<u8>| b.len() == out_len implies hex_of(b)
                        != s.spec_bytes() by {
                        if hex_of(b) == s.spec_bytes() {
                            lemma_hex_of_index(b, i as int);
                        }
                    }
                }
                return None;
            },
        };
        let lv = match hex_digit_value(lo) {
            Some(v) => v,
            None => {
                proof {
                    assert forall|b: Seq<u8>| b.len() == out_len implies hex_of(b)
                        != s.spec_bytes() by {
                        if hex_of(b) == s.spec_bytes() {
                            lemma_hex_of_index(b, i as int);
                        }
                    }
                }
                return None;
            },
        };
        let v = hv * 16 + lv;
        proof {
            assert(v as int / 16 == hv as int && v as int % 16 == lv as int);
            lemma_hex_of_push(out@, v);
            assert(bytes@.subrange(0, 2 * i as int + 2) =~= bytes@.subrange(0, 2 * i as int)
                + seq![bytes@[2 * i as int], bytes@[2 * i as int + 1]]);
        }
        out.push(v);
        i = i + 1;
    }
    proof {
        assert(bytes@.subrange(0, 2 * out_len as int) =~= bytes@);
    }
    Some(out)
}

/// Byte-for-byte equality of two byte vectors.
pub fn bytes_equal(a: &Vec<u8>, b: &Vec<u8>) -> (r: bool)
    ensures
        r == (a@ == b@),
{
    let r = a == b;
    proof {
        if r {
            assert(a@ =~= b@);
        }
    }
    r
}

/// Copy a byte vector.
pub fn clone_bytes(v: &Vec<u8>) -> (r: Vec<u8>)
    ensures
        r@ == v@,
{
    let r = v.clone();
    proof {
        assert(r@ =~= v@);
    }
    r
}

/// A fixed-width cryptographic digest: the 64-byte output of SHA3-512,
/// used both as a content fingerprint and as a chain pointer.
#[derive(Debug)]
pub struct HashValue {
    digest: Vec<u8>,
}

impl View for HashValue {
    type V = Seq<u8>;

    closed spec fn view(&self) -> Seq<u8> {
        self.digest@
    }
}

impl HashValue {
    /// A well-formed hash value holds exactly 64 digest bytes.
    pub open spec fn wf(&self) -> bool {
        self@.len() == 64
    }

    /// Wrap 64 digest bytes; `None` for any other length.
    pub fn from_bytes(bytes: Vec<u8>) -> (r: Option<HashValue>)
        ensures
            match r {
                Some(h) => h@ == bytes@ && h.wf(),
                None => bytes@.len() != 64,
            },
    {
        if bytes.len() == 64 {
            Some(HashValue { digest: bytes })
        } else {
            None
        }
    }

    pub(crate) fn from_digest(bytes: Vec<u8>) -> (r: HashValue)
        requires
            bytes@.len() == 64,
        ensures
            r@ == bytes@,
            r.wf(),
    {
        HashValue { digest: bytes }
    }

    pub fn as_bytes(&self) -> (r: &[u8])
        ensures
            r@ == self@,
    {
        self.digest.as_slice()
    }

    /// Byte-for-byte equality of two hash values.
    pub fn equals(&self, other: &HashValue) -> (r: bool)
        ensures
            r == (self@ == other@),
    {
        let r = self.digest == other.digest;
        proof {
            if r {
                assert(self@ =~= other@);
            }
        }
        r
    }

    pub fn duplicate(&self) -> (r: HashValue)
        ensures
            r@ == self@,
    {
        HashValue { digest: clone_bytes(&self.digest) }
    }

    /// The digest bytes, as a fresh vector.
    pub fn to_vec(&self) -> (r: Vec<u8>)
        ensures
            r@ == self@,
    {
        clone_bytes(&self.digest)
    }

    /// The digest bytes, consuming the value.
    pub fn into_bytes(self) -> (r: Vec<u8>)
        ensures
            r@ == self@,
    {
        self.digest
    }

    /// The canonical lowercase hex string form, 128 characters.
    pub fn to_hex(&self) -> (r: String)
        ensures
            r@ == hex_chars_of(self@),
    {
        hex_string(self.digest.as_slice())
    }

    /// Parse the canonical hex string form back into a hash value: `Some`
    /// exactly for the 128-character hex form of a digest, and then the
    /// digest it encodes — the inverse of `to_hex`.
    pub fn from_hex(s: &str) -> (r: Option<HashValue>)
        ensures
            (match r {
                Some(h) => h.wf() && hex_of(h@) == s.spec_bytes(),
                None => forall|b: Seq<u8>| b.len() == 64 ==> hex_of(b) != s.spec_bytes(),
            }),
    {
        match parse_hex(s, 64) {
            Some(v) => Some(HashValue::from_digest(v)),
            None => None,
        }
    }
}

/// The hash of the blockchain transaction that anchors a witness: a 32-byte
/// value with the same canonical hex form as the chain hashes.
#[derive(Debug)]
pub struct TxHash {
    digest: Vec<u8>,
}

impl View for TxHash {
    type V = Seq<u8>;

    closed spec fn view(&self) -> Seq<u8> {
        self.digest@
    }
}

impl TxHash {
    /// A well-formed transaction hash holds exactly 32 bytes.
    pub open spec fn wf(&self) -> bool {
        self@.len() == 32
    }

    /// Wrap 32 transaction-hash bytes; `None` for any other length.
    pub fn from_bytes(bytes: Vec<u8>) -> (r: Option<TxHash>)
        ensures
            match r {
                Some(h) => h@ == bytes@ && h.wf(),
                None => bytes@.len() != 32,
            },
    {
        if bytes.len() == 32 {
            Some(TxHash { digest: bytes })
        } else {
            None
        }
    }

    pub fn as_bytes(&self) -> (r: &[u8])
        ensures
            r@ == self@,
    {
        self.digest.as_slice()
    }

    pub fn duplicate(&self) -> (r: TxHash)
        ensures
            r@ == self@,
    {
        TxHash { digest: clone_bytes(&self.digest) }
    }

    /// The canonical lowercase hex string form, 64 characters.
    pub fn to_hex(&self) -> (r: String)
        ensures
            r@ == hex_chars_of(self@),
    {
        hex_string(self.digest.as_slice())
    }

    /// Parse the canonical hex string form back into a transaction hash:
    /// `Some` exactly for the 64-character hex form of a 32-byte value, and
    /// then the value it encodes — the inverse of `to_hex`.
    pub fn from_hex(s: &str) -> (r: Option<TxHash>)
        ensures
            (match r {
                Some(h) => h.wf() && hex_of(h@) == s.spec_bytes(),
                None => forall|b: Seq<u8>| b.len() == 32 ==> hex_of(b) != s.spec_bytes(),
            }),
    {
        match parse_hex(s, 32) {
            Some(v) => Some(TxHash { digest: v }),
            None => None,
        }
    }
}

} // verus!
