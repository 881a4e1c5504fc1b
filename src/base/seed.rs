//! Canonical form of the input text and the 32-byte seed derived from it.

use vstd::prelude::*;

verus! {

/// Whether `c` has the Unicode `White_Space` property: the ASCII tab, line
/// feed, vertical tab, form feed, carriage return and space, next line,
/// no-break space, ogham space mark, the spaces from en quad to hair space,
/// line and paragraph separators, narrow no-break space, medium mathematical
/// space and ideographic space.
pub open spec fn is_white_space(c: char) -> bool {
    let u = c as u32;
    (0x09 <= u <= 0x0D) || u == 0x20 || u == 0x85 || u == 0xA0 || u == 0x1680 || (0x2000 <= u
        <= 0x200A) || u == 0x2028 || u == 0x2029 || u == 0x202F || u == 0x205F || u == 0x3000
}

/// The BLAKE3 digest (32 bytes) of `bytes`.
pub uninterp spec fn blake3_of(bytes: Seq<u8>) -> Seq<u8>;

/// Relies on `char::is_whitespace`: true exactly for the characters with the
/// Unicode `White_Space` property.
#[verifier::external_body]
pub(crate) fn char_is_whitespace(c: char) -> (r: bool)
    ensures
        r == is_white_space(c),
{
    c.is_whitespace()
}

/// Relies on `str::chars` collected into a `Vec`: the characters of `s` in order.
#[verifier::external_body]
pub(crate) fn chars_of(s: &str) -> (r: Vec<char>)
    ensures
        r@ == s@,
{
    s.chars().collect()
}

/// Relies on `String::push`: appends one character.
#[verifier::external_body]
pub(crate) fn push_char(s: &mut String, c: char)
    ensures
        final(s)@ == old(s)@.push(c),
{
    s.push(c)
}

/// Relies on `blake3::hash`: the 32-byte BLAKE3 digest of the bytes.
#[verifier::external_body]
fn blake3_digest(bytes: &[u8]) -> (r: [u8; 32])
    ensures
        r@ == blake3_of(bytes@),
{
    *blake3::hash(bytes).as_bytes()
}

/// The normalized form of `s`: every non-whitespace character is kept in order;
/// a maximal run of whitespace between two kept characters becomes one ASCII
/// space; whitespace before the first and after the last kept character is dropped.
pub open spec fn normalized(s: Seq<char>) -> Seq<char>
    decreases s.len(),
{
    if s.len() == 0 {
        Seq::empty()
    } else {
        let prev = normalized(s.drop_last());
        let c = s.last();
        if is_white_space(c) {
            prev
        } else if s.len() >= 2 && is_white_space(s[s.len() - 2]) && prev.len() > 0 {
            prev.push(' ').push(c)
        } else {
            prev.push(c)
        }
    }
}

/// Byte `i` (0 is the least significant) of the little-endian encoding of `v`.
pub open spec fn le_byte(v: u64, i: int) -> u8 {
    ((v >> (8 * i) as u64) & 0xff) as u8
}

/// The seed for digest `d`: with a variant, its little-endian bytes are XORed
/// into the first eight bytes of `d`.
pub open spec fn seed_with_variant(d: Seq<u8>, variant: Option<u64>) -> Seq<u8> {
    match variant {
        None => d,
        Some(v) => Seq::new(d.len(), |i: int| if i < 8 { d[i] ^ le_byte(v, i) } else { d[i] }),
    }
}

/// The 32-byte seed of a normalized text and an optional variant.
pub open spec fn seed_of(text: Seq<char>, variant: Option<u64>) -> Seq<u8> {
    seed_with_variant(blake3_of(vstd::utf8::encode_utf8(text)), variant)
}

/// The unsigned value of `b` read as a little-endian number.
pub open spec fn le_value(b: Seq<u8>) -> nat
    decreases b.len(),
{
    if b.len() == 0 {
        0
    } else {
        b[0] as nat + 256 * le_value(b.drop_first())
    }
}

/// 256 raised to the power `n`.
pub open spec fn pow256(n: nat) -> nat
    decreases n,
{
    if n == 0 {
        1
    } else {
        256 * pow256((n - 1) as nat)
    }
}

proof fn lemma_pow256_monotonic(a: nat, b: nat)
    requires
        a <= b,
    ensures
        pow256(a) <= pow256(b),
    decreases b,
{
    if a < b {
        lemma_pow256_monotonic(a, (b - 1) as nat);
    }
}

/// The normalized form keeps to its shape: its only whitespace characters are
/// single spaces, each between two characters that are not whitespace, so it
/// neither starts nor ends with whitespace.
pub proof fn lemma_normalized_form(s: Seq<char>)
    ensures
        forall|i: int|
            0 <= i < normalized(s).len() && is_white_space(#[trigger] normalized(s)[i]) ==> {
                &&& normalized(s)[i] == ' '
                &&& 0 < i < normalized(s).len() - 1
                &&& !is_white_space(normalized(s)[i - 1])
                &&& !is_white_space(normalized(s)[i + 1])
            },
    decreases s.len(),
{
    if s.len() > 0 {
        let p = s.drop_last();
        let prev = normalized(p);
        lemma_normalized_form(p);
        if prev.len() > 0 {
            let k = prev.len() - 1;
            if is_white_space(prev[k]) {
                assert(k < prev.len() - 1);
            }
        }
        let r = normalized(s);
        assert forall|i: int| 0 <= i < r.len() && is_white_space(#[trigger] r[i]) implies {
            &&& r[i] == ' '
            &&& 0 < i < r.len() - 1
            &&& !is_white_space(r[i - 1])
            &&& !is_white_space(r[i + 1])
        } by {
            if i < prev.len() {
                assert(r[i] == prev[i]);
                assert(r[i - 1] == prev[i - 1]);
                assert(r[i + 1] == prev[i + 1]);
            }
        }
    }
}

/// Normalize input so that logos stay stable for texts that differ only in
/// whitespace.
pub fn normalize_input(input: &str) -> (r: String)
    ensures
        r@ == normalized(input@),
{
    let chars = chars_of(input);
    let mut out = String::new();
    let mut last_was_ws = false;
    let mut started = false;
    let mut i: usize = 0;
    while i < chars.len()
        invariant
            chars@ == input@,
            i <= chars@.len(),
            out@ == normalized(chars@.subrange(0, i as int)),
            last_was_ws == (i > 0 && is_white_space(chars@[i - 1])),
            started == (out@.len() > 0),
        decreases chars@.len() - i,
    {
        let c = chars[i];
        proof {
            let p = chars@.subrange(0, i as int + 1);
            assert(p.drop_last() =~= chars@.subrange(0, i as int));
            assert(p.last() == c);
        }
        if char_is_whitespace(c) {
            last_was_ws = true;
        } else {
            if last_was_ws && started {
                push_char(&mut out, ' ');
            }
            push_char(&mut out, c);
            last_was_ws = false;
            started = true;
        }
        i = i + 1;
    }
    assert(chars@.subrange(0, chars@.len() as int) =~= chars@);
    out
}

/// Derive a 32-byte seed from a normalized text and an optional variant,
/// stable across runs and platforms.
pub fn derive_seed_32(normalized: &str, variant: Option<u64>) -> (r: [u8; 32])
    ensures
        r@ == seed_of(normalized@, variant),
{
    let mut seed = blake3_digest(normalized.as_bytes());
    let ghost digest = seed@;
    if let Some(v) = variant {
        let mut i: usize = 0;
        while i < 8
            invariant
                i <= 8,
                digest.len() == 32,
                seed@.len() == 32,
                forall|j: int| 0 <= j < i ==> seed@[j] == digest[j] ^ le_byte(v, j),
                forall|j: int| i <= j < 32 ==> seed@[j] == digest[j],
            decreases 8 - i,
        {
            let b: u8 = ((v >> (8 * i as u64)) & 0xff) as u8;
            seed[i] = seed[i] ^ b;
            i = i + 1;
        }
        assert(seed@ =~= seed_with_variant(digest, variant));
    }
    seed
}

/// The first eight bytes of the seed of `normalized`, read as a little-endian
/// integer.
pub fn derive_seed_u64(normalized: &str, variant: Option<u64>) -> (r: u64)
    ensures
        r as nat == le_value(seed_of(normalized@, variant).subrange(0, 8)),
{
    let seed = derive_seed_32(normalized, variant);
    let ghost s = seed@;
    let mut acc: u64 = 0;
    let mut i: usize = 8;
    while i > 0
        invariant
            i <= 8,
            s == seed@,
            s.len() == 32,
            acc as nat == le_value(s.subrange(i as int, 8)),
            acc < pow256((8 - i) as nat),
        decreases i,
    {
        let ghost old_acc = acc;
        let b = seed[i - 1];
        proof {
            let sub = s.subrange(i - 1, 8);
            assert(sub.drop_first() =~= s.subrange(i as int, 8));
            lemma_pow256_monotonic((9 - i) as nat, 8);
            reveal_with_fuel(pow256, 9);
            let p = pow256((8 - i) as nat);
            assert(pow256((9 - i) as nat) == 256 * p);
            assert(old_acc * 256 + b < p * 256) by (nonlinear_arith)
                requires
                    old_acc < p,
                    b < 256,
            ;
        }
        acc = acc * 256 + b as u64;
        i = i - 1;
    }
    acc
}

/// A zero variant leaves the seed as it is: `Some(0)` and `None` give the same seed.
pub proof fn lemma_variant_zero_is_none(text: Seq<char>)
    ensures
        seed_of(text, Some(0)) == seed_of(text, None),
{
    let d = blake3_of(vstd::utf8::encode_utf8(text));
    assert forall|i: int| 0 <= i < 8 implies #[trigger] le_byte(0, i) == 0 by {
        let k = (8 * i) as u64;
        assert(((0u64 >> k) & 0xff) == 0) by (bit_vector);
    }
    assert forall|i: int| 0 <= i < 8 implies (#[trigger] d[i]) ^ 0u8 == d[i] by {
        let x = d[i];
        assert(x ^ 0u8 == x) by (bit_vector);
    }
    assert(seed_with_variant(d, Some(0)) =~= d);
}

/// Two different variants of one text give different seeds (for a digest of at
/// least eight bytes, which BLAKE3's always is).
pub proof fn lemma_distinct_variants_distinct_seeds(text: Seq<char>, a: u64, b: u64)
    requires
        a != b,
        blake3_of(vstd::utf8::encode_utf8(text)).len() == 32,
    ensures
        seed_of(text, Some(a)) != seed_of(text, Some(b)),
{
    let d = blake3_of(vstd::utf8::encode_utf8(text));
    let sa = seed_of(text, Some(a));
    let sb = seed_of(text, Some(b));
    if sa == sb {
        assert forall|i: int| 0 <= i < 8 implies #[trigger] le_byte(a, i) == le_byte(b, i) by {
            let x = d[i];
            assert(sa[i] == sb[i]);
            let ya = le_byte(a, i);
            let yb = le_byte(b, i);
            assert((x ^ ya) == (x ^ yb) ==> ya == yb) by (bit_vector);
        }
        assert(le_byte(a, 0) == le_byte(b, 0));
        assert(le_byte(a, 1) == le_byte(b, 1));
        assert(le_byte(a, 2) == le_byte(b, 2));
        assert(le_byte(a, 3) == le_byte(b, 3));
        assert(le_byte(a, 4) == le_byte(b, 4));
        assert(le_byte(a, 5) == le_byte(b, 5));
        assert(le_byte(a, 6) == le_byte(b, 6));
        assert(le_byte(a, 7) == le_byte(b, 7));
        assert(a == b) by (bit_vector)
            requires
                ((a >> 0u64) & 0xff) as u8 == ((b >> 0u64) & 0xff) as u8,
                ((a >> 8u64) & 0xff) as u8 == ((b >> 8u64) & 0xff) as u8,
                ((a >> 16u64) & 0xff) as u8 == ((b >> 16u64) & 0xff) as u8,
                ((a >> 24u64) & 0xff) as u8 == ((b >> 24u64) & 0xff) as u8,
                ((a >> 32u64) & 0xff) as u8 == ((b >> 32u64) & 0xff) as u8,
                ((a >> 40u64) & 0xff) as u8 == ((b >> 40u64) & 0xff) as u8,
                ((a >> 48u64) & 0xff) as u8 == ((b >> 48u64) & 0xff) as u8,
                ((a >> 56u64) & 0xff) as u8 == ((b >> 56u64) & 0xff) as u8,
        ;
    }
}

} // verus!
