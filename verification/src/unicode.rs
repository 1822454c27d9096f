//! Text encodings used by the PACK format: UTF-8 names and strings, and
//! UTF-16 (little-endian) Unicode strings.

use vstd::prelude::*;
use vstd::utf8::*;

verus! {

/// The UTF-16 code units of one character.
pub open spec fn utf16_of_char(c: char) -> Seq<u16> {
    let v = c as u32;
    if v < 0x10000 {
        seq![v as u16]
    } else {
        let w = (v - 0x10000) as u32;
        seq![(0xD800u32 + (w >> 10u32)) as u16, (0xDC00u32 + (w & 0x3FFu32)) as u16]
    }
}

/// The UTF-16 encoding of a character sequence.
pub open spec fn encode_utf16(cs: Seq<char>) -> Seq<u16>
    decreases cs.len(),
{
    if cs.len() == 0 {
        seq![]
    } else {
        utf16_of_char(cs[0]) + encode_utf16(cs.drop_first())
    }
}

/// The little-endian byte layout of UTF-16 code units.
pub open spec fn le16_bytes(units: Seq<u16>) -> Seq<u8> {
    Seq::new(
        2 * units.len(),
        |j: int|
            if j % 2 == 0 {
                units[j / 2] as u8
            } else {
                (units[j / 2] >> 8u16) as u8
            },
    )
}

/// The code units read from little-endian byte pairs.
pub open spec fn le16_units(bytes: Seq<u8>) -> Seq<u16> {
    Seq::new(bytes.len() / 2, |i: int| (bytes[2 * i] as u16) | ((bytes[2 * i + 1] as u16) << 8u16))
}

proof fn lemma_u16_le_pair(u: u16)
    ensures
        ((u as u8) as u16) | ((((u >> 8u16) as u8) as u16) << 8u16) == u,
{
    assert(((u as u8) as u16) | ((((u >> 8u16) as u8) as u16) << 8u16) == u) by (bit_vector);
}

/// Reading back the little-endian layout of code units gives the code units.
pub proof fn lemma_le16_roundtrip(units: Seq<u16>)
    ensures
        le16_units(le16_bytes(units)) == units,
        le16_bytes(units).len() == 2 * units.len(),
{
    let b = le16_bytes(units);
    assert forall|i: int| 0 <= i < units.len() implies #[trigger] le16_units(b)[i] == units[i] by {
        assert(b[2 * i] == units[i] as u8);
        assert(b[2 * i + 1] == (units[i] >> 8u16) as u8);
        lemma_u16_le_pair(units[i]);
    }
    assert(le16_units(b) =~= units);
}

proof fn lemma_utf16_char_shape(c: char)
    ensures
        utf16_of_char(c).len() == 1 ==> !(0xD800 <= utf16_of_char(c)[0] < 0xE000),
        utf16_of_char(c).len() == 2 ==> 0xD800 <= utf16_of_char(c)[0] < 0xDC00,
        1 <= utf16_of_char(c).len() <= 2,
{
    char_is_scalar(c);
    let v = c as u32;
    if v >= 0x10000 {
        let w = (v - 0x10000) as u32;
        assert(w < 0x100000);
        assert(w < 0x100000 ==> 0xD800u32 + (w >> 10u32) < 0xDC00u32) by (bit_vector);
        assert(0xD800u32 + (w >> 10u32) < 0x10000);
    }
}

proof fn lemma_utf16_char_injective(a: char, b: char)
    requires
        utf16_of_char(a) == utf16_of_char(b),
    ensures
        a == b,
{
    char_is_scalar(a);
    char_is_scalar(b);
    let va = a as u32;
    let vb = b as u32;
    lemma_utf16_char_shape(a);
    lemma_utf16_char_shape(b);
    if va < 0x10000 {
        assert(utf16_of_char(a).len() == 1);
        assert(vb < 0x10000);
        assert(va as u16 == vb as u16);
        char_u32_cast(a, va);
        char_u32_cast(b, vb);
    } else {
        assert(vb >= 0x10000);
        let wa = (va - 0x10000) as u32;
        let wb = (vb - 0x10000) as u32;
        assert(utf16_of_char(a)[0] == utf16_of_char(b)[0]);
        assert(utf16_of_char(a)[1] == utf16_of_char(b)[1]);
        assert(wa < 0x100000 && wb < 0x100000 && (0xD800u32 + (wa >> 10u32)) as u16 == (0xD800u32
            + (wb >> 10u32)) as u16 && (0xDC00u32 + (wa & 0x3FFu32)) as u16 == (0xDC00u32 + (wb
            & 0x3FFu32)) as u16 ==> wa == wb) by (bit_vector);
        char_u32_cast(a, va);
        char_u32_cast(b, vb);
    }
}

/// The UTF-16 encoding is injective: equal encodings come from equal text.
pub proof fn lemma_utf16_injective(a: Seq<char>, b: Seq<char>)
    requires
        encode_utf16(a) == encode_utf16(b),
    ensures
        a == b,
    decreases a.len(),
{
    if a.len() == 0 {
        if b.len() > 0 {
            lemma_utf16_char_shape(b[0]);
            assert(encode_utf16(b).len() >= 1);
        }
        assert(b.len() == 0);
        assert(a =~= b);
    } else {
        if b.len() == 0 {
            lemma_utf16_char_shape(a[0]);
            assert(encode_utf16(a).len() >= 1);
            assert(false);
        }
        let ea = encode_utf16(a);
        let eb = encode_utf16(b);
        let ua = utf16_of_char(a[0]);
        let ub = utf16_of_char(b[0]);
        lemma_utf16_char_shape(a[0]);
        lemma_utf16_char_shape(b[0]);
        assert(ea[0] == ua[0]);
        assert(eb[0] == ub[0]);
        assert(ua.len() == ub.len());
        if ua.len() == 2 {
            assert(ea[1] == ua[1]);
            assert(eb[1] == ub[1]);
        }
        assert(ua =~= ub);
        lemma_utf16_char_injective(a[0], b[0]);
        let k = ua.len() as int;
        assert(ea.subrange(k, ea.len() as int) =~= encode_utf16(a.drop_first()));
        assert(eb.subrange(k, eb.len() as int) =~= encode_utf16(b.drop_first()));
        lemma_utf16_injective(a.drop_first(), b.drop_first());
        assert(a =~= seq![a[0]] + a.drop_first());
        assert(b =~= seq![b[0]] + b.drop_first());
    }
}

/// UTF-8 is injective on character sequences.
pub proof fn lemma_utf8_injective(a: Seq<char>, b: Seq<char>)
    requires
        encode_utf8(a) == encode_utf8(b),
    ensures
        a == b,
{
    encode_utf8_decode_utf8(a);
    encode_utf8_decode_utf8(b);
}

/// Encoding one more character appends its code units.
proof fn lemma_encode_utf16_push(cs: Seq<char>, c: char)
    ensures
        encode_utf16(cs.push(c)) == encode_utf16(cs) + utf16_of_char(c),
    decreases cs.len(),
{
    if cs.len() == 0 {
        assert(cs.push(c).drop_first() =~= Seq::<char>::empty());
        assert(encode_utf16(cs.push(c)) =~= utf16_of_char(c) + encode_utf16(Seq::<char>::empty()));
    } else {
        lemma_encode_utf16_push(cs.drop_first(), c);
        assert(cs.push(c).drop_first() =~= cs.drop_first().push(c));
        assert(encode_utf16(cs.push(c)) =~= utf16_of_char(cs[0]) + encode_utf16(cs.drop_first().push(c)));
    }
}

/// The UTF-16 code units of `s`.
pub fn str_to_utf16(s: &str) -> (r: Vec<u16>)
    ensures
        r@ == encode_utf16(s@),
{
    let cs = crate::scan::chars_of(s);
    let mut out: Vec<u16> = Vec::new();
    let mut i: usize = 0;
    while i < cs.len()
        invariant
            i <= cs@.len(),
            out@ == encode_utf16(cs@.subrange(0, i as int)),
        decreases cs@.len() - i,
    {
        let c = cs[i];
        let v = c as u32;
        proof {
            lemma_encode_utf16_push(cs@.subrange(0, i as int), c);
            assert(cs@.subrange(0, i + 1) =~= cs@.subrange(0, i as int).push(c));
        }
        if v < 0x10000 {
            out.push(v as u16);
        } else {
            proof {
                char_is_scalar(c);
            }
            assert(v <= 0x10FFFF);
            let w: u32 = v - 0x10000;
            assert(w >> 10u32 <= 0x3FF) by (bit_vector)
                requires
                    w <= 0xFFFFF,
            ;
            assert(w & 0x3FFu32 <= 0x3FF) by (bit_vector);
            out.push((0xD800u32 + (w >> 10u32)) as u16);
            out.push((0xDC00u32 + (w & 0x3FFu32)) as u16);
        }
        assert(out@ =~= encode_utf16(cs@.subrange(0, i as int)) + utf16_of_char(c));
        i = i + 1;
    }
    assert(cs@.subrange(0, cs@.len() as int) =~= cs@);
    out
}

/// The string whose UTF-16 encoding is `units`, if there is one.
///
/// Trusted: calls `String::from_utf16`, which succeeds exactly on well-formed
/// UTF-16 and then returns the text those units encode.
#[verifier::external_body]
pub(crate) fn string_from_utf16(units: &[u16]) -> (r: Option<String>)
    ensures
        r matches Some(t) ==> encode_utf16(t@) == units@,
        (exists|cs: Seq<char>| encode_utf16(cs) == units@) ==> r is Some,
{
    String::from_utf16(units).ok()
}

/// The string whose UTF-8 encoding is `bytes`, if the bytes are UTF-8.
///
/// Trusted: calls `String::from_utf8`, which succeeds exactly on valid UTF-8
/// and then holds the characters that the bytes encode.
#[verifier::external_body]
pub(crate) fn string_from_utf8(bytes: Vec<u8>) -> (r: Option<String>)
    ensures
        r is Some <==> valid_utf8(bytes@),
        r matches Some(t) ==> t@ == decode_utf8(bytes@),
{
    String::from_utf8(bytes).ok()
}

/// Compares two byte slices.
pub fn bytes_eq(a: &[u8], b: &[u8]) -> (r: bool)
    ensures
        r == (a@ == b@),
{
    if a.len() != b.len() {
        return false;
    }
    let mut i: usize = 0;
    while i < a.len()
        invariant
            a@.len() == b@.len(),
            i <= a@.len(),
            forall|j: int| 0 <= j < i ==> a@[j] == b@[j],
        decreases a@.len() - i,
    {
        if a[i] != b[i] {
            return false;
        }
        i = i + 1;
    }
    assert(a@ =~= b@);
    true
}

/// Compares two strings by their characters.
pub fn str_eq(a: &str, b: &str) -> (r: bool)
    ensures
        r == (a@ == b@),
{
    let ab = a.as_bytes();
    let bb = b.as_bytes();
    let r = bytes_eq(ab, bb);
    proof {
        if r {
            lemma_utf8_injective(a@, b@);
        }
    }
    r
}

} // verus!
