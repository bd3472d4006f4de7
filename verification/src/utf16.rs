//! UTF-16 (little endian) text, as exchanged with the OpenVPN Interactive
//! Service over its named pipe.

use vstd::prelude::*;
use crate::text::{chars_of, push_char};

verus! {

/// The code units of one character (`char::encode_utf16`).
pub open spec fn utf16_of_char(c: char) -> Seq<u16> {
    let v = c as int;
    if v < 0x10000 {
        seq![v as u16]
    } else {
        let u = v - 0x10000;
        seq![(0xD800 + u / 0x400) as u16, (0xDC00 + u % 0x400) as u16]
    }
}

/// The UTF-16 code units of a text (`str::encode_utf16`).
pub open spec fn encode_utf16(s: Seq<char>) -> Seq<u16>
    decreases s.len(),
{
    if s.len() == 0 {
        seq![]
    } else {
        utf16_of_char(s[0]) + encode_utf16(s.drop_first())
    }
}

/// A unit that is not a surrogate.
pub open spec fn is_plain_unit(w: u16) -> bool {
    w < 0xD800 || w > 0xDFFF
}

/// A leading (high) surrogate.
pub open spec fn is_high_surrogate(w: u16) -> bool {
    0xD800 <= w && w <= 0xDBFF
}

/// A trailing (low) surrogate.
pub open spec fn is_low_surrogate(w: u16) -> bool {
    0xDC00 <= w && w <= 0xDFFF
}

/// The character of a surrogate pair.
pub open spec fn pair_value(hi: u16, lo: u16) -> int {
    0x10000 + (hi - 0xD800) * 0x400 + (lo - 0xDC00)
}

/// Lossy UTF-16 decoding (`String::from_utf16_lossy`): every unpaired
/// surrogate becomes U+FFFD.
pub open spec fn decode_utf16_lossy(w: Seq<u16>) -> Seq<char>
    decreases w.len(),
{
    if w.len() == 0 {
        seq![]
    } else if is_plain_unit(w[0]) {
        seq![w[0] as char] + decode_utf16_lossy(w.drop_first())
    } else if is_high_surrogate(w[0]) && w.len() > 1 && is_low_surrogate(w[1]) {
        seq![pair_value(w[0], w[1]) as char] + decode_utf16_lossy(w.subrange(2, w.len() as int))
    } else {
        seq!['\u{FFFD}'] + decode_utf16_lossy(w.drop_first())
    }
}

/// The little-endian bytes of code units.
pub open spec fn le_bytes(w: Seq<u16>) -> Seq<u8>
    decreases w.len(),
{
    if w.len() == 0 {
        seq![]
    } else {
        seq![(w[0] % 256) as u8, (w[0] / 256) as u8] + le_bytes(w.drop_first())
    }
}

/// The code units read from little-endian bytes; an odd last byte is left
/// out.
pub open spec fn units_from_le(b: Seq<u8>) -> Seq<u16>
    decreases b.len(),
{
    if b.len() < 2 {
        seq![]
    } else {
        seq![(b[0] + 256 * b[1]) as u16] + units_from_le(b.subrange(2, b.len() as int))
    }
}

// ───────────────────────────── laws ─────────────────────────────

pub proof fn lemma_encode_utf16_append(a: Seq<char>, b: Seq<char>)
    ensures
        encode_utf16(a + b) == encode_utf16(a) + encode_utf16(b),
    decreases a.len(),
{
    if a.len() == 0 {
        assert(a + b =~= b);
        assert(encode_utf16(a) + encode_utf16(b) =~= encode_utf16(b));
    } else {
        assert((a + b).drop_first() =~= a.drop_first() + b);
        lemma_encode_utf16_append(a.drop_first(), b);
        assert((a + b)[0] == a[0]);
        assert(utf16_of_char(a[0]) + (encode_utf16(a.drop_first()) + encode_utf16(b))
            =~= (utf16_of_char(a[0]) + encode_utf16(a.drop_first())) + encode_utf16(b));
    }
}

proof fn lemma_decode_one_char(c: char, rest: Seq<u16>)
    ensures
        decode_utf16_lossy(utf16_of_char(c) + rest) == seq![c] + decode_utf16_lossy(rest),
{
    let v = c as int;
    let w = utf16_of_char(c) + rest;
    assert(0 <= v <= 0x10FFFF && !(0xD800 <= v <= 0xDFFF)) by {
        vstd::utf8::char_is_scalar(c);
    }
    if v < 0x10000 {
        assert(w[0] == v as u16);
        assert(w.drop_first() =~= rest);
        assert((v as u16) as char == c);
    } else {
        let u = v - 0x10000;
        assert(0 <= u < 0x100000);
        assert(0 <= u / 0x400 < 0x400);
        assert(w[0] == (0xD800 + u / 0x400) as u16);
        assert(w[1] == (0xDC00 + u % 0x400) as u16);
        assert(w.subrange(2, w.len() as int) =~= rest);
        assert(pair_value(w[0], w[1]) == v);
        assert((v as char) == c);
    }
}

/// Decoding the UTF-16 encoding of a text gives the text back.
pub proof fn lemma_utf16_roundtrip(s: Seq<char>)
    ensures
        decode_utf16_lossy(encode_utf16(s)) == s,
    decreases s.len(),
{
    if s.len() > 0 {
        lemma_utf16_roundtrip(s.drop_first());
        lemma_decode_one_char(s[0], encode_utf16(s.drop_first()));
        assert(seq![s[0]] + s.drop_first() =~= s);
    }
}

/// Reading back the little-endian bytes of code units gives the units back.
pub proof fn lemma_le_roundtrip(w: Seq<u16>)
    ensures
        units_from_le(le_bytes(w)) == w,
    decreases w.len(),
{
    if w.len() > 0 {
        lemma_le_roundtrip(w.drop_first());
        let b = le_bytes(w);
        assert(b.subrange(2, b.len() as int) =~= le_bytes(w.drop_first()));
        assert((b[0] + 256 * b[1]) as u16 == w[0]);
        assert(seq![w[0]] + w.drop_first() =~= w);
    }
}

// ───────────────────────────── executable ─────────────────────────────

/// The character of a Unicode scalar value (`char::from_u32`): `Some`
/// exactly for scalar values, holding the character with that value.
#[verifier::external_body]
fn char_from_scalar(v: u32) -> (r: Option<char>)
    ensures
        r is Some <==> (v <= 0x10FFFF && !(0xD800 <= v && v <= 0xDFFF)),
        r matches Some(c) ==> c as u32 == v,
{
    char::from_u32(v)
}

/// Appends the UTF-16 code units of `c`.
fn push_utf16_char(out: &mut Vec<u16>, c: char)
    ensures
        final(out)@ == old(out)@ + utf16_of_char(c),
{
    let v = c as u32;
    proof {
        vstd::utf8::char_is_scalar(c);
    }
    if v < 0x10000 {
        out.push(v as u16);
        assert(out@ =~= old(out)@ + utf16_of_char(c));
    } else {
        let u = v - 0x10000;
        out.push((0xD800 + u / 0x400) as u16);
        out.push((0xDC00 + u % 0x400) as u16);
        assert(out@ =~= old(out)@ + utf16_of_char(c));
    }
}

/// The UTF-16 code units of the text `s`.
pub fn encode_utf16_str(s: &str) -> (r: Vec<u16>)
    ensures
        r@ == encode_utf16(s@),
{
    let v = chars_of(s);
    let mut out: Vec<u16> = Vec::new();
    let mut i: usize = 0;
    assert(v@.skip(0) =~= v@);
    assert(out@ + encode_utf16(v@) =~= encode_utf16(v@));
    while i < v.len()
        invariant
            i <= v.len(),
            encode_utf16(v@) == out@ + encode_utf16(v@.skip(i as int)),
        decreases v.len() - i,
    {
        let ghost rest = v@.skip(i as int);
        assert(rest.drop_first() =~= v@.skip(i + 1));
        assert(rest[0] == v@[i as int]);
        push_utf16_char(&mut out, v[i]);
        assert(encode_utf16(rest) == utf16_of_char(v@[i as int]) + encode_utf16(v@.skip(i + 1)));
        i = i + 1;
    }
    assert(v@.skip(v.len() as int) =~= seq![]);
    assert(out@ + seq![] =~= out@);
    out
}

/// Appends the little-endian bytes of the code units `w`.
pub fn push_le_bytes(out: &mut Vec<u8>, w: &[u16])
    ensures
        final(out)@ == old(out)@ + le_bytes(w@),
{
    let mut i: usize = 0;
    assert(w@.skip(0) =~= w@);
    while i < w.len()
        invariant
            i <= w.len(),
            old(out)@ + le_bytes(w@) == out@ + le_bytes(w@.skip(i as int)),
        decreases w.len() - i,
    {
        let ghost rest = w@.skip(i as int);
        assert(rest.drop_first() =~= w@.skip(i + 1));
        assert(rest[0] == w@[i as int]);
        let ghost before = out@;
        out.push((w[i] % 256) as u8);
        out.push((w[i] / 256) as u8);
        assert(out@ =~= before + seq![(w@[i as int] % 256) as u8, (w@[i as int] / 256) as u8]);
        assert(le_bytes(rest) == seq![(w@[i as int] % 256) as u8, (w@[i as int] / 256) as u8]
            + le_bytes(w@.skip(i + 1)));
        i = i + 1;
    }
    assert(w@.skip(w.len() as int) =~= seq![]);
    assert(out@ + seq![] =~= out@);
}

/// The code units held in little-endian bytes; an odd last byte is
/// ignored.
pub fn units_from_le_bytes(b: &[u8]) -> (r: Vec<u16>)
    ensures
        r@ == units_from_le(b@),
{
    let mut out: Vec<u16> = Vec::new();
    let mut i: usize = 0;
    assert(b@.subrange(0, b.len() as int) =~= b@);
    assert(out@ + units_from_le(b@) =~= units_from_le(b@));
    while i + 1 < b.len()
        invariant
            i <= b.len(),
            i % 2 == 0,
            units_from_le(b@) == out@ + units_from_le(b@.subrange(i as int, b.len() as int)),
        decreases b.len() - i,
    {
        let ghost rest = b@.subrange(i as int, b.len() as int);
        assert(rest.subrange(2, rest.len() as int) =~= b@.subrange(i + 2, b.len() as int));
        let unit: u16 = (b[i] as u16) + 256 * (b[i + 1] as u16);
        assert(units_from_le(rest) == seq![unit] + units_from_le(b@.subrange(i + 2, b.len() as int)));
        out.push(unit);
        i = i + 2;
        assert(out@ + units_from_le(b@.subrange(i as int, b.len() as int))
            =~= out@.drop_last() + (seq![unit] + units_from_le(b@.subrange(i as int, b.len() as int))));
    }
    assert(units_from_le(b@.subrange(i as int, b.len() as int)) =~= seq![]);
    assert(out@ + seq![] =~= out@);
    out
}

/// Lossy decoding of UTF-16 code units.
pub fn decode_utf16_lossy_units(w: &[u16]) -> (r: String)
    ensures
        r@ == decode_utf16_lossy(w@),
{
    let mut s = String::new();
    let mut i: usize = 0;
    assert(w@.subrange(0, w.len() as int) =~= w@);
    assert(s@ + decode_utf16_lossy(w@) =~= decode_utf16_lossy(w@));
    while i < w.len()
        invariant
            i <= w.len(),
            decode_utf16_lossy(w@) == s@ + decode_utf16_lossy(w@.subrange(i as int, w.len() as int)),
        decreases w.len() - i,
    {
        let ghost rest = w@.subrange(i as int, w.len() as int);
        let ghost before = s@;
        let u = w[i];
        assert(rest[0] == u);
        if u < 0xD800 || u > 0xDFFF {
            let c = char_from_scalar(u as u32).unwrap();
            push_char(&mut s, c);
            assert(rest.drop_first() =~= w@.subrange(i + 1, w.len() as int));
            proof {
                vstd::utf8::char_u32_cast(c, u as u32);
            }
            assert(c == u as char);
            i = i + 1;
        } else if u <= 0xDBFF && i + 1 < w.len() && 0xDC00 <= w[i + 1] && w[i + 1] <= 0xDFFF {
            let lo = w[i + 1];
            assert(rest[1] == lo);
            let v: u32 = 0x10000 + ((u - 0xD800) as u32) * 0x400 + ((lo - 0xDC00) as u32);
            assert(v == pair_value(u, lo));
            let c = char_from_scalar(v).unwrap();
            push_char(&mut s, c);
            assert(rest.subrange(2, rest.len() as int) =~= w@.subrange(i + 2, w.len() as int));
            proof {
                vstd::utf8::char_u32_cast(c, v);
            }
            assert(c == pair_value(u, lo) as char);
            i = i + 2;
        } else {
            push_char(&mut s, '\u{FFFD}');
            assert(rest.drop_first() =~= w@.subrange(i + 1, w.len() as int));
            i = i + 1;
        }
        assert(s@ + decode_utf16_lossy(w@.subrange(i as int, w.len() as int))
            =~= before + decode_utf16_lossy(rest));
    }
    assert(decode_utf16_lossy(w@.subrange(i as int, w.len() as int)) =~= seq![]);
    assert(s@ + seq![] =~= s@);
    s
}

/// The bytes of two runs of code units are the bytes of each, in order.
pub proof fn lemma_le_bytes_append(a: Seq<u16>, b: Seq<u16>)
    ensures
        le_bytes(a + b) == le_bytes(a) + le_bytes(b),
    decreases a.len(),
{
    if a.len() == 0 {
        assert(a + b =~= b);
        assert(le_bytes(a) + le_bytes(b) =~= le_bytes(b));
    } else {
        assert((a + b).drop_first() =~= a.drop_first() + b);
        lemma_le_bytes_append(a.drop_first(), b);
        assert((a + b)[0] == a[0]);
        let h = seq![(a[0] % 256) as u8, (a[0] / 256) as u8];
        assert(h + (le_bytes(a.drop_first()) + le_bytes(b)) =~= (h + le_bytes(a.drop_first()))
            + le_bytes(b));
    }
}

/// The code units of a text followed by a NUL character.
pub proof fn lemma_encode_utf16_nul(s: Seq<char>)
    ensures
        encode_utf16(s.push('\0')) == encode_utf16(s) + seq![0u16],
{
    lemma_encode_utf16_append(s, seq!['\0']);
    assert(s + seq!['\0'] =~= s.push('\0'));
    let z = seq!['\0'];
    assert(z.drop_first() =~= Seq::<char>::empty());
    assert(z[0] == '\0');
    assert(('\0' as int) == 0);
    assert(utf16_of_char(z[0]) =~= seq![0u16]);
    assert(encode_utf16(z) == utf16_of_char(z[0]) + encode_utf16(z.drop_first()));
    assert(encode_utf16(z) =~= seq![0u16]);
}

} // verus!
