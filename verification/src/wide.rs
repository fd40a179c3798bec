//! UTF-16 ("wide") strings as the Win32 API takes and returns them.

use vstd::prelude::*;
use vstd::utf8::is_scalar;

verus! {

/// The UTF-16 code units of one character: one unit below U+10000,
/// a surrogate pair above.
pub open spec fn utf16_units(c: char) -> Seq<u16> {
    let v = c as u32;
    if v < 0x10000 {
        seq![v as u16]
    } else {
        let w = v - 0x10000;
        seq![(0xD800 + w / 0x400) as u16, (0xDC00 + w % 0x400) as u16]
    }
}

/// The UTF-16 encoding of a character sequence.
pub open spec fn encode_utf16(s: Seq<char>) -> Seq<u16>
    decreases s.len(),
{
    if s.len() == 0 {
        seq![]
    } else {
        utf16_units(s[0]) + encode_utf16(s.drop_first())
    }
}

pub open spec fn is_high_surrogate(u: u16) -> bool {
    0xD800 <= u <= 0xDBFF
}

pub open spec fn is_low_surrogate(u: u16) -> bool {
    0xDC00 <= u <= 0xDFFF
}

pub open spec fn is_surrogate(u: u16) -> bool {
    0xD800 <= u <= 0xDFFF
}

/// The scalar value that a high and a low surrogate stand for together.
pub open spec fn pair_scalar(hi: u16, lo: u16) -> u32 {
    (0x10000 + (hi - 0xD800) * 0x400 + (lo - 0xDC00)) as u32
}

/// Lossy UTF-16 decoding: a surrogate pair gives one character, every unit
/// that is no part of a pair and is a surrogate gives U+FFFD, every other
/// unit gives the character of the same value.
pub open spec fn decode_utf16_lossy(u: Seq<u16>) -> Seq<char>
    decreases u.len(),
{
    if u.len() == 0 {
        seq![]
    } else if !is_surrogate(u[0]) {
        seq![(u[0] as u32) as char] + decode_utf16_lossy(u.drop_first())
    } else if is_high_surrogate(u[0]) && u.len() >= 2 && is_low_surrogate(u[1]) {
        seq![pair_scalar(u[0], u[1]) as char] + decode_utf16_lossy(u.subrange(2, u.len() as int))
    } else {
        seq!['\u{FFFD}'] + decode_utf16_lossy(u.drop_first())
    }
}

/// The units with one trailing NUL removed, if the last unit is NUL.
pub open spec fn strip_trailing_nul(u: Seq<u16>) -> Seq<u16> {
    if u.len() > 0 && u.last() == 0 {
        u.drop_last()
    } else {
        u
    }
}

/// Units read from little-endian byte pairs; an odd last byte is ignored.
pub open spec fn le_units(data: Seq<u8>) -> Seq<u16> {
    Seq::new(data.len() / 2, |i: int| (data[2 * i] + 256 * data[2 * i + 1]) as u16)
}

/// `char::from_u32`: the character of a Unicode scalar value, `None` for a
/// surrogate or for a value above U+10FFFF.
#[verifier::external_body]
fn char_from_u32(v: u32) -> (r: Option<char>)
    ensures
        is_scalar(v) ==> r == Some(v as char),
        !is_scalar(v) ==> r is None,
{
    char::from_u32(v)
}

/// `String::push`: appends one character.
#[verifier::external_body]
pub(crate) fn push_char(s: &mut String, c: char)
    ensures
        final(s)@ == old(s)@.push(c),
{
    s.push(c)
}


/// Encoding distributes over appending one character.
pub proof fn lemma_encode_utf16_push(s: Seq<char>, c: char)
    ensures
        encode_utf16(s.push(c)) == encode_utf16(s) + utf16_units(c),
    decreases s.len(),
{
    if s.len() == 0 {
        assert(s.push(c).drop_first() =~= Seq::<char>::empty());
        assert(encode_utf16(Seq::<char>::empty()) =~= Seq::<u16>::empty());
        assert(encode_utf16(s.push(c)) =~= utf16_units(c));
    } else {
        assert(s.push(c).drop_first() =~= s.drop_first().push(c));
        lemma_encode_utf16_push(s.drop_first(), c);
        assert(encode_utf16(s.push(c)) =~= encode_utf16(s) + utf16_units(c));
    }
}

/// The code units of one character, as `char::encode_utf16` gives them.
fn push_utf16_units(out: &mut Vec<u16>, c: char)
    ensures
        final(out)@ == old(out)@ + utf16_units(c),
{
    let v = c as u32;
    proof {
        vstd::utf8::char_is_scalar(c);
    }
    if v < 0x10000 {
        out.push(v as u16);
    } else {
        let w = v - 0x10000;
        out.push((0xD800 + w / 0x400) as u16);
        out.push((0xDC00 + w % 0x400) as u16);
    }
    assert(final(out)@ =~= old(out)@ + utf16_units(c));
}

/// The string as a NUL-terminated UTF-16 buffer, the form that Win32 calls
/// take for text.
pub fn to_wide_string(s: &str) -> (r: Vec<u16>)
    ensures
        r@ == encode_utf16(s@).push(0u16),
{
    let mut out: Vec<u16> = Vec::new();
    for c in it: s.chars()
        invariant
            it.seq() == s@,
            out@ == encode_utf16(it.seq().take(it.index() as int)),
    {
        proof {
            lemma_encode_utf16_push(it.seq().take(it.index() as int), c);
            assert(it.seq().take(it.index() as int).push(c) =~= it.seq().take(it.index() + 1));
        }
        push_utf16_units(&mut out, c);
    }
    assert(s@.take(s@.len() as int) =~= s@);
    out.push(0u16);
    out
}


/// The characters that lossy decoding gives for the units `u[i..]`.
proof fn lemma_decode_step(u: Seq<u16>, i: int)
    requires
        0 <= i < u.len(),
    ensures
        !is_surrogate(u[i]) ==> decode_utf16_lossy(u.subrange(i, u.len() as int))
            == seq![(u[i] as u32) as char] + decode_utf16_lossy(u.subrange(i + 1, u.len() as int)),
        is_surrogate(u[i]) && is_high_surrogate(u[i]) && i + 1 < u.len() && is_low_surrogate(u[i + 1])
            ==> decode_utf16_lossy(u.subrange(i, u.len() as int))
            == seq![pair_scalar(u[i], u[i + 1]) as char] + decode_utf16_lossy(u.subrange(i + 2, u.len() as int)),
        is_surrogate(u[i]) && !(is_high_surrogate(u[i]) && i + 1 < u.len() && is_low_surrogate(u[i + 1]))
            ==> decode_utf16_lossy(u.subrange(i, u.len() as int))
            == seq!['\u{FFFD}'] + decode_utf16_lossy(u.subrange(i + 1, u.len() as int)),
{
    let t = u.subrange(i, u.len() as int);
    assert(t.drop_first() =~= u.subrange(i + 1, u.len() as int));
    if t.len() >= 2 {
        assert(t.subrange(2, t.len() as int) =~= u.subrange(i + 2, u.len() as int));
    }
}

/// Decodes a UTF-16 buffer, without its trailing NUL if it has one, into a
/// string; invalid units become U+FFFD.
pub fn from_wide_string(wide: &[u16]) -> (r: String)
    ensures
        r@ == decode_utf16_lossy(strip_trailing_nul(wide@)),
{
    let mut len = wide.len();
    if len > 0 && wide[len - 1] == 0 {
        len -= 1;
    }
    let ghost units = strip_trailing_nul(wide@);
    assert(units =~= wide@.subrange(0, len as int));
    let mut out = String::new();
    let mut i: usize = 0;
    assert(units.subrange(0, units.len() as int) =~= units);
    while i < len
        invariant
            len == units.len(),
            len <= wide@.len(),
            units == wide@.subrange(0, len as int),
            i <= len,
            decode_utf16_lossy(units) == out@ + decode_utf16_lossy(units.subrange(i as int, len as int)),
        decreases len - i,
    {
        proof {
            lemma_decode_step(units, i as int);
        }
        let u = wide[i];
        if u < 0xD800 || u > 0xDFFF {
            let c = char_from_u32(u as u32);
            match c {
                Some(c) => push_char(&mut out, c),
                None => push_char(&mut out, '\u{FFFD}'),
            }
            i += 1;
        } else if u <= 0xDBFF && i + 1 < len && wide[i + 1] >= 0xDC00 && wide[i + 1] <= 0xDFFF {
            let lo = wide[i + 1];
            let v: u32 = 0x10000 + (u as u32 - 0xD800) * 0x400 + (lo as u32 - 0xDC00);
            let c = char_from_u32(v);
            match c {
                Some(c) => push_char(&mut out, c),
                None => push_char(&mut out, '\u{FFFD}'),
            }
            i += 2;
        } else {
            push_char(&mut out, '\u{FFFD}');
            i += 1;
        }
        assert(decode_utf16_lossy(units) == out@ + decode_utf16_lossy(units.subrange(i as int, len as int)));
    }
    assert(units.subrange(len as int, len as int) =~= Seq::<u16>::empty());
    assert(out@ + Seq::<char>::empty() =~= out@);
    out
}

/// Decoding the encoding of a character sequence gives it back.
pub proof fn lemma_decode_encode_utf16(s: Seq<char>)
    ensures
        decode_utf16_lossy(encode_utf16(s)) == s,
    decreases s.len(),
{
    if s.len() == 0 {
        assert(encode_utf16(s) =~= Seq::<u16>::empty());
    } else {
        let c = s[0];
        let v = c as u32;
        let rest = encode_utf16(s.drop_first());
        let e = encode_utf16(s);
        lemma_decode_encode_utf16(s.drop_first());
        vstd::utf8::char_is_scalar(c);
        vstd::utf8::char_u32_cast(c, v);
        if v < 0x10000 {
            assert(e =~= seq![v as u16] + rest);
            assert(e.drop_first() =~= rest);
            assert((e[0] as u32) == v);
        } else {
            let w = v - 0x10000;
            let hi = (0xD800 + w / 0x400) as u16;
            let lo = (0xDC00 + w % 0x400) as u16;
            assert(e =~= seq![hi, lo] + rest);
            assert(e.subrange(2, e.len() as int) =~= rest);
            assert(pair_scalar(hi, lo) == v) by {
                assert(w == (w / 0x400) * 0x400 + w % 0x400) by (nonlinear_arith);
            }
        }
        assert(decode_utf16_lossy(e) =~= s);
    }
}

/// Decoding a buffer made by `to_wide_string` gives the string back.
pub proof fn lemma_wide_string_round_trip(s: Seq<char>)
    ensures
        decode_utf16_lossy(strip_trailing_nul(encode_utf16(s).push(0u16))) == s,
{
    assert(strip_trailing_nul(encode_utf16(s).push(0u16)) =~= encode_utf16(s));
    lemma_decode_encode_utf16(s);
}

/// Reads UTF-16 units from little-endian byte pairs, as registry data of a
/// string type holds them; an odd last byte is ignored.
pub fn wide_from_le_bytes(data: &[u8]) -> (r: Vec<u16>)
    ensures
        r@ == le_units(data@),
{
    let n = data.len() / 2;
    let mut out: Vec<u16> = Vec::new();
    let mut i: usize = 0;
    assert(2 * n <= data@.len()) by (nonlinear_arith)
        requires
            n == data@.len() / 2,
    ;
    while i < n
        invariant
            n == data@.len() / 2,
            2 * n <= data@.len(),
            data@.len() == data.len(),
            i <= n,
            out@ =~= le_units(data@).take(i as int),
        decreases n - i,
    {
        let j: usize = i + i;
        assert(j + 1 < data@.len());
        let lo = data[j] as u16;
        let hi = data[j + 1] as u16;
        out.push(lo + 256 * hi);
        i += 1;
    }
    out
}


/// A string without NUL characters encodes to units without a NUL, so the
/// terminator that `to_wide_string` appends is the buffer's first NUL.
pub proof fn lemma_encode_utf16_no_nul(s: Seq<char>)
    requires
        !s.contains('\0'),
    ensures
        !encode_utf16(s).contains(0u16),
    decreases s.len(),
{
    if s.len() > 0 {
        let c = s[0];
        assert(c != '\0');
        vstd::utf8::char_is_scalar(c);
        vstd::utf8::char_u32_cast(c, c as u32);
        assert(!s.drop_first().contains('\0')) by {
            if s.drop_first().contains('\0') {
                let j = choose|j: int| 0 <= j < s.drop_first().len() && s.drop_first()[j] == '\0';
                assert(s[j + 1] == '\0');
            }
        }
        lemma_encode_utf16_no_nul(s.drop_first());
        let u = utf16_units(c);
        let rest = encode_utf16(s.drop_first());
        assert(encode_utf16(s) == u + rest);
        assert(forall|i: int| 0 <= i < u.len() ==> u[i] != 0u16);
        if encode_utf16(s).contains(0u16) {
            let j = choose|j: int| 0 <= j < encode_utf16(s).len() && encode_utf16(s)[j] == 0u16;
            if j < u.len() {
                assert(u[j] == 0u16);
            } else {
                assert(rest[j - u.len()] == 0u16);
            }
        }
    }
}

} // verus!
