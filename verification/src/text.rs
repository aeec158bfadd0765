//! The string sub-codec shared by several message payloads: a 16-bit count of
//! UTF-16 code units, followed by that many code units, each written as two
//! big-endian bytes. The count measures code units, not bytes and not
//! characters: a character outside the Basic Multilingual Plane contributes a
//! surrogate pair of two code units.

use vstd::prelude::*;

use crate::error::CodecError;
use crate::wire::{be2_bytes, be2_val, Cursor};

verus! {

// ---------------------------------------------------------------------------
// UTF-16 encoding and decoding, at the specification level
// ---------------------------------------------------------------------------

/// The UTF-16 code units of one character: the scalar value itself for a
/// character in the Basic Multilingual Plane, a surrogate pair otherwise.
pub open spec fn char_units(c: char) -> Seq<u16> {
    let v = c as u32;
    if v < 0x10000 {
        seq![v as u16]
    } else {
        seq![
            (0xD800 + (v - 0x10000) / 0x400) as u16,
            (0xDC00 + (v - 0x10000) % 0x400) as u16,
        ]
    }
}

/// The UTF-16 code units of a character sequence.
pub open spec fn utf16_units(s: Seq<char>) -> Seq<u16>
    decreases s.len(),
{
    if s.len() == 0 {
        Seq::empty()
    } else {
        char_units(s[0]) + utf16_units(s.drop_first())
    }
}

/// A code unit reserved for the first half of a surrogate pair.
pub open spec fn is_high_surrogate(u: u16) -> bool {
    0xD800 <= u < 0xDC00
}

/// A code unit reserved for the second half of a surrogate pair.
pub open spec fn is_low_surrogate(u: u16) -> bool {
    0xDC00 <= u < 0xE000
}

/// The scalar value a surrogate pair stands for.
pub open spec fn pair_scalar(hi: u16, lo: u16) -> u32
    recommends
        is_high_surrogate(hi),
        is_low_surrogate(lo),
{
    (0x10000 + (hi - 0xD800) * 0x400 + (lo - 0xDC00)) as u32
}

/// The characters encoded by a sequence of UTF-16 code units, or `None` when
/// the sequence is not valid UTF-16 (a surrogate half outside a proper pair).
pub open spec fn chars_of_units(us: Seq<u16>) -> Option<Seq<char>>
    decreases us.len(),
{
    if us.len() == 0 {
        Some(Seq::empty())
    } else if !is_high_surrogate(us[0]) && !is_low_surrogate(us[0]) {
        match chars_of_units(us.drop_first()) {
            Some(t) => Some(seq![(us[0] as u32) as char] + t),
            None => None,
        }
    } else if is_high_surrogate(us[0]) && us.len() >= 2 && is_low_surrogate(us[1]) {
        match chars_of_units(us.skip(2)) {
            Some(t) => Some(seq![pair_scalar(us[0], us[1]) as char] + t),
            None => None,
        }
    } else {
        None
    }
}

/// The big-endian bytes of a sequence of code units.
pub open spec fn bytes_of_units(us: Seq<u16>) -> Seq<u8>
    decreases us.len(),
{
    if us.len() == 0 {
        Seq::empty()
    } else {
        be2_bytes(us[0]) + bytes_of_units(us.drop_first())
    }
}

/// The code units read big-endian from a byte sequence, two bytes at a time.
pub open spec fn units_of_bytes(b: Seq<u8>) -> Seq<u16>
    recommends
        b.len() % 2 == 0,
    decreases b.len(),
{
    if b.len() < 2 {
        Seq::empty()
    } else {
        seq![be2_val(b.take(2))] + units_of_bytes(b.skip(2))
    }
}

/// Whether a string's code-unit count fits the 16-bit length prefix.
pub open spec fn string_fits(s: Seq<char>) -> bool {
    utf16_units(s).len() <= 0xFFFF
}

/// The wire form of a string field: the big-endian code-unit count, then the
/// code units, each as two big-endian bytes.
pub open spec fn string_wire(s: Seq<char>) -> Seq<u8>
    recommends
        string_fits(s),
{
    be2_bytes(utf16_units(s).len() as u16) + bytes_of_units(utf16_units(s))
}

/// Parses a string field from the front of `b`: the characters, and the
/// number of bytes consumed.
pub open spec fn spec_take_string(b: Seq<u8>) -> Result<(Seq<char>, int), CodecError> {
    if b.len() < 2 {
        Err(CodecError::TruncatedMessage)
    } else {
        let n = be2_val(b.take(2)) as int;
        if b.len() < 2 + 2 * n {
            Err(CodecError::TruncatedMessage)
        } else {
            match chars_of_units(units_of_bytes(b.subrange(2, 2 + 2 * n))) {
                Some(cs) => Ok((cs, 2 + 2 * n)),
                None => Err(CodecError::MalformedText),
            }
        }
    }
}

// ---------------------------------------------------------------------------
// Lemmas about the encoding
// ---------------------------------------------------------------------------

/// UTF-16 encoding distributes over concatenation.
pub proof fn lemma_utf16_units_concat(a: Seq<char>, b: Seq<char>)
    ensures
        utf16_units(a + b) == utf16_units(a) + utf16_units(b),
    decreases a.len(),
{
    if a.len() == 0 {
        assert(a + b =~= b);
        assert(utf16_units(a) + utf16_units(b) =~= utf16_units(b));
    } else {
        assert((a + b).drop_first() =~= a.drop_first() + b);
        lemma_utf16_units_concat(a.drop_first(), b);
        assert(char_units(a[0]) + (utf16_units(a.drop_first()) + utf16_units(b)) =~= (char_units(
            a[0],
        ) + utf16_units(a.drop_first())) + utf16_units(b));
    }
}

/// The code units of a single character.
pub proof fn lemma_utf16_units_one(c: char)
    ensures
        utf16_units(seq![c]) == char_units(c),
{
    assert(seq![c].drop_first() =~= Seq::<char>::empty());
    assert(utf16_units(Seq::<char>::empty()) == Seq::<u16>::empty());
    assert(char_units(c) + Seq::<u16>::empty() =~= char_units(c));
}

/// Byte conversion distributes over code-unit concatenation.
pub proof fn lemma_bytes_of_units_concat(a: Seq<u16>, b: Seq<u16>)
    ensures
        bytes_of_units(a + b) == bytes_of_units(a) + bytes_of_units(b),
    decreases a.len(),
{
    if a.len() == 0 {
        assert(a + b =~= b);
        assert(bytes_of_units(a) + bytes_of_units(b) =~= bytes_of_units(b));
    } else {
        assert((a + b).drop_first() =~= a.drop_first() + b);
        lemma_bytes_of_units_concat(a.drop_first(), b);
        assert(be2_bytes(a[0]) + (bytes_of_units(a.drop_first()) + bytes_of_units(b)) =~= (
        be2_bytes(a[0]) + bytes_of_units(a.drop_first())) + bytes_of_units(b));
    }
}

/// The bytes of a single code unit.
pub proof fn lemma_bytes_of_units_one(u: u16)
    ensures
        bytes_of_units(seq![u]) == be2_bytes(u),
{
    assert(seq![u].drop_first() =~= Seq::<u16>::empty());
    assert(bytes_of_units(Seq::<u16>::empty()) == Seq::<u8>::empty());
    assert(be2_bytes(u) + Seq::<u8>::empty() =~= be2_bytes(u));
}

/// Every code unit takes exactly two bytes.
pub proof fn lemma_bytes_of_units_len(us: Seq<u16>)
    ensures
        bytes_of_units(us).len() == 2 * us.len(),
    decreases us.len(),
{
    if us.len() > 0 {
        lemma_bytes_of_units_len(us.drop_first());
    }
}

/// Unit splitting distributes over concatenation at an even boundary.
pub proof fn lemma_units_of_bytes_concat(a: Seq<u8>, b: Seq<u8>)
    requires
        a.len() % 2 == 0,
    ensures
        units_of_bytes(a + b) == units_of_bytes(a) + units_of_bytes(b),
    decreases a.len(),
{
    if a.len() == 0 {
        assert(a + b =~= b);
        assert(units_of_bytes(a) + units_of_bytes(b) =~= units_of_bytes(b));
    } else {
        assert((a + b).take(2) =~= a.take(2));
        assert((a + b).skip(2) =~= a.skip(2) + b);
        lemma_units_of_bytes_concat(a.skip(2), b);
        assert(seq![be2_val(a.take(2))] + (units_of_bytes(a.skip(2)) + units_of_bytes(b)) =~= (
        seq![be2_val(a.take(2))] + units_of_bytes(a.skip(2))) + units_of_bytes(b));
    }
}

/// Splitting the bytes of a unit sequence gives the units back.
pub proof fn lemma_units_of_bytes_of_units(us: Seq<u16>)
    ensures
        units_of_bytes(bytes_of_units(us)) == us,
    decreases us.len(),
{
    if us.len() == 0 {
        assert(units_of_bytes(bytes_of_units(us)) =~= us);
    } else {
        let bs = bytes_of_units(us);
        lemma_bytes_of_units_len(us);
        lemma_bytes_of_units_len(us.drop_first());
        assert(bs.take(2) =~= be2_bytes(us[0]));
        assert(bs.skip(2) =~= bytes_of_units(us.drop_first()));
        crate::wire::lemma_be2_roundtrip(us[0]);
        lemma_units_of_bytes_of_units(us.drop_first());
        assert(seq![us[0]] + us.drop_first() =~= us);
    }
}

/// Decoding the UTF-16 code units of any character sequence gives the
/// sequence back: the encoding loses nothing, surrogate pairs included.
pub proof fn lemma_utf16_roundtrip(s: Seq<char>)
    ensures
        chars_of_units(utf16_units(s)) == Some(s),
    decreases s.len(),
{
    if s.len() == 0 {
        assert(chars_of_units(utf16_units(s)) == Some(Seq::<char>::empty()));
        assert(Seq::<char>::empty() =~= s);
    } else {
        let c = s[0];
        let v = c as u32;
        vstd::utf8::char_is_scalar(c);
        let us = utf16_units(s);
        let tail_units = utf16_units(s.drop_first());
        lemma_utf16_roundtrip(s.drop_first());
        if v < 0x10000 {
            let u = v as u16;
            assert(us == seq![u] + tail_units);
            assert(us.drop_first() =~= tail_units);
            assert(!is_high_surrogate(u) && !is_low_surrogate(u));
            vstd::utf8::char_u32_cast(c, u as u32);
            assert((u as u32) as char == c);
            assert(seq![c] + s.drop_first() =~= s);
        } else {
            let x = v - 0x10000;
            let hi = (0xD800 + x / 0x400) as u16;
            let lo = (0xDC00 + x % 0x400) as u16;
            assert(x < 0x100000);
            assert(x / 0x400 < 0x400);
            assert(us == seq![hi, lo] + tail_units);
            assert(us.len() >= 2 && us[0] == hi && us[1] == lo);
            assert(is_high_surrogate(hi) && is_low_surrogate(lo));
            assert(us.skip(2) =~= tail_units);
            assert(pair_scalar(hi, lo) == v);
            vstd::utf8::char_u32_cast(c, pair_scalar(hi, lo));
            assert(pair_scalar(hi, lo) as char == c);
            assert(seq![c] + s.drop_first() =~= s);
        }
    }
}

/// A string field parses back from its own wire form, whatever follows it,
/// consuming exactly the wire form's bytes.
pub proof fn lemma_take_string_wire(s: Seq<char>, rest: Seq<u8>)
    requires
        string_fits(s),
    ensures
        string_wire(s).len() == 2 + 2 * utf16_units(s).len(),
        spec_take_string(string_wire(s) + rest) == Ok::<(Seq<char>, int), CodecError>(
            (s, string_wire(s).len() as int),
        ),
{
    let us = utf16_units(s);
    let n = us.len() as int;
    lemma_bytes_of_units_len(us);
    let b = string_wire(s) + rest;
    assert(b.take(2) =~= be2_bytes(n as u16));
    crate::wire::lemma_be2_roundtrip(n as u16);
    assert(be2_val(b.take(2)) == n);
    assert(b.len() >= 2 + 2 * n);
    assert(b.subrange(2, 2 + 2 * n) =~= bytes_of_units(us));
    lemma_units_of_bytes_of_units(us);
    lemma_utf16_roundtrip(s);
}

/// Any strict prefix of a string field's wire form is reported truncated.
pub proof fn lemma_take_string_truncated(s: Seq<char>, p: Seq<u8>)
    requires
        string_fits(s),
        p.len() < string_wire(s).len(),
        p == string_wire(s).take(p.len() as int),
    ensures
        spec_take_string(p) == Err::<(Seq<char>, int), CodecError>(CodecError::TruncatedMessage),
{
    let us = utf16_units(s);
    let n = us.len() as int;
    lemma_bytes_of_units_len(us);
    if p.len() >= 2 {
        assert(p.take(2) =~= be2_bytes(n as u16));
        crate::wire::lemma_be2_roundtrip(n as u16);
        assert(be2_val(p.take(2)) == n);
        assert(p.len() < 2 + 2 * n);
    }
}

// ---------------------------------------------------------------------------
// Trusted bridges to the standard library
// ---------------------------------------------------------------------------

/// Relies on char::from_u32: `Some` exactly for a Unicode scalar value (at
/// most 0x10FFFF and not a surrogate), and the character carries that value.
#[verifier::external_body]
fn char_from_u32(v: u32) -> (r: Option<char>)
    ensures
        r is Some <==> vstd::utf8::is_scalar(v),
        r matches Some(c) ==> c as u32 == v,
{
    char::from_u32(v)
}

/// Relies on String::push: appends the given character to the end of the
/// string.
#[verifier::external_body]
fn push_char(s: &mut String, c: char)
    ensures
        final(s)@ == old(s)@.push(c),
{
    s.push(c);
}

// ---------------------------------------------------------------------------
// Executable string codec
// ---------------------------------------------------------------------------

/// The string's UTF-16 code-unit count, when it fits the 16-bit length
/// prefix; `OversizedText` when it does not.
#[verifier::loop_isolation(false)]
pub fn utf16_count(s: &str) -> (r: Result<u16, CodecError>)
    ensures
        match r {
            Ok(n) => string_fits(s@) && n == utf16_units(s@).len(),
            Err(e) => e == CodecError::OversizedText && !string_fits(s@),
        },
{
    let len: usize = s.unicode_len();
    let mut count: usize = 0;
    let mut i: usize = 0;
    while i < len
        invariant
            i <= len,
            len == s@.len(),
            count == utf16_units(s@.take(i as int)).len(),
            count <= 0xFFFF,
        decreases len - i,
    {
        let c: char = s.get_char(i);
        let w: usize = if (c as u32) < 0x10000 {
            1
        } else {
            2
        };
        proof {
            assert(s@.take(i + 1) =~= s@.take(i as int) + seq![s@[i as int]]);
            lemma_utf16_units_concat(s@.take(i as int), seq![s@[i as int]]);
            lemma_utf16_units_one(s@[i as int]);
        }
        if count + w > 0xFFFF {
            proof {
                assert(s@ =~= s@.take(i + 1) + s@.skip(i + 1));
                lemma_utf16_units_concat(s@.take(i + 1), s@.skip(i + 1));
            }
            return Err(CodecError::OversizedText);
        }
        count = count + w;
        i = i + 1;
    }
    proof {
        assert(s@.take(len as int) =~= s@);
    }
    Ok(count as u16)
}

/// Writes a string field to the buffer: the 16-bit code-unit count, then the
/// code units, all big-endian. Fails, leaving the buffer untouched, only when
/// the count does not fit 16 bits.
#[verifier::loop_isolation(false)]
pub fn put_string(buffer: &mut Vec<u8>, s: &str) -> (r: Result<(), CodecError>)
    ensures
        match r {
            Ok(_) => string_fits(s@) && final(buffer)@ == old(buffer)@ + string_wire(s@),
            Err(e) => {
                &&& e == CodecError::OversizedText
                &&& !string_fits(s@)
                &&& final(buffer)@ == old(buffer)@
            },
        },
{
    let n: u16 = match utf16_count(s) {
        Ok(n) => n,
        Err(e) => {
            return Err(e);
        },
    };
    crate::wire::put_u16(buffer, n);
    proof {
        assert(s@.take(0) =~= Seq::<char>::empty());
        assert(bytes_of_units(utf16_units(s@.take(0))) =~= Seq::<u8>::empty());
        assert(buffer@ =~= old(buffer)@ + be2_bytes(n) + bytes_of_units(utf16_units(s@.take(0))));
    }
    let len: usize = s.unicode_len();
    let mut i: usize = 0;
    while i < len
        invariant
            i <= len,
            len == s@.len(),
            string_fits(s@),
            n == utf16_units(s@).len(),
            buffer@ == old(buffer)@ + be2_bytes(n) + bytes_of_units(utf16_units(s@.take(i as int))),
        decreases len - i,
    {
        let ghost before = buffer@;
        let c: char = s.get_char(i);
        proof {
            vstd::utf8::char_is_scalar(c);
        }
        let v: u32 = c as u32;
        if v < 0x10000 {
            crate::wire::put_u16(buffer, v as u16);
            proof {
                lemma_bytes_of_units_one(v as u16);
                assert(buffer@ =~= before + bytes_of_units(char_units(c)));
            }
        } else {
            let x: u32 = v - 0x10000;
            let hi: u16 = (0xD800 + x / 0x400) as u16;
            let lo: u16 = (0xDC00 + x % 0x400) as u16;
            proof {
                assert(x < 0x100000);
                assert(x / 0x400 < 0x400);
            }
            crate::wire::put_u16(buffer, hi);
            crate::wire::put_u16(buffer, lo);
            proof {
                assert(char_units(c) =~= seq![hi] + seq![lo]);
                lemma_bytes_of_units_concat(seq![hi], seq![lo]);
                lemma_bytes_of_units_one(hi);
                lemma_bytes_of_units_one(lo);
                assert(buffer@ =~= before + bytes_of_units(char_units(c)));
            }
        }
        proof {
            assert(s@.take(i + 1) =~= s@.take(i as int) + seq![s@[i as int]]);
            lemma_utf16_units_concat(s@.take(i as int), seq![s@[i as int]]);
            lemma_utf16_units_one(s@[i as int]);
            lemma_bytes_of_units_concat(
                utf16_units(s@.take(i as int)),
                char_units(s@[i as int]),
            );
            assert(buffer@ =~= old(buffer)@ + be2_bytes(n) + bytes_of_units(
                utf16_units(s@.take(i + 1)),
            ));
        }
        i = i + 1;
    }
    proof {
        assert(s@.take(len as int) =~= s@);
        assert(buffer@ =~= old(buffer)@ + string_wire(s@));
    }
    Ok(())
}

/// Reads a string field from the cursor: the 16-bit code-unit count, that
/// many big-endian code units, reassembled into a string. The bytes are
/// consumed even when the units turn out not to be valid UTF-16.
#[verifier::loop_isolation(false)]
pub fn read_string(cursor: &mut Cursor) -> (r: Result<String, CodecError>)
    requires
        old(cursor).wf(),
    ensures
        final(cursor).wf(),
        final(cursor).buf() == old(cursor).buf(),
        final(cursor).pos() >= old(cursor).pos(),
        match (r, spec_take_string(old(cursor).remaining_bytes())) {
            (Ok(s), Ok((cs, used))) => s@ == cs && final(cursor).pos() == old(cursor).pos() + used,
            (Err(e1), Err(e2)) => e1 == e2 && (e1 == CodecError::MalformedText
                ==> final(cursor).pos() == old(cursor).pos() + 2 + 2 * (be2_val(
                old(cursor).remaining_bytes().take(2),
            ) as int)),
            _ => false,
        },
{
    let ghost b = old(cursor).remaining_bytes();
    let n: u16 = match cursor.get_u16() {
        Ok(v) => v,
        Err(e) => {
            return Err(e);
        },
    };
    let n_units: usize = n as usize;
    if cursor.remaining() < 2 * n_units {
        return Err(CodecError::TruncatedMessage);
    }
    let ghost region = b.subrange(2, 2 + 2 * (n as int));
    proof {
        assert(cursor.remaining_bytes() =~= b.skip(2));
        assert(region =~= b.skip(2).take(2 * (n as int)));
        assert(region =~= cursor.buf().subrange(cursor.pos(), cursor.pos() + 2 * (n as int)));
    }

    // First pass: consume the code units.
    let ghost pos_units = cursor.pos();
    let mut units: Vec<u16> = Vec::new();
    let mut j: usize = 0;
    while j < n_units
        invariant
            j <= n_units,
            n_units == n as int,
            cursor.wf(),
            cursor.buf() == old(cursor).buf(),
            cursor.pos() == pos_units + 2 * j,
            pos_units + 2 * (n as int) <= cursor.buf().len(),
            region == cursor.buf().subrange(pos_units, pos_units + 2 * (n as int)),
            units@ == units_of_bytes(region.take(2 * j as int)),
            units@.len() == j,
        decreases n_units - j,
    {
        let u: u16 = match cursor.get_u16() {
            Ok(u) => u,
            Err(_) => {
                proof {
                    assert(false);
                }
                return Err(CodecError::TruncatedMessage);
            },
        };
        proof {
            let two = region.subrange(2 * j as int, 2 * j + 2);
            assert(cursor.buf().skip(pos_units + 2 * j).take(2) =~= two);
            assert(region.take(2 * j + 2) =~= region.take(2 * j as int) + two);
            lemma_units_of_bytes_concat(region.take(2 * j as int), two);
            assert(two.skip(2) =~= Seq::<u8>::empty());
            assert(two.take(2) =~= two);
            assert(units_of_bytes(Seq::<u8>::empty()) == Seq::<u16>::empty());
            assert(units_of_bytes(two) =~= seq![be2_val(two)]);
            assert(units@.push(u) =~= units@ + seq![u]);
        }
        units.push(u);
        j = j + 1;
    }
    proof {
        assert(region.take(2 * (n as int)) =~= region);
    }

    // Second pass: pair surrogates and rebuild the characters.
    let mut out: String = String::new();
    proof {
        assert(units@.skip(0) =~= units@);
        if let Some(t) = chars_of_units(units@) {
            assert(Seq::<char>::empty() + t =~= t);
        }
    }
    let mut k: usize = 0;
    while k < n_units
        invariant
            k <= n_units,
            n_units == units@.len(),
            cursor.wf(),
            cursor.buf() == old(cursor).buf(),
            cursor.pos() == pos_units + 2 * (n as int),
            pos_units >= old(cursor).pos(),
            match chars_of_units(units@.skip(k as int)) {
                Some(t) => chars_of_units(units@) == Some(out@ + t),
                None => chars_of_units(units@) is None,
            },
        decreases n_units - k,
    {
        let ghost us = units@;
        let u: u16 = units[k];
        if u < 0xD800 || u >= 0xE000 {
            proof {
                assert(vstd::utf8::is_scalar(u as u32));
            }
            let c: char = match char_from_u32(u as u32) {
                Some(c) => c,
                None => {
                    proof {
                        assert(false);
                    }
                    return Err(CodecError::MalformedText);
                },
            };
            let ghost prev_out = out@;
            push_char(&mut out, c);
            proof {
                assert(us.skip(k as int).drop_first() =~= us.skip(k + 1));
                vstd::utf8::char_u32_cast(c, u as u32);
                assert((us.skip(k as int)[0] as u32) as char == c);
                assert(out@ =~= prev_out + seq![c]);
                if let Some(t) = chars_of_units(us.skip(k + 1)) {
                    assert(prev_out + (seq![c] + t) =~= (prev_out + seq![c]) + t);
                }
            }
            k = k + 1;
        } else if u < 0xDC00 {
            // A high surrogate must be followed by a low surrogate.
            if k + 1 >= n_units {
                return Err(CodecError::MalformedText);
            }
            let u2: u16 = units[k + 1];
            if !(0xDC00 <= u2 && u2 < 0xE000) {
                return Err(CodecError::MalformedText);
            }
            let v: u32 = 0x10000 + ((u as u32) - 0xD800) * 0x400 + ((u2 as u32) - 0xDC00);
            proof {
                assert(vstd::utf8::is_scalar(v));
            }
            let c: char = match char_from_u32(v) {
                Some(c) => c,
                None => {
                    proof {
                        assert(false);
                    }
                    return Err(CodecError::MalformedText);
                },
            };
            let ghost prev_out = out@;
            push_char(&mut out, c);
            proof {
                assert(us.skip(k as int).skip(2) =~= us.skip(k + 2));
                assert(pair_scalar(us.skip(k as int)[0], us.skip(k as int)[1]) == v);
                vstd::utf8::char_u32_cast(c, v);
                assert(pair_scalar(us.skip(k as int)[0], us.skip(k as int)[1]) as char == c);
                assert(out@ =~= prev_out + seq![c]);
                if let Some(t) = chars_of_units(us.skip(k + 2)) {
                    assert(prev_out + (seq![c] + t) =~= (prev_out + seq![c]) + t);
                }
            }
            k = k + 2;
        } else {
            // A lone low surrogate is never valid.
            return Err(CodecError::MalformedText);
        }
    }
    proof {
        assert(units@.skip(n_units as int) =~= Seq::<u16>::empty());
        assert(out@ + Seq::<char>::empty() =~= out@);
    }
    Ok(out)
}

} // verus!
