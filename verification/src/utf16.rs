//! Little-endian UTF-16, the wire form of registry strings.
//!
//! Registry string values travel as byte arrays holding UTF-16LE code
//! units. This module defines the encoding and decoding of those arrays
//! and proves the two are inverse to one another.
use crate::strutil::char_from_code;
use crate::strutil::chars_to_string;
use vstd::prelude::*;
use vstd::string::StrSliceExecFns;

verus! {

broadcast use {vstd::utf8::char_is_scalar, vstd::utf8::char_u32_cast};

/// A high surrogate: the first unit of a two-unit pair.
pub open spec fn is_high_surrogate(u: u16) -> bool {
    0xD800 <= u < 0xDC00
}

/// A low surrogate: the second unit of a two-unit pair.
pub open spec fn is_low_surrogate(u: u16) -> bool {
    0xDC00 <= u < 0xE000
}

/// The UTF-16 code units of a single character: one unit for the basic
/// plane, a surrogate pair above it.
pub open spec fn units_of_char(c: char) -> Seq<u16> {
    if (c as u32) < 0x10000 {
        seq![(c as u32) as u16]
    } else {
        let v = (c as u32) - 0x10000;
        seq![(0xD800 + v / 0x400) as u16, (0xDC00 + v % 0x400) as u16]
    }
}

/// The UTF-16 code units of a character sequence.
pub open spec fn utf16_units(s: Seq<char>) -> Seq<u16>
    decreases s.len(),
{
    if s.len() == 0 {
        Seq::empty()
    } else {
        units_of_char(s[0]) + utf16_units(s.skip(1))
    }
}

/// Decoding a unit sequence back into characters. `None` when a
/// surrogate appears outside a well-formed high/low pair.
pub open spec fn decode_units(u: Seq<u16>) -> Option<Seq<char>>
    decreases u.len(),
{
    if u.len() == 0 {
        Some(Seq::empty())
    } else if !is_high_surrogate(u[0]) && !is_low_surrogate(u[0]) {
        match decode_units(u.skip(1)) {
            Some(t) => Some(seq![(u[0] as u32) as char] + t),
            None => None,
        }
    } else if is_high_surrogate(u[0]) && u.len() >= 2 && is_low_surrogate(u[1]) {
        let code = ((0x10000 + (u[0] - 0xD800) * 0x400 + (u[1] - 0xDC00)) as u32);
        match decode_units(u.skip(2)) {
            Some(t) => Some(seq![code as char] + t),
            None => None,
        }
    } else {
        None
    }
}

/// Units laid out as little-endian byte pairs.
pub open spec fn le_bytes_of_units(u: Seq<u16>) -> Seq<u8>
    decreases u.len(),
{
    if u.len() == 0 {
        Seq::empty()
    } else {
        seq![(u[0] % 256) as u8, (u[0] / 256) as u8] + le_bytes_of_units(u.skip(1))
    }
}

/// Byte pairs read back as units. A trailing odd byte is ignored.
pub open spec fn units_of_le_bytes(b: Seq<u8>) -> Seq<u16>
    decreases b.len(),
{
    if b.len() < 2 {
        Seq::empty()
    } else {
        seq![(b[0] + 256 * b[1]) as u16] + units_of_le_bytes(b.skip(2))
    }
}

/// The UTF-16LE bytes of a character sequence.
pub open spec fn utf16_bytes(s: Seq<char>) -> Seq<u8> {
    le_bytes_of_units(utf16_units(s))
}

/// Encoding distributes over concatenation.
pub proof fn lemma_utf16_units_append(a: Seq<char>, b: Seq<char>)
    ensures
        utf16_units(a + b) == utf16_units(a) + utf16_units(b),
    decreases a.len(),
{
    if a.len() == 0 {
        assert(a + b =~= b);
        assert(utf16_units(a) + utf16_units(b) =~= utf16_units(b));
    } else {
        assert((a + b).skip(1) =~= a.skip(1) + b);
        lemma_utf16_units_append(a.skip(1), b);
        assert(utf16_units(a + b) =~= utf16_units(a) + utf16_units(b));
    }
}

/// Byte layout distributes over concatenation.
pub proof fn lemma_le_bytes_append(a: Seq<u16>, b: Seq<u16>)
    ensures
        le_bytes_of_units(a + b) == le_bytes_of_units(a) + le_bytes_of_units(b),
    decreases a.len(),
{
    if a.len() == 0 {
        assert(a + b =~= b);
        assert(le_bytes_of_units(a) + le_bytes_of_units(b) =~= le_bytes_of_units(b));
    } else {
        assert((a + b).skip(1) =~= a.skip(1) + b);
        lemma_le_bytes_append(a.skip(1), b);
        assert(le_bytes_of_units(a + b) =~= le_bytes_of_units(a) + le_bytes_of_units(b));
    }
}

/// Units survive the round trip through little-endian bytes.
pub proof fn lemma_units_le_round_trip(u: Seq<u16>)
    ensures
        units_of_le_bytes(le_bytes_of_units(u)) == u,
    decreases u.len(),
{
    if u.len() == 0 {
    } else {
        let b = le_bytes_of_units(u);
        let rest = le_bytes_of_units(u.skip(1));
        assert(b =~= seq![(u[0] % 256) as u8, (u[0] / 256) as u8] + rest);
        assert(b.len() >= 2);
        assert(b[0] == (u[0] % 256) as u8);
        assert(b[1] == (u[0] / 256) as u8);
        assert((b[0] + 256 * b[1]) as u16 == u[0]);
        assert(b.skip(2) =~= rest);
        lemma_units_le_round_trip(u.skip(1));
        assert(units_of_le_bytes(b) =~= u);
    }
}

/// A character's units decode back to that character, whatever follows.
proof fn lemma_char_units_decode(c: char, t: Seq<char>, u: Seq<u16>)
    requires
        decode_units(u) == Some(t),
    ensures
        decode_units(units_of_char(c) + u) == Some(seq![c] + t),
{
    let cv = c as u32;
    if cv < 0x10000 {
        let u0 = (cv as u16);
        assert(u0 as u32 == cv);
        assert(!is_high_surrogate(u0) && !is_low_surrogate(u0));
        let w = units_of_char(c) + u;
        assert(w[0] == u0);
        assert(w.skip(1) =~= u);
        assert((u0 as u32) as char == c);
    } else {
        let v = cv - 0x10000;
        vstd::arithmetic::div_mod::lemma_fundamental_div_mod(v as int, 0x400);
        let hi = (0xD800 + v / 0x400) as u16;
        let lo = (0xDC00 + v % 0x400) as u16;
        assert(0 <= v / 0x400 < 0x400);
        assert(is_high_surrogate(hi) && is_low_surrogate(lo));
        let w = units_of_char(c) + u;
        assert(w[0] == hi && w[1] == lo);
        assert(w.skip(2) =~= u);
        assert((0x10000 + (hi - 0xD800) * 0x400 + (lo - 0xDC00)) as u32 == cv);
        assert((cv as char) == c);
    }
}

/// Decoding inverts encoding at the unit level.
pub proof fn lemma_utf16_units_round_trip(s: Seq<char>)
    ensures
        decode_units(utf16_units(s)) == Some(s),
    decreases s.len(),
{
    if s.len() == 0 {
    } else {
        lemma_utf16_units_round_trip(s.skip(1));
        lemma_char_units_decode(s[0], s.skip(1), utf16_units(s.skip(1)));
        assert(seq![s[0]] + s.skip(1) =~= s);
    }
}

/// Decoding inverts encoding at the byte level.
pub proof fn lemma_utf16_bytes_round_trip(s: Seq<char>)
    ensures
        units_of_le_bytes(utf16_bytes(s)) == utf16_units(s),
        decode_units(units_of_le_bytes(utf16_bytes(s))) == Some(s),
        utf16_bytes(s).len() % 2 == 0,
{
    lemma_units_le_round_trip(utf16_units(s));
    lemma_utf16_units_round_trip(s);
    lemma_le_bytes_even(utf16_units(s));
}

/// The byte layout of any unit sequence has even length.
pub proof fn lemma_le_bytes_even(u: Seq<u16>)
    ensures
        le_bytes_of_units(u).len() == 2 * u.len(),
    decreases u.len(),
{
    if u.len() > 0 {
        lemma_le_bytes_even(u.skip(1));
    }
}

/// Reading units distributes over concatenation at even offsets.
pub proof fn lemma_units_of_le_bytes_append(a: Seq<u8>, b: Seq<u8>)
    requires
        a.len() % 2 == 0,
    ensures
        units_of_le_bytes(a + b) == units_of_le_bytes(a) + units_of_le_bytes(b),
    decreases a.len(),
{
    if a.len() == 0 {
        assert(a + b =~= b);
        assert(units_of_le_bytes(a) + units_of_le_bytes(b) =~= units_of_le_bytes(b));
    } else {
        assert((a + b).skip(2) =~= a.skip(2) + b);
        lemma_units_of_le_bytes_append(a.skip(2), b);
        if b.len() == 0 {
            assert(a + b =~= a);
            assert(units_of_le_bytes(a) + units_of_le_bytes(b) =~= units_of_le_bytes(a));
        } else {
            assert((a + b)[0] == a[0] && (a + b)[1] == a[1]);
            assert(units_of_le_bytes(a + b) =~= units_of_le_bytes(a) + units_of_le_bytes(b));
        }
    }
}

/// UTF-16LE encoding of a string.
pub fn utf16_encode(s: &str) -> (r: Vec<u8>)
    ensures
        r@ == utf16_bytes(s@),
{
    let n = s.unicode_len();
    let mut r: Vec<u8> = Vec::new();
    let mut i: usize = 0;
    while i < n
        invariant
            0 <= i <= n,
            n == s@.len(),
            r@ == utf16_bytes(s@.take(i as int)),
        decreases n - i,
    {
        let c = s.get_char(i);
        let cv = c as u32;
        let ghost prefix = s@.take(i as int);
        if cv < 0x10000 {
            let u = cv as u16;
            r.push((u % 256) as u8);
            r.push((u / 256) as u8);
            proof {
                assert(units_of_char(c) =~= seq![u]);
                assert(seq![u].skip(1) =~= Seq::<u16>::empty());
                assert(le_bytes_of_units(Seq::<u16>::empty()) == Seq::<u8>::empty());
                assert(le_bytes_of_units(seq![u]) =~= seq![(u % 256) as u8, (u / 256) as u8]);
            }
        } else {
            let v = cv - 0x10000;
            let hi = (0xD800 + v / 0x400) as u16;
            let lo = (0xDC00 + v % 0x400) as u16;
            r.push((hi % 256) as u8);
            r.push((hi / 256) as u8);
            r.push((lo % 256) as u8);
            r.push((lo / 256) as u8);
            proof {
                assert(units_of_char(c) =~= seq![hi, lo]);
                assert(seq![hi, lo].skip(1) =~= seq![lo]);
                assert(seq![lo].skip(1) =~= Seq::<u16>::empty());
                assert(le_bytes_of_units(Seq::<u16>::empty()) == Seq::<u8>::empty());
                assert(le_bytes_of_units(seq![lo]) =~= seq![(lo % 256) as u8, (lo / 256) as u8]);
                assert(le_bytes_of_units(seq![hi, lo]) =~= seq![
                    (hi % 256) as u8,
                    (hi / 256) as u8,
                    (lo % 256) as u8,
                    (lo / 256) as u8,
                ]);
            }
        }
        proof {
            assert(s@.take(i + 1) =~= prefix + seq![c]);
            assert(seq![c].skip(1) =~= Seq::<char>::empty());
            assert(utf16_units(Seq::<char>::empty()) == Seq::<u16>::empty());
            assert(utf16_units(seq![c]) =~= units_of_char(c));
            lemma_utf16_units_append(prefix, seq![c]);
            lemma_le_bytes_append(utf16_units(prefix), units_of_char(c));
            assert(r@ =~= utf16_bytes(s@.take(i + 1)));
        }
        i += 1;
    }
    assert(s@.take(n as int) =~= s@);
    r
}

/// UTF-16LE bytes split into code units; `None` when a byte is left over.
pub fn utf16_bytes_to_units(b: &Vec<u8>) -> (r: Option<Vec<u16>>)
    ensures
        match r {
            Some(u) => b@.len() % 2 == 0 && u@ == units_of_le_bytes(b@),
            None => b@.len() % 2 != 0,
        },
{
    let n = b.len();
    if n % 2 != 0 {
        return None;
    }
    let mut u: Vec<u16> = Vec::new();
    let mut i: usize = 0;
    while i < n
        invariant
            0 <= i <= n,
            i % 2 == 0,
            n % 2 == 0,
            n == b@.len(),
            u@ == units_of_le_bytes(b@.take(i as int)),
        decreases n - i,
    {
        let unit = (b[i] as u16) + 256 * (b[i + 1] as u16);
        u.push(unit);
        proof {
            let ghost prefix = b@.take(i as int);
            let ghost pair = seq![b@[i as int], b@[i as int + 1]];
            assert(b@.take(i + 2) =~= prefix + pair);
            lemma_units_of_le_bytes_append(prefix, pair);
            assert(pair.skip(2) =~= Seq::<u8>::empty());
            assert(units_of_le_bytes(Seq::<u8>::empty()) == Seq::<u16>::empty());
            assert(units_of_le_bytes(pair) =~= seq![unit]);
            assert(u@ =~= units_of_le_bytes(b@.take(i + 2)));
        }
        i += 2;
    }
    assert(b@.take(n as int) =~= b@);
    Some(u)
}

/// Code units decoded into a string; `None` on a malformed surrogate.
pub fn utf16_units_to_string(u: &Vec<u16>) -> (r: Option<String>)
    ensures
        match r {
            Some(s) => decode_units(u@) == Some(s@),
            None => decode_units(u@) is None,
        },
{
    let n = u.len();
    let mut acc: Vec<char> = Vec::new();
    let mut i: usize = 0;
    proof {
        assert(u@.skip(0) =~= u@);
        if decode_units(u@) is Some {
            let t = decode_units(u@)->Some_0;
            assert(Seq::<char>::empty() + t =~= t);
        }
    }
    while i < n
        invariant
            0 <= i <= n,
            n == u@.len(),
            decode_units(u@) == (match decode_units(u@.skip(i as int)) {
                Some(t) => Some(acc@ + t),
                None => None::<Seq<char>>,
            }),
        decreases n - i,
    {
        let unit = u[i];
        let ghost rest = u@.skip(i as int);
        assert(rest[0] == u@[i as int]);
        if unit < 0xD800 || unit >= 0xE000 {
            let c = char_from_code(unit as u32);
            proof {
                assert(rest.skip(1) =~= u@.skip(i + 1));
                assert((unit as u32) as char == c);
                if decode_units(u@.skip(i + 1)) is Some {
                    let t = decode_units(u@.skip(i + 1))->Some_0;
                    assert(decode_units(rest) == Some(seq![c] + t));
                    assert(acc@ + (seq![c] + t) =~= acc@.push(c) + t);
                }
            }
            acc.push(c);
            i += 1;
        } else if unit < 0xDC00 && i + 1 < n && 0xDC00 <= u[i + 1] && u[i + 1] < 0xE000 {
            let lo = u[i + 1];
            let code = 0x10000 + ((unit - 0xD800) as u32) * 0x400 + ((lo - 0xDC00) as u32);
            let c = char_from_code(code);
            proof {
                assert(rest.len() >= 2 && rest[1] == u@[i as int + 1]);
                assert(rest.skip(2) =~= u@.skip(i + 2));
                assert((code as u32) as char == c);
                if decode_units(u@.skip(i + 2)) is Some {
                    let t = decode_units(u@.skip(i + 2))->Some_0;
                    assert(decode_units(rest) == Some(seq![c] + t));
                    assert(acc@ + (seq![c] + t) =~= acc@.push(c) + t);
                }
            }
            acc.push(c);
            i += 2;
        } else {
            proof {
                assert(decode_units(rest) is None);
            }
            return None;
        }
    }
    proof {
        assert(u@.skip(n as int) =~= Seq::<u16>::empty());
        assert(decode_units(u@) == Some(acc@ + Seq::<char>::empty()));
        assert(acc@ + Seq::<char>::empty() =~= acc@);
    }
    Some(chars_to_string(&acc))
}

/// A string read out of UTF-16LE bytes; `None` on odd length or a
/// malformed surrogate.
pub open spec fn utf16_str_of_bytes(b: Seq<u8>) -> Option<Seq<char>> {
    if b.len() % 2 == 0 {
        decode_units(units_of_le_bytes(b))
    } else {
        None
    }
}

/// UTF-16LE bytes decoded into a string.
pub fn utf16_decode(b: &Vec<u8>) -> (r: Option<String>)
    ensures
        match r {
            Some(s) => utf16_str_of_bytes(b@) == Some(s@),
            None => utf16_str_of_bytes(b@) is None,
        },
{
    match utf16_bytes_to_units(b) {
        Some(u) => utf16_units_to_string(&u),
        None => None,
    }
}

/// Every string survives the byte-level round trip.
pub proof fn lemma_utf16_string_round_trip(s: Seq<char>)
    ensures
        utf16_str_of_bytes(utf16_bytes(s)) == Some(s),
{
    lemma_utf16_bytes_round_trip(s);
}

} // verus!
