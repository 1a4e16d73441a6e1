//! Recognition of GUID-shaped text: eight, four, four, four and twelve
//! hexadecimal digits joined by dashes.
use crate::strutil::chars_to_string;
use crate::strutil::str_chars;
use vstd::prelude::*;
use vstd::string::StrSliceExecFns;

verus! {

/// A hexadecimal digit character, either case.
pub open spec fn is_hex_char(c: char) -> bool {
    (0x30 <= (c as u32) && (c as u32) <= 0x39) || (0x61 <= (c as u32) && (c as u32) <= 0x66) || (
    0x41 <= (c as u32) && (c as u32) <= 0x46)
}

/// A GUID-shaped substring starts at index `i`: 36 characters, dashes
/// at offsets 8, 13, 18 and 23, hexadecimal digits everywhere else.
pub open spec fn is_guid_at(s: Seq<char>, i: int) -> bool {
    &&& 0 <= i
    &&& i + 36 <= s.len()
    &&& (forall|k: int|
        i <= k < i + 36 && k != i + 8 && k != i + 13 && k != i + 18 && k != i + 23 ==> is_hex_char(
            #[trigger] s[k],
        ))
    &&& s[i + 8] == '-'
    &&& s[i + 13] == '-'
    &&& s[i + 18] == '-'
    &&& s[i + 23] == '-'
}

/// Dropping a prefix does not change whether a GUID starts right after it.
proof fn lemma_guid_at_shift(s: Seq<char>, i: int)
    requires
        0 <= i <= s.len(),
    ensures
        is_guid_at(s.skip(i), 0) == is_guid_at(s, i),
{
    let rest = s.skip(i);
    if is_guid_at(rest, 0) {
        assert forall|k: int|
            i <= k < i + 36 && k != i + 8 && k != i + 13 && k != i + 18 && k != i + 23 implies
        is_hex_char(#[trigger] s[k]) by {
            assert(rest[k - i] == s[k]);
            assert(is_hex_char(rest[k - i]));
        }
        assert(s[i + 8] == rest[8] && s[i + 13] == rest[13] && s[i + 18] == rest[18] && s[i + 23]
            == rest[23]);
    }
    if is_guid_at(s, i) {
        assert forall|k: int|
            0 <= k < 36 && k != 8 && k != 13 && k != 18 && k != 23 implies is_hex_char(
            #[trigger] rest[k],
        ) by {
            assert(rest[k] == s[i + k]);
            assert(is_hex_char(s[i + k]));
        }
        assert(rest[8] == s[i + 8] && rest[13] == s[i + 13] && rest[18] == s[i + 18] && rest[23]
            == s[i + 23]);
    }
}

/// The first GUID-shaped substring of `s`, scanning left to right.
pub open spec fn first_guid(s: Seq<char>) -> Option<Seq<char>>
    decreases s.len(),
{
    if s.len() < 36 {
        None
    } else if is_guid_at(s, 0) {
        Some(s.take(36))
    } else {
        first_guid(s.skip(1))
    }
}

/// True when the name is wrapped in braces, the way COM class
/// identifiers are written in the registry.
pub fn is_clsid(name: &str) -> (r: bool)
    ensures
        r == (name@.len() > 0 && name@.first() == '{' && name@.last() == '}'),
{
    let n = name.unicode_len();
    if n == 0 {
        return false;
    }
    name.get_char(0) == '{' && name.get_char(n - 1) == '}'
}

/// Whether the character is a hexadecimal digit.
fn hex_char_check(c: char) -> (r: bool)
    ensures
        r == is_hex_char(c),
{
    let u = c as u32;
    (0x30 <= u && u <= 0x39) || (0x61 <= u && u <= 0x66) || (0x41 <= u && u <= 0x46)
}

/// Whether a GUID-shaped substring starts at index `i`.
fn guid_check(chars: &Vec<char>, i: usize) -> (r: bool)
    requires
        i + 36 <= chars@.len(),
    ensures
        r == is_guid_at(chars@, i as int),
{
    let n = chars.len();
    let mut j: usize = 0;
    while j < 36
        invariant
            0 <= j <= 36,
            i + 36 <= chars@.len(),
            n == chars@.len(),
            forall|k: int|
                i <= k < i + j && k != i + 8 && k != i + 13 && k != i + 18 && k != i + 23
                    ==> is_hex_char(#[trigger] chars@[k]),
            forall|k: int|
                i <= k < i + j && (k == i + 8 || k == i + 13 || k == i + 18 || k == i + 23)
                    ==> #[trigger] chars@[k] == '-',
        decreases 36 - j,
    {
        let c = chars[i + j];
        if j == 8 || j == 13 || j == 18 || j == 23 {
            if c != '-' {
                return false;
            }
        } else {
            if !hex_char_check(c) {
                return false;
            }
        }
        j += 1;
    }
    true
}

/// The first GUID-shaped substring of the string, if any.
pub fn find_guid(s: &str) -> (r: Option<String>)
    ensures
        match r {
            Some(g) => first_guid(s@) == Some(g@),
            None => first_guid(s@) is None,
        },
{
    let chars = str_chars(s);
    let n = chars.len();
    let mut i: usize = 0;
    assert(s@.skip(0) =~= s@);
    while n - i >= 36
        invariant
            0 <= i <= n,
            n == s@.len(),
            chars@ == s@,
            first_guid(s@) == first_guid(s@.skip(i as int)),
        decreases n - i,
    {
        let ghost rest = s@.skip(i as int);
        if guid_check(&chars, i) {
            let mut g: Vec<char> = Vec::new();
            let mut j: usize = 0;
            while j < 36
                invariant
                    0 <= j <= 36,
                    i + 36 <= chars@.len(),
                    chars@.len() == n,
                    g@ == chars@.subrange(i as int, i + j),
                decreases 36 - j,
            {
                g.push(chars[i + j]);
                assert(g@ =~= chars@.subrange(i as int, i + j + 1));
                j += 1;
            }
            proof {
                lemma_guid_at_shift(s@, i as int);
                assert(is_guid_at(rest, 0));
                assert(rest.take(36) =~= s@.subrange(i as int, i + 36));
            }
            return Some(chars_to_string(&g));
        }
        proof {
            lemma_guid_at_shift(s@, i as int);
            assert(!is_guid_at(rest, 0));
            assert(rest.skip(1) =~= s@.skip(i + 1));
        }
        i += 1;
    }
    proof {
        assert(s@.skip(i as int).len() < 36);
    }
    None
}

} // verus!
