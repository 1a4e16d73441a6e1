//! Small string helpers shared across the library, together with the few
//! trusted bridges to `std` string functions that vstd does not specify.
use vstd::prelude::*;
use vstd::string::StrSliceExecFns;

verus! {

/// What `str::to_lowercase` returns: a function of the characters alone.
pub uninterp spec fn lower_of(s: Seq<char>) -> Seq<char>;

/// What `str::trim` returns: a function of the characters alone.
pub uninterp spec fn trimmed_of(s: Seq<char>) -> Seq<char>;

/// Relies on str::to_lowercase: the Unicode lowercase form of the input,
/// depending on nothing but its characters; an empty input stays empty.
#[verifier::external_body]
pub fn lowercase(s: &str) -> (r: String)
    ensures
        r@ == lower_of(s@),
        s@.len() == 0 ==> r@.len() == 0,
{
    s.to_lowercase()
}

/// Relies on str::trim: the input with leading and trailing whitespace
/// removed, depending on nothing but its characters; never longer than
/// the input.
#[verifier::external_body]
pub fn trim_str(s: &str) -> (r: String)
    ensures
        r@ == trimmed_of(s@),
        r@.len() <= s@.len(),
{
    s.trim().to_owned()
}

/// Relies on char::from_u32: every Unicode scalar value names a character
/// with exactly that code.
#[verifier::external_body]
pub fn char_from_code(code: u32) -> (r: char)
    requires
        code < 0xD800 || (0xE000 <= code && code <= 0x10FFFF),
    ensures
        r as u32 == code,
{
    match char::from_u32(code) {
        Some(c) => c,
        None => ' ',
    }
}

/// Relies on String's FromIterator over characters: collecting characters
/// yields the string of exactly those characters.
#[verifier::external_body]
pub fn chars_to_string(v: &Vec<char>) -> (r: String)
    ensures
        r@ == v@,
{
    v.iter().collect()
}

/// The part of a path after its last backslash; the whole path when it
/// has none.
pub open spec fn last_segment(s: Seq<char>) -> Seq<char>
    decreases s.len(),
{
    if s.len() == 0 {
        Seq::empty()
    } else if s[s.len() - 1] == '\\' {
        Seq::empty()
    } else {
        last_segment(s.take(s.len() - 1)).push(s[s.len() - 1])
    }
}

/// The final path segment of a backslash-separated key path.
pub fn path_last_segment(s: &str) -> (r: String)
    ensures
        r@ == last_segment(s@),
{
    let n = s.unicode_len();
    let mut acc: Vec<char> = Vec::new();
    let mut i: usize = 0;
    while i < n
        invariant
            0 <= i <= n,
            n == s@.len(),
            acc@ == last_segment(s@.take(i as int)),
        decreases n - i,
    {
        let c = s.get_char(i);
        assert(s@.take(i + 1).take(i as int) =~= s@.take(i as int));
        if c == '\\' {
            acc = Vec::new();
        } else {
            acc.push(c);
        }
        i += 1;
    }
    assert(s@.take(n as int) =~= s@);
    chars_to_string(&acc)
}

/// Whether the character occurs in the string.
pub fn str_contains_char(s: &str, c: char) -> (r: bool)
    ensures
        r == s@.contains(c),
{
    let n = s.unicode_len();
    let mut i: usize = 0;
    while i < n
        invariant
            0 <= i <= n,
            n == s@.len(),
            forall|j: int| 0 <= j < i ==> s@[j] != c,
        decreases n - i,
    {
        if s.get_char(i) == c {
            return true;
        }
        i += 1;
    }
    false
}

/// The index of the first occurrence of the character, if any.
pub fn find_char(s: &str, c: char) -> (r: Option<usize>)
    ensures
        match r {
            Some(i) => i < s@.len() && s@[i as int] == c && forall|j: int|
                0 <= j < i ==> s@[j] != c,
            None => !s@.contains(c),
        },
{
    let n = s.unicode_len();
    let mut i: usize = 0;
    while i < n
        invariant
            0 <= i <= n,
            n == s@.len(),
            forall|j: int| 0 <= j < i ==> s@[j] != c,
        decreases n - i,
    {
        if s.get_char(i) == c {
            return Some(i);
        }
        i += 1;
    }
    None
}

/// The character for one decimal digit.
pub open spec fn dec_digit_char(d: int) -> char {
    ((0x30 + d) as u32) as char
}

/// The character for one lowercase hexadecimal digit.
pub open spec fn hex_digit_char(d: int) -> char {
    if d < 10 {
        ((0x30 + d) as u32) as char
    } else {
        ((0x57 + d) as u32) as char
    }
}

/// The decimal digits of `v`, most significant first; empty for zero.
pub open spec fn dec_digits(v: nat) -> Seq<char>
    decreases v,
{
    if v == 0 {
        Seq::empty()
    } else {
        dec_digits(v / 10) + seq![dec_digit_char((v % 10) as int)]
    }
}

/// The decimal rendering of `v`, `"0"` included.
pub open spec fn dec_string(v: nat) -> Seq<char> {
    if v == 0 {
        seq!['0']
    } else {
        dec_digits(v)
    }
}

/// `v` in lowercase hexadecimal, zero-padded to exactly `n` digits.
pub open spec fn hex_string_fixed(v: nat, n: nat) -> Seq<char>
    decreases n,
{
    if n == 0 {
        Seq::empty()
    } else {
        hex_string_fixed(v / 16, (n - 1) as nat) + seq![hex_digit_char((v % 16) as int)]
    }
}

/// One hexadecimal digit character, lowercase.
pub fn hex_digit(d: u8) -> (c: char)
    requires
        d < 16,
    ensures
        c == hex_digit_char(d as int),
{
    if d < 10 {
        (0x30 + d) as char
    } else {
        (0x57 + d) as char
    }
}

/// One decimal digit character.
pub fn dec_digit(d: u8) -> (c: char)
    requires
        d < 10,
    ensures
        c == dec_digit_char(d as int),
{
    (0x30 + d) as char
}

/// The elements of a vector, reversed.
pub fn reversed_chars(v: &Vec<char>) -> (r: Vec<char>)
    ensures
        r@ == v@.reverse(),
{
    let n = v.len();
    let mut r: Vec<char> = Vec::new();
    let mut i: usize = 0;
    while i < n
        invariant
            0 <= i <= n,
            n == v@.len(),
            r@.len() == i,
            forall|k: int| 0 <= k < i ==> r@[k] == v@[n - 1 - k],
        decreases n - i,
    {
        r.push(v[n - 1 - i]);
        i += 1;
    }
    assert(r@ =~= v@.reverse());
    r
}

/// The decimal rendering of a 64-bit value.
pub fn u64_to_dec(v: u64) -> (r: String)
    ensures
        r@ == dec_string(v as nat),
{
    if v == 0 {
        let s = String::from_str("0");
        proof {
            reveal_strlit("0");
            assert(s@ =~= dec_string(0));
        }
        return s;
    }
    let mut acc: Vec<char> = Vec::new();
    let mut x = v;
    while x > 0
        invariant
            dec_digits(v as nat) =~= dec_digits(x as nat) + acc@.reverse(),
        decreases x,
    {
        let d = (x % 10) as u8;
        acc.push(dec_digit(d));
        proof {
            assert(acc@.drop_last() + seq![acc@.last()] =~= acc@);
            assert(acc@.reverse() =~= seq![dec_digit_char(d as int)] + acc@.drop_last().reverse());
            assert(dec_digits(x as nat) == dec_digits((x as nat) / 10) + seq![
                dec_digit_char(((x as nat) % 10) as int),
            ]);
            assert((x as nat) / 10 == (x / 10) as nat);
            assert(dec_digits(v as nat) =~= dec_digits((x / 10) as nat) + acc@.reverse());
        }
        x = x / 10;
    }
    let digits = reversed_chars(&acc);
    proof {
        assert(dec_digits(0) == Seq::<char>::empty());
        assert(dec_digits(v as nat) =~= acc@.reverse());
    }
    chars_to_string(&digits)
}

/// `v` in lowercase hexadecimal, zero-padded to `n` digits.
pub fn u64_to_hex_fixed(v: u64, n: usize) -> (r: String)
    ensures
        r@ == hex_string_fixed(v as nat, n as nat),
{
    let mut acc: Vec<char> = Vec::new();
    let mut x = v;
    let mut k: usize = 0;
    while k < n
        invariant
            0 <= k <= n,
            hex_string_fixed(v as nat, n as nat) =~= hex_string_fixed(x as nat, (n - k) as nat)
                + acc@.reverse(),
        decreases n - k,
    {
        let d = (x % 16) as u8;
        acc.push(hex_digit(d));
        proof {
            assert(acc@.drop_last() + seq![acc@.last()] =~= acc@);
            assert(acc@.reverse() =~= seq![hex_digit_char(d as int)] + acc@.drop_last().reverse());
            assert(hex_string_fixed(x as nat, (n - k) as nat) == hex_string_fixed(
                (x as nat) / 16,
                (n - k - 1) as nat,
            ) + seq![hex_digit_char(((x as nat) % 16) as int)]);
            assert((x as nat) / 16 == (x / 16) as nat);
            assert(hex_string_fixed(v as nat, n as nat) =~= hex_string_fixed(
                (x / 16) as nat,
                (n - (k + 1)) as nat,
            ) + acc@.reverse());
        }
        x = x / 16;
        k += 1;
    }
    let digits = reversed_chars(&acc);
    chars_to_string(&digits)
}

/// The two strings hold the same characters.
pub fn str_eq(a: &str, b: &str) -> (r: bool)
    ensures
        r == (a@ == b@),
{
    let n = a.unicode_len();
    if n != b.unicode_len() {
        return false;
    }
    let mut i: usize = 0;
    while i < n
        invariant
            0 <= i <= n,
            n == a@.len(),
            n == b@.len(),
            forall|j: int| 0 <= j < i ==> a@[j] == b@[j],
        decreases n - i,
    {
        if a.get_char(i) != b.get_char(i) {
            return false;
        }
        i += 1;
    }
    assert(a@ =~= b@);
    true
}

/// The characters of a string, as a vector.
pub fn str_chars(s: &str) -> (r: Vec<char>)
    ensures
        r@ == s@,
{
    let n = s.unicode_len();
    let mut acc: Vec<char> = Vec::new();
    let mut i: usize = 0;
    while i < n
        invariant
            0 <= i <= n,
            n == s@.len(),
            acc@ == s@.take(i as int),
        decreases n - i,
    {
        acc.push(s.get_char(i));
        assert(acc@ =~= s@.take(i + 1));
        i += 1;
    }
    assert(s@.take(n as int) =~= s@);
    acc
}

} // verus!
