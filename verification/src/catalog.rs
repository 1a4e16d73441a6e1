//! The decision side of catalog building: resolver chains for display
//! names and icons, and the parsing of icon resource specifications.
//! Lookups that need the live system (a DLL's strings, a file's icons,
//! the system directories) are collaborators: their answers come in as
//! arguments, and every decision over them is exact.
use crate::backup::GuidItem;
use crate::backup::MenuItem;
use crate::backup::MenuItemInfo;
use crate::regtext::reg_txt;
use crate::scene::spec_starts_with;
use crate::scene::str_starts_with;
use crate::store::clone_string;
use crate::strutil::chars_to_string;
use crate::strutil::find_char;
use crate::strutil::last_segment;
use crate::strutil::lower_of;
use crate::strutil::lowercase;
use crate::strutil::path_last_segment;
use crate::strutil::str_chars;
use crate::strutil::str_contains_char;
use crate::strutil::trim_str;
use crate::strutil::trimmed_of;
use crate::tree::child_named;
use crate::tree::guid_of;
use crate::tree::lookup_value;
use crate::tree::RegItem;
use crate::value::display_of;
use crate::value::RegItemValue;
use vstd::prelude::*;
use vstd::string::StrSliceExecFns;
use vstd::string::StringExecFns;

verus! {

/// An ASCII decimal digit.
pub open spec fn is_digit(c: char) -> bool {
    0x30 <= (c as u32) && (c as u32) <= 0x39
}

/// The numeric value of one digit character.
pub open spec fn digit_val(c: char) -> int {
    (c as u32) - 0x30
}

/// The number the digit characters spell, most significant first.
pub open spec fn digits_value(s: Seq<char>) -> int
    decreases s.len(),
{
    if s.len() == 0 {
        0
    } else {
        digits_value(s.take(s.len() - 1)) * 10 + digit_val(s[s.len() - 1])
    }
}

/// A non-empty, all-digit character sequence.
pub open spec fn all_digits(s: Seq<char>) -> bool {
    s.len() > 0 && forall|i: int| 0 <= i < s.len() ==> is_digit(#[trigger] s[i])
}

/// What parsing a signed 32-bit decimal integer yields: an optional
/// sign, then digits only, rejected on overflow.
pub open spec fn parse_i32_spec(s: Seq<char>) -> Option<i32> {
    let neg = s.len() > 0 && s[0] == '-';
    let digits = if s.len() > 0 && (s[0] == '-' || s[0] == '+') {
        s.skip(1)
    } else {
        s
    };
    if all_digits(digits) {
        let v = digits_value(digits);
        if neg {
            if -v >= i32::MIN {
                Some((-v) as i32)
            } else {
                None
            }
        } else {
            if v <= i32::MAX {
                Some(v as i32)
            } else {
                None
            }
        }
    } else {
        None
    }
}

proof fn lemma_digits_nonneg(s: Seq<char>)
    requires
        forall|i: int| 0 <= i < s.len() ==> is_digit(#[trigger] s[i]),
    ensures
        digits_value(s) >= 0,
    decreases s.len(),
{
    if s.len() > 0 {
        lemma_digits_nonneg(s.take(s.len() - 1));
    }
}

proof fn lemma_digits_prefix(s: Seq<char>, k: int)
    requires
        forall|i: int| 0 <= i < s.len() ==> is_digit(#[trigger] s[i]),
        0 <= k <= s.len(),
    ensures
        digits_value(s) >= digits_value(s.take(k)),
    decreases s.len() - k,
{
    if k < s.len() {
        lemma_digits_prefix(s, k + 1);
        lemma_digits_nonneg(s.take(k));
        assert(s.take(k + 1).take(k) =~= s.take(k));
        assert(digits_value(s.take(k + 1)) == digits_value(s.take(k)) * 10 + digit_val(s[k]));
    } else {
        assert(s.take(k) =~= s);
    }
}

/// Parses a signed 32-bit decimal integer: an optional sign, then at
/// least one digit and nothing else.
pub fn parse_i32(s: &str) -> (r: Option<i32>)
    ensures
        r == parse_i32_spec(s@),
{
    let n = s.unicode_len();
    let mut start: usize = 0;
    let mut neg = false;
    if n > 0 {
        let c0 = s.get_char(0);
        if c0 == '-' {
            neg = true;
            start = 1;
        } else if c0 == '+' {
            start = 1;
        }
    }
    let ghost digits = s@.skip(start as int);
    proof {
        if start == 0 {
            assert(s@.skip(0) =~= s@);
        }
    }
    if start >= n {
        assert(!all_digits(digits));
        return None;
    }
    let mut acc: u64 = 0;
    let mut i = start;
    while i < n
        invariant
            start <= i <= n,
            n == s@.len(),
            start <= 1,
            digits == s@.skip(start as int),
            digits == (if s@.len() > 0 && (s@[0] == '-' || s@[0] == '+') {
                s@.skip(1)
            } else {
                s@
            }),
            neg == (s@.len() > 0 && s@[0] == '-'),
            digits.len() == n - start,
            forall|j: int| 0 <= j < i - start ==> is_digit(#[trigger] digits[j]),
            acc <= 0x80000000,
            acc == digits_value(digits.take(i - start)),
        decreases n - i,
    {
        let c = s.get_char(i);
        let u = c as u32;
        assert(digits[i - start] == s@[i as int]);
        if !(0x30 <= u && u <= 0x39) {
            assert(!all_digits(digits));
            return None;
        }
        let d = (u - 0x30) as u64;
        acc = acc * 10 + d;
        proof {
            assert(digits.take(i - start + 1).take(i - start) =~= digits.take(i - start));
            assert(digits.take(i - start + 1).last() == digits[i - start]);
        }
        if acc > 0x80000000 {
            proof {
                if all_digits(digits) {
                    lemma_digits_prefix(digits, i - start + 1);
                }
            }
            return None;
        }
        i += 1;
    }
    assert(digits.take(n - start) =~= digits);
    if neg {
        if acc == 0x80000000 {
            return Some(i32::MIN);
        }
        let v = acc as u32;
        return Some(-(v as i32));
    }
    if acc > 0x7FFFFFFF {
        return None;
    }
    Some(acc as i32)
}

/// Every occurrence of a non-empty pattern replaced, leftmost first,
/// without rescanning the replacement.
pub open spec fn replace_all(s: Seq<char>, pat: Seq<char>, rep: Seq<char>) -> Seq<char>
    decreases s.len(),
    when pat.len() > 0
{
    if s.len() < pat.len() {
        s
    } else if s.take(pat.len() as int) == pat {
        rep + replace_all(s.skip(pat.len() as int), pat, rep)
    } else {
        seq![s[0]] + replace_all(s.skip(1), pat, rep)
    }
}

/// A fresh vector holding the same characters.
fn copy_chars(v: &Vec<char>) -> (r: Vec<char>)
    ensures
        r@ == v@,
{
    let n = v.len();
    let mut r: Vec<char> = Vec::new();
    let mut i: usize = 0;
    while i < n
        invariant
            0 <= i <= n,
            n == v@.len(),
            r@ == v@.take(i as int),
        decreases n - i,
    {
        r.push(v[i]);
        assert(r@ =~= v@.take(i + 1));
        i += 1;
    }
    assert(v@.take(n as int) =~= v@);
    r
}

/// Whether the pattern's characters occur at index `i`.
fn match_at(chars: &Vec<char>, pat: &Vec<char>, i: usize) -> (r: bool)
    requires
        i + pat@.len() <= chars@.len(),
    ensures
        r == (chars@.subrange(i as int, i + pat@.len()) == pat@),
{
    let n = chars.len();
    let plen = pat.len();
    let mut j: usize = 0;
    while j < plen
        invariant
            0 <= j <= plen,
            plen == pat@.len(),
            n == chars@.len(),
            i + plen <= n,
            forall|k: int| 0 <= k < j ==> chars@[i + k] == pat@[k],
        decreases plen - j,
    {
        if chars[i + j] != pat[j] {
            assert(chars@.subrange(i as int, i + plen)[j as int] != pat@[j as int]);
            return false;
        }
        j += 1;
    }
    assert(chars@.subrange(i as int, i + plen as int) =~= pat@);
    true
}

/// The text before and after the first occurrence of a character.
pub open spec fn split_at_char(s: Seq<char>, c: char) -> Option<(Seq<char>, Seq<char>)>
    decreases s.len(),
{
    if s.len() == 0 {
        None
    } else if s[0] == c {
        Some((Seq::empty(), s.skip(1)))
    } else {
        match split_at_char(s.skip(1), c) {
            Some(p) => Some((seq![s[0]] + p.0, p.1)),
            None => None,
        }
    }
}

proof fn lemma_split_at_char_at(s: Seq<char>, c: char, i: int)
    requires
        0 <= i < s.len(),
        s[i] == c,
        forall|j: int| 0 <= j < i ==> s[j] != c,
    ensures
        split_at_char(s, c) == Some((s.take(i), s.skip(i + 1))),
    decreases i,
{
    if i == 0 {
        assert(s.take(0) =~= Seq::<char>::empty());
    } else {
        lemma_split_at_char_at(s.skip(1), c, i - 1);
        assert(s.skip(1).take(i - 1) =~= s.take(i).skip(1));
        assert(seq![s[0]] + s.take(i).skip(1) =~= s.take(i));
        assert(s.skip(1).skip(i) =~= s.skip(i + 1));
    }
}

proof fn lemma_split_at_char_none(s: Seq<char>, c: char)
    requires
        !s.contains(c),
    ensures
        split_at_char(s, c) is None,
    decreases s.len(),
{
    if s.len() > 0 {
        assert(s[0] != c);
        assert forall|j: int| 0 <= j < s.skip(1).len() implies s.skip(1)[j] != c by {
            assert(s.skip(1)[j] == s[j + 1]);
        }
        lemma_split_at_char_none(s.skip(1), c);
    }
}

/// Splits at the first occurrence of a character, when there is one.
pub fn split_once_char(s: &str, c: char) -> (r: Option<(String, String)>)
    ensures
        match r {
            Some(p) => split_at_char(s@, c) == Some((p.0@, p.1@)),
            None => split_at_char(s@, c) is None,
        },
{
    let n = s.unicode_len();
    match find_char(s, c) {
        Some(i) => {
            let before = s.substring_char(0, i);
            let after = s.substring_char(i + 1, n);
            proof {
                lemma_split_at_char_at(s@, c, i as int);
                assert(s@.subrange(0, i as int) =~= s@.take(i as int));
                assert(s@.subrange(i + 1, n as int) =~= s@.skip(i + 1));
            }
            Some((String::from_str(before), String::from_str(after)))
        },
        None => {
            proof {
                lemma_split_at_char_none(s@, c);
            }
            None
        },
    }
}

/// What resolving an icon path yields: the lowercased path with its
/// system-root shorthand expanded against the windows and system
/// directories the host reports.
pub open spec fn parse_path_spec(path: Seq<char>, win: Seq<char>, sys: Seq<char>) -> Seq<char> {
    let low = lower_of(path);
    if spec_starts_with(low, "@%systemroot%"@) {
        replace_all(low, "@%systemroot%"@, win)
    } else if spec_starts_with(low, "%systemroot%"@) {
        replace_all(low, "%systemroot%"@, win)
    } else if spec_starts_with(low, "@"@) {
        replace_all(low, "@"@, sys + "/"@)
    } else {
        sys + "/"@ + low
    }
}

/// Expands an icon path against the host's windows and system
/// directories, which the caller queries from the live system.
pub fn parse_path(path: &str, windows_dir: &str, system_dir: &str) -> (r: String)
    ensures
        r@ == parse_path_spec(path@, windows_dir@, system_dir@),
{
    let low = lowercase(path);
    proof {
        reveal_strlit("@%systemroot%");
        reveal_strlit("%systemroot%");
        reveal_strlit("@");
        reveal_strlit("/");
    }
    if str_starts_with(low.as_str(), "@%systemroot%") {
        replace_all_str(low.as_str(), "@%systemroot%", windows_dir)
    } else if str_starts_with(low.as_str(), "%systemroot%") {
        replace_all_str(low.as_str(), "%systemroot%", windows_dir)
    } else if str_starts_with(low.as_str(), "@") {
        let mut rep = String::from_str(system_dir);
        rep.append("/");
        replace_all_str(low.as_str(), "@", rep.as_str())
    } else {
        let mut r = String::from_str(system_dir);
        r.append("/");
        r.append(low.as_str());
        assert(r@ =~= system_dir@ + "/"@ + lower_of(path@));
        r
    }
}

/// What parsing a `path,resourceIndex` icon specification yields: the
/// expanded path and the index, or nothing when the comma or a valid
/// index is missing.
pub open spec fn parse_reg_path_spec(s: Seq<char>, win: Seq<char>, sys: Seq<char>) -> Option<
    (Seq<char>, i32),
> {
    let low = lower_of(s);
    match split_at_char(low, ',') {
        Some(p) => match parse_i32_spec(p.1) {
            Some(id) => Some((parse_path_spec(p.0, win, sys), id)),
            None => None,
        },
        None => None,
    }
}

/// Parses a `path,resourceIndex` icon specification: the whole text is
/// lowercased, split at its first comma, and the tail read as a signed
/// index; the path half is then expanded against the host directories.
pub fn parse_reg_path(s: &str, windows_dir: &str, system_dir: &str) -> (r: Option<(String, i32)>)
    ensures
        match r {
            Some(p) => parse_reg_path_spec(s@, windows_dir@, system_dir@) == Some((p.0@, p.1)),
            None => parse_reg_path_spec(s@, windows_dir@, system_dir@) is None,
        },
{
    let low = lowercase(s);
    match split_once_char(low.as_str(), ',') {
        Some((path_part, id_part)) => match parse_i32(id_part.as_str()) {
            Some(id) => {
                let dll = parse_path(path_part.as_str(), windows_dir, system_dir);
                Some((dll, id))
            },
            None => None,
        },
        None => None,
    }
}

/// Where an icon should be looked up, as decided from one icon string.
pub enum IcoSource {
    /// An empty specification: no icon.
    NoIcon,
    /// A `path,resourceIndex` specification: one resource of a binary.
    DllIndex(String, i32),
    /// A bare path: the file's first icon.
    File(String),
}

/// The mathematical shape of an icon-lookup decision.
pub enum IcoSourceModel {
    NoIcon,
    DllIndex(Seq<char>, i32),
    File(Seq<char>),
}

impl View for IcoSource {
    type V = IcoSourceModel;

    open spec fn view(&self) -> IcoSourceModel {
        match self {
            IcoSource::NoIcon => IcoSourceModel::NoIcon,
            IcoSource::DllIndex(p, i) => IcoSourceModel::DllIndex(p@, *i),
            IcoSource::File(p) => IcoSourceModel::File(p@),
        }
    }
}

/// What an icon string decides: nothing when empty, one resource when
/// it parses as `path,index`, the file itself otherwise.
pub open spec fn ico_query_spec(s: Seq<char>, win: Seq<char>, sys: Seq<char>) -> IcoSourceModel {
    if s.len() == 0 {
        IcoSourceModel::NoIcon
    } else {
        match parse_reg_path_spec(s, win, sys) {
            Some(p) => IcoSourceModel::DllIndex(p.0, p.1),
            None => IcoSourceModel::File(s),
        }
    }
}

/// Decides where an icon string points, against the host directories.
pub fn ico_query(s: &str, windows_dir: &str, system_dir: &str) -> (r: IcoSource)
    ensures
        r@ == ico_query_spec(s@, windows_dir@, system_dir@),
{
    if s.is_empty() {
        return IcoSource::NoIcon;
    }
    match parse_reg_path(s, windows_dir, system_dir) {
        Some((dll, id)) => IcoSource::DllIndex(dll, id),
        None => IcoSource::File(String::from_str(s)),
    }
}

/// Replaces every occurrence of a non-empty pattern, leftmost first.
pub fn replace_all_str(s: &str, pat: &str, rep: &str) -> (r: String)
    requires
        pat@.len() > 0,
    ensures
        r@ == replace_all(s@, pat@, rep@),
{
    let chars = str_chars(s);
    let pchars = str_chars(pat);
    let rchars = str_chars(rep);
    let n = chars.len();
    let plen = pchars.len();
    let mut out: Vec<char> = Vec::new();
    let mut i: usize = 0;
    assert(s@.skip(0) =~= s@);
    while i < n
        invariant
            0 <= i <= n,
            n == s@.len(),
            chars@ == s@,
            pchars@ == pat@,
            rchars@ == rep@,
            plen == pat@.len(),
            plen > 0,
            replace_all(s@, pat@, rep@) == out@ + replace_all(s@.skip(i as int), pat@, rep@),
        decreases n - i,
    {
        let ghost rest = s@.skip(i as int);
        let matched = n - i >= plen && match_at(&chars, &pchars, i);
        if matched {
            proof {
                assert(rest.len() >= plen);
                assert forall|k: int| 0 <= k < plen implies rest.take(plen as int)[k] == pat@[k] by {
                    assert(rest[k] == s@[i + k]);
                    assert(s@.subrange(i as int, i + plen)[k] == s@[i + k]);
                }
                assert(rest.take(plen as int) =~= pat@);
            }
            let mut rc = copy_chars(&rchars);
            let ghost before = out@;
            out.append(&mut rc);
            proof {
                assert(out@ =~= before + rep@);
                assert(rest.skip(plen as int) =~= s@.skip(i + plen));
                assert(replace_all(rest, pat@, rep@) == rep@ + replace_all(
                    s@.skip(i + plen),
                    pat@,
                    rep@,
                ));
                assert(out@ + replace_all(s@.skip(i + plen), pat@, rep@) =~= before + (rep@
                    + replace_all(s@.skip(i + plen), pat@, rep@)));
            }
            i += plen;
        } else {
            proof {
                if rest.len() >= plen {
                    assert(!(s@.subrange(i as int, i + plen) == pat@));
                    assert(rest.take(plen as int) =~= s@.subrange(i as int, i + plen));
                    assert(rest.take(plen as int) != pat@);
                }
                assert(rest[0] == s@[i as int]);
                assert(rest.skip(1) =~= s@.skip(i + 1));
                assert(replace_all(rest, pat@, rep@) == seq![s@[i as int]] + replace_all(
                    s@.skip(i + 1),
                    pat@,
                    rep@,
                ));
            }
            let ghost before = out@;
            out.push(chars[i]);
            proof {
                assert(out@ + replace_all(s@.skip(i + 1), pat@, rep@) =~= before + (seq![
                    s@[i as int],
                ] + replace_all(s@.skip(i + 1), pat@, rep@)));
            }
            i += 1;
        }
    }
    proof {
        let ghost tail = s@.skip(n as int);
        assert(tail =~= Seq::<char>::empty());
        assert(replace_all(tail, pat@, rep@) == tail);
        assert(out@ =~= replace_all(s@, pat@, rep@));
    }
    chars_to_string(&out)
}


/// The view of an optional borrowed string.
pub open spec fn opt_str_view(o: Option<&String>) -> Option<Seq<char>> {
    match o {
        Some(s) => Some(s@),
        None => None,
    }
}

/// The raw display-name source of a node: its `MuiVerb` value, else
/// its `MUIVerb` value, else its default value.
pub open spec fn shell_name_source_spec(item: RegItem) -> Option<RegItemValue> {
    match lookup_value(item.values@, "MuiVerb"@) {
        Some(v) => Some(v),
        None => match lookup_value(item.values@, "MUIVerb"@) {
            Some(v) => Some(v),
            None => lookup_value(item.values@, ""@),
        },
    }
}

/// Whether a name source is an indirect resource reference that must be
/// resolved against a binary's string table: text opening with `@` and
/// holding a comma.
pub open spec fn needs_indirect(v: RegItemValue) -> bool {
    match v {
        RegItemValue::SZ(s) => s@.len() > 0 && s@.first() == '@' && s@.contains(','),
        _ => false,
    }
}

/// The raw display-name source of this node, if any.
pub fn shell_name_source(reg: &RegItem) -> (r: Option<&RegItemValue>)
    ensures
        match r {
            Some(v) => shell_name_source_spec(*reg) == Some(*v),
            None => shell_name_source_spec(*reg) is None,
        },
{
    match reg.get_value("MuiVerb") {
        Some(v) => Some(v),
        None => match reg.get_value("MUIVerb") {
            Some(v) => Some(v),
            None => reg.get_value(""),
        },
    }
}

/// Whether this name source needs an indirect string lookup.
pub fn muiverb_needs_lookup(v: &RegItemValue) -> (r: bool)
    ensures
        r == needs_indirect(*v),
{
    match v {
        RegItemValue::SZ(s) => {
            let n = s.as_str().unicode_len();
            n > 0 && s.as_str().get_char(0) == '@' && str_contains_char(s.as_str(), ',')
        },
        _ => false,
    }
}

/// The display name of a shell verb node. `indirect` is the host's
/// answer to the indirect string lookup of the raw name source, when
/// that source needs one; `cls_name` is the friendly name the host
/// resolved for the node's extracted class id. The chain: a non-blank
/// name source wins, then the class's friendly name, then the final
/// path segment.
pub open spec fn shell_name_spec(
    item: RegItem,
    indirect: Option<Seq<char>>,
    cls_name: Option<Seq<char>>,
) -> Seq<char> {
    let muiverb = match shell_name_source_spec(item) {
        None => None,
        Some(v) => if needs_indirect(v) {
            indirect
        } else {
            Some(display_of(v@))
        },
    };
    if muiverb is Some && trimmed_of(muiverb->Some_0).len() != 0 {
        muiverb->Some_0
    } else if guid_of(item) is Some && cls_name is Some {
        cls_name->Some_0
    } else {
        last_segment(item.path@)
    }
}

/// Resolves the display name of a shell verb node from its values, the
/// host's indirect-string answer, and the host's class-name answer.
pub fn get_shell_name(reg: &RegItem, indirect: Option<&String>, cls_name: Option<&String>) -> (r:
    String)
    ensures
        r@ == shell_name_spec(*reg, opt_str_view(indirect), opt_str_view(cls_name)),
{
    let muiverb: Option<String> = match shell_name_source(reg) {
        None => None,
        Some(v) => {
            if muiverb_needs_lookup(v) {
                match indirect {
                    Some(s) => Some(clone_string(s)),
                    None => None,
                }
            } else {
                Some(v.display_string())
            }
        },
    };
    let keep = match &muiverb {
        Some(m) => {
            let t = trim_str(m.as_str());
            !t.as_str().is_empty()
        },
        None => false,
    };
    if keep {
        if let Some(m) = muiverb {
            return m;
        }
    }
    let has_guid = reg.get_guid();
    if has_guid.is_some() {
        if let Some(c) = cls_name {
            return clone_string(c);
        }
    }
    path_last_segment(reg.path.as_str())
}

/// The friendly-name source of a class registration node: its
/// `LocalizedString` value, else its default value.
pub open spec fn cls_display_source_spec(item: RegItem) -> Option<RegItemValue> {
    match lookup_value(item.values@, "LocalizedString"@) {
        Some(v) => Some(v),
        None => lookup_value(item.values@, ""@),
    }
}

/// The friendly-name text of a class node, when its source is text.
pub open spec fn cls_name_raw(item: RegItem) -> Option<Seq<char>> {
    match cls_display_source_spec(item) {
        Some(RegItemValue::SZ(s)) => Some(s@),
        _ => None,
    }
}

/// Whether a class name is an indirect reference: it opens with `@` or
/// `%`, or holds a comma followed by a dash.
pub open spec fn cls_needs_indirect(s: Seq<char>) -> bool {
    (s.len() > 0 && (s.first() == '@' || s.first() == '%')) || (exists|i: int|
        0 <= i && i + 1 < s.len() && s[i] == ',' && #[trigger] s[i + 1] == '-')
}

/// Whether this class name needs an indirect string lookup.
pub fn cls_name_needs_lookup(s: &str) -> (r: bool)
    ensures
        r == cls_needs_indirect(s@),
{
    let n = s.unicode_len();
    if n > 0 {
        let c0 = s.get_char(0);
        if c0 == '@' || c0 == '%' {
            return true;
        }
    }
    let mut i: usize = 0;
    while n - i > 1
        invariant
            0 <= i <= n,
            n == s@.len(),
            forall|j: int| 0 <= j && j + 1 < s@.len() && j < i ==> !(s@[j] == ','
                && #[trigger] s@[j + 1] == '-'),
        decreases n - i,
    {
        if s.get_char(i) == ',' && s.get_char(i + 1) == '-' {
            return true;
        }
        i += 1;
    }
    false
}

/// The friendly-name source of this class node, if its source is text.
pub fn cls_name_query(reg: &RegItem) -> (r: Option<String>)
    ensures
        match r {
            Some(s) => cls_name_raw(*reg) == Some(s@),
            None => cls_name_raw(*reg) is None,
        },
{
    let source = match reg.get_value("LocalizedString") {
        Some(v) => Some(v),
        None => reg.get_value(""),
    };
    match source {
        Some(RegItemValue::SZ(s)) => Some(clone_string(s)),
        _ => None,
    }
}

/// The friendly name of a class: nothing when its registration was not
/// found or names no text; the host's indirect-string answer when the
/// text is an indirect reference; the text itself otherwise.
pub open spec fn get_cls_name_spec(cls_reg: Option<RegItem>, dll_text: Option<Seq<char>>) -> Option<
    Seq<char>,
> {
    match cls_reg {
        None => None,
        Some(item) => match cls_name_raw(item) {
            None => None,
            Some(s) => if cls_needs_indirect(s) {
                dll_text
            } else {
                Some(s)
            },
        },
    }
}

/// Resolves a class's friendly name from its loaded registration node
/// and the host's indirect-string answer.
pub fn get_cls_name(cls_reg: Option<&RegItem>, dll_text: Option<&String>) -> (r: Option<String>)
    ensures
        opt_str_view_owned(r) == get_cls_name_spec(
            match cls_reg {
                Some(item) => Some(*item),
                None => None,
            },
            opt_str_view(dll_text),
        ),
{
    match cls_reg {
        None => None,
        Some(item) => match cls_name_query(item) {
            None => None,
            Some(s) => {
                if cls_name_needs_lookup(s.as_str()) {
                    match dll_text {
                        Some(t) => Some(clone_string(t)),
                        None => None,
                    }
                } else {
                    Some(s)
                }
            },
        },
    }
}

/// The view of an optional owned string.
pub open spec fn opt_str_view_owned(o: Option<String>) -> Option<Seq<char>> {
    match o {
        Some(s) => Some(s@),
        None => None,
    }
}

/// The registry path of a class registration: `CLSID\` and the braced
/// class id, the braces added when the name does not carry them.
pub open spec fn cls_query_path_spec(name: Seq<char>) -> Seq<char> {
    if name.len() > 0 && name.first() == '{' && name.last() == '}' {
        "CLSID\\"@ + name
    } else {
        "CLSID\\"@ + seq!['{'] + name + seq!['}']
    }
}

/// The registry path at which a class's registration is looked up.
pub fn cls_query_path(name: &str) -> (r: String)
    ensures
        r@ == cls_query_path_spec(name@),
{
    let mut r = String::from_str("CLSID\\");
    if crate::guid::is_clsid(name) {
        r.append(name);
        assert(r@ =~= cls_query_path_spec(name@));
    } else {
        r.append("{");
        r.append(name);
        r.append("}");
        proof {
            reveal_strlit("{");
            reveal_strlit("}");
            assert(r@ =~= cls_query_path_spec(name@));
        }
    }
    r
}

/// The display name of a catalog entry before the class fixup: the
/// table entry's resolved resource text, else its plain text, else the
/// shell-name chain over the node itself.
pub open spec fn name_candidate_spec(
    item: RegItem,
    guid_item: Option<GuidItem>,
    res_text: Option<Seq<char>>,
    indirect: Option<Seq<char>>,
    cls_name: Option<Seq<char>>,
) -> Seq<char> {
    match guid_item {
        Some(g) => match res_text {
            Some(t) => t,
            None => match g.text {
                Some(t) => t@,
                None => shell_name_spec(item, indirect, cls_name),
            },
        },
        None => shell_name_spec(item, indirect, cls_name),
    }
}

/// The view of an optional borrowed table entry.
pub open spec fn opt_guid_item_view(o: Option<&GuidItem>) -> Option<GuidItem> {
    match o {
        Some(g) => Some(*g),
        None => None,
    }
}

/// Computes a catalog entry's display name before the class fixup.
/// `res_text` is the host's resolution of the table entry's resource
/// reference, when it has one.
pub fn shell_name_candidate(
    reg: &RegItem,
    guid_item: Option<&GuidItem>,
    res_text: Option<&String>,
    indirect: Option<&String>,
    cls_name: Option<&String>,
) -> (r: String)
    ensures
        r@ == name_candidate_spec(
            *reg,
            opt_guid_item_view(guid_item),
            opt_str_view(res_text),
            opt_str_view(indirect),
            opt_str_view(cls_name),
        ),
{
    match guid_item {
        Some(g) => match res_text {
            Some(t) => clone_string(t),
            None => match &g.text {
                Some(t) => clone_string(t),
                None => get_shell_name(reg, indirect, cls_name),
            },
        },
        None => get_shell_name(reg, indirect, cls_name),
    }
}

/// A candidate name that is itself a braced class id is replaced by the
/// class's friendly name, when the host resolved one.
pub open spec fn final_name_spec(candidate: Seq<char>, cls_fix: Option<Seq<char>>) -> Seq<char> {
    if candidate.len() > 0 && candidate.first() == '{' && candidate.last() == '}' && cls_fix
        is Some {
        cls_fix->Some_0
    } else {
        candidate
    }
}

/// Builds the catalog entry of one registry-backed menu item. The
/// collaborator answers: `res_text`, `indirect` and `cls_name` feed the
/// name chain; `cls_fix` is the friendly name the host resolved when
/// the candidate name itself is a braced class id; `icon` is whatever
/// icon lookup succeeded. The entry embeds the tree and its REG-file
/// rendering, so a later disable or enable can compile its plan.
pub fn from_shell(
    reg: RegItem,
    guid_item: Option<&GuidItem>,
    res_text: Option<&String>,
    indirect: Option<&String>,
    cls_name: Option<&String>,
    cls_fix: Option<&String>,
    icon: Option<Vec<u8>>,
) -> (r: MenuItem)
    ensures
        r.id@ == reg.path@,
        r.name@ == final_name_spec(
            name_candidate_spec(
                reg,
                opt_guid_item_view(guid_item),
                opt_str_view(res_text),
                opt_str_view(indirect),
                opt_str_view(cls_name),
            ),
            opt_str_view(cls_fix),
        ),
        r.enabled == true,
        r.info is Some,
        r.info->Some_0.icon == icon,
        r.info->Some_0.publisher_display_name@.len() == 0,
        r.info->Some_0.description@.len() == 0,
        r.info->Some_0.types@.len() == 0,
        r.info->Some_0.install_path@.len() == 0,
        r.info->Some_0.family_name@.len() == 0,
        r.info->Some_0.full_name@.len() == 0,
        r.info->Some_0.reg == Some(reg),
        r.info->Some_0.reg_txt is Some,
        r.info->Some_0.reg_txt->Some_0@ == reg_txt(reg),
{
    let mut name = shell_name_candidate(&reg, guid_item, res_text, indirect, cls_name);
    if crate::guid::is_clsid(name.as_str()) {
        if let Some(fix) = cls_fix {
            name = clone_string(fix);
        }
    }
    let id = clone_string(&reg.path);
    let txt = reg.to_reg_txt();
    let info = MenuItemInfo {
        icon,
        publisher_display_name: String::new(),
        description: String::new(),
        types: Vec::new(),
        install_path: String::new(),
        family_name: String::new(),
        full_name: String::new(),
        reg: Some(reg),
        reg_txt: Some(txt),
    };
    MenuItem { id, name, enabled: true, info: Some(info) }
}

/// Builds the catalog entry of one handler-class menu item; the entry
/// has exactly the shape a shell verb's entry has.
pub fn from_shell_ex(
    reg: RegItem,
    guid_item: Option<&GuidItem>,
    res_text: Option<&String>,
    indirect: Option<&String>,
    cls_name: Option<&String>,
    cls_fix: Option<&String>,
    icon: Option<Vec<u8>>,
) -> (r: MenuItem)
    ensures
        r.id@ == reg.path@,
        r.name@ == final_name_spec(
            name_candidate_spec(
                reg,
                opt_guid_item_view(guid_item),
                opt_str_view(res_text),
                opt_str_view(indirect),
                opt_str_view(cls_name),
            ),
            opt_str_view(cls_fix),
        ),
        r.enabled == true,
        r.info is Some,
        r.info->Some_0.icon == icon,
        r.info->Some_0.reg == Some(reg),
        r.info->Some_0.reg_txt is Some,
        r.info->Some_0.reg_txt->Some_0@ == reg_txt(reg),
{
    from_shell(reg, guid_item, res_text, indirect, cls_name, cls_fix, icon)
}

/// Builds the single catalog entry of a policy subtree: the entry's id
/// is the queried path, its name the tree's own path, and it embeds the
/// tree and its rendering.
pub fn load_edge(reg: RegItem, path: &str) -> (r: Vec<MenuItem>)
    ensures
        r@.len() == 1,
        r@[0].id@ == path@,
        r@[0].name@ == reg.path@,
        r@[0].enabled == true,
        r@[0].info is Some,
        r@[0].info->Some_0.icon is None,
        r@[0].info->Some_0.reg == Some(reg),
        r@[0].info->Some_0.reg_txt is Some,
        r@[0].info->Some_0.reg_txt->Some_0@ == reg_txt(reg),
{
    let name = clone_string(&reg.path);
    let id = String::from_str(path);
    let txt = reg.to_reg_txt();
    let info = MenuItemInfo {
        icon: None,
        publisher_display_name: String::new(),
        description: String::new(),
        types: Vec::new(),
        install_path: String::new(),
        family_name: String::new(),
        full_name: String::new(),
        reg: Some(reg),
        reg_txt: Some(txt),
    };
    let mut r: Vec<MenuItem> = Vec::new();
    r.push(MenuItem { id, name, enabled: true, info: Some(info) });
    r
}

/// One place an icon may come from.
pub enum IconQuery {
    /// An icon string to be resolved as a resource or file path.
    Str(String),
    /// The executable token of a verb's command line.
    CommandExe(String),
}

/// The mathematical shape of one icon candidate.
pub enum IconQueryModel {
    Str(Seq<char>),
    CommandExe(Seq<char>),
}

impl View for IconQuery {
    type V = IconQueryModel;

    open spec fn view(&self) -> IconQueryModel {
        match self {
            IconQuery::Str(s) => IconQueryModel::Str(s@),
            IconQuery::CommandExe(s) => IconQueryModel::CommandExe(s@),
        }
    }
}

/// The models of a list of icon candidates.
pub open spec fn queries_model(qs: Seq<IconQuery>) -> Seq<IconQueryModel> {
    qs.map_values(|q: IconQuery| q@)
}

/// The command line's executable token: everything before the first
/// space, or the whole line.
pub open spec fn first_token(k: Seq<char>) -> Seq<char> {
    match split_at_char(k, ' ') {
        Some(p) => p.0,
        None => k,
    }
}

/// The decisive icon source of one node, when it has one: its `Icon`
/// text, else its `DefaultIcon` text, else its `command` child's
/// executable. A node with a decisive source offers no fallback.
pub open spec fn icon_source_spec(item: RegItem) -> Option<IconQueryModel> {
    match lookup_value(item.values@, "Icon"@) {
        Some(RegItemValue::SZ(s)) => Some(IconQueryModel::Str(s@)),
        _ => match lookup_value(item.values@, "DefaultIcon"@) {
            Some(RegItemValue::SZ(s)) => Some(IconQueryModel::Str(s@)),
            _ => match child_named(item.children@, "command"@) {
                Some(c) => match lookup_value(c.values@, ""@) {
                    Some(RegItemValue::SZ(k)) => Some(IconQueryModel::CommandExe(first_token(k@))),
                    _ => None,
                },
                None => None,
            },
        },
    }
}

/// The ordered icon candidates of a node: its own decisive source
/// alone, or every descendant's candidates, children in order.
pub open spec fn icon_candidates_spec(item: RegItem) -> Seq<IconQueryModel>
    decreases item, 1int,
{
    match icon_source_spec(item) {
        Some(q) => seq![q],
        None => children_icon_candidates(item.children@, item.children@.len() as int),
    }
}

/// The candidates of the first `j` children, concatenated.
pub open spec fn children_icon_candidates(children: Seq<RegItem>, j: int) -> Seq<IconQueryModel>
    decreases children, j,
{
    if j <= 0 || j > children.len() {
        Seq::empty()
    } else {
        children_icon_candidates(children, j - 1) + icon_candidates_spec(children[j - 1])
    }
}

/// Collects the ordered icon candidates of a node. The host tries each
/// in order and keeps the first lookup that yields icon bytes.
pub fn icon_candidates(reg: &RegItem) -> (r: Vec<IconQuery>)
    ensures
        queries_model(r@) == icon_candidates_spec(*reg),
    decreases *reg,
{
    let mut r: Vec<IconQuery> = Vec::new();
    if let Some(RegItemValue::SZ(s)) = reg.get_value("Icon") {
        r.push(IconQuery::Str(clone_string(s)));
        assert(queries_model(r@) =~= icon_candidates_spec(*reg));
        return r;
    }
    if let Some(RegItemValue::SZ(s)) = reg.get_value("DefaultIcon") {
        r.push(IconQuery::Str(clone_string(s)));
        assert(queries_model(r@) =~= icon_candidates_spec(*reg));
        return r;
    }
    let mut from_command = false;
    if let Some(c) = reg.get_child("command") {
        if let Some(RegItemValue::SZ(k)) = c.get_value("") {
            let n = k.as_str().unicode_len();
            let exe = match find_char(k.as_str(), ' ') {
                Some(idx) => {
                    let part = k.as_str().substring_char(0, idx);
                    proof {
                        lemma_split_at_char_at(k@, ' ', idx as int);
                        assert(k@.subrange(0, idx as int) =~= k@.take(idx as int));
                    }
                    String::from_str(part)
                },
                None => {
                    proof {
                        lemma_split_at_char_none(k@, ' ');
                    }
                    clone_string(k)
                },
            };
            r.push(IconQuery::CommandExe(exe));
            from_command = true;
        }
    }
    if from_command {
        assert(queries_model(r@) =~= icon_candidates_spec(*reg));
        return r;
    }
    let nc = reg.children.len();
    let mut j: usize = 0;
    while j < nc
        invariant
            0 <= j <= nc,
            nc == reg.children@.len(),
            icon_source_spec(*reg) is None,
            queries_model(r@) == children_icon_candidates(reg.children@, j as int),
        decreases nc - j,
    {
        proof {
            assert(decreases_to!(reg.children@ => reg.children@[j as int]));
            assert(decreases_to!(*reg => reg.children@[j as int]));
        }
        let mut child_qs = icon_candidates(&reg.children[j]);
        let ghost before = r@;
        let ghost added = child_qs@;
        r.append(&mut child_qs);
        proof {
            assert(r@ =~= before + added);
            assert(queries_model(r@) =~= queries_model(before) + queries_model(added));
            assert(queries_model(r@) =~= children_icon_candidates(reg.children@, j + 1));
        }
        j += 1;
    }
    assert(queries_model(r@) =~= icon_candidates_spec(*reg));
    r
}

} // verus!
