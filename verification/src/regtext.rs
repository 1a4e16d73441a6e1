//! Rendering a registry snapshot as REG-file text, the interchange
//! format the platform's registry editor imports.
use crate::strutil::chars_to_string;
use crate::strutil::dec_string;
use crate::strutil::hex_string_fixed;
use crate::strutil::u64_to_dec;
use crate::strutil::u64_to_hex_fixed;
use crate::tree::RegItem;
use crate::value::RegItemValue;
use crate::value::RegValueModel;
use vstd::prelude::*;
use vstd::string::StrSliceExecFns;
use vstd::string::StringExecFns;

verus! {

/// One character escaped for REG-file text: backslashes and double
/// quotes gain a leading backslash.
pub open spec fn escape_char(c: char) -> Seq<char> {
    if c == '\\' {
        seq!['\\', '\\']
    } else if c == '"' {
        seq!['\\', '"']
    } else {
        seq![c]
    }
}

/// A string escaped for REG-file text.
pub open spec fn escaped(s: Seq<char>) -> Seq<char>
    decreases s.len(),
{
    if s.len() == 0 {
        Seq::empty()
    } else {
        escaped(s.take(s.len() - 1)) + escape_char(s[s.len() - 1])
    }
}

/// Escapes backslashes and double quotes for REG-file text.
pub fn escape_str(s: &str) -> (r: String)
    ensures
        r@ == escaped(s@),
{
    let n = s.unicode_len();
    let mut acc: Vec<char> = Vec::new();
    let mut i: usize = 0;
    while i < n
        invariant
            0 <= i <= n,
            n == s@.len(),
            acc@ == escaped(s@.take(i as int)),
        decreases n - i,
    {
        let c = s.get_char(i);
        let ghost before = acc@;
        if c == '\\' {
            acc.push('\\');
            acc.push('\\');
        } else if c == '"' {
            acc.push('\\');
            acc.push('"');
        } else {
            acc.push(c);
        }
        proof {
            assert(s@.take(i + 1).take(i as int) =~= s@.take(i as int));
            assert(s@.take(i + 1).last() == s@[i as int]);
            assert(acc@ =~= before + escape_char(s@[i as int]));
        }
        i += 1;
    }
    assert(s@.take(n as int) =~= s@);
    chars_to_string(&acc)
}

/// A group of bytes as comma-separated lowercase hex pairs.
pub open spec fn hex_group(g: Seq<u8>) -> Seq<char>
    decreases g.len(),
{
    if g.len() == 0 {
        Seq::empty()
    } else if g.len() == 1 {
        hex_string_fixed(g[0] as nat, 2)
    } else {
        hex_group(g.take(g.len() - 1)) + seq![','] + hex_string_fixed(g.last() as nat, 2)
    }
}

/// The continuation groups of a hex payload: up to 25 bytes each.
pub open spec fn tail_groups(b: Seq<u8>) -> Seq<Seq<u8>>
    decreases b.len(),
{
    if b.len() == 0 {
        Seq::empty()
    } else if b.len() <= 25 {
        seq![b]
    } else {
        seq![b.take(25)] + tail_groups(b.skip(25))
    }
}

/// A hex payload split into lines: the first carries up to 23 bytes,
/// every continuation line up to 25.
pub open spec fn split_groups(b: Seq<u8>) -> Seq<Seq<u8>> {
    if b.len() <= 23 {
        seq![b]
    } else {
        seq![b.take(23)] + tail_groups(b.skip(23))
    }
}

/// Groups joined by the REG-file continuation: a comma, a backslash,
/// a newline, and two spaces of indentation.
pub open spec fn hex_lines(groups: Seq<Seq<u8>>) -> Seq<char>
    decreases groups.len(),
{
    if groups.len() == 0 {
        Seq::empty()
    } else if groups.len() == 1 {
        hex_group(groups[0])
    } else {
        hex_group(groups[0]) + ",\\\n  "@ + hex_lines(groups.skip(1))
    }
}

/// A whole hex payload line: `hex:` (or `hex(N):`) and the wrapped
/// comma-separated byte pairs.
pub open spec fn hex_line_text(b: Seq<u8>, t: nat) -> Seq<char> {
    (if t == 0 {
        "hex:"@
    } else {
        "hex("@ + dec_string(t) + "):"@
    }) + hex_lines(split_groups(b))
}

/// Renders the byte range `[from, to)` as comma-separated hex pairs.
fn hex_group_str(b: &Vec<u8>, from: usize, to: usize) -> (r: String)
    requires
        from <= to <= b@.len(),
    ensures
        r@ == hex_group(b@.subrange(from as int, to as int)),
{
    let mut s = String::new();
    if from == to {
        assert(b@.subrange(from as int, to as int) =~= Seq::<u8>::empty());
        return s;
    }
    let first = u64_to_hex_fixed(b[from] as u64, 2);
    s.append(first.as_str());
    proof {
        assert(b@.subrange(from as int, from + 1) =~= seq![b@[from as int]]);
        assert(hex_group(seq![b@[from as int]]) == hex_string_fixed(b@[from as int] as nat, 2));
        assert(s@ =~= hex_group(b@.subrange(from as int, from + 1)));
    }
    let mut k: usize = 1;
    while from + k < to
        invariant
            1 <= k,
            from + k <= to <= b@.len(),
            s@ == hex_group(b@.subrange(from as int, from + k)),
        decreases to - from - k,
    {
        s.append(",");
        let pair = u64_to_hex_fixed(b[from + k] as u64, 2);
        s.append(pair.as_str());
        proof {
            reveal_strlit(",");
            let ghost g = b@.subrange(from as int, from + k + 1);
            assert(g.len() == k + 1 >= 2);
            assert(g.take(g.len() - 1) =~= b@.subrange(from as int, from + k));
            assert(g.last() == b@[from + k]);
            assert(s@ =~= hex_group(g));
        }
        k += 1;
    }
    s
}

/// What remains to be rendered after the first `i` payload bytes have
/// been written: nothing, or a continuation for each remaining group.
pub open spec fn rest_lines(b: Seq<u8>) -> Seq<char> {
    if b.len() == 0 {
        Seq::empty()
    } else {
        ",\\\n  "@ + hex_lines(tail_groups(b))
    }
}

/// Renders a hex payload with its type prefix and line wrapping: the
/// first line carries up to 23 bytes, continuations up to 25.
pub fn to_hex_line(bytes: &Vec<u8>, hex_type: u32) -> (r: String)
    ensures
        r@ == hex_line_text(bytes@, hex_type as nat),
{
    let mut s: String;
    if hex_type == 0 {
        s = String::from_str("hex:");
    } else {
        s = String::from_str("hex(");
        let t = u64_to_dec(hex_type as u64);
        s.append(t.as_str());
        s.append("):");
        proof {
            reveal_strlit("):");
            assert(s@ =~= "hex("@ + dec_string(hex_type as nat) + "):"@);
        }
    }
    let n = bytes.len();
    if n <= 23 {
        let g = hex_group_str(bytes, 0, n);
        s.append(g.as_str());
        proof {
            assert(bytes@.subrange(0, n as int) =~= bytes@);
            assert(hex_lines(split_groups(bytes@)) == hex_group(bytes@));
        }
        return s;
    }
    let g = hex_group_str(bytes, 0, 23);
    s.append(g.as_str());
    proof {
        assert(bytes@.subrange(0, 23) =~= bytes@.take(23));
        assert(bytes@.skip(23).len() > 0);
        assert(split_groups(bytes@).skip(1) =~= tail_groups(bytes@.skip(23)));
        assert(split_groups(bytes@).len() >= 2) by {
            assert(tail_groups(bytes@.skip(23)).len() >= 1);
        }
        assert(hex_lines(split_groups(bytes@)) == hex_group(bytes@.take(23)) + ",\\\n  "@
            + hex_lines(tail_groups(bytes@.skip(23))));
    }
    let ghost target = hex_line_text(bytes@, hex_type as nat);
    let mut i: usize = 23;
    while i < n
        invariant
            23 <= i <= n,
            n == bytes@.len(),
            target == hex_line_text(bytes@, hex_type as nat),
            target == s@ + rest_lines(bytes@.skip(i as int)),
        decreases n - i,
    {
        let end = if n - i > 25 {
            i + 25
        } else {
            n
        };
        s.append(",\\\n  ");
        let g = hex_group_str(bytes, i, end);
        s.append(g.as_str());
        proof {
            reveal_strlit(",\\\n  ");
            let ghost rem = bytes@.skip(i as int);
            if rem.len() <= 25 {
                assert(end == n);
                assert(bytes@.subrange(i as int, n as int) =~= rem);
                assert(tail_groups(rem) == seq![rem]);
                assert(hex_lines(seq![rem]) == hex_group(rem));
                assert(bytes@.skip(n as int) =~= Seq::<u8>::empty());
                assert(target =~= s@ + rest_lines(bytes@.skip(n as int)));
            } else {
                assert(end == i + 25);
                assert(bytes@.subrange(i as int, end as int) =~= rem.take(25));
                assert(rem.skip(25) =~= bytes@.skip(i + 25));
                assert(tail_groups(rem) == seq![rem.take(25)] + tail_groups(rem.skip(25)));
                assert(tail_groups(rem).skip(1) =~= tail_groups(rem.skip(25)));
                assert(tail_groups(rem).len() >= 2) by {
                    assert(rem.skip(25).len() > 0);
                    assert(tail_groups(rem.skip(25)).len() >= 1);
                }
                assert(hex_lines(tail_groups(rem)) == hex_group(rem.take(25)) + ",\\\n  "@
                    + hex_lines(tail_groups(rem.skip(25))));
                assert(target =~= s@ + rest_lines(bytes@.skip(end as int)));
            }
        }
        i = end;
    }
    proof {
        assert(bytes@.skip(n as int) =~= Seq::<u8>::empty());
        assert(target =~= s@);
    }
    s
}

/// The left-hand side of a value line: `@` for the default value, the
/// escaped name in quotes otherwise.
pub open spec fn value_name_text(name: Seq<char>) -> Seq<char> {
    if name.len() == 0 {
        "@"@
    } else {
        seq!['"'] + escaped(name) + seq!['"']
    }
}

/// The right-hand side of a value line, by value kind.
pub open spec fn value_data_text(m: RegValueModel) -> Seq<char> {
    match m {
        RegValueModel::Text(s) => seq!['"'] + escaped(s) + seq!['"'],
        RegValueModel::Dword(v) => "dword:"@ + hex_string_fixed(v as nat, 8),
        RegValueModel::Qword(v) => "qword:"@ + hex_string_fixed(v as nat, 16),
        RegValueModel::Expand(b) => escaped(hex_line_text(b, 2)),
        RegValueModel::Multi(s) => escaped(s),
        RegValueModel::Binary(b) => hex_line_text(b, 0),
        RegValueModel::Untyped(b) => "hex(0):"@ + hex_group(b),
    }
}

/// One whole value line.
pub open spec fn value_line_text(name: Seq<char>, m: RegValueModel) -> Seq<char> {
    value_name_text(name) + seq!['='] + value_data_text(m) + seq!['\n']
}

/// The value lines of one node, in stored order.
pub open spec fn values_text(vs: Seq<(String, RegItemValue)>) -> Seq<char>
    decreases vs.len(),
{
    if vs.len() == 0 {
        Seq::empty()
    } else {
        values_text(vs.take(vs.len() - 1)) + value_line_text(vs.last().0@, vs.last().1@)
    }
}

/// One node's section: its header line, its value lines, then every
/// child's section.
pub open spec fn node_text(item: RegItem) -> Seq<char>
    decreases item, 0int,
{
    "\n[HKEY_CLASSES_ROOT\\"@ + item.path@ + "]\n"@ + values_text(item.values@)
        + children_text_upto(item.children@, item.children@.len() as int)
}

/// The sections of the first `j` children, concatenated.
pub open spec fn children_text_upto(children: Seq<RegItem>, j: int) -> Seq<char>
    decreases children, j,
{
    if j <= 0 || j > children.len() {
        Seq::empty()
    } else {
        children_text_upto(children, j - 1) + node_text(children[j - 1])
    }
}

/// The whole REG-file document for a tree.
pub open spec fn reg_txt(item: RegItem) -> Seq<char> {
    "Windows Registry Editor Version 5.00\n"@ + node_text(item)
}

/// Renders the escaped data text of one value.
fn value_data_str(v: &RegItemValue) -> (r: String)
    ensures
        r@ == value_data_text(v@),
{
    match v {
        RegItemValue::SZ(s) => {
            let mut out = String::from_str("\"");
            let e = escape_str(s.as_str());
            out.append(e.as_str());
            out.append("\"");
            proof {
                reveal_strlit("\"");
                assert(out@ =~= value_data_text(v@));
            }
            out
        },
        RegItemValue::DWORD(x) => {
            let mut out = String::from_str("dword:");
            let h = u64_to_hex_fixed(*x as u64, 8);
            out.append(h.as_str());
            assert(out@ =~= value_data_text(v@));
            out
        },
        RegItemValue::QWORD(x) => {
            let mut out = String::from_str("qword:");
            let h = u64_to_hex_fixed(*x, 16);
            out.append(h.as_str());
            assert(out@ =~= value_data_text(v@));
            out
        },
        RegItemValue::ExpandSz(b) => {
            let line = to_hex_line(b, 2);
            escape_str(line.as_str())
        },
        RegItemValue::MultiSz(s) => escape_str(s.as_str()),
        RegItemValue::BINARY(b) => to_hex_line(b, 0),
        RegItemValue::Raw(b) => {
            let mut out = String::from_str("hex(0):");
            let n = b.len();
            let g = hex_group_str(b, 0, n);
            out.append(g.as_str());
            proof {
                assert(b@.subrange(0, n as int) =~= b@);
                assert(out@ =~= value_data_text(v@));
            }
            out
        },
    }
}

proof fn lemma_values_text_take(vs: Seq<(String, RegItemValue)>, i: int)
    requires
        0 <= i < vs.len(),
    ensures
        values_text(vs.take(i + 1)) == values_text(vs.take(i)) + value_line_text(
            vs[i].0@,
            vs[i].1@,
        ),
{
    let t = vs.take(i + 1);
    assert(t.take(t.len() - 1) =~= vs.take(i));
    assert(t.last() == vs[i]);
}

impl RegItem {
    /// Appends this node's section, and its children's, to the output.
    fn append_reg_txt(&self, out: &mut String)
        ensures
            final(out)@ == old(out)@ + node_text(*self),
        decreases *self,
    {
        let ghost start = out@;
        out.append("\n[HKEY_CLASSES_ROOT\\");
        out.append(self.path.as_str());
        out.append("]\n");
        let nv = self.values.len();
        let mut i: usize = 0;
        proof {
            assert(values_text(self.values@.take(0)) =~= Seq::<char>::empty());
            assert(out@ =~= start + "\n[HKEY_CLASSES_ROOT\\"@ + self.path@ + "]\n"@ + values_text(
                self.values@.take(0),
            ));
        }
        while i < nv
            invariant
                0 <= i <= nv,
                nv == self.values@.len(),
                out@ == start + "\n[HKEY_CLASSES_ROOT\\"@ + self.path@ + "]\n"@ + values_text(
                    self.values@.take(i as int),
                ),
            decreases nv - i,
        {
            let name = &self.values[i].0;
            if name.as_str().is_empty() {
                out.append("@");
            } else {
                out.append("\"");
                let e = escape_str(name.as_str());
                out.append(e.as_str());
                out.append("\"");
            }
            out.append("=");
            let data = value_data_str(&self.values[i].1);
            out.append(data.as_str());
            out.append("\n");
            proof {
                reveal_strlit("@");
                reveal_strlit("\"");
                reveal_strlit("=");
                reveal_strlit("\n");
                lemma_values_text_take(self.values@, i as int);
                if self.values@[i as int].0@.len() == 0 {
                    assert(value_name_text(self.values@[i as int].0@) =~= "@"@);
                } else {
                    assert(value_name_text(self.values@[i as int].0@) =~= seq!['"'] + escaped(
                        self.values@[i as int].0@,
                    ) + seq!['"']);
                }
                assert(out@ =~= start + "\n[HKEY_CLASSES_ROOT\\"@ + self.path@ + "]\n"@
                    + values_text(self.values@.take(i + 1)));
            }
            i += 1;
        }
        assert(self.values@.take(nv as int) =~= self.values@);
        let nc = self.children.len();
        let mut j: usize = 0;
        while j < nc
            invariant
                0 <= j <= nc,
                nc == self.children@.len(),
                out@ == start + "\n[HKEY_CLASSES_ROOT\\"@ + self.path@ + "]\n"@ + values_text(
                    self.values@,
                ) + children_text_upto(self.children@, j as int),
            decreases nc - j,
        {
            proof {
                assert(decreases_to!(self.children@ => self.children@[j as int]));
                assert(decreases_to!(*self => self.children@[j as int]));
            }
            self.children[j].append_reg_txt(out);
            proof {
                assert(out@ =~= start + "\n[HKEY_CLASSES_ROOT\\"@ + self.path@ + "]\n"@
                    + values_text(self.values@) + children_text_upto(self.children@, j + 1));
            }
            j += 1;
        }
    }

    /// The whole REG-file document for this tree, beginning with the
    /// standard header line.
    pub fn to_reg_txt(&self) -> (r: String)
        ensures
            r@ == reg_txt(*self),
    {
        let mut out = String::from_str("Windows Registry Editor Version 5.00\n");
        self.append_reg_txt(&mut out);
        out
    }
}

} // verus!
