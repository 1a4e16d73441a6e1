//! The blocked-class list: a registry value-name set under one fixed
//! key, which the shell consults to suppress packaged extensions.
use crate::scene::Scope;
use crate::scene::SceneRoot;
use crate::store::clone_string;
use crate::store::ops_model;
use crate::store::RegOp;
use crate::store::RegOpModel;
use crate::strutil::str_eq;
use crate::value::spec_encode;
use crate::value::RegItemValue;
use crate::value::RegValueModel;
use vstd::prelude::*;
use vstd::string::StrSliceExecFns;
use vstd::string::StringExecFns;

verus! {

/// The key that holds the blocked-class value names.
pub open spec fn blocked_key() -> Seq<char> {
    "Software\\Microsoft\\Windows\\CurrentVersion\\Shell Extensions\\Blocked"@
}

/// The blocked-class key, as a string.
pub fn blocked_key_str() -> (r: String)
    ensures
        r@ == blocked_key(),
{
    String::from_str("Software\\Microsoft\\Windows\\CurrentVersion\\Shell Extensions\\Blocked")
}

/// A class id wrapped in braces, the form the value names take.
pub open spec fn reg_name_of(id: Seq<char>) -> Seq<char> {
    seq!['{'] + id + seq!['}']
}

/// Wraps a class id in braces.
pub fn to_reg_name(val: &str) -> (r: String)
    ensures
        r@ == reg_name_of(val@),
{
    let mut r = String::from_str("{");
    r.append(val);
    r.append("}");
    proof {
        reveal_strlit("{");
        reveal_strlit("}");
        assert(r@ =~= reg_name_of(val@));
    }
    r
}

/// The sequence without its leading runs of one character.
pub open spec fn drop_leading(s: Seq<char>, c: char) -> Seq<char>
    decreases s.len(),
{
    if s.len() > 0 && s[0] == c {
        drop_leading(s.skip(1), c)
    } else {
        s
    }
}

/// The sequence without its trailing runs of one character.
pub open spec fn drop_trailing(s: Seq<char>, c: char) -> Seq<char>
    decreases s.len(),
{
    if s.len() > 0 && s[s.len() - 1] == c {
        drop_trailing(s.take(s.len() - 1), c)
    } else {
        s
    }
}

/// A stored value name read back as a class id: every leading and
/// trailing `{`, then every leading and trailing `}`, removed.
pub open spec fn from_reg_name_spec(s: Seq<char>) -> Seq<char> {
    drop_trailing(drop_leading(drop_trailing(drop_leading(s, '{'), '{'), '}'), '}')
}

proof fn lemma_drop_leading_at(s: Seq<char>, c: char, k: int)
    requires
        0 <= k <= s.len(),
        forall|j: int| 0 <= j < k ==> s[j] == c,
        k == s.len() || s[k] != c,
    ensures
        drop_leading(s, c) == s.skip(k),
    decreases k,
{
    if k == 0 {
        assert(s.skip(0) =~= s);
    } else {
        lemma_drop_leading_at(s.skip(1), c, k - 1);
        assert(s.skip(1).skip(k - 1) =~= s.skip(k));
    }
}

proof fn lemma_drop_trailing_at(s: Seq<char>, c: char, k: int)
    requires
        0 <= k <= s.len(),
        forall|j: int| k <= j < s.len() ==> s[j] == c,
        k == 0 || s[k - 1] != c,
    ensures
        drop_trailing(s, c) == s.take(k),
    decreases s.len(),
{
    if k == s.len() {
        assert(s.take(k) =~= s);
    } else {
        assert(s[s.len() - 1] == c);
        lemma_drop_trailing_at(s.take(s.len() - 1), c, k);
        assert(s.take(s.len() - 1).take(k) =~= s.take(k));
    }
}

/// Removes every leading and trailing occurrence of one character.
fn trim_char_str(s: &str, c: char) -> (r: String)
    ensures
        r@ == drop_trailing(drop_leading(s@, c), c),
{
    let n = s.unicode_len();
    let mut lo: usize = 0;
    while lo < n && s.get_char(lo) == c
        invariant
            0 <= lo <= n,
            n == s@.len(),
            forall|j: int| 0 <= j < lo ==> s@[j] == c,
        decreases n - lo,
    {
        lo += 1;
    }
    proof {
        lemma_drop_leading_at(s@, c, lo as int);
    }
    let ghost mid = s@.skip(lo as int);
    let mut hi: usize = n;
    while hi > lo && s.get_char(hi - 1) == c
        invariant
            lo <= hi <= n,
            n == s@.len(),
            forall|j: int| hi <= j < n ==> s@[j] == c,
        decreases hi,
    {
        hi -= 1;
    }
    proof {
        assert forall|j: int| hi - lo <= j < mid.len() implies mid[j] == c by {
            assert(mid[j] == s@[lo + j]);
        }
        if hi > lo {
            assert(mid[hi - lo - 1] == s@[hi - 1]);
        }
        lemma_drop_trailing_at(mid, c, hi - lo);
        assert(mid.take(hi - lo) =~= s@.subrange(lo as int, hi as int));
    }
    String::from_str(s.substring_char(lo, hi))
}

/// Reads a stored value name back as a class id.
pub fn from_reg_name(val: &str) -> (r: String)
    ensures
        r@ == from_reg_name_spec(val@),
{
    let a = trim_char_str(val, '{');
    trim_char_str(a.as_str(), '}')
}

/// The views of a list of names.
pub open spec fn names_view(items: Seq<String>) -> Seq<Seq<char>> {
    items.map_values(|s: String| s@)
}

/// The ids collected from stored value names, first occurrence kept.
pub open spec fn collected_names(names: Seq<String>) -> Seq<Seq<char>>
    decreases names.len(),
{
    if names.len() == 0 {
        Seq::empty()
    } else {
        let rest = collected_names(names.take(names.len() - 1));
        let id = from_reg_name_spec(names.last()@);
        if rest.contains(id) {
            rest
        } else {
            rest.push(id)
        }
    }
}

/// The blocked-class set of one scope: the class ids read from the
/// blocked key's value names.
pub struct Blocks {
    pub scope: Scope,
    pub items: Vec<String>,
}

impl Blocks {
    /// The set as read from the value names the host enumerated under
    /// the blocked key, duplicates collapsed.
    pub fn from_names(scope: Scope, names: &Vec<String>) -> (r: Blocks)
        ensures
            r.scope == scope,
            names_view(r.items@) == collected_names(names@),
    {
        let mut items: Vec<String> = Vec::new();
        let n = names.len();
        let mut i: usize = 0;
        proof {
            assert(names_view(items@) =~= collected_names(names@.take(0)));
        }
        while i < n
            invariant
                0 <= i <= n,
                n == names@.len(),
                names_view(items@) == collected_names(names@.take(i as int)),
            decreases n - i,
        {
            let id = from_reg_name(names[i].as_str());
            let present = contains_str(&items, id.as_str());
            proof {
                let ghost prefix = collected_names(names@.take(i as int));
                assert(present == prefix.contains(id@)) by {
                    if present {
                        let k = choose|k: int| 0 <= k < items@.len() && items@[k]@ == id@;
                        assert(names_view(items@)[k] == id@);
                    } else if prefix.contains(id@) {
                        let k = choose|k: int| 0 <= k < prefix.len() && prefix[k] == id@;
                        assert(names_view(items@)[k] == id@);
                        assert(items@[k]@ == id@);
                    }
                }
                assert(names@.take(i + 1).take(i as int) =~= names@.take(i as int));
                assert(names@.take(i + 1).last() == names@[i as int]);
            }
            if !present {
                let ghost before = items@;
                items.push(id);
                assert(names_view(items@) =~= names_view(before).push(
                    from_reg_name_spec(names@[i as int]@),
                ));
            }
            i += 1;
        }
        assert(names@.take(n as int) =~= names@);
        Blocks { scope, items }
    }

    /// Whether the class id is blocked.
    pub fn contains(&self, id: &str) -> (r: bool)
        ensures
            r == names_view(self.items@).contains(id@),
    {
        let found = contains_str(&self.items, id);
        proof {
            if found {
                let k = choose|k: int| 0 <= k < self.items@.len() && self.items@[k]@ == id@;
                assert(names_view(self.items@)[k] == id@);
            } else if names_view(self.items@).contains(id@) {
                let k = choose|k: int|
                    0 <= k < names_view(self.items@).len() && names_view(self.items@)[k] == id@;
                assert(self.items@[k]@ == id@);
            }
        }
        found
    }

    /// Blocks a class id: the plan creates the blocked key and sets an
    /// empty text value under the braced name, and the set gains the id
    /// unless it already holds it.
    pub fn add(&mut self, id: &str) -> (r: Vec<RegOp>)
        ensures
            ops_model(r@) == seq![
                RegOpModel::CreateKey(old(self).scope.spec_hive(), blocked_key()),
                RegOpModel::SetValue(
                    old(self).scope.spec_hive(),
                    blocked_key(),
                    reg_name_of(id@),
                    spec_encode(RegValueModel::Text(Seq::empty())),
                ),
            ],
            final(self).scope == old(self).scope,
            names_view(final(self).items@) == (if names_view(old(self).items@).contains(id@) {
                names_view(old(self).items@)
            } else {
                names_view(old(self).items@).push(id@)
            }),
    {
        let hive = self.scope.to_hive();
        let mut r: Vec<RegOp> = Vec::new();
        r.push(RegOp::CreateKey { root: hive, path: blocked_key_str() });
        let empty_value = RegItemValue::SZ(String::new());
        let raw = empty_value.encode();
        r.push(
            RegOp::SetValue {
                root: hive,
                path: blocked_key_str(),
                name: to_reg_name(id),
                value: raw,
            },
        );
        let present = self.contains(id);
        if !present {
            let ghost before = self.items@;
            self.items.push(String::from_str(id));
            assert(names_view(self.items@) =~= names_view(before).push(id@));
        }
        proof {
            assert(ops_model(r@) =~= seq![
                RegOpModel::CreateKey(self.scope.spec_hive(), blocked_key()),
                RegOpModel::SetValue(
                    self.scope.spec_hive(),
                    blocked_key(),
                    reg_name_of(id@),
                    spec_encode(RegValueModel::Text(Seq::empty())),
                ),
            ]);
        }
        r
    }

    /// Unblocks a class id. An id that is not blocked is a silent
    /// success with no plan. When the host could open the key for
    /// writing, the plan deletes the braced value name and the set
    /// drops the id; when it could not, the set is cleared instead and
    /// nothing is planned.
    pub fn remove(&mut self, id: &str, key_writable: bool) -> (r: Option<RegOp>)
        ensures
            final(self).scope == old(self).scope,
            !names_view(old(self).items@).contains(id@) ==> r is None && final(self).items@ == old(
                self,
            ).items@,
            names_view(old(self).items@).contains(id@) && key_writable ==> {
                &&& r is Some
                &&& r->Some_0@ == RegOpModel::DeleteValue(
                    old(self).scope.spec_hive(),
                    blocked_key(),
                    reg_name_of(id@),
                )
                &&& names_view(final(self).items@) == remove_name(
                    names_view(old(self).items@),
                    id@,
                )
            },
            names_view(old(self).items@).contains(id@) && !key_writable ==> r is None
                && final(self).items@.len() == 0,
    {
        let present = self.contains(id);
        if !present {
            return None;
        }
        if key_writable {
            let hive = self.scope.to_hive();
            remove_all_names(&mut self.items, id);
            Some(
                RegOp::DeleteValue {
                    root: hive,
                    path: blocked_key_str(),
                    name: to_reg_name(id),
                },
            )
        } else {
            self.items.clear();
            None
        }
    }

}

/// Removes every occurrence of one id from a list of ids.
pub fn remove_all_names(items: &mut Vec<String>, id: &str)
    ensures
        names_view(final(items)@) == remove_name(names_view(old(items)@), id@),
{
    let n = items.len();
    let mut kept: Vec<String> = Vec::new();
    let mut i: usize = 0;
    proof {
        assert(names_view(kept@) =~= Seq::<Seq<char>>::empty());
        assert(names_view(items@.take(0)) =~= Seq::<Seq<char>>::empty());
        assert(remove_name(names_view(items@.take(0)), id@) =~= Seq::<Seq<char>>::empty());
    }
    while i < n
        invariant
            0 <= i <= n,
            n == items@.len(),
            items@ == old(items)@,
            names_view(kept@) == remove_name(names_view(items@.take(i as int)), id@),
        decreases n - i,
    {
        let keep = !str_eq(items[i].as_str(), id);
        let ghost before = kept@;
        if keep {
            kept.push(clone_string(&items[i]));
        }
        proof {
            let ghost prefix = names_view(items@.take(i as int));
            let ghost x = items@[i as int]@;
            assert(names_view(items@.take(i + 1)) =~= prefix.push(x));
            lemma_remove_name_push(prefix, x, id@);
            if keep {
                assert(names_view(kept@) =~= names_view(before).push(x));
            } else {
                assert(names_view(kept@) =~= names_view(before));
            }
        }
        i += 1;
    }
    assert(items@.take(n as int) =~= items@);
    *items = kept;
}

/// The names with every occurrence of one id removed.
pub open spec fn remove_name(names: Seq<Seq<char>>, id: Seq<char>) -> Seq<Seq<char>>
    decreases names.len(),
{
    if names.len() == 0 {
        Seq::empty()
    } else if names[0] == id {
        remove_name(names.skip(1), id)
    } else {
        seq![names[0]] + remove_name(names.skip(1), id)
    }
}

proof fn lemma_remove_name_push(names: Seq<Seq<char>>, x: Seq<char>, id: Seq<char>)
    ensures
        remove_name(names.push(x), id) == (if x == id {
            remove_name(names, id)
        } else {
            remove_name(names, id).push(x)
        }),
    decreases names.len(),
{
    if names.len() == 0 {
        assert(names.push(x).skip(1) =~= Seq::<Seq<char>>::empty());
        assert(remove_name(Seq::<Seq<char>>::empty(), id) == Seq::<Seq<char>>::empty());
        if x == id {
            assert(remove_name(names.push(x), id) =~= remove_name(names, id));
        } else {
            assert(remove_name(names.push(x), id) =~= remove_name(names, id).push(x));
        }
    } else {
        lemma_remove_name_push(names.skip(1), x, id);
        assert(names.push(x).skip(1) =~= names.skip(1).push(x));
        assert(names.push(x)[0] == names[0]);
        if names[0] == id {
        } else if x == id {
            assert(remove_name(names.push(x), id) =~= remove_name(names, id));
        } else {
            assert(remove_name(names.push(x), id) =~= remove_name(names, id).push(x));
        }
    }
}

/// Whether one of the strings equals `id`.
fn contains_str(items: &Vec<String>, id: &str) -> (r: bool)
    ensures
        r == (exists|j: int| 0 <= j < items@.len() && #[trigger] items@[j]@ == id@),
{
    let n = items.len();
    let mut i: usize = 0;
    while i < n
        invariant
            0 <= i <= n,
            n == items@.len(),
            forall|j: int| 0 <= j < i ==> #[trigger] items@[j]@ != id@,
        decreases n - i,
    {
        if str_eq(items[i].as_str(), id) {
            return true;
        }
        i += 1;
    }
    false
}

} // verus!
