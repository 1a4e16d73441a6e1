//! The in-memory registry snapshot: a recursively loaded subtree with
//! its path, values and child subtrees, and the read-side heuristics
//! that run over it.
use crate::guid::find_guid;
use crate::guid::first_guid;
use crate::scene::path_in_scope;
use crate::scene::path_is_safe;
use crate::scene::SceneRoot;
use crate::strutil::last_segment;
use crate::strutil::path_last_segment;
use crate::strutil::str_eq;
use crate::value::display_of;
use crate::value::spec_decode;
use crate::value::RawValue;
use crate::value::RegItemValue;
use crate::value::RegValueModel;
use vstd::prelude::*;
use vstd::string::StrSliceExecFns;
use vstd::string::StringExecFns;

verus! {

/// A snapshot of one registry subtree.
///
/// `path` is the key path relative to `root`; `values` maps value names
/// to decoded values (the empty name is the key's default value);
/// `children` holds one subtree per immediate subkey.
#[derive(Debug)]
pub struct RegItem {
    pub path: String,
    pub values: Vec<(String, RegItemValue)>,
    pub children: Vec<RegItem>,
    pub root: SceneRoot,
}

/// A well-formed snapshot: value names are unique, and every child's
/// path extends this node's path by one backslash-separated segment.
pub open spec fn wf_tree(item: RegItem) -> bool
    decreases item,
{
    &&& (forall|i: int, j: int|
        0 <= i < j < item.values@.len() ==> item.values@[i].0@ != item.values@[j].0@)
    &&& (forall|i: int|
        0 <= i < item.children@.len() ==> {
            &&& (#[trigger] item.children@[i]).path@ == item.path@ + "\\"@ + last_segment(
                item.children@[i].path@,
            )
            &&& item.children@[i].root == item.root
        })
    &&& (forall|i: int| 0 <= i < item.children@.len() ==> wf_tree(#[trigger] item.children@[i]))
}

/// The value stored under a name: the first pair that carries it.
pub open spec fn lookup_value(vs: Seq<(String, RegItemValue)>, name: Seq<char>) -> Option<
    RegItemValue,
>
    decreases vs.len(),
{
    if vs.len() == 0 {
        None
    } else if vs[0].0@ == name {
        Some(vs[0].1)
    } else {
        lookup_value(vs.skip(1), name)
    }
}

/// The index of the first child whose final path segment is `name`,
/// or -1 when no child carries it.
pub open spec fn child_index(children: Seq<RegItem>, name: Seq<char>) -> int
    decreases children.len(),
{
    if children.len() == 0 {
        -1
    } else if last_segment(children[0].path@) == name {
        0
    } else {
        let rest = child_index(children.skip(1), name);
        if rest < 0 {
            -1
        } else {
            rest + 1
        }
    }
}

proof fn lemma_child_index_range(children: Seq<RegItem>, name: Seq<char>)
    ensures
        child_index(children, name) == -1 || (0 <= child_index(children, name) < children.len()
            && last_segment(children[child_index(children, name)].path@) == name),
    decreases children.len(),
{
    if children.len() > 0 && last_segment(children[0].path@) != name {
        lemma_child_index_range(children.skip(1), name);
    }
}

/// The first child whose final path segment is `name`.
pub open spec fn child_named(children: Seq<RegItem>, name: Seq<char>) -> Option<RegItem> {
    let i = child_index(children, name);
    if i >= 0 {
        Some(children[i])
    } else {
        None
    }
}

/// A braced class identifier held by a text value: the text between
/// `{` and `}` when the value is text wrapped in them.
pub open spec fn braced_of(v: Option<RegItemValue>) -> Option<Seq<char>> {
    match v {
        Some(RegItemValue::SZ(s)) => {
            if s@.len() > 0 && s@.first() == '{' && s@.last() == '}' {
                Some(s@.subrange(1, s@.len() - 1))
            } else {
                None
            }
        },
        _ => None,
    }
}

/// The first of two candidates that is present.
pub open spec fn first_some(a: Option<Seq<char>>, b: Option<Seq<char>>) -> Option<Seq<char>> {
    if a is Some {
        a
    } else {
        b
    }
}

/// The display text of an optional value; empty when absent.
pub open spec fn display_or_empty(v: Option<RegItemValue>) -> Seq<char> {
    match v {
        Some(x) => display_of(x@),
        None => Seq::empty(),
    }
}

/// Step one of the extraction heuristic: an explicitly declared handler
/// class in one of the three well-known value names, in priority order.
pub open spec fn guid_direct(item: RegItem) -> Option<Seq<char>> {
    first_some(
        braced_of(lookup_value(item.values@, "CommandStateHandler"@)),
        first_some(
            braced_of(lookup_value(item.values@, "DelegateExecute"@)),
            braced_of(lookup_value(item.values@, "CLSID"@)),
        ),
    )
}

/// Step three of the extraction heuristic: the first GUID-shaped
/// substring of the node's path, default value, or `CLSID` value.
pub open spec fn guid_scan(item: RegItem) -> Option<Seq<char>> {
    first_some(
        first_guid(item.path@),
        first_some(
            first_guid(display_or_empty(lookup_value(item.values@, ""@))),
            first_guid(display_or_empty(lookup_value(item.values@, "CLSID"@))),
        ),
    )
}

/// The class identifier the heuristic extracts from one node: explicit
/// handler values first, then well-known child keys, then a textual scan.
/// The ordering matters: a declared handler must win over path guessing.
pub open spec fn guid_of(item: RegItem) -> Option<Seq<char>>
    decreases item, 1int,
{
    let direct = guid_direct(item);
    if direct is Some {
        direct
    } else {
        let from_children = first_some(
            guid_of_child(item, "command"@),
            first_some(
                guid_of_child(item, "DropTarget"@),
                first_some(
                    guid_of_child(item, "SystemFileAssociations"@),
                    first_some(
                        guid_of_child(item, "PropertySheetHandlers"@),
                        first_some(
                            guid_of_child(item, "DragDropHandlers"@),
                            guid_of_child(item, "CopyHookHandlers"@),
                        ),
                    ),
                ),
            ),
        );
        if from_children is Some {
            from_children
        } else {
            guid_scan(item)
        }
    }
}

/// The class identifier extracted from the child key of that name, when
/// both the child and its identifier exist.
pub open spec fn guid_of_child(item: RegItem, name: Seq<char>) -> Option<Seq<char>>
    decreases item, 0int,
{
    let i = child_index(item.children@, name);
    if 0 <= i < item.children@.len() {
        guid_of(item.children@[i])
    } else {
        None
    }
}

impl RegItem {
    /// The value stored under `name`, if any.
    pub fn get_value(&self, name: &str) -> (r: Option<&RegItemValue>)
        ensures
            match r {
                Some(v) => lookup_value(self.values@, name@) == Some(*v),
                None => lookup_value(self.values@, name@) is None,
            },
    {
        let n = self.values.len();
        let mut i: usize = 0;
        assert(self.values@.skip(0) =~= self.values@);
        while i < n
            invariant
                0 <= i <= n,
                n == self.values@.len(),
                lookup_value(self.values@, name@) == lookup_value(
                    self.values@.skip(i as int),
                    name@,
                ),
            decreases n - i,
        {
            let ghost rest = self.values@.skip(i as int);
            assert(rest[0] == self.values@[i as int]);
            if str_eq(self.values[i].0.as_str(), name) {
                return Some(&self.values[i].1);
            }
            assert(rest.skip(1) =~= self.values@.skip(i + 1));
            i += 1;
        }
        None
    }

    /// The immediate child whose key name is `name`, exact match.
    pub fn get_child(&self, name: &str) -> (r: Option<&RegItem>)
        ensures
            match r {
                Some(c) => child_named(self.children@, name@) == Some(*c) && (exists|k: int|
                    0 <= k < self.children@.len() && self.children@[k] == *c),
                None => child_named(self.children@, name@) is None,
            },
    {
        let n = self.children.len();
        let mut i: usize = 0;
        while i < n
            invariant
                0 <= i <= n,
                n == self.children@.len(),
                forall|k: int|
                    0 <= k < i ==> last_segment(#[trigger] self.children@[k].path@) != name@,
            decreases n - i,
        {
            let seg = path_last_segment(self.children[i].path.as_str());
            if str_eq(seg.as_str(), name) {
                proof {
                    lemma_child_index_first(self.children@, name@, i as int);
                }
                return Some(&self.children[i]);
            }
            i += 1;
        }
        proof {
            lemma_child_index_none(self.children@, name@);
        }
        None
    }

    /// Whether this tree's path lies inside the mutation allow-list.
    /// Consulted on every write and delete; never cached.
    pub fn is_safe(&self) -> (r: bool)
        ensures
            r == path_is_safe(self.path@),
    {
        path_in_scope(self.path.as_str())
    }

    /// A braced class identifier stored as text under `name`, with the
    /// braces removed.
    fn braced_value(&self, name: &str) -> (r: Option<String>)
        ensures
            match r {
                Some(g) => braced_of(lookup_value(self.values@, name@)) == Some(g@),
                None => braced_of(lookup_value(self.values@, name@)) is None,
            },
    {
        match self.get_value(name) {
            Some(RegItemValue::SZ(s)) => {
                let n = s.as_str().unicode_len();
                if n > 0 && s.as_str().get_char(0) == '{' && s.as_str().get_char(n - 1) == '}' {
                    let inner = s.as_str().substring_char(1, n - 1);
                    Some(String::from_str(inner))
                } else {
                    None
                }
            },
            _ => None,
        }
    }

    /// Extracts the class identifier this node points at, trying
    /// explicit handler values, well-known child keys, and a scan of
    /// the node's own text, in that order.
    pub fn get_guid(&self) -> (r: Option<String>)
        ensures
            match r {
                Some(g) => guid_of(*self) == Some(g@),
                None => guid_of(*self) is None,
            },
        decreases *self,
    {
        if let Some(g) = self.braced_value("CommandStateHandler") {
            return Some(g);
        }
        if let Some(g) = self.braced_value("DelegateExecute") {
            return Some(g);
        }
        if let Some(g) = self.braced_value("CLSID") {
            return Some(g);
        }
        if let Some(g) = self.child_guid("command") {
            return Some(g);
        }
        if let Some(g) = self.child_guid("DropTarget") {
            return Some(g);
        }
        if let Some(g) = self.child_guid("SystemFileAssociations") {
            return Some(g);
        }
        if let Some(g) = self.child_guid("PropertySheetHandlers") {
            return Some(g);
        }
        if let Some(g) = self.child_guid("DragDropHandlers") {
            return Some(g);
        }
        if let Some(g) = self.child_guid("CopyHookHandlers") {
            return Some(g);
        }
        if let Some(g) = find_guid(self.path.as_str()) {
            return Some(g);
        }
        let default_text = match self.get_value("") {
            Some(v) => v.display_string(),
            None => String::new(),
        };
        if let Some(g) = find_guid(default_text.as_str()) {
            return Some(g);
        }
        let clsid_text = match self.get_value("CLSID") {
            Some(v) => v.display_string(),
            None => String::new(),
        };
        if let Some(g) = find_guid(clsid_text.as_str()) {
            return Some(g);
        }
        None
    }

    /// The class identifier extracted from the named child, when both
    /// the child and its identifier exist.
    fn child_guid(&self, name: &str) -> (r: Option<String>)
        ensures
            match r {
                Some(g) => guid_of_child(*self, name@) == Some(g@),
                None => guid_of_child(*self, name@) is None,
            },
        decreases *self, 0int,
    {
        proof {
            lemma_child_index_range(self.children@, name@);
        }
        match self.get_child(name) {
            Some(child) => {
                proof {
                    let k = choose|k: int|
                        0 <= k < self.children@.len() && self.children@[k] == *child;
                    assert(decreases_to!(self.children@ => self.children@[k]));
                    assert(decreases_to!(*self => *child));
                }
                child.get_guid()
            },
            None => None,
        }
    }
}

/// The extraction's precedence: whenever one of the three handler
/// values declares a braced class, that declaration is the answer —
/// no child key and no GUID-shaped text in the node's path, default
/// value or `CLSID` value can override it.
pub proof fn lemma_declared_class_wins(item: RegItem)
    requires
        guid_direct(item) is Some,
    ensures
        guid_of(item) == guid_direct(item),
{
}

/// In a well-formed snapshot, the child found by a name sits exactly at
/// the parent's path extended by a backslash and that name, and is
/// itself well-formed.
pub proof fn lemma_wf_child_path(item: RegItem, name: Seq<char>)
    requires
        wf_tree(item),
        child_named(item.children@, name) is Some,
    ensures
        child_named(item.children@, name)->Some_0.path@ == item.path@ + "\\"@ + name,
        child_named(item.children@, name)->Some_0.root == item.root,
        wf_tree(child_named(item.children@, name)->Some_0),
{
    lemma_child_index_range(item.children@, name);
}

/// The decoded values of one key, in enumeration order: a name paired
/// with what its raw value decodes to, undecodable values skipped.
/// This is the loader's tolerance policy: a malformed or unmodeled
/// value never fails the load of its key.
pub open spec fn decoded_values(s: Seq<(String, RawValue)>) -> Seq<(Seq<char>, RegValueModel)>
    decreases s.len(),
{
    if s.len() == 0 {
        Seq::empty()
    } else {
        (match spec_decode(s[0].1.vtype, s[0].1.bytes@) {
            Ok(m) => seq![(s[0].0@, m)],
            Err(_) => Seq::<(Seq<char>, RegValueModel)>::empty(),
        }) + decoded_values(s.skip(1))
    }
}

/// The views of a decoded value list.
pub open spec fn values_view(vs: Seq<(String, RegItemValue)>) -> Seq<(Seq<char>, RegValueModel)> {
    vs.map_values(|p: (String, RegItemValue)| (p.0@, p.1@))
}

/// Decodes an enumerated value list into a node's value list, skipping
/// whatever fails to decode.
pub fn values_from_raw(raw: Vec<(String, RawValue)>) -> (r: Vec<(String, RegItemValue)>)
    ensures
        values_view(r@) == decoded_values(raw@),
{
    let mut r: Vec<(String, RegItemValue)> = Vec::new();
    let mut rest = raw;
    let ghost raw0 = rest@;
    let total = rest.len();
    let mut i: usize = 0;
    proof {
        assert(values_view(r@) =~= decoded_values(raw0.take(0)));
    }
    while rest.len() > 0
        invariant
            i <= total,
            total == raw0.len(),
            rest@ == raw0.skip(i as int),
            values_view(r@) == decoded_values(raw0.take(i as int)),
        decreases rest@.len(),
    {
        let (name, value) = rest.remove(0);
        proof {
            assert(raw0.skip(i as int)[0] == raw0[i as int]);
            lemma_decoded_values_take(raw0, i as int);
        }
        let ghost before = r@;
        match RegItemValue::decode(&value) {
            Ok(v) => {
                r.push((name, v));
                assert(values_view(r@) =~= values_view(before).push(
                    (raw0[i as int].0@, spec_decode(raw0[i as int].1.vtype, raw0[i as int].1.bytes@)->Ok_0),
                ));
                assert(values_view(r@) =~= decoded_values(raw0.take(i + 1)));
            },
            Err(_) => {
                assert(values_view(r@) =~= decoded_values(raw0.take(i + 1)));
            },
        }
        proof {
            assert(raw0.skip(i as int).skip(1) =~= raw0.skip(i + 1));
        }
        i += 1;
    }
    proof {
        assert(raw0.take(i as int) =~= raw0);
    }
    r
}

proof fn lemma_decoded_values_take(s: Seq<(String, RawValue)>, i: int)
    requires
        0 <= i < s.len(),
    ensures
        decoded_values(s.take(i + 1)) == decoded_values(s.take(i)) + (match spec_decode(
            s[i].1.vtype,
            s[i].1.bytes@,
        ) {
            Ok(m) => seq![(s[i].0@, m)],
            Err(e) => Seq::<(Seq<char>, RegValueModel)>::empty(),
        }),
    decreases i,
{
    if i == 0 {
        assert(s.take(1).skip(1) =~= Seq::<(String, RawValue)>::empty());
        assert(s.take(0) =~= Seq::<(String, RawValue)>::empty());
        assert(decoded_values(Seq::<(String, RawValue)>::empty()) == Seq::<
            (Seq<char>, RegValueModel),
        >::empty());
        assert(decoded_values(s.take(1)) =~= decoded_values(s.take(0)) + (match spec_decode(
            s[0].1.vtype,
            s[0].1.bytes@,
        ) {
            Ok(m) => seq![(s[0].0@, m)],
            Err(e) => Seq::<(Seq<char>, RegValueModel)>::empty(),
        }));
    } else {
        lemma_decoded_values_take(s.skip(1), i - 1);
        assert(s.take(i + 1).skip(1) =~= s.skip(1).take(i));
        assert(s.take(i).skip(1) =~= s.skip(1).take(i - 1));
        assert(s.take(i + 1)[0] == s[0]);
        assert(s.take(i)[0] == s[0]);
        assert(s.skip(1)[i - 1] == s[i]);
        assert(decoded_values(s.take(i + 1)) =~= decoded_values(s.take(i)) + (match spec_decode(
            s[i].1.vtype,
            s[i].1.bytes@,
        ) {
            Ok(m) => seq![(s[i].0@, m)],
            Err(e) => Seq::<(Seq<char>, RegValueModel)>::empty(),
        }));
    }
}

/// The path of an immediate subkey: the parent's path, a backslash,
/// and the subkey's name.
pub fn child_path(path: &str, name: &str) -> (r: String)
    ensures
        r@ == path@ + "\\"@ + name@,
{
    let mut r = String::from_str(path);
    r.append("\\");
    r.append(name);
    r
}

proof fn lemma_child_index_first(children: Seq<RegItem>, name: Seq<char>, i: int)
    requires
        0 <= i < children.len(),
        last_segment(children[i].path@) == name,
        forall|k: int| 0 <= k < i ==> last_segment(#[trigger] children[k].path@) != name,
    ensures
        child_index(children, name) == i,
    decreases i,
{
    if i > 0 {
        assert forall|k: int| 0 <= k < i - 1 implies last_segment(
            #[trigger] children.skip(1)[k].path@,
        ) != name by {
            assert(children.skip(1)[k] == children[k + 1]);
            assert(last_segment(children[k + 1].path@) != name);
        }
        lemma_child_index_first(children.skip(1), name, i - 1);
    }
}

proof fn lemma_child_index_none(children: Seq<RegItem>, name: Seq<char>)
    requires
        forall|k: int| 0 <= k < children.len() ==> last_segment(#[trigger] children[k].path@)
            != name,
    ensures
        child_index(children, name) == -1,
    decreases children.len(),
{
    if children.len() > 0 {
        assert forall|k: int| 0 <= k < children.skip(1).len() implies last_segment(
            #[trigger] children.skip(1)[k].path@,
        ) != name by {
            assert(children.skip(1)[k] == children[k + 1]);
            assert(last_segment(children[k + 1].path@) != name);
        }
        lemma_child_index_none(children.skip(1), name);
    }
}

} // verus!
