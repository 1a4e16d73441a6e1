//! Registry mutations as data.
//!
//! A write or delete of a tree is compiled into a plan: a sequence of
//! primitive registry operations. A front end applies the plan to the
//! live system; an in-memory store with the same semantics gives the
//! plans meaning here and lets the safety theorems speak of observable
//! state.
use crate::scene::path_is_safe;
use crate::scene::SceneRoot;
use crate::strutil::str_eq;
use crate::tree::RegItem;
use crate::value::spec_encode;
use crate::value::RawValue;
use crate::value::RegItemValue;
use crate::value::RegType;
use vstd::prelude::*;
use vstd::string::StringExecFns;

verus! {

/// One primitive registry mutation.
#[derive(Debug)]
pub enum RegOp {
    /// Create (or reuse) the key at `path` under `root`.
    CreateKey { root: SceneRoot, path: String },
    /// Set the named value of the key at `path` to a raw typed value.
    SetValue { root: SceneRoot, path: String, name: String, value: RawValue },
    /// Delete the key at `path` and every value it holds.
    DeleteKey { root: SceneRoot, path: String },
    /// Delete the named value of the key at `path`.
    DeleteValue { root: SceneRoot, path: String, name: String },
}

/// The mathematical shape of one operation.
pub enum RegOpModel {
    CreateKey(SceneRoot, Seq<char>),
    SetValue(SceneRoot, Seq<char>, Seq<char>, (RegType, Seq<u8>)),
    DeleteKey(SceneRoot, Seq<char>),
    DeleteValue(SceneRoot, Seq<char>, Seq<char>),
}

impl View for RegOp {
    type V = RegOpModel;

    open spec fn view(&self) -> RegOpModel {
        match self {
            RegOp::CreateKey { root, path } => RegOpModel::CreateKey(*root, path@),
            RegOp::SetValue { root, path, name, value } => RegOpModel::SetValue(
                *root,
                path@,
                name@,
                value@,
            ),
            RegOp::DeleteKey { root, path } => RegOpModel::DeleteKey(*root, path@),
            RegOp::DeleteValue { root, path, name } => RegOpModel::DeleteValue(
                *root,
                path@,
                name@,
            ),
        }
    }
}

/// The models of a sequence of operations.
pub open spec fn ops_model(ops: Seq<RegOp>) -> Seq<RegOpModel> {
    ops.map_values(|op: RegOp| op@)
}

/// The operations that set every value of one node, in stored order.
pub open spec fn value_set_ops(root: SceneRoot, path: Seq<char>, vs: Seq<(String, RegItemValue)>)
    -> Seq<RegOpModel>
    decreases vs.len(),
{
    if vs.len() == 0 {
        Seq::empty()
    } else {
        seq![RegOpModel::SetValue(root, path, vs[0].0@, spec_encode(vs[0].1@))] + value_set_ops(
            root,
            path,
            vs.skip(1),
        )
    }
}

/// The plan a write of this tree compiles to: nothing at all when the
/// tree's path is out of scope; otherwise create the key, set each
/// value, and recurse into every child, each child re-checked.
pub open spec fn write_ops(item: RegItem) -> Seq<RegOpModel>
    decreases item, 1int,
{
    if !path_is_safe(item.path@) {
        Seq::empty()
    } else {
        seq![RegOpModel::CreateKey(item.root, item.path@)] + value_set_ops(
            item.root,
            item.path@,
            item.values@,
        ) + children_write_ops(item.children@)
    }
}

/// The write plans of a sequence of children, concatenated.
pub open spec fn children_write_ops(children: Seq<RegItem>) -> Seq<RegOpModel>
    decreases children, 0int,
{
    if children.len() == 0 {
        Seq::empty()
    } else {
        write_ops(children[0]) + children_write_ops(children.skip(1))
    }
}

/// The plan a delete of this tree compiles to: nothing at all when the
/// tree's path is out of scope; otherwise delete every child first,
/// each re-checked, then the key itself.
pub open spec fn delete_ops(item: RegItem) -> Seq<RegOpModel>
    decreases item, 1int,
{
    if !path_is_safe(item.path@) {
        Seq::empty()
    } else {
        children_delete_ops(item.children@) + seq![
            RegOpModel::DeleteKey(item.root, item.path@),
        ]
    }
}

/// The delete plans of a sequence of children, concatenated.
pub open spec fn children_delete_ops(children: Seq<RegItem>) -> Seq<RegOpModel>
    decreases children, 0int,
{
    if children.len() == 0 {
        Seq::empty()
    } else {
        delete_ops(children[0]) + children_delete_ops(children.skip(1))
    }
}

impl RegItem {
    /// Compiles a write of this tree into its plan. An out-of-scope
    /// tree compiles to the empty plan: the write is silently absorbed.
    pub fn write_plan(&self) -> (r: Vec<RegOp>)
        ensures
            ops_model(r@) == write_ops(*self),
        decreases *self,
    {
        let mut r: Vec<RegOp> = Vec::new();
        if !self.is_safe() {
            assert(ops_model(r@) =~= write_ops(*self));
            return r;
        }
        r.push(
            RegOp::CreateKey { root: self.root, path: clone_string(&self.path) },
        );
        let nv = self.values.len();
        let mut i: usize = 0;
        while i < nv
            invariant
                0 <= i <= nv,
                nv == self.values@.len(),
                ops_model(r@) =~= seq![RegOpModel::CreateKey(self.root, self.path@)]
                    + value_set_ops(self.root, self.path@, self.values@.take(i as int)),
            decreases nv - i,
        {
            let name = clone_string(&self.values[i].0);
            let value = self.values[i].1.encode();
            let ghost before = r@;
            let op = RegOp::SetValue { root: self.root, path: clone_string(&self.path), name, value };
            proof {
                assert(op@ == RegOpModel::SetValue(
                    self.root,
                    self.path@,
                    self.values@[i as int].0@,
                    spec_encode(self.values@[i as int].1@),
                ));
            }
            r.push(op);
            proof {
                lemma_ops_model_push(before, op);
                lemma_value_set_ops_take(self.root, self.path@, self.values@, i as int);
                assert(ops_model(r@) =~= seq![RegOpModel::CreateKey(self.root, self.path@)]
                    + value_set_ops(self.root, self.path@, self.values@.take(i + 1)));
            }
            i += 1;
        }
        assert(self.values@.take(nv as int) =~= self.values@);
        let nc = self.children.len();
        let mut j: usize = 0;
        while j < nc
            invariant
                0 <= j <= nc,
                nc == self.children@.len(),
                ops_model(r@) =~= seq![RegOpModel::CreateKey(self.root, self.path@)]
                    + value_set_ops(self.root, self.path@, self.values@) + children_write_ops_upto(
                    self.children@,
                    j as int,
                ),
            decreases nc - j,
        {
            proof {
                assert(decreases_to!(self.children@ => self.children@[j as int]));
                assert(decreases_to!(*self => self.children@[j as int]));
            }
            let mut child_ops = self.children[j].write_plan();
            let ghost before = r@;
            let ghost added = child_ops@;
            r.append(&mut child_ops);
            proof {
                assert(r@ =~= before + added);
                lemma_ops_model_append(before, added);
                lemma_children_write_ops_upto_step(self.children@, j as int);
                assert(ops_model(r@) =~= seq![RegOpModel::CreateKey(self.root, self.path@)]
                    + value_set_ops(self.root, self.path@, self.values@) + children_write_ops_upto(
                    self.children@,
                    j + 1,
                ));
            }
            j += 1;
        }
        proof {
            lemma_children_write_ops_upto_all(self.children@);
            assert(ops_model(r@) =~= write_ops(*self));
        }
        r
    }

    /// Compiles a delete of this tree into its plan. An out-of-scope
    /// tree compiles to the empty plan: the delete is silently absorbed.
    pub fn delete_plan(&self) -> (r: Vec<RegOp>)
        ensures
            ops_model(r@) == delete_ops(*self),
        decreases *self,
    {
        let mut r: Vec<RegOp> = Vec::new();
        if !self.is_safe() {
            assert(ops_model(r@) =~= delete_ops(*self));
            return r;
        }
        let nc = self.children.len();
        let mut j: usize = 0;
        while j < nc
            invariant
                0 <= j <= nc,
                nc == self.children@.len(),
                ops_model(r@) =~= children_delete_ops_upto(self.children@, j as int),
            decreases nc - j,
        {
            proof {
                assert(decreases_to!(self.children@ => self.children@[j as int]));
                assert(decreases_to!(*self => self.children@[j as int]));
            }
            let mut child_ops = self.children[j].delete_plan();
            let ghost before = r@;
            let ghost added = child_ops@;
            r.append(&mut child_ops);
            proof {
                assert(r@ =~= before + added);
                lemma_ops_model_append(before, added);
                lemma_children_delete_ops_upto_step(self.children@, j as int);
                assert(ops_model(r@) =~= children_delete_ops_upto(self.children@, j + 1));
            }
            j += 1;
        }
        let ghost before_tail = r@;
        let op = RegOp::DeleteKey { root: self.root, path: clone_string(&self.path) };
        r.push(op);
        proof {
            lemma_ops_model_push(before_tail, op);
            lemma_children_delete_ops_upto_all(self.children@);
            assert(ops_model(r@) =~= delete_ops(*self));
        }
        r
    }
}

/// The write plans of the first `j` children, concatenated.
pub open spec fn children_write_ops_upto(children: Seq<RegItem>, j: int) -> Seq<RegOpModel>
    decreases j,
{
    if j <= 0 {
        Seq::empty()
    } else {
        children_write_ops_upto(children, j - 1) + write_ops(children[j - 1])
    }
}

/// The delete plans of the first `j` children, concatenated.
pub open spec fn children_delete_ops_upto(children: Seq<RegItem>, j: int) -> Seq<RegOpModel>
    decreases j,
{
    if j <= 0 {
        Seq::empty()
    } else {
        children_delete_ops_upto(children, j - 1) + delete_ops(children[j - 1])
    }
}

proof fn lemma_ops_model_push(a: Seq<RegOp>, op: RegOp)
    ensures
        ops_model(a.push(op)) == ops_model(a).push(op@),
{
    assert(ops_model(a.push(op)) =~= ops_model(a).push(op@));
}

proof fn lemma_ops_model_append(a: Seq<RegOp>, b: Seq<RegOp>)
    ensures
        ops_model(a + b) == ops_model(a) + ops_model(b),
{
    assert(ops_model(a + b) =~= ops_model(a) + ops_model(b));
}

proof fn lemma_value_set_ops_take(root: SceneRoot, path: Seq<char>, vs: Seq<(String, RegItemValue)>, i: int)
    requires
        0 <= i < vs.len(),
    ensures
        value_set_ops(root, path, vs.take(i + 1)) == value_set_ops(root, path, vs.take(i)) + seq![
            RegOpModel::SetValue(root, path, vs[i].0@, spec_encode(vs[i].1@)),
        ],
    decreases i,
{
    if i == 0 {
        assert(vs.take(1).skip(1) =~= Seq::<(String, RegItemValue)>::empty());
        assert(value_set_ops(root, path, Seq::<(String, RegItemValue)>::empty())
            == Seq::<RegOpModel>::empty());
        assert(value_set_ops(root, path, vs.take(0)) =~= Seq::<RegOpModel>::empty());
        assert(value_set_ops(root, path, vs.take(1)) =~= value_set_ops(root, path, vs.take(0))
            + seq![RegOpModel::SetValue(root, path, vs[0].0@, spec_encode(vs[0].1@))]);
    } else {
        lemma_value_set_ops_take(root, path, vs.skip(1), i - 1);
        assert(vs.take(i + 1).skip(1) =~= vs.skip(1).take(i));
        assert(vs.take(i).skip(1) =~= vs.skip(1).take(i - 1));
        assert(vs.take(i + 1)[0] == vs[0] && vs.take(i)[0] == vs[0]);
        assert(vs.skip(1)[i - 1] == vs[i]);
        assert(value_set_ops(root, path, vs.take(i + 1)) =~= value_set_ops(root, path, vs.take(i))
            + seq![RegOpModel::SetValue(root, path, vs[i].0@, spec_encode(vs[i].1@))]);
    }
}

proof fn lemma_children_write_ops_upto_step(children: Seq<RegItem>, j: int)
    requires
        0 <= j < children.len(),
    ensures
        children_write_ops_upto(children, j + 1) == children_write_ops_upto(children, j)
            + write_ops(children[j]),
{
}

proof fn lemma_children_write_ops_upto_all(children: Seq<RegItem>)
    ensures
        children_write_ops_upto(children, children.len() as int) == children_write_ops(children),
    decreases children.len(),
{
    if children.len() > 0 {
        lemma_children_write_ops_upto_all(children.skip(1));
        lemma_children_prefix_shift_general(children, children.len() as int);
        assert(children_write_ops_upto(children, children.len() as int) == write_ops(children[0])
            + children_write_ops(children.skip(1)));
    }
}

proof fn lemma_children_delete_ops_upto_step(children: Seq<RegItem>, j: int)
    requires
        0 <= j < children.len(),
    ensures
        children_delete_ops_upto(children, j + 1) == children_delete_ops_upto(children, j)
            + delete_ops(children[j]),
{
}

proof fn lemma_children_delete_ops_upto_all(children: Seq<RegItem>)
    ensures
        children_delete_ops_upto(children, children.len() as int) == children_delete_ops(children),
    decreases children.len(),
{
    if children.len() > 0 {
        lemma_children_delete_ops_upto_all(children.skip(1));
        lemma_children_delete_prefix_shift_general(children, children.len() as int);
        assert(children_delete_ops_upto(children, children.len() as int) == delete_ops(
            children[0],
        ) + children_delete_ops(children.skip(1)));
    }
}

proof fn lemma_children_prefix_shift_general(children: Seq<RegItem>, j: int)
    requires
        children.len() > 0,
        1 <= j <= children.len(),
    ensures
        children_write_ops_upto(children, j) == write_ops(children[0]) + children_write_ops_upto(
            children.skip(1),
            j - 1,
        ),
    decreases j,
{
    if j == 1 {
        assert(children_write_ops_upto(children, 0) =~= Seq::<RegOpModel>::empty());
        assert(children_write_ops_upto(children.skip(1), 0) =~= Seq::<RegOpModel>::empty());
        assert(write_ops(children[0]) + Seq::<RegOpModel>::empty() =~= write_ops(children[0]));
    } else {
        lemma_children_prefix_shift_general(children, j - 1);
        assert(children.skip(1)[j - 2] == children[j - 1]);
        assert((write_ops(children[0]) + children_write_ops_upto(children.skip(1), j - 2))
            + write_ops(children[j - 1]) =~= write_ops(children[0]) + (children_write_ops_upto(
            children.skip(1),
            j - 2,
        ) + write_ops(children[j - 1])));
    }
}

proof fn lemma_children_delete_prefix_shift_general(children: Seq<RegItem>, j: int)
    requires
        children.len() > 0,
        1 <= j <= children.len(),
    ensures
        children_delete_ops_upto(children, j) == delete_ops(children[0])
            + children_delete_ops_upto(children.skip(1), j - 1),
    decreases j,
{
    if j == 1 {
        assert(children_delete_ops_upto(children, 0) =~= Seq::<RegOpModel>::empty());
        assert(children_delete_ops_upto(children.skip(1), 0) =~= Seq::<RegOpModel>::empty());
        assert(delete_ops(children[0]) + Seq::<RegOpModel>::empty() =~= delete_ops(children[0]));
    } else {
        lemma_children_delete_prefix_shift_general(children, j - 1);
        assert(children.skip(1)[j - 2] == children[j - 1]);
        assert((delete_ops(children[0]) + children_delete_ops_upto(children.skip(1), j - 2))
            + delete_ops(children[j - 1]) =~= delete_ops(children[0]) + (children_delete_ops_upto(
            children.skip(1),
            j - 2,
        ) + delete_ops(children[j - 1])));
    }
}

/// A fresh string holding the same characters.
pub fn clone_string(s: &String) -> (r: String)
    ensures
        r@ == s@,
{
    String::from_str(s.as_str())
}

/// One stored value of the in-memory registry: which key holds it,
/// its name, and its raw typed contents.
#[derive(Debug)]
pub struct StoreEntry {
    pub root: SceneRoot,
    pub path: String,
    pub name: String,
    pub value: RawValue,
}

/// The mathematical shape of one stored value.
pub struct StoreEntryModel {
    pub root: SceneRoot,
    pub path: Seq<char>,
    pub name: Seq<char>,
    pub value: (RegType, Seq<u8>),
}

impl View for StoreEntry {
    type V = StoreEntryModel;

    open spec fn view(&self) -> StoreEntryModel {
        StoreEntryModel { root: self.root, path: self.path@, name: self.name@, value: self.value@ }
    }
}

/// An in-memory registry: the set of existing keys and the values they
/// hold. It obeys the same operation semantics a live registry does, so
/// plans can be exercised and reasoned about without one.
pub struct RegStore {
    pub keys: Vec<(SceneRoot, String)>,
    pub entries: Vec<StoreEntry>,
}

/// The mathematical shape of the key list.
pub open spec fn keys_model(keys: Seq<(SceneRoot, String)>) -> Seq<(SceneRoot, Seq<char>)> {
    keys.map_values(|k: (SceneRoot, String)| (k.0, k.1@))
}

/// The mathematical shape of the value list.
pub open spec fn entries_model(es: Seq<StoreEntry>) -> Seq<StoreEntryModel> {
    es.map_values(|e: StoreEntry| e@)
}

/// Creating a key adds it unless it already exists.
pub open spec fn spec_create_key(
    ks: Seq<(SceneRoot, Seq<char>)>,
    root: SceneRoot,
    path: Seq<char>,
) -> Seq<(SceneRoot, Seq<char>)> {
    if ks.contains((root, path)) {
        ks
    } else {
        ks.push((root, path))
    }
}

/// The key list with every occurrence of one key removed.
pub open spec fn remove_key(
    ks: Seq<(SceneRoot, Seq<char>)>,
    root: SceneRoot,
    path: Seq<char>,
) -> Seq<(SceneRoot, Seq<char>)>
    decreases ks.len(),
{
    if ks.len() == 0 {
        Seq::empty()
    } else if ks[0].0 == root && ks[0].1 == path {
        remove_key(ks.skip(1), root, path)
    } else {
        seq![ks[0]] + remove_key(ks.skip(1), root, path)
    }
}

/// The value list with every value of one key removed.
pub open spec fn remove_entries_under(
    es: Seq<StoreEntryModel>,
    root: SceneRoot,
    path: Seq<char>,
) -> Seq<StoreEntryModel>
    decreases es.len(),
{
    if es.len() == 0 {
        Seq::empty()
    } else if es[0].root == root && es[0].path == path {
        remove_entries_under(es.skip(1), root, path)
    } else {
        seq![es[0]] + remove_entries_under(es.skip(1), root, path)
    }
}

/// The value list with one named value removed.
pub open spec fn remove_entry(
    es: Seq<StoreEntryModel>,
    root: SceneRoot,
    path: Seq<char>,
    name: Seq<char>,
) -> Seq<StoreEntryModel>
    decreases es.len(),
{
    if es.len() == 0 {
        Seq::empty()
    } else if es[0].root == root && es[0].path == path && es[0].name == name {
        remove_entry(es.skip(1), root, path, name)
    } else {
        seq![es[0]] + remove_entry(es.skip(1), root, path, name)
    }
}

/// What one operation does to a store. Setting a value on a key that
/// does not exist does nothing, as the live system's typed-value write
/// cannot reach a key that was never opened or created.
pub open spec fn spec_apply(
    ks: Seq<(SceneRoot, Seq<char>)>,
    es: Seq<StoreEntryModel>,
    op: RegOpModel,
) -> (Seq<(SceneRoot, Seq<char>)>, Seq<StoreEntryModel>) {
    match op {
        RegOpModel::CreateKey(r, p) => (spec_create_key(ks, r, p), es),
        RegOpModel::SetValue(r, p, n, v) => if ks.contains((r, p)) {
            (ks, remove_entry(es, r, p, n).push(StoreEntryModel { root: r, path: p, name: n, value: v }))
        } else {
            (ks, es)
        },
        RegOpModel::DeleteKey(r, p) => (remove_key(ks, r, p), remove_entries_under(es, r, p)),
        RegOpModel::DeleteValue(r, p, n) => (ks, remove_entry(es, r, p, n)),
    }
}

/// What a whole plan does to a store, operation by operation.
pub open spec fn spec_apply_plan(
    ks: Seq<(SceneRoot, Seq<char>)>,
    es: Seq<StoreEntryModel>,
    ops: Seq<RegOpModel>,
) -> (Seq<(SceneRoot, Seq<char>)>, Seq<StoreEntryModel>)
    decreases ops.len(),
{
    if ops.len() == 0 {
        (ks, es)
    } else {
        let stepped = spec_apply(ks, es, ops[0]);
        spec_apply_plan(stepped.0, stepped.1, ops.skip(1))
    }
}

proof fn lemma_remove_key_push(
    ks: Seq<(SceneRoot, Seq<char>)>,
    x: (SceneRoot, Seq<char>),
    root: SceneRoot,
    path: Seq<char>,
)
    ensures
        remove_key(ks.push(x), root, path) == (if x.0 == root && x.1 == path {
            remove_key(ks, root, path)
        } else {
            remove_key(ks, root, path).push(x)
        }),
    decreases ks.len(),
{
    if ks.len() == 0 {
        assert(ks.push(x).skip(1) =~= Seq::<(SceneRoot, Seq<char>)>::empty());
        assert(remove_key(Seq::<(SceneRoot, Seq<char>)>::empty(), root, path)
            == Seq::<(SceneRoot, Seq<char>)>::empty());
        if !(x.0 == root && x.1 == path) {
            assert(remove_key(ks.push(x), root, path) =~= remove_key(ks, root, path).push(x));
        } else {
            assert(remove_key(ks.push(x), root, path) =~= remove_key(ks, root, path));
        }
    } else {
        lemma_remove_key_push(ks.skip(1), x, root, path);
        assert(ks.push(x).skip(1) =~= ks.skip(1).push(x));
        assert(ks.push(x)[0] == ks[0]);
        if ks[0].0 == root && ks[0].1 == path {
        } else {
            if x.0 == root && x.1 == path {
                assert(remove_key(ks.push(x), root, path) =~= remove_key(ks, root, path));
            } else {
                assert(remove_key(ks.push(x), root, path) =~= remove_key(ks, root, path).push(x));
            }
        }
    }
}

proof fn lemma_remove_entries_under_push(
    es: Seq<StoreEntryModel>,
    x: StoreEntryModel,
    root: SceneRoot,
    path: Seq<char>,
)
    ensures
        remove_entries_under(es.push(x), root, path) == (if x.root == root && x.path == path {
            remove_entries_under(es, root, path)
        } else {
            remove_entries_under(es, root, path).push(x)
        }),
    decreases es.len(),
{
    if es.len() == 0 {
        assert(es.push(x).skip(1) =~= Seq::<StoreEntryModel>::empty());
        assert(remove_entries_under(Seq::<StoreEntryModel>::empty(), root, path)
            == Seq::<StoreEntryModel>::empty());
        if !(x.root == root && x.path == path) {
            assert(remove_entries_under(es.push(x), root, path) =~= remove_entries_under(
                es,
                root,
                path,
            ).push(x));
        } else {
            assert(remove_entries_under(es.push(x), root, path) =~= remove_entries_under(
                es,
                root,
                path,
            ));
        }
    } else {
        lemma_remove_entries_under_push(es.skip(1), x, root, path);
        assert(es.push(x).skip(1) =~= es.skip(1).push(x));
        assert(es.push(x)[0] == es[0]);
        if es[0].root == root && es[0].path == path {
        } else {
            if x.root == root && x.path == path {
                assert(remove_entries_under(es.push(x), root, path) =~= remove_entries_under(
                    es,
                    root,
                    path,
                ));
            } else {
                assert(remove_entries_under(es.push(x), root, path) =~= remove_entries_under(
                    es,
                    root,
                    path,
                ).push(x));
            }
        }
    }
}

proof fn lemma_remove_entry_push(
    es: Seq<StoreEntryModel>,
    x: StoreEntryModel,
    root: SceneRoot,
    path: Seq<char>,
    name: Seq<char>,
)
    ensures
        remove_entry(es.push(x), root, path, name) == (if x.root == root && x.path == path
            && x.name == name {
            remove_entry(es, root, path, name)
        } else {
            remove_entry(es, root, path, name).push(x)
        }),
    decreases es.len(),
{
    if es.len() == 0 {
        assert(es.push(x).skip(1) =~= Seq::<StoreEntryModel>::empty());
        assert(remove_entry(Seq::<StoreEntryModel>::empty(), root, path, name)
            == Seq::<StoreEntryModel>::empty());
        if !(x.root == root && x.path == path && x.name == name) {
            assert(remove_entry(es.push(x), root, path, name) =~= remove_entry(
                es,
                root,
                path,
                name,
            ).push(x));
        } else {
            assert(remove_entry(es.push(x), root, path, name) =~= remove_entry(
                es,
                root,
                path,
                name,
            ));
        }
    } else {
        lemma_remove_entry_push(es.skip(1), x, root, path, name);
        assert(es.push(x).skip(1) =~= es.skip(1).push(x));
        assert(es.push(x)[0] == es[0]);
        if es[0].root == root && es[0].path == path && es[0].name == name {
        } else {
            if x.root == root && x.path == path && x.name == name {
                assert(remove_entry(es.push(x), root, path, name) =~= remove_entry(
                    es,
                    root,
                    path,
                    name,
                ));
            } else {
                assert(remove_entry(es.push(x), root, path, name) =~= remove_entry(
                    es,
                    root,
                    path,
                    name,
                ).push(x));
            }
        }
    }
}

impl RegStore {
    /// An empty registry: no keys, no values.
    pub fn new() -> (r: RegStore)
        ensures
            keys_model(r.keys@) == Seq::<(SceneRoot, Seq<char>)>::empty(),
            entries_model(r.entries@) == Seq::<StoreEntryModel>::empty(),
    {
        let r = RegStore { keys: Vec::new(), entries: Vec::new() };
        assert(keys_model(r.keys@) =~= Seq::<(SceneRoot, Seq<char>)>::empty());
        assert(entries_model(r.entries@) =~= Seq::<StoreEntryModel>::empty());
        r
    }

    /// Whether the key exists.
    pub fn has_key(&self, root: SceneRoot, path: &str) -> (r: bool)
        ensures
            r == keys_model(self.keys@).contains((root, path@)),
    {
        let n = self.keys.len();
        let mut i: usize = 0;
        while i < n
            invariant
                0 <= i <= n,
                n == self.keys@.len(),
                forall|j: int| 0 <= j < i ==> #[trigger] keys_model(self.keys@)[j] != (root, path@),
            decreases n - i,
        {
            if self.keys[i].0 == root && str_eq(self.keys[i].1.as_str(), path) {
                assert(keys_model(self.keys@)[i as int] == (root, path@));
                return true;
            }
            assert(keys_model(self.keys@)[i as int] != (root, path@));
            i += 1;
        }
        false
    }

    /// The raw value stored under a key and name, if any: the first
    /// matching entry.
    pub fn value_at(&self, root: SceneRoot, path: &str, name: &str) -> (r: Option<&RawValue>)
        ensures
            match r {
                Some(v) => exists|j: int|
                    0 <= j < entries_model(self.entries@).len()
                        && #[trigger] entries_model(self.entries@)[j] == StoreEntryModel {
                        root,
                        path: path@,
                        name: name@,
                        value: v@,
                    },
                None => forall|j: int|
                    0 <= j < entries_model(self.entries@).len() ==> !((
                    #[trigger] entries_model(self.entries@)[j]).root == root && entries_model(
                        self.entries@,
                    )[j].path == path@ && entries_model(self.entries@)[j].name == name@),
            },
    {
        let n = self.entries.len();
        let mut i: usize = 0;
        while i < n
            invariant
                0 <= i <= n,
                n == self.entries@.len(),
                forall|j: int|
                    0 <= j < i ==> !((#[trigger] entries_model(self.entries@)[j]).root == root
                        && entries_model(self.entries@)[j].path == path@ && entries_model(
                        self.entries@,
                    )[j].name == name@),
            decreases n - i,
        {
            let e = &self.entries[i];
            if e.root == root && str_eq(e.path.as_str(), path) && str_eq(e.name.as_str(), name) {
                assert(entries_model(self.entries@)[i as int] == StoreEntryModel {
                    root,
                    path: path@,
                    name: name@,
                    value: e.value@,
                });
                return Some(&self.entries[i].value);
            }
            assert(entries_model(self.entries@)[i as int] == self.entries@[i as int]@);
            i += 1;
        }
        None
    }

    /// Applies one operation, with exactly the live system's semantics.
    pub fn apply(&mut self, op: &RegOp)
        ensures
            (keys_model(final(self).keys@), entries_model(final(self).entries@)) == spec_apply(
                keys_model(old(self).keys@),
                entries_model(old(self).entries@),
                op@,
            ),
    {
        match op {
            RegOp::CreateKey { root, path } => {
                let present = self.has_key(*root, path.as_str());
                if !present {
                    let ghost before = self.keys@;
                    self.keys.push((*root, clone_string(path)));
                    assert(keys_model(self.keys@) =~= keys_model(before).push((*root, path@)));
                } else {
                    assert(keys_model(self.keys@) =~= spec_create_key(
                        keys_model(self.keys@),
                        *root,
                        path@,
                    ));
                }
            },
            RegOp::SetValue { root, path, name, value } => {
                let present = self.has_key(*root, path.as_str());
                if present {
                    self.retain_without_entry(*root, path, name);
                    let ghost mid = entries_model(self.entries@);
                    self.entries.push(
                        StoreEntry {
                            root: *root,
                            path: clone_string(path),
                            name: clone_string(name),
                            value: RawValue { vtype: value.vtype, bytes: crate::value::copy_bytes(&value.bytes) },
                        },
                    );
                    assert(entries_model(self.entries@) =~= mid.push(StoreEntryModel {
                        root: *root,
                        path: path@,
                        name: name@,
                        value: value@,
                    }));
                }
            },
            RegOp::DeleteKey { root, path } => {
                self.retain_without_key(*root, path);
                self.retain_without_entries_under(*root, path);
            },
            RegOp::DeleteValue { root, path, name } => {
                self.retain_without_entry(*root, path, name);
            },
        }
    }

    /// Removes a key from the key list.
    fn retain_without_key(&mut self, root: SceneRoot, path: &String)
        ensures
            keys_model(final(self).keys@) == remove_key(keys_model(old(self).keys@), root, path@),
            final(self).entries@ == old(self).entries@,
    {
        let n = self.keys.len();
        let mut kept: Vec<(SceneRoot, String)> = Vec::new();
        let mut i: usize = 0;
        proof {
            assert(keys_model(kept@) =~= Seq::<(SceneRoot, Seq<char>)>::empty());
            assert(remove_key(keys_model(self.keys@.take(0)), root, path@)
                =~= Seq::<(SceneRoot, Seq<char>)>::empty()) by {
                assert(keys_model(self.keys@.take(0)) =~= Seq::<(SceneRoot, Seq<char>)>::empty());
            }
        }
        while i < n
            invariant
                0 <= i <= n,
                n == self.keys@.len(),
                keys_model(kept@) == remove_key(keys_model(self.keys@.take(i as int)), root, path@),
            decreases n - i,
        {
            let keep = !(self.keys[i].0 == root && str_eq(self.keys[i].1.as_str(), path.as_str()));
            let ghost before = kept@;
            if keep {
                kept.push((self.keys[i].0, clone_string(&self.keys[i].1)));
            }
            proof {
                let ghost prefix = keys_model(self.keys@.take(i as int));
                let ghost x = keys_model(self.keys@)[i as int];
                assert(keys_model(self.keys@.take(i + 1)) =~= keys_model(
                    self.keys@.take(i as int),
                ).push(x));
                lemma_remove_key_push(prefix, x, root, path@);
                if keep {
                    assert(keys_model(kept@) =~= keys_model(before).push(x));
                } else {
                    assert(keys_model(kept@) =~= keys_model(before));
                }
            }
            i += 1;
        }
        assert(self.keys@.take(n as int) =~= self.keys@);
        self.keys = kept;
    }

    /// Removes every value of one key from the value list.
    fn retain_without_entries_under(&mut self, root: SceneRoot, path: &String)
        ensures
            entries_model(final(self).entries@) == remove_entries_under(
                entries_model(old(self).entries@),
                root,
                path@,
            ),
            final(self).keys@ == old(self).keys@,
    {
        let n = self.entries.len();
        let mut kept: Vec<StoreEntry> = Vec::new();
        let mut i: usize = 0;
        proof {
            assert(entries_model(kept@) =~= Seq::<StoreEntryModel>::empty());
            assert(entries_model(self.entries@.take(0)) =~= Seq::<StoreEntryModel>::empty());
        }
        while i < n
            invariant
                0 <= i <= n,
                n == self.entries@.len(),
                entries_model(kept@) == remove_entries_under(
                    entries_model(self.entries@.take(i as int)),
                    root,
                    path@,
                ),
            decreases n - i,
        {
            let e = &self.entries[i];
            let keep = !(e.root == root && str_eq(e.path.as_str(), path.as_str()));
            let ghost before = kept@;
            if keep {
                kept.push(clone_entry(&self.entries[i]));
            }
            proof {
                let ghost prefix = entries_model(self.entries@.take(i as int));
                let ghost x = entries_model(self.entries@)[i as int];
                assert(entries_model(self.entries@.take(i + 1)) =~= entries_model(
                    self.entries@.take(i as int),
                ).push(x));
                lemma_remove_entries_under_push(prefix, x, root, path@);
                if keep {
                    assert(entries_model(kept@) =~= entries_model(before).push(x));
                } else {
                    assert(entries_model(kept@) =~= entries_model(before));
                }
            }
            i += 1;
        }
        assert(self.entries@.take(n as int) =~= self.entries@);
        self.entries = kept;
    }

    /// Removes one named value from the value list.
    fn retain_without_entry(&mut self, root: SceneRoot, path: &String, name: &String)
        ensures
            entries_model(final(self).entries@) == remove_entry(
                entries_model(old(self).entries@),
                root,
                path@,
                name@,
            ),
            final(self).keys@ == old(self).keys@,
    {
        let n = self.entries.len();
        let mut kept: Vec<StoreEntry> = Vec::new();
        let mut i: usize = 0;
        proof {
            assert(entries_model(kept@) =~= Seq::<StoreEntryModel>::empty());
            assert(entries_model(self.entries@.take(0)) =~= Seq::<StoreEntryModel>::empty());
        }
        while i < n
            invariant
                0 <= i <= n,
                n == self.entries@.len(),
                entries_model(kept@) == remove_entry(
                    entries_model(self.entries@.take(i as int)),
                    root,
                    path@,
                    name@,
                ),
            decreases n - i,
        {
            let e = &self.entries[i];
            let keep = !(e.root == root && str_eq(e.path.as_str(), path.as_str()) && str_eq(
                e.name.as_str(),
                name.as_str(),
            ));
            let ghost before = kept@;
            if keep {
                kept.push(clone_entry(&self.entries[i]));
            }
            proof {
                let ghost prefix = entries_model(self.entries@.take(i as int));
                let ghost x = entries_model(self.entries@)[i as int];
                assert(entries_model(self.entries@.take(i + 1)) =~= entries_model(
                    self.entries@.take(i as int),
                ).push(x));
                lemma_remove_entry_push(prefix, x, root, path@, name@);
                if keep {
                    assert(entries_model(kept@) =~= entries_model(before).push(x));
                } else {
                    assert(entries_model(kept@) =~= entries_model(before));
                }
            }
            i += 1;
        }
        assert(self.entries@.take(n as int) =~= self.entries@);
        self.entries = kept;
    }

    /// Applies a whole plan, in order.
    pub fn apply_plan(&mut self, ops: &Vec<RegOp>)
        ensures
            (keys_model(final(self).keys@), entries_model(final(self).entries@)) == spec_apply_plan(
                keys_model(old(self).keys@),
                entries_model(old(self).entries@),
                ops_model(ops@),
            ),
    {
        let n = ops.len();
        let mut i: usize = 0;
        assert(ops_model(ops@).skip(0) =~= ops_model(ops@));
        while i < n
            invariant
                0 <= i <= n,
                n == ops@.len(),
                spec_apply_plan(
                    keys_model(old(self).keys@),
                    entries_model(old(self).entries@),
                    ops_model(ops@),
                ) == spec_apply_plan(
                    keys_model(self.keys@),
                    entries_model(self.entries@),
                    ops_model(ops@).skip(i as int),
                ),
            decreases n - i,
        {
            let ghost rest = ops_model(ops@).skip(i as int);
            assert(rest[0] == ops@[i as int]@);
            self.apply(&ops[i]);
            assert(rest.skip(1) =~= ops_model(ops@).skip(i + 1));
            i += 1;
        }
        assert(ops_model(ops@).skip(n as int) =~= Seq::<RegOpModel>::empty());
    }
}

/// A fresh entry holding the same fields.
fn clone_entry(e: &StoreEntry) -> (r: StoreEntry)
    ensures
        r@ == e@,
{
    StoreEntry {
        root: e.root,
        path: clone_string(&e.path),
        name: clone_string(&e.name),
        value: RawValue { vtype: e.value.vtype, bytes: crate::value::copy_bytes(&e.value.bytes) },
    }
}

/// An operation that only builds: it creates a key or sets a value,
/// never deletes anything.
pub open spec fn op_is_constructive(op: RegOpModel) -> bool {
    match op {
        RegOpModel::CreateKey(_, _) => true,
        RegOpModel::SetValue(_, _, _, _) => true,
        RegOpModel::DeleteKey(_, _) => false,
        RegOpModel::DeleteValue(_, _, _) => false,
    }
}

proof fn lemma_write_ops_constructive(item: RegItem)
    ensures
        forall|k: int|
            0 <= k < write_ops(item).len() ==> op_is_constructive(#[trigger] write_ops(item)[k]),
    decreases item, 1int,
{
    if path_is_safe(item.path@) {
        lemma_value_set_ops_constructive(item.root, item.path@, item.values@);
        lemma_children_write_ops_constructive(item.children@);
        let a = seq![RegOpModel::CreateKey(item.root, item.path@)];
        let b = value_set_ops(item.root, item.path@, item.values@);
        let c = children_write_ops(item.children@);
        assert forall|k: int| 0 <= k < write_ops(item).len() implies op_is_constructive(
            #[trigger] write_ops(item)[k],
        ) by {
            if k < 1 {
                assert(write_ops(item)[k] == a[0]);
            } else if k < 1 + b.len() {
                assert(write_ops(item)[k] == b[k - 1]);
            } else {
                assert(write_ops(item)[k] == c[k - 1 - b.len()]);
            }
        }
    }
}

proof fn lemma_value_set_ops_constructive(root: SceneRoot, path: Seq<char>, vs: Seq<(String, RegItemValue)>)
    ensures
        forall|k: int|
            0 <= k < value_set_ops(root, path, vs).len() ==> op_is_constructive(
                #[trigger] value_set_ops(root, path, vs)[k],
            ),
    decreases vs.len(),
{
    if vs.len() > 0 {
        lemma_value_set_ops_constructive(root, path, vs.skip(1));
        let rest = value_set_ops(root, path, vs.skip(1));
        assert forall|k: int| 0 <= k < value_set_ops(root, path, vs).len() implies op_is_constructive(
            #[trigger] value_set_ops(root, path, vs)[k],
        ) by {
            if k >= 1 {
                assert(value_set_ops(root, path, vs)[k] == rest[k - 1]);
            }
        }
    }
}

proof fn lemma_children_write_ops_constructive(children: Seq<RegItem>)
    ensures
        forall|k: int|
            0 <= k < children_write_ops(children).len() ==> op_is_constructive(
                #[trigger] children_write_ops(children)[k],
            ),
    decreases children, 0int,
{
    if children.len() > 0 {
        lemma_write_ops_constructive(children[0]);
        lemma_children_write_ops_constructive(children.skip(1));
        let a = write_ops(children[0]);
        let b = children_write_ops(children.skip(1));
        assert forall|k: int| 0 <= k < children_write_ops(children).len() implies op_is_constructive(
            #[trigger] children_write_ops(children)[k],
        ) by {
            if k < a.len() {
                assert(children_write_ops(children)[k] == a[k]);
            } else {
                assert(children_write_ops(children)[k] == b[k - a.len()]);
            }
        }
    }
}

proof fn lemma_constructive_plan_keeps_keys(
    ks: Seq<(SceneRoot, Seq<char>)>,
    es: Seq<StoreEntryModel>,
    ops: Seq<RegOpModel>,
    key: (SceneRoot, Seq<char>),
)
    requires
        forall|k: int| 0 <= k < ops.len() ==> op_is_constructive(#[trigger] ops[k]),
        ks.contains(key),
    ensures
        spec_apply_plan(ks, es, ops).0.contains(key),
    decreases ops.len(),
{
    if ops.len() > 0 {
        let stepped = spec_apply(ks, es, ops[0]);
        assert(stepped.0.contains(key)) by {
            match ops[0] {
                RegOpModel::CreateKey(r, p) => {
                    if !ks.contains((r, p)) {
                        let i = choose|i: int| 0 <= i < ks.len() && ks[i] == key;
                        assert(ks.push((r, p))[i] == key);
                    }
                },
                _ => {},
            }
        }
        assert forall|k: int| 0 <= k < ops.skip(1).len() implies op_is_constructive(
            #[trigger] ops.skip(1)[k],
        ) by {
            assert(ops.skip(1)[k] == ops[k + 1]);
        }
        lemma_constructive_plan_keeps_keys(stepped.0, stepped.1, ops.skip(1), key);
    }
}

/// The liveness side of enabling: applying the write plan of a tree
/// whose path is in scope leaves the tree's own key existing, whatever
/// the store held before.
pub proof fn lemma_write_plan_creates_key(
    ks: Seq<(SceneRoot, Seq<char>)>,
    es: Seq<StoreEntryModel>,
    item: RegItem,
)
    requires
        path_is_safe(item.path@),
    ensures
        spec_apply_plan(ks, es, write_ops(item)).0.contains((item.root, item.path@)),
{
    let ops = write_ops(item);
    let key = (item.root, item.path@);
    assert(ops[0] == RegOpModel::CreateKey(item.root, item.path@));
    let stepped = spec_apply(ks, es, ops[0]);
    assert(stepped.0.contains(key)) by {
        if ks.contains(key) {
        } else {
            assert(ks.push(key)[ks.len() as int] == key);
        }
    }
    lemma_write_ops_constructive(item);
    assert forall|k: int| 0 <= k < ops.skip(1).len() implies op_is_constructive(
        #[trigger] ops.skip(1)[k],
    ) by {
        assert(ops.skip(1)[k] == ops[k + 1]);
    }
    lemma_constructive_plan_keeps_keys(stepped.0, stepped.1, ops.skip(1), key);
}

/// The positive side of the safety gate: a tree rooted exactly at an
/// allow-listed prefix is accepted, so its plans really mutate — the
/// write plan opens by creating its key, the delete plan closes by
/// deleting it.
pub proof fn lemma_prefix_tree_accepted(item: RegItem, root: SceneRoot, prefix: Seq<char>)
    requires
        item.path@ == prefix,
        crate::scene::scene_entries_all().contains((root, prefix)),
    ensures
        path_is_safe(item.path@),
        write_ops(item).len() > 0,
        write_ops(item)[0] == RegOpModel::CreateKey(item.root, item.path@),
        delete_ops(item).len() > 0,
        delete_ops(item).last() == RegOpModel::DeleteKey(item.root, item.path@),
{
    crate::scene::lemma_scene_prefix_is_safe(root, prefix);
}

/// The safety theorem for mutation: a tree whose path is outside the
/// allow-list compiles to empty plans, and applying those plans leaves
/// every store exactly as it was.
pub proof fn lemma_out_of_scope_mutates_nothing(
    ks: Seq<(SceneRoot, Seq<char>)>,
    es: Seq<StoreEntryModel>,
    item: RegItem,
)
    requires
        !path_is_safe(item.path@),
    ensures
        write_ops(item) == Seq::<RegOpModel>::empty(),
        delete_ops(item) == Seq::<RegOpModel>::empty(),
        spec_apply_plan(ks, es, write_ops(item)) == (ks, es),
        spec_apply_plan(ks, es, delete_ops(item)) == (ks, es),
{
}

} // verus!
