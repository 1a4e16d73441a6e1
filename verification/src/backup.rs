//! Menu-item snapshots and the backup list.
//!
//! The backup is the source of truth for re-enabling a disabled item:
//! once an item's tree is captured it is never replaced, only new ids
//! are appended ("first seen wins").
use crate::store::clone_string;
use crate::store::delete_ops;
use crate::store::ops_model;
use crate::store::write_ops;
use crate::store::RegOp;
use crate::store::RegOpModel;
use crate::strutil::str_eq;
use crate::tree::RegItem;
use vstd::prelude::*;

verus! {

/// The directory name the backup lives under, inside the per-user
/// local configuration directory.
pub const APP_NAME: &'static str = "windows-contextmenu-manager";

/// The backup file's name.
pub const BACKUP_NAME: &'static str = "backup.json";

/// One packaged-extension verb: its id, type category, and COM class.
#[derive(Debug)]
pub struct TypeItem {
    pub id: String,
    pub ty: String,
    pub clsid: String,
}

/// The details attached to a catalog entry.
#[derive(Debug)]
pub struct MenuItemInfo {
    pub icon: Option<Vec<u8>>,
    pub publisher_display_name: String,
    pub description: String,
    pub types: Vec<TypeItem>,
    pub install_path: String,
    pub family_name: String,
    pub full_name: String,
    pub reg: Option<RegItem>,
    pub reg_txt: Option<String>,
}

/// One context-menu entry of the catalog: a stable id, a resolved
/// display name, whether it is currently live, and its details.
#[derive(Debug)]
pub struct MenuItem {
    pub id: String,
    pub name: String,
    pub enabled: bool,
    pub info: Option<MenuItemInfo>,
}

/// One entry of the friendly-name lookup table for well-known classes.
#[derive(Debug)]
pub struct GuidItem {
    pub res_text: Option<String>,
    pub text: Option<String>,
    pub icon: Option<String>,
}

/// The friendly-name lookup table, keyed by lowercase class id.
#[derive(Debug)]
pub struct GuidManager {
    pub items: Vec<(String, GuidItem)>,
}

/// The table entry stored under a key: the first pair that carries it.
pub open spec fn lookup_guid_item(items: Seq<(String, GuidItem)>, key: Seq<char>) -> Option<
    GuidItem,
>
    decreases items.len(),
{
    if items.len() == 0 {
        None
    } else if items[0].0@ == key {
        Some(items[0].1)
    } else {
        lookup_guid_item(items.skip(1), key)
    }
}

impl GuidManager {
    /// An empty table.
    pub fn new() -> (r: GuidManager)
        ensures
            r.items@.len() == 0,
    {
        GuidManager { items: Vec::new() }
    }

    /// A table holding exactly the given entries.
    pub fn from_items(items: Vec<(String, GuidItem)>) -> (r: GuidManager)
        ensures
            r.items == items,
    {
        GuidManager { items }
    }

    /// The entry stored under a class id, if any.
    pub fn get_item(&self, guid: &str) -> (r: Option<&GuidItem>)
        ensures
            match r {
                Some(g) => lookup_guid_item(self.items@, guid@) == Some(*g),
                None => lookup_guid_item(self.items@, guid@) is None,
            },
    {
        let n = self.items.len();
        let mut i: usize = 0;
        assert(self.items@.skip(0) =~= self.items@);
        while i < n
            invariant
                0 <= i <= n,
                n == self.items@.len(),
                lookup_guid_item(self.items@, guid@) == lookup_guid_item(
                    self.items@.skip(i as int),
                    guid@,
                ),
            decreases n - i,
        {
            let ghost rest = self.items@.skip(i as int);
            assert(rest[0] == self.items@[i as int]);
            if str_eq(self.items[i].0.as_str(), guid) {
                return Some(&self.items[i].1);
            }
            assert(rest.skip(1) =~= self.items@.skip(i + 1));
            i += 1;
        }
        None
    }
}

/// The ids of a list of items, in order.
pub open spec fn ids_of(items: Seq<MenuItem>) -> Seq<Seq<char>> {
    items.map_values(|m: MenuItem| m.id@)
}

/// The items of `incoming` whose id is not among `existing`, in order.
/// The filter consults only `existing`: two incoming items with one id
/// both pass, exactly as the merge behaves.
pub open spec fn merge_filter(incoming: Seq<MenuItem>, existing: Seq<Seq<char>>) -> Seq<MenuItem>
    decreases incoming.len(),
{
    if incoming.len() == 0 {
        Seq::empty()
    } else {
        (if existing.contains(incoming[0].id@) {
            Seq::empty()
        } else {
            seq![incoming[0]]
        }) + merge_filter(incoming.skip(1), existing)
    }
}

/// Merges newly listed items into the stored backup, append-only:
/// an id already present keeps its stored snapshot untouched, and only
/// items with new ids are appended, in their incoming order.
pub fn merge_backup(stored: Vec<MenuItem>, incoming: Vec<MenuItem>) -> (r: Vec<MenuItem>)
    ensures
        r@ == stored@ + merge_filter(incoming@, ids_of(stored@)),
{
    let mut old_ids: Vec<String> = Vec::new();
    let sn = stored.len();
    let mut k: usize = 0;
    while k < sn
        invariant
            0 <= k <= sn,
            sn == stored@.len(),
            old_ids@.len() == k,
            forall|j: int| 0 <= j < k ==> #[trigger] old_ids@[j]@ == ids_of(stored@)[j],
        decreases sn - k,
    {
        old_ids.push(clone_string(&stored[k].id));
        k += 1;
    }
    let mut r = stored;
    let ghost stored0 = r@;
    let mut rest = incoming;
    let ghost incoming0 = rest@;
    let ghost existing = ids_of(stored0);
    let total = rest.len();
    let mut i: usize = 0;
    assert(incoming0.skip(0) =~= incoming0);
    while rest.len() > 0
        invariant
            i <= total,
            total == incoming0.len(),
            rest@ == incoming0.skip(i as int),
            old_ids@.len() == existing.len(),
            forall|j: int| 0 <= j < existing.len() ==> #[trigger] old_ids@[j]@ == existing[j],
            r@ == stored0 + merge_filter(incoming0.take(i as int), existing),
        decreases rest@.len(),
    {
        let item = rest.remove(0);
        let found = contains_id(&old_ids, item.id.as_str());
        proof {
            assert(incoming0.skip(i as int)[0] == incoming0[i as int]);
            lemma_merge_filter_take(incoming0, existing, i as int);
            assert(found == existing.contains(incoming0[i as int].id@)) by {
                if found {
                    let j = choose|j: int| 0 <= j < old_ids@.len() && old_ids@[j]@ == item.id@;
                    assert(existing[j] == item.id@);
                } else {
                    if existing.contains(incoming0[i as int].id@) {
                        let j = choose|j: int|
                            0 <= j < existing.len() && existing[j] == incoming0[i as int].id@;
                        assert(old_ids@[j]@ == item.id@);
                    }
                }
            }
        }
        if !found {
            r.push(item);
        }
        proof {
            assert(r@ =~= stored0 + merge_filter(incoming0.take(i + 1), existing));
            assert(incoming0.skip(i as int).skip(1) =~= incoming0.skip(i + 1));
        }
        i += 1;
    }
    proof {
        assert(i == incoming0.len());
        assert(incoming0.take(i as int) =~= incoming0);
    }
    r
}

/// Whether one of the ids equals `id`.
fn contains_id(ids: &Vec<String>, id: &str) -> (r: bool)
    ensures
        r == (exists|j: int| 0 <= j < ids@.len() && #[trigger] ids@[j]@ == id@),
{
    let n = ids.len();
    let mut i: usize = 0;
    while i < n
        invariant
            0 <= i <= n,
            n == ids@.len(),
            forall|j: int| 0 <= j < i ==> #[trigger] ids@[j]@ != id@,
        decreases n - i,
    {
        if str_eq(ids[i].as_str(), id) {
            return true;
        }
        i += 1;
    }
    false
}

proof fn lemma_merge_filter_take(incoming: Seq<MenuItem>, existing: Seq<Seq<char>>, i: int)
    requires
        0 <= i < incoming.len(),
    ensures
        merge_filter(incoming.take(i + 1), existing) == merge_filter(incoming.take(i), existing)
            + (if existing.contains(incoming[i].id@) {
            Seq::<MenuItem>::empty()
        } else {
            seq![incoming[i]]
        }),
    decreases i,
{
    if i == 0 {
        assert(incoming.take(1).skip(1) =~= Seq::<MenuItem>::empty());
        assert(incoming.take(0) =~= Seq::<MenuItem>::empty());
        assert(merge_filter(Seq::<MenuItem>::empty(), existing) == Seq::<MenuItem>::empty());
        assert(merge_filter(incoming.take(1), existing) =~= merge_filter(incoming.take(0), existing)
            + (if existing.contains(incoming[0].id@) {
            Seq::<MenuItem>::empty()
        } else {
            seq![incoming[0]]
        }));
    } else {
        lemma_merge_filter_take(incoming.skip(1), existing, i - 1);
        assert(incoming.take(i + 1).skip(1) =~= incoming.skip(1).take(i));
        assert(incoming.take(i).skip(1) =~= incoming.skip(1).take(i - 1));
        assert(incoming.take(i + 1)[0] == incoming[0]);
        assert(incoming.take(i)[0] == incoming[0]);
        assert(incoming.skip(1)[i - 1] == incoming[i]);
        assert(merge_filter(incoming.take(i + 1), existing) =~= merge_filter(
            incoming.take(i),
            existing,
        ) + (if existing.contains(incoming[i].id@) {
            Seq::<MenuItem>::empty()
        } else {
            seq![incoming[i]]
        }));
    }
}

/// The merge never rewrites what is already stored: every stored item
/// keeps its position and its content, and everything appended carries
/// an id that was not stored before.
pub proof fn lemma_merge_append_only(stored: Seq<MenuItem>, incoming: Seq<MenuItem>)
    ensures
        forall|j: int|
            0 <= j < stored.len() ==> (stored + merge_filter(incoming, ids_of(stored)))[j]
                == stored[j],
        forall|j: int|
            stored.len() <= j < (stored + merge_filter(incoming, ids_of(stored))).len()
                ==> !ids_of(stored).contains(
                #[trigger] (stored + merge_filter(incoming, ids_of(stored)))[j].id@,
            ),
{
    lemma_merge_filter_excludes(incoming, ids_of(stored));
}

proof fn lemma_merge_filter_excludes(incoming: Seq<MenuItem>, existing: Seq<Seq<char>>)
    ensures
        forall|j: int|
            0 <= j < merge_filter(incoming, existing).len() ==> !existing.contains(
                #[trigger] merge_filter(incoming, existing)[j].id@,
            ),
    decreases incoming.len(),
{
    if incoming.len() > 0 {
        lemma_merge_filter_excludes(incoming.skip(1), existing);
    }
}

/// Whether index `j` is the first position of its id in the list.
pub open spec fn first_occurrence(items: Seq<MenuItem>, j: int) -> bool {
    forall|k: int| 0 <= k < j ==> (#[trigger] items[k].id@) != items[j].id@
}

/// The backup with every item's liveness recomputed: an item is enabled
/// exactly when some live item carries its id and it is the first entry
/// of the backup with that id.
pub open spec fn mark_enabled(backup: Seq<MenuItem>, live_ids: Seq<Seq<char>>) -> Seq<MenuItem> {
    backup.map(
        |j: int, m: MenuItem|
            MenuItem {
                id: m.id,
                name: m.name,
                enabled: live_ids.contains(m.id@) && first_occurrence(backup, j),
                info: m.info,
            },
    )
}

/// The catalog as the user sees it: every backup entry, marked enabled
/// exactly when the live listing still shows its id.
pub fn list(live: &Vec<MenuItem>, backup: Vec<MenuItem>) -> (r: Vec<MenuItem>)
    ensures
        r@ == mark_enabled(backup@, ids_of(live@)),
{
    let mut live_ids: Vec<String> = Vec::new();
    let ln = live.len();
    let mut k: usize = 0;
    while k < ln
        invariant
            0 <= k <= ln,
            ln == live@.len(),
            live_ids@.len() == k,
            forall|j: int| 0 <= j < k ==> #[trigger] live_ids@[j]@ == ids_of(live@)[j],
        decreases ln - k,
    {
        live_ids.push(clone_string(&live[k].id));
        k += 1;
    }
    let ghost lids = ids_of(live@);
    let mut rest = backup;
    let ghost backup0 = rest@;
    let total = rest.len();
    let mut seen: Vec<String> = Vec::new();
    let mut r: Vec<MenuItem> = Vec::new();
    let mut i: usize = 0;
    assert(backup0.skip(0) =~= backup0);
    while rest.len() > 0
        invariant
            i <= total,
            total == backup0.len(),
            rest@ == backup0.skip(i as int),
            live_ids@.len() == lids.len(),
            forall|j: int| 0 <= j < lids.len() ==> #[trigger] live_ids@[j]@ == lids[j],
            seen@.len() == i,
            forall|j: int| 0 <= j < i ==> #[trigger] seen@[j]@ == backup0[j].id@,
            r@.len() == i,
            forall|j: int| 0 <= j < i ==> #[trigger] r@[j] == mark_enabled(backup0, lids)[j],
        decreases rest@.len(),
    {
        let item = rest.remove(0);
        proof {
            assert(backup0.skip(i as int)[0] == backup0[i as int]);
        }
        let in_live = contains_id(&live_ids, item.id.as_str());
        let seen_before = contains_id(&seen, item.id.as_str());
        proof {
            assert(in_live == lids.contains(backup0[i as int].id@)) by {
                if in_live {
                    let j = choose|j: int| 0 <= j < live_ids@.len() && live_ids@[j]@ == item.id@;
                    assert(lids[j] == item.id@);
                } else if lids.contains(backup0[i as int].id@) {
                    let j = choose|j: int| 0 <= j < lids.len() && lids[j] == backup0[i as int].id@;
                    assert(live_ids@[j]@ == item.id@);
                }
            }
            assert(seen_before == !first_occurrence(backup0, i as int)) by {
                if seen_before {
                    let j = choose|j: int| 0 <= j < seen@.len() && seen@[j]@ == item.id@;
                    assert(backup0[j].id@ == backup0[i as int].id@);
                } else if !first_occurrence(backup0, i as int) {
                    let j = choose|j: int|
                        0 <= j < i && (#[trigger] backup0[j].id@) == backup0[i as int].id@;
                    assert(seen@[j]@ == item.id@);
                }
            }
        }
        seen.push(clone_string(&item.id));
        let enabled = in_live && !seen_before;
        let marked = MenuItem { id: item.id, name: item.name, enabled, info: item.info };
        r.push(marked);
        proof {
            assert(r@[i as int] == mark_enabled(backup0, lids)[i as int]);
            assert(backup0.skip(i as int).skip(1) =~= backup0.skip(i + 1));
        }
        i += 1;
    }
    r
}

/// The first item carrying an id: the lookup the enable and disable
/// operations run over the backup.
pub open spec fn item_with_id(items: Seq<MenuItem>, id: Seq<char>) -> Option<MenuItem>
    decreases items.len(),
{
    if items.len() == 0 {
        None
    } else if items[0].id@ == id {
        Some(items[0])
    } else {
        item_with_id(items.skip(1), id)
    }
}

/// The first item of the backup carrying this id, if any.
pub fn find_item<'a>(items: &'a Vec<MenuItem>, id: &str) -> (r: Option<&'a MenuItem>)
    ensures
        match r {
            Some(m) => item_with_id(items@, id@) == Some(*m),
            None => item_with_id(items@, id@) is None,
        },
{
    let n = items.len();
    let mut i: usize = 0;
    assert(items@.skip(0) =~= items@);
    while i < n
        invariant
            0 <= i <= n,
            n == items@.len(),
            item_with_id(items@, id@) == item_with_id(items@.skip(i as int), id@),
        decreases n - i,
    {
        let ghost rest = items@.skip(i as int);
        assert(rest[0] == items@[i as int]);
        if str_eq(items[i].id.as_str(), id) {
            return Some(&items[i]);
        }
        assert(rest.skip(1) =~= items@.skip(i + 1));
        i += 1;
    }
    None
}

/// What disabling an id compiles to: the delete plan of the stored
/// tree of the first backup item carrying the id, and nothing when the
/// backup has no such item or it carries no tree.
pub open spec fn disable_ops(backup: Seq<MenuItem>, id: Seq<char>) -> Seq<RegOpModel> {
    match item_with_id(backup, id) {
        Some(m) => match m.info {
            Some(info) => match info.reg {
                Some(reg) => delete_ops(reg),
                None => Seq::empty(),
            },
            None => Seq::empty(),
        },
        None => Seq::empty(),
    }
}

/// What enabling an id compiles to: the write plan of the stored tree.
pub open spec fn enable_ops(backup: Seq<MenuItem>, id: Seq<char>) -> Seq<RegOpModel> {
    match item_with_id(backup, id) {
        Some(m) => match m.info {
            Some(info) => match info.reg {
                Some(reg) => write_ops(reg),
                None => Seq::empty(),
            },
            None => Seq::empty(),
        },
        None => Seq::empty(),
    }
}

/// Compiles a disable request into its registry plan: the stored tree's
/// delete plan, which is empty when the id is unknown, carries no tree,
/// or points outside the mutation allow-list.
pub fn disable(backup: &Vec<MenuItem>, id: &str) -> (r: Vec<RegOp>)
    ensures
        ops_model(r@) == disable_ops(backup@, id@),
{
    match find_item(backup, id) {
        Some(item) => match &item.info {
            Some(info) => match &info.reg {
                Some(reg) => reg.delete_plan(),
                None => empty_plan(),
            },
            None => empty_plan(),
        },
        None => empty_plan(),
    }
}

/// Compiles an enable request into its registry plan: the stored tree's
/// write plan, which is empty when the id is unknown, carries no tree,
/// or points outside the mutation allow-list.
pub fn enable(backup: &Vec<MenuItem>, id: &str) -> (r: Vec<RegOp>)
    ensures
        ops_model(r@) == enable_ops(backup@, id@),
{
    match find_item(backup, id) {
        Some(item) => match &item.info {
            Some(info) => match &info.reg {
                Some(reg) => reg.write_plan(),
                None => empty_plan(),
            },
            None => empty_plan(),
        },
        None => empty_plan(),
    }
}

/// An empty registry plan.
fn empty_plan() -> (r: Vec<RegOp>)
    ensures
        ops_model(r@) == Seq::<RegOpModel>::empty(),
{
    let r: Vec<RegOp> = Vec::new();
    assert(ops_model(r@) =~= Seq::<RegOpModel>::empty());
    r
}

} // verus!
