//! The decision side of the packaged-extension catalog: assembling one
//! catalog entry per distinct class, the override table for packages
//! whose icon lives next to the package, and the enable and disable
//! entry points over the blocked-class set.
use crate::backup::MenuItem;
use crate::backup::MenuItemInfo;
use crate::backup::TypeItem;
use crate::blocklist::Blocks;
use crate::store::clone_string;
use crate::store::RegOp;
use crate::strutil::str_eq;
use vstd::prelude::*;
use vstd::string::StringExecFns;

verus! {

/// What a path-clean pass returns: a function of the characters alone.
pub uninterp spec fn clean_of(s: Seq<char>) -> Seq<char>;

/// Relies on path_clean::clean: a purely lexical simplification of the
/// path (doubled separators, `.` and `..` elements), depending on
/// nothing but the input's characters.
#[verifier::external_body]
fn clean_path(s: &str) -> (r: String)
    ensures
        r@ == clean_of(s@),
{
    path_clean::clean(s).to_string_lossy().into_owned()
}

/// The packages whose reported logo is unusable: their icon is read
/// from an executable next to the install directory instead.
pub open spec fn bad_app_rel(clsid: Seq<char>) -> Option<Seq<char>> {
    if clsid == "0002DEAD-9BF7-4CFA-8A5C-DE8679340001"@ || clsid
        == "0002DEAD-9BF7-4CFA-8A5C-DE8679340002"@ {
        Some("/../BandiView.exe"@)
    } else if clsid == "0001DEAD-9BF7-4CFA-8A5C-DE8679340001"@ || clsid
        == "0001DEAD-9BF7-4CFA-8A5C-DE8679340002"@ {
        Some("/../Bandizip.exe"@)
    } else if clsid == "2411DA87-DA40-22F7-772E-5CBF99D5AA5F"@ {
        Some("/../HipsMain.exe"@)
    } else {
        None
    }
}

/// The executable to read icons from when a class is on the override
/// table: the relative override cleaned against the package's external
/// directory.
pub open spec fn bad_app_exe_spec(dir: Seq<char>, clsid: Seq<char>) -> Option<Seq<char>> {
    match bad_app_rel(clsid) {
        Some(rel) => Some(clean_of(dir + rel)),
        None => None,
    }
}

/// The override executable for a class, cleaned against the package's
/// external directory; nothing for classes off the table.
pub fn bad_app_exe_path(dir: &str, clsid: &str) -> (r: Option<String>)
    ensures
        match r {
            Some(p) => bad_app_exe_spec(dir@, clsid@) == Some(p@),
            None => bad_app_exe_spec(dir@, clsid@) is None,
        },
{
    let rel: &str = if str_eq(clsid, "0002DEAD-9BF7-4CFA-8A5C-DE8679340001") || str_eq(
        clsid,
        "0002DEAD-9BF7-4CFA-8A5C-DE8679340002",
    ) {
        "/../BandiView.exe"
    } else if str_eq(clsid, "0001DEAD-9BF7-4CFA-8A5C-DE8679340001") || str_eq(
        clsid,
        "0001DEAD-9BF7-4CFA-8A5C-DE8679340002",
    ) {
        "/../Bandizip.exe"
    } else if str_eq(clsid, "2411DA87-DA40-22F7-772E-5CBF99D5AA5F") {
        "/../HipsMain.exe"
    } else {
        return None;
    };
    let mut full = String::from_str(dir);
    full.append(rel);
    Some(clean_path(full.as_str()))
}

/// The field views of one verb entry.
pub open spec fn type_view(t: TypeItem) -> (Seq<char>, Seq<char>, Seq<char>) {
    (t.id@, t.ty@, t.clsid@)
}

/// The field views of a list of verb entries.
pub open spec fn types_view(ts: Seq<TypeItem>) -> Seq<(Seq<char>, Seq<char>, Seq<char>)> {
    ts.map_values(|t: TypeItem| type_view(t))
}

/// The verb entries that belong to one class, in order.
pub open spec fn types_with_clsid(ts: Seq<TypeItem>, clsid: Seq<char>) -> Seq<
    (Seq<char>, Seq<char>, Seq<char>),
>
    decreases ts.len(),
{
    if ts.len() == 0 {
        Seq::empty()
    } else {
        (if ts[0].clsid@ == clsid {
            seq![type_view(ts[0])]
        } else {
            Seq::empty()
        }) + types_with_clsid(ts.skip(1), clsid)
    }
}

/// The first verb entry of each distinct class, in order.
pub open spec fn dedup_by_clsid(ts: Seq<TypeItem>) -> Seq<(Seq<char>, Seq<char>, Seq<char>)>
    decreases ts.len(),
{
    if ts.len() == 0 {
        Seq::empty()
    } else {
        let rest = dedup_by_clsid(ts.take(ts.len() - 1));
        if seen_clsid(ts.take(ts.len() - 1), ts.last().clsid@) {
            rest
        } else {
            rest.push(type_view(ts.last()))
        }
    }
}

/// Whether some entry of the list carries the class.
pub open spec fn seen_clsid(ts: Seq<TypeItem>, clsid: Seq<char>) -> bool {
    exists|i: int| 0 <= i < ts.len() && (#[trigger] ts[i].clsid@) == clsid
}

/// A fresh verb entry with the same fields.
pub fn clone_type_item(t: &TypeItem) -> (r: TypeItem)
    ensures
        type_view(r) == type_view(*t),
{
    TypeItem { id: clone_string(&t.id), ty: clone_string(&t.ty), clsid: clone_string(&t.clsid) }
}

/// The first verb entry of each distinct class, in order: the walk
/// builds one catalog entry per element of this list.
pub fn dedup_clsids(types: &Vec<TypeItem>) -> (r: Vec<TypeItem>)
    ensures
        types_view(r@) == dedup_by_clsid(types@),
{
    let n = types.len();
    let mut r: Vec<TypeItem> = Vec::new();
    let mut seen: Vec<String> = Vec::new();
    let mut i: usize = 0;
    proof {
        assert(types_view(r@) =~= dedup_by_clsid(types@.take(0)));
    }
    while i < n
        invariant
            0 <= i <= n,
            n == types@.len(),
            types_view(r@) == dedup_by_clsid(types@.take(i as int)),
            seen@.len() == i,
            forall|j: int| 0 <= j < i ==> #[trigger] seen@[j]@ == types@[j].clsid@,
        decreases n - i,
    {
        let seen_before = contains_id_str(&seen, types[i].clsid.as_str());
        proof {
            let ghost prefix = types@.take(i as int);
            assert(seen_before == seen_clsid(prefix, types@[i as int].clsid@)) by {
                if seen_before {
                    let j = choose|j: int|
                        0 <= j < seen@.len() && #[trigger] seen@[j]@ == types@[i as int].clsid@;
                    assert(prefix[j].clsid@ == types@[i as int].clsid@);
                } else if seen_clsid(prefix, types@[i as int].clsid@) {
                    let j = choose|j: int|
                        0 <= j < prefix.len() && (#[trigger] prefix[j].clsid@)
                            == types@[i as int].clsid@;
                    assert(seen@[j]@ == types@[i as int].clsid@);
                }
            }
            assert(types@.take(i + 1).take(i as int) =~= types@.take(i as int));
            assert(types@.take(i + 1).last() == types@[i as int]);
        }
        let ghost before = r@;
        if !seen_before {
            r.push(clone_type_item(&types[i]));
            assert(types_view(r@) =~= types_view(before).push(type_view(types@[i as int])));
        }
        seen.push(clone_string(&types[i].clsid));
        i += 1;
    }
    assert(types@.take(n as int) =~= types@);
    r
}

/// Whether one of the strings equals `id`.
fn contains_id_str(ids: &Vec<String>, id: &str) -> (r: bool)
    ensures
        r == (exists|j: int| 0 <= j < ids@.len() && #[trigger] ids@[j]@ == id@),
{
    let n = ids.len();
    let mut i: usize = 0;
    while i < n
        invariant
            0 <= i <= n,
            n == ids@.len(),
            forall|j: int| 0 <= j < i ==> #[trigger] ids@[j]@ != id@,
        decreases n - i,
    {
        if str_eq(ids[i].as_str(), id) {
            return true;
        }
        i += 1;
    }
    false
}

/// The verb entries of one class, as fresh values.
pub fn filter_types(types: &Vec<TypeItem>, clsid: &str) -> (r: Vec<TypeItem>)
    ensures
        types_view(r@) == types_with_clsid(types@, clsid@),
{
    let n = types.len();
    let mut r: Vec<TypeItem> = Vec::new();
    let mut i: usize = 0;
    proof {
        assert(types_view(r@) =~= Seq::<(Seq<char>, Seq<char>, Seq<char>)>::empty());
        assert(types_with_clsid(types@.take(0), clsid@) =~= Seq::<
            (Seq<char>, Seq<char>, Seq<char>),
        >::empty());
    }
    while i < n
        invariant
            0 <= i <= n,
            n == types@.len(),
            types_view(r@) == types_with_clsid(types@.take(i as int), clsid@),
        decreases n - i,
    {
        let matches = str_eq(types[i].clsid.as_str(), clsid);
        let ghost before = r@;
        if matches {
            r.push(clone_type_item(&types[i]));
        }
        proof {
            lemma_types_with_clsid_take(types@, clsid@, i as int);
            if matches {
                assert(types_view(r@) =~= types_view(before).push(type_view(types@[i as int])));
            }
        }
        i += 1;
    }
    assert(types@.take(n as int) =~= types@);
    r
}

proof fn lemma_types_with_clsid_take(ts: Seq<TypeItem>, clsid: Seq<char>, i: int)
    requires
        0 <= i < ts.len(),
    ensures
        types_with_clsid(ts.take(i + 1), clsid) == types_with_clsid(ts.take(i), clsid) + (if ts[i].clsid@
            == clsid {
            seq![type_view(ts[i])]
        } else {
            Seq::<(Seq<char>, Seq<char>, Seq<char>)>::empty()
        }),
    decreases i,
{
    if i == 0 {
        assert(ts.take(1).skip(1) =~= Seq::<TypeItem>::empty());
        assert(ts.take(0) =~= Seq::<TypeItem>::empty());
        assert(types_with_clsid(Seq::<TypeItem>::empty(), clsid) == Seq::<
            (Seq<char>, Seq<char>, Seq<char>),
        >::empty());
        assert(types_with_clsid(ts.take(1), clsid) =~= types_with_clsid(ts.take(0), clsid) + (if ts[0].clsid@
            == clsid {
            seq![type_view(ts[0])]
        } else {
            Seq::<(Seq<char>, Seq<char>, Seq<char>)>::empty()
        }));
    } else {
        lemma_types_with_clsid_take(ts.skip(1), clsid, i - 1);
        assert(ts.take(i + 1).skip(1) =~= ts.skip(1).take(i));
        assert(ts.take(i).skip(1) =~= ts.skip(1).take(i - 1));
        assert(ts.take(i + 1)[0] == ts[0]);
        assert(ts.take(i)[0] == ts[0]);
        assert(ts.skip(1)[i - 1] == ts[i]);
        assert(types_with_clsid(ts.take(i + 1), clsid) =~= types_with_clsid(ts.take(i), clsid) + (
        if ts[i].clsid@ == clsid {
            seq![type_view(ts[i])]
        } else {
            Seq::<(Seq<char>, Seq<char>, Seq<char>)>::empty()
        }));
    }
}

/// Builds the catalog entry of one packaged class: its id is the class,
/// its name the package's display name, it is enabled exactly when the
/// class is not blocked, and its details carry the package's fields and
/// the verb entries of that class alone.
pub fn win11_menu_item(
    ty: &TypeItem,
    all_types: &Vec<TypeItem>,
    display_name: &str,
    publisher: &str,
    description: &str,
    install_path: &str,
    family_name: &str,
    full_name: &str,
    icon: Option<Vec<u8>>,
    blocks: &Blocks,
) -> (r: MenuItem)
    ensures
        r.id@ == ty.clsid@,
        r.name@ == display_name@,
        r.enabled == !crate::blocklist::names_view(blocks.items@).contains(ty.clsid@),
        r.info is Some,
        r.info->Some_0.icon == icon,
        r.info->Some_0.publisher_display_name@ == publisher@,
        r.info->Some_0.description@ == description@,
        types_view(r.info->Some_0.types@) == types_with_clsid(all_types@, ty.clsid@),
        r.info->Some_0.install_path@ == install_path@,
        r.info->Some_0.family_name@ == family_name@,
        r.info->Some_0.full_name@ == full_name@,
        r.info->Some_0.reg is None,
        r.info->Some_0.reg_txt is None,
{
    let enabled = !blocks.contains(ty.clsid.as_str());
    let types = filter_types(all_types, ty.clsid.as_str());
    let info = MenuItemInfo {
        icon,
        publisher_display_name: String::from_str(publisher),
        description: String::from_str(description),
        types,
        install_path: String::from_str(install_path),
        family_name: String::from_str(family_name),
        full_name: String::from_str(full_name),
        reg: None,
        reg_txt: None,
    };
    MenuItem {
        id: clone_string(&ty.clsid),
        name: String::from_str(display_name),
        enabled,
        info: Some(info),
    }
}

/// Unblocks a class, re-enabling its menu entry; `key_writable` is
/// whether the host could open the blocked key for writing. The
/// semantics are the set's own: silent success for an unknown id, a
/// value deletion when the key is writable, a cleared set otherwise.
pub fn enable(blocks: &mut Blocks, id: &str, key_writable: bool) -> (r: Option<RegOp>)
    ensures
        final(blocks).scope == old(blocks).scope,
        !crate::blocklist::names_view(old(blocks).items@).contains(id@) ==> r is None
            && final(blocks).items@ == old(blocks).items@,
        crate::blocklist::names_view(old(blocks).items@).contains(id@) && key_writable ==> {
            &&& r is Some
            &&& r->Some_0@ == crate::store::RegOpModel::DeleteValue(
                old(blocks).scope.spec_hive(),
                crate::blocklist::blocked_key(),
                crate::blocklist::reg_name_of(id@),
            )
            &&& crate::blocklist::names_view(final(blocks).items@)
                == crate::blocklist::remove_name(
                crate::blocklist::names_view(old(blocks).items@),
                id@,
            )
        },
        crate::blocklist::names_view(old(blocks).items@).contains(id@) && !key_writable ==> r
            is None && final(blocks).items@.len() == 0,
{
    blocks.remove(id, key_writable)
}

/// Blocks a class, disabling its menu entry: the plan creates the
/// blocked key and sets an empty text value under the braced class id.
pub fn disable(blocks: &mut Blocks, id: &str) -> (r: Vec<RegOp>)
    ensures
        crate::store::ops_model(r@) == seq![
            crate::store::RegOpModel::CreateKey(
                old(blocks).scope.spec_hive(),
                crate::blocklist::blocked_key(),
            ),
            crate::store::RegOpModel::SetValue(
                old(blocks).scope.spec_hive(),
                crate::blocklist::blocked_key(),
                crate::blocklist::reg_name_of(id@),
                crate::value::spec_encode(crate::value::RegValueModel::Text(Seq::empty())),
            ),
        ],
        final(blocks).scope == old(blocks).scope,
        crate::blocklist::names_view(final(blocks).items@) == (if crate::blocklist::names_view(
            old(blocks).items@,
        ).contains(id@) {
            crate::blocklist::names_view(old(blocks).items@)
        } else {
            crate::blocklist::names_view(old(blocks).items@).push(id@)
        }),
{
    blocks.add(id)
}

} // verus!
