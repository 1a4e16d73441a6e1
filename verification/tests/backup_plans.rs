use wcm::backup::GuidItem;
use wcm::backup::GuidManager;
use wcm::backup::MenuItem;
use wcm::backup::MenuItemInfo;
use wcm::backup::disable;
use wcm::backup::enable;
use wcm::backup::list;
use wcm::backup::merge_backup;
use wcm::scene::SceneRoot;
use wcm::store::RegOp;
use wcm::store::RegStore;
use wcm::tree::RegItem;
use wcm::value::RegItemValue;

fn item(id: &str, name: &str) -> MenuItem {
    MenuItem { id: String::from(id), name: String::from(name), enabled: true, info: None }
}

fn item_with_tree(id: &str, path: &str) -> MenuItem {
    let tree = RegItem {
        path: String::from(path),
        values: vec![(String::new(), RegItemValue::SZ(String::from("v")))],
        children: vec![],
        root: SceneRoot::HKCR,
    };
    let info = MenuItemInfo {
        icon: None,
        publisher_display_name: String::new(),
        description: String::new(),
        types: vec![],
        install_path: String::new(),
        family_name: String::new(),
        full_name: String::new(),
        reg: Some(tree),
        reg_txt: None,
    };
    MenuItem { id: String::from(id), name: String::from(id), enabled: true, info: Some(info) }
}

#[test]
fn merge_is_append_only() {
    // An id already stored keeps its first-seen content; only new ids
    // are appended.
    let stored = vec![item("A", "first seen")];
    let incoming = vec![item("A", "changed"), item("B", "fresh")];
    let merged = merge_backup(stored, incoming);
    assert_eq!(merged.len(), 2);
    assert_eq!(merged[0].id, "A");
    assert_eq!(merged[0].name, "first seen");
    assert_eq!(merged[1].id, "B");
    assert_eq!(merged[1].name, "fresh");
}

#[test]
fn merge_into_empty_keeps_order() {
    let merged = merge_backup(vec![], vec![item("X", "x"), item("Y", "y")]);
    assert_eq!(merged.len(), 2);
    assert_eq!(merged[0].id, "X");
    assert_eq!(merged[1].id, "Y");
}

#[test]
fn list_marks_liveness() {
    let backup = vec![item("A", "a"), item("B", "b")];
    let live = vec![item("B", "whatever")];
    let marked = list(&live, backup);
    assert_eq!(marked.len(), 2);
    assert!(!marked[0].enabled);
    assert!(marked[1].enabled);
    assert_eq!(marked[0].id, "A");
    assert_eq!(marked[1].id, "B");
}

#[test]
fn disable_compiles_the_stored_delete_plan() {
    let backup = vec![item_with_tree("Folder\\shell\\TestVerb", "Folder\\shell\\TestVerb")];
    let plan = disable(&backup, "Folder\\shell\\TestVerb");
    assert_eq!(plan.len(), 1);
    match &plan[0] {
        RegOp::DeleteKey { root, path } => {
            assert_eq!(*root, SceneRoot::HKCR);
            assert_eq!(path, "Folder\\shell\\TestVerb");
        },
        _ => panic!("expected a key deletion"),
    }
}

#[test]
fn enable_compiles_the_stored_write_plan() {
    let backup = vec![item_with_tree("Folder\\shell\\TestVerb", "Folder\\shell\\TestVerb")];
    let plan = enable(&backup, "Folder\\shell\\TestVerb");
    assert_eq!(plan.len(), 2);
    assert!(matches!(&plan[0], RegOp::CreateKey { .. }));
    assert!(matches!(&plan[1], RegOp::SetValue { .. }));
}

#[test]
fn unknown_id_compiles_to_nothing() {
    let backup = vec![item_with_tree("A", "Folder\\shell\\A")];
    assert!(disable(&backup, "B").is_empty());
    assert!(enable(&backup, "B").is_empty());
    assert!(disable(&backup, "A").len() > 0);
}

#[test]
fn out_of_scope_tree_compiles_to_nothing_and_mutates_nothing() {
    // The safety gate: a tree outside the allow-list plans no
    // operations, so a store it is applied to keeps its keys.
    let backup = vec![item_with_tree("X", "Unrelated\\Key\\Path")];
    let plan = disable(&backup, "X");
    assert!(plan.is_empty());
    let write = enable(&backup, "X");
    assert!(write.is_empty());

    let mut store = RegStore::new();
    store.apply(&RegOp::CreateKey {
        root: SceneRoot::HKCR,
        path: String::from("Unrelated\\Key\\Path"),
    });
    assert!(store.has_key(SceneRoot::HKCR, "Unrelated\\Key\\Path"));
    store.apply_plan(&plan);
    store.apply_plan(&write);
    assert!(store.has_key(SceneRoot::HKCR, "Unrelated\\Key\\Path"));
    assert_eq!(store.keys.len(), 1);
    assert_eq!(store.entries.len(), 0);
}

#[test]
fn in_scope_plans_mutate_the_store() {
    let backup = vec![item_with_tree("V", "Folder\\shell\\TestVerb")];
    let mut store = RegStore::new();
    store.apply_plan(&enable(&backup, "V"));
    assert!(store.has_key(SceneRoot::HKCR, "Folder\\shell\\TestVerb"));
    assert!(store.value_at(SceneRoot::HKCR, "Folder\\shell\\TestVerb", "").is_some());
    store.apply_plan(&disable(&backup, "V"));
    assert!(!store.has_key(SceneRoot::HKCR, "Folder\\shell\\TestVerb"));
    assert!(store.value_at(SceneRoot::HKCR, "Folder\\shell\\TestVerb", "").is_none());
}

#[test]
fn guid_manager_lookup() {
    let mgr = GuidManager::from_items(vec![
        (
            String::from("aaaa"),
            GuidItem { res_text: None, text: Some(String::from("First")), icon: None },
        ),
        (
            String::from("bbbb"),
            GuidItem { res_text: None, text: Some(String::from("Second")), icon: None },
        ),
    ]);
    assert_eq!(mgr.get_item("bbbb").unwrap().text.as_deref(), Some("Second"));
    assert!(mgr.get_item("cccc").is_none());
    assert!(GuidManager::new().get_item("aaaa").is_none());
}
