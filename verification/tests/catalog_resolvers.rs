use wcm::backup::GuidItem;
use wcm::backup::TypeItem;
use wcm::blocklist::Blocks;
use wcm::catalog::from_shell;
use wcm::catalog::from_shell_ex;
use wcm::catalog::get_cls_name;
use wcm::catalog::get_shell_name;
use wcm::catalog::cls_query_path;
use wcm::catalog::ico_query;
use wcm::catalog::icon_candidates;
use wcm::catalog::load_edge;
use wcm::catalog::parse_i32;
use wcm::catalog::parse_path;
use wcm::catalog::parse_reg_path;
use wcm::catalog::IcoSource;
use wcm::catalog::IconQuery;
use wcm::scene::Scope;
use wcm::scene::SceneRoot;
use wcm::tree::RegItem;
use wcm::value::RegItemValue;
use wcm::win11::bad_app_exe_path;
use wcm::win11::dedup_clsids;
use wcm::win11::win11_menu_item;

const WIN: &str = "c:\\windows";
const SYS: &str = "c:\\windows\\system32/";

fn leaf(path: &str, values: Vec<(String, RegItemValue)>) -> RegItem {
    RegItem { path: String::from(path), values, children: vec![], root: SceneRoot::HKCR }
}

#[test]
fn parse_i32_cases() {
    assert_eq!(parse_i32("123"), Some(123));
    assert_eq!(parse_i32("-51608"), Some(-51608));
    assert_eq!(parse_i32("+7"), Some(7));
    assert_eq!(parse_i32("2147483647"), Some(i32::MAX));
    assert_eq!(parse_i32("-2147483648"), Some(i32::MIN));
    assert_eq!(parse_i32("2147483648"), None);
    assert_eq!(parse_i32("-2147483649"), None);
    assert_eq!(parse_i32(""), None);
    assert_eq!(parse_i32("-"), None);
    assert_eq!(parse_i32("12a"), None);
    assert_eq!(parse_i32(" 1"), None);
}

#[test]
fn parse_path_expands_shorthands() {
    assert_eq!(
        parse_path("@%SystemRoot%\\System32\\fvewiz.dll", WIN, SYS),
        format!("{WIN}\\system32\\fvewiz.dll"),
    );
    assert_eq!(
        parse_path("%SystemRoot%\\notepad.exe", WIN, SYS),
        format!("{WIN}\\notepad.exe"),
    );
    assert_eq!(parse_path("@shell32.dll", WIN, SYS), format!("{SYS}/shell32.dll"));
    assert_eq!(parse_path("Plain.DLL", WIN, SYS), format!("{SYS}/plain.dll"));
}

#[test]
fn parse_reg_path_splits_and_expands() {
    let (dll, id) = parse_reg_path("@shell32.dll,-51608", WIN, SYS).unwrap();
    assert_eq!(dll, format!("{SYS}/shell32.dll"));
    assert_eq!(id, -51608);
    assert!(parse_reg_path("shell32.dll", WIN, SYS).is_none());
    assert!(parse_reg_path("shell32.dll,x", WIN, SYS).is_none());
}

#[test]
fn ico_query_decides_the_lookup() {
    assert!(matches!(ico_query("", WIN, SYS), IcoSource::NoIcon));
    match ico_query("themecpl.dll,-1", WIN, SYS) {
        IcoSource::DllIndex(p, i) => {
            assert_eq!(p, format!("{SYS}/themecpl.dll"));
            assert_eq!(i, -1);
        },
        _ => panic!("expected a resource lookup"),
    }
    match ico_query("C:\\Program Files\\Git\\git-bash.exe", WIN, SYS) {
        IcoSource::File(p) => assert_eq!(p, "C:\\Program Files\\Git\\git-bash.exe"),
        _ => panic!("expected a file lookup"),
    }
}

#[test]
fn shell_name_chain() {
    // A MuiVerb text that needs no lookup wins as it stands.
    let tree = leaf(
        "Folder\\shell\\Verb",
        vec![(String::from("MuiVerb"), RegItemValue::SZ(String::from("Do It")))],
    );
    assert_eq!(get_shell_name(&tree, None, None), "Do It");

    // An indirect reference takes the host's resolution.
    let tree = leaf(
        "Folder\\shell\\Verb",
        vec![(String::from("MuiVerb"), RegItemValue::SZ(String::from("@x.dll,-1")))],
    );
    assert_eq!(
        get_shell_name(&tree, Some(&String::from("Resolved")), None),
        "Resolved",
    );
    // Without a resolution the chain falls back to the path segment.
    assert_eq!(get_shell_name(&tree, None, None), "Verb");

    // A blank name falls through to the class's friendly name.
    let tree = leaf(
        "Folder\\shell\\Verb",
        vec![
            (String::new(), RegItemValue::SZ(String::from("   "))),
            (
                String::from("CLSID"),
                RegItemValue::SZ(String::from("{AAAAAAAA-AAAA-AAAA-AAAA-AAAAAAAAAAAA}")),
            ),
        ],
    );
    assert_eq!(
        get_shell_name(&tree, None, Some(&String::from("Friendly"))),
        "Friendly",
    );
}

#[test]
fn cls_name_resolution() {
    let reg = leaf(
        "CLSID\\{X}",
        vec![(String::from("LocalizedString"), RegItemValue::SZ(String::from("Plain Name")))],
    );
    assert_eq!(get_cls_name(Some(&reg), None).as_deref(), Some("Plain Name"));

    let reg = leaf(
        "CLSID\\{X}",
        vec![(String::new(), RegItemValue::SZ(String::from("@res.dll,-7")))],
    );
    assert_eq!(
        get_cls_name(Some(&reg), Some(&String::from("Looked Up"))).as_deref(),
        Some("Looked Up"),
    );
    assert_eq!(get_cls_name(Some(&reg), None), None);
    assert_eq!(get_cls_name(None, None), None);

    assert_eq!(cls_query_path("{A}"), "CLSID\\{A}");
    assert_eq!(cls_query_path("A"), "CLSID\\{A}");
}

#[test]
fn from_shell_builds_the_entry() {
    let tree = leaf(
        "Folder\\shell\\Verb",
        vec![(String::new(), RegItemValue::SZ(String::from("Open With Test")))],
    );
    let item = from_shell(tree, None, None, None, None, None, Some(vec![1, 2]));
    assert_eq!(item.id, "Folder\\shell\\Verb");
    assert_eq!(item.name, "Open With Test");
    assert!(item.enabled);
    let info = item.info.unwrap();
    assert_eq!(info.icon.as_deref(), Some(&[1u8, 2u8][..]));
    assert!(info.reg.is_some());
    assert!(info.reg_txt.unwrap().contains("@=\"Open With Test\""));
}

#[test]
fn from_shell_fixes_a_braced_name() {
    // A name that resolves to a braced class id is replaced by the
    // friendly name the host found for it.
    let tree = leaf(
        "Folder\\shell\\Verb",
        vec![(String::new(), RegItemValue::SZ(String::from("{AAAA}")))],
    );
    let item = from_shell(tree, None, None, None, None, Some(&String::from("Nice Name")), None);
    assert_eq!(item.name, "Nice Name");
}

#[test]
fn from_guid_table_text_wins() {
    let tree = leaf("Folder\\shell\\Verb", vec![]);
    let entry = GuidItem { res_text: None, text: Some(String::from("Table Name")), icon: None };
    let item = from_shell_ex(tree, Some(&entry), None, None, None, None, None);
    assert_eq!(item.name, "Table Name");
    let tree = leaf("Folder\\shell\\Verb", vec![]);
    let entry = GuidItem {
        res_text: Some(String::from("@r.dll,-1")),
        text: Some(String::from("Table Name")),
        icon: None,
    };
    let item = from_shell_ex(
        tree,
        Some(&entry),
        Some(&String::from("Resource Name")),
        None,
        None,
        None,
        None,
    );
    assert_eq!(item.name, "Resource Name");
}

#[test]
fn load_edge_wraps_the_policy_tree() {
    let tree = leaf("SOFTWARE\\Policies\\Microsoft\\Edge", vec![]);
    let items = load_edge(tree, "SOFTWARE\\Policies\\Microsoft\\Edge");
    assert_eq!(items.len(), 1);
    assert_eq!(items[0].id, "SOFTWARE\\Policies\\Microsoft\\Edge");
    assert_eq!(items[0].name, "SOFTWARE\\Policies\\Microsoft\\Edge");
    assert!(items[0].info.as_ref().unwrap().reg.is_some());
}

#[test]
fn icon_candidates_follow_the_chain() {
    // A decisive source stops the search even if it later fails.
    let tree = leaf(
        "K",
        vec![(String::from("Icon"), RegItemValue::SZ(String::from("x.dll,-1")))],
    );
    let qs = icon_candidates(&tree);
    assert_eq!(qs.len(), 1);
    assert!(matches!(&qs[0], IconQuery::Str(s) if s == "x.dll,-1"));

    // A command child yields its executable token.
    let command = leaf(
        "K\\command",
        vec![(String::new(), RegItemValue::SZ(String::from("C:\\run.exe %1")))],
    );
    let tree = RegItem {
        path: String::from("K"),
        values: vec![],
        children: vec![command],
        root: SceneRoot::HKCR,
    };
    let qs = icon_candidates(&tree);
    assert_eq!(qs.len(), 1);
    assert!(matches!(&qs[0], IconQuery::CommandExe(s) if s == "C:\\run.exe"));

    // Without a decisive source the children are walked in order.
    let c1 = leaf("K\\a", vec![]);
    let c2 = leaf(
        "K\\b",
        vec![(String::from("DefaultIcon"), RegItemValue::SZ(String::from("deep.ico")))],
    );
    let tree = RegItem {
        path: String::from("K"),
        values: vec![],
        children: vec![c1, c2],
        root: SceneRoot::HKCR,
    };
    let qs = icon_candidates(&tree);
    assert_eq!(qs.len(), 1);
    assert!(matches!(&qs[0], IconQuery::Str(s) if s == "deep.ico"));
}

#[test]
fn bad_app_override_paths() {
    let p = bad_app_exe_path("C:/pkg/dir", "0002DEAD-9BF7-4CFA-8A5C-DE8679340001").unwrap();
    assert_eq!(p, "C:/pkg/BandiView.exe");
    assert!(bad_app_exe_path("C:/pkg/dir", "not-on-the-table").is_none());
}

#[test]
fn win11_item_assembly() {
    let types = vec![
        TypeItem {
            id: String::from("v1"),
            ty: String::from("*"),
            clsid: String::from("C1"),
        },
        TypeItem {
            id: String::from("v2"),
            ty: String::from("Directory"),
            clsid: String::from("C1"),
        },
        TypeItem {
            id: String::from("v3"),
            ty: String::from("*"),
            clsid: String::from("C2"),
        },
    ];
    let distinct = dedup_clsids(&types);
    assert_eq!(distinct.len(), 2);
    assert_eq!(distinct[0].clsid, "C1");
    assert_eq!(distinct[1].clsid, "C2");

    let blocks = Blocks::from_names(Scope::User, &vec![String::from("{C2}")]);
    let item = win11_menu_item(
        &distinct[0],
        &types,
        "App",
        "Pub",
        "Desc",
        "C:/install",
        "fam",
        "full",
        None,
        &blocks,
    );
    assert_eq!(item.id, "C1");
    assert_eq!(item.name, "App");
    assert!(item.enabled);
    let info = item.info.unwrap();
    assert_eq!(info.types.len(), 2);
    assert_eq!(info.publisher_display_name, "Pub");

    let blocked = win11_menu_item(
        &distinct[1],
        &types,
        "App",
        "Pub",
        "Desc",
        "C:/install",
        "fam",
        "full",
        None,
        &blocks,
    );
    assert!(!blocked.enabled);
    assert_eq!(blocked.info.unwrap().types.len(), 1);
}
