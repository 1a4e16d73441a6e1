use wcm::guid::find_guid;
use wcm::guid::is_clsid;
use wcm::scene::SceneRoot;
use wcm::tree::RegItem;
use wcm::value::RawValue;
use wcm::value::RegItemValue;
use wcm::value::RegType;

fn leaf(path: &str, values: Vec<(String, RegItemValue)>) -> RegItem {
    RegItem { path: String::from(path), values, children: vec![], root: SceneRoot::HKCR }
}

#[test]
fn clsid_shape() {
    assert!(is_clsid("{A}"));
    assert!(is_clsid("{}"));
    assert!(!is_clsid("{"));
    assert!(!is_clsid("A"));
    assert!(!is_clsid(""));
}

#[test]
fn guid_scan_finds_first_match() {
    let g = find_guid("x 12345678-9abc-DEF0-1234-56789abcdef0 tail").unwrap();
    assert_eq!(g, "12345678-9abc-DEF0-1234-56789abcdef0");
    assert!(find_guid("no guid here").is_none());
    assert!(find_guid("12345678-9abc-DEF0-1234-56789abcdeg0").is_none());
    // The leftmost of two matches wins.
    let two = "00000000-0000-0000-0000-000000000001 11111111-1111-1111-1111-111111111111";
    assert_eq!(find_guid(two).unwrap(), "00000000-0000-0000-0000-000000000001");
}

#[test]
fn explicit_clsid_value_beats_path_substring() {
    // The node's path carries an unrelated GUID-shaped substring; the
    // declared CLSID value must win.
    let tree = RegItem {
        path: String::from("Some\\Key\\BBBBBBBB-BBBB-BBBB-BBBB-BBBBBBBBBBBB"),
        values: vec![(
            String::from("CLSID"),
            RegItemValue::SZ(String::from("{AAAAAAAA-AAAA-AAAA-AAAA-AAAAAAAAAAAA}")),
        )],
        children: vec![],
        root: SceneRoot::HKCR,
    };
    assert_eq!(tree.get_guid().unwrap(), "AAAAAAAA-AAAA-AAAA-AAAA-AAAAAAAAAAAA");
}

#[test]
fn handler_value_priority_order() {
    let tree = leaf(
        "K",
        vec![
            (String::from("CLSID"), RegItemValue::SZ(String::from("{C}"))),
            (String::from("CommandStateHandler"), RegItemValue::SZ(String::from("{A}"))),
            (String::from("DelegateExecute"), RegItemValue::SZ(String::from("{B}"))),
        ],
    );
    assert_eq!(tree.get_guid().unwrap(), "A");
}

#[test]
fn named_child_beats_path_scan() {
    let command = leaf(
        "K\\command",
        vec![(
            String::from("DelegateExecute"),
            RegItemValue::SZ(String::from("{CCCCCCCC-CCCC-CCCC-CCCC-CCCCCCCCCCCC}")),
        )],
    );
    let tree = RegItem {
        path: String::from("K\\DDDDDDDD-DDDD-DDDD-DDDD-DDDDDDDDDDDD"),
        values: vec![],
        children: vec![command],
        root: SceneRoot::HKCR,
    };
    assert_eq!(tree.get_guid().unwrap(), "CCCCCCCC-CCCC-CCCC-CCCC-CCCCCCCCCCCC");
}

#[test]
fn default_value_scanned_when_nothing_declared() {
    let tree = leaf(
        "Plain",
        vec![(
            String::new(),
            RegItemValue::SZ(String::from("server EEEEEEEE-EEEE-EEEE-EEEE-EEEEEEEEEEEE")),
        )],
    );
    assert_eq!(tree.get_guid().unwrap(), "EEEEEEEE-EEEE-EEEE-EEEE-EEEEEEEEEEEE");
    let bare = leaf("Plain", vec![]);
    assert!(bare.get_guid().is_none());
}

#[test]
fn get_child_matches_final_segment() {
    let a = leaf("Root\\alpha", vec![]);
    let b = leaf("Root\\beta", vec![]);
    let tree = RegItem {
        path: String::from("Root"),
        values: vec![],
        children: vec![a, b],
        root: SceneRoot::HKCR,
    };
    assert!(tree.get_child("alpha").is_some());
    assert_eq!(tree.get_child("beta").unwrap().path, "Root\\beta");
    assert!(tree.get_child("gamma").is_none());
}

#[test]
fn loader_skips_undecodable_values() {
    let raw = vec![
        (String::from("ok"), RawValue { vtype: RegType::RegDword, bytes: vec![1, 0, 0, 0] }),
        (String::from("bad"), RawValue { vtype: RegType::RegDword, bytes: vec![1, 2] }),
        (String::from("odd"), RawValue { vtype: RegType::RegLink, bytes: vec![] }),
        (String::from("txt"), RawValue { vtype: RegType::RegSz, bytes: vec![0x41, 0, 0, 0] }),
    ];
    let values = wcm::tree::values_from_raw(raw);
    assert_eq!(values.len(), 2);
    assert_eq!(values[0].0, "ok");
    assert!(matches!(values[0].1, RegItemValue::DWORD(1)));
    assert_eq!(values[1].0, "txt");
    assert!(matches!(&values[1].1, RegItemValue::SZ(s) if s == "A"));
    assert_eq!(wcm::tree::child_path("Root\\a", "b"), "Root\\a\\b");
}

#[test]
fn braces_must_wrap_the_whole_value() {
    let tree = leaf(
        "K",
        vec![(String::from("CLSID"), RegItemValue::SZ(String::from("no braces")))],
    );
    assert!(tree.get_guid().is_none());
}
