use wcm::regtext::escape_str;
use wcm::regtext::to_hex_line;
use wcm::scene::SceneRoot;
use wcm::tree::RegItem;
use wcm::value::RegItemValue;

fn hex_pairs_joined(bytes: &[u8]) -> String {
    bytes.iter().map(|b| format!("{b:02x}")).collect::<Vec<_>>().join(",")
}

#[test]
fn hex_line_of_23_bytes_is_one_line() {
    let bytes: Vec<u8> = (0u8..23).collect();
    let line = to_hex_line(&bytes, 0);
    assert_eq!(line, format!("hex:{}", hex_pairs_joined(&bytes)));
    assert!(!line.contains('\\'));
}

#[test]
fn hex_line_of_24_bytes_wraps_into_23_and_1() {
    let bytes: Vec<u8> = (0u8..24).collect();
    let line = to_hex_line(&bytes, 0);
    let expected = format!(
        "hex:{},\\\n  {}",
        hex_pairs_joined(&bytes[..23]),
        hex_pairs_joined(&bytes[23..]),
    );
    assert_eq!(line, expected);
    assert_eq!(line.lines().count(), 2);
}

#[test]
fn hex_line_of_48_bytes_wraps_into_23_and_25() {
    // 23 + 25 bytes leave no remainder: exactly two lines, no empty
    // continuation after them.
    let bytes: Vec<u8> = (0u8..48).collect();
    let line = to_hex_line(&bytes, 0);
    let expected = format!(
        "hex:{},\\\n  {}",
        hex_pairs_joined(&bytes[..23]),
        hex_pairs_joined(&bytes[23..48]),
    );
    assert_eq!(line, expected);
    assert_eq!(line.lines().count(), 2);
    assert!(!line.ends_with(','));
}

#[test]
fn hex_line_of_60_bytes_wraps_into_23_25_12() {
    let bytes: Vec<u8> = (0u8..60).collect();
    let line = to_hex_line(&bytes, 0);
    let expected = format!(
        "hex:{},\\\n  {},\\\n  {}",
        hex_pairs_joined(&bytes[..23]),
        hex_pairs_joined(&bytes[23..48]),
        hex_pairs_joined(&bytes[48..]),
    );
    assert_eq!(line, expected);
}

#[test]
fn hex_line_type_tag() {
    let line = to_hex_line(&vec![0xAB], 2);
    assert_eq!(line, "hex(2):ab");
    let line = to_hex_line(&vec![], 0);
    assert_eq!(line, "hex:");
}

#[test]
fn escaping() {
    assert_eq!(escape_str("a\\b\"c"), "a\\\\b\\\"c");
    assert_eq!(escape_str(""), "");
}

#[test]
fn reg_txt_renders_sections_and_values() {
    let command = RegItem {
        path: String::from("Folder\\shell\\TestVerb\\command"),
        values: vec![(String::new(), RegItemValue::SZ(String::from("C:\\test.exe %1")))],
        children: vec![],
        root: SceneRoot::HKCR,
    };
    let tree = RegItem {
        path: String::from("Folder\\shell\\TestVerb"),
        values: vec![
            (String::new(), RegItemValue::SZ(String::from("Open With Test"))),
            (String::from("Count"), RegItemValue::DWORD(42)),
            (String::from("Big"), RegItemValue::QWORD(1)),
            (String::from("Blob"), RegItemValue::BINARY(vec![0xDE, 0xAD])),
            (String::from("Rest"), RegItemValue::Raw(vec![0x01, 0x02])),
        ],
        children: vec![command],
        root: SceneRoot::HKCR,
    };
    let txt = tree.to_reg_txt();
    assert!(txt.starts_with("Windows Registry Editor Version 5.00\n"));
    assert!(txt.contains("\n[HKEY_CLASSES_ROOT\\Folder\\shell\\TestVerb]\n"));
    assert!(txt.contains("\n[HKEY_CLASSES_ROOT\\Folder\\shell\\TestVerb\\command]\n"));
    assert!(txt.contains("@=\"Open With Test\"\n"));
    assert!(txt.contains("\"Count\"=dword:0000002a\n"));
    assert!(txt.contains("\"Big\"=qword:0000000000000001\n"));
    assert!(txt.contains("\"Blob\"=hex:de,ad\n"));
    assert!(txt.contains("\"Rest\"=hex(0):01,02\n"));
    assert!(txt.contains("@=\"C:\\\\test.exe %1\"\n"));
}

#[test]
fn shell_name_scenario() {
    // The end-to-end resolution scenario: a plain text default value
    // wins the name chain, and the rendering carries it.
    let command = RegItem {
        path: String::from("Folder\\shell\\TestVerb\\command"),
        values: vec![(String::new(), RegItemValue::SZ(String::from("C:\\test.exe %1")))],
        children: vec![],
        root: SceneRoot::HKCR,
    };
    let tree = RegItem {
        path: String::from("Folder\\shell\\TestVerb"),
        values: vec![(String::new(), RegItemValue::SZ(String::from("Open With Test")))],
        children: vec![command],
        root: SceneRoot::HKCR,
    };
    let name = wcm::catalog::get_shell_name(&tree, None, None);
    assert_eq!(name, "Open With Test");
    let txt = tree.to_reg_txt();
    assert!(txt.contains("\n[HKEY_CLASSES_ROOT\\Folder\\shell\\TestVerb]\n"));
    assert!(txt.contains("@=\"Open With Test\"\n"));
}
