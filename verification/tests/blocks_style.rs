use wcm::blocklist::Blocks;
use wcm::blocklist::from_reg_name;
use wcm::blocklist::to_reg_name;
use wcm::blocks::BlockError;
use wcm::blocks::BlockScope;
use wcm::scene::SceneRoot;
use wcm::scene::Scope;
use wcm::store::RegOp;
use wcm::style::set_context_menu_style;
use wcm::style::Type;
use wcm::value::RegType;

const BLOCKED: &str = "Software\\Microsoft\\Windows\\CurrentVersion\\Shell Extensions\\Blocked";

#[test]
fn reg_name_wrapping() {
    assert_eq!(to_reg_name("abc"), "{abc}");
    assert_eq!(from_reg_name("{abc}"), "abc");
    assert_eq!(from_reg_name("{{abc}}"), "abc");
    assert_eq!(from_reg_name("abc"), "abc");
    assert_eq!(from_reg_name("{}"), "");
}

#[test]
fn from_names_collapses_duplicates() {
    let names = vec![
        String::from("{A}"),
        String::from("{B}"),
        String::from("A"),
        String::from("{B}"),
    ];
    let blocks = Blocks::from_names(Scope::User, &names);
    assert_eq!(blocks.items.len(), 2);
    assert!(blocks.contains("A"));
    assert!(blocks.contains("B"));
    assert!(!blocks.contains("C"));
}

#[test]
fn add_plans_key_and_value() {
    let mut blocks = Blocks::from_names(Scope::Machine, &vec![]);
    let plan = blocks.add("X");
    assert_eq!(plan.len(), 2);
    match &plan[0] {
        RegOp::CreateKey { root, path } => {
            assert_eq!(*root, SceneRoot::HKLM);
            assert_eq!(path, BLOCKED);
        },
        _ => panic!("expected key creation"),
    }
    match &plan[1] {
        RegOp::SetValue { root, path, name, value } => {
            assert_eq!(*root, SceneRoot::HKLM);
            assert_eq!(path, BLOCKED);
            assert_eq!(name, "{X}");
            assert_eq!(value.vtype, RegType::RegSz);
            assert_eq!(value.bytes, vec![0, 0]);
        },
        _ => panic!("expected a value write"),
    }
    assert!(blocks.contains("X"));
    // Adding again plans the same write and keeps the set unchanged.
    let again = blocks.add("X");
    assert_eq!(again.len(), 2);
    assert_eq!(blocks.items.len(), 1);
}

#[test]
fn remove_semantics() {
    let mut blocks = Blocks::from_names(Scope::User, &vec![String::from("{A}")]);
    // Unknown ids are silently absorbed.
    assert!(blocks.remove("B", true).is_none());
    assert_eq!(blocks.items.len(), 1);
    // A writable key yields a value deletion.
    let op = blocks.remove("A", true).unwrap();
    match op {
        RegOp::DeleteValue { root, path, name } => {
            assert_eq!(root, SceneRoot::HKCU);
            assert_eq!(path, BLOCKED);
            assert_eq!(name, "{A}");
        },
        _ => panic!("expected a value deletion"),
    }
    assert!(!blocks.contains("A"));
    // An unwritable key clears the set instead.
    let mut blocks = Blocks::from_names(Scope::User, &vec![String::from("{A}")]);
    assert!(blocks.remove("A", false).is_none());
    assert_eq!(blocks.items.len(), 0);
}

#[test]
fn scoped_blocks_cache_the_readonly_probe() {
    let mut b = wcm::blocks::Blocks::new(BlockScope::Machine);
    assert!(b.is_readonly(true));
    // The first probe sticks; a later contradicting probe is ignored.
    assert!(b.is_readonly(false));
    let err = b.add("X", false).unwrap_err();
    assert_eq!(err, BlockError::ReadOnly);
    assert!(err.message().contains("administrator"));

    let mut w = wcm::blocks::Blocks::user();
    let ops = w.add("X", false).unwrap();
    assert_eq!(ops.len(), 2);
    assert!(w.contains("X"));
    assert!(w.remove("X", true).is_some());
    assert!(!w.contains("X"));
}

#[test]
fn scoped_blocks_load() {
    let mut b = wcm::blocks::Blocks::get_scope(BlockScope::User);
    b.load(Some(&vec![String::from("{A}"), String::from("{A}")]));
    assert_eq!(b.items().len(), 1);
    assert!(b.contains("A"));
    b.load(None);
    assert!(!b.contains("A"));
    assert_eq!(b.scope(), BlockScope::User);
}

#[test]
fn style_plans() {
    let modern = set_context_menu_style(true);
    assert_eq!(modern.len(), 1);
    match &modern[0] {
        RegOp::DeleteValue { root, path, name } => {
            assert_eq!(*root, SceneRoot::HKCU);
            assert_eq!(
                path,
                "SOFTWARE\\Classes\\CLSID\\{86ca1aa0-34aa-4e8b-a509-50c905bae2a2}\\InprocServer32"
            );
            assert_eq!(name, "");
        },
        _ => panic!("expected a value deletion"),
    }
    let classic = set_context_menu_style(false);
    assert_eq!(classic.len(), 3);
    match &classic[1] {
        RegOp::CreateKey { root, path } => {
            assert_eq!(*root, SceneRoot::HKCU);
            assert_eq!(
                path,
                "Software\\Classes\\CLSID\\{86ca1aa0-34aa-4e8b-a509-50c905bae2a2}\\InprocServer32"
            );
        },
        _ => panic!("expected a key creation"),
    }
    assert_eq!(Type::enable_classic_menu().len(), 3);
    assert_eq!(Type::disable_classic_menu().len(), 1);
}

#[test]
fn menu_type_follows_the_marker_key() {
    assert_eq!(Type::menu_type(true), Type::Win11);
    assert_eq!(Type::menu_type(false), Type::Win10);
    assert_eq!(Type::default(), Type::Win11);
}
