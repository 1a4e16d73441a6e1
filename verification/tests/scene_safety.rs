use wcm::scene::path_in_scope;
use wcm::scene::Scene;
use wcm::scene::SceneRoot;
use wcm::scene::SceneType;
use wcm::scene::Scope;
use wcm::scene::str_starts_with;

#[test]
fn listed_prefixes_are_safe() {
    // A tree rooted exactly at an allow-listed prefix is accepted.
    for t in [SceneType::Shell, SceneType::ShellEx, SceneType::Edge, SceneType::FileExts] {
        for (_, prefix) in t.registry_path() {
            assert!(path_in_scope(prefix.as_str()), "prefix not accepted: {prefix}");
        }
    }
}

#[test]
fn extensions_of_prefixes_are_safe() {
    assert!(path_in_scope("Folder\\shell\\TestVerb"));
    assert!(path_in_scope("*\\Shell\\Something\\command"));
    assert!(path_in_scope("SOFTWARE\\Policies\\Microsoft\\Edge\\Extra"));
}

#[test]
fn unrelated_paths_are_not_safe() {
    assert!(!path_in_scope("Unrelated\\Key\\Path"));
    assert!(!path_in_scope(""));
    // Case matters: the allow-list entry spells `Folder\shell`.
    assert!(!path_in_scope("folder\\shell\\x"));
    // A prefix of an entry is not itself within it.
    assert!(!path_in_scope("Folder"));
}

#[test]
fn table_shape() {
    assert_eq!(SceneType::Shell.registry_path().len(), 14);
    assert_eq!(SceneType::ShellEx.registry_path().len(), 12);
    assert_eq!(SceneType::Edge.registry_path().len(), 2);
    assert_eq!(SceneType::FileExts.registry_path().len(), 1);
    let edge = SceneType::Edge.registry_path();
    assert_eq!(edge[0].0, SceneRoot::HKCU);
    assert_eq!(edge[1].0, SceneRoot::HKLM);
    assert_eq!(edge[0].1, "SOFTWARE\\Policies\\Microsoft\\Edge");
}

#[test]
fn scope_hives() {
    assert_eq!(Scope::User.to_hive(), SceneRoot::HKCU);
    assert_eq!(Scope::Machine.to_hive(), SceneRoot::HKLM);
    assert_eq!(Scope::default(), Scope::User);
    assert_eq!(SceneRoot::default(), SceneRoot::HKCR);
    assert_eq!(Scene::default(), Scene::File);
}

#[test]
fn prefix_check_is_textual() {
    assert!(str_starts_with("abc", ""));
    assert!(str_starts_with("abc", "ab"));
    assert!(!str_starts_with("abc", "abcd"));
    assert!(!str_starts_with("abc", "ac"));
}
