use vstd::prelude::*;
use vstd::string::StrSliceExecFns;
use vstd::string::StringExecFns;

verus! {

/// Which per-user or per-machine view a registry operation targets.
#[derive(Clone, Copy, PartialEq, Eq, Structural, Debug, Hash)]
pub enum Scope {
    User,
    Machine,
}

impl Default for Scope {
    fn default() -> (r: Self)
        ensures
            r == Scope::User,
    {
        Scope::User
    }
}

/// A registry hive: one of the top-level roots a key path is resolved under.
#[derive(Clone, Copy, PartialEq, Eq, Structural, Debug, Hash)]
pub enum SceneRoot {
    /// HKEY_CLASSES_ROOT
    HKCR,
    /// HKEY_CURRENT_USER
    HKCU,
    /// HKEY_LOCAL_MACHINE
    HKLM,
}

impl Default for SceneRoot {
    fn default() -> (r: Self)
        ensures
            r == SceneRoot::HKCR,
    {
        SceneRoot::HKCR
    }
}

impl Scope {
    /// The hive that holds this scope's settings.
    pub open spec fn spec_hive(self) -> SceneRoot {
        match self {
            Scope::User => SceneRoot::HKCU,
            Scope::Machine => SceneRoot::HKLM,
        }
    }

    /// The hive that holds this scope's settings.
    pub fn to_hive(self) -> (r: SceneRoot)
        ensures
            r == self.spec_hive(),
    {
        match self {
            Scope::User => SceneRoot::HKCU,
            Scope::Machine => SceneRoot::HKLM,
        }
    }
}

/// An abstract context in which a context menu can appear.
#[derive(Clone, Copy, PartialEq, Eq, Structural, Debug, Hash)]
pub enum Scene {
    File,
    Folder,
    Desktop,
    Directory,
    Background,
    Drive,
    AllObjects,
    Computer,
    RecycleBin,
    Library,
    LibraryBackground,
    User,
    Uwp,
    SystemFileAssociations,
}

impl Default for Scene {
    fn default() -> (r: Self)
        ensures
            r == Scene::File,
    {
        Scene::File
    }
}

/// The four registry-based extension mechanisms the manager touches.
#[derive(Clone, Copy, PartialEq, Eq, Structural, Debug, Hash)]
pub enum SceneType {
    Shell,
    ShellEx,
    Edge,
    FileExts,
}

impl Default for SceneType {
    fn default() -> (r: Self)
        ensures
            r == SceneType::Shell,
    {
        SceneType::Shell
    }
}

/// The allow-list of (hive, path prefix) pairs for one scene type.
/// These are the only registry locations the manager ever mutates.
pub open spec fn scene_entries(t: SceneType) -> Seq<(SceneRoot, Seq<char>)> {
    match t {
        SceneType::Shell => seq![
            (SceneRoot::HKCR, "*\\Shell"@),
            (SceneRoot::HKCR, "Folder\\shell"@),
            (SceneRoot::HKCR, "Directory\\Background\\Shell"@),
            (SceneRoot::HKCR, "Directory\\Shell"@),
            (SceneRoot::HKCR, "DesktopBackground\\Shell"@),
            (SceneRoot::HKCR, "Drive\\Shell"@),
            (SceneRoot::HKCR, "AllFilesystemObjects\\Shell"@),
            (SceneRoot::HKCR, "LibraryFolder\\Shell"@),
            (SceneRoot::HKCR, "UserLibraryFolder\\Shell"@),
            (SceneRoot::HKCR, "Launcher.ImmersiveApplication\\Shell"@),
            (SceneRoot::HKCR, "LibraryFolder\\Background\\Shell"@),
            (SceneRoot::HKCR, "CLSID\\{20D04FE0-3AEA-1069-A2D8-08002B30309D}\\shell"@),
            (SceneRoot::HKCR, "CLSID\\{645FF040-5081-101B-9F08-00AA002F954E}\\Shell"@),
            (SceneRoot::HKCR, "CLSID\\{645FF040-5081-101B-9F08-00AA002F954E}\\Shell"@),
        ],
        SceneType::ShellEx => seq![
            (SceneRoot::HKCR, "*\\ShellEx"@),
            (SceneRoot::HKCR, "Folder\\ShellEx"@),
            (SceneRoot::HKCR, "Directory\\Background\\ShellEx"@),
            (SceneRoot::HKCR, "Directory\\ShellEx"@),
            (SceneRoot::HKCR, "DesktopBackground\\ShellEx"@),
            (SceneRoot::HKCR, "Drive\\ShellEx"@),
            (SceneRoot::HKCR, "LibraryFolder\\Background\\ShellEx"@),
            (SceneRoot::HKCR, "UserLibraryFolder\\ShellEx"@),
            (SceneRoot::HKCR, "Launcher.ImmersiveApplication\\ShellEx"@),
            (SceneRoot::HKCR, "LibraryFolder\\ShellEx"@),
            (SceneRoot::HKCU, "CLSID\\{20D04FE0-3AEA-1069-A2D8-08002B30309D}\\ShellEx"@),
            (SceneRoot::HKCU, "CLSID\\{645FF040-5081-101B-9F08-00AA002F954E}\\ShellEx"@),
        ],
        SceneType::Edge => seq![
            (SceneRoot::HKCU, "SOFTWARE\\Policies\\Microsoft\\Edge"@),
            (SceneRoot::HKLM, "SOFTWARE\\Policies\\Microsoft\\Edge"@),
        ],
        SceneType::FileExts => seq![
            (SceneRoot::HKCU, "Software\\Microsoft\\Windows\\CurrentVersion\\Explorer\\FileExts"@),
        ],
    }
}

/// Every allow-list entry, across all scene types, in a fixed order.
pub open spec fn scene_entries_all() -> Seq<(SceneRoot, Seq<char>)> {
    scene_entries(SceneType::Shell) + scene_entries(SceneType::ShellEx) + scene_entries(
        SceneType::Edge,
    ) + scene_entries(SceneType::FileExts)
}

/// `p` begins with the characters of `prefix`.
pub open spec fn spec_starts_with(p: Seq<char>, prefix: Seq<char>) -> bool {
    prefix.len() <= p.len() && p.subrange(0, prefix.len() as int) == prefix
}

/// A key path may be mutated exactly when it extends one of the
/// allow-listed prefixes. The prefix match is case-sensitive and purely
/// textual: no normalization is applied.
pub open spec fn path_is_safe(path: Seq<char>) -> bool {
    exists|i: int|
        0 <= i < scene_entries_all().len() && spec_starts_with(
            path,
            scene_entries_all()[i].1,
        )
}

impl SceneType {
    /// The allow-listed (hive, path prefix) pairs for this scene type.
    pub fn registry_path(&self) -> (r: Vec<(SceneRoot, String)>)
        ensures
            r@.len() == scene_entries(*self).len(),
            forall|i: int|
                0 <= i < r@.len() ==> r@[i].0 == scene_entries(*self)[i].0 && r@[i].1@
                    == scene_entries(*self)[i].1,
    {
        let mut v: Vec<(SceneRoot, String)> = Vec::new();
        match self {
            SceneType::Shell => {
                v.push((SceneRoot::HKCR, String::from_str("*\\Shell")));
                v.push((SceneRoot::HKCR, String::from_str("Folder\\shell")));
                v.push((SceneRoot::HKCR, String::from_str("Directory\\Background\\Shell")));
                v.push((SceneRoot::HKCR, String::from_str("Directory\\Shell")));
                v.push((SceneRoot::HKCR, String::from_str("DesktopBackground\\Shell")));
                v.push((SceneRoot::HKCR, String::from_str("Drive\\Shell")));
                v.push((SceneRoot::HKCR, String::from_str("AllFilesystemObjects\\Shell")));
                v.push((SceneRoot::HKCR, String::from_str("LibraryFolder\\Shell")));
                v.push((SceneRoot::HKCR, String::from_str("UserLibraryFolder\\Shell")));
                v.push(
                    (SceneRoot::HKCR, String::from_str("Launcher.ImmersiveApplication\\Shell")),
                );
                v.push((SceneRoot::HKCR, String::from_str("LibraryFolder\\Background\\Shell")));
                v.push(
                    (
                        SceneRoot::HKCR,
                        String::from_str("CLSID\\{20D04FE0-3AEA-1069-A2D8-08002B30309D}\\shell"),
                    ),
                );
                v.push(
                    (
                        SceneRoot::HKCR,
                        String::from_str("CLSID\\{645FF040-5081-101B-9F08-00AA002F954E}\\Shell"),
                    ),
                );
                v.push(
                    (
                        SceneRoot::HKCR,
                        String::from_str("CLSID\\{645FF040-5081-101B-9F08-00AA002F954E}\\Shell"),
                    ),
                );
            },
            SceneType::ShellEx => {
                v.push((SceneRoot::HKCR, String::from_str("*\\ShellEx")));
                v.push((SceneRoot::HKCR, String::from_str("Folder\\ShellEx")));
                v.push((SceneRoot::HKCR, String::from_str("Directory\\Background\\ShellEx")));
                v.push((SceneRoot::HKCR, String::from_str("Directory\\ShellEx")));
                v.push((SceneRoot::HKCR, String::from_str("DesktopBackground\\ShellEx")));
                v.push((SceneRoot::HKCR, String::from_str("Drive\\ShellEx")));
                v.push((SceneRoot::HKCR, String::from_str("LibraryFolder\\Background\\ShellEx")));
                v.push((SceneRoot::HKCR, String::from_str("UserLibraryFolder\\ShellEx")));
                v.push(
                    (SceneRoot::HKCR, String::from_str("Launcher.ImmersiveApplication\\ShellEx")),
                );
                v.push((SceneRoot::HKCR, String::from_str("LibraryFolder\\ShellEx")));
                v.push(
                    (
                        SceneRoot::HKCU,
                        String::from_str("CLSID\\{20D04FE0-3AEA-1069-A2D8-08002B30309D}\\ShellEx"),
                    ),
                );
                v.push(
                    (
                        SceneRoot::HKCU,
                        String::from_str("CLSID\\{645FF040-5081-101B-9F08-00AA002F954E}\\ShellEx"),
                    ),
                );
            },
            SceneType::Edge => {
                v.push((SceneRoot::HKCU, String::from_str("SOFTWARE\\Policies\\Microsoft\\Edge")));
                v.push((SceneRoot::HKLM, String::from_str("SOFTWARE\\Policies\\Microsoft\\Edge")));
            },
            SceneType::FileExts => {
                v.push(
                    (
                        SceneRoot::HKCU,
                        String::from_str(
                            "Software\\Microsoft\\Windows\\CurrentVersion\\Explorer\\FileExts",
                        ),
                    ),
                );
            },
        }
        v
    }

    /// The whole allow-list, every scene type's entries concatenated.
    pub fn all_entries() -> (r: Vec<(SceneRoot, String)>)
        ensures
            r@.len() == scene_entries_all().len(),
            forall|i: int|
                0 <= i < r@.len() ==> r@[i].0 == scene_entries_all()[i].0 && r@[i].1@
                    == scene_entries_all()[i].1,
    {
        let mut v = SceneType::Shell.registry_path();
        let mut v2 = SceneType::ShellEx.registry_path();
        let mut v3 = SceneType::Edge.registry_path();
        let mut v4 = SceneType::FileExts.registry_path();
        v.append(&mut v2);
        v.append(&mut v3);
        v.append(&mut v4);
        v
    }
}

/// `s` begins with the characters of `prefix`.
pub fn str_starts_with(s: &str, prefix: &str) -> (r: bool)
    ensures
        r == spec_starts_with(s@, prefix@),
{
    let n = prefix.unicode_len();
    if n > s.unicode_len() {
        return false;
    }
    let mut i: usize = 0;
    while i < n
        invariant
            0 <= i <= n,
            n == prefix@.len(),
            n <= s@.len(),
            forall|j: int| 0 <= j < i ==> s@[j] == prefix@[j],
        decreases n - i,
    {
        if s.get_char(i) != prefix.get_char(i) {
            assert(!spec_starts_with(s@, prefix@)) by {
                assert(s@.subrange(0, n as int)[i as int] != prefix@[i as int]);
            }
            return false;
        }
        i += 1;
    }
    assert(s@.subrange(0, n as int) =~= prefix@);
    true
}

/// Decides whether a path may be mutated: it must extend one of the
/// allow-listed scene prefixes.
pub fn path_in_scope(path: &str) -> (r: bool)
    ensures
        r == path_is_safe(path@),
{
    let entries = SceneType::all_entries();
    let n = entries.len();
    let mut i: usize = 0;
    while i < n
        invariant
            0 <= i <= n,
            n == scene_entries_all().len(),
            entries@.len() == n,
            forall|k: int|
                0 <= k < n ==> entries@[k].0 == scene_entries_all()[k].0 && entries@[k].1@
                    == scene_entries_all()[k].1,
            forall|k: int| 0 <= k < i ==> !spec_starts_with(path@, scene_entries_all()[k].1),
        decreases n - i,
    {
        if str_starts_with(path, entries[i].1.as_str()) {
            return true;
        }
        i += 1;
    }
    false
}

/// Every allow-listed prefix is itself accepted as safe: a tree rooted
/// exactly at a scene entry's prefix may always be mutated.
pub proof fn lemma_scene_prefix_is_safe(root: SceneRoot, prefix: Seq<char>)
    requires
        scene_entries_all().contains((root, prefix)),
    ensures
        path_is_safe(prefix),
{
    let i = choose|i: int|
        0 <= i < scene_entries_all().len() && scene_entries_all()[i] == (root, prefix);
    assert(prefix.subrange(0, prefix.len() as int) =~= prefix);
    assert(spec_starts_with(prefix, scene_entries_all()[i].1));
}

} // verus!
