//! Switching between the classic and the modern context menu: one
//! class registration under the user hive decides which the shell
//! shows, and these plans create or clear it.
use crate::scene::SceneRoot;
use crate::store::ops_model;
use crate::store::RegOp;
use crate::store::RegOpModel;
use crate::value::spec_encode;
use crate::value::RegItemValue;
use crate::value::RegValueModel;
use vstd::prelude::*;
use vstd::string::StringExecFns;

verus! {

/// Which catalog a listing walks: the registry-based classic menu or
/// the packaged modern one.
#[derive(Clone, Copy, PartialEq, Eq, Structural, Debug, Hash)]
pub enum Type {
    Win10,
    Win11,
}

impl Default for Type {
    fn default() -> (r: Self)
        ensures
            r == Type::Win11,
    {
        Type::Win11
    }
}

/// The style key's path with its marker subkey, where the classic-menu
/// registration's server entry lives.
pub open spec fn style_inproc_path() -> Seq<char> {
    "SOFTWARE\\Classes\\CLSID\\{86ca1aa0-34aa-4e8b-a509-50c905bae2a2}\\InprocServer32"@
}

/// The style key's path as created for the classic menu.
pub open spec fn style_clsid_path() -> Seq<char> {
    "Software\\Classes\\CLSID\\{86ca1aa0-34aa-4e8b-a509-50c905bae2a2}"@
}

/// The server subkey created under the style key.
pub open spec fn style_created_inproc_path() -> Seq<char> {
    style_clsid_path() + "\\InprocServer32"@
}

/// The plan that switches the context-menu style. The modern style
/// deletes the marker's default value; the classic style creates the
/// class key and its server subkey and sets an empty default value.
pub open spec fn style_ops(is_win11_style: bool) -> Seq<RegOpModel> {
    if is_win11_style {
        seq![RegOpModel::DeleteValue(SceneRoot::HKCU, style_inproc_path(), Seq::empty())]
    } else {
        seq![
            RegOpModel::CreateKey(SceneRoot::HKCU, style_clsid_path()),
            RegOpModel::CreateKey(SceneRoot::HKCU, style_created_inproc_path()),
            RegOpModel::SetValue(
                SceneRoot::HKCU,
                style_created_inproc_path(),
                Seq::empty(),
                spec_encode(RegValueModel::Text(Seq::empty())),
            ),
        ]
    }
}

/// Compiles the style switch into its registry plan.
pub fn set_context_menu_style(is_win11_style: bool) -> (r: Vec<RegOp>)
    ensures
        ops_model(r@) == style_ops(is_win11_style),
{
    let mut r: Vec<RegOp> = Vec::new();
    if is_win11_style {
        r.push(
            RegOp::DeleteValue {
                root: SceneRoot::HKCU,
                path: String::from_str(
                    "SOFTWARE\\Classes\\CLSID\\{86ca1aa0-34aa-4e8b-a509-50c905bae2a2}\\InprocServer32",
                ),
                name: String::new(),
            },
        );
        assert(ops_model(r@) =~= style_ops(is_win11_style));
    } else {
        let clsid_path = String::from_str(
            "Software\\Classes\\CLSID\\{86ca1aa0-34aa-4e8b-a509-50c905bae2a2}",
        );
        let mut inproc = String::from_str(
            "Software\\Classes\\CLSID\\{86ca1aa0-34aa-4e8b-a509-50c905bae2a2}",
        );
        inproc.append("\\InprocServer32");
        let empty_value = RegItemValue::SZ(String::new());
        let raw = empty_value.encode();
        let inproc2 = crate::store::clone_string(&inproc);
        r.push(RegOp::CreateKey { root: SceneRoot::HKCU, path: clsid_path });
        r.push(RegOp::CreateKey { root: SceneRoot::HKCU, path: inproc });
        r.push(
            RegOp::SetValue {
                root: SceneRoot::HKCU,
                path: inproc2,
                name: String::new(),
                value: raw,
            },
        );
        assert(ops_model(r@) =~= style_ops(is_win11_style));
    }
    r
}

/// Whether the modern menu is active, as read from the live system:
/// the marker key exists exactly when the classic registration is
/// absent's opposite, so the host hands in the key's presence.
pub fn get_context_menu_style(style_key_present: bool) -> (r: bool)
    ensures
        r == style_key_present,
{
    style_key_present
}

impl Type {
    /// The plan that turns the classic menu on.
    pub fn enable_classic_menu() -> (r: Vec<RegOp>)
        ensures
            ops_model(r@) == style_ops(false),
    {
        set_context_menu_style(false)
    }

    /// The plan that turns the classic menu off.
    pub fn disable_classic_menu() -> (r: Vec<RegOp>)
        ensures
            ops_model(r@) == style_ops(true),
    {
        set_context_menu_style(true)
    }

    /// Which menu the system currently shows, given whether the host
    /// found the style marker key.
    pub fn menu_type(style_key_present: bool) -> (r: Type)
        ensures
            r == (if style_key_present {
                Type::Win11
            } else {
                Type::Win10
            }),
    {
        if style_key_present {
            Type::Win11
        } else {
            Type::Win10
        }
    }
}

} // verus!
