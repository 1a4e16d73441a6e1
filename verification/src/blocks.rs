//! A variant of the blocked-class set that remembers whether the
//! blocked key turned out to be read-only, and reports a distinct
//! error when a machine-scope change needs elevation.
use crate::blocklist::blocked_key;
use crate::blocklist::blocked_key_str;
use crate::blocklist::collected_names;
use crate::blocklist::names_view;
use crate::blocklist::reg_name_of;
use crate::blocklist::remove_name;
use crate::blocklist::to_reg_name;
use crate::scene::SceneRoot;
use crate::store::ops_model;
use crate::store::RegOp;
use crate::store::RegOpModel;
use crate::strutil::str_eq;
use crate::value::spec_encode;
use crate::value::RegItemValue;
use crate::value::RegValueModel;
use vstd::prelude::*;
use vstd::string::StringExecFns;

verus! {

/// Which per-user or per-machine view the set lives under.
#[derive(Clone, Copy, PartialEq, Eq, Structural, Debug)]
pub enum BlockScope {
    User,
    Machine,
}

impl BlockScope {
    /// The hive that holds this scope's settings.
    pub open spec fn spec_hive(self) -> SceneRoot {
        match self {
            BlockScope::User => SceneRoot::HKCU,
            BlockScope::Machine => SceneRoot::HKLM,
        }
    }

    /// The hive that holds this scope's settings.
    pub fn to_hive(self) -> (r: SceneRoot)
        ensures
            r == self.spec_hive(),
    {
        match self {
            BlockScope::User => SceneRoot::HKCU,
            BlockScope::Machine => SceneRoot::HKLM,
        }
    }
}

/// Why a change to the set was refused.
#[derive(Clone, Copy, PartialEq, Eq, Structural, Debug)]
pub enum BlockError {
    /// The blocked key cannot be opened for writing; machine scope
    /// needs elevation.
    ReadOnly,
}

impl BlockError {
    /// The message shown for this error.
    pub fn message(&self) -> (r: String)
        ensures
            r@ == "Registry key is read-only. Try running as administrator for machine scope."@,
    {
        String::from_str(
            "Registry key is read-only. Try running as administrator for machine scope.",
        )
    }
}

/// The blocked-class set of one scope, with the key's writability
/// remembered after the first probe.
pub struct Blocks {
    pub scope: BlockScope,
    pub items: Vec<String>,
    pub readonly: Option<bool>,
}

impl Blocks {
    /// An empty, unprobed set.
    pub fn new(scope: BlockScope) -> (r: Blocks)
        ensures
            r.scope == scope,
            r.items@.len() == 0,
            r.readonly is None,
    {
        Blocks { scope, items: Vec::new(), readonly: None }
    }

    /// An empty user-scope set.
    pub fn user() -> (r: Blocks)
        ensures
            r.scope == BlockScope::User,
            r.items@.len() == 0,
            r.readonly is None,
    {
        Blocks::new(BlockScope::User)
    }

    /// An empty machine-scope set.
    pub fn machine() -> (r: Blocks)
        ensures
            r.scope == BlockScope::Machine,
            r.items@.len() == 0,
            r.readonly is None,
    {
        Blocks::new(BlockScope::Machine)
    }

    /// An empty set for the given scope.
    pub fn get_scope(scope: BlockScope) -> (r: Blocks)
        ensures
            r.scope == scope,
            r.items@.len() == 0,
            r.readonly is None,
    {
        match scope {
            BlockScope::User => Blocks::user(),
            BlockScope::Machine => Blocks::machine(),
        }
    }

    /// This set's scope.
    pub fn scope(&self) -> (r: BlockScope)
        ensures
            r == self.scope,
    {
        self.scope
    }

    /// The blocked ids, in stored order.
    pub fn items(&self) -> (r: &Vec<String>)
        ensures
            r == &self.items,
    {
        &self.items
    }

    /// Whether the blocked key is read-only. The first call stores the
    /// host's probe; later calls answer from what was stored and ignore
    /// the probe.
    pub fn is_readonly(&mut self, probe: bool) -> (r: bool)
        ensures
            final(self).scope == old(self).scope,
            final(self).items@ == old(self).items@,
            match old(self).readonly {
                Some(b) => r == b && final(self).readonly == Some(b),
                None => r == probe && final(self).readonly == Some(probe),
            },
    {
        match self.readonly {
            Some(b) => b,
            None => {
                self.readonly = Some(probe);
                probe
            },
        }
    }

    /// Replaces the set with what the host enumerated under the blocked
    /// key: the read ids when the key opened, nothing when it did not.
    pub fn load(&mut self, names: Option<&Vec<String>>)
        ensures
            final(self).scope == old(self).scope,
            final(self).readonly == old(self).readonly,
            match names {
                Some(ns) => names_view(final(self).items@) == collected_names(ns@),
                None => final(self).items@.len() == 0,
            },
    {
        match names {
            Some(ns) => {
                let loaded = crate::blocklist::Blocks::from_names(crate::scene::Scope::User, ns);
                self.items = loaded.items;
            },
            None => {
                self.items.clear();
            },
        }
    }

    /// Whether the class id is blocked.
    pub fn contains(&self, id: &str) -> (r: bool)
        ensures
            r == names_view(self.items@).contains(id@),
    {
        let n = self.items.len();
        let mut i: usize = 0;
        while i < n
            invariant
                0 <= i <= n,
                n == self.items@.len(),
                forall|j: int| 0 <= j < i ==> #[trigger] self.items@[j]@ != id@,
            decreases n - i,
        {
            if str_eq(self.items[i].as_str(), id) {
                assert(names_view(self.items@)[i as int] == id@);
                return true;
            }
            i += 1;
        }
        proof {
            if names_view(self.items@).contains(id@) {
                let k = choose|k: int|
                    0 <= k < names_view(self.items@).len() && names_view(self.items@)[k] == id@;
                assert(self.items@[k]@ == id@);
            }
        }
        false
    }

    /// Blocks a class id. Refused with a distinct error when the key is
    /// read-only (probed once, then remembered); otherwise the plan
    /// creates the key and sets an empty text value under the braced
    /// name, and the set gains the id unless it already holds it.
    pub fn add(&mut self, id: &str, probe: bool) -> (r: Result<Vec<RegOp>, BlockError>)
        ensures
            final(self).scope == old(self).scope,
            final(self).readonly == Some(
                match old(self).readonly {
                    Some(b) => b,
                    None => probe,
                },
            ),
            match r {
                Err(e) => e == BlockError::ReadOnly && final(self).items@ == old(self).items@
                    && final(self).readonly == Some(true),
                Ok(ops) => {
                    &&& final(self).readonly == Some(false)
                    &&& ops_model(ops@) == seq![
                        RegOpModel::CreateKey(old(self).scope.spec_hive(), blocked_key()),
                        RegOpModel::SetValue(
                            old(self).scope.spec_hive(),
                            blocked_key(),
                            reg_name_of(id@),
                            spec_encode(RegValueModel::Text(Seq::empty())),
                        ),
                    ]
                    &&& names_view(final(self).items@) == (if names_view(
                        old(self).items@,
                    ).contains(id@) {
                        names_view(old(self).items@)
                    } else {
                        names_view(old(self).items@).push(id@)
                    })
                },
            },
    {
        if self.is_readonly(probe) {
            return Err(BlockError::ReadOnly);
        }
        let hive = self.scope.to_hive();
        let mut ops: Vec<RegOp> = Vec::new();
        ops.push(RegOp::CreateKey { root: hive, path: blocked_key_str() });
        let empty_value = RegItemValue::SZ(String::new());
        let raw = empty_value.encode();
        ops.push(
            RegOp::SetValue {
                root: hive,
                path: blocked_key_str(),
                name: to_reg_name(id),
                value: raw,
            },
        );
        let present = self.contains(id);
        if !present {
            let ghost before = self.items@;
            self.items.push(String::from_str(id));
            assert(names_view(self.items@) =~= names_view(before).push(id@));
        }
        proof {
            assert(ops_model(ops@) =~= seq![
                RegOpModel::CreateKey(self.scope.spec_hive(), blocked_key()),
                RegOpModel::SetValue(
                    self.scope.spec_hive(),
                    blocked_key(),
                    reg_name_of(id@),
                    spec_encode(RegValueModel::Text(Seq::empty())),
                ),
            ]);
        }
        Ok(ops)
    }

    /// Unblocks a class id, with the same silent-success semantics the
    /// scoped set has: nothing planned for an unknown id, a value
    /// deletion when the key is writable, a cleared set when it is not.
    pub fn remove(&mut self, id: &str, key_writable: bool) -> (r: Option<RegOp>)
        ensures
            final(self).scope == old(self).scope,
            final(self).readonly == old(self).readonly,
            !names_view(old(self).items@).contains(id@) ==> r is None && final(self).items@ == old(
                self,
            ).items@,
            names_view(old(self).items@).contains(id@) && key_writable ==> {
                &&& r is Some
                &&& r->Some_0@ == RegOpModel::DeleteValue(
                    old(self).scope.spec_hive(),
                    blocked_key(),
                    reg_name_of(id@),
                )
                &&& names_view(final(self).items@) == remove_name(
                    names_view(old(self).items@),
                    id@,
                )
            },
            names_view(old(self).items@).contains(id@) && !key_writable ==> r is None
                && final(self).items@.len() == 0,
    {
        let present = self.contains(id);
        if !present {
            return None;
        }
        if key_writable {
            let hive = self.scope.to_hive();
            crate::blocklist::remove_all_names(&mut self.items, id);
            Some(
                RegOp::DeleteValue {
                    root: hive,
                    path: blocked_key_str(),
                    name: to_reg_name(id),
                },
            )
        } else {
            self.items.clear();
            None
        }
    }
}

} // verus!
