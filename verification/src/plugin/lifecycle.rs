//! Plugin lifecycle: install, uninstall, enable, disable.
//!
//! Installed plugins are kept sorted by name; a plugin starts `Enabled`.

use vstd::prelude::*;

use crate::error::AgentError;
use crate::plugin::manifest::{manifest_refusal, PluginManifest};
use crate::text::{lemma_lex_lt_total, lemma_lex_lt_transitive, lex_compare, lex_lt, str_eq};

verus! {

/// The state of a plugin.
#[derive(Debug, Clone, Copy, PartialEq, Eq, Structural)]
pub enum PluginState {
    /// Installed and active.
    Enabled,
    /// Installed but inactive.
    Disabled,
    /// Not installed.
    NotInstalled,
}

/// Errors of lifecycle transitions.
#[derive(Debug, Clone, PartialEq, Eq, Structural)]
pub enum LifecycleError {
    /// A plugin of that name is installed already.
    AlreadyInstalled,
    /// No plugin of that name is installed.
    NotInstalled,
    /// The plugin is already in the requested state.
    AlreadyInState,
}

impl LifecycleError {
    /// The text of the error.
    pub fn to_text(&self) -> (s: &'static str)
        ensures
            s@ == match self {
                LifecycleError::AlreadyInstalled => "plugin already installed"@,
                LifecycleError::NotInstalled => "plugin not installed"@,
                LifecycleError::AlreadyInState => "plugin already in requested state"@,
            },
    {
        match self {
            LifecycleError::AlreadyInstalled => "plugin already installed",
            LifecycleError::NotInstalled => "plugin not installed",
            LifecycleError::AlreadyInState => "plugin already in requested state",
        }
    }
}

/// One installed plugin.
#[derive(Debug)]
struct Entry {
    name: String,
    manifest: PluginManifest,
    state: PluginState,
    path: String,
}

/// What the lifecycle records of an installed plugin.
pub struct Installed {
    pub manifest: PluginManifest,
    pub state: PluginState,
    pub path: Seq<char>,
}

/// The plugin lifecycle manager: installed plugins and their states.
#[derive(Debug)]
pub struct PluginLifecycle {
    plugins: Vec<Entry>,
}

/// The text of the refusal for a plugin that is not installed.
pub open spec fn not_installed_message(name: Seq<char>) -> Seq<char> {
    "plugin `"@ + name + "` is not installed"@
}

impl PluginLifecycle {
    /// Entries are sorted by name, strictly, so names are unique; every
    /// installed plugin is enabled or disabled.
    pub closed spec fn wf(self) -> bool {
        &&& forall|i: int, j: int|
            0 <= i < j < self.plugins@.len() ==> lex_lt(
                #[trigger] self.plugins@[i].name@,
                #[trigger] self.plugins@[j].name@,
            )
        &&& forall|i: int| 0 <= i < self.plugins@.len() ==> #[trigger] self.plugins@[i].state != PluginState::NotInstalled
    }

    closed spec fn index_of(self, k: Seq<char>) -> int {
        choose|i: int| 0 <= i < self.plugins@.len() && self.plugins@[i].name@ == k
    }

    closed spec fn record(self, i: int) -> Installed {
        Installed {
            manifest: self.plugins@[i].manifest,
            state: self.plugins@[i].state,
            path: self.plugins@[i].path@,
        }
    }

    /// The installed plugins, by name.
    pub closed spec fn view(self) -> Map<Seq<char>, Installed> {
        Map::new(
            |k: Seq<char>| exists|i: int| 0 <= i < self.plugins@.len() && self.plugins@[i].name@ == k,
            |k: Seq<char>| self.record(self.index_of(k)),
        )
    }

    /// The installed names in list order.
    pub closed spec fn names(self) -> Seq<Seq<char>> {
        self.plugins@.map_values(|e: Entry| e.name@)
    }

    /// The state of a plugin by name.
    pub open spec fn spec_state(self, name: Seq<char>) -> PluginState {
        if self.view().dom().contains(name) {
            self.view()[name].state
        } else {
            PluginState::NotInstalled
        }
    }

    proof fn lemma_view_at(self, i: int)
        requires
            self.wf(),
            0 <= i < self.plugins@.len(),
        ensures
            self.view().dom().contains(self.plugins@[i].name@),
            self.view()[self.plugins@[i].name@] == (Installed {
                manifest: self.plugins@[i].manifest,
                state: self.plugins@[i].state,
                path: self.plugins@[i].path@,
            }),
    {
        let k = self.plugins@[i].name@;
        assert(self.view().dom().contains(k));
        let j = self.index_of(k);
        if j != i {
            lemma_lex_lt_total(k, k);
            if j < i {
                assert(lex_lt(self.plugins@[j].name@, self.plugins@[i].name@));
            } else {
                assert(lex_lt(self.plugins@[i].name@, self.plugins@[j].name@));
            }
        }
    }

    /// An empty manager.
    pub fn new() -> (l: Self)
        ensures
            l.wf(),
            l.view() == Map::<Seq<char>, Installed>::empty(),
    {
        let l = PluginLifecycle { plugins: Vec::new() };
        assert(l.view() =~= Map::<Seq<char>, Installed>::empty());
        l
    }

    /// The index where `name` is, or where it would be inserted.
    fn locate(&self, name: &str) -> (r: (usize, bool))
        requires
            self.wf(),
        ensures
            r.0 <= self.plugins@.len(),
            forall|i: int| 0 <= i < r.0 ==> lex_lt(#[trigger] self.plugins@[i].name@, name@),
            r.1 ==> r.0 < self.plugins@.len() && self.plugins@[r.0 as int].name@ == name@,
            !r.1 ==> forall|i: int| r.0 <= i < self.plugins@.len() ==> lex_lt(name@, #[trigger] self.plugins@[i].name@),
            r.1 == self.view().dom().contains(name@),
    {
        let mut i: usize = 0;
        while i < self.plugins.len()
            invariant
                self.wf(),
                i <= self.plugins@.len(),
                forall|k: int| 0 <= k < i ==> lex_lt(#[trigger] self.plugins@[k].name@, name@),
            decreases self.plugins.len() - i,
        {
            let c = lex_compare(self.plugins[i].name.as_str(), name);
            if c == 0 {
                proof {
                    self.lemma_view_at(i as int);
                }
                return (i, true);
            }
            if c == 1 {
                proof {
                    assert forall|k: int| i <= k < self.plugins@.len() implies lex_lt(name@, #[trigger] self.plugins@[k].name@) by {
                        if k > i {
                            lemma_lex_lt_transitive(name@, self.plugins@[i as int].name@, self.plugins@[k].name@);
                        }
                    }
                    if self.view().dom().contains(name@) {
                        let j = choose|j: int| 0 <= j < self.plugins@.len() && self.plugins@[j].name@ == name@;
                        lemma_lex_lt_total(name@, name@);
                        if j < i {
                            assert(lex_lt(self.plugins@[j].name@, name@));
                        } else {
                            assert(lex_lt(name@, self.plugins@[j].name@));
                        }
                    }
                }
                return (i, false);
            }
            i = i + 1;
        }
        proof {
            if self.view().dom().contains(name@) {
                let j = choose|j: int| 0 <= j < self.plugins@.len() && self.plugins@[j].name@ == name@;
                lemma_lex_lt_total(name@, name@);
                assert(lex_lt(self.plugins@[j].name@, name@));
            }
        }
        (i, false)
    }

    /// Installs a plugin from its parsed manifest, found in `plugin_dir`.
    ///
    /// The manifest is validated first (its errors are returned as they
    /// are); a plugin whose name is installed already is refused with
    /// `InvalidArguments`. A new plugin starts `Enabled`.
    pub fn install(&mut self, manifest: PluginManifest, plugin_dir: String) -> (r: Result<
        (),
        AgentError,
    >)
        requires
            old(self).wf(),
        ensures
            final(self).wf(),
            match manifest_refusal(manifest) {
                Some(msg) => {
                    &&& r matches Err(AgentError::InvalidArguments(m)) && m@ == msg
                    &&& final(self).view() == old(self).view()
                },
                None => if old(self).view().dom().contains(manifest.name@) {
                    &&& r matches Err(AgentError::InvalidArguments(m)) && m@ == "plugin `"@
                        + manifest.name@ + "` is already installed"@
                    &&& final(self).view() == old(self).view()
                } else {
                    &&& r is Ok
                    &&& final(self).view() == old(self).view().insert(
                        manifest.name@,
                        Installed { manifest, state: PluginState::Enabled, path: plugin_dir@ },
                    )
                },
            },
    {
        match manifest.validate() {
            Ok(()) => {},
            Err(e) => {
                return Err(e);
            },
        }
        let (pos, found) = self.locate(manifest.name.as_str());
        if found {
            let mut m = String::from_str("plugin `");
            m.append(manifest.name.as_str());
            m.append("` is already installed");
            return Err(AgentError::InvalidArguments(m));
        }
        let ghost old_plugins = self.plugins@;
        let ghost name = manifest.name@;
        let ghost ins = Installed { manifest, state: PluginState::Enabled, path: plugin_dir@ };
        let entry = Entry { name: manifest.name.clone(), manifest, state: PluginState::Enabled, path: plugin_dir };
        self.plugins.insert(pos, entry);
        proof {
            let np = self.plugins@;
            assert(np =~= old_plugins.subrange(0, pos as int).push(np[pos as int]) + old_plugins.subrange(pos as int, old_plugins.len() as int));
            assert forall|i: int, j: int| 0 <= i < j < np.len() implies lex_lt(#[trigger] np[i].name@, #[trigger] np[j].name@) by {
                if j < pos {
                    assert(np[i] == old_plugins[i] && np[j] == old_plugins[j]);
                } else if j == pos {
                    assert(np[i] == old_plugins[i]);
                } else if i == pos {
                    assert(np[j] == old_plugins[j - 1]);
                } else if i < pos {
                    assert(np[i] == old_plugins[i] && np[j] == old_plugins[j - 1]);
                    lemma_lex_lt_transitive(np[i].name@, name, np[j].name@);
                } else {
                    assert(np[i] == old_plugins[i - 1] && np[j] == old_plugins[j - 1]);
                }
            }
            assert(self.wf());
            assert forall|k: Seq<char>| #[trigger] self.view().dom().contains(k) == old(self).view().insert(name, ins).dom().contains(k) by {
                if k == name {
                    assert(np[pos as int].name@ == k);
                } else if old(self).view().dom().contains(k) {
                    let j = choose|j: int| 0 <= j < old_plugins.len() && old_plugins[j].name@ == k;
                    if j < pos {
                        assert(np[j] == old_plugins[j]);
                    } else {
                        assert(np[j + 1] == old_plugins[j]);
                    }
                } else if self.view().dom().contains(k) {
                    let j = choose|j: int| 0 <= j < np.len() && np[j].name@ == k;
                    if j < pos {
                        assert(np[j] == old_plugins[j]);
                    } else if j > pos {
                        assert(np[j] == old_plugins[j - 1]);
                    }
                }
            }
            assert forall|k: Seq<char>| #[trigger] self.view().dom().contains(k) implies self.view()[k] == old(self).view().insert(name, ins)[k] by {
                let j = choose|j: int| 0 <= j < np.len() && np[j].name@ == k;
                self.lemma_view_at(j);
                if j < pos {
                    assert(np[j] == old_plugins[j]);
                    old(self).lemma_view_at(j);
                } else if j > pos {
                    assert(np[j] == old_plugins[j - 1]);
                    old(self).lemma_view_at(j - 1);
                }
            }
            assert(self.view() =~= old(self).view().insert(name, ins));
        }
        Ok(())
    }

    /// Uninstalls a plugin; refused with `InvalidArguments` when it is not installed.
    pub fn uninstall(&mut self, name: &str) -> (r: Result<(), AgentError>)
        requires
            old(self).wf(),
        ensures
            final(self).wf(),
            old(self).view().dom().contains(name@) ==> r is Ok && final(self).view()
                == old(self).view().remove(name@),
            !old(self).view().dom().contains(name@) ==> (r matches Err(AgentError::InvalidArguments(m))
                && m@ == not_installed_message(name@)) && final(self).view() == old(self).view(),
    {
        let (pos, found) = self.locate(name);
        if !found {
            let mut m = String::from_str("plugin `");
            m.append(name);
            m.append("` is not installed");
            return Err(AgentError::InvalidArguments(m));
        }
        let ghost old_plugins = self.plugins@;
        let _ = self.plugins.remove(pos);
        proof {
            let np = self.plugins@;
            assert(np =~= old_plugins.subrange(0, pos as int) + old_plugins.subrange(pos + 1, old_plugins.len() as int));
            assert forall|i: int, j: int| 0 <= i < j < np.len() implies lex_lt(#[trigger] np[i].name@, #[trigger] np[j].name@) by {
                if j < pos {
                    assert(np[i] == old_plugins[i] && np[j] == old_plugins[j]);
                } else if i < pos {
                    assert(np[i] == old_plugins[i] && np[j] == old_plugins[j + 1]);
                } else {
                    assert(np[i] == old_plugins[i + 1] && np[j] == old_plugins[j + 1]);
                }
            }
            assert(self.wf());
            assert forall|k: Seq<char>| #[trigger] self.view().dom().contains(k) == old(self).view().remove(name@).dom().contains(k) by {
                if self.view().dom().contains(k) {
                    let j = choose|j: int| 0 <= j < np.len() && np[j].name@ == k;
                    if j < pos {
                        assert(np[j] == old_plugins[j]);
                        old(self).lemma_view_at(j);
                        assert(lex_lt(k, name@));
                    } else {
                        assert(np[j] == old_plugins[j + 1]);
                        old(self).lemma_view_at(j + 1);
                        assert(lex_lt(name@, k));
                    }
                    lemma_lex_lt_total(k, k);
                }
                if old(self).view().remove(name@).dom().contains(k) {
                    let j = choose|j: int| 0 <= j < old_plugins.len() && old_plugins[j].name@ == k;
                    if j < pos {
                        assert(np[j] == old_plugins[j]);
                    } else if j > pos {
                        assert(np[j - 1] == old_plugins[j]);
                    }
                }
            }
            assert forall|k: Seq<char>| #[trigger] self.view().dom().contains(k) implies self.view()[k] == old(self).view().remove(name@)[k] by {
                let j = choose|j: int| 0 <= j < np.len() && np[j].name@ == k;
                self.lemma_view_at(j);
                if j < pos {
                    assert(np[j] == old_plugins[j]);
                    old(self).lemma_view_at(j);
                } else {
                    assert(np[j] == old_plugins[j + 1]);
                    old(self).lemma_view_at(j + 1);
                }
            }
            assert(self.view() =~= old(self).view().remove(name@));
        }
        Ok(())
    }

    fn set_state(&mut self, pos: usize, state: PluginState)
        requires
            old(self).wf(),
            pos < old(self).plugins@.len(),
            state != PluginState::NotInstalled,
        ensures
            final(self).wf(),
            final(self).view() == old(self).view().insert(
                old(self).plugins@[pos as int].name@,
                Installed { state, ..old(self).view()[old(self).plugins@[pos as int].name@] },
            ),
    {
        let ghost old_plugins = self.plugins@;
        let ghost name = self.plugins@[pos as int].name@;
        proof {
            self.lemma_view_at(pos as int);
        }
        let mut e = self.plugins.remove(pos);
        e.state = state;
        self.plugins.insert(pos, e);
        proof {
            let np = self.plugins@;
            assert forall|i: int| 0 <= i < np.len() implies (#[trigger] np[i]).name@ == old_plugins[i].name@ && (i != pos ==> np[i] == old_plugins[i]) by {
                if i < pos {
                } else if i > pos {
                }
            }
            assert forall|i: int, j: int| 0 <= i < j < np.len() implies lex_lt(#[trigger] np[i].name@, #[trigger] np[j].name@) by {
                assert(np[i].name@ == old_plugins[i].name@);
                assert(np[j].name@ == old_plugins[j].name@);
            }
            assert(self.wf());
            let ins = Installed { state, ..old(self).view()[name] };
            assert forall|k: Seq<char>| #[trigger] self.view().dom().contains(k) == old(self).view().insert(name, ins).dom().contains(k) by {
                if self.view().dom().contains(k) {
                    let j = choose|j: int| 0 <= j < np.len() && np[j].name@ == k;
                    assert(old_plugins[j].name@ == k);
                }
                if old(self).view().dom().contains(k) {
                    let j = choose|j: int| 0 <= j < old_plugins.len() && old_plugins[j].name@ == k;
                    assert(np[j].name@ == k);
                }
            }
            assert forall|k: Seq<char>| #[trigger] self.view().dom().contains(k) implies self.view()[k] == old(self).view().insert(name, ins)[k] by {
                let j = choose|j: int| 0 <= j < np.len() && np[j].name@ == k;
                self.lemma_view_at(j);
                if j != pos {
                    old(self).lemma_view_at(j);
                    lemma_lex_lt_total(k, name);
                    if j < pos {
                        assert(lex_lt(old_plugins[j].name@, old_plugins[pos as int].name@));
                    } else {
                        assert(lex_lt(old_plugins[pos as int].name@, old_plugins[j].name@));
                    }
                }
            }
            assert(self.view() =~= old(self).view().insert(name, ins));
        }
    }

    /// Enables a disabled plugin; refused with `InvalidArguments` when it is
    /// not installed or already enabled.
    pub fn enable(&mut self, name: &str) -> (r: Result<(), AgentError>)
        requires
            old(self).wf(),
        ensures
            final(self).wf(),
            !old(self).view().dom().contains(name@) ==> (r matches Err(AgentError::InvalidArguments(m))
                && m@ == not_installed_message(name@)) && final(self).view() == old(self).view(),
            old(self).spec_state(name@) == PluginState::Enabled ==> (r matches Err(AgentError::InvalidArguments(m))
                && m@ == "plugin `"@ + name@ + "` is already enabled"@) && final(self).view() == old(self).view(),
            old(self).spec_state(name@) == PluginState::Disabled ==> r is Ok && final(self).view()
                == old(self).view().insert(name@, Installed { state: PluginState::Enabled, ..old(self).view()[name@] }),
    {
        let (pos, found) = self.locate(name);
        if !found {
            let mut m = String::from_str("plugin `");
            m.append(name);
            m.append("` is not installed");
            return Err(AgentError::InvalidArguments(m));
        }
        proof {
            self.lemma_view_at(pos as int);
        }
        if self.plugins[pos].state == PluginState::Enabled {
            let mut m = String::from_str("plugin `");
            m.append(name);
            m.append("` is already enabled");
            return Err(AgentError::InvalidArguments(m));
        }
        self.set_state(pos, PluginState::Enabled);
        Ok(())
    }

    /// Disables an enabled plugin; refused with `InvalidArguments` when it is
    /// not installed or already disabled.
    pub fn disable(&mut self, name: &str) -> (r: Result<(), AgentError>)
        requires
            old(self).wf(),
        ensures
            final(self).wf(),
            !old(self).view().dom().contains(name@) ==> (r matches Err(AgentError::InvalidArguments(m))
                && m@ == not_installed_message(name@)) && final(self).view() == old(self).view(),
            old(self).spec_state(name@) == PluginState::Disabled ==> (r matches Err(AgentError::InvalidArguments(m))
                && m@ == "plugin `"@ + name@ + "` is already disabled"@) && final(self).view() == old(self).view(),
            old(self).spec_state(name@) == PluginState::Enabled ==> r is Ok && final(self).view()
                == old(self).view().insert(name@, Installed { state: PluginState::Disabled, ..old(self).view()[name@] }),
    {
        let (pos, found) = self.locate(name);
        if !found {
            let mut m = String::from_str("plugin `");
            m.append(name);
            m.append("` is not installed");
            return Err(AgentError::InvalidArguments(m));
        }
        proof {
            self.lemma_view_at(pos as int);
        }
        if self.plugins[pos].state == PluginState::Disabled {
            let mut m = String::from_str("plugin `");
            m.append(name);
            m.append("` is already disabled");
            return Err(AgentError::InvalidArguments(m));
        }
        self.set_state(pos, PluginState::Disabled);
        Ok(())
    }

    /// The state of a plugin (`NotInstalled` when absent).
    pub fn state(&self, name: &str) -> (s: PluginState)
        requires
            self.wf(),
        ensures
            s == self.spec_state(name@),
    {
        let (pos, found) = self.locate(name);
        if found {
            proof {
                self.lemma_view_at(pos as int);
            }
            self.plugins[pos].state
        } else {
            PluginState::NotInstalled
        }
    }

    /// The installed plugins with their states and paths, sorted by name.
    pub fn list(&self) -> (r: Vec<(String, PluginState, String)>)
        requires
            self.wf(),
        ensures
            r@.len() == self.view().dom().len(),
            forall|i: int, j: int| 0 <= i < j < r@.len() ==> lex_lt(#[trigger] r@[i].0@, #[trigger] r@[j].0@),
            forall|i: int| 0 <= i < r@.len() ==> self.view().dom().contains(#[trigger] r@[i].0@)
                && self.view()[r@[i].0@].state == r@[i].1 && self.view()[r@[i].0@].path == r@[i].2@,
            forall|k: Seq<char>| self.view().dom().contains(k) ==> exists|i: int| 0 <= i < r@.len() && #[trigger] r@[i].0@ == k,
    {
        let mut r: Vec<(String, PluginState, String)> = Vec::new();
        let mut i: usize = 0;
        while i < self.plugins.len()
            invariant
                self.wf(),
                i <= self.plugins@.len(),
                r@.len() == i,
                forall|k: int| 0 <= k < i ==> (#[trigger] r@[k]).0@ == self.plugins@[k].name@
                    && r@[k].1 == self.plugins@[k].state && r@[k].2@ == self.plugins@[k].path@,
            decreases self.plugins.len() - i,
        {
            let e = &self.plugins[i];
            r.push((e.name.clone(), e.state, e.path.clone()));
            i = i + 1;
        }
        proof {
            assert forall|k: int| 0 <= k < r@.len() implies self.view().dom().contains(#[trigger] r@[k].0@)
                && self.view()[r@[k].0@].state == r@[k].1 && self.view()[r@[k].0@].path == r@[k].2@ by {
                self.lemma_view_at(k);
            }
            assert forall|k: Seq<char>| self.view().dom().contains(k) implies exists|i: int| 0 <= i < r@.len() && #[trigger] r@[i].0@ == k by {
                let j = choose|j: int| 0 <= j < self.plugins@.len() && self.plugins@[j].name@ == k;
                assert(r@[j].0@ == k);
            }
            let names = self.plugins@.map_values(|e: Entry| e.name@);
            assert(r@.map_values(|t: (String, PluginState, String)| t.0@) =~= names);
            assert forall|i: int, j: int| 0 <= i < j < names.len() implies names[i] != names[j] by {
                lemma_lex_lt_total(names[i], names[i]);
                assert(lex_lt(self.plugins@[i].name@, self.plugins@[j].name@));
            }
            names.unique_seq_to_set();
            assert(names.to_set() =~= self.view().dom()) by {
                assert forall|k: Seq<char>| names.to_set().contains(k) == self.view().dom().contains(k) by {
                    if self.view().dom().contains(k) {
                        let j = choose|j: int| 0 <= j < self.plugins@.len() && self.plugins@[j].name@ == k;
                        assert(names[j] == k);
                    }
                }
            }
        }
        r
    }

    /// The manifest of an installed plugin.
    pub fn manifest(&self, name: &str) -> (r: Option<&PluginManifest>)
        requires
            self.wf(),
        ensures
            match r {
                Some(m) => self.view().dom().contains(name@) && *m == self.view()[name@].manifest,
                None => !self.view().dom().contains(name@),
            },
    {
        let (pos, found) = self.locate(name);
        if found {
            proof {
                self.lemma_view_at(pos as int);
            }
            Some(&self.plugins[pos].manifest)
        } else {
            None
        }
    }

    /// The install path of an installed plugin.
    pub fn install_path(&self, name: &str) -> (r: Option<&String>)
        requires
            self.wf(),
        ensures
            match r {
                Some(p) => self.view().dom().contains(name@) && p@ == self.view()[name@].path,
                None => !self.view().dom().contains(name@),
            },
    {
        let (pos, found) = self.locate(name);
        if found {
            proof {
                self.lemma_view_at(pos as int);
            }
            Some(&self.plugins[pos].path)
        } else {
            None
        }
    }

    /// Whether a plugin is installed, enabled or not.
    pub fn is_installed(&self, name: &str) -> (r: bool)
        requires
            self.wf(),
        ensures
            r == self.view().dom().contains(name@),
    {
        let (_, found) = self.locate(name);
        found
    }

    /// Whether a plugin is installed and enabled.
    pub fn is_enabled(&self, name: &str) -> (r: bool)
        requires
            self.wf(),
        ensures
            r == (self.spec_state(name@) == PluginState::Enabled),
    {
        self.state(name) == PluginState::Enabled
    }
}

/// Installing a plugin and then uninstalling it leaves the installed set as it was.
pub proof fn law_install_then_uninstall_restores(
    before: Map<Seq<char>, Installed>,
    name: Seq<char>,
    entry: Installed,
)
    requires
        !before.dom().contains(name),
    ensures
        before.insert(name, entry).remove(name) == before,
{
    assert(before.insert(name, entry).remove(name) =~= before);
}

/// Disabling an enabled plugin and enabling it again gives back the same record.
pub proof fn law_disable_then_enable_restores(m: Map<Seq<char>, Installed>, name: Seq<char>)
    requires
        m.dom().contains(name),
        m[name].state == PluginState::Enabled,
    ensures
        ({
            let d = m.insert(name, Installed { state: PluginState::Disabled, ..m[name] });
            d.insert(name, Installed { state: PluginState::Enabled, ..d[name] }) == m
        }),
{
    let d = m.insert(name, Installed { state: PluginState::Disabled, ..m[name] });
    assert(d.insert(name, Installed { state: PluginState::Enabled, ..d[name] }) =~= m);
}

/// An installed plugin is enabled or disabled: `NotInstalled` is the state
/// of exactly the names that are not installed.
pub proof fn law_installed_plugin_is_enabled_or_disabled(l: PluginLifecycle, name: Seq<char>)
    requires
        l.wf(),
    ensures
        l.view().dom().contains(name) <==> l.spec_state(name) != PluginState::NotInstalled,
{
    if l.view().dom().contains(name) {
        let j = choose|j: int| 0 <= j < l.plugins@.len() && l.plugins@[j].name@ == name;
        l.lemma_view_at(j);
    }
}

} // verus!
