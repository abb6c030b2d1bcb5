//! The registry of installed extensions and of the ones running.
//!
//! Extensions are separate programs; starting, stopping and talking to them is
//! the caller's work. The registry decides what to do and records the outcome.

use vstd::prelude::*;
use crate::text::str_eq;

verus! {

/// A setting an extension declares.
#[derive(Clone, Debug)]
pub struct ExtensionSettingDef {
    pub key: String,
    pub setting_type: String,
    pub label: String,
    pub default: String,
}

/// The description file an extension ships in its own directory.
#[derive(Clone, Debug)]
pub struct ExtensionManifest {
    pub id: String,
    pub name: String,
    pub binary: String,
    pub description: String,
    pub version: String,
    pub settings: Vec<ExtensionSettingDef>,
}

/// What the user interface is told about an extension.
#[derive(Clone, Debug)]
pub struct ExtensionInfo {
    pub id: String,
    pub name: String,
    pub description: String,
    pub version: String,
    pub running: bool,
    pub settings: Vec<ExtensionSettingDef>,
}

pub struct SettingDefView {
    pub key: Seq<char>,
    pub setting_type: Seq<char>,
    pub label: Seq<char>,
    pub default: Seq<char>,
}

pub struct ManifestView {
    pub id: Seq<char>,
    pub name: Seq<char>,
    pub binary: Seq<char>,
    pub description: Seq<char>,
    pub version: Seq<char>,
    pub settings: Seq<SettingDefView>,
}

pub struct InfoView {
    pub id: Seq<char>,
    pub name: Seq<char>,
    pub description: Seq<char>,
    pub version: Seq<char>,
    pub running: bool,
    pub settings: Seq<SettingDefView>,
}

impl View for ExtensionSettingDef {
    type V = SettingDefView;

    open spec fn view(&self) -> SettingDefView {
        SettingDefView {
            key: self.key@,
            setting_type: self.setting_type@,
            label: self.label@,
            default: self.default@,
        }
    }
}

pub open spec fn settings_view(v: Seq<ExtensionSettingDef>) -> Seq<SettingDefView> {
    v.map_values(|d: ExtensionSettingDef| d@)
}

impl View for ExtensionManifest {
    type V = ManifestView;

    open spec fn view(&self) -> ManifestView {
        ManifestView {
            id: self.id@,
            name: self.name@,
            binary: self.binary@,
            description: self.description@,
            version: self.version@,
            settings: settings_view(self.settings@),
        }
    }
}

impl View for ExtensionInfo {
    type V = InfoView;

    open spec fn view(&self) -> InfoView {
        InfoView {
            id: self.id@,
            name: self.name@,
            description: self.description@,
            version: self.version@,
            running: self.running,
            settings: settings_view(self.settings@),
        }
    }
}

impl ExtensionSettingDef {
    /// A copy with the same contents.
    pub fn copy_of(&self) -> (r: ExtensionSettingDef)
        ensures
            r@ == self@,
    {
        ExtensionSettingDef {
            key: self.key.clone(),
            setting_type: self.setting_type.clone(),
            label: self.label.clone(),
            default: self.default.clone(),
        }
    }
}

fn copy_settings(v: &Vec<ExtensionSettingDef>) -> (r: Vec<ExtensionSettingDef>)
    ensures
        settings_view(r@) == settings_view(v@),
{
    let mut out: Vec<ExtensionSettingDef> = Vec::new();
    let mut i: usize = 0;
    while i < v.len()
        invariant
            i <= v.len(),
            settings_view(out@) == settings_view(v@.subrange(0, i as int)),
        decreases v.len() - i,
    {
        let ghost before = out@;
        out.push(v[i].copy_of());
        assert(settings_view(out@) == settings_view(before).push(v@[i as int]@));
        assert(v@.subrange(0, i + 1) == v@.subrange(0, i as int).push(v@[i as int]));
        i = i + 1;
    }
    assert(v@.subrange(0, v.len() as int) == v@);
    out
}

impl ExtensionManifest {
    /// A copy with the same contents.
    pub fn copy_of(&self) -> (r: ExtensionManifest)
        ensures
            r@ == self@,
    {
        ExtensionManifest {
            id: self.id.clone(),
            name: self.name.clone(),
            binary: self.binary.clone(),
            description: self.description.clone(),
            version: self.version.clone(),
            settings: copy_settings(&self.settings),
        }
    }
}

/// The info shown for a manifest.
pub open spec fn info_of(m: ManifestView, running: bool) -> InfoView {
    InfoView {
        id: m.id,
        name: m.name,
        description: m.description,
        version: m.version,
        running,
        settings: m.settings,
    }
}

/// What starting an extension calls for.
#[derive(Debug)]
pub enum StartPlan {
    /// It already runs; nothing to do.
    AlreadyRunning,
    /// No extension with that id is installed ("Extension not found").
    NotFound,
    /// Launch the manifest's binary from the extension's own directory.
    Launch { id: String, binary: String },
}

/// Installed extensions (one manifest per id) and the ids of those running.
pub struct ExtensionRegistry {
    manifests: Vec<ExtensionManifest>,
    running: Vec<String>,
}

pub open spec fn manifests_view(v: Seq<ExtensionManifest>) -> Seq<ManifestView> {
    v.map_values(|m: ExtensionManifest| m@)
}

pub open spec fn ids_unique(v: Seq<ManifestView>) -> bool {
    forall|i: int, j: int| 0 <= i < v.len() && 0 <= j < v.len() && i != j ==> (#[trigger] v[i]).id != (#[trigger] v[j]).id
}

pub open spec fn names_unique(v: Seq<Seq<char>>) -> bool {
    forall|i: int, j: int| 0 <= i < v.len() && 0 <= j < v.len() && i != j ==> #[trigger] v[i] != #[trigger] v[j]
}

/// The manifest with the given id, if one is installed.
pub open spec fn manifest_with(v: Seq<ManifestView>, id: Seq<char>) -> Option<ManifestView> {
    if exists|i: int| 0 <= i < v.len() && (#[trigger] v[i]).id == id {
        Some(v[choose|i: int| 0 <= i < v.len() && (#[trigger] v[i]).id == id])
    } else {
        None
    }
}

impl ExtensionRegistry {
    pub closed spec fn manifests(&self) -> Seq<ManifestView> {
        manifests_view(self.manifests@)
    }

    pub closed spec fn running_ids(&self) -> Seq<Seq<char>> {
        self.running@.map_values(|s: String| s@)
    }

    /// Manifest ids are unique, and so are running ids.
    pub open spec fn wf(&self) -> bool {
        ids_unique(self.manifests()) && names_unique(self.running_ids())
    }

    /// Whether the extension with the given id runs.
    pub open spec fn runs(&self, id: Seq<char>) -> bool {
        self.running_ids().contains(id)
    }

    /// An empty registry.
    pub fn new() -> (r: ExtensionRegistry)
        ensures
            r.wf(),
            r.manifests() == Seq::<ManifestView>::empty(),
            r.running_ids() == Seq::<Seq<char>>::empty(),
    {
        let r = ExtensionRegistry { manifests: Vec::new(), running: Vec::new() };
        assert(r.manifests() =~= Seq::<ManifestView>::empty());
        assert(r.running_ids() =~= Seq::<Seq<char>>::empty());
        r
    }

    /// Forgets every manifest before the extensions directory is read again;
    /// the running extensions stay recorded.
    pub fn clear_manifests(&mut self)
        requires
            old(self).wf(),
        ensures
            final(self).wf(),
            final(self).manifests() == Seq::<ManifestView>::empty(),
            final(self).running_ids() == old(self).running_ids(),
    {
        self.manifests = Vec::new();
        assert(self.manifests() =~= Seq::<ManifestView>::empty());
    }

    fn index_of(&self, id: &str) -> (r: Option<usize>)
        ensures
            match r {
                Some(i) => i < self.manifests@.len() && self.manifests()[i as int].id == id@,
                None => forall|i: int| 0 <= i < self.manifests().len() ==> (#[trigger] self.manifests()[i]).id != id@,
            },
    {
        let mut i: usize = 0;
        while i < self.manifests.len()
            invariant
                i <= self.manifests@.len(),
                forall|j: int| 0 <= j < i ==> (#[trigger] self.manifests()[j]).id != id@,
            decreases self.manifests.len() - i,
        {
            if str_eq(self.manifests[i].id.as_str(), id) {
                return Some(i);
            }
            i = i + 1;
        }
        None
    }

    /// Records a manifest, replacing the one with the same id if there is one.
    pub fn insert_manifest(&mut self, m: ExtensionManifest)
        requires
            old(self).wf(),
        ensures
            final(self).wf(),
            final(self).running_ids() == old(self).running_ids(),
            manifest_with(old(self).manifests(), m.id@) is None ==> final(self).manifests() == old(self).manifests().push(m@),
            manifest_with(old(self).manifests(), m.id@) is Some ==> exists|i: int| 0 <= i < old(self).manifests().len()
                && (#[trigger] old(self).manifests()[i]).id == m.id@
                && final(self).manifests() == old(self).manifests().update(i, m@),
    {
        let ghost mv = m@;
        match self.index_of(m.id.as_str()) {
            Some(i) => {
                self.manifests.set(i, m);
                assert(self.manifests() =~= old(self).manifests().update(i as int, mv));
                assert(old(self).manifests()[i as int].id == mv.id);
            },
            None => {
                self.manifests.push(m);
                assert(self.manifests() =~= old(self).manifests().push(mv));
                assert(manifest_with(old(self).manifests(), mv.id) is None);
            },
        }
    }

    /// The manifest with the given id, if one is installed.
    pub fn manifest(&self, id: &str) -> (r: Option<&ExtensionManifest>)
        requires
            self.wf(),
        ensures
            match r {
                Some(m) => manifest_with(self.manifests(), id@) == Some(m@),
                None => manifest_with(self.manifests(), id@) is None,
            },
    {
        match self.index_of(id) {
            Some(i) => {
                let ghost v = self.manifests();
                let ghost k = choose|k: int| 0 <= k < v.len() && (#[trigger] v[k]).id == id@;
                assert(k == i);
                Some(&self.manifests[i])
            },
            None => None,
        }
    }

    fn running_index(&self, id: &str) -> (r: Option<usize>)
        ensures
            match r {
                Some(i) => i < self.running@.len() && self.running_ids()[i as int] == id@,
                None => !self.running_ids().contains(id@),
            },
    {
        let mut i: usize = 0;
        while i < self.running.len()
            invariant
                i <= self.running@.len(),
                forall|j: int| 0 <= j < i ==> #[trigger] self.running_ids()[j] != id@,
            decreases self.running.len() - i,
        {
            if str_eq(self.running[i].as_str(), id) {
                return Some(i);
            }
            i = i + 1;
        }
        None
    }

    /// Whether the extension with the given id runs.
    pub fn is_running(&self, id: &str) -> (r: bool)
        ensures
            r == self.runs(id@),
    {
        self.running_index(id).is_some()
    }

    /// The info of every installed extension, in registry order, with
    /// whether it runs.
    pub fn list(&self) -> (r: Vec<ExtensionInfo>)
        ensures
            r@.len() == self.manifests().len(),
            forall|i: int| 0 <= i < r@.len() ==> (#[trigger] r@[i])@ == info_of(self.manifests()[i], self.runs(self.manifests()[i].id)),
    {
        let mut out: Vec<ExtensionInfo> = Vec::new();
        let mut i: usize = 0;
        while i < self.manifests.len()
            invariant
                i <= self.manifests@.len(),
                out@.len() == i,
                forall|j: int| 0 <= j < i ==> (#[trigger] out@[j])@ == info_of(self.manifests()[j], self.runs(self.manifests()[j].id)),
            decreases self.manifests.len() - i,
        {
            let m = &self.manifests[i];
            let running = self.is_running(m.id.as_str());
            out.push(ExtensionInfo {
                id: m.id.clone(),
                name: m.name.clone(),
                description: m.description.clone(),
                version: m.version.clone(),
                running,
                settings: copy_settings(&m.settings),
            });
            i = i + 1;
        }
        out
    }

    /// Whether a search has to start the extension first: unless it is
    /// installed and running.
    pub fn needs_start(&self, id: &str) -> (r: bool)
        requires
            self.wf(),
        ensures
            r == !(manifest_with(self.manifests(), id@) is Some && self.runs(id@)),
    {
        match self.manifest(id) {
            Some(_) => !self.is_running(id),
            None => true,
        }
    }

    /// What starting the extension with the given id calls for.
    pub fn start_plan(&self, id: &str) -> (r: StartPlan)
        requires
            self.wf(),
        ensures
            self.runs(id@) ==> r is AlreadyRunning,
            !self.runs(id@) && manifest_with(self.manifests(), id@) is None ==> r is NotFound,
            !self.runs(id@) && manifest_with(self.manifests(), id@) is Some ==> match r {
                StartPlan::Launch { id: lid, binary } => lid@ == manifest_with(self.manifests(), id@)->0.id
                    && binary@ == manifest_with(self.manifests(), id@)->0.binary,
                _ => false,
            },
    {
        if self.is_running(id) {
            return StartPlan::AlreadyRunning;
        }
        match self.manifest(id) {
            Some(m) => StartPlan::Launch { id: m.id.clone(), binary: m.binary.clone() },
            None => StartPlan::NotFound,
        }
    }

    /// Records that the extension with the given id was launched.
    pub fn mark_running(&mut self, id: &str)
        requires
            old(self).wf(),
        ensures
            final(self).wf(),
            final(self).manifests() == old(self).manifests(),
            final(self).runs(id@),
            forall|other: Seq<char>| other != id@ ==> (final(self).runs(other) == old(self).runs(other)),
    {
        match self.running_index(id) {
            Some(i) => {
                assert(self.running_ids()[i as int] == id@);
            },
            None => {
                let ghost before = self.running_ids();
                self.running.push(crate::text::owned(id));
                assert(self.running_ids() =~= before.push(id@));
                assert(self.running_ids()[before.len() as int] == id@);
                assert forall|other: Seq<char>| other != id@ implies (self.runs(other) == old(self).runs(other)) by {
                    if before.contains(other) {
                        let k = choose|k: int| 0 <= k < before.len() && before[k] == other;
                        assert(self.running_ids()[k] == other);
                    }
                    if self.running_ids().contains(other) {
                        let k = choose|k: int| 0 <= k < self.running_ids().len() && self.running_ids()[k] == other;
                        assert(k < before.len());
                        assert(before[k] == other);
                    }
                }
            },
        }
    }

    /// Records that the extension with the given id is stopped; returns
    /// whether it was running (its process is then to be ended).
    pub fn stop(&mut self, id: &str) -> (was_running: bool)
        requires
            old(self).wf(),
        ensures
            final(self).wf(),
            was_running == old(self).runs(id@),
            final(self).manifests() == old(self).manifests(),
            !final(self).runs(id@),
            forall|other: Seq<char>| other != id@ ==> (final(self).runs(other) == old(self).runs(other)),
    {
        match self.running_index(id) {
            Some(i) => {
                let ghost before = self.running_ids();
                self.running.remove(i);
                assert(self.running_ids() =~= before.remove(i as int));
                assert(before.contains(id@)) by {
                    assert(before[i as int] == id@);
                }
                assert forall|other: Seq<char>| self.runs(other) == (before.contains(other) && other != id@) by {
                    if self.running_ids().contains(other) {
                        let k = choose|k: int| 0 <= k < self.running_ids().len() && self.running_ids()[k] == other;
                        if k < i {
                            assert(before[k] == other);
                        } else {
                            assert(before[k + 1] == other);
                        }
                        assert(other != id@);
                    }
                    if before.contains(other) && other != id@ {
                        let k = choose|k: int| 0 <= k < before.len() && before[k] == other;
                        assert(k != i);
                        if k < i {
                            assert(self.running_ids()[k] == other);
                        } else {
                            assert(self.running_ids()[k - 1] == other);
                        }
                    }
                }
                true
            },
            None => false,
        }
    }

    /// Removes the extension with the given id: it is stopped and its
    /// manifest forgotten. Returns whether it was running.
    pub fn uninstall(&mut self, id: &str) -> (was_running: bool)
        requires
            old(self).wf(),
        ensures
            final(self).wf(),
            was_running == old(self).runs(id@),
            !final(self).runs(id@),
            manifest_with(final(self).manifests(), id@) is None,
            forall|other: Seq<char>| other != id@ ==> (final(self).runs(other) == old(self).runs(other)),
            forall|other: Seq<char>| other != id@ ==> manifest_with(final(self).manifests(), other)
                == manifest_with(old(self).manifests(), other),
    {
        let was_running = self.stop(id);
        let ghost mid = self.manifests();
        match self.index_of(id) {
            Some(i) => {
                self.manifests.remove(i);
                assert(self.manifests() =~= mid.remove(i as int));
                let ghost v = self.manifests();
                assert forall|k: int| 0 <= k < v.len() implies (#[trigger] v[k]).id != id@ by {
                    if k < i {
                        assert(v[k] == mid[k]);
                    } else {
                        assert(v[k] == mid[k + 1]);
                    }
                }
                assert forall|other: Seq<char>| other != id@ implies manifest_with(v, other) == manifest_with(mid, other) by {
                    if exists|k: int| 0 <= k < v.len() && (#[trigger] v[k]).id == other {
                        let k = choose|k: int| 0 <= k < v.len() && (#[trigger] v[k]).id == other;
                        let k2 = if k < i { k } else { k + 1 };
                        assert(mid[k2] == v[k]);
                        let c1 = choose|c: int| 0 <= c < mid.len() && (#[trigger] mid[c]).id == other;
                        let c2 = choose|c: int| 0 <= c < v.len() && (#[trigger] v[c]).id == other;
                        let c2m = if c2 < i { c2 } else { c2 + 1 };
                        assert(mid[c2m] == v[c2]);
                        assert(c1 == c2m);
                    } else {
                        if exists|k: int| 0 <= k < mid.len() && (#[trigger] mid[k]).id == other {
                            let k = choose|k: int| 0 <= k < mid.len() && (#[trigger] mid[k]).id == other;
                            assert(k != i);
                            let k2 = if k < i { k } else { k - 1 };
                            assert(v[k2] == mid[k]);
                        }
                    }
                }
            },
            None => {},
        }
        was_running
    }

    /// The ids of the running extensions, to stop them all.
    pub fn running_list(&self) -> (r: Vec<String>)
        ensures
            r@.map_values(|s: String| s@) == self.running_ids(),
    {
        let mut out: Vec<String> = Vec::new();
        let mut i: usize = 0;
        while i < self.running.len()
            invariant
                i <= self.running@.len(),
                out@.map_values(|s: String| s@) == self.running_ids().subrange(0, i as int),
            decreases self.running.len() - i,
        {
            let ghost before = out@;
            out.push(self.running[i].clone());
            assert(out@.map_values(|s: String| s@) =~= before.map_values(|s: String| s@).push(self.running_ids()[i as int]));
            i = i + 1;
        }
        assert(self.running_ids().subrange(0, self.running@.len() as int) =~= self.running_ids());
        out
    }
}

/// Recording a manifest and then looking up its id gives that manifest back.
pub proof fn lemma_insert_then_lookup(before: Seq<ManifestView>, after: Seq<ManifestView>, m: ManifestView)
    requires
        ids_unique(before),
        ids_unique(after),
        manifest_with(before, m.id) is None ==> after == before.push(m),
        manifest_with(before, m.id) is Some ==> exists|i: int| 0 <= i < before.len()
            && (#[trigger] before[i]).id == m.id && after == before.update(i, m),
    ensures
        manifest_with(after, m.id) == Some(m),
{
    if manifest_with(before, m.id) is None {
        assert(after[before.len() as int] == m);
        let c = choose|c: int| 0 <= c < after.len() && (#[trigger] after[c]).id == m.id;
        assert(c == before.len());
    } else {
        let i = choose|i: int| 0 <= i < before.len() && (#[trigger] before[i]).id == m.id && after == before.update(i, m);
        assert(after[i] == m);
        let c = choose|c: int| 0 <= c < after.len() && (#[trigger] after[c]).id == m.id;
        assert(c == i);
    }
}

} // verus!
