//! The capability-provider view of the launcher: for every app it knows of,
//! whether the app is in the catalog, installed, and set up to serve its
//! Agent API; and the capabilities and file commands the launcher offers.
//! No Agent API is probed, so none is reachable, and no app is a ready
//! provider yet.

use vstd::prelude::*;
use crate::agent_api::{entry_index, find_entry_index, AgentApiRegistryEntry, EntryView};
use crate::install::{app_artifact_on_disk, app_index, artifact_on_disk, find_app_index, Disk};
use crate::model::{LauncherApp, LauncherAppView};
use crate::order::{chars_strictly_sorted, dedup_sorted, sort_strings};
use crate::text::owned;

verus! {

/// What the launcher can tell of one app as a capability provider.
#[derive(Debug)]
pub struct ProviderAppState {
    pub app_id: String,
    pub cataloged: bool,
    pub installed: bool,
    pub api_configured: bool,
    pub api_reachable: bool,
    pub provider_ready: bool,
}

pub struct ProviderAppStateView {
    pub app_id: Seq<char>,
    pub cataloged: bool,
    pub installed: bool,
    pub api_configured: bool,
    pub api_reachable: bool,
    pub provider_ready: bool,
}

impl View for ProviderAppState {
    type V = ProviderAppStateView;

    open spec fn view(&self) -> ProviderAppStateView {
        ProviderAppStateView {
            app_id: self.app_id@,
            cataloged: self.cataloged,
            installed: self.installed,
            api_configured: self.api_configured,
            api_reachable: self.api_reachable,
            provider_ready: self.provider_ready,
        }
    }
}

impl DeepView for ProviderAppState {
    type V = ProviderAppStateView;

    open spec fn deep_view(&self) -> ProviderAppStateView {
        self@
    }
}

/// The state of the app `id`: in the catalog; installed, where the launcher
/// records it and its launch file or package is on disk; its Agent API
/// configured, where its registry entry is enabled; never reachable, so
/// never ready.
pub open spec fn provider_state(
    id: Seq<char>,
    catalog: Seq<LauncherAppView>,
    apps: Seq<LauncherAppView>,
    disk: Seq<Seq<char>>,
    entries: Seq<EntryView>,
) -> ProviderAppStateView {
    let cataloged = app_index(catalog, id) is Some;
    let installed = match app_index(apps, id) {
        Some(k) => artifact_on_disk(apps[k], disk),
        None => false,
    };
    let api_configured = match entry_index(entries, id) {
        Some(k) => entries[k].enabled,
        None => false,
    };
    ProviderAppStateView {
        app_id: id,
        cataloged,
        installed,
        api_configured,
        api_reachable: false,
        provider_ready: installed && api_configured && false,
    }
}

/// The ids of the apps of the catalog, of the launcher's apps and of the
/// registry's entries.
pub open spec fn known_ids(
    catalog: Seq<LauncherAppView>,
    apps: Seq<LauncherAppView>,
    entries: Seq<EntryView>,
) -> Seq<Seq<char>> {
    catalog.map_values(|a: LauncherAppView| a.id) + apps.map_values(|a: LauncherAppView| a.id)
        + entries.map_values(|e: EntryView| e.app_id)
}

fn push_app_ids(ids: &mut Vec<String>, apps: &Vec<LauncherApp>)
    ensures
        final(ids).deep_view() == old(ids).deep_view() + apps.deep_view().map_values(
            |a: LauncherAppView| a.id,
        ),
{
    let ghost start = ids.deep_view();
    let mut i: usize = 0;
    while i < apps.len()
        invariant
            i <= apps.len(),
            ids.deep_view() == start + apps.deep_view().subrange(0, i as int).map_values(
                |a: LauncherAppView| a.id,
            ),
        decreases apps.len() - i,
    {
        let ghost before = ids.deep_view();
        ids.push(apps[i].id.clone());
        proof {
            let s = apps.deep_view();
            assert(s.subrange(0, i + 1) =~= s.subrange(0, i as int).push(s[i as int]));
            assert(s.subrange(0, i as int).push(s[i as int]).map_values(|a: LauncherAppView| a.id)
                =~= s.subrange(0, i as int).map_values(|a: LauncherAppView| a.id).push(s[i as int].id));
            assert(ids.deep_view() =~= before.push(s[i as int].id));
        }
        i = i + 1;
    }
    assert(apps.deep_view().subrange(0, apps.len() as int) =~= apps.deep_view());
}

fn push_entry_ids(ids: &mut Vec<String>, entries: &Vec<AgentApiRegistryEntry>)
    ensures
        final(ids).deep_view() == old(ids).deep_view() + entries.deep_view().map_values(
            |e: EntryView| e.app_id,
        ),
{
    let ghost start = ids.deep_view();
    let mut i: usize = 0;
    while i < entries.len()
        invariant
            i <= entries.len(),
            ids.deep_view() == start + entries.deep_view().subrange(0, i as int).map_values(
                |e: EntryView| e.app_id,
            ),
        decreases entries.len() - i,
    {
        let ghost before = ids.deep_view();
        ids.push(entries[i].app_id.clone());
        proof {
            let s = entries.deep_view();
            assert(s.subrange(0, i + 1) =~= s.subrange(0, i as int).push(s[i as int]));
            assert(s.subrange(0, i as int).push(s[i as int]).map_values(|e: EntryView| e.app_id)
                =~= s.subrange(0, i as int).map_values(|e: EntryView| e.app_id).push(s[i as int].app_id));
            assert(ids.deep_view() =~= before.push(s[i as int].app_id));
        }
        i = i + 1;
    }
    assert(entries.deep_view().subrange(0, entries.len() as int) =~= entries.deep_view());
}

fn state_of(
    id: &String,
    catalog: &Vec<LauncherApp>,
    apps: &Vec<LauncherApp>,
    disk: &Disk,
    entries: &Vec<AgentApiRegistryEntry>,
) -> (r: ProviderAppState)
    ensures
        r@ == provider_state(id@, catalog.deep_view(), apps.deep_view(), disk.paths(), entries.deep_view()),
{
    let cataloged = find_app_index(catalog, id).is_some();
    let installed = match find_app_index(apps, id) {
        Some(k) => app_artifact_on_disk(&apps[k], disk),
        None => false,
    };
    let api_configured = match find_entry_index(entries, id) {
        Some(k) => entries[k].enabled,
        None => false,
    };
    ProviderAppState {
        app_id: id.clone(),
        cataloged,
        installed,
        api_configured,
        api_reachable: false,
        provider_ready: installed && api_configured && false,
    }
}

/// Every app the launcher knows of, once, ordered by id, with its state.
pub fn provider_app_states(
    catalog: &Vec<LauncherApp>,
    apps: &Vec<LauncherApp>,
    disk: &Disk,
    entries: &Vec<AgentApiRegistryEntry>,
) -> (r: Vec<ProviderAppState>)
    ensures
        chars_strictly_sorted(r.deep_view().map_values(|s: ProviderAppStateView| s.app_id)),
        r.deep_view().map_values(|s: ProviderAppStateView| s.app_id).to_set() == known_ids(
            catalog.deep_view(),
            apps.deep_view(),
            entries.deep_view(),
        ).to_set(),
        forall|i: int|
            0 <= i < r.len() ==> #[trigger] r.deep_view()[i] == provider_state(
                r.deep_view()[i].app_id,
                catalog.deep_view(),
                apps.deep_view(),
                disk.paths(),
                entries.deep_view(),
            ),
{
    let mut all: Vec<String> = Vec::new();
    push_app_ids(&mut all, catalog);
    push_app_ids(&mut all, apps);
    push_entry_ids(&mut all, entries);
    let ghost known = all.deep_view();
    assert(known =~= known_ids(catalog.deep_view(), apps.deep_view(), entries.deep_view()));
    let sorted = sort_strings(all);
    proof {
        assert forall|x: Seq<char>| sorted.deep_view().to_set().contains(x) == known.to_set().contains(x) by {
            vstd::seq_lib::to_multiset_contains(sorted.deep_view(), x);
            vstd::seq_lib::to_multiset_contains(known, x);
        }
        assert(sorted.deep_view().to_set() =~= known.to_set());
    }
    let ids = dedup_sorted(sorted);
    let ghost idv = ids.deep_view();
    let mut r: Vec<ProviderAppState> = Vec::new();
    let mut k: usize = 0;
    while k < ids.len()
        invariant
            k <= ids.len(),
            idv == ids.deep_view(),
            r.len() == k,
            forall|i: int|
                0 <= i < k ==> #[trigger] r.deep_view()[i] == provider_state(
                    idv[i],
                    catalog.deep_view(),
                    apps.deep_view(),
                    disk.paths(),
                    entries.deep_view(),
                ),
        decreases ids.len() - k,
    {
        let s = state_of(&ids[k], catalog, apps, disk, entries);
        let ghost before = r.deep_view();
        r.push(s);
        proof {
            assert(r.deep_view() =~= before.push(s@));
            assert(s@.app_id == idv[k as int]);
        }
        k = k + 1;
    }
    assert(r.deep_view().map_values(|s: ProviderAppStateView| s.app_id) =~= idv);
    r
}

/// The actions an agent's command file may name.
pub fn file_command_actions() -> (r: Vec<String>)
    ensures
        r.deep_view() == seq!["status"@, "scan"@, "download"@, "update"@, "launch"@, "openFolder"@],
{
    let r = vec![
        owned("status"),
        owned("scan"),
        owned("download"),
        owned("update"),
        owned("launch"),
        owned("openFolder"),
    ];
    assert(r.deep_view() =~= seq!["status"@, "scan"@, "download"@, "update"@, "launch"@, "openFolder"@]);
    r
}

/// The capabilities the launcher itself offers.
pub fn control_center_capabilities() -> (r: Vec<String>)
    ensures
        r.deep_view() == seq![
            "app.catalog.list"@,
            "app.status.read"@,
            "app.release.scan"@,
            "app.install"@,
            "app.update"@,
            "app.launch"@,
            "app.folder.open"@,
            "app.agent-api-launch"@,
        ],
{
    let r = vec![
        owned("app.catalog.list"),
        owned("app.status.read"),
        owned("app.release.scan"),
        owned("app.install"),
        owned("app.update"),
        owned("app.launch"),
        owned("app.folder.open"),
        owned("app.agent-api-launch"),
    ];
    assert(r.deep_view() =~= seq![
        "app.catalog.list"@,
        "app.status.read"@,
        "app.release.scan"@,
        "app.install"@,
        "app.update"@,
        "app.launch"@,
        "app.folder.open"@,
        "app.agent-api-launch"@,
    ]);
    r
}

} // verus!
