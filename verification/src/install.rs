//! Install state of the catalog's apps: which downloaded versions are still on
//! disk, which one is selected, and how saved state meets a new catalog.

use vstd::prelude::*;
use crate::model::{
    clone_opt, opt_view, InstalledVersion, InstalledVersionView, LauncherApp, LauncherAppView,
};
use crate::text::{chars_of, owned, same_chars, is_blank, str_is_blank};
use crate::host::{current_time, disk_of_paths, kept_by};
use crate::model::{clone_apps, clone_installed_versions, clone_release_options, ToolStatus};
use crate::catalog::{development_normalized, release_state_cleared, normalize_development_status, clear_coming_soon_release_state};

verus! {

/// The paths that were found on disk when the state was read.
pub struct Disk {
    pub existing: Vec<String>,
}

impl Disk {
    pub open spec fn paths(&self) -> Seq<Seq<char>> {
        self.existing.deep_view()
    }
}

/// Whether an optional path names a file that is on disk.
pub open spec fn on_disk(disk: Seq<Seq<char>>, path: Option<Seq<char>>) -> bool {
    match path {
        Some(p) => disk.contains(p),
        None => false,
    }
}

/// Whether the file that an app is used through is on disk: the package of a
/// wallpaper (an app with a hosted demo), the launch file of any other app.
pub open spec fn artifact_on_disk(a: LauncherAppView, disk: Seq<Seq<char>>) -> bool {
    if a.demo_url is Some {
        on_disk(disk, a.package_path)
    } else {
        on_disk(disk, a.executable_path)
    }
}

/// The same test for one of the app's downloaded versions.
pub open spec fn version_on_disk(
    a: LauncherAppView,
    iv: InstalledVersionView,
    disk: Seq<Seq<char>>,
) -> bool {
    if a.demo_url is Some {
        on_disk(disk, iv.package_path)
    } else {
        on_disk(disk, iv.executable_path)
    }
}

/// `a` switched to the downloaded version `iv`.
pub open spec fn with_version_applied(
    a: LauncherAppView,
    iv: InstalledVersionView,
) -> LauncherAppView {
    LauncherAppView {
        installed_version: Some(iv.version),
        executable_path: iv.executable_path,
        package_path: iv.package_path,
        ..a
    }
}

/// `a` with `version` recorded as the newest download, any older record of
/// the same version dropped.
pub open spec fn with_version_added(
    a: LauncherAppView,
    version: Seq<char>,
    executable_path: Option<Seq<char>>,
    package_path: Option<Seq<char>>,
    now: Seq<char>,
) -> LauncherAppView {
    LauncherAppView {
        installed_versions: seq![
            InstalledVersionView {
                version,
                executable_path,
                package_path,
                installed_at: now,
            },
        ] + a.installed_versions.filter(|iv: InstalledVersionView| iv.version != version),
        ..a
    }
}

pub open spec fn is_first_version(s: Seq<InstalledVersionView>, v: Seq<char>, i: int) -> bool {
    &&& 0 <= i < s.len()
    &&& s[i].version == v
    &&& forall|j: int| 0 <= j < i ==> s[j].version != v
}

/// The first record of version `v`, if there is one.
pub open spec fn find_version(s: Seq<InstalledVersionView>, v: Seq<char>) -> Option<
    InstalledVersionView,
> {
    if exists|i: int| is_first_version(s, v, i) {
        Some(s[choose|i: int| is_first_version(s, v, i)])
    } else {
        None
    }
}

pub proof fn lemma_find_version_at(s: Seq<InstalledVersionView>, v: Seq<char>, i: int)
    requires
        is_first_version(s, v, i),
    ensures
        find_version(s, v) == Some(s[i]),
{
    let k = choose|k: int| is_first_version(s, v, k);
    assert(is_first_version(s, v, k));
    if k < i {
        assert(s[k].version != v);
    } else if i < k {
        assert(s[i].version != v);
    }
}

pub open spec fn first_of(s: Seq<InstalledVersionView>) -> Option<InstalledVersionView> {
    if s.len() > 0 {
        Some(s[0])
    } else {
        None
    }
}

/// `normalize_install_state_with`: drops the downloads that are gone from disk,
/// records the current install where it is on disk but unrecorded, switches
/// to the selected (else installed, else newest) download, and keeps at most
/// two downloads.
pub open spec fn install_normalized(
    a: LauncherAppView,
    disk: Seq<Seq<char>>,
    now: Seq<char>,
) -> LauncherAppView {
    let a1 = LauncherAppView {
        installed_versions: a.installed_versions.filter(
            |iv: InstalledVersionView| version_on_disk(a, iv, disk),
        ),
        ..a
    };
    let a2 = match a.installed_version {
        Some(v) => if artifact_on_disk(a, disk) && find_version(a1.installed_versions, v) is None {
            with_version_added(a1, v, a.executable_path, a.package_path, now)
        } else {
            a1
        },
        None => a1,
    };
    let preferred = if a2.selected_version is Some {
        a2.selected_version
    } else {
        a2.installed_version
    };
    let chosen = match preferred {
        Some(v) => match find_version(a2.installed_versions, v) {
            Some(iv) => Some(iv),
            None => first_of(a2.installed_versions),
        },
        None => first_of(a2.installed_versions),
    };
    let a3 = match chosen {
        Some(iv) => with_version_applied(a2, iv),
        None => a2,
    };
    LauncherAppView {
        installed_versions: a3.installed_versions.take(
            if a3.installed_versions.len() > 2 {
                2
            } else {
                a3.installed_versions.len() as int
            },
        ),
        ..a3
    }
}

pub fn disk_has(disk: &Disk, path: &String) -> (r: bool)
    ensures
        r == disk.paths().contains(path@),
{
    let p = chars_of(path.as_str());
    let mut i: usize = 0;
    while i < disk.existing.len()
        invariant
            i <= disk.existing.len(),
            p@ == path@,
            forall|j: int| 0 <= j < i ==> disk.paths()[j] != path@,
        decreases disk.existing.len() - i,
    {
        let c = chars_of(disk.existing[i].as_str());
        if same_chars(&c, &p) {
            assert(disk.paths()[i as int] == path@);
            return true;
        }
        i = i + 1;
    }
    false
}

/// Whether the optional path is among the files found on disk.
pub fn path_option_on_disk(path: &Option<String>, disk: &Disk) -> (r: bool)
    ensures
        r == on_disk(disk.paths(), opt_view(*path)),
{
    match path {
        Some(p) => disk_has(disk, p),
        None => false,
    }
}

/// Whether the file an app is used through is among the files found on disk.
pub fn app_artifact_on_disk(launcher_app: &LauncherApp, disk: &Disk) -> (r: bool)
    ensures
        r == artifact_on_disk(launcher_app@, disk.paths()),
{
    if launcher_app.demo_url.is_some() {
        path_option_on_disk(&launcher_app.package_path, disk)
    } else {
        path_option_on_disk(&launcher_app.executable_path, disk)
    }
}

/// The same test for one of the app's downloads.
pub fn version_artifact_on_disk(
    launcher_app: &LauncherApp,
    installed_version: &InstalledVersion,
    disk: &Disk,
) -> (r: bool)
    ensures
        r == version_on_disk(launcher_app@, installed_version@, disk.paths()),
{
    if launcher_app.demo_url.is_some() {
        path_option_on_disk(&installed_version.package_path, disk)
    } else {
        path_option_on_disk(&installed_version.executable_path, disk)
    }
}

pub fn apply_installed_version(launcher_app: &mut LauncherApp, installed_version: &InstalledVersion)
    ensures
        final(launcher_app)@ == with_version_applied(old(launcher_app)@, installed_version@),
{
    launcher_app.installed_version = Some(installed_version.version.clone());
    launcher_app.executable_path = clone_opt(&installed_version.executable_path);
    launcher_app.package_path = clone_opt(&installed_version.package_path);
}

/// Records a download of `version` made at `now`: it leads the app's
/// downloads, and any older record of the same version is dropped.
pub fn add_installed_version_at(
    launcher_app: &mut LauncherApp,
    version: String,
    executable_path: Option<String>,
    package_path: Option<String>,
    now: &str,
)
    ensures
        final(launcher_app)@ == with_version_added(
            old(launcher_app)@,
            version@,
            opt_view(executable_path),
            opt_view(package_path),
            now@,
        ),
{
    let ghost old_versions = launcher_app.installed_versions.deep_view();
    let ghost keep = |iv: InstalledVersionView| iv.version != version@;
    let v = chars_of(version.as_str());
    let mut versions: Vec<InstalledVersion> = Vec::new();
    versions.push(
        InstalledVersion {
            version,
            executable_path,
            package_path,
            installed_at: owned(now),
        },
    );
    let ghost head = versions.deep_view();
    let mut i: usize = 0;
    while i < launcher_app.installed_versions.len()
        invariant
            i <= launcher_app.installed_versions.len(),
            old_versions == launcher_app.installed_versions.deep_view(),
            v@ == version@,
            keep == (|iv: InstalledVersionView| iv.version != version@),
            versions.deep_view() == head + old_versions.subrange(0, i as int).filter(keep),
        decreases launcher_app.installed_versions.len() - i,
    {
        let c = chars_of(launcher_app.installed_versions[i].version.as_str());
        let ghost before = versions.deep_view();
        proof {
            old_versions.subrange(0, i as int).lemma_filter_push(old_versions[i as int], keep);
            assert(old_versions.subrange(0, i + 1) =~= old_versions.subrange(0, i as int).push(
                old_versions[i as int],
            ));
        }
        if !same_chars(&c, &v) {
            versions.push(launcher_app.installed_versions[i].clone());
            assert(versions.deep_view() =~= before.push(old_versions[i as int]));
        }
        i = i + 1;
    }
    assert(old_versions.subrange(0, old_versions.len() as int) =~= old_versions);
    launcher_app.installed_versions = versions;
}

/// The index of the first record of `version`.
pub fn find_version_index(versions: &Vec<InstalledVersion>, version: &String) -> (r: Option<usize>)
    ensures
        match r {
            Some(i) => is_first_version(versions.deep_view(), version@, i as int),
            None => forall|j: int|
                0 <= j < versions.len() ==> versions.deep_view()[j].version != version@,
        },
        match r {
            Some(i) => find_version(versions.deep_view(), version@) == Some(
                versions.deep_view()[i as int],
            ),
            None => find_version(versions.deep_view(), version@) is None,
        },
{
    let v = chars_of(version.as_str());
    let mut i: usize = 0;
    while i < versions.len()
        invariant
            i <= versions.len(),
            v@ == version@,
            forall|j: int| 0 <= j < i ==> versions.deep_view()[j].version != version@,
        decreases versions.len() - i,
    {
        let c = chars_of(versions[i].version.as_str());
        if same_chars(&c, &v) {
            proof {
                lemma_find_version_at(versions.deep_view(), version@, i as int);
            }
            return Some(i);
        }
        i = i + 1;
    }
    None
}

/// Keeps the downloads whose file is on disk.
fn retain_versions_on_disk(launcher_app: &mut LauncherApp, disk: &Disk)
    ensures
        final(launcher_app)@ == (LauncherAppView {
            installed_versions: old(launcher_app)@.installed_versions.filter(
                |iv: InstalledVersionView| version_on_disk(old(launcher_app)@, iv, disk.paths()),
            ),
            ..old(launcher_app)@
        }),
{
    let ghost a = launcher_app@;
    let ghost old_versions = a.installed_versions;
    let ghost keep = |iv: InstalledVersionView| version_on_disk(a, iv, disk.paths());
    let mut kept: Vec<InstalledVersion> = Vec::new();
    let mut i: usize = 0;
    while i < launcher_app.installed_versions.len()
        invariant
            i <= launcher_app.installed_versions.len(),
            a == launcher_app@,
            old_versions == launcher_app.installed_versions.deep_view(),
            keep == (|iv: InstalledVersionView| version_on_disk(a, iv, disk.paths())),
            kept.deep_view() == old_versions.subrange(0, i as int).filter(keep),
        decreases launcher_app.installed_versions.len() - i,
    {
        let ghost before = kept.deep_view();
        proof {
            old_versions.subrange(0, i as int).lemma_filter_push(old_versions[i as int], keep);
            assert(old_versions.subrange(0, i + 1) =~= old_versions.subrange(0, i as int).push(
                old_versions[i as int],
            ));
        }
        if version_artifact_on_disk(launcher_app, &launcher_app.installed_versions[i], disk) {
            kept.push(launcher_app.installed_versions[i].clone());
            assert(kept.deep_view() =~= before.push(old_versions[i as int]));
        }
        i = i + 1;
    }
    assert(old_versions.subrange(0, old_versions.len() as int) =~= old_versions);
    launcher_app.installed_versions = kept;
}

/// Normalizes an app's install state against the files found on disk,
/// stamping a recorded install with `now`.
pub fn normalize_install_state_with(launcher_app: &mut LauncherApp, disk: &Disk, now: &str)
    ensures
        final(launcher_app)@ == install_normalized(old(launcher_app)@, disk.paths(), now@),
{
    let ghost a = launcher_app@;
    retain_versions_on_disk(launcher_app, disk);
    let ghost a1 = launcher_app@;
    if let Some(installed_version) = clone_opt(&launcher_app.installed_version) {
        if app_artifact_on_disk(launcher_app, disk) && find_version_index(
            &launcher_app.installed_versions,
            &installed_version,
        ).is_none() {
            let executable_path = clone_opt(&launcher_app.executable_path);
            let package_path = clone_opt(&launcher_app.package_path);
            add_installed_version_at(launcher_app, installed_version, executable_path, package_path, now);
        }
    }
    let ghost a2 = launcher_app@;
    let preferred = if launcher_app.selected_version.is_some() {
        clone_opt(&launcher_app.selected_version)
    } else {
        clone_opt(&launcher_app.installed_version)
    };
    let found = match &preferred {
        Some(v) => find_version_index(&launcher_app.installed_versions, v),
        None => None,
    };
    let chosen = match found {
        Some(i) => Some(i),
        None => if launcher_app.installed_versions.len() > 0 {
            Some(0)
        } else {
            None
        },
    };
    if let Some(i) = chosen {
        let installed = launcher_app.installed_versions[i].clone();
        apply_installed_version(launcher_app, &installed);
    }
    if launcher_app.installed_versions.len() > 2 {
        launcher_app.installed_versions.truncate(2);
    }
    assert(launcher_app@.installed_versions =~= install_normalized(a, disk.paths(), now@).installed_versions);
}

/// The app after one of its downloaded versions is chosen, or why it cannot
/// be.
pub open spec fn version_selected(a: LauncherAppView, v: Seq<char>, disk: Seq<Seq<char>>) -> Result<
    LauncherAppView,
    Seq<char>,
> {
    match find_version(a.installed_versions, v) {
        None => Err("Selected version is not downloaded yet."@),
        Some(iv) => if version_on_disk(a, iv, disk) {
            Ok(LauncherAppView { selected_version: Some(v), ..with_version_applied(a, iv) })
        } else {
            Err("Selected version is no longer on disk."@)
        },
    }
}

/// Switches an app to one of its downloads, checked against the files found
/// on disk.
pub fn select_installed_version_on(launcher_app: &mut LauncherApp, version: &String, disk: &Disk) -> (r:
    Result<(), String>)
    ensures
        match find_version(old(launcher_app)@.installed_versions, version@) {
            None => r matches Err(e) && e@ == "Selected version is not downloaded yet."@
                && final(launcher_app)@ == old(launcher_app)@,
            Some(iv) => if version_on_disk(old(launcher_app)@, iv, disk.paths()) {
                r is Ok && final(launcher_app)@ == (LauncherAppView {
                    selected_version: Some(version@),
                    ..with_version_applied(old(launcher_app)@, iv)
                })
            } else {
                r matches Err(e) && e@ == "Selected version is no longer on disk."@
                    && final(launcher_app)@ == old(launcher_app)@
            },
        },
{
    let found = find_version_index(&launcher_app.installed_versions, version);
    let i = match found {
        Some(i) => i,
        None => {
            return Err(owned("Selected version is not downloaded yet."));
        },
    };
    let installed = launcher_app.installed_versions[i].clone();
    if !version_artifact_on_disk(launcher_app, &installed, disk) {
        return Err(owned("Selected version is no longer on disk."));
    }
    apply_installed_version(launcher_app, &installed);
    launcher_app.selected_version = Some(version.clone());
    Ok(())
}

pub open spec fn is_first_app(s: Seq<LauncherAppView>, id: Seq<char>, i: int) -> bool {
    &&& 0 <= i < s.len()
    &&& s[i].id == id
    &&& forall|j: int| 0 <= j < i ==> s[j].id != id
}

/// The index of the first app with the given id, if there is one.
pub open spec fn app_index(s: Seq<LauncherAppView>, id: Seq<char>) -> Option<int> {
    if exists|i: int| is_first_app(s, id, i) {
        Some(choose|i: int| is_first_app(s, id, i))
    } else {
        None
    }
}

pub proof fn lemma_app_index_at(s: Seq<LauncherAppView>, id: Seq<char>, i: int)
    requires
        is_first_app(s, id, i),
    ensures
        app_index(s, id) == Some(i),
{
    let k = choose|k: int| is_first_app(s, id, k);
    assert(is_first_app(s, id, k));
    if k < i {
        assert(s[k].id != id);
    } else if i < k {
        assert(s[i].id != id);
    }
}

pub proof fn lemma_app_index_some(s: Seq<LauncherAppView>, id: Seq<char>)
    requires
        app_index(s, id) is Some,
    ensures
        is_first_app(s, id, app_index(s, id)->0),
{
}

pub proof fn lemma_app_index_none(s: Seq<LauncherAppView>, id: Seq<char>)
    ensures
        app_index(s, id) is None <==> forall|j: int| 0 <= j < s.len() ==> s[j].id != id,
{
    if app_index(s, id) is None {
        assert forall|j: int| 0 <= j < s.len() implies s[j].id != id by {
            if s[j].id == id {
                let k = first_app_at_or_before(s, id, j);
                assert(is_first_app(s, id, k));
            }
        }
    } else {
        let k = app_index(s, id)->0;
        assert(is_first_app(s, id, k));
    }
}

/// The first index at or before `j` that holds `id`, where `s[j]` holds it.
proof fn first_app_at_or_before(s: Seq<LauncherAppView>, id: Seq<char>, j: int) -> (k: int)
    requires
        0 <= j < s.len(),
        s[j].id == id,
    ensures
        is_first_app(s, id, k),
    decreases j,
{
    if exists|m: int| 0 <= m < j && s[m].id == id {
        let m = choose|m: int| 0 <= m < j && s[m].id == id;
        first_app_at_or_before(s, id, m)
    } else {
        j
    }
}

/// The index of the first app whose id is `id`.
pub fn find_app_index(apps: &Vec<LauncherApp>, id: &String) -> (r: Option<usize>)
    ensures
        r == match app_index(apps.deep_view(), id@) {
            Some(i) => Some(i as usize),
            None => None::<usize>,
        },
        match r {
            Some(i) => is_first_app(apps.deep_view(), id@, i as int),
            None => forall|j: int| 0 <= j < apps.len() ==> apps.deep_view()[j].id != id@,
        },
{
    let v = chars_of(id.as_str());
    let mut i: usize = 0;
    while i < apps.len()
        invariant
            i <= apps.len(),
            v@ == id@,
            forall|j: int| 0 <= j < i ==> apps.deep_view()[j].id != id@,
        decreases apps.len() - i,
    {
        let c = chars_of(apps[i].id.as_str());
        if same_chars(&c, &v) {
            proof {
                lemma_app_index_at(apps.deep_view(), id@, i as int);
            }
            return Some(i);
        }
        i = i + 1;
    }
    proof {
        lemma_app_index_none(apps.deep_view(), id@);
    }
    None
}

/// A catalog entry carrying the saved install, release and layout state of
/// the same app, and its saved category where that is not blank.
pub open spec fn overlaid(d: LauncherAppView, s: LauncherAppView) -> LauncherAppView {
    LauncherAppView {
        executable_path: s.executable_path,
        installed_version: s.installed_version,
        selected_version: s.selected_version,
        installed_versions: s.installed_versions,
        latest_version: s.latest_version,
        release_url: s.release_url,
        release_checked_at: s.release_checked_at,
        release_notes: s.release_notes,
        release_options: s.release_options,
        package_preference: s.package_preference,
        package_path: s.package_path,
        visible: s.visible,
        category: if !is_blank(s.category) {
            s.category
        } else {
            d.category
        },
        ..d
    }
}

/// Development status settled, release state cleared where the app is coming
/// soon, install state normalized.
pub open spec fn settled(a: LauncherAppView, disk: Seq<Seq<char>>, now: Seq<char>) -> LauncherAppView {
    let n = development_normalized(a);
    let c = if n.status == ToolStatus::ComingSoon {
        release_state_cleared(n)
    } else {
        n
    };
    install_normalized(c, disk, now)
}

/// The saved apps that the catalog still lists, in saved order, each laid
/// over its catalog entry and settled.
pub open spec fn merged_saved(
    saved: Seq<LauncherAppView>,
    defaults: Seq<LauncherAppView>,
    disk: Seq<Seq<char>>,
    now: Seq<char>,
) -> Seq<LauncherAppView>
    decreases saved.len(),
{
    if saved.len() == 0 {
        seq![]
    } else {
        let prev = merged_saved(saved.drop_last(), defaults, disk, now);
        let s = saved.last();
        match app_index(defaults, s.id) {
            Some(i) => prev.push(settled(overlaid(defaults[i], s), disk, now)),
            None => prev,
        }
    }
}

/// `acc` followed by the catalog entries whose id it lacks, settled, each id
/// once.
pub open spec fn with_missing_defaults(
    acc: Seq<LauncherAppView>,
    defaults: Seq<LauncherAppView>,
    disk: Seq<Seq<char>>,
    now: Seq<char>,
) -> Seq<LauncherAppView>
    decreases defaults.len(),
{
    if defaults.len() == 0 {
        acc
    } else {
        let prev = with_missing_defaults(acc, defaults.drop_last(), disk, now);
        let d = defaults.last();
        if app_index(prev, d.id) is Some {
            prev
        } else {
            prev.push(settled(d, disk, now))
        }
    }
}

pub open spec fn merged_catalog(
    saved: Seq<LauncherAppView>,
    defaults: Seq<LauncherAppView>,
    disk: Seq<Seq<char>>,
    now: Seq<char>,
) -> Seq<LauncherAppView> {
    with_missing_defaults(merged_saved(saved, defaults, disk, now), defaults, disk, now)
}

/// Development status, coming-soon release state and install state settled.
pub fn settle_app(launcher_app: &mut LauncherApp, disk: &Disk, now: &str)
    ensures
        final(launcher_app)@ == settled(old(launcher_app)@, disk.paths(), now@),
{
    normalize_development_status(launcher_app);
    if launcher_app.status == ToolStatus::ComingSoon {
        clear_coming_soon_release_state(launcher_app);
    }
    normalize_install_state_with(launcher_app, disk, now);
}

/// Lays the saved state of `saved` over the catalog entry `default_app`.
pub fn overlay_saved_state(default_app: &LauncherApp, saved: &LauncherApp) -> (r: LauncherApp)
    ensures
        r@ == overlaid(default_app@, saved@),
{
    let mut app = default_app.clone();
    app.executable_path = clone_opt(&saved.executable_path);
    app.installed_version = clone_opt(&saved.installed_version);
    app.selected_version = clone_opt(&saved.selected_version);
    app.installed_versions = clone_installed_versions(&saved.installed_versions);
    app.latest_version = clone_opt(&saved.latest_version);
    app.release_url = clone_opt(&saved.release_url);
    app.release_checked_at = clone_opt(&saved.release_checked_at);
    app.release_notes = clone_opt(&saved.release_notes);
    app.release_options = clone_release_options(&saved.release_options);
    app.package_preference = saved.package_preference;
    app.package_path = clone_opt(&saved.package_path);
    app.visible = saved.visible;
    if !str_is_blank(saved.category.as_str()) {
        app.category = saved.category.clone();
    }
    app
}

/// Saved app state merged into the catalog: the saved apps that the catalog
/// still lists come first, in saved order, then the catalog's other apps;
/// each is settled against the files found on disk and the time `now`.
pub fn merge_catalog_apps_with(
    saved: Vec<LauncherApp>,
    defaults: Vec<LauncherApp>,
    disk: &Disk,
    now: &str,
) -> (r: Vec<LauncherApp>)
    ensures
        r.deep_view() == merged_catalog(saved.deep_view(), defaults.deep_view(), disk.paths(), now@),
{
    let ghost sv = saved.deep_view();
    let ghost dv = defaults.deep_view();
    let mut merged: Vec<LauncherApp> = Vec::new();
    let mut i: usize = 0;
    while i < saved.len()
        invariant
            i <= saved.len(),
            sv == saved.deep_view(),
            dv == defaults.deep_view(),
            merged.deep_view() == merged_saved(sv.subrange(0, i as int), dv, disk.paths(), now@),
        decreases saved.len() - i,
    {
        assert(sv.subrange(0, i + 1).drop_last() =~= sv.subrange(0, i as int));
        assert(sv.subrange(0, i + 1).last() == sv[i as int]);
        let found = find_app_index(&defaults, &saved[i].id);
        if let Some(j) = found {
            let mut app = overlay_saved_state(&defaults[j], &saved[i]);
            settle_app(&mut app, disk, now);
            let ghost before = merged.deep_view();
            merged.push(app);
            assert(merged.deep_view() =~= before.push(app@));
        }
        i = i + 1;
    }
    assert(sv.subrange(0, sv.len() as int) =~= sv);
    let ghost first_part = merged.deep_view();
    let mut k: usize = 0;
    while k < defaults.len()
        invariant
            k <= defaults.len(),
            dv == defaults.deep_view(),
            merged.deep_view() == with_missing_defaults(
                first_part,
                dv.subrange(0, k as int),
                disk.paths(),
                now@,
            ),
        decreases defaults.len() - k,
    {
        assert(dv.subrange(0, k + 1).drop_last() =~= dv.subrange(0, k as int));
        assert(dv.subrange(0, k + 1).last() == dv[k as int]);
        if find_app_index(&merged, &defaults[k].id).is_none() {
            let mut app = defaults[k].clone();
            settle_app(&mut app, disk, now);
            let ghost before = merged.deep_view();
            merged.push(app);
            assert(merged.deep_view() =~= before.push(app@));
        }
        k = k + 1;
    }
    assert(dv.subrange(0, dv.len() as int) =~= dv);
    merged
}

/// The path of an optional path, as a list of none or one.
pub open spec fn opt_paths(p: Option<Seq<char>>) -> Seq<Seq<char>> {
    match p {
        Some(x) => seq![x],
        None => seq![],
    }
}

/// The launch files and packages that downloads name, in order.
pub open spec fn version_paths(vs: Seq<InstalledVersionView>) -> Seq<Seq<char>>
    decreases vs.len(),
{
    if vs.len() == 0 {
        seq![]
    } else {
        version_paths(vs.drop_last()) + opt_paths(vs.last().executable_path) + opt_paths(
            vs.last().package_path,
        )
    }
}

/// The paths an app's records name: its launch file, its package, then the
/// launch file and package of each of its downloads.
pub open spec fn record_paths(a: LauncherAppView) -> Seq<Seq<char>> {
    opt_paths(a.executable_path) + opt_paths(a.package_path) + version_paths(a.installed_versions)
}

/// The paths the apps' records name, app by app.
pub open spec fn apps_record_paths(apps: Seq<LauncherAppView>) -> Seq<Seq<char>>
    decreases apps.len(),
{
    if apps.len() == 0 {
        seq![]
    } else {
        apps_record_paths(apps.drop_last()) + record_paths(apps.last())
    }
}

fn push_path(paths: &mut Vec<String>, path: &Option<String>)
    ensures
        final(paths).deep_view() == old(paths).deep_view() + opt_paths(opt_view(*path)),
{
    let ghost before = paths.deep_view();
    if let Some(p) = path {
        paths.push(p.clone());
        assert(paths.deep_view() =~= before + opt_paths(opt_view(*path)));
    } else {
        assert(paths.deep_view() =~= before + opt_paths(opt_view(*path)));
    }
}

/// The paths that the apps' records name, app by app.
pub fn app_paths(apps: &Vec<LauncherApp>) -> (r: Vec<String>)
    ensures
        r.deep_view() == apps_record_paths(apps.deep_view()),
{
    let ghost all = apps.deep_view();
    let mut paths: Vec<String> = Vec::new();
    let mut j: usize = 0;
    while j < apps.len()
        invariant
            j <= apps.len(),
            all == apps.deep_view(),
            paths.deep_view() == apps_record_paths(all.subrange(0, j as int)),
        decreases apps.len() - j,
    {
        let a = &apps[j];
        let ghost av = all[j as int];
        assert(av == a@);
        let ghost start = paths.deep_view();
        push_path(&mut paths, &a.executable_path);
        push_path(&mut paths, &a.package_path);
        let mut k: usize = 0;
        while k < a.installed_versions.len()
            invariant
                k <= a.installed_versions.len(),
                av == a@,
                paths.deep_view() == start + opt_paths(av.executable_path) + opt_paths(av.package_path)
                    + version_paths(av.installed_versions.subrange(0, k as int)),
            decreases a.installed_versions.len() - k,
        {
            let ghost vs = av.installed_versions;
            let ghost iv = vs[k as int];
            assert(iv == a.installed_versions[k as int]@);
            push_path(&mut paths, &a.installed_versions[k].executable_path);
            push_path(&mut paths, &a.installed_versions[k].package_path);
            proof {
                let sub = vs.subrange(0, k + 1);
                assert(sub.drop_last() =~= vs.subrange(0, k as int));
                assert(sub.last() == iv);
                assert(paths.deep_view() =~= start + opt_paths(av.executable_path) + opt_paths(
                    av.package_path,
                ) + version_paths(sub));
            }
            k = k + 1;
        }
        proof {
            assert(av.installed_versions.subrange(0, av.installed_versions.len() as int)
                =~= av.installed_versions);
            let sub = all.subrange(0, j + 1);
            assert(sub.drop_last() =~= all.subrange(0, j as int));
            assert(sub.last() == av);
            assert(paths.deep_view() =~= apps_record_paths(sub));
        }
        j = j + 1;
    }
    assert(all.subrange(0, all.len() as int) =~= all);
    paths
}

/// The files that the apps' records name and that are on disk now: each
/// named path, in order, kept or dropped by what the disk answers for it.
pub fn disk_of_apps(apps: &Vec<LauncherApp>) -> (r: Disk)
    ensures
        exists|keep: Seq<bool>|
            keep.len() == apps_record_paths(apps.deep_view()).len() && r.paths() == #[trigger] kept_by(
                apps_record_paths(apps.deep_view()),
                keep,
            ),
{
    let paths = app_paths(apps);
    disk_of_paths(&paths)
}

/// The files that one app's records name and that are on disk now.
fn disk_of_one(launcher_app: &LauncherApp) -> (r: Disk)
    ensures
        exists|keep: Seq<bool>|
            keep.len() == record_paths(launcher_app@).len() && r.paths() == #[trigger] kept_by(
                record_paths(launcher_app@),
                keep,
            ),
{
    let one = launcher_app.clone();
    let apps = vec![one];
    assert(apps.deep_view().len() == 1);
    assert(apps.deep_view().last() == launcher_app@);
    assert(apps.deep_view().drop_last() =~= Seq::<LauncherAppView>::empty());
    assert(apps_record_paths(apps.deep_view().drop_last()) =~= Seq::<Seq<char>>::empty());
    assert(apps_record_paths(apps.deep_view()) =~= record_paths(launcher_app@));
    disk_of_apps(&apps)
}

/// Whether the optional path names a file on disk now.
pub fn path_option_exists(path: &Option<String>) -> (r: bool)
    ensures
        r ==> path.is_some(),
{
    match path {
        Some(p) => crate::host::path_exists(p),
        None => false,
    }
}

/// Whether the file an app is used through is on disk now: its package where
/// it has a hosted demo, else its launch file.
pub fn app_download_artifact_exists(launcher_app: &LauncherApp) -> (r: bool)
    ensures
        r ==> if launcher_app@.demo_url is Some {
            launcher_app@.package_path is Some
        } else {
            launcher_app@.executable_path is Some
        },
{
    if launcher_app.demo_url.is_some() {
        path_option_exists(&launcher_app.package_path)
    } else {
        path_option_exists(&launcher_app.executable_path)
    }
}

/// The same test, now, for one of the app's downloads.
pub fn installed_version_artifact_exists(
    launcher_app: &LauncherApp,
    installed_version: &InstalledVersion,
) -> (r: bool)
    ensures
        r ==> if launcher_app@.demo_url is Some {
            installed_version@.package_path is Some
        } else {
            installed_version@.executable_path is Some
        },
{
    if launcher_app.demo_url.is_some() {
        path_option_exists(&installed_version.package_path)
    } else {
        path_option_exists(&installed_version.executable_path)
    }
}

/// Records a download of `version`, stamped with the current time.
pub fn add_installed_version(
    launcher_app: &mut LauncherApp,
    version: String,
    executable_path: Option<String>,
    package_path: Option<String>,
)
    ensures
        exists|t: Seq<char>|
            final(launcher_app)@ == #[trigger] with_version_added(
                old(launcher_app)@,
                version@,
                opt_view(executable_path),
                opt_view(package_path),
                t,
            ),
{
    let now = current_time();
    let ghost (v, e, p) = (version@, opt_view(executable_path), opt_view(package_path));
    add_installed_version_at(launcher_app, version, executable_path, package_path, now.as_str());
    assert(launcher_app@ == with_version_added(old(launcher_app)@, v, e, p, now@));
}

/// Normalizes an app's install state against the files on disk now and
/// the current time.
pub fn normalize_install_state(launcher_app: &mut LauncherApp)
    ensures
        exists|d: Seq<Seq<char>>, t: Seq<char>|
            final(launcher_app)@ == #[trigger] install_normalized(old(launcher_app)@, d, t),
{
    let disk = disk_of_one(launcher_app);
    let now = current_time();
    normalize_install_state_with(launcher_app, &disk, now.as_str());
    assert(launcher_app@ == install_normalized(old(launcher_app)@, disk.paths(), now@));
}

/// Switches an app to one of its downloads, checked against the files on
/// disk now.
pub fn select_installed_version(launcher_app: &mut LauncherApp, version: &String) -> (r: Result<
    (),
    String,
>)
    ensures
        exists|d: Seq<Seq<char>>|
            match #[trigger] version_selected(old(launcher_app)@, version@, d) {
                Ok(a) => r is Ok && final(launcher_app)@ == a,
                Err(e) => r matches Err(m) && m@ == e && final(launcher_app)@ == old(launcher_app)@,
            },
{
    let disk = disk_of_one(launcher_app);
    let r = select_installed_version_on(launcher_app, version, &disk);
    assert(match version_selected(old(launcher_app)@, version@, disk.paths()) {
        Ok(a) => r is Ok && launcher_app@ == a,
        Err(e) => r matches Err(m) && m@ == e && launcher_app@ == old(launcher_app)@,
    });
    r
}

/// Merges saved app state into the catalog, against the files on disk now
/// and the current time.
pub fn merge_catalog_apps(saved: Vec<LauncherApp>, defaults: Vec<LauncherApp>) -> (r: Vec<LauncherApp>)
    ensures
        exists|d: Seq<Seq<char>>, t: Seq<char>|
            r.deep_view() == #[trigger] merged_catalog(saved.deep_view(), defaults.deep_view(), d, t),
{
    let ghost (sv, dv) = (saved.deep_view(), defaults.deep_view());
    let mut all = clone_apps(&saved);
    let mut more = clone_apps(&defaults);
    all.append(&mut more);
    let disk = disk_of_apps(&all);
    let now = current_time();
    let r = merge_catalog_apps_with(saved, defaults, &disk, now.as_str());
    assert(r.deep_view() == merged_catalog(sv, dv, disk.paths(), now@));
    r
}

} // verus!
