//! What the launcher's screen does with the apps: saving and resetting the
//! layout, setting a launch file, preparing a launch, the addresses it opens,
//! and what an install found on disk records.

use vstd::prelude::*;
use crate::agent_api::{entry_index, find_entry_index, headless_agent_args, headless_args, AgentApiRegistryEntry};
use crate::download::{releases_page, releases_page_url};
use crate::files::{is_launch_path, is_launchable_executable_path, is_web_launch_path, launch_file, launchable_executable, web_launch_file};
use crate::install::{
    version_selected,
    add_installed_version_at, app_index, disk_of_apps, disk_has, find_app_index, find_version, merge_catalog_apps_with,
    merged_catalog, select_installed_version_on, version_on_disk, with_version_added,
    with_version_applied, Disk,
};
use crate::model::{clone_opt, opt_view, LauncherApp, LauncherAppView};
use crate::text::{concat, is_blank, owned, str_is_blank, trim, trim_str};

verus! {

pub open spec fn app_not_found_message() -> Seq<char> {
    "App was not found"@
}

/// The index of the app with the given id, or the error the screen shows.
pub fn find_app(apps: &Vec<LauncherApp>, app_id: &String) -> (r: Result<usize, String>)
    ensures
        match app_index(apps.deep_view(), app_id@) {
            Some(i) => r matches Ok(j) && j == i,
            None => r matches Err(e) && e@ == app_not_found_message(),
        },
{
    match find_app_index(apps, app_id) {
        Some(i) => Ok(i),
        None => Err(owned("App was not found")),
    }
}

/// Whether no app is shown.
pub open spec fn all_hidden(s: Seq<LauncherAppView>) -> bool {
    forall|i: int| 0 <= i < s.len() ==> !s[i].visible
}

pub open spec fn shown(a: LauncherAppView) -> LauncherAppView {
    LauncherAppView { visible: true, ..a }
}

/// A layout that hides every app shows them all instead.
pub open spec fn some_visible(s: Seq<LauncherAppView>) -> Seq<LauncherAppView> {
    if all_hidden(s) {
        s.map_values(|a: LauncherAppView| shown(a))
    } else {
        s
    }
}

fn shown_app(a: &LauncherApp) -> (r: LauncherApp)
    ensures
        r@ == shown(a@),
{
    let mut r = a.clone();
    r.visible = true;
    r
}

pub fn ensure_some_visible(apps: Vec<LauncherApp>) -> (r: Vec<LauncherApp>)
    ensures
        r.deep_view() == some_visible(apps.deep_view()),
{
    let ghost s = apps.deep_view();
    let mut i: usize = 0;
    while i < apps.len()
        invariant
            i <= apps.len(),
            s == apps.deep_view(),
            forall|j: int| 0 <= j < i ==> !s[j].visible,
        decreases apps.len() - i,
    {
        if apps[i].visible {
            assert(s[i as int].visible);
            return apps;
        }
        i = i + 1;
    }
    let mut r: Vec<LauncherApp> = Vec::new();
    let mut k: usize = 0;
    while k < apps.len()
        invariant
            k <= apps.len(),
            s == apps.deep_view(),
            r.deep_view() == s.subrange(0, k as int).map_values(|a: LauncherAppView| shown(a)),
        decreases apps.len() - k,
    {
        let ghost before = r.deep_view();
        r.push(shown_app(&apps[k]));
        proof {
            assert(s.subrange(0, k + 1) =~= s.subrange(0, k as int).push(s[k as int]));
            assert(s.subrange(0, k as int).push(s[k as int]).map_values(|a: LauncherAppView| shown(a))
                =~= s.subrange(0, k as int).map_values(|a: LauncherAppView| shown(a)).push(
                shown(s[k as int]),
            ));
            assert(r.deep_view() =~= s.subrange(0, k + 1).map_values(|a: LauncherAppView| shown(a)));
        }
        k = k + 1;
    }
    assert(s.subrange(0, s.len() as int) =~= s);
    r
}

/// The apps a saved layout leaves: the layout's apps merged into the catalog
/// in use, and all of them shown where the layout hides every one.
pub open spec fn layout_saved(
    layout: Seq<LauncherAppView>,
    catalog: Seq<LauncherAppView>,
    disk: Seq<Seq<char>>,
    now: Seq<char>,
) -> Seq<LauncherAppView> {
    some_visible(merged_catalog(layout, catalog, disk, now))
}

/// The apps a saved layout leaves, against the files found on disk and the
/// time `now`.
pub fn save_layout_apps_with(
    layout: Vec<LauncherApp>,
    catalog_tools: Vec<LauncherApp>,
    disk: &Disk,
    now: &str,
) -> (r: Vec<LauncherApp>)
    ensures
        r.deep_view() == layout_saved(layout.deep_view(), catalog_tools.deep_view(), disk.paths(), now@),
{
    let merged = merge_catalog_apps_with(layout, catalog_tools, disk, now);
    ensure_some_visible(merged)
}

/// A catalog entry carrying the install and release state of an app that
/// the launcher already knows.
pub open spec fn with_install_state_of(d: LauncherAppView, e: LauncherAppView) -> LauncherAppView {
    LauncherAppView {
        executable_path: e.executable_path,
        installed_version: e.installed_version,
        selected_version: e.selected_version,
        installed_versions: e.installed_versions,
        latest_version: e.latest_version,
        release_url: e.release_url,
        release_checked_at: e.release_checked_at,
        release_notes: e.release_notes,
        release_options: e.release_options,
        package_preference: e.package_preference,
        package_path: e.package_path,
        ..d
    }
}

/// One catalog entry after a layout reset: the install state of the current
/// app with its id kept, shown.
pub open spec fn reset_entry(d: LauncherAppView, current: Seq<LauncherAppView>) -> LauncherAppView {
    shown(
        match app_index(current, d.id) {
            Some(i) => with_install_state_of(d, current[i]),
            None => d,
        },
    )
}

/// A reset layout: the catalog's apps in catalog order, with their install
/// state kept and all of them shown.
pub open spec fn layout_reset(
    catalog: Seq<LauncherAppView>,
    current: Seq<LauncherAppView>,
) -> Seq<LauncherAppView> {
    catalog.map_values(|d: LauncherAppView| reset_entry(d, current))
}

fn reset_one(d: &LauncherApp, current: &Vec<LauncherApp>) -> (r: LauncherApp)
    ensures
        r@ == reset_entry(d@, current.deep_view()),
{
    let mut a = d.clone();
    if let Some(i) = find_app_index(current, &d.id) {
        let e = &current[i];
        a.executable_path = clone_opt(&e.executable_path);
        a.installed_version = clone_opt(&e.installed_version);
        a.selected_version = clone_opt(&e.selected_version);
        a.installed_versions = crate::model::clone_installed_versions(&e.installed_versions);
        a.latest_version = clone_opt(&e.latest_version);
        a.release_url = clone_opt(&e.release_url);
        a.release_checked_at = clone_opt(&e.release_checked_at);
        a.release_notes = clone_opt(&e.release_notes);
        a.release_options = crate::model::clone_release_options(&e.release_options);
        a.package_preference = e.package_preference;
        a.package_path = clone_opt(&e.package_path);
    }
    a.visible = true;
    a
}

pub fn reset_layout_apps(current: &Vec<LauncherApp>, catalog_tools: &Vec<LauncherApp>) -> (r: Vec<
    LauncherApp,
>)
    ensures
        r.deep_view() == layout_reset(catalog_tools.deep_view(), current.deep_view()),
{
    let ghost c = catalog_tools.deep_view();
    let mut r: Vec<LauncherApp> = Vec::new();
    let mut k: usize = 0;
    while k < catalog_tools.len()
        invariant
            k <= catalog_tools.len(),
            c == catalog_tools.deep_view(),
            r.deep_view() == layout_reset(c.subrange(0, k as int), current.deep_view()),
        decreases catalog_tools.len() - k,
    {
        let ghost before = r.deep_view();
        let a = reset_one(&catalog_tools[k], current);
        r.push(a);
        proof {
            assert(c.subrange(0, k + 1) =~= c.subrange(0, k as int).push(c[k as int]));
            assert(c.subrange(0, k as int).push(c[k as int]).map_values(
                |d: LauncherAppView| reset_entry(d, current.deep_view()),
            ) =~= c.subrange(0, k as int).map_values(
                |d: LauncherAppView| reset_entry(d, current.deep_view()),
            ).push(reset_entry(c[k as int], current.deep_view())));
            assert(r.deep_view() =~= layout_reset(c.subrange(0, k + 1), current.deep_view()));
        }
        k = k + 1;
    }
    assert(c.subrange(0, c.len() as int) =~= c);
    r
}

/// The apps after a launch file is chosen for one of them: the trimmed path
/// is recorded where the app exists, the file is on disk and its name
/// (`file_name`, the last component of the trimmed path) is an `.exe`,
/// `.html` or `.htm` file the launcher starts.
pub open spec fn executable_saved(
    apps: Seq<LauncherAppView>,
    app_id: Seq<char>,
    path: Seq<char>,
    file_name: Seq<char>,
    disk: Seq<Seq<char>>,
) -> Result<Seq<LauncherAppView>, Seq<char>> {
    match app_index(apps, app_id) {
        None => Err(app_not_found_message()),
        Some(i) => if !disk.contains(trim(path)) {
            Err("Launch path does not exist"@)
        } else if !launch_file(file_name) {
            Err("Choose an .exe, .html, or .htm launch file."@)
        } else {
            Ok(apps.update(i, LauncherAppView { executable_path: Some(trim(path)), ..apps[i] }))
        },
    }
}

pub fn save_executable_path(
    apps: &mut Vec<LauncherApp>,
    app_id: &String,
    executable_path: &str,
    file_name: &str,
    disk: &Disk,
) -> (r: Result<(), String>)
    ensures
        match executable_saved(old(apps).deep_view(), app_id@, executable_path@, file_name@, disk.paths()) {
            Ok(s) => r is Ok && final(apps).deep_view() == s,
            Err(e) => r matches Err(m) && m@ == e && final(apps).deep_view() == old(apps).deep_view(),
        },
{
    let i = find_app(apps, app_id)?;
    let path = trim_str(executable_path);
    if !disk_has(disk, &path) {
        return Err(owned("Launch path does not exist"));
    }
    if !is_launch_path(file_name) {
        return Err(owned("Choose an .exe, .html, or .htm launch file."));
    }
    let ghost before = apps.deep_view();
    let mut a = apps[i].clone();
    a.executable_path = Some(path);
    apps.set(i, a);
    assert(apps.deep_view() =~= before.update(
        i as int,
        LauncherAppView { executable_path: Some(trim(executable_path@)), ..before[i as int] },
    ));
    Ok(())
}

pub open spec fn no_launch_file_message() -> Seq<char> {
    "No launch file has been configured for this app"@
}

pub open spec fn missing_launch_file_message() -> Seq<char> {
    "Configured launch file no longer exists"@
}

/// The launch file an app is set to, where it is on disk.
pub open spec fn configured_launch(a: LauncherAppView, disk: Seq<Seq<char>>) -> Result<
    Seq<char>,
    Seq<char>,
> {
    match a.executable_path {
        None => Err(no_launch_file_message()),
        Some(p) => if disk.contains(p) {
            Ok(p)
        } else {
            Err(missing_launch_file_message())
        },
    }
}

pub fn configured_launch_path(a: &LauncherApp, disk: &Disk) -> (r: Result<String, String>)
    ensures
        match configured_launch(a@, disk.paths()) {
            Ok(p) => r matches Ok(q) && q@ == p,
            Err(e) => r matches Err(m) && m@ == e,
        },
{
    match &a.executable_path {
        None => Err(owned("No launch file has been configured for this app")),
        Some(p) => if disk_has(disk, p) {
            Ok(p.clone())
        } else {
            Err(owned("Configured launch file no longer exists"))
        },
    }
}

/// The version a launch asks for, where it names one.
pub open spec fn version_requested(version: Option<Seq<char>>) -> Option<Seq<char>> {
    match version {
        Some(v) => if is_blank(v) {
            None
        } else {
            Some(v)
        },
        None => None,
    }
}

/// The app as a launch leaves it: switched to the asked version, if any.
pub open spec fn launch_selection(a: LauncherAppView, version: Option<Seq<char>>, disk: Seq<Seq<char>>) -> Result<
    LauncherAppView,
    Seq<char>,
> {
    match version_requested(version) {
        Some(v) => version_selected(a, v, disk),
        None => Ok(a),
    }
}

/// Prepares a launch: finds the app, switches it to the asked version, and
/// returns its index and launch file, which is on disk.
pub fn prepare_launch(
    apps: &mut Vec<LauncherApp>,
    app_id: &String,
    version: &Option<String>,
    disk: &Disk,
) -> (r: Result<(usize, String), String>)
    ensures
        match app_index(old(apps).deep_view(), app_id@) {
            None => r matches Err(e) && e@ == app_not_found_message() && final(apps).deep_view()
                == old(apps).deep_view(),
            Some(i) => match launch_selection(old(apps).deep_view()[i], opt_view(*version), disk.paths()) {
                Err(e) => r matches Err(m) && m@ == e && final(apps).deep_view()
                    == old(apps).deep_view(),
                Ok(a) => final(apps).deep_view() == old(apps).deep_view().update(i, a) && match configured_launch(a, disk.paths()) {
                    Ok(p) => r matches Ok((j, q)) && j == i && q@ == p,
                    Err(e) => r matches Err(m) && m@ == e,
                },
            },
        },
{
    let i = find_app(apps, app_id)?;
    let ghost before = apps.deep_view();
    let mut a = apps[i].clone();
    if let Some(v) = version {
        if !str_is_blank(v.as_str()) {
            select_installed_version_on(&mut a, v, disk)?;
        }
    }
    let path = configured_launch_path(&a, disk);
    apps.set(i, a);
    assert(apps.deep_view() =~= before.update(i as int, apps.deep_view()[i as int]));
    match path {
        Ok(p) => Ok((i, p)),
        Err(e) => Err(e),
    }
}

/// How a launch file is started.
#[derive(Clone, Copy, Debug, PartialEq, Eq, Structural)]
pub enum LaunchKind {
    /// A program, started (or restarted) by the launcher.
    Executable,
    /// A page, handed to the system's browser.
    WebPage,
}

/// How the launch file with the given name is started, or why it cannot be.
pub fn launch_kind(file_name: &str) -> (r: Result<LaunchKind, String>)
    ensures
        launchable_executable(file_name@) ==> r matches Ok(LaunchKind::Executable),
        !launchable_executable(file_name@) && web_launch_file(file_name@) ==> r matches Ok(
            LaunchKind::WebPage,
        ),
        !launch_file(file_name@) ==> (r matches Err(e) && e@
            == "Configured launch file is not supported"@),
{
    if is_launchable_executable_path(file_name) {
        Ok(LaunchKind::Executable)
    } else if is_web_launch_path(file_name) {
        Ok(LaunchKind::WebPage)
    } else {
        Err(owned("Configured launch file is not supported"))
    }
}

/// The launch file of the app to start headless.
pub fn headless_launch_target(apps: &Vec<LauncherApp>, app_id: &String, disk: &Disk) -> (r: Result<
    String,
    String,
>)
    ensures
        match app_index(apps.deep_view(), app_id@) {
            None => r matches Err(e) && e@ == app_not_found_message(),
            Some(i) => match configured_launch(apps.deep_view()[i], disk.paths()) {
                Ok(p) => r matches Ok(q) && q@ == p,
                Err(e) => r matches Err(m) && m@ == e,
            },
        },
{
    let i = find_app(apps, app_id)?;
    configured_launch_path(&apps[i], disk)
}

/// A headless start needs a Windows executable as its launch file.
pub fn headless_executable_check(file_name: &str) -> (r: Result<(), String>)
    ensures
        launchable_executable(file_name@) <==> r is Ok,
        r matches Err(e) ==> e@ == "Headless Agent API launch requires a Windows executable."@,
{
    if is_launchable_executable_path(file_name) {
        Ok(())
    } else {
        Err(owned("Headless Agent API launch requires a Windows executable."))
    }
}

/// The arguments of a headless start, from the launch file's name and the
/// Agent API registry.
pub fn headless_launch_args(
    file_name: &str,
    entries: &Vec<AgentApiRegistryEntry>,
    app_id: &String,
) -> (r: Result<Vec<String>, String>)
    ensures
        !launchable_executable(file_name@) ==> (r matches Err(e) && e@
            == "Headless Agent API launch requires a Windows executable."@),
        launchable_executable(file_name@) ==> match entry_index(entries.deep_view(), app_id@) {
            None => r matches Err(e) && e@ == "This app is not in the Agent API registry."@,
            Some(k) => match headless_args(app_id@, entries.deep_view()[k].port) {
                Some(args) => r matches Ok(v) && v.deep_view() == args,
                None => r matches Err(e) && e@
                    == "This app does not advertise a Control Center headless launch mode yet."@,
            },
        },
{
    headless_executable_check(file_name)?;
    match find_entry_index(entries, app_id) {
        None => Err(owned("This app is not in the Agent API registry.")),
        Some(k) => headless_agent_args(app_id.as_str(), entries[k].port),
    }
}

/// The page the release button opens: the app's release page where it is
/// known, else the releases list of its repository.
pub open spec fn release_page(a: LauncherAppView) -> Seq<char> {
    match a.release_url {
        Some(u) => if !is_blank(u) {
            u
        } else {
            releases_page(a.repo)
        },
        None => releases_page(a.repo),
    }
}

pub fn release_page_url(a: &LauncherApp) -> (r: String)
    ensures
        r@ == release_page(a@),
{
    match &a.release_url {
        Some(u) => if !str_is_blank(u.as_str()) {
            u.clone()
        } else {
            releases_page_url(a.repo.as_str())
        },
        None => releases_page_url(a.repo.as_str()),
    }
}

pub open spec fn repository_page(repo: Seq<char>) -> Seq<char> {
    "https://github.com/neko-legends/"@ + repo
}

pub fn repository_url(repo: &str) -> (r: String)
    ensures
        r@ == repository_page(repo@),
{
    concat("https://github.com/neko-legends/", repo)
}

/// The hosted demo of an app, where it has one.
pub fn hosted_demo_url(a: &LauncherApp) -> (r: Result<String, String>)
    ensures
        match a@.demo_url {
            Some(u) => if !is_blank(u) {
                r matches Ok(v) && v@ == u
            } else {
                r matches Err(e) && e@ == "This app does not have a hosted demo."@
            },
            None => r matches Err(e) && e@ == "This app does not have a hosted demo."@,
        },
{
    match &a.demo_url {
        Some(u) => if !str_is_blank(u.as_str()) {
            Ok(u.clone())
        } else {
            Err(owned("This app does not have a hosted demo."))
        },
        None => Err(owned("This app does not have a hosted demo.")),
    }
}

/// The file whose folder the "open install folder" button opens: the launch
/// file, else the package; with neither, the app's default install folder is
/// opened.
pub fn install_folder_source(a: &LauncherApp) -> (r: Option<String>)
    ensures
        opt_view(r) == match a@.executable_path {
            Some(p) => Some(p),
            None => a@.package_path,
        },
{
    match &a.executable_path {
        Some(p) => Some(p.clone()),
        None => clone_opt(&a.package_path),
    }
}

/// An install of an app found on disk, outside the launcher's records.
#[derive(Debug)]
pub struct DetectedInstall {
    pub executable_path: Option<String>,
    pub package_path: Option<String>,
    pub version: Option<String>,
}

pub struct DetectedInstallView {
    pub executable_path: Option<Seq<char>>,
    pub package_path: Option<Seq<char>>,
    pub version: Option<Seq<char>>,
}

impl View for DetectedInstall {
    type V = DetectedInstallView;

    open spec fn view(&self) -> DetectedInstallView {
        DetectedInstallView {
            executable_path: opt_view(self.executable_path),
            package_path: opt_view(self.package_path),
            version: opt_view(self.version),
        }
    }
}

/// What a search of the app's install folder found: for an app with a hosted
/// demo, its package; for another app, its launch file; the version is the
/// name of the folder under the install folder that holds it, where that is
/// not blank.
pub open spec fn local_install(
    a: LauncherAppView,
    found: Option<Seq<char>>,
    version_folder: Option<Seq<char>>,
) -> Option<DetectedInstallView> {
    match found {
        None => None,
        Some(p) => {
            let version = match version_folder {
                Some(v) => if is_blank(v) {
                    None
                } else {
                    Some(v)
                },
                None => None,
            };
            if a.demo_url is Some {
                Some(DetectedInstallView { executable_path: None, package_path: Some(p), version })
            } else {
                Some(DetectedInstallView { executable_path: Some(p), package_path: None, version })
            }
        },
    }
}

pub fn local_install_from(
    a: &LauncherApp,
    found: Option<String>,
    version_folder: Option<String>,
) -> (r: Option<DetectedInstall>)
    ensures
        match r {
            Some(d) => local_install(a@, opt_view(found), opt_view(version_folder)) == Some(d@),
            None => local_install(a@, opt_view(found), opt_view(version_folder)) is None,
        },
{
    let p = match found {
        Some(p) => p,
        None => {
            return None;
        },
    };
    let version = match version_folder {
        Some(v) => if str_is_blank(v.as_str()) {
            None
        } else {
            Some(v)
        },
        None => None,
    };
    if a.demo_url.is_some() {
        Some(DetectedInstall { executable_path: None, package_path: Some(p), version })
    } else {
        Some(DetectedInstall { executable_path: Some(p), package_path: None, version })
    }
}

/// The app after an install found on disk is recorded: its launch file and
/// package, and, where the version is known, that version installed and
/// added to the downloads.
pub open spec fn detection_applied(
    a: LauncherAppView,
    d: DetectedInstallView,
    now: Seq<char>,
) -> LauncherAppView {
    let a1 = if d.executable_path is Some {
        LauncherAppView { executable_path: d.executable_path, ..a }
    } else {
        a
    };
    let a2 = if d.package_path is Some {
        LauncherAppView { package_path: d.package_path, ..a1 }
    } else {
        a1
    };
    match d.version {
        Some(v) => with_version_added(
            LauncherAppView { installed_version: Some(v), ..a2 },
            v,
            a2.executable_path,
            a2.package_path,
            now,
        ),
        None => a2,
    }
}

/// Records an install found on disk, stamping a known version with `now`.
pub fn apply_detected_install_at(launcher_app: &mut LauncherApp, detected: DetectedInstall, now: &str)
    ensures
        final(launcher_app)@ == detection_applied(old(launcher_app)@, detected@, now@),
{
    let DetectedInstall { executable_path, package_path, version } = detected;
    if executable_path.is_some() {
        launcher_app.executable_path = executable_path;
    }
    if package_path.is_some() {
        launcher_app.package_path = package_path;
    }
    if let Some(v) = version {
        launcher_app.installed_version = Some(v.clone());
        let exe = clone_opt(&launcher_app.executable_path);
        let pkg = clone_opt(&launcher_app.package_path);
        add_installed_version_at(launcher_app, v, exe, pkg, now);
    }
}

/// Records an install found on disk, stamped with the current time.
pub fn apply_detected_install(launcher_app: &mut LauncherApp, detected: DetectedInstall)
    ensures
        exists|t: Seq<char>|
            final(launcher_app)@ == #[trigger] detection_applied(old(launcher_app)@, detected@, t),
{
    let now = crate::host::current_time();
    let ghost d = detected@;
    apply_detected_install_at(launcher_app, detected, now.as_str());
    assert(launcher_app@ == detection_applied(old(launcher_app)@, d, now@));
}

/// The apps a saved layout leaves, against the files on disk now and the
/// current time.
pub fn save_layout_apps(layout: Vec<LauncherApp>, catalog_tools: Vec<LauncherApp>) -> (r: Vec<
    LauncherApp,
>)
    ensures
        exists|d: Seq<Seq<char>>, t: Seq<char>|
            r.deep_view() == #[trigger] layout_saved(layout.deep_view(), catalog_tools.deep_view(), d, t),
{
    let ghost (lv, cv) = (layout.deep_view(), catalog_tools.deep_view());
    let mut all = crate::model::clone_apps(&layout);
    let mut more = crate::model::clone_apps(&catalog_tools);
    all.append(&mut more);
    let disk = disk_of_apps(&all);
    let now = crate::host::current_time();
    let r = save_layout_apps_with(layout, catalog_tools, &disk, now.as_str());
    assert(r.deep_view() == layout_saved(lv, cv, disk.paths(), now@));
    r
}

} // verus!
