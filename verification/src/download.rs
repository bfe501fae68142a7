//! Scanning for releases and downloading one: the choices that a scan or a
//! download makes, and the state it leaves on the app.

use vstd::prelude::*;
use crate::catalog::{
    coming_soon, coming_soon_note, development_normalized, is_coming_soon_app,
    normalize_development_status,
};
use crate::files::{has_extension, has_extension_ignoring_case, safe_file_segment, safe_segment};
use crate::install::{
    add_installed_version_at, app_index, find_app_index, find_version, find_version_index,
    with_version_added,
};
use crate::model::{
    clone_opt, opt_view, GitHubRelease, LauncherApp, LauncherAppView, PackagePreference,
    ReleaseOptionView, ReleaseView,
};
use crate::release::{
    apply_release_metadata, asset_candidates, best_release_asset, chooses_best, installer_asset,
    is_installer_asset_name, option_of, release_asset_rank, release_options,
    with_release_metadata,
};
use crate::text::{chars_of, concat, is_blank, lower, lower_chars, owned, same_chars, str_is_blank, string_of};

verus! {

/// The releases page of one of the tools.
pub open spec fn releases_page(repo: Seq<char>) -> Seq<char> {
    "https://github.com/neko-legends/"@ + repo + "/releases"@
}

pub open spec fn no_releases_message() -> Seq<char> {
    "No public releases found yet."@
}

pub fn releases_page_url(repo: &str) -> (r: String)
    ensures
        r@ == releases_page(repo@),
{
    let head = concat("https://github.com/neko-legends/", repo);
    concat(head.as_str(), "/releases")
}

/// The address that lists the releases of one of the tools.
pub open spec fn releases_api(repo: Seq<char>) -> Seq<char> {
    "https://api.github.com/repos/neko-legends/"@ + repo + "/releases?per_page=20"@
}

pub fn releases_api_url(repo: &str) -> (r: String)
    ensures
        r@ == releases_api(repo@),
{
    let head = concat("https://api.github.com/repos/neko-legends/", repo);
    concat(head.as_str(), "/releases?per_page=20")
}

/// What a fetch of the releases listing makes of the HTTP status: 404 means
/// no public release; any other status outside 200..=299 is an error that
/// quotes the status line.
pub fn release_fetch_error(status: u16, status_line: &str) -> (r: Option<String>)
    ensures
        status == 404 ==> (r matches Some(e) && e@ == no_releases_message()),
        status != 404 && !(200 <= status <= 299) ==> (r matches Some(e) && e@ == "GitHub returned "@
            + status_line@ + "."@),
        status != 404 && 200 <= status <= 299 ==> r is None,
{
    if status == 404 {
        Some(owned("No public releases found yet."))
    } else if !(200 <= status && status <= 299) {
        let head = concat("GitHub returned ", status_line);
        Some(concat(head.as_str(), "."))
    } else {
        None
    }
}

/// An empty releases listing counts as no public release.
pub fn require_releases(releases: Vec<GitHubRelease>) -> (r: Result<Vec<GitHubRelease>, String>)
    ensures
        releases.len() == 0 ==> (r matches Err(e) && e@ == no_releases_message()),
        releases.len() > 0 ==> (r matches Ok(rs) && rs.deep_view() == releases.deep_view()),
{
    if releases.len() == 0 {
        Err(owned("No public releases found yet."))
    } else {
        Ok(releases)
    }
}

/// What a scan records on an app that is coming soon: no release, the
/// releases page, the coming-soon note.
pub open spec fn scanned_coming_soon(a: LauncherAppView, checked_at: Seq<char>) -> LauncherAppView {
    let n = development_normalized(a);
    LauncherAppView {
        latest_version: None,
        release_url: Some(releases_page(n.repo)),
        release_notes: Some(coming_soon_note()),
        release_checked_at: Some(checked_at),
        release_options: Seq::empty(),
        ..n
    }
}

pub open spec fn outcome_view(outcome: Result<Vec<GitHubRelease>, String>) -> Result<
    Seq<ReleaseView>,
    Seq<char>,
> {
    match outcome {
        Ok(rs) => Ok(rs.deep_view()),
        Err(e) => Err(e@),
    }
}

/// What a scan records on an app from the outcome of fetching its releases.
pub open spec fn scanned(
    a: LauncherAppView,
    outcome: Result<Seq<ReleaseView>, Seq<char>>,
    checked_at: Seq<char>,
) -> LauncherAppView {
    match outcome {
        Ok(rs) => {
            let a1 = if rs.len() > 0 {
                with_release_metadata(a, rs[0], checked_at)
            } else {
                a
            };
            LauncherAppView {
                release_options: rs.map_values(|rv: ReleaseView| option_of(rv)),
                ..a1
            }
        },
        Err(e) => if e == no_releases_message() {
            LauncherAppView {
                latest_version: None,
                release_url: Some(releases_page(a.repo)),
                release_notes: Some(no_releases_message()),
                release_checked_at: Some(checked_at),
                release_options: Seq::empty(),
                ..a
            }
        } else {
            LauncherAppView { release_notes: Some(e), release_checked_at: Some(checked_at), ..a }
        },
    }
}

pub fn mark_coming_soon_scanned(launcher_app: &mut LauncherApp, checked_at: &str)
    ensures
        final(launcher_app)@ == scanned_coming_soon(old(launcher_app)@, checked_at@),
{
    normalize_development_status(launcher_app);
    launcher_app.latest_version = None;
    launcher_app.release_url = Some(releases_page_url(launcher_app.repo.as_str()));
    launcher_app.release_notes = Some(owned("Coming soon."));
    launcher_app.release_checked_at = Some(owned(checked_at));
    launcher_app.release_options = Vec::new();
    assert(launcher_app.release_options.deep_view() =~= Seq::<ReleaseOptionView>::empty());
}

pub fn apply_scan_outcome(
    launcher_app: &mut LauncherApp,
    outcome: &Result<Vec<GitHubRelease>, String>,
    checked_at: &str,
)
    ensures
        final(launcher_app)@ == scanned(old(launcher_app)@, outcome_view(*outcome), checked_at@),
{
    match outcome {
        Ok(releases) => {
            if releases.len() > 0 {
                apply_release_metadata(launcher_app, &releases[0], checked_at);
            }
            launcher_app.release_options = release_options(releases);
        },
        Err(error) => {
            let ev = chars_of(error.as_str());
            let nv = chars_of("No public releases found yet.");
            if same_chars(&ev, &nv) {
                launcher_app.latest_version = None;
                launcher_app.release_url = Some(releases_page_url(launcher_app.repo.as_str()));
                launcher_app.release_notes = Some(owned("No public releases found yet."));
                launcher_app.release_checked_at = Some(owned(checked_at));
                launcher_app.release_options = Vec::new();
                assert(launcher_app.release_options.deep_view() =~= Seq::<
                    ReleaseOptionView,
                >::empty());
            } else {
                launcher_app.release_notes = Some(error.clone());
                launcher_app.release_checked_at = Some(owned(checked_at));
            }
        },
    }
}

/// A download asked of the launcher.
#[derive(Debug)]
pub struct DownloadRequest {
    pub app_id: String,
    pub version: Option<String>,
    pub package_preference: Option<PackagePreference>,
}

pub struct DownloadRequestView {
    pub app_id: Seq<char>,
    pub version: Option<Seq<char>>,
    pub package_preference: Option<PackagePreference>,
}

impl View for DownloadRequest {
    type V = DownloadRequestView;

    open spec fn view(&self) -> DownloadRequestView {
        DownloadRequestView {
            app_id: self.app_id@,
            version: opt_view(self.version),
            package_preference: self.package_preference,
        }
    }
}

/// What a download works from once the app is found.
pub struct DownloadPlan {
    pub index: usize,
    pub repo: String,
    pub previous_installed_version: Option<String>,
    pub package_preference: PackagePreference,
}

/// The app to download for: found by id, and not coming soon; the package
/// kind asked for, else the app's own preference.
pub fn plan_download(apps: &Vec<LauncherApp>, request: &DownloadRequest) -> (r: Result<
    DownloadPlan,
    String,
>)
    ensures
        match app_index(apps.deep_view(), request.app_id@) {
            None => r matches Err(e) && e@ == "App was not found"@,
            Some(i) => {
                let a = apps.deep_view()[i];
                if coming_soon(a) {
                    r matches Err(e) && e@ == a.name + " is coming soon."@
                } else {
                    r matches Ok(p) && p.index == i && p.repo@ == a.repo && opt_view(
                        p.previous_installed_version,
                    ) == a.installed_version && p.package_preference == match request.package_preference {
                        Some(pp) => pp,
                        None => a.package_preference,
                    }
                }
            },
        },
{
    let index = match find_app_index(apps, &request.app_id) {
        Some(i) => i,
        None => {
            return Err(owned("App was not found"));
        },
    };
    if is_coming_soon_app(&apps[index]) {
        return Err(concat(apps[index].name.as_str(), " is coming soon."));
    }
    let package_preference = match request.package_preference {
        Some(p) => p,
        None => apps[index].package_preference,
    };
    Ok(
        DownloadPlan {
            index,
            repo: apps[index].repo.clone(),
            previous_installed_version: clone_opt(&apps[index].installed_version),
            package_preference,
        },
    )
}

pub open spec fn is_first_tag(rs: Seq<ReleaseView>, tag: Seq<char>, i: int) -> bool {
    &&& 0 <= i < rs.len()
    &&& rs[i].tag_name == tag
    &&& forall|j: int| 0 <= j < i ==> rs[j].tag_name != tag
}

/// The release a download takes: the first with the asked tag, else the
/// newest.
pub open spec fn chosen_release(rs: Seq<ReleaseView>, version: Option<Seq<char>>) -> Option<int> {
    let newest = if rs.len() > 0 {
        Some(0int)
    } else {
        None
    };
    match version {
        Some(v) => if exists|i: int| is_first_tag(rs, v, i) {
            Some(choose|i: int| is_first_tag(rs, v, i))
        } else {
            newest
        },
        None => newest,
    }
}

proof fn lemma_first_tag_unique(rs: Seq<ReleaseView>, v: Seq<char>, i: int)
    requires
        is_first_tag(rs, v, i),
    ensures
        (choose|k: int| is_first_tag(rs, v, k)) == i,
{
    let k = choose|k: int| is_first_tag(rs, v, k);
    assert(is_first_tag(rs, v, k));
    if k < i {
        assert(rs[k].tag_name != v);
    } else if i < k {
        assert(rs[i].tag_name != v);
    }
}

pub fn select_release(releases: &Vec<GitHubRelease>, version: &Option<String>) -> (r: Result<
    usize,
    String,
>)
    ensures
        match r {
            Ok(i) => chosen_release(releases.deep_view(), opt_view(*version)) == Some(i as int),
            Err(e) => chosen_release(releases.deep_view(), opt_view(*version)) is None && e@
                == no_releases_message(),
        },
{
    let ghost rs = releases.deep_view();
    if let Some(v) = version {
        let vv = chars_of(v.as_str());
        let mut i: usize = 0;
        while i < releases.len()
            invariant
                i <= releases.len(),
                rs == releases.deep_view(),
                vv@ == v@,
                opt_view(*version) == Some(v@),
                forall|j: int| 0 <= j < i ==> rs[j].tag_name != v@,
            decreases releases.len() - i,
        {
            let t = chars_of(releases[i].tag_name.as_str());
            if same_chars(&t, &vv) {
                proof {
                    assert(is_first_tag(rs, v@, i as int));
                    lemma_first_tag_unique(rs, v@, i as int);
                    assert(opt_view(*version) == Some(v@));
                    assert(chosen_release(rs, Some(v@)) == Some(i as int));
                }
                return Ok(i);
            }
            i = i + 1;
        }
        assert(!exists|k: int| is_first_tag(rs, v@, k));
    }
    if releases.len() > 0 {
        Ok(0)
    } else {
        Err(owned("No public releases found yet."))
    }
}

/// The asset to download from the chosen release, or the error that names
/// the missing package kind.
pub fn select_download_asset(release: &GitHubRelease, package_preference: PackagePreference) -> (r:
    Result<usize, String>)
    ensures
        match r {
            Ok(i) => chooses_best(
                asset_candidates(release.assets.deep_view(), release_asset_rank(package_preference)),
                Some(i),
            ),
            Err(e) => chooses_best(
                asset_candidates(release.assets.deep_view(), release_asset_rank(package_preference)),
                None,
            ) && e@ == match package_preference {
                PackagePreference::Portable =>
                    "Selected release does not have a portable Windows download asset."@,
                PackagePreference::Installer =>
                    "Selected release does not have a Windows installer asset."@,
            },
        },
{
    match best_release_asset(release, &package_preference) {
        Some(i) => Ok(i),
        None => match package_preference {
            PackagePreference::Portable => Err(
                owned("Selected release does not have a portable Windows download asset."),
            ),
            PackagePreference::Installer => Err(
                owned("Selected release does not have a Windows installer asset."),
            ),
        },
    }
}

/// Whether a downloaded file is a portable program that is launched as it
/// is: a portable download whose name has the `.exe` extension and does not
/// mark an installer.
pub open spec fn portable_executable_download(
    preference: PackagePreference,
    file_name: Seq<char>,
) -> bool {
    preference == PackagePreference::Portable && has_extension(file_name, "exe"@)
        && !installer_asset(lower(file_name))
}

pub fn is_portable_executable_download(preference: PackagePreference, file_name: &str) -> (r: bool)
    ensures
        r == portable_executable_download(preference, file_name@),
{
    if preference != PackagePreference::Portable {
        return false;
    }
    if !has_extension_ignoring_case(file_name, "exe") {
        return false;
    }
    let raw = chars_of(file_name);
    let l = lower_chars(&raw);
    let name = string_of(&l);
    !is_installer_asset_name(name.as_str())
}

/// The name a portable program is kept under: the repository, made safe,
/// with `.exe`.
pub fn stable_portable_exe_name(launcher_app: &LauncherApp) -> (r: String)
    ensures
        r@ == safe_segment(launcher_app.repo@) + ".exe"@,
{
    let segment = safe_file_segment(launcher_app.repo.as_str());
    concat(segment.as_str(), ".exe")
}

/// The versions a download keeps: the new one, and the one installed before
/// where it is named and differs.
pub open spec fn kept_versions(previous: Option<Seq<char>>, new_version: Seq<char>) -> Seq<
    Seq<char>,
> {
    match previous {
        Some(p) => if !is_blank(p) && p != new_version {
            seq![new_version, p]
        } else {
            seq![new_version]
        },
        None => seq![new_version],
    }
}

/// The app's downloads pruned to the kept versions, at most two, and the
/// selection dropped where its version is gone.
pub open spec fn pruned(
    a: LauncherAppView,
    previous: Option<Seq<char>>,
    new_version: Seq<char>,
) -> LauncherAppView {
    let keep = kept_versions(previous, new_version);
    let vs = a.installed_versions.filter(
        |iv: crate::model::InstalledVersionView| keep.contains(iv.version),
    );
    let vs2 = vs.take(
        if vs.len() > 2 {
            2
        } else {
            vs.len() as int
        },
    );
    let a1 = LauncherAppView { installed_versions: vs2, ..a };
    match a1.selected_version {
        Some(s) => if find_version(vs2, s) is None {
            LauncherAppView { selected_version: None, ..a1 }
        } else {
            a1
        },
        None => a1,
    }
}

pub open spec fn kept_folders(previous: Option<Seq<char>>, new_version: Seq<char>) -> Seq<Seq<char>> {
    kept_versions(previous, new_version).map_values(|v: Seq<char>| safe_segment(v))
}

fn keeps_version(keep: &Vec<String>, version: &String) -> (r: bool)
    ensures
        r == keep.deep_view().contains(version@),
{
    let vv = chars_of(version.as_str());
    let mut i: usize = 0;
    while i < keep.len()
        invariant
            i <= keep.len(),
            vv@ == version@,
            forall|j: int| 0 <= j < i ==> keep.deep_view()[j] != version@,
        decreases keep.len() - i,
    {
        let k = chars_of(keep[i].as_str());
        if same_chars(&k, &vv) {
            assert(keep.deep_view()[i as int] == version@);
            return true;
        }
        i = i + 1;
    }
    false
}

/// Prunes the app's downloads after `new_version` was installed, and returns
/// the version folders to keep on disk.
pub fn prune_installed_versions(
    launcher_app: &mut LauncherApp,
    previous_version: Option<String>,
    new_version: &String,
) -> (r: Vec<String>)
    ensures
        final(launcher_app)@ == pruned(old(launcher_app)@, opt_view(previous_version), new_version@),
        r.deep_view() == kept_folders(opt_view(previous_version), new_version@),
{
    let ghost a = launcher_app@;
    let mut keep_versions: Vec<String> = Vec::new();
    keep_versions.push(new_version.clone());
    if let Some(previous) = previous_version {
        let pv = chars_of(previous.as_str());
        let nv = chars_of(new_version.as_str());
        if !str_is_blank(previous.as_str()) && !same_chars(&pv, &nv) {
            keep_versions.push(previous);
        }
    }
    let ghost keep = keep_versions.deep_view();
    assert(keep =~= kept_versions(opt_view(previous_version), new_version@));
    let ghost pred = |iv: crate::model::InstalledVersionView| keep.contains(iv.version);
    let ghost old_versions = a.installed_versions;
    let mut kept: Vec<crate::model::InstalledVersion> = Vec::new();
    let mut i: usize = 0;
    while i < launcher_app.installed_versions.len()
        invariant
            i <= launcher_app.installed_versions.len(),
            old_versions == launcher_app.installed_versions.deep_view(),
            keep == keep_versions.deep_view(),
            pred == (|iv: crate::model::InstalledVersionView| keep.contains(iv.version)),
            kept.deep_view() == old_versions.subrange(0, i as int).filter(pred),
        decreases launcher_app.installed_versions.len() - i,
    {
        let ghost before = kept.deep_view();
        proof {
            old_versions.subrange(0, i as int).lemma_filter_push(old_versions[i as int], pred);
            assert(old_versions.subrange(0, i + 1) =~= old_versions.subrange(0, i as int).push(
                old_versions[i as int],
            ));
        }
        if keeps_version(&keep_versions, &launcher_app.installed_versions[i].version) {
            kept.push(launcher_app.installed_versions[i].clone());
            assert(kept.deep_view() =~= before.push(old_versions[i as int]));
        }
        i = i + 1;
    }
    assert(old_versions.subrange(0, old_versions.len() as int) =~= old_versions);
    let ghost filtered = kept.deep_view();
    assert(pred =~= (|iv: crate::model::InstalledVersionView|
        kept_versions(opt_view(previous_version), new_version@).contains(iv.version)));
    kept.truncate(2);
    assert(kept.deep_view() =~= filtered.take(
        if filtered.len() > 2 {
            2
        } else {
            filtered.len() as int
        },
    ));
    launcher_app.installed_versions = kept;
    let mut folders: Vec<String> = Vec::new();
    let mut k: usize = 0;
    while k < keep_versions.len()
        invariant
            k <= keep_versions.len(),
            keep == keep_versions.deep_view(),
            folders.deep_view() == keep.subrange(0, k as int).map_values(
                |v: Seq<char>| safe_segment(v),
            ),
        decreases keep_versions.len() - k,
    {
        let ghost before = folders.deep_view();
        let seg = safe_file_segment(keep_versions[k].as_str());
        folders.push(seg);
        proof {
            assert(keep.subrange(0, k + 1) =~= keep.subrange(0, k as int).push(keep[k as int]));
            assert(keep.subrange(0, k as int).push(keep[k as int]).map_values(
                |v: Seq<char>| safe_segment(v),
            ) =~= keep.subrange(0, k as int).map_values(|v: Seq<char>| safe_segment(v)).push(
                safe_segment(keep[k as int]),
            ));
            assert(folders.deep_view() =~= before.push(seg@));
        }
        k = k + 1;
    }
    assert(keep.subrange(0, keep.len() as int) =~= keep);
    if let Some(selected) = clone_opt(&launcher_app.selected_version) {
        if find_version_index(&launcher_app.installed_versions, &selected).is_none() {
            launcher_app.selected_version = None;
        }
    }
    folders
}

/// The state a download leaves on the app before pruning: the newest
/// release's metadata, the release list, the package kind, the downloaded
/// version installed and selected, its launch file or package recorded, and
/// the version added to the downloads.
pub open spec fn downloaded(
    a: LauncherAppView,
    releases: Seq<ReleaseView>,
    tag: Seq<char>,
    preference: PackagePreference,
    executable_path: Option<Seq<char>>,
    package_path: Option<Seq<char>>,
    now: Seq<char>,
) -> LauncherAppView {
    let a1 = if releases.len() > 0 {
        with_release_metadata(a, releases[0], now)
    } else {
        a
    };
    let a2 = LauncherAppView {
        release_options: releases.map_values(|rv: ReleaseView| option_of(rv)),
        package_preference: preference,
        installed_version: Some(tag),
        selected_version: Some(tag),
        ..a1
    };
    let a3 = if executable_path is Some {
        LauncherAppView { executable_path, ..a2 }
    } else {
        a2
    };
    let a4 = if package_path is Some {
        LauncherAppView {
            package_path,
            executable_path: if a3.demo_url is Some {
                None
            } else {
                a3.executable_path
            },
            ..a3
        }
    } else {
        a3
    };
    with_version_added(a4, tag, executable_path, package_path, now)
}

/// Records a finished download on the app at `now` and prunes its
/// downloads; returns the version folders to keep on disk.
pub fn record_download_at(
    launcher_app: &mut LauncherApp,
    releases: &Vec<GitHubRelease>,
    tag_name: &String,
    package_preference: PackagePreference,
    executable_path: Option<String>,
    package_path: Option<String>,
    previous_installed_version: Option<String>,
    now: &str,
) -> (r: Vec<String>)
    ensures
        final(launcher_app)@ == pruned(
            downloaded(
                old(launcher_app)@,
                releases.deep_view(),
                tag_name@,
                package_preference,
                opt_view(executable_path),
                opt_view(package_path),
                now@,
            ),
            opt_view(previous_installed_version),
            tag_name@,
        ),
        r.deep_view() == kept_folders(opt_view(previous_installed_version), tag_name@),
{
    if releases.len() > 0 {
        apply_release_metadata(launcher_app, &releases[0], now);
    }
    launcher_app.release_options = release_options(releases);
    launcher_app.package_preference = package_preference;
    launcher_app.installed_version = Some(tag_name.clone());
    launcher_app.selected_version = Some(tag_name.clone());
    if executable_path.is_some() {
        launcher_app.executable_path = clone_opt(&executable_path);
    }
    if package_path.is_some() {
        launcher_app.package_path = clone_opt(&package_path);
        if launcher_app.demo_url.is_some() {
            launcher_app.executable_path = None;
        }
    }
    add_installed_version_at(launcher_app, tag_name.clone(), executable_path, package_path, now);
    prune_installed_versions(launcher_app, previous_installed_version, tag_name)
}

/// The path a download reports: its launch file, else its package, else the
/// downloaded file.
pub fn download_result_path(
    executable_path: &Option<String>,
    package_path: &Option<String>,
    target_path: &String,
) -> (r: String)
    ensures
        r@ == match opt_view(*executable_path) {
            Some(p) => p,
            None => match opt_view(*package_path) {
                Some(p) => p,
                None => target_path@,
            },
        },
{
    match executable_path {
        Some(p) => p.clone(),
        None => match package_path {
            Some(p) => p.clone(),
            None => target_path.clone(),
        },
    }
}

/// What becomes of a downloaded file.
#[derive(Debug)]
pub struct DownloadHandling {
    /// The file is a zip archive.
    pub is_archive: bool,
    /// The archive is the package of a wallpaper (an app with a hosted
    /// demo) and is kept as it is.
    pub wallpaper_package: bool,
    /// The archive is unpacked into the version folder.
    pub extract: bool,
}

pub fn download_handling(launcher_app: &LauncherApp, file_name: &str) -> (r: DownloadHandling)
    ensures
        r.is_archive == has_extension(file_name@, "zip"@),
        r.wallpaper_package == (launcher_app@.demo_url is Some && r.is_archive),
        r.extract == (r.is_archive && !r.wallpaper_package),
{
    let is_archive = has_extension_ignoring_case(file_name, "zip");
    let wallpaper_package = launcher_app.demo_url.is_some() && is_archive;
    DownloadHandling { is_archive, wallpaper_package, extract: is_archive && !wallpaper_package }
}

/// Where a download's launch file comes from.
#[derive(Clone, Copy, Debug, PartialEq, Eq, Structural)]
pub enum DownloadedLaunch {
    /// The downloaded file itself.
    DownloadedFile,
    /// The best launch file found in the version folder.
    SearchFolder,
    /// None: an installer was downloaded.
    NoLaunchFile,
}

/// Where the launch file of a download with the given package kind and file
/// name comes from.
pub fn downloaded_launch(preference: PackagePreference, file_name: &str) -> (r: DownloadedLaunch)
    ensures
        r == if portable_executable_download(preference, file_name@) {
            DownloadedLaunch::DownloadedFile
        } else if preference == PackagePreference::Portable {
            DownloadedLaunch::SearchFolder
        } else {
            DownloadedLaunch::NoLaunchFile
        },
{
    if is_portable_executable_download(preference, file_name) {
        DownloadedLaunch::DownloadedFile
    } else if preference == PackagePreference::Portable {
        DownloadedLaunch::SearchFolder
    } else {
        DownloadedLaunch::NoLaunchFile
    }
}

/// Records a finished download on the app, stamped with the current time,
/// and prunes its downloads; returns the version folders to keep on disk.
pub fn record_download(
    launcher_app: &mut LauncherApp,
    releases: &Vec<GitHubRelease>,
    tag_name: &String,
    package_preference: PackagePreference,
    executable_path: Option<String>,
    package_path: Option<String>,
    previous_installed_version: Option<String>,
) -> (r: Vec<String>)
    ensures
        exists|t: Seq<char>|
            final(launcher_app)@ == #[trigger] pruned(
                downloaded(
                    old(launcher_app)@,
                    releases.deep_view(),
                    tag_name@,
                    package_preference,
                    opt_view(executable_path),
                    opt_view(package_path),
                    t,
                ),
                opt_view(previous_installed_version),
                tag_name@,
            ),
        r.deep_view() == kept_folders(opt_view(previous_installed_version), tag_name@),
{
    let now = crate::host::current_time();
    let ghost (e, p, v) = (opt_view(executable_path), opt_view(package_path), opt_view(previous_installed_version));
    let r = record_download_at(
        launcher_app,
        releases,
        tag_name,
        package_preference,
        executable_path,
        package_path,
        previous_installed_version,
        now.as_str(),
    );
    assert(launcher_app@ == pruned(
        downloaded(old(launcher_app)@, releases.deep_view(), tag_name@, package_preference, e, p, now@),
        v,
        tag_name@,
    ));
    r
}

} // verus!
