use neko_control_center::catalog::app;
use neko_control_center::download::{
    apply_scan_outcome, download_handling, download_result_path, downloaded_launch,
    is_portable_executable_download, mark_coming_soon_scanned, plan_download,
    prune_installed_versions, record_download_at, release_fetch_error, releases_api_url,
    releases_page_url, require_releases, select_download_asset, select_release,
    stable_portable_exe_name, DownloadRequest, DownloadedLaunch,
};
use neko_control_center::install::{
    add_installed_version_at, merge_catalog_apps_with, normalize_install_state_with, select_installed_version_on,
    Disk,
};
use neko_control_center::model::{
    GitHubRelease, GitHubReleaseAsset, InstalledVersion, LauncherApp, PackagePreference, ToolStatus,
};

fn tool(id: &str, name: &str) -> LauncherApp {
    app(id, name, name, "d", "#000000", "XX", "Fun Stuff", ToolStatus::Available, None)
}

fn version(v: &str, exe: &str) -> InstalledVersion {
    InstalledVersion {
        version: v.to_string(),
        executable_path: Some(exe.to_string()),
        package_path: None,
        installed_at: "then".to_string(),
    }
}

fn disk(paths: &[&str]) -> Disk {
    Disk { existing: paths.iter().map(|p| p.to_string()).collect() }
}

fn asset(name: &str) -> GitHubReleaseAsset {
    GitHubReleaseAsset { name: name.to_string(), browser_download_url: format!("https://dl/{name}") }
}

fn release(tag: &str, assets: Vec<GitHubReleaseAsset>) -> GitHubRelease {
    GitHubRelease {
        tag_name: tag.to_string(),
        html_url: format!("https://github.com/neko-legends/X/releases/tag/{tag}"),
        body: Some("Notes".to_string()),
        assets,
    }
}

fn err<T>(r: Result<T, String>) -> String {
    match r {
        Ok(_) => panic!("expected an error"),
        Err(e) => e,
    }
}

#[test]
fn install_state_follows_the_selected_download_on_disk() {
    let mut a = tool("x", "X");
    a.installed_versions = vec![version("v2", "C:/apps/x/v2/x.exe"), version("v1", "C:/apps/x/v1/x.exe")];
    a.selected_version = Some("v1".to_string());
    a.installed_version = Some("v2".to_string());
    a.executable_path = Some("C:/apps/x/v2/x.exe".to_string());
    let d = disk(&["C:/apps/x/v2/x.exe", "C:/apps/x/v1/x.exe"]);
    normalize_install_state_with(&mut a, &d, "now");
    assert_eq!(a.installed_version, Some("v1".to_string()));
    assert_eq!(a.executable_path, Some("C:/apps/x/v1/x.exe".to_string()));
    assert_eq!(a.installed_versions.len(), 2);
}

#[test]
fn downloads_missing_from_disk_are_dropped() {
    let mut a = tool("x", "X");
    a.installed_versions = vec![version("v2", "C:/apps/x/v2/x.exe"), version("v1", "C:/apps/x/v1/x.exe")];
    a.selected_version = Some("v1".to_string());
    normalize_install_state_with(&mut a, &disk(&["C:/apps/x/v2/x.exe"]), "now");
    assert_eq!(a.installed_versions.len(), 1);
    assert_eq!(a.installed_version, Some("v2".to_string()));
    assert_eq!(a.executable_path, Some("C:/apps/x/v2/x.exe".to_string()));
}

#[test]
fn an_unrecorded_install_on_disk_is_recorded() {
    let mut a = tool("x", "X");
    a.installed_version = Some("v3".to_string());
    a.executable_path = Some("C:/apps/x/v3/x.exe".to_string());
    normalize_install_state_with(&mut a, &disk(&["C:/apps/x/v3/x.exe"]), "now");
    assert_eq!(a.installed_versions.len(), 1);
    assert_eq!(a.installed_versions[0].version, "v3");
    assert_eq!(a.installed_versions[0].installed_at, "now");
}

#[test]
fn at_most_two_downloads_survive_normalization() {
    let mut a = tool("x", "X");
    a.installed_versions = vec![version("v3", "p3"), version("v2", "p2"), version("v1", "p1")];
    normalize_install_state_with(&mut a, &disk(&["p1", "p2", "p3"]), "now");
    assert_eq!(a.installed_versions.len(), 2);
}

#[test]
fn selecting_a_version_checks_it_is_downloaded_and_on_disk() {
    let mut a = tool("x", "X");
    a.installed_versions = vec![version("v2", "p2"), version("v1", "p1")];
    assert_eq!(err(select_installed_version_on(&mut a, &"v9".to_string(), &disk(&["p1", "p2"]))), "Selected version is not downloaded yet.");
    assert_eq!(err(select_installed_version_on(&mut a, &"v1".to_string(), &disk(&["p2"]))), "Selected version is no longer on disk.");
    assert!(select_installed_version_on(&mut a, &"v1".to_string(), &disk(&["p1"])).is_ok());
    assert_eq!(a.selected_version, Some("v1".to_string()));
    assert_eq!(a.installed_version, Some("v1".to_string()));
    assert_eq!(a.executable_path, Some("p1".to_string()));
}

#[test]
fn adding_a_version_puts_it_first_once() {
    let mut a = tool("x", "X");
    a.installed_versions = vec![version("v1", "p1"), version("v2", "p2")];
    add_installed_version_at(&mut a, "v2".to_string(), Some("new".to_string()), None, "now");
    let vs: Vec<&str> = a.installed_versions.iter().map(|v| v.version.as_str()).collect();
    assert_eq!(vs, vec!["v2", "v1"]);
    assert_eq!(a.installed_versions[0].executable_path, Some("new".to_string()));
}

#[test]
fn merging_saved_state_keeps_saved_order_then_new_catalog_apps() {
    let mut saved_b = tool("b", "Old B");
    saved_b.visible = false;
    saved_b.category = "Mine".to_string();
    saved_b.package_preference = PackagePreference::Installer;
    let saved = vec![saved_b, tool("gone", "Gone")];
    let defaults = vec![tool("a", "A"), tool("b", "New B")];
    let merged = merge_catalog_apps_with(saved, defaults, &disk(&[]), "now");
    let ids: Vec<&str> = merged.iter().map(|m| m.id.as_str()).collect();
    assert_eq!(ids, vec!["b", "a"]);
    assert_eq!(merged[0].name, "New B");
    assert!(!merged[0].visible);
    assert_eq!(merged[0].category, "Mine");
    assert_eq!(merged[0].package_preference, PackagePreference::Installer);
}

#[test]
fn merging_clears_release_state_of_coming_soon_apps() {
    let mut saved = tool("a", "A");
    saved.latest_version = Some("v1".to_string());
    let mut d = tool("a", "A");
    d.status = ToolStatus::ComingSoon;
    let merged = merge_catalog_apps_with(vec![saved], vec![d], &disk(&[]), "now");
    assert_eq!(merged[0].latest_version, None);
    assert_eq!(merged[0].release_notes, Some("Coming soon.".to_string()));
    assert_eq!(merged[0].category, "Under Development");
}

#[test]
fn release_addresses_and_fetch_errors() {
    assert_eq!(releases_page_url("BatchLapse"), "https://github.com/neko-legends/BatchLapse/releases");
    assert_eq!(releases_api_url("BatchLapse"), "https://api.github.com/repos/neko-legends/BatchLapse/releases?per_page=20");
    assert_eq!(release_fetch_error(404, "404 Not Found"), Some("No public releases found yet.".to_string()));
    assert_eq!(release_fetch_error(500, "500 Internal Server Error"), Some("GitHub returned 500 Internal Server Error.".to_string()));
    assert_eq!(release_fetch_error(200, "200 OK"), None);
    assert_eq!(err(require_releases(vec![])), "No public releases found yet.");
}

#[test]
fn scans_record_releases_or_their_absence() {
    let mut a = tool("x", "X");
    let outcome: Result<Vec<GitHubRelease>, String> = Ok(vec![release("v2", vec![]), release("v1", vec![])]);
    apply_scan_outcome(&mut a, &outcome, "now");
    assert_eq!(a.latest_version, Some("v2".to_string()));
    assert_eq!(a.release_options.len(), 2);
    assert_eq!(a.release_checked_at, Some("now".to_string()));
    let none: Result<Vec<GitHubRelease>, String> = Err("No public releases found yet.".to_string());
    apply_scan_outcome(&mut a, &none, "later");
    assert_eq!(a.latest_version, None);
    assert_eq!(a.release_url, Some("https://github.com/neko-legends/X/releases".to_string()));
    assert!(a.release_options.is_empty());
    let failed: Result<Vec<GitHubRelease>, String> = Err("boom".to_string());
    apply_scan_outcome(&mut a, &failed, "last");
    assert_eq!(a.release_notes, Some("boom".to_string()));
    let mut soon = tool("s", "S");
    soon.status = ToolStatus::ComingSoon;
    mark_coming_soon_scanned(&mut soon, "now");
    assert_eq!(soon.release_notes, Some("Coming soon.".to_string()));
    assert_eq!(soon.release_url, Some("https://github.com/neko-legends/S/releases".to_string()));
}

#[test]
fn downloads_are_planned_for_available_apps_only() {
    let mut soon = tool("soon", "Asset Vault");
    soon.status = ToolStatus::ComingSoon;
    let mut ok = tool("ok", "Ok");
    ok.installed_version = Some("v1".to_string());
    let apps = vec![soon, ok];
    let req = |id: &str, p: Option<PackagePreference>| DownloadRequest { app_id: id.to_string(), version: None, package_preference: p };
    assert_eq!(err(plan_download(&apps, &req("nope", None))), "App was not found");
    assert_eq!(err(plan_download(&apps, &req("soon", None))), "Asset Vault is coming soon.");
    let plan = match plan_download(&apps, &req("ok", Some(PackagePreference::Installer))) {
        Ok(p) => p,
        Err(e) => panic!("{e}"),
    };
    assert_eq!(plan.index, 1);
    assert_eq!(plan.repo, "Ok");
    assert_eq!(plan.previous_installed_version, Some("v1".to_string()));
    assert_eq!(plan.package_preference, PackagePreference::Installer);
}

#[test]
fn the_asked_release_or_the_newest_is_taken() {
    let rs = vec![release("v2", vec![]), release("v1", vec![])];
    assert_eq!(select_release(&rs, &Some("v1".to_string())), Ok(1));
    assert_eq!(select_release(&rs, &Some("v9".to_string())), Ok(0));
    assert_eq!(select_release(&rs, &None), Ok(0));
    assert_eq!(err(select_release(&vec![], &None)), "No public releases found yet.");
}

#[test]
fn the_download_asset_matches_the_package_kind() {
    let r = release("v1", vec![asset("X-setup.exe"), asset("X-win-x64-portable.exe"), asset("X-mac.zip")]);
    assert_eq!(select_download_asset(&r, PackagePreference::Portable), Ok(1));
    assert_eq!(select_download_asset(&r, PackagePreference::Installer), Ok(0));
    let mac = release("v1", vec![asset("X-mac.zip")]);
    assert_eq!(err(select_download_asset(&mac, PackagePreference::Portable)), "Selected release does not have a portable Windows download asset.");
    assert_eq!(err(select_download_asset(&mac, PackagePreference::Installer)), "Selected release does not have a Windows installer asset.");
}

#[test]
fn downloaded_files_are_handled_by_kind() {
    assert!(is_portable_executable_download(PackagePreference::Portable, "X-Portable.EXE"));
    assert!(!is_portable_executable_download(PackagePreference::Portable, "X-Setup.exe"));
    assert!(!is_portable_executable_download(PackagePreference::Installer, "X.exe"));
    assert_eq!(downloaded_launch(PackagePreference::Portable, "x.exe"), DownloadedLaunch::DownloadedFile);
    assert_eq!(downloaded_launch(PackagePreference::Portable, "x.zip"), DownloadedLaunch::SearchFolder);
    assert_eq!(downloaded_launch(PackagePreference::Installer, "x.msi"), DownloadedLaunch::NoLaunchFile);
    let mut wallpaper = tool("w", "W");
    wallpaper.demo_url = Some("https://demo".to_string());
    let h = download_handling(&wallpaper, "w.ZIP");
    assert!(h.is_archive && h.wallpaper_package && !h.extract);
    let h = download_handling(&tool("t", "T"), "t.zip");
    assert!(h.is_archive && !h.wallpaper_package && h.extract);
    let h = download_handling(&tool("t", "T"), "t.exe");
    assert!(!h.is_archive && !h.extract);
    assert_eq!(stable_portable_exe_name(&tool("t", "Bad:Name")), "Bad_Name.exe");
    assert_eq!(download_result_path(&None, &Some("pkg.zip".to_string()), &"file".to_string()), "pkg.zip");
    assert_eq!(download_result_path(&None, &None, &"file".to_string()), "file");
}

#[test]
fn pruning_keeps_the_new_and_previous_versions() {
    let mut a = tool("x", "X");
    a.installed_versions = vec![version("v1.1.0", "p3"), version("v1.0.0", "p2"), version("v0.9.0", "p1")];
    a.selected_version = Some("v0.9.0".to_string());
    let folders = prune_installed_versions(&mut a, Some("v1.0.0".to_string()), &"v1.1.0".to_string());
    assert_eq!(folders, vec!["v1.1.0".to_string(), "v1.0.0".to_string()]);
    let vs: Vec<&str> = a.installed_versions.iter().map(|v| v.version.as_str()).collect();
    assert_eq!(vs, vec!["v1.1.0", "v1.0.0"]);
    assert_eq!(a.selected_version, None);
    let folders = prune_installed_versions(&mut a, Some("  ".to_string()), &"v1.1.0".to_string());
    assert_eq!(folders, vec!["v1.1.0".to_string()]);
    assert_eq!(a.installed_versions.len(), 1);
}

#[test]
fn a_recorded_download_is_installed_selected_and_first() {
    let mut a = tool("x", "X");
    a.installed_versions = vec![version("v1", "old.exe")];
    a.installed_version = Some("v1".to_string());
    let rs = vec![release("v2", vec![]), release("v1", vec![])];
    let folders = record_download_at(
        &mut a,
        &rs,
        &"v2".to_string(),
        PackagePreference::Portable,
        Some("new.exe".to_string()),
        None,
        Some("v1".to_string()),
        "now",
    );
    assert_eq!(folders, vec!["v2".to_string(), "v1".to_string()]);
    assert_eq!(a.installed_version, Some("v2".to_string()));
    assert_eq!(a.selected_version, Some("v2".to_string()));
    assert_eq!(a.executable_path, Some("new.exe".to_string()));
    assert_eq!(a.latest_version, Some("v2".to_string()));
    assert_eq!(a.release_options.len(), 2);
    let vs: Vec<&str> = a.installed_versions.iter().map(|v| v.version.as_str()).collect();
    assert_eq!(vs, vec!["v2", "v1"]);
}

#[test]
fn a_wallpaper_download_records_its_package() {
    let mut w = tool("w", "W");
    w.demo_url = Some("https://demo".to_string());
    w.executable_path = Some("stale.html".to_string());
    let rs = vec![release("v1", vec![])];
    record_download_at(&mut w, &rs, &"v1".to_string(), PackagePreference::Portable, None, Some("w.zip".to_string()), None, "now");
    assert_eq!(w.package_path, Some("w.zip".to_string()));
    assert_eq!(w.executable_path, None);
    assert_eq!(w.installed_versions[0].package_path, Some("w.zip".to_string()));
}

#[test]
fn normalizing_twice_against_the_same_disk_changes_nothing() {
    let mut a = tool("x", "X");
    a.installed_versions = vec![version("v3", "p3"), version("v2", "p2"), version("v1", "p1")];
    a.installed_version = Some("v4".to_string());
    a.executable_path = Some("p4".to_string());
    a.selected_version = Some("v3".to_string());
    let d = disk(&["p1", "p2", "p3", "p4"]);
    normalize_install_state_with(&mut a, &d, "now");
    let versions: Vec<(String, Option<String>, String)> = a
        .installed_versions
        .iter()
        .map(|v| (v.version.clone(), v.executable_path.clone(), v.installed_at.clone()))
        .collect();
    assert_eq!(a.installed_version, Some("v3".to_string()));
    assert_eq!(versions[0].0, "v4");
    assert_eq!(versions[1].0, "v3");
    normalize_install_state_with(&mut a, &d, "later");
    let again: Vec<(String, Option<String>, String)> = a
        .installed_versions
        .iter()
        .map(|v| (v.version.clone(), v.executable_path.clone(), v.installed_at.clone()))
        .collect();
    assert_eq!(again, versions);
    assert_eq!(a.installed_version, Some("v3".to_string()));
    assert_eq!(a.executable_path, Some("p3".to_string()));
}
