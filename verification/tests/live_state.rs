use neko_control_center::catalog::app;
use neko_control_center::download::record_download;
use neko_control_center::host::disk_of_paths;
use neko_control_center::install::{
    add_installed_version, app_download_artifact_exists, app_paths, disk_of_apps,
    installed_version_artifact_exists, merge_catalog_apps, normalize_install_state,
    path_option_exists, select_installed_version,
};
use neko_control_center::layout::{apply_detected_install, save_layout_apps, DetectedInstall};
use neko_control_center::model::{GitHubRelease, InstalledVersion, LauncherApp, PackagePreference, ToolStatus};

const MISSING: &str = "/no/such/folder/neko-legends/app.exe";

fn tool(id: &str) -> LauncherApp {
    app(id, id, id, "d", "#000000", "XX", "Fun Stuff", ToolStatus::Available, None)
}

fn version(v: &str, exe: &str) -> InstalledVersion {
    InstalledVersion { version: v.to_string(), executable_path: Some(exe.to_string()), package_path: None, installed_at: "then".to_string() }
}

fn looks_like_rfc3339(s: &str) -> bool {
    s.len() >= 20 && s.as_bytes()[4] == b'-' && s.as_bytes()[10] == b'T'
}

#[test]
fn existence_is_read_from_disk() {
    assert!(path_option_exists(&Some(".".to_string())));
    assert!(!path_option_exists(&Some(MISSING.to_string())));
    assert!(!path_option_exists(&None));
    let mut a = tool("a");
    a.executable_path = Some(".".to_string());
    assert!(app_download_artifact_exists(&a));
    a.demo_url = Some("https://demo".to_string());
    assert!(!app_download_artifact_exists(&a));
    assert!(installed_version_artifact_exists(&tool("b"), &version("v1", ".")));
    let disk = disk_of_paths(&vec![MISSING.to_string(), ".".to_string()]);
    assert_eq!(disk.existing, vec![".".to_string()]);
}

#[test]
fn the_paths_an_app_names() {
    let mut a = tool("a");
    a.executable_path = Some("x.exe".to_string());
    a.installed_versions = vec![version("v1", "v1.exe")];
    let mut b = tool("b");
    b.package_path = Some("b.zip".to_string());
    let apps = vec![a, b];
    assert_eq!(app_paths(&apps), vec!["x.exe".to_string(), "v1.exe".to_string(), "b.zip".to_string()]);
    assert!(disk_of_apps(&apps).existing.is_empty());
}

#[test]
fn a_download_recorded_now_is_stamped_with_the_time() {
    let mut a = tool("a");
    add_installed_version(&mut a, "v1".to_string(), Some("v1.exe".to_string()), None);
    assert_eq!(a.installed_versions[0].version, "v1");
    assert!(looks_like_rfc3339(&a.installed_versions[0].installed_at));
}

#[test]
fn normalizing_now_drops_downloads_missing_from_disk() {
    let mut a = tool("a");
    a.installed_versions = vec![version("v2", MISSING), version("v1", ".")];
    normalize_install_state(&mut a);
    assert_eq!(a.installed_versions.len(), 1);
    assert_eq!(a.installed_version, Some("v1".to_string()));
    assert_eq!(a.executable_path, Some(".".to_string()));
}

#[test]
fn selecting_now_checks_the_disk() {
    let mut a = tool("a");
    a.installed_versions = vec![version("v2", MISSING), version("v1", ".")];
    match select_installed_version(&mut a, &"v2".to_string()) {
        Ok(()) => panic!("a missing download was selected"),
        Err(e) => assert_eq!(e, "Selected version is no longer on disk."),
    }
    assert!(select_installed_version(&mut a, &"v1".to_string()).is_ok());
    assert_eq!(a.selected_version, Some("v1".to_string()));
}

#[test]
fn merging_and_saving_layouts_now() {
    let mut saved = tool("b");
    saved.visible = false;
    let merged = merge_catalog_apps(vec![saved], vec![tool("a"), tool("b")]);
    let ids: Vec<&str> = merged.iter().map(|m| m.id.as_str()).collect();
    assert_eq!(ids, vec!["b", "a"]);
    let mut hidden = tool("a");
    hidden.visible = false;
    let laid = save_layout_apps(vec![hidden], vec![tool("a")]);
    assert!(laid[0].visible);
}

#[test]
fn detected_installs_and_downloads_are_stamped_now() {
    let mut a = tool("a");
    apply_detected_install(&mut a, DetectedInstall { executable_path: Some("a.exe".to_string()), package_path: None, version: Some("v3".to_string()) });
    assert_eq!(a.installed_version, Some("v3".to_string()));
    assert!(looks_like_rfc3339(&a.installed_versions[0].installed_at));
    let folders = record_download(&mut a, &Vec::<GitHubRelease>::new(), &"v4".to_string(), PackagePreference::Portable, Some("v4.exe".to_string()), None, Some("v3".to_string()));
    assert_eq!(folders, vec!["v4".to_string(), "v3".to_string()]);
    assert_eq!(a.selected_version, Some("v4".to_string()));
    assert!(looks_like_rfc3339(&a.installed_versions[0].installed_at));
}
