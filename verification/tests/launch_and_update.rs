use neko_control_center::agent_api::{default_agent_api_entries, default_agent_api_entry};
use neko_control_center::catalog::app;
use neko_control_center::install::Disk;
use neko_control_center::layout::{
    apply_detected_install_at, configured_launch_path, ensure_some_visible, find_app,
    headless_executable_check, headless_launch_args, headless_launch_target, hosted_demo_url, install_folder_source,
    launch_kind, local_install_from, prepare_launch, release_page_url, repository_url,
    reset_layout_apps, save_executable_path, save_layout_apps_with, DetectedInstall, LaunchKind,
};
use neko_control_center::model::{GitHubRelease, GitHubReleaseAsset, InstalledVersion, LauncherApp, PackagePreference, ToolStatus};
use neko_control_center::update::{
    control_center_release_url, control_center_update_from, plan_control_center_update,
    update_package_kind, UpdatePackage,
};

fn tool(id: &str) -> LauncherApp {
    app(id, id, id, "d", "#000000", "XX", "Fun Stuff", ToolStatus::Available, None)
}

fn disk(paths: &[&str]) -> Disk {
    Disk { existing: paths.iter().map(|p| p.to_string()).collect() }
}

fn err<T>(r: Result<T, String>) -> String {
    match r {
        Ok(_) => panic!("expected an error"),
        Err(e) => e,
    }
}

fn release(tag: &str, body: Option<String>, assets: &[&str]) -> GitHubRelease {
    GitHubRelease {
        tag_name: tag.to_string(),
        html_url: format!("https://github.com/neko-legends/NekoLegendsControlCenter/releases/tag/{tag}"),
        body,
        assets: assets
            .iter()
            .map(|n| GitHubReleaseAsset { name: n.to_string(), browser_download_url: format!("https://dl/{n}") })
            .collect(),
    }
}

#[test]
fn a_layout_that_hides_everything_shows_everything() {
    let mut a = tool("a");
    a.visible = false;
    let mut b = tool("b");
    b.visible = false;
    let shown = ensure_some_visible(vec![a, b]);
    assert!(shown.iter().all(|x| x.visible));
    let mut c = tool("c");
    c.visible = false;
    let kept = ensure_some_visible(vec![c, tool("d")]);
    assert!(!kept[0].visible && kept[1].visible);
    assert!(ensure_some_visible(vec![]).is_empty());
    let mut hidden = tool("a");
    hidden.visible = false;
    let saved = save_layout_apps_with(vec![hidden], vec![tool("a")], &disk(&[]), "now");
    assert_eq!(saved.len(), 1);
    assert!(saved[0].visible);
}

#[test]
fn a_reset_layout_keeps_install_state_and_shows_all() {
    let mut current = tool("a");
    current.visible = false;
    current.executable_path = Some("a.exe".to_string());
    current.package_preference = PackagePreference::Installer;
    current.category = "Mine".to_string();
    let reset = reset_layout_apps(&vec![current], &vec![tool("b"), tool("a")]);
    let ids: Vec<&str> = reset.iter().map(|x| x.id.as_str()).collect();
    assert_eq!(ids, vec!["b", "a"]);
    assert!(reset.iter().all(|x| x.visible));
    assert_eq!(reset[1].executable_path, Some("a.exe".to_string()));
    assert_eq!(reset[1].package_preference, PackagePreference::Installer);
    assert_eq!(reset[1].category, "Fun Stuff");
}

#[test]
fn a_launch_file_must_exist_and_be_launchable() {
    let mut apps = vec![tool("a")];
    assert_eq!(err(save_executable_path(&mut apps, &"zz".to_string(), "x.exe", "x.exe", &disk(&["x.exe"]))), "App was not found");
    assert_eq!(err(save_executable_path(&mut apps, &"a".to_string(), " x.exe ", "x.exe", &disk(&[]))), "Launch path does not exist");
    assert_eq!(
        err(save_executable_path(&mut apps, &"a".to_string(), "notes.txt", "notes.txt", &disk(&["notes.txt"]))),
        "Choose an .exe, .html, or .htm launch file."
    );
    assert_eq!(apps[0].executable_path, None);
    assert!(save_executable_path(&mut apps, &"a".to_string(), " C:/a/x.exe ", "x.exe", &disk(&["C:/a/x.exe"])).is_ok());
    assert_eq!(apps[0].executable_path, Some("C:/a/x.exe".to_string()));
}

#[test]
fn launches_are_prepared_from_the_configured_file() {
    let mut a = tool("a");
    a.installed_versions = vec![
        InstalledVersion { version: "v2".to_string(), executable_path: Some("v2.exe".to_string()), package_path: None, installed_at: "t".to_string() },
        InstalledVersion { version: "v1".to_string(), executable_path: Some("v1.exe".to_string()), package_path: None, installed_at: "t".to_string() },
    ];
    a.executable_path = Some("v2.exe".to_string());
    let mut apps = vec![a, tool("b")];
    let d = disk(&["v1.exe", "v2.exe"]);
    assert_eq!(err(prepare_launch(&mut apps, &"zz".to_string(), &None, &d)), "App was not found");
    assert_eq!(err(prepare_launch(&mut apps, &"b".to_string(), &None, &d)), "No launch file has been configured for this app");
    assert_eq!(err(prepare_launch(&mut apps, &"a".to_string(), &Some("v9".to_string()), &d)), "Selected version is not downloaded yet.");
    assert_eq!(prepare_launch(&mut apps, &"a".to_string(), &Some("  ".to_string()), &d), Ok((0, "v2.exe".to_string())));
    assert_eq!(prepare_launch(&mut apps, &"a".to_string(), &Some("v1".to_string()), &d), Ok((0, "v1.exe".to_string())));
    assert_eq!(apps[0].selected_version, Some("v1".to_string()));
    assert_eq!(err(prepare_launch(&mut apps, &"a".to_string(), &None, &disk(&[]))), "Configured launch file no longer exists");
    assert_eq!(configured_launch_path(&apps[0], &d), Ok("v1.exe".to_string()));
    assert_eq!(find_app(&apps, &"b".to_string()), Ok(1));
}

#[test]
fn launch_files_start_as_programs_or_pages() {
    assert_eq!(launch_kind("Tool.exe"), Ok(LaunchKind::Executable));
    assert_eq!(launch_kind("index.html"), Ok(LaunchKind::WebPage));
    assert_eq!(launch_kind("Tool-Setup.exe"), Err("Configured launch file is not supported".to_string()));
}

#[test]
fn headless_launches_need_a_program_in_the_registry() {
    let entries = default_agent_api_entries();
    let id = "batchlapse".to_string();
    assert_eq!(err(headless_launch_args("index.html", &entries, &id)), "Headless Agent API launch requires a Windows executable.");
    assert_eq!(err(headless_launch_args("x.exe", &entries, &"markrush".to_string())), "This app is not in the Agent API registry.");
    assert_eq!(headless_launch_args("x.exe", &entries, &id), Ok(vec!["--headless".to_string(), "--agent-api-port".to_string(), "17336".to_string()]));
    let extra = vec![default_agent_api_entry("markrush", "MarkRush", 17400, "127.0.0.1", "n")];
    assert_eq!(
        err(headless_launch_args("x.exe", &extra, &"markrush".to_string())),
        "This app does not advertise a Control Center headless launch mode yet."
    );
    let mut a = tool("batchlapse");
    a.executable_path = Some("b.exe".to_string());
    assert_eq!(headless_launch_target(&vec![a], &id, &disk(&["b.exe"])), Ok("b.exe".to_string()));
}

#[test]
fn pages_opened_for_an_app() {
    let mut a = tool("BatchLapse");
    assert_eq!(release_page_url(&a), "https://github.com/neko-legends/BatchLapse/releases");
    a.release_url = Some("   ".to_string());
    assert_eq!(release_page_url(&a), "https://github.com/neko-legends/BatchLapse/releases");
    a.release_url = Some("https://github.com/neko-legends/BatchLapse/releases/tag/v1".to_string());
    assert_eq!(release_page_url(&a), "https://github.com/neko-legends/BatchLapse/releases/tag/v1");
    assert_eq!(repository_url("BatchLapse"), "https://github.com/neko-legends/BatchLapse");
    assert_eq!(err(hosted_demo_url(&a)), "This app does not have a hosted demo.");
    a.demo_url = Some(" ".to_string());
    assert_eq!(err(hosted_demo_url(&a)), "This app does not have a hosted demo.");
    a.demo_url = Some("https://nekolegends.com/res/projects/starGaze/".to_string());
    assert_eq!(hosted_demo_url(&a), Ok("https://nekolegends.com/res/projects/starGaze/".to_string()));
    assert_eq!(install_folder_source(&a), None);
    a.package_path = Some("p.zip".to_string());
    assert_eq!(install_folder_source(&a), Some("p.zip".to_string()));
    a.executable_path = Some("x.exe".to_string());
    assert_eq!(install_folder_source(&a), Some("x.exe".to_string()));
}

#[test]
fn installs_found_on_disk_are_recorded() {
    let plain = tool("a");
    let d = local_install_from(&plain, Some("C:/apps/a/v1/a.exe".to_string()), Some("v1".to_string())).unwrap();
    assert_eq!(d.executable_path, Some("C:/apps/a/v1/a.exe".to_string()));
    assert_eq!(d.package_path, None);
    assert_eq!(d.version, Some("v1".to_string()));
    assert!(local_install_from(&plain, None, Some("v1".to_string())).is_none());
    let mut wallpaper = tool("w");
    wallpaper.demo_url = Some("https://demo".to_string());
    let w = local_install_from(&wallpaper, Some("w.zip".to_string()), Some("  ".to_string())).unwrap();
    assert_eq!(w.package_path, Some("w.zip".to_string()));
    assert_eq!(w.executable_path, None);
    assert_eq!(w.version, None);
    let mut a = tool("a");
    apply_detected_install_at(&mut a, d, "now");
    assert_eq!(a.installed_version, Some("v1".to_string()));
    assert_eq!(a.executable_path, Some("C:/apps/a/v1/a.exe".to_string()));
    assert_eq!(a.installed_versions.len(), 1);
    assert_eq!(a.installed_versions[0].installed_at, "now");
    let mut b = tool("b");
    apply_detected_install_at(&mut b, DetectedInstall { executable_path: Some("b.exe".to_string()), package_path: None, version: None }, "now");
    assert_eq!(b.executable_path, Some("b.exe".to_string()));
    assert!(b.installed_versions.is_empty());
}

#[test]
fn the_launcher_update_report() {
    let long = "n".repeat(300);
    let u = control_center_update_from(&vec![release("v26.7.0", Some(long), &[]), release("v26.6.0", None, &[])], "26.6.22", "now");
    assert_eq!(u.latest_version, Some("v26.7.0".to_string()));
    assert!(u.update_available);
    assert_eq!(u.release_notes.unwrap().len(), 240);
    assert_eq!(u.current_version, "26.6.22");
    let none = control_center_update_from(&vec![], "26.6.22", "now");
    assert_eq!(none.latest_version, None);
    assert!(!none.update_available);
    assert_eq!(control_center_release_url(&none), "https://github.com/neko-legends/NekoLegendsControlCenter/releases");
    let same = control_center_update_from(&vec![release("26.6.22", None, &[])], "v26.6.22", "now");
    assert!(!same.update_available);
    assert_eq!(control_center_release_url(&same), "https://github.com/neko-legends/NekoLegendsControlCenter/releases/tag/26.6.22");
}

#[test]
fn the_launcher_update_plan() {
    assert_eq!(err(plan_control_center_update(&vec![], "1.0")), "No public Control Center releases found yet.");
    assert_eq!(err(plan_control_center_update(&vec![release("v1.0", None, &["x.exe"])], "1.0")), "Control Center is already up to date.");
    assert_eq!(
        err(plan_control_center_update(&vec![release("v2.0", None, &["x-mac.zip", "updater.exe"])], "1.0")),
        "The latest Control Center release does not have a portable Windows download yet."
    );
    assert_eq!(
        plan_control_center_update(&vec![release("v2.0", None, &["x-setup.exe", "neko-legends-control-center-portable.exe"])], "1.0"),
        Ok(1)
    );
    assert_eq!(update_package_kind("NekoLegends.exe"), Ok(UpdatePackage::Executable));
    assert_eq!(update_package_kind("NekoLegends.zip"), Ok(UpdatePackage::Archive));
    assert_eq!(update_package_kind("NekoLegends.msi"), Err("The latest Control Center download is not a portable Windows app.".to_string()));
}

#[test]
fn headless_start_needs_a_windows_executable() {
    assert!(headless_executable_check("NekoTool.exe").is_ok());
    assert!(headless_executable_check("NekoTool.EXE").is_ok());
    assert_eq!(err(headless_executable_check("index.html")), "Headless Agent API launch requires a Windows executable.");
    assert_eq!(err(headless_executable_check("Uninstall.exe")), "Headless Agent API launch requires a Windows executable.");
}
