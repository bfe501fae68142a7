use neko_control_center::files::{
    best_file, control_center_executable_score, lively_info_launch_name, executable_score, file_extension, file_stem,
    has_extension_ignoring_case, is_launch_path, is_launchable_executable_path, is_lively_info_file,
    is_web_launch_path, package_archive_score, safe_file_segment, search_score, web_launch_score,
    FileSearch,
};
use neko_control_center::model::{GitHubRelease, GitHubReleaseAsset, PackagePreference};
use neko_control_center::order::{dedup_sorted, le_str, sort_strings};
use neko_control_center::release::{
    best_control_center_asset, best_release_asset, control_center_asset_score,
    is_installer_asset_name, is_newer_version, is_portable_asset_name, release_asset_score,
    release_notes_excerpt, version_parts,
};
use neko_control_center::text::{chars_of, string_of};

fn names(v: &[&str]) -> Vec<String> {
    v.iter().map(|s| s.to_string()).collect()
}

fn asset(name: &str, url: &str) -> GitHubReleaseAsset {
    GitHubReleaseAsset { name: name.to_string(), browser_download_url: url.to_string() }
}

#[test]
fn extensions_and_stems_follow_path_rules() {
    assert_eq!(file_extension("app.tar.gz"), Some("gz".to_string()));
    assert_eq!(file_extension(".bashrc"), None);
    assert_eq!(file_extension("noext"), None);
    assert_eq!(file_extension("trailing."), Some("".to_string()));
    assert_eq!(file_extension(".."), None);
    assert_eq!(file_stem("app.tar.gz"), "app.tar");
    assert_eq!(file_stem(".bashrc"), ".bashrc");
    assert_eq!(file_stem("cmd-1.json"), "cmd-1");
    assert!(has_extension_ignoring_case("X.EXE", "exe"));
    assert!(!has_extension_ignoring_case("X.exe.txt", "exe"));
}

#[test]
fn launch_files_are_programs_or_pages() {
    assert!(is_launchable_executable_path("BatchLapse.exe"));
    assert!(!is_launchable_executable_path("BatchLapse-Setup.exe"));
    assert!(!is_launchable_executable_path("Uninstall BatchLapse.exe"));
    assert!(!is_launchable_executable_path("updater.exe"));
    assert!(!is_launchable_executable_path("readme.txt"));
    assert!(is_web_launch_path("index.HTML"));
    assert!(is_web_launch_path("index.htm"));
    assert!(is_launch_path("index.html"));
    assert!(!is_launch_path("notes.md"));
    assert!(is_lively_info_file("livelyinfo.JSON"));
    assert!(!is_lively_info_file("LivelyInfo.json.bak"));
}

#[test]
fn install_folder_files_are_scored() {
    assert_eq!(executable_score("BatchLapse.exe", "batchlapse", "BatchLapse"), 50);
    assert_eq!(executable_score("BatchLapse-portable.exe", "batchlapse", "BatchLapse"), 70);
    assert_eq!(executable_score("BatchLapse-Setup.exe", "batchlapse", "BatchLapse"), 15);
    assert_eq!(executable_score("unins000.exe", "batchlapse", "BatchLapse"), 10);
    assert_eq!(control_center_executable_score("neko-legends-control-center-portable.exe"), 305);
    assert_eq!(control_center_executable_score("other.exe"), 10);
    assert_eq!(web_launch_score("index.html", "stargaze", "StarGaze"), 80);
    assert_eq!(web_launch_score("StarGaze-readme.html", "stargaze", "StarGaze"), -60);
    assert_eq!(package_archive_score("stargaze-src.zip", "stargaze", "StarGaze"), 20);
    assert_eq!(package_archive_score("StarGaze-wallpaper.zip", "stargaze", "StarGaze"), 60);
    assert_eq!(search_score(FileSearch::Executable, "notes.txt", "a", "b"), None);
}

#[test]
fn the_first_best_file_of_a_walk_is_chosen() {
    let found = names(&["readme.txt", "unins000.exe", "BatchLapse-portable.exe", "BatchLapse.exe", "Copy-BatchLapse-portable.exe"]);
    assert_eq!(best_file(FileSearch::Executable, &found, "batchlapse", "BatchLapse"), Some(2));
    assert_eq!(best_file(FileSearch::Executable, &names(&["a.txt"]), "x", "X"), None);
    assert_eq!(best_file(FileSearch::UpdateExecutable, &names(&["tool.exe"]), "", ""), None);
    assert_eq!(best_file(FileSearch::UpdateExecutable, &names(&["tool.exe", "control.exe"]), "", ""), Some(1));
    assert_eq!(best_file(FileSearch::PackageArchive, &names(&["src.zip", "stargaze.zip"]), "stargaze", "StarGaze"), Some(1));
}

#[test]
fn file_segments_are_made_safe() {
    assert_eq!(safe_file_segment("a<b>:c."), "a_b__c");
    assert_eq!(safe_file_segment("  v1.2.0  "), "v1.2.0");
    assert_eq!(safe_file_segment("..."), "download");
    assert_eq!(safe_file_segment(""), "download");
    assert_eq!(safe_file_segment("tab\there"), "tab_here");
}

#[test]
fn asset_names_are_classified() {
    assert!(is_installer_asset_name("x-setup.exe"));
    assert!(is_installer_asset_name("x.msi"));
    assert!(!is_installer_asset_name("x.exe"));
    assert!(is_portable_asset_name("x.zip"));
    assert!(is_portable_asset_name("x.exe"));
    assert!(!is_portable_asset_name("x-setup.exe"));
}

#[test]
fn release_assets_are_scored() {
    let p = PackagePreference::Portable;
    let i = PackagePreference::Installer;
    assert_eq!(release_asset_score(&asset("BatchLapse-1.2.0-win-x64-portable.exe", "u"), &p), 160);
    assert_eq!(release_asset_score(&asset("BatchLapse-Setup-1.2.0.exe", "u"), &p), -100);
    assert_eq!(release_asset_score(&asset("BatchLapse-Setup-1.2.0.exe", "u"), &i), 115);
    assert_eq!(release_asset_score(&asset("BatchLapse-1.2.0-mac.zip", "u"), &p), -100);
    assert_eq!(release_asset_score(&asset("x.zip", "u"), &p), 65);
    assert_eq!(control_center_asset_score(&asset("neko-legends-control-center-portable.exe", "u")), 385);
    assert_eq!(control_center_asset_score(&asset("updater.exe", "u")), -100);
}

#[test]
fn the_last_best_asset_with_a_link_is_chosen() {
    let r = GitHubRelease {
        tag_name: "v1".to_string(),
        html_url: "h".to_string(),
        body: None,
        assets: vec![asset("a.exe", "u1"), asset("b.exe", "u2"), asset("c-portable.exe", "  ")],
    };
    assert_eq!(best_release_asset(&r, &PackagePreference::Portable), Some(1));
    assert_eq!(best_release_asset(&r, &PackagePreference::Installer), None);
    assert_eq!(best_control_center_asset(&r), Some(1));
}

#[test]
fn versions_are_compared_part_by_part() {
    assert_eq!(version_parts("v1.2.3-beta4"), vec![1, 2, 3, 4]);
    assert_eq!(version_parts("  vv26.06.22 "), vec![26, 6, 22]);
    assert_eq!(version_parts("99999999999.1"), vec![0, 1]);
    assert!(is_newer_version("v26.6.22", "26.6.21"));
    assert!(is_newer_version("1.10", "1.9"));
    assert!(!is_newer_version("1.0", "1.0.0"));
    assert!(!is_newer_version("1.2", "1.2"));
    assert!(!is_newer_version("", ""));
    assert!(!is_newer_version("1.9", "1.10"));
}

#[test]
fn newer_is_a_strict_order_on_examples() {
    let vs = ["1.0", "1.0.1", "1.1", "v2", "2.0.0-rc1"];
    for a in vs {
        assert!(!is_newer_version(a, a));
        for b in vs {
            if is_newer_version(a, b) {
                assert!(!is_newer_version(b, a));
                for c in vs {
                    if is_newer_version(b, c) {
                        assert!(is_newer_version(a, c));
                    }
                }
            }
        }
    }
}

#[test]
fn release_notes_are_cut_to_240_characters() {
    let long: String = std::iter::repeat('é').take(300).collect();
    let cut = release_notes_excerpt(&Some(long)).unwrap();
    assert_eq!(cut.chars().count(), 240);
    assert_eq!(release_notes_excerpt(&Some("short".to_string())), Some("short".to_string()));
    assert_eq!(release_notes_excerpt(&None), None);
}

#[test]
fn strings_are_sorted_and_deduplicated() {
    let sorted = sort_strings(names(&["b", "a", "B", "ab", "a", ""]));
    assert_eq!(sorted, names(&["", "B", "a", "a", "ab", "b"]));
    assert_eq!(dedup_sorted(sorted), names(&["", "B", "a", "ab", "b"]));
    assert!(le_str("abc", "abd"));
    assert!(le_str("ab", "abc"));
    assert!(!le_str("é", "z"));
}

#[test]
fn characters_round_trip_through_strings() {
    let s = "Neko Légendes";
    assert_eq!(string_of(&chars_of(s)), s);
    assert_eq!(chars_of(s).len(), 13);
}

#[test]
fn lively_descriptions_name_their_launch_file() {
    assert_eq!(lively_info_launch_name("{\"FileName\": \"index.html\", \"Title\": \"Stars\"}"), Some("index.html".to_string()));
    assert_eq!(lively_info_launch_name("{\"FileName\": \"  \"}"), None);
    assert_eq!(lively_info_launch_name("{\"FileName\": 3}"), None);
    assert_eq!(lively_info_launch_name("{\"Title\": \"Stars\"}"), None);
    assert_eq!(lively_info_launch_name("[\"FileName\"]"), None);
    assert_eq!(lively_info_launch_name("not json"), None);
}
