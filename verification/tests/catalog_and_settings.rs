use neko_control_center::catalog::{
    app, builtin_tools_catalog, clean_catalog_id, clean_catalog_repo, clean_catalog_tool,
    clean_hex_color, clean_optional_https_url, clean_tools_catalog, default_apps,
    default_catalog_version, default_category_if_empty, is_coming_soon_app,
    is_under_development_category, normalize_development_status, prepare_downloaded_catalog,
    select_effective_catalog, select_local_catalog, select_remote_catalog,
};
use neko_control_center::model::{InstalledVersion, LauncherApp, PackagePreference, ToolStatus, ToolsCatalog};
use neko_control_center::settings::{
    apply_settings_request, clamp_window_dimension, default_categories, default_window_size_for_monitor,
    monitor_size_or_fallback, normalize_categories, normalize_loaded_settings, preferred_window_size,
    record_window_size, AppSettings, SaveSettingsRequest,
};

fn strings(v: &[&str]) -> Vec<String> {
    v.iter().map(|s| s.to_string()).collect()
}

fn tool(id: &str, repo: &str) -> LauncherApp {
    app(id, "Tool", repo, "A tool.", "#123456", "TL", "Fun Stuff", ToolStatus::Available, None)
}

fn catalog(version: u32, tools: Vec<LauncherApp>) -> ToolsCatalog {
    ToolsCatalog { catalog_version: version, updated_at: None, tools }
}

#[test]
fn categories_are_trimmed_deduplicated_and_never_empty() {
    let r = normalize_categories(strings(&["  Fun Stuff ", "", "Fun Stuff", "Tools", "   "]));
    assert_eq!(r, strings(&["Fun Stuff", "Tools"]));
    let r = normalize_categories(strings(&["", "  "]));
    assert_eq!(r, default_categories());
    assert_eq!(
        default_categories(),
        strings(&["-= Released Work Stuff =-", "Fun Stuff", "Under Development"])
    );
}

#[test]
fn normalizing_categories_twice_changes_nothing() {
    let once = normalize_categories(strings(&[" b ", "a", "b", " a"]));
    let twice = normalize_categories(once.clone());
    assert_eq!(once, twice);
}

#[test]
fn default_settings_and_retired_theme() {
    let d = AppSettings::default();
    assert_eq!(d.theme, "neko-tron");
    assert!(!d.compact_labels);
    assert!(d.use_remote_catalog);
    assert!(!d.agent_control_auto_start);
    assert_eq!(d.categories, default_categories());
    assert_eq!(d.window_width, None);
    let mut old = AppSettings::default();
    old.theme = "eva-dark".to_string();
    old.categories = strings(&[" X ", "X"]);
    let loaded = normalize_loaded_settings(old);
    assert_eq!(loaded.theme, "neko-tron");
    assert_eq!(loaded.categories, strings(&["X"]));
    let mut other = AppSettings::default();
    other.theme = "paper".to_string();
    assert_eq!(normalize_loaded_settings(other).theme, "paper");
}

#[test]
fn settings_form_replaces_only_given_fields() {
    let mut s = AppSettings::default();
    apply_settings_request(
        &mut s,
        SaveSettingsRequest {
            theme: Some("paper".to_string()),
            compact_labels: None,
            use_remote_catalog: Some(false),
            agent_control_auto_start: None,
            categories: Some(strings(&["  Mine  ", ""])),
        },
    );
    assert_eq!(s.theme, "paper");
    assert!(!s.compact_labels);
    assert!(!s.use_remote_catalog);
    assert_eq!(s.categories, strings(&["Mine"]));
}

#[test]
fn window_sizes_are_remembered_unless_zero() {
    let mut s = AppSettings::default();
    assert!(!record_window_size(&mut s, 0, 600));
    assert_eq!(s.window_width, None);
    assert!(record_window_size(&mut s, 800, 600));
    assert_eq!((s.window_width, s.window_height), (Some(800), Some(600)));
}

#[test]
fn window_dimensions_are_clamped_to_the_monitor() {
    assert_eq!(clamp_window_dimension(5000, 520, 1920), 1920);
    assert_eq!(clamp_window_dimension(100, 520, 1920), 520);
    assert_eq!(clamp_window_dimension(100, 520, 300), 300);
    assert_eq!(clamp_window_dimension(100, 520, 0), 1);
    assert_eq!(monitor_size_or_fallback(None), (720, 520));
    assert_eq!(monitor_size_or_fallback(Some((1920, 1080))), (1920, 1080));
    assert_eq!(default_window_size_for_monitor(1920, 1080, (0, 0)), (720, 520));
    assert_eq!(default_window_size_for_monitor(3840, 2160, (0, 0)), (960, 540));
    assert_eq!(default_window_size_for_monitor(1080, 1920, (972, 701)), (972, 701));
    assert_eq!(default_window_size_for_monitor(1080, 1920, (0, 0)), (1, 1));
    let mut s = AppSettings::default();
    assert_eq!(preferred_window_size(&s, 1920, 1080, (720, 520)), (720, 520));
    s.window_width = Some(5000);
    s.window_height = Some(10);
    assert_eq!(preferred_window_size(&s, 1920, 1080, (720, 520)), (1920, 390));
}

#[test]
fn catalog_ids_are_cleaned() {
    assert_eq!(clean_catalog_id(" Asset-Vault "), Some("asset-vault".to_string()));
    assert_eq!(clean_catalog_id("asset vault"), None);
    assert_eq!(clean_catalog_id("   "), None);
    assert_eq!(clean_catalog_id("a_b-9"), Some("a_b-9".to_string()));
    let once = clean_catalog_id(" MiXeD_Case ").unwrap();
    assert_eq!(clean_catalog_id(&once), Some(once.clone()));
}

#[test]
fn catalog_repos_are_cleaned() {
    assert_eq!(clean_catalog_repo("  /neko-legends/BatchLapse/  "), Some("BatchLapse".to_string()));
    assert_eq!(clean_catalog_repo("StarGaze"), Some("StarGaze".to_string()));
    assert_eq!(clean_catalog_repo("neko-legends/../x"), None);
    assert_eq!(clean_catalog_repo("other/Repo"), None);
    assert_eq!(clean_catalog_repo("a..b"), None);
    assert_eq!(clean_catalog_repo("a\\b"), None);
    assert_eq!(clean_catalog_repo("Batch Lapse"), None);
    assert_eq!(clean_catalog_repo("///"), None);
}

#[test]
fn urls_colors_and_categories_are_cleaned() {
    assert_eq!(
        clean_optional_https_url(Some(" https://nekolegends.com/x/ ".to_string())),
        Some("https://nekolegends.com/x/".to_string())
    );
    assert_eq!(clean_optional_https_url(Some("http://insecure".to_string())), None);
    assert_eq!(clean_optional_https_url(None), None);
    assert_eq!(clean_hex_color(" #A1b2C3 ", "#ff6a00"), "#A1b2C3");
    assert_eq!(clean_hex_color("#12345", "#ff6a00"), "#ff6a00");
    assert_eq!(clean_hex_color("#12345g", "#ff6a00"), "#ff6a00");
    assert_eq!(clean_hex_color("red", "#ff6a00"), "#ff6a00");
    assert_eq!(default_category_if_empty("  "), "-= Released Work Stuff =-");
    assert_eq!(default_category_if_empty(" Fun Stuff "), "Fun Stuff");
}

#[test]
fn a_catalog_tool_is_cleaned_and_stripped_of_install_state() {
    let mut raw = app(" PurplePlanet ", "  ", "neko-legends/PurplePlanet", "", "bad", "", "", ToolStatus::Available, Some("http://insecure"));
    raw.installed_version = Some("v1".to_string());
    raw.installed_versions.push(InstalledVersion {
        version: "v1".to_string(),
        executable_path: None,
        package_path: Some("x.zip".to_string()),
        installed_at: "then".to_string(),
    });
    raw.release_notes = Some("notes".to_string());
    raw.visible = false;
    let t = clean_catalog_tool(raw).unwrap();
    assert_eq!(t.id, "purpleplanet");
    assert_eq!(t.repo, "PurplePlanet");
    assert_eq!(t.name, "PurplePlanet");
    assert_eq!(t.description, "Neko Legends tool.");
    assert_eq!(t.accent, "#ff6a00");
    assert_eq!(t.icon, "PU");
    assert_eq!(t.category, "-= Released Work Stuff =-");
    assert_eq!(t.demo_url, None);
    assert_eq!(t.installed_version, None);
    assert!(t.installed_versions.is_empty());
    assert_eq!(t.release_notes, None);
    assert!(!t.visible);
    let long_icon = app("x", "Name", "X", "d", "#000000", "  ABCDEF ", "c", ToolStatus::Available, None);
    assert_eq!(clean_catalog_tool(long_icon).unwrap().icon, "ABCD");
    assert!(clean_catalog_tool(tool("bad id", "Repo")).is_none());
    assert!(clean_catalog_tool(tool("ok", "bad/repo")).is_none());
}

#[test]
fn coming_soon_tools_move_to_under_development() {
    let mut t = app("x", "X", "X", "d", "#000000", "X", " under development ", ToolStatus::Available, None);
    assert!(is_under_development_category(" UNDER development "));
    assert!(is_coming_soon_app(&t));
    normalize_development_status(&mut t);
    assert_eq!(t.status, ToolStatus::ComingSoon);
    assert_eq!(t.category, "Under Development");
    let cleaned = clean_catalog_tool(app("y", "Y", "Y", "d", "#000000", "Y", "Fun Stuff", ToolStatus::ComingSoon, None)).unwrap();
    assert_eq!(cleaned.category, "Under Development");
}

#[test]
fn cleaning_a_catalog_drops_unusable_and_repeated_tools() {
    let c = catalog(14, vec![tool("a", "A"), tool("bad id", "B"), tool(" A ", "Other"), tool("b", "B")]);
    let cleaned = clean_tools_catalog(c).unwrap();
    let ids: Vec<&str> = cleaned.tools.iter().map(|t| t.id.as_str()).collect();
    assert_eq!(ids, vec!["a", "b"]);
    assert_eq!(cleaned.tools[0].repo, "A");
    match clean_tools_catalog(catalog(14, vec![tool("bad id", "B")])) {
        Ok(_) => panic!("a catalog without usable tools was accepted"),
        Err(e) => assert_eq!(e, "Tools catalog did not include any usable tools."),
    }
}

#[test]
fn the_builtin_catalog_lists_fifteen_tools() {
    let b = builtin_tools_catalog();
    assert_eq!(default_catalog_version(), 14);
    assert_eq!(b.catalog_version, 14);
    assert_eq!(b.updated_at, Some("built-in".to_string()));
    assert_eq!(b.tools.len(), 15);
    assert_eq!(default_apps()[0].id, "asset-vault");
    assert_eq!(b.tools[13].demo_url, Some("https://nekolegends.com/res/projects/purplePlanet/".to_string()));
    assert!(b.tools.iter().all(|t| t.visible && t.package_preference == PackagePreference::Portable));
}

#[test]
fn stored_catalogs_older_than_the_launcher_are_ignored() {
    let old = select_remote_catalog(catalog(13, vec![tool("a", "A")]));
    assert_eq!(old.updated_at, Some("built-in".to_string()));
    assert_eq!(old.tools.len(), 15);
    let newer = select_remote_catalog(catalog(15, vec![tool("a", "A")]));
    assert_eq!(newer.catalog_version, 15);
    assert_eq!(newer.tools.len(), 1);
    let unusable = select_remote_catalog(catalog(15, vec![tool("bad id", "A")]));
    assert_eq!(unusable.tools.len(), 15);
}

#[test]
fn local_catalog_is_the_first_usable_file() {
    let r = select_local_catalog(vec![catalog(1, vec![tool("bad id", "A")]), catalog(2, vec![tool("b", "B")]), catalog(3, vec![tool("c", "C")])]);
    assert_eq!(r.unwrap().catalog_version, 2);
    assert!(select_local_catalog(vec![]).is_none());
    let e = select_effective_catalog(false, catalog(20, vec![tool("a", "A")]), vec![]);
    assert_eq!(e.updated_at, Some("built-in".to_string()));
    let e = select_effective_catalog(true, catalog(20, vec![tool("a", "A")]), vec![]);
    assert_eq!(e.catalog_version, 20);
}

#[test]
fn downloaded_catalog_is_stamped_when_unstamped() {
    let r = prepare_downloaded_catalog(catalog(14, vec![tool("a", "A")]), "2025-01-01T00:00:00+00:00").unwrap();
    assert_eq!(r.updated_at, Some("2025-01-01T00:00:00+00:00".to_string()));
    let mut c = catalog(14, vec![tool("a", "A")]);
    c.updated_at = Some("earlier".to_string());
    assert_eq!(prepare_downloaded_catalog(c, "now").unwrap().updated_at, Some("earlier".to_string()));
    assert!(prepare_downloaded_catalog(catalog(14, vec![]), "now").is_err());
}

#[test]
fn saved_settings_read_back_unchanged() {
    let mut stored = AppSettings::default();
    stored.theme = "eva-dark".to_string();
    stored.categories = strings(&[" A ", "A", "B"]);
    let mut loaded = normalize_loaded_settings(stored);
    apply_settings_request(
        &mut loaded,
        SaveSettingsRequest {
            theme: Some("paper".to_string()),
            compact_labels: Some(true),
            use_remote_catalog: None,
            agent_control_auto_start: Some(true),
            categories: None,
        },
    );
    let again = normalize_loaded_settings(loaded.clone());
    assert_eq!(again.theme, loaded.theme);
    assert_eq!(again.categories, loaded.categories);
    assert_eq!(again.compact_labels, loaded.compact_labels);
    assert_eq!(again.agent_control_auto_start, loaded.agent_control_auto_start);
    assert_eq!(again.categories, strings(&["A", "B"]));
}
