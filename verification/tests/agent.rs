use neko_control_center::agent_api::{
    agent_api_conflicts, agent_api_dashboard_from, agent_api_url, default_agent_api_entries,
    default_agent_api_entry, headless_agent_args, merged_agent_api_entries,
    next_available_agent_port, openapi_url, port_text, update_agent_api_port, AgentApiRegistry,
    AgentApiRegistryEntry,
};
use neko_control_center::agent_control::{
    agent_history_file_name, agent_response_file_name, command_files_in_order, command_response,
    invalid_command_response, plan_agent_command, require_agent_app_id, AgentControlAction,
    AgentControlCommand, AgentStep,
};
use neko_control_center::catalog::app;
use neko_control_center::lock::{LockAction, LockAttempt, RegistryLock};
use neko_control_center::model::{PackagePreference, ToolStatus};
use neko_control_center::uninstall::{
    app_install_name_aliases, command_path_from_registry_value, expected_executable_names,
    normalized_install_name, registry_display_name_matches_app,
};

fn registry(apps: Vec<AgentApiRegistryEntry>) -> AgentApiRegistry {
    AgentApiRegistry { updated_at: "then".to_string(), apps }
}

fn saved_entry(id: &str, name: &str, port: u16) -> AgentApiRegistryEntry {
    let mut e = default_agent_api_entry(id, name, 20000, "", "Saved.");
    e.port = port;
    e.note = None;
    e.enabled = true;
    e
}

fn command(action: AgentControlAction, app_id: Option<&str>) -> AgentControlCommand {
    AgentControlCommand {
        id: Some("c1".to_string()),
        action,
        app_id: app_id.map(|s| s.to_string()),
        version: Some("v2".to_string()),
        package_preference: Some(PackagePreference::Installer),
    }
}

#[test]
fn agent_api_addresses() {
    assert_eq!(agent_api_url("0.0.0.0", 9876), "http://127.0.0.1:9876");
    assert_eq!(agent_api_url("192.168.1.5", 80), "http://192.168.1.5:80");
    assert_eq!(openapi_url("http://127.0.0.1:9876"), "http://127.0.0.1:9876/openapi.json");
    assert_eq!(port_text(0), "0");
    assert_eq!(port_text(65535), "65535");
}

#[test]
fn builtin_registry_entries() {
    let d = default_agent_api_entries();
    assert_eq!(d.len(), 10);
    assert_eq!(d[0].app_id, "venice-media-local");
    assert_eq!(d[0].url, "http://127.0.0.1:9876");
    assert!(!d[0].enabled);
    assert_eq!(d[9].app_id, "sprite-atlas-packer");
}

#[test]
fn merged_entries_are_sorted_by_default_port() {
    let merged = merged_agent_api_entries(&registry(vec![]));
    let ports: Vec<u16> = merged.iter().map(|e| e.default_port).collect();
    let mut sorted = ports.clone();
    sorted.sort();
    assert_eq!(ports, sorted);
    assert_eq!(merged[0].app_id, "venice-media-local");
    assert_eq!(merged[1].app_id, "sprite-atlas-packer");
    assert_eq!(next_available_agent_port(&merged), 17341);
    assert!(agent_api_conflicts(&merged).is_empty());
}

#[test]
fn saved_entries_override_builtins_and_add_new_apps() {
    let merged = merged_agent_api_entries(&registry(vec![
        saved_entry("batchlapse", "  ", 17400),
        saved_entry("my-tool", "My Tool", 17333),
    ]));
    assert_eq!(merged.len(), 11);
    let b = merged.iter().find(|e| e.app_id == "batchlapse").unwrap();
    assert_eq!(b.port, 17400);
    assert_eq!(b.default_port, 17336);
    assert_eq!(b.app_name, "BatchLapse");
    assert_eq!(b.bind_address, "127.0.0.1");
    assert_eq!(b.url, "http://127.0.0.1:17400");
    assert_eq!(b.note, Some("Local Agent API.".to_string()));
    let conflicts = agent_api_conflicts(&merged);
    assert_eq!(conflicts.len(), 1);
    assert_eq!(conflicts[0].port, 17333);
    assert_eq!(conflicts[0].app_ids, vec!["image-to-3d".to_string(), "my-tool".to_string()]);
    assert_eq!(conflicts[0].app_names, vec!["ImageTo3D".to_string(), "My Tool".to_string()]);
}

#[test]
fn the_dashboard_and_port_updates() {
    let dash = agent_api_dashboard_from(registry(vec![]), "C:/NekoLegends/agent-api-registry.json".to_string());
    assert_eq!(dash.apps.len(), 10);
    assert_eq!(dash.next_available_port, 17341);
    assert_eq!(dash.updated_at, "then");
    match update_agent_api_port(&registry(vec![]), &"batchlapse".to_string(), 0, "now") {
        Ok(_) => panic!("port 0 was accepted"),
        Err(e) => assert_eq!(e, "Agent API port must be between 1 and 65535."),
    }
    match update_agent_api_port(&registry(vec![]), &"nope".to_string(), 5000, "now") {
        Ok(_) => panic!("an unknown app was accepted"),
        Err(e) => assert_eq!(e, "Agent API app was not found."),
    }
    let entries = update_agent_api_port(&registry(vec![]), &"venice-media-local".to_string(), 5000, "now").unwrap();
    let v = entries.iter().find(|e| e.app_id == "venice-media-local").unwrap();
    assert_eq!(v.port, 5000);
    assert_eq!(v.url, "http://127.0.0.1:5000");
    assert_eq!(v.openapi_url, "http://127.0.0.1:5000/openapi.json");
    assert_eq!(v.last_seen, Some("now".to_string()));
}

#[test]
fn headless_arguments_per_tool() {
    assert_eq!(headless_agent_args("sprite-atlas-packer", 9877).unwrap(), vec!["--headless", "--serve", "--port", "9877"]);
    assert_eq!(headless_agent_args("image-to-splat", 17340).unwrap(), vec!["--serve-agent-api", "--agent-api-port", "17340"]);
    assert_eq!(headless_agent_args("batchlapse", 17336).unwrap(), vec!["--headless", "--agent-api-port", "17336"]);
    assert_eq!(
        headless_agent_args("markrush", 1).unwrap_err(),
        "This app does not advertise a Control Center headless launch mode yet."
    );
}

#[test]
fn commands_must_name_an_app_where_they_act_on_one() {
    assert_eq!(require_agent_app_id(&command(AgentControlAction::Launch, Some("  x  "))), Ok("x".to_string()));
    assert_eq!(require_agent_app_id(&command(AgentControlAction::Launch, Some("   "))), Err("Command requires appId.".to_string()));
    assert!(matches!(plan_agent_command(&command(AgentControlAction::Status, None)), Ok(AgentStep::Status)));
    assert!(matches!(plan_agent_command(&command(AgentControlAction::Scan, None)), Ok(AgentStep::Scan)));
    match plan_agent_command(&command(AgentControlAction::Update, Some(" batchlapse "))) {
        Ok(AgentStep::Download(req)) => {
            assert_eq!(req.app_id, "batchlapse");
            assert_eq!(req.version, Some("v2".to_string()));
            assert_eq!(req.package_preference, Some(PackagePreference::Installer));
        },
        other => panic!("unexpected plan {other:?}"),
    }
    match plan_agent_command(&command(AgentControlAction::OpenFolder, Some("x"))) {
        Ok(AgentStep::OpenFolder { app_id, version }) => {
            assert_eq!(app_id, "x");
            assert_eq!(version, Some("v2".to_string()));
        },
        other => panic!("unexpected plan {other:?}"),
    }
    match plan_agent_command(&command(AgentControlAction::Launch, None)) {
        Err(e) => assert_eq!(e, "Command requires appId."),
        other => panic!("unexpected plan {other:?}"),
    }
}

#[test]
fn command_answers() {
    let c = command(AgentControlAction::Launch, Some("x"));
    let ok = command_response(&c, Ok(()), "now");
    assert!(ok.ok);
    assert_eq!(ok.message, "OK");
    assert_eq!(ok.id, Some("c1".to_string()));
    assert_eq!(ok.action, Some(AgentControlAction::Launch));
    let failed = command_response(&c, Err("App was not found".to_string()), "now");
    assert!(!failed.ok);
    assert_eq!(failed.message, "App was not found");
    let bad = invalid_command_response("expected value at line 1 column 1", "now");
    assert_eq!(bad.message, "Invalid command JSON: expected value at line 1 column 1");
    assert_eq!(bad.id, None);
    assert_eq!(bad.action, None);
}

#[test]
fn command_file_names() {
    assert_eq!(agent_response_file_name(Some("cmd-1.json")), "cmd-1.result.json");
    assert_eq!(agent_response_file_name(None), "command.result.json");
    assert_eq!(agent_history_file_name("20250101T000000.000Z", Some("cmd-1.json")), "20250101T000000.000Z-cmd-1.json");
    assert_eq!(
        command_files_in_order(vec!["b.json".to_string(), "notes.txt".to_string(), "a.JSON".to_string(), "c.json".to_string()]),
        vec!["a.JSON".to_string(), "b.json".to_string(), "c.json".to_string()]
    );
}

#[test]
fn the_registry_lock_is_tried_three_times() {
    let mut lock = RegistryLock::new();
    assert!(matches!(lock.step(LockAttempt::AlreadyExists { stale: false }), LockAction::Retry { remove_stale: false }));
    assert!(matches!(lock.step(LockAttempt::AlreadyExists { stale: true }), LockAction::Retry { remove_stale: true }));
    match lock.step(LockAttempt::AlreadyExists { stale: false }) {
        LockAction::GiveUp { remove_stale, error } => {
            assert!(!remove_stale);
            assert_eq!(error, "Agent API registry is busy.");
        },
        other => panic!("unexpected action {other:?}"),
    }
    let mut lock = RegistryLock::new();
    assert!(matches!(lock.step(LockAttempt::Created), LockAction::WriteAndRelease));
    let mut lock = RegistryLock::new();
    match lock.step(LockAttempt::Failed("denied".to_string())) {
        LockAction::Fail(e) => assert_eq!(e, "denied"),
        other => panic!("unexpected action {other:?}"),
    }
}

#[test]
fn installed_programs_are_matched_by_name() {
    let venice = app("venice-media-local", "Venice Media", "VeniceMediaLocal", "d", "#000000", "VM", "c", ToolStatus::Available, None);
    assert_eq!(normalized_install_name("Venice Media Local 2.0"), "venicemedialocal20");
    assert_eq!(app_install_name_aliases(&venice), vec!["Venice Media", "VeniceMediaLocal", "venice-media-local", "Venice Media Local"]);
    assert!(registry_display_name_matches_app("VENICE MEDIA LOCAL", &venice));
    assert!(registry_display_name_matches_app("Venice-Media", &venice));
    assert!(!registry_display_name_matches_app("Venice", &venice));
    assert_eq!(
        expected_executable_names(&venice),
        vec!["venice-media-local.exe", "venicemedia.exe", "venicemedialocal.exe"]
    );
}

#[test]
fn program_paths_are_read_from_command_lines() {
    let p = |s: &str| command_path_from_registry_value(s);
    assert_eq!(p("\"C:\\Program Files\\Venice\\Venice.exe\",0"), Some("C:\\Program Files\\Venice\\Venice.exe".to_string()));
    assert_eq!(p("C:\\Apps\\Tool\\tool.exe /uninstall"), Some("C:\\Apps\\Tool\\tool.exe".to_string()));
    assert_eq!(p("C:\\Apps\\Tool\\icon.ico,0"), Some("C:\\Apps\\Tool\\icon.ico".to_string()));
    assert_eq!(p("  C:\\Apps\\Tool  "), Some("C:\\Apps\\Tool".to_string()));
    assert_eq!(p("   "), None);
    assert_eq!(p("\"\""), None);
    assert_eq!(p("\"C:\\Open Quote"), Some("C:\\Open Quote".to_string()));
}
