use neko_control_center::agent_api::default_agent_api_entries;
use neko_control_center::catalog::app;
use neko_control_center::install::Disk;
use neko_control_center::model::ToolStatus;
use neko_control_center::provider::{control_center_capabilities, file_command_actions, provider_app_states};

#[test]
fn every_known_app_is_reported_once_by_id() {
    let catalog = vec![app("batchlapse", "BatchLapse", "BatchLapse", "d", "#000000", "BL", "c", ToolStatus::Available, None)];
    let mut installed = app("zeta", "Zeta", "Zeta", "d", "#000000", "ZE", "c", ToolStatus::Available, None);
    installed.executable_path = Some("C:/apps/zeta/zeta.exe".to_string());
    let apps = vec![installed, app("batchlapse", "BatchLapse", "BatchLapse", "d", "#000000", "BL", "c", ToolStatus::Available, None)];
    let mut entries = default_agent_api_entries();
    entries[4].enabled = true;
    let disk = Disk { existing: vec!["C:/apps/zeta/zeta.exe".to_string()] };
    let states = provider_app_states(&catalog, &apps, &disk, &entries);
    let ids: Vec<&str> = states.iter().map(|s| s.app_id.as_str()).collect();
    let mut sorted = ids.clone();
    sorted.sort();
    sorted.dedup();
    assert_eq!(ids, sorted);
    assert_eq!(ids.len(), 11);
    let b = states.iter().find(|s| s.app_id == "batchlapse").unwrap();
    assert!(b.cataloged && !b.installed && b.api_configured && !b.api_reachable && !b.provider_ready);
    let z = states.iter().find(|s| s.app_id == "zeta").unwrap();
    assert!(!z.cataloged && z.installed && !z.api_configured && !z.provider_ready);
    assert!(states.iter().all(|s| !s.provider_ready && !s.api_reachable));
}

#[test]
fn offered_actions_and_capabilities() {
    assert_eq!(file_command_actions(), vec!["status", "scan", "download", "update", "launch", "openFolder"]);
    assert_eq!(control_center_capabilities().len(), 8);
    assert_eq!(control_center_capabilities()[7], "app.agent-api-launch");
}
