use logagent::messages::{RegisterResponse, SourceEntry};
use logagent::settings::{
    default_batch_size, default_flush_interval, default_heartbeat_interval, Settings,
};

fn entry(enabled: bool, label: &str, path: &str) -> SourceEntry {
    SourceEntry { enabled, label: label.to_string(), path: path.to_string() }
}

#[test]
fn defaults_are_fixed() {
    assert_eq!(default_batch_size(), 1000);
    assert_eq!(default_flush_interval(), 10);
    assert_eq!(default_heartbeat_interval(), 30);
}

#[test]
fn from_response_takes_assigned_values_and_enabled_sources() {
    let resp = RegisterResponse {
        success: true,
        access_token: "a".to_string(),
        refresh_token: "r".to_string(),
        agent_uuid: "u".to_string(),
        batch_size: 250,
        flush_interval_sec: 7,
        heartbeat_interval_sec: 45,
        sources: vec![
            entry(true, "app", "/var/log/app.log"),
            entry(false, "disabled", "/var/log/off.log"),
            entry(true, "sys", "/var/log/sys.log"),
        ],
    };
    let settings = Settings::from_response(resp, "http://srv:50051".to_string(), "key".to_string());
    assert_eq!(settings.server_addr, "http://srv:50051");
    assert_eq!(settings.project_key, "key");
    assert_eq!(settings.batch_size, 250);
    assert_eq!(settings.flush_interval, 7);
    assert_eq!(settings.heartbeat_interval, 45);
    assert_eq!(settings.sources.len(), 2);
    assert_eq!(settings.sources[0].label, "app");
    assert_eq!(settings.sources[0].path, "/var/log/app.log");
    assert_eq!(settings.sources[1].label, "sys");
    assert_eq!(settings.sources[1].path, "/var/log/sys.log");
}

#[test]
fn from_response_with_no_sources() {
    let resp = RegisterResponse {
        success: true,
        access_token: String::new(),
        refresh_token: String::new(),
        agent_uuid: String::new(),
        batch_size: 1,
        flush_interval_sec: 1,
        heartbeat_interval_sec: 1,
        sources: vec![],
    };
    let settings = Settings::from_response(resp, "s".to_string(), "k".to_string());
    assert!(settings.sources.is_empty());
}
