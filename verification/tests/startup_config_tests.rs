use c1_bridge::config::{build_startup_config, BridgeConfigPatch, RuntimeConfig};

#[test]
fn no_file_patch_and_no_env_overrides_yields_plain_defaults() {
    let config = build_startup_config(None, None, None);
    let defaults = RuntimeConfig::default();
    assert_eq!(config.mixing_station_ws_url, defaults.mixing_station_ws_url);
    assert_eq!(config.log_json, defaults.log_json);
}

#[test]
fn file_patch_is_applied_when_present() {
    let patch = BridgeConfigPatch { mixing_station_ws_url: Some("ws://from-file:9999".to_string()), ..Default::default() };
    let config = build_startup_config(Some(patch), None, None);
    assert_eq!(config.mixing_station_ws_url, "ws://from-file:9999");
}

#[test]
fn ws_url_env_override_wins_over_file() {
    let patch = BridgeConfigPatch { mixing_station_ws_url: Some("ws://from-file:9999".to_string()), ..Default::default() };
    let config = build_startup_config(Some(patch), Some("ws://from-env:1234".to_string()), None);
    assert_eq!(config.mixing_station_ws_url, "ws://from-env:1234");
}

#[test]
fn blank_ws_url_env_override_is_ignored() {
    let config = build_startup_config(None, Some("   ".to_string()), None);
    assert_eq!(config.mixing_station_ws_url, RuntimeConfig::default().mixing_station_ws_url);
}

#[test]
fn log_json_env_override_true_wins_over_file() {
    let patch = BridgeConfigPatch { log_json: Some(false), ..Default::default() };
    let config = build_startup_config(Some(patch), None, Some("1".to_string()));
    assert!(config.log_json);
}

#[test]
fn log_json_env_override_false_wins_over_file() {
    let patch = BridgeConfigPatch { log_json: Some(true), ..Default::default() };
    let config = build_startup_config(Some(patch), None, Some("false".to_string()));
    assert!(!config.log_json);
}

#[test]
fn invalid_log_json_env_override_is_ignored() {
    let patch = BridgeConfigPatch { log_json: Some(true), ..Default::default() };
    let config = build_startup_config(Some(patch), None, Some("banana".to_string()));
    assert!(config.log_json, "invalid env value should leave the file's value untouched");
}

#[test]
fn env_overrides_win_over_file_which_wins_over_defaults() {
    let patch = BridgeConfigPatch {
        mixing_station_ws_url: Some("ws://from-file:9999".to_string()),
        log_json: Some(true),
        ..Default::default()
    };
    let config = build_startup_config(Some(patch), Some("ws://from-env:1234".to_string()), Some("0".to_string()));
    assert_eq!(config.mixing_station_ws_url, "ws://from-env:1234");
    assert!(!config.log_json);
}

#[test]
fn ws_url_env_override_is_trimmed() {
    let config = build_startup_config(None, Some("  ws://x:1  ".to_string()), None);
    assert_eq!(config.mixing_station_ws_url, "ws://x:1");
}
