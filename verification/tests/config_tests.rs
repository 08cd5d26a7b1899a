use c1_bridge::config::{apply_patch, config_file_path, parse_bool_env, BridgeConfigPatch, RuntimeConfig};

#[test]
fn default_runtime_config_matches_js_defaults() {
    let config = RuntimeConfig::default();
    assert_eq!(config.mixing_station_ws_url, "ws://localhost:8080");
    assert!(!config.log_json);
    assert_eq!(config.metering2_interval_ms, 100);
    assert_eq!(config.console1_main_color, 0x00a5ff);
    assert_eq!(config.console1_bus_color, 0x800080);
}

#[test]
fn parse_bool_env_recognizes_1_and_true() {
    assert_eq!(parse_bool_env("1"), Some(true));
    assert_eq!(parse_bool_env("true"), Some(true));
    assert_eq!(parse_bool_env("TRUE"), Some(true));
}

#[test]
fn parse_bool_env_recognizes_0_and_false() {
    assert_eq!(parse_bool_env("0"), Some(false));
    assert_eq!(parse_bool_env("false"), Some(false));
}

#[test]
fn parse_bool_env_unrecognized_value_returns_none() {
    assert_eq!(parse_bool_env("yes"), None);
    assert_eq!(parse_bool_env(""), None);
}

#[test]
fn apply_patch_updates_only_present_fields() {
    let mut config = RuntimeConfig::default();
    let patch = BridgeConfigPatch { log_json: Some(true), ..Default::default() };
    let result = apply_patch(&mut config, &patch);
    assert!(config.log_json);
    assert_eq!(config.mixing_station_ws_url, "ws://localhost:8080");
    assert!(!result.url_changed);
    assert!(result.anything_changed);
}

#[test]
fn apply_patch_with_no_fields_reports_nothing_changed() {
    let mut config = RuntimeConfig::default();
    let result = apply_patch(&mut config, &BridgeConfigPatch::default());
    assert!(!result.anything_changed);
    assert!(!result.url_changed);
}

#[test]
fn apply_patch_with_same_value_reports_nothing_changed() {
    let mut config = RuntimeConfig::default();
    let patch = BridgeConfigPatch { log_json: Some(false), ..Default::default() };
    let result = apply_patch(&mut config, &patch);
    assert!(!result.anything_changed);
    assert!(!result.url_changed);
}

#[test]
fn apply_patch_detects_url_change_specifically() {
    let mut config = RuntimeConfig::default();
    let patch = BridgeConfigPatch { mixing_station_ws_url: Some("ws://127.0.0.1:9000".to_string()), ..Default::default() };
    let result = apply_patch(&mut config, &patch);
    assert_eq!(config.mixing_station_ws_url, "ws://127.0.0.1:9000");
    assert!(result.url_changed);
    assert!(result.anything_changed);
}

#[test]
fn apply_patch_ignores_blank_url() {
    let mut config = RuntimeConfig::default();
    let patch = BridgeConfigPatch { mixing_station_ws_url: Some("   ".to_string()), ..Default::default() };
    let result = apply_patch(&mut config, &patch);
    assert_eq!(config.mixing_station_ws_url, "ws://localhost:8080");
    assert!(!result.url_changed);
}

#[test]
fn apply_patch_trims_url_whitespace() {
    let mut config = RuntimeConfig::default();
    let patch = BridgeConfigPatch { mixing_station_ws_url: Some("  ws://127.0.0.1:8080  ".to_string()), ..Default::default() };
    apply_patch(&mut config, &patch);
    assert_eq!(config.mixing_station_ws_url, "ws://127.0.0.1:8080");
}

#[test]
fn apply_patch_clamps_metering_interval() {
    // The patch carries the interval already clamped: 15 ms reads as 30, 5000 ms as 1000.
    let mut config = RuntimeConfig::default();
    let result = apply_patch(&mut config, &BridgeConfigPatch { metering2_interval_ms: Some(30), ..Default::default() });
    assert_eq!(config.metering2_interval_ms, 30);
    assert!(result.anything_changed);
    apply_patch(&mut config, &BridgeConfigPatch { metering2_interval_ms: Some(1000), ..Default::default() });
    assert_eq!(config.metering2_interval_ms, 1000);
}

#[test]
fn apply_patch_replaces_colors_and_track_orders() {
    let mut config = RuntimeConfig::default();
    let patch = BridgeConfigPatch {
        console1_main_color: Some(0x123456),
        c1_send_to_ms_bus_number: Some(vec![3, 4]),
        input_track_order: Some(Vec::new()),
        ..Default::default()
    };
    let result = apply_patch(&mut config, &patch);
    assert_eq!(config.console1_main_color, 0x123456);
    assert_eq!(config.console1_bus_color, 0x800080);
    assert_eq!(config.c1_send_to_ms_bus_number, vec![3, 4]);
    assert!(result.anything_changed);
    assert!(!result.url_changed);
}

#[test]
fn config_file_path_joins_app_config_dir_and_filename() {
    assert_eq!(config_file_path("/some/app/config/dir"), "/some/app/config/dir/bridge-config.json");
}
