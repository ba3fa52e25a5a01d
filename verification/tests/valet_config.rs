use std::path::PathBuf;

use valet::config::{default_user_agent, Config, Version, DEFAULT_ADDRESS, DEFAULT_APP_VERSION};
use valet::logging::Level;

#[test]
fn default_user_agent_names_the_version() {
    let v = Version { major: 1, minor: 12, patch: 0 };
    assert_eq!(default_user_agent(v), "valet/1.12.0");
}

#[test]
fn options_left_out_take_defaults() {
    let v = Version { major: 0, minor: 3, patch: 7 };
    let c = Config::from_options("db".into(), PathBuf::from("/c"), None, None, None, None, v);
    assert_eq!(c.db_path, "db");
    assert_eq!(c.components_dir, PathBuf::from("/c"));
    assert_eq!(c.user_agent, "valet/0.3.7");
    assert_eq!(c.address, "https://api.itch.io");
    assert_eq!(c.address, DEFAULT_ADDRESS);
    assert_eq!(c.app_version, "head");
    assert_eq!(c.app_version, DEFAULT_APP_VERSION);
    assert!(!c.is_canary);
}

#[test]
fn options_given_are_kept() {
    let v = Version { major: 0, minor: 3, patch: 7 };
    let c = Config::from_options(
        "db".into(),
        PathBuf::from("/c"),
        Some("itch/25".into()),
        Some("https://example.org".into()),
        Some("25.0.0".into()),
        Some(true),
        v,
    );
    assert_eq!(c.user_agent, "itch/25");
    assert_eq!(c.address, "https://example.org");
    assert_eq!(c.app_version, "25.0.0");
    assert!(c.is_canary);
}

#[test]
fn level_names() {
    assert_eq!(Level::Error.name(), "error");
    assert_eq!(Level::Warn.name(), "warn");
    assert_eq!(Level::Info.name(), "info");
    assert_eq!(Level::Debug.name(), "debug");
    assert_eq!(Level::Trace.name(), "trace");
}
