use std::path::PathBuf;

use valet::selfupdate::broth::{ComponentSpec, Settings, VersionsList, BROTH_BASE_URL};
use valet::selfupdate::{require_latest_version, Error};

#[test]
fn channel_url_joins_component_and_channel() {
    let settings = Settings { components_dir: PathBuf::from("/tmp/broth") };
    let spec = ComponentSpec {
        settings: &settings,
        component: "itch-setup".into(),
        channel: "linux-amd64".into(),
    };
    assert_eq!(BROTH_BASE_URL, "https://broth.itch.ovh");
    assert_eq!(spec.channel_url(), "https://broth.itch.ovh/itch-setup/linux-amd64");
    assert_eq!(spec.versions_url(), "https://broth.itch.ovh/itch-setup/linux-amd64/versions");
}

#[test]
fn latest_version_is_the_last_listed() {
    let list = VersionsList { versions: vec!["1.0.0".into(), "1.1.0".into(), "1.2.0".into()] };
    assert_eq!(list.latest(), Some("1.2.0".to_string()));
    assert_eq!(VersionsList { versions: vec![] }.latest(), None);
}

#[test]
fn check_needs_a_latest_version() {
    assert!(matches!(require_latest_version(Some("1.2.0".into())), Ok(v) if v == "1.2.0"));
    assert!(matches!(require_latest_version(None), Err(Error::NoLatestVersion)));
}
