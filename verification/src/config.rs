//! The addon's configuration, as given by the application at start-up, and
//! the defaults for what it leaves out.

use crate::text::{decimal, push_decimal, push_str};
use std::path::PathBuf;
use vstd::prelude::*;

verus! {

/// A `major.minor.patch` version.
#[derive(Clone, Copy, Debug, PartialEq, Eq, Structural)]
pub struct Version {
    pub major: usize,
    pub minor: usize,
    pub patch: usize,
}

pub open spec fn spec_default_user_agent(version: Version) -> Seq<char> {
    "valet/"@ + decimal(version.major as nat) + "."@ + decimal(version.minor as nat) + "."@
        + decimal(version.patch as nat)
}

/// The user agent used when the application names none: `valet/` and the
/// addon's version.
pub fn default_user_agent(version: Version) -> (ua: String)
    ensures
        ua@ == spec_default_user_agent(version),
{
    let mut s = String::new();
    push_str(&mut s, "valet/");
    push_decimal(&mut s, version.major as u64);
    push_str(&mut s, ".");
    push_decimal(&mut s, version.minor as u64);
    push_str(&mut s, ".");
    push_decimal(&mut s, version.patch as u64);
    s
}

/// The itch.io server used when the application names none.
pub const DEFAULT_ADDRESS: &'static str = "https://api.itch.io";

/// The application version assumed when the application gives none.
pub const DEFAULT_APP_VERSION: &'static str = "head";

pub struct Config {
    /// Path to the database file
    pub db_path: String,
    /// Path to broth components
    pub components_dir: PathBuf,
    /// HTTP user-agent to use
    pub user_agent: String,
    /// itch.io server address
    pub address: String,
    /// current app version
    pub app_version: String,
    /// is the app on the canary channel or not?
    pub is_canary: bool,
}

impl Config {
    /// The configuration from the application's options, each option it
    /// leaves out replaced by its default.
    pub fn from_options(
        db_path: String,
        components_dir: PathBuf,
        user_agent: Option<String>,
        address: Option<String>,
        app_version: Option<String>,
        is_canary: Option<bool>,
        version: Version,
    ) -> (config: Config)
        ensures
            config.db_path == db_path,
            config.components_dir == components_dir,
            config.user_agent@ == match user_agent {
                Some(ua) => ua@,
                None => spec_default_user_agent(version),
            },
            config.address@ == match address {
                Some(a) => a@,
                None => DEFAULT_ADDRESS@,
            },
            config.app_version@ == match app_version {
                Some(v) => v@,
                None => DEFAULT_APP_VERSION@,
            },
            config.is_canary == match is_canary {
                Some(b) => b,
                None => false,
            },
    {
        let user_agent = match user_agent {
            Some(ua) => ua,
            None => default_user_agent(version),
        };
        let address = match address {
            Some(a) => a,
            None => DEFAULT_ADDRESS.to_owned(),
        };
        let app_version = match app_version {
            Some(v) => v,
            None => DEFAULT_APP_VERSION.to_owned(),
        };
        let is_canary = match is_canary {
            Some(b) => b,
            None => false,
        };
        Config { db_path, components_dir, user_agent, address, app_version, is_canary }
    }
}

} // verus!
