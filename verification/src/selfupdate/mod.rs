//! Self-update of valet's companion components.

pub mod broth;
pub mod platform;

use std::path::PathBuf;
use vstd::prelude::*;
use vstd::std_specs::convert::FromSpecImpl;

verus! {

#[derive(Debug)]
pub enum Error {
    DummyError,
    BrothError(broth::Error),
    PlatformError(platform::Error),
    HttpKitError(reqwest::Error),
    NoLatestVersion,
}

impl From<broth::Error> for Error {
    fn from(e: broth::Error) -> (res: Self) {
        Error::BrothError(e)
    }
}

impl FromSpecImpl<broth::Error> for Error {
    open spec fn obeys_from_spec() -> bool {
        true
    }

    open spec fn from_spec(e: broth::Error) -> Self {
        Error::BrothError(e)
    }
}

impl From<platform::Error> for Error {
    fn from(e: platform::Error) -> (res: Self) {
        Error::PlatformError(e)
    }
}

impl FromSpecImpl<platform::Error> for Error {
    open spec fn obeys_from_spec() -> bool {
        true
    }

    open spec fn from_spec(e: platform::Error) -> Self {
        Error::PlatformError(e)
    }
}

impl From<reqwest::Error> for Error {
    fn from(e: reqwest::Error) -> (res: Self) {
        Error::HttpKitError(e)
    }
}

impl FromSpecImpl<reqwest::Error> for Error {
    open spec fn obeys_from_spec() -> bool {
        true
    }

    open spec fn from_spec(e: reqwest::Error) -> Self {
        Error::HttpKitError(e)
    }
}

/// What a self-update check needs to know.
pub struct Settings {
    pub components_dir: PathBuf,
    pub is_canary: bool,
}

/// The component whose updates are checked.
pub const SETUP_COMPONENT: &'static str = "itch-setup";

/// A check cannot go on without a latest version on the channel.
pub fn require_latest_version(latest: Option<String>) -> (res: Result<String, Error>)
    ensures
        match latest {
            Some(v) => res matches Ok(r) && r == v,
            None => res matches Err(Error::NoLatestVersion),
        },
{
    match latest {
        Some(v) => Ok(v),
        None => Err(Error::NoLatestVersion),
    }
}

} // verus!
