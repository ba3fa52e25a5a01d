//! broth, the server that distributes components: where a component's
//! versions are listed and which one is the latest.

use crate::text::push_str;
use std::path::PathBuf;
use vstd::prelude::*;

verus! {

pub const BROTH_BASE_URL: &'static str = "https://broth.itch.ovh";

/// Errors in talking to broth or in looking at installed components.
#[derive(Debug)]
pub enum Error {
    HttpKitError(reqwest::Error),
    IOError(std::io::Error),
}

/// Where components are installed.
pub struct Settings {
    pub components_dir: PathBuf,
}

/// One component on one channel.
pub struct ComponentSpec<'a> {
    pub settings: &'a Settings,
    pub component: String,
    pub channel: String,
}

impl<'a> ComponentSpec<'a> {
    pub open spec fn spec_channel_url(&self) -> Seq<char> {
        BROTH_BASE_URL@ + "/"@ + self.component@ + "/"@ + self.channel@
    }

    /// The address of the component's channel on broth.
    pub fn channel_url(&self) -> (url: String)
        ensures
            url@ == self.spec_channel_url(),
    {
        let mut s = String::new();
        push_str(&mut s, BROTH_BASE_URL);
        push_str(&mut s, "/");
        push_str(&mut s, self.component.as_str());
        push_str(&mut s, "/");
        push_str(&mut s, self.channel.as_str());
        s
    }

    /// The address that lists the channel's versions.
    pub fn versions_url(&self) -> (url: String)
        ensures
            url@ == self.spec_channel_url() + "/versions"@,
    {
        let mut s = self.channel_url();
        push_str(&mut s, "/versions");
        s
    }
}

/// The versions a channel lists, oldest first.
pub struct VersionsList {
    pub versions: Vec<String>,
}

impl VersionsList {
    /// The latest version: the last one listed, if any.
    pub fn latest(self) -> (latest: Option<String>)
        ensures
            self.versions@.len() == 0 ==> latest is None,
            self.versions@.len() > 0 ==> latest == Some(self.versions@.last()),
    {
        let mut versions = self.versions;
        versions.pop()
    }
}

} // verus!
