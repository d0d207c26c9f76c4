//! The stored configuration: where the bridge is, the user name it gave, and
//! the presets.

use vstd::prelude::*;
use crate::error::HueError;
use crate::presets::{Presets, PresetActionView};

verus! {

/// What the tool keeps between runs.
#[derive(Debug)]
pub struct Config {
    pub bridge_ip: Option<String>,
    pub username: Option<String>,
    pub presets: Presets,
}

impl Config {
    /// The bridge's address, which `hue init` stores.
    pub fn require_bridge_ip(&self) -> (r: Result<&str, HueError>)
        ensures
            match self.bridge_ip {
                Some(ip) => r matches Ok(s) && s@ == ip@,
                None => r == Err::<&str, HueError>(HueError::BridgeNotConfigured),
            },
    {
        match &self.bridge_ip {
            Some(ip) => Ok(ip.as_str()),
            None => Err(HueError::BridgeNotConfigured),
        }
    }

    /// The user name the bridge gave, which `hue init` stores.
    pub fn require_username(&self) -> (r: Result<&str, HueError>)
        ensures
            match self.username {
                Some(u) => r matches Ok(s) && s@ == u@,
                None => r == Err::<&str, HueError>(HueError::NotAuthenticated),
            },
    {
        match &self.username {
            Some(u) => Ok(u.as_str()),
            None => Err(HueError::NotAuthenticated),
        }
    }

    /// Records the bridge's address and the user name it gave; the presets stay.
    pub fn set_credentials(&mut self, bridge_ip: String, username: String)
        ensures
            final(self).bridge_ip == Some(bridge_ip),
            final(self).username == Some(username),
            final(self).presets == old(self).presets,
    {
        self.bridge_ip = Some(bridge_ip);
        self.username = Some(username);
    }
}

impl Default for Config {
    /// No bridge, no user name, no presets: what a first run starts from.
    fn default() -> (r: Config)
        ensures
            r.bridge_ip is None,
            r.username is None,
            r.presets@ == Map::<Seq<char>, Seq<PresetActionView>>::empty(),
    {
        Config { bridge_ip: None, username: None, presets: Presets::new() }
    }
}

} // verus!
