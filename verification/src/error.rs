//! Errors of the library, each with the message the command line shows.

use vstd::prelude::*;
use crate::text::{join, push_joined, views};

verus! {

/// Everything that can go wrong in the library's logic.
#[derive(Debug, PartialEq, Eq)]
pub enum HueError {
    /// The configuration holds no bridge address.
    BridgeNotConfigured,
    /// The configuration holds no user name for the bridge.
    NotAuthenticated,
    /// The discovery service listed no bridge with an address.
    NoBridgesFound,
    /// The bridge answered a registration with an empty list.
    EmptyResponse,
    /// A successful registration reply carried no user name.
    NoUsername,
    /// The bridge refused a registration; the description it gave.
    BridgeError(String),
    /// A registration reply was neither a success nor an error.
    UnexpectedResponse,
    /// The bridge reported an error for a request; its description.
    ApiError(String),
    /// No group has the name asked for; the names that exist.
    GroupNotFound { name: String, available: Vec<String> },
    /// A preset action must set a brightness, a colour or both.
    MissingPresetSettings,
    /// A group can only be added to a preset that exists.
    PresetNotFoundForAdd(String),
    /// No preset has the name asked for.
    PresetNotFound(String),
}

impl HueError {
    /// The message shown for this error.
    pub open spec fn message_spec(&self) -> Seq<char> {
        match self {
            HueError::BridgeNotConfigured => "Bridge not configured — run `hue init` first"@,
            HueError::NotAuthenticated => "Not authenticated — run `hue init` first"@,
            HueError::NoBridgesFound => "No bridges found via cloud discovery"@,
            HueError::EmptyResponse => "Empty response from bridge"@,
            HueError::NoUsername => "No username in success response"@,
            HueError::BridgeError(desc) => "Bridge error: "@ + desc@,
            HueError::UnexpectedResponse => "Unexpected response from bridge"@,
            HueError::ApiError(desc) => "Hue API error: "@ + desc@,
            HueError::GroupNotFound { name, available } => "Group '"@ + name@
                + "' not found. Available groups: "@ + join(views(available@), ", "@),
            HueError::MissingPresetSettings => "Specify at least --dim or --rgb"@,
            HueError::PresetNotFoundForAdd(name) => "Preset '"@ + name@
                + "' not found — use `preset save` to create it"@,
            HueError::PresetNotFound(name) => "Preset '"@ + name@ + "' not found"@,
        }
    }

    /// The message shown for this error.
    pub fn message(&self) -> (res: String)
        ensures
            res@ == self.message_spec(),
    {
        let mut out = String::new();
        match self {
            HueError::BridgeNotConfigured => out.append("Bridge not configured — run `hue init` first"),
            HueError::NotAuthenticated => out.append("Not authenticated — run `hue init` first"),
            HueError::NoBridgesFound => out.append("No bridges found via cloud discovery"),
            HueError::EmptyResponse => out.append("Empty response from bridge"),
            HueError::NoUsername => out.append("No username in success response"),
            HueError::BridgeError(desc) => {
                out.append("Bridge error: ");
                out.append(desc.as_str());
            },
            HueError::UnexpectedResponse => out.append("Unexpected response from bridge"),
            HueError::ApiError(desc) => {
                out.append("Hue API error: ");
                out.append(desc.as_str());
            },
            HueError::GroupNotFound { name, available } => {
                out.append("Group '");
                out.append(name.as_str());
                out.append("' not found. Available groups: ");
                push_joined(&mut out, available, ", ");
            },
            HueError::MissingPresetSettings => out.append("Specify at least --dim or --rgb"),
            HueError::PresetNotFoundForAdd(name) => {
                out.append("Preset '");
                out.append(name.as_str());
                out.append("' not found — use `preset save` to create it");
            },
            HueError::PresetNotFound(name) => {
                out.append("Preset '");
                out.append(name.as_str());
                out.append("' not found");
            },
        }
        assert(out@ =~= self.message_spec());
        out
    }
}

} // verus!
