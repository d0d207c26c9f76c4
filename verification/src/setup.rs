//! The steps of `hue init`: find the bridge, have its link button pressed,
//! register, and keep the credentials. The caller performs each step and
//! reports what came of it.

use vstd::prelude::*;

verus! {

/// Where the setup stands.
#[derive(Debug, PartialEq, Eq)]
pub enum InitState {
    /// Nothing done yet.
    Start,
    /// Waiting for the discovery service.
    Discovering,
    /// Waiting for the user to type the bridge's address.
    AskingAddress,
    /// Waiting for the user to press the bridge's link button.
    Linking { bridge_ip: String },
    /// Waiting for the bridge to register the application.
    Registering { bridge_ip: String },
    /// The credentials are known.
    Done { bridge_ip: String, username: String },
}

/// What the caller learned.
#[derive(Debug, PartialEq, Eq)]
pub enum InitEvent {
    /// Setup begins, with the address given on the command line if any.
    Begin { bridge_ip: Option<String> },
    /// The discovery service answered with an address, or failed.
    Discovered { bridge_ip: Option<String> },
    /// The user typed an address.
    AddressEntered { bridge_ip: String },
    /// The user pressed the link button.
    LinkPressed,
    /// The bridge registered the application under `username`.
    Registered { username: String },
}

/// What the caller is to do next.
#[derive(Debug, PartialEq, Eq)]
pub enum InitAction {
    /// Ask the discovery service for the bridge's address.
    Discover,
    /// Ask the user for the bridge's address.
    AskAddress,
    /// Ask the user to press the bridge's link button.
    AskLinkButton,
    /// Register this application with the bridge at `bridge_ip`.
    Register { bridge_ip: String },
    /// Store the credentials.
    SaveCredentials { bridge_ip: String, username: String },
}

/// The step of the setup: an address given on the command line skips
/// discovery, a failed discovery asks the user, and once the link button is
/// pressed the application registers and keeps what the bridge gave it. An
/// event that does not fit the state changes nothing and asks for nothing.
pub open spec fn init_next(state: InitState, event: InitEvent) -> (InitState, Option<InitAction>) {
    match (state, event) {
        (InitState::Start, InitEvent::Begin { bridge_ip: Some(ip) }) => (
            InitState::Linking { bridge_ip: ip },
            Some(InitAction::AskLinkButton),
        ),
        (InitState::Start, InitEvent::Begin { bridge_ip: None }) => (
            InitState::Discovering,
            Some(InitAction::Discover),
        ),
        (InitState::Discovering, InitEvent::Discovered { bridge_ip: Some(ip) }) => (
            InitState::Linking { bridge_ip: ip },
            Some(InitAction::AskLinkButton),
        ),
        (InitState::Discovering, InitEvent::Discovered { bridge_ip: None }) => (
            InitState::AskingAddress,
            Some(InitAction::AskAddress),
        ),
        (InitState::AskingAddress, InitEvent::AddressEntered { bridge_ip: ip }) => (
            InitState::Linking { bridge_ip: ip },
            Some(InitAction::AskLinkButton),
        ),
        (InitState::Linking { bridge_ip: ip }, InitEvent::LinkPressed) => (
            InitState::Registering { bridge_ip: ip },
            Some(InitAction::Register { bridge_ip: ip }),
        ),
        (InitState::Registering { bridge_ip: ip }, InitEvent::Registered { username: u }) => (
            InitState::Done { bridge_ip: ip, username: u },
            Some(InitAction::SaveCredentials { bridge_ip: ip, username: u }),
        ),
        (s, _) => (s, None),
    }
}

/// Takes the setup one step on from `state` with what `event` reports.
pub fn init_step(state: InitState, event: InitEvent) -> (r: (InitState, Option<InitAction>))
    ensures
        r == init_next(state, event),
{
    match (state, event) {
        (InitState::Start, InitEvent::Begin { bridge_ip: Some(ip) }) => (
            InitState::Linking { bridge_ip: ip },
            Some(InitAction::AskLinkButton),
        ),
        (InitState::Start, InitEvent::Begin { bridge_ip: None }) => (
            InitState::Discovering,
            Some(InitAction::Discover),
        ),
        (InitState::Discovering, InitEvent::Discovered { bridge_ip: Some(ip) }) => (
            InitState::Linking { bridge_ip: ip },
            Some(InitAction::AskLinkButton),
        ),
        (InitState::Discovering, InitEvent::Discovered { bridge_ip: None }) => (
            InitState::AskingAddress,
            Some(InitAction::AskAddress),
        ),
        (InitState::AskingAddress, InitEvent::AddressEntered { bridge_ip: ip }) => (
            InitState::Linking { bridge_ip: ip },
            Some(InitAction::AskLinkButton),
        ),
        (InitState::Linking { bridge_ip: ip }, InitEvent::LinkPressed) => {
            let again = ip.clone();
            (InitState::Registering { bridge_ip: ip }, Some(InitAction::Register { bridge_ip: again }))
        },
        (InitState::Registering { bridge_ip: ip }, InitEvent::Registered { username: u }) => {
            let ip2 = ip.clone();
            let u2 = u.clone();
            (
                InitState::Done { bridge_ip: ip, username: u },
                Some(InitAction::SaveCredentials { bridge_ip: ip2, username: u2 }),
            )
        },
        (s, _) => (s, None),
    }
}

/// What setup reports when discovery found the bridge.
pub fn found_message(bridge_ip: &str) -> (m: String)
    ensures
        m@ == "Found bridge at "@ + bridge_ip@,
{
    let mut m = String::new();
    m.append("Found bridge at ");
    m.append(bridge_ip);
    m
}

/// What setup reports once the credentials are stored.
pub fn connected_message(bridge_ip: &str) -> (m: String)
    ensures
        m@ == "Connected to bridge at "@ + bridge_ip@ + ". Configuration saved."@,
{
    let mut m = String::new();
    m.append("Connected to bridge at ");
    m.append(bridge_ip);
    m.append(". Configuration saved.");
    m
}

} // verus!
