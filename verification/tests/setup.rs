use hue::setup::{connected_message, found_message, init_step, InitAction, InitEvent, InitState};

fn s(x: &str) -> String {
    x.to_string()
}

#[test]
fn init_with_given_address_skips_discovery() {
    let (st, a) = init_step(InitState::Start, InitEvent::Begin { bridge_ip: Some(s("192.168.1.100")) });
    assert_eq!(a, Some(InitAction::AskLinkButton));
    let (st, a) = init_step(st, InitEvent::LinkPressed);
    assert_eq!(a, Some(InitAction::Register { bridge_ip: s("192.168.1.100") }));
    let (st, a) = init_step(st, InitEvent::Registered { username: s("user1") });
    assert_eq!(
        a,
        Some(InitAction::SaveCredentials { bridge_ip: s("192.168.1.100"), username: s("user1") })
    );
    assert_eq!(st, InitState::Done { bridge_ip: s("192.168.1.100"), username: s("user1") });
}

#[test]
fn init_discovers_then_asks_when_discovery_fails() {
    let (st, a) = init_step(InitState::Start, InitEvent::Begin { bridge_ip: None });
    assert_eq!(a, Some(InitAction::Discover));
    let (st, a) = init_step(st, InitEvent::Discovered { bridge_ip: None });
    assert_eq!(a, Some(InitAction::AskAddress));
    let (st, a) = init_step(st, InitEvent::AddressEntered { bridge_ip: s("10.0.0.9") });
    assert_eq!(a, Some(InitAction::AskLinkButton));
    let (_, a) = init_step(st, InitEvent::LinkPressed);
    assert_eq!(a, Some(InitAction::Register { bridge_ip: s("10.0.0.9") }));
}

#[test]
fn init_uses_discovered_address() {
    let (st, _) = init_step(InitState::Start, InitEvent::Begin { bridge_ip: None });
    let (st, a) = init_step(st, InitEvent::Discovered { bridge_ip: Some(s("10.1.1.1")) });
    assert_eq!(a, Some(InitAction::AskLinkButton));
    assert_eq!(st, InitState::Linking { bridge_ip: s("10.1.1.1") });
}

#[test]
fn init_ignores_events_out_of_order() {
    let (st, a) = init_step(InitState::Start, InitEvent::LinkPressed);
    assert_eq!(a, None);
    assert_eq!(st, InitState::Start);
    let (st, a) = init_step(InitState::Discovering, InitEvent::Registered { username: s("u") });
    assert_eq!(a, None);
    assert_eq!(st, InitState::Discovering);
}

#[test]
fn init_messages() {
    assert_eq!(found_message("10.0.0.4"), "Found bridge at 10.0.0.4");
    assert_eq!(connected_message("10.0.0.4"), "Connected to bridge at 10.0.0.4. Configuration saved.");
}
