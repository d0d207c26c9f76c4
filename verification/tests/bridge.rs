use hue::bridge::{
    bridge_ip_from_discovery, check_hue_response, discovery_request, register_request,
    username_from_registration, Body, Group, HueClient, Method,
};
use hue::commands::{dim_message, groups_lines, rgb_message, switch_message};
use hue::error::HueError;
use hue::json::Json;

fn s(x: &str) -> String {
    x.to_string()
}

fn obj(members: Vec<(&str, Json)>) -> Json {
    Json::Object(members.into_iter().map(|(k, v)| (s(k), v)).collect())
}

fn text(x: &str) -> Json {
    Json::Text(s(x))
}

fn group(name: &str, kind: &str) -> Group {
    Group { name: s(name), kind: s(kind) }
}

#[test]
fn requests_target_the_group_action_url() {
    let c = HueClient::new("192.168.1.100", "abc");
    assert_eq!(c.base(), "https://192.168.1.100/api/abc");
    let r = c.set_group_on_request("3", true);
    assert_eq!(r.method, Method::Put);
    assert_eq!(r.url, "https://192.168.1.100/api/abc/groups/3/action");
    assert_eq!(r.body, Some(Body::On(true)));
    let g = c.groups_request();
    assert_eq!(g.method, Method::Get);
    assert_eq!(g.url, "https://192.168.1.100/api/abc/groups");
    assert_eq!(g.body, None);
    let col = c.set_group_color_request("3", 255, 128, 0);
    assert_eq!(col.body, Some(Body::Color(255, 128, 0)));
}

#[test]
fn brightness_levels_map_to_bridge_values() {
    let c = HueClient::new("h", "u");
    let body = |level: u8| c.set_group_brightness_request("1", level).body.unwrap();
    assert_eq!(body(0), Body::On(false));
    assert_eq!(body(1), Body::Brightness(3));
    assert_eq!(body(50), Body::Brightness(127));
    assert_eq!(body(80), Body::Brightness(204));
    assert_eq!(body(100), Body::Brightness(254));
    assert_eq!(body(255), Body::Brightness(254));
}

#[test]
fn brightness_grows_with_level() {
    let c = HueClient::new("h", "u");
    let mut last = 0u8;
    for level in 1..=100u8 {
        match c.set_group_brightness_request("1", level).body.unwrap() {
            Body::Brightness(b) => {
                assert!(b >= 1 && b <= 254);
                assert!(b >= last);
                last = b;
            }
            other => panic!("unexpected body {:?}", other),
        }
    }
}

#[test]
fn discovery_and_registration_requests() {
    let d = discovery_request();
    assert_eq!(d.method, Method::Get);
    assert_eq!(d.url, "https://discovery.meethue.com");
    let r = register_request("10.0.0.2");
    assert_eq!(r.method, Method::Post);
    assert_eq!(r.url, "https://10.0.0.2/api");
    assert_eq!(r.body, Some(Body::DeviceType(s("hue-cli#rust"))));
}

#[test]
fn discovery_reply_gives_first_bridge_address() {
    let reply = vec![
        obj(vec![("id", text("001")), ("internalipaddress", text("192.168.1.7"))]),
        obj(vec![("internalipaddress", text("192.168.1.8"))]),
    ];
    assert_eq!(bridge_ip_from_discovery(&reply).unwrap(), "192.168.1.7");
    assert_eq!(bridge_ip_from_discovery(&vec![]).unwrap_err(), HueError::NoBridgesFound);
    let numeric = vec![obj(vec![("internalipaddress", Json::Number(s("5")))])];
    assert_eq!(bridge_ip_from_discovery(&numeric).unwrap_err(), HueError::NoBridgesFound);
}

#[test]
fn registration_reply_outcomes() {
    let ok = vec![obj(vec![("success", obj(vec![("username", text("secretuser"))]))])];
    assert_eq!(username_from_registration(&ok).unwrap(), "secretuser");
    assert_eq!(username_from_registration(&vec![]).unwrap_err(), HueError::EmptyResponse);
    let no_user = vec![obj(vec![("success", obj(vec![]))])];
    assert_eq!(username_from_registration(&no_user).unwrap_err(), HueError::NoUsername);
    let refused = vec![obj(vec![(
        "error",
        obj(vec![("type", Json::Number(s("101"))), ("description", text("link button not pressed"))]),
    )])];
    let e = username_from_registration(&refused).unwrap_err();
    assert_eq!(e, HueError::BridgeError(s("link button not pressed")));
    assert_eq!(e.message(), "Bridge error: link button not pressed");
    let bare_error = vec![obj(vec![("error", Json::Null)])];
    assert_eq!(
        username_from_registration(&bare_error).unwrap_err(),
        HueError::BridgeError(s("unknown error"))
    );
    let odd = vec![obj(vec![("other", Json::Bool(true))])];
    assert_eq!(username_from_registration(&odd).unwrap_err(), HueError::UnexpectedResponse);
}

#[test]
fn action_reply_fails_on_first_error() {
    let fine = vec![obj(vec![("success", obj(vec![]))])];
    assert_eq!(check_hue_response(&fine), Ok(()));
    assert_eq!(check_hue_response(&vec![]), Ok(()));
    let bad = vec![
        obj(vec![("success", obj(vec![]))]),
        obj(vec![("error", obj(vec![("description", text("parameter, bri, is not modifiable"))]))]),
        obj(vec![("error", obj(vec![("description", text("second"))]))]),
    ];
    let e = check_hue_response(&bad).unwrap_err();
    assert_eq!(e.message(), "Hue API error: parameter, bri, is not modifiable");
}

#[test]
fn group_lookup_ignores_case() {
    let groups = vec![
        (s("1"), group("Kitchen", "Room")),
        (s("2"), group("Living Room", "Room")),
        (s("3"), group("living room", "Zone")),
    ];
    assert_eq!(HueClient::find_group_id(&groups, "living room").unwrap(), "2");
    assert_eq!(HueClient::find_group_id(&groups, "LIVING ROOM").unwrap(), "2");
    assert_eq!(HueClient::find_group_id(&groups, "kitchen").unwrap(), "1");
    let german = vec![(s("1"), group("Küche", "Room")), (s("2"), group("Bad", "Room"))];
    assert_eq!(HueClient::find_group_id(&german, "KÜCHE").unwrap(), "1");
    assert_eq!(HueClient::find_group_id(&german, "küche").unwrap(), "1");
    assert_eq!(HueClient::find_group_id(&german, "BAD").unwrap(), "2");
    let e = HueClient::find_group_id(&groups, "garage").unwrap_err();
    assert_eq!(
        e.message(),
        "Group 'garage' not found. Available groups: Kitchen, Living Room, living room"
    );
}

#[test]
fn room_listing_is_sorted_and_only_rooms() {
    let groups = vec![
        (s("1"), group("Kitchen", "Room")),
        (s("2"), group("Bedroom", "Room")),
        (s("3"), group("Downstairs", "Zone")),
        (s("4"), group("Attic", "Room")),
    ];
    assert_eq!(HueClient::room_names(&groups), vec![s("Attic"), s("Bedroom"), s("Kitchen")]);
    let lines = groups_lines(&groups);
    assert_eq!(lines[0], "-".repeat(30));
    assert_eq!(&lines[1..], &[s("Attic"), s("Bedroom"), s("Kitchen")]);
    assert_eq!(groups_lines(&vec![(s("9"), group("Z", "Zone"))]), vec![s("No rooms found.")]);
}

#[test]
fn command_messages() {
    assert_eq!(dim_message("living room", 80), "Set brightness of 'living room' to 80%.");
    assert_eq!(dim_message("living room", 0), "Turned off 'living room'.");
    assert_eq!(rgb_message("living room", 255, 128, 0), "Set color of 'living room' to rgb(255, 128, 0).");
    assert_eq!(switch_message("hall", true), "Turned on 'hall'.");
    assert_eq!(switch_message("hall", false), "Turned off 'hall'.");
}
