//! Talking to the Hue bridge: the requests the tool sends, and what it reads
//! from the replies. Sending and receiving are left to the caller.

use vstd::prelude::*;
use crate::error::HueError;
use crate::json::Json;
use crate::text::{eq_ignoring_case, lowercase_of, same_ignoring_case, sort_strings, sorted, str_eq,
    views};

verus! {

/// The HTTP method of a request.
#[derive(Debug, Clone, Copy, PartialEq, Eq, Structural)]
pub enum Method {
    Get,
    Post,
    Put,
}

/// The JSON body of a request, by what it sets.
#[derive(Debug, Clone, PartialEq, Eq)]
pub enum Body {
    /// `{"devicetype": ..}`: registers an application with the bridge.
    DeviceType(String),
    /// `{"on": ..}`: switches a group on or off.
    On(bool),
    /// `{"on": true, "bri": ..}`: switches a group on at a brightness of 1–254.
    Brightness(u8),
    /// `{"on": true, "xy": ..}`: switches a group on in the colour given as
    /// RGB, which is sent as CIE xy coordinates.
    Color(u8, u8, u8),
}

/// An HTTP request to send.
#[derive(Debug, Clone, PartialEq, Eq)]
pub struct Request {
    pub method: Method,
    pub url: String,
    pub body: Option<Body>,
}

/// A light group (room, zone, ...) as the bridge lists it.
#[derive(Debug, Clone, PartialEq, Eq)]
pub struct Group {
    pub name: String,
    /// The group's `type`, such as `Room`.
    pub kind: String,
}

/// The address of the bridge and the user name it gave this application.
#[derive(Debug, Clone, PartialEq, Eq)]
pub struct HueClient {
    bridge_ip: String,
    username: String,
}

/// The root of the bridge's API for one user.
pub open spec fn base_url(bridge_ip: Seq<char>, username: Seq<char>) -> Seq<char> {
    "https://"@ + bridge_ip + "/api/"@ + username
}

/// The URL through which a group's lights are set.
pub open spec fn action_url(bridge_ip: Seq<char>, username: Seq<char>, group_id: Seq<char>) -> Seq<char> {
    base_url(bridge_ip, username) + "/groups/"@ + group_id + "/action"@
}

/// The bridge's brightness (1–254) for a level of 1–100 %: `level * 254 / 100`
/// rounded up, and held within 1..=254.
pub open spec fn brightness(level: u8) -> u8 {
    let b = (level * 254 + 99) / 100;
    if b > 254 {
        254
    } else if b < 1 {
        1
    } else {
        b as u8
    }
}

/// The body that sets a level of 0–100 %: 0 switches the lights off.
pub open spec fn level_body(level: u8) -> Body {
    if level == 0 {
        Body::On(false)
    } else {
        Body::Brightness(brightness(level))
    }
}

/// The URL of the cloud service that lists the bridges on this network.
pub open spec fn discovery_url() -> Seq<char> {
    "https://discovery.meethue.com"@
}

/// The request that asks the cloud service for the bridges on this network.
pub fn discovery_request() -> (r: Request)
    ensures
        r.method == Method::Get,
        r.url@ == discovery_url(),
        r.body is None,
{
    let mut url = String::new();
    url.append("https://discovery.meethue.com");
    Request { method: Method::Get, url, body: None }
}

/// The request that registers this application with the bridge at
/// `bridge_ip` (after its link button was pressed).
pub fn register_request(bridge_ip: &str) -> (r: Request)
    ensures
        r.method == Method::Post,
        r.url@ == "https://"@ + bridge_ip@ + "/api"@,
        r.body matches Some(Body::DeviceType(d)) && d@ == "hue-cli#rust"@,
{
    let mut url = String::new();
    url.append("https://");
    url.append(bridge_ip);
    url.append("/api");
    let mut device = String::new();
    device.append("hue-cli#rust");
    Request { method: Method::Post, url, body: Some(Body::DeviceType(device)) }
}

/// What an error object of the bridge describes: its `description`, or
/// `unknown error` when it has none.
pub open spec fn description(error: Json) -> Seq<char> {
    match error.member_text("description"@) {
        Some(d) => d,
        None => "unknown error"@,
    }
}

fn describe(error: &Json) -> (r: String)
    ensures
        r@ == description(*error),
{
    let mut out = String::new();
    match error.member_str("description") {
        Some(d) => out.append(d),
        None => out.append("unknown error"),
    }
    out
}

/// The address of the first bridge that the discovery service listed, from
/// its reply (a JSON array of bridges).
pub fn bridge_ip_from_discovery(bridges: &Vec<Json>) -> (r: Result<String, HueError>)
    ensures
        match r {
            Ok(ip) => bridges@.len() > 0 && bridges@[0].member_text("internalipaddress"@) == Some(ip@),
            Err(e) => e == HueError::NoBridgesFound && (bridges@.len() == 0
                || bridges@[0].member_text("internalipaddress"@) is None),
        },
{
    if bridges.len() == 0 {
        return Err(HueError::NoBridgesFound);
    }
    match bridges[0].member_str("internalipaddress") {
        Some(ip) => {
            let mut out = String::new();
            out.append(ip);
            Ok(out)
        },
        None => Err(HueError::NoBridgesFound),
    }
}

/// The user name that the bridge gave in its reply to a registration, or the
/// error the reply stands for.
pub fn username_from_registration(reply: &Vec<Json>) -> (r: Result<String, HueError>)
    ensures
        reply@.len() == 0 ==> r == Err::<String, HueError>(HueError::EmptyResponse),
        reply@.len() > 0 ==> {
            let entry = reply@[0];
            match entry.member("success"@) {
                Some(success) => match success.member_text("username"@) {
                    Some(u) => r matches Ok(s) && s@ == u,
                    None => r == Err::<String, HueError>(HueError::NoUsername),
                },
                None => match entry.member("error"@) {
                    Some(error) => r matches Err(HueError::BridgeError(d)) && d@ == description(error),
                    None => r == Err::<String, HueError>(HueError::UnexpectedResponse),
                },
            }
        },
{
    if reply.len() == 0 {
        return Err(HueError::EmptyResponse);
    }
    let entry = &reply[0];
    if let Some(success) = entry.get("success") {
        return match success.member_str("username") {
            Some(u) => {
                let mut out = String::new();
                out.append(u);
                Ok(out)
            },
            None => Err(HueError::NoUsername),
        };
    }
    if let Some(error) = entry.get("error") {
        return Err(HueError::BridgeError(describe(error)));
    }
    Err(HueError::UnexpectedResponse)
}

/// The index of the first item of `body` that has an `error` member, or
/// `body.len()` when none has.
pub open spec fn first_error(body: Seq<Json>) -> int
    decreases body.len(),
{
    if body.len() == 0 {
        0
    } else if body[0].member("error"@) is Some {
        0
    } else {
        1 + first_error(body.drop_first())
    }
}

proof fn lemma_first_error(body: Seq<Json>)
    ensures
        0 <= first_error(body) <= body.len(),
        first_error(body) < body.len() ==> body[first_error(body)].member("error"@) is Some,
        forall|j: int| 0 <= j < first_error(body) ==> body[j].member("error"@) is None,
    decreases body.len(),
{
    if body.len() > 0 && body[0].member("error"@) is None {
        lemma_first_error(body.drop_first());
        assert forall|j: int| 0 <= j < first_error(body) implies body[j].member("error"@) is None by {
            if j > 0 {
                assert(body[j] == body.drop_first()[j - 1]);
            }
        }
    }
}

/// Checks the bridge's reply to a request that sets lights (a JSON array of
/// results): the first item that reports an error makes it fail.
pub fn check_hue_response(body: &Vec<Json>) -> (r: Result<(), HueError>)
    ensures
        first_error(body@) == body@.len() ==> r is Ok,
        first_error(body@) < body@.len() ==> (r matches Err(HueError::ApiError(d)) && d@
            == description(body@[first_error(body@)].member("error"@).unwrap())),
{
    proof {
        lemma_first_error(body@);
    }
    let mut i: usize = 0;
    while i < body.len()
        invariant
            i <= body.len(),
            i <= first_error(body@),
            0 <= first_error(body@) <= body@.len(),
            first_error(body@) < body@.len() ==> body@[first_error(body@)].member("error"@) is Some,
            forall|j: int| 0 <= j < first_error(body@) ==> body@[j].member("error"@) is None,
        decreases body.len() - i,
    {
        if let Some(error) = body[i].get("error") {
            return Err(HueError::ApiError(describe(error)));
        }
        i = i + 1;
    }
    Ok(())
}

/// The index of the first group whose name is `name` without regard to case, or
/// `groups.len()` when there is none.
pub open spec fn first_group_named(groups: Seq<(String, Group)>, name: Seq<char>) -> int
    decreases groups.len(),
{
    if groups.len() == 0 {
        0
    } else if same_ignoring_case(groups[0].1.name@, name) {
        0
    } else {
        1 + first_group_named(groups.drop_first(), name)
    }
}

/// Facts that characterise `first_group_named`.
pub proof fn lemma_first_group_named(groups: Seq<(String, Group)>, name: Seq<char>)
    ensures
        0 <= first_group_named(groups, name) <= groups.len(),
        first_group_named(groups, name) < groups.len() ==> same_ignoring_case(
            groups[first_group_named(groups, name)].1.name@,
            name,
        ),
        forall|j: int|
            0 <= j < first_group_named(groups, name) ==> !same_ignoring_case(
                #[trigger] groups[j].1.name@,
                name,
            ),
    decreases groups.len(),
{
    if groups.len() > 0 && !same_ignoring_case(groups[0].1.name@, name) {
        lemma_first_group_named(groups.drop_first(), name);
        assert forall|j: int| 0 <= j < first_group_named(groups, name) implies !same_ignoring_case(
            #[trigger] groups[j].1.name@,
            name,
        ) by {
            if j > 0 {
                assert(groups[j] == groups.drop_first()[j - 1]);
            }
        }
    }
}

/// The names of the groups, in the order listed.
pub open spec fn group_names(groups: Seq<(String, Group)>) -> Seq<Seq<char>> {
    groups.map_values(|g: (String, Group)| g.1.name@)
}

/// The names of the groups whose type is `Room`, in the order listed.
pub open spec fn room_names_spec(groups: Seq<(String, Group)>) -> Seq<Seq<char>>
    decreases groups.len(),
{
    if groups.len() == 0 {
        Seq::empty()
    } else {
        let rest = room_names_spec(groups.drop_last());
        if groups.last().1.kind@ == "Room"@ {
            rest.push(groups.last().1.name@)
        } else {
            rest
        }
    }
}

/// The room names are the names of the groups whose type is `Room`, in the
/// order listed.
pub proof fn lemma_room_names_filter(groups: Seq<(String, Group)>)
    ensures
        room_names_spec(groups) == groups.filter(|g: (String, Group)| g.1.kind@ == "Room"@).map_values(
            |g: (String, Group)| g.1.name@,
        ),
    decreases groups.len(),
{
    reveal(Seq::filter);
    let pred = |g: (String, Group)| g.1.kind@ == "Room"@;
    let name = |g: (String, Group)| g.1.name@;
    if groups.len() == 0 {
        assert(groups.filter(pred).map_values(name) =~= Seq::<Seq<char>>::empty());
    } else {
        lemma_room_names_filter(groups.drop_last());
        let sub = groups.drop_last().filter(pred);
        if pred(groups.last()) {
            assert(sub.push(groups.last()).map_values(name) =~= sub.map_values(name).push(name(groups.last())));
        }
    }
}

impl HueClient {
    /// The bridge's address.
    pub closed spec fn bridge_ip(&self) -> Seq<char> {
        self.bridge_ip@
    }

    /// The user name the bridge gave.
    pub closed spec fn username(&self) -> Seq<char> {
        self.username@
    }

    /// A client for the bridge at `bridge_ip`, as user `username`.
    pub fn new(bridge_ip: &str, username: &str) -> (r: HueClient)
        ensures
            r.bridge_ip() == bridge_ip@,
            r.username() == username@,
    {
        let mut ip = String::new();
        ip.append(bridge_ip);
        let mut user = String::new();
        user.append(username);
        HueClient { bridge_ip: ip, username: user }
    }

    /// The id of the first group (in the order listed) whose name is `name`
    /// without regard to case (both lower-cased); room names are
    /// case-insensitive.
    pub fn find_group_id(groups: &Vec<(String, Group)>, name: &str) -> (r: Result<String, HueError>)
        ensures
            first_group_named(groups@, name@) < groups@.len() ==> (r matches Ok(id) && id@
                == groups@[first_group_named(groups@, name@)].0@),
            r matches Ok(id) ==> exists|i: int|
                0 <= i < groups@.len() && id@ == groups@[i].0@ && lowercase_of(groups@[i].1.name@)
                    == lowercase_of(name@) && forall|j: int|
                    0 <= j < i ==> lowercase_of(#[trigger] groups@[j].1.name@) != lowercase_of(name@),
            r is Err ==> forall|j: int|
                0 <= j < groups@.len() ==> lowercase_of(#[trigger] groups@[j].1.name@) != lowercase_of(name@),
            first_group_named(groups@, name@) == groups@.len() ==> (r matches Err(
                HueError::GroupNotFound { name: n, available },
            ) && n@ == name@ && views(available@) == group_names(groups@)),
    {
        proof {
            lemma_first_group_named(groups@, name@);
        }
        let ghost first = first_group_named(groups@, name@);
        let mut i: usize = 0;
        while i < groups.len()
            invariant
                i <= groups.len(),
                first == first_group_named(groups@, name@),
                i <= first_group_named(groups@, name@),
                0 <= first_group_named(groups@, name@) <= groups@.len(),
                first_group_named(groups@, name@) < groups@.len() ==> same_ignoring_case(
                    groups@[first_group_named(groups@, name@)].1.name@,
                    name@,
                ),
                forall|j: int|
                    0 <= j < first_group_named(groups@, name@) ==> !same_ignoring_case(
                        #[trigger] groups@[j].1.name@,
                        name@,
                    ),
            decreases groups.len() - i,
        {
            if eq_ignoring_case(groups[i].1.name.as_str(), name) {
                assert(i == first);
                return Ok(groups[i].0.clone());
            }
            i = i + 1;
        }
        let mut available: Vec<String> = Vec::new();
        let mut k: usize = 0;
        while k < groups.len()
            invariant
                k <= groups.len(),
                views(available@) == group_names(groups@.take(k as int)),
            decreases groups.len() - k,
        {
            available.push(groups[k].1.name.clone());
            assert(group_names(groups@.take(k + 1)) =~= group_names(groups@.take(k as int)).push(groups@[k as int].1.name@));
            k = k + 1;
        }
        assert(groups@.take(groups.len() as int) =~= groups@);
        let mut n = String::new();
        n.append(name);
        Err(HueError::GroupNotFound { name: n, available })
    }

    /// The names of the rooms (groups whose type is `Room`), in order.
    pub fn room_names(groups: &Vec<(String, Group)>) -> (r: Vec<String>)
        ensures
            sorted(views(r@)),
            views(r@).to_multiset() == room_names_spec(groups@).to_multiset(),
            views(r@).to_multiset() == groups@.filter(|g: (String, Group)| g.1.kind@ == "Room"@).map_values(
                |g: (String, Group)| g.1.name@,
            ).to_multiset(),
    {
        let mut names: Vec<String> = Vec::new();
        let mut k: usize = 0;
        while k < groups.len()
            invariant
                k <= groups.len(),
                views(names@) == room_names_spec(groups@.take(k as int)),
            decreases groups.len() - k,
        {
            let ghost t = groups@.take(k + 1);
            assert(t.drop_last() =~= groups@.take(k as int));
            if str_eq(groups[k].1.kind.as_str(), "Room") {
                names.push(groups[k].1.name.clone());
                assert(views(names@) =~= room_names_spec(t));
            }
            k = k + 1;
        }
        assert(groups@.take(groups.len() as int) =~= groups@);
        proof {
            lemma_room_names_filter(groups@);
        }
        sort_strings(names)
    }

    /// The root of the API for this client's user.
    pub fn base(&self) -> (r: String)
        ensures
            r@ == base_url(self.bridge_ip(), self.username()),
    {
        let mut url = String::new();
        url.append("https://");
        url.append(self.bridge_ip.as_str());
        url.append("/api/");
        url.append(self.username.as_str());
        url
    }

    /// The request that lists the bridge's groups.
    pub fn groups_request(&self) -> (r: Request)
        ensures
            r.method == Method::Get,
            r.url@ == base_url(self.bridge_ip(), self.username()) + "/groups"@,
            r.body is None,
    {
        let mut url = self.base();
        url.append("/groups");
        Request { method: Method::Get, url, body: None }
    }

    fn action_url(&self, group_id: &str) -> (r: String)
        ensures
            r@ == action_url(self.bridge_ip(), self.username(), group_id@),
            r@ == base_url(self.bridge_ip(), self.username()) + "/groups/"@ + group_id@ + "/action"@,
    {
        let mut url = self.base();
        url.append("/groups/");
        url.append(group_id);
        url.append("/action");
        url
    }

    /// The request that switches group `group_id` on or off.
    pub fn set_group_on_request(&self, group_id: &str, on: bool) -> (r: Request)
        ensures
            r.method == Method::Put,
            r.url@ == action_url(self.bridge_ip(), self.username(), group_id@),
            r.url@ == base_url(self.bridge_ip(), self.username()) + "/groups/"@ + group_id@ + "/action"@,
            r.body == Some(Body::On(on)),
    {
        Request { method: Method::Put, url: self.action_url(group_id), body: Some(Body::On(on)) }
    }

    /// The request that sets group `group_id` to `level` %: 0 switches it off,
    /// 1–100 switch it on at that brightness.
    pub fn set_group_brightness_request(&self, group_id: &str, level: u8) -> (r: Request)
        ensures
            r.method == Method::Put,
            r.url@ == action_url(self.bridge_ip(), self.username(), group_id@),
            r.url@ == base_url(self.bridge_ip(), self.username()) + "/groups/"@ + group_id@ + "/action"@,
            r.body == Some(level_body(level)),
            level == 0 ==> r.body == Some(Body::On(false)),
            1 <= level <= 100 ==> (r.body matches Some(Body::Brightness(b)) && 254 * level <= 100 * b
                && 100 * b < 254 * level + 100),
            level > 100 ==> r.body == Some(Body::Brightness(254)),
    {
        let body = if level == 0 {
            Body::On(false)
        } else {
            let b: u16 = (level as u16 * 254 + 99) / 100;
            assert(254 * level <= 100 * b && 100 * b < 254 * level + 100) by (nonlinear_arith)
                requires
                    b == (level * 254 + 99) / 100,
            ;
            let b: u16 = if b > 254 { 254 } else if b < 1 { 1 } else { b };
            Body::Brightness(b as u8)
        };
        Request { method: Method::Put, url: self.action_url(group_id), body: Some(body) }
    }

    /// The request that sets group `group_id` to the colour `(r, g, b)`.
    pub fn set_group_color_request(&self, group_id: &str, r: u8, g: u8, b: u8) -> (req: Request)
        ensures
            req.method == Method::Put,
            req.url@ == action_url(self.bridge_ip(), self.username(), group_id@),
            req.url@ == base_url(self.bridge_ip(), self.username()) + "/groups/"@ + group_id@
                + "/action"@,
            req.body == Some(Body::Color(r, g, b)),
    {
        Request { method: Method::Put, url: self.action_url(group_id), body: Some(Body::Color(r, g, b)) }
    }
}

} // verus!
