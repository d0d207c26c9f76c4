//! Properties that hold across the library's operations.

use vstd::prelude::*;
use crate::bridge::{Body, Group, action_url, base_url, brightness, first_group_named,
    lemma_first_group_named, lemma_room_names_filter, level_body, room_names_spec};
use crate::commands::{lookup, presets_after_delete, presets_after_save};
use crate::presets::PresetActionView;
use crate::rgb::{Rgb, parse_rgb_spec};
use crate::setup::{InitAction, InitEvent, InitState, init_next};
use crate::text::{decimal, lowercase_of, same_ignoring_case, is_digit, lemma_decimal,
    lemma_first_index_of_concat, lemma_parse_digits, lemma_trim_digits};

verus! {

/// Room names are case-insensitive: two names with the same lower-case form
/// find the same group.
pub proof fn law_group_lookup_ignores_case(groups: Seq<(String, Group)>, a: Seq<char>, b: Seq<char>)
    requires
        same_ignoring_case(a, b),
    ensures
        first_group_named(groups, a) == first_group_named(groups, b),
    decreases groups.len(),
{
    if groups.len() > 0 {
        let n = groups[0].1.name@;
        assert(same_ignoring_case(n, a) == same_ignoring_case(n, b));
        law_group_lookup_ignores_case(groups.drop_first(), a, b);
    }
}

/// A name finds the first group whose whole name has the same lower-case form
/// as it; no earlier group's name has, and a name that no group's name matches
/// so finds none.
pub proof fn law_group_lookup_compares_whole_names(groups: Seq<(String, Group)>, name: Seq<char>)
    ensures
        first_group_named(groups, name) < groups.len() ==> lowercase_of(
            groups[first_group_named(groups, name)].1.name@,
        ) == lowercase_of(name),
        forall|j: int|
            0 <= j < first_group_named(groups, name) && j < groups.len() ==> lowercase_of(
                #[trigger] groups[j].1.name@,
            ) != lowercase_of(name),
        first_group_named(groups, name) >= groups.len() ==> forall|j: int|
            0 <= j < groups.len() ==> lowercase_of(#[trigger] groups[j].1.name@) != lowercase_of(name),
{
    lemma_first_group_named(groups, name);
}

/// A level of 1–100 % gives the bridge brightness `level * 254 / 100`
/// rounded up: the least value whose hundredfold reaches `254 * level`.
pub proof fn law_brightness_rounds_up(level: u8)
    requires
        1 <= level <= 100,
    ensures
        level_body(level) == Body::Brightness(brightness(level)),
        254 * level <= 100 * brightness(level),
        100 * brightness(level) < 254 * level + 100,
{
    let b = (level * 254 + 99) / 100;
    assert(254 * level <= 100 * b && 100 * b < 254 * level + 100) by (nonlinear_arith)
        requires
            b == (level * 254 + 99) / 100,
    ;
}

/// The URL that sets a group holds the group's whole id: it is the API root,
/// `/groups/`, the id and `/action`, so different ids give different URLs.
pub proof fn law_action_url_holds_group_id(
    bridge_ip: Seq<char>,
    username: Seq<char>,
    id: Seq<char>,
    other: Seq<char>,
)
    ensures
        action_url(bridge_ip, username, id).subrange(0, base_url(bridge_ip, username).len() as int)
            == base_url(bridge_ip, username),
        action_url(bridge_ip, username, id).subrange(
            (base_url(bridge_ip, username) + "/groups/"@).len() as int,
            (base_url(bridge_ip, username) + "/groups/"@).len() + id.len() as int,
        ) == id,
        action_url(bridge_ip, username, id) == action_url(bridge_ip, username, other) ==> id == other,
{
    let base = base_url(bridge_ip, username);
    let pre = base + "/groups/"@;
    let a = action_url(bridge_ip, username, id);
    let b = action_url(bridge_ip, username, other);
    assert(a == pre + id + "/action"@);
    assert(b == pre + other + "/action"@);
    assert(a.subrange(0, base.len() as int) =~= base);
    assert(a.subrange(pre.len() as int, pre.len() + id.len() as int) =~= id);
    if a == b {
        assert(id.len() == other.len());
        assert(b.subrange(pre.len() as int, pre.len() + other.len() as int) =~= other);
    }
}

/// The rooms are exactly the groups whose type is `Room`, named in the order
/// listed: zones, entertainment areas and other kinds of group are left out.
pub proof fn law_rooms_are_room_groups(groups: Seq<(String, Group)>, n: Seq<char>)
    ensures
        room_names_spec(groups) == groups.filter(|g: (String, Group)| g.1.kind@ == "Room"@).map_values(
            |g: (String, Group)| g.1.name@,
        ),
        room_names_spec(groups).contains(n) <==> exists|i: int|
            0 <= i < groups.len() && groups[i].1.kind@ == "Room"@ && #[trigger] groups[i].1.name@ == n,
{
    lemma_room_names_filter(groups);
    let pred = |g: (String, Group)| g.1.kind@ == "Room"@;
    let name = |g: (String, Group)| g.1.name@;
    let f = groups.filter(pred);
    if room_names_spec(groups).contains(n) {
        let k = choose|k: int| 0 <= k < f.map_values(name).len() && f.map_values(name)[k] == n;
        assert(f.contains(f[k]));
        groups.lemma_filter_contains_rev(pred, f[k]);
        groups.lemma_filter_pred(pred, k);
        let i = choose|i: int| 0 <= i < groups.len() && groups[i] == f[k];
        assert(groups[i].1.name@ == n);
    }
    if exists|i: int| 0 <= i < groups.len() && groups[i].1.kind@ == "Room"@ && #[trigger] groups[i].1.name@ == n {
        let i = choose|i: int| 0 <= i < groups.len() && groups[i].1.kind@ == "Room"@ && #[trigger] groups[i].1.name@ == n;
        groups.lemma_filter_contains(pred, i);
        let k = choose|k: int| 0 <= k < f.len() && f[k] == groups[i];
        assert(f.map_values(name)[k] == n);
    }
}

/// Level 0 switches a group off; levels 1–100 switch it on at a brightness
/// of 1–254 that grows with the level and reaches 254 at 100 %.
pub proof fn law_brightness_levels(level: u8, higher: u8)
    requires
        level <= higher <= 100,
    ensures
        level == 0 ==> level_body(level) == Body::On(false),
        level > 0 ==> level_body(level) == Body::Brightness(brightness(level)),
        level > 0 ==> 1 <= brightness(level) <= 254,
        level > 0 ==> brightness(level) <= brightness(higher),
        brightness(100) == 254,
{
    assert(level * 254 <= higher * 254) by (nonlinear_arith)
        requires
            level <= higher,
    ;
    assert((level * 254 + 99) / 100 <= (higher * 254 + 99) / 100) by (nonlinear_arith)
        requires
            level * 254 <= higher * 254,
    ;
}

/// A preset saved under a name is what a lookup of that name then finds;
/// every other name finds what it found before. Saving again under the name
/// replaces the first save.
pub proof fn law_save_then_lookup(
    presets: Map<Seq<char>, Seq<PresetActionView>>,
    name: Seq<char>,
    action: PresetActionView,
    other: Seq<char>,
    second: PresetActionView,
)
    ensures
        lookup(presets_after_save(presets, name, action, false), name) == Some(seq![action]),
        other != name ==> lookup(presets_after_save(presets, name, action, false), other) == lookup(
            presets,
            other,
        ),
        presets_after_save(presets_after_save(presets, name, action, false), name, second, false)
            == presets_after_save(presets, name, second, false),
{
    assert(presets_after_save(presets_after_save(presets, name, action, false), name, second, false)
        =~= presets_after_save(presets, name, second, false));
}

/// Adding to a preset keeps its actions in order and puts the new one last;
/// every other name finds what it found before.
pub proof fn law_add_appends(
    presets: Map<Seq<char>, Seq<PresetActionView>>,
    name: Seq<char>,
    action: PresetActionView,
    other: Seq<char>,
)
    requires
        lookup(presets, name) is Some,
    ensures
        lookup(presets_after_save(presets, name, action, true), name) == Some(
            lookup(presets, name).unwrap().push(action),
        ),
        other != name ==> lookup(presets_after_save(presets, name, action, true), other) == lookup(
            presets,
            other,
        ),
{
}

/// A deleted preset is no longer found and every other name finds what it
/// found before; deleting what was just saved leaves what deleting alone would.
pub proof fn law_delete(
    presets: Map<Seq<char>, Seq<PresetActionView>>,
    name: Seq<char>,
    other: Seq<char>,
    action: PresetActionView,
)
    ensures
        lookup(presets_after_delete(presets, name), name) is None,
        other != name ==> lookup(presets_after_delete(presets, name), other) == lookup(presets, other),
        presets_after_delete(presets_after_save(presets, name, action, false), name)
            == presets_after_delete(presets, name),
{
    assert(presets_after_delete(presets_after_save(presets, name, action, false), name)
        =~= presets_after_delete(presets, name));
}

proof fn lemma_decimal_no_comma(n: nat)
    ensures
        forall|i: int| 0 <= i < decimal(n).len() ==> decimal(n)[i] != ',',
{
    lemma_decimal(n);
    assert forall|i: int| 0 <= i < decimal(n).len() implies decimal(n)[i] != ',' by {
        assert(is_digit(decimal(n)[i]));
    }
}

/// A colour written as `r,g,b` in decimal is read back as the same colour.
pub proof fn law_rgb_round_trip(r: u8, g: u8, b: u8)
    ensures
        parse_rgb_spec(decimal(r as nat) + seq![','] + decimal(g as nat) + seq![','] + decimal(b as nat))
            == Ok::<Rgb, Seq<char>>(Rgb(r, g, b)),
{
    let dr = decimal(r as nat);
    let dg = decimal(g as nat);
    let db = decimal(b as nat);
    let s = dr + seq![','] + dg + seq![','] + db;
    lemma_decimal_no_comma(r as nat);
    lemma_decimal_no_comma(g as nat);
    lemma_decimal_no_comma(b as nat);
    lemma_decimal(r as nat);
    lemma_decimal(g as nat);
    lemma_decimal(b as nat);
    assert(s =~= dr + seq![','] + (dg + seq![','] + db));
    lemma_first_index_of_concat(dr, ',', dg + seq![','] + db);
    let rest = s.skip(dr.len() as int + 1);
    assert(rest =~= dg + seq![','] + db);
    lemma_first_index_of_concat(dg, ',', db);
    assert(s.take(dr.len() as int) =~= dr);
    assert(rest.take(dg.len() as int) =~= dg);
    assert(rest.skip(dg.len() as int + 1) =~= db);
    lemma_trim_digits(dr);
    lemma_trim_digits(dg);
    lemma_trim_digits(db);
    lemma_parse_digits(dr);
    lemma_parse_digits(dg);
    lemma_parse_digits(db);
}

/// Setup keeps the address it was given, found or told, together with the
/// user name the bridge returned, and registers only after the link button.
pub proof fn law_init_saves_what_it_learned(ip: String, username: String)
    ensures
        ({
            let given = init_next(InitState::Start, InitEvent::Begin { bridge_ip: Some(ip) });
            let linked = init_next(given.0, InitEvent::LinkPressed);
            let done = init_next(linked.0, InitEvent::Registered { username });
            &&& given.1 == Some(InitAction::AskLinkButton)
            &&& linked.1 == Some(InitAction::Register { bridge_ip: ip })
            &&& done.1 == Some(InitAction::SaveCredentials { bridge_ip: ip, username })
        }),
        ({
            let begun = init_next(InitState::Start, InitEvent::Begin { bridge_ip: None });
            let found = init_next(begun.0, InitEvent::Discovered { bridge_ip: Some(ip) });
            let linked = init_next(found.0, InitEvent::LinkPressed);
            let done = init_next(linked.0, InitEvent::Registered { username });
            &&& begun.1 == Some(InitAction::Discover)
            &&& found.1 == Some(InitAction::AskLinkButton)
            &&& done.1 == Some(InitAction::SaveCredentials { bridge_ip: ip, username })
        }),
        ({
            let begun = init_next(InitState::Start, InitEvent::Begin { bridge_ip: None });
            let failed = init_next(begun.0, InitEvent::Discovered { bridge_ip: None });
            let typed = init_next(failed.0, InitEvent::AddressEntered { bridge_ip: ip });
            let linked = init_next(typed.0, InitEvent::LinkPressed);
            let done = init_next(linked.0, InitEvent::Registered { username });
            &&& failed.1 == Some(InitAction::AskAddress)
            &&& typed.1 == Some(InitAction::AskLinkButton)
            &&& done.1 == Some(InitAction::SaveCredentials { bridge_ip: ip, username })
        }),
        init_next(InitState::Start, InitEvent::LinkPressed) == (InitState::Start, None::<InitAction>),
{
}

} // verus!
