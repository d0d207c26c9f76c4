//! What each command of the tool decides and prints, apart from reading and
//! writing the configuration and talking to the bridge.

use vstd::prelude::*;
use crate::bridge::{Group, HueClient, room_names_spec};
use crate::config::Config;
use crate::error::HueError;
use crate::presets::{Preset, PresetAction, PresetActionView};
use crate::rgb::Rgb;
use crate::text::{decimal, join, push_decimal, push_joined, sorted, views};

verus! {

/// The client for the bridge and user that the configuration names.
pub fn make_client(config: &Config) -> (r: Result<HueClient, HueError>)
    ensures
        match (config.bridge_ip, config.username) {
            (Some(ip), Some(user)) => r matches Ok(c) && c.bridge_ip() == ip@ && c.username() == user@,
            (None, _) => r == Err::<HueClient, HueError>(HueError::BridgeNotConfigured),
            (Some(_), None) => r == Err::<HueClient, HueError>(HueError::NotAuthenticated),
        },
{
    let ip = config.require_bridge_ip()?;
    let user = config.require_username()?;
    Ok(HueClient::new(ip, user))
}

/// A preset action must set a brightness, a colour or both.
pub fn require_settings(dim: Option<u8>, rgb: Option<Rgb>) -> (r: Result<(), HueError>)
    ensures
        dim is None && rgb is None ==> r == Err::<(), HueError>(HueError::MissingPresetSettings),
        !(dim is None && rgb is None) ==> r is Ok,
{
    if dim.is_none() && rgb.is_none() {
        Err(HueError::MissingPresetSettings)
    } else {
        Ok(())
    }
}

/// The preset action that `save` or `add` stores.
pub open spec fn new_action(group: Seq<char>, dim: Option<u8>, rgb: Option<Rgb>) -> PresetActionView {
    PresetActionView {
        group,
        dim,
        rgb: match rgb {
            Some(c) => Some([c.0, c.1, c.2]),
            None => None,
        },
    }
}

/// The presets after `save` (`append` false) of `action` under `name`, which
/// replaces any preset of that name, or after `add` (`append` true), which
/// puts `action` last in the preset `name`.
pub open spec fn presets_after_save(
    presets: Map<Seq<char>, Seq<PresetActionView>>,
    name: Seq<char>,
    action: PresetActionView,
    append: bool,
) -> Map<Seq<char>, Seq<PresetActionView>> {
    if append {
        presets.insert(name, presets[name].push(action))
    } else {
        presets.insert(name, seq![action])
    }
}

/// The presets after `delete` of `name`.
pub open spec fn presets_after_delete(presets: Map<Seq<char>, Seq<PresetActionView>>, name: Seq<char>) -> Map<
    Seq<char>,
    Seq<PresetActionView>,
> {
    presets.remove(name)
}

/// What looking up `name` finds: the preset's actions, or nothing.
pub open spec fn lookup(presets: Map<Seq<char>, Seq<PresetActionView>>, name: Seq<char>) -> Option<
    Seq<PresetActionView>,
> {
    if presets.contains_key(name) {
        Some(presets[name])
    } else {
        None
    }
}

impl Config {
    /// `preset save` (`append` false) and `preset add` (`append` true): stores
    /// a preset of one action under `name`, replacing any preset of that name,
    /// or adds the action to the existing preset `name`. Returns the message
    /// to show.
    pub fn save_preset(
        &mut self,
        name: &str,
        group: &str,
        dim: Option<u8>,
        rgb: Option<Rgb>,
        append: bool,
    ) -> (r: Result<String, HueError>)
        ensures
            final(self).bridge_ip == old(self).bridge_ip,
            final(self).username == old(self).username,
            dim is None && rgb is None ==> r == Err::<String, HueError>(HueError::MissingPresetSettings)
                && final(self).presets@ == old(self).presets@,
            !(dim is None && rgb is None) && append && !old(self).presets@.contains_key(name@) ==> (
                r matches Err(HueError::PresetNotFoundForAdd(n)) && n@ == name@
                && final(self).presets@ == old(self).presets@),
            !(dim is None && rgb is None) && append && old(self).presets@.contains_key(name@) ==> (
                r matches Ok(m) && m@ == "Added group '"@ + group@ + "' to preset '"@ + name@ + "'."@
                && final(self).presets@ == presets_after_save(
                    old(self).presets@,
                    name@,
                    new_action(group@, dim, rgb),
                    true,
                )),
            !(dim is None && rgb is None) && !append ==> (r matches Ok(m) && m@ == "Saved preset '"@
                + name@ + "'."@ && final(self).presets@ == presets_after_save(
                old(self).presets@,
                name@,
                new_action(group@, dim, rgb),
                false,
            )),
    {
        require_settings(dim, rgb)?;
        let mut g = String::new();
        g.append(group);
        let action = PresetAction {
            group: g,
            dim,
            rgb: match rgb {
                Some(c) => Some([c.0, c.1, c.2]),
                None => None,
            },
        };
        assert(action@ == new_action(group@, dim, rgb));
        let mut msg = String::new();
        if append {
            if !self.presets.push_action(name, action) {
                let mut n = String::new();
                n.append(name);
                return Err(HueError::PresetNotFoundForAdd(n));
            }
            msg.append("Added group '");
            msg.append(group);
            msg.append("' to preset '");
            msg.append(name);
            msg.append("'.");
        } else {
            let mut n = String::new();
            n.append(name);
            let mut actions: Vec<PresetAction> = Vec::new();
            actions.push(action);
            let preset = Preset { actions };
            assert(preset@ =~= seq![new_action(group@, dim, rgb)]);
            self.presets.insert(n, preset);
            msg.append("Saved preset '");
            msg.append(name);
            msg.append("'.");
        }
        Ok(msg)
    }

    /// The preset named `name`, for `preset apply` and `preset show`.
    pub fn preset(&self, name: &str) -> (r: Result<&Preset, HueError>)
        ensures
            lookup(self.presets@, name@) matches Some(actions) ==> (r matches Ok(p) && p@ == actions),
            lookup(self.presets@, name@) is None ==> (r matches Err(HueError::PresetNotFound(n)) && n@
                == name@),
    {
        match self.presets.get(name) {
            Some(p) => Ok(p),
            None => {
                let mut n = String::new();
                n.append(name);
                Err(HueError::PresetNotFound(n))
            },
        }
    }

    /// `preset delete`: removes the preset named `name`. Returns the message
    /// to show.
    pub fn delete_preset(&mut self, name: &str) -> (r: Result<String, HueError>)
        ensures
            final(self).bridge_ip == old(self).bridge_ip,
            final(self).username == old(self).username,
            final(self).presets@ == presets_after_delete(old(self).presets@, name@),
            old(self).presets@.contains_key(name@) ==> (r matches Ok(m) && m@ == "Deleted preset '"@
                + name@ + "'."@),
            !old(self).presets@.contains_key(name@) ==> (r matches Err(HueError::PresetNotFound(n))
                && n@ == name@),
    {
        if self.presets.remove(name) {
            let mut m = String::new();
            m.append("Deleted preset '");
            m.append(name);
            m.append("'.");
            Ok(m)
        } else {
            let mut n = String::new();
            n.append(name);
            Err(HueError::PresetNotFound(n))
        }
    }
}

/// The groups that a preset's actions target, in order.
pub open spec fn action_groups(actions: Seq<PresetActionView>) -> Seq<Seq<char>> {
    actions.map_values(|a: PresetActionView| a.group)
}

/// The line `preset list` shows for a preset.
pub open spec fn list_line(name: Seq<char>, actions: Seq<PresetActionView>) -> Seq<char> {
    name + "  ("@ + join(action_groups(actions), ", "@) + ")"@
}

/// The line `preset show` shows for an action.
pub open spec fn show_line(a: PresetActionView) -> Seq<char> {
    "  group: "@ + a.group + match a.dim {
        Some(d) => "  dim: "@ + decimal(d as nat) + "%"@,
        None => Seq::empty(),
    } + match a.rgb {
        Some(c) => "  rgb: ("@ + decimal(c[0] as nat) + ", "@ + decimal(c[1] as nat) + ", "@
            + decimal(c[2] as nat) + ")"@,
        None => Seq::empty(),
    }
}

fn groups_of(preset: &Preset) -> (r: Vec<String>)
    ensures
        views(r@) == action_groups(preset@),
{
    let mut r: Vec<String> = Vec::new();
    let mut i: usize = 0;
    while i < preset.actions.len()
        invariant
            i <= preset.actions.len(),
            views(r@) == action_groups(preset@.take(i as int)),
        decreases preset.actions.len() - i,
    {
        r.push(preset.actions[i].group.clone());
        assert(action_groups(preset@.take(i + 1)) =~= action_groups(preset@.take(i as int)).push(
            preset.actions@[i as int].group@,
        ));
        i = i + 1;
    }
    assert(preset@.take(preset.actions.len() as int) =~= preset@);
    r
}

fn action_line(a: &PresetAction) -> (r: String)
    ensures
        r@ == show_line(a@),
{
    let mut line = String::new();
    line.append("  group: ");
    line.append(a.group.as_str());
    let ghost head = line@;
    if let Some(d) = a.dim {
        line.append("  dim: ");
        push_decimal(&mut line, d);
        line.append("%");
    }
    assert(line@ =~= head + match a.dim {
        Some(d) => "  dim: "@ + decimal(d as nat) + "%"@,
        None => Seq::<char>::empty(),
    });
    let ghost mid = line@;
    if let Some(c) = a.rgb {
        line.append("  rgb: (");
        push_decimal(&mut line, c[0]);
        line.append(", ");
        push_decimal(&mut line, c[1]);
        line.append(", ");
        push_decimal(&mut line, c[2]);
        line.append(")");
    }
    assert(line@ =~= mid + match a.rgb {
        Some(c) => "  rgb: ("@ + decimal(c[0] as nat) + ", "@ + decimal(c[1] as nat) + ", "@
            + decimal(c[2] as nat) + ")"@,
        None => Seq::<char>::empty(),
    });
    line
}

impl Config {
    /// The lines `preset list` shows: one per preset, in increasing order of
    /// name, or a note that there are none.
    pub fn preset_list_lines(&self) -> (r: Vec<String>)
        ensures
            self.presets@.dom().len() == 0 ==> r@.len() == 1 && r@[0]@ == "No presets saved."@,
            self.presets@.dom().len() > 0 ==> {
                &&& r@.len() == self.presets.names().len()
                &&& forall|i: int| 0 <= i < r@.len() ==> (#[trigger] r@[i])@ == list_line(
                    self.presets.names()[i],
                    self.presets@[self.presets.names()[i]],
                )
            },
    {
        let mut lines: Vec<String> = Vec::new();
        if self.presets.is_empty() {
            let mut l = String::new();
            l.append("No presets saved.");
            lines.push(l);
            return lines;
        }
        let entries = self.presets.entries();
        proof {
            use_type_invariant(&self.presets);
            self.presets.lemma_names();
        }
        let mut i: usize = 0;
        while i < entries.len()
            invariant
                i <= entries.len(),
                entries@.len() == self.presets.names().len(),
                forall|k: int| 0 <= k < entries@.len() ==> (#[trigger] entries@[k]).0@ == self.presets.names()[k],
                forall|k: int| 0 <= k < entries@.len() ==> (#[trigger] entries@[k]).1@ == self.presets@[self.presets.names()[k]],
                lines@.len() == i,
                forall|k: int| 0 <= k < i ==> (#[trigger] lines@[k])@ == list_line(
                    self.presets.names()[k],
                    self.presets@[self.presets.names()[k]],
                ),
            decreases entries.len() - i,
        {
            let mut l = String::new();
            l.append(entries[i].0.as_str());
            l.append("  (");
            let groups = groups_of(&entries[i].1);
            push_joined(&mut l, &groups, ", ");
            l.append(")");
            assert(l@ =~= list_line(self.presets.names()[i as int], self.presets@[self.presets.names()[i as int]]));
            lines.push(l);
            i = i + 1;
        }
        lines
    }

    /// The lines `preset show` shows for the preset named `name`: its name,
    /// then one line per action.
    pub fn preset_show_lines(&self, name: &str) -> (r: Result<Vec<String>, HueError>)
        ensures
            self.presets@.contains_key(name@) ==> (r matches Ok(lines) && lines@.len()
                == self.presets@[name@].len() + 1 && lines@[0]@ == "Preset: "@ + name@ && forall|i: int|
                0 <= i < self.presets@[name@].len() ==> (#[trigger] lines@[i + 1])@ == show_line(
                    self.presets@[name@][i],
                )),
            !self.presets@.contains_key(name@) ==> (r matches Err(HueError::PresetNotFound(n)) && n@
                == name@),
    {
        let preset = self.preset(name)?;
        let mut lines: Vec<String> = Vec::new();
        let mut head = String::new();
        head.append("Preset: ");
        head.append(name);
        lines.push(head);
        let mut i: usize = 0;
        while i < preset.actions.len()
            invariant
                i <= preset.actions.len(),
                lines@.len() == i + 1,
                lines@[0]@ == "Preset: "@ + name@,
                forall|k: int| 0 <= k < i ==> (#[trigger] lines@[k + 1])@ == show_line(preset@[k]),
            decreases preset.actions.len() - i,
        {
            lines.push(action_line(&preset.actions[i]));
            i = i + 1;
        }
        Ok(lines)
    }
}

/// The lines `groups` shows: a rule, then the rooms' names in order, or a
/// note that there are none.
pub fn groups_lines(groups: &Vec<(String, Group)>) -> (r: Vec<String>)
    ensures
        room_names_spec(groups@).len() == 0 ==> r@.len() == 1 && r@[0]@ == "No rooms found."@,
        room_names_spec(groups@).len() > 0 ==> {
            &&& r@.len() == room_names_spec(groups@).len() + 1
            &&& r@[0]@ == "------------------------------"@
            &&& sorted(views(r@).drop_first())
            &&& views(r@).drop_first().to_multiset() == room_names_spec(groups@).to_multiset()
        },
{
    let rooms = HueClient::room_names(groups);
    proof {
        views(rooms@).to_multiset_ensures();
        room_names_spec(groups@).to_multiset_ensures();
    }
    let mut lines: Vec<String> = Vec::new();
    if rooms.len() == 0 {
        let mut l = String::new();
        l.append("No rooms found.");
        lines.push(l);
        return lines;
    }
    let mut rule = String::new();
    rule.append("------------------------------");
    lines.push(rule);
    let mut i: usize = 0;
    while i < rooms.len()
        invariant
            i <= rooms.len(),
            lines@.len() == i + 1,
            lines@[0]@ == "------------------------------"@,
            forall|k: int| 0 <= k < i ==> (#[trigger] lines@[k + 1])@ == rooms@[k]@,
        decreases rooms.len() - i,
    {
        lines.push(rooms[i].clone());
        i = i + 1;
    }
    assert(views(lines@).drop_first() =~= views(rooms@));
    lines
}

/// What `dim` reports: 0 switches the group off.
pub fn dim_message(group: &str, level: u8) -> (r: String)
    ensures
        level == 0 ==> r@ == "Turned off '"@ + group@ + "'."@,
        level != 0 ==> r@ == "Set brightness of '"@ + group@ + "' to "@ + decimal(level as nat) + "%."@,
{
    let mut m = String::new();
    if level == 0 {
        m.append("Turned off '");
        m.append(group);
        m.append("'.");
    } else {
        m.append("Set brightness of '");
        m.append(group);
        m.append("' to ");
        push_decimal(&mut m, level);
        m.append("%.");
    }
    m
}

/// What `rgb` reports.
pub fn rgb_message(group: &str, r: u8, g: u8, b: u8) -> (m: String)
    ensures
        m@ == "Set color of '"@ + group@ + "' to rgb("@ + decimal(r as nat) + ", "@ + decimal(g as nat)
            + ", "@ + decimal(b as nat) + ")."@,
{
    let mut m = String::new();
    m.append("Set color of '");
    m.append(group);
    m.append("' to rgb(");
    push_decimal(&mut m, r);
    m.append(", ");
    push_decimal(&mut m, g);
    m.append(", ");
    push_decimal(&mut m, b);
    m.append(").");
    m
}

/// What `on` and `off` report.
pub fn switch_message(group: &str, on: bool) -> (m: String)
    ensures
        on ==> m@ == "Turned on '"@ + group@ + "'."@,
        !on ==> m@ == "Turned off '"@ + group@ + "'."@,
{
    let mut m = String::new();
    if on {
        m.append("Turned on '");
    } else {
        m.append("Turned off '");
    }
    m.append(group);
    m.append("'.");
    m
}

/// One step of applying a preset, carried out by the caller in order.
#[derive(Debug, Clone, PartialEq, Eq)]
pub enum ApplyStep {
    /// Look up the id of the group of this name; the steps that follow act on it.
    FindGroup(String),
    /// Set the group to a brightness level of 0–100 %.
    SetBrightness(u8),
    /// Set the group to a colour.
    SetColor(u8, u8, u8),
    /// Show a line.
    Say(String),
}

/// An apply step as a mathematical value.
pub enum ApplyStepView {
    FindGroup(Seq<char>),
    SetBrightness(u8),
    SetColor(u8, u8, u8),
    Say(Seq<char>),
}

impl View for ApplyStep {
    type V = ApplyStepView;

    open spec fn view(&self) -> ApplyStepView {
        match self {
            ApplyStep::FindGroup(g) => ApplyStepView::FindGroup(g@),
            ApplyStep::SetBrightness(l) => ApplyStepView::SetBrightness(*l),
            ApplyStep::SetColor(r, g, b) => ApplyStepView::SetColor(*r, *g, *b),
            ApplyStep::Say(m) => ApplyStepView::Say(m@),
        }
    }
}

/// The views of a list of steps.
pub open spec fn step_views(steps: Seq<ApplyStep>) -> Seq<ApplyStepView> {
    steps.map_values(|s: ApplyStep| s@)
}

/// The steps of one action: find its group, set the brightness if it has one,
/// then the colour if it has one, then report it.
pub open spec fn action_steps(a: PresetActionView) -> Seq<ApplyStepView> {
    seq![ApplyStepView::FindGroup(a.group)] + match a.dim {
        Some(l) => seq![ApplyStepView::SetBrightness(l)],
        None => Seq::empty(),
    } + match a.rgb {
        Some(c) => seq![ApplyStepView::SetColor(c[0], c[1], c[2])],
        None => Seq::empty(),
    } + seq![ApplyStepView::Say("Applied to '"@ + a.group + "'."@)]
}

/// The steps of the actions, one action after another in order.
pub open spec fn actions_steps(actions: Seq<PresetActionView>) -> Seq<ApplyStepView>
    decreases actions.len(),
{
    if actions.len() == 0 {
        Seq::empty()
    } else {
        actions_steps(actions.drop_last()) + action_steps(actions.last())
    }
}

fn push_action_steps(steps: &mut Vec<ApplyStep>, a: &PresetAction)
    ensures
        step_views(final(steps)@) == step_views(old(steps)@) + action_steps(a@),
{
    let ghost start = step_views(steps@);
    steps.push(ApplyStep::FindGroup(a.group.clone()));
    let ghost after_find = step_views(steps@);
    assert(after_find =~= start + seq![ApplyStepView::FindGroup(a.group@)]);
    if let Some(l) = a.dim {
        steps.push(ApplyStep::SetBrightness(l));
    }
    let ghost after_dim = step_views(steps@);
    assert(after_dim =~= after_find + match a.dim {
        Some(l) => seq![ApplyStepView::SetBrightness(l)],
        None => Seq::<ApplyStepView>::empty(),
    });
    if let Some(c) = a.rgb {
        steps.push(ApplyStep::SetColor(c[0], c[1], c[2]));
    }
    let ghost after_rgb = step_views(steps@);
    assert(after_rgb =~= after_dim + match a.rgb {
        Some(c) => seq![ApplyStepView::SetColor(c[0], c[1], c[2])],
        None => Seq::<ApplyStepView>::empty(),
    });
    let mut line = String::new();
    line.append("Applied to '");
    line.append(a.group.as_str());
    line.append("'.");
    steps.push(ApplyStep::Say(line));
    assert(step_views(steps@) =~= start + action_steps(a@));
}

/// `preset apply`: the steps that apply `preset`, named `name`, action by
/// action in order, then the closing report.
pub fn apply_plan(preset: &Preset, name: &str) -> (r: Vec<ApplyStep>)
    ensures
        step_views(r@) == actions_steps(preset@) + seq![ApplyStepView::Say("Preset '"@ + name@
            + "' applied."@)],
{
    let mut steps: Vec<ApplyStep> = Vec::new();
    let mut i: usize = 0;
    assert(step_views(steps@) =~= actions_steps(preset@.take(0)));
    while i < preset.actions.len()
        invariant
            i <= preset.actions.len(),
            step_views(steps@) == actions_steps(preset@.take(i as int)),
        decreases preset.actions.len() - i,
    {
        push_action_steps(&mut steps, &preset.actions[i]);
        proof {
            let t = preset@.take(i + 1);
            assert(t.drop_last() =~= preset@.take(i as int));
            assert(t.last() == preset.actions@[i as int]@);
        }
        i = i + 1;
    }
    assert(preset@.take(preset.actions.len() as int) =~= preset@);
    let mut last = String::new();
    last.append("Preset '");
    last.append(name);
    last.append("' applied.");
    let ghost before = step_views(steps@);
    steps.push(ApplyStep::Say(last));
    assert(step_views(steps@) =~= before + seq![ApplyStepView::Say("Preset '"@ + name@ + "' applied."@)]);
    steps
}

/// A run of `preset apply`: its steps, how many have been carried out, and
/// whether one has failed.
#[derive(Debug)]
pub struct ApplyRun {
    steps: Vec<ApplyStep>,
    done: usize,
    stopped: bool,
}

impl ApplyRun {
    /// The steps of the run, in order.
    pub closed spec fn steps(&self) -> Seq<ApplyStepView> {
        step_views(self.steps@)
    }

    /// How many steps have succeeded.
    pub closed spec fn done(&self) -> nat {
        self.done as nat
    }

    /// Whether a step has failed, which ends the run.
    pub closed spec fn stopped(&self) -> bool {
        self.stopped
    }

    /// The run that applies `preset`, named `name`, from its first step.
    pub fn start(preset: &Preset, name: &str) -> (r: ApplyRun)
        ensures
            r.steps() == actions_steps(preset@) + seq![ApplyStepView::Say("Preset '"@ + name@
                + "' applied."@)],
            r.done() == 0,
            !r.stopped(),
    {
        ApplyRun { steps: apply_plan(preset, name), done: 0, stopped: false }
    }

    /// The step to carry out next: the first one not yet done, or none once
    /// all are done or one has failed.
    pub fn next_step(&self) -> (r: Option<&ApplyStep>)
        ensures
            r is Some <==> !self.stopped() && self.done() < self.steps().len(),
            r matches Some(step) ==> step@ == self.steps()[self.done() as int],
    {
        if self.stopped || self.done >= self.steps.len() {
            None
        } else {
            Some(&self.steps[self.done])
        }
    }

    /// Records how the step that `next_step` gave went: a success moves on to
    /// the following step, a failure ends the run. Once the run has ended,
    /// nothing changes.
    pub fn record(&mut self, succeeded: bool)
        ensures
            final(self).steps() == old(self).steps(),
            !old(self).stopped() && old(self).done() < old(self).steps().len() && succeeded ==> (
                final(self).done() == old(self).done() + 1 && !final(self).stopped()),
            !old(self).stopped() && old(self).done() < old(self).steps().len() && !succeeded ==> (
                final(self).done() == old(self).done() && final(self).stopped()),
            old(self).stopped() || old(self).done() >= old(self).steps().len() ==> (final(self).done()
                == old(self).done() && final(self).stopped() == old(self).stopped()),
    {
        if self.stopped || self.done >= self.steps.len() {
            return;
        }
        if succeeded {
            self.done = self.done + 1;
        } else {
            self.stopped = true;
        }
    }
}

} // verus!
