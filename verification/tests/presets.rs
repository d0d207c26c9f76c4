use hue::commands::{apply_plan, make_client, ApplyRun, ApplyStep};
use hue::config::Config;
use hue::error::HueError;
use hue::rgb::Rgb;
use hue::presets::{Preset, PresetAction, Presets};

#[test]
fn save_then_show_and_list() {
    let mut config = Config::default();
    let msg = config
        .save_preset("partymode", "living room", Some(60), Some(Rgb(255, 0, 128)), false)
        .unwrap();
    assert_eq!(msg, "Saved preset 'partymode'.");
    let lines = config.preset_show_lines("partymode").unwrap();
    assert_eq!(
        lines,
        vec![
            "Preset: partymode".to_string(),
            "  group: living room  dim: 60%  rgb: (255, 0, 128)".to_string(),
        ]
    );
    assert_eq!(config.preset_list_lines(), vec!["partymode  (living room)".to_string()]);
}

#[test]
fn client_needs_init() {
    let config = Config::default();
    assert_eq!(make_client(&config).unwrap_err(), HueError::BridgeNotConfigured);
}

#[test]
fn save_needs_dim_or_rgb() {
    let mut config = Config::default();
    assert_eq!(
        config.save_preset("p", "g", None, None, false).unwrap_err(),
        HueError::MissingPresetSettings
    );
    assert_eq!(config.preset_list_lines(), vec!["No presets saved.".to_string()]);
}

#[test]
fn add_extends_existing_preset_only() {
    let mut config = Config::default();
    assert_eq!(
        config.save_preset("partymode", "kitchen", Some(40), None, true).unwrap_err(),
        HueError::PresetNotFoundForAdd("partymode".to_string())
    );
    config.save_preset("partymode", "living room", Some(60), Some(Rgb(255, 0, 128)), false).unwrap();
    let msg = config
        .save_preset("partymode", "kitchen", Some(40), Some(Rgb(200, 0, 100)), true)
        .unwrap();
    assert_eq!(msg, "Added group 'kitchen' to preset 'partymode'.");
    let p = config.preset("partymode").unwrap();
    assert_eq!(p.actions.len(), 2);
    assert_eq!(p.actions[1].group, "kitchen");
    assert_eq!(p.actions[1].dim, Some(40));
    assert_eq!(p.actions[1].rgb, Some([200, 0, 100]));
    assert_eq!(
        config.preset_list_lines(),
        vec!["partymode  (living room, kitchen)".to_string()]
    );
}

#[test]
fn save_replaces_and_list_is_sorted() {
    let mut config = Config::default();
    config.save_preset("zeta", "a", Some(1), None, false).unwrap();
    config.save_preset("alpha", "b", None, Some(Rgb(1, 2, 3)), false).unwrap();
    config.save_preset("mid", "c", Some(0), None, false).unwrap();
    config.save_preset("zeta", "d", Some(5), None, false).unwrap();
    assert_eq!(
        config.preset_list_lines(),
        vec!["alpha  (b)".to_string(), "mid  (c)".to_string(), "zeta  (d)".to_string()]
    );
    assert_eq!(
        config.preset_show_lines("mid").unwrap(),
        vec!["Preset: mid".to_string(), "  group: c  dim: 0%".to_string()]
    );
    assert_eq!(
        config.preset_show_lines("alpha").unwrap()[1],
        "  group: b  rgb: (1, 2, 3)"
    );
}

#[test]
fn delete_removes_only_that_preset() {
    let mut config = Config::default();
    config.save_preset("a", "x", Some(1), None, false).unwrap();
    config.save_preset("b", "y", Some(2), None, false).unwrap();
    assert_eq!(config.delete_preset("a"), Ok("Deleted preset 'a'.".to_string()));
    assert_eq!(config.preset("a").unwrap_err(), HueError::PresetNotFound("a".to_string()));
    assert_eq!(config.preset("b").unwrap().actions[0].group, "y");
    assert_eq!(config.delete_preset("a"), Err(HueError::PresetNotFound("a".to_string())));
    assert_eq!(
        config.preset_show_lines("a").unwrap_err().message(),
        "Preset 'a' not found"
    );
}

#[test]
fn credentials_make_a_client() {
    let mut config = Config::default();
    assert_eq!(config.require_bridge_ip().unwrap_err(), HueError::BridgeNotConfigured);
    assert_eq!(config.require_username().unwrap_err(), HueError::NotAuthenticated);
    config.bridge_ip = Some("10.0.0.2".to_string());
    assert_eq!(make_client(&config).unwrap_err(), HueError::NotAuthenticated);
    config.set_credentials("10.0.0.3".to_string(), "user".to_string());
    assert_eq!(config.require_bridge_ip().unwrap(), "10.0.0.3");
    assert_eq!(config.require_username().unwrap(), "user");
    assert_eq!(make_client(&config).unwrap().base(), "https://10.0.0.3/api/user");
}

#[test]
fn presets_table_keeps_names_in_order() {
    let mut t = Presets::new();
    assert!(t.is_empty());
    for n in ["c", "a", "b", "a"] {
        t.insert(
            n.to_string(),
            Preset { actions: vec![PresetAction { group: n.to_string(), dim: Some(1), rgb: None }] },
        );
    }
    let names: Vec<&str> = t.entries().iter().map(|e| e.0.as_str()).collect();
    assert_eq!(names, vec!["a", "b", "c"]);
    assert!(t.push_action("b", PresetAction { group: "g".to_string(), dim: None, rgb: Some([1, 2, 3]) }));
    assert!(!t.push_action("q", PresetAction { group: "g".to_string(), dim: None, rgb: None }));
    assert_eq!(t.get("b").unwrap().actions.len(), 2);
    assert!(t.remove("b"));
    assert!(!t.remove("b"));
    assert!(t.get("b").is_none());
}

#[test]
fn apply_plan_goes_action_by_action() {
    let mut config = Config::default();
    config.save_preset("partymode", "living room", Some(60), Some(Rgb(255, 0, 128)), false).unwrap();
    config.save_preset("partymode", "kitchen", None, Some(Rgb(200, 0, 100)), true).unwrap();
    config.save_preset("partymode", "hall", Some(0), None, true).unwrap();
    let plan = apply_plan(config.preset("partymode").unwrap(), "partymode");
    assert_eq!(
        plan,
        vec![
            ApplyStep::FindGroup("living room".to_string()),
            ApplyStep::SetBrightness(60),
            ApplyStep::SetColor(255, 0, 128),
            ApplyStep::Say("Applied to 'living room'.".to_string()),
            ApplyStep::FindGroup("kitchen".to_string()),
            ApplyStep::SetColor(200, 0, 100),
            ApplyStep::Say("Applied to 'kitchen'.".to_string()),
            ApplyStep::FindGroup("hall".to_string()),
            ApplyStep::SetBrightness(0),
            ApplyStep::Say("Applied to 'hall'.".to_string()),
            ApplyStep::Say("Preset 'partymode' applied.".to_string()),
        ]
    );
}

#[test]
fn apply_run_stops_at_first_failure() {
    let mut config = Config::default();
    config.save_preset("p", "a", Some(10), None, false).unwrap();
    config.save_preset("p", "b", Some(20), None, true).unwrap();
    let mut run = ApplyRun::start(config.preset("p").unwrap(), "p");
    assert_eq!(run.next_step(), Some(&ApplyStep::FindGroup("a".to_string())));
    run.record(true);
    assert_eq!(run.next_step(), Some(&ApplyStep::SetBrightness(10)));
    run.record(false);
    assert_eq!(run.next_step(), None);
    run.record(true);
    assert_eq!(run.next_step(), None);
}

#[test]
fn apply_run_goes_through_every_step() {
    let mut config = Config::default();
    config.save_preset("p", "a", None, Some(Rgb(1, 2, 3)), false).unwrap();
    let preset = config.preset("p").unwrap();
    let mut run = ApplyRun::start(preset, "p");
    let mut seen = Vec::new();
    while let Some(step) = run.next_step().cloned() {
        seen.push(step);
        run.record(true);
    }
    assert_eq!(seen, apply_plan(preset, "p"));
    assert_eq!(seen.len(), 4);
}
