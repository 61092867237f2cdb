//! Concrete instances of the library's laws: what a flush leaves for the next read, how layers
//! merge, how keys are found, and how staged writes replace each other.

use ftrio::cli::json::parse_json;
use ftrio::config::{deep_merge, AppSettings, ConfigNumber, ConfigValue};
use ftrio::runtime::{apply_staged, flush_tick, flush_tick_nanos, FlushStep, StagedToggles};

fn from_config(value: &ConfigValue) -> serde_json::Value {
    match value {
        ConfigValue::Null => serde_json::Value::Null,
        ConfigValue::Bool(b) => serde_json::Value::Bool(*b),
        ConfigValue::Number(n) => serde_json::from_str(&n.text).expect("number text"),
        ConfigValue::Str(s) => serde_json::Value::String(s.clone()),
        ConfigValue::Array(items) => serde_json::Value::Array(items.iter().map(from_config).collect()),
        ConfigValue::Object(entries) => serde_json::Value::Object(
            entries.iter().map(|(k, v)| (k.clone(), from_config(v))).collect(),
        ),
    }
}

fn json(text: &str) -> ConfigValue {
    parse_json(text).expect("valid JSON")
}

#[test]
fn flush_is_last_write_wins_and_preserves_other_sections() {
    let root = json(r#"{ "FtrIO": { "Environment": "Prod" }, "Toggles": { "existing": true } }"#);
    let mut staged = StagedToggles::new();
    staged.stage("new_flag", true);
    staged.stage("new_flag", false);
    let written = from_config(&apply_staged(root, &staged.drain()));
    assert_eq!(written["Toggles"]["new_flag"], serde_json::Value::Bool(false));
    assert_eq!(written["Toggles"]["existing"], serde_json::Value::Bool(true));
    assert_eq!(written["FtrIO"]["Environment"], serde_json::Value::String("Prod".to_string()));
    assert!(staged.is_empty());
}

#[test]
fn final_flush_on_drop_creates_toggles_section() {
    let root = json(r#"{ "FtrIO": { "Environment": "Dev" } }"#);
    let mut staged = StagedToggles::new();
    staged.stage("drop_flag", true);
    let written = from_config(&apply_staged(root, &staged.drain()));
    assert_eq!(written["Toggles"]["drop_flag"], serde_json::Value::Bool(true));
    assert_eq!(written["FtrIO"]["Environment"], serde_json::Value::String("Dev".to_string()));
}

#[test]
fn a_read_after_a_flush_gives_back_the_staged_values() {
    let mut staged = StagedToggles::new();
    staged.stage("a", true);
    staged.stage("b", false);
    staged.stage("a", false);
    let written = apply_staged(json(r#"{ "Toggles": { "c": "50%" } }"#), &staged.drain());
    let settings = AppSettings::from_value(written);
    assert_eq!(settings.get_toggle_value("a"), Some("false".to_string()));
    assert_eq!(settings.get_toggle_value("b"), Some("false".to_string()));
    assert_eq!(settings.get_toggle_value("c"), Some("50%".to_string()));
}

#[test]
fn a_flush_over_a_non_object_root_starts_a_fresh_object() {
    let mut staged = StagedToggles::new();
    staged.stage("x", true);
    let written = from_config(&apply_staged(json("[1, 2]"), &staged.drain()));
    let expected: serde_json::Value = serde_json::from_str(r#"{ "Toggles": { "x": true } }"#).unwrap();
    assert_eq!(written, expected);
    let mut replaced = StagedToggles::new();
    replaced.stage("y", false);
    let written = from_config(&apply_staged(json(r#"{ "Toggles": "oops", "k": 1 }"#), &replaced.drain()));
    let expected: serde_json::Value = serde_json::from_str(r#"{ "Toggles": { "y": false }, "k": 1 }"#).unwrap();
    assert_eq!(written, expected);
}

#[test]
fn merging_keeps_base_keys_and_lets_the_overlay_win() {
    let merged = from_config(&deep_merge(
        json(r#"{ "A": { "x": 1, "y": 2 }, "B": true, "C": [1] }"#),
        json(r#"{ "A": { "y": 3, "z": 4 }, "B": { "nested": 1 }, "D": null }"#),
    ));
    let expected: serde_json::Value = serde_json::from_str(
        r#"{ "A": { "x": 1, "y": 3, "z": 4 }, "B": { "nested": 1 }, "C": [1], "D": null }"#,
    )
    .unwrap();
    assert_eq!(merged, expected);
}

#[test]
fn exact_keys_win_over_case_insensitive_ones() {
    let settings = AppSettings::from_value(json(r#"{ "Toggles": { "flag": "false", "FLAG": "true" } }"#));
    assert_eq!(settings.get_toggle_value("FLAG"), Some("true".to_string()));
    assert_eq!(settings.get_toggle_value("flag"), Some("false".to_string()));
    assert_eq!(settings.get_toggle_value("Flag"), Some("true".to_string()));
}

#[test]
fn colon_paths_walk_nested_sections() {
    let settings = AppSettings::from_value(json(r#"{ "FtrIO": { "BlueGreen": { "CurrentSlot": "blue" }, "ReloadOnChange": "TRUE" } }"#));
    assert_eq!(settings.get_string("ftrio:bluegreen:currentslot"), Some("blue".to_string()));
    assert_eq!(settings.get_bool("FtrIO:ReloadOnChange"), Some(true));
    assert_eq!(settings.get_string("FtrIO:Missing"), None);
}

#[test]
fn the_flush_worker_ticks_at_most_every_25_ms() {
    assert_eq!(flush_tick_nanos(10_000_000), 10_000_000);
    assert_eq!(flush_tick_nanos(25_000_000), 25_000_000);
    assert_eq!(flush_tick_nanos(5_000_000_000), 25_000_000);
}

#[test]
fn the_flush_worker_flushes_once_per_interval_and_stops_when_asked() {
    let interval: u128 = 100_000_000;
    let tick = flush_tick_nanos(interval);
    let mut elapsed: u128 = 0;
    let mut flushes = 0;
    for _ in 0..8 {
        let (step, next) = flush_tick(elapsed, tick, interval, false);
        if step == FlushStep::Flush {
            flushes += 1;
        }
        elapsed = next;
    }
    assert_eq!(flushes, 2);
    assert_eq!(elapsed, 0);
    assert_eq!(flush_tick(50, tick, interval, true), (FlushStep::Stop, 50));
    assert_eq!(flush_tick(0, 0, 0, false), (FlushStep::Flush, 0));
}
