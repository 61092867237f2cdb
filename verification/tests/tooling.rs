//! The command-line tooling's logic: configuration tables, state classification, tables, the
//! report, the release check, the lint, source scanning, manifests, timestamps and conformance
//! cases.

use ftrio::cli::json::{parse_json, parse_json_text};
use ftrio::cli::appconfig::{classify_state, from_value, load_environment, load_single, toggles_section};
use ftrio::cli::conformance::{outcome_value, resolve_case};
use ftrio::cli::export::manifest_value;
use ftrio::cli::lint::{is_skipped_lint_dir, known_keys, lint_usages};
use ftrio::cli::release::{
    classify_manifest, console_report, manifest_keys, markdown_report, release_verdict,
    suggestion_block,
    failure_exit_code, ReleaseFailure, config_origin, ConfigOrigin,
};
use ftrio::cli::options::ReleaseOptions;
use ftrio::cli::report::{
    display_or_dash, increment, render_environment, report_markdown, summary_line, unconfigured,
};
use ftrio::cli::scan::{
    collect_usages, explicit_key, is_skipped_scan_dir, resolve_toggle_key, AttributeSyntax,
    SourceItem, ToggleArgs, ToggleUsage,
};
use ftrio::cli::table::render_table;
use ftrio::cli::util::{utc_iso8601, utc_iso8601_at};
use ftrio::config::{ConfigNumber, ConfigValue};

fn from_config(value: &ConfigValue) -> serde_json::Value {
    match value {
        ConfigValue::Null => serde_json::Value::Null,
        ConfigValue::Bool(b) => serde_json::Value::Bool(*b),
        ConfigValue::Number(n) => serde_json::from_str(&n.text).expect("number text"),
        ConfigValue::Str(s) => serde_json::Value::String(s.clone()),
        ConfigValue::Array(items) => serde_json::Value::Array(items.iter().map(from_config).collect()),
        ConfigValue::Object(entries) => serde_json::Value::Object(
            entries.iter().map(|(k, v)| (k.clone(), from_config(v))).collect(),
        ),
    }
}

fn json(text: &str) -> ConfigValue {
    parse_json(text).expect("valid JSON")
}

fn strings(items: &[&str]) -> Vec<String> {
    items.iter().map(|s| s.to_string()).collect()
}

fn usage(key: &str, method: &str, source: &str, file: &str, line: usize) -> ToggleUsage {
    ToggleUsage {
        key: key.to_string(),
        method: method.to_string(),
        source: source.to_string(),
        file: file.to_string(),
        line,
    }
}

const APP_CONFIG: &str = r#"{
  "FtrIO": { "BlueGreen": { "CurrentSlot": "blue", "KnownSlots": "blue, green" } },
  "Toggles": { "a": true, "b": "50%", "c": 3, "d": null, "e": "green" },
  "TogglesOverrides": { "a": { "alice": true, "bob": false }, "b": 5 }
}"#;

// --- configuration tables ---

#[test]
fn toggles_section_keeps_displayable_values() {
    let toggles = toggles_section(&json(APP_CONFIG));
    assert_eq!(
        toggles,
        vec![
            ("a".to_string(), "true".to_string()),
            ("b".to_string(), "50%".to_string()),
            ("c".to_string(), "3".to_string()),
            ("e".to_string(), "green".to_string()),
        ]
    );
}

#[test]
fn from_value_reads_slots_and_overrides() {
    let config = from_value("appsettings.json".to_string(), &json(APP_CONFIG));
    assert_eq!(config.name, "appsettings.json");
    assert_eq!(config.current_slot, Some("blue".to_string()));
    assert_eq!(config.known_slots, strings(&["blue", "green"]));
    assert_eq!(config.overrides, vec![("a".to_string(), strings(&["alice", "bob"]))]);
    assert_eq!(config.raw_value("b"), Some("50%"));
    assert_eq!(config.raw_value("zzz"), None);
    assert_eq!(config.override_users("a"), &["alice".to_string(), "bob".to_string()][..]);
    assert!(config.override_users("b").is_empty());
}

#[test]
fn from_value_defaults_to_blue_and_green_slots() {
    let config = from_value("x".to_string(), &json(r#"{ "Toggles": {} }"#));
    assert_eq!(config.known_slots, strings(&["blue", "green"]));
    assert_eq!(config.current_slot, None);
}

#[test]
fn load_single_names_the_file() {
    let value = json(APP_CONFIG);
    let named = load_single(Some("appsettings.Prod.json"), Some(&value)).expect("loaded");
    assert_eq!(named.name, "appsettings.Prod.json");
    let unnamed = load_single(None, Some(&value)).expect("loaded");
    assert_eq!(unnamed.name, "appsettings.json");
    assert!(load_single(Some("x.json"), None).is_none());
}

#[test]
fn load_environment_merges_the_overlay() {
    let config = load_environment(
        "Prod",
        Some(json(r#"{ "Toggles": { "a": true, "b": true } }"#)),
        Some(json(r#"{ "Toggles": { "a": false } }"#)),
    );
    assert_eq!(config.name, "appsettings (Prod)");
    assert_eq!(config.raw_value("a"), Some("false"));
    assert_eq!(config.raw_value("b"), Some("true"));
    let bare = load_environment("Dev", None, None);
    assert!(bare.toggles.is_empty());
}

// --- states ---

#[test]
fn classify_state_covers_every_label() {
    let known = strings(&["blue", "green"]);
    assert_eq!(classify_state(None, None, &known), "MISSING");
    assert_eq!(classify_state(Some(" TRUE "), None, &known), "ON");
    assert_eq!(classify_state(Some("1"), None, &known), "ON");
    assert_eq!(classify_state(Some("False"), None, &known), "OFF");
    assert_eq!(classify_state(Some("0"), None, &known), "OFF");
    assert_eq!(classify_state(Some("25%"), None, &known), "PERCENTAGE");
    assert_eq!(classify_state(Some("AB:50"), None, &known), "AB-TEST");
    assert_eq!(classify_state(Some("users:alice"), None, &known), "TARGETED");
    assert_eq!(classify_state(Some("attribute:plan equals x"), None, &known), "RULE-BASED");
    assert_eq!(classify_state(Some("Blue"), Some("blue"), &known), "ON");
    assert_eq!(classify_state(Some("green"), Some("blue"), &known), "OFF");
    assert_eq!(classify_state(Some("green"), None, &known), "BLUE/GREEN");
    assert_eq!(classify_state(Some("purple"), None, &known), "UNKNOWN");
}

// --- tables ---

#[test]
fn render_table_pads_columns_to_the_widest_cell() {
    let rows = vec![strings(&["alpha", "1"]), strings(&["b", "12345"])];
    let table = render_table(&["Key", "Value"], &rows);
    assert_eq!(table, "Key   | Value\n------+------\nalpha | 1    \nb     | 12345");
}

#[test]
fn render_table_prints_extra_cells_unpadded() {
    let rows = vec![strings(&["x", "extra"])];
    assert_eq!(render_table(&["K"], &rows), "K\n-\nx | extra");
}

#[test]
fn render_table_measures_width_in_bytes() {
    // "é" is two bytes wide but one character, so the header pads one space more than the cell.
    let rows = vec![strings(&["é"])];
    assert_eq!(render_table(&["K"], &rows), "K \n--\né ");
}

// --- report ---

#[test]
fn display_or_dash_marks_empty_text() {
    assert_eq!(display_or_dash(""), "-");
    assert_eq!(display_or_dash("run"), "run");
}

#[test]
fn increment_counts_states_in_first_seen_order() {
    let mut counts: Vec<(String, usize)> = Vec::new();
    increment(&mut counts, "OFF");
    increment(&mut counts, "ON");
    increment(&mut counts, "OFF");
    assert_eq!(counts, vec![("OFF".to_string(), 2), ("ON".to_string(), 1)]);
}

#[test]
fn summary_line_lists_states_in_fixed_order() {
    let counts = vec![
        ("UNKNOWN".to_string(), 1),
        ("OFF".to_string(), 2),
        ("ON".to_string(), 3),
    ];
    assert_eq!(summary_line(6, &counts), "6 toggle(s). 3 ON, 2 OFF, 1 UNKNOWN");
    assert_eq!(summary_line(0, &[]), "0 toggle(s). ");
}

#[test]
fn render_environment_tables_usages_and_counts_states() {
    let config = from_value("appsettings.json".to_string(), &json(APP_CONFIG));
    let usages = vec![
        usage("a", "run", "#[toggle]", "src/lib.rs", 3),
        usage("zzz", "", "ManualCall", "src/main.rs", 10),
    ];
    let (console, markdown) = render_environment(&config, &usages, true);
    let table = "Toggle Key | Method | Source     | State   | File        | Line | Overrides\n\
                 -----------+--------+------------+---------+-------------+------+----------\n\
                 a          | run    | #[toggle]  | ON      | src/lib.rs  | 3    | alice,bob\n\
                 zzz        | -      | ManualCall | MISSING | src/main.rs | 10   | -        ";
    let summary = "2 toggle(s). 1 ON, 1 MISSING";
    assert_eq!(console, format!("=== appsettings.json ===\n{table}\n{summary}\n\n"));
    assert_eq!(markdown, format!("## appsettings.json\n\n{table}\n\n{summary}\n"));
}

#[test]
fn unconfigured_report_uses_the_default_slots() {
    let config = unconfigured();
    assert_eq!(config.name, "(no config)");
    assert_eq!(config.known_slots, strings(&["blue", "green"]));
    assert!(config.toggles.is_empty());
}

#[test]
fn report_markdown_joins_sections() {
    assert_eq!(report_markdown(&strings(&["one", "two"])), "one\ntwo");
}

// --- release check ---

#[test]
fn manifest_keys_reads_the_toggles_array() {
    let manifest = json(r#"{ "toggles": [ { "key": "a" }, { "nokey": 1 }, { "key": "B" }, { "key": 5 } ] }"#);
    assert_eq!(manifest_keys(&manifest), Some(strings(&["a", "B"])));
    assert_eq!(manifest_keys(&json(r#"{ "toggles": {} }"#)), None);
    assert_eq!(manifest_keys(&json(r#"{}"#)), None);
}

#[test]
fn classify_manifest_compares_keys_ignoring_case() {
    let toggles = vec![("NewCheckout".to_string(), "true".to_string()), ("x".to_string(), "0".to_string())];
    let (present, missing) = classify_manifest(&strings(&["newcheckout", "gone", "X"]), &toggles);
    assert_eq!(
        present,
        vec![("newcheckout".to_string(), "true".to_string()), ("X".to_string(), "0".to_string())]
    );
    assert_eq!(missing, strings(&["gone"]));
}

#[test]
fn suggestion_block_lists_missing_keys_as_false() {
    assert_eq!(
        suggestion_block(&strings(&["a", "b"])),
        "{\n  \"Toggles\": {\n    \"a\": false,\n    \"b\": false\n  }\n}"
    );
}

#[test]
fn release_reports_render_present_and_missing_keys() {
    let present = vec![("a".to_string(), "true".to_string())];
    let missing = strings(&["b"]);
    assert_eq!(
        markdown_report(&present, &missing),
        "# Release check\n\n| Toggle Key | Status | Value |\n|---|---|---|\n| a | present | true |\n| b | MISSING | - |\n"
    );
    assert_eq!(
        console_report(&present, &missing),
        "Release check\n\n  [present] a = true\n  [MISSING] b\n\nAdd the following to the Toggles section of appsettings.json:\n{\n  \"Toggles\": {\n    \"b\": false\n  }\n}\n"
    );
    assert_eq!(console_report(&present, &[]), "Release check\n\n  [present] a = true\n");
}

#[test]
fn release_verdict_exit_codes() {
    let ready = release_verdict(3, 0, false);
    assert_eq!(ready.exit_code, 0);
    assert_eq!(ready.message, "\nRelease ready: all 3 toggle(s) present.\n");
    let warned = release_verdict(3, 2, true);
    assert_eq!(warned.exit_code, 0);
    assert_eq!(warned.message, "\n2 toggle(s) missing (warn-only, not blocking).\n");
    let blocked = release_verdict(3, 1, false);
    assert_eq!(blocked.exit_code, 1);
    assert_eq!(blocked.message, "\nRelease blocked: 1 toggle(s) missing.\n");
}

// --- lint ---

#[test]
fn lint_reports_attribute_keys_missing_from_config() {
    let config = from_value("appsettings.json".to_string(), &json(r#"{ "Toggles": { "Known": true } }"#));
    let keys = known_keys(Some(&config));
    assert_eq!(keys, strings(&["known"]));
    let usages = vec![
        usage("known", "f", "#[toggle]", "src/a.rs", 1),
        usage("unknown", "g", "#[toggle_async]", "src/b.rs", 7),
        usage("manual", "", "ManualCall", "src/c.rs", 2),
    ];
    let outcome = lint_usages(&usages, &keys, false);
    assert_eq!(outcome.exit_code, 1);
    assert_eq!(
        outcome.stdout,
        "FTRIO001: Function 'g' is decorated with #[toggle_async] but has no entry in the Toggles section of appsettings.json\n  at src/b.rs:7\n"
    );
    assert_eq!(outcome.stderr, "\n1 FTRIO001 finding(s).\n");
}

#[test]
fn lint_verbose_confirms_configured_keys() {
    let keys = strings(&["known"]);
    let usages = vec![usage("Known", "f", "#[toggle]", "src/a.rs", 1)];
    let outcome = lint_usages(&usages, &keys, true);
    assert_eq!(outcome.exit_code, 0);
    assert_eq!(outcome.stdout, "ok: 'f' -> Toggles:Known\nNo FTRIO001 findings.\n");
    assert_eq!(outcome.stderr, "");
    assert!(known_keys(None).is_empty());
}

#[test]
fn skipped_directories() {
    assert!(is_skipped_lint_dir("target"));
    assert!(!is_skipped_lint_dir("dist"));
    assert!(is_skipped_scan_dir("dist"));
    assert!(is_skipped_scan_dir(".vscode"));
    assert!(!is_skipped_scan_dir("src"));
}

// --- scanning ---

fn attribute(path: Option<&str>, args: ToggleArgs) -> AttributeSyntax {
    AttributeSyntax { path: path.map(str::to_string), args }
}

#[test]
fn collect_usages_reads_attributes_and_calls() {
    let items = vec![
        SourceItem::Function {
            name: "send_email".to_string(),
            line: 4,
            attributes: vec![
                attribute(Some("inline"), ToggleArgs::Empty),
                attribute(Some("toggle"), ToggleArgs::Empty),
            ],
        },
        SourceItem::Function {
            name: "renamed".to_string(),
            line: 9,
            attributes: vec![attribute(
                Some("toggle_async"),
                ToggleArgs::NameValue { path: Some("key".to_string()), literal: Some("Explicit".to_string()) },
            )],
        },
        SourceItem::Call {
            function: Some("execute_if_toggle_on".to_string()),
            string_args: vec![("manual_key".to_string(), 12), ("second".to_string(), 12)],
        },
        SourceItem::Call { function: Some("try_execute_if_toggle_on_async".to_string()), string_args: vec![] },
        SourceItem::Call { function: Some("println".to_string()), string_args: vec![("x".to_string(), 1)] },
    ];
    let usages = collect_usages("src/lib.rs", &items);
    let got: Vec<(String, String, String, String, usize)> = usages
        .into_iter()
        .map(|u| (u.key, u.method, u.source, u.file, u.line))
        .collect();
    assert_eq!(
        got,
        vec![
            ("send_email".into(), "send_email".into(), "#[toggle]".into(), "src/lib.rs".into(), 4),
            ("Explicit".into(), "renamed".into(), "#[toggle_async]".into(), "src/lib.rs".into(), 9),
            ("manual_key".into(), "".into(), "ManualCall".into(), "src/lib.rs".into(), 12),
        ]
    );
}

#[test]
fn explicit_key_needs_key_and_a_string() {
    let good = ToggleArgs::NameValue { path: Some("key".to_string()), literal: Some("K".to_string()) };
    assert_eq!(explicit_key(&good), Some("K".to_string()));
    let other = ToggleArgs::NameValue { path: Some("name".to_string()), literal: Some("K".to_string()) };
    assert_eq!(explicit_key(&other), None);
    assert_eq!(explicit_key(&ToggleArgs::Empty), None);
}

#[test]
fn attribute_key_resolution_and_errors() {
    assert_eq!(resolve_toggle_key(&ToggleArgs::Empty, "send_email"), Ok("send_email".to_string()));
    let explicit = ToggleArgs::NameValue { path: Some("key".to_string()), literal: Some("SendWelcomeEmail".to_string()) };
    assert_eq!(resolve_toggle_key(&explicit, "f"), Ok("SendWelcomeEmail".to_string()));
    let wrong_path = ToggleArgs::NameValue { path: Some("name".to_string()), literal: Some("x".to_string()) };
    assert_eq!(resolve_toggle_key(&wrong_path, "f"), Err("expected `key = \"...\"`".to_string()));
    let not_string = ToggleArgs::NameValue { path: Some("key".to_string()), literal: None };
    assert_eq!(
        resolve_toggle_key(&not_string, "f"),
        Err("the `key` value must be a string literal".to_string())
    );
    assert_eq!(
        resolve_toggle_key(&ToggleArgs::Malformed("expected `=`".to_string()), "f"),
        Err("expected `=`".to_string())
    );
}

// --- manifests and timestamps ---

#[test]
fn manifest_value_lists_every_usage() {
    let usages = vec![usage("a", "f", "#[toggle]", "src/a.rs", 3)];
    let manifest = from_config(&manifest_value(&usages, "2024-01-02T03:04:05Z".to_string()));
    let expected: serde_json::Value = serde_json::from_str(
        r##"{ "generatedAt": "2024-01-02T03:04:05Z",
             "toggles": [ { "key": "a", "source": "#[toggle]", "file": "src/a.rs", "line": 3 } ] }"##,
    )
    .unwrap();
    assert_eq!(manifest, expected);
}

#[test]
fn timestamps_follow_the_civil_calendar() {
    assert_eq!(utc_iso8601_at(0), "1970-01-01T00:00:00Z");
    assert_eq!(utc_iso8601_at(951_782_400), "2000-02-29T00:00:00Z");
    assert_eq!(utc_iso8601_at(1_700_000_000), "2023-11-14T22:13:20Z");
    assert_eq!(utc_iso8601_at(-1), "1969-12-31T23:59:59Z");
    assert_eq!(utc_iso8601_at(253_402_300_799), "9999-12-31T23:59:59Z");
    assert_eq!(utc_iso8601_at(-62_167_219_201), "-001-12-31T23:59:59Z");
}

#[test]
fn current_timestamp_has_the_iso_shape() {
    let now = utc_iso8601();
    assert_eq!(now.len(), 20);
    assert!(now.ends_with('Z'));
    assert_eq!(&now[10..11], "T");
}

// --- conformance cases ---

#[test]
fn conformance_case_resolves_through_the_full_chain() {
    let case = json(
        r#"{ "toggleKey": "beta", "config": { "Toggles": { "beta": "users:alice" } },
             "context": { "userId": "alice", "attributes": { "plan": "premium" } } }"#,
    );
    assert_eq!(resolve_case(&case), Ok(true));
    let other_user = json(
        r#"{ "toggleKey": "beta", "config": { "Toggles": { "beta": "users:alice" } },
             "context": { "userId": "bob" } }"#,
    );
    assert_eq!(resolve_case(&other_user), Ok(false));
}

#[test]
fn conformance_case_names_errors_and_overrides_win() {
    let missing = json(r#"{ "toggleKey": "nope", "config": { "Toggles": {} } }"#);
    assert_eq!(resolve_case(&missing), Err("DoesNotExist".to_string()));
    let junk = json(r#"{ "toggleKey": "k", "config": { "Toggles": { "k": "ASDF" } } }"#);
    assert_eq!(resolve_case(&junk), Err("ParsedOutOfRange".to_string()));
    let overridden = json(
        r#"{ "toggleKey": "k", "config": { "Toggles": { "k": "false" }, "TogglesOverrides": { "k": { "alice": true } } },
             "context": { "userId": "alice" } }"#,
    );
    assert_eq!(resolve_case(&overridden), Ok(true));
    let attribute = json(
        r#"{ "toggleKey": "k", "config": { "Toggles": { "k": "attribute:plan equals premium" } },
             "context": { "attributes": { "plan": "premium" } } }"#,
    );
    assert_eq!(resolve_case(&attribute), Ok(true));
    let slot = json(
        r#"{ "toggleKey": "k", "config": { "FtrIO": { "BlueGreen": { "CurrentSlot": "green" } }, "Toggles": { "k": "green" } } }"#,
    );
    assert_eq!(resolve_case(&slot), Ok(true));
}

#[test]
fn conformance_case_without_config_is_on_and_without_key_fails() {
    assert_eq!(resolve_case(&json(r#"{ "toggleKey": "anything" }"#)), Ok(true));
    assert_eq!(resolve_case(&json(r#"{ "toggleKey": "anything", "config": null }"#)), Ok(true));
    assert_eq!(resolve_case(&json(r#"{ "config": {} }"#)), Err("toggleKey missing".to_string()));
}

#[test]
fn conformance_outcome_as_json() {
    let decided: serde_json::Value = serde_json::from_str(r#"{"result":true}"#).unwrap();
    assert_eq!(from_config(&outcome_value(&Ok(true))), decided);
    let failed: serde_json::Value = serde_json::from_str(r#"{"error":"DoesNotExist"}"#).unwrap();
    assert_eq!(from_config(&outcome_value(&Err("DoesNotExist".to_string()))), failed);
}

// --- JSON text ---

#[test]
fn json_text_parses_into_configuration_values() {
    let value = parse_json(r#"{ "b": [true, null, "x"], "a": 1.5, "n": -3 }"#).expect("valid JSON");
    let ConfigValue::Object(entries) = value else {
        panic!("an object");
    };
    let keys: Vec<&str> = entries.iter().map(|(key, _)| key.as_str()).collect();
    assert_eq!(keys, vec!["a", "b", "n"]);
    match &entries[0].1 {
        ConfigValue::Number(n) => {
            assert_eq!(n.text, "1.5");
            assert_eq!(n.integer, None);
        }
        other => panic!("a number, not {other:?}"),
    }
    match &entries[1].1 {
        ConfigValue::Array(items) => {
            assert_eq!(items.len(), 3);
            assert!(matches!(items[0], ConfigValue::Bool(true)));
            assert!(matches!(items[1], ConfigValue::Null));
            assert!(matches!(&items[2], ConfigValue::Str(s) if s == "x"));
        }
        other => panic!("an array, not {other:?}"),
    }
    match &entries[2].1 {
        ConfigValue::Number(n) => {
            assert_eq!(n.text, "-3");
            assert_eq!(n.integer, Some(-3));
        }
        other => panic!("a number, not {other:?}"),
    }
}

#[test]
fn json_text_that_is_not_json_is_refused() {
    assert!(parse_json("{ not json").is_none());
    assert!(parse_json("").is_none());
    let message = parse_json_text("[1,").expect_err("not JSON");
    assert!(!message.is_empty());
    assert!(matches!(parse_json_text("\"plain\""), Ok(ConfigValue::Str(s)) if s == "plain"));
}

// --- conformance cases: the case's own context ---

#[test]
fn conformance_case_reads_attributes_from_its_context() {
    let rule = r#""Toggles": { "k": "attribute:plan notEquals premium" }"#;
    let without = json(&format!(r#"{{ "toggleKey": "k", "config": {{ {rule} }} }}"#));
    assert_eq!(resolve_case(&without), Ok(true));
    let premium = json(&format!(
        r#"{{ "toggleKey": "k", "config": {{ {rule} }}, "context": {{ "attributes": {{ "plan": "Premium" }} }} }}"#
    ));
    assert_eq!(resolve_case(&premium), Ok(false));
    let not_a_string = json(&format!(
        r#"{{ "toggleKey": "k", "config": {{ {rule} }}, "context": {{ "attributes": {{ "plan": 3 }} }} }}"#
    ));
    assert_eq!(resolve_case(&not_a_string), Ok(true));
}

#[test]
fn conformance_case_overrides_need_the_case_user() {
    let config = r#""Toggles": { "k": "false" }, "TogglesOverrides": { "k": { "alice": true } }"#;
    let anonymous = json(&format!(r#"{{ "toggleKey": "k", "config": {{ {config} }} }}"#));
    assert_eq!(resolve_case(&anonymous), Ok(false));
    let numeric_user = json(&format!(
        r#"{{ "toggleKey": "k", "config": {{ {config} }}, "context": {{ "userId": 7 }} }}"#
    ));
    assert_eq!(resolve_case(&numeric_user), Ok(false));
    let bob = json(&format!(
        r#"{{ "toggleKey": "k", "config": {{ {config} }}, "context": {{ "userId": "bob" }} }}"#
    ));
    assert_eq!(resolve_case(&bob), Ok(false));
}

#[test]
fn conformance_case_buckets_its_user_for_ab_tests() {
    let case = json(
        r#"{ "toggleKey": "checkout", "config": { "Toggles": { "checkout": "ab:50:s1" } },
             "context": { "userId": "alice" } }"#,
    );
    let expected = ftrio::compute_bucket("alice", "checkout", "s1") < 50;
    for _ in 0..5 {
        assert_eq!(resolve_case(&case), Ok(expected));
    }
    let everyone = json(r#"{ "toggleKey": "k", "config": { "Toggles": { "k": "ab:100" } } }"#);
    assert_eq!(resolve_case(&everyone), Ok(true));
    let nobody = json(
        r#"{ "toggleKey": "k", "config": { "Toggles": { "k": "ab:0" } }, "context": { "userId": "alice" } }"#,
    );
    assert_eq!(resolve_case(&nobody), Ok(false));
}

#[test]
fn release_failures_exit_with_their_codes() {
    assert_eq!(failure_exit_code(&ReleaseFailure::ManifestUnreadable), 2);
    assert_eq!(failure_exit_code(&ReleaseFailure::ManifestWithoutToggles), 2);
    assert_eq!(failure_exit_code(&ReleaseFailure::ConfigUnavailable), 3);
}

#[test]
fn release_configuration_comes_from_the_url_before_the_file() {
    let options = |url: Option<&str>, file: Option<&str>| ReleaseOptions {
        manifest: std::path::PathBuf::from("release-toggles.json"),
        config: file.map(std::path::PathBuf::from),
        config_url: url.map(str::to_string),
        environment_name: None,
        markdown: None,
        warn_only: false,
    };
    assert_eq!(config_origin(&options(Some("http://x"), Some("a.json"))), ConfigOrigin::Url);
    assert_eq!(config_origin(&options(None, Some("a.json"))), ConfigOrigin::File);
    assert_eq!(config_origin(&options(None, None)), ConfigOrigin::Unspecified);
}
