//! Toggle resolution: the builder, settings, overrides, value sources, strategies and A/B
//! bucketing.

use std::collections::HashMap;
use std::sync::Arc;

use ftrio::cli::json::parse_json;
use ftrio::context::KnownContext;
use ftrio::parsing::read_reported_bool;
use ftrio::providers::{pick_first, pick_first_override};
use ftrio::strategies::ab_test::decide_for;
use ftrio::config::{AppSettings, ConfigNumber, ConfigValue};
use ftrio::strategies::{
    AttributeRuleStrategy, BlueGreenStrategy, PercentageRolloutStrategy, ToggleDecisionStrategy,
    ToggleEvaluationContext, UserTargetingStrategy,
};
use ftrio::{
    compute_bucket, AppSettingsToggleParser, CompositeToggleParser,
    EnvironmentVariableToggleParser, FtrIoContextAccessor, StrategyToggleParser, ToggleError,
    ToggleParser, ToggleParserBuilder, ToggleParserProvider, ToggleValueProvider,
};

/// A context accessor with a fixed user and a small attribute set (`plan = premium`).
struct TestContext;

impl FtrIoContextAccessor for TestContext {
    fn get_user_id(&self) -> Option<String> {
        Some("alice".to_string())
    }
    fn get_attribute(&self, attribute_name: &str) -> Option<String> {
        match attribute_name {
            "plan" => Some("premium".to_string()),
            "country" => Some("NL".to_string()),
            _ => None,
        }
    }
}

/// A context accessor with no user and no attributes.
struct EmptyContext;

impl FtrIoContextAccessor for EmptyContext {
    fn get_user_id(&self) -> Option<String> {
        None
    }
    fn get_attribute(&self, _attribute_name: &str) -> Option<String> {
        None
    }
}

/// An in-memory value source.
struct MapProvider {
    values: HashMap<String, String>,
    overrides: HashMap<(String, String), bool>,
    present: bool,
}

impl MapProvider {
    fn new() -> Self {
        MapProvider { values: HashMap::new(), overrides: HashMap::new(), present: true }
    }

    fn with_value(mut self, key: &str, value: &str) -> Self {
        self.values.insert(key.to_string(), value.to_string());
        self
    }

    fn with_override(mut self, key: &str, user_id: &str, value: bool) -> Self {
        self.overrides.insert((key.to_string(), user_id.to_string()), value);
        self
    }
}

impl ToggleValueProvider for MapProvider {
    fn get_raw_value(&self, toggle_key: &str) -> Result<Option<String>, ToggleError> {
        Ok(self.values.get(toggle_key).cloned())
    }
    fn config_present(&self) -> bool {
        self.present
    }
    fn get_override(&self, toggle_key: &str, user_id: &str) -> Option<bool> {
        self.overrides.get(&(toggle_key.to_string(), user_id.to_string())).copied()
    }
}

fn json(text: &str) -> ConfigValue {
    parse_json(text).expect("valid JSON")
}

fn settings_parser(text: &str) -> AppSettingsToggleParser {
    AppSettingsToggleParser::new(AppSettings::load(Some(json(text)), None), None, false)
}

fn context_with<'a>(accessor: &'a dyn FtrIoContextAccessor, key: &'a str) -> ToggleEvaluationContext<'a> {
    ToggleEvaluationContext { toggle_key: key, context_accessor: Some(accessor) }
}

// --- builder ---

#[test]
fn builder_assembles_the_configured_strategy_chain() {
    let source = MapProvider::new()
        .with_value("full_rollout", "100%")
        .with_value("active_slot", "blue")
        .with_value("targeted", "users:alice");
    let parser = ToggleParserBuilder::new()
        .with_provider(Box::new(source))
        .with_percentage_rollout()
        .with_blue_green(Some("blue".to_string()), vec!["blue".to_string(), "green".to_string()])
        .with_context_strategies()
        .with_context_accessor(Arc::new(TestContext))
        .build()
        .expect("builder should assemble");

    assert_eq!(parser.get_toggle_status("full_rollout"), Ok(true));
    assert_eq!(parser.get_toggle_status("active_slot"), Ok(true));
    assert_eq!(parser.get_toggle_status("targeted"), Ok(true));
}

#[test]
fn overrides_without_context_accessor_is_an_error() {
    let result = ToggleParserBuilder::new().with_overrides().build();
    assert!(result.is_err());
}

#[test]
fn overrides_with_context_accessor_builds() {
    let result = ToggleParserBuilder::new()
        .with_overrides()
        .with_context_accessor(Arc::new(TestContext))
        .build();
    assert!(result.is_ok());
}

#[test]
fn builder_error_names_the_missing_accessor() {
    let error = ToggleParserBuilder::new().with_overrides().build().err().expect("an error");
    assert_eq!(
        error.message(),
        "with_overrides() requires a context accessor to key overrides by user"
    );
}

#[test]
fn builder_without_provider_reads_the_settings_handed_in() {
    let parser = ToggleParserBuilder::new()
        .with_settings(AppSettings::load(Some(json(r#"{ "Toggles": { "a": "false" } }"#)), None))
        .build()
        .expect("builds");
    assert_eq!(parser.get_toggle_status("a"), Ok(false));
    let unconfigured = ToggleParserBuilder::new().build().expect("builds");
    assert_eq!(unconfigured.get_toggle_status("anything"), Ok(true));
}

#[test]
fn builder_base_path_defaults_to_appsettings() {
    assert_eq!(ToggleParserBuilder::new().base_path(), "appsettings.json");
    assert_eq!(
        ToggleParserBuilder::new().with_base_path("conf/app.json".to_string()).base_path(),
        "conf/app.json"
    );
}

// --- settings ---

const MIXED_CONFIG: &str = r#"{
  "Toggles": {
    "flag_true": true,
    "flag_false": false,
    "flag_one": 1,
    "flag_zero": 0,
    "flag_upper": "TRUE",
    "flag_junk": "ASDF"
  }
}"#;

#[test]
fn booleans_and_numbers_resolve_case_insensitively() {
    let parser = settings_parser(MIXED_CONFIG);
    assert_eq!(parser.get_toggle_status("flag_true"), Ok(true));
    assert_eq!(parser.get_toggle_status("flag_false"), Ok(false));
    assert_eq!(parser.get_toggle_status("flag_one"), Ok(true));
    assert_eq!(parser.get_toggle_status("flag_zero"), Ok(false));
    assert_eq!(parser.get_toggle_status("flag_upper"), Ok(true));
}

#[test]
fn unparseable_value_is_parsed_out_of_range() {
    let parser = settings_parser(MIXED_CONFIG);
    assert_eq!(
        parser.get_toggle_status("flag_junk"),
        Err(ToggleError::ParsedOutOfRange { raw_value: "ASDF".to_string() })
    );
}

#[test]
fn absent_key_does_not_exist() {
    let parser = settings_parser(MIXED_CONFIG);
    assert_eq!(
        parser.get_toggle_status("no_such_toggle"),
        Err(ToggleError::DoesNotExist { toggle_key: "no_such_toggle".to_string() })
    );
}

#[test]
fn no_config_file_defaults_every_toggle_to_on() {
    // Nothing could be read: no base file, no overlay.
    let parser = AppSettingsToggleParser::new(AppSettings::load(None, None), None, false);
    assert_eq!(parser.get_toggle_status("anything"), Ok(true));
    assert_eq!(parser.get_toggle_status("another"), Ok(true));

    let strategy_parser = StrategyToggleParser::from_app_settings(AppSettings::load(None, None));
    assert_eq!(strategy_parser.get_toggle_status("anything"), Ok(true));
}

#[test]
fn toggle_keys_are_found_ignoring_case() {
    let parser = settings_parser(r#"{ "Toggles": { "NewCheckout": "true" } }"#);
    assert_eq!(parser.get_toggle_status("newcheckout"), Ok(true));
    assert_eq!(parser.get_toggle_status("NEWCHECKOUT"), Ok(true));
}

#[test]
fn environment_overlay_wins_over_the_base_file() {
    let settings = AppSettings::load(
        Some(json(r#"{ "Toggles": { "a": "true", "b": "true" } }"#)),
        Some(json(r#"{ "Toggles": { "a": "false" } }"#)),
    );
    assert_eq!(settings.get_toggle_value("a"), Some("false".to_string()));
    assert_eq!(settings.get_toggle_value("b"), Some("true".to_string()));
    assert!(settings.present());
}

#[test]
fn default_parser_reads_blue_green_from_settings() {
    let settings = AppSettings::load(
        Some(json(
            r#"{ "FtrIO": { "BlueGreen": { "CurrentSlot": "green", "KnownSlots": "blue, green ,," } },
                 "Toggles": { "on_green": "green", "on_blue": "blue" } }"#,
        )),
        None,
    );
    let parser = StrategyToggleParser::from_app_settings(settings);
    assert_eq!(parser.get_toggle_status("on_green"), Ok(true));
    assert_eq!(parser.get_toggle_status("on_blue"), Ok(false));
}

// --- overrides ---

#[test]
fn override_wins_before_the_strategy_chain() {
    let source = MapProvider::new().with_value("feature", "false").with_override("feature", "alice", true);
    let parser = StrategyToggleParser::new(Box::new(source), vec![], Some(Arc::new(TestContext)));
    assert_eq!(parser.get_toggle_status("feature"), Ok(true));
}

#[test]
fn override_is_ignored_without_user_context() {
    let source = MapProvider::new().with_value("feature", "false").with_override("feature", "alice", true);
    let parser = StrategyToggleParser::new(Box::new(source), vec![], None);
    assert_eq!(parser.get_toggle_status("feature"), Ok(false));
}

const OVERRIDE_CONFIG: &str = r#"{
  "Toggles": {
    "f_bool": "false",
    "f_num": "false",
    "f_str": "false",
    "f_zero": "true"
  },
  "TogglesOverrides": {
    "f_bool": { "alice": true },
    "f_num": { "alice": 1 },
    "f_str": { "alice": "true" },
    "f_zero": { "alice": 0 }
  }
}"#;

#[test]
fn override_accepts_bool_number_and_string_forms() {
    let parser = settings_parser(OVERRIDE_CONFIG).with_context_accessor(Arc::new(TestContext));
    assert_eq!(parser.get_toggle_status("f_bool"), Ok(true));
    assert_eq!(parser.get_toggle_status("f_num"), Ok(true));
    assert_eq!(parser.get_toggle_status("f_str"), Ok(true));
    assert_eq!(parser.get_toggle_status("f_zero"), Ok(false));
}

#[test]
fn strategy_parser_over_settings_applies_overrides() {
    let parser = ToggleParserBuilder::new()
        .with_settings(AppSettings::load(Some(json(OVERRIDE_CONFIG)), None))
        .with_context_accessor(Arc::new(TestContext))
        .with_overrides()
        .build()
        .expect("builds");
    assert_eq!(parser.get_toggle_status("f_bool"), Ok(true));
    assert_eq!(parser.get_toggle_status("f_zero"), Ok(false));
    assert_eq!(parser.get_override("f_num"), Some(true));
}

// --- value sources ---

#[test]
fn env_var_provider_reads_ftrio_prefixed_variables() {
    let provider = EnvironmentVariableToggleParser::new(vec![(
        "FTRIO__Toggles__EnvProviderFlag".to_string(),
        "true".to_string(),
    )]);
    assert_eq!(provider.get_raw_value("EnvProviderFlag").unwrap(), Some("true".to_string()));
    assert_eq!(provider.get_raw_value("NotSetFlag").unwrap(), None);
}

#[test]
fn env_var_names_use_the_ftrio_prefix() {
    assert_eq!(EnvironmentVariableToggleParser::variable_name("Flag"), "FTRIO__Toggles__Flag");
}

#[test]
fn composite_tries_sources_in_order_first_wins() {
    let first = MapProvider::new().with_value("shared", "true");
    let second = MapProvider::new().with_value("shared", "false").with_value("only_second", "false");
    let composite = CompositeToggleParser::new(vec![Box::new(first), Box::new(second)]);
    assert_eq!(composite.get_raw_value("shared").unwrap(), Some("true".to_string()));
    assert_eq!(composite.get_raw_value("only_second").unwrap(), Some("false".to_string()));
    assert_eq!(composite.get_raw_value("nowhere").unwrap(), None);
}

#[test]
fn composite_reraises_does_not_exist_only_when_all_miss() {
    let composite = CompositeToggleParser::new(vec![
        Box::new(MapProvider::new().with_value("a", "true")),
        Box::new(MapProvider::new().with_value("b", "false")),
    ]);
    let parser = StrategyToggleParser::new(Box::new(composite), vec![], None);
    assert_eq!(parser.get_toggle_status("a"), Ok(true));
    assert_eq!(parser.get_toggle_status("b"), Ok(false));
    assert_eq!(
        parser.get_toggle_status("missing_everywhere"),
        Err(ToggleError::DoesNotExist { toggle_key: "missing_everywhere".to_string() })
    );
}

// --- strategies ---

#[test]
fn percentage_boundaries_are_deterministic() {
    let strategy = PercentageRolloutStrategy;
    let accessor = EmptyContext;
    let context = context_with(&accessor, "feature");
    assert!(strategy.can_handle("50%"));
    assert!(!strategy.can_handle("not-a-percentage"));
    assert_eq!(strategy.should_execute("0%", &context), Ok(false));
    assert_eq!(strategy.should_execute("100%", &context), Ok(true));
}

#[test]
fn blue_green_resolves_against_current_slot() {
    let strategy = BlueGreenStrategy::new(Some("blue".to_string()), vec![]);
    let accessor = EmptyContext;
    let context = context_with(&accessor, "feature");
    assert!(strategy.can_handle("blue"));
    assert!(strategy.can_handle("GREEN"));
    assert!(!strategy.can_handle("purple"));
    assert_eq!(strategy.should_execute("blue", &context), Ok(true));
    assert_eq!(strategy.should_execute("green", &context), Ok(false));
}

#[test]
fn user_targeting_matches_case_insensitively() {
    let strategy = UserTargetingStrategy;
    let accessor = TestContext;
    let context = context_with(&accessor, "feature");
    assert!(strategy.can_handle("users:alice,bob"));
    assert_eq!(strategy.should_execute("users:ALICE,bob", &context), Ok(true));
    assert_eq!(strategy.should_execute("users:carol,dave", &context), Ok(false));

    let empty = EmptyContext;
    let empty_context = context_with(&empty, "feature");
    assert_eq!(strategy.should_execute("users:alice", &empty_context), Ok(false));
}

#[test]
fn attribute_rules_cover_every_operator() {
    let strategy = AttributeRuleStrategy;
    let accessor = TestContext;
    let context = context_with(&accessor, "feature");
    let cases: &[(&str, bool)] = &[
        ("attribute:plan equals premium", true),
        ("attribute:plan notEquals premium", false),
        ("attribute:plan notEquals basic", true),
        ("attribute:plan startsWith prem", true),
        ("attribute:plan endsWith ium", true),
        ("attribute:plan contains emi", true),
        ("attribute:plan in premium,gold", true),
        ("attribute:plan notIn premium,gold", false),
        ("attribute:plan in gold,silver", false),
    ];
    for (rule, expected) in cases {
        assert_eq!(
            strategy.should_execute(rule, &context),
            Ok(*expected),
            "rule `{rule}` should resolve to {expected}"
        );
    }
}

#[test]
fn boolean_strategy_is_always_the_last_fallback() {
    let source = MapProvider::new()
        .with_value("plain_true", "true")
        .with_value("plain_zero", "0")
        .with_value("garbage", "ASDF");
    let parser = StrategyToggleParser::new(Box::new(source), vec![], None);
    assert_eq!(parser.get_toggle_status("plain_true"), Ok(true));
    assert_eq!(parser.get_toggle_status("plain_zero"), Ok(false));
    assert_eq!(
        parser.get_toggle_status("garbage"),
        Err(ToggleError::ParsedOutOfRange { raw_value: "ASDF".to_string() })
    );
}

#[test]
fn toggle_error_messages_name_the_toggle() {
    assert_eq!(
        ToggleError::DoesNotExist { toggle_key: "k".to_string() }.message(),
        "toggle 'k' does not exist in the Toggles section"
    );
    assert_eq!(
        ToggleError::ParsedOutOfRange { raw_value: "v".to_string() }.message(),
        "toggle value 'v' could not be parsed to a decision"
    );
    assert_eq!(
        ToggleError::AttributeMissing { method_name: "m".to_string() }.message(),
        "method 'm' is not decorated with a toggle attribute"
    );
}

// --- A/B bucketing ---

#[test]
fn pinned_cross_language_vectors() {
    assert_eq!(compute_bucket("alice", "TestingABTest", ""), 84);
    assert_eq!(compute_bucket("bob", "TestingABTest", ""), 68);
    assert_eq!(compute_bucket("charlie", "TestingABTest", ""), 89);
    assert_eq!(compute_bucket("dave", "TestingABTest", ""), 64);
    assert_eq!(compute_bucket("alice", "TestingABTestSalted", "round2"), 2);
    assert_eq!(compute_bucket("bob", "TestingABTestSalted", "round2"), 99);
}

#[test]
fn bucket_is_stable_across_repeated_calls() {
    let first = compute_bucket("alice", "TestingABTest", "");
    let second = compute_bucket("alice", "TestingABTest", "");
    assert_eq!(first, second);
}

#[test]
fn salt_changes_the_bucket() {
    let unsalted = compute_bucket("alice", "TestingABTest", "");
    let salted = compute_bucket("alice", "TestingABTest", "round2");
    assert_ne!(unsalted, salted);
}

#[test]
fn bucket_is_always_in_range() {
    for user in ["a", "bb", "ccc", "user-1234", "ZZZ"] {
        let bucket = compute_bucket(user, "SomeToggle", "salt");
        assert!(bucket < 100, "bucket {bucket} out of range for {user}");
    }
}

#[test]
fn ab_experiment_uses_the_users_bucket() {
    // alice's bucket for TestingABTest is 84: below 85 is on, below 84 is off.
    let source = MapProvider::new().with_value("TestingABTest", "ab:85");
    let parser = StrategyToggleParser::new(
        Box::new(source),
        vec![ftrio::strategies::Strategy::AbTest(ftrio::strategies::AbTestStrategy)],
        Some(Arc::new(TestContext)),
    );
    assert_eq!(parser.get_toggle_status("TestingABTest"), Ok(true));
    let source = MapProvider::new().with_value("TestingABTest", "AB: 84");
    let parser = StrategyToggleParser::new(
        Box::new(source),
        vec![ftrio::strategies::Strategy::AbTest(ftrio::strategies::AbTestStrategy)],
        Some(Arc::new(TestContext)),
    );
    assert_eq!(parser.get_toggle_status("TestingABTest"), Ok(false));
}

// --- gated calls ---

#[test]
fn gated_call_runs_only_when_on() {
    let source = MapProvider::new().with_value("on", "true").with_value("off", "false");
    let parser = StrategyToggleParser::new(Box::new(source), vec![], None);
    assert_eq!(ftrio::try_execute_if_toggle_on(&parser, || 9, "on"), Ok(9));
    assert_eq!(ftrio::try_execute_if_toggle_on(&parser, || 9, "off"), Ok(0));
    assert_eq!(
        ftrio::try_execute_if_toggle_on(&parser, || 9, "missing"),
        Err(ToggleError::DoesNotExist { toggle_key: "missing".to_string() })
    );
}

// --- decisions from reported answers ---

fn chain_parser(accessor: Option<Arc<dyn FtrIoContextAccessor>>) -> StrategyToggleParser {
    let builder = ToggleParserBuilder::new()
        .with_provider(Box::new(MapProvider::new()))
        .with_percentage_rollout()
        .with_blue_green(Some("blue".to_string()), vec![])
        .with_context_strategies();
    match accessor {
        Some(a) => builder.with_context_accessor(a).build().expect("builds"),
        None => builder.build().expect("builds"),
    }
}

#[test]
fn reported_override_wins_only_with_an_accessor() {
    let with = chain_parser(Some(Arc::new(TestContext)));
    assert_eq!(with.decide_reported("k", true, Some(true), Ok(Some("false".to_string()))), Ok(true));
    assert_eq!(with.decide_reported("k", true, None, Ok(Some("users:alice".to_string()))), Ok(true));
    let without = chain_parser(None);
    assert_eq!(without.decide_reported("k", true, Some(true), Ok(Some("false".to_string()))), Ok(false));
    assert_eq!(without.decide_reported("k", true, None, Ok(Some("users:alice".to_string()))), Ok(false));
}

#[test]
fn reported_answers_decide_in_order() {
    let parser = chain_parser(None);
    assert_eq!(parser.decide_reported("k", false, None, Ok(None)), Ok(true));
    assert_eq!(
        parser.decide_reported("k", true, None, Ok(None)),
        Err(ToggleError::DoesNotExist { toggle_key: "k".to_string() })
    );
    let failure = ToggleError::ParsedOutOfRange { raw_value: "x".to_string() };
    assert_eq!(parser.decide_reported("k", true, None, Err(failure.clone())), Err(failure));
    assert_eq!(parser.decide_reported("k", true, None, Ok(Some("green".to_string()))), Ok(false));
    assert_eq!(
        parser.decide_reported("k", true, None, Ok(Some("maybe".to_string()))),
        Err(ToggleError::ParsedOutOfRange { raw_value: "maybe".to_string() })
    );
}

#[test]
fn known_context_decides_for_its_user_and_attributes() {
    let parser = chain_parser(None);
    let alice = KnownContext::new(
        Some("alice".to_string()),
        vec![("plan".to_string(), "premium".to_string())],
    );
    let nobody = KnownContext::new(None, vec![]);
    let value = |text: &str| Ok(Some(text.to_string()));
    assert_eq!(parser.decide_reported_known("k", true, None, value("users:Alice"), &alice), Ok(true));
    assert_eq!(parser.decide_reported_known("k", true, None, value("users:alice"), &nobody), Ok(false));
    assert_eq!(
        parser.decide_reported_known("k", true, None, value("attribute:plan equals PREMIUM"), &alice),
        Ok(true)
    );
    assert_eq!(
        parser.decide_reported_known("k", true, None, value("attribute:plan notEquals premium"), &nobody),
        Ok(true)
    );
    assert_eq!(parser.decide_reported_known("k", true, Some(false), value("true"), &alice), Ok(false));
    let expected = compute_bucket("alice", "k", "salt") < 40;
    assert_eq!(parser.decide_reported_known("k", true, None, value("ab:40:salt"), &alice), Ok(expected));
}

#[test]
fn known_context_reads_the_parsers_settings() {
    let parser = ToggleParserBuilder::new()
        .with_settings(AppSettings::load(Some(json(OVERRIDE_CONFIG)), None))
        .with_context_strategies()
        .build()
        .expect("builds");
    let alice = KnownContext::new(Some("alice".to_string()), vec![]);
    let bob = KnownContext::new(Some("bob".to_string()), vec![]);
    assert_eq!(parser.resolve_known("f_bool", &alice), Ok(true));
    assert_eq!(parser.resolve_known("f_bool", &bob), Ok(false));
    assert_eq!(parser.resolve_known("f_zero", &alice), Ok(false));
    assert_eq!(
        parser.resolve_known("missing", &bob),
        Err(ToggleError::DoesNotExist { toggle_key: "missing".to_string() })
    );
}

#[test]
fn reported_values_read_as_booleans() {
    assert_eq!(read_reported_bool("k", false, Ok(None)), Ok(true));
    assert_eq!(read_reported_bool("k", true, Ok(Some("TRUE".to_string()))), Ok(true));
    assert_eq!(
        read_reported_bool("k", true, Ok(Some("100%".to_string()))),
        Err(ToggleError::ParsedOutOfRange { raw_value: "100%".to_string() })
    );
    assert_eq!(
        read_reported_bool("k", true, Ok(None)),
        Err(ToggleError::DoesNotExist { toggle_key: "k".to_string() })
    );
}

#[test]
fn the_first_answer_that_is_not_a_miss_wins() {
    let failure = ToggleError::DoesNotExist { toggle_key: "k".to_string() };
    assert_eq!(pick_first(vec![Ok(None), Ok(Some("a".to_string())), Err(failure.clone())]), Ok(Some("a".to_string())));
    assert_eq!(pick_first(vec![Ok(None), Err(failure.clone()), Ok(Some("b".to_string()))]), Err(failure));
    assert_eq!(pick_first(vec![Ok(None), Ok(None)]), Ok(None));
    assert_eq!(pick_first(vec![]), Ok(None));
    assert_eq!(pick_first_override(&vec![None, Some(false), Some(true)]), Some(false));
    assert_eq!(pick_first_override(&vec![None, None]), None);
}

#[test]
fn ab_decision_for_a_user_uses_the_bucket_and_without_one_the_roll() {
    let bucket = compute_bucket("alice", "checkout", "");
    assert_eq!(decide_for(50, "checkout", "", Some("alice"), 99), bucket < 50);
    assert_eq!(decide_for(50, "checkout", "", Some("alice"), 0), bucket < 50);
    assert!(decide_for(50, "checkout", "", None, 10));
    assert!(!decide_for(50, "checkout", "", None, 60));
    assert!(!decide_for(0, "checkout", "", Some("alice"), 0));
    assert!(decide_for(100, "checkout", "", Some("alice"), 99));
}

// --- the ambient parser slot ---

fn parser_answering(value: &str) -> StrategyToggleParser {
    StrategyToggleParser::new(Box::new(MapProvider::new().with_value("k", value)), vec![], None)
}

#[test]
fn configure_then_instance_returns_the_configured_parser() {
    let mut slot = ToggleParserProvider::new();
    let configured: Arc<dyn ToggleParser> = Arc::new(parser_answering("true"));
    slot.configure(configured.clone());
    let first = slot.instance(Box::new(parser_answering("false"))).expect("a parser");
    assert!(Arc::ptr_eq(&first, &configured));
    let second = slot.instance(Box::new(parser_answering("false"))).expect("a parser");
    assert!(Arc::ptr_eq(&second, &configured));
    assert_eq!(second.get_toggle_status("k"), Ok(true));
}

#[test]
fn instance_installs_the_default_once_and_reset_brings_a_fresh_one() {
    let mut slot = ToggleParserProvider::new();
    let installed = slot.instance(Box::new(parser_answering("false"))).expect("a parser");
    assert_eq!(installed.get_toggle_status("k"), Ok(false));
    let kept = slot.instance(Box::new(parser_answering("true"))).expect("a parser");
    assert!(Arc::ptr_eq(&installed, &kept));
    slot.reset();
    assert!(slot.current().is_none());
    let fresh = slot.instance(Box::new(parser_answering("true"))).expect("a parser");
    assert!(!Arc::ptr_eq(&installed, &fresh));
    assert_eq!(fresh.get_toggle_status("k"), Ok(true));
}
