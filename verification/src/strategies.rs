//! The six decision strategies, the behavioural heart of the library.
//!
//! A raw configuration value is routed through an ordered chain; the first strategy whose
//! `can_handle` returns `true` decides the outcome. [`BooleanStrategy`] is always appended last as
//! the fallback, so a plain `true`/`false`/`1`/`0` always resolves even if no richer grammar
//! matched.

pub mod ab_test;
pub mod attribute_rule;
pub mod blue_green;
pub mod boolean;
pub mod percentage;
pub mod user_targeting;

use rand::Rng;
use vstd::prelude::*;

pub use crate::context::ToggleEvaluationContext;
use crate::cli::appconfig::pair_value;
use crate::context::{FtrIoContextAccessor, KnownContext};
pub use ab_test::{bucket_from_digest, compute_bucket, parse_ab_value, AbTestStrategy};
pub use attribute_rule::{
    evaluate_operator, list_contains, parse_attribute_rule, AttributeRule, AttributeRuleStrategy,
    RuleOperator,
};
pub use blue_green::BlueGreenStrategy;
pub use boolean::{is_boolean_value, parse_boolean_value, BooleanStrategy};
pub use percentage::{decide_percentage, parse_percentage, PercentageRolloutStrategy};
pub use user_targeting::{is_user_targeted, UserTargetingStrategy};

use crate::error::{outcome, out_of_range, out_of_range_error, ErrorModel, ToggleError};
use ab_test::{ab_allows, ab_pick, ab_value, decide_for};
use attribute_rule::{attribute_rule, is_attribute_rule, rule_allows, rule_holds};
use blue_green::{names_slot, slot_is_active};
use boolean::{boolean_outcome, boolean_value};
use percentage::{percentage_allows, percentage_value};
use user_targeting::{is_user_list, is_user_list_value, targeting_allows, targeting_decision};

verus! {

/// A roll in `0..100` from `rand`'s thread-local generator (`thread_rng().gen_range(0..100)`).
#[verifier::external_body]
pub(crate) fn random_percent_roll() -> (roll: u32)
    ensures
        roll < 100,
{
    rand::thread_rng().gen_range(0..100)
}

/// A single decision strategy.
pub trait ToggleDecisionStrategy: Send + Sync {
    /// Whether this strategy recognises the raw value's grammar.
    fn can_handle(&self, raw_value: &str) -> bool;

    /// Render the on/off decision for a value this strategy has claimed via `can_handle`.
    fn should_execute(&self, raw_value: &str, context: &ToggleEvaluationContext) -> Result<
        bool,
        ToggleError,
    >;
}

/// One link of a parser's strategy chain: a built-in strategy, or one supplied by the
/// application.
pub enum Strategy {
    Boolean(BooleanStrategy),
    Percentage(PercentageRolloutStrategy),
    BlueGreen(BlueGreenStrategy),
    UserTargeting(UserTargetingStrategy),
    AttributeRule(AttributeRuleStrategy),
    AbTest(AbTestStrategy),
    Custom(Box<dyn ToggleDecisionStrategy>),
}

/// What a chain link is, as far as its decisions are concerned.
pub enum StrategyModel {
    Boolean,
    Percentage,
    BlueGreen(Option<Seq<char>>, Seq<Seq<char>>),
    UserTargeting,
    AttributeRule,
    AbTest,
    Custom,
}

impl View for Strategy {
    type V = StrategyModel;

    open spec fn view(&self) -> StrategyModel {
        match self {
            Strategy::Boolean(_) => StrategyModel::Boolean,
            Strategy::Percentage(_) => StrategyModel::Percentage,
            Strategy::BlueGreen(s) => StrategyModel::BlueGreen(s.current(), s.known()),
            Strategy::UserTargeting(_) => StrategyModel::UserTargeting,
            Strategy::AttributeRule(_) => StrategyModel::AttributeRule,
            Strategy::AbTest(_) => StrategyModel::AbTest,
            Strategy::Custom(_) => StrategyModel::Custom,
        }
    }
}

/// Whether a built-in strategy claims a raw value.
pub open spec fn handles(m: StrategyModel, raw: Seq<char>) -> bool {
    match m {
        StrategyModel::Boolean => boolean_value(raw) is Some,
        StrategyModel::Percentage => percentage_value(raw) is Some,
        StrategyModel::BlueGreen(_, known) => names_slot(known, raw),
        StrategyModel::UserTargeting => is_user_list(raw),
        StrategyModel::AttributeRule => is_attribute_rule(raw),
        StrategyModel::AbTest => ab_value(raw) is Some,
        StrategyModel::Custom => false,
    }
}

/// The outcomes a strategy may produce for a raw value, given the toggle key and whether an
/// accessor supplies context. An application strategy may produce anything.
pub open spec fn decides(
    m: StrategyModel,
    raw: Seq<char>,
    key: Seq<char>,
    has_accessor: bool,
    r: Result<bool, ErrorModel>,
) -> bool {
    match m {
        StrategyModel::Boolean => r == boolean_outcome(raw),
        StrategyModel::Percentage => percentage_allows(raw, r),
        StrategyModel::BlueGreen(current, _) => r == Ok::<bool, ErrorModel>(
            slot_is_active(current, raw),
        ),
        StrategyModel::UserTargeting => targeting_allows(raw, has_accessor, r),
        StrategyModel::AttributeRule => rule_allows(raw, has_accessor, r),
        StrategyModel::AbTest => ab_allows(raw, key, has_accessor, r),
        StrategyModel::Custom => true,
    }
}

/// The outcomes a chain may produce: the first built-in strategy that claims the value decides;
/// past an application strategy anything may happen; when no strategy claims the value it is out
/// of range.
pub open spec fn chain_allows(
    chain: Seq<StrategyModel>,
    raw: Seq<char>,
    key: Seq<char>,
    has_accessor: bool,
    r: Result<bool, ErrorModel>,
) -> bool
    decreases chain.len(),
{
    if chain.len() == 0 {
        r == out_of_range(raw)
    } else if chain[0] is Custom {
        true
    } else if handles(chain[0], raw) {
        decides(chain[0], raw, key, has_accessor, r)
    } else {
        chain_allows(chain.drop_first(), raw, key, has_accessor, r)
    }
}

/// The outcomes a strategy may produce for a raw value when the user and the attributes are
/// known: the same grammar as with an accessor, but user lists, attribute rules and A/B tests
/// decide for this user and these attributes; only a roll (a percentage, or an A/B test without a
/// user) is left to chance. An application strategy may produce anything.
pub open spec fn known_decides(
    m: StrategyModel,
    raw: Seq<char>,
    key: Seq<char>,
    user: Option<Seq<char>>,
    attributes: spec_fn(Seq<char>) -> Option<Seq<char>>,
    r: Result<bool, ErrorModel>,
) -> bool {
    match m {
        StrategyModel::Boolean => r == boolean_outcome(raw),
        StrategyModel::Percentage => percentage_allows(raw, r),
        StrategyModel::BlueGreen(current, _) => r == Ok::<bool, ErrorModel>(
            slot_is_active(current, raw),
        ),
        StrategyModel::UserTargeting => if is_user_list(raw) {
            r == Ok::<bool, ErrorModel>(targeting_decision(raw, user))
        } else {
            r == out_of_range(raw)
        },
        StrategyModel::AttributeRule => match attribute_rule(raw) {
            None => r == out_of_range(raw),
            Some(rule) => r == Ok::<bool, ErrorModel>(
                rule_holds(rule.1, attributes(rule.0), rule.2),
            ),
        },
        StrategyModel::AbTest => match ab_value(raw) {
            None => r == out_of_range(raw),
            Some(v) => exists|roll: u32|
                roll < 100 && r == Ok::<bool, ErrorModel>(#[trigger] ab_pick(v.0, key, v.1, user, roll)),
        },
        StrategyModel::Custom => true,
    }
}

/// The outcomes a chain may produce with a known user and attributes: the first built-in
/// strategy that claims the value decides; past an application strategy anything may happen;
/// when no strategy claims the value it is out of range.
pub open spec fn known_chain_allows(
    chain: Seq<StrategyModel>,
    raw: Seq<char>,
    key: Seq<char>,
    user: Option<Seq<char>>,
    attributes: spec_fn(Seq<char>) -> Option<Seq<char>>,
    r: Result<bool, ErrorModel>,
) -> bool
    decreases chain.len(),
{
    if chain.len() == 0 {
        r == out_of_range(raw)
    } else if chain[0] is Custom {
        true
    } else if handles(chain[0], raw) {
        known_decides(chain[0], raw, key, user, attributes, r)
    } else {
        known_chain_allows(chain.drop_first(), raw, key, user, attributes, r)
    }
}

impl Strategy {
    /// Decide a claimed raw value for a known user and attributes. An application strategy is
    /// asked with the known context as its accessor.
    pub fn decide_known(&self, raw_value: &str, toggle_key: &str, known: &KnownContext) -> (r: Result<
        bool,
        ToggleError,
    >)
        ensures
            known_decides(
                self@,
                raw_value@,
                toggle_key@,
                known.user(),
                known.attribute_answers(),
                outcome(r),
            ),
    {
        let no_accessor = ToggleEvaluationContext { toggle_key, context_accessor: None };
        match self {
            Strategy::Boolean(s) => s.should_execute(raw_value, &no_accessor),
            Strategy::Percentage(s) => s.should_execute(raw_value, &no_accessor),
            Strategy::BlueGreen(s) => s.should_execute(raw_value, &no_accessor),
            Strategy::UserTargeting(_) => {
                if !is_user_list_value(raw_value) {
                    return Err(out_of_range_error(raw_value));
                }
                match known.user_ref() {
                    Some(u) => Ok(is_user_targeted(raw_value, u)),
                    None => Ok(false),
                }
            },
            Strategy::AttributeRule(_) => match parse_attribute_rule(raw_value) {
                None => Err(out_of_range_error(raw_value)),
                Some(rule) => match known.get_attribute(rule.attribute_name.as_str()) {
                    Some(a) => Ok(rule.holds(Some(a.as_str()))),
                    None => Ok(rule.holds(None)),
                },
            },
            Strategy::AbTest(_) => match parse_ab_value(raw_value) {
                None => Err(out_of_range_error(raw_value)),
                Some((percentage, salt)) => {
                    let user = known.user_ref();
                    let roll = match user {
                        Some(_) => 0,
                        None => random_percent_roll(),
                    };
                    let b = decide_for(percentage, toggle_key, salt.as_str(), user, roll);
                    assert(ab_pick(percentage, toggle_key@, salt@, known.user(), roll) == b);
                    Ok(b)
                },
            },
            Strategy::Custom(s) => {
                let accessor: &dyn FtrIoContextAccessor = known;
                let context = ToggleEvaluationContext { toggle_key, context_accessor: Some(accessor) };
                s.should_execute(raw_value, &context)
            },
        }
    }
}

impl ToggleDecisionStrategy for Strategy {
    fn can_handle(&self, raw_value: &str) -> (b: bool)
        ensures
            !(self@ is Custom) ==> b == handles(self@, raw_value@),
    {
        match self {
            Strategy::Boolean(s) => s.can_handle(raw_value),
            Strategy::Percentage(s) => s.can_handle(raw_value),
            Strategy::BlueGreen(s) => s.can_handle(raw_value),
            Strategy::UserTargeting(s) => s.can_handle(raw_value),
            Strategy::AttributeRule(s) => s.can_handle(raw_value),
            Strategy::AbTest(s) => s.can_handle(raw_value),
            Strategy::Custom(s) => s.can_handle(raw_value),
        }
    }

    fn should_execute(&self, raw_value: &str, context: &ToggleEvaluationContext) -> (r: Result<
        bool,
        ToggleError,
    >)
        ensures
            decides(self@, raw_value@, context.toggle_key@, context.has_accessor(), outcome(r)),
            context.answers_known() ==> known_decides(
                self@,
                raw_value@,
                context.toggle_key@,
                context.user_answer(),
                context.attribute_answers(),
                outcome(r),
            ),
    {
        match self {
            Strategy::Boolean(s) => s.should_execute(raw_value, context),
            Strategy::Percentage(s) => s.should_execute(raw_value, context),
            Strategy::BlueGreen(s) => s.should_execute(raw_value, context),
            Strategy::UserTargeting(s) => s.should_execute(raw_value, context),
            Strategy::AttributeRule(s) => s.should_execute(raw_value, context),
            Strategy::AbTest(s) => s.should_execute(raw_value, context),
            Strategy::Custom(s) => s.should_execute(raw_value, context),
        }
    }
}

} // verus!
