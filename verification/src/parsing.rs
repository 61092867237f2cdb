//! The read path: the `ToggleParser` trait, the settings reader, the strategy-routing engine, and
//! per-user override resolution.
//!
//! Resolution order:
//! 1. No configuration at all → `true` (offline-safe default).
//! 2. A per-user override wins unconditionally (only with a user context).
//! 3. Otherwise the first strategy whose grammar matches decides; [`BooleanStrategy`] is always
//!    appended last as the fallback.

use std::sync::Arc;
use vstd::prelude::*;
use vstd::string::*;

use crate::config::{bool_at, colon_path, override_path, string_at, toggle_path, AppSettings, Json};
use crate::context::{
    accessor_attributes, accessor_known, accessor_user, opt_view, FtrIoContextAccessor, KnownContext,
    ToggleEvaluationContext,
};
use crate::error::{
    does_not_exist, does_not_exist_error, out_of_range_error, outcome, ErrorModel, ToggleError,
};
use crate::providers::{lookup_view, ToggleValueProvider};
use crate::strategies::blue_green::{default_slots, texts, BlueGreenStrategy};
use crate::strategies::boolean::{boolean_outcome, parse_boolean_value, BooleanStrategy};
use crate::strategies::{
    chain_allows, decides, handles, known_chain_allows, AbTestStrategy, AttributeRuleStrategy,
    PercentageRolloutStrategy, Strategy, StrategyModel, ToggleDecisionStrategy,
    UserTargetingStrategy,
};
use crate::text::{chars_of, split_chars, split_on, string_from_chars, trim, trim_chars};

verus! {

/// The read path every gated call funnels through.
pub trait ToggleParser: Send + Sync {
    /// Resolve a toggle to a final on/off decision, applying overrides and (in richer parsers) the
    /// strategy chain.
    fn get_toggle_status(&self, toggle_key: &str) -> Result<bool, ToggleError>;

    /// Read the raw value from the source and parse it as a boolean.
    fn parse_bool_value_from_source(&self, toggle_key: &str) -> Result<bool, ToggleError>;

    /// The per-user override for this toggle, if any. `None` unless a parser says otherwise.
    fn get_override(&self, toggle_key: &str) -> (r: Option<bool>)
        default_ensures
            r is None,
    {
        None
    }
}

// ---------------------------------------------------------------------------------------------
// Overrides
// ---------------------------------------------------------------------------------------------

/// Resolves the per-user override for a toggle by combining the ambient user identity with the
/// source's override table. Without an accessor (or a current user) there is no override.
pub struct OverrideResolver {
    context_accessor: Option<Arc<dyn FtrIoContextAccessor>>,
}

impl OverrideResolver {
    /// Whether a context accessor is attached.
    pub closed spec fn has_accessor(&self) -> bool {
        self.context_accessor is Some
    }

    /// The context accessor the resolver asks for the current user.
    pub closed spec fn accessor(&self) -> Option<Arc<dyn FtrIoContextAccessor>> {
        self.context_accessor
    }

    /// Construct from the (optional) context accessor.
    pub fn new(context_accessor: Option<Arc<dyn FtrIoContextAccessor>>) -> (r: Self)
        ensures
            r.has_accessor() == context_accessor is Some,
            r.accessor() == context_accessor,
    {
        OverrideResolver { context_accessor }
    }

    /// The override decision for `toggle_key`: the source's override for the current user, or
    /// `None` when there is no user context.
    pub fn resolve(&self, source: &dyn ToggleValueProvider, toggle_key: &str) -> (r: Option<bool>)
        ensures
            !self.has_accessor() ==> r is None,
            accessor_known(self.accessor()) && accessor_user(self.accessor()) is None ==> r is None,
    {
        match &self.context_accessor {
            Some(accessor) => match accessor.get_user_id() {
                Some(user_id) => source.get_override(toggle_key, user_id.as_str()),
                None => None,
            },
            None => None,
        }
    }
}

impl OverrideResolver {
    /// The override decision for `toggle_key` from a parser's value source: the current user's
    /// override when there is a user context, `None` otherwise. For loaded settings it is the
    /// `TogglesOverrides:<key>:<user>` entry read as a boolean.
    pub fn resolve_from(&self, source: &ValueSource, toggle_key: &str) -> (r: Option<bool>)
        ensures
            !self.has_accessor() ==> r is None,
            accessor_known(self.accessor()) && accessor_user(self.accessor()) is None ==> r is None,
            accessor_known(self.accessor()) ==> (source.settings_view() matches Some(v) ==> r
                == user_override(v.0, toggle_key@, accessor_user(self.accessor()))),
            source.settings_view() matches Some(v) ==> exists|user: Option<Seq<char>>|
                (!self.has_accessor() ==> user is None) && r == #[trigger] user_override(
                    v.0,
                    toggle_key@,
                    user,
                ),
    {
        match &self.context_accessor {
            Some(accessor) => match accessor.get_user_id() {
                Some(user_id) => {
                    let r = source.user_override(toggle_key, user_id.as_str());
                    assert(source.settings_view() matches Some(v) ==> r == user_override(
                        v.0,
                        toggle_key@,
                        Some(user_id@),
                    ));
                    r
                },
                None => {
                    assert(source.settings_view() matches Some(v) ==> None::<bool> == user_override(
                        v.0,
                        toggle_key@,
                        None,
                    ));
                    None
                },
            },
            None => {
                assert(source.settings_view() matches Some(v) ==> None::<bool> == user_override(
                    v.0,
                    toggle_key@,
                    None,
                ));
                None
            },
        }
    }
}

// ---------------------------------------------------------------------------------------------
// Value sources
// ---------------------------------------------------------------------------------------------

/// Where a strategy parser reads raw values from: loaded settings, read directly, or a source
/// supplied by the application.
pub enum ValueSource {
    Settings(AppSettingsToggleParser),
    Custom(Box<dyn ToggleValueProvider>),
}

impl ValueSource {
    /// For loaded settings, their merged content and whether any configuration backs them.
    pub open spec fn settings_view(&self) -> Option<(Json, bool)> {
        match self {
            ValueSource::Settings(p) => Some((p.root(), p.is_present())),
            ValueSource::Custom(_) => None,
        }
    }

    /// Whether the source has any configuration.
    pub fn present(&self) -> (b: bool)
        ensures
            self.settings_view() matches Some(v) ==> b == v.1,
    {
        match self {
            ValueSource::Settings(p) => p.config_present(),
            ValueSource::Custom(c) => c.config_present(),
        }
    }

    /// The raw value of a toggle.
    pub fn raw_value(&self, toggle_key: &str) -> (r: Result<Option<String>, ToggleError>)
        ensures
            self.settings_view() matches Some(v) ==> lookup_view(r) == Ok::<
                Option<Seq<char>>,
                ErrorModel,
            >(string_at(v.0, toggle_path(toggle_key@))),
    {
        match self {
            ValueSource::Settings(p) => p.get_raw_value(toggle_key),
            ValueSource::Custom(c) => c.get_raw_value(toggle_key),
        }
    }

    /// A user's override of a toggle.
    pub fn user_override(&self, toggle_key: &str, user_id: &str) -> (r: Option<bool>)
        ensures
            self.settings_view() matches Some(v) ==> r == bool_at(
                v.0,
                override_path(toggle_key@, user_id@),
            ),
    {
        match self {
            ValueSource::Settings(p) => p.override_for(toggle_key, user_id),
            ValueSource::Custom(c) => c.get_override(toggle_key, user_id),
        }
    }
}

// ---------------------------------------------------------------------------------------------
// Strategy-routing parser
// ---------------------------------------------------------------------------------------------

/// The outcomes of resolving a toggle, given what the source reported (whether configuration is
/// present, the user's override, the raw value lookup): no configuration means on; an override
/// (which needs a user context) wins; a failed lookup is that failure; a missing key does not
/// exist; otherwise the strategy chain decides.
pub open spec fn resolves(
    chain: Seq<StrategyModel>,
    has_accessor: bool,
    key: Seq<char>,
    present: bool,
    override_value: Option<bool>,
    raw: Result<Option<Seq<char>>, ErrorModel>,
    r: Result<bool, ErrorModel>,
) -> bool {
    if !present {
        r == Ok::<bool, ErrorModel>(true)
    } else {
        &&& (!has_accessor ==> override_value is None)
        &&& match override_value {
            Some(b) => r == Ok::<bool, ErrorModel>(b),
            None => match raw {
                Err(e) => r == Err::<bool, ErrorModel>(e),
                Ok(None) => r == does_not_exist(key),
                Ok(Some(v)) => chain_allows(chain, v, key, has_accessor, r),
            },
        }
    }
}

/// The outcomes of resolving a toggle for a known user and attributes, given what the source
/// reported: no configuration means on; the user's override wins; a failed lookup is that
/// failure; a missing key does not exist; otherwise the strategy chain decides for this user.
pub open spec fn known_resolves(
    chain: Seq<StrategyModel>,
    key: Seq<char>,
    present: bool,
    override_value: Option<bool>,
    raw: Result<Option<Seq<char>>, ErrorModel>,
    user: Option<Seq<char>>,
    attributes: spec_fn(Seq<char>) -> Option<Seq<char>>,
    r: Result<bool, ErrorModel>,
) -> bool {
    if !present {
        r == Ok::<bool, ErrorModel>(true)
    } else {
        match override_value {
            Some(b) => r == Ok::<bool, ErrorModel>(b),
            None => match raw {
                Err(e) => r == Err::<bool, ErrorModel>(e),
                Ok(None) => r == does_not_exist(key),
                Ok(Some(v)) => known_chain_allows(chain, v, key, user, attributes, r),
            },
        }
    }
}

/// Read a toggle as a plain boolean from what the source reported: without configuration it is
/// on; a failed lookup is that failure; a missing key does not exist; otherwise the value is
/// parsed as a boolean.
pub fn read_reported_bool(
    toggle_key: &str,
    present: bool,
    raw: Result<Option<String>, ToggleError>,
) -> (r: Result<bool, ToggleError>)
    ensures
        outcome(r) == reads_bool(toggle_key@, present, lookup_view(raw)),
{
    if !present {
        return Ok(true);
    }
    match raw {
        Err(e) => Err(e),
        Ok(Some(raw_value)) => parse_boolean_value(raw_value.as_str()),
        Ok(None) => Err(does_not_exist_error(toggle_key)),
    }
}

/// The outcome of reading a toggle as a plain boolean from what the source reported.
pub open spec fn reads_bool(
    key: Seq<char>,
    present: bool,
    raw: Result<Option<Seq<char>>, ErrorModel>,
) -> Result<bool, ErrorModel> {
    if !present {
        Ok(true)
    } else {
        match raw {
            Err(e) => Err(e),
            Ok(None) => does_not_exist(key),
            Ok(Some(v)) => boolean_outcome(v),
        }
    }
}

pub open spec fn chain_view(strategies: Seq<Strategy>) -> Seq<StrategyModel> {
    strategies.map_values(|s: Strategy| s@)
}

/// Routes raw toggle values through an ordered strategy chain, with overrides winning first.
pub struct StrategyToggleParser {
    source: ValueSource,
    strategies: Vec<Strategy>,
    context_accessor: Option<Arc<dyn FtrIoContextAccessor>>,
    override_resolver: OverrideResolver,
}

impl StrategyToggleParser {
    /// The strategy chain, in evaluation order.
    pub closed spec fn chain(&self) -> Seq<StrategyModel> {
        chain_view(self.strategies@)
    }

    /// Whether a context accessor is attached.
    pub closed spec fn has_accessor(&self) -> bool {
        self.context_accessor is Some
    }

    /// The context accessor the parser holds.
    pub closed spec fn accessor(&self) -> Option<Arc<dyn FtrIoContextAccessor>> {
        self.context_accessor
    }

    /// The context accessor, as the strategies are handed it.
    pub closed spec fn accessor_ref(&self) -> Option<&dyn FtrIoContextAccessor> {
        match &self.context_accessor {
            Some(accessor) => Some(&**accessor),
            None => None,
        }
    }

    /// Whether the accessor's answers, as the strategies see them, are known: there is none, or
    /// it obeys its specification.
    pub open spec fn context_known(&self) -> bool {
        match self.accessor_ref() {
            Some(accessor) => accessor.obeys_context_spec(),
            None => true,
        }
    }

    /// The user the accessor reports (none without an accessor).
    pub open spec fn context_user(&self) -> Option<Seq<char>> {
        match self.accessor_ref() {
            Some(accessor) => accessor.user_spec(),
            None => None,
        }
    }

    /// The attributes the accessor reports, by name (none without an accessor).
    pub open spec fn context_attributes(&self) -> spec_fn(Seq<char>) -> Option<Seq<char>> {
        |name: Seq<char>|
            match self.accessor_ref() {
                Some(accessor) => accessor.attribute_spec(name),
                None => None,
            }
    }

    /// Where the parser reads raw values from.
    pub closed spec fn value_source(&self) -> &ValueSource {
        &self.source
    }

    pub closed spec fn well_formed(&self) -> bool {
        &&& self.override_resolver.has_accessor() == self.has_accessor()
        &&& self.override_resolver.accessor() == self.accessor()
    }

    /// For a parser reading loaded settings, their merged content and whether any
    /// configuration backs them; `None` for a source supplied by the application.
    pub closed spec fn source_settings(&self) -> Option<(Json, bool)> {
        self.source.settings_view()
    }

    /// Construct from a source, a chain of strategies, and an optional context accessor.
    ///
    /// [`BooleanStrategy`] is appended to the chain here so it is always the last fallback,
    /// regardless of how the chain was assembled.
    pub fn new(
        source: Box<dyn ToggleValueProvider>,
        strategies: Vec<Strategy>,
        context_accessor: Option<Arc<dyn FtrIoContextAccessor>>,
    ) -> (r: Self)
        ensures
            r.chain() == chain_view(strategies@).push(StrategyModel::Boolean),
            r.has_accessor() == context_accessor is Some,
            r.accessor() == context_accessor,
            r.source_settings() is None,
            *r.value_source() == ValueSource::Custom(source),
            r.well_formed(),
    {
        StrategyToggleParser::assemble(ValueSource::Custom(source), strategies, context_accessor)
    }

    /// Construct over loaded settings, read directly, with a chain of strategies and an
    /// optional context accessor. [`BooleanStrategy`] is appended last.
    pub fn over_settings(
        source: AppSettingsToggleParser,
        strategies: Vec<Strategy>,
        context_accessor: Option<Arc<dyn FtrIoContextAccessor>>,
    ) -> (r: Self)
        ensures
            r.chain() == chain_view(strategies@).push(StrategyModel::Boolean),
            r.has_accessor() == context_accessor is Some,
            r.accessor() == context_accessor,
            r.source_settings() == Some((source.root(), source.is_present())),
            *r.value_source() == ValueSource::Settings(source),
            r.well_formed(),
    {
        StrategyToggleParser::assemble(ValueSource::Settings(source), strategies, context_accessor)
    }

    /// Construct from a value source, a chain of strategies, and an optional context accessor;
    /// [`BooleanStrategy`] is appended last.
    pub(crate) fn assemble(
        source: ValueSource,
        strategies: Vec<Strategy>,
        context_accessor: Option<Arc<dyn FtrIoContextAccessor>>,
    ) -> (r: Self)
        ensures
            r.chain() == chain_view(strategies@).push(StrategyModel::Boolean),
            r.has_accessor() == context_accessor is Some,
            r.accessor() == context_accessor,
            r.source_settings() == source.settings_view(),
            *r.value_source() == source,
            r.well_formed(),
    {
        let mut strategies = strategies;
        let ghost before = strategies@;
        strategies.push(Strategy::Boolean(BooleanStrategy));
        assert(chain_view(strategies@) =~= chain_view(before).push(StrategyModel::Boolean));
        let shared = match &context_accessor {
            Some(accessor) => Some(accessor.clone()),
            None => None,
        };
        let override_resolver = OverrideResolver::new(shared);
        StrategyToggleParser { source, strategies, context_accessor, override_resolver }
    }

    /// The conventional default parser over loaded settings: the full strategy chain
    /// (percentage, blue-green from `FtrIO:BlueGreen`, user targeting, attribute rules, A/B) with
    /// no context accessor, reading values from the settings.
    pub fn from_app_settings(settings: AppSettings) -> (r: Self)
        ensures
            r.chain() == seq![
                StrategyModel::Percentage,
                StrategyModel::BlueGreen(
                    string_at(settings.root_view(), colon_path(current_slot_key())),
                    configured_slots(settings.root_view()),
                ),
                StrategyModel::UserTargeting,
                StrategyModel::AttributeRule,
                StrategyModel::AbTest,
                StrategyModel::Boolean,
            ],
            !r.has_accessor(),
            r.source_settings() == Some((settings.root_view(), settings.is_present())),
            r.well_formed(),
    {
        let (current_slot, known_slots) = read_blue_green_settings(&settings);
        let blue_green = BlueGreenStrategy::new(current_slot, known_slots);
        let source = AppSettingsToggleParser::new(settings, None, false);
        let mut strategies: Vec<Strategy> = Vec::new();
        strategies.push(Strategy::Percentage(PercentageRolloutStrategy));
        strategies.push(Strategy::BlueGreen(blue_green));
        strategies.push(Strategy::UserTargeting(UserTargetingStrategy));
        strategies.push(Strategy::AttributeRule(AttributeRuleStrategy));
        strategies.push(Strategy::AbTest(AbTestStrategy));
        let ghost chain0 = chain_view(strategies@);
        assert(chain0 =~= seq![
            StrategyModel::Percentage,
            StrategyModel::BlueGreen(
                string_at(settings.root_view(), colon_path(current_slot_key())),
                configured_slots(settings.root_view()),
            ),
            StrategyModel::UserTargeting,
            StrategyModel::AttributeRule,
            StrategyModel::AbTest,
        ]);
        let r = StrategyToggleParser::over_settings(source, strategies, None);
        assert(r.chain() =~= seq![
            StrategyModel::Percentage,
            StrategyModel::BlueGreen(
                string_at(settings.root_view(), colon_path(current_slot_key())),
                configured_slots(settings.root_view()),
            ),
            StrategyModel::UserTargeting,
            StrategyModel::AttributeRule,
            StrategyModel::AbTest,
            StrategyModel::Boolean,
        ]);
        r
    }

    /// Route a raw value through the chain.
    fn route(&self, raw_value: &str, context: &ToggleEvaluationContext) -> (r: Result<
        bool,
        ToggleError,
    >)
        ensures
            chain_allows(
                self.chain(),
                raw_value@,
                context.toggle_key@,
                context.has_accessor(),
                outcome(r),
            ),
            context.answers_known() ==> known_chain_allows(
                self.chain(),
                raw_value@,
                context.toggle_key@,
                context.user_answer(),
                context.attribute_answers(),
                outcome(r),
            ),
    {
        let ghost chain = self.chain();
        let ghost key = context.toggle_key@;
        let ghost has = context.has_accessor();
        let ghost known = context.answers_known();
        let ghost user = context.user_answer();
        let ghost attributes = context.attribute_answers();
        let n = self.strategies.len();
        let mut i: usize = 0;
        assert(chain.skip(0) =~= chain);
        while i < n
            invariant
                n == self.strategies@.len(),
                i <= n,
                chain == self.chain(),
                chain.len() == n,
                key == context.toggle_key@,
                has == context.has_accessor(),
                known == context.answers_known(),
                user == context.user_answer(),
                attributes == context.attribute_answers(),
                forall|r: Result<bool, ErrorModel>|
                    #[trigger] chain_allows(chain.skip(i as int), raw_value@, key, has, r)
                        ==> chain_allows(chain, raw_value@, key, has, r),
                forall|r: Result<bool, ErrorModel>|
                    #[trigger] known_chain_allows(chain.skip(i as int), raw_value@, key, user, attributes, r)
                        ==> known_chain_allows(chain, raw_value@, key, user, attributes, r),
            decreases n - i,
        {
            let strategy = &self.strategies[i];
            proof {
                assert(chain[i as int] == strategy@);
                assert(chain.skip(i as int)[0] == chain[i as int]);
                assert(chain.skip(i as int).drop_first() =~= chain.skip(i + 1));
            }
            if strategy.can_handle(raw_value) {
                let r = strategy.should_execute(raw_value, context);
                proof {
                    assert(chain_allows(chain.skip(i as int), raw_value@, key, has, outcome(r)));
                    if known {
                        assert(known_chain_allows(chain.skip(i as int), raw_value@, key, user, attributes, outcome(r)));
                    }
                }
                return r;
            }
            proof {
                assert forall|r: Result<bool, ErrorModel>|
                    #[trigger] chain_allows(chain.skip(i + 1), raw_value@, key, has, r)
                        implies chain_allows(chain, raw_value@, key, has, r) by {
                    assert(chain_allows(chain.skip(i as int), raw_value@, key, has, r));
                }
                assert forall|r: Result<bool, ErrorModel>|
                    #[trigger] known_chain_allows(chain.skip(i + 1), raw_value@, key, user, attributes, r)
                        implies known_chain_allows(chain, raw_value@, key, user, attributes, r) by {
                    assert(known_chain_allows(chain.skip(i as int), raw_value@, key, user, attributes, r));
                }
            }
            i = i + 1;
        }
        let r = Err(out_of_range_error(raw_value));
        assert(chain.skip(n as int).len() == 0);
        assert(chain_allows(chain.skip(n as int), raw_value@, key, has, outcome(r)));
        assert(known_chain_allows(chain.skip(n as int), raw_value@, key, user, attributes, outcome(r)));
        r
    }

    /// Route a raw value through the chain for a known user and attributes.
    fn route_known(&self, raw_value: &str, toggle_key: &str, known: &KnownContext) -> (r: Result<
        bool,
        ToggleError,
    >)
        ensures
            known_chain_allows(
                self.chain(),
                raw_value@,
                toggle_key@,
                known.user(),
                known.attribute_answers(),
                outcome(r),
            ),
    {
        let ghost chain = self.chain();
        let ghost key = toggle_key@;
        let ghost user = known.user();
        let ghost attributes = known.attribute_answers();
        let n = self.strategies.len();
        let mut i: usize = 0;
        assert(chain.skip(0) =~= chain);
        while i < n
            invariant
                n == self.strategies@.len(),
                i <= n,
                chain == self.chain(),
                chain.len() == n,
                key == toggle_key@,
                user == known.user(),
                attributes == known.attribute_answers(),
                forall|r: Result<bool, ErrorModel>|
                    #[trigger] known_chain_allows(chain.skip(i as int), raw_value@, key, user, attributes, r)
                        ==> known_chain_allows(chain, raw_value@, key, user, attributes, r),
            decreases n - i,
        {
            let strategy = &self.strategies[i];
            proof {
                assert(chain[i as int] == strategy@);
                assert(chain.skip(i as int)[0] == chain[i as int]);
                assert(chain.skip(i as int).drop_first() =~= chain.skip(i + 1));
            }
            if strategy.can_handle(raw_value) {
                let r = strategy.decide_known(raw_value, toggle_key, known);
                assert(known_chain_allows(chain.skip(i as int), raw_value@, key, user, attributes, outcome(r)));
                return r;
            }
            proof {
                assert forall|r: Result<bool, ErrorModel>|
                    #[trigger] known_chain_allows(chain.skip(i + 1), raw_value@, key, user, attributes, r)
                        implies known_chain_allows(chain, raw_value@, key, user, attributes, r) by {
                    assert(known_chain_allows(chain.skip(i as int), raw_value@, key, user, attributes, r));
                }
            }
            i = i + 1;
        }
        let r = Err(out_of_range_error(raw_value));
        assert(chain.skip(n as int).len() == 0);
        assert(known_chain_allows(chain.skip(n as int), raw_value@, key, user, attributes, outcome(r)));
        r
    }

    /// Decide a toggle from what the source reported: whether configuration is present, the
    /// current user's override (heeded only by a parser with a context accessor) and the raw
    /// value lookup. The strategies ask this parser's accessor for the user and attributes.
    pub fn decide_reported(
        &self,
        toggle_key: &str,
        present: bool,
        override_value: Option<bool>,
        raw: Result<Option<String>, ToggleError>,
    ) -> (r: Result<bool, ToggleError>)
        ensures
            resolves(
                self.chain(),
                self.has_accessor(),
                toggle_key@,
                present,
                if self.has_accessor() {
                    override_value
                } else {
                    None
                },
                lookup_view(raw),
                outcome(r),
            ),
            self.context_known() ==> known_resolves(
                self.chain(),
                toggle_key@,
                present,
                if self.has_accessor() {
                    override_value
                } else {
                    None
                },
                lookup_view(raw),
                self.context_user(),
                self.context_attributes(),
                outcome(r),
            ),
    {
        if !present {
            return Ok(true);
        }
        let heeded = if self.context_accessor.is_some() {
            override_value
        } else {
            None
        };
        match heeded {
            Some(b) => Ok(b),
            None => match raw {
                Err(e) => Err(e),
                Ok(None) => Err(does_not_exist_error(toggle_key)),
                Ok(Some(raw_value)) => {
                    let context = self.context_for(toggle_key);
                    self.route(raw_value.as_str(), &context)
                },
            },
        }
    }

    /// Decide a toggle from what the source reported, for a known user and attributes: the
    /// override reported for that user wins, and the strategies decide for that user.
    pub fn decide_reported_known(
        &self,
        toggle_key: &str,
        present: bool,
        override_value: Option<bool>,
        raw: Result<Option<String>, ToggleError>,
        known: &KnownContext,
    ) -> (r: Result<bool, ToggleError>)
        ensures
            known_resolves(
                self.chain(),
                toggle_key@,
                present,
                override_value,
                lookup_view(raw),
                known.user(),
                known.attribute_answers(),
                outcome(r),
            ),
    {
        if !present {
            return Ok(true);
        }
        match override_value {
            Some(b) => Ok(b),
            None => match raw {
                Err(e) => Err(e),
                Ok(None) => Err(does_not_exist_error(toggle_key)),
                Ok(Some(raw_value)) => self.route_known(raw_value.as_str(), toggle_key, known),
            },
        }
    }

    /// Resolve a toggle for a known user and attributes, reading this parser's source: the
    /// user's override from the source, then the raw value, decided by `decide_reported_known`.
    pub fn resolve_known(&self, toggle_key: &str, known: &KnownContext) -> (r: Result<
        bool,
        ToggleError,
    >)
        ensures
            exists|
                present: bool,
                override_value: Option<bool>,
                raw: Result<Option<Seq<char>>, ErrorModel>,
            |
                #[trigger] known_resolves(
                    self.chain(),
                    toggle_key@,
                    present,
                    override_value,
                    raw,
                    known.user(),
                    known.attribute_answers(),
                    outcome(r),
                ),
            self.source_settings() matches Some(v) ==> known_resolves(
                self.chain(),
                toggle_key@,
                v.1,
                user_override(v.0, toggle_key@, known.user()),
                Ok(string_at(v.0, toggle_path(toggle_key@))),
                known.user(),
                known.attribute_answers(),
                outcome(r),
            ),
    {
        let present = self.source.present();
        let override_value = if present {
            match known.user_ref() {
                Some(u) => self.source.user_override(toggle_key, u),
                None => None,
            }
        } else {
            None
        };
        let raw = if present && override_value.is_none() {
            self.source.raw_value(toggle_key)
        } else {
            Ok(None)
        };
        let r = self.decide_reported_known(toggle_key, present, override_value, raw, known);
        proof {
            if let Some(v) = self.source_settings() {
                if present {
                    assert(override_value == user_override(v.0, toggle_key@, known.user()));
                }
            }
        }
        r
    }

    /// The evaluation context for a key, carrying this parser's accessor.
    fn context_for<'a>(&'a self, toggle_key: &'a str) -> (c: ToggleEvaluationContext<'a>)
        ensures
            c.toggle_key@ == toggle_key@,
            c.has_accessor() == self.has_accessor(),
            c.answers_known() == self.context_known(),
            c.user_answer() == self.context_user(),
            c.attribute_answers() == self.context_attributes(),
    {
        match &self.context_accessor {
            Some(accessor) => {
                let c = ToggleEvaluationContext { toggle_key, context_accessor: Some(&**accessor) };
                assert(c.context_accessor == self.accessor_ref());
                assert(c.attribute_answers() =~= self.context_attributes());
                c
            },
            None => {
                let c = ToggleEvaluationContext { toggle_key, context_accessor: None };
                assert(c.attribute_answers() =~= self.context_attributes());
                c
            },
        }
    }
}

impl ToggleParser for StrategyToggleParser {
    fn get_toggle_status(&self, toggle_key: &str) -> (r: Result<bool, ToggleError>)
        ensures
            self.well_formed() ==> exists|
                present: bool,
                override_value: Option<bool>,
                raw: Result<Option<Seq<char>>, ErrorModel>,
            |
                #[trigger] resolves(
                    self.chain(),
                    self.has_accessor(),
                    toggle_key@,
                    present,
                    override_value,
                    raw,
                    outcome(r),
                ),
            self.source_settings() matches Some(v) ==> (self.well_formed() ==> exists|
                user: Option<Seq<char>>,
            |
                (!self.has_accessor() ==> user is None) && #[trigger] resolves(
                    self.chain(),
                    self.has_accessor(),
                    toggle_key@,
                    v.1,
                    user_override(v.0, toggle_key@, user),
                    Ok(string_at(v.0, toggle_path(toggle_key@))),
                    outcome(r),
                )),
            self.source_settings() matches Some(v) ==> (self.context_known() ==> known_resolves(
                self.chain(),
                toggle_key@,
                v.1,
                user_override(v.0, toggle_key@, self.context_user()),
                Ok(string_at(v.0, toggle_path(toggle_key@))),
                self.context_user(),
                self.context_attributes(),
                outcome(r),
            )),
    {
        let present = self.source.present();
        let context = self.context_for(toggle_key);
        let current = if present {
            context.current_user_id()
        } else {
            None
        };
        let ghost user = opt_view(current);
        let override_value = match &current {
            Some(u) => self.source.user_override(toggle_key, u.as_str()),
            None => None,
        };
        assert(self.source_settings() matches Some(v) ==> override_value == user_override(
            v.0,
            toggle_key@,
            user,
        ));
        assert(present && self.context_known() ==> user == self.context_user());
        let raw = if present && override_value.is_none() {
            self.source.raw_value(toggle_key)
        } else {
            Ok(None)
        };
        let r = self.decide_reported(toggle_key, present, override_value, raw);
        proof {
            if self.well_formed() {
                assert((if self.has_accessor() { override_value } else { None }) == override_value);
                if let Some(v) = self.source_settings() {
                    if !present {
                        assert(resolves(
                            self.chain(),
                            self.has_accessor(),
                            toggle_key@,
                            v.1,
                            user_override(v.0, toggle_key@, None),
                            Ok(string_at(v.0, toggle_path(toggle_key@))),
                            outcome(r),
                        ));
                    } else {
                        assert(resolves(
                            self.chain(),
                            self.has_accessor(),
                            toggle_key@,
                            v.1,
                            user_override(v.0, toggle_key@, user),
                            Ok(string_at(v.0, toggle_path(toggle_key@))),
                            outcome(r),
                        ));
                    }
                }
            }
        }
        r
    }

    fn parse_bool_value_from_source(&self, toggle_key: &str) -> (r: Result<bool, ToggleError>)
        ensures
            exists|present: bool, raw: Result<Option<Seq<char>>, ErrorModel>|
                outcome(r) == #[trigger] reads_bool(toggle_key@, present, raw),
            self.source_settings() matches Some(v) ==> outcome(r) == reads_bool(
                toggle_key@,
                v.1,
                Ok(string_at(v.0, toggle_path(toggle_key@))),
            ),
    {
        let present = self.source.present();
        let raw = if present {
            self.source.raw_value(toggle_key)
        } else {
            Ok(None)
        };
        read_reported_bool(toggle_key, present, raw)
    }

    fn get_override(&self, toggle_key: &str) -> (r: Option<bool>)
        ensures
            self.well_formed() && !self.has_accessor() ==> r is None,
            self.source_settings() matches Some(v) ==> exists|user: Option<Seq<char>>|
                (self.well_formed() && !self.has_accessor() ==> user is None) && r
                    == #[trigger] user_override(v.0, toggle_key@, user),
    {
        self.override_resolver.resolve_from(&self.source, toggle_key)
    }
}

// ---------------------------------------------------------------------------------------------
// The settings reader
// ---------------------------------------------------------------------------------------------

pub open spec fn current_slot_key() -> Seq<char> {
    "FtrIO:BlueGreen:CurrentSlot"@
}

pub open spec fn known_slots_key() -> Seq<char> {
    "FtrIO:BlueGreen:KnownSlots"@
}

/// The non-empty trimmed entries of a comma-separated list, in order.
pub open spec fn list_entries(list: Seq<char>) -> Seq<Seq<char>> {
    split_on(list, ',').map_values(|e: Seq<char>| trim(e)).filter(|e: Seq<char>| e.len() > 0)
}

/// The known slots configured under `FtrIO:BlueGreen:KnownSlots` (none when unset).
pub open spec fn blue_green_known(root: Json) -> Seq<Seq<char>> {
    match string_at(root, colon_path(known_slots_key())) {
        Some(list) => list_entries(list),
        None => Seq::empty(),
    }
}

/// The slots the default chain's blue-green strategy knows: the configured ones, or the
/// conventional `blue`/`green` pair when none are configured.
pub open spec fn configured_slots(root: Json) -> Seq<Seq<char>> {
    if blue_green_known(root).len() == 0 {
        default_slots()
    } else {
        blue_green_known(root)
    }
}

/// The non-empty trimmed entries of a comma-separated list.
pub fn comma_list(list: &str) -> (r: Vec<String>)
    ensures
        texts(r@) == list_entries(list@),
{
    let chars = chars_of(list);
    let pieces = split_chars(chars.as_slice(), ',');
    let ghost trimmed = split_on(list@, ',').map_values(|e: Seq<char>| trim(e));
    let mut r: Vec<String> = Vec::new();
    let mut i: usize = 0;
    assert(trimmed.take(0).filter(|e: Seq<char>| e.len() > 0) =~= Seq::<Seq<char>>::empty()) by {
        reveal_with_fuel(Seq::<Seq<char>>::filter, 1);
    }
    assert(texts(r@) =~= Seq::<Seq<char>>::empty());
    while i < pieces.len()
        invariant
            i <= pieces@.len(),
            pieces@.len() == split_on(list@, ',').len(),
            forall|k: int| 0 <= k < pieces@.len() ==> #[trigger] pieces@[k]@ == split_on(list@, ',')[k],
            trimmed == split_on(list@, ',').map_values(|e: Seq<char>| trim(e)),
            texts(r@) == trimmed.take(i as int).filter(|e: Seq<char>| e.len() > 0),
        decreases pieces@.len() - i,
    {
        let entry = trim_chars(pieces[i].as_slice());
        proof {
            assert(trimmed[i as int] == entry@);
            assert(trimmed.take(i + 1).drop_last() =~= trimmed.take(i as int));
            reveal_with_fuel(Seq::<Seq<char>>::filter, 1);
        }
        if entry.len() > 0 {
            let s = string_from_chars(entry.as_slice());
            let ghost before = r@;
            r.push(s);
            assert(texts(r@) =~= texts(before).push(entry@));
        }
        i = i + 1;
    }
    assert(trimmed.take(i as int) =~= trimmed);
    r
}

/// Read the `FtrIO:BlueGreen` settings used to configure the default strategy chain: the current
/// slot and the known slots.
pub fn read_blue_green_settings(settings: &AppSettings) -> (r: (Option<String>, Vec<String>))
    ensures
        opt_view(r.0) == string_at(settings.root_view(), colon_path(current_slot_key())),
        texts(r.1@) == blue_green_known(settings.root_view()),
{
    let current_slot = settings.get_string("FtrIO:BlueGreen:CurrentSlot");
    let known_slots = match settings.get_string("FtrIO:BlueGreen:KnownSlots") {
        Some(list) => comma_list(list.as_str()),
        None => {
            let v: Vec<String> = Vec::new();
            assert(texts(v@) =~= Seq::<Seq<char>>::empty());
            v
        },
    };
    (current_slot, known_slots)
}

/// Whether the bootstrap settings ask for re-reading on every access (`FtrIO:ReloadOnChange`,
/// off unless set).
pub fn reload_on_change_setting(bootstrap: &AppSettings) -> (b: bool)
    ensures
        b == (bool_at(bootstrap.root_view(), colon_path("FtrIO:ReloadOnChange"@)) == Some(true)),
{
    match bootstrap.get_bool("FtrIO:ReloadOnChange") {
        Some(b) => b,
        None => false,
    }
}

/// A candidate environment name counts when it is not blank.
pub open spec fn usable_name(v: Option<Seq<char>>) -> bool {
    v is Some && trim(v->0).len() > 0
}

/// The environment name: `FtrIO:Environment` from the settings, else the first non-blank of
/// `ASPNETCORE_ENVIRONMENT`, `DOTNET_ENVIRONMENT` and `FTRIO_ENVIRONMENT` (in that order).
pub open spec fn environment_name(
    configured: Option<Seq<char>>,
    aspnetcore: Option<Seq<char>>,
    dotnet: Option<Seq<char>>,
    ftrio: Option<Seq<char>>,
) -> Option<Seq<char>> {
    if configured is Some {
        configured
    } else if usable_name(aspnetcore) {
        aspnetcore
    } else if usable_name(dotnet) {
        dotnet
    } else if usable_name(ftrio) {
        ftrio
    } else {
        None
    }
}

fn is_usable_name(v: &Option<String>) -> (b: bool)
    ensures
        b == usable_name(opt_view(*v)),
{
    match v {
        Some(s) => {
            let chars = chars_of(s.as_str());
            trim_chars(chars.as_slice()).len() > 0
        },
        None => false,
    }
}

/// Resolve the environment name from the bootstrap settings and the three environment variables
/// (as the application read them).
pub fn resolve_environment(
    bootstrap: &AppSettings,
    aspnetcore: Option<String>,
    dotnet: Option<String>,
    ftrio: Option<String>,
) -> (r: Option<String>)
    ensures
        opt_view(r) == environment_name(
            string_at(bootstrap.root_view(), colon_path("FtrIO:Environment"@)),
            opt_view(aspnetcore),
            opt_view(dotnet),
            opt_view(ftrio),
        ),
{
    let configured = bootstrap.get_string("FtrIO:Environment");
    if configured.is_some() {
        return configured;
    }
    if is_usable_name(&aspnetcore) {
        return aspnetcore;
    }
    if is_usable_name(&dotnet) {
        return dotnet;
    }
    if is_usable_name(&ftrio) {
        return ftrio;
    }
    None
}

/// The status of a toggle read from settings: on without configuration; the user's override
/// when there is one; otherwise the raw value read as a boolean, or a missing key.
pub open spec fn settings_status(
    root: Json,
    present: bool,
    key: Seq<char>,
    user: Option<Seq<char>>,
) -> Result<bool, ErrorModel> {
    if !present {
        Ok(true)
    } else {
        let overridden = match user {
            Some(u) => bool_at(root, override_path(key, u)),
            None => None,
        };
        match overridden {
            Some(b) => Ok(b),
            None => match string_at(root, toggle_path(key)) {
                Some(v) => boolean_outcome(v),
                None => does_not_exist(key),
            },
        }
    }
}

/// The boolean-only reader over loaded settings, also usable as a [`ToggleValueProvider`]
/// source for [`StrategyToggleParser`].
pub struct AppSettingsToggleParser {
    settings: AppSettings,
    environment: Option<String>,
    reload_on_change: bool,
    context_accessor: Option<Arc<dyn FtrIoContextAccessor>>,
}

impl AppSettingsToggleParser {
    pub closed spec fn root(&self) -> Json {
        self.settings.root_view()
    }

    pub closed spec fn is_present(&self) -> bool {
        self.settings.is_present()
    }

    pub closed spec fn has_accessor(&self) -> bool {
        self.context_accessor is Some
    }

    /// The context accessor the reader asks for the current user.
    pub closed spec fn accessor(&self) -> Option<Arc<dyn FtrIoContextAccessor>> {
        self.context_accessor
    }

    pub closed spec fn environment_view(&self) -> Option<Seq<char>> {
        opt_view(self.environment)
    }

    pub closed spec fn reloads(&self) -> bool {
        self.reload_on_change
    }

    /// A reader over the settings loaded for the resolved environment, remembering that
    /// environment and whether the settings are re-read on every access.
    pub fn new(settings: AppSettings, environment: Option<String>, reload_on_change: bool) -> (r:
        Self)
        ensures
            r.root() == settings.root_view(),
            r.is_present() == settings.is_present(),
            r.environment_view() == opt_view(environment),
            r.reloads() == reload_on_change,
            !r.has_accessor(),
    {
        AppSettingsToggleParser { settings, environment, reload_on_change, context_accessor: None }
    }

    /// Attach a context accessor so per-user overrides can be resolved.
    pub fn with_context_accessor(self, accessor: Arc<dyn FtrIoContextAccessor>) -> (r: Self)
        ensures
            r.root() == self.root(),
            r.is_present() == self.is_present(),
            r.environment_view() == self.environment_view(),
            r.reloads() == self.reloads(),
            r.has_accessor(),
    {
        let mut r = self;
        let wrapped = Some(accessor);
        r.context_accessor = wrapped;
        r
    }

    /// The resolved environment name, if any.
    pub fn environment(&self) -> (r: Option<&str>)
        ensures
            match r {
                Some(s) => self.environment_view() == Some(s@),
                None => self.environment_view() is None,
            },
    {
        match &self.environment {
            Some(e) => Some(e.as_str()),
            None => None,
        }
    }

    /// Whether the settings are re-read on every access.
    pub fn reload_on_change(&self) -> (b: bool)
        ensures
            b == self.reloads(),
    {
        self.reload_on_change
    }

    /// The loaded settings.
    pub fn settings(&self) -> (s: &AppSettings)
        ensures
            s.root_view() == self.root(),
            s.is_present() == self.is_present(),
    {
        &self.settings
    }

    /// The current user id from the attached context, if any.
    fn current_user_id(&self) -> (r: Option<String>)
        ensures
            !self.has_accessor() ==> r is None,
            accessor_known(self.accessor()) ==> opt_view(r) == accessor_user(self.accessor()),
    {
        match &self.context_accessor {
            Some(accessor) => accessor.get_user_id(),
            None => None,
        }
    }

    /// The current user's override for a toggle (the `ToggleParser` view of overrides).
    pub fn current_user_override(&self, toggle_key: &str) -> (r: Option<bool>)
        ensures
            exists|user: Option<Seq<char>>|
                (!self.has_accessor() ==> user is None) && r == #[trigger] user_override(
                    self.root(),
                    toggle_key@,
                    user,
                ),
            accessor_known(self.accessor()) ==> r == user_override(
                self.root(),
                toggle_key@,
                accessor_user(self.accessor()),
            ),
    {
        let user = self.current_user_id();
        let r = match &user {
            Some(u) => self.settings.get_override(toggle_key, u.as_str()),
            None => None,
        };
        assert(r == user_override(self.root(), toggle_key@, opt_view(user)));
        r
    }

    /// A given user's override for a toggle (the `ToggleValueProvider` view of overrides).
    pub fn override_for(&self, toggle_key: &str, user_id: &str) -> (r: Option<bool>)
        ensures
            r == bool_at(self.root(), override_path(toggle_key@, user_id@)),
    {
        self.settings.get_override(toggle_key, user_id)
    }

    /// The toggle's status for a given (possibly absent) user.
    pub fn status_for_user(&self, toggle_key: &str, user_id: Option<&str>) -> (r: Result<
        bool,
        ToggleError,
    >)
        ensures
            outcome(r) == settings_status(
                self.root(),
                self.is_present(),
                toggle_key@,
                match user_id {
                    Some(u) => Some(u@),
                    None => None,
                },
            ),
    {
        if !self.settings.present() {
            return Ok(true);
        }
        let overridden = match user_id {
            Some(user) => self.settings.get_override(toggle_key, user),
            None => None,
        };
        if let Some(b) = overridden {
            return Ok(b);
        }
        match self.settings.get_toggle_value(toggle_key) {
            Some(raw_value) => parse_boolean_value(raw_value.as_str()),
            None => Err(does_not_exist_error(toggle_key)),
        }
    }
}

impl ToggleParser for AppSettingsToggleParser {
    fn get_toggle_status(&self, toggle_key: &str) -> (r: Result<bool, ToggleError>)
        ensures
            exists|user: Option<Seq<char>>|
                (!self.has_accessor() ==> user is None) && outcome(r) == #[trigger] settings_status(
                    self.root(),
                    self.is_present(),
                    toggle_key@,
                    user,
                ),
            accessor_known(self.accessor()) ==> outcome(r) == settings_status(
                self.root(),
                self.is_present(),
                toggle_key@,
                accessor_user(self.accessor()),
            ),
    {
        if !self.settings.present() {
            assert(outcome(Ok(true)) == settings_status(self.root(), self.is_present(), toggle_key@, None));
            return Ok(true);
        }
        let user = self.current_user_id();
        let r = match &user {
            Some(u) => self.status_for_user(toggle_key, Some(u.as_str())),
            None => self.status_for_user(toggle_key, None),
        };
        assert(outcome(r) == settings_status(self.root(), self.is_present(), toggle_key@, opt_view(user)));
        r
    }

    fn parse_bool_value_from_source(&self, toggle_key: &str) -> (r: Result<bool, ToggleError>)
        ensures
            outcome(r) == settings_status(self.root(), self.is_present(), toggle_key@, None),
    {
        self.status_for_user(toggle_key, None)
    }

    /// The current user's override; `current_user_override` states what it is. This method
    /// carries no clause of its own: Verus turns a clause here into a call of `self.get_override`,
    /// which the compiler cannot tell from the `ToggleValueProvider` method of the same name.
    fn get_override(&self, toggle_key: &str) -> Option<bool> {
        self.current_user_override(toggle_key)
    }
}

/// A user's override in the settings.
pub open spec fn user_override(root: Json, key: Seq<char>, user: Option<Seq<char>>) -> Option<bool> {
    match user {
        Some(u) => bool_at(root, override_path(key, u)),
        None => None,
    }
}

impl ToggleValueProvider for AppSettingsToggleParser {
    fn get_raw_value(&self, toggle_key: &str) -> (r: Result<Option<String>, ToggleError>)
        ensures
            lookup_view(r) == Ok::<Option<Seq<char>>, ErrorModel>(
                string_at(self.root(), toggle_path(toggle_key@)),
            ),
    {
        Ok(self.settings.get_toggle_value(toggle_key))
    }

    fn config_present(&self) -> (b: bool)
        ensures
            b == self.is_present(),
    {
        self.settings.present()
    }

    fn get_override(&self, toggle_key: &str, user_id: &str) -> Option<bool>
        returns
            bool_at(self.root(), override_path(toggle_key@, user_id@)),
    {
        self.override_for(toggle_key, user_id)
    }
}

} // verus!
