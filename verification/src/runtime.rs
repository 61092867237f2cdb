//! How the library is wired up and called: the fluent builder, the gated-call API, the slot that
//! holds the ambient parser, and the staging of toggle writes.

use std::sync::Arc;
use vstd::prelude::*;
use vstd::string::*;

use crate::config::{
    entries_view, exact_index, find_exact_key, lemma_entries_view_ext, toggles_word, AppSettings,
    ConfigValue, Json,
};
use crate::context::FtrIoContextAccessor;
use crate::error::{ToggleError, ToggleParserBuilderError};
use crate::parsing::{chain_view, AppSettingsToggleParser, StrategyToggleParser, ToggleParser, ValueSource};
use crate::providers::ToggleValueProvider;
use crate::strategies::blue_green::{default_slots, texts, BlueGreenStrategy};
use crate::strategies::{
    AbTestStrategy, AttributeRuleStrategy, PercentageRolloutStrategy, Strategy, StrategyModel,
    ToggleDecisionStrategy, UserTargetingStrategy,
};
use crate::text::{chars_eq, chars_of};

verus! {

// ---------------------------------------------------------------------------------------------
// Builder
// ---------------------------------------------------------------------------------------------

pub open spec fn default_config_path() -> Seq<char> {
    "appsettings.json"@
}

/// Fluent builder for a [`StrategyToggleParser`]. Strategies are added in call order;
/// [`crate::strategies::BooleanStrategy`] is appended last by the parser itself.
pub struct ToggleParserBuilder {
    strategies: Vec<Strategy>,
    context_accessor: Option<Arc<dyn FtrIoContextAccessor>>,
    source: Option<Box<dyn ToggleValueProvider>>,
    base_path: Option<String>,
    settings: Option<AppSettings>,
    overrides_requested: bool,
}

impl ToggleParserBuilder {
    /// The strategies added so far, in call order.
    pub closed spec fn chain(&self) -> Seq<StrategyModel> {
        chain_view(self.strategies@)
    }

    pub closed spec fn has_accessor(&self) -> bool {
        self.context_accessor is Some
    }

    pub closed spec fn has_provider(&self) -> bool {
        self.source is Some
    }

    /// The context accessor set so far.
    pub closed spec fn accessor(&self) -> Option<Arc<dyn FtrIoContextAccessor>> {
        self.context_accessor
    }

    /// The value source set so far.
    pub closed spec fn provider(&self) -> &Option<Box<dyn ToggleValueProvider>> {
        &self.source
    }

    pub closed spec fn wants_overrides(&self) -> bool {
        self.overrides_requested
    }

    /// The settings handed in for the file source, by their content and presence.
    pub closed spec fn loaded_settings(&self) -> Option<(Json, bool)> {
        match self.settings {
            Some(s) => Some((s.root_view(), s.is_present())),
            None => None,
        }
    }

    pub closed spec fn configured_path(&self) -> Option<Seq<char>> {
        match self.base_path {
            Some(p) => Some(p@),
            None => None,
        }
    }

    /// Start a new builder: no strategies, no accessor, no provider, no overrides.
    pub fn new() -> (r: Self)
        ensures
            r.chain() == Seq::<StrategyModel>::empty(),
            !r.has_accessor(),
            !r.has_provider(),
            !r.wants_overrides(),
            r.configured_path() is None,
            r.loaded_settings() is None,
    {
        let r = ToggleParserBuilder {
            strategies: Vec::new(),
            context_accessor: None,
            source: None,
            base_path: None,
            settings: None,
            overrides_requested: false,
        };
        assert(r.chain() =~= Seq::<StrategyModel>::empty());
        r
    }

    fn push_strategy(self, strategy: Strategy) -> (r: Self)
        ensures
            r.chain() == self.chain().push(strategy@),
            r.has_accessor() == self.has_accessor(),
            r.accessor() == self.accessor(),
            r.has_provider() == self.has_provider(),
            r.provider() == self.provider(),
            r.wants_overrides() == self.wants_overrides(),
            r.configured_path() == self.configured_path(),
            r.loaded_settings() == self.loaded_settings(),
    {
        let mut r = self;
        let ghost before = r.strategies@;
        r.strategies.push(strategy);
        assert(chain_view(r.strategies@) =~= chain_view(before).push(strategy@));
        r
    }

    /// Add the percentage rollout strategy.
    pub fn with_percentage_rollout(self) -> (r: Self)
        ensures
            r.chain() == self.chain().push(StrategyModel::Percentage),
            r.has_accessor() == self.has_accessor(),
            r.accessor() == self.accessor(),
            r.has_provider() == self.has_provider(),
            r.provider() == self.provider(),
            r.wants_overrides() == self.wants_overrides(),
            r.configured_path() == self.configured_path(),
            r.loaded_settings() == self.loaded_settings(),
    {
        self.push_strategy(Strategy::Percentage(PercentageRolloutStrategy))
    }

    /// Add the blue-green strategy configured with the current slot and known slots (an empty
    /// list means `blue`/`green`).
    pub fn with_blue_green(self, current_slot: Option<String>, known_slots: Vec<String>) -> (r:
        Self)
        ensures
            r.chain() == self.chain().push(
                StrategyModel::BlueGreen(
                    match current_slot {
                        Some(c) => Some(c@),
                        None => None,
                    },
                    if known_slots@.len() == 0 {
                        default_slots()
                    } else {
                        texts(known_slots@)
                    },
                ),
            ),
            r.has_accessor() == self.has_accessor(),
            r.accessor() == self.accessor(),
            r.has_provider() == self.has_provider(),
            r.provider() == self.provider(),
            r.wants_overrides() == self.wants_overrides(),
            r.configured_path() == self.configured_path(),
            r.loaded_settings() == self.loaded_settings(),
    {
        let strategy = BlueGreenStrategy::new(current_slot, known_slots);
        self.push_strategy(Strategy::BlueGreen(strategy))
    }

    /// Add the context-aware strategies: user targeting, attribute rules, and A/B testing.
    pub fn with_context_strategies(self) -> (r: Self)
        ensures
            r.chain() == self.chain() + seq![
                StrategyModel::UserTargeting,
                StrategyModel::AttributeRule,
                StrategyModel::AbTest,
            ],
            r.has_accessor() == self.has_accessor(),
            r.accessor() == self.accessor(),
            r.has_provider() == self.has_provider(),
            r.provider() == self.provider(),
            r.wants_overrides() == self.wants_overrides(),
            r.configured_path() == self.configured_path(),
            r.loaded_settings() == self.loaded_settings(),
    {
        let r = self.push_strategy(Strategy::UserTargeting(UserTargetingStrategy));
        let r = r.push_strategy(Strategy::AttributeRule(AttributeRuleStrategy));
        let r = r.push_strategy(Strategy::AbTest(AbTestStrategy));
        assert(r.chain() =~= self.chain() + seq![
            StrategyModel::UserTargeting,
            StrategyModel::AttributeRule,
            StrategyModel::AbTest,
        ]);
        r
    }

    /// Add a strategy supplied by the application.
    pub fn with_strategy(self, strategy: Box<dyn ToggleDecisionStrategy>) -> (r: Self)
        ensures
            r.chain() == self.chain().push(StrategyModel::Custom),
            r.has_accessor() == self.has_accessor(),
            r.accessor() == self.accessor(),
            r.has_provider() == self.has_provider(),
            r.provider() == self.provider(),
            r.wants_overrides() == self.wants_overrides(),
            r.configured_path() == self.configured_path(),
            r.loaded_settings() == self.loaded_settings(),
    {
        let link = Strategy::Custom(strategy);
        self.push_strategy(link)
    }

    /// Enable per-user overrides. Requires a context accessor; `build` fails otherwise.
    pub fn with_overrides(self) -> (r: Self)
        ensures
            r.chain() == self.chain(),
            r.has_accessor() == self.has_accessor(),
            r.accessor() == self.accessor(),
            r.has_provider() == self.has_provider(),
            r.provider() == self.provider(),
            r.wants_overrides(),
            r.configured_path() == self.configured_path(),
            r.loaded_settings() == self.loaded_settings(),
    {
        let mut r = self;
        r.overrides_requested = true;
        r
    }

    /// Set the context accessor (user id + attributes) used by overrides and context strategies.
    pub fn with_context_accessor(self, accessor: Arc<dyn FtrIoContextAccessor>) -> (r: Self)
        ensures
            r.chain() == self.chain(),
            r.has_accessor(),
            r.accessor() == Some(accessor),
            r.has_provider() == self.has_provider(),
            r.provider() == self.provider(),
            r.wants_overrides() == self.wants_overrides(),
            r.configured_path() == self.configured_path(),
            r.loaded_settings() == self.loaded_settings(),
    {
        let mut r = self;
        let wrapped = Some(accessor);
        r.context_accessor = wrapped;
        r
    }

    /// Set an explicit value source.
    pub fn with_provider(self, source: Box<dyn ToggleValueProvider>) -> (r: Self)
        ensures
            r.chain() == self.chain(),
            r.has_accessor() == self.has_accessor(),
            r.accessor() == self.accessor(),
            r.has_provider(),
            r.provider() == Some(source),
            r.wants_overrides() == self.wants_overrides(),
            r.configured_path() == self.configured_path(),
            r.loaded_settings() == self.loaded_settings(),
    {
        let mut r = self;
        let wrapped = Some(source);
        r.source = wrapped;
        r
    }

    /// Set the path of the `appsettings.json` file source.
    pub fn with_base_path(self, base_path: String) -> (r: Self)
        ensures
            r.chain() == self.chain(),
            r.has_accessor() == self.has_accessor(),
            r.accessor() == self.accessor(),
            r.has_provider() == self.has_provider(),
            r.provider() == self.provider(),
            r.wants_overrides() == self.wants_overrides(),
            r.configured_path() == Some(base_path@),
            r.loaded_settings() == self.loaded_settings(),
    {
        let mut r = self;
        r.base_path = Some(base_path);
        r
    }

    /// Hand in the settings read from the file source (used when no provider is set).
    pub fn with_settings(self, settings: AppSettings) -> (r: Self)
        ensures
            r.chain() == self.chain(),
            r.has_accessor() == self.has_accessor(),
            r.accessor() == self.accessor(),
            r.has_provider() == self.has_provider(),
            r.provider() == self.provider(),
            r.wants_overrides() == self.wants_overrides(),
            r.configured_path() == self.configured_path(),
            r.loaded_settings() == Some((settings.root_view(), settings.is_present())),
    {
        let mut r = self;
        r.settings = Some(settings);
        r
    }

    /// The path of the file source: the configured one, or `appsettings.json`.
    pub fn base_path(&self) -> (p: String)
        ensures
            p@ == match self.configured_path() {
                Some(c) => c,
                None => default_config_path(),
            },
    {
        match &self.base_path {
            Some(p) => p.clone(),
            None => String::from_str("appsettings.json"),
        }
    }

    /// Whether a value source was set explicitly.
    pub fn has_explicit_provider(&self) -> (b: bool)
        ensures
            b == self.has_provider(),
    {
        self.source.is_some()
    }

    /// Assemble the [`StrategyToggleParser`]. Fails exactly when overrides were requested
    /// without a context accessor, with the message naming that requirement. Without a provider
    /// the parser reads the settings handed in with `with_settings`: the file at `base_path()`
    /// is read by the caller, which hands its content in (no settings: no configuration, so every
    /// toggle is on).
    pub fn build(self) -> (r: Result<StrategyToggleParser, ToggleParserBuilderError>)
        ensures
            r is Err <==> (self.wants_overrides() && !self.has_accessor()),
            r matches Err(e) ==> e.text()
                == "with_overrides() requires a context accessor to key overrides by user"@,
            r matches Ok(p) ==> p.accessor() == self.accessor() && match self.provider() {
                Some(s) => *p.value_source() == ValueSource::Custom(*s),
                None => *p.value_source() is Settings,
            },
            r matches Ok(p) ==> p.chain() == self.chain().push(StrategyModel::Boolean)
                && p.has_accessor() == self.has_accessor() && p.well_formed() && p.source_settings()
                == if self.has_provider() {
                None
            } else {
                match self.loaded_settings() {
                    Some(v) => Some(v),
                    None => Some((Json::Object(Seq::empty()), false)),
                }
            },
    {
        if self.overrides_requested && self.context_accessor.is_none() {
            return Err(ToggleParserBuilderError::overrides_without_context());
        }
        let ToggleParserBuilder {
            strategies,
            context_accessor,
            source,
            base_path,
            settings,
            overrides_requested,
        } = self;
        match source {
            Some(s) => Ok(StrategyToggleParser::assemble(ValueSource::Custom(s), strategies, context_accessor)),
            None => {
                let loaded = match settings {
                    Some(s) => s,
                    None => AppSettings::absent(),
                };
                Ok(
                    StrategyToggleParser::over_settings(
                        AppSettingsToggleParser::new(loaded, None, false),
                        strategies,
                        context_accessor,
                    ),
                )
            },
        }
    }
}

impl Default for ToggleParserBuilder {
    fn default() -> (r: Self)
        ensures
            r.chain() == Seq::<StrategyModel>::empty(),
            !r.has_accessor(),
            !r.has_provider(),
            !r.wants_overrides(),
            r.configured_path() is None,
            r.loaded_settings() is None,
    {
        ToggleParserBuilder::new()
    }
}

// ---------------------------------------------------------------------------------------------
// Gated calls
// ---------------------------------------------------------------------------------------------

/// What a gated call returns for a toggle status: the error when the status is an error, the
/// closure's result when the toggle is on, `T::default()` when it is off.
pub open spec fn gated<T: Default, F: FnOnce() -> T>(
    status: Result<bool, ToggleError>,
    closure: F,
    r: Result<T, ToggleError>,
) -> bool {
    match status {
        Err(e) => r == Err::<T, ToggleError>(e),
        Ok(true) => r matches Ok(v) && call_ensures(closure, (), v),
        Ok(false) => r matches Ok(v) && call_ensures(T::default, (), v),
    }
}

/// Run `closure` when `status` says the toggle is on; otherwise `T::default()`; an error status
/// is passed on and the closure does not run.
pub fn gate<T: Default, F: FnOnce() -> T>(status: Result<bool, ToggleError>, closure: F) -> (r:
    Result<T, ToggleError>)
    requires
        closure.requires(()),
    ensures
        gated(status, closure, r),
{
    match status {
        Err(e) => Err(e),
        Ok(true) => Ok(closure()),
        Ok(false) => Ok(T::default()),
    }
}

/// `Result`-returning gated call: resolve `toggle_key` with `parser`, then run `closure` when the
/// toggle is on, otherwise return `T::default()`.
pub fn try_execute_if_toggle_on<T: Default, F: FnOnce() -> T>(
    parser: &dyn ToggleParser,
    closure: F,
    toggle_key: &str,
) -> (r: Result<T, ToggleError>)
    requires
        closure.requires(()),
    ensures
        exists|status: Result<bool, ToggleError>| #[trigger] gated(status, closure, r),
{
    let status = parser.get_toggle_status(toggle_key);
    let ghost s = status;
    let r = gate(status, closure);
    assert(gated(s, closure, r));
    r
}

// ---------------------------------------------------------------------------------------------
// The ambient parser slot
// ---------------------------------------------------------------------------------------------

/// Moves a boxed parser behind an `Arc` with std's `Arc::from`, handed back inside `Some`: the
/// `Arc` holds the parser that was in the box.
#[verifier::external_body]
fn shared_parser(parser: Option<Box<dyn ToggleParser>>) -> (r: Option<Arc<dyn ToggleParser>>)
    requires
        parser is Some,
    ensures
        r is Some,
        &*r.unwrap() == &*parser.unwrap(),
{
    let shared = Arc::<dyn ToggleParser>::from(parser.unwrap());
    let wrapped = Some(shared);
    wrapped
}

/// Holds the ambient parser: replaceable, resettable, and lazily filled with the conventional
/// default on first use.
pub struct ToggleParserProvider {
    parser: Option<Arc<dyn ToggleParser>>,
}

impl ToggleParserProvider {
    /// The configured parser, if any.
    pub closed spec fn current_parser(&self) -> Option<Arc<dyn ToggleParser>> {
        self.parser
    }

    /// An empty slot.
    pub fn new() -> (r: Self)
        ensures
            r.current_parser() is None,
    {
        ToggleParserProvider { parser: None }
    }

    /// Replace the ambient parser.
    pub fn configure(&mut self, parser: Arc<dyn ToggleParser>)
        ensures
            final(self).current_parser() == Some(parser),
    {
        let wrapped = Some(parser);
        self.parser = wrapped;
    }

    /// Empty the slot, so the next `instance` builds the default again.
    pub fn reset(&mut self)
        ensures
            final(self).current_parser() is None,
    {
        self.parser = None;
    }

    /// The configured parser, without filling the slot.
    pub fn current(&self) -> (r: Option<Arc<dyn ToggleParser>>)
        ensures
            r == self.current_parser(),
    {
        match &self.parser {
            Some(p) => {
                let shared = p.clone();
                let wrapped = Some(shared);
                wrapped
            },
            None => None,
        }
    }

    /// The ambient parser; when none is configured, `default` is installed first (and otherwise
    /// dropped). The parser comes back inside `Some`, which is always present.
    pub fn instance(&mut self, default: Box<dyn ToggleParser>) -> (r: Option<Arc<dyn ToggleParser>>)
        ensures
            r is Some,
            r == final(self).current_parser(),
            old(self).current_parser() is None ==> &*r.unwrap() == &*default,
            old(self).current_parser() is Some ==> final(self).current_parser() == old(
                self,
            ).current_parser(),
    {
        if self.parser.is_none() {
            let given = Some(default);
            assert(&*given.unwrap() == &*default);
            let installed = shared_parser(given);
            self.parser = installed;
            let r = self.current();
            assert(r == installed);
            assert(r.unwrap() == installed.unwrap());
            assert(&*r.unwrap() == &*installed.unwrap());
            return r;
        }
        self.current()
    }
}

// ---------------------------------------------------------------------------------------------
// Staged toggle writes
// ---------------------------------------------------------------------------------------------

/// An I/O error, as std reports it; the library only passes it on.
#[verifier::external_type_specification]
#[verifier::external_body]
pub struct ExIoError(std::io::Error);

/// Stages toggle writes and flushes them to the settings file.
pub trait ToggleBuffer: Send + Sync {
    /// Stage a toggle value; the latest value staged for a key before the next flush wins.
    fn stage_toggle(&self, toggle_key: &str, value: bool);

    /// Write everything staged to the settings file now, atomically.
    fn flush(&self) -> Result<(), std::io::Error>;
}

/// The staged values, by key, in staging order.
pub open spec fn staged_view(entries: Seq<(String, bool)>) -> Seq<(Seq<char>, bool)> {
    entries.map_values(|e: (String, bool)| (e.0@, e.1))
}

/// Keys occur at most once.
pub open spec fn unique_keys(entries: Seq<(Seq<char>, bool)>) -> bool {
    forall|i: int, j: int|
        0 <= i < entries.len() && 0 <= j < entries.len() && i != j ==> #[trigger] entries[i].0
            != #[trigger] entries[j].0
}

/// The value staged for a key, if any.
pub open spec fn staged_value(entries: Seq<(Seq<char>, bool)>, key: Seq<char>) -> Option<bool> {
    if exists|i: int| 0 <= i < entries.len() && #[trigger] entries[i].0 == key {
        Some(entries[choose|i: int| 0 <= i < entries.len() && #[trigger] entries[i].0 == key].1)
    } else {
        None
    }
}

/// Toggle writes waiting for the next flush: the latest value staged for a key wins.
pub struct StagedToggles {
    entries: Vec<(String, bool)>,
}

impl StagedToggles {
    pub closed spec fn staged(&self) -> Seq<(Seq<char>, bool)> {
        staged_view(self.entries@)
    }

    pub closed spec fn well_formed(&self) -> bool {
        unique_keys(self.staged())
    }

    /// Nothing staged.
    pub fn new() -> (r: Self)
        ensures
            r.staged() == Seq::<(Seq<char>, bool)>::empty(),
            r.well_formed(),
    {
        let r = StagedToggles { entries: Vec::new() };
        assert(r.staged() =~= Seq::<(Seq<char>, bool)>::empty());
        r
    }

    /// Stage a value for a key; it replaces any value staged for that key before.
    pub fn stage(&mut self, toggle_key: &str, value: bool)
        requires
            old(self).well_formed(),
        ensures
            final(self).well_formed(),
            staged_value(final(self).staged(), toggle_key@) == Some(value),
            forall|k: Seq<char>|
                k != toggle_key@ ==> #[trigger] staged_value(final(self).staged(), k)
                    == staged_value(old(self).staged(), k),
    {
        let key = chars_of(toggle_key);
        let n = self.entries.len();
        let ghost before = self.staged();
        let mut i: usize = 0;
        while i < n
            invariant
                n == self.entries@.len(),
                i <= n,
                before == self.staged(),
                before == old(self).staged(),
                before.len() == n,
                unique_keys(before),
                key@ == toggle_key@,
                forall|j: int| 0 <= j < i ==> #[trigger] before[j].0 != toggle_key@,
            decreases n - i,
        {
            let existing = chars_of(self.entries[i].0.as_str());
            assert(before[i as int].0 == self.entries@[i as int].0@);
            if chars_eq(existing.as_slice(), key.as_slice()) {
                let (old_key, _) = self.entries.remove(i);
                self.entries.insert(i, (old_key, value));
                proof {
                    let after = self.staged();
                    assert(after =~= before.update(i as int, (toggle_key@, value)));
                    assert forall|x: int, y: int|
                        0 <= x < after.len() && 0 <= y < after.len() && x != y implies #[trigger] after[x].0
                            != #[trigger] after[y].0 by {
                        assert(after[x].0 == before[x].0);
                        assert(after[y].0 == before[y].0);
                    }
                    lemma_staged_value_at(after, i as int);
                    assert(before[i as int].0 == toggle_key@);
                    lemma_same_keys_other_values(before, after, i as int, toggle_key@);
                    assert(forall|k: Seq<char>|
                        k != toggle_key@ ==> #[trigger] staged_value(self.staged(), k)
                            == staged_value(before, k));
                }
                return;
            }
            i = i + 1;
        }
        self.entries.push((String::from_str(toggle_key), value));
        proof {
            let after = self.staged();
            assert(after =~= before.push((toggle_key@, value)));
            assert forall|x: int, y: int|
                0 <= x < after.len() && 0 <= y < after.len() && x != y implies #[trigger] after[x].0
                    != #[trigger] after[y].0 by {
                if x < n && y < n {
                    assert(after[x] == before[x]);
                    assert(after[y] == before[y]);
                } else if x < n {
                    assert(after[x] == before[x]);
                } else {
                    assert(after[y] == before[y]);
                }
            }
            lemma_staged_value_at(after, n as int);
            assert forall|k: Seq<char>| k != toggle_key@ implies #[trigger] staged_value(after, k)
                == staged_value(before, k) by {
                if exists|j: int| 0 <= j < before.len() && #[trigger] before[j].0 == k {
                    let j = choose|j: int| 0 <= j < before.len() && #[trigger] before[j].0 == k;
                    lemma_staged_value_at(before, j);
                    assert(after[j] == before[j]);
                    lemma_staged_value_at(after, j);
                } else {
                    assert forall|j: int| 0 <= j < after.len() implies #[trigger] after[j].0 != k by {
                        if j < n {
                            assert(after[j] == before[j]);
                        }
                    }
                }
            }
        }
    }

    /// Whether nothing is staged.
    pub fn is_empty(&self) -> (b: bool)
        ensures
            b == (self.staged().len() == 0),
    {
        self.entries.len() == 0
    }

    /// Take everything staged, leaving nothing staged.
    pub fn drain(&mut self) -> (r: Vec<(String, bool)>)
        ensures
            staged_view(r@) == old(self).staged(),
            final(self).staged() == Seq::<(Seq<char>, bool)>::empty(),
            final(self).well_formed(),
    {
        let mut taken: Vec<(String, bool)> = Vec::new();
        std::mem::swap(&mut taken, &mut self.entries);
        assert(self.staged() =~= Seq::<(Seq<char>, bool)>::empty());
        taken
    }
}

/// With unique keys, the value staged for the key at position `j` is the one stored there.
pub(crate) proof fn lemma_staged_value_at(entries: Seq<(Seq<char>, bool)>, j: int)
    requires
        unique_keys(entries),
        0 <= j < entries.len(),
    ensures
        staged_value(entries, entries[j].0) == Some(entries[j].1),
{
    let k = entries[j].0;
    assert(exists|i: int| 0 <= i < entries.len() && #[trigger] entries[i].0 == k);
    let i = choose|i: int| 0 <= i < entries.len() && #[trigger] entries[i].0 == k;
    if i != j {
        assert(entries[i].0 != entries[j].0);
    }
}

/// Two staged lists with the same keys that differ only at position `at` (whose key is `key`)
/// agree on every other key.
proof fn lemma_same_keys_other_values(
    a: Seq<(Seq<char>, bool)>,
    b: Seq<(Seq<char>, bool)>,
    at: int,
    key: Seq<char>,
)
    requires
        unique_keys(a),
        unique_keys(b),
        a.len() == b.len(),
        0 <= at < a.len(),
        a[at].0 == key,
        forall|t: int| 0 <= t < a.len() ==> #[trigger] a[t].0 == b[t].0,
        forall|t: int| 0 <= t < a.len() && t != at ==> #[trigger] a[t] == b[t],
    ensures
        forall|k: Seq<char>| k != key ==> #[trigger] staged_value(b, k) == staged_value(a, k),
{
    assert forall|k: Seq<char>| k != key implies #[trigger] staged_value(b, k) == staged_value(a, k) by {
        if exists|j: int| 0 <= j < a.len() && #[trigger] a[j].0 == k {
            let j = choose|j: int| 0 <= j < a.len() && #[trigger] a[j].0 == k;
            assert(j != at);
            assert(a[j] == b[j]);
            lemma_staged_value_at(a, j);
            lemma_staged_value_at(b, j);
        } else {
            assert forall|j: int| 0 <= j < b.len() implies #[trigger] b[j].0 != k by {
                assert(a[j].0 == b[j].0);
            }
        }
    }
}

/// `entries` with `key` set to `value`: replaced in place when present, appended otherwise.
pub open spec fn set_entry(entries: Seq<(Seq<char>, Json)>, key: Seq<char>, value: Json) -> Seq<
    (Seq<char>, Json),
> {
    let i = exact_index(entries, key);
    if 0 <= i < entries.len() {
        entries.update(i, (entries[i].0, value))
    } else {
        entries.push((key, value))
    }
}

/// The `Toggles` section with the staged values written in, in staging order.
pub open spec fn write_staged(section: Seq<(Seq<char>, Json)>, staged: Seq<(Seq<char>, bool)>) -> Seq<
    (Seq<char>, Json),
>
    decreases staged.len(),
{
    if staged.len() == 0 {
        section
    } else {
        set_entry(
            write_staged(section, staged.drop_last()),
            staged.last().0,
            Json::Bool(staged.last().1),
        )
    }
}

/// The entries of an object value; nothing for any other value.
pub open spec fn object_entries(v: Json) -> Seq<(Seq<char>, Json)> {
    match v {
        Json::Object(e) => e,
        _ => Seq::empty(),
    }
}

/// The file content after a flush: a non-object root becomes an empty object; its `Toggles`
/// section (created when absent, replaced when not an object) receives the staged values; every
/// other section is kept.
pub open spec fn flushed(root: Json, staged: Seq<(Seq<char>, bool)>) -> Json {
    let top = object_entries(root);
    let i = exact_index(top, toggles_word());
    let section = if 0 <= i < top.len() {
        object_entries(top[i].1)
    } else {
        Seq::empty()
    };
    Json::Object(set_entry(top, toggles_word(), Json::Object(write_staged(section, staged))))
}

/// Set `key` to `value` in object entries.
fn set_entry_exec(entries: &mut Vec<(String, ConfigValue)>, key: String, value: ConfigValue)
    ensures
        entries_view(final(entries)@) == set_entry(entries_view(old(entries)@), key@, value@),
{
    let key_chars = chars_of(key.as_str());
    let ghost before = entries_view(entries@);
    proof {
        crate::config::lemma_entries_view(entries@);
    }
    match find_exact_key(entries, key_chars.as_slice()) {
        Some(i) => {
            let (old_key, _) = entries.remove(i);
            entries.insert(i, (old_key, value));
            proof {
                lemma_entries_view_ext(entries@, set_entry(before, key@, value@));
            }
        },
        None => {
            entries.push((key, value));
            proof {
                lemma_entries_view_ext(entries@, set_entry(before, key@, value@));
            }
        },
    }
}

/// Exact-key lookup depends only on the keys.
pub(crate) proof fn lemma_exact_index_keys(a: Seq<(Seq<char>, Json)>, b: Seq<(Seq<char>, Json)>, key: Seq<char>)
    requires
        a.len() == b.len(),
        forall|t: int| 0 <= t < a.len() ==> #[trigger] a[t].0 == b[t].0,
    ensures
        exact_index(a, key) == exact_index(b, key),
    decreases a.len(),
{
    if a.len() > 0 {
        lemma_exact_index_keys(a.drop_last(), b.drop_last(), key);
    }
}

/// Merge staged toggles into the `Toggles` section of a configuration root, preserving every
/// other section.
pub fn apply_staged(root: ConfigValue, staged: &Vec<(String, bool)>) -> (r: ConfigValue)
    ensures
        r@ == flushed(root@, staged_view(staged@)),
{
    let ghost root_view = root@;
    let mut top: Vec<(String, ConfigValue)> = match root {
        ConfigValue::Object(entries) => entries,
        _ => Vec::new(),
    };
    let ghost top0 = entries_view(top@);
    assert(top0 == object_entries(root_view)) by {
        if !(root_view is Object) {
            assert(entries_view(top@) =~= Seq::<(Seq<char>, Json)>::empty());
        }
    }
    let toggles_key: Vec<char> = vec!['T', 'o', 'g', 'g', 'l', 'e', 's'];
    assert(toggles_key@ =~= toggles_word());
    let ghost at = exact_index(top0, toggles_word());
    let mut section: Vec<(String, ConfigValue)> = match find_exact_key(&top, toggles_key.as_slice()) {
        Some(i) => {
            proof {
                crate::config::lemma_entries_view(top@);
            }
            let (key, existing) = top.remove(i);
            top.insert(i, (key, ConfigValue::Null));
            proof {
                crate::config::lemma_entries_view(top@);
                lemma_exact_index_keys(entries_view(top@), top0, toggles_word());
                assert(existing@ == top0[i as int].1);
            }
            match existing {
                ConfigValue::Object(entries) => entries,
                _ => {
                    let empty: Vec<(String, ConfigValue)> = Vec::new();
                    assert(entries_view(empty@) =~= Seq::<(Seq<char>, Json)>::empty());
                    empty
                },
            }
        },
        None => {
            let empty: Vec<(String, ConfigValue)> = Vec::new();
            assert(entries_view(empty@) =~= Seq::<(Seq<char>, Json)>::empty());
            empty
        },
    };
    let ghost section0 = entries_view(section@);
    assert(section0 == (if 0 <= at < top0.len() {
        object_entries(top0[at].1)
    } else {
        Seq::<(Seq<char>, Json)>::empty()
    }));
    let ghost sv = staged_view(staged@);
    let mut j: usize = 0;
    assert(sv.take(0) =~= Seq::<(Seq<char>, bool)>::empty());
    while j < staged.len()
        invariant
            j <= staged@.len(),
            sv == staged_view(staged@),
            entries_view(section@) == write_staged(section0, sv.take(j as int)),
        decreases staged@.len() - j,
    {
        let key = staged[j].0.clone();
        let value = staged[j].1;
        set_entry_exec(&mut section, key, ConfigValue::Bool(value));
        proof {
            assert(sv.take(j + 1).drop_last() =~= sv.take(j as int));
            assert(sv.take(j + 1).last() == (staged@[j as int].0@, value));
        }
        j = j + 1;
    }
    assert(sv.take(j as int) =~= sv);
    let ghost top1 = entries_view(top@);
    set_entry_exec(&mut top, String::from_str("Toggles"), ConfigValue::Object(section));
    proof {
        reveal_strlit("Toggles");
        assert("Toggles"@ =~= toggles_word());
        if 0 <= at < top0.len() {
            assert(top1 =~= top0.update(at, (top0[at].0, Json::Null)));
        } else {
            assert(top1 == top0);
        }
        lemma_exact_index_keys(top1, top0, toggles_word());
        let written = Json::Object(write_staged(section0, sv));
        assert(set_entry(top1, toggles_word(), written) =~= set_entry(top0, toggles_word(), written));
    }
    let r = ConfigValue::Object(top);
    assert(r@ == Json::Object(entries_view(top@)));
    r
}

// ---------------------------------------------------------------------------------------------
// The background flush schedule
// ---------------------------------------------------------------------------------------------

/// What the background flush worker does after a tick.
#[derive(Debug, Clone, Copy, PartialEq, Eq, Structural)]
pub enum FlushStep {
    /// The buffer is being dropped: the worker ends.
    Stop,
    /// Less than a full interval has passed since the last flush.
    Wait,
    /// A full interval has passed: flush the staged writes (skipped while a writer holds them).
    Flush,
}

/// How long the flush worker sleeps between ticks, in nanoseconds: the flush interval, but no
/// more than 25 ms, so that dropping the buffer is noticed promptly.
pub fn flush_tick_nanos(interval: u128) -> (tick: u128)
    ensures
        tick == if interval < 25_000_000 {
            interval
        } else {
            25_000_000
        },
{
    if interval < 25_000_000 {
        interval
    } else {
        25_000_000
    }
}

/// One tick of the flush worker, with times in nanoseconds: when the buffer is being dropped the
/// worker stops; otherwise the tick adds to the time since the last flush, and once that reaches
/// the interval the worker flushes and the time starts again from zero.
pub fn flush_tick(elapsed: u128, tick: u128, interval: u128, stopping: bool) -> (r: (FlushStep, u128))
    requires
        elapsed + tick <= u128::MAX,
    ensures
        stopping ==> r == (FlushStep::Stop, elapsed),
        !stopping && elapsed + tick < interval ==> r == (FlushStep::Wait, (elapsed + tick) as u128),
        !stopping && elapsed + tick >= interval ==> r == (FlushStep::Flush, 0u128),
{
    if stopping {
        return (FlushStep::Stop, elapsed);
    }
    let next = elapsed + tick;
    if next < interval {
        (FlushStep::Wait, next)
    } else {
        (FlushStep::Flush, 0)
    }
}

} // verus!
