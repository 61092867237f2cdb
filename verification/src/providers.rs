//! Value sources: the `ToggleValueProvider` trait and its implementations.
//!
//! A source yields the raw string for a toggle key (before any strategy runs), reports whether any
//! backing configuration exists at all (which drives the offline-safe default), and optionally
//! resolves per-user overrides.

use vstd::prelude::*;
use vstd::string::*;

use crate::config::{
    bool_at, override_path, string_at, toggle_path, AppSettings, ConfigValue, Json,
};
use crate::context::opt_view;
use crate::error::{ErrorModel, ToggleError};
use crate::text::{chars_eq, chars_of};

verus! {

/// A source of raw toggle values.
pub trait ToggleValueProvider: Send + Sync {
    /// The raw string value for a key, or `None` if the key is absent from this source. `Err` is
    /// reserved for a genuine read failure, not mere absence.
    fn get_raw_value(&self, toggle_key: &str) -> Result<Option<String>, ToggleError>;

    /// Whether any backing configuration exists at all. `true` unless a source says otherwise.
    fn config_present(&self) -> (b: bool)
        default_ensures
            b,
    {
        true
    }

    /// A per-user override for this toggle, if the source supports overrides. `None` unless a
    /// source says otherwise.
    fn get_override(&self, toggle_key: &str, user_id: &str) -> (r: Option<bool>)
        default_ensures
            r is None,
    {
        None
    }
}

/// A raw-value lookup with its text and error taken by their views.
pub open spec fn lookup_view(r: Result<Option<String>, ToggleError>) -> Result<
    Option<Seq<char>>,
    ErrorModel,
> {
    match r {
        Ok(v) => Ok(opt_view(v)),
        Err(e) => Err(e@),
    }
}

// ---------------------------------------------------------------------------------------------
// Environment variables
// ---------------------------------------------------------------------------------------------

pub open spec fn variable_prefix() -> Seq<char> {
    seq!['F', 'T', 'R', 'I', 'O', '_', '_', 'T', 'o', 'g', 'g', 'l', 'e', 's', '_', '_']
}

/// The environment variable that holds a toggle: `FTRIO__Toggles__<Key>`.
pub open spec fn variable_name_of(toggle_key: Seq<char>) -> Seq<char> {
    variable_prefix() + toggle_key
}

/// The value of the first variable with the given name.
pub open spec fn variable_value(vars: Seq<(String, String)>, name: Seq<char>) -> Option<Seq<char>>
    decreases vars.len(),
{
    if vars.len() == 0 {
        None
    } else if vars[0].0@ == name {
        Some(vars[0].1@)
    } else {
        variable_value(vars.drop_first(), name)
    }
}

/// Reads toggle values from environment variables named `FTRIO__Toggles__<Key>`, out of a fixed
/// set of `(name, value)` variables. A program reading its live process environment asks for
/// `variable_name(key)` at each lookup instead.
#[derive(Debug, Default, Clone)]
pub struct EnvironmentVariableToggleParser {
    variables: Vec<(String, String)>,
}

impl EnvironmentVariableToggleParser {
    /// The variables this source reads.
    pub closed spec fn variables(&self) -> Seq<(String, String)> {
        self.variables@
    }

    /// Construct the environment-variable source over the given `(name, value)` variables.
    pub fn new(variables: Vec<(String, String)>) -> (r: Self)
        ensures
            r.variables() == variables@,
    {
        EnvironmentVariableToggleParser { variables }
    }

    /// The environment variable name for a toggle key.
    pub fn variable_name(toggle_key: &str) -> (name: String)
        ensures
            name@ == variable_name_of(toggle_key@),
    {
        let mut name = String::from_str("FTRIO__Toggles__");
        name.append(toggle_key);
        proof {
            reveal_strlit("FTRIO__Toggles__");
            assert(name@ =~= variable_name_of(toggle_key@));
        }
        name
    }

    /// The value of the variable with the given name.
    pub fn lookup(&self, name: &str) -> (r: Option<String>)
        ensures
            opt_view(r) == variable_value(self.variables(), name@),
    {
        let wanted = chars_of(name);
        let n = self.variables.len();
        let mut i: usize = 0;
        assert(self.variables@.skip(0) =~= self.variables@);
        while i < n
            invariant
                n == self.variables@.len(),
                i <= n,
                wanted@ == name@,
                variable_value(self.variables@, name@) == variable_value(
                    self.variables@.skip(i as int),
                    name@,
                ),
            decreases n - i,
        {
            let candidate = chars_of(self.variables[i].0.as_str());
            proof {
                assert(self.variables@.skip(i as int).drop_first() =~= self.variables@.skip(i + 1));
                assert(self.variables@.skip(i as int)[0] == self.variables@[i as int]);
            }
            if chars_eq(candidate.as_slice(), wanted.as_slice()) {
                return Some(self.variables[i].1.clone());
            }
            i = i + 1;
        }
        None
    }
}

impl ToggleValueProvider for EnvironmentVariableToggleParser {
    fn get_raw_value(&self, toggle_key: &str) -> (r: Result<Option<String>, ToggleError>)
        ensures
            lookup_view(r) == Ok::<Option<Seq<char>>, ErrorModel>(
                variable_value(self.variables(), variable_name_of(toggle_key@)),
            ),
    {
        let name = Self::variable_name(toggle_key);
        Ok(self.lookup(name.as_str()))
    }
}

// ---------------------------------------------------------------------------------------------
// Snapshot sources
// ---------------------------------------------------------------------------------------------

/// Reads toggles from an Azure App Configuration snapshot in the `appsettings.json` shape
/// (`FtrIO` / `Toggles` / `TogglesOverrides`).
pub struct AzureAppConfigToggleParser {
    settings: AppSettings,
}

impl AzureAppConfigToggleParser {
    /// The snapshot's content.
    pub closed spec fn snapshot(&self) -> Json {
        self.settings.root_view()
    }

    /// Whether configuration backs this source (a snapshot always does).
    pub closed spec fn backed(&self) -> bool {
        self.settings.is_present()
    }

    /// Construct from a snapshot value.
    pub fn from_snapshot(snapshot: ConfigValue) -> (r: Self)
        ensures
            r.snapshot() == snapshot@,
            r.backed(),
    {
        AzureAppConfigToggleParser { settings: AppSettings::from_value(snapshot) }
    }
}

impl ToggleValueProvider for AzureAppConfigToggleParser {
    fn get_raw_value(&self, toggle_key: &str) -> (r: Result<Option<String>, ToggleError>)
        ensures
            lookup_view(r) == Ok::<Option<Seq<char>>, ErrorModel>(
                string_at(self.snapshot(), toggle_path(toggle_key@)),
            ),
    {
        Ok(self.settings.get_toggle_value(toggle_key))
    }

    fn config_present(&self) -> (b: bool)
        ensures
            b == self.backed(),
    {
        self.settings.present()
    }

    fn get_override(&self, toggle_key: &str, user_id: &str) -> (r: Option<bool>)
        ensures
            r == bool_at(self.snapshot(), override_path(toggle_key@, user_id@)),
    {
        self.settings.get_override(toggle_key, user_id)
    }
}

/// Reads toggles from a configuration document fetched over HTTP, in the `appsettings.json`
/// shape. Fetching is the application's part; this holds the fetched document.
pub struct HttpToggleParser {
    settings: AppSettings,
}

impl HttpToggleParser {
    /// The fetched document's content.
    pub closed spec fn snapshot(&self) -> Json {
        self.settings.root_view()
    }

    /// Whether configuration backs this source (a fetched document always does).
    pub closed spec fn backed(&self) -> bool {
        self.settings.is_present()
    }

    /// Construct from the fetched, parsed document.
    pub fn from_document(document: ConfigValue) -> (r: Self)
        ensures
            r.snapshot() == document@,
            r.backed(),
    {
        HttpToggleParser { settings: AppSettings::from_value(document) }
    }
}

impl ToggleValueProvider for HttpToggleParser {
    fn get_raw_value(&self, toggle_key: &str) -> (r: Result<Option<String>, ToggleError>)
        ensures
            lookup_view(r) == Ok::<Option<Seq<char>>, ErrorModel>(
                string_at(self.snapshot(), toggle_path(toggle_key@)),
            ),
    {
        Ok(self.settings.get_toggle_value(toggle_key))
    }

    fn config_present(&self) -> (b: bool)
        ensures
            b == self.backed(),
    {
        self.settings.present()
    }

    fn get_override(&self, toggle_key: &str, user_id: &str) -> (r: Option<bool>)
        ensures
            r == bool_at(self.snapshot(), override_path(toggle_key@, user_id@)),
    {
        self.settings.get_override(toggle_key, user_id)
    }
}

// ---------------------------------------------------------------------------------------------
// First-wins composite
// ---------------------------------------------------------------------------------------------

/// The first answer that is a value or an error; `Ok(None)` when every answer is a miss.
pub open spec fn first_wins(answers: Seq<Result<Option<Seq<char>>, ErrorModel>>) -> Result<
    Option<Seq<char>>,
    ErrorModel,
>
    decreases answers.len(),
{
    if answers.len() == 0 {
        Ok(None)
    } else if answers[0] == Ok::<Option<Seq<char>>, ErrorModel>(None) {
        first_wins(answers.drop_first())
    } else {
        answers[0]
    }
}

/// Answers asked of `n` sources in order, stopping at the first that is not a miss.
pub open spec fn asked_in_order<T>(answers: Seq<T>, n: nat, miss: T) -> bool {
    &&& answers.len() <= n
    &&& forall|i: int| 0 <= i < answers.len() - 1 ==> #[trigger] answers[i] == miss
    &&& answers.len() < n ==> answers.len() > 0 && answers.last() != miss
}

/// The first `Some` answer, if any.
pub open spec fn first_some(answers: Seq<Option<bool>>) -> Option<bool>
    decreases answers.len(),
{
    if answers.len() == 0 {
        None
    } else if answers[0] is Some {
        answers[0]
    } else {
        first_some(answers.drop_first())
    }
}

proof fn lemma_first_wins_push(answers: Seq<Result<Option<Seq<char>>, ErrorModel>>, a: Result<
    Option<Seq<char>>,
    ErrorModel,
>)
    requires
        forall|i: int|
            0 <= i < answers.len() ==> #[trigger] answers[i] == Ok::<Option<Seq<char>>, ErrorModel>(
                None,
            ),
    ensures
        first_wins(answers.push(a)) == a,
        first_wins(answers) == Ok::<Option<Seq<char>>, ErrorModel>(None),
    decreases answers.len(),
{
    if answers.len() > 0 {
        assert(answers.push(a)[0] == answers[0]);
        assert(answers.push(a).drop_first() =~= answers.drop_first().push(a));
        lemma_first_wins_push(answers.drop_first(), a);
    } else {
        assert(answers.push(a)[0] == a);
        assert(answers.push(a).drop_first() =~= answers);
    }
}

proof fn lemma_first_some_push(answers: Seq<Option<bool>>, a: Option<bool>)
    requires
        forall|i: int| 0 <= i < answers.len() ==> #[trigger] answers[i] is None,
    ensures
        first_some(answers.push(a)) == a,
        first_some(answers) is None,
    decreases answers.len(),
{
    if answers.len() > 0 {
        assert(answers.push(a)[0] == answers[0]);
        assert(answers.push(a).drop_first() =~= answers.drop_first().push(a));
        lemma_first_some_push(answers.drop_first(), a);
    } else {
        assert(answers.push(a)[0] == a);
        assert(answers.push(a).drop_first() =~= answers);
    }
}

/// Lookups taken by their views.
pub open spec fn answers_view(answers: Seq<Result<Option<String>, ToggleError>>) -> Seq<
    Result<Option<Seq<char>>, ErrorModel>,
> {
    answers.map_values(|a: Result<Option<String>, ToggleError>| lookup_view(a))
}

/// The first answer that is a value or an error, or a miss when every answer is a miss.
pub fn pick_first(answers: Vec<Result<Option<String>, ToggleError>>) -> (r: Result<
    Option<String>,
    ToggleError,
>)
    ensures
        lookup_view(r) == first_wins(answers_view(answers@)),
{
    let ghost view = answers_view(answers@);
    let mut list = answers;
    let n = list.len();
    let mut i: usize = 0;
    assert(view.skip(0) =~= view);
    while i < n
        invariant
            n == list@.len(),
            i <= n,
            view == answers_view(list@),
            view == answers_view(answers@),
            first_wins(view) == first_wins(view.skip(i as int)),
        decreases n - i,
    {
        let miss = match &list[i] {
            Ok(None) => true,
            _ => false,
        };
        proof {
            assert(view[i as int] == lookup_view(list@[i as int]));
            assert(view.skip(i as int)[0] == view[i as int]);
            assert(view.skip(i as int).drop_first() =~= view.skip(i + 1));
        }
        if !miss {
            assert(view[i as int] != Ok::<Option<Seq<char>>, ErrorModel>(None));
            let ghost before = list@;
            let r = list.remove(i);
            assert(r == before[i as int]);
            assert(lookup_view(r) == view[i as int]);
            assert(view.skip(i as int).len() > 0);
            assert(first_wins(view.skip(i as int)) == view[i as int]);
            assert(first_wins(view) == lookup_view(r));
            return r;
        }
        i = i + 1;
    }
    assert(view.skip(n as int).len() == 0);
    Ok(None)
}

/// The first override that is set, or none.
pub fn pick_first_override(answers: &Vec<Option<bool>>) -> (r: Option<bool>)
    ensures
        r == first_some(answers@),
{
    let n = answers.len();
    let mut i: usize = 0;
    assert(answers@.skip(0) =~= answers@);
    while i < n
        invariant
            n == answers@.len(),
            i <= n,
            first_some(answers@) == first_some(answers@.skip(i as int)),
        decreases n - i,
    {
        proof {
            assert(answers@.skip(i as int)[0] == answers@[i as int]);
            assert(answers@.skip(i as int).drop_first() =~= answers@.skip(i + 1));
        }
        if answers[i].is_some() {
            return answers[i];
        }
        i = i + 1;
    }
    assert(answers@.skip(n as int).len() == 0);
    None
}

/// Tries several sources in order, first-wins. A key resolves from the first source that has it;
/// only if every source misses does the caller see a miss.
pub struct CompositeToggleParser {
    sources: Vec<Box<dyn ToggleValueProvider>>,
}

impl CompositeToggleParser {
    /// How many sources are consulted.
    pub closed spec fn source_count(&self) -> nat {
        self.sources@.len()
    }

    /// Construct from an ordered list of sources. Earlier sources take precedence.
    pub fn new(sources: Vec<Box<dyn ToggleValueProvider>>) -> (r: Self)
        ensures
            r.source_count() == sources@.len(),
    {
        CompositeToggleParser { sources }
    }
}

impl ToggleValueProvider for CompositeToggleParser {
    fn get_raw_value(&self, toggle_key: &str) -> (r: Result<Option<String>, ToggleError>)
        ensures
            exists|answers: Seq<Result<Option<Seq<char>>, ErrorModel>>|
                asked_in_order(answers, self.source_count(), Ok(None)) && lookup_view(r)
                    == #[trigger] first_wins(answers),
    {
        let mut answers: Vec<Result<Option<String>, ToggleError>> = Vec::new();
        let n = self.sources.len();
        let mut i: usize = 0;
        while i < n
            invariant
                n == self.sources@.len(),
                i <= n,
                answers@.len() == i,
                forall|k: int|
                    0 <= k < answers@.len() ==> #[trigger] answers_view(answers@)[k] == Ok::<
                        Option<Seq<char>>,
                        ErrorModel,
                    >(None),
            decreases n - i,
        {
            let answer = self.sources[i].get_raw_value(toggle_key);
            let miss = match &answer {
                Ok(None) => true,
                _ => false,
            };
            let ghost before = answers@;
            answers.push(answer);
            assert(answers_view(answers@) =~= answers_view(before).push(lookup_view(answer)));
            if !miss {
                assert(asked_in_order(answers_view(answers@), self.source_count(), Ok(None)));
                return pick_first(answers);
            }
            i = i + 1;
        }
        assert(asked_in_order(answers_view(answers@), self.source_count(), Ok(None)));
        pick_first(answers)
    }

    fn config_present(&self) -> (b: bool)
        ensures
            exists|answers: Seq<bool>|
                asked_in_order(answers, self.source_count(), false) && b == (#[trigger] answers.len() > 0
                    && answers.last()),
    {
        let ghost mut answers: Seq<bool> = Seq::empty();
        let n = self.sources.len();
        let mut i: usize = 0;
        while i < n
            invariant
                n == self.sources@.len(),
                i <= n,
                answers.len() == i,
                forall|k: int| 0 <= k < answers.len() ==> !#[trigger] answers[k],
            decreases n - i,
        {
            let answer = self.sources[i].config_present();
            proof {
                answers = answers.push(answer);
            }
            if answer {
                assert(asked_in_order(answers, self.source_count(), false));
                return true;
            }
            i = i + 1;
        }
        assert(asked_in_order(answers, self.source_count(), false));
        false
    }

    fn get_override(&self, toggle_key: &str, user_id: &str) -> (r: Option<bool>)
        ensures
            exists|answers: Seq<Option<bool>>|
                asked_in_order(answers, self.source_count(), None) && r == #[trigger] first_some(
                    answers,
                ),
    {
        let mut answers: Vec<Option<bool>> = Vec::new();
        let n = self.sources.len();
        let mut i: usize = 0;
        while i < n
            invariant
                n == self.sources@.len(),
                i <= n,
                answers@.len() == i,
                forall|k: int| 0 <= k < answers@.len() ==> #[trigger] answers@[k] is None,
            decreases n - i,
        {
            let answer = self.sources[i].get_override(toggle_key, user_id);
            answers.push(answer);
            if answer.is_some() {
                assert(asked_in_order(answers@, self.source_count(), None));
                return pick_first_override(&answers);
            }
            i = i + 1;
        }
        assert(asked_in_order(answers@, self.source_count(), None));
        pick_first_override(&answers)
    }
}

} // verus!
