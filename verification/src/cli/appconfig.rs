//! Configuration files as toggle tables, and the classification of a toggle's state.

use vstd::prelude::*;
use vstd::string::*;

use crate::config::{
    config_string, deep_merge, entries_view, exact_index, find_exact_key, lemma_entries_view,
    value_to_config_string, ConfigValue, Json,
};
use crate::context::opt_view;
use crate::parsing::{comma_list, list_entries};
use crate::strategies::blue_green::{default_slot_names, default_slots, texts};
use crate::strategies::ab_test::ab_prefix;
use crate::strategies::attribute_rule::attribute_prefix;
use crate::strategies::boolean::{word_false, word_true};
use crate::strategies::user_targeting::users_prefix;
use crate::text::{
    chars_ends_with, chars_eq, chars_eq_ignore_case, chars_of, chars_starts_with, ends_with,
    eq_ignore_case, lower, lower_chars, owned, starts_with, trim, trim_chars,
};

verus! {

// ---------------------------------------------------------------------------------------------
// Keyed pairs
// ---------------------------------------------------------------------------------------------

/// Index of the first pair whose key is `key`, or `-1`.
pub open spec fn pair_index<V>(pairs: Seq<(Seq<char>, V)>, key: Seq<char>) -> int
    decreases pairs.len(),
{
    if pairs.len() == 0 {
        -1
    } else {
        let before = pair_index(pairs.drop_last(), key);
        if before >= 0 {
            before
        } else if pairs.last().0 == key {
            pairs.len() - 1
        } else {
            -1
        }
    }
}

/// The value paired with `key`, if any.
pub open spec fn pair_value<V>(pairs: Seq<(Seq<char>, V)>, key: Seq<char>) -> Option<V> {
    let i = pair_index(pairs, key);
    if 0 <= i < pairs.len() {
        Some(pairs[i].1)
    } else {
        None
    }
}

/// `pairs` with `key` mapped to `value`: replaced in place when present, appended otherwise.
pub open spec fn upsert<V>(pairs: Seq<(Seq<char>, V)>, key: Seq<char>, value: V) -> Seq<
    (Seq<char>, V),
> {
    let i = pair_index(pairs, key);
    if 0 <= i < pairs.len() {
        pairs.update(i, (pairs[i].0, value))
    } else {
        pairs.push((key, value))
    }
}

pub(crate) proof fn lemma_pair_index_bounds<V>(pairs: Seq<(Seq<char>, V)>, key: Seq<char>)
    ensures
        -1 <= pair_index(pairs, key) < pairs.len(),
        pair_index(pairs, key) >= 0 ==> pairs[pair_index(pairs, key)].0 == key,
        forall|j: int|
            0 <= j < pairs.len() && (pair_index(pairs, key) < 0 || j < pair_index(pairs, key))
                ==> #[trigger] pairs[j].0 != key,
    decreases pairs.len(),
{
    if pairs.len() > 0 {
        let init = pairs.drop_last();
        lemma_pair_index_bounds(init, key);
        assert forall|j: int|
            0 <= j < pairs.len() && (pair_index(pairs, key) < 0 || j < pair_index(pairs, key))
                implies #[trigger] pairs[j].0 != key by {
            if j < init.len() {
                assert(init[j] == pairs[j]);
            }
        }
    }
}

pub(crate) proof fn lemma_pair_index_at<V>(pairs: Seq<(Seq<char>, V)>, key: Seq<char>, i: int)
    requires
        0 <= i < pairs.len(),
        pairs[i].0 == key,
        forall|j: int| 0 <= j < i ==> #[trigger] pairs[j].0 != key,
    ensures
        pair_index(pairs, key) == i,
{
    lemma_pair_index_bounds(pairs, key);
}

/// Text pairs by their views.
pub open spec fn text_pairs(pairs: Seq<(String, String)>) -> Seq<(Seq<char>, Seq<char>)> {
    pairs.map_values(|p: (String, String)| (p.0@, p.1@))
}

/// Text-list pairs by their views.
pub open spec fn list_pairs(pairs: Seq<(String, Vec<String>)>) -> Seq<(Seq<char>, Seq<Seq<char>>)> {
    pairs.map_values(|p: (String, Vec<String>)| (p.0@, texts(p.1@)))
}

/// Position of the first pair whose key is `key`.
fn find_text_pair(pairs: &Vec<(String, String)>, key: &str) -> (r: Option<usize>)
    ensures
        match r {
            Some(i) => i == pair_index(text_pairs(pairs@), key@) && i < pairs@.len(),
            None => pair_index(text_pairs(pairs@), key@) == -1,
        },
{
    let ghost model = text_pairs(pairs@);
    let key_chars = chars_of(key);
    let mut i: usize = 0;
    while i < pairs.len()
        invariant
            i <= pairs@.len(),
            model == text_pairs(pairs@),
            key_chars@ == key@,
            forall|j: int| 0 <= j < i ==> #[trigger] model[j].0 != key@,
        decreases pairs@.len() - i,
    {
        let k = chars_of(pairs[i].0.as_str());
        assert(model[i as int].0 == k@);
        if chars_eq(k.as_slice(), key_chars.as_slice()) {
            proof {
                lemma_pair_index_at(model, key@, i as int);
            }
            return Some(i);
        }
        i = i + 1;
    }
    proof {
        lemma_pair_index_bounds(model, key@);
        if pair_index(model, key@) >= 0 {
            assert(model[pair_index(model, key@)].0 == key@);
        }
    }
    None
}

/// Position of the first list pair whose key is `key`.
fn find_list_pair(pairs: &Vec<(String, Vec<String>)>, key: &str) -> (r: Option<usize>)
    ensures
        match r {
            Some(i) => i == pair_index(list_pairs(pairs@), key@) && i < pairs@.len(),
            None => pair_index(list_pairs(pairs@), key@) == -1,
        },
{
    let ghost model = list_pairs(pairs@);
    let key_chars = chars_of(key);
    let mut i: usize = 0;
    while i < pairs.len()
        invariant
            i <= pairs@.len(),
            model == list_pairs(pairs@),
            key_chars@ == key@,
            forall|j: int| 0 <= j < i ==> #[trigger] model[j].0 != key@,
        decreases pairs@.len() - i,
    {
        let k = chars_of(pairs[i].0.as_str());
        assert(model[i as int].0 == k@);
        if chars_eq(k.as_slice(), key_chars.as_slice()) {
            proof {
                lemma_pair_index_at(model, key@, i as int);
            }
            return Some(i);
        }
        i = i + 1;
    }
    proof {
        lemma_pair_index_bounds(model, key@);
        if pair_index(model, key@) >= 0 {
            assert(model[pair_index(model, key@)].0 == key@);
        }
    }
    None
}

/// Map `key` to `value` among text pairs.
pub fn upsert_text(pairs: &mut Vec<(String, String)>, key: String, value: String)
    ensures
        text_pairs(final(pairs)@) == upsert(text_pairs(old(pairs)@), key@, value@),
{
    let ghost before = text_pairs(pairs@);
    match find_text_pair(pairs, key.as_str()) {
        Some(i) => {
            let (k, _) = pairs.remove(i);
            pairs.insert(i, (k, value));
        },
        None => {
            pairs.push((key, value));
        },
    }
    assert(text_pairs(pairs@) =~= upsert(before, key@, value@));
}

/// Map `key` to `value` among text-list pairs.
pub fn upsert_list(pairs: &mut Vec<(String, Vec<String>)>, key: String, value: Vec<String>)
    ensures
        list_pairs(final(pairs)@) == upsert(list_pairs(old(pairs)@), key@, texts(value@)),
{
    let ghost before = list_pairs(pairs@);
    let ghost value_view = texts(value@);
    match find_list_pair(pairs, key.as_str()) {
        Some(i) => {
            let (k, _) = pairs.remove(i);
            pairs.insert(i, (k, value));
        },
        None => {
            pairs.push((key, value));
        },
    }
    assert(list_pairs(pairs@) =~= upsert(before, key@, value_view));
}

// ---------------------------------------------------------------------------------------------
// Reading configuration values
// ---------------------------------------------------------------------------------------------

/// The value under `key` (matched exactly) when `v` is an object that has it.
pub open spec fn exact_get(v: Json, key: Seq<char>) -> Option<Json> {
    match v {
        Json::Object(entries) => {
            let i = exact_index(entries, key);
            if 0 <= i < entries.len() {
                Some(entries[i].1)
            } else {
                None
            }
        },
        _ => None,
    }
}

/// The entries of an optional value that is an object; none otherwise.
pub open spec fn object_or_empty(v: Option<Json>) -> Seq<(Seq<char>, Json)> {
    match v {
        Some(Json::Object(entries)) => entries,
        _ => Seq::empty(),
    }
}

/// The text of an optional value that is a string.
pub open spec fn text_of(v: Option<Json>) -> Option<Seq<char>> {
    match v {
        Some(Json::Str(s)) => Some(s),
        _ => None,
    }
}

/// Display strings of the entries that have one (booleans, numbers, strings), keyed, a later
/// entry replacing an earlier one with the same key.
pub open spec fn display_pairs(entries: Seq<(Seq<char>, Json)>) -> Seq<(Seq<char>, Seq<char>)>
    decreases entries.len(),
{
    if entries.len() == 0 {
        Seq::empty()
    } else {
        let before = display_pairs(entries.drop_last());
        match config_string(entries.last().1) {
            Some(d) => upsert(before, entries.last().0, d),
            None => before,
        }
    }
}

/// The `Toggles` section of a configuration as display strings.
pub open spec fn toggles_table(root: Json) -> Seq<(Seq<char>, Seq<char>)> {
    display_pairs(object_or_empty(exact_get(root, "Toggles"@)))
}

/// The `FtrIO:BlueGreen` section, matched exactly.
pub open spec fn blue_green_section(root: Json) -> Option<Json> {
    match exact_get(root, "FtrIO"@) {
        Some(f) => exact_get(f, "BlueGreen"@),
        None => None,
    }
}

/// The configured current slot.
pub open spec fn configured_current_slot(root: Json) -> Option<Seq<char>> {
    match blue_green_section(root) {
        Some(b) => text_of(exact_get(b, "CurrentSlot"@)),
        None => None,
    }
}

/// The configured known-slots list, as written.
pub open spec fn configured_known_slots(root: Json) -> Option<Seq<char>> {
    match blue_green_section(root) {
        Some(b) => text_of(exact_get(b, "KnownSlots"@)),
        None => None,
    }
}

/// The keys of object entries, in order.
pub open spec fn entry_keys(entries: Seq<(Seq<char>, Json)>) -> Seq<Seq<char>> {
    entries.map_values(|e: (Seq<char>, Json)| e.0)
}

/// For each entry whose value is an object, its key with the keys of that object (the users with
/// an override), a later entry replacing an earlier one with the same key.
pub open spec fn override_pairs(entries: Seq<(Seq<char>, Json)>) -> Seq<(Seq<char>, Seq<Seq<char>>)>
    decreases entries.len(),
{
    if entries.len() == 0 {
        Seq::empty()
    } else {
        let before = override_pairs(entries.drop_last());
        match entries.last().1 {
            Json::Object(users) => upsert(before, entries.last().0, entry_keys(users)),
            _ => before,
        }
    }
}

/// The `TogglesOverrides` section as toggle keys with their overridden users.
pub open spec fn overrides_table(root: Json) -> Seq<(Seq<char>, Seq<Seq<char>>)> {
    override_pairs(object_or_empty(exact_get(root, "TogglesOverrides"@)))
}

/// The value under `key` (matched exactly) of an object value.
pub fn exact_child<'a>(v: &'a ConfigValue, key: &str) -> (r: Option<&'a ConfigValue>)
    ensures
        match r {
            Some(c) => exact_get(v@, key@) == Some(c@),
            None => exact_get(v@, key@) is None,
        },
{
    match v {
        ConfigValue::Object(entries) => {
            let key_chars = chars_of(key);
            proof {
                lemma_entries_view(entries@);
            }
            match find_exact_key(entries, key_chars.as_slice()) {
                Some(i) => Some(&entries[i].1),
                None => None,
            }
        },
        _ => None,
    }
}

/// The text of an optional string value.
fn child_text(v: Option<&ConfigValue>) -> (r: Option<String>)
    ensures
        opt_view(r) == text_of(
            match v {
                Some(c) => Some(c@),
                None => None,
            },
        ),
{
    match v {
        Some(ConfigValue::Str(s)) => Some(s.clone()),
        _ => None,
    }
}

/// The `Toggles` section of a configuration value as raw display strings.
pub fn toggles_section(value: &ConfigValue) -> (r: Vec<(String, String)>)
    ensures
        text_pairs(r@) == toggles_table(value@),
{
    let mut r: Vec<(String, String)> = Vec::new();
    let section = exact_child(value, "Toggles");
    if let Some(ConfigValue::Object(entries)) = section {
        let ghost model = entries_view(entries@);
        proof {
            lemma_entries_view(entries@);
        }
        let mut i: usize = 0;
        assert(model.take(0) =~= Seq::<(Seq<char>, Json)>::empty());
        assert(text_pairs(r@) =~= Seq::<(Seq<char>, Seq<char>)>::empty());
        while i < entries.len()
            invariant
                i <= entries@.len(),
                model == entries_view(entries@),
                model.len() == entries@.len(),
                forall|t: int|
                    0 <= t < entries@.len() ==> #[trigger] model[t] == (
                        entries@[t].0@,
                        entries@[t].1@,
                    ),
                text_pairs(r@) == display_pairs(model.take(i as int)),
            decreases entries@.len() - i,
        {
            proof {
                assert(model.take(i + 1).drop_last() =~= model.take(i as int));
                assert(model.take(i + 1).last() == model[i as int]);
            }
            match value_to_config_string(&entries[i].1) {
                Some(display) => {
                    upsert_text(&mut r, entries[i].0.clone(), display);
                },
                None => {},
            }
            i = i + 1;
        }
        assert(model.take(i as int) =~= model);
    } else {
        assert(text_pairs(r@) =~= Seq::<(Seq<char>, Seq<char>)>::empty());
    }
    r
}

/// The keys of object entries.
fn keys_of(entries: &Vec<(String, ConfigValue)>) -> (r: Vec<String>)
    ensures
        texts(r@) == entry_keys(entries_view(entries@)),
{
    proof {
        lemma_entries_view(entries@);
    }
    let mut r: Vec<String> = Vec::new();
    let mut i: usize = 0;
    while i < entries.len()
        invariant
            i <= entries@.len(),
            entries_view(entries@).len() == entries@.len(),
            forall|t: int|
                0 <= t < entries@.len() ==> #[trigger] entries_view(entries@)[t] == (
                    entries@[t].0@,
                    entries@[t].1@,
                ),
            texts(r@) == entry_keys(entries_view(entries@)).take(i as int),
        decreases entries@.len() - i,
    {
        let k = entries[i].0.clone();
        let ghost before = r@;
        r.push(k);
        proof {
            assert(texts(r@) =~= texts(before).push(k@));
            assert(entry_keys(entries_view(entries@)).take(i + 1) =~= entry_keys(
                entries_view(entries@),
            ).take(i as int).push(entries_view(entries@)[i as int].0));
        }
        i = i + 1;
    }
    assert(entry_keys(entries_view(entries@)).take(i as int) =~= entry_keys(entries_view(entries@)));
    r
}

/// The `TogglesOverrides` section as toggle keys with their overridden users.
pub fn overrides_section(value: &ConfigValue) -> (r: Vec<(String, Vec<String>)>)
    ensures
        list_pairs(r@) == overrides_table(value@),
{
    let mut r: Vec<(String, Vec<String>)> = Vec::new();
    let section = exact_child(value, "TogglesOverrides");
    if let Some(ConfigValue::Object(entries)) = section {
        let ghost model = entries_view(entries@);
        proof {
            lemma_entries_view(entries@);
        }
        let mut i: usize = 0;
        assert(model.take(0) =~= Seq::<(Seq<char>, Json)>::empty());
        assert(list_pairs(r@) =~= Seq::<(Seq<char>, Seq<Seq<char>>)>::empty());
        while i < entries.len()
            invariant
                i <= entries@.len(),
                model == entries_view(entries@),
                model.len() == entries@.len(),
                forall|t: int|
                    0 <= t < entries@.len() ==> #[trigger] model[t] == (
                        entries@[t].0@,
                        entries@[t].1@,
                    ),
                list_pairs(r@) == override_pairs(model.take(i as int)),
            decreases entries@.len() - i,
        {
            proof {
                assert(model.take(i + 1).drop_last() =~= model.take(i as int));
                assert(model.take(i + 1).last() == model[i as int]);
            }
            match &entries[i].1 {
                ConfigValue::Object(users) => {
                    let ids = keys_of(users);
                    upsert_list(&mut r, entries[i].0.clone(), ids);
                },
                _ => {},
            }
            i = i + 1;
        }
        assert(model.take(i as int) =~= model);
    } else {
        assert(list_pairs(r@) =~= Seq::<(Seq<char>, Seq<Seq<char>>)>::empty());
    }
    r
}

// ---------------------------------------------------------------------------------------------
// The toggle table of a configuration
// ---------------------------------------------------------------------------------------------

/// A parsed configuration file (or a base file with its environment overlay merged in).
pub struct AppConfig {
    /// A human label for the configuration (its file name, or `appsettings (<env>)`).
    pub name: String,
    /// Toggle key → raw display value.
    pub toggles: Vec<(String, String)>,
    /// The active blue-green slot, if configured.
    pub current_slot: Option<String>,
    /// The known blue-green slots (`blue`/`green` unless configured).
    pub known_slots: Vec<String>,
    /// Toggle key → the user ids that have per-user overrides.
    pub overrides: Vec<(String, Vec<String>)>,
}

/// The known slots a report resolves against: the configured list, or `blue`/`green` when none
/// is configured as a string.
pub open spec fn report_slots(root: Json) -> Seq<Seq<char>> {
    match configured_known_slots(root) {
        Some(list) => list_entries(list),
        None => default_slots(),
    }
}

/// What a configuration's table holds, given its name and its (merged) content.
pub open spec fn table_of(c: AppConfig, name: Seq<char>, root: Json) -> bool {
    &&& c.name@ == name
    &&& text_pairs(c.toggles@) == toggles_table(root)
    &&& opt_view(c.current_slot) == configured_current_slot(root)
    &&& texts(c.known_slots@) == report_slots(root)
    &&& list_pairs(c.overrides@) == overrides_table(root)
}

impl AppConfig {
    /// The raw value of a toggle key, if present.
    pub fn raw_value(&self, key: &str) -> (r: Option<&str>)
        ensures
            match r {
                Some(v) => pair_value(text_pairs(self.toggles@), key@) == Some(v@),
                None => pair_value(text_pairs(self.toggles@), key@) is None,
            },
    {
        match find_text_pair(&self.toggles, key) {
            Some(i) => Some(self.toggles[i].1.as_str()),
            None => None,
        }
    }

    /// The users with overrides for a toggle key (none when the key has no overrides).
    pub fn override_users(&self, key: &str) -> (r: &[String])
        ensures
            texts(r@) == match pair_value(list_pairs(self.overrides@), key@) {
                Some(users) => users,
                None => Seq::<Seq<char>>::empty(),
            },
    {
        match find_list_pair(&self.overrides, key) {
            Some(i) => self.overrides[i].1.as_slice(),
            None => {
                let none: &[String] = &[];
                assert(texts(none@) =~= Seq::<Seq<char>>::empty());
                none
            },
        }
    }
}

/// Build a configuration's table from its content.
pub fn from_value(name: String, value: &ConfigValue) -> (r: AppConfig)
    ensures
        table_of(r, name@, value@),
{
    let toggles = toggles_section(value);
    let blue_green = match exact_child(value, "FtrIO") {
        Some(f) => exact_child(f, "BlueGreen"),
        None => None,
    };
    let (current_slot, known_text) = match blue_green {
        Some(b) => (child_text(exact_child(b, "CurrentSlot")), child_text(exact_child(b, "KnownSlots"))),
        None => (None, None),
    };
    let known_slots = match known_text {
        Some(list) => comma_list(list.as_str()),
        None => default_slot_names(),
    };
    let overrides = overrides_section(value);
    AppConfig { name, toggles, current_slot, known_slots, overrides }
}

/// A single configuration file's table, named after the file (`appsettings.json` when the name
/// cannot be had); nothing when the file could not be read or parsed.
pub fn load_single(file_name: Option<&str>, value: Option<&ConfigValue>) -> (r: Option<AppConfig>)
    ensures
        match value {
            None => r is None,
            Some(v) => r matches Some(c) && table_of(
                c,
                match file_name {
                    Some(n) => n@,
                    None => "appsettings.json"@,
                },
                v@,
            ),
        },
{
    match value {
        None => None,
        Some(v) => {
            let name = match file_name {
                Some(n) => owned(n),
                None => String::from_str("appsettings.json"),
            };
            Some(from_value(name, v))
        },
    }
}

/// The label of an environment's merged configuration.
pub open spec fn environment_label(environment: Seq<char>) -> Seq<char> {
    "appsettings ("@ + environment + ")"@
}

/// The table of one environment: the base file (an empty object when it could not be read) with
/// the environment's overlay file merged over it, when that could be read.
pub fn load_environment(environment: &str, base: Option<ConfigValue>, overlay: Option<ConfigValue>) -> (r:
    AppConfig)
    ensures
        table_of(
            r,
            environment_label(environment@),
            match overlay {
                Some(o) => crate::config::merge(
                    match base {
                        Some(b) => b@,
                        None => Json::Object(Seq::empty()),
                    },
                    o@,
                ),
                None => match base {
                    Some(b) => b@,
                    None => Json::Object(Seq::empty()),
                },
            },
        ),
{
    let mut root = match base {
        Some(b) => b,
        None => {
            let empty = ConfigValue::Object(Vec::new());
            assert(entries_view(Seq::<(String, ConfigValue)>::empty()) =~= Seq::<(Seq<char>, Json)>::empty());
            empty
        },
    };
    if let Some(o) = overlay {
        root = deep_merge(root, o);
    }
    let mut name = String::from_str("appsettings (");
    name.append(environment);
    name.append(")");
    from_value(name, &root)
}

// ---------------------------------------------------------------------------------------------
// Toggle states
// ---------------------------------------------------------------------------------------------

/// Whether a text names one of the known slots, ignoring ASCII case.
pub open spec fn is_known_slot(known: Seq<Seq<char>>, text: Seq<char>) -> bool {
    exists|i: int| 0 <= i < known.len() && eq_ignore_case(#[trigger] known[i], text)
}

/// The state label of a toggle's raw value: `MISSING` without a value; after trimming and ASCII
/// lowercasing, `ON` for `true`/`1`, `OFF` for `false`/`0`, `PERCENTAGE` for a trailing `%`,
/// `AB-TEST` for `ab:`, `TARGETED` for `users:`, `RULE-BASED` for `attribute:`; a known slot is
/// `ON`/`OFF` against the current slot, or `BLUE/GREEN` when no slot is current; else `UNKNOWN`.
pub open spec fn state_label(
    raw: Option<Seq<char>>,
    current_slot: Option<Seq<char>>,
    known: Seq<Seq<char>>,
) -> Seq<char> {
    match raw {
        None => "MISSING"@,
        Some(r) => {
            let l = lower(trim(r));
            if l == word_true() || l == seq!['1'] {
                "ON"@
            } else if l == word_false() || l == seq!['0'] {
                "OFF"@
            } else if ends_with(l, seq!['%']) {
                "PERCENTAGE"@
            } else if starts_with(l, ab_prefix()) {
                "AB-TEST"@
            } else if starts_with(l, users_prefix()) {
                "TARGETED"@
            } else if starts_with(l, attribute_prefix()) {
                "RULE-BASED"@
            } else if is_known_slot(known, l) {
                match current_slot {
                    Some(c) => if eq_ignore_case(c, l) {
                        "ON"@
                    } else {
                        "OFF"@
                    },
                    None => "BLUE/GREEN"@,
                }
            } else {
                "UNKNOWN"@
            }
        },
    }
}

/// Whether one of the known slots names `text`, ignoring ASCII case.
fn names_known_slot(known_slots: &[String], text: &[char]) -> (b: bool)
    ensures
        b == is_known_slot(texts(known_slots@), text@),
{
    let mut i: usize = 0;
    while i < known_slots.len()
        invariant
            i <= known_slots@.len(),
            forall|j: int| 0 <= j < i ==> !eq_ignore_case(#[trigger] texts(known_slots@)[j], text@),
        decreases known_slots@.len() - i,
    {
        let slot = chars_of(known_slots[i].as_str());
        assert(texts(known_slots@)[i as int] == slot@);
        if chars_eq_ignore_case(slot.as_slice(), text) {
            return true;
        }
        i = i + 1;
    }
    false
}

/// Classify a toggle's raw value for reports.
pub fn classify_state(raw: Option<&str>, current_slot: Option<&str>, known_slots: &[String]) -> (r:
    String)
    ensures
        r@ == state_label(
            match raw {
                Some(v) => Some(v@),
                None => None,
            },
            match current_slot {
                Some(c) => Some(c@),
                None => None,
            },
            texts(known_slots@),
        ),
{
    let raw = match raw {
        Some(v) => v,
        None => {
            return String::from_str("MISSING");
        },
    };
    let chars = chars_of(raw);
    let trimmed = trim_chars(chars.as_slice());
    let lowered = lower_chars(trimmed.as_slice());
    let l = lowered.as_slice();
    let true_word: Vec<char> = vec!['t', 'r', 'u', 'e'];
    let false_word: Vec<char> = vec!['f', 'a', 'l', 's', 'e'];
    let one: Vec<char> = vec!['1'];
    let zero: Vec<char> = vec!['0'];
    let percent: Vec<char> = vec!['%'];
    let ab: Vec<char> = vec!['a', 'b', ':'];
    let users: Vec<char> = vec!['u', 's', 'e', 'r', 's', ':'];
    let attribute: Vec<char> = vec!['a', 't', 't', 'r', 'i', 'b', 'u', 't', 'e', ':'];
    assert(true_word@ =~= word_true());
    assert(false_word@ =~= word_false());
    assert(one@ =~= seq!['1']);
    assert(zero@ =~= seq!['0']);
    assert(percent@ =~= seq!['%']);
    assert(ab@ =~= ab_prefix());
    assert(users@ =~= users_prefix());
    assert(attribute@ =~= attribute_prefix());
    if chars_eq(l, true_word.as_slice()) || chars_eq(l, one.as_slice()) {
        return String::from_str("ON");
    }
    if chars_eq(l, false_word.as_slice()) || chars_eq(l, zero.as_slice()) {
        return String::from_str("OFF");
    }
    if chars_ends_with(l, percent.as_slice()) {
        return String::from_str("PERCENTAGE");
    }
    if chars_starts_with(l, ab.as_slice()) {
        return String::from_str("AB-TEST");
    }
    if chars_starts_with(l, users.as_slice()) {
        return String::from_str("TARGETED");
    }
    if chars_starts_with(l, attribute.as_slice()) {
        return String::from_str("RULE-BASED");
    }
    if names_known_slot(known_slots, l) {
        return match current_slot {
            Some(current) => {
                let c = chars_of(current);
                if chars_eq_ignore_case(c.as_slice(), l) {
                    String::from_str("ON")
                } else {
                    String::from_str("OFF")
                }
            },
            None => String::from_str("BLUE/GREEN"),
        };
    }
    String::from_str("UNKNOWN")
}

/// The fixed order in which report summaries list the states.
pub open spec fn state_order() -> Seq<Seq<char>> {
    seq![
        "ON"@,
        "OFF"@,
        "PERCENTAGE"@,
        "BLUE/GREEN"@,
        "AB-TEST"@,
        "TARGETED"@,
        "RULE-BASED"@,
        "MISSING"@,
        "UNKNOWN"@,
    ]
}

/// The state labels in summary order.
pub fn state_labels() -> (r: Vec<String>)
    ensures
        texts(r@) == state_order(),
{
    let r = vec![
        String::from_str("ON"),
        String::from_str("OFF"),
        String::from_str("PERCENTAGE"),
        String::from_str("BLUE/GREEN"),
        String::from_str("AB-TEST"),
        String::from_str("TARGETED"),
        String::from_str("RULE-BASED"),
        String::from_str("MISSING"),
        String::from_str("UNKNOWN"),
    ];
    assert(texts(r@) =~= state_order());
    r
}

} // verus!
