//! The configuration model: a JSON-shaped value, the overlay merge, colon-delimited lookup, and
//! the stringification every strategy sees.
//!
//! Keys are looked up exactly first and then ignoring ASCII case, so `newcheckout` finds a key
//! written `NewCheckout`. Booleans stringify to `true`/`false` and numbers to their written form
//! before reaching the strategy chain.

use vstd::prelude::*;
use vstd::string::*;

use crate::context::opt_view;
use crate::strategies::boolean::{boolean_value, parse_boolean_value};
use crate::text::{chars_eq, chars_eq_ignore_case, chars_of, eq_ignore_case, split_chars, split_on};

verus! {

/// A JSON number: the text it is written as, and its value when it is an integer that fits in an
/// `i64`.
#[derive(Debug, Clone)]
pub struct ConfigNumber {
    pub text: String,
    pub integer: Option<i64>,
}

/// A JSON-shaped configuration value. Object entries keep their order.
#[derive(Debug)]
pub enum ConfigValue {
    Null,
    Bool(bool),
    Number(ConfigNumber),
    Str(String),
    Array(Vec<ConfigValue>),
    Object(Vec<(String, ConfigValue)>),
}

/// What a configuration value holds, with texts as characters.
pub enum Json {
    Null,
    Bool(bool),
    Number(Seq<char>, Option<int>),
    Str(Seq<char>),
    Array(Seq<Json>),
    Object(Seq<(Seq<char>, Json)>),
}

impl View for ConfigValue {
    type V = Json;

    open spec fn view(&self) -> Json
        decreases self,
    {
        match self {
            ConfigValue::Null => Json::Null,
            ConfigValue::Bool(b) => Json::Bool(*b),
            ConfigValue::Number(n) => Json::Number(
                n.text@,
                match n.integer {
                    Some(i) => Some(i as int),
                    None => None,
                },
            ),
            ConfigValue::Str(s) => Json::Str(s@),
            ConfigValue::Array(items) => Json::Array(items_view(items@)),
            ConfigValue::Object(entries) => Json::Object(entries_view(entries@)),
        }
    }
}

pub open spec fn items_view(items: Seq<ConfigValue>) -> Seq<Json>
    decreases items,
{
    if items.len() == 0 {
        Seq::empty()
    } else {
        items_view(items.drop_last()).push(items.last().view())
    }
}

pub open spec fn entries_view(entries: Seq<(String, ConfigValue)>) -> Seq<(Seq<char>, Json)>
    decreases entries,
{
    if entries.len() == 0 {
        Seq::empty()
    } else {
        entries_view(entries.drop_last()).push((entries.last().0@, entries.last().1.view()))
    }
}

pub proof fn lemma_entries_view(entries: Seq<(String, ConfigValue)>)
    ensures
        entries_view(entries).len() == entries.len(),
        forall|i: int|
            0 <= i < entries.len() ==> #[trigger] entries_view(entries)[i] == (
                entries[i].0@,
                entries[i].1@,
            ),
    decreases entries.len(),
{
    if entries.len() > 0 {
        lemma_entries_view(entries.drop_last());
        let v = entries_view(entries);
        assert(v == entries_view(entries.drop_last()).push((entries.last().0@, entries.last().1.view())));
    }
}

pub proof fn lemma_items_view(items: Seq<ConfigValue>)
    ensures
        items_view(items).len() == items.len(),
        forall|i: int| 0 <= i < items.len() ==> #[trigger] items_view(items)[i] == items[i]@,
    decreases items.len(),
{
    if items.len() > 0 {
        lemma_items_view(items.drop_last());
        let v = items_view(items);
        assert(v == items_view(items.drop_last()).push(items.last().view()));
    }
}

/// Two entry lists with the same keys and values have the same view.
pub proof fn lemma_entries_view_ext(a: Seq<(String, ConfigValue)>, b: Seq<(Seq<char>, Json)>)
    requires
        a.len() == b.len(),
        forall|i: int| 0 <= i < a.len() ==> (a[i].0@, a[i].1@) == #[trigger] b[i],
    ensures
        entries_view(a) == b,
{
    lemma_entries_view(a);
    assert(entries_view(a) =~= b);
}

// ---------------------------------------------------------------------------------------------
// Lookup
// ---------------------------------------------------------------------------------------------

/// Index of the first entry whose key is exactly `key`, or `-1`.
pub open spec fn exact_index(entries: Seq<(Seq<char>, Json)>, key: Seq<char>) -> int
    decreases entries.len(),
{
    if entries.len() == 0 {
        -1
    } else {
        let before = exact_index(entries.drop_last(), key);
        if before >= 0 {
            before
        } else if entries.last().0 == key {
            entries.len() - 1
        } else {
            -1
        }
    }
}

/// Index of the first entry whose key equals `key` ignoring ASCII case, or `-1`.
pub open spec fn folded_index(entries: Seq<(Seq<char>, Json)>, key: Seq<char>) -> int
    decreases entries.len(),
{
    if entries.len() == 0 {
        -1
    } else {
        let before = folded_index(entries.drop_last(), key);
        if before >= 0 {
            before
        } else if eq_ignore_case(entries.last().0, key) {
            entries.len() - 1
        } else {
            -1
        }
    }
}

/// The entry a key selects: an exact match first, then a match ignoring ASCII case.
pub open spec fn key_index(entries: Seq<(Seq<char>, Json)>, key: Seq<char>) -> int {
    if exact_index(entries, key) >= 0 {
        exact_index(entries, key)
    } else {
        folded_index(entries, key)
    }
}

/// The value at a key path, walking nested objects.
pub open spec fn navigate(v: Json, path: Seq<Seq<char>>) -> Option<Json>
    decreases path.len(),
{
    if path.len() == 0 {
        Some(v)
    } else {
        match v {
            Json::Object(entries) => {
                let i = key_index(entries, path[0]);
                if 0 <= i < entries.len() {
                    navigate(entries[i].1, path.drop_first())
                } else {
                    None
                }
            },
            _ => None,
        }
    }
}

pub open spec fn text_true() -> Seq<char> {
    seq!['t', 'r', 'u', 'e']
}

pub open spec fn text_false() -> Seq<char> {
    seq!['f', 'a', 'l', 's', 'e']
}

/// The string form of a configuration value: booleans lowercase, numbers as written, strings as
/// they are; other values have none.
pub open spec fn config_string(v: Json) -> Option<Seq<char>> {
    match v {
        Json::Bool(b) => Some(
            if b {
                text_true()
            } else {
                text_false()
            },
        ),
        Json::Number(text, _) => Some(text),
        Json::Str(s) => Some(s),
        _ => None,
    }
}

/// A value read as a boolean: a JSON boolean, the integers `1`/`0`, or a string spelling
/// `true`/`false`/`1`/`0` (trimmed, ignoring ASCII case).
pub open spec fn coerce_bool(v: Json) -> Option<bool> {
    match v {
        Json::Bool(b) => Some(b),
        Json::Number(_, integer) => match integer {
            Some(i) => if i == 1 {
                Some(true)
            } else if i == 0 {
                Some(false)
            } else {
                None
            },
            None => None,
        },
        Json::Str(s) => boolean_value(s),
        _ => None,
    }
}

/// The string form of the value at a path.
pub open spec fn string_at(root: Json, path: Seq<Seq<char>>) -> Option<Seq<char>> {
    match navigate(root, path) {
        Some(v) => config_string(v),
        None => None,
    }
}

/// The boolean reading of the value at a path.
pub open spec fn bool_at(root: Json, path: Seq<Seq<char>>) -> Option<bool> {
    match navigate(root, path) {
        Some(v) => coerce_bool(v),
        None => None,
    }
}

/// The path of a colon-delimited key (`FtrIO:BlueGreen:CurrentSlot`).
pub open spec fn colon_path(key: Seq<char>) -> Seq<Seq<char>> {
    split_on(key, ':')
}

pub open spec fn toggles_word() -> Seq<char> {
    seq!['T', 'o', 'g', 'g', 'l', 'e', 's']
}

pub open spec fn overrides_word() -> Seq<char> {
    seq!['T', 'o', 'g', 'g', 'l', 'e', 's', 'O', 'v', 'e', 'r', 'r', 'i', 'd', 'e', 's']
}

/// The path of a toggle's raw value: `Toggles:<key>`.
pub open spec fn toggle_path(key: Seq<char>) -> Seq<Seq<char>> {
    seq![toggles_word(), key]
}

/// The path of a user's override: `TogglesOverrides:<key>:<user>`.
pub open spec fn override_path(key: Seq<char>, user: Seq<char>) -> Seq<Seq<char>> {
    seq![overrides_word(), key, user]
}

/// The indices found are in range.
proof fn lemma_index_bounds(entries: Seq<(Seq<char>, Json)>, key: Seq<char>)
    ensures
        -1 <= exact_index(entries, key) < entries.len(),
        -1 <= folded_index(entries, key) < entries.len(),
    decreases entries.len(),
{
    if entries.len() > 0 {
        lemma_index_bounds(entries.drop_last(), key);
    }
}

/// A match found within a prefix is the match of the whole sequence.
proof fn lemma_index_prefix(entries: Seq<(Seq<char>, Json)>, key: Seq<char>, k: int)
    requires
        0 <= k <= entries.len(),
    ensures
        exact_index(entries.take(k), key) >= 0 ==> exact_index(entries, key) == exact_index(
            entries.take(k),
            key,
        ),
        folded_index(entries.take(k), key) >= 0 ==> folded_index(entries, key) == folded_index(
            entries.take(k),
            key,
        ),
    decreases entries.len() - k,
{
    if k < entries.len() {
        lemma_index_prefix(entries, key, k + 1);
        assert(entries.take(k + 1).drop_last() =~= entries.take(k));
    } else {
        assert(entries.take(k) =~= entries);
    }
}

/// Index of the entry a key selects, or `-1`.
pub fn find_key(entries: &Vec<(String, ConfigValue)>, key: &[char]) -> (r: Option<usize>)
    ensures
        match r {
            Some(i) => i == key_index(entries_view(entries@), key@) && i < entries@.len(),
            None => key_index(entries_view(entries@), key@) == -1,
        },
{
    let ghost model = entries_view(entries@);
    proof {
        lemma_entries_view(entries@);
        lemma_index_bounds(model, key@);
    }
    let n = entries.len();
    let mut i: usize = 0;
    assert(model.take(0) =~= Seq::<(Seq<char>, Json)>::empty());
    while i < n
        invariant
            n == entries@.len(),
            model == entries_view(entries@),
            model.len() == n,
            forall|t: int|
                0 <= t < n ==> #[trigger] model[t] == (entries@[t].0@, entries@[t].1@),
            i <= n,
            exact_index(model.take(i as int), key@) == -1,
        decreases n - i,
    {
        let k = chars_of(entries[i].0.as_str());
        proof {
            assert(model.take(i + 1).drop_last() =~= model.take(i as int));
            assert(model[i as int].0 == k@);
        }
        if chars_eq(k.as_slice(), key) {
            proof {
                lemma_index_prefix(model, key@, i + 1);
            }
            return Some(i);
        }
        i = i + 1;
    }
    assert(model.take(n as int) =~= model);
    let mut j: usize = 0;
    assert(model.take(0) =~= Seq::<(Seq<char>, Json)>::empty());
    while j < n
        invariant
            n == entries@.len(),
            model == entries_view(entries@),
            model.len() == n,
            forall|t: int|
                0 <= t < n ==> #[trigger] model[t] == (entries@[t].0@, entries@[t].1@),
            j <= n,
            exact_index(model, key@) == -1,
            folded_index(model.take(j as int), key@) == -1,
        decreases n - j,
    {
        let k = chars_of(entries[j].0.as_str());
        proof {
            assert(model.take(j + 1).drop_last() =~= model.take(j as int));
            assert(model[j as int].0 == k@);
        }
        if chars_eq_ignore_case(k.as_slice(), key) {
            proof {
                lemma_index_prefix(model, key@, j + 1);
            }
            return Some(j);
        }
        j = j + 1;
    }
    assert(model.take(n as int) =~= model);
    None
}

/// The value at a key path.
pub fn navigate_path<'a>(root: &'a ConfigValue, path: &Vec<Vec<char>>) -> (r: Option<
    &'a ConfigValue,
>)
    ensures
        match r {
            Some(v) => navigate(root@, path@.map_values(|p: Vec<char>| p@)) == Some(v@),
            None => navigate(root@, path@.map_values(|p: Vec<char>| p@)) is None,
        },
{
    let ghost full = path@.map_values(|p: Vec<char>| p@);
    let mut current: &ConfigValue = root;
    let mut i: usize = 0;
    assert(full.skip(0) =~= full);
    while i < path.len()
        invariant
            i <= path@.len(),
            full == path@.map_values(|p: Vec<char>| p@),
            navigate(root@, full) == navigate(current@, full.skip(i as int)),
        decreases path@.len() - i,
    {
        assert(full.skip(i as int)[0] == path@[i as int]@);
        assert(full.skip(i as int).drop_first() =~= full.skip(i + 1));
        match current {
            ConfigValue::Object(entries) => {
                let k = find_key(entries, path[i].as_slice());
                match k {
                    None => {
                        return None;
                    },
                    Some(k) => {
                        proof {
                            lemma_entries_view(entries@);
                        }
                        current = &entries[k].1;
                    },
                }
            },
            _ => {
                return None;
            },
        }
        i = i + 1;
    }
    assert(full.skip(i as int).len() == 0);
    Some(current)
}

/// The string form of a value.
pub fn value_to_config_string(v: &ConfigValue) -> (r: Option<String>)
    ensures
        match r {
            Some(s) => config_string(v@) == Some(s@),
            None => config_string(v@) is None,
        },
{
    match v {
        ConfigValue::Bool(b) => {
            proof {
                reveal_strlit("true");
                reveal_strlit("false");
            }
            if *b {
                Some(String::from_str("true"))
            } else {
                Some(String::from_str("false"))
            }
        },
        ConfigValue::Number(n) => Some(n.text.clone()),
        ConfigValue::Str(s) => Some(s.clone()),
        _ => None,
    }
}

/// A value read as a boolean.
pub fn value_to_bool(v: &ConfigValue) -> (r: Option<bool>)
    ensures
        r == coerce_bool(v@),
{
    match v {
        ConfigValue::Bool(b) => Some(*b),
        ConfigValue::Number(n) => match n.integer {
            Some(i) => if i == 1 {
                Some(true)
            } else if i == 0 {
                Some(false)
            } else {
                None
            },
            None => None,
        },
        ConfigValue::Str(s) => match parse_boolean_value(s.as_str()) {
            Ok(b) => Some(b),
            Err(_) => None,
        },
        _ => None,
    }
}

// ---------------------------------------------------------------------------------------------
// Overlay merge
// ---------------------------------------------------------------------------------------------

/// Deep merge: where both sides are objects, each overlay entry merges into the base entry with
/// the same key (exactly), or is appended when the base has none; otherwise the overlay wins.
pub open spec fn merge(base: Json, overlay: Json) -> Json
    decreases overlay,
{
    match (base, overlay) {
        (Json::Object(b), Json::Object(o)) => Json::Object(merge_entries(b, o)),
        (_, ov) => ov,
    }
}

/// The base entries with the overlay entries merged in, in overlay order.
pub open spec fn merge_entries(base: Seq<(Seq<char>, Json)>, overlay: Seq<(Seq<char>, Json)>) -> Seq<
    (Seq<char>, Json),
>
    decreases overlay,
{
    if overlay.len() == 0 {
        base
    } else {
        let before = merge_entries(base, overlay.drop_last());
        let entry = overlay.last();
        let i = exact_index(before, entry.0);
        if 0 <= i < before.len() {
            before.update(i, (before[i].0, merge(before[i].1, entry.1)))
        } else {
            before.push(entry)
        }
    }
}

/// Merge `overlay` into `base` so overlay object keys win while sibling keys are preserved.
pub fn deep_merge(base: ConfigValue, overlay: ConfigValue) -> (r: ConfigValue)
    ensures
        r@ == merge(base@, overlay@),
    decreases overlay,
{
    let ghost whole = overlay;
    match overlay {
        ConfigValue::Object(overlay_entries) => match base {
            ConfigValue::Object(base_entries) => {
                let ghost given = overlay_entries;
                let ghost b0 = entries_view(base_entries@);
                let ghost o0 = entries_view(overlay_entries@);
                let total = overlay_entries.len();
                let mut merged = base_entries;
                let mut rest = overlay_entries;
                let mut done: usize = 0;
                proof {
                    lemma_entries_view(given@);
                    assert(o0.take(0) =~= Seq::<(Seq<char>, Json)>::empty());
                }
                while rest.len() > 0
                    invariant
                        whole == ConfigValue::Object(given),
                        whole == overlay,
                        o0 == entries_view(given@),
                        o0.len() == given@.len(),
                        total == given@.len(),
                        forall|t: int|
                            0 <= t < given@.len() ==> #[trigger] o0[t] == (
                                given@[t].0@,
                                given@[t].1@,
                            ),
                        done + rest@.len() == total,
                        forall|k: int|
                            0 <= k < rest@.len() ==> #[trigger] rest@[k] == given@[done + k],
                        entries_view(merged@) == merge_entries(b0, o0.take(done as int)),
                    decreases rest@.len(),
                {
                    assert(rest@[0] == given@[done as int]);
                    let (key, value) = rest.remove(0);
                    assert(value == given@[done as int].1);
                    let ghost entry = o0[done as int];
                    assert(entry == (key@, value@));
                    assert(forall|k: int|
                        0 <= k < rest@.len() ==> #[trigger] rest@[k] == given@[done + 1 + k]);
                    let ghost before = entries_view(merged@);
                    proof {
                        lemma_entries_view(merged@);
                        assert(o0.take(done + 1).drop_last() =~= o0.take(done as int));
                        assert(o0.take(done + 1).last() == entry);
                        assert(whole->Object_0 == given);
                        assert(decreases_to!(whole => whole->Object_0));
                        assert(decreases_to!(given => given@));
                        assert(decreases_to!(given@ => given@[done as int]));
                        assert(decreases_to!(given@[done as int] => given@[done as int].1));
                        assert(decreases_to!(whole => value));
                    }
                    let key_chars = chars_of(key.as_str());
                    let found = find_exact_key(&merged, key_chars.as_slice());
                    if let Some(i) = found {
                        let (old_key, old_value) = merged.remove(i);
                        let combined = deep_merge(old_value, value);
                        merged.insert(i, (old_key, combined));
                        proof {
                            lemma_entries_view_ext(
                                merged@,
                                before.update(
                                    i as int,
                                    (before[i as int].0, merge(before[i as int].1, entry.1)),
                                ),
                            );
                        }
                    } else {
                        merged.push((key, value));
                        proof {
                            lemma_entries_view_ext(merged@, before.push(entry));
                        }
                    }
                    done = done + 1;
                }
                assert(o0.take(done as int) =~= o0);
                ConfigValue::Object(merged)
            },
            _ => ConfigValue::Object(overlay_entries),
        },
        _ => overlay,
    }
}


/// Index of the first entry whose key is exactly `key`, or `-1`.
pub fn find_exact_key(entries: &Vec<(String, ConfigValue)>, key: &[char]) -> (r: Option<usize>)
    ensures
        match r {
            Some(i) => i == exact_index(entries_view(entries@), key@) && i < entries@.len(),
            None => exact_index(entries_view(entries@), key@) == -1,
        },
{
    let ghost model = entries_view(entries@);
    proof {
        lemma_entries_view(entries@);
        lemma_index_bounds(model, key@);
    }
    let n = entries.len();
    let mut i: usize = 0;
    assert(model.take(0) =~= Seq::<(Seq<char>, Json)>::empty());
    while i < n
        invariant
            n == entries@.len(),
            model == entries_view(entries@),
            model.len() == n,
            forall|t: int|
                0 <= t < n ==> #[trigger] model[t] == (entries@[t].0@, entries@[t].1@),
            i <= n,
            exact_index(model.take(i as int), key@) == -1,
        decreases n - i,
    {
        let k = chars_of(entries[i].0.as_str());
        proof {
            assert(model.take(i + 1).drop_last() =~= model.take(i as int));
            assert(model[i as int].0 == k@);
        }
        if chars_eq(k.as_slice(), key) {
            proof {
                lemma_index_prefix(model, key@, i + 1);
            }
            return Some(i);
        }
        i = i + 1;
    }
    assert(model.take(n as int) =~= model);
    None
}

// ---------------------------------------------------------------------------------------------
// The merged settings view
// ---------------------------------------------------------------------------------------------

/// The root after layering: an empty object, then the base merged in, then the overlay.
pub open spec fn layered(base: Option<Json>, overlay: Option<Json>) -> Json {
    let empty = Json::Object(Seq::empty());
    let with_base = match base {
        Some(b) => merge(empty, b),
        None => empty,
    };
    match overlay {
        Some(o) => merge(with_base, o),
        None => with_base,
    }
}

pub open spec fn opt_json(v: Option<ConfigValue>) -> Option<Json> {
    match v {
        Some(c) => Some(c@),
        None => None,
    }
}

/// The path of a key given as characters, each segment as characters.
pub open spec fn path_view(path: Seq<Vec<char>>) -> Seq<Seq<char>> {
    path.map_values(|p: Vec<char>| p@)
}

/// Split a colon-delimited key into its path.
pub fn colon_key_path(colon_key: &str) -> (path: Vec<Vec<char>>)
    ensures
        path_view(path@) == colon_path(colon_key@),
{
    let chars = chars_of(colon_key);
    let path = split_chars(chars.as_slice(), ':');
    assert(path_view(path@) =~= colon_path(colon_key@));
    path
}

/// The path `Toggles:<key>`.
pub fn toggle_key_path(toggle_key: &str) -> (path: Vec<Vec<char>>)
    ensures
        path_view(path@) == toggle_path(toggle_key@),
{
    let toggles: Vec<char> = vec!['T', 'o', 'g', 'g', 'l', 'e', 's'];
    assert(toggles@ =~= toggles_word());
    let mut path: Vec<Vec<char>> = Vec::new();
    path.push(toggles);
    path.push(chars_of(toggle_key));
    assert(path_view(path@) =~= toggle_path(toggle_key@));
    path
}

/// The path `TogglesOverrides:<key>:<user>`.
pub fn override_key_path(toggle_key: &str, user_id: &str) -> (path: Vec<Vec<char>>)
    ensures
        path_view(path@) == override_path(toggle_key@, user_id@),
{
    let overrides: Vec<char> = vec![
        'T', 'o', 'g', 'g', 'l', 'e', 's', 'O', 'v', 'e', 'r', 'r', 'i', 'd', 'e', 's',
    ];
    assert(overrides@ =~= overrides_word());
    let mut path: Vec<Vec<char>> = Vec::new();
    path.push(overrides);
    path.push(chars_of(toggle_key));
    path.push(chars_of(user_id));
    assert(path_view(path@) =~= override_path(toggle_key@, user_id@));
    path
}

/// The string form of the value at a path.
pub fn string_at_path(root: &ConfigValue, path: &Vec<Vec<char>>) -> (r: Option<String>)
    ensures
        opt_view(r) == string_at(root@, path_view(path@)),
{
    match navigate_path(root, path) {
        Some(v) => value_to_config_string(v),
        None => None,
    }
}

/// The boolean reading of the value at a path.
pub fn bool_at_path(root: &ConfigValue, path: &Vec<Vec<char>>) -> (r: Option<bool>)
    ensures
        r == bool_at(root@, path_view(path@)),
{
    match navigate_path(root, path) {
        Some(v) => value_to_bool(v),
        None => None,
    }
}

/// A merged, read-only view of the configuration: the base file with the environment overlay
/// merged over it, and whether any backing configuration existed at all.
pub struct AppSettings {
    root: ConfigValue,
    present: bool,
}

impl AppSettings {
    /// The merged configuration.
    pub closed spec fn root_view(&self) -> Json {
        self.root@
    }

    /// Whether any backing configuration exists.
    pub closed spec fn is_present(&self) -> bool {
        self.present
    }

    /// No configuration at all: every toggle resolves to on.
    pub fn absent() -> (s: AppSettings)
        ensures
            s.root_view() == Json::Object(Seq::empty()),
            !s.is_present(),
    {
        let s = AppSettings { root: ConfigValue::Object(Vec::new()), present: false };
        assert(entries_view(Seq::<(String, ConfigValue)>::empty()) =~= Seq::<(Seq<char>, Json)>::empty());
        s
    }

    /// Settings from an already-parsed value (a fetched snapshot): present.
    pub fn from_value(root: ConfigValue) -> (s: AppSettings)
        ensures
            s.root_view() == root@,
            s.is_present(),
    {
        AppSettings { root, present: true }
    }

    /// Layer the base file's content and then the environment overlay's content (each when it
    /// could be read) over an empty object. Present when either existed.
    pub fn load(base: Option<ConfigValue>, overlay: Option<ConfigValue>) -> (s: AppSettings)
        ensures
            s.root_view() == layered(opt_json(base), opt_json(overlay)),
            s.is_present() == (base is Some || overlay is Some),
    {
        let mut root = ConfigValue::Object(Vec::new());
        assert(entries_view(Seq::<(String, ConfigValue)>::empty()) =~= Seq::<(Seq<char>, Json)>::empty());
        let mut present = false;
        match base {
            Some(b) => {
                root = deep_merge(root, b);
                present = true;
            },
            None => {},
        }
        match overlay {
            Some(o) => {
                root = deep_merge(root, o);
                present = true;
            },
            None => {},
        }
        AppSettings { root, present }
    }

    /// Whether any backing configuration exists at all.
    pub fn present(&self) -> (b: bool)
        ensures
            b == self.is_present(),
    {
        self.present
    }

    /// The merged configuration value.
    pub fn root(&self) -> (r: &ConfigValue)
        ensures
            r@ == self.root_view(),
    {
        &self.root
    }

    /// Colon-delimited access (`FtrIO:BlueGreen:CurrentSlot`), in string form.
    pub fn get_string(&self, colon_key: &str) -> (r: Option<String>)
        ensures
            opt_view(r) == string_at(self.root_view(), colon_path(colon_key@)),
    {
        let path = colon_key_path(colon_key);
        string_at_path(&self.root, &path)
    }

    /// A boolean setting (e.g. `FtrIO:ReloadOnChange`).
    pub fn get_bool(&self, colon_key: &str) -> (r: Option<bool>)
        ensures
            r == bool_at(self.root_view(), colon_path(colon_key@)),
    {
        let path = colon_key_path(colon_key);
        bool_at_path(&self.root, &path)
    }

    /// The raw value of a toggle from the `Toggles` section, in string form.
    pub fn get_toggle_value(&self, toggle_key: &str) -> (r: Option<String>)
        ensures
            opt_view(r) == string_at(self.root_view(), toggle_path(toggle_key@)),
    {
        let path = toggle_key_path(toggle_key);
        string_at_path(&self.root, &path)
    }

    /// A per-user override from `TogglesOverrides[toggle_key][user_id]`.
    pub fn get_override(&self, toggle_key: &str, user_id: &str) -> (r: Option<bool>)
        ensures
            r == bool_at(self.root_view(), override_path(toggle_key@, user_id@)),
    {
        let path = override_key_path(toggle_key, user_id);
        bool_at_path(&self.root, &path)
    }
}

// ---------------------------------------------------------------------------------------------
// Configuration file names
// ---------------------------------------------------------------------------------------------

/// The file name of an environment's overlay: `<stem>.<environment>.<extension>`, the stem and
/// extension those of the base file (`appsettings` and `json` when it has none).
pub open spec fn overlay_name(stem: Option<Seq<char>>, environment: Seq<char>, extension: Option<Seq<char>>) -> Seq<char> {
    (match stem {
        Some(s) => s,
        None => "appsettings"@,
    }) + seq!['.'] + environment + seq!['.'] + match extension {
        Some(e) => e,
        None => "json"@,
    }
}

/// The file name of an environment's overlay next to a base file with the given stem and
/// extension.
pub fn overlay_file_name(stem: Option<&str>, environment: &str, extension: Option<&str>) -> (r: String)
    ensures
        r@ == overlay_name(
            match stem {
                Some(s) => Some(s@),
                None => None,
            },
            environment@,
            match extension {
                Some(e) => Some(e@),
                None => None,
            },
        ),
{
    let mut name = match stem {
        Some(s) => String::from_str(s),
        None => String::from_str("appsettings"),
    };
    name.append(".");
    name.append(environment);
    name.append(".");
    match extension {
        Some(e) => name.append(e),
        None => name.append("json"),
    }
    proof {
        reveal_strlit(".");
    }
    name
}

/// Whether a file name is a configuration file a report reads: `appsettings*.json`.
pub open spec fn is_settings_file_name(name: Seq<char>) -> bool {
    crate::text::starts_with(name, "appsettings"@) && crate::text::ends_with(name, ".json"@)
}

/// Whether a file name is a configuration file a report reads.
pub fn is_config_file_name(name: &str) -> (b: bool)
    ensures
        b == is_settings_file_name(name@),
{
    let chars = chars_of(name);
    let prefix = chars_of("appsettings");
    let suffix = chars_of(".json");
    crate::text::chars_starts_with(chars.as_slice(), prefix.as_slice())
        && crate::text::chars_ends_with(chars.as_slice(), suffix.as_slice())
}

} // verus!
