//! Properties of the library as a whole: how a toggle resolves whatever its source reports, how
//! the strategies bound their decisions, how keys are found, how configuration layers merge, and
//! what a flush of staged writes leaves for the next read.

use vstd::prelude::*;

use crate::cli::appconfig::{exact_get, pair_value, state_label};
use crate::cli::conformance::{case_answers, case_chain, case_resolves, case_settings, case_user};
use crate::cli::release::{folded_value, missing_keys, present_keys};
use crate::cli::report::{bump, state_counts, usage_state};
use crate::cli::appconfig::AppConfig;
use crate::cli::scan::UsageModel;
use crate::config::{
    bool_at, config_string, exact_index, folded_index, key_index, merge, merge_entries, navigate,
    override_path, string_at, text_false, text_true, toggle_path, toggles_word, Json,
};
use crate::error::{does_not_exist, out_of_range, ErrorModel};
use crate::parsing::{known_resolves, resolves, settings_status, user_override};
use crate::providers::first_wins;
use crate::runtime::{
    flushed, lemma_staged_value_at, object_entries, set_entry, staged_value, unique_keys,
    write_staged,
};
use crate::strategies::ab_test::{
    ab_allows, ab_bucket, ab_decision, ab_pick, ab_value, bucket_of_digest, sha256,
};
use vstd::utf8::encode_utf8;
use crate::strategies::boolean::{boolean_outcome, boolean_value};
use crate::strategies::percentage::{percentage_allows, percentage_decision, percentage_value};
use crate::strategies::attribute_rule::{
    attribute_rule, is_attribute_rule, rule_allows, rule_holds, RuleOperator,
};
use crate::strategies::blue_green::names_slot;
use crate::strategies::user_targeting::{
    is_user_list, targeting_allows, targeting_decision, user_entries, user_listed,
};
use crate::strategies::{chain_allows, decides, handles, known_chain_allows, known_decides, StrategyModel};
use crate::text::{eq_ignore_case, lower, split_on, trim, trim_start};

verus! {

// ---------------------------------------------------------------------------------------------
// Resolution
// ---------------------------------------------------------------------------------------------

/// Without any configuration every toggle is on, whatever the chain, the accessor, or the
/// source's answers.
pub proof fn law_unconfigured_toggle_is_on(
    chain: Seq<StrategyModel>,
    has_accessor: bool,
    key: Seq<char>,
    override_value: Option<bool>,
    raw: Result<Option<Seq<char>>, ErrorModel>,
    r: Result<bool, ErrorModel>,
)
    requires
        resolves(chain, has_accessor, key, false, override_value, raw, r),
    ensures
        r == Ok::<bool, ErrorModel>(true),
{
}

/// The settings reader agrees: without configuration every toggle is on, for every user.
pub proof fn law_unconfigured_settings_toggle_is_on(root: Json, key: Seq<char>, user: Option<Seq<char>>)
    ensures
        settings_status(root, false, key, user) == Ok::<bool, ErrorModel>(true),
{
}

/// A per-user override wins before the strategy chain, whatever the raw value; an override can
/// only come from a parser that has a context accessor.
pub proof fn law_override_wins(
    chain: Seq<StrategyModel>,
    has_accessor: bool,
    key: Seq<char>,
    value: bool,
    raw: Result<Option<Seq<char>>, ErrorModel>,
    r: Result<bool, ErrorModel>,
)
    requires
        resolves(chain, has_accessor, key, true, Some(value), raw, r),
    ensures
        r == Ok::<bool, ErrorModel>(value),
        has_accessor,
{
}

/// In the settings reader, a user's override wins over the `Toggles` value; without a current
/// user the override table is not consulted.
pub proof fn law_settings_override_wins(root: Json, key: Seq<char>, user: Seq<char>, value: bool)
    requires
        bool_at(root, override_path(key, user)) == Some(value),
    ensures
        settings_status(root, true, key, Some(user)) == Ok::<bool, ErrorModel>(value),
        settings_status(root, true, key, None) == match string_at(root, toggle_path(key)) {
            Some(v) => boolean_outcome(v),
            None => does_not_exist(key),
        },
{
}

/// A key the source does not have is `DoesNotExist`, unless an override decided first.
pub proof fn law_missing_key_does_not_exist(
    chain: Seq<StrategyModel>,
    has_accessor: bool,
    key: Seq<char>,
    r: Result<bool, ErrorModel>,
)
    requires
        resolves(chain, has_accessor, key, true, None, Ok(None), r),
    ensures
        r == does_not_exist(key),
{
}

/// When no strategy before the boolean fallback claims a raw value, the boolean strategy
/// decides it: `true`/`1` and `false`/`0` resolve, anything else is `ParsedOutOfRange`.
pub proof fn law_boolean_is_the_last_fallback(
    prefix: Seq<StrategyModel>,
    raw: Seq<char>,
    key: Seq<char>,
    has_accessor: bool,
    r: Result<bool, ErrorModel>,
)
    requires
        forall|i: int|
            0 <= i < prefix.len() ==> !(#[trigger] prefix[i] is Custom) && !handles(prefix[i], raw),
        chain_allows(prefix.push(StrategyModel::Boolean), raw, key, has_accessor, r),
    ensures
        r == boolean_outcome(raw),
        boolean_value(raw) is None ==> r == out_of_range(raw),
    decreases prefix.len(),
{
    let chain = prefix.push(StrategyModel::Boolean);
    if prefix.len() == 0 {
        assert(chain[0] == StrategyModel::Boolean);
        assert(chain.drop_first() =~= Seq::<StrategyModel>::empty());
        assert(chain_allows(chain.drop_first(), raw, key, has_accessor, r) ==> r == out_of_range(
            raw,
        ));
    } else {
        assert(chain[0] == prefix[0]);
        assert(!(prefix[0] is Custom) && !handles(prefix[0], raw));
        assert(chain.drop_first() =~= prefix.drop_first().push(StrategyModel::Boolean));
        assert forall|i: int| 0 <= i < prefix.drop_first().len() implies !(
        #[trigger] prefix.drop_first()[i] is Custom) && !handles(prefix.drop_first()[i], raw) by {
            assert(prefix.drop_first()[i] == prefix[i + 1]);
        }
        law_boolean_is_the_last_fallback(prefix.drop_first(), raw, key, has_accessor, r);
    }
}

// ---------------------------------------------------------------------------------------------
// Strategy bounds
// ---------------------------------------------------------------------------------------------

/// A `0%` rollout is always off and a rollout of `100%` or more always on, whatever the roll.
pub proof fn law_percentage_bounds(raw: Seq<char>, r: Result<bool, ErrorModel>)
    requires
        percentage_allows(raw, r),
    ensures
        percentage_value(raw) == Some(0u32) ==> r == Ok::<bool, ErrorModel>(false),
        (percentage_value(raw) matches Some(p) && p >= 100) ==> r == Ok::<bool, ErrorModel>(true),
{
    if let Some(p) = percentage_value(raw) {
        let roll = choose|roll: u32|
            roll < 100 && r == Ok::<bool, ErrorModel>(#[trigger] percentage_decision(p, roll));
        assert(r == Ok::<bool, ErrorModel>(percentage_decision(p, roll)));
    }
}

/// Every A/B bucket lies in `0..100`.
pub proof fn law_ab_bucket_in_range(user: Seq<char>, key: Seq<char>, salt: Seq<char>)
    ensures
        ab_bucket(user, key, salt) < 100,
{
}

/// A/B assignment is sticky: a known user's decision depends only on the user, the toggle, the
/// salt and the percentage, never on chance.
pub proof fn law_ab_assignment_is_sticky(
    percentage: u32,
    key: Seq<char>,
    salt: Seq<char>,
    user: Seq<char>,
    roll1: u32,
    roll2: u32,
)
    ensures
        ab_pick(percentage, key, salt, Some(user), roll1) == ab_pick(
            percentage,
            key,
            salt,
            Some(user),
            roll2,
        ),
        ab_pick(percentage, key, salt, Some(user), roll1) == (ab_bucket(user, key, salt)
            < percentage),
{
}

/// An `ab:0` experiment is always off and `ab:100` (or more) always on, with or without a user.
pub proof fn law_ab_bounds(raw: Seq<char>, key: Seq<char>, has_accessor: bool, r: Result<
    bool,
    ErrorModel,
>)
    requires
        ab_allows(raw, key, has_accessor, r),
    ensures
        (ab_value(raw) matches Some(v) && v.0 == 0) ==> r == Ok::<bool, ErrorModel>(false),
        (ab_value(raw) matches Some(v) && v.0 >= 100) ==> r == Ok::<bool, ErrorModel>(true),
{
    if let Some(v) = ab_value(raw) {
        let (u, roll) = choose|u: Option<Seq<char>>, roll: u32|
            (!has_accessor ==> u is None) && roll < 100 && r == Ok::<bool, ErrorModel>(
                #[trigger] ab_pick(v.0, key, v.1, u, roll),
            );
        match u {
            Some(user) => {
                law_ab_bucket_in_range(user, key, v.1);
            },
            None => {},
        }
    }
}

/// User targeting ignores ASCII case in the user id.
pub proof fn law_user_targeting_ignores_case(raw: Seq<char>, user1: Seq<char>, user2: Seq<char>)
    requires
        eq_ignore_case(user1, user2),
    ensures
        user_listed(raw, user1) == user_listed(raw, user2),
{
    if user_listed(raw, user1) {
        let i = choose|i: int|
            0 <= i < user_entries(raw).len() && trim(#[trigger] user_entries(raw)[i]).len() > 0
                && eq_ignore_case(trim(user_entries(raw)[i]), user1);
        assert(eq_ignore_case(trim(user_entries(raw)[i]), user2));
    }
    if user_listed(raw, user2) {
        let i = choose|i: int|
            0 <= i < user_entries(raw).len() && trim(#[trigger] user_entries(raw)[i]).len() > 0
                && eq_ignore_case(trim(user_entries(raw)[i]), user2);
        assert(eq_ignore_case(trim(user_entries(raw)[i]), user1));
    }
}

// ---------------------------------------------------------------------------------------------
// Sources
// ---------------------------------------------------------------------------------------------

/// The first source that has a value (or fails) decides the composite's answer.
pub proof fn law_first_source_wins(answers: Seq<Result<Option<Seq<char>>, ErrorModel>>, i: int)
    requires
        0 <= i < answers.len(),
        forall|j: int|
            0 <= j < i ==> #[trigger] answers[j] == Ok::<Option<Seq<char>>, ErrorModel>(None),
        answers[i] != Ok::<Option<Seq<char>>, ErrorModel>(None),
    ensures
        first_wins(answers) == answers[i],
    decreases i,
{
    if i > 0 {
        assert(answers[0] == Ok::<Option<Seq<char>>, ErrorModel>(None));
        assert forall|j: int| 0 <= j < i - 1 implies #[trigger] answers.drop_first()[j]
            == Ok::<Option<Seq<char>>, ErrorModel>(None) by {
            assert(answers.drop_first()[j] == answers[j + 1]);
        }
        law_first_source_wins(answers.drop_first(), i - 1);
    }
}

/// The composite reports a miss only when every source missed.
pub proof fn law_miss_only_when_every_source_misses(
    answers: Seq<Result<Option<Seq<char>>, ErrorModel>>,
)
    ensures
        first_wins(answers) == Ok::<Option<Seq<char>>, ErrorModel>(None) <==> forall|j: int|
            0 <= j < answers.len() ==> #[trigger] answers[j] == Ok::<Option<Seq<char>>, ErrorModel>(
                None,
            ),
    decreases answers.len(),
{
    if answers.len() > 0 {
        law_miss_only_when_every_source_misses(answers.drop_first());
        if answers[0] == Ok::<Option<Seq<char>>, ErrorModel>(None) {
            assert forall|j: int|
                0 <= j < answers.len() && (forall|t: int|
                    0 <= t < answers.drop_first().len() ==> #[trigger] answers.drop_first()[t]
                        == Ok::<Option<Seq<char>>, ErrorModel>(None)) implies #[trigger] answers[j]
                == Ok::<Option<Seq<char>>, ErrorModel>(None) by {
                if j > 0 {
                    assert(answers[j] == answers.drop_first()[j - 1]);
                }
            }
            if forall|j: int|
                0 <= j < answers.len() ==> #[trigger] answers[j] == Ok::<
                    Option<Seq<char>>,
                    ErrorModel,
                >(None) {
                assert forall|t: int| 0 <= t < answers.drop_first().len() implies #[trigger] answers.drop_first()[t]
                    == Ok::<Option<Seq<char>>, ErrorModel>(None) by {
                    assert(answers.drop_first()[t] == answers[t + 1]);
                }
            }
        }
    }
}

// ---------------------------------------------------------------------------------------------
// Key lookup
// ---------------------------------------------------------------------------------------------

/// Looking a key up ignoring ASCII case finds the same entry for every casing of the key.
proof fn lemma_folded_index_case(entries: Seq<(Seq<char>, Json)>, k1: Seq<char>, k2: Seq<char>)
    requires
        eq_ignore_case(k1, k2),
    ensures
        folded_index(entries, k1) == folded_index(entries, k2),
    decreases entries.len(),
{
    if entries.len() > 0 {
        lemma_folded_index_case(entries.drop_last(), k1, k2);
    }
}

/// Keys are found exactly first; failing that, any casing of a key finds the same entry.
pub proof fn law_key_lookup_ignores_case(entries: Seq<(Seq<char>, Json)>, k1: Seq<char>, k2: Seq<char>)
    ensures
        exact_index(entries, k1) >= 0 ==> key_index(entries, k1) == exact_index(entries, k1),
        eq_ignore_case(k1, k2) && exact_index(entries, k1) < 0 && exact_index(entries, k2) < 0
            ==> key_index(entries, k1) == key_index(entries, k2),
{
    if eq_ignore_case(k1, k2) {
        lemma_folded_index_case(entries, k1, k2);
    }
}

/// What the exact lookup finds: the first entry with the key, or `-1` when no entry has it.
proof fn lemma_exact_index_first(entries: Seq<(Seq<char>, Json)>, k: Seq<char>)
    ensures
        -1 <= exact_index(entries, k) < entries.len(),
        exact_index(entries, k) >= 0 ==> entries[exact_index(entries, k)].0 == k,
        forall|j: int|
            0 <= j < entries.len() && (exact_index(entries, k) < 0 || j < exact_index(entries, k))
                ==> #[trigger] entries[j].0 != k,
    decreases entries.len(),
{
    if entries.len() > 0 {
        let init = entries.drop_last();
        lemma_exact_index_first(init, k);
        assert forall|j: int|
            0 <= j < entries.len() && (exact_index(entries, k) < 0 || j < exact_index(entries, k))
                implies #[trigger] entries[j].0 != k by {
            if j < init.len() {
                assert(init[j] == entries[j]);
            }
        }
    }
}

/// The first entry with a key is where the exact lookup lands.
proof fn lemma_exact_index_at(entries: Seq<(Seq<char>, Json)>, k: Seq<char>, i: int)
    requires
        0 <= i < entries.len(),
        entries[i].0 == k,
        forall|j: int| 0 <= j < i ==> #[trigger] entries[j].0 != k,
    ensures
        exact_index(entries, k) == i,
{
    lemma_exact_index_first(entries, k);
}

/// Setting one key leaves the lookup of every other key, and the entry it finds, unchanged.
proof fn lemma_set_entry_other(entries: Seq<(Seq<char>, Json)>, key: Seq<char>, value: Json, k: Seq<char>)
    requires
        k != key,
    ensures
        exact_index(set_entry(entries, key, value), k) == exact_index(entries, k),
        exact_index(entries, k) >= 0 ==> set_entry(entries, key, value)[exact_index(entries, k)]
            == entries[exact_index(entries, k)],
{
    let e2 = set_entry(entries, key, value);
    lemma_exact_index_first(entries, key);
    lemma_exact_index_first(entries, k);
    lemma_exact_index_first(e2, k);
    let i = exact_index(entries, key);
    if 0 <= i < entries.len() {
        assert forall|t: int| 0 <= t < entries.len() implies #[trigger] e2[t].0 == entries[t].0 by {}
        crate::runtime::lemma_exact_index_keys(e2, entries, k);
    } else {
        let j = exact_index(entries, k);
        if j >= 0 {
            lemma_exact_index_at(e2, k, j);
        } else {
            assert forall|t: int| 0 <= t < e2.len() implies #[trigger] e2[t].0 != k by {
                if t < entries.len() {
                    assert(e2[t] == entries[t]);
                }
            }
        }
    }
}

/// After setting a key, the lookup of that key finds the value just set.
proof fn lemma_set_entry_same(entries: Seq<(Seq<char>, Json)>, key: Seq<char>, value: Json)
    ensures
        0 <= exact_index(set_entry(entries, key, value), key) < set_entry(entries, key, value).len(),
        set_entry(entries, key, value)[exact_index(set_entry(entries, key, value), key)] == (
            key,
            value,
        ),
{
    let e2 = set_entry(entries, key, value);
    lemma_exact_index_first(entries, key);
    let i = exact_index(entries, key);
    if 0 <= i < entries.len() {
        lemma_exact_index_at(e2, key, i);
    } else {
        lemma_exact_index_at(e2, key, entries.len() as int);
    }
}

// ---------------------------------------------------------------------------------------------
// Layered configuration
// ---------------------------------------------------------------------------------------------

/// Merging keeps every base entry whose key the overlay does not mention, where it was.
pub proof fn law_merge_keeps_base_entries(
    base: Seq<(Seq<char>, Json)>,
    overlay: Seq<(Seq<char>, Json)>,
    k: Seq<char>,
)
    requires
        exact_index(overlay, k) < 0,
    ensures
        exact_index(merge_entries(base, overlay), k) == exact_index(base, k),
        exact_index(base, k) >= 0 ==> merge_entries(base, overlay)[exact_index(base, k)]
            == base[exact_index(base, k)],
    decreases overlay.len(),
{
    if overlay.len() > 0 {
        let init = overlay.drop_last();
        lemma_exact_index_first(overlay, k);
        lemma_exact_index_first(init, k);
        assert forall|j: int| 0 <= j < init.len() implies #[trigger] init[j].0 != k by {
            assert(init[j] == overlay[j]);
        }
        law_merge_keeps_base_entries(base, init, k);
        let before = merge_entries(base, init);
        let entry = overlay.last();
        assert(entry.0 != k);
        lemma_exact_index_first(before, entry.0);
        lemma_exact_index_first(before, k);
        let i = exact_index(before, entry.0);
        let after = merge_entries(base, overlay);
        if 0 <= i < before.len() {
            assert(after == before.update(i, (before[i].0, merge(before[i].1, entry.1))));
            assert forall|t: int| 0 <= t < before.len() implies #[trigger] after[t].0 == before[t].0 by {}
            crate::runtime::lemma_exact_index_keys(after, before, k);
        } else {
            assert(after == before.push(entry));
            let j = exact_index(before, k);
            if j >= 0 {
                lemma_exact_index_at(after, k, j);
            } else {
                assert forall|t: int| 0 <= t < after.len() implies #[trigger] after[t].0 != k by {
                    if t < before.len() {
                        assert(after[t] == before[t]);
                    }
                }
                lemma_exact_index_first(after, k);
            }
        }
    }
}

/// Merging gives a key the overlay mentions the overlay's value merged over the base's (objects
/// merge key by key; anything else is replaced by the overlay), or the overlay's value when the
/// base has none. Keys in a configuration object are unique.
pub proof fn law_merge_overlay_wins(
    base: Seq<(Seq<char>, Json)>,
    overlay: Seq<(Seq<char>, Json)>,
    k: Seq<char>,
)
    requires
        exact_index(overlay, k) >= 0,
        forall|a: int, b: int|
            0 <= a < b < overlay.len() ==> #[trigger] overlay[a].0 != #[trigger] overlay[b].0,
    ensures
        ({
            let m = merge_entries(base, overlay);
            let i = exact_index(m, k);
            let o = overlay[exact_index(overlay, k)].1;
            &&& 0 <= i < m.len()
            &&& m[i].1 == (if exact_index(base, k) >= 0 {
                merge(base[exact_index(base, k)].1, o)
            } else {
                o
            })
            &&& !(o is Object) ==> m[i].1 == o
        }),
    decreases overlay.len(),
{
    let init = overlay.drop_last();
    let entry = overlay.last();
    lemma_exact_index_first(overlay, k);
    let before = merge_entries(base, init);
    let after = merge_entries(base, overlay);
    let o = overlay[exact_index(overlay, k)].1;
    assert forall|a: int, b: int| 0 <= a < b < init.len() implies #[trigger] init[a].0
        != #[trigger] init[b].0 by {
        assert(init[a] == overlay[a] && init[b] == overlay[b]);
    }
    lemma_exact_index_first(before, entry.0);
    let i = exact_index(before, entry.0);
    if entry.0 == k {
        assert(exact_index(overlay, k) == overlay.len() - 1) by {
            lemma_exact_index_first(overlay, k);
            if exact_index(overlay, k) < overlay.len() - 1 {
                assert(overlay[exact_index(overlay, k)].0 != overlay[overlay.len() - 1].0);
            }
        }
        lemma_exact_index_first(init, k);
        assert forall|j: int| 0 <= j < init.len() implies #[trigger] init[j].0 != k by {
            assert(init[j] == overlay[j]);
            assert(overlay[j].0 != overlay[overlay.len() - 1].0);
        }
        law_merge_keeps_base_entries(base, init, k);
        if 0 <= i < before.len() {
            assert(after == before.update(i, (before[i].0, merge(before[i].1, entry.1))));
            assert forall|t: int| 0 <= t < before.len() implies #[trigger] after[t].0 == before[t].0 by {}
            crate::runtime::lemma_exact_index_keys(after, before, k);
        } else {
            assert(after == before.push(entry));
            lemma_exact_index_first(before, k);
            lemma_exact_index_at(after, k, before.len() as int);
        }
    } else {
        assert(exact_index(overlay, k) < overlay.len() - 1);
        lemma_exact_index_at(init, k, exact_index(overlay, k));
        law_merge_overlay_wins(base, init, k);
        lemma_exact_index_first(before, k);
        let j = exact_index(before, k);
        if 0 <= i < before.len() {
            assert(after == before.update(i, (before[i].0, merge(before[i].1, entry.1))));
            assert forall|t: int| 0 <= t < before.len() implies #[trigger] after[t].0 == before[t].0 by {}
            crate::runtime::lemma_exact_index_keys(after, before, k);
            assert(i != j);
        } else {
            assert(after == before.push(entry));
            lemma_exact_index_at(after, k, j);
        }
    }
}

// ---------------------------------------------------------------------------------------------
// Staged writes
// ---------------------------------------------------------------------------------------------

/// With unique keys, a key staged before the last entry keeps its staged value without it.
proof fn lemma_staged_value_init(staged: Seq<(Seq<char>, bool)>, k: Seq<char>)
    requires
        unique_keys(staged),
        staged.len() > 0,
        staged.last().0 != k,
    ensures
        unique_keys(staged.drop_last()),
        staged_value(staged.drop_last(), k) == staged_value(staged, k),
{
    let init = staged.drop_last();
    assert forall|a: int, b: int|
        0 <= a < init.len() && 0 <= b < init.len() && a != b implies #[trigger] init[a].0
            != #[trigger] init[b].0 by {
        assert(init[a] == staged[a] && init[b] == staged[b]);
    }
    if exists|j: int| 0 <= j < staged.len() && #[trigger] staged[j].0 == k {
        let j = choose|j: int| 0 <= j < staged.len() && #[trigger] staged[j].0 == k;
        assert(j < init.len());
        assert(init[j] == staged[j]);
        lemma_staged_value_at(staged, j);
        lemma_staged_value_at(init, j);
    } else {
        assert forall|j: int| 0 <= j < init.len() implies #[trigger] init[j].0 != k by {
            assert(init[j] == staged[j]);
        }
    }
}

/// Writing staged values into a section leaves each staged key holding its staged value.
proof fn lemma_write_staged_has(
    section: Seq<(Seq<char>, Json)>,
    staged: Seq<(Seq<char>, bool)>,
    k: Seq<char>,
    v: bool,
)
    requires
        unique_keys(staged),
        staged_value(staged, k) == Some(v),
    ensures
        0 <= exact_index(write_staged(section, staged), k) < write_staged(section, staged).len(),
        write_staged(section, staged)[exact_index(write_staged(section, staged), k)] == (
            k,
            Json::Bool(v),
        ),
    decreases staged.len(),
{
    let last = staged.last();
    assert(staged.len() > 0);
    let before = write_staged(section, staged.drop_last());
    if last.0 == k {
        lemma_staged_value_at(staged, staged.len() - 1);
        lemma_set_entry_same(before, k, Json::Bool(v));
    } else {
        lemma_staged_value_init(staged, k);
        lemma_write_staged_has(section, staged.drop_last(), k, v);
        lemma_set_entry_other(before, last.0, Json::Bool(last.1), k);
    }
}

/// Writing staged values into a section leaves every key that was not staged as it was.
proof fn lemma_write_staged_keeps(
    section: Seq<(Seq<char>, Json)>,
    staged: Seq<(Seq<char>, bool)>,
    k: Seq<char>,
)
    requires
        unique_keys(staged),
        staged_value(staged, k) is None,
    ensures
        exact_index(write_staged(section, staged), k) == exact_index(section, k),
        exact_index(section, k) >= 0 ==> write_staged(section, staged)[exact_index(section, k)]
            == section[exact_index(section, k)],
    decreases staged.len(),
{
    if staged.len() > 0 {
        let last = staged.last();
        if last.0 == k {
            lemma_staged_value_at(staged, staged.len() - 1);
        }
        lemma_staged_value_init(staged, k);
        lemma_write_staged_keeps(section, staged.drop_last(), k);
        lemma_set_entry_other(write_staged(section, staged.drop_last()), last.0, Json::Bool(last.1), k);
    }
}

/// The `Toggles` section of a flushed configuration and where it sits.
proof fn lemma_flushed_section(root: Json, staged: Seq<(Seq<char>, bool)>)
    ensures
        ({
            let top = object_entries(flushed(root, staged));
            let i = exact_index(top, toggles_word());
            let old_top = object_entries(root);
            let j = exact_index(old_top, toggles_word());
            let section = if 0 <= j < old_top.len() {
                object_entries(old_top[j].1)
            } else {
                Seq::empty()
            };
            &&& 0 <= i < top.len()
            &&& key_index(top, toggles_word()) == i
            &&& top[i] == (toggles_word(), Json::Object(write_staged(section, staged)))
        }),
{
    let old_top = object_entries(root);
    let j = exact_index(old_top, toggles_word());
    let section = if 0 <= j < old_top.len() {
        object_entries(old_top[j].1)
    } else {
        Seq::empty()
    };
    lemma_set_entry_same(old_top, toggles_word(), Json::Object(write_staged(section, staged)));
}

/// A read after a flush gives back what was staged: each staged toggle reads as its staged
/// value, both as a boolean and in the string form the strategies see.
pub proof fn law_flush_then_read(root: Json, staged: Seq<(Seq<char>, bool)>, k: Seq<char>, v: bool)
    requires
        unique_keys(staged),
        staged_value(staged, k) == Some(v),
    ensures
        navigate(flushed(root, staged), toggle_path(k)) == Some(Json::Bool(v)),
        string_at(flushed(root, staged), toggle_path(k)) == Some(
            if v {
                text_true()
            } else {
                text_false()
            },
        ),
        bool_at(flushed(root, staged), toggle_path(k)) == Some(v),
{
    let f = flushed(root, staged);
    let top = object_entries(f);
    lemma_flushed_section(root, staged);
    let i = exact_index(top, toggles_word());
    let section = match top[i].1 {
        Json::Object(e) => e,
        _ => Seq::empty(),
    };
    let old_top = object_entries(root);
    let j = exact_index(old_top, toggles_word());
    let old_section = if 0 <= j < old_top.len() {
        object_entries(old_top[j].1)
    } else {
        Seq::empty()
    };
    assert(section == write_staged(old_section, staged));
    lemma_write_staged_has(old_section, staged, k, v);
    let path = toggle_path(k);
    assert(path[0] == toggles_word());
    assert(path.drop_first() =~= seq![k]);
    assert(seq![k][0] == k);
    assert(seq![k].drop_first() =~= Seq::<Seq<char>>::empty());
    let s = exact_index(section, k);
    assert(key_index(section, k) == s);
    assert(navigate(Json::Bool(v), Seq::<Seq<char>>::empty()) == Some(Json::Bool(v)));
    assert(navigate(Json::Object(section), seq![k]) == Some(Json::Bool(v)));
}

/// A flush leaves every toggle that was not staged exactly as it was in the `Toggles` section.
pub proof fn law_flush_keeps_unstaged_toggles(root: Json, staged: Seq<(Seq<char>, bool)>, k: Seq<char>)
    requires
        unique_keys(staged),
        staged_value(staged, k) is None,
    ensures
        ({
            let old_top = object_entries(root);
            let j = exact_index(old_top, toggles_word());
            let old_section = if 0 <= j < old_top.len() {
                object_entries(old_top[j].1)
            } else {
                Seq::empty()
            };
            let top = object_entries(flushed(root, staged));
            let new_section = object_entries(top[exact_index(top, toggles_word())].1);
            &&& exact_index(new_section, k) == exact_index(old_section, k)
            &&& exact_index(old_section, k) >= 0 ==> new_section[exact_index(old_section, k)]
                == old_section[exact_index(old_section, k)]
        }),
{
    let old_top = object_entries(root);
    let j = exact_index(old_top, toggles_word());
    let old_section = if 0 <= j < old_top.len() {
        object_entries(old_top[j].1)
    } else {
        Seq::empty()
    };
    lemma_flushed_section(root, staged);
    lemma_write_staged_keeps(old_section, staged, k);
}

/// A flush keeps every other top-level section: its key is found where it was, with the same
/// value. A root that is not an object is replaced by an object holding the `Toggles` section.
pub proof fn law_flush_keeps_other_sections(root: Json, staged: Seq<(Seq<char>, bool)>, k: Seq<char>)
    requires
        k != toggles_word(),
    ensures
        flushed(root, staged) is Object,
        exact_index(object_entries(flushed(root, staged)), k) == exact_index(object_entries(root), k),
        exact_index(object_entries(root), k) >= 0 ==> object_entries(flushed(root, staged))[
            exact_index(object_entries(root), k)] == object_entries(root)[exact_index(
            object_entries(root),
            k,
        )],
{
    let old_top = object_entries(root);
    let j = exact_index(old_top, toggles_word());
    let old_section = if 0 <= j < old_top.len() {
        object_entries(old_top[j].1)
    } else {
        Seq::empty()
    };
    lemma_set_entry_other(old_top, toggles_word(), Json::Object(write_staged(old_section, staged)), k);
}

// ---------------------------------------------------------------------------------------------
// Tooling
// ---------------------------------------------------------------------------------------------

/// A report classifies a value the boolean strategy reads as on as `ON`, and one it reads as off
/// as `OFF`, whatever the slots.
pub proof fn law_report_agrees_with_boolean_parsing(
    raw: Seq<char>,
    current_slot: Option<Seq<char>>,
    known: Seq<Seq<char>>,
)
    ensures
        boolean_value(raw) == Some(true) ==> state_label(Some(raw), current_slot, known) == "ON"@,
        boolean_value(raw) == Some(false) ==> state_label(Some(raw), current_slot, known)
            == "OFF"@,
{
}

/// A release check puts every manifest key in exactly one of its lists: present when some
/// configured toggle has that key ignoring ASCII case, missing otherwise.
pub proof fn law_release_check_partitions_the_manifest(
    keys: Seq<Seq<char>>,
    toggles: Seq<(Seq<char>, Seq<char>)>,
)
    ensures
        present_keys(keys, toggles).len() + missing_keys(keys, toggles).len() == keys.len(),
        forall|i: int|
            0 <= i < missing_keys(keys, toggles).len() ==> folded_value(
                toggles,
                lower(#[trigger] missing_keys(keys, toggles)[i]),
            ) is None,
        forall|i: int|
            0 <= i < present_keys(keys, toggles).len() ==> folded_value(
                toggles,
                lower(#[trigger] present_keys(keys, toggles)[i].0),
            ) == Some(present_keys(keys, toggles)[i].1),
    decreases keys.len(),
{
    if keys.len() > 0 {
        law_release_check_partitions_the_manifest(keys.drop_last(), toggles);
        let p0 = present_keys(keys.drop_last(), toggles);
        let m0 = missing_keys(keys.drop_last(), toggles);
        let p = present_keys(keys, toggles);
        let m = missing_keys(keys, toggles);
        assert forall|i: int| 0 <= i < m.len() implies folded_value(toggles, lower(#[trigger] m[i]))
            is None by {
            if i < m0.len() {
                assert(m[i] == m0[i]);
            }
        }
        assert forall|i: int| 0 <= i < p.len() implies folded_value(toggles, lower(#[trigger] p[i].0))
            == Some(p[i].1) by {
            if i < p0.len() {
                assert(p[i] == p0[i]);
            }
        }
    }
}

/// The sum of a list of counts.
pub open spec fn count_total(counts: Seq<(Seq<char>, nat)>) -> nat
    decreases counts.len(),
{
    if counts.len() == 0 {
        0
    } else {
        count_total(counts.drop_last()) + counts.last().1
    }
}

proof fn lemma_count_total_update(counts: Seq<(Seq<char>, nat)>, i: int, c: nat)
    requires
        0 <= i < counts.len(),
    ensures
        count_total(counts.update(i, (counts[i].0, c))) + counts[i].1 == count_total(counts) + c,
    decreases counts.len(),
{
    let u = counts.update(i, (counts[i].0, c));
    if i == counts.len() - 1 {
        assert(u.drop_last() =~= counts.drop_last());
    } else {
        lemma_count_total_update(counts.drop_last(), i, c);
        assert(u.drop_last() =~= counts.drop_last().update(i, (counts[i].0, c)));
    }
}

/// A report's per-state counts add up to the number of usages it lists.
pub proof fn law_state_counts_cover_every_usage(config: AppConfig, usages: Seq<UsageModel>)
    ensures
        count_total(state_counts(config, usages)) == usages.len(),
    decreases usages.len(),
{
    if usages.len() > 0 {
        law_state_counts_cover_every_usage(config, usages.drop_last());
        let before = state_counts(config, usages.drop_last());
        let state = usage_state(config, usages.last());
        let i = crate::cli::appconfig::pair_index(before, state);
        crate::cli::appconfig::lemma_pair_index_bounds(before, state);
        if 0 <= i < before.len() {
            lemma_count_total_update(before, i, before[i].1 + 1);
        } else {
            assert(before.push((state, 1)).drop_last() =~= before);
        }
    }
}

// ---------------------------------------------------------------------------------------------
// Known user contexts
// ---------------------------------------------------------------------------------------------

proof fn lemma_known_decides_is_decides(
    m: StrategyModel,
    raw: Seq<char>,
    key: Seq<char>,
    user: Option<Seq<char>>,
    attributes: spec_fn(Seq<char>) -> Option<Seq<char>>,
    r: Result<bool, ErrorModel>,
)
    requires
        known_decides(m, raw, key, user, attributes, r),
    ensures
        decides(m, raw, key, true, r),
{
    match m {
        StrategyModel::UserTargeting => {
            if is_user_list(raw) {
                assert(r == Ok::<bool, ErrorModel>(targeting_decision(raw, user)));
            }
        },
        StrategyModel::AttributeRule => {
            if let Some(rule) = attribute_rule(raw) {
                assert(r == Ok::<bool, ErrorModel>(
                    rule_holds(rule.1, attributes(rule.0), rule.2),
                ));
            }
        },
        StrategyModel::AbTest => {
            if let Some(v) = ab_value(raw) {
                let roll = choose|roll: u32|
                    roll < 100 && r == Ok::<bool, ErrorModel>(#[trigger] ab_pick(v.0, key, v.1, user, roll));
                assert(r == Ok::<bool, ErrorModel>(ab_pick(v.0, key, v.1, user, roll)));
            }
        },
        _ => {},
    }
}

/// What a chain decides for a known user and attributes is one of the outcomes it may decide
/// when a context accessor supplies them.
pub proof fn law_known_chain_outcome_is_a_chain_outcome(
    chain: Seq<StrategyModel>,
    raw: Seq<char>,
    key: Seq<char>,
    user: Option<Seq<char>>,
    attributes: spec_fn(Seq<char>) -> Option<Seq<char>>,
    r: Result<bool, ErrorModel>,
)
    requires
        known_chain_allows(chain, raw, key, user, attributes, r),
    ensures
        chain_allows(chain, raw, key, true, r),
    decreases chain.len(),
{
    if chain.len() > 0 && !(chain[0] is Custom) {
        if handles(chain[0], raw) {
            lemma_known_decides_is_decides(chain[0], raw, key, user, attributes, r);
        } else {
            law_known_chain_outcome_is_a_chain_outcome(chain.drop_first(), raw, key, user, attributes, r);
        }
    }
}

/// Resolving for a known user and attributes gives one of the outcomes the resolution allows for
/// a parser with a context accessor, from the same reported answers.
pub proof fn law_known_resolution_is_a_resolution(
    chain: Seq<StrategyModel>,
    key: Seq<char>,
    present: bool,
    override_value: Option<bool>,
    raw: Result<Option<Seq<char>>, ErrorModel>,
    user: Option<Seq<char>>,
    attributes: spec_fn(Seq<char>) -> Option<Seq<char>>,
    r: Result<bool, ErrorModel>,
)
    requires
        known_resolves(chain, key, present, override_value, raw, user, attributes, r),
    ensures
        resolves(chain, true, key, present, override_value, raw, r),
{
    if present && override_value is None {
        if let Ok(Some(v)) = raw {
            law_known_chain_outcome_is_a_chain_outcome(chain, v, key, user, attributes, r);
        }
    }
}

/// A conformance case resolves as a strategy parser with a context accessor does: its outcome is
/// one the resolution allows for the case chain, the case user's override and the value its
/// configuration holds for the key.
pub proof fn law_case_resolution_is_a_resolution(case: Json, key: Seq<char>, status: Result<
    bool,
    ErrorModel,
>)
    requires
        case_resolves(case, key, status),
    ensures
        ({
            let config = exact_get(case, "config"@);
            let settings = case_settings(config);
            let user = case_user(exact_get(case, "context"@));
            resolves(
                case_chain(config),
                true,
                key,
                settings.1,
                user_override(settings.0, key, user),
                Ok(string_at(settings.0, toggle_path(key))),
                status,
            )
        }),
{
    let config = exact_get(case, "config"@);
    let context = exact_get(case, "context"@);
    let settings = case_settings(config);
    law_known_resolution_is_a_resolution(
        case_chain(config),
        key,
        settings.1,
        user_override(settings.0, key, case_user(context)),
        Ok(string_at(settings.0, toggle_path(key))),
        case_user(context),
        case_answers(context),
        status,
    );
}

// ---------------------------------------------------------------------------------------------
// Decisions for the context's own user and attributes
// ---------------------------------------------------------------------------------------------

/// For a known user, an `ab:<p>[:<salt>]` value is decided by that user's bucket alone: the
/// magnitude, modulo 100, of the little-endian signed word in the first four bytes of the SHA-256
/// of `user:key`, with `:salt` appended when the value carries a salt. The toggle is on exactly
/// when that bucket is below `p`; no roll is involved.
pub proof fn law_ab_known_user_decides_by_salted_bucket(
    raw: Seq<char>,
    key: Seq<char>,
    user: Seq<char>,
    attributes: spec_fn(Seq<char>) -> Option<Seq<char>>,
    r: Result<bool, ErrorModel>,
)
    requires
        ab_value(raw) is Some,
        known_decides(StrategyModel::AbTest, raw, key, Some(user), attributes, r),
    ensures
        ({
            let p = ab_value(raw).unwrap().0;
            let salt = ab_value(raw).unwrap().1;
            let hashed = if salt.len() == 0 {
                user + seq![':'] + key
            } else {
                user + seq![':'] + key + seq![':'] + salt
            };
            r == Ok::<bool, ErrorModel>(bucket_of_digest(sha256(encode_utf8(hashed))) < p)
        }),
{
    let v = ab_value(raw).unwrap();
    let roll = choose|roll: u32|
        roll < 100 && r == Ok::<bool, ErrorModel>(#[trigger] ab_pick(v.0, key, v.1, Some(user), roll));
    assert(r == Ok::<bool, ErrorModel>(ab_pick(v.0, key, v.1, Some(user), roll)));
}

/// For a known user, two decisions of the same A/B value and toggle agree: the assignment is
/// sticky.
pub proof fn law_ab_known_user_is_sticky(
    raw: Seq<char>,
    key: Seq<char>,
    user: Seq<char>,
    attributes: spec_fn(Seq<char>) -> Option<Seq<char>>,
    r1: Result<bool, ErrorModel>,
    r2: Result<bool, ErrorModel>,
)
    requires
        known_decides(StrategyModel::AbTest, raw, key, Some(user), attributes, r1),
        known_decides(StrategyModel::AbTest, raw, key, Some(user), attributes, r2),
    ensures
        r1 == r2,
{
    if ab_value(raw) is Some {
        law_ab_known_user_decides_by_salted_bucket(raw, key, user, attributes, r1);
        law_ab_known_user_decides_by_salted_bucket(raw, key, user, attributes, r2);
    }
}

/// A user list targets a known user exactly when some entry of the comma-separated list after
/// `users:`, trimmed and not empty, equals the user id ignoring ASCII case; without a user it is
/// off.
pub proof fn law_user_list_targets_any_listed_user(
    raw: Seq<char>,
    key: Seq<char>,
    user: Option<Seq<char>>,
    attributes: spec_fn(Seq<char>) -> Option<Seq<char>>,
    r: Result<bool, ErrorModel>,
)
    requires
        is_user_list(raw),
        known_decides(StrategyModel::UserTargeting, raw, key, user, attributes, r),
    ensures
        user is None ==> r == Ok::<bool, ErrorModel>(false),
        user matches Some(u) ==> (r == Ok::<bool, ErrorModel>(true) <==> exists|i: int|
            0 <= i < split_on(trim_start(raw).skip(6), ',').len() && trim(
                #[trigger] split_on(trim_start(raw).skip(6), ',')[i],
            ).len() > 0 && lower(trim(split_on(trim_start(raw).skip(6), ',')[i])) == lower(u)),
        r is Ok,
{
    if let Some(u) = user {
        let entries = split_on(trim_start(raw).skip(6), ',');
        assert(user_entries(raw) == entries);
        if user_listed(raw, u) {
            let i = choose|i: int|
                0 <= i < user_entries(raw).len() && trim(#[trigger] user_entries(raw)[i]).len() > 0
                    && eq_ignore_case(trim(user_entries(raw)[i]), u);
            assert(0 <= i < entries.len() && trim(entries[i]).len() > 0 && lower(trim(entries[i]))
                == lower(u));
        } else {
            assert forall|i: int|
                0 <= i < entries.len() && trim(#[trigger] entries[i]).len() > 0 implies lower(
                    trim(entries[i]),
                ) != lower(u) by {
                if lower(trim(entries[i])) == lower(u) {
                    assert(eq_ignore_case(trim(user_entries(raw)[i]), u));
                }
            }
        }
    }
}

/// An `in` rule holds for a present attribute exactly when some comma-separated entry of the
/// expected list, trimmed, equals the attribute ignoring ASCII case; for an absent attribute it
/// does not hold.
pub proof fn law_in_rule_matches_any_entry(
    raw: Seq<char>,
    key: Seq<char>,
    user: Option<Seq<char>>,
    attributes: spec_fn(Seq<char>) -> Option<Seq<char>>,
    r: Result<bool, ErrorModel>,
)
    requires
        attribute_rule(raw) matches Some(rule) && rule.1 == RuleOperator::In,
        known_decides(StrategyModel::AttributeRule, raw, key, user, attributes, r),
    ensures
        ({
            let rule = attribute_rule(raw).unwrap();
            let entries = split_on(rule.2, ',');
            &&& attributes(rule.0) is None ==> r == Ok::<bool, ErrorModel>(false)
            &&& attributes(rule.0) matches Some(a) ==> (r == Ok::<bool, ErrorModel>(true) <==> exists|
                i: int,
            | 0 <= i < entries.len() && lower(trim(#[trigger] entries[i])) == lower(a))
        }),
{
}

/// For the same attribute and list, a `notIn` rule decides the opposite of an `in` rule.
pub proof fn law_not_in_is_the_opposite_of_in(
    raw_in: Seq<char>,
    raw_not_in: Seq<char>,
    key: Seq<char>,
    user: Option<Seq<char>>,
    attributes: spec_fn(Seq<char>) -> Option<Seq<char>>,
    r_in: Result<bool, ErrorModel>,
    r_not_in: Result<bool, ErrorModel>,
)
    requires
        attribute_rule(raw_in) matches Some(rule) && rule.1 == RuleOperator::In,
        attribute_rule(raw_not_in) matches Some(rule) && rule.1 == RuleOperator::NotIn,
        attribute_rule(raw_in).unwrap().0 == attribute_rule(raw_not_in).unwrap().0,
        attribute_rule(raw_in).unwrap().2 == attribute_rule(raw_not_in).unwrap().2,
        known_decides(StrategyModel::AttributeRule, raw_in, key, user, attributes, r_in),
        known_decides(StrategyModel::AttributeRule, raw_not_in, key, user, attributes, r_not_in),
    ensures
        r_in matches Ok(b) && r_not_in == Ok::<bool, ErrorModel>(!b),
{
}

/// With the settings' `TogglesOverrides:<key>:<user>` entry set for a known user, that value is
/// the decision, whatever the raw value, the chain and the attributes.
pub proof fn law_settings_override_of_the_known_user_wins(
    chain: Seq<StrategyModel>,
    root: Json,
    key: Seq<char>,
    user: Seq<char>,
    value: bool,
    raw: Result<Option<Seq<char>>, ErrorModel>,
    attributes: spec_fn(Seq<char>) -> Option<Seq<char>>,
    r: Result<bool, ErrorModel>,
)
    requires
        bool_at(root, override_path(key, user)) == Some(value),
        known_resolves(
            chain,
            key,
            true,
            user_override(root, key, Some(user)),
            raw,
            Some(user),
            attributes,
            r,
        ),
    ensures
        r == Ok::<bool, ErrorModel>(value),
{
}

} // verus!
