//! Resolving one conformance case: a toggle key, a configuration and a user context, resolved by
//! a strategy parser with the full chain for the case's user and attributes, with the outcome
//! named for a cross-implementation comparison.

use vstd::prelude::*;
use vstd::string::*;

use crate::cli::appconfig::{
    configured_current_slot, configured_known_slots, exact_child, exact_get, object_or_empty,
    pair_value, text_of, text_pairs, upsert, upsert_text,
};
use crate::config::{
    entries_view, layered, lemma_entries_view, string_at, toggle_path, AppSettings, ConfigValue,
    Json,
};
use crate::context::{opt_view, KnownContext};
use crate::error::{outcome, ErrorModel, ToggleError};
use crate::parsing::{comma_list, known_resolves, list_entries, user_override};
use crate::runtime::ToggleParserBuilder;
use crate::strategies::blue_green::{default_slots, texts};
use crate::strategies::StrategyModel;

verus! {

/// The string attributes of a case context, a later one replacing an earlier one of the same
/// name.
pub open spec fn string_attributes(entries: Seq<(Seq<char>, Json)>) -> Seq<(Seq<char>, Seq<char>)>
    decreases entries.len(),
{
    if entries.len() == 0 {
        Seq::empty()
    } else {
        let before = string_attributes(entries.drop_last());
        match entries.last().1 {
            Json::Str(s) => upsert(before, entries.last().0, s),
            _ => before,
        }
    }
}

/// The user context a case describes: `userId` and the string values of `attributes`.
pub fn case_context(context: Option<&ConfigValue>) -> (r: KnownContext)
    ensures
        r.user() == match context {
            Some(c) => text_of(exact_get(c@, "userId"@)),
            None => None,
        },
        r.attribute_pairs() == match context {
            Some(c) => string_attributes(object_or_empty(exact_get(c@, "attributes"@))),
            None => Seq::empty(),
        },
{
    let mut attributes: Vec<(String, String)> = Vec::new();
    assert(text_pairs(attributes@) =~= Seq::<(Seq<char>, Seq<char>)>::empty());
    let user_id = match context {
        Some(c) => match exact_child(c, "userId") {
            Some(ConfigValue::Str(u)) => Some(u.clone()),
            _ => None,
        },
        None => None,
    };
    if let Some(c) = context {
        if let Some(ConfigValue::Object(entries)) = exact_child(c, "attributes") {
            let ghost model = entries_view(entries@);
            proof {
                lemma_entries_view(entries@);
            }
            let mut i: usize = 0;
            assert(model.take(0) =~= Seq::<(Seq<char>, Json)>::empty());
            while i < entries.len()
                invariant
                    i <= entries@.len(),
                    model == entries_view(entries@),
                    model.len() == entries@.len(),
                    forall|t: int|
                        0 <= t < entries@.len() ==> #[trigger] model[t] == (
                            entries@[t].0@,
                            entries@[t].1@,
                        ),
                    text_pairs(attributes@) == string_attributes(model.take(i as int)),
                decreases entries@.len() - i,
            {
                proof {
                    assert(model.take(i + 1).drop_last() =~= model.take(i as int));
                    assert(model.take(i + 1).last() == model[i as int]);
                }
                if let ConfigValue::Str(text) = &entries[i].1 {
                    upsert_text(&mut attributes, entries[i].0.clone(), text.clone());
                }
                i = i + 1;
            }
            assert(model.take(i as int) =~= model);
        }
    }
    KnownContext::new(user_id, attributes)
}

/// The blue-green settings of a case's configuration: the current slot and the configured known
/// slots (none when unset).
pub fn parse_blue_green(config: &ConfigValue) -> (r: (Option<String>, Vec<String>))
    ensures
        opt_view(r.0) == configured_current_slot(config@),
        texts(r.1@) == match configured_known_slots(config@) {
            Some(list) => list_entries(list),
            None => Seq::<Seq<char>>::empty(),
        },
{
    let blue_green = match exact_child(config, "FtrIO") {
        Some(f) => exact_child(f, "BlueGreen"),
        None => None,
    };
    let current = match blue_green {
        Some(b) => match exact_child(b, "CurrentSlot") {
            Some(ConfigValue::Str(s)) => Some(s.clone()),
            _ => None,
        },
        None => None,
    };
    let known = match blue_green {
        Some(b) => match exact_child(b, "KnownSlots") {
            Some(ConfigValue::Str(s)) => comma_list(s.as_str()),
            _ => {
                let v: Vec<String> = Vec::new();
                assert(texts(v@) =~= Seq::<Seq<char>>::empty());
                v
            },
        },
        None => {
            let v: Vec<String> = Vec::new();
            assert(texts(v@) =~= Seq::<Seq<char>>::empty());
            v
        },
    };
    (current, known)
}

/// The name of a resolution error in a conformance outcome.
pub open spec fn error_name(e: ErrorModel) -> Seq<char> {
    match e {
        ErrorModel::DoesNotExist(_) => "DoesNotExist"@,
        ErrorModel::ParsedOutOfRange(_) => "ParsedOutOfRange"@,
        ErrorModel::AttributeMissing(_) => "AttributeMissing"@,
    }
}

/// A resolution outcome as a case result: the decision, or the error's name.
pub open spec fn case_result(status: Result<bool, ErrorModel>) -> Result<bool, Seq<char>> {
    match status {
        Ok(b) => Ok(b),
        Err(e) => Err(error_name(e)),
    }
}

/// A case's configuration as settings: none for a missing or null configuration, otherwise the
/// configuration (over an empty object), present.
pub open spec fn case_settings(config: Option<Json>) -> (Json, bool) {
    match config {
        None => (Json::Object(Seq::empty()), false),
        Some(Json::Null) => (Json::Object(Seq::empty()), false),
        Some(c) => (layered(Some(c), None), true),
    }
}

/// The strategy chain a case is resolved with: percentage, blue-green over the case's slots,
/// user targeting, attribute rules, A/B testing, then the boolean fallback.
pub open spec fn case_chain(config: Option<Json>) -> Seq<StrategyModel> {
    let slots = case_slots(config);
    seq![
        StrategyModel::Percentage,
        StrategyModel::BlueGreen(slots.0, slots.1),
        StrategyModel::UserTargeting,
        StrategyModel::AttributeRule,
        StrategyModel::AbTest,
        StrategyModel::Boolean,
    ]
}

/// A case result by its view.
pub open spec fn result_view(r: Result<bool, String>) -> Result<bool, Seq<char>> {
    match r {
        Ok(b) => Ok(b),
        Err(e) => Err(e@),
    }
}

/// The user a case's context names: its `userId` when that is a string.
pub open spec fn case_user(context: Option<Json>) -> Option<Seq<char>> {
    match context {
        Some(c) => text_of(exact_get(c, "userId"@)),
        None => None,
    }
}

/// The attributes a case's context carries: the string values of its `attributes` object.
pub open spec fn case_attributes(context: Option<Json>) -> Seq<(Seq<char>, Seq<char>)> {
    match context {
        Some(c) => string_attributes(object_or_empty(exact_get(c, "attributes"@))),
        None => Seq::empty(),
    }
}

/// The attributes of a case's context, by name.
pub open spec fn case_answers(context: Option<Json>) -> spec_fn(Seq<char>) -> Option<Seq<char>> {
    |name: Seq<char>| pair_value(case_attributes(context), name)
}

/// The blue-green slots of a case's configuration: the current slot, and the configured known
/// slots or, when none are configured, the conventional pair.
pub open spec fn case_slots(config: Option<Json>) -> (Option<Seq<char>>, Seq<Seq<char>>) {
    let (current, known) = match config {
        None => (None, Seq::<Seq<char>>::empty()),
        Some(Json::Null) => (None, Seq::<Seq<char>>::empty()),
        Some(c) => (
            configured_current_slot(c),
            match configured_known_slots(c) {
                Some(list) => list_entries(list),
                None => Seq::<Seq<char>>::empty(),
            },
        ),
    };
    (current, if known.len() == 0 {
        default_slots()
    } else {
        known
    })
}

/// The outcomes a case may resolve to for a toggle key: its configuration as settings, resolved
/// for the user and attributes of its context with the user's override and the case chain.
pub open spec fn case_resolves(case: Json, key: Seq<char>, status: Result<bool, ErrorModel>) -> bool {
    let config = exact_get(case, "config"@);
    let context = exact_get(case, "context"@);
    let settings = case_settings(config);
    let user = case_user(context);
    known_resolves(
        case_chain(config),
        key,
        settings.1,
        user_override(settings.0, key, user),
        Ok(string_at(settings.0, toggle_path(key))),
        user,
        case_answers(context),
        status,
    )
}

/// The results a case may have: without a string `toggleKey`, the complaint that it is
/// missing; otherwise a resolution outcome of the case for that key, by its name.
pub open spec fn case_allows(case: Json, r: Result<bool, Seq<char>>) -> bool {
    match text_of(exact_get(case, "toggleKey"@)) {
        None => r == Err::<bool, Seq<char>>("toggleKey missing"@),
        Some(key) => exists|status: Result<bool, ErrorModel>|
            #[trigger] case_resolves(case, key, status) && r == case_result(status),
    }
}

/// Resolve one conformance case: `toggleKey` (required), `config` (the settings, absent or null
/// for none) and `context` (`userId`, `attributes`). A strategy parser over the case's settings
/// with the full chain resolves the key for the case's user and attributes, overrides included.
/// The outcome is the decision or the name of the resolution error; only a percentage rollout or
/// a user-less A/B test leaves it to the roll.
pub fn resolve_case(case: &ConfigValue) -> (r: Result<bool, String>)
    ensures
        case_allows(case@, result_view(r)),
{
    let toggle_key = match exact_child(case, "toggleKey") {
        Some(ConfigValue::Str(k)) => k,
        _ => {
            return Err(String::from_str("toggleKey missing"));
        },
    };
    let ghost key = toggle_key@;
    assert(text_of(exact_get(case@, "toggleKey"@)) == Some(key));
    let config = exact_child(case, "config");
    let ghost config_view = exact_get(case@, "config"@);
    let (current_slot, known_slots, settings) = match config {
        None => (None, no_slots(), AppSettings::absent()),
        Some(ConfigValue::Null) => (None, no_slots(), AppSettings::absent()),
        Some(c) => {
            let (current, known) = parse_blue_green(c);
            let copy = copy_value(c);
            (current, known, AppSettings::load(Some(copy), None))
        },
    };
    let context = case_context(exact_child(case, "context"));
    let ghost context_view = exact_get(case@, "context"@);
    assert((settings.root_view(), settings.is_present()) == case_settings(config_view));
    let built = ToggleParserBuilder::new().with_settings(settings).with_percentage_rollout().with_blue_green(
        current_slot,
        known_slots,
    ).with_context_strategies().build();
    let parser = match built {
        Ok(p) => p,
        Err(e) => {
            return Err(e.message());
        },
    };
    assert(parser.chain() =~= case_chain(config_view));
    assert(context.attribute_answers() =~= case_answers(context_view));
    let status = parser.resolve_known(toggle_key.as_str(), &context);
    assert(case_resolves(case@, key, outcome(status)));
    let r = match status {
        Ok(b) => Ok(b),
        Err(ToggleError::DoesNotExist { .. }) => Err(String::from_str("DoesNotExist")),
        Err(ToggleError::ParsedOutOfRange { .. }) => Err(String::from_str("ParsedOutOfRange")),
        Err(ToggleError::AttributeMissing { .. }) => Err(String::from_str("AttributeMissing")),
    };
    assert(case_resolves(case@, key, outcome(status)) && result_view(r) == case_result(
        outcome(status),
    ));
    proof {
        let w = outcome(status);
        if let Some(k) = text_of(exact_get(case@, "toggleKey"@)) {
            assert(k == key);
            assert(case_resolves(case@, k, w) && result_view(r) == case_result(w));
        }
    }
    r
}

/// No slots.
fn no_slots() -> (r: Vec<String>)
    ensures
        texts(r@) == Seq::<Seq<char>>::empty(),
{
    let r: Vec<String> = Vec::new();
    assert(texts(r@) =~= Seq::<Seq<char>>::empty());
    r
}

/// An independent copy of a configuration value.
pub fn copy_value(v: &ConfigValue) -> (r: ConfigValue)
    ensures
        r@ == v@,
    decreases v,
{
    match v {
        ConfigValue::Null => ConfigValue::Null,
        ConfigValue::Bool(b) => ConfigValue::Bool(*b),
        ConfigValue::Number(n) => ConfigValue::Number(
            crate::config::ConfigNumber { text: n.text.clone(), integer: n.integer },
        ),
        ConfigValue::Str(s) => ConfigValue::Str(s.clone()),
        ConfigValue::Array(items) => {
            let mut out: Vec<ConfigValue> = Vec::new();
            let mut i: usize = 0;
            proof {
                crate::config::lemma_items_view(items@);
            }
            while i < items.len()
                invariant
                    i <= items@.len(),
                    *v == ConfigValue::Array(*items),
                    out@.len() == i,
                    forall|j: int| 0 <= j < i ==> #[trigger] out@[j]@ == items@[j]@,
                decreases items@.len() - i,
            {
                proof {
                    assert((*v)->Array_0 == *items);
                    assert(decreases_to!(*v => (*v)->Array_0));
                    assert(decreases_to!(*items => items@));
                    assert(decreases_to!(items@ => items@[i as int]));
                }
                out.push(copy_value(&items[i]));
                i = i + 1;
            }
            proof {
                crate::config::lemma_items_view(out@);
                assert(crate::config::items_view(out@) =~= crate::config::items_view(items@));
            }
            ConfigValue::Array(out)
        },
        ConfigValue::Object(entries) => {
            let mut out: Vec<(String, ConfigValue)> = Vec::new();
            let mut i: usize = 0;
            proof {
                lemma_entries_view(entries@);
            }
            while i < entries.len()
                invariant
                    i <= entries@.len(),
                    *v == ConfigValue::Object(*entries),
                    out@.len() == i,
                    forall|j: int|
                        0 <= j < i ==> (#[trigger] out@[j]).0@ == entries@[j].0@ && out@[j].1@
                            == entries@[j].1@,
                decreases entries@.len() - i,
            {
                proof {
                    assert((*v)->Object_0 == *entries);
                    assert(decreases_to!(*v => (*v)->Object_0));
                    assert(decreases_to!(*entries => entries@));
                    assert(decreases_to!(entries@ => entries@[i as int]));
                    assert(decreases_to!(entries@[i as int] => entries@[i as int].1));
                }
                out.push((entries[i].0.clone(), copy_value(&entries[i].1)));
                i = i + 1;
            }
            proof {
                lemma_entries_view(out@);
                assert(entries_view(out@) =~= entries_view(entries@));
            }
            ConfigValue::Object(out)
        },
    }
}

/// The printed outcome of a case: `{"result": <decision>}` or `{"error": <name>}`.
pub fn outcome_value(r: &Result<bool, String>) -> (v: ConfigValue)
    ensures
        v@ == match result_view(*r) {
            Ok(b) => Json::Object(seq![("result"@, Json::Bool(b))]),
            Err(name) => Json::Object(seq![("error"@, Json::Str(name))]),
        },
{
    let mut entries: Vec<(String, ConfigValue)> = Vec::new();
    match r {
        Ok(b) => entries.push((String::from_str("result"), ConfigValue::Bool(*b))),
        Err(name) => entries.push((String::from_str("error"), ConfigValue::Str(name.clone()))),
    }
    proof {
        lemma_entries_view(entries@);
    }
    let v = ConfigValue::Object(entries);
    assert(entries_view(entries@) =~= match result_view(*r) {
        Ok(b) => seq![("result"@, Json::Bool(b))],
        Err(name) => seq![("error"@, Json::Str(name))],
    });
    v
}

} // verus!
