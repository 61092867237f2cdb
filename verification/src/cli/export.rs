//! The toggle manifest: `{ "generatedAt": <UTC ISO-8601>, "toggles": [ { key, source, file,
//! line } ] }`, the contract between `export-manifest`, `release-check` and CI.

use vstd::prelude::*;
use vstd::string::*;

use crate::cli::scan::{usage_view, usages_view, ToggleUsage, UsageModel};
use crate::config::{entries_view, items_view, lemma_entries_view, lemma_items_view, ConfigNumber, ConfigValue, Json};
use crate::text::{decimal, decimal_text};

verus! {

/// A manifest entry for one usage.
pub open spec fn manifest_entry(u: UsageModel) -> Json {
    Json::Object(
        seq![
            ("key"@, Json::Str(u.0)),
            ("source"@, Json::Str(u.2)),
            ("file"@, Json::Str(u.3)),
            ("line"@, Json::Number(decimal_text(u.4), if u.4 <= i64::MAX {
                Some(u.4 as int)
            } else {
                None
            })),
        ],
    )
}

/// The manifest of the usages, stamped with the time it was generated.
pub open spec fn manifest_json(usages: Seq<UsageModel>, generated_at: Seq<char>) -> Json {
    Json::Object(
        seq![
            ("generatedAt"@, Json::Str(generated_at)),
            ("toggles"@, Json::Array(usages.map_values(|u: UsageModel| manifest_entry(u)))),
        ],
    )
}

/// A JSON number for a line.
fn line_number(line: usize) -> (r: ConfigValue)
    ensures
        r@ == Json::Number(decimal_text(line as nat), if line <= i64::MAX {
            Some(line as int)
        } else {
            None
        }),
{
    let integer: Option<i64> = if line as u64 <= 0x7fff_ffff_ffff_ffffu64 {
        Some(line as i64)
    } else {
        None
    };
    ConfigValue::Number(ConfigNumber { text: decimal(line as u64), integer })
}

/// The manifest entry of one usage.
fn manifest_entry_value(usage: &ToggleUsage) -> (r: ConfigValue)
    ensures
        r@ == manifest_entry(usage_view(*usage)),
{
    let mut entries: Vec<(String, ConfigValue)> = Vec::new();
    entries.push((String::from_str("key"), ConfigValue::Str(usage.key.clone())));
    entries.push((String::from_str("source"), ConfigValue::Str(usage.source.clone())));
    entries.push((String::from_str("file"), ConfigValue::Str(usage.file.clone())));
    entries.push((String::from_str("line"), line_number(usage.line)));
    proof {
        lemma_entries_view(entries@);
        assert(entries_view(entries@) =~= seq![
            ("key"@, Json::Str(usage.key@)),
            ("source"@, Json::Str(usage.source@)),
            ("file"@, Json::Str(usage.file@)),
            ("line"@, Json::Number(decimal_text(usage.line as nat), if usage.line <= i64::MAX {
                Some(usage.line as int)
            } else {
                None
            })),
        ]);
    }
    ConfigValue::Object(entries)
}

/// Build the manifest of the scanned usages, stamped with `generated_at`.
pub fn manifest_value(usages: &[ToggleUsage], generated_at: String) -> (r: ConfigValue)
    ensures
        r@ == manifest_json(usages_view(usages@), generated_at@),
{
    let ghost us = usages_view(usages@);
    let mut items: Vec<ConfigValue> = Vec::new();
    let mut i: usize = 0;
    while i < usages.len()
        invariant
            i <= usages@.len(),
            us == usages_view(usages@),
            items@.len() == i,
            forall|j: int| 0 <= j < i ==> #[trigger] items@[j]@ == manifest_entry(us[j]),
        decreases usages@.len() - i,
    {
        let entry = manifest_entry_value(&usages[i]);
        items.push(entry);
        i = i + 1;
    }
    proof {
        lemma_items_view(items@);
        assert(items_view(items@) =~= us.map_values(|u: UsageModel| manifest_entry(u)));
    }
    let mut top: Vec<(String, ConfigValue)> = Vec::new();
    top.push((String::from_str("generatedAt"), ConfigValue::Str(generated_at)));
    top.push((String::from_str("toggles"), ConfigValue::Array(items)));
    proof {
        lemma_entries_view(top@);
        assert(entries_view(top@) =~= seq![
            ("generatedAt"@, Json::Str(generated_at@)),
            ("toggles"@, Json::Array(us.map_values(|u: UsageModel| manifest_entry(u)))),
        ]);
    }
    ConfigValue::Object(top)
}

} // verus!
