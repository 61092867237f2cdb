//! The release check: every toggle a manifest lists must be present in the target
//! configuration's `Toggles` section (keys compared ignoring ASCII case).
//!
//! Exit codes: `0` ready (or missing keys with warn-only), `1` blocked, `2` a usage or manifest
//! error, `3` a configuration error.

use vstd::prelude::*;

use crate::cli::options::ReleaseOptions;
use vstd::string::*;

use crate::cli::appconfig::{exact_child, exact_get, text_pairs, text_of};
use crate::cli::report::{concat_texts, join_all};
use crate::config::{items_view, lemma_items_view, ConfigValue, Json};
use crate::strategies::blue_green::texts;
use crate::text::{chars_eq, chars_of, decimal, decimal_text, join, lower, lower_chars, string_from_chars};

verus! {

/// The keys a manifest lists: the `key` string of each entry of its `toggles` array that has
/// one; nothing when the manifest has no `toggles` array.
pub open spec fn manifest_key_list(manifest: Json) -> Option<Seq<Seq<char>>> {
    match exact_get(manifest, "toggles"@) {
        Some(Json::Array(items)) => Some(entry_keys_of(items)),
        _ => None,
    }
}

/// The `key` strings of array entries, skipping entries without one.
pub open spec fn entry_keys_of(items: Seq<Json>) -> Seq<Seq<char>>
    decreases items.len(),
{
    if items.len() == 0 {
        Seq::empty()
    } else {
        let before = entry_keys_of(items.drop_last());
        match text_of(exact_get(items.last(), "key"@)) {
            Some(k) => before.push(k),
            None => before,
        }
    }
}

/// Extract the toggle keys from a manifest.
pub fn manifest_keys(manifest: &ConfigValue) -> (r: Option<Vec<String>>)
    ensures
        match r {
            Some(keys) => manifest_key_list(manifest@) == Some(texts(keys@)),
            None => manifest_key_list(manifest@) is None,
        },
{
    let toggles = exact_child(manifest, "toggles");
    match toggles {
        Some(ConfigValue::Array(items)) => {
            let ghost model = items_view(items@);
            proof {
                lemma_items_view(items@);
            }
            let mut keys: Vec<String> = Vec::new();
            let mut i: usize = 0;
            assert(model.take(0) =~= Seq::<Json>::empty());
            assert(texts(keys@) =~= Seq::<Seq<char>>::empty());
            while i < items.len()
                invariant
                    i <= items@.len(),
                    model == items_view(items@),
                    model.len() == items@.len(),
                    forall|t: int| 0 <= t < items@.len() ==> #[trigger] model[t] == items@[t]@,
                    texts(keys@) == entry_keys_of(model.take(i as int)),
                decreases items@.len() - i,
            {
                proof {
                    assert(model.take(i + 1).drop_last() =~= model.take(i as int));
                    assert(model.take(i + 1).last() == items@[i as int]@);
                }
                match exact_child(&items[i], "key") {
                    Some(ConfigValue::Str(k)) => {
                        let ghost before = keys@;
                        keys.push(k.clone());
                        assert(texts(keys@) =~= texts(before).push(k@));
                    },
                    _ => {},
                }
                i = i + 1;
            }
            assert(model.take(i as int) =~= model);
            Some(keys)
        },
        _ => None,
    }
}

/// The value of the last toggle whose key, ASCII-lowercased, is `lowered`.
pub open spec fn folded_value(toggles: Seq<(Seq<char>, Seq<char>)>, lowered: Seq<char>) -> Option<
    Seq<char>,
>
    decreases toggles.len(),
{
    if toggles.len() == 0 {
        None
    } else if lower(toggles.last().0) == lowered {
        Some(toggles.last().1)
    } else {
        folded_value(toggles.drop_last(), lowered)
    }
}

/// The manifest keys found in the toggles, with their values, in manifest order.
pub open spec fn present_keys(keys: Seq<Seq<char>>, toggles: Seq<(Seq<char>, Seq<char>)>) -> Seq<
    (Seq<char>, Seq<char>),
>
    decreases keys.len(),
{
    if keys.len() == 0 {
        Seq::empty()
    } else {
        let before = present_keys(keys.drop_last(), toggles);
        match folded_value(toggles, lower(keys.last())) {
            Some(v) => before.push((keys.last(), v)),
            None => before,
        }
    }
}

/// The manifest keys not found in the toggles, in manifest order.
pub open spec fn missing_keys(keys: Seq<Seq<char>>, toggles: Seq<(Seq<char>, Seq<char>)>) -> Seq<
    Seq<char>,
>
    decreases keys.len(),
{
    if keys.len() == 0 {
        Seq::empty()
    } else {
        let before = missing_keys(keys.drop_last(), toggles);
        match folded_value(toggles, lower(keys.last())) {
            Some(_) => before,
            None => before.push(keys.last()),
        }
    }
}

/// The value of the last toggle whose lowercased key is `lowered`.
fn folded_lookup(toggles: &[(String, String)], lowered: &[char]) -> (r: Option<String>)
    ensures
        match r {
            Some(v) => folded_value(text_pairs(toggles@), lowered@) == Some(v@),
            None => folded_value(text_pairs(toggles@), lowered@) is None,
        },
{
    let ghost model = text_pairs(toggles@);
    let mut i: usize = toggles.len();
    assert(model.take(i as int) =~= model);
    while i > 0
        invariant
            i <= toggles@.len(),
            model == text_pairs(toggles@),
            folded_value(model, lowered@) == folded_value(model.take(i as int), lowered@),
        decreases i,
    {
        let k = chars_of(toggles[i - 1].0.as_str());
        let lk = lower_chars(k.as_slice());
        proof {
            assert(model.take(i as int).last() == model[i - 1]);
            assert(model.take(i as int).drop_last() =~= model.take(i - 1));
        }
        if chars_eq(lk.as_slice(), lowered) {
            return Some(toggles[i - 1].1.clone());
        }
        i = i - 1;
    }
    None
}

/// Split the manifest keys into those present in the toggles (with their values) and those
/// missing, both in manifest order.
pub fn classify_manifest(keys: &[String], toggles: &[(String, String)]) -> (r: (
    Vec<(String, String)>,
    Vec<String>,
))
    ensures
        text_pairs(r.0@) == present_keys(texts(keys@), text_pairs(toggles@)),
        texts(r.1@) == missing_keys(texts(keys@), text_pairs(toggles@)),
{
    let ghost ks = texts(keys@);
    let ghost ts = text_pairs(toggles@);
    let mut present: Vec<(String, String)> = Vec::new();
    let mut missing: Vec<String> = Vec::new();
    let mut i: usize = 0;
    assert(ks.take(0) =~= Seq::<Seq<char>>::empty());
    assert(text_pairs(present@) =~= Seq::<(Seq<char>, Seq<char>)>::empty());
    assert(texts(missing@) =~= Seq::<Seq<char>>::empty());
    while i < keys.len()
        invariant
            i <= keys@.len(),
            ks == texts(keys@),
            ts == text_pairs(toggles@),
            text_pairs(present@) == present_keys(ks.take(i as int), ts),
            texts(missing@) == missing_keys(ks.take(i as int), ts),
        decreases keys@.len() - i,
    {
        let k = chars_of(keys[i].as_str());
        let lk = lower_chars(k.as_slice());
        proof {
            assert(ks.take(i + 1).drop_last() =~= ks.take(i as int));
            assert(ks.take(i + 1).last() == keys@[i as int]@);
        }
        match folded_lookup(toggles, lk.as_slice()) {
            Some(v) => {
                let ghost before = present@;
                present.push((keys[i].clone(), v));
                assert(text_pairs(present@) =~= text_pairs(before).push((keys@[i as int]@, v@)));
            },
            None => {
                let ghost before = missing@;
                missing.push(keys[i].clone());
                assert(texts(missing@) =~= texts(before).push(keys@[i as int]@));
            },
        }
        i = i + 1;
    }
    assert(ks.take(i as int) =~= ks);
    (present, missing)
}

// ---------------------------------------------------------------------------------------------
// Report texts
// ---------------------------------------------------------------------------------------------

/// Texts one after another.
pub open spec fn concat_all(pieces: Seq<Seq<char>>) -> Seq<char>
    decreases pieces.len(),
{
    if pieces.len() == 0 {
        Seq::empty()
    } else {
        concat_all(pieces.drop_last()) + pieces.last()
    }
}

/// One entry of the suggestion block.
pub open spec fn suggestion_entry(key: Seq<char>) -> Seq<char> {
    "    \""@ + key + "\": false"@
}

/// The "add to appsettings.json" block for the missing keys, each set to `false`.
pub open spec fn suggestion_text(missing: Seq<Seq<char>>) -> Seq<char> {
    "{\n  \"Toggles\": {\n"@ + join(missing.map_values(|k: Seq<char>| suggestion_entry(k)), ",\n"@)
        + "\n  }\n}"@
}

/// A markdown row for a present key.
pub open spec fn present_row(p: (Seq<char>, Seq<char>)) -> Seq<char> {
    "| "@ + p.0 + " | present | "@ + p.1 + " |\n"@
}

/// A markdown row for a missing key.
pub open spec fn missing_row(key: Seq<char>) -> Seq<char> {
    "| "@ + key + " | MISSING | - |\n"@
}

/// The markdown release report.
pub open spec fn markdown_text(present: Seq<(Seq<char>, Seq<char>)>, missing: Seq<Seq<char>>) -> Seq<
    char,
> {
    "# Release check\n\n| Toggle Key | Status | Value |\n|---|---|---|\n"@ + concat_all(
        present.map_values(|p: (Seq<char>, Seq<char>)| present_row(p)),
    ) + concat_all(missing.map_values(|k: Seq<char>| missing_row(k)))
}

/// A console line for a present key.
pub open spec fn present_line(p: (Seq<char>, Seq<char>)) -> Seq<char> {
    "  [present] "@ + p.0 + " = "@ + p.1 + "\n"@
}

/// A console line for a missing key.
pub open spec fn missing_line(key: Seq<char>) -> Seq<char> {
    "  [MISSING] "@ + key + "\n"@
}

/// The console release report: each present key with its value, each missing key, and the
/// suggestion block when keys are missing.
pub open spec fn console_text(present: Seq<(Seq<char>, Seq<char>)>, missing: Seq<Seq<char>>) -> Seq<
    char,
> {
    "Release check\n\n"@ + concat_all(
        present.map_values(|p: (Seq<char>, Seq<char>)| present_line(p)),
    ) + concat_all(missing.map_values(|k: Seq<char>| missing_line(k))) + if missing.len() > 0 {
        "\nAdd the following to the Toggles section of appsettings.json:\n"@ + suggestion_text(
            missing,
        ) + "\n"@
    } else {
        Seq::empty()
    }
}

/// Append a text's characters.
fn push_text(out: &mut Vec<char>, s: &str)
    ensures
        final(out)@ == old(out)@ + s@,
{
    let chars = chars_of(s);
    out.extend_from_slice(chars.as_slice());
}

/// The "add to appsettings.json" suggestion block for the missing keys.
pub fn suggestion_block(missing: &[String]) -> (r: String)
    ensures
        r@ == suggestion_text(texts(missing@)),
{
    let mut entries: Vec<Vec<char>> = Vec::new();
    let mut i: usize = 0;
    while i < missing.len()
        invariant
            i <= missing@.len(),
            entries@.len() == i,
            forall|j: int| 0 <= j < i ==> #[trigger] entries@[j]@ == suggestion_entry(missing@[j]@),
        decreases missing@.len() - i,
    {
        let mut e: Vec<char> = Vec::new();
        push_text(&mut e, "    \"");
        push_text(&mut e, missing[i].as_str());
        push_text(&mut e, "\": false");
        entries.push(e);
        i = i + 1;
    }
    let sep = chars_of(",\n");
    let joined = join_all(&entries, sep.as_slice());
    assert(entries@.map_values(|p: Vec<char>| p@) =~= texts(missing@).map_values(
        |k: Seq<char>| suggestion_entry(k),
    ));
    let mut out: Vec<char> = Vec::new();
    push_text(&mut out, "{\n  \"Toggles\": {\n");
    out.extend_from_slice(joined.as_slice());
    push_text(&mut out, "\n  }\n}");
    string_from_chars(out.as_slice())
}

/// The markdown release report.
pub fn markdown_report(present: &[(String, String)], missing: &[String]) -> (r: String)
    ensures
        r@ == markdown_text(text_pairs(present@), texts(missing@)),
{
    let ghost ps = text_pairs(present@).map_values(|p: (Seq<char>, Seq<char>)| present_row(p));
    let ghost ms = texts(missing@).map_values(|k: Seq<char>| missing_row(k));
    let mut out: Vec<char> = Vec::new();
    push_text(&mut out, "# Release check\n\n| Toggle Key | Status | Value |\n|---|---|---|\n");
    let ghost head = out@;
    let mut i: usize = 0;
    assert(ps.take(0) =~= Seq::<Seq<char>>::empty());
    while i < present.len()
        invariant
            i <= present@.len(),
            ps == text_pairs(present@).map_values(|p: (Seq<char>, Seq<char>)| present_row(p)),
            out@ == head + concat_all(ps.take(i as int)),
        decreases present@.len() - i,
    {
        push_text(&mut out, "| ");
        push_text(&mut out, present[i].0.as_str());
        push_text(&mut out, " | present | ");
        push_text(&mut out, present[i].1.as_str());
        push_text(&mut out, " |\n");
        proof {
            assert(ps.take(i + 1).drop_last() =~= ps.take(i as int));
            assert(ps.take(i + 1).last() == present_row((present@[i as int].0@, present@[i as int].1@)));
        }
        assert(out@ =~= head + concat_all(ps.take(i + 1)));
        i = i + 1;
    }
    assert(ps.take(i as int) =~= ps);
    let ghost mid = out@;
    let mut j: usize = 0;
    assert(ms.take(0) =~= Seq::<Seq<char>>::empty());
    assert(out@ =~= mid + concat_all(ms.take(0)));
    while j < missing.len()
        invariant
            j <= missing@.len(),
            ms == texts(missing@).map_values(|k: Seq<char>| missing_row(k)),
            out@ == mid + concat_all(ms.take(j as int)),
        decreases missing@.len() - j,
    {
        push_text(&mut out, "| ");
        push_text(&mut out, missing[j].as_str());
        push_text(&mut out, " | MISSING | - |\n");
        proof {
            assert(ms.take(j + 1).drop_last() =~= ms.take(j as int));
            assert(ms.take(j + 1).last() == missing_row(missing@[j as int]@));
        }
        assert(out@ =~= mid + concat_all(ms.take(j + 1)));
        j = j + 1;
    }
    assert(ms.take(j as int) =~= ms);
    assert(out@ =~= markdown_text(text_pairs(present@), texts(missing@)));
    string_from_chars(out.as_slice())
}

/// The console release report.
pub fn console_report(present: &[(String, String)], missing: &[String]) -> (r: String)
    ensures
        r@ == console_text(text_pairs(present@), texts(missing@)),
{
    let ghost ps = text_pairs(present@).map_values(|p: (Seq<char>, Seq<char>)| present_line(p));
    let ghost ms = texts(missing@).map_values(|k: Seq<char>| missing_line(k));
    let mut out: Vec<char> = Vec::new();
    push_text(&mut out, "Release check\n\n");
    let ghost head = out@;
    let mut i: usize = 0;
    assert(ps.take(0) =~= Seq::<Seq<char>>::empty());
    while i < present.len()
        invariant
            i <= present@.len(),
            ps == text_pairs(present@).map_values(|p: (Seq<char>, Seq<char>)| present_line(p)),
            out@ == head + concat_all(ps.take(i as int)),
        decreases present@.len() - i,
    {
        push_text(&mut out, "  [present] ");
        push_text(&mut out, present[i].0.as_str());
        push_text(&mut out, " = ");
        push_text(&mut out, present[i].1.as_str());
        push_text(&mut out, "\n");
        proof {
            assert(ps.take(i + 1).drop_last() =~= ps.take(i as int));
            assert(ps.take(i + 1).last() == present_line((present@[i as int].0@, present@[i as int].1@)));
        }
        assert(out@ =~= head + concat_all(ps.take(i + 1)));
        i = i + 1;
    }
    assert(ps.take(i as int) =~= ps);
    let ghost mid = out@;
    let mut j: usize = 0;
    assert(ms.take(0) =~= Seq::<Seq<char>>::empty());
    assert(out@ =~= mid + concat_all(ms.take(0)));
    while j < missing.len()
        invariant
            j <= missing@.len(),
            ms == texts(missing@).map_values(|k: Seq<char>| missing_line(k)),
            out@ == mid + concat_all(ms.take(j as int)),
        decreases missing@.len() - j,
    {
        push_text(&mut out, "  [MISSING] ");
        push_text(&mut out, missing[j].as_str());
        push_text(&mut out, "\n");
        proof {
            assert(ms.take(j + 1).drop_last() =~= ms.take(j as int));
            assert(ms.take(j + 1).last() == missing_line(missing@[j as int]@));
        }
        assert(out@ =~= mid + concat_all(ms.take(j + 1)));
        j = j + 1;
    }
    assert(ms.take(j as int) =~= ms);
    let ghost body = out@;
    if missing.len() > 0 {
        push_text(&mut out, "\nAdd the following to the Toggles section of appsettings.json:\n");
        let block = suggestion_block(missing);
        push_text(&mut out, block.as_str());
        push_text(&mut out, "\n");
    }
    assert(out@ =~= console_text(text_pairs(present@), texts(missing@)));
    string_from_chars(out.as_slice())
}

// ---------------------------------------------------------------------------------------------
// The verdict
// ---------------------------------------------------------------------------------------------

/// The outcome of a release check: the exit code and the closing message.
pub struct ReleaseVerdict {
    pub exit_code: i32,
    pub message: String,
}

/// The exit code of a release check: `0` when nothing is missing or missing keys only warn,
/// `1` when the release is blocked.
pub open spec fn verdict_code(missing: nat, warn_only: bool) -> i32 {
    if missing == 0 || warn_only {
        0
    } else {
        1
    }
}

/// The closing message of a release check.
pub open spec fn verdict_message(total: nat, missing: nat, warn_only: bool) -> Seq<char> {
    if missing == 0 {
        "\nRelease ready: all "@ + decimal_text(total) + " toggle(s) present.\n"@
    } else if warn_only {
        "\n"@ + decimal_text(missing) + " toggle(s) missing (warn-only, not blocking).\n"@
    } else {
        "\nRelease blocked: "@ + decimal_text(missing) + " toggle(s) missing.\n"@
    }
}

/// Decide a release check from the number of manifest keys and of missing keys.
pub fn release_verdict(total: usize, missing: usize, warn_only: bool) -> (r: ReleaseVerdict)
    ensures
        r.exit_code == verdict_code(missing as nat, warn_only),
        r.message@ == verdict_message(total as nat, missing as nat, warn_only),
{
    let mut out: Vec<char> = Vec::new();
    if missing == 0 {
        push_text(&mut out, "\nRelease ready: all ");
        let n = decimal(total as u64);
        push_text(&mut out, n.as_str());
        push_text(&mut out, " toggle(s) present.\n");
        ReleaseVerdict { exit_code: 0, message: string_from_chars(out.as_slice()) }
    } else if warn_only {
        push_text(&mut out, "\n");
        let n = decimal(missing as u64);
        push_text(&mut out, n.as_str());
        push_text(&mut out, " toggle(s) missing (warn-only, not blocking).\n");
        ReleaseVerdict { exit_code: 0, message: string_from_chars(out.as_slice()) }
    } else {
        push_text(&mut out, "\nRelease blocked: ");
        let n = decimal(missing as u64);
        push_text(&mut out, n.as_str());
        push_text(&mut out, " toggle(s) missing.\n");
        ReleaseVerdict { exit_code: 1, message: string_from_chars(out.as_slice()) }
    }
}

/// Why a release check could not reach a verdict.
pub enum ReleaseFailure {
    /// The manifest file could not be read or parsed.
    ManifestUnreadable,
    /// The manifest has no `toggles` array.
    ManifestWithoutToggles,
    /// The target configuration could not be fetched, read or parsed.
    ConfigUnavailable,
}

/// The exit code of a release check that stopped before deciding: `2` when the manifest is
/// unusable, `3` when the configuration is.
pub fn failure_exit_code(failure: &ReleaseFailure) -> (code: i32)
    ensures
        code == match failure {
            ReleaseFailure::ConfigUnavailable => 3i32,
            _ => 2i32,
        },
{
    match failure {
        ReleaseFailure::ManifestUnreadable => 2,
        ReleaseFailure::ManifestWithoutToggles => 2,
        ReleaseFailure::ConfigUnavailable => 3,
    }
}

/// Where a release check takes its target configuration from.
#[derive(Debug, Clone, Copy, PartialEq, Eq, Structural)]
pub enum ConfigOrigin {
    /// Fetched from `--config-url`.
    Url,
    /// Read from `--config`, with the environment's overlay merged over it.
    File,
    /// Neither was given: the check cannot run.
    Unspecified,
}

/// The origin of the target configuration: a URL wins over a file.
pub fn config_origin(options: &ReleaseOptions) -> (r: ConfigOrigin)
    ensures
        r == if options.config_url is Some {
            ConfigOrigin::Url
        } else if options.config is Some {
            ConfigOrigin::File
        } else {
            ConfigOrigin::Unspecified
        },
{
    if options.config_url.is_some() {
        ConfigOrigin::Url
    } else if options.config.is_some() {
        ConfigOrigin::File
    } else {
        ConfigOrigin::Unspecified
    }
}

} // verus!
