//! The lint: every `#[toggle]`/`#[toggle_async]` function's key must have an entry in the
//! `Toggles` section of `appsettings.json` (finding `FTRIO001`), keys compared ignoring ASCII
//! case. Any finding makes the lint fail.

use vstd::prelude::*;
use vstd::string::*;

use crate::cli::appconfig::{text_pairs, AppConfig};
use crate::cli::release::concat_all;
use crate::cli::scan::{usage_view, usages_view, ToggleUsage, UsageModel};
use crate::strategies::blue_green::texts;
use crate::text::{
    chars_eq, chars_of, chars_starts_with, decimal, decimal_text, lower, lower_chars, starts_with,
    str_eq, string_from_chars,
};

verus! {

/// The lowercased toggle keys of a configuration (none without one).
pub open spec fn known_key_set(toggles: Option<Seq<(Seq<char>, Seq<char>)>>) -> Seq<Seq<char>> {
    match toggles {
        Some(t) => t.map_values(|p: (Seq<char>, Seq<char>)| lower(p.0)),
        None => Seq::empty(),
    }
}

/// The lowercased toggle keys of the configuration the lint checks against.
pub fn known_keys(config: Option<&AppConfig>) -> (r: Vec<String>)
    ensures
        texts(r@) == known_key_set(
            match config {
                Some(c) => Some(text_pairs(c.toggles@)),
                None => None,
            },
        ),
{
    let mut keys: Vec<String> = Vec::new();
    match config {
        Some(c) => {
            let ghost model = text_pairs(c.toggles@);
            let mut i: usize = 0;
            while i < c.toggles.len()
                invariant
                    i <= c.toggles@.len(),
                    model == text_pairs(c.toggles@),
                    texts(keys@) == model.take(i as int).map_values(
                        |p: (Seq<char>, Seq<char>)| lower(p.0),
                    ),
                decreases c.toggles@.len() - i,
            {
                let k = chars_of(c.toggles[i].0.as_str());
                let lk = lower_chars(k.as_slice());
                let ghost before = keys@;
                assert(model[i as int] == (c.toggles@[i as int].0@, c.toggles@[i as int].1@));
                keys.push(string_from_chars(lk.as_slice()));
                assert(texts(keys@) =~= texts(before).push(lk@));
                assert(texts(keys@) =~= model.take(i + 1).map_values(
                    |p: (Seq<char>, Seq<char>)| lower(p.0),
                ));
                i = i + 1;
            }
            assert(model.take(i as int) =~= model);
        },
        None => {
            assert(texts(keys@) =~= Seq::<Seq<char>>::empty());
        },
    }
    keys
}

/// Whether a usage comes from a toggle attribute.
pub open spec fn from_attribute(u: UsageModel) -> bool {
    starts_with(u.2, "#[toggle"@)
}

/// The finding for an attribute usage whose key is not configured.
pub open spec fn finding_text(u: UsageModel) -> Seq<char> {
    "FTRIO001: Function '"@ + u.1 + "' is decorated with "@ + u.2
        + " but has no entry in the Toggles section of appsettings.json\n  at "@ + u.3 + ":"@
        + decimal_text(u.4) + "\n"@
}

/// The confirmation for an attribute usage whose key is configured (shown when verbose).
pub open spec fn ok_text(u: UsageModel) -> Seq<char> {
    "ok: '"@ + u.1 + "' -> Toggles:"@ + u.0 + "\n"@
}

/// Whether a usage's key is configured.
pub open spec fn is_known(known: Seq<Seq<char>>, u: UsageModel) -> bool {
    known.contains(lower(u.0))
}

/// What the lint prints for each usage, in order.
pub open spec fn lint_lines(usages: Seq<UsageModel>, known: Seq<Seq<char>>, verbose: bool) -> Seq<
    Seq<char>,
> {
    usages.filter(|u: UsageModel| from_attribute(u)).map_values(
        |u: UsageModel|
            if is_known(known, u) {
                if verbose {
                    ok_text(u)
                } else {
                    Seq::<char>::empty()
                }
            } else {
                finding_text(u)
            },
    )
}

/// The number of findings.
pub open spec fn finding_count(usages: Seq<UsageModel>, known: Seq<Seq<char>>) -> nat {
    usages.filter(|u: UsageModel| from_attribute(u) && !is_known(known, u)).len()
}

/// The outcome of a lint: its exit code and what it prints on standard output and error.
pub struct LintOutcome {
    pub exit_code: i32,
    pub stdout: String,
    pub stderr: String,
}

/// Whether a text is among lowercased keys.
fn contains_text(keys: &[String], text: &[char]) -> (b: bool)
    ensures
        b == texts(keys@).contains(text@),
{
    let mut i: usize = 0;
    while i < keys.len()
        invariant
            i <= keys@.len(),
            forall|j: int| 0 <= j < i ==> #[trigger] texts(keys@)[j] != text@,
        decreases keys@.len() - i,
    {
        let k = chars_of(keys[i].as_str());
        assert(texts(keys@)[i as int] == k@);
        if chars_eq(k.as_slice(), text) {
            return true;
        }
        i = i + 1;
    }
    false
}

/// Append a text's characters.
fn push_text(out: &mut Vec<char>, s: &str)
    ensures
        final(out)@ == old(out)@ + s@,
{
    let chars = chars_of(s);
    out.extend_from_slice(chars.as_slice());
}

/// Check attribute usages against the configured keys (lowercased).
pub fn lint_usages(usages: &[ToggleUsage], known_keys: &[String], verbose: bool) -> (r: LintOutcome)
    ensures
        ({
            let us = usages_view(usages@);
            let known = texts(known_keys@);
            let n = finding_count(us, known);
            &&& r.exit_code == (if n == 0 {
                0i32
            } else {
                1i32
            })
            &&& r.stdout@ == concat_all(lint_lines(us, known, verbose)) + if n == 0 && verbose {
                "No FTRIO001 findings.\n"@
            } else {
                Seq::<char>::empty()
            }
            &&& r.stderr@ == if n == 0 {
                Seq::<char>::empty()
            } else {
                "\n"@ + decimal_text(n) + " FTRIO001 finding(s).\n"@
            }
        }),
{
    let ghost us = usages_view(usages@);
    let ghost known = texts(known_keys@);
    let mut out: Vec<char> = Vec::new();
    let mut findings: usize = 0;
    let mut i: usize = 0;
    proof {
        reveal_with_fuel(Seq::<UsageModel>::filter, 1);
    }
    assert(us.take(0) =~= Seq::<UsageModel>::empty());
    assert(us.take(0).filter(|u: UsageModel| from_attribute(u)) =~= Seq::<UsageModel>::empty());
    assert(out@ =~= concat_all(lint_lines(us.take(0), known, verbose)));
    while i < usages.len()
        invariant
            i <= usages@.len(),
            us == usages_view(usages@),
            known == texts(known_keys@),
            findings <= i,
            findings == finding_count(us.take(i as int), known),
            out@ == concat_all(lint_lines(us.take(i as int), known, verbose)),
        decreases usages@.len() - i,
    {
        let usage = &usages[i];
        let ghost u = usage_view(*usage);
        let ghost lines_before = lint_lines(us.take(i as int), known, verbose);
        proof {
            assert(us[i as int] == u);
            assert(us.take(i + 1).drop_last() =~= us.take(i as int));
            assert(us.take(i + 1).last() == u);
            reveal_with_fuel(Seq::<UsageModel>::filter, 1);
        }
        let source = chars_of(usage.source.as_str());
        let prefix = chars_of("#[toggle");
        if chars_starts_with(source.as_slice(), prefix.as_slice()) {
            let key = chars_of(usage.key.as_str());
            let lk = lower_chars(key.as_slice());
            let ghost text = if is_known(known, u) {
                if verbose {
                    ok_text(u)
                } else {
                    Seq::<char>::empty()
                }
            } else {
                finding_text(u)
            };
            if contains_text(known_keys, lk.as_slice()) {
                if verbose {
                    push_text(&mut out, "ok: '");
                    push_text(&mut out, usage.method.as_str());
                    push_text(&mut out, "' -> Toggles:");
                    push_text(&mut out, usage.key.as_str());
                    push_text(&mut out, "\n");
                }
            } else {
                findings = findings + 1;
                push_text(&mut out, "FTRIO001: Function '");
                push_text(&mut out, usage.method.as_str());
                push_text(&mut out, "' is decorated with ");
                push_text(&mut out, usage.source.as_str());
                push_text(
                    &mut out,
                    " but has no entry in the Toggles section of appsettings.json\n  at ",
                );
                push_text(&mut out, usage.file.as_str());
                push_text(&mut out, ":");
                let line = decimal(usage.line as u64);
                push_text(&mut out, line.as_str());
                push_text(&mut out, "\n");
            }
            proof {
                assert(lint_lines(us.take(i + 1), known, verbose) =~= lines_before.push(text));
                assert(lines_before.push(text).drop_last() =~= lines_before);
                assert(concat_all(lines_before.push(text)) =~= concat_all(lines_before) + text);
            }
        } else {
            proof {
                assert(lint_lines(us.take(i + 1), known, verbose) =~= lines_before);
            }
        }
        i = i + 1;
    }
    assert(us.take(i as int) =~= us);
    let mut err: Vec<char> = Vec::new();
    let code: i32 = if findings == 0 {
        if verbose {
            push_text(&mut out, "No FTRIO001 findings.\n");
        }
        0
    } else {
        push_text(&mut err, "\n");
        let n = decimal(findings as u64);
        push_text(&mut err, n.as_str());
        push_text(&mut err, " FTRIO001 finding(s).\n");
        1
    };
    LintOutcome {
        exit_code: code,
        stdout: string_from_chars(out.as_slice()),
        stderr: string_from_chars(err.as_slice()),
    }
}

/// The directory names the search for `appsettings.json` never descends into.
pub open spec fn skipped_lint_dir(name: Seq<char>) -> bool {
    name == "target"@ || name == ".git"@ || name == "node_modules"@
}

/// Whether the search for `appsettings.json` skips a directory of this name.
pub fn is_skipped_lint_dir(name: &str) -> (b: bool)
    ensures
        b == skipped_lint_dir(name@),
{
    str_eq(name, "target") || str_eq(name, ".git") || str_eq(name, "node_modules")
}

} // verus!
