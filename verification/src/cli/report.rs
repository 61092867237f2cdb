//! The default report: scanned toggle usage cross-referenced against a configuration, as a
//! table with a per-state summary.

use vstd::prelude::*;
use vstd::string::*;

use crate::cli::appconfig::{
    classify_state, list_pairs, pair_index, pair_value, state_label, state_labels, state_order,
    text_pairs, AppConfig,
};
use crate::cli::scan::{usage_view, usages_view, ToggleUsage, UsageModel};
use crate::cli::table::{header_texts, render_table, row_texts, table_text};
use crate::context::opt_view;
use crate::strategies::blue_green::{default_slot_names, default_slots, texts};
use crate::text::{chars_eq, chars_of, decimal, decimal_text, join, join_from, string_from_chars};

verus! {

/// A dash for an empty text.
pub open spec fn dash_or(value: Seq<char>) -> Seq<char> {
    if value.len() == 0 {
        seq!['-']
    } else {
        value
    }
}

/// The text itself, or `-` when it is empty.
pub fn display_or_dash(value: &str) -> (r: String)
    ensures
        r@ == dash_or(value@),
{
    let chars = chars_of(value);
    if chars.len() == 0 {
        let dash: Vec<char> = vec!['-'];
        string_from_chars(dash.as_slice())
    } else {
        String::from_str(value)
    }
}

/// State counts by their views.
pub open spec fn count_pairs(counts: Seq<(String, usize)>) -> Seq<(Seq<char>, nat)> {
    counts.map_values(|p: (String, usize)| (p.0@, p.1 as nat))
}

/// The counts with one more occurrence of `state`.
pub open spec fn bump(counts: Seq<(Seq<char>, nat)>, state: Seq<char>) -> Seq<(Seq<char>, nat)> {
    let i = pair_index(counts, state);
    if 0 <= i < counts.len() {
        counts.update(i, (counts[i].0, counts[i].1 + 1))
    } else {
        counts.push((state, 1))
    }
}

/// Count one more occurrence of a state.
pub fn increment(counts: &mut Vec<(String, usize)>, state: &str)
    requires
        pair_value(count_pairs(old(counts)@), state@) matches Some(c) ==> c < usize::MAX,
    ensures
        count_pairs(final(counts)@) == bump(count_pairs(old(counts)@), state@),
{
    let ghost model = count_pairs(counts@);
    let key = chars_of(state);
    let mut i: usize = 0;
    while i < counts.len()
        invariant
            i <= counts@.len(),
            model == count_pairs(counts@),
            model == count_pairs(old(counts)@),
            pair_value(model, state@) matches Some(c) ==> c < usize::MAX,
            key@ == state@,
            forall|j: int| 0 <= j < i ==> #[trigger] model[j].0 != state@,
        decreases counts@.len() - i,
    {
        let name = chars_of(counts[i].0.as_str());
        assert(model[i as int].0 == name@);
        if chars_eq(name.as_slice(), key.as_slice()) {
            proof {
                crate::cli::appconfig::lemma_pair_index_at(model, state@, i as int);
            }
            assert(model[i as int].1 == counts@[i as int].1 as nat);
            let (name, count) = counts.remove(i);
            counts.insert(i, (name, count + 1));
            assert(count_pairs(counts@) =~= bump(model, state@));
            return;
        }
        i = i + 1;
    }
    proof {
        crate::cli::appconfig::lemma_pair_index_bounds(model, state@);
        if pair_index(model, state@) >= 0 {
            assert(model[pair_index(model, state@)].0 == state@);
        }
    }
    counts.push((String::from_str(state), 1));
    assert(count_pairs(counts@) =~= bump(model, state@));
}

/// The summary parts for the states of `order` that were counted, in that order.
pub open spec fn summary_parts(order: Seq<Seq<char>>, counts: Seq<(Seq<char>, nat)>) -> Seq<
    Seq<char>,
>
    decreases order.len(),
{
    if order.len() == 0 {
        Seq::empty()
    } else {
        let before = summary_parts(order.drop_last(), counts);
        match pair_value(counts, order.last()) {
            Some(c) => before.push(decimal_text(c) + seq![' '] + order.last()),
            None => before,
        }
    }
}

/// `N toggle(s). X ON, Y OFF, ...` in the fixed state order.
pub open spec fn summary_text(total: nat, counts: Seq<(Seq<char>, nat)>) -> Seq<char> {
    decimal_text(total) + " toggle(s). "@ + join(summary_parts(state_order(), counts), ", "@)
}

/// The count recorded for a state, if any.
fn count_of(counts: &[(String, usize)], state: &str) -> (r: Option<usize>)
    ensures
        match r {
            Some(c) => pair_value(count_pairs(counts@), state@) == Some(c as nat),
            None => pair_value(count_pairs(counts@), state@) is None,
        },
{
    let ghost model = count_pairs(counts@);
    let key = chars_of(state);
    let mut i: usize = 0;
    while i < counts.len()
        invariant
            i <= counts@.len(),
            model == count_pairs(counts@),
            key@ == state@,
            forall|j: int| 0 <= j < i ==> #[trigger] model[j].0 != state@,
        decreases counts@.len() - i,
    {
        let name = chars_of(counts[i].0.as_str());
        assert(model[i as int].0 == name@);
        if chars_eq(name.as_slice(), key.as_slice()) {
            proof {
                crate::cli::appconfig::lemma_pair_index_at(model, state@, i as int);
            }
            return Some(counts[i].1);
        }
        i = i + 1;
    }
    proof {
        crate::cli::appconfig::lemma_pair_index_bounds(model, state@);
        if pair_index(model, state@) >= 0 {
            assert(model[pair_index(model, state@)].0 == state@);
        }
    }
    None
}

/// The pieces joined with a separator.
pub(crate) fn join_all(pieces: &Vec<Vec<char>>, sep: &[char]) -> (r: Vec<char>)
    ensures
        r@ == join(pieces@.map_values(|p: Vec<char>| p@), sep@),
{
    let r = join_from(pieces, 0, sep);
    assert(pieces@.skip(0) =~= pieces@);
    r
}

/// Build the `N toggle(s). X ON, Y OFF, ...` summary line in the fixed state order.
pub fn summary_line(total: usize, counts: &[(String, usize)]) -> (r: String)
    ensures
        r@ == summary_text(total as nat, count_pairs(counts@)),
{
    let ghost cs = count_pairs(counts@);
    let order = state_labels();
    let ghost ord = texts(order@);
    let mut parts: Vec<Vec<char>> = Vec::new();
    let mut i: usize = 0;
    assert(ord.take(0) =~= Seq::<Seq<char>>::empty());
    assert(parts@.map_values(|p: Vec<char>| p@) =~= Seq::<Seq<char>>::empty());
    while i < order.len()
        invariant
            i <= order@.len(),
            ord == texts(order@),
            cs == count_pairs(counts@),
            parts@.map_values(|p: Vec<char>| p@) == summary_parts(ord.take(i as int), cs),
        decreases order@.len() - i,
    {
        proof {
            assert(ord.take(i + 1).drop_last() =~= ord.take(i as int));
            assert(ord.take(i + 1).last() == order@[i as int]@);
        }
        match count_of(counts, order[i].as_str()) {
            Some(c) => {
                let mut part = decimal_chars_of(c);
                part.push(' ');
                let label = chars_of(order[i].as_str());
                part.extend_from_slice(label.as_slice());
                assert(part@ =~= decimal_text(c as nat) + seq![' '] + order@[i as int]@);
                let ghost before = parts@;
                parts.push(part);
                assert(parts@.map_values(|p: Vec<char>| p@) =~= before.map_values(
                    |p: Vec<char>| p@,
                ).push(decimal_text(c as nat) + seq![' '] + order@[i as int]@));
            },
            None => {},
        }
        i = i + 1;
    }
    assert(ord.take(i as int) =~= ord);
    let mut out = decimal_chars_of(total);
    let middle: Vec<char> = vec![' ', 't', 'o', 'g', 'g', 'l', 'e', '(', 's', ')', '.', ' '];
    let sep: Vec<char> = vec![',', ' '];
    proof {
        reveal_strlit(" toggle(s). ");
        reveal_strlit(", ");
        assert(middle@ =~= " toggle(s). "@);
        assert(sep@ =~= ", "@);
    }
    out.extend_from_slice(middle.as_slice());
    let joined = join_all(&parts, sep.as_slice());
    out.extend_from_slice(joined.as_slice());
    assert(out@ =~= summary_text(total as nat, cs));
    string_from_chars(out.as_slice())
}

/// The decimal characters of a count.
fn decimal_chars_of(n: usize) -> (r: Vec<char>)
    ensures
        r@ == decimal_text(n as nat),
{
    crate::text::decimal_chars(n as u64)
}

// ---------------------------------------------------------------------------------------------
// One environment's section
// ---------------------------------------------------------------------------------------------

/// The report's column headers (with `Overrides` when asked for).
pub open spec fn report_headers(show_overrides: bool) -> Seq<Seq<char>> {
    seq!["Toggle Key"@, "Method"@, "Source"@, "State"@, "File"@, "Line"@] + if show_overrides {
        seq!["Overrides"@]
    } else {
        Seq::empty()
    }
}

/// The state of a usage's toggle in a configuration.
pub open spec fn usage_state(config: AppConfig, u: UsageModel) -> Seq<char> {
    state_label(
        pair_value(text_pairs(config.toggles@), u.0),
        opt_view(config.current_slot),
        texts(config.known_slots@),
    )
}

/// The users with overrides, comma-joined, or `-` when there are none.
pub open spec fn users_cell(users: Seq<Seq<char>>) -> Seq<char> {
    if users.len() == 0 {
        seq!['-']
    } else {
        join(users, seq![','])
    }
}

/// The users with overrides for a toggle key in a configuration.
pub open spec fn override_users_of(config: AppConfig, key: Seq<char>) -> Seq<Seq<char>> {
    match pair_value(list_pairs(config.overrides@), key) {
        Some(users) => users,
        None => Seq::empty(),
    }
}

/// A usage's row: key, method (or `-`), source, state, file, line, and the overridden users.
pub open spec fn usage_row(config: AppConfig, u: UsageModel, show_overrides: bool) -> Seq<Seq<char>> {
    seq![u.0, dash_or(u.1), u.2, usage_state(config, u), u.3, decimal_text(u.4)] + if show_overrides {
        seq![users_cell(override_users_of(config, u.0))]
    } else {
        Seq::empty()
    }
}

/// The per-state counts of the usages, in order of first occurrence.
pub open spec fn state_counts(config: AppConfig, usages: Seq<UsageModel>) -> Seq<(Seq<char>, nat)>
    decreases usages.len(),
{
    if usages.len() == 0 {
        Seq::empty()
    } else {
        bump(state_counts(config, usages.drop_last()), usage_state(config, usages.last()))
    }
}

/// The table of an environment's section.
pub open spec fn environment_table(config: AppConfig, usages: Seq<UsageModel>, show_overrides: bool) -> Seq<char> {
    table_text(
        report_headers(show_overrides),
        usages.map_values(|u: UsageModel| usage_row(config, u, show_overrides)),
    )
}

/// The summary line of an environment's section.
pub open spec fn environment_summary(config: AppConfig, usages: Seq<UsageModel>) -> Seq<char> {
    summary_text(usages.len(), state_counts(config, usages))
}

/// The console form of an environment's section.
pub open spec fn environment_console(config: AppConfig, usages: Seq<UsageModel>, show_overrides: bool) -> Seq<char> {
    "=== "@ + config.name@ + " ===\n"@ + environment_table(config, usages, show_overrides) + "\n"@
        + environment_summary(config, usages) + "\n\n"@
}

/// The markdown form of an environment's section.
pub open spec fn environment_markdown(config: AppConfig, usages: Seq<UsageModel>, show_overrides: bool) -> Seq<char> {
    "## "@ + config.name@ + "\n\n"@ + environment_table(config, usages, show_overrides) + "\n\n"@
        + environment_summary(config, usages) + "\n"@
}

/// The overridden users of a key, as a cell.
fn users_text(users: &[String]) -> (r: String)
    ensures
        r@ == users_cell(texts(users@)),
{
    if users.len() == 0 {
        let dash: Vec<char> = vec!['-'];
        return string_from_chars(dash.as_slice());
    }
    let mut pieces: Vec<Vec<char>> = Vec::new();
    let mut i: usize = 0;
    while i < users.len()
        invariant
            i <= users@.len(),
            pieces@.len() == i,
            forall|j: int| 0 <= j < i ==> #[trigger] pieces@[j]@ == users@[j]@,
        decreases users@.len() - i,
    {
        pieces.push(chars_of(users[i].as_str()));
        i = i + 1;
    }
    let sep: Vec<char> = vec![','];
    let joined = join_all(&pieces, sep.as_slice());
    assert(pieces@.map_values(|p: Vec<char>| p@) =~= texts(users@));
    assert(sep@ =~= seq![',']);
    string_from_chars(joined.as_slice())
}

/// A text made of pieces.
pub(crate) fn concat_texts(pieces: &[&str]) -> (r: String)
    ensures
        r@ == pieces@.fold_left(Seq::<char>::empty(), |acc: Seq<char>, p: &str| acc + p@),
{
    let mut out: Vec<char> = Vec::new();
    let mut i: usize = 0;
    while i < pieces.len()
        invariant
            i <= pieces@.len(),
            out@ == pieces@.take(i as int).fold_left(
                Seq::<char>::empty(),
                |acc: Seq<char>, p: &str| acc + p@,
            ),
        decreases pieces@.len() - i,
    {
        let chars = chars_of(pieces[i]);
        out.extend_from_slice(chars.as_slice());
        proof {
            assert(pieces@.take(i + 1).drop_last() =~= pieces@.take(i as int));
        }
        i = i + 1;
    }
    assert(pieces@.take(i as int) =~= pieces@);
    string_from_chars(out.as_slice())
}

/// Render one environment's section: its table of usages with their states, and the summary.
/// Returns the console form and the markdown form.
pub fn render_environment(config: &AppConfig, usages: &[ToggleUsage], show_overrides: bool) -> (r: (
    String,
    String,
))
    ensures
        r.0@ == environment_console(*config, usages_view(usages@), show_overrides),
        r.1@ == environment_markdown(*config, usages_view(usages@), show_overrides),
{
    let ghost us = usages_view(usages@);
    let mut headers: Vec<&str> = vec!["Toggle Key", "Method", "Source", "State", "File", "Line"];
    if show_overrides {
        headers.push("Overrides");
    }
    assert(header_texts(headers@) =~= report_headers(show_overrides));
    let mut rows: Vec<Vec<String>> = Vec::new();
    let mut counts: Vec<(String, usize)> = Vec::new();
    let mut i: usize = 0;
    assert(us.take(0) =~= Seq::<UsageModel>::empty());
    assert(count_pairs(counts@) =~= Seq::<(Seq<char>, nat)>::empty());
    assert(row_texts(rows@) =~= Seq::<Seq<Seq<char>>>::empty());
    while i < usages.len()
        invariant
            i <= usages@.len(),
            us == usages_view(usages@),
            row_texts(rows@) == us.take(i as int).map_values(
                |u: UsageModel| usage_row(*config, u, show_overrides),
            ),
            count_pairs(counts@) == state_counts(*config, us.take(i as int)),
            forall|j: int| 0 <= j < counts@.len() ==> (#[trigger] counts@[j]).1 <= i,
        decreases usages@.len() - i,
    {
        let usage = &usages[i];
        let ghost u = usage_view(*usage);
        assert(us[i as int] == u);
        let state = classify_state(
            config.raw_value(usage.key.as_str()),
            match &config.current_slot {
                Some(c) => Some(c.as_str()),
                None => None,
            },
            config.known_slots.as_slice(),
        );
        assert(state@ == usage_state(*config, u));
        proof {
            let model = count_pairs(counts@);
            if let Some(c) = pair_value(model, state@) {
                crate::cli::appconfig::lemma_pair_index_bounds(model, state@);
                assert(counts@[pair_index(model, state@)].1 <= i);
            }
        }
        let ghost old_counts = counts@;
        increment(&mut counts, state.as_str());
        proof {
            assert(us.take(i + 1).drop_last() =~= us.take(i as int));
            assert(us.take(i + 1).last() == u);
            let model = count_pairs(old_counts);
            let k = pair_index(model, state@);
            crate::cli::appconfig::lemma_pair_index_bounds(model, state@);
            assert forall|j: int| 0 <= j < counts@.len() implies (#[trigger] counts@[j]).1 <= i + 1 by {
                assert(count_pairs(counts@)[j].1 == counts@[j].1 as nat);
                let b = bump(model, state@);
                assert(count_pairs(counts@) == b);
                if 0 <= k < model.len() {
                    assert(model[k].1 == old_counts[k].1 as nat);
                    assert(old_counts[k].1 <= i);
                    assert(b.len() == model.len());
                    assert(count_pairs(counts@).len() == counts@.len());
                    if j != k {
                        assert(model[j].1 == old_counts[j].1 as nat);
                        assert(old_counts[j].1 <= i);
                        assert(b[j] == model[j]);
                    } else {
                        assert(b[j].1 == model[k].1 + 1);
                    }
                } else if j < old_counts.len() {
                    assert(model[j].1 == old_counts[j].1 as nat);
                    assert(old_counts[j].1 <= i);
                    assert(b[j] == model[j]);
                } else {
                    assert(b.len() == model.len() + 1);
                    assert(count_pairs(counts@).len() == counts@.len());
                    assert(j == model.len());
                    assert(b[j].1 == 1);
                }
            }
        }
        let mut row: Vec<String> = Vec::new();
        row.push(usage.key.clone());
        row.push(display_or_dash(usage.method.as_str()));
        row.push(usage.source.clone());
        row.push(state);
        row.push(usage.file.clone());
        row.push(decimal(usage.line as u64));
        if show_overrides {
            let users = config.override_users(usage.key.as_str());
            row.push(users_text(users));
        }
        assert(texts(row@) =~= usage_row(*config, u, show_overrides));
        let ghost before = rows@;
        rows.push(row);
        assert(row_texts(rows@) =~= row_texts(before).push(texts(row@)));
        assert(us.take(i + 1).map_values(|u: UsageModel| usage_row(*config, u, show_overrides))
            =~= us.take(i as int).map_values(
            |u: UsageModel| usage_row(*config, u, show_overrides),
        ).push(usage_row(*config, u, show_overrides)));
        i = i + 1;
    }
    assert(us.take(i as int) =~= us);
    let table = render_table(headers.as_slice(), rows.as_slice());
    let summary = summary_line(usages.len(), counts.as_slice());
    let console = concat_texts(
        &[
            "=== ",
            config.name.as_str(),
            " ===\n",
            table.as_str(),
            "\n",
            summary.as_str(),
            "\n\n",
        ],
    );
    let markdown = concat_texts(
        &[
            "## ",
            config.name.as_str(),
            "\n\n",
            table.as_str(),
            "\n\n",
            summary.as_str(),
            "\n",
        ],
    );
    proof {
        reveal_with_fuel(Seq::<&str>::fold_left, 8);
    }
    (console, markdown)
}

/// The configuration reported against when none was found: no toggles, no current slot, the
/// `blue`/`green` slots, no overrides.
pub fn unconfigured() -> (r: AppConfig)
    ensures
        r.name@ == "(no config)"@,
        r.toggles@.len() == 0,
        r.current_slot is None,
        texts(r.known_slots@) == default_slots(),
        r.overrides@.len() == 0,
{
    AppConfig {
        name: String::from_str("(no config)"),
        toggles: Vec::new(),
        current_slot: None,
        known_slots: default_slot_names(),
        overrides: Vec::new(),
    }
}

/// The markdown report: the sections, one after another, separated by a newline.
pub fn report_markdown(sections: &Vec<String>) -> (r: String)
    ensures
        r@ == join(texts(sections@), seq!['\n']),
{
    let mut pieces: Vec<Vec<char>> = Vec::new();
    let mut i: usize = 0;
    while i < sections.len()
        invariant
            i <= sections@.len(),
            pieces@.len() == i,
            forall|j: int| 0 <= j < i ==> #[trigger] pieces@[j]@ == sections@[j]@,
        decreases sections@.len() - i,
    {
        pieces.push(chars_of(sections[i].as_str()));
        i = i + 1;
    }
    let sep: Vec<char> = vec!['\n'];
    let joined = join_all(&pieces, sep.as_slice());
    assert(pieces@.map_values(|p: Vec<char>| p@) =~= texts(sections@));
    assert(sep@ =~= seq!['\n']);
    string_from_chars(joined.as_slice())
}

} // verus!
