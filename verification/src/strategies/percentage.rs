//! Percentage rollout: `50%`.

use vstd::prelude::*;

use super::{random_percent_roll, ToggleDecisionStrategy, ToggleEvaluationContext};
use crate::error::{out_of_range, out_of_range_error, outcome, ErrorModel, ToggleError};
use crate::text::{chars_of, copy_range, parse_u32, parse_u32_chars, trim, trim_chars};

verus! {

/// The integer percentage of a `NN%` value: after trimming, one trailing `%`, and before it
/// (trimmed again) what `u32::from_str` accepts.
pub open spec fn percentage_value(raw: Seq<char>) -> Option<u32> {
    let t = trim(raw);
    if t.len() > 0 && t.last() == '%' {
        parse_u32(trim(t.drop_last()))
    } else {
        None
    }
}

/// The rollout decision for a percentage and a roll in `0..100`: `0%` is always off, `100%` and
/// above always on, and in between the roll must fall below the percentage.
pub open spec fn percentage_decision(percentage: u32, roll: u32) -> bool {
    if percentage == 0 {
        false
    } else if percentage >= 100 {
        true
    } else {
        roll < percentage
    }
}

/// What a percentage rollout may decide without knowing the roll.
pub open spec fn percentage_allows(raw: Seq<char>, r: Result<bool, ErrorModel>) -> bool {
    match percentage_value(raw) {
        None => r == out_of_range(raw),
        Some(p) => exists|roll: u32| roll < 100 && r == Ok::<bool, ErrorModel>(#[trigger] percentage_decision(p, roll)),
    }
}

/// Extract the integer percentage from a `NN%` value, if it is well-formed.
pub fn parse_percentage(raw_value: &str) -> (r: Option<u32>)
    ensures
        r == percentage_value(raw_value@),
{
    let chars = chars_of(raw_value);
    let t = trim_chars(chars.as_slice());
    let n = t.len();
    if n > 0 && t[n - 1] == '%' {
        let digits = copy_range(t.as_slice(), 0, n - 1);
        assert(digits@ =~= t@.drop_last());
        let d = trim_chars(digits.as_slice());
        parse_u32_chars(d.as_slice())
    } else {
        None
    }
}

/// The rollout decision for a percentage and a roll in `0..100`.
pub fn decide_percentage(percentage: u32, roll: u32) -> (b: bool)
    ensures
        b == percentage_decision(percentage, roll),
{
    if percentage == 0 {
        false
    } else if percentage >= 100 {
        true
    } else {
        roll < percentage
    }
}

/// Resolves values like `50%`. The `0%` and `100%` boundaries are deterministic (always off /
/// always on); values in between are a probabilistic per-call roll.
#[derive(Debug, Default, Clone, Copy)]
pub struct PercentageRolloutStrategy;

impl ToggleDecisionStrategy for PercentageRolloutStrategy {
    fn can_handle(&self, raw_value: &str) -> (b: bool)
        ensures
            b == percentage_value(raw_value@) is Some,
    {
        parse_percentage(raw_value).is_some()
    }

    fn should_execute(&self, raw_value: &str, context: &ToggleEvaluationContext) -> (r: Result<
        bool,
        ToggleError,
    >)
        ensures
            percentage_allows(raw_value@, outcome(r)),
    {
        match parse_percentage(raw_value) {
            None => Err(out_of_range_error(raw_value)),
            Some(percentage) => {
                if percentage == 0 || percentage >= 100 {
                    let b = decide_percentage(percentage, 0);
                    assert(outcome(Ok(b)) == Ok::<bool, ErrorModel>(percentage_decision(percentage, 0)));
                    Ok(b)
                } else {
                    let roll = random_percent_roll();
                    let b = decide_percentage(percentage, roll);
                    assert(outcome(Ok(b)) == Ok::<bool, ErrorModel>(percentage_decision(percentage, roll)));
                    Ok(b)
                }
            },
        }
    }
}

} // verus!
