//! The always-last fallback strategy: a plain boolean literal.

use vstd::prelude::*;

use super::{ToggleDecisionStrategy, ToggleEvaluationContext};
use crate::error::{out_of_range, out_of_range_error, outcome, ErrorModel, ToggleError};
use crate::text::{chars_eq, chars_of, lower, lower_chars, trim, trim_chars};

verus! {

pub open spec fn word_true() -> Seq<char> {
    seq!['t', 'r', 'u', 'e']
}

pub open spec fn word_false() -> Seq<char> {
    seq!['f', 'a', 'l', 's', 'e']
}

/// The boolean a raw value spells: `true`/`1` or `false`/`0`, ignoring surrounding whitespace
/// and ASCII case.
pub open spec fn boolean_value(raw: Seq<char>) -> Option<bool> {
    let t = lower(trim(raw));
    if t == word_true() || t == seq!['1'] {
        Some(true)
    } else if t == word_false() || t == seq!['0'] {
        Some(false)
    } else {
        None
    }
}

/// The decision for a boolean literal, or `ParsedOutOfRange` for anything else.
pub open spec fn boolean_outcome(raw: Seq<char>) -> Result<bool, ErrorModel> {
    match boolean_value(raw) {
        Some(b) => Ok(b),
        None => out_of_range(raw),
    }
}

/// The boolean spelled by characters that are already trimmed and lowercased.
fn boolean_word(t: &[char]) -> (r: Option<bool>)
    ensures
        r == (if t@ == word_true() || t@ == seq!['1'] {
            Some(true)
        } else if t@ == word_false() || t@ == seq!['0'] {
            Some(false)
        } else {
            None
        }),
{
    let w_true: [char; 4] = ['t', 'r', 'u', 'e'];
    let w_false: [char; 5] = ['f', 'a', 'l', 's', 'e'];
    let w_one: [char; 1] = ['1'];
    let w_zero: [char; 1] = ['0'];
    assert(w_true@ =~= word_true());
    assert(w_false@ =~= word_false());
    assert(w_one@ =~= seq!['1']);
    assert(w_zero@ =~= seq!['0']);
    if chars_eq(t, &w_true) || chars_eq(t, &w_one) {
        Some(true)
    } else if chars_eq(t, &w_false) || chars_eq(t, &w_zero) {
        Some(false)
    } else {
        None
    }
}

/// Parse a boolean toggle value, accepting `true`/`false`/`1`/`0` case-insensitively.
pub fn parse_boolean_value(raw_value: &str) -> (r: Result<bool, ToggleError>)
    ensures
        outcome(r) == boolean_outcome(raw_value@),
{
    let chars = chars_of(raw_value);
    let t = lower_chars(trim_chars(chars.as_slice()).as_slice());
    match boolean_word(t.as_slice()) {
        Some(b) => Ok(b),
        None => Err(out_of_range_error(raw_value)),
    }
}

/// Whether a raw value is a recognised boolean literal.
pub fn is_boolean_value(raw_value: &str) -> (b: bool)
    ensures
        b == boolean_value(raw_value@) is Some,
{
    let chars = chars_of(raw_value);
    let t = lower_chars(trim_chars(chars.as_slice()).as_slice());
    boolean_word(t.as_slice()).is_some()
}

/// Resolves `true`/`false`/`1`/`0` (case-insensitive). Appended last to every chain so a boolean
/// value always resolves even when no richer grammar claimed it.
#[derive(Debug, Default, Clone, Copy)]
pub struct BooleanStrategy;

impl ToggleDecisionStrategy for BooleanStrategy {
    fn can_handle(&self, raw_value: &str) -> (b: bool)
        ensures
            b == boolean_value(raw_value@) is Some,
    {
        is_boolean_value(raw_value)
    }

    fn should_execute(&self, raw_value: &str, context: &ToggleEvaluationContext) -> (r: Result<
        bool,
        ToggleError,
    >)
        ensures
            outcome(r) == boolean_outcome(raw_value@),
    {
        parse_boolean_value(raw_value)
    }
}

} // verus!
