//! Attribute rules: `attribute:plan equals premium`.

use vstd::prelude::*;

use super::{ToggleDecisionStrategy, ToggleEvaluationContext};
use crate::context::opt_view;
use crate::error::{out_of_range, out_of_range_error, outcome, ErrorModel, ToggleError};
use crate::text::{
    chars_contains, chars_ends_with, chars_eq, chars_eq_ignore_case, chars_of, chars_starts_with,
    contains, copy_range, ends_with, eq_ignore_case, join, join_from, lower, lower_chars,
    split_chars, split_on, starts_with, string_from_chars, trim, trim_chars, trim_start,
    trim_start_chars, words, words_of,
};

verus! {

pub open spec fn attribute_prefix() -> Seq<char> {
    seq!['a', 't', 't', 'r', 'i', 'b', 'u', 't', 'e', ':']
}

/// The comparison operators of an attribute rule, matched case-insensitively.
#[derive(Debug, Clone, Copy, PartialEq, Eq, Structural)]
pub enum RuleOperator {
    Equals,
    NotEquals,
    StartsWith,
    EndsWith,
    Contains,
    In,
    NotIn,
}

/// The lowercase name of an operator as it is written in a rule.
pub open spec fn operator_name(op: RuleOperator) -> Seq<char> {
    match op {
        RuleOperator::Equals => seq!['e', 'q', 'u', 'a', 'l', 's'],
        RuleOperator::NotEquals => seq!['n', 'o', 't', 'e', 'q', 'u', 'a', 'l', 's'],
        RuleOperator::StartsWith => seq!['s', 't', 'a', 'r', 't', 's', 'w', 'i', 't', 'h'],
        RuleOperator::EndsWith => seq!['e', 'n', 'd', 's', 'w', 'i', 't', 'h'],
        RuleOperator::Contains => seq!['c', 'o', 'n', 't', 'a', 'i', 'n', 's'],
        RuleOperator::In => seq!['i', 'n'],
        RuleOperator::NotIn => seq!['n', 'o', 't', 'i', 'n'],
    }
}

/// The operator a lowercase word names, if any.
pub open spec fn operator_named(word: Seq<char>) -> Option<RuleOperator> {
    if word == operator_name(RuleOperator::Equals) {
        Some(RuleOperator::Equals)
    } else if word == operator_name(RuleOperator::NotEquals) {
        Some(RuleOperator::NotEquals)
    } else if word == operator_name(RuleOperator::StartsWith) {
        Some(RuleOperator::StartsWith)
    } else if word == operator_name(RuleOperator::EndsWith) {
        Some(RuleOperator::EndsWith)
    } else if word == operator_name(RuleOperator::Contains) {
        Some(RuleOperator::Contains)
    } else if word == operator_name(RuleOperator::In) {
        Some(RuleOperator::In)
    } else if word == operator_name(RuleOperator::NotIn) {
        Some(RuleOperator::NotIn)
    } else {
        None
    }
}

/// Whether a raw value is an attribute rule: after leading whitespace, `attribute:` in any ASCII
/// case.
pub open spec fn is_attribute_rule(raw: Seq<char>) -> bool {
    starts_with(lower(trim_start(raw)), attribute_prefix())
}

/// The whitespace-separated words after the `attribute:` prefix.
pub open spec fn rule_words(raw: Seq<char>) -> Seq<Seq<char>> {
    words(trim(trim_start(raw).skip(10)))
}

/// The parsed rule `(attribute name, operator, expected value)`: the first word names the
/// attribute, the second the operator, and the remaining words joined by single spaces form the
/// expected value.
pub open spec fn attribute_rule(raw: Seq<char>) -> Option<(Seq<char>, RuleOperator, Seq<char>)> {
    if !is_attribute_rule(raw) || rule_words(raw).len() < 2 {
        None
    } else {
        match operator_named(lower(rule_words(raw)[1])) {
            Some(op) => Some((rule_words(raw)[0], op, join(rule_words(raw).skip(2), seq![' ']))),
            None => None,
        }
    }
}

/// Whether `value` equals (ignoring ASCII case) one of the trimmed comma-separated entries of
/// `list`.
pub open spec fn in_list(list: Seq<char>, value: Seq<char>) -> bool {
    exists|i: int|
        0 <= i < split_on(list, ',').len() && eq_ignore_case(
            trim(#[trigger] split_on(list, ',')[i]),
            value,
        )
}

/// An operator applied to a present attribute value; all comparison ignores ASCII case.
pub open spec fn operator_holds(op: RuleOperator, actual: Seq<char>, expected: Seq<char>) -> bool {
    match op {
        RuleOperator::Equals => eq_ignore_case(actual, expected),
        RuleOperator::NotEquals => !eq_ignore_case(actual, expected),
        RuleOperator::StartsWith => starts_with(lower(actual), lower(expected)),
        RuleOperator::EndsWith => ends_with(lower(actual), lower(expected)),
        RuleOperator::Contains => contains(lower(actual), lower(expected)),
        RuleOperator::In => in_list(expected, actual),
        RuleOperator::NotIn => !in_list(expected, actual),
    }
}

/// A rule applied to a possibly absent attribute: when it is absent, the negative operators hold
/// and the others do not.
pub open spec fn rule_holds(op: RuleOperator, attribute: Option<Seq<char>>, expected: Seq<char>) -> bool {
    match attribute {
        Some(a) => operator_holds(op, a, expected),
        None => op == RuleOperator::NotEquals || op == RuleOperator::NotIn,
    }
}

/// What an attribute rule may decide when the attribute comes from the accessor.
pub open spec fn rule_allows(raw: Seq<char>, has_accessor: bool, r: Result<bool, ErrorModel>) -> bool {
    match attribute_rule(raw) {
        None => r == out_of_range(raw),
        Some(rule) => exists|a: Option<Seq<char>>|
            (!has_accessor ==> a is None) && r == Ok::<bool, ErrorModel>(#[trigger] rule_holds(rule.1, a, rule.2)),
    }
}

/// A parsed attribute rule.
pub struct AttributeRule {
    pub attribute_name: String,
    pub operator: RuleOperator,
    pub expected_value: String,
}

/// The operator a lowercase word names.
pub fn operator_from_word(word: &[char]) -> (r: Option<RuleOperator>)
    ensures
        r == operator_named(word@),
{
    let equals: [char; 6] = ['e', 'q', 'u', 'a', 'l', 's'];
    let not_equals: [char; 9] = ['n', 'o', 't', 'e', 'q', 'u', 'a', 'l', 's'];
    let starts: [char; 10] = ['s', 't', 'a', 'r', 't', 's', 'w', 'i', 't', 'h'];
    let ends: [char; 8] = ['e', 'n', 'd', 's', 'w', 'i', 't', 'h'];
    let contains_word: [char; 8] = ['c', 'o', 'n', 't', 'a', 'i', 'n', 's'];
    let in_word: [char; 2] = ['i', 'n'];
    let not_in: [char; 5] = ['n', 'o', 't', 'i', 'n'];
    assert(equals@ =~= operator_name(RuleOperator::Equals));
    assert(not_equals@ =~= operator_name(RuleOperator::NotEquals));
    assert(starts@ =~= operator_name(RuleOperator::StartsWith));
    assert(ends@ =~= operator_name(RuleOperator::EndsWith));
    assert(contains_word@ =~= operator_name(RuleOperator::Contains));
    assert(in_word@ =~= operator_name(RuleOperator::In));
    assert(not_in@ =~= operator_name(RuleOperator::NotIn));
    if chars_eq(word, &equals) {
        Some(RuleOperator::Equals)
    } else if chars_eq(word, &not_equals) {
        Some(RuleOperator::NotEquals)
    } else if chars_eq(word, &starts) {
        Some(RuleOperator::StartsWith)
    } else if chars_eq(word, &ends) {
        Some(RuleOperator::EndsWith)
    } else if chars_eq(word, &contains_word) {
        Some(RuleOperator::Contains)
    } else if chars_eq(word, &in_word) {
        Some(RuleOperator::In)
    } else if chars_eq(word, &not_in) {
        Some(RuleOperator::NotIn)
    } else {
        None
    }
}

/// Whether a raw value is an `attribute:` rule.
pub fn is_attribute_rule_value(raw_value: &str) -> (b: bool)
    ensures
        b == is_attribute_rule(raw_value@),
{
    let chars = chars_of(raw_value);
    let t = lower_chars(trim_start_chars(chars.as_slice()).as_slice());
    let prefix: [char; 10] = ['a', 't', 't', 'r', 'i', 'b', 'u', 't', 'e', ':'];
    assert(prefix@ =~= attribute_prefix());
    chars_starts_with(t.as_slice(), &prefix)
}

/// Parse `attribute:<name> <operator> <value>`.
pub fn parse_attribute_rule(raw_value: &str) -> (r: Option<AttributeRule>)
    ensures
        r is Some <==> attribute_rule(raw_value@) is Some,
        r matches Some(rule) ==> rule.attribute_name@ == attribute_rule(raw_value@).unwrap().0
            && rule.operator == attribute_rule(raw_value@).unwrap().1 && rule.expected_value@
            == attribute_rule(raw_value@).unwrap().2,
{
    if !is_attribute_rule_value(raw_value) {
        return None;
    }
    let chars = chars_of(raw_value);
    let t = trim_start_chars(chars.as_slice());
    assert(lower(t@).len() == t@.len());
    let rest = copy_range(t.as_slice(), 10, t.len());
    assert(rest@ =~= trim_start(raw_value@).skip(10));
    let body = trim_chars(rest.as_slice());
    let tokens = words_of(body.as_slice());
    if tokens.len() < 2 {
        return None;
    }
    let op_word = lower_chars(tokens[1].as_slice());
    match operator_from_word(op_word.as_slice()) {
        Some(operator) => {
            let space: [char; 1] = [' '];
            assert(space@ =~= seq![' ']);
            let expected = join_from(&tokens, 2, &space);
            proof {
                assert(tokens@.skip(2).map_values(|p: Vec<char>| p@) =~= rule_words(
                    raw_value@,
                ).skip(2));
            }
            Some(
                AttributeRule {
                    attribute_name: string_from_chars(tokens[0].as_slice()),
                    operator,
                    expected_value: string_from_chars(expected.as_slice()),
                },
            )
        },
        None => None,
    }
}

/// Whether the comma-separated `list` contains `value` (case-insensitively).
pub fn list_contains(list: &str, value: &str) -> (b: bool)
    ensures
        b == in_list(list@, value@),
{
    let list_chars = chars_of(list);
    let value_chars = chars_of(value);
    let entries = split_chars(list_chars.as_slice(), ',');
    let mut i: usize = 0;
    while i < entries.len()
        invariant
            i <= entries@.len(),
            entries@.len() == split_on(list@, ',').len(),
            forall|k: int|
                0 <= k < entries@.len() ==> #[trigger] entries@[k]@ == split_on(list@, ',')[k],
            value_chars@ == value@,
            forall|k: int|
                0 <= k < i ==> !eq_ignore_case(trim(#[trigger] split_on(list@, ',')[k]), value@),
        decreases entries@.len() - i,
    {
        let entry = trim_chars(entries[i].as_slice());
        assert(entries@[i as int]@ == split_on(list@, ',')[i as int]);
        if chars_eq_ignore_case(entry.as_slice(), value_chars.as_slice()) {
            return true;
        }
        i = i + 1;
    }
    false
}

/// Apply an operator to a present attribute value.
pub fn evaluate_operator(operator: RuleOperator, actual: &str, expected: &str) -> (b: bool)
    ensures
        b == operator_holds(operator, actual@, expected@),
{
    let actual_chars = chars_of(actual);
    let expected_chars = chars_of(expected);
    let actual_lower = lower_chars(actual_chars.as_slice());
    let expected_lower = lower_chars(expected_chars.as_slice());
    match operator {
        RuleOperator::Equals => chars_eq(actual_lower.as_slice(), expected_lower.as_slice()),
        RuleOperator::NotEquals => !chars_eq(actual_lower.as_slice(), expected_lower.as_slice()),
        RuleOperator::StartsWith => chars_starts_with(
            actual_lower.as_slice(),
            expected_lower.as_slice(),
        ),
        RuleOperator::EndsWith => chars_ends_with(
            actual_lower.as_slice(),
            expected_lower.as_slice(),
        ),
        RuleOperator::Contains => chars_contains(
            actual_lower.as_slice(),
            expected_lower.as_slice(),
        ),
        RuleOperator::In => list_contains(expected, actual),
        RuleOperator::NotIn => !list_contains(expected, actual),
    }
}

impl AttributeRule {
    /// The rule applied to the attribute's value, or to its absence.
    pub fn holds(&self, attribute: Option<&str>) -> (b: bool)
        ensures
            b == rule_holds(
                self.operator,
                match attribute {
                    Some(a) => Some(a@),
                    None => None,
                },
                self.expected_value@,
            ),
    {
        match attribute {
            Some(actual) => evaluate_operator(self.operator, actual, self.expected_value.as_str()),
            None => match self.operator {
                RuleOperator::NotEquals => true,
                RuleOperator::NotIn => true,
                _ => false,
            },
        }
    }
}

/// Resolves `attribute:<name> <operator> <value>` rules against the context's attributes.
///
/// Supported operators: `equals`, `notEquals`, `startsWith`, `endsWith`, `contains`, `in`, `notIn`
/// (the last two take a comma-separated list). All comparison is case-insensitive. When the
/// attribute is absent from the context, the negative operators (`notEquals`, `notIn`) hold and the
/// rest do not.
#[derive(Debug, Default, Clone, Copy)]
pub struct AttributeRuleStrategy;

impl ToggleDecisionStrategy for AttributeRuleStrategy {
    fn can_handle(&self, raw_value: &str) -> (b: bool)
        ensures
            b == is_attribute_rule(raw_value@),
    {
        is_attribute_rule_value(raw_value)
    }

    fn should_execute(&self, raw_value: &str, context: &ToggleEvaluationContext) -> (r: Result<
        bool,
        ToggleError,
    >)
        ensures
            rule_allows(raw_value@, context.has_accessor(), outcome(r)),
            context.answers_known() ==> outcome(r) == match attribute_rule(raw_value@) {
                None => out_of_range(raw_value@),
                Some(rule) => Ok::<bool, ErrorModel>(
                    rule_holds(rule.1, (context.attribute_answers())(rule.0), rule.2),
                ),
            },
    {
        match parse_attribute_rule(raw_value) {
            None => Err(out_of_range_error(raw_value)),
            Some(rule) => {
                let attribute = context.attribute(rule.attribute_name.as_str());
                let b = match &attribute {
                    Some(value) => rule.holds(Some(value.as_str())),
                    None => rule.holds(None),
                };
                assert(b == rule_holds(rule.operator, opt_view(attribute), rule.expected_value@));
                Ok(b)
            },
        }
    }
}

} // verus!
