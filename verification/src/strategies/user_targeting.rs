//! User targeting: `users:alice,bob`.

use vstd::prelude::*;

use super::{ToggleDecisionStrategy, ToggleEvaluationContext};
use crate::context::opt_view;
use crate::error::{out_of_range, out_of_range_error, outcome, ErrorModel, ToggleError};
use crate::text::{
    chars_eq_ignore_case, chars_of, chars_starts_with, copy_range, eq_ignore_case, lower,
    lower_chars, split_chars, split_on, starts_with, trim, trim_chars, trim_start, trim_start_chars,
};

verus! {

pub open spec fn users_prefix() -> Seq<char> {
    seq!['u', 's', 'e', 'r', 's', ':']
}

/// Whether a raw value is a user list: after leading whitespace, `users:` in any ASCII case.
pub open spec fn is_user_list(raw: Seq<char>) -> bool {
    starts_with(lower(trim_start(raw)), users_prefix())
}

/// The comma-separated entries after the `users:` prefix.
pub open spec fn user_entries(raw: Seq<char>) -> Seq<Seq<char>> {
    split_on(trim_start(raw).skip(6), ',')
}

/// Whether a user id is one of the listed ids (entries trimmed, empty entries ignored, ASCII case
/// ignored).
pub open spec fn user_listed(raw: Seq<char>, user: Seq<char>) -> bool {
    exists|i: int|
        0 <= i < user_entries(raw).len() && trim(#[trigger] user_entries(raw)[i]).len() > 0
            && eq_ignore_case(trim(user_entries(raw)[i]), user)
}

/// The targeting decision for a (possibly absent) current user.
pub open spec fn targeting_decision(raw: Seq<char>, user: Option<Seq<char>>) -> bool {
    match user {
        Some(u) => user_listed(raw, u),
        None => false,
    }
}

/// What user targeting may decide when the current user comes from the accessor.
pub open spec fn targeting_allows(raw: Seq<char>, has_accessor: bool, r: Result<bool, ErrorModel>) -> bool {
    if !is_user_list(raw) {
        r == out_of_range(raw)
    } else {
        exists|u: Option<Seq<char>>|
            (!has_accessor ==> u is None) && r == Ok::<bool, ErrorModel>(#[trigger] targeting_decision(raw, u))
    }
}

/// Whether a raw value is a `users:` list.
pub fn is_user_list_value(raw_value: &str) -> (b: bool)
    ensures
        b == is_user_list(raw_value@),
{
    let chars = chars_of(raw_value);
    let t = lower_chars(trim_start_chars(chars.as_slice()).as_slice());
    let prefix: [char; 6] = ['u', 's', 'e', 'r', 's', ':'];
    assert(prefix@ =~= users_prefix());
    chars_starts_with(t.as_slice(), &prefix)
}

/// Whether `user_id` is targeted by the `users:` list `raw_value`.
pub fn is_user_targeted(raw_value: &str, user_id: &str) -> (b: bool)
    requires
        is_user_list(raw_value@),
    ensures
        b == user_listed(raw_value@, user_id@),
{
    let chars = chars_of(raw_value);
    let t = trim_start_chars(chars.as_slice());
    assert(lower(t@).len() == t@.len());
    let list = copy_range(t.as_slice(), 6, t.len());
    assert(list@ =~= trim_start(raw_value@).skip(6));
    let entries = split_chars(list.as_slice(), ',');
    let user = chars_of(user_id);
    let mut i: usize = 0;
    while i < entries.len()
        invariant
            i <= entries@.len(),
            entries@.len() == user_entries(raw_value@).len(),
            forall|k: int|
                0 <= k < entries@.len() ==> #[trigger] entries@[k]@ == user_entries(raw_value@)[k],
            user@ == user_id@,
            forall|k: int|
                0 <= k < i ==> !(trim(#[trigger] user_entries(raw_value@)[k]).len() > 0
                    && eq_ignore_case(trim(user_entries(raw_value@)[k]), user_id@)),
        decreases entries@.len() - i,
    {
        let entry = trim_chars(entries[i].as_slice());
        assert(entries@[i as int]@ == user_entries(raw_value@)[i as int]);
        if entry.len() > 0 && chars_eq_ignore_case(entry.as_slice(), user.as_slice()) {
            return true;
        }
        i = i + 1;
    }
    false
}

/// Resolves `users:...` values by matching the current user id (case-insensitively) against the
/// listed ids. With no user context the toggle is off. A value without the `users:` prefix is not
/// this strategy's and is reported as `ParsedOutOfRange`.
#[derive(Debug, Default, Clone, Copy)]
pub struct UserTargetingStrategy;

impl ToggleDecisionStrategy for UserTargetingStrategy {
    fn can_handle(&self, raw_value: &str) -> (b: bool)
        ensures
            b == is_user_list(raw_value@),
    {
        is_user_list_value(raw_value)
    }

    fn should_execute(&self, raw_value: &str, context: &ToggleEvaluationContext) -> (r: Result<
        bool,
        ToggleError,
    >)
        ensures
            targeting_allows(raw_value@, context.has_accessor(), outcome(r)),
            context.answers_known() ==> outcome(r) == if is_user_list(raw_value@) {
                Ok::<bool, ErrorModel>(targeting_decision(raw_value@, context.user_answer()))
            } else {
                out_of_range(raw_value@)
            },
    {
        if !is_user_list_value(raw_value) {
            return Err(out_of_range_error(raw_value));
        }
        let user = context.current_user_id();
        let b = match &user {
            Some(user_id) => is_user_targeted(raw_value, user_id.as_str()),
            None => false,
        };
        assert(b == targeting_decision(raw_value@, opt_view(user)));
        Ok(b)
    }
}

} // verus!
