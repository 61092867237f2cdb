//! A/B testing: `ab:50`, `ab:50:round2`.
//!
//! The bucket function is a byte-exact contract shared with other runtimes: the same
//! `user:key[:salt]` must produce the same bucket everywhere.

use sha2::{Digest, Sha256};
use vstd::prelude::*;
use vstd::string::*;
use vstd::utf8::encode_utf8;

use super::{random_percent_roll, ToggleDecisionStrategy, ToggleEvaluationContext};
use crate::context::opt_view;
use crate::error::{out_of_range, out_of_range_error, outcome, ErrorModel, ToggleError};
use crate::text::{
    chars_of, chars_starts_with, copy_range, lower, lower_chars, parse_u32, parse_u32_chars,
    split_once, split_once_chars, starts_with, string_from_chars, trim, trim_chars,
};

verus! {

/// The SHA-256 digest of a byte sequence.
pub uninterp spec fn sha256(data: Seq<u8>) -> Seq<u8>;

/// `Sha256::digest` of `sha2`: the digest of `data`, which is 32 bytes long.
#[verifier::external_body]
fn sha256_digest(data: &[u8]) -> (digest: Vec<u8>)
    ensures
        digest@ == sha256(data@),
        digest@.len() == 32,
{
    Sha256::digest(data).to_vec()
}

pub open spec fn ab_prefix() -> Seq<char> {
    seq!['a', 'b', ':']
}

/// The percentage and salt of an `ab:<percentage>[:<salt>]` value: after trimming, `ab:` in any
/// ASCII case, then the percentage up to the next `:` (trimmed, as `u32::from_str` reads it), then
/// the salt (everything after that `:`, or empty).
pub open spec fn ab_value(raw: Seq<char>) -> Option<(u32, Seq<char>)> {
    let t = trim(raw);
    if starts_with(lower(t), ab_prefix()) {
        let parts = split_once(t.skip(3), ':');
        match parse_u32(trim(parts.0)) {
            Some(p) => Some(
                (
                    p,
                    match parts.1 {
                        Some(salt) => salt,
                        None => Seq::empty(),
                    },
                ),
            ),
            None => None,
        }
    } else {
        None
    }
}

/// The text that is hashed: `user:key`, or `user:key:salt` when a salt is given.
pub open spec fn bucket_input(user: Seq<char>, key: Seq<char>, salt: Seq<char>) -> Seq<char> {
    if salt.len() == 0 {
        user + seq![':'] + key
    } else {
        user + seq![':'] + key + seq![':'] + salt
    }
}

/// The first four digest bytes read as a little-endian unsigned number.
pub open spec fn le_word(d: Seq<u8>) -> int {
    d[0] + 256 * d[1] + 65536 * d[2] + 16777216 * d[3]
}

/// The magnitude of the little-endian signed `i32` in the first four bytes (`unsigned_abs`), taken
/// modulo 100.
pub open spec fn bucket_of_digest(d: Seq<u8>) -> u32 {
    let v = le_word(d);
    let magnitude = if v >= 0x8000_0000 {
        0x1_0000_0000 - v
    } else {
        v
    };
    (magnitude % 100) as u32
}

/// The A/B bucket of a user for a toggle (and salt).
pub open spec fn ab_bucket(user: Seq<char>, key: Seq<char>, salt: Seq<char>) -> u32 {
    bucket_of_digest(sha256(encode_utf8(bucket_input(user, key, salt))))
}

/// The A/B decision: the bucket (or the roll, without a user) falls below the percentage.
pub open spec fn ab_decision(percentage: u32, bucket: u32) -> bool {
    bucket < percentage
}

/// The A/B decision given the current user (its bucket decides) or, without one, a roll.
pub open spec fn ab_pick(
    percentage: u32,
    key: Seq<char>,
    salt: Seq<char>,
    user: Option<Seq<char>>,
    roll: u32,
) -> bool {
    match user {
        Some(u) => ab_decision(percentage, ab_bucket(u, key, salt)),
        None => ab_decision(percentage, roll),
    }
}

/// What an A/B test may decide when the current user comes from the accessor and the fallback
/// roll from chance: an unparseable value is out of range; otherwise the decision for some user
/// (none without an accessor) and some roll in `0..100`.
pub open spec fn ab_allows(
    raw: Seq<char>,
    key: Seq<char>,
    has_accessor: bool,
    r: Result<bool, ErrorModel>,
) -> bool {
    match ab_value(raw) {
        None => r == out_of_range(raw),
        Some(v) => exists|u: Option<Seq<char>>, roll: u32|
            (!has_accessor ==> u is None) && roll < 100 && r == Ok::<bool, ErrorModel>(
                #[trigger] ab_pick(v.0, key, v.1, u, roll),
            ),
    }
}

/// The bucket of a digest: the first four bytes as a little-endian signed `i32`, its magnitude
/// (`unsigned_abs`), modulo 100.
pub fn bucket_from_digest(digest: &[u8]) -> (bucket: u32)
    requires
        digest@.len() >= 4,
    ensures
        bucket == bucket_of_digest(digest@),
        bucket < 100,
{
    let word: u64 = digest[0] as u64 + 256 * (digest[1] as u64) + 65536 * (digest[2] as u64)
        + 16777216 * (digest[3] as u64);
    let magnitude: u64 = if word >= 0x8000_0000 {
        0x1_0000_0000 - word
    } else {
        word
    };
    (magnitude % 100) as u32
}

/// Deterministically bucket a user into `0..=99` for a toggle.
///
/// Build `"{user_id}:{toggle_key}"`, or `"{user_id}:{toggle_key}:{salt}"` when a salt is given;
/// SHA-256 the UTF-8 bytes; read the first four digest bytes as a little-endian signed `i32`; take
/// its magnitude modulo 100. The magnitude of `i32::MIN` is `2147483648`, so no input overflows.
pub fn compute_bucket(user_id: &str, toggle_key: &str, salt: &str) -> (bucket: u32)
    ensures
        bucket == ab_bucket(user_id@, toggle_key@, salt@),
        bucket < 100,
{
    let mut input = String::from_str(user_id);
    input.append(":");
    input.append(toggle_key);
    if !salt.is_empty() {
        input.append(":");
        input.append(salt);
    }
    proof {
        reveal_strlit(":");
        assert(input@ =~= bucket_input(user_id@, toggle_key@, salt@));
    }
    let digest = sha256_digest(input.as_str().as_bytes());
    bucket_from_digest(digest.as_slice())
}

/// Parse the percentage and optional salt from an `ab:` value.
pub fn parse_ab_value(raw_value: &str) -> (r: Option<(u32, String)>)
    ensures
        r is Some <==> ab_value(raw_value@) is Some,
        r matches Some(v) ==> v.0 == ab_value(raw_value@).unwrap().0 && v.1@ == ab_value(raw_value@).unwrap().1,
{
    let chars = chars_of(raw_value);
    let t = trim_chars(chars.as_slice());
    let lowered = lower_chars(t.as_slice());
    let prefix: [char; 3] = ['a', 'b', ':'];
    assert(prefix@ =~= ab_prefix());
    if !chars_starts_with(lowered.as_slice(), &prefix) {
        return None;
    }
    assert(lower(t@).len() == t@.len());
    let body = copy_range(t.as_slice(), 3, t.len());
    assert(body@ =~= t@.skip(3));
    let (head, tail) = split_once_chars(body.as_slice(), ':');
    let head_trimmed = trim_chars(head.as_slice());
    match parse_u32_chars(head_trimmed.as_slice()) {
        Some(percentage) => {
            let salt = match tail {
                Some(rest) => string_from_chars(rest.as_slice()),
                None => String::new(),
            };
            Some((percentage, salt))
        },
        None => None,
    }
}

/// The A/B decision for a percentage and a bucket (or roll) in `0..100`.
pub fn decide_ab(percentage: u32, bucket: u32) -> (b: bool)
    ensures
        b == ab_decision(percentage, bucket),
{
    bucket < percentage
}

/// The A/B decision for a (possibly absent) user: a present user's stable bucket decides, and
/// without a user the roll in `0..100` does.
pub fn decide_for(percentage: u32, toggle_key: &str, salt: &str, user: Option<&str>, roll: u32) -> (b: bool)
    ensures
        b == ab_pick(
            percentage,
            toggle_key@,
            salt@,
            match user {
                Some(u) => Some(u@),
                None => None,
            },
            roll,
        ),
{
    match user {
        Some(u) => {
            let bucket = compute_bucket(u, toggle_key, salt);
            decide_ab(percentage, bucket)
        },
        None => decide_ab(percentage, roll),
    }
}

/// Resolves `ab:<percentage>[:<salt>]`. With a user id present the decision is the stable bucket
/// (`bucket < percentage`); with no user id it falls back to a per-call roll.
#[derive(Debug, Default, Clone, Copy)]
pub struct AbTestStrategy;

impl ToggleDecisionStrategy for AbTestStrategy {
    fn can_handle(&self, raw_value: &str) -> (b: bool)
        ensures
            b == ab_value(raw_value@) is Some,
    {
        parse_ab_value(raw_value).is_some()
    }

    fn should_execute(&self, raw_value: &str, context: &ToggleEvaluationContext) -> (r: Result<
        bool,
        ToggleError,
    >)
        ensures
            ab_allows(raw_value@, context.toggle_key@, context.has_accessor(), outcome(r)),
            context.answers_known() ==> match ab_value(raw_value@) {
                None => outcome(r) == out_of_range(raw_value@),
                Some(v) => exists|roll: u32|
                    roll < 100 && outcome(r) == Ok::<bool, ErrorModel>(
                        #[trigger] ab_pick(v.0, context.toggle_key@, v.1, context.user_answer(), roll),
                    ),
            },
            context.answers_known() && ab_value(raw_value@) is Some && context.user_answer() is Some
                ==> outcome(r) == Ok::<bool, ErrorModel>(
                ab_bucket(
                    context.user_answer().unwrap(),
                    context.toggle_key@,
                    ab_value(raw_value@).unwrap().1,
                ) < ab_value(raw_value@).unwrap().0,
            ),
    {
        match parse_ab_value(raw_value) {
            None => Err(out_of_range_error(raw_value)),
            Some((percentage, salt)) => {
                let user = context.current_user_id();
                let roll = match &user {
                    Some(_) => 0,
                    None => random_percent_roll(),
                };
                let user_ref = match &user {
                    Some(u) => Some(u.as_str()),
                    None => None,
                };
                let b = decide_for(percentage, context.toggle_key, salt.as_str(), user_ref, roll);
                assert(ab_pick(percentage, context.toggle_key@, salt@, opt_view(user), roll) == b);
                Ok(b)
            },
        }
    }
}

} // verus!
