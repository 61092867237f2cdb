//! Blue-green deployment slots: `blue` / `green`.

use vstd::prelude::*;
use vstd::string::*;

use super::{ToggleDecisionStrategy, ToggleEvaluationContext};
use crate::context::opt_view;
use crate::error::{outcome, ErrorModel, ToggleError};
use crate::text::{chars_eq_ignore_case, chars_of, eq_ignore_case, trim, trim_chars};

verus! {

/// The conventional slot pair used when no slots are configured.
pub open spec fn default_slots() -> Seq<Seq<char>> {
    seq![seq!['b', 'l', 'u', 'e'], seq!['g', 'r', 'e', 'e', 'n']]
}

/// The texts of a list of strings.
pub open spec fn texts(v: Seq<String>) -> Seq<Seq<char>> {
    v.map_values(|s: String| s@)
}

/// Whether the trimmed raw value names one of the known slots (ignoring ASCII case).
pub open spec fn names_slot(known: Seq<Seq<char>>, raw: Seq<char>) -> bool {
    exists|i: int| 0 <= i < known.len() && eq_ignore_case(#[trigger] known[i], trim(raw))
}

/// Whether the slot a raw value names is the active one.
pub open spec fn slot_is_active(current: Option<Seq<char>>, raw: Seq<char>) -> bool {
    match current {
        Some(c) => eq_ignore_case(c, trim(raw)),
        None => false,
    }
}

/// Resolves a slot value (`blue`, `green`, or any configured slot) against the currently active
/// slot.
#[derive(Debug, Clone)]
pub struct BlueGreenStrategy {
    current_slot: Option<String>,
    known_slots: Vec<String>,
}

/// The conventional `blue`/`green` pair.
pub fn default_slot_names() -> (v: Vec<String>)
    ensures
        texts(v@) == default_slots(),
{
    let blue = String::from_str("blue");
    let green = String::from_str("green");
    let mut v: Vec<String> = Vec::new();
    v.push(blue);
    v.push(green);
    proof {
        reveal_strlit("blue");
        reveal_strlit("green");
        assert(blue@ =~= seq!['b', 'l', 'u', 'e']);
        assert(green@ =~= seq!['g', 'r', 'e', 'e', 'n']);
        assert(texts(v@) =~= default_slots());
    }
    v
}

impl BlueGreenStrategy {
    /// The active slot.
    pub closed spec fn current(&self) -> Option<Seq<char>> {
        opt_view(self.current_slot)
    }

    /// The slots this strategy recognises.
    pub closed spec fn known(&self) -> Seq<Seq<char>> {
        texts(self.known_slots@)
    }

    /// Construct from the configured current slot and the list of known slots. An empty
    /// `known_slots` falls back to the conventional `blue`/`green` pair.
    pub fn new(current_slot: Option<String>, known_slots: Vec<String>) -> (r: Self)
        ensures
            r.current() == opt_view(current_slot),
            r.known() == (if known_slots@.len() == 0 {
                default_slots()
            } else {
                texts(known_slots@)
            }),
    {
        let known_slots = if known_slots.len() == 0 {
            default_slot_names()
        } else {
            known_slots
        };
        BlueGreenStrategy { current_slot, known_slots }
    }

    /// Whether the raw value names one of the known slots.
    pub fn names_known_slot(&self, raw_value: &str) -> (b: bool)
        ensures
            b == names_slot(self.known(), raw_value@),
    {
        let chars = chars_of(raw_value);
        let value = trim_chars(chars.as_slice());
        let mut i: usize = 0;
        while i < self.known_slots.len()
            invariant
                i <= self.known_slots@.len(),
                value@ == trim(raw_value@),
                forall|j: int|
                    0 <= j < i ==> !eq_ignore_case(#[trigger] self.known()[j], trim(raw_value@)),
            decreases self.known_slots@.len() - i,
        {
            let slot = chars_of(self.known_slots[i].as_str());
            if chars_eq_ignore_case(slot.as_slice(), value.as_slice()) {
                assert(self.known()[i as int] == slot@);
                return true;
            }
            assert(self.known()[i as int] == slot@);
            i = i + 1;
        }
        false
    }

    /// Whether the slot the raw value names is the active one.
    pub fn is_active_slot(&self, raw_value: &str) -> (b: bool)
        ensures
            b == slot_is_active(self.current(), raw_value@),
    {
        match &self.current_slot {
            Some(current) => {
                let chars = chars_of(raw_value);
                let value = trim_chars(chars.as_slice());
                let current_chars = chars_of(current.as_str());
                chars_eq_ignore_case(current_chars.as_slice(), value.as_slice())
            },
            None => false,
        }
    }
}

impl Default for BlueGreenStrategy {
    fn default() -> (r: Self)
        ensures
            r.current() is None,
            r.known() == default_slots(),
    {
        BlueGreenStrategy { current_slot: None, known_slots: default_slot_names() }
    }
}

impl ToggleDecisionStrategy for BlueGreenStrategy {
    fn can_handle(&self, raw_value: &str) -> (b: bool)
        ensures
            b == names_slot(self.known(), raw_value@),
    {
        self.names_known_slot(raw_value)
    }

    fn should_execute(&self, raw_value: &str, context: &ToggleEvaluationContext) -> (r: Result<
        bool,
        ToggleError,
    >)
        ensures
            outcome(r) == Ok::<bool, ErrorModel>(slot_is_active(self.current(), raw_value@)),
    {
        Ok(self.is_active_slot(raw_value))
    }
}

} // verus!
