//! The ambient request/user context the context-aware strategies read from.
//!
//! A parser configured without a context accessor behaves context-free: user lists never match,
//! overrides are ignored, and A/B testing falls back to a per-call roll.

use std::sync::Arc;
use vstd::prelude::*;

use crate::cli::appconfig::{lemma_pair_index_at, lemma_pair_index_bounds, pair_index, pair_value, text_pairs};
use crate::text::{chars_eq, chars_of};

verus! {

/// Supplies the current user identity and arbitrary attributes for strategy evaluation.
///
/// Implemented by the application; it is `Send + Sync` because a parser is shared across threads.
///
/// An accessor that obeys its specification answers with `user_spec` and `attribute_spec`. Of an
/// accessor whose code the library cannot see nothing is known, so nothing is claimed of its
/// answers; what the library does with an answer is stated for every answer an accessor may give.
pub trait FtrIoContextAccessor: Send + Sync {
    /// Whether the answers are the ones `user_spec` and `attribute_spec` describe; an accessor
    /// that does not say claims nothing.
    open spec fn obeys_context_spec(&self) -> bool {
        false
    }

    /// The current user's id, as the accessor reports it.
    open spec fn user_spec(&self) -> Option<Seq<char>> {
        None
    }

    /// A named attribute, as the accessor reports it.
    open spec fn attribute_spec(&self, attribute_name: Seq<char>) -> Option<Seq<char>> {
        None
    }

    /// The current user's id, or `None` when there is no user context.
    fn get_user_id(&self) -> (r: Option<String>)
        ensures
            self.obeys_context_spec() ==> opt_view(r) == self.user_spec(),
    ;

    /// An attribute of the current context (e.g. `plan`), or `None` when it is not set.
    fn get_attribute(&self, attribute_name: &str) -> (r: Option<String>)
        ensures
            self.obeys_context_spec() ==> opt_view(r) == self.attribute_spec(attribute_name@),
    ;
}

/// The context a strategy evaluates against: the toggle's own key (needed for stable A/B
/// bucketing) and the ambient user/attribute context (needed for targeting).
#[derive(Clone, Copy)]
pub struct ToggleEvaluationContext<'a> {
    /// The toggle key being resolved.
    pub toggle_key: &'a str,
    /// The ambient context, or `None` when the parser was configured without one.
    pub context_accessor: Option<&'a dyn FtrIoContextAccessor>,
}

impl<'a> ToggleEvaluationContext<'a> {
    /// Whether an accessor is present.
    pub open spec fn has_accessor(&self) -> bool {
        self.context_accessor is Some
    }

    /// Whether the accessor's answers are known: there is none, or it obeys its specification.
    pub open spec fn answers_known(&self) -> bool {
        match self.context_accessor {
            Some(accessor) => accessor.obeys_context_spec(),
            None => true,
        }
    }

    /// The user the accessor reports (none without an accessor).
    pub open spec fn user_answer(&self) -> Option<Seq<char>> {
        match self.context_accessor {
            Some(accessor) => accessor.user_spec(),
            None => None,
        }
    }

    /// The attributes the accessor reports, by name (none without an accessor).
    pub open spec fn attribute_answers(&self) -> spec_fn(Seq<char>) -> Option<Seq<char>> {
        |name: Seq<char>|
            match self.context_accessor {
                Some(accessor) => accessor.attribute_spec(name),
                None => None,
            }
    }

    /// The current user id, asked of the accessor; `None` without an accessor.
    pub fn current_user_id(&self) -> (r: Option<String>)
        ensures
            !self.has_accessor() ==> r is None,
            self.answers_known() ==> opt_view(r) == self.user_answer(),
    {
        match self.context_accessor {
            Some(accessor) => accessor.get_user_id(),
            None => None,
        }
    }

    /// A named attribute, asked of the accessor; `None` without an accessor.
    pub fn attribute(&self, attribute_name: &str) -> (r: Option<String>)
        ensures
            !self.has_accessor() ==> r is None,
            self.answers_known() ==> opt_view(r) == (self.attribute_answers())(attribute_name@),
    {
        match self.context_accessor {
            Some(accessor) => accessor.get_attribute(attribute_name),
            None => None,
        }
    }
}

/// Whether a (shared, optional) accessor's answers are known: there is none, or it obeys its
/// specification.
pub open spec fn accessor_known(accessor: Option<Arc<dyn FtrIoContextAccessor>>) -> bool {
    match accessor {
        Some(a) => a.obeys_context_spec(),
        None => true,
    }
}

/// The user a (shared, optional) accessor reports; none without one.
pub open spec fn accessor_user(accessor: Option<Arc<dyn FtrIoContextAccessor>>) -> Option<Seq<char>> {
    match accessor {
        Some(a) => a.user_spec(),
        None => None,
    }
}

/// The attributes a (shared, optional) accessor reports, by name; none without one.
pub open spec fn accessor_attributes(accessor: Option<Arc<dyn FtrIoContextAccessor>>) -> spec_fn(
    Seq<char>,
) -> Option<Seq<char>> {
    |name: Seq<char>|
        match accessor {
            Some(a) => a.attribute_spec(name),
            None => None,
        }
}

/// A user context known as values: a user id and named string attributes (a later attribute
/// of the same name is never stored; names are unique). Strategies evaluated against it decide
/// exactly, where an accessor's answers are whatever the application returns.
pub struct KnownContext {
    user_id: Option<String>,
    attributes: Vec<(String, String)>,
}

impl KnownContext {
    /// The user id.
    pub closed spec fn user(&self) -> Option<Seq<char>> {
        opt_view(self.user_id)
    }

    /// The attributes, by name, in the order given.
    pub closed spec fn attribute_pairs(&self) -> Seq<(Seq<char>, Seq<char>)> {
        text_pairs(self.attributes@)
    }

    /// The attributes, looked up by name.
    pub open spec fn attribute_answers(&self) -> spec_fn(Seq<char>) -> Option<Seq<char>> {
        |name: Seq<char>| pair_value(self.attribute_pairs(), name)
    }

    /// A context of a user id and attributes.
    pub fn new(user_id: Option<String>, attributes: Vec<(String, String)>) -> (r: Self)
        ensures
            r.user() == opt_view(user_id),
            r.attribute_pairs() == text_pairs(attributes@),
    {
        KnownContext { user_id, attributes }
    }

    /// The user id, borrowed.
    pub fn user_ref(&self) -> (r: Option<&str>)
        ensures
            match r {
                Some(u) => self.user() == Some(u@),
                None => self.user() is None,
            },
    {
        match &self.user_id {
            Some(u) => Some(u.as_str()),
            None => None,
        }
    }
}

impl FtrIoContextAccessor for KnownContext {
    open spec fn obeys_context_spec(&self) -> bool {
        true
    }

    open spec fn user_spec(&self) -> Option<Seq<char>> {
        self.user()
    }

    open spec fn attribute_spec(&self, attribute_name: Seq<char>) -> Option<Seq<char>> {
        pair_value(self.attribute_pairs(), attribute_name)
    }

    fn get_user_id(&self) -> (r: Option<String>)
        ensures
            opt_view(r) == self.user(),
    {
        match &self.user_id {
            Some(u) => Some(u.clone()),
            None => None,
        }
    }

    fn get_attribute(&self, attribute_name: &str) -> (r: Option<String>)
        ensures
            opt_view(r) == pair_value(self.attribute_pairs(), attribute_name@),
    {
        let ghost model = text_pairs(self.attributes@);
        let key = chars_of(attribute_name);
        let mut i: usize = 0;
        while i < self.attributes.len()
            invariant
                i <= self.attributes@.len(),
                model == text_pairs(self.attributes@),
                key@ == attribute_name@,
                forall|j: int| 0 <= j < i ==> #[trigger] model[j].0 != attribute_name@,
            decreases self.attributes@.len() - i,
        {
            let k = chars_of(self.attributes[i].0.as_str());
            assert(model[i as int].0 == k@);
            if chars_eq(k.as_slice(), key.as_slice()) {
                proof {
                    lemma_pair_index_at(model, attribute_name@, i as int);
                }
                return Some(self.attributes[i].1.clone());
            }
            i = i + 1;
        }
        proof {
            lemma_pair_index_bounds(model, attribute_name@);
            if pair_index(model, attribute_name@) >= 0 {
                assert(model[pair_index(model, attribute_name@)].0 == attribute_name@);
            }
        }
        None
    }
}

/// A text taken by its view.
pub open spec fn opt_view(o: Option<String>) -> Option<Seq<char>> {
    match o {
        Some(s) => Some(s@),
        None => None,
    }
}

} // verus!
