//! The error type of the toggle read path, and the builder's error.

use vstd::prelude::*;
use vstd::string::*;

verus! {

/// A toggle could not be read or resolved.
#[derive(Debug, Clone, PartialEq, Eq)]
pub enum ToggleError {
    /// The toggle key is absent from the `Toggles` section.
    DoesNotExist {
        /// The key that was looked up and not found.
        toggle_key: String,
    },
    /// A raw value could not be parsed to a decision by any strategy.
    ParsedOutOfRange {
        /// The raw configuration value that no strategy could handle.
        raw_value: String,
    },
    /// A method expected to carry the toggle attribute did not.
    AttributeMissing {
        /// The name of the method missing its toggle attribute.
        method_name: String,
    },
}

/// What a [`ToggleError`] says, with its text as characters.
pub enum ErrorModel {
    DoesNotExist(Seq<char>),
    ParsedOutOfRange(Seq<char>),
    AttributeMissing(Seq<char>),
}

impl View for ToggleError {
    type V = ErrorModel;

    open spec fn view(&self) -> ErrorModel {
        match self {
            ToggleError::DoesNotExist { toggle_key } => ErrorModel::DoesNotExist(toggle_key@),
            ToggleError::ParsedOutOfRange { raw_value } => ErrorModel::ParsedOutOfRange(
                raw_value@,
            ),
            ToggleError::AttributeMissing { method_name } => ErrorModel::AttributeMissing(
                method_name@,
            ),
        }
    }
}

/// A decision or an error, with the error taken by its view.
pub open spec fn outcome(r: Result<bool, ToggleError>) -> Result<bool, ErrorModel> {
    match r {
        Ok(b) => Ok(b),
        Err(e) => Err(e@),
    }
}

pub open spec fn out_of_range(raw: Seq<char>) -> Result<bool, ErrorModel> {
    Err(ErrorModel::ParsedOutOfRange(raw))
}

pub open spec fn does_not_exist(key: Seq<char>) -> Result<bool, ErrorModel> {
    Err(ErrorModel::DoesNotExist(key))
}

/// The error for a raw value that no strategy can turn into a decision.
pub fn out_of_range_error(raw_value: &str) -> (e: ToggleError)
    ensures
        e@ == ErrorModel::ParsedOutOfRange(raw_value@),
{
    ToggleError::ParsedOutOfRange { raw_value: raw_value.to_owned() }
}

/// The error for a key that no source knows.
pub fn does_not_exist_error(toggle_key: &str) -> (e: ToggleError)
    ensures
        e@ == ErrorModel::DoesNotExist(toggle_key@),
{
    ToggleError::DoesNotExist { toggle_key: toggle_key.to_owned() }
}

impl ToggleError {
    /// The human-readable description of the error.
    pub fn message(&self) -> (m: String)
        ensures
            match self@ {
                ErrorModel::DoesNotExist(k) => m@ == "toggle '"@ + k
                    + "' does not exist in the Toggles section"@,
                ErrorModel::ParsedOutOfRange(v) => m@ == "toggle value '"@ + v
                    + "' could not be parsed to a decision"@,
                ErrorModel::AttributeMissing(n) => m@ == "method '"@ + n
                    + "' is not decorated with a toggle attribute"@,
            },
    {
        match self {
            ToggleError::DoesNotExist { toggle_key } => {
                let mut m = String::from_str("toggle '");
                m.append(toggle_key.as_str());
                m.append("' does not exist in the Toggles section");
                m
            },
            ToggleError::ParsedOutOfRange { raw_value } => {
                let mut m = String::from_str("toggle value '");
                m.append(raw_value.as_str());
                m.append("' could not be parsed to a decision");
                m
            },
            ToggleError::AttributeMissing { method_name } => {
                let mut m = String::from_str("method '");
                m.append(method_name.as_str());
                m.append("' is not decorated with a toggle attribute");
                m
            },
        }
    }
}

/// Building a parser with overrides but no context accessor is invalid.
#[derive(Debug, Clone, PartialEq, Eq)]
pub struct ToggleParserBuilderError {
    message: String,
}

impl ToggleParserBuilderError {
    /// The error's description.
    pub closed spec fn text(self) -> Seq<char> {
        self.message@
    }

    /// The error raised when overrides were requested without a context accessor.
    pub fn overrides_without_context() -> (e: ToggleParserBuilderError)
        ensures
            e.text() == "with_overrides() requires a context accessor to key overrides by user"@,
    {
        ToggleParserBuilderError {
            message: String::from_str(
                "with_overrides() requires a context accessor to key overrides by user",
            ),
        }
    }

    /// The human-readable description of the error.
    pub fn message(&self) -> (m: String)
        ensures
            m@ == self.text(),
    {
        self.message.clone()
    }
}

} // verus!
