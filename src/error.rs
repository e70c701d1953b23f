//! Errors of the action pipeline.
use vstd::prelude::*;

use crate::text::{to_chars, to_text};

verus! {

/// Why an input command could not be built, or why parsing could not start.
#[derive(Debug, Clone, PartialEq)]
pub enum ActionError {
    /// The action name is not one the builder knows; holds the name.
    UnknownActionType(String),
    /// A required parameter is absent; holds the parameter's name.
    MissingParameter(String),
    /// A parameter is present but cannot be read; holds the parameter's name.
    MalformedValue(String),
    /// The dialect tag is neither of the two known ones; holds the tag.
    InvalidDialect(String),
}

impl ActionError {
    /// The parameter, action or tag the error is about.
    pub open spec fn subject(self) -> Seq<char> {
        match self {
            ActionError::UnknownActionType(n) => n@,
            ActionError::MissingParameter(n) => n@,
            ActionError::MalformedValue(n) => n@,
            ActionError::InvalidDialect(n) => n@,
        }
    }

    /// What went wrong, without the subject.
    pub open spec fn label(self) -> Seq<char> {
        match self {
            ActionError::UnknownActionType(_) => "unknown action type: "@,
            ActionError::MissingParameter(_) => "missing parameter: "@,
            ActionError::MalformedValue(_) => "malformed value for parameter: "@,
            ActionError::InvalidDialect(_) => "invalid dialect: "@,
        }
    }

    /// A one-line description of the error.
    pub fn message(&self) -> (r: String)
        ensures
            r@ == self.label() + self.subject(),
    {
        let (label, name) = match self {
            ActionError::UnknownActionType(n) => ("unknown action type: ", n),
            ActionError::MissingParameter(n) => ("missing parameter: ", n),
            ActionError::MalformedValue(n) => ("malformed value for parameter: ", n),
            ActionError::InvalidDialect(n) => ("invalid dialect: ", n),
        };
        let mut v = to_chars(label);
        let mut tail = to_chars(name.as_str());
        v.append(&mut tail);
        to_text(v.as_slice())
    }
}

} // verus!
