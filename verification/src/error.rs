//! Errors that stop rendering and warnings about layout compromises.

use vstd::prelude::*;

verus! {

/// Code, JSON Pointer and message of an error or a warning, as text.
pub type Issue = (Seq<char>, Seq<char>, Seq<char>);

/// The issue that a result reports: `None` for success.
pub open spec fn outcome<T>(result: Result<T, ChartError>) -> Option<Issue> {
    match result {
        Ok(_) => None,
        Err(error) => Some(error@),
    }
}

/// A structured error: a stable code, the JSON Pointer of the offending
/// part of the specification (`/` for the whole document) and a message
/// that says how to fix it.
#[derive(Debug, Clone, PartialEq, Eq)]
pub struct ChartError {
    pub code: &'static str,
    pub path: String,
    pub message: String,
}

impl View for ChartError {
    type V = Issue;

    open spec fn view(&self) -> Issue {
        (self.code@, self.path@, self.message@)
    }
}

impl ChartError {
    pub fn new(code: &'static str, path: &str, message: &str) -> (error: Self)
        ensures
            error.code == code,
            error.path@ == path@,
            error.message@ == message@,
    {
        ChartError { code, path: path.to_string(), message: message.to_string() }
    }

    /// The error as one line of text: `code at path: message`.
    pub fn to_string(&self) -> (text: String)
        ensures
            text@ == self.code@ + " at "@ + self.path@ + ": "@ + self.message@,
    {
        let mut text = String::new();
        text.append(self.code);
        text.append(" at ");
        text.append(self.path.as_str());
        text.append(": ");
        text.append(self.message.as_str());
        text
    }
}

/// A layout compromise that did not stop rendering: a stable code, the
/// JSON Pointer of the affected part and a message.
#[derive(Debug, Clone, PartialEq, Eq)]
pub struct ChartWarning {
    pub code: &'static str,
    pub path: String,
    pub message: String,
}

impl View for ChartWarning {
    type V = Issue;

    open spec fn view(&self) -> Issue {
        (self.code@, self.path@, self.message@)
    }
}

impl ChartWarning {
    pub fn new(code: &'static str, path: &str, message: &str) -> (warning: Self)
        ensures
            warning.code == code,
            warning.path@ == path@,
            warning.message@ == message@,
    {
        ChartWarning { code, path: path.to_string(), message: message.to_string() }
    }
}

} // verus!
