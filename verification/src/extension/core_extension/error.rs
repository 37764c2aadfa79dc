//! Errors of the core extension.
use vstd::prelude::*;
use crate::error::{ErrorAt, ErrorMessage, CustomErrorAt, ExtensionError, quoted};

verus! {

/// An error of the core extension and the line it was found on.
pub struct CoreErrorAt {
    pub line: usize,
    pub message: CoreErrorMessage,
}

impl CoreErrorAt {
    pub fn new_at(message: CoreErrorMessage, line: usize) -> (e: CoreErrorAt)
        ensures
            e.line == line,
            e.message == message,
    {
        CoreErrorAt { line, message }
    }

    /// The same error as a template error.
    pub fn into_error(self) -> (e: ErrorAt)
        ensures
            e.line == Some(self.line),
            *e.message == ErrorMessage::CustomError(self.message),
    {
        ErrorAt::new_at(ErrorMessage::CustomError(self.message), self.line)
    }
}

/// What the core extension reports.
#[derive(Clone, Debug)]
pub enum CoreErrorMessage {
    OnlyVariablesCanBeAssignedTo,
    ExpectedEndmacroName { expected: String, given: String },
    CanNotAssignTo(String),
}

impl CoreErrorMessage {
    pub open spec fn text(&self) -> Seq<char> {
        match self {
            CoreErrorMessage::OnlyVariablesCanBeAssignedTo => "Only variables can be assigned to"@,
            CoreErrorMessage::ExpectedEndmacroName { expected, given } => "Expected endmacro for macro "@
                + quoted(expected@) + " (but "@ + quoted(given@) + " given)"@,
            CoreErrorMessage::CanNotAssignTo(v) => "You cannot assign a value to "@ + quoted(v@),
        }
    }

    pub fn message_text(&self) -> (r: String)
        ensures
            r@ == self.text(),
    {
        match self {
            CoreErrorMessage::OnlyVariablesCanBeAssignedTo => String::from_str(
                "Only variables can be assigned to",
            ),
            CoreErrorMessage::ExpectedEndmacroName { expected, given } => {
                let r = String::from_str("Expected endmacro for macro \"");
                let r = r.concat(expected.as_str());
                let r = r.concat("\" (but \"");
                let r = r.concat(given.as_str());
                let r = r.concat("\" given)");
                proof {
                    reveal_strlit("\"");
                    reveal_strlit("Expected endmacro for macro \"");
                    reveal_strlit("Expected endmacro for macro ");
                    reveal_strlit("\" (but \"");
                    reveal_strlit(" (but ");
                    reveal_strlit("\" given)");
                    reveal_strlit(" given)");
                }
                assert(r@ =~= self.text());
                r
            },
            CoreErrorMessage::CanNotAssignTo(v) => {
                let r = String::from_str("You cannot assign a value to \"");
                let r = r.concat(v.as_str());
                let r = r.concat("\"");
                proof {
                    reveal_strlit("\"");
                    reveal_strlit("You cannot assign a value to \"");
                    reveal_strlit("You cannot assign a value to ");
                }
                assert(r@ =~= self.text());
                r
            },
        }
    }
}

impl CoreErrorMessage {
    /// A copy of this message.
    pub fn duplicate(&self) -> (r: CoreErrorMessage)
        ensures
            r == *self,
    {
        match self {
            CoreErrorMessage::OnlyVariablesCanBeAssignedTo => CoreErrorMessage::OnlyVariablesCanBeAssignedTo,
            CoreErrorMessage::ExpectedEndmacroName { expected, given } => CoreErrorMessage::ExpectedEndmacroName {
                expected: expected.clone(),
                given: given.clone(),
            },
            CoreErrorMessage::CanNotAssignTo(v) => CoreErrorMessage::CanNotAssignTo(v.clone()),
        }
    }
}

impl ExtensionError for CoreErrorMessage {
    open spec fn text(&self) -> Seq<char> {
        CoreErrorMessage::text(self)
    }

    fn message(&self) -> (r: String) {
        self.message_text()
    }
}

impl CustomErrorAt for CoreErrorMessage {
    open spec fn text(&self) -> Seq<char> {
        CoreErrorMessage::text(self)
    }

    fn message(&self) -> (r: String) {
        self.message_text()
    }
}

} // verus!
