//! Errors of lexing and parsing, pinned to a line.
use vstd::prelude::*;
use crate::chars::{debug_quoted, debug_string, decimal, usize_to_string};
use crate::tokens::TokenValue;
use crate::extension::core_extension::error::CoreErrorMessage;

pub mod engine;
pub mod runtime;

use self::engine::EngineError;
use self::runtime::TracedRuntimeError;

verus! {

/// What was found where a token was expected.
#[derive(Debug, Clone)]
pub enum Received {
    Token(TokenValue),
    EndOfStream,
}

/// An error of an extension, shown through its message.
pub trait CustomErrorAt {
    /// The text of the error.
    spec fn text(&self) -> Seq<char>;

    /// Writes the text of the error.
    fn message(&self) -> (r: String)
        ensures
            r@ == self.text(),
    ;
}

/// What went wrong.
#[derive(Clone, Debug)]
pub enum ErrorMessage {
    UnexpectedEndOfTemplate,
    ExpectedTokenTypeButReceived(TokenValue, Received),
    UnexpectedTokenValue(TokenValue),
    ExpectedOtherTokenValue(TokenValue, TokenValue),
    ExpectedArrayElement,
    ArrayValueMustBeFollowedByComma,
    ArrayNotClosed,
    ExpectedHashElement,
    HashValueMustBeFollowedByComma,
    InvalidHashKey { unexpected: TokenValue },
    HashKeyMustBeFollowedByColon,
    HashNotClosed,
    ExpectedNameOrNumber,
    ListOfArgumentsMustBeginWithParenthesis,
    ArgumentsMustBeSeparatedByComma,
    ListOfArgumentsMustCloseWithParenthesis,
    Unclosed(String),
    UnclosedComment,
    UnclosedBlock(String),
    Unexpected(String),
    UnexpectedCharacter(String),
    ParenthesisNotClosed,
    MustStartWithTagName,
    DefaultValueForArgumentMustBeConstant,
    ParameterNameMustBeAString { given: String },
    TemplateNotFound(String),
    /// A `{% line N %}` directive whose number is too large.
    InvalidLineNumber(String),
    /// A construct that the parser does not support yet.
    NotImplemented(&'static str),
    CustomError(CoreErrorMessage),
}

/// `"` + `s` + `"`.
pub open spec fn quoted(s: Seq<char>) -> Seq<char> {
    "\""@ + s + "\""@
}

/// The message for an unexpected token.
pub open spec fn unexpected_token_text(t: TokenValue) -> Seq<char> {
    match t.english_value() {
        Some(v) => "Unexpected token "@ + quoted(t.english_name()) + " of value "@ + debug_quoted(v),
        None => "Unexpected token "@ + quoted(t.english_name()),
    }
}

impl ErrorMessage {
    /// The text of the message.
    pub open spec fn text(&self) -> Seq<char> {
        match self {
            ErrorMessage::UnexpectedEndOfTemplate => "Unexpected end of template"@,
            ErrorMessage::ExpectedTokenTypeButReceived(token, received) => match received {
                Received::EndOfStream => "Expected token "@ + quoted(token.english_name())
                    + " but received the end of stream"@,
                Received::Token(other) => match other.english_value() {
                    Some(v) => "Expected "@ + quoted(token.english_name()) + " but received "@
                        + quoted(other.english_name()) + " with value "@ + debug_quoted(v),
                    None => "Expected "@ + quoted(token.english_name()) + " but received "@
                        + quoted(other.english_name()),
                },
            },
            ErrorMessage::ExpectedOtherTokenValue(token, other) => match other.english_value() {
                Some(v) => unexpected_token_text(*token) + " ("@ + quoted(other.english_name())
                    + " expected with value "@ + debug_quoted(v) + ")"@,
                None => unexpected_token_text(*token) + " ("@ + quoted(other.english_name())
                    + " expected)"@,
            },
            ErrorMessage::ExpectedArrayElement => "An array element was expected"@,
            ErrorMessage::ArrayValueMustBeFollowedByComma => "An array element must be followed by a comma"@,
            ErrorMessage::ArrayNotClosed => "An opened array is not properly closed"@,
            ErrorMessage::ExpectedHashElement => "A hash element was expected"@,
            ErrorMessage::HashValueMustBeFollowedByComma => "A hash value must be followed by a comma"@,
            ErrorMessage::InvalidHashKey { unexpected } => match unexpected.english_value() {
                Some(v) => "A hash key must be a quoted string, a number, a name, or an expression enclosed in parentheses: unexpected token "@
                    + quoted(unexpected.english_name()) + " of value "@ + debug_quoted(v),
                None => "A hash key must be a quoted string, a number, a name, or an expression enclosed in parentheses: unexpected token "@
                    + quoted(unexpected.english_name()),
            },
            ErrorMessage::HashKeyMustBeFollowedByColon => "A hash key must be followed by a colon (:)"@,
            ErrorMessage::HashNotClosed => "An opened hash is not properly closed"@,
            ErrorMessage::ExpectedNameOrNumber => "Expected name or number"@,
            ErrorMessage::ListOfArgumentsMustBeginWithParenthesis => "A list of arguments must begin with an opening parenthesis"@,
            ErrorMessage::ArgumentsMustBeSeparatedByComma => "Arguments must be separated by a comma"@,
            ErrorMessage::ListOfArgumentsMustCloseWithParenthesis => "A list of arguments must be closed by a parenthesis"@,
            ErrorMessage::UnexpectedTokenValue(token) => unexpected_token_text(*token),
            ErrorMessage::Unclosed(s) => "Unclosed "@ + quoted(s@),
            ErrorMessage::UnclosedComment => "Unclosed comment"@,
            ErrorMessage::UnclosedBlock(s) => "Unexpected end of file: Unclosed "@ + quoted(s@) + " block"@,
            ErrorMessage::Unexpected(s) => "Unexpected "@ + quoted(s@),
            ErrorMessage::UnexpectedCharacter(s) => "Unexpected character "@ + quoted(s@),
            ErrorMessage::ParenthesisNotClosed => "An opened parenthesis is not properly closed"@,
            ErrorMessage::MustStartWithTagName => "A block must start with a tag name"@,
            ErrorMessage::DefaultValueForArgumentMustBeConstant => "A default value for an argument must be a constant (a boolean, a string, a number, or an array)."@,
            ErrorMessage::ParameterNameMustBeAString { given } => "A parameter name must be a string, "@ + quoted(given@) + " given"@,
            ErrorMessage::TemplateNotFound(name) => "Template "@ + quoted(name@) + " was not found"@,
            ErrorMessage::InvalidLineNumber(s) => "Invalid line number "@ + quoted(s@),
            ErrorMessage::NotImplemented(s) => "Not implemented: "@ + s@,
            ErrorMessage::CustomError(e) => e.text(),
        }
    }
}

/// `"` + `s` + `"` as a string.
fn quote(s: &str) -> (r: String)
    ensures
        r@ == quoted(s@),
{
    let r = String::from_str("\"");
    let r = r.concat(s);
    r.concat("\"")
}

/// The message for an unexpected token.
fn unexpected_token_message(t: &TokenValue) -> (r: String)
    ensures
        r@ == unexpected_token_text(*t),
{
    let (name, value) = t.get_english();
    let r = String::from_str("Unexpected token ");
    let r = r.concat(quote(name).as_str());
    match value {
        Some(v) => {
            let r = r.concat(" of value ");
            r.concat(debug_string(v.as_str()).as_str())
        },
        None => r,
    }
}

impl Received {
    /// A copy of this value.
    pub fn duplicate(&self) -> (r: Received)
        ensures
            r == *self,
    {
        match self {
            Received::Token(t) => Received::Token(t.duplicate()),
            Received::EndOfStream => Received::EndOfStream,
        }
    }
}

impl ErrorMessage {
    /// A copy of this message.
    pub fn duplicate(&self) -> (r: ErrorMessage)
        ensures
            r == *self,
    {
        match self {
            ErrorMessage::UnexpectedEndOfTemplate => ErrorMessage::UnexpectedEndOfTemplate,
            ErrorMessage::ExpectedTokenTypeButReceived(t, r) => ErrorMessage::ExpectedTokenTypeButReceived(
                t.duplicate(),
                r.duplicate(),
            ),
            ErrorMessage::UnexpectedTokenValue(t) => ErrorMessage::UnexpectedTokenValue(t.duplicate()),
            ErrorMessage::ExpectedOtherTokenValue(a, b) => ErrorMessage::ExpectedOtherTokenValue(
                a.duplicate(),
                b.duplicate(),
            ),
            ErrorMessage::ExpectedArrayElement => ErrorMessage::ExpectedArrayElement,
            ErrorMessage::ArrayValueMustBeFollowedByComma => ErrorMessage::ArrayValueMustBeFollowedByComma,
            ErrorMessage::ArrayNotClosed => ErrorMessage::ArrayNotClosed,
            ErrorMessage::ExpectedHashElement => ErrorMessage::ExpectedHashElement,
            ErrorMessage::HashValueMustBeFollowedByComma => ErrorMessage::HashValueMustBeFollowedByComma,
            ErrorMessage::InvalidHashKey { unexpected } => ErrorMessage::InvalidHashKey {
                unexpected: unexpected.duplicate(),
            },
            ErrorMessage::HashKeyMustBeFollowedByColon => ErrorMessage::HashKeyMustBeFollowedByColon,
            ErrorMessage::HashNotClosed => ErrorMessage::HashNotClosed,
            ErrorMessage::ExpectedNameOrNumber => ErrorMessage::ExpectedNameOrNumber,
            ErrorMessage::ListOfArgumentsMustBeginWithParenthesis => ErrorMessage::ListOfArgumentsMustBeginWithParenthesis,
            ErrorMessage::ArgumentsMustBeSeparatedByComma => ErrorMessage::ArgumentsMustBeSeparatedByComma,
            ErrorMessage::ListOfArgumentsMustCloseWithParenthesis => ErrorMessage::ListOfArgumentsMustCloseWithParenthesis,
            ErrorMessage::Unclosed(s) => ErrorMessage::Unclosed(s.clone()),
            ErrorMessage::UnclosedComment => ErrorMessage::UnclosedComment,
            ErrorMessage::UnclosedBlock(s) => ErrorMessage::UnclosedBlock(s.clone()),
            ErrorMessage::Unexpected(s) => ErrorMessage::Unexpected(s.clone()),
            ErrorMessage::UnexpectedCharacter(s) => ErrorMessage::UnexpectedCharacter(s.clone()),
            ErrorMessage::ParenthesisNotClosed => ErrorMessage::ParenthesisNotClosed,
            ErrorMessage::MustStartWithTagName => ErrorMessage::MustStartWithTagName,
            ErrorMessage::DefaultValueForArgumentMustBeConstant => ErrorMessage::DefaultValueForArgumentMustBeConstant,
            ErrorMessage::ParameterNameMustBeAString { given } => ErrorMessage::ParameterNameMustBeAString {
                given: given.clone(),
            },
            ErrorMessage::TemplateNotFound(s) => ErrorMessage::TemplateNotFound(s.clone()),
            ErrorMessage::InvalidLineNumber(s) => ErrorMessage::InvalidLineNumber(s.clone()),
            ErrorMessage::NotImplemented(s) => ErrorMessage::NotImplemented(*s),
            ErrorMessage::CustomError(e) => ErrorMessage::CustomError(e.duplicate()),
        }
    }

    /// Writes the text of the message.
    pub fn message(&self) -> (r: String)
        ensures
            r@ == self.text(),
    {
        match self {
            ErrorMessage::UnexpectedEndOfTemplate => String::from_str("Unexpected end of template"),
            ErrorMessage::ExpectedTokenTypeButReceived(token, received) => {
                let (name, _) = token.get_english();
                match received {
                    Received::EndOfStream => {
                        let r = String::from_str("Expected token ");
                        let r = r.concat(quote(name).as_str());
                        r.concat(" but received the end of stream")
                    },
                    Received::Token(other) => {
                        let (other_name, value) = other.get_english();
                        let r = String::from_str("Expected ");
                        let r = r.concat(quote(name).as_str());
                        let r = r.concat(" but received ");
                        let r = r.concat(quote(other_name).as_str());
                        match value {
                            Some(v) => {
                                let r = r.concat(" with value ");
                                r.concat(debug_string(v.as_str()).as_str())
                            },
                            None => r,
                        }
                    },
                }
            },
            ErrorMessage::ExpectedOtherTokenValue(token, other) => {
                let r = unexpected_token_message(token);
                let (other_name, value) = other.get_english();
                let r = r.concat(" (");
                let r = r.concat(quote(other_name).as_str());
                match value {
                    Some(v) => {
                        let r = r.concat(" expected with value ");
                        let r = r.concat(debug_string(v.as_str()).as_str());
                        r.concat(")")
                    },
                    None => r.concat(" expected)"),
                }
            },
            ErrorMessage::ExpectedArrayElement => String::from_str("An array element was expected"),
            ErrorMessage::ArrayValueMustBeFollowedByComma => String::from_str(
                "An array element must be followed by a comma",
            ),
            ErrorMessage::ArrayNotClosed => String::from_str("An opened array is not properly closed"),
            ErrorMessage::ExpectedHashElement => String::from_str("A hash element was expected"),
            ErrorMessage::HashValueMustBeFollowedByComma => String::from_str(
                "A hash value must be followed by a comma",
            ),
            ErrorMessage::InvalidHashKey { unexpected } => {
                let (name, value) = unexpected.get_english();
                let r = String::from_str(
                    "A hash key must be a quoted string, a number, a name, or an expression enclosed in parentheses: unexpected token ",
                );
                let r = r.concat(quote(name).as_str());
                match value {
                    Some(v) => {
                        let r = r.concat(" of value ");
                        r.concat(debug_string(v.as_str()).as_str())
                    },
                    None => r,
                }
            },
            ErrorMessage::HashKeyMustBeFollowedByColon => String::from_str(
                "A hash key must be followed by a colon (:)",
            ),
            ErrorMessage::HashNotClosed => String::from_str("An opened hash is not properly closed"),
            ErrorMessage::ExpectedNameOrNumber => String::from_str("Expected name or number"),
            ErrorMessage::ListOfArgumentsMustBeginWithParenthesis => String::from_str(
                "A list of arguments must begin with an opening parenthesis",
            ),
            ErrorMessage::ArgumentsMustBeSeparatedByComma => String::from_str(
                "Arguments must be separated by a comma",
            ),
            ErrorMessage::ListOfArgumentsMustCloseWithParenthesis => String::from_str(
                "A list of arguments must be closed by a parenthesis",
            ),
            ErrorMessage::UnexpectedTokenValue(token) => unexpected_token_message(token),
            ErrorMessage::Unclosed(s) => String::from_str("Unclosed ").concat(quote(s.as_str()).as_str()),
            ErrorMessage::UnclosedComment => String::from_str("Unclosed comment"),
            ErrorMessage::UnclosedBlock(s) => {
                let r = String::from_str("Unexpected end of file: Unclosed ");
                let r = r.concat(quote(s.as_str()).as_str());
                r.concat(" block")
            },
            ErrorMessage::Unexpected(s) => String::from_str("Unexpected ").concat(quote(s.as_str()).as_str()),
            ErrorMessage::UnexpectedCharacter(s) => String::from_str("Unexpected character ").concat(
                quote(s.as_str()).as_str(),
            ),
            ErrorMessage::ParenthesisNotClosed => String::from_str(
                "An opened parenthesis is not properly closed",
            ),
            ErrorMessage::MustStartWithTagName => String::from_str("A block must start with a tag name"),
            ErrorMessage::DefaultValueForArgumentMustBeConstant => String::from_str(
                "A default value for an argument must be a constant (a boolean, a string, a number, or an array).",
            ),
            ErrorMessage::ParameterNameMustBeAString { given } => {
                let r = String::from_str("A parameter name must be a string, ");
                let r = r.concat(quote(given.as_str()).as_str());
                r.concat(" given")
            },
            ErrorMessage::TemplateNotFound(name) => {
                let r = String::from_str("Template ");
                let r = r.concat(quote(name.as_str()).as_str());
                r.concat(" was not found")
            },
            ErrorMessage::InvalidLineNumber(s) => String::from_str("Invalid line number ").concat(
                quote(s.as_str()).as_str(),
            ),
            ErrorMessage::NotImplemented(s) => String::from_str("Not implemented: ").concat(*s),
            ErrorMessage::CustomError(e) => e.message_text(),
        }
    }
}

/// Any error of the engine: of a template, of finding one, or of running
/// one.
#[derive(Debug)]
pub enum Error {
    /// Error lexing or parsing the template source file.
    Template(ErrorAt),
    /// Error reading files, compiling templates or writing cache.
    Engine(Caused<EngineError>),
    /// Error executing template.
    Runtime(TracedRuntimeError),
}

/// An error, and the error that caused it if there is one.
#[derive(Debug)]
pub struct Caused<E> {
    pub err: E,
    pub cause: Box<Option<Error>>,
}

impl<E> Caused<E> {
    pub fn new(err: E, cause: Option<Error>) -> (c: Caused<E>)
        ensures
            c.err == err,
            *c.cause == cause,
    {
        Caused { err, cause: Box::new(cause) }
    }
}

/// The text of an error: for an engine error, its text followed by the text
/// of its cause.
pub open spec fn error_text(e: Error) -> Seq<char>
    decreases e,
{
    match e {
        Error::Template(t) => t.full_text(),
        Error::Engine(c) => match *c.cause {
            None => c.err.text(),
            Some(cause) => c.err.text() + "\ncaused by\n"@ + error_text(cause),
        },
        Error::Runtime(r) => r.text(),
    }
}

impl Error {
    /// Writes the text of the error.
    pub fn message(&self) -> (r: String)
        ensures
            r@ == error_text(*self),
        decreases self,
    {
        match self {
            Error::Template(t) => t.get_message(),
            Error::Engine(c) => {
                let m = c.err.message();
                match &*c.cause {
                    None => m,
                    Some(cause) => {
                        proof {
                            assert(decreases_to!(*self => *cause));
                        }
                        m.concat("\ncaused by\n").concat(cause.message().as_str())
                    },
                }
            },
            Error::Runtime(r) => r.display(),
        }
    }
}

/// A line of a template.
#[derive(Debug, Copy, Clone)]
pub struct Location {
    pub line: usize,
}

impl Location {
    pub fn new(line: usize) -> (l: Location)
        ensures
            l.line == line,
    {
        Location { line }
    }
}

/// An error pinned to a line of a template.
#[derive(Debug, Copy, Clone)]
pub struct At<E> {
    pub loc: Location,
    pub err: E,
}

impl<E> At<E> {
    pub fn new(err: E, loc: Location) -> (a: At<E>)
        ensures
            a.err == err,
            a.loc == loc,
    {
        At { loc, err }
    }
}

impl<E: ExtensionError> At<E> {
    /// The message of the error with the line it was found on.
    pub fn message(&self) -> (r: String)
        ensures
            r@ == with_line(self.err.text(), Some(self.loc.line)),
    {
        add_line(self.err.message(), Some(self.loc.line))
    }
}

/// An error of an extension, shown through its message.
pub trait ExtensionError {
    /// The text of the error.
    spec fn text(&self) -> Seq<char>;

    /// Writes the text of the error.
    fn message(&self) -> (r: String)
        ensures
            r@ == self.text(),
    ;
}

/// An error message, and the line it was found on when that is known.
#[derive(Clone, Debug)]
pub struct ErrorAt {
    pub line: Option<usize>,
    pub message: Box<ErrorMessage>,
}

/// `raw` with " at line N" added, before a final dot when `raw` ends with one.
pub open spec fn with_line(raw: Seq<char>, line: Option<usize>) -> Seq<char> {
    match line {
        Some(n) => if raw.len() > 0 && raw.last() == '.' {
            raw.drop_last() + " at line "@ + decimal(n as nat) + "."@
        } else {
            raw + " at line "@ + decimal(n as nat)
        },
        None => raw,
    }
}

impl ErrorAt {
    pub fn new_at(message: ErrorMessage, line: usize) -> (e: ErrorAt)
        ensures
            e.line == Some(line),
            *e.message == message,
    {
        ErrorAt { message: Box::new(message), line: Some(line) }
    }

    /// An error whose line is unknown.
    pub fn new(message: ErrorMessage) -> (e: ErrorAt)
        ensures
            e.line is None,
            *e.message == message,
    {
        ErrorAt { message: Box::new(message), line: None }
    }

    /// A copy of this error.
    pub fn duplicate(&self) -> (r: ErrorAt)
        ensures
            r == *self,
    {
        ErrorAt { line: self.line, message: Box::new(self.message.duplicate()) }
    }

    /// The full text of the error.
    pub open spec fn full_text(&self) -> Seq<char> {
        with_line(self.message.text(), self.line)
    }

    /// The message with the line it was found on.
    pub fn get_message(&self) -> (r: String)
        ensures
            r@ == self.full_text(),
    {
        add_line(self.message.message(), self.line)
    }
}

/// `raw` with the line added as `with_line` says.
pub fn add_line(raw: String, line: Option<usize>) -> (r: String)
    ensures
        r@ == with_line(raw@, line),
{
    let ghost rv = raw@;
    let len = raw.as_str().unicode_len();
    let ends_with_dot = len > 0 && raw.as_str().get_char(len - 1) == '.';
    match line {
        Some(line_num) => {
            if ends_with_dot {
                let without_dot = raw.as_str().substring_char(0, len - 1);
                assert(without_dot@ =~= rv.drop_last());
                let r = String::from_str(without_dot);
                let r = r.concat(" at line ");
                let r = r.concat(usize_to_string(line_num).as_str());
                r.concat(".")
            } else {
                let r = raw.concat(" at line ");
                r.concat(usize_to_string(line_num).as_str())
            }
        },
        None => raw,
    }
}

} // verus!
