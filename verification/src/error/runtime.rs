//! Errors of running a template, and records of where they happened.
use vstd::prelude::*;
use crate::chars::{debug_quoted, debug_string, decimal, u64_to_string, usize_to_string};
use crate::error::Location;

verus! {

/// Stack trace record.
#[derive(Clone, Debug)]
pub enum TraceEntry {
    /// Trace source file change that caused the error.
    SourceFile { target: String },
    /// Trace operator call that caused the error.
    Operator { target: String, extension: String },
    /// Trace position in last known source that cause the error.
    Position { from: Location },
}

/// What a value was to be cast to.
#[derive(Debug, Clone, Copy, PartialEq, Eq, Structural)]
pub enum CastTarget {
    Int,
    Float,
    Number,
}

/// Why a value could not be cast. A float is held as `{:?}` writes it.
#[derive(Clone, Debug)]
pub enum CastError {
    /// Float is infinite, target can not be infinite.
    FloatIsInfinite(String),
    /// Float is not a number, target has to be a number.
    FloatNotANumber(String),
    /// Float can not be represented, target does not support the range.
    FloatRange(String),
    /// Null can not be represented.
    Null,
    /// Target can not be created from Array.
    Array,
    /// Target is not be created from Hash.
    Hash,
    /// Target is not be created from Object.
    Object,
    /// Target is not be created from Function.
    Function,
    /// Empty string can not be represented.
    StringEmpty,
    /// String could not be parsed as number.
    StringNotNumerical(String),
}

impl CastError {
    /// The text of the error.
    pub open spec fn text(&self) -> Seq<char> {
        match self {
            CastError::FloatIsInfinite(v) => "Infinite float "@ + v@,
            CastError::FloatNotANumber(v) => "Nonnumerical float "@ + v@,
            CastError::FloatRange(v) => "Out-of-range float "@ + v@,
            CastError::Null => "Null"@,
            CastError::Array => "Array"@,
            CastError::Hash => "Associative array"@,
            CastError::Object => "Object"@,
            CastError::Function => "Function"@,
            CastError::StringEmpty => "Empty string"@,
            CastError::StringNotNumerical(v) => "Nonnumerical string "@ + debug_quoted(v@),
        }
    }

    /// The error as its variant and payload, as a derived `Debug` writes it.
    pub open spec fn debug_text(&self) -> Seq<char> {
        match self {
            CastError::FloatIsInfinite(v) => "FloatIsInfinite("@ + v@ + ")"@,
            CastError::FloatNotANumber(v) => "FloatNotANumber("@ + v@ + ")"@,
            CastError::FloatRange(v) => "FloatRange("@ + v@ + ")"@,
            CastError::Null => "Null"@,
            CastError::Array => "Array"@,
            CastError::Hash => "Hash"@,
            CastError::Object => "Object"@,
            CastError::Function => "Function"@,
            CastError::StringEmpty => "StringEmpty"@,
            CastError::StringNotNumerical(v) => "StringNotNumerical("@ + debug_quoted(v@) + ")"@,
        }
    }

    /// Writes the text of the error.
    pub fn message(&self) -> (r: String)
        ensures
            r@ == self.text(),
    {
        match self {
            CastError::FloatIsInfinite(v) => String::from_str("Infinite float ").concat(v.as_str()),
            CastError::FloatNotANumber(v) => String::from_str("Nonnumerical float ").concat(v.as_str()),
            CastError::FloatRange(v) => String::from_str("Out-of-range float ").concat(v.as_str()),
            CastError::Null => String::from_str("Null"),
            CastError::Array => String::from_str("Array"),
            CastError::Hash => String::from_str("Associative array"),
            CastError::Object => String::from_str("Object"),
            CastError::Function => String::from_str("Function"),
            CastError::StringEmpty => String::from_str("Empty string"),
            CastError::StringNotNumerical(v) => {
                let d = debug_string(v.as_str());
                String::from_str("Nonnumerical string ").concat(d.as_str())
            },
        }
    }

    /// Writes the error as its variant and payload.
    pub fn debug_message(&self) -> (r: String)
        ensures
            r@ == self.debug_text(),
    {
        match self {
            CastError::FloatIsInfinite(v) => String::from_str("FloatIsInfinite(").concat(v.as_str()).concat(")"),
            CastError::FloatNotANumber(v) => String::from_str("FloatNotANumber(").concat(v.as_str()).concat(")"),
            CastError::FloatRange(v) => String::from_str("FloatRange(").concat(v.as_str()).concat(")"),
            CastError::Null => String::from_str("Null"),
            CastError::Array => String::from_str("Array"),
            CastError::Hash => String::from_str("Hash"),
            CastError::Object => String::from_str("Object"),
            CastError::Function => String::from_str("Function"),
            CastError::StringEmpty => String::from_str("StringEmpty"),
            CastError::StringNotNumerical(v) => {
                let d = debug_string(v.as_str());
                String::from_str("StringNotNumerical(").concat(d.as_str()).concat(")")
            },
        }
    }
}

/// What went wrong while running a template.
#[derive(Clone, Debug)]
pub enum RuntimeError {
    /// Callable invoked with argument count that does not match defined count.
    InvalidArgumentCount { defined: usize, given: usize },
    /// Tried to access object property that does not exist.
    ObjectHasNoProperty(String),
    /// Tried to access object method that does not exist.
    ObjectHasNoMethod(String),
    /// Tried to access object property but it was a method.
    ObjectPropertyIsNotMethod(String),
    /// Tried to access object method but it was a property.
    ObjectMethodIsNotProperty(String),
    /// Tried to call object method with wrong argument count.
    ObjectMethodArgumentMismatch { name: String, defined: u16, given: u16 },
    /// Value casting error.
    ImpossibleCast { target: CastTarget, reason: CastError },
}

/// A runtime error with the stack trace where it happened.
#[derive(Clone, Debug)]
pub struct TracedRuntimeError {
    pub message: RuntimeError,
    pub stack_trace: Vec<TraceEntry>,
}

/// What a cast target is called in a message.
pub open spec fn target_text(t: CastTarget) -> Seq<char> {
    match t {
        CastTarget::Float => "a float"@,
        CastTarget::Int => "an integer"@,
        CastTarget::Number => "a number"@,
    }
}

impl RuntimeError {
    /// The error with its stack trace.
    pub fn at(self, stack_trace: Vec<TraceEntry>) -> (e: TracedRuntimeError)
        ensures
            e.message == self,
            e.stack_trace == stack_trace,
    {
        TracedRuntimeError { message: self, stack_trace }
    }

    /// The text of the error.
    pub open spec fn text(&self) -> Seq<char> {
        match self {
            RuntimeError::InvalidArgumentCount { defined, given } => "Target requires "@ + decimal(
                *defined as nat,
            ) + " arguments, called with "@ + decimal(*given as nat),
            RuntimeError::ObjectHasNoProperty(name) => "Object has no property "@ + debug_quoted(name@),
            RuntimeError::ObjectHasNoMethod(name) => "Object has no method "@ + debug_quoted(name@),
            RuntimeError::ObjectPropertyIsNotMethod(name) => "Property is not a method "@ + debug_quoted(name@),
            RuntimeError::ObjectMethodIsNotProperty(name) => "Method is not a property "@ + debug_quoted(name@),
            RuntimeError::ObjectMethodArgumentMismatch { name, defined, given } => "Method "@ + debug_quoted(name@)
                + " requires "@ + decimal(*defined as nat) + " arguments, called with "@ + decimal(*given as nat),
            RuntimeError::ImpossibleCast { target, reason } => reason.debug_text() + " is not "@ + target_text(
                *target,
            ),
        }
    }

    /// Writes the text of the error.
    pub fn message(&self) -> (r: String)
        ensures
            r@ == self.text(),
    {
        match self {
            RuntimeError::InvalidArgumentCount { defined, given } => {
                let r = String::from_str("Target requires ").concat(usize_to_string(*defined).as_str());
                r.concat(" arguments, called with ").concat(usize_to_string(*given).as_str())
            },
            RuntimeError::ObjectHasNoProperty(name) => String::from_str("Object has no property ").concat(
                debug_string(name.as_str()).as_str(),
            ),
            RuntimeError::ObjectHasNoMethod(name) => String::from_str("Object has no method ").concat(
                debug_string(name.as_str()).as_str(),
            ),
            RuntimeError::ObjectPropertyIsNotMethod(name) => String::from_str("Property is not a method ").concat(
                debug_string(name.as_str()).as_str(),
            ),
            RuntimeError::ObjectMethodIsNotProperty(name) => String::from_str("Method is not a property ").concat(
                debug_string(name.as_str()).as_str(),
            ),
            RuntimeError::ObjectMethodArgumentMismatch { name, defined, given } => {
                let r = String::from_str("Method ").concat(debug_string(name.as_str()).as_str());
                let r = r.concat(" requires ").concat(u64_to_string(*defined as u64).as_str());
                r.concat(" arguments, called with ").concat(u64_to_string(*given as u64).as_str())
            },
            RuntimeError::ImpossibleCast { target, reason } => {
                let t = match target {
                    CastTarget::Float => "a float",
                    CastTarget::Int => "an integer",
                    CastTarget::Number => "a number",
                };
                reason.debug_message().concat(" is not ").concat(t)
            },
        }
    }
}

/// The name of a cast target.
pub open spec fn target_name(t: CastTarget) -> Seq<char> {
    match t {
        CastTarget::Int => "Int"@,
        CastTarget::Float => "Float"@,
        CastTarget::Number => "Number"@,
    }
}

impl RuntimeError {
    /// The error as its variant and fields, as a derived `Debug` writes it.
    pub open spec fn debug_text(&self) -> Seq<char> {
        match self {
            RuntimeError::InvalidArgumentCount { defined, given } => "InvalidArgumentCount { defined: "@ + decimal(
                *defined as nat,
            ) + ", given: "@ + decimal(*given as nat) + " }"@,
            RuntimeError::ObjectHasNoProperty(name) => "ObjectHasNoProperty("@ + debug_quoted(name@) + ")"@,
            RuntimeError::ObjectHasNoMethod(name) => "ObjectHasNoMethod("@ + debug_quoted(name@) + ")"@,
            RuntimeError::ObjectPropertyIsNotMethod(name) => "ObjectPropertyIsNotMethod("@ + debug_quoted(name@)
                + ")"@,
            RuntimeError::ObjectMethodIsNotProperty(name) => "ObjectMethodIsNotProperty("@ + debug_quoted(name@)
                + ")"@,
            RuntimeError::ObjectMethodArgumentMismatch { name, defined, given } => "ObjectMethodArgumentMismatch { name: "@
                + debug_quoted(name@) + ", defined: "@ + decimal(*defined as nat) + ", given: "@ + decimal(
                *given as nat,
            ) + " }"@,
            RuntimeError::ImpossibleCast { target, reason } => "ImpossibleCast { target: "@ + target_name(*target)
                + ", reason: "@ + reason.debug_text() + " }"@,
        }
    }

    /// Writes the error as its variant and fields.
    pub fn debug_message(&self) -> (r: String)
        ensures
            r@ == self.debug_text(),
    {
        match self {
            RuntimeError::InvalidArgumentCount { defined, given } => {
                let r = String::from_str("InvalidArgumentCount { defined: ").concat(
                    usize_to_string(*defined).as_str(),
                );
                r.concat(", given: ").concat(usize_to_string(*given).as_str()).concat(" }")
            },
            RuntimeError::ObjectHasNoProperty(name) => String::from_str("ObjectHasNoProperty(").concat(
                debug_string(name.as_str()).as_str(),
            ).concat(")"),
            RuntimeError::ObjectHasNoMethod(name) => String::from_str("ObjectHasNoMethod(").concat(
                debug_string(name.as_str()).as_str(),
            ).concat(")"),
            RuntimeError::ObjectPropertyIsNotMethod(name) => String::from_str("ObjectPropertyIsNotMethod(").concat(
                debug_string(name.as_str()).as_str(),
            ).concat(")"),
            RuntimeError::ObjectMethodIsNotProperty(name) => String::from_str("ObjectMethodIsNotProperty(").concat(
                debug_string(name.as_str()).as_str(),
            ).concat(")"),
            RuntimeError::ObjectMethodArgumentMismatch { name, defined, given } => {
                let r = String::from_str("ObjectMethodArgumentMismatch { name: ").concat(
                    debug_string(name.as_str()).as_str(),
                );
                let r = r.concat(", defined: ").concat(u64_to_string(*defined as u64).as_str());
                r.concat(", given: ").concat(u64_to_string(*given as u64).as_str()).concat(" }")
            },
            RuntimeError::ImpossibleCast { target, reason } => {
                let t = match target {
                    CastTarget::Int => "Int",
                    CastTarget::Float => "Float",
                    CastTarget::Number => "Number",
                };
                let r = String::from_str("ImpossibleCast { target: ").concat(t);
                r.concat(", reason: ").concat(reason.debug_message().as_str()).concat(" }")
            },
        }
    }
}

impl TracedRuntimeError {
    /// The text of the error: its message as `{:?}` writes it.
    pub open spec fn text(&self) -> Seq<char> {
        self.message.debug_text()
    }

    /// Writes the text of the error.
    pub fn display(&self) -> (r: String)
        ensures
            r@ == self.text(),
    {
        self.message.debug_message()
    }

    /// The error, with an empty stack trace.
    pub fn new(message: RuntimeError) -> (e: TracedRuntimeError)
        ensures
            e.message == message,
            e.stack_trace@.len() == 0,
    {
        TracedRuntimeError { message, stack_trace: Vec::new() }
    }
}

} // verus!
