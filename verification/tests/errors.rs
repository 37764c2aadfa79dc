use std::collections::HashMap;
use twig::environment::CompiledEnvironment;
use twig::error::engine::EngineError;
use twig::error::runtime::{CastError, CastTarget, RuntimeError, TraceEntry, TracedRuntimeError};
use twig::error::{add_line, At, Caused, Error, ErrorAt, ErrorMessage, Location, Received};
use twig::extension::core_extension::error::{CoreErrorAt, CoreErrorMessage};
use twig::lexer::Lexer;
use twig::loader::{ArrayLoader, Loader};
use twig::tokens::{TokenValue, TwigNumber};
use twig::Expect;

#[test]
fn messages_get_the_line() {
    let e = ErrorAt::new_at(ErrorMessage::UnclosedComment, 4);
    assert_eq!(e.get_message(), "Unclosed comment at line 4");
    let e = ErrorAt::new_at(ErrorMessage::DefaultValueForArgumentMustBeConstant, 2);
    assert_eq!(
        e.get_message(),
        "A default value for an argument must be a constant (a boolean, a string, a number, or an array) at line 2."
    );
    let e = ErrorAt::new(ErrorMessage::UnexpectedEndOfTemplate);
    assert_eq!(e.get_message(), "Unexpected end of template");
    assert_eq!(add_line("Done.".to_string(), Some(12)), "Done at line 12.");
    assert_eq!(add_line(String::new(), Some(1)), " at line 1");
}

#[test]
fn error_message_texts() {
    let m = ErrorMessage::ExpectedTokenTypeButReceived(TokenValue::Name(String::new()), Received::EndOfStream);
    assert_eq!(m.message(), "Expected token \"name\" but received the end of stream");
    let m = ErrorMessage::ExpectedOtherTokenValue(TokenValue::VarEnd, TokenValue::Operator("=".to_string()));
    assert_eq!(
        m.message(),
        "Unexpected token \"end of print statement\" (\"operator\" expected with value \"=\")"
    );
    let m = ErrorMessage::InvalidHashKey { unexpected: TokenValue::Number(TwigNumber::Int(-3)) };
    assert_eq!(
        m.message(),
        "A hash key must be a quoted string, a number, a name, or an expression enclosed in parentheses: unexpected token \"number\" of value \"-3\""
    );
    assert_eq!(ErrorMessage::TemplateNotFound("a".to_string()).message(), "Template \"a\" was not found");
    assert_eq!(ErrorMessage::NotImplemented("filters").message(), "Not implemented: filters");
    assert_eq!(ErrorMessage::InvalidLineNumber("99999999999999999999".to_string()).message(), "Invalid line number \"99999999999999999999\"");
    let m = ErrorMessage::CustomError(CoreErrorMessage::ExpectedEndmacroName {
        expected: "a".to_string(),
        given: "b".to_string(),
    });
    assert_eq!(m.message(), "Expected endmacro for macro \"a\" (but \"b\" given)");
}

#[test]
fn errors_pinned_to_a_location() {
    let at = At::new(CoreErrorMessage::CanNotAssignTo("x".to_string()), Location::new(7));
    assert_eq!(at.loc.line, 7);
    assert_eq!(at.message(), "You cannot assign a value to \"x\" at line 7");
}

#[test]
fn engine_errors() {
    let e = EngineError::TemplateNotFound { name: "t.twig".to_string(), search_paths: vec![] };
    assert_eq!(e.message(), "Template \"t.twig\" was not found");
    let e = EngineError::TemplateNotFound {
        name: "t.twig".to_string(),
        search_paths: vec!["a".to_string(), "b\"c".to_string()],
    };
    assert_eq!(e.message(), "Template \"t.twig\" was not found, looked in [\"a\", \"b\\\"c\"]");
}

#[test]
fn runtime_errors() {
    let e = RuntimeError::InvalidArgumentCount { defined: 2, given: 3 };
    assert_eq!(e.message(), "Target requires 2 arguments, called with 3");
    let e = RuntimeError::ObjectHasNoProperty("p".to_string());
    assert_eq!(e.message(), "Object has no property \"p\"");
    let e = RuntimeError::ObjectMethodArgumentMismatch { name: "m".to_string(), defined: 1, given: 0 };
    assert_eq!(e.message(), "Method \"m\" requires 1 arguments, called with 0");
    let e = RuntimeError::ImpossibleCast { target: CastTarget::Int, reason: CastError::FloatIsInfinite("inf".to_string()) };
    assert_eq!(e.message(), "FloatIsInfinite(inf) is not an integer");
    let e = RuntimeError::ImpossibleCast { target: CastTarget::Number, reason: CastError::StringNotNumerical("x".to_string()) };
    assert_eq!(e.message(), "StringNotNumerical(\"x\") is not a number");
    assert_eq!(CastError::Hash.message(), "Associative array");
    assert_eq!(CastError::FloatNotANumber("NaN".to_string()).message(), "Nonnumerical float NaN");
    let traced = TracedRuntimeError::new(RuntimeError::ObjectHasNoMethod("m".to_string()));
    assert_eq!(traced.stack_trace.len(), 0);
    let traced = RuntimeError::ObjectHasNoMethod("m".to_string())
        .at(vec![TraceEntry::SourceFile { target: "t".to_string() }, TraceEntry::Position { from: Location::new(3) }]);
    assert_eq!(traced.stack_trace.len(), 2);
}

#[test]
fn array_loader() {
    let mut sources = HashMap::new();
    sources.insert("index.twig".to_string(), "Hello {{ name }}".to_string());
    let loader = ArrayLoader::new(sources);
    assert_eq!(loader.get_source("index.twig").unwrap(), "Hello {{ name }}");
    let e = loader.get_source("missing.twig").unwrap_err();
    match e {
        Error::Engine(ref c) => {
            assert!(matches!(c.err, EngineError::TemplateNotFound { ref name, ref search_paths }
                if name == "missing.twig" && search_paths.is_empty()));
            assert!(matches!(*c.cause, Some(Error::Template(ref t)) if t.line == Some(0)));
        },
        _ => panic!("expected an engine error"),
    }
    assert_eq!(e.message(), "Template \"missing.twig\" was not found\ncaused by\nUnexpected end of template at line 0");
}

#[test]
fn errors_and_their_causes() {
    let plain = Error::Engine(Caused::new(EngineError::TemplateNotFound { name: "a".to_string(), search_paths: vec![] }, None));
    assert_eq!(plain.message(), "Template \"a\" was not found");
    let caused = EngineError::TemplateNotFound { name: "b".to_string(), search_paths: vec![] }.caused_by(plain);
    assert!(caused.cause.is_some());
    assert_eq!(
        Error::Engine(caused).message(),
        "Template \"b\" was not found\ncaused by\nTemplate \"a\" was not found"
    );
    let t = Error::Template(ErrorAt::new_at(ErrorMessage::UnclosedComment, 2));
    assert_eq!(t.message(), "Unclosed comment at line 2");
    let r = Error::Runtime(TracedRuntimeError::new(RuntimeError::ObjectHasNoProperty("p".to_string())));
    assert_eq!(r.message(), "ObjectHasNoProperty(\"p\")");
}

#[test]
fn runtime_errors_as_debug_text() {
    let e = RuntimeError::InvalidArgumentCount { defined: 2, given: 3 };
    assert_eq!(e.debug_message(), "InvalidArgumentCount { defined: 2, given: 3 }");
    let e = RuntimeError::ImpossibleCast { target: CastTarget::Float, reason: CastError::Null };
    assert_eq!(e.debug_message(), "ImpossibleCast { target: Float, reason: Null }");
    assert_eq!(e.message(), "Null is not a float");
    let e = RuntimeError::ObjectMethodArgumentMismatch { name: "m".to_string(), defined: 1, given: 0 };
    assert_eq!(e.debug_message(), "ObjectMethodArgumentMismatch { name: \"m\", defined: 1, given: 0 }");
    let traced = TracedRuntimeError::new(RuntimeError::ObjectMethodIsNotProperty("q".to_string()));
    assert_eq!(traced.display(), "ObjectMethodIsNotProperty(\"q\")");
    assert_eq!(CastError::StringNotNumerical("1x".to_string()).debug_message(), "StringNotNumerical(\"1x\")");
    assert_eq!(CastError::StringEmpty.debug_message(), "StringEmpty");
}

#[test]
fn token_streams_expect() {
    let env = CompiledEnvironment::default();
    let lexer = Lexer::default(&env.lexing);
    let mut it = lexer.tokens("{{ a }}");
    assert_eq!(it.expect(TokenValue::VarStart).unwrap().value, TokenValue::VarStart);
    let e = it.expect(TokenValue::VarEnd).unwrap_err();
    assert_eq!(e.get_message(), "Expected \"end of print statement\" but received \"name\" with value \"a\" at line 1");
    assert!(it.expect(TokenValue::VarEnd).is_ok());
    let e = it.expect(TokenValue::VarEnd).unwrap_err();
    assert_eq!(e.get_message(), "Expected token \"end of print statement\" but received the end of stream");
}

#[test]
fn core_errors_become_template_errors() {
    let e: ErrorAt = CoreErrorAt::new_at(CoreErrorMessage::OnlyVariablesCanBeAssignedTo, 5).into_error();
    assert_eq!(e.line, Some(5));
    assert_eq!(e.get_message(), "Only variables can be assigned to at line 5");
}
