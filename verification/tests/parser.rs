use twig::environment::CompiledEnvironment;
use twig::error::{ErrorAt, ErrorMessage};
use twig::lexer::Lexer;
use twig::nodes::body::{Body, ImportTarget};
use twig::nodes::context::{Context, ImportedSymbols};
use twig::nodes::expr::{debug_expr, Expr, ExprCallType, ExprConstant, ExprValue};
use twig::nodes::expr_parser::{get_primary, parse_expression, parse_named_arguments, parse_unnamed_arguments};
use twig::nodes::{Module, TokenParserExtension};
use twig::extension::core_extension::token_parsers::{From, SetTag, parse_assignment_expression};
use twig::operator::{Associativity, OperatorKind};
use twig::tokens::{Token, TokenValue, TwigNumber};

fn parse_template(src: &str) -> Result<Module, ErrorAt> {
    let env = CompiledEnvironment::default();
    let lexer = Lexer::default(&env.lexing);
    let mut it = lexer.tokens(src);
    twig::nodes::parse(&env.parsing, &mut it)
}

fn context(src: &str) -> Context {
    let env = CompiledEnvironment::default();
    let lexer = Lexer::default(&env.lexing);
    let mut it = lexer.tokens(src);
    Context::new(&env.parsing, &mut it)
}

fn printed(src: &str) -> Expr {
    match parse_template(src) {
        Ok(Module { body: Body::Print { expr, .. } }) => *expr,
        Ok(other) => panic!("expected a print node, got {:?}", other.body),
        Err(e) => panic!("parse error: {}", e.get_message()),
    }
}

fn error_of(src: &str) -> ErrorAt {
    match parse_template(src) {
        Ok(m) => panic!("expected an error, got {:?}", m.body),
        Err(e) => e,
    }
}

fn num(v: i64) -> Expr {
    Expr::new_int_constant(v, 1)
}

fn name(n: &str) -> Expr {
    Expr::new_name(n, 1)
}

fn binary(op: &str, left: Expr, right: Expr) -> Expr {
    Expr::new_at(
        ExprValue::BinaryOperator { value: op.to_string(), left: Box::new(left), right: Box::new(right) },
        1,
    )
}

#[test]
fn multiplication_binds_tighter_than_addition() {
    assert_eq!(printed("{{ 1 + 2 * 3 }}"), binary("+", num(1), binary("*", num(2), num(3))));
    assert_eq!(printed("{{ 1 * 2 + 3 }}"), binary("+", binary("*", num(1), num(2)), num(3)));
}

#[test]
fn left_associative_operators_group_to_the_left() {
    assert_eq!(printed("{{ 1 - 2 - 3 }}"), binary("-", binary("-", num(1), num(2)), num(3)));
}

#[test]
fn right_associative_operators_group_to_the_right() {
    assert_eq!(printed("{{ 2 ** 3 ** 2 }}"), binary("**", num(2), binary("**", num(3), num(2))));
}

#[test]
fn unary_operators() {
    let not = Expr::new_at(ExprValue::UnaryOperator { value: "not".to_string(), expr: Box::new(name("a")) }, 1);
    assert_eq!(printed("{{ not a }}"), not);
    assert_eq!(printed("{{ not a + 2 }}"), binary("+", not, num(2)));
}

#[test]
fn minus_and_plus_are_looked_up_as_binary_operators() {
    let e = error_of("{{ -1 }}");
    assert!(matches!(*e.message, ErrorMessage::UnexpectedTokenValue(TokenValue::Operator(ref op)) if op == "-"));
    assert_eq!(e.line, Some(1));
}

#[test]
fn parentheses_group() {
    assert_eq!(printed("{{ (1 + 2) * 3 }}"), binary("*", binary("+", num(1), num(2)), num(3)));
}

fn context_of(values: Vec<TokenValue>) -> Context {
    let env = CompiledEnvironment::default();
    Context {
        operators: env.parsing.operators.clone(),
        tokens: values.into_iter().map(|v| Ok(Token { value: v, line_num: 1 })).collect(),
        position: 0,
        imported_symbols: vec![ImportedSymbols::new()],
    }
}

#[test]
fn unclosed_parenthesis() {
    let mut ctx = context_of(vec![
        TokenValue::Punctuation('('),
        TokenValue::Number(TwigNumber::Int(1)),
        TokenValue::VarEnd,
    ]);
    let e = get_primary(&mut ctx).unwrap_err();
    assert!(matches!(*e.message, ErrorMessage::ParenthesisNotClosed));
    assert_eq!(e.line, Some(1));
    // The end of the stream is found first, after the number.
    let mut ctx = context_of(vec![TokenValue::Punctuation('('), TokenValue::Number(TwigNumber::Int(1))]);
    let e = get_primary(&mut ctx).unwrap_err();
    assert!(matches!(*e.message, ErrorMessage::UnexpectedEndOfTemplate));
}

#[test]
fn literals() {
    assert_eq!(printed("{{ true }}"), Expr::new_bool(true, 1));
    assert_eq!(printed("{{ FALSE }}"), Expr::new_bool(false, 1));
    assert_eq!(printed("{{ null }}"), Expr::new_null(1));
    assert_eq!(printed("{{ none }}"), Expr::new_null(1));
    assert_eq!(printed("{{ 'abc' }}"), Expr::new_str_constant("abc", 1));
    assert_eq!(
        printed("{{ 1.5 }}"),
        Expr::new_at(ExprValue::Constant(ExprConstant::Float("1.5".to_string())), 1)
    );
    assert_eq!(
        printed("{{ 92233720368547758070 }}"),
        Expr::new_at(ExprValue::Constant(ExprConstant::Big("92233720368547758070".to_string())), 1)
    );
}

#[test]
fn arrays() {
    assert_eq!(printed("{{ [1, 2] }}"), Expr::new_array(vec![num(1), num(2)], 1));
    assert_eq!(printed("{{ [1, 2,] }}"), Expr::new_array(vec![num(1), num(2)], 1));
    assert_eq!(printed("{{ [] }}"), Expr::new_array(vec![], 1));
    let e = error_of("{{ [1 2] }}");
    assert!(matches!(*e.message, ErrorMessage::ArrayValueMustBeFollowedByComma));
}

#[test]
fn hashes() {
    let h = printed("{{ {a: 1, 'b': 2, 3: 4, (x): 5} }}");
    let expected = Expr::new_hash(
        vec![
            (Expr::new_str_constant("a", 1), num(1)),
            (Expr::new_str_constant("b", 1), num(2)),
            (num(3), num(4)),
            (name("x"), num(5)),
        ],
        1,
    );
    assert_eq!(h, expected);
    let e = error_of("{{ {a 1} }}");
    assert!(matches!(*e.message, ErrorMessage::HashKeyMustBeFollowedByColon));
    let e = error_of("{{ {a: 1 b: 2} }}");
    assert!(matches!(*e.message, ErrorMessage::HashValueMustBeFollowedByComma));
    let e = error_of("{{ {[1]: 2} }}");
    assert!(matches!(*e.message, ErrorMessage::InvalidHashKey { unexpected: TokenValue::Punctuation('[') }));
}

#[test]
fn conditionals() {
    let full = Expr::new_at(
        ExprValue::Conditional { expr: Box::new(name("a")), yay: Box::new(name("b")), nay: Box::new(name("c")) },
        1,
    );
    assert_eq!(printed("{{ a ? b : c }}"), full);
    let elvis = Expr::new_at(
        ExprValue::Conditional { expr: Box::new(name("a")), yay: Box::new(name("a")), nay: Box::new(name("b")) },
        1,
    );
    assert_eq!(printed("{{ a ?: b }}"), elvis);
    let short = Expr::new_at(
        ExprValue::Conditional {
            expr: Box::new(name("a")),
            yay: Box::new(name("b")),
            nay: Box::new(Expr::new_str_constant("", 1)),
        },
        1,
    );
    assert_eq!(printed("{{ a ? b }}"), short);
}

#[test]
fn interpolated_strings_concatenate() {
    let e = printed("{{ \"x #{ y } z\" }}");
    let expected = Expr::new_at(
        ExprValue::Concat {
            left: Box::new(Expr::new_at(
                ExprValue::Concat { left: Box::new(Expr::new_str_constant("x ", 1)), right: Box::new(name("y")) },
                1,
            )),
            right: Box::new(Expr::new_str_constant(" z", 1)),
        },
        1,
    );
    assert_eq!(e, expected);
}

#[test]
fn bodies() {
    match parse_template("hello").unwrap().body {
        Body::Text { value, line } => {
            assert_eq!(value, "hello");
            assert_eq!(line, 1);
        },
        other => panic!("unexpected {:?}", other),
    }
    match parse_template("a{{ b }}c").unwrap().body {
        Body::List { items } => {
            assert_eq!(items.len(), 3);
            assert!(matches!(&items[0], Body::Text { value, .. } if value == "a"));
            assert!(matches!(&items[1], Body::Print { expr, .. } if **expr == name("b")));
            assert!(matches!(&items[2], Body::Text { value, .. } if value == "c"));
        },
        other => panic!("unexpected {:?}", other),
    }
    match parse_template("").unwrap().body {
        Body::List { items } => assert_eq!(items.len(), 0),
        other => panic!("unexpected {:?}", other),
    }
}

#[test]
fn block_tags_are_not_parsed_yet() {
    let e = error_of("{% if a %}x{% endif %}");
    assert!(matches!(*e.message, ErrorMessage::NotImplemented(_)));
    assert_eq!(e.line, Some(1));
}

#[test]
fn attribute_access_and_filters_are_not_parsed_yet() {
    assert!(matches!(*error_of("{{ a.b }}").message, ErrorMessage::NotImplemented("attribute access")));
    assert!(matches!(*error_of("{{ a[0] }}").message, ErrorMessage::NotImplemented("array access")));
    assert!(matches!(*error_of("{{ a|upper }}").message, ErrorMessage::NotImplemented("filters")));
    assert!(matches!(*error_of("{{ a.1 }}").message, ErrorMessage::NotImplemented("attribute access")));
    assert!(matches!(*error_of("{{ a.(b) }}").message, ErrorMessage::ExpectedNameOrNumber));
}

#[test]
fn unexpected_tokens() {
    let e = error_of("{{ }}");
    assert!(matches!(*e.message, ErrorMessage::UnexpectedTokenValue(TokenValue::VarEnd)));
    let e = error_of("{{ * 2 }}");
    assert!(matches!(*e.message, ErrorMessage::UnexpectedTokenValue(TokenValue::Operator(_))));
    let e = error_of("{{ 1 2 }}");
    assert!(matches!(*e.message, ErrorMessage::ExpectedOtherTokenValue(_, TokenValue::VarEnd)));
}

#[test]
fn lexing_errors_reach_the_parser() {
    let e = error_of("{{ 1 ");
    assert_eq!(e.get_message(), "Unclosed \"variable\" at line 1");
    let e = error_of("{{ (1 }}");
    assert_eq!(e.get_message(), "Unclosed \"(\" at line 1");
    let e = error_of("{{ 1");
    assert_eq!(e.get_message(), "Unexpected end of template");
}

#[test]
fn lines_of_expressions() {
    match parse_template("a\nb\n{{ x }}").unwrap().body {
        Body::List { items } => match &items[1] {
            Body::Print { expr, line } => {
                assert_eq!(*line, 3);
                assert_eq!(expr.line, 3);
            },
            other => panic!("unexpected {:?}", other),
        },
        other => panic!("unexpected {:?}", other),
    }
}

/// Takes `{%` and the tag name, and returns the tag name token.
fn take_tag(ctx: &mut Context) -> Token {
    ctx.next().unwrap();
    ctx.next().unwrap()
}

#[test]
fn from_imports_functions() {
    let mut ctx = context("{% from 'macros.twig' import foo, bar as baz %}");
    let tag = take_tag(&mut ctx);
    let body = From::new().parse(&mut ctx, &tag).unwrap().unwrap();
    match body {
        Body::Import { source, targets, line } => {
            assert_eq!(*source, Expr::new_str_constant("macros.twig", 1));
            assert_eq!(line, 1);
            assert_eq!(targets.len(), 2);
            assert_eq!(targets[0].1, "foo");
            assert!(matches!(&targets[0].2, ImportTarget::Function { symbol } if symbol == "foo"));
            assert_eq!(targets[1].1, "baz");
            assert!(matches!(&targets[1].2, ImportTarget::Function { symbol } if symbol == "bar"));
            let baz = ctx.get_imported_function("baz").unwrap();
            assert_eq!(baz.name, "bar");
            assert_eq!(baz.uuid, targets[1].0);
            assert_eq!(baz.uuid & 0xF000_C000_0000_0000_0000, 0x4000_8000_0000_0000_0000);
            assert!(ctx.get_imported_function("bar").is_none());
        },
        other => panic!("unexpected {:?}", other),
    }
    assert!(ctx.current().is_err());
}

#[test]
fn from_needs_import() {
    let mut ctx = context("{% from 'x' foo %}");
    let tag = take_tag(&mut ctx);
    let e = From::new().parse(&mut ctx, &tag).unwrap_err();
    assert!(matches!(*e.message, ErrorMessage::ExpectedOtherTokenValue(TokenValue::Name(ref n), _) if n == "foo"));
}

#[test]
fn imported_functions_are_called() {
    let mut ctx = context("{% from 'm' import f %}");
    let tag = take_tag(&mut ctx);
    From::new().parse(&mut ctx, &tag).unwrap();
    let f = ctx.get_imported_function("f").unwrap();
    let mut call = context("{{ f(1, x) }}");
    call.imported_symbols = ctx.imported_symbols;
    call.next().unwrap();
    let e = parse_expression(&mut call, 0).unwrap();
    let expected = Expr::new_at(
        ExprValue::ImportedFunctionCall { uuid: f.uuid, alias: "f".to_string(), arguments: vec![num(1), name("x")] },
        1,
    );
    assert_eq!(e, expected);
}

#[test]
fn calls_of_unknown_functions_are_not_parsed_yet() {
    assert!(matches!(*error_of("{{ g(1) }}").message, ErrorMessage::NotImplemented(_)));
}

#[test]
fn local_scopes() {
    let mut ctx = context("");
    ctx.push_local_scope();
    let id = ctx.add_imported_function("a", "b");
    assert_eq!(ctx.get_imported_function("a").unwrap().uuid, id);
    ctx.pop_local_scope();
    assert!(ctx.get_imported_function("a").is_none());
    let outer = ctx.add_imported_function("a", "outer");
    ctx.push_local_scope();
    let inner = ctx.add_imported_function("a", "inner");
    let found = ctx.get_imported_function("a").unwrap();
    assert_eq!(found.uuid, inner);
    assert_eq!(found.name, "inner");
    ctx.pop_local_scope();
    let found = ctx.get_imported_function("a").unwrap();
    assert_eq!(found.uuid, outer);
    assert_eq!(found.name, "outer");
}

#[test]
fn reimport_replaces_alias() {
    let mut ctx = context("");
    ctx.add_imported_function("a", "first");
    let second = ctx.add_imported_function("a", "second");
    assert_eq!(ctx.imported_symbols[0].functions.len(), 1);
    let f = ctx.get_imported_function("a").unwrap();
    assert_eq!(f.uuid, second);
    assert_eq!(f.name, "second");
}

#[test]
fn context_token_access() {
    let mut ctx = context("{{ a }}");
    assert_eq!(ctx.current().unwrap().value, TokenValue::VarStart);
    assert_eq!(ctx.test(TokenValue::VarStart).unwrap(), true);
    assert_eq!(ctx.skip_to_next_if(TokenValue::VarEnd).unwrap(), false);
    assert_eq!(ctx.skip_to_next_if(TokenValue::VarStart).unwrap(), true);
    assert_eq!(ctx.expect_name().unwrap(), "a");
    let e = ctx.expect(TokenValue::BlockEnd).unwrap_err();
    assert!(matches!(*e.message, ErrorMessage::ExpectedOtherTokenValue(TokenValue::VarEnd, TokenValue::BlockEnd)));
    assert!(ctx.maybe_current().unwrap().is_none());
    assert!(matches!(*ctx.current().unwrap_err().message, ErrorMessage::UnexpectedEndOfTemplate));
    assert!(matches!(*ctx.next().unwrap_err().message, ErrorMessage::UnexpectedEndOfTemplate));
    let e = ctx.skip_to_next_if(TokenValue::VarEnd).unwrap_err();
    assert!(matches!(*e.message, ErrorMessage::UnexpectedEndOfTemplate));
    assert!(e.line.is_none());
}

#[test]
fn expect_name_reports_what_it_got() {
    let mut ctx = context("{{ 1 }}");
    ctx.next().unwrap();
    let e = ctx.expect_name().unwrap_err();
    assert_eq!(e.get_message(), "Expected \"name\" but received \"number\" with value \"1\" at line 1");
}

#[test]
fn expect_or_error_and_match() {
    let mut ctx = context("{{ a }}");
    let e = ctx.expect_or_error(TokenValue::BlockStart, ErrorMessage::ArrayNotClosed).unwrap_err();
    assert!(matches!(*e.message, ErrorMessage::ArrayNotClosed));
    let n = ctx.expect_match_or(|t: &Token| Ok(t.line_num)).unwrap();
    assert_eq!(n, 1);
}

#[test]
fn operator_options() {
    let ctx = context("");
    let minus = ctx.get_operator_options("-").unwrap();
    assert_eq!(minus.precedence, 30);
    assert_eq!(minus.kind, OperatorKind::Binary(Associativity::Left));
    let not = ctx.get_operator_options("not").unwrap();
    assert_eq!(not.precedence, 50);
    assert_eq!(not.kind, OperatorKind::Unary);
    assert!(ctx.get_operator_options("?").is_none());
}

#[test]
fn unnamed_arguments() {
    let mut ctx = context("{{ (1, a) }}");
    ctx.next().unwrap();
    assert_eq!(parse_unnamed_arguments(&mut ctx, false).unwrap(), vec![num(1), name("a")]);
    let mut ctx = context("{{ (1 a) }}");
    ctx.next().unwrap();
    let e = parse_unnamed_arguments(&mut ctx, false).unwrap_err();
    assert!(matches!(*e.message, ErrorMessage::ArgumentsMustBeSeparatedByComma));
    let mut ctx = context("{{ 1 }}");
    ctx.next().unwrap();
    let e = parse_unnamed_arguments(&mut ctx, false).unwrap_err();
    assert!(matches!(*e.message, ErrorMessage::ListOfArgumentsMustBeginWithParenthesis));
}

#[test]
fn named_arguments() {
    let mut ctx = context("{% macro m(a = 1, b = [2, 3]) %}");
    take_tag(&mut ctx);
    ctx.next().unwrap();
    let args = parse_named_arguments(&mut ctx, true).unwrap();
    assert_eq!(args.len(), 2);
    assert_eq!(args[0].0, "a");
    assert_eq!(args[0].1, num(1));
    assert_eq!(args[1].0, "b");
    let mut ctx = context("{% macro m(a = b) %}");
    take_tag(&mut ctx);
    ctx.next().unwrap();
    let e = parse_named_arguments(&mut ctx, true).unwrap_err();
    assert!(matches!(*e.message, ErrorMessage::DefaultValueForArgumentMustBeConstant));
    let mut ctx = context("{{ f(1 = 2) }}");
    ctx.next().unwrap();
    ctx.next().unwrap();
    let e = parse_named_arguments(&mut ctx, false).unwrap_err();
    assert_eq!(
        e.get_message(),
        "A parameter name must be a string, \"Expr { line: 1, value: Constant(Int(1)) }\" given at line 1"
    );
}

#[test]
fn assignment_targets() {
    let mut ctx = context("{% set a, b = 1 %}");
    take_tag(&mut ctx);
    let targets = parse_assignment_expression(&mut ctx).unwrap();
    assert_eq!(
        targets,
        vec![
            Expr::new_at(ExprValue::AssignName("a".to_string()), 1),
            Expr::new_at(ExprValue::AssignName("b".to_string()), 1),
        ]
    );
    let mut ctx = context("{% set true = 1 %}");
    let tag = take_tag(&mut ctx);
    let e = SetTag::new().parse(&mut ctx, &tag).unwrap_err();
    assert_eq!(e.get_message(), "You cannot assign a value to \"true\" at line 1");
    let mut ctx = context("{% set 1 = 1 %}");
    take_tag(&mut ctx);
    let e = parse_assignment_expression(&mut ctx).unwrap_err();
    assert_eq!(e.get_message(), "Only variables can be assigned to at line 1");
}

#[test]
fn constant_expressions() {
    assert!(printed("{{ [1, {a: 2}] }}").is_constant());
    let minus_two = Expr::new_at(ExprValue::UnaryOperator { value: "-".to_string(), expr: Box::new(num(2)) }, 1);
    assert!(minus_two.is_constant());
    assert!(Expr::new_array(vec![num(1), minus_two], 1).is_constant());
    assert!(!printed("{{ [1, a] }}").is_constant());
    assert!(!printed("{{ not 1 }}").is_constant());
    assert!(!printed("{{ 1 + 2 }}").is_constant());
}

#[test]
fn body_accessors() {
    let m = parse_template("{{ a }}").unwrap();
    assert_eq!(*m.body.expect_print(), name("a"));
    let m = parse_template("x{{ a }}").unwrap();
    assert_eq!(m.body.expect_list().len(), 2);
    let node = twig::nodes::body::BodyNode::Expr(name("b"));
    assert_eq!(*node.expect_expr(), name("b"));
    assert!(matches!(twig::nodes::body::BodyNode::new(), twig::nodes::body::BodyNode::List(v) if v.is_empty()));
    assert!(matches!(Module::new().body, Body::List { items } if items.is_empty()));
}

#[test]
fn array_and_hash_must_open() {
    let mut ctx = context_of(vec![TokenValue::Punctuation('('), TokenValue::VarEnd]);
    let e = twig::nodes::expr_parser::parse_array_expression(&mut ctx).unwrap_err();
    assert!(matches!(*e.message, ErrorMessage::ExpectedArrayElement));
    let mut ctx = context_of(vec![TokenValue::Punctuation('('), TokenValue::VarEnd]);
    let e = twig::nodes::expr_parser::parse_hash_expression(&mut ctx).unwrap_err();
    assert!(matches!(*e.message, ErrorMessage::ExpectedHashElement));
}

#[test]
fn expressions_are_written_as_debug_writes_them() {
    let b = |e: Expr| Box::new(e);
    let samples = vec![
        Expr::new_int_constant(-42, 3),
        Expr::new_int_constant(i64::MIN, 1),
        Expr::new_str_constant("a \"q\" \\ é\n", 2),
        Expr::new_bool(true, 1),
        Expr::new_bool(false, 1),
        Expr::new_null(7),
        Expr::new_at(ExprValue::Constant(ExprConstant::Float("1.5".to_string())), 1),
        Expr::new_at(ExprValue::Constant(ExprConstant::Big("99999999999999999999".to_string())), 1),
        Expr::new_name("x", 1),
        Expr::new_at(ExprValue::AssignName("y".to_string()), 1),
        Expr::new_array(vec![], 1),
        Expr::new_array(vec![Expr::new_int_constant(1, 1), Expr::new_name("z", 2)], 1),
        Expr::new_hash(vec![], 1),
        Expr::new_hash(
            vec![
                (Expr::new_str_constant("k", 1), Expr::new_int_constant(1, 1)),
                (Expr::new_name("j", 1), Expr::new_null(1)),
            ],
            1,
        ),
        Expr::new_at(ExprValue::UnaryOperator { value: "-".to_string(), expr: b(Expr::new_int_constant(1, 1)) }, 1),
        Expr::new_at(
            ExprValue::BinaryOperator {
                value: "+".to_string(),
                left: b(Expr::new_int_constant(1, 1)),
                right: b(Expr::new_int_constant(2, 1)),
            },
            1,
        ),
        Expr::new_at(ExprValue::Concat { left: b(Expr::new_name("a", 1)), right: b(Expr::new_name("b", 1)) }, 1),
        Expr::new_at(
            ExprValue::Conditional {
                expr: b(Expr::new_bool(true, 1)),
                yay: b(Expr::new_int_constant(1, 1)),
                nay: b(Expr::new_int_constant(2, 1)),
            },
            1,
        ),
        Expr::new_at(
            ExprValue::GetAttr {
                node: b(Expr::new_name("a", 1)),
                arg: b(Expr::new_str_constant("b", 1)),
                arguments: vec![Expr::new_int_constant(3, 1)],
                call_type: ExprCallType::Method,
            },
            1,
        ),
        Expr::new_at(
            ExprValue::ImportedFunctionCall {
                uuid: 0x4000_8000_0000_0000_0000_0000_0000_0001,
                alias: "f".to_string(),
                arguments: vec![Expr::new_name("x", 1), Expr::new_name("y", 1)],
            },
            1,
        ),
        Expr::new_at(
            ExprValue::FunctionCall {
                name: "g".to_string(),
                arguments: vec![(Some("a".to_string()), Expr::new_int_constant(1, 1)), (None, Expr::new_null(1))],
            },
            1,
        ),
    ];
    for e in samples.iter() {
        assert_eq!(debug_expr(e), format!("{:?}", e));
    }
    assert_eq!(
        debug_expr(&Expr::new_array(vec![Expr::new_int_constant(1, 1)], 4)),
        "Expr { line: 4, value: Array([Expr { line: 1, value: Constant(Int(1)) }]) }"
    );
}
