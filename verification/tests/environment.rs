use std::collections::HashMap;
use twig::environment::operators::Operator as PlainOperator;
use twig::environment::{CompiledEnvironment, Config, Environment};
use twig::extension::core_extension::token_parsers::{If, Macro};
use twig::nodes::TokenParser;
use twig::operator::{Associativity, Operator, OperatorKind, OperatorOptions};

#[test]
fn config_defaults_to_html_escaping() {
    assert_eq!(Config::default().autoescape, "html");
    let mut map = HashMap::new();
    map.insert("autoescape".to_string(), "js".to_string());
    assert_eq!(Config::from_hashmap(map).autoescape, "js");
    let mut map = HashMap::new();
    map.insert("other".to_string(), "js".to_string());
    assert_eq!(Config::from_hashmap(map).autoescape, "html");
}

#[test]
fn default_environment_has_the_core_extension() {
    let env = Environment::default();
    assert_eq!(env.operators.len(), 30);
    assert_eq!(env.token_parsers.len(), 15);
    assert_eq!(env.token_parsers[9].tag, "from");
    assert_eq!(env.operators[0].options.value, "not");
    assert_eq!(env.operators[29].options.kind, OperatorKind::Binary(Associativity::Right));
}

#[test]
fn compiled_environment_lists_each_symbol_once() {
    let env = CompiledEnvironment::default();
    // "-" and "+" are both unary and binary; the binary entries come later
    // and are the ones the parser keeps.
    assert_eq!(env.parsing.operators.len(), 28);
    let minus: Vec<_> = env.parsing.operators.iter().filter(|o| o.value == "-").collect();
    assert_eq!(minus.len(), 1);
    assert_eq!(minus[0].precedence, 30);
    assert_eq!(minus[0].kind, OperatorKind::Binary(Associativity::Left));
    assert_eq!(env.parsing.operators[1].value, "-");
    assert_eq!(env.parsing.operators[20].value, "~");
    assert_eq!(env.parsing.handlers.len(), 15);
    let tags: Vec<&str> = env.parsing.handlers.iter().map(|h| h.tag).collect();
    assert_eq!(
        tags,
        vec!["for", "if", "extends", "include", "block", "use", "filter", "macro", "import", "from", "set", "spaceless", "flush", "do", "embed"]
    );
    assert_eq!(env.lexing.operators.len(), 28);
    assert_eq!(env.lexing.operators.iter().filter(|o| **o == "-").count(), 1);
}

#[test]
fn extensions_add_operators_and_tags() {
    let mut env = Environment::new(Config::default());
    env.push_operators(vec![Operator::new_binary_left("newop", 10)]);
    env.push_token_parsers(vec![TokenParser::new(If::new()), TokenParser::new(Macro::new())]);
    assert_eq!(env.operators.len(), 31);
    assert_eq!(env.token_parsers.len(), 17);
    assert_eq!(env.token_parsers[16].tag, "macro");
    let compiled = env.init_all();
    assert_eq!(compiled.lexing.operators.len(), 29);
    assert_eq!(compiled.lexing.operators[28], "newop");
}

#[test]
fn operator_constructors() {
    let o = OperatorOptions::new_binary_right("**", 200);
    assert_eq!((o.value, o.precedence, o.kind), ("**", 200, OperatorKind::Binary(Associativity::Right)));
    let o = Operator::new_unary("not", 50);
    assert_eq!(o.options.kind, OperatorKind::Unary);
    assert_eq!(OperatorKind::new_binary_left(), OperatorKind::Binary(Associativity::Left));
    assert_eq!(PlainOperator::new_unary("-", 500).value(), "-");
    assert_eq!(PlainOperator::new_binary_left("+", 30).value(), "+");
}
