use twig::environment::CompiledEnvironment;
use twig::error::ErrorAt;
use twig::lexer::{Lexer, TokenIter};
use twig::tokens::{Token, TokenValue as Value, TwigNumber, TwigString};

fn lexer() -> Lexer {
    Lexer::default(&CompiledEnvironment::default().lexing)
}

fn name(s: &str) -> Value {
    Value::Name(s.to_string())
}

fn text(s: &str) -> Value {
    Value::Text(s.to_string())
}

fn string(s: &str) -> Value {
    Value::String(TwigString::new(s))
}

fn count_token(template: &'static str, token_value: Value) -> u32 {
    let lexer = lexer();
    let mut count = 0;
    let mut s = lexer.tokens(template);
    while let Some(maybe_token) = s.next() {
        if let Ok(token) = maybe_token {
            if token.value == token_value {
                count += 1;
            }
        }
    }
    count
}

fn assert_token_value(maybe_token: Option<Result<Token, ErrorAt>>, token_value: Value) -> Token {
    match maybe_token {
        Some(Ok(token)) => {
            if token.value != token_value {
                panic!("expected token {:?} but received {:?}", token_value, token.value);
            } else {
                token
            }
        },
        Some(Err(e)) => panic!("expected token {:?} but received error {:?}", token_value, e.get_message()),
        None => panic!("expected token {:?} but received end of stream", token_value),
    }
}

fn expect_with_line(mut stream: TokenIter, token_value: Value, line_num: usize) -> TokenIter {
    let maybe_token = stream.next();
    let token = assert_token_value(maybe_token, token_value);
    assert_eq!(token.line_num, line_num);
    stream
}

fn expect(mut stream: TokenIter, token_value: Value) -> TokenIter {
    let maybe_token = stream.next();
    assert_token_value(maybe_token, token_value);
    stream
}

/// Runs the stream until it returns an error and then checks the error text.
fn expect_error(mut stream: TokenIter, text: &str) {
    let mut next = stream.next();
    loop {
        match next {
            None => panic!("expected error, but reached the end of token stream"),
            Some(Err(ref e)) => {
                assert_eq!(e.get_message(), text);
                return;
            },
            Some(Ok(_)) => next = stream.next(),
        };
    }
}

/// Runs the stream and expects that it is at the end.
fn expect_end(mut stream: TokenIter) {
    match stream.next() {
        Some(other) => panic!("expected the stream to be at the end, but got {:?}", other.map_err(|e| e.get_message())),
        _ => (),
    }
}

#[test]
fn name_label_for_tag() {
    let template = "{% § %}";
    let lexer = lexer();
    let mut _s = lexer.tokens(template);

    _s = expect(_s, Value::BlockStart);
    _s = expect(_s, name("§"));
}

#[test]
fn test_name_label_for_function() {
    let template = "{{ §() }}";
    let lexer = lexer();
    let mut _s = lexer.tokens(template);

    _s = expect(_s, Value::VarStart);
    _s = expect(_s, name("§"));
}

#[test]
fn test_brackets_nesting() {
    let template = r#"{{ {"a":{"b":"c"}} }}"#;

    assert_eq!(2, count_token(template, Value::Punctuation('{')));
    assert_eq!(2, count_token(template, Value::Punctuation('}')));
}

#[test]
fn test_line_directive() {
    let template = ["foo", "bar", "{% line 10 %}", "{{", "baz", "}}"].join("\n");

    let lexer = lexer();
    let mut _s = lexer.tokens(&template);

    // foo\nbar\n
    _s = expect_with_line(_s, text("foo\nbar\n"), 1);
    // \n (after {% line %})
    _s = expect_with_line(_s, text("\n"), 10);
    // {{
    _s = expect_with_line(_s, Value::VarStart, 11);
    // baz
    _s = expect_with_line(_s, name("baz"), 12);
}

#[test]
fn test_long_comments() {
    let template = ["{# ", &*std::iter::repeat("*").take(100000).collect::<String>(), " #}"].concat();

    let lexer = lexer();
    let _s = lexer.tokens(&template);

    expect_end(_s);
}

#[test]
fn test_raw() {
    let template = ["{% raw %}aaa{% endraw %}"].concat();

    let lexer = lexer();
    let _s = lexer.tokens(&template);

    expect(_s, text("aaa"));
}

#[test]
fn test_raw_trim() {
    let template = ["{% raw %}aaa  {%- endraw %}"].concat();

    let lexer = lexer();
    let _s = lexer.tokens(&template);

    expect(_s, text("aaa"));
}

#[test]
fn test_verbatim() {
    let template = ["{% verbatim %}bbb{% endverbatim %}"].concat();

    let lexer = lexer();
    let _s = lexer.tokens(&template);

    expect(_s, text("bbb"));
}

#[test]
fn test_long_raw() {
    let text_content = &*std::iter::repeat("*").take(100000).collect::<String>();

    let template = ["{% raw %}", text_content, "{% endraw %}"].concat();

    let lexer = lexer();
    let _s = lexer.tokens(&template);

    expect(_s, text(text_content));
}

#[test]
fn test_long_var() {
    let text_content = &*std::iter::repeat("x").take(100000).collect::<String>();

    let template = ["{{ ", text_content, " }}"].concat();

    let lexer = lexer();
    let mut _s = lexer.tokens(&template);

    _s = expect(_s, Value::VarStart);
    _s = expect(_s, name(text_content));
}

#[test]
fn test_long_block() {
    let text_content = &*std::iter::repeat("x").take(100000).collect::<String>();

    let template = ["{% ", text_content, " %}"].concat();

    let lexer = lexer();
    let mut _s = lexer.tokens(&template);

    _s = expect(_s, Value::BlockStart);
    _s = expect(_s, name(text_content));
}

#[test]
fn test_big_numbers() {
    let template = "{{ 922337203685477580700 }}";

    let lexer = lexer();
    let mut _s = lexer.tokens(&template);

    _s.next();
    _s = expect(_s, Value::Number(TwigNumber::Big("922337203685477580700".to_string())));
}

#[test]
fn test_int_numbers() {
    let template = "{{ 922337203685477 }}";

    let lexer = lexer();
    let mut _s = lexer.tokens(&template);

    _s.next();
    _s = expect(_s, Value::Number(TwigNumber::Int(922337203685477)));
}

#[test]
fn test_float_numbers() {
    let template = "{{ 92233720368547.33 }}";

    let lexer = lexer();
    let mut _s = lexer.tokens(&template);

    _s.next();
    match _s.next() {
        Some(Ok(Token { value: Value::Number(TwigNumber::Float(literal)), .. })) => {
            assert_eq!(literal.parse::<f64>().unwrap(), 92233720368547.33);
        },
        other => panic!("expected a float, got {:?}", other.map(|r| r.map_err(|e| e.get_message()))),
    }
}

#[test]
fn test_string_with_escaped_delimiter() {
    let templates = [(r#"{{ 'foo \' bar' }}"#, r#"foo \' bar"#), (r#"{{ "foo \" bar" }}"#, r#"foo \" bar"#)];

    let lexer = lexer();

    for &(template, expected) in &templates {
        let mut _s = lexer.tokens(&template);
        _s = expect(_s, Value::VarStart);
        _s = expect(_s, string(expected));
    }
}

#[test]
fn test_string_with_interpolation() {
    let template = r#"foo {{ "bar #{ baz + 1 }" }}"#;

    let lexer = lexer();
    let mut _s = lexer.tokens(&template);

    _s = expect(_s, text("foo "));
    _s = expect(_s, Value::VarStart);
    _s = expect(_s, string("bar "));
    _s = expect(_s, Value::InterpolationStart);
    _s = expect(_s, name("baz"));
    _s = expect(_s, Value::Operator("+".to_string()));
    _s = expect(_s, Value::Number(TwigNumber::Int(1)));
    _s = expect(_s, Value::InterpolationEnd);
    _s = expect(_s, Value::VarEnd);
}

#[test]
fn test_string_with_escaped_interpolation() {
    let template = r#"{{ "bar \#{baz+1}" }}"#;

    let lexer = lexer();
    let mut _s = lexer.tokens(&template);

    _s = expect(_s, Value::VarStart);
    _s = expect(_s, string(r#"bar \#{baz+1}"#));
    _s = expect(_s, Value::VarEnd);
}

#[test]
fn test_string_with_hash() {
    let template = r#"{{ "bar # baz" }}"#;

    let lexer = lexer();
    let mut _s = lexer.tokens(&template);

    _s = expect(_s, Value::VarStart);
    _s = expect(_s, string("bar # baz"));
    _s = expect(_s, Value::VarEnd);
}

#[test]
fn string_ending_with_hash() {
    let template = r#"{{ "a#" }}"#;

    let lexer = lexer();
    let mut _s = lexer.tokens(&template);

    _s = expect(_s, Value::VarStart);
    _s = expect(_s, string("a#"));
    _s = expect(_s, Value::VarEnd);
}

#[test]
fn test_string_with_unterminated_interpolation() {
    let template = r#"{{ "bar #{x" }}"#;

    let lexer = lexer();
    let _s = lexer.tokens(&template);

    expect_error(_s, r#"Unclosed """ at line 1"#);
}

#[test]
fn test_string_with_nested_interpolations() {
    let template = r#"{{ "bar #{ "foo#{bar}" }" }}"#;

    let lexer = lexer();
    let mut _s = lexer.tokens(&template);

    _s = expect(_s, Value::VarStart);
    _s = expect(_s, string(r#"bar "#));
    _s = expect(_s, Value::InterpolationStart);
    _s = expect(_s, string(r#"foo"#));
    _s = expect(_s, Value::InterpolationStart);
    _s = expect(_s, name("bar"));
    _s = expect(_s, Value::InterpolationEnd);
    _s = expect(_s, Value::InterpolationEnd);
    _s = expect(_s, Value::VarEnd);
}

#[test]
fn test_string_with_nested_interpolations_in_block() {
    let template = r#"{% foo "bar #{ "foo#{bar}" }" %}"#;

    let lexer = lexer();
    let mut _s = lexer.tokens(&template);

    _s = expect(_s, Value::BlockStart);
    _s = expect(_s, name("foo"));
    _s = expect(_s, string(r#"bar "#));
    _s = expect(_s, Value::InterpolationStart);
    _s = expect(_s, string(r#"foo"#));
    _s = expect(_s, Value::InterpolationStart);
    _s = expect(_s, name("bar"));
    _s = expect(_s, Value::InterpolationEnd);
    _s = expect(_s, Value::InterpolationEnd);
    _s = expect(_s, Value::BlockEnd);
}

#[test]
fn test_operator_ending_with_a_letter_at_the_end_of_a_line() {
    let template = "{{ 1 and\n0}}";

    let lexer = lexer();
    let mut _s = lexer.tokens(&template);

    _s = expect(_s, Value::VarStart);
    _s = expect(_s, Value::Number(TwigNumber::Int(1)));
    _s = expect(_s, Value::Operator("and".to_string()));
}

#[test]
fn test_unterminated_variable() {
    let template = "

{{

bar


";

    let lexer = lexer();
    let _s = lexer.tokens(&template);

    expect_error(_s, "Unclosed \"variable\" at line 3");
}

#[test]
fn test_unterminated_block() {
    let template = "

{%

bar


";

    let lexer = lexer();
    let _s = lexer.tokens(&template);

    expect_error(_s, "Unclosed \"block\" at line 3");
}

#[test]
fn plain_text_is_one_token() {
    let lexer = lexer();
    let mut s = lexer.tokens("Hello, world!\n{ not a tag }");
    let t = assert_token_value(s.next(), text("Hello, world!\n{ not a tag }"));
    assert_eq!(t.line_num, 1);
    assert!(s.next().is_none());
    let mut s = lexer.tokens("");
    assert!(s.next().is_none());
}

#[test]
fn line_directive_too_large() {
    let lexer = lexer();
    let mut s = lexer.tokens("a{% line 99999999999999999999 %}b");
    assert_token_value(s.next(), text("a"));
    match s.next() {
        Some(Err(e)) => assert_eq!(e.get_message(), "Invalid line number \"99999999999999999999\" at line 1"),
        other => panic!("expected an error, got {:?}", other),
    }
    assert!(s.next().is_none());
}

#[test]
fn line_directive_up_to_the_last_line_that_can_be_counted() {
    let lexer = lexer();
    let max = usize::MAX;
    let fits = format!("{{% line {} %}}a\nb", max - 1);
    let mut s = lexer.tokens(&fits);
    let t = s.next().unwrap().unwrap();
    assert_eq!(t.value, text("a\nb"));
    assert_eq!(t.line_num, max - 1);
    assert!(s.next().is_none());
    let too_far = format!("{{% line {} %}}a\nb\nc", max - 1);
    let mut s = lexer.tokens(&too_far);
    match s.next() {
        Some(Err(e)) => assert_eq!(e.get_message(), format!("Invalid line number \"{}\" at line 1", max - 1)),
        other => panic!("expected an error, got {:?}", other),
    }
}
