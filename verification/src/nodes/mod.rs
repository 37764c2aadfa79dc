//! Produces an abstract syntax tree from a stream of tokens.
use vstd::prelude::*;
use crate::environment::ParsingEnvironment;
use crate::error::ErrorAt;
use crate::lexer::{TokenIter, delivered};
use crate::lexer::iter::{Item, Lexeme, lex_all, law_plain_text};
use crate::lexer::matchers::Matchers;
use crate::tokens::Token;

pub mod token_parser;
pub mod expr;
pub mod body;
pub mod context;
pub mod grammar;
pub mod expr_parser;
pub mod module;

pub use self::token_parser::TokenParser;
pub use self::body::Body;
pub use self::context::{Context, ImportedFunction};
pub use self::module::Module;

use self::context::{Input, ImportedFunctionSpec, operators_ok, same_error, tokens_delivered};
use self::grammar::parsed_body;

verus! {

#[derive(Debug)]
pub struct Block;

#[derive(Debug)]
pub struct Macro;

#[derive(Debug)]
pub struct Trait;

#[derive(Debug)]
pub struct EmbededTemplate;

/// A node that can be parsed from the current position of a parser.
pub trait Parse {
    type Output;

    fn parse(parser: &mut Context) -> (r: Result<Self::Output, ErrorAt>)
        requires
            operators_ok(old(parser).input().operators),
    ;
}

/// Parses the tag it is named after.
pub trait TokenParserExtension {
    /// The tag name.
    spec fn tag_spec(&self) -> &'static str;

    fn get_tag(&self) -> (r: &'static str)
        ensures
            r == self.tag_spec(),
    ;

    /// Parses the rest of the tag, whose name `token` was just taken.
    fn parse(&self, parser: &mut Context, token: &Token) -> (r: Result<Option<Body>, ErrorAt>)
        requires
            operators_ok(old(parser).input().operators),
            old(parser).imported_symbols@.len() > 0,
        ensures
            final(parser).tokens() == old(parser).tokens(),
    ;
}

/// What parsing a template's tokens gives: its body, or the error reported.
pub open spec fn parsed_template(ts: Seq<Result<Token, ErrorAt>>, env: ParsingEnvironment) -> Result<(body::BodySpec, int), ErrorAt> {
    parsed_body(Input { tokens: ts, operators: env.operators@, scopes: seq![Seq::<ImportedFunctionSpec>::empty()] }, 0)
}

/// Parses the tokens that `tokens` has left into a module.
pub fn parse(env: &ParsingEnvironment, tokens: &mut TokenIter) -> (r: Result<Module, ErrorAt>)
    requires
        operators_ok(env.operators@),
    ensures
        final(tokens).code() == old(tokens).code(),
        final(tokens).items() == old(tokens).items(),
        final(tokens).index() == old(tokens).items().len(),
        exists|ts: Seq<Result<Token, ErrorAt>>|
            #[trigger] tokens_delivered(old(tokens).code(), old(tokens).items(), old(tokens).index(), ts)
                && match parsed_template(ts, *env) {
                Ok((b, _)) => r matches Ok(m) && m.body@ == b,
                Err(e) => r matches Err(x) && same_error(x, e),
            },
{
    let mut parser = Context::new(env, tokens);
    let r = Module::parse(&mut parser);
    assert(tokens_delivered(old(tokens).code(), old(tokens).items(), old(tokens).index(), parser.tokens()));
    r
}

/// A template in which no tag starts parses to its text: one text node on
/// the first line, or an empty list when the template is empty.
pub proof fn law_text_template(m: Matchers, s: Seq<char>, ts: Seq<Result<Token, ErrorAt>>, env: ParsingEnvironment)
    requires
        forall|q: int| 0 <= q < s.len() ==> #[trigger] m.tag_start_at(s, q) is None,
        s.len() <= usize::MAX,
        tokens_delivered(s, lex_all(m, s), 0, ts),
    ensures
        parsed_template(ts, env) == Ok::<(body::BodySpec, int), ErrorAt>(
            (
                if s.len() == 0 {
                    body::BodySpec::List { items: Seq::empty() }
                } else {
                    body::BodySpec::Text { value: s, line: 1 }
                },
                ts.len() as int,
            ),
        ),
{
    law_plain_text(m, s);
    let i = Input { tokens: ts, operators: env.operators@, scopes: seq![Seq::<ImportedFunctionSpec>::empty()] };
    if s.len() == 0 {
        assert(ts.len() == 0);
        assert(grammar::parsed_body_items(i, 0, Seq::empty()) == Ok::<(Seq<body::BodySpec>, int), ErrorAt>(
            (Seq::empty(), 0),
        ));
    } else {
        assert(ts.len() == 1);
        assert(delivered(s, Item::Token(Lexeme::Text(0, s.len() as usize), 1), ts[0]));
        let t = ts[0]->Ok_0;
        let x = t.value->Text_0;
        assert(x@ =~= s);
        let one = seq![body::BodySpec::Text { value: s, line: 1 }];
        assert(Seq::<body::BodySpec>::empty().push(body::BodySpec::Text { value: x@, line: t.line_num }) =~= one);
        assert(grammar::parsed_body_items(i, 1, one) == Ok::<(Seq<body::BodySpec>, int), ErrorAt>((one, 1)));
        assert(grammar::parsed_body_items(i, 0, Seq::empty()) == Ok::<(Seq<body::BodySpec>, int), ErrorAt>(
            (one, 1),
        ));
    }
}

} // verus!
