//! The root node of a template, and parsing of template bodies.
use vstd::prelude::*;
use crate::error::{ErrorAt, ErrorMessage};
use crate::nodes::body::{Body, BodySpec, bodies_view, body_view, lemma_bodies_view_push, lemma_bodies_view_index};
use crate::nodes::Parse;
use crate::nodes::context::{Context, operators_ok, same_error};
use crate::nodes::expr::Expr;
use crate::nodes::grammar::{remaining, parsed_body_items, parsed_body};
use crate::tokens::TokenValue;

verus! {

/// A parsed template.
#[derive(Debug)]
pub struct Module {
    pub body: Body,
}

/// The outcome of parsing a body agrees with the rule.
pub open spec fn body_outcome(r: Result<Body, ErrorAt>, s: Result<(BodySpec, int), ErrorAt>, pos: int) -> bool {
    match s {
        Ok((b, q)) => r matches Ok(x) && x@ == b && pos == q,
        Err(e) => r matches Err(x) && same_error(x, e),
    }
}

impl Module {
    /// A module with an empty body.
    pub fn new() -> (m: Module)
        ensures
            m.body@ == (BodySpec::List { items: seq![] }),
    {
        Module { body: Body::new() }
    }

}

impl Parse for Module {
    type Output = Module;

    /// Parses a whole template.
    fn parse(parser: &mut Context) -> (r: Result<Module, ErrorAt>)
        ensures
            final(parser).input() == old(parser).input(),
            match parsed_body(old(parser).input(), old(parser).pos()) {
                Ok((b, q)) => r matches Ok(m) && m.body@ == b && final(parser).pos() == q,
                Err(e) => r matches Err(x) && same_error(x, e),
            },
    {
        let mut module = Module::new();
        let body = Body::parse(parser)?;
        module.body = body;
        Ok(module)
    }
}

/// Parses the parts of a template after `items`, up to the end of the stream.
fn parse_body_items(parser: &mut Context, items: Vec<Body>) -> (r: Result<Vec<Body>, ErrorAt>)
    requires
        operators_ok(old(parser).input().operators),
    ensures
        final(parser).input() == old(parser).input(),
        match parsed_body_items(old(parser).input(), old(parser).pos(), bodies_view(items@)) {
            Ok((v, q)) => r matches Ok(x) && bodies_view(x@) == v && final(parser).pos() == q,
            Err(e) => r matches Err(x) && same_error(x, e),
        },
    decreases remaining(old(parser).input(), old(parser).pos()),
{
    let mut items = items;
    match parser.maybe_current()? {
        None => Ok(items),
        Some(token) => {
            let line = token.line_num;
            match token.value {
                TokenValue::Text(t) => {
                    let _ = parser.next();
                    let b = Body::Text { value: t, line };
                    proof {
                        lemma_bodies_view_push(items@, b);
                    }
                    items.push(b);
                    parse_body_items(parser, items)
                },
                TokenValue::VarStart => {
                    let _ = parser.next();
                    let expr = Expr::parse(parser)?;
                    parser.expect(TokenValue::VarEnd)?;
                    let b = Body::Print { expr: Box::new(expr), line };
                    proof {
                        lemma_bodies_view_push(items@, b);
                    }
                    items.push(b);
                    parse_body_items(parser, items)
                },
                _ => Err(ErrorAt::new_at(ErrorMessage::NotImplemented("block tags"), line)),
            }
        },
    }
}

impl Parse for Body {
    type Output = Body;

    /// Parses the body of a template: texts and printed expressions.
    fn parse(parser: &mut Context) -> (r: Result<Body, ErrorAt>)
        ensures
            final(parser).input() == old(parser).input(),
            body_outcome(r, parsed_body(old(parser).input(), old(parser).pos()), final(parser).pos()),
    {
        let items: Vec<Body> = Vec::new();
        assert(bodies_view(items@) =~= Seq::<BodySpec>::empty());
        let mut items = parse_body_items(parser, items)?;
        proof {
            crate::nodes::body::lemma_bodies_view_len(items@);
        }
        if items.len() == 1 {
            proof {
                lemma_bodies_view_index(items@, 0);
            }
            Ok(items.remove(0))
        } else {
            Ok(Body::List { items })
        }
    }
}

} // verus!
