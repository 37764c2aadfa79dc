//! Parsing of expressions, by precedence climbing. Each function follows the
//! rule of the same part of the grammar (see `grammar`).
use vstd::prelude::*;
use crate::chars::str_eq;
use crate::error::{ErrorAt, ErrorMessage};
use crate::nodes::body::arguments_view;
use crate::nodes::Parse;
use crate::nodes::context::{Context, operators_ok, token_at, scopes_find, same_error, lemma_find_operator};
use crate::nodes::expr::{
    Expr, ExprValue, ExprConstant, ExprSpec, expr_view, ExprValueSpec, ConstantSpec, list_view, str_constant,
    lemma_list_view_push, lemma_list_view_len, lemma_pairs_view_push, debug_expr, pairs_view,
};
use crate::nodes::grammar::{
    remaining, is_punct, string_with, number_expr, expr_outcome, list_outcome, named_outcome, concat_fold,
    parsed_expression, parsed_binary_tail, parsed_conditional, parsed_primary_or_unary, parsed_primary,
    parsed_function, parsed_string, parsed_string_parts, parsed_array, parsed_array_items, parsed_hash,
    parsed_hash_key, parsed_hash_items, parsed_postfix, parsed_subscript, parsed_filter,
    parsed_unnamed_arguments, parsed_unnamed_items, parsed_named_arguments, parsed_named_items,
    parsed_argument_name, parsed_argument_value, parsed_branches,
};
use crate::nodes::expr::expr_debug_text;
use crate::operator::{Associativity, OperatorKind};
use crate::tokens::{Token, TokenValue, TwigNumber};

verus! {

/// Whether a token value is the punctuation `c`.
fn punct_is(v: &TokenValue, c: char) -> (b: bool)
    ensures
        b == is_punct(*v, c),
{
    match v {
        TokenValue::Punctuation(x) => *x == c,
        _ => false,
    }
}

impl Parse for Expr {
    type Output = Expr;

    /// Parses a whole expression.
    fn parse(parser: &mut Context) -> (r: Result<Expr, ErrorAt>)
        ensures
            final(parser).input() == old(parser).input(),
            expr_outcome(r, parsed_expression(old(parser).input(), old(parser).pos(), 0), final(parser).pos()),
            r is Ok ==> old(parser).pos() < final(parser).pos() <= final(parser).tokens().len(),
    {
        parse_expression(parser, 0)
    }
}

/// Parses an expression whose operators bind at least as tightly as
/// `min_precedence`; at the top level (0), with conditional parts.
pub fn parse_expression(parser: &mut Context, min_precedence: u16) -> (r: Result<Expr, ErrorAt>)
    requires
        operators_ok(old(parser).input().operators),
    ensures
        final(parser).input() == old(parser).input(),
        expr_outcome(
            r,
            parsed_expression(old(parser).input(), old(parser).pos(), min_precedence as int),
            final(parser).pos(),
        ),
        r is Ok ==> old(parser).pos() < final(parser).pos() <= final(parser).tokens().len(),
    decreases remaining(old(parser).input(), old(parser).pos()), 6int,
{
    let left = get_primary(parser)?;
    let e = parse_binary_tail(parser, left, min_precedence)?;
    if min_precedence == 0 {
        parse_conditional_expression(parser, e)
    } else {
        Ok(e)
    }
}

/// Parses binary operators, and their right operands, after `left`.
fn parse_binary_tail(parser: &mut Context, left: Expr, min_precedence: u16) -> (r: Result<Expr, ErrorAt>)
    requires
        operators_ok(old(parser).input().operators),
    ensures
        final(parser).input() == old(parser).input(),
        expr_outcome(
            r,
            parsed_binary_tail(old(parser).input(), left@, old(parser).pos(), min_precedence as int),
            final(parser).pos(),
        ),
        r is Ok ==> old(parser).pos() <= final(parser).pos() < final(parser).tokens().len(),
    decreases remaining(old(parser).input(), old(parser).pos()), 7int,
{
    let token = parser.current()?;
    let binary = match &token.value {
        TokenValue::Operator(op) => match parser.get_operator_options(op.as_str()) {
            Some(o) => if !matches!(o.kind, OperatorKind::Unary) && o.precedence >= min_precedence {
                Some((op.clone(), o))
            } else {
                None
            },
            None => None,
        },
        _ => None,
    };
    match binary {
        None => Ok(left),
        Some((op, o)) => {
            proof {
                lemma_find_operator(old(parser).input().operators, op@);
            }
            let right_min = match o.kind {
                OperatorKind::Binary(Associativity::Left) => o.precedence + 1,
                _ => o.precedence,
            };
            let _ = parser.next();
            let right = parse_expression(parser, right_min)?;
            let expr = Expr::new_at(
                ExprValue::BinaryOperator { value: op, left: Box::new(left), right: Box::new(right) },
                token.line_num,
            );
            parse_binary_tail(parser, expr, min_precedence)
        },
    }
}

/// Parses a unary operator and its operand, a parenthesized expression, or a
/// primary expression; with postfix parts.
pub fn get_primary(parser: &mut Context) -> (r: Result<Expr, ErrorAt>)
    requires
        operators_ok(old(parser).input().operators),
    ensures
        final(parser).input() == old(parser).input(),
        expr_outcome(r, parsed_primary_or_unary(old(parser).input(), old(parser).pos()), final(parser).pos()),
        r is Ok ==> old(parser).pos() < final(parser).pos() <= final(parser).tokens().len(),
    decreases remaining(old(parser).input(), old(parser).pos()), 5int,
{
    let token = parser.current()?;
    let line = token.line_num;
    let unary = match &token.value {
        TokenValue::Operator(op) => match parser.get_operator_options(op.as_str()) {
            Some(o) => match o.kind {
                OperatorKind::Unary => Some((op.clone(), o)),
                OperatorKind::Binary(_) => None,
            },
            None => None,
        },
        _ => None,
    };
    match unary {
        Some((op, o)) => {
            let _ = parser.next();
            let operand = parse_expression(parser, o.precedence)?;
            let parsed = Expr::new_at(ExprValue::UnaryOperator { value: op, expr: Box::new(operand) }, line);
            parse_postfix_expression(parser, parsed)
        },
        None => {
            if punct_is(&token.value, '(') {
                let _ = parser.next();
                let parsed = parse_expression(parser, 0)?;
                if parser.expect(TokenValue::Punctuation(')')).is_err() {
                    return Err(ErrorAt::new_at(ErrorMessage::ParenthesisNotClosed, line));
                }
                parse_postfix_expression(parser, parsed)
            } else {
                parse_primary_expression(parser)
            }
        },
    }
}

/// Parses a call of the function `name`, whose arguments come next.
pub fn get_function_node(parser: &mut Context, name: &str, line: usize) -> (r: Result<Expr, ErrorAt>)
    requires
        operators_ok(old(parser).input().operators),
    ensures
        final(parser).input() == old(parser).input(),
        expr_outcome(r, parsed_function(old(parser).input(), name@, line, old(parser).pos()), final(parser).pos()),
        r is Ok ==> old(parser).pos() < final(parser).pos() <= final(parser).tokens().len(),
    decreases remaining(old(parser).input(), old(parser).pos()), 3int,
{
    if str_eq(name, "parent") || str_eq(name, "block") || str_eq(name, "attribute") {
        return Err(ErrorAt::new_at(ErrorMessage::NotImplemented("this function"), line));
    }
    match parser.get_imported_function(name) {
        Some(f) => {
            let arguments = parse_unnamed_arguments(parser, false)?;
            Ok(Expr::new_at(ExprValue::ImportedFunctionCall { uuid: f.uuid, alias: f.alias, arguments }, line))
        },
        None => Err(ErrorAt::new_at(ErrorMessage::NotImplemented("calls of functions not imported"), line)),
    }
}

/// Parses a name, a call, a literal, a string, an array or a hash; with
/// postfix parts.
pub fn parse_primary_expression(parser: &mut Context) -> (r: Result<Expr, ErrorAt>)
    requires
        operators_ok(old(parser).input().operators),
    ensures
        final(parser).input() == old(parser).input(),
        expr_outcome(r, parsed_primary(old(parser).input(), old(parser).pos()), final(parser).pos()),
        r is Ok ==> old(parser).pos() < final(parser).pos() <= final(parser).tokens().len(),
    decreases remaining(old(parser).input(), old(parser).pos()), 4int,
{
    let token = parser.current()?;
    let line = token.line_num;
    match token.value {
        TokenValue::Name(name) => {
            let _ = parser.next();
            let n = name.as_str();
            if str_eq(n, "true") || str_eq(n, "TRUE") {
                parse_postfix_expression(parser, Expr::new_bool(true, line))
            } else if str_eq(n, "false") || str_eq(n, "FALSE") {
                parse_postfix_expression(parser, Expr::new_bool(false, line))
            } else if str_eq(n, "none") || str_eq(n, "NONE") || str_eq(n, "null") || str_eq(n, "NULL") {
                parse_postfix_expression(parser, Expr::new_null(line))
            } else {
                let next = parser.current()?;
                if punct_is(&next.value, '(') {
                    let call = get_function_node(parser, n, line)?;
                    parse_postfix_expression(parser, call)
                } else {
                    parse_postfix_expression(parser, Expr::new_name(n, line))
                }
            }
        },
        TokenValue::Number(num) => {
            let _ = parser.next();
            parse_postfix_expression(parser, get_number_expr(num, line))
        },
        TokenValue::String(_) => {
            let s = parse_string_expression(parser)?;
            parse_postfix_expression(parser, s)
        },
        TokenValue::InterpolationStart => {
            let s = parse_string_expression(parser)?;
            parse_postfix_expression(parser, s)
        },
        TokenValue::Punctuation(c) => {
            if c == '[' {
                let a = parse_array_expression(parser)?;
                parse_postfix_expression(parser, a)
            } else if c == '{' {
                let h = parse_hash_expression(parser)?;
                parse_postfix_expression(parser, h)
            } else {
                Err(ErrorAt::new_at(ErrorMessage::UnexpectedTokenValue(TokenValue::Punctuation(c)), line))
            }
        },
        other => Err(ErrorAt::new_at(ErrorMessage::UnexpectedTokenValue(other), line)),
    }
}

/// The expression for a number literal.
pub fn get_number_expr(num: TwigNumber, line: usize) -> (e: Expr)
    ensures
        e@ == number_expr(num, line),
{
    let c = match num {
        TwigNumber::Big(v) => ExprConstant::Big(v),
        TwigNumber::Float(v) => ExprConstant::Float(v),
        TwigNumber::Int(v) => ExprConstant::Int(v),
    };
    Expr::new_at(ExprValue::Constant(c), line)
}

/// Parses a string literal and its interpolations, concatenated.
pub fn parse_string_expression(parser: &mut Context) -> (r: Result<Expr, ErrorAt>)
    requires
        operators_ok(old(parser).input().operators),
        token_at(old(parser).tokens(), old(parser).pos()) matches Ok(t) && (t.value is String
            || t.value is InterpolationStart),
    ensures
        final(parser).input() == old(parser).input(),
        expr_outcome(r, parsed_string(old(parser).input(), old(parser).pos()), final(parser).pos()),
        r is Ok ==> old(parser).pos() < final(parser).pos() <= final(parser).tokens().len(),
    decreases remaining(old(parser).input(), old(parser).pos()), 2int,
{
    let nodes: Vec<Expr> = Vec::new();
    assert(list_view(nodes@) =~= Seq::<ExprSpec>::empty());
    let nodes = parse_string_parts(parser, nodes, true)?;
    Ok(concat_nodes(nodes))
}

/// Parses the parts of a string after `nodes`: literals (one at a time) and
/// interpolations.
fn parse_string_parts(parser: &mut Context, nodes: Vec<Expr>, can_be_string: bool) -> (r: Result<Vec<Expr>, ErrorAt>)
    requires
        operators_ok(old(parser).input().operators),
    ensures
        final(parser).input() == old(parser).input(),
        list_outcome(
            r,
            parsed_string_parts(old(parser).input(), old(parser).pos(), list_view(nodes@), can_be_string),
            final(parser).pos(),
        ),
        r matches Ok(v) ==> v@.len() >= nodes@.len() && old(parser).pos() <= final(parser).pos()
            < final(parser).tokens().len(),
        r matches Ok(v) ==> ((token_at(old(parser).tokens(), old(parser).pos()) matches Ok(t) && ((t.value is String
            && can_be_string) || t.value is InterpolationStart)) ==> v@.len() > nodes@.len() && old(parser).pos()
            < final(parser).pos()),
    decreases remaining(old(parser).input(), old(parser).pos()), 1int,
{
    let token = parser.current()?;
    let line = token.line_num;
    let mut nodes = nodes;
    match token.value {
        TokenValue::String(s) => {
            if !can_be_string {
                return Ok(nodes);
            }
            let _ = parser.next();
            let e = Expr::new_str_constant(s.value.as_str(), line);
            proof {
                lemma_list_view_push(nodes@, e);
            }
            nodes.push(e);
            parse_string_parts(parser, nodes, false)
        },
        TokenValue::InterpolationStart => {
            let _ = parser.next();
            let e = parse_expression(parser, 0)?;
            parser.expect(TokenValue::InterpolationEnd)?;
            proof {
                lemma_list_view_push(nodes@, e);
            }
            nodes.push(e);
            parse_string_parts(parser, nodes, true)
        },
        _ => Ok(nodes),
    }
}

/// The parts of a string joined by concatenation from the left.
fn concat_nodes(nodes: Vec<Expr>) -> (e: Expr)
    requires
        nodes@.len() > 0,
    ensures
        e@ == concat_fold(list_view(nodes@)),
    decreases nodes@.len(),
{
    let ghost all = list_view(nodes@);
    proof {
        lemma_list_view_len(nodes@);
        assert(all.drop_last() =~= list_view(nodes@.drop_last()));
    }
    let ghost orig = nodes@;
    let mut nodes = nodes;
    let last = nodes.pop().unwrap();
    proof {
        assert(nodes@ == orig.drop_last());
        assert(last == orig.last());
        assert(all.last() == expr_view(last));
    }
    if nodes.len() == 0 {
        assert(all.len() == 1);
        assert(all[0] == all.last());
        last
    } else {
        let line = last.line;
        let left = concat_nodes(nodes);
        Expr::new_at(ExprValue::Concat { left: Box::new(left), right: Box::new(last) }, line)
    }
}

/// Parses an array literal.
pub fn parse_array_expression(parser: &mut Context) -> (r: Result<Expr, ErrorAt>)
    requires
        operators_ok(old(parser).input().operators),
    ensures
        final(parser).input() == old(parser).input(),
        expr_outcome(r, parsed_array(old(parser).input(), old(parser).pos()), final(parser).pos()),
        r is Ok ==> old(parser).pos() < final(parser).pos() <= final(parser).tokens().len(),
    decreases remaining(old(parser).input(), old(parser).pos()), 2int,
{
    parser.expect_or_error(TokenValue::Punctuation('['), ErrorMessage::ExpectedArrayElement)?;
    let token = parser.current()?;
    let start_line = token.line_num;
    let items: Vec<Expr> = Vec::new();
    assert(list_view(items@) =~= Seq::<ExprSpec>::empty());
    let items = parse_array_items(parser, items, true)?;
    parser.expect_or_error(TokenValue::Punctuation(']'), ErrorMessage::ArrayNotClosed)?;
    Ok(Expr::new_array(items, start_line))
}

/// Parses the elements of an array after `items`, up to the closing bracket.
fn parse_array_items(parser: &mut Context, items: Vec<Expr>, first: bool) -> (r: Result<Vec<Expr>, ErrorAt>)
    requires
        operators_ok(old(parser).input().operators),
    ensures
        final(parser).input() == old(parser).input(),
        list_outcome(
            r,
            parsed_array_items(old(parser).input(), old(parser).pos(), list_view(items@), first),
            final(parser).pos(),
        ),
        r is Ok ==> old(parser).pos() <= final(parser).pos() < final(parser).tokens().len(),
    decreases remaining(old(parser).input(), old(parser).pos()), 7int,
{
    let token = parser.current()?;
    if punct_is(&token.value, ']') {
        return Ok(items);
    }
    if !first {
        parser.expect_or_error(TokenValue::Punctuation(','), ErrorMessage::ArrayValueMustBeFollowedByComma)?;
        let next = parser.current()?;
        if punct_is(&next.value, ']') {
            return Ok(items);
        }
    }
    let e = parse_expression(parser, 0)?;
    let mut items = items;
    proof {
        lemma_list_view_push(items@, e);
    }
    items.push(e);
    parse_array_items(parser, items, false)
}

/// Parses a hash key: a string, a name, a number, or an expression in
/// parentheses.
fn parse_hash_key(parser: &mut Context) -> (r: Result<Expr, ErrorAt>)
    requires
        operators_ok(old(parser).input().operators),
    ensures
        final(parser).input() == old(parser).input(),
        expr_outcome(r, parsed_hash_key(old(parser).input(), old(parser).pos()), final(parser).pos()),
        r is Ok ==> old(parser).pos() < final(parser).pos() <= final(parser).tokens().len(),
    decreases remaining(old(parser).input(), old(parser).pos()), 7int,
{
    let token = parser.current()?;
    let line = token.line_num;
    match token.value {
        TokenValue::String(s) => {
            let _ = parser.next();
            Ok(Expr::new_str_constant(s.value.as_str(), line))
        },
        TokenValue::Name(n) => {
            let _ = parser.next();
            Ok(Expr::new_str_constant(n.as_str(), line))
        },
        TokenValue::Number(num) => {
            let _ = parser.next();
            Ok(get_number_expr(num, line))
        },
        TokenValue::Punctuation(c) => {
            if c == '(' {
                parse_expression(parser, 0)
            } else {
                Err(ErrorAt::new_at(ErrorMessage::InvalidHashKey { unexpected: TokenValue::Punctuation(c) }, line))
            }
        },
        other => Err(ErrorAt::new_at(ErrorMessage::InvalidHashKey { unexpected: other }, line)),
    }
}

/// Parses a hash literal.
pub fn parse_hash_expression(parser: &mut Context) -> (r: Result<Expr, ErrorAt>)
    requires
        operators_ok(old(parser).input().operators),
    ensures
        final(parser).input() == old(parser).input(),
        expr_outcome(r, parsed_hash(old(parser).input(), old(parser).pos()), final(parser).pos()),
        r is Ok ==> old(parser).pos() < final(parser).pos() <= final(parser).tokens().len(),
    decreases remaining(old(parser).input(), old(parser).pos()), 2int,
{
    parser.expect_or_error(TokenValue::Punctuation('{'), ErrorMessage::ExpectedHashElement)?;
    let token = parser.current()?;
    let start_line = token.line_num;
    let items: Vec<(Expr, Expr)> = Vec::new();
    assert(pairs_view(items@) =~= Seq::<(ExprSpec, ExprSpec)>::empty());
    let items = parse_hash_items(parser, items, true)?;
    parser.expect_or_error(TokenValue::Punctuation('}'), ErrorMessage::HashNotClosed)?;
    Ok(Expr::new_hash(items, start_line))
}

/// Parses the entries of a hash after `items`, up to the closing brace.
fn parse_hash_items(parser: &mut Context, items: Vec<(Expr, Expr)>, first: bool) -> (r: Result<Vec<(Expr, Expr)>, ErrorAt>)
    requires
        operators_ok(old(parser).input().operators),
    ensures
        final(parser).input() == old(parser).input(),
        match parsed_hash_items(old(parser).input(), old(parser).pos(), pairs_view(items@), first) {
            Ok((v, q)) => r matches Ok(x) && pairs_view(x@) == v && final(parser).pos() == q,
            Err(e) => r matches Err(x) && same_error(x, e),
        },
        r is Ok ==> old(parser).pos() <= final(parser).pos() < final(parser).tokens().len(),
    decreases remaining(old(parser).input(), old(parser).pos()), 8int,
{
    let token = parser.current()?;
    if punct_is(&token.value, '}') {
        return Ok(items);
    }
    if !first {
        parser.expect_or_error(TokenValue::Punctuation(','), ErrorMessage::HashValueMustBeFollowedByComma)?;
        let next = parser.current()?;
        if punct_is(&next.value, '}') {
            return Ok(items);
        }
    }
    let key = parse_hash_key(parser)?;
    parser.expect_or_error(TokenValue::Punctuation(':'), ErrorMessage::HashKeyMustBeFollowedByColon)?;
    let value = parse_expression(parser, 0)?;
    let mut items = items;
    proof {
        lemma_pairs_view_push(items@, (key, value));
    }
    items.push((key, value));
    parse_hash_items(parser, items, false)
}

/// Parses attribute accesses and filters after `node`.
pub fn parse_postfix_expression(parser: &mut Context, node: Expr) -> (r: Result<Expr, ErrorAt>)
    requires
        operators_ok(old(parser).input().operators),
    ensures
        final(parser).input() == old(parser).input(),
        expr_outcome(r, parsed_postfix(old(parser).input(), node@, old(parser).pos()), final(parser).pos()),
        r is Ok ==> old(parser).pos() <= final(parser).pos() < final(parser).tokens().len(),
    decreases remaining(old(parser).input(), old(parser).pos()), 2int,
{
    let token = parser.current()?;
    if punct_is(&token.value, '.') || punct_is(&token.value, '[') {
        let node = parse_subscript_expression(parser, node)?;
        parse_postfix_expression(parser, node)
    } else if punct_is(&token.value, '|') {
        let node = parse_filter_expression(parser, node)?;
        parse_postfix_expression(parser, node)
    } else {
        Ok(node)
    }
}

/// Parses an attribute access (`.name`, `.name(args)`, `[key]`) after
/// `node`; attribute access is not supported yet.
pub fn parse_subscript_expression(parser: &mut Context, node: Expr) -> (r: Result<Expr, ErrorAt>)
    requires
        operators_ok(old(parser).input().operators),
    ensures
        final(parser).input() == old(parser).input(),
        expr_outcome(r, parsed_subscript(old(parser).input(), node@, old(parser).pos()), final(parser).pos()),
        r is Ok ==> old(parser).pos() < final(parser).pos() <= final(parser).tokens().len(),
    decreases remaining(old(parser).input(), old(parser).pos()), 1int,
{
    let token = parser.next()?;
    let line = token.line_num;
    if punct_is(&token.value, '.') {
        let arg = parser.next()?;
        match arg.value {
            TokenValue::Name(_) => {},
            TokenValue::Number(_) => {},
            _ => {
                return Err(ErrorAt::new_at(ErrorMessage::ExpectedNameOrNumber, line));
            },
        }
        let next = parser.current()?;
        if punct_is(&next.value, '(') {
            let _arguments = parse_unnamed_arguments(parser, false)?;
        }
        Err(ErrorAt::new_at(ErrorMessage::NotImplemented("attribute access"), line))
    } else {
        Err(ErrorAt::new_at(ErrorMessage::NotImplemented("array access"), line))
    }
}

/// Parses a filter after `expr`; filters are not supported yet.
pub fn parse_filter_expression(parser: &mut Context, expr: Expr) -> (r: Result<Expr, ErrorAt>)
    ensures
        final(parser).input() == old(parser).input(),
        final(parser).pos() == old(parser).pos(),
        expr_outcome(r, parsed_filter(old(parser).input(), expr@, old(parser).pos()), final(parser).pos()),
{
    let token = parser.current()?;
    Err(ErrorAt::new_at(ErrorMessage::NotImplemented("filters"), token.line_num))
}

/// Parses a parenthesized list of arguments.
pub fn parse_unnamed_arguments(parser: &mut Context, definition: bool) -> (r: Result<Vec<Expr>, ErrorAt>)
    requires
        operators_ok(old(parser).input().operators),
    ensures
        final(parser).input() == old(parser).input(),
        list_outcome(
            r,
            parsed_unnamed_arguments(old(parser).input(), old(parser).pos(), definition),
            final(parser).pos(),
        ),
        r is Ok ==> old(parser).pos() < final(parser).pos() <= final(parser).tokens().len(),
    decreases remaining(old(parser).input(), old(parser).pos()), 2int,
{
    parser.expect_or_error(TokenValue::Punctuation('('), ErrorMessage::ListOfArgumentsMustBeginWithParenthesis)?;
    let args: Vec<Expr> = Vec::new();
    assert(list_view(args@) =~= Seq::<ExprSpec>::empty());
    parse_unnamed_items(parser, args, definition)
}

/// Parses the arguments after `args`, up to and with the closing
/// parenthesis.
fn parse_unnamed_items(parser: &mut Context, args: Vec<Expr>, definition: bool) -> (r: Result<Vec<Expr>, ErrorAt>)
    requires
        operators_ok(old(parser).input().operators),
    ensures
        final(parser).input() == old(parser).input(),
        list_outcome(
            r,
            parsed_unnamed_items(old(parser).input(), old(parser).pos(), list_view(args@), definition),
            final(parser).pos(),
        ),
        r is Ok ==> old(parser).pos() < final(parser).pos() <= final(parser).tokens().len(),
    decreases remaining(old(parser).input(), old(parser).pos()), 7int,
{
    let token = parser.current()?;
    if punct_is(&token.value, ')') {
        parser.expect_or_error(TokenValue::Punctuation(')'), ErrorMessage::ListOfArgumentsMustCloseWithParenthesis)?;
        return Ok(args);
    }
    proof {
        lemma_list_view_len(args@);
    }
    if args.len() > 0 {
        parser.expect_or_error(TokenValue::Punctuation(','), ErrorMessage::ArgumentsMustBeSeparatedByComma)?;
    }
    if definition {
        return Err(ErrorAt::new_at(ErrorMessage::NotImplemented("argument definitions"), token.line_num));
    }
    let value = parse_expression(parser, 0)?;
    let mut args = args;
    proof {
        lemma_list_view_push(args@, value);
    }
    args.push(value);
    parse_unnamed_items(parser, args, definition)
}

/// Parses a parenthesized list of named arguments `name = value`; in a
/// definition, the values are constant defaults.
pub fn parse_named_arguments(parser: &mut Context, definition: bool) -> (r: Result<Vec<(String, Expr)>, ErrorAt>)
    requires
        operators_ok(old(parser).input().operators),
    ensures
        final(parser).input() == old(parser).input(),
        named_outcome(
            r,
            parsed_named_arguments(old(parser).input(), old(parser).pos(), definition),
            final(parser).pos(),
        ),
        r is Ok ==> old(parser).pos() < final(parser).pos() <= final(parser).tokens().len(),
    decreases remaining(old(parser).input(), old(parser).pos()), 2int,
{
    parser.expect_or_error(TokenValue::Punctuation('('), ErrorMessage::ListOfArgumentsMustBeginWithParenthesis)?;
    let args: Vec<(String, Expr)> = Vec::new();
    assert(arguments_view(args@) =~= Seq::<(Seq<char>, ExprSpec)>::empty());
    parse_named_items(parser, args, definition)
}

/// Parses the name part of a named argument: in a definition a name, else an
/// expression; with the token after it.
fn parse_argument_name(parser: &mut Context, definition: bool) -> (r: Result<(Expr, Token), ErrorAt>)
    requires
        operators_ok(old(parser).input().operators),
    ensures
        final(parser).input() == old(parser).input(),
        match parsed_argument_name(old(parser).input(), old(parser).pos(), definition) {
            Ok((e, t, q)) => r matches Ok(x) && x.0@ == e && x.1 == t && final(parser).pos() == q,
            Err(e) => r matches Err(x) && same_error(x, e),
        },
        r is Ok ==> old(parser).pos() < final(parser).pos() < final(parser).tokens().len(),
    decreases remaining(old(parser).input(), old(parser).pos()), 7int,
{
    if definition {
        let name = parser.expect_name()?;
        let next = parser.current()?;
        Ok((Expr::new_name(name.as_str(), next.line_num), next))
    } else {
        let e = parse_expression(parser, 0)?;
        let next = parser.current()?;
        Ok((e, next))
    }
}

/// Parses the value of a named argument: in a definition a constant primary
/// expression, else an expression.
fn parse_argument_value(parser: &mut Context, definition: bool) -> (r: Result<Expr, ErrorAt>)
    requires
        operators_ok(old(parser).input().operators),
    ensures
        final(parser).input() == old(parser).input(),
        expr_outcome(r, parsed_argument_value(old(parser).input(), old(parser).pos(), definition), final(parser).pos()),
        r is Ok ==> old(parser).pos() < final(parser).pos() <= final(parser).tokens().len(),
    decreases remaining(old(parser).input(), old(parser).pos()), 7int,
{
    if definition {
        let v = parse_primary_expression(parser)?;
        if !v.is_constant() {
            let next = parser.current()?;
            return Err(ErrorAt::new_at(ErrorMessage::DefaultValueForArgumentMustBeConstant, next.line_num));
        }
        Ok(v)
    } else {
        parse_expression(parser, 0)
    }
}

/// Parses the named arguments after `args`, up to and with the closing
/// parenthesis.
fn parse_named_items(parser: &mut Context, args: Vec<(String, Expr)>, definition: bool) -> (r: Result<Vec<(String, Expr)>, ErrorAt>)
    requires
        operators_ok(old(parser).input().operators),
    ensures
        final(parser).input() == old(parser).input(),
        named_outcome(
            r,
            parsed_named_items(old(parser).input(), old(parser).pos(), arguments_view(args@), definition),
            final(parser).pos(),
        ),
        r is Ok ==> old(parser).pos() < final(parser).pos() <= final(parser).tokens().len(),
    decreases remaining(old(parser).input(), old(parser).pos()), 8int,
{
    let token = parser.current()?;
    if punct_is(&token.value, ')') {
        parser.expect_or_error(TokenValue::Punctuation(')'), ErrorMessage::ListOfArgumentsMustCloseWithParenthesis)?;
        return Ok(args);
    }
    if args.len() > 0 {
        parser.expect_or_error(TokenValue::Punctuation(','), ErrorMessage::ArgumentsMustBeSeparatedByComma)?;
    }
    let (name_expr, name_token) = parse_argument_name(parser, definition)?;
    let eq = String::from_str("=");
    proof {
        assert(string_with("="@)@ == "="@);
    }
    parser.expect(TokenValue::Operator(eq))?;
    let name = match &name_expr.value {
        ExprValue::Name(n) => n.clone(),
        _ => {
            let given = debug_expr(&name_expr);
            proof {
                assert(string_with(expr_debug_text(name_expr@))@ == expr_debug_text(name_expr@));
            }
            return Err(ErrorAt::new_at(ErrorMessage::ParameterNameMustBeAString { given }, name_token.line_num));
        },
    };
    let value = parse_argument_value(parser, definition)?;
    let mut args = args;
    proof {
        assert(arguments_view(args@.push((name, value))) =~= arguments_view(args@).push((name@, value@)));
    }
    args.push((name, value));
    parse_named_items(parser, args, definition)
}

/// Parses conditional parts (`? a : b`, `? a`, `?: b`) after `expr`.
pub fn parse_conditional_expression(parser: &mut Context, expr: Expr) -> (r: Result<Expr, ErrorAt>)
    requires
        operators_ok(old(parser).input().operators),
    ensures
        final(parser).input() == old(parser).input(),
        expr_outcome(r, parsed_conditional(old(parser).input(), expr@, old(parser).pos()), final(parser).pos()),
        r is Ok ==> old(parser).pos() <= final(parser).pos(),
        r is Ok && old(parser).pos() <= old(parser).tokens().len() ==> final(parser).pos() <= final(parser).tokens().len(),
    decreases remaining(old(parser).input(), old(parser).pos()), 8int,
{
    let ghost i0 = parser.input();
    let ghost p0 = parser.pos();
    let ghost e0 = expr@;
    let question = parser.skip_to_next_if(TokenValue::Punctuation('?'))?;
    if !question {
        return Ok(expr);
    }
    let elvis = parser.skip_to_next_if(TokenValue::Punctuation(':'))?;
    let (yay, nay) = if !elvis {
        let yay = match parse_expression(parser, 0) {
            Ok(e) => e,
            Err(x) => {
                proof {
                    assert(parsed_branches(i0, e0, p0) matches Err(y) && same_error(x, y));
                }
                return Err(x);
            },
        };
        let colon = parser.skip_to_next_if(TokenValue::Punctuation(':'))?;
        if colon {
            let nay = parse_expression(parser, 0)?;
            assert(parsed_branches(i0, e0, p0) == Ok::<(ExprSpec, ExprSpec, int), ErrorAt>((yay@, nay@, parser.pos())));
            (yay, nay)
        } else {
            let t = parser.current()?;
            proof {
                reveal_strlit("");
                assert(""@ =~= Seq::<char>::empty());
            }
            let empty = Expr::new_str_constant("", t.line_num);
            assert(parsed_branches(i0, e0, p0) == Ok::<(ExprSpec, ExprSpec, int), ErrorAt>((yay@, empty@, parser.pos())));
            (yay, empty)
        }
    } else {
        let nay = match parse_expression(parser, 0) {
            Ok(e) => e,
            Err(x) => {
                proof {
                    assert(parsed_branches(i0, e0, p0) matches Err(y) && same_error(x, y));
                }
                return Err(x);
            },
        };
        let yay = expr.duplicate();
        assert(parsed_branches(i0, e0, p0) == Ok::<(ExprSpec, ExprSpec, int), ErrorAt>((yay@, nay@, parser.pos())));
        (yay, nay)
    };
    assert(parsed_branches(i0, e0, p0) == Ok::<(ExprSpec, ExprSpec, int), ErrorAt>((yay@, nay@, parser.pos())));
    let t = parser.current()?;
    let conditional = Expr::new_at(
        ExprValue::Conditional { expr: Box::new(expr), yay: Box::new(yay), nay: Box::new(nay) },
        t.line_num,
    );
    parse_conditional_expression(parser, conditional)
}

} // verus!
