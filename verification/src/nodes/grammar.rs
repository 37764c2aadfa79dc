//! The expression grammar: what parsing gives from each position of a token
//! stream. Each rule gives the value parsed and the position after it, or
//! the error that stops it.
//!
//! A rule that calls another rule at a position it has not moved past, or
//! goes on from a position that a called rule did not move past, would not
//! terminate; those cases never arise (the parsing functions prove it) and
//! are given the end-of-template error.
use vstd::prelude::*;
use crate::error::{ErrorAt, ErrorMessage};
use crate::nodes::body::{arguments_view, BodySpec};
use crate::nodes::context::{
    Input, same_error, token_at, token_is, expected_token, expected_or, expected_name, error_at, eof_error,
    find_operator, scopes_find, skip_test,
};
use crate::nodes::expr::{Expr, list_view, ConstantSpec, ExprSpec, ExprValueSpec, str_constant, is_constant_spec, expr_debug_text};
use crate::operator::{Associativity, OperatorKind, OperatorOptions};
use crate::tokens::{Token, TokenValue, TwigNumber};

verus! {

/// A value parsed and the position after it, or an error.
pub type Parsed<T> = Result<(T, int), ErrorAt>;

/// A parsing function's result and final position agree with a rule's:
/// the same value and position, or an error reported alike.
pub open spec fn expr_outcome(r: Result<Expr, ErrorAt>, s: Parsed<ExprSpec>, pos: int) -> bool {
    match s {
        Ok((e, q)) => r matches Ok(x) && x@ == e && pos == q,
        Err(e) => r matches Err(x) && same_error(x, e),
    }
}

/// As `expr_outcome`, for lists of expressions.
pub open spec fn list_outcome(r: Result<Vec<Expr>, ErrorAt>, s: Parsed<Seq<ExprSpec>>, pos: int) -> bool {
    match s {
        Ok((e, q)) => r matches Ok(x) && list_view(x@) == e && pos == q,
        Err(e) => r matches Err(x) && same_error(x, e),
    }
}

/// As `expr_outcome`, for lists of named expressions.
pub open spec fn named_outcome(r: Result<Vec<(String, Expr)>, ErrorAt>, s: Parsed<Seq<(Seq<char>, ExprSpec)>>, pos: int) -> bool {
    match s {
        Ok((e, q)) => r matches Ok(x) && arguments_view(x@) == e && pos == q,
        Err(e) => r matches Err(x) && same_error(x, e),
    }
}

/// How many tokens are left from position `p`.
pub open spec fn remaining(i: Input, p: int) -> nat {
    if p < i.tokens.len() {
        (i.tokens.len() - p) as nat
    } else {
        0
    }
}

/// The value is the punctuation `c`.
pub open spec fn is_punct(v: TokenValue, c: char) -> bool {
    v matches TokenValue::Punctuation(x) && x == c
}

/// A string with the characters `v`.
pub open spec fn string_with(v: Seq<char>) -> String {
    choose|s: String| s@ == v
}

/// The value of a number literal.
pub open spec fn number_expr(num: TwigNumber, line: usize) -> ExprSpec {
    ExprSpec {
        line,
        value: ExprValueSpec::Constant(
            match num {
                TwigNumber::Big(s) => ConstantSpec::Big(s@),
                TwigNumber::Float(s) => ConstantSpec::Float(s@),
                TwigNumber::Int(v) => ConstantSpec::Int(v),
            },
        ),
    }
}

/// A literal at a line.
pub open spec fn constant_expr(c: ConstantSpec, line: usize) -> ExprSpec {
    ExprSpec { line, value: ExprValueSpec::Constant(c) }
}

/// The unary operator held by a token.
pub open spec fn unary_of(i: Input, t: Token) -> Option<(Seq<char>, OperatorOptions)> {
    match t.value {
        TokenValue::Operator(op) => match find_operator(i.operators, op@) {
            Some(o) => if o.kind is Unary {
                Some((op@, o))
            } else {
                None
            },
            None => None,
        },
        _ => None,
    }
}

/// The binary operator held by a token, if it binds at least as tightly as
/// `min`.
pub open spec fn binary_of(i: Input, t: Token, min: int) -> Option<(Seq<char>, OperatorOptions)> {
    match t.value {
        TokenValue::Operator(op) => match find_operator(i.operators, op@) {
            Some(o) => if o.kind is Binary && o.precedence >= min {
                Some((op@, o))
            } else {
                None
            },
            None => None,
        },
        _ => None,
    }
}

/// The least precedence of the right operand of a binary operator.
pub open spec fn right_min(o: OperatorOptions) -> int {
    match o.kind {
        OperatorKind::Binary(Associativity::Left) => o.precedence + 1,
        _ => o.precedence as int,
    }
}

/// An expression whose operators bind at least as tightly as `min`; at the
/// top level (`min` 0), followed by conditional parts.
pub open spec fn parsed_expression(i: Input, p: int, min: int) -> Parsed<ExprSpec>
    decreases remaining(i, p), 6int,
{
    match parsed_primary_or_unary(i, p) {
        Err(x) => Err(x),
        Ok((left, p1)) => if p1 <= p || p1 > i.tokens.len() {
            Err(eof_error())
        } else {
            match parsed_binary_tail(i, left, p1, min) {
                Err(x) => Err(x),
                Ok((e, p2)) => if p2 <= p || p2 > i.tokens.len() {
                    Err(eof_error())
                } else if min == 0 {
                    parsed_conditional(i, e, p2)
                } else {
                    Ok((e, p2))
                },
            }
        },
    }
}

/// Binary operators and their right operands after `left`.
pub open spec fn parsed_binary_tail(i: Input, left: ExprSpec, p: int, min: int) -> Parsed<ExprSpec>
    decreases remaining(i, p), 7int,
{
    match token_at(i.tokens, p) {
        Err(x) => Err(x),
        Ok(t) => match binary_of(i, t, min) {
            None => Ok((left, p)),
            Some((op, o)) => match parsed_expression(i, p + 1, right_min(o)) {
                Err(x) => Err(x),
                Ok((right, q)) => if q <= p {
                    Err(eof_error())
                } else {
                    parsed_binary_tail(
                        i,
                        ExprSpec {
                            line: t.line_num,
                            value: ExprValueSpec::BinaryOperator {
                                value: op,
                                left: Box::new(left),
                                right: Box::new(right),
                            },
                        },
                        q,
                        min,
                    )
                },
            },
        },
    }
}

/// The branches of one conditional part, `? a : b`, `? a` or `?: b`, after
/// the `?` at `p`.
pub open spec fn parsed_branches(i: Input, e: ExprSpec, p: int) -> Result<(ExprSpec, ExprSpec, int), ErrorAt>
    decreases remaining(i, p), 7int,
{
    let q = p + 1;
    if !token_is(i.tokens, p, TokenValue::Punctuation('?')) {
        Err(eof_error())
    } else {
        match skip_test(i.tokens, q, TokenValue::Punctuation(':')) {
            Err(x) => Err(x),
            Ok(false) => match parsed_expression(i, q, 0) {
                Err(x) => Err(x),
                Ok((yay, q2)) => if q2 <= p {
                    Err(eof_error())
                } else {
                    match skip_test(i.tokens, q2, TokenValue::Punctuation(':')) {
                        Err(x) => Err(x),
                        Ok(true) => match parsed_expression(i, q2 + 1, 0) {
                            Err(x) => Err(x),
                            Ok((nay, q3)) => Ok((yay, nay, q3)),
                        },
                        Ok(false) => match token_at(i.tokens, q2) {
                            Err(x) => Err(x),
                            Ok(t) => Ok((yay, str_constant(Seq::empty(), t.line_num), q2)),
                        },
                    }
                },
            },
            Ok(true) => match parsed_expression(i, q + 1, 0) {
                Err(x) => Err(x),
                Ok((nay, q3)) => Ok((e, nay, q3)),
            },
        }
    }
}

/// Conditional parts after `e`.
pub open spec fn parsed_conditional(i: Input, e: ExprSpec, p: int) -> Parsed<ExprSpec>
    decreases remaining(i, p), 8int,
{
    if !(0 <= p < i.tokens.len()) {
        Err(eof_error())
    } else if !token_is(i.tokens, p, TokenValue::Punctuation('?')) {
        Ok((e, p))
    } else {
        match parsed_branches(i, e, p) {
            Err(x) => Err(x),
            Ok((yay, nay, q)) => if q <= p {
                Err(eof_error())
            } else {
                match token_at(i.tokens, q) {
                    Err(x) => Err(x),
                    Ok(t) => parsed_conditional(
                        i,
                        ExprSpec {
                            line: t.line_num,
                            value: ExprValueSpec::Conditional {
                                expr: Box::new(e),
                                yay: Box::new(yay),
                                nay: Box::new(nay),
                            },
                        },
                        q,
                    ),
                }
            },
        }
    }
}

/// A unary operator and its operand, a parenthesized expression, or a
/// primary expression; with postfix parts.
pub open spec fn parsed_primary_or_unary(i: Input, p: int) -> Parsed<ExprSpec>
    decreases remaining(i, p), 5int,
{
    match token_at(i.tokens, p) {
        Err(x) => Err(x),
        Ok(t) => match unary_of(i, t) {
            Some((op, o)) => match parsed_expression(i, p + 1, o.precedence as int) {
                Err(x) => Err(x),
                Ok((e, q)) => if q <= p {
                    Err(eof_error())
                } else {
                    parsed_postfix(
                        i,
                        ExprSpec {
                            line: t.line_num,
                            value: ExprValueSpec::UnaryOperator { value: op, expr: Box::new(e) },
                        },
                        q,
                    )
                },
            },
            None => if is_punct(t.value, '(') {
                match parsed_expression(i, p + 1, 0) {
                    Err(x) => Err(x),
                    Ok((e, q)) => if q <= p {
                        Err(eof_error())
                    } else if token_is(i.tokens, q, TokenValue::Punctuation(')')) {
                        parsed_postfix(i, e, q + 1)
                    } else {
                        Err(error_at(ErrorMessage::ParenthesisNotClosed, t.line_num))
                    },
                }
            } else {
                parsed_primary(i, p)
            },
        },
    }
}

/// A name, a call, a literal, a string, an array or a hash; with postfix
/// parts.
pub open spec fn parsed_primary(i: Input, p: int) -> Parsed<ExprSpec>
    decreases remaining(i, p), 4int,
{
    match token_at(i.tokens, p) {
        Err(x) => Err(x),
        Ok(t) => match t.value {
            TokenValue::Name(n) => {
                let name = n@;
                if name == "true"@ || name == "TRUE"@ {
                    parsed_postfix(i, constant_expr(ConstantSpec::Bool(true), t.line_num), p + 1)
                } else if name == "false"@ || name == "FALSE"@ {
                    parsed_postfix(i, constant_expr(ConstantSpec::Bool(false), t.line_num), p + 1)
                } else if name == "none"@ || name == "NONE"@ || name == "null"@ || name == "NULL"@ {
                    parsed_postfix(i, constant_expr(ConstantSpec::Null, t.line_num), p + 1)
                } else {
                    match token_at(i.tokens, p + 1) {
                        Err(x) => Err(x),
                        Ok(t2) => if is_punct(t2.value, '(') {
                            match parsed_function(i, name, t.line_num, p + 1) {
                                Err(x) => Err(x),
                                Ok((e, q)) => if q <= p {
                                    Err(eof_error())
                                } else {
                                    parsed_postfix(i, e, q)
                                },
                            }
                        } else {
                            parsed_postfix(
                                i,
                                ExprSpec { line: t.line_num, value: ExprValueSpec::Name(name) },
                                p + 1,
                            )
                        },
                    }
                }
            },
            TokenValue::Number(num) => parsed_postfix(i, number_expr(num, t.line_num), p + 1),
            TokenValue::String(_) => parsed_string_then_postfix(i, p),
            TokenValue::InterpolationStart => parsed_string_then_postfix(i, p),
            TokenValue::Punctuation(c) => if c == '[' {
                match parsed_array(i, p) {
                    Err(x) => Err(x),
                    Ok((e, q)) => if q <= p {
                        Err(eof_error())
                    } else {
                        parsed_postfix(i, e, q)
                    },
                }
            } else if c == '{' {
                match parsed_hash(i, p) {
                    Err(x) => Err(x),
                    Ok((e, q)) => if q <= p {
                        Err(eof_error())
                    } else {
                        parsed_postfix(i, e, q)
                    },
                }
            } else {
                Err(error_at(ErrorMessage::UnexpectedTokenValue(t.value), t.line_num))
            },
            _ => Err(error_at(ErrorMessage::UnexpectedTokenValue(t.value), t.line_num)),
        },
    }
}

/// A string with interpolations, with postfix parts.
pub open spec fn parsed_string_then_postfix(i: Input, p: int) -> Parsed<ExprSpec>
    decreases remaining(i, p), 3int,
{
    match parsed_string(i, p) {
        Err(x) => Err(x),
        Ok((e, q)) => if q <= p {
            Err(eof_error())
        } else {
            parsed_postfix(i, e, q)
        },
    }
}

/// A call of the function `name`, whose arguments start at `p`: a call of
/// an imported function.
pub open spec fn parsed_function(i: Input, name: Seq<char>, line: usize, p: int) -> Parsed<ExprSpec>
    decreases remaining(i, p), 3int,
{
    if name == "parent"@ || name == "block"@ || name == "attribute"@ {
        Err(error_at(ErrorMessage::NotImplemented("this function"), line))
    } else {
        match scopes_find(i.scopes, name) {
            Some(f) => match parsed_unnamed_arguments(i, p, false) {
                Err(x) => Err(x),
                Ok((args, q)) => Ok(
                    (
                        ExprSpec {
                            line,
                            value: ExprValueSpec::ImportedFunctionCall {
                                uuid: f.uuid,
                                alias: f.alias,
                                arguments: args,
                            },
                        },
                        q,
                    ),
                ),
            },
            None => Err(error_at(ErrorMessage::NotImplemented("calls of functions not imported"), line)),
        }
    }
}

/// The parts of a string, each a literal or an interpolated expression,
/// joined by concatenation from the left.
pub open spec fn concat_fold(nodes: Seq<ExprSpec>) -> ExprSpec
    decreases nodes.len(),
{
    if nodes.len() <= 1 {
        nodes[0]
    } else {
        let last = nodes.last();
        ExprSpec {
            line: last.line,
            value: ExprValueSpec::Concat {
                left: Box::new(concat_fold(nodes.drop_last())),
                right: Box::new(last),
            },
        }
    }
}

/// A string literal and interpolations.
pub open spec fn parsed_string(i: Input, p: int) -> Parsed<ExprSpec>
    decreases remaining(i, p), 2int,
{
    match parsed_string_parts(i, p, Seq::empty(), true) {
        Err(x) => Err(x),
        Ok((nodes, q)) => if nodes.len() == 0 {
            Err(eof_error())
        } else {
            Ok((concat_fold(nodes), q))
        },
    }
}

/// The parts of a string after `nodes`: literals (one at a time) and
/// interpolations.
pub open spec fn parsed_string_parts(i: Input, p: int, nodes: Seq<ExprSpec>, can_be_string: bool) -> Parsed<Seq<ExprSpec>>
    decreases remaining(i, p), 1int,
{
    match token_at(i.tokens, p) {
        Err(x) => Err(x),
        Ok(t) => match t.value {
            TokenValue::String(s) => if can_be_string {
                parsed_string_parts(i, p + 1, nodes.push(str_constant(s.value@, t.line_num)), false)
            } else {
                Ok((nodes, p))
            },
            TokenValue::InterpolationStart => match parsed_expression(i, p + 1, 0) {
                Err(x) => Err(x),
                Ok((e, q)) => match expected_token(i.tokens, q, TokenValue::InterpolationEnd) {
                    Err(x) => Err(x),
                    Ok(_) => if q + 1 <= p {
                        Err(eof_error())
                    } else {
                        parsed_string_parts(i, q + 1, nodes.push(e), true)
                    },
                },
            },
            _ => Ok((nodes, p)),
        },
    }
}

/// An array literal.
pub open spec fn parsed_array(i: Input, p: int) -> Parsed<ExprSpec>
    decreases remaining(i, p), 2int,
{
    match expected_or(i.tokens, p, TokenValue::Punctuation('['), ErrorMessage::ExpectedArrayElement) {
        Err(x) => Err(x),
        Ok(_) => match token_at(i.tokens, p + 1) {
            Err(x) => Err(x),
            Ok(t) => match parsed_array_items(i, p + 1, Seq::empty(), true) {
                Err(x) => Err(x),
                Ok((items, q)) => match expected_or(
                    i.tokens,
                    q,
                    TokenValue::Punctuation(']'),
                    ErrorMessage::ArrayNotClosed,
                ) {
                    Err(x) => Err(x),
                    Ok(_) => Ok((ExprSpec { line: t.line_num, value: ExprValueSpec::Array(items) }, q + 1)),
                },
            },
        },
    }
}

/// The elements of an array after `items`, up to the closing bracket.
pub open spec fn parsed_array_items(i: Input, p: int, items: Seq<ExprSpec>, first: bool) -> Parsed<Seq<ExprSpec>>
    decreases remaining(i, p), 7int,
{
    match token_at(i.tokens, p) {
        Err(x) => Err(x),
        Ok(t) => if is_punct(t.value, ']') {
            Ok((items, p))
        } else {
            let start: Result<int, ErrorAt> = if first {
                Ok(p)
            } else {
                match expected_or(
                    i.tokens,
                    p,
                    TokenValue::Punctuation(','),
                    ErrorMessage::ArrayValueMustBeFollowedByComma,
                ) {
                    Err(x) => Err(x),
                    Ok(_) => Ok(p + 1),
                }
            };
            match start {
                Err(x) => Err(x),
                Ok(q) => match token_at(i.tokens, q) {
                    Err(x) => Err(x),
                    Ok(t1) => if !first && is_punct(t1.value, ']') {
                        Ok((items, q))
                    } else {
                        match parsed_expression(i, q, 0) {
                            Err(x) => Err(x),
                            Ok((e, q2)) => if q2 <= p {
                                Err(eof_error())
                            } else {
                                parsed_array_items(i, q2, items.push(e), false)
                            },
                        }
                    },
                },
            }
        },
    }
}

/// A hash literal.
pub open spec fn parsed_hash(i: Input, p: int) -> Parsed<ExprSpec>
    decreases remaining(i, p), 2int,
{
    match expected_or(i.tokens, p, TokenValue::Punctuation('{'), ErrorMessage::ExpectedHashElement) {
        Err(x) => Err(x),
        Ok(_) => match token_at(i.tokens, p + 1) {
            Err(x) => Err(x),
            Ok(t) => match parsed_hash_items(i, p + 1, Seq::empty(), true) {
                Err(x) => Err(x),
                Ok((items, q)) => match expected_or(
                    i.tokens,
                    q,
                    TokenValue::Punctuation('}'),
                    ErrorMessage::HashNotClosed,
                ) {
                    Err(x) => Err(x),
                    Ok(_) => Ok((ExprSpec { line: t.line_num, value: ExprValueSpec::Hash(items) }, q + 1)),
                },
            },
        },
    }
}

/// A hash key: a string, a name, a number, or an expression in parentheses.
pub open spec fn parsed_hash_key(i: Input, p: int) -> Parsed<ExprSpec>
    decreases remaining(i, p), 7int,
{
    match token_at(i.tokens, p) {
        Err(x) => Err(x),
        Ok(t) => match t.value {
            TokenValue::String(s) => Ok((str_constant(s.value@, t.line_num), p + 1)),
            TokenValue::Name(n) => Ok((str_constant(n@, t.line_num), p + 1)),
            TokenValue::Number(num) => Ok((number_expr(num, t.line_num), p + 1)),
            TokenValue::Punctuation(c) => if c == '(' {
                parsed_expression(i, p, 0)
            } else {
                Err(error_at(ErrorMessage::InvalidHashKey { unexpected: t.value }, t.line_num))
            },
            _ => Err(error_at(ErrorMessage::InvalidHashKey { unexpected: t.value }, t.line_num)),
        },
    }
}

/// The entries of a hash after `items`, up to the closing brace.
pub open spec fn parsed_hash_items(i: Input, p: int, items: Seq<(ExprSpec, ExprSpec)>, first: bool) -> Parsed<Seq<(ExprSpec, ExprSpec)>>
    decreases remaining(i, p), 8int,
{
    match token_at(i.tokens, p) {
        Err(x) => Err(x),
        Ok(t) => if is_punct(t.value, '}') {
            Ok((items, p))
        } else {
            let start: Result<int, ErrorAt> = if first {
                Ok(p)
            } else {
                match expected_or(
                    i.tokens,
                    p,
                    TokenValue::Punctuation(','),
                    ErrorMessage::HashValueMustBeFollowedByComma,
                ) {
                    Err(x) => Err(x),
                    Ok(_) => Ok(p + 1),
                }
            };
            match start {
                Err(x) => Err(x),
                Ok(q) => match token_at(i.tokens, q) {
                    Err(x) => Err(x),
                    Ok(t1) => if !first && is_punct(t1.value, '}') {
                        Ok((items, q))
                    } else {
                        match parsed_hash_key(i, q) {
                            Err(x) => Err(x),
                            Ok((k, q1)) => if q1 < q {
                                Err(eof_error())
                            } else {
                                match expected_or(
                                    i.tokens,
                                    q1,
                                    TokenValue::Punctuation(':'),
                                    ErrorMessage::HashKeyMustBeFollowedByColon,
                                ) {
                                    Err(x) => Err(x),
                                    Ok(_) => match parsed_expression(i, q1 + 1, 0) {
                                        Err(x) => Err(x),
                                        Ok((v, q2)) => if q2 <= p {
                                            Err(eof_error())
                                        } else {
                                            parsed_hash_items(i, q2, items.push((k, v)), false)
                                        },
                                    },
                                }
                            },
                        }
                    },
                },
            }
        },
    }
}

/// Attribute access and filters after `node`.
pub open spec fn parsed_postfix(i: Input, node: ExprSpec, p: int) -> Parsed<ExprSpec>
    decreases remaining(i, p), 2int,
{
    match token_at(i.tokens, p) {
        Err(x) => Err(x),
        Ok(t) => if is_punct(t.value, '.') || is_punct(t.value, '[') {
            match parsed_subscript(i, node, p) {
                Err(x) => Err(x),
                Ok((n2, q)) => if q <= p {
                    Err(eof_error())
                } else {
                    parsed_postfix(i, n2, q)
                },
            }
        } else if is_punct(t.value, '|') {
            parsed_filter(i, node, p)
        } else {
            Ok((node, p))
        },
    }
}

/// A filter after `node`: not supported yet.
pub open spec fn parsed_filter(i: Input, node: ExprSpec, p: int) -> Parsed<ExprSpec> {
    match token_at(i.tokens, p) {
        Err(x) => Err(x),
        Ok(t) => Err(error_at(ErrorMessage::NotImplemented("filters"), t.line_num)),
    }
}

/// An attribute access (`.name`, `.name(args)`, `[key]`) after `node`.
pub open spec fn parsed_subscript(i: Input, node: ExprSpec, p: int) -> Parsed<ExprSpec>
    decreases remaining(i, p), 1int,
{
    match token_at(i.tokens, p) {
        Err(x) => Err(x),
        Ok(t) => if is_punct(t.value, '.') {
            let line = t.line_num;
            match token_at(i.tokens, p + 1) {
                Err(x) => Err(x),
                Ok(t2) => match t2.value {
                    TokenValue::Name(_) => parsed_attribute_call(i, line, p + 2),
                    TokenValue::Number(_) => parsed_attribute_call(i, line, p + 2),
                    _ => Err(error_at(ErrorMessage::ExpectedNameOrNumber, line)),
                },
            }
        } else {
            Err(error_at(ErrorMessage::NotImplemented("array access"), t.line_num))
        },
    }
}

/// The arguments of a method call after `.name`, if any.
pub open spec fn parsed_attribute_call(i: Input, line: usize, p: int) -> Parsed<ExprSpec>
    decreases remaining(i, p), 3int,
{
    match token_at(i.tokens, p) {
        Err(x) => Err(x),
        Ok(t) => if is_punct(t.value, '(') {
            match parsed_unnamed_arguments(i, p, false) {
                Err(x) => Err(x),
                Ok(_) => Err(error_at(ErrorMessage::NotImplemented("attribute access"), line)),
            }
        } else {
            Err(error_at(ErrorMessage::NotImplemented("attribute access"), line))
        },
    }
}

/// A parenthesized list of arguments.
pub open spec fn parsed_unnamed_arguments(i: Input, p: int, definition: bool) -> Parsed<Seq<ExprSpec>>
    decreases remaining(i, p), 2int,
{
    match expected_or(
        i.tokens,
        p,
        TokenValue::Punctuation('('),
        ErrorMessage::ListOfArgumentsMustBeginWithParenthesis,
    ) {
        Err(x) => Err(x),
        Ok(_) => parsed_unnamed_items(i, p + 1, Seq::empty(), definition),
    }
}

/// The arguments after `args`, up to and with the closing parenthesis.
pub open spec fn parsed_unnamed_items(i: Input, p: int, args: Seq<ExprSpec>, definition: bool) -> Parsed<Seq<ExprSpec>>
    decreases remaining(i, p), 7int,
{
    match token_at(i.tokens, p) {
        Err(x) => Err(x),
        Ok(t) => if is_punct(t.value, ')') {
            Ok((args, p + 1))
        } else {
            let start: Result<int, ErrorAt> = if args.len() > 0 {
                match expected_or(
                    i.tokens,
                    p,
                    TokenValue::Punctuation(','),
                    ErrorMessage::ArgumentsMustBeSeparatedByComma,
                ) {
                    Err(x) => Err(x),
                    Ok(_) => Ok(p + 1),
                }
            } else {
                Ok(p)
            };
            match start {
                Err(x) => Err(x),
                Ok(q) => if definition {
                    Err(error_at(ErrorMessage::NotImplemented("argument definitions"), t.line_num))
                } else {
                    match parsed_expression(i, q, 0) {
                        Err(x) => Err(x),
                        Ok((e, q2)) => if q2 <= p {
                            Err(eof_error())
                        } else {
                            parsed_unnamed_items(i, q2, args.push(e), definition)
                        },
                    }
                },
            }
        },
    }
}

/// A parenthesized list of named arguments.
pub open spec fn parsed_named_arguments(i: Input, p: int, definition: bool) -> Parsed<Seq<(Seq<char>, ExprSpec)>>
    decreases remaining(i, p), 2int,
{
    match expected_or(
        i.tokens,
        p,
        TokenValue::Punctuation('('),
        ErrorMessage::ListOfArgumentsMustBeginWithParenthesis,
    ) {
        Err(x) => Err(x),
        Ok(_) => parsed_named_items(i, p + 1, Seq::empty(), definition),
    }
}

/// The name part of a named argument: in a definition a name, else an
/// expression; with the token after it.
pub open spec fn parsed_argument_name(i: Input, p: int, definition: bool) -> Result<(ExprSpec, Token, int), ErrorAt>
    decreases remaining(i, p), 7int,
{
    if definition {
        match expected_name(i.tokens, p) {
            Err(x) => Err(x),
            Ok(n) => match token_at(i.tokens, p + 1) {
                Err(x) => Err(x),
                Ok(t) => Ok((ExprSpec { line: t.line_num, value: ExprValueSpec::Name(n) }, t, p + 1)),
            },
        }
    } else {
        match parsed_expression(i, p, 0) {
            Err(x) => Err(x),
            Ok((e, q)) => if q <= p {
                Err(eof_error())
            } else {
                match token_at(i.tokens, q) {
                    Err(x) => Err(x),
                    Ok(t) => Ok((e, t, q)),
                }
            },
        }
    }
}

/// The value of a named argument: in a definition a constant primary
/// expression, else an expression.
pub open spec fn parsed_argument_value(i: Input, p: int, definition: bool) -> Parsed<ExprSpec>
    decreases remaining(i, p), 7int,
{
    if definition {
        match parsed_primary(i, p) {
            Err(x) => Err(x),
            Ok((v, q)) => if !is_constant_spec(v) {
                match token_at(i.tokens, q) {
                    Err(x) => Err(x),
                    Ok(t) => Err(error_at(ErrorMessage::DefaultValueForArgumentMustBeConstant, t.line_num)),
                }
            } else {
                Ok((v, q))
            },
        }
    } else {
        parsed_expression(i, p, 0)
    }
}

/// The named arguments after `args`, up to and with the closing parenthesis.
pub open spec fn parsed_named_items(i: Input, p: int, args: Seq<(Seq<char>, ExprSpec)>, definition: bool) -> Parsed<Seq<(Seq<char>, ExprSpec)>>
    decreases remaining(i, p), 8int,
{
    match token_at(i.tokens, p) {
        Err(x) => Err(x),
        Ok(t) => if is_punct(t.value, ')') {
            Ok((args, p + 1))
        } else {
            let start: Result<int, ErrorAt> = if args.len() > 0 {
                match expected_or(
                    i.tokens,
                    p,
                    TokenValue::Punctuation(','),
                    ErrorMessage::ArgumentsMustBeSeparatedByComma,
                ) {
                    Err(x) => Err(x),
                    Ok(_) => Ok(p + 1),
                }
            } else {
                Ok(p)
            };
            match start {
                Err(x) => Err(x),
                Ok(q) => match parsed_argument_name(i, q, definition) {
                    Err(x) => Err(x),
                    Ok((name_expr, tok, q1)) => if q1 < q {
                        Err(eof_error())
                    } else {
                        match expected_token(i.tokens, q1, TokenValue::Operator(string_with("="@))) {
                            Err(x) => Err(x),
                            Ok(_) => match name_expr.value {
                                ExprValueSpec::Name(n) => match parsed_argument_value(i, q1 + 1, definition) {
                                    Err(x) => Err(x),
                                    Ok((v, q2)) => if q2 <= p {
                                        Err(eof_error())
                                    } else {
                                        parsed_named_items(i, q2, args.push((n, v)), definition)
                                    },
                                },
                                _ => Err(
                                    error_at(
                                        ErrorMessage::ParameterNameMustBeAString {
                                            given: string_with(expr_debug_text(name_expr)),
                                        },
                                        tok.line_num,
                                    ),
                                ),
                            },
                        }
                    },
                },
            }
        },
    }
}

/// The parts of a template from `p` on, after `items`: texts and printed
/// expressions, up to the end of the stream.
pub open spec fn parsed_body_items(i: Input, p: int, items: Seq<BodySpec>) -> Parsed<Seq<BodySpec>>
    decreases remaining(i, p),
{
    if !(0 <= p < i.tokens.len()) {
        Ok((items, p))
    } else {
        match i.tokens[p] {
            Err(x) => Err(x),
            Ok(t) => match t.value {
                TokenValue::Text(s) => parsed_body_items(
                    i,
                    p + 1,
                    items.push(BodySpec::Text { value: s@, line: t.line_num }),
                ),
                TokenValue::VarStart => match parsed_expression(i, p + 1, 0) {
                    Err(x) => Err(x),
                    Ok((e, q)) => match expected_token(i.tokens, q, TokenValue::VarEnd) {
                        Err(x) => Err(x),
                        Ok(_) => if q + 1 <= p {
                            Err(eof_error())
                        } else {
                            parsed_body_items(i, q + 1, items.push(BodySpec::Print { expr: e, line: t.line_num }))
                        },
                    },
                },
                _ => Err(error_at(ErrorMessage::NotImplemented("block tags"), t.line_num)),
            },
        }
    }
}

/// The body of a template from `p` on: its one part, or the list of its
/// parts.
pub open spec fn parsed_body(i: Input, p: int) -> Parsed<BodySpec> {
    match parsed_body_items(i, p, Seq::empty()) {
        Err(x) => Err(x),
        Ok((items, q)) => Ok(
            (
                if items.len() == 1 {
                    items[0]
                } else {
                    BodySpec::List { items }
                },
                q,
            ),
        ),
    }
}

/// A name that is not a literal (`true`, `null`, ...).
pub open spec fn plain_name(n: Seq<char>) -> bool {
    !(n == "true"@ || n == "TRUE"@ || n == "false"@ || n == "FALSE"@ || n == "none"@ || n == "NONE"@ || n
        == "null"@ || n == "NULL"@)
}

/// The token at `q` is a plain name.
pub open spec fn plain_name_at(i: Input, q: int) -> bool {
    token_at(i.tokens, q) matches Ok(t) && t.value matches TokenValue::Name(n) && plain_name(n@)
}

/// The expression that the plain name at `q` stands for.
pub open spec fn name_at(i: Input, q: int) -> ExprSpec {
    match token_at(i.tokens, q) {
        Ok(t) => match t.value {
            TokenValue::Name(n) => ExprSpec { line: t.line_num, value: ExprValueSpec::Name(n@) },
            _ => arbitrary(),
        },
        _ => arbitrary(),
    }
}

/// The token at `q` holds a binary operator, with these options.
pub open spec fn binary_at(i: Input, q: int, o: OperatorOptions) -> bool {
    token_at(i.tokens, q) matches Ok(t) && t.value matches TokenValue::Operator(op) && find_operator(
        i.operators,
        op@,
    ) == Some(o)
}

/// The symbol of the operator at `q`.
pub open spec fn symbol_at(i: Input, q: int) -> Seq<char> {
    match token_at(i.tokens, q) {
        Ok(t) => match t.value {
            TokenValue::Operator(op) => op@,
            _ => arbitrary(),
        },
        _ => arbitrary(),
    }
}

/// The line of the token at `q`.
pub open spec fn line_at(i: Input, q: int) -> usize {
    match token_at(i.tokens, q) {
        Ok(t) => t.line_num,
        _ => arbitrary(),
    }
}

/// A binary operation.
pub open spec fn binary_expr(op: Seq<char>, left: ExprSpec, right: ExprSpec, line: usize) -> ExprSpec {
    ExprSpec { line, value: ExprValueSpec::BinaryOperator { value: op, left: Box::new(left), right: Box::new(right) } }
}

/// The token at `q` ends an expression: neither an operator nor a
/// punctuation that continues one.
pub open spec fn ends_expression(i: Input, q: int) -> bool {
    token_at(i.tokens, q) matches Ok(t) && !(t.value is Operator) && !is_punct(t.value, '.') && !is_punct(
        t.value,
        '[',
    ) && !is_punct(t.value, '|') && !is_punct(t.value, '?') && !is_punct(t.value, '(')
}

/// A plain name followed by an operator or the end of an expression is an
/// operand by itself.
proof fn lemma_name_operand(i: Input, q: int)
    requires
        0 <= q,
        plain_name_at(i, q),
        ends_expression(i, q + 1) || (token_at(i.tokens, q + 1) matches Ok(t) && t.value is Operator),
    ensures
        parsed_primary_or_unary(i, q) == Ok::<(ExprSpec, int), ErrorAt>((name_at(i, q), q + 1)),
{
    let t = token_at(i.tokens, q)->Ok_0;
    assert(unary_of(i, t) is None);
    let t1 = token_at(i.tokens, q + 1)->Ok_0;
    assert(!is_punct(t1.value, '('));
    assert(parsed_postfix(i, name_at(i, q), q + 1) == Ok::<(ExprSpec, int), ErrorAt>((name_at(i, q), q + 1)));
    assert(parsed_primary(i, q) == Ok::<(ExprSpec, int), ErrorAt>((name_at(i, q), q + 1)));
}

/// Binary operators stop at a token that ends an expression.
proof fn lemma_tail_stops(i: Input, e: ExprSpec, q: int, min: int)
    requires
        ends_expression(i, q),
    ensures
        parsed_binary_tail(i, e, q, min) == Ok::<(ExprSpec, int), ErrorAt>((e, q)),
        parsed_conditional(i, e, q) == Ok::<(ExprSpec, int), ErrorAt>((e, q)),
{
}

/// An operand followed by an operator that binds less tightly than `min`
/// is the whole expression at that level.
proof fn lemma_operand_alone(i: Input, q: int, min: int, o: OperatorOptions)
    requires
        0 <= q,
        min > 0,
        plain_name_at(i, q),
        binary_at(i, q + 1, o),
        o.precedence < min,
        q + 1 < i.tokens.len(),
    ensures
        parsed_expression(i, q, min) == Ok::<(ExprSpec, int), ErrorAt>((name_at(i, q), q + 1)),
{
    lemma_name_operand(i, q);
    let t1 = token_at(i.tokens, q + 1)->Ok_0;
    assert(binary_of(i, t1, min) is None);
    assert(parsed_binary_tail(i, name_at(i, q), q + 1, min) == Ok::<(ExprSpec, int), ErrorAt>((name_at(i, q), q + 1)));
}

/// An operand followed by the end of the expression is the whole
/// expression.
proof fn lemma_operand_last(i: Input, q: int, min: int)
    requires
        0 <= q,
        plain_name_at(i, q),
        ends_expression(i, q + 1),
        q + 1 < i.tokens.len(),
    ensures
        parsed_expression(i, q, min) == Ok::<(ExprSpec, int), ErrorAt>((name_at(i, q), q + 1)),
{
    lemma_name_operand(i, q);
    lemma_tail_stops(i, name_at(i, q), q + 1, min);
}

/// Of `a o1 b o2 c`, with plain names and binary operators, the second
/// operator takes `b` when it binds more tightly than the first, or as
/// tightly when the first is right-associative (`a o1 (b o2 c)`); else the
/// first takes `b` (`(a o1 b) o2 c`). So operators of higher precedence
/// bind first, and equal ones group by their associativity.
pub proof fn law_precedence_and_associativity(i: Input, p: int, o1: OperatorOptions, o2: OperatorOptions)
    requires
        0 <= p,
        p + 5 < i.tokens.len(),
        plain_name_at(i, p),
        binary_at(i, p + 1, o1),
        plain_name_at(i, p + 2),
        binary_at(i, p + 3, o2),
        plain_name_at(i, p + 4),
        ends_expression(i, p + 5),
        o1.kind is Binary,
        o2.kind is Binary,
    ensures
        parsed_expression(i, p, 0) == Ok::<(ExprSpec, int), ErrorAt>(
            (
                if o2.precedence >= right_min(o1) {
                    binary_expr(
                        symbol_at(i, p + 1),
                        name_at(i, p),
                        binary_expr(symbol_at(i, p + 3), name_at(i, p + 2), name_at(i, p + 4), line_at(i, p + 3)),
                        line_at(i, p + 1),
                    )
                } else {
                    binary_expr(
                        symbol_at(i, p + 3),
                        binary_expr(symbol_at(i, p + 1), name_at(i, p), name_at(i, p + 2), line_at(i, p + 1)),
                        name_at(i, p + 4),
                        line_at(i, p + 3),
                    )
                },
                p + 5,
            ),
        ),
{
    let a = name_at(i, p);
    let b = name_at(i, p + 2);
    let c = name_at(i, p + 4);
    let t1 = token_at(i.tokens, p + 1)->Ok_0;
    let t3 = token_at(i.tokens, p + 3)->Ok_0;
    let m1 = right_min(o1);
    let m2 = right_min(o2);
    assert(binary_of(i, t1, 0) == Some((symbol_at(i, p + 1), o1)));
    lemma_name_operand(i, p);
    lemma_operand_last(i, p + 4, m2);
    if o2.precedence >= m1 {
        let bc = binary_expr(symbol_at(i, p + 3), b, c, line_at(i, p + 3));
        let abc = binary_expr(symbol_at(i, p + 1), a, bc, line_at(i, p + 1));
        lemma_name_operand(i, p + 2);
        assert(binary_of(i, t3, m1) == Some((symbol_at(i, p + 3), o2)));
        lemma_tail_stops(i, bc, p + 5, m1);
        assert(parsed_binary_tail(i, b, p + 3, m1) == Ok::<(ExprSpec, int), ErrorAt>((bc, p + 5)));
        assert(parsed_expression(i, p + 2, m1) == Ok::<(ExprSpec, int), ErrorAt>((bc, p + 5)));
        lemma_tail_stops(i, abc, p + 5, 0);
        assert(parsed_binary_tail(i, a, p + 1, 0) == Ok::<(ExprSpec, int), ErrorAt>((abc, p + 5)));
    } else {
        let ab = binary_expr(symbol_at(i, p + 1), a, b, line_at(i, p + 1));
        let abc = binary_expr(symbol_at(i, p + 3), ab, c, line_at(i, p + 3));
        assert(m1 > 0);
        lemma_operand_alone(i, p + 2, m1, o2);
        assert(binary_of(i, t3, 0) == Some((symbol_at(i, p + 3), o2)));
        lemma_tail_stops(i, abc, p + 5, 0);
        assert(parsed_binary_tail(i, ab, p + 3, 0) == Ok::<(ExprSpec, int), ErrorAt>((abc, p + 5)));
        assert(parsed_binary_tail(i, a, p + 1, 0) == Ok::<(ExprSpec, int), ErrorAt>((abc, p + 5)));
    }
}

/// A run of conditional parts stops only before a token that is not `?`.
pub proof fn lemma_conditional_stops(i: Input, e: ExprSpec, p: int)
    ensures
        parsed_conditional(i, e, p) matches Ok((r, q)) ==> !token_is(i.tokens, q, TokenValue::Punctuation('?')),
    decreases remaining(i, p),
{
    if 0 <= p < i.tokens.len() && token_is(i.tokens, p, TokenValue::Punctuation('?')) {
        if let Ok((yay, nay, q)) = parsed_branches(i, e, p) {
            if q > p {
                if let Ok(t) = token_at(i.tokens, q) {
                    let c = ExprSpec {
                        line: t.line_num,
                        value: ExprValueSpec::Conditional { expr: Box::new(e), yay: Box::new(yay), nay: Box::new(nay) },
                    };
                    lemma_conditional_stops(i, c, q);
                }
            }
        }
    }
}

/// A full expression (precedence 0) takes every conditional part that
/// follows it: it stops only before a token that is not `?`.
pub proof fn lemma_full_expression_stops(i: Input, p: int)
    ensures
        parsed_expression(i, p, 0) matches Ok((x, q)) ==> !token_is(i.tokens, q, TokenValue::Punctuation('?')),
{
    if let Ok((left, p1)) = parsed_primary_or_unary(i, p) {
        if let Ok((e, p2)) = parsed_binary_tail(i, left, p1, 0) {
            lemma_conditional_stops(i, e, p2);
        }
    }
}

/// Conditionals group to the right: the branches of `x ? y : z` (and of
/// `x ? y` and `x ?: z`) are full expressions that take every conditional
/// after them, so the conditional parsed after `x` has `x` itself as its
/// condition; `a ? b : c ? d : e` is `a ? b : (c ? d : e)`.
pub proof fn law_conditionals_group_right(i: Input, e: ExprSpec, p: int)
    ensures
        parsed_conditional(i, e, p) matches Ok((r, q)) ==> r == e || (r.value matches ExprValueSpec::Conditional {
            expr,
            ..
        } && *expr == e),
{
    if 0 <= p < i.tokens.len() && token_is(i.tokens, p, TokenValue::Punctuation('?')) {
        let q = p + 1;
        if let Ok((yay, nay, q3)) = parsed_branches(i, e, p) {
            match skip_test(i.tokens, q, TokenValue::Punctuation(':')) {
                Ok(false) => {
                    lemma_full_expression_stops(i, q);
                    if let Ok((y, q2)) = parsed_expression(i, q, 0) {
                        lemma_full_expression_stops(i, q2 + 1);
                    }
                },
                Ok(true) => {
                    lemma_full_expression_stops(i, q + 1);
                },
                Err(_) => {},
            }
            assert(!token_is(i.tokens, q3, TokenValue::Punctuation('?')));
            if q3 > p {
                if let Ok(t) = token_at(i.tokens, q3) {
                    let c = ExprSpec {
                        line: t.line_num,
                        value: ExprValueSpec::Conditional { expr: Box::new(e), yay: Box::new(yay), nay: Box::new(nay) },
                    };
                    assert(parsed_conditional(i, c, q3) == Ok::<(ExprSpec, int), ErrorAt>((c, q3)));
                }
            }
        }
    }
}

/// The names `false` and `FALSE` are the boolean constant false, never a
/// variable: a primary expression they start is that constant with its
/// postfix parts, and, when no `.`, `[` or `|` follows, the constant alone.
pub proof fn law_false_literal(i: Input, p: int)
    requires
        token_at(i.tokens, p) matches Ok(t) && t.value matches TokenValue::Name(n) && (n@ == "false"@ || n@
            == "FALSE"@),
    ensures
        parsed_primary(i, p) == parsed_postfix(
            i,
            constant_expr(ConstantSpec::Bool(false), token_at(i.tokens, p)->Ok_0.line_num),
            p + 1,
        ),
        (token_at(i.tokens, p + 1) matches Ok(t2) && !is_punct(t2.value, '.') && !is_punct(t2.value, '[')
            && !is_punct(t2.value, '|')) ==> parsed_primary(i, p) == Ok::<(ExprSpec, int), ErrorAt>(
            (
                ExprSpec {
                    line: token_at(i.tokens, p)->Ok_0.line_num,
                    value: ExprValueSpec::Constant(ConstantSpec::Bool(false)),
                },
                p + 1,
            ),
        ),
{
    reveal_strlit("true");
    reveal_strlit("TRUE");
    reveal_strlit("false");
    reveal_strlit("FALSE");
    let t = token_at(i.tokens, p)->Ok_0;
    let c = constant_expr(ConstantSpec::Bool(false), t.line_num);
    let n = t.value->Name_0;
    assert("false"@.len() == 5 && "FALSE"@.len() == 5 && "true"@.len() == 4 && "TRUE"@.len() == 4);
    assert(n@ != "true"@ && n@ != "TRUE"@);
    assert(n@ == "false"@ || n@ == "FALSE"@);
    assert(parsed_primary(i, p) == parsed_postfix(i, c, p + 1));
    if token_at(i.tokens, p + 1) matches Ok(t2) && !is_punct(t2.value, '.') && !is_punct(t2.value, '[')
        && !is_punct(t2.value, '|') {
        assert(parsed_postfix(i, c, p + 1) == Ok::<(ExprSpec, int), ErrorAt>((c, p + 1)));
    }
}

/// The names `true` and `TRUE` are the boolean constant true: a primary
/// expression they start is that constant with its postfix parts.
pub proof fn law_true_literal(i: Input, p: int)
    requires
        token_at(i.tokens, p) matches Ok(t) && t.value matches TokenValue::Name(n) && (n@ == "true"@ || n@
            == "TRUE"@),
    ensures
        parsed_primary(i, p) == parsed_postfix(
            i,
            constant_expr(ConstantSpec::Bool(true), token_at(i.tokens, p)->Ok_0.line_num),
            p + 1,
        ),
{
}

/// The names `none`, `NONE`, `null` and `NULL` are the constant null: a
/// primary expression they start is that constant with its postfix parts.
pub proof fn law_null_literal(i: Input, p: int)
    requires
        token_at(i.tokens, p) matches Ok(t) && t.value matches TokenValue::Name(n) && (n@ == "none"@ || n@
            == "NONE"@ || n@ == "null"@ || n@ == "NULL"@),
    ensures
        parsed_primary(i, p) == parsed_postfix(
            i,
            constant_expr(ConstantSpec::Null, token_at(i.tokens, p)->Ok_0.line_num),
            p + 1,
        ),
{
    reveal_strlit("true");
    reveal_strlit("TRUE");
    reveal_strlit("false");
    reveal_strlit("FALSE");
    reveal_strlit("none");
    reveal_strlit("NONE");
    reveal_strlit("null");
    reveal_strlit("NULL");
    let n = token_at(i.tokens, p)->Ok_0.value->Name_0;
    assert(n@.len() == 4 && n@[0] != 't' && n@[0] != 'T');
    assert(n@ != "true"@ && n@ != "TRUE"@ && n@ != "false"@ && n@ != "FALSE"@);
}

} // verus!
