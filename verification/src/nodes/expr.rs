//! Expression nodes, and the values they stand for.
use vstd::prelude::*;
use crate::chars::{debug_quoted, debug_string, decimal, int_text, i64_to_string, u128_to_string, usize_to_string};

verus! {

broadcast use vstd::std_specs::vec::group_vec_axioms;

/// A literal value.
#[derive(Debug, Clone, PartialEq)]
pub enum ExprConstant {
    Str(String),
    Bool(bool),
    Int(i64),
    /// A decimal literal, as written.
    Float(String),
    /// An integer literal too large for `i64`, as written.
    Big(String),
    Null,
}

/// How an attribute is reached.
#[derive(Debug, Clone, Copy, PartialEq, Eq, Structural)]
pub enum ExprCallType {
    Any,
    Method,
    Array,
}

/// An expression and the line it starts on.
#[derive(Debug, PartialEq)]
pub struct Expr {
    pub line: usize,
    pub value: ExprValue,
}

/// The kinds of expressions.
#[derive(Debug, PartialEq)]
pub enum ExprValue {
    Constant(ExprConstant),
    Name(String),
    AssignName(String),
    Array(Vec<Expr>),
    Hash(Vec<(Expr, Expr)>),
    UnaryOperator { value: String, expr: Box<Expr> },
    BinaryOperator { value: String, left: Box<Expr>, right: Box<Expr> },
    Concat { left: Box<Expr>, right: Box<Expr> },
    Conditional { expr: Box<Expr>, yay: Box<Expr>, nay: Box<Expr> },
    GetAttr { node: Box<Expr>, arg: Box<Expr>, arguments: Vec<Expr>, call_type: ExprCallType },
    ImportedFunctionCall { uuid: u128, alias: String, arguments: Vec<Expr> },
    FunctionCall { name: String, arguments: Vec<(Option<String>, Expr)> },
}

/// The value of a literal.
pub enum ConstantSpec {
    Str(Seq<char>),
    Bool(bool),
    Int(i64),
    Float(Seq<char>),
    Big(Seq<char>),
    Null,
}

/// The value of an expression: the same tree, with sequences for texts and
/// lists.
pub struct ExprSpec {
    pub line: usize,
    pub value: ExprValueSpec,
}

/// The value of an expression's kind.
pub enum ExprValueSpec {
    Constant(ConstantSpec),
    Name(Seq<char>),
    AssignName(Seq<char>),
    Array(Seq<ExprSpec>),
    Hash(Seq<(ExprSpec, ExprSpec)>),
    UnaryOperator { value: Seq<char>, expr: Box<ExprSpec> },
    BinaryOperator { value: Seq<char>, left: Box<ExprSpec>, right: Box<ExprSpec> },
    Concat { left: Box<ExprSpec>, right: Box<ExprSpec> },
    Conditional { expr: Box<ExprSpec>, yay: Box<ExprSpec>, nay: Box<ExprSpec> },
    GetAttr {
        node: Box<ExprSpec>,
        arg: Box<ExprSpec>,
        arguments: Seq<ExprSpec>,
        call_type: ExprCallType,
    },
    ImportedFunctionCall { uuid: u128, alias: Seq<char>, arguments: Seq<ExprSpec> },
    FunctionCall { name: Seq<char>, arguments: Seq<(Option<Seq<char>>, ExprSpec)> },
}

impl View for ExprConstant {
    type V = ConstantSpec;

    open spec fn view(&self) -> ConstantSpec {
        match self {
            ExprConstant::Str(s) => ConstantSpec::Str(s@),
            ExprConstant::Bool(b) => ConstantSpec::Bool(*b),
            ExprConstant::Int(i) => ConstantSpec::Int(*i),
            ExprConstant::Float(s) => ConstantSpec::Float(s@),
            ExprConstant::Big(s) => ConstantSpec::Big(s@),
            ExprConstant::Null => ConstantSpec::Null,
        }
    }
}

/// The value of an expression.
pub open spec fn expr_view(e: Expr) -> ExprSpec
    decreases e, 0int,
{
    ExprSpec {
        line: e.line,
        value: match e.value {
            ExprValue::Constant(c) => ExprValueSpec::Constant(c@),
            ExprValue::Name(n) => ExprValueSpec::Name(n@),
            ExprValue::AssignName(n) => ExprValueSpec::AssignName(n@),
            ExprValue::Array(items) => ExprValueSpec::Array(list_view(items@)),
            ExprValue::Hash(items) => ExprValueSpec::Hash(pairs_view(items@)),
            ExprValue::UnaryOperator { value, expr } => ExprValueSpec::UnaryOperator {
                value: value@,
                expr: Box::new(expr_view(*expr)),
            },
            ExprValue::BinaryOperator { value, left, right } => ExprValueSpec::BinaryOperator {
                value: value@,
                left: Box::new(expr_view(*left)),
                right: Box::new(expr_view(*right)),
            },
            ExprValue::Concat { left, right } => ExprValueSpec::Concat {
                left: Box::new(expr_view(*left)),
                right: Box::new(expr_view(*right)),
            },
            ExprValue::Conditional { expr, yay, nay } => ExprValueSpec::Conditional {
                expr: Box::new(expr_view(*expr)),
                yay: Box::new(expr_view(*yay)),
                nay: Box::new(expr_view(*nay)),
            },
            ExprValue::GetAttr { node, arg, arguments, call_type } => ExprValueSpec::GetAttr {
                node: Box::new(expr_view(*node)),
                arg: Box::new(expr_view(*arg)),
                arguments: list_view(arguments@),
                call_type,
            },
            ExprValue::ImportedFunctionCall { uuid, alias, arguments } => ExprValueSpec::ImportedFunctionCall {
                uuid,
                alias: alias@,
                arguments: list_view(arguments@),
            },
            ExprValue::FunctionCall { name, arguments } => ExprValueSpec::FunctionCall {
                name: name@,
                arguments: named_view(arguments@),
            },
        },
    }
}

/// The values of a list of expressions.
pub open spec fn list_view(s: Seq<Expr>) -> Seq<ExprSpec>
    decreases s, 1int,
{
    if s.len() == 0 {
        seq![]
    } else {
        list_view(s.drop_last()).push(expr_view(s.last()))
    }
}

/// The values of a list of pairs of expressions.
pub open spec fn pairs_view(s: Seq<(Expr, Expr)>) -> Seq<(ExprSpec, ExprSpec)>
    decreases s, 1int,
{
    if s.len() == 0 {
        seq![]
    } else {
        pairs_view(s.drop_last()).push((expr_view(s.last().0), expr_view(s.last().1)))
    }
}

/// The values of a list of optionally named expressions.
pub open spec fn named_view(s: Seq<(Option<String>, Expr)>) -> Seq<(Option<Seq<char>>, ExprSpec)>
    decreases s, 1int,
{
    if s.len() == 0 {
        seq![]
    } else {
        let last = s.last();
        named_view(s.drop_last()).push(
            (
                match last.0 {
                    Some(n) => Some(n@),
                    None => None,
                },
                expr_view(last.1),
            ),
        )
    }
}

/// A literal as the derived `Debug` writes it.
pub open spec fn constant_debug_text(c: ConstantSpec) -> Seq<char> {
    match c {
        ConstantSpec::Str(s) => "Str("@ + debug_quoted(s) + ")"@,
        ConstantSpec::Bool(b) => if b {
            "Bool(true)"@
        } else {
            "Bool(false)"@
        },
        ConstantSpec::Int(i) => "Int("@ + int_text(i as int) + ")"@,
        ConstantSpec::Float(s) => "Float("@ + debug_quoted(s) + ")"@,
        ConstantSpec::Big(s) => "Big("@ + debug_quoted(s) + ")"@,
        ConstantSpec::Null => "Null"@,
    }
}

/// How an attribute is reached, as the derived `Debug` writes it.
pub open spec fn call_type_debug_text(t: ExprCallType) -> Seq<char> {
    match t {
        ExprCallType::Any => "Any"@,
        ExprCallType::Method => "Method"@,
        ExprCallType::Array => "Array"@,
    }
}

/// An optional argument name, as `{:?}` writes it.
pub open spec fn name_debug_text(n: Option<Seq<char>>) -> Seq<char> {
    match n {
        Some(s) => "Some("@ + debug_quoted(s) + ")"@,
        None => "None"@,
    }
}

/// The text of an expression as the derived `Debug` writes it (`{:?}`):
/// each struct as its name and its fields in braces, each variant with its
/// fields, lists in brackets, texts quoted.
pub open spec fn expr_debug_text(e: ExprSpec) -> Seq<char>
    decreases e, 0int,
{
    "Expr { line: "@ + decimal(e.line as nat) + ", value: "@ + match e.value {
        ExprValueSpec::Constant(c) => "Constant("@ + constant_debug_text(c) + ")"@,
        ExprValueSpec::Name(n) => "Name("@ + debug_quoted(n) + ")"@,
        ExprValueSpec::AssignName(n) => "AssignName("@ + debug_quoted(n) + ")"@,
        ExprValueSpec::Array(items) => "Array("@ + list_debug_text(items) + ")"@,
        ExprValueSpec::Hash(items) => "Hash("@ + pairs_debug_text(items) + ")"@,
        ExprValueSpec::UnaryOperator { value, expr } => "UnaryOperator { value: "@ + debug_quoted(value)
            + ", expr: "@ + expr_debug_text(*expr) + " }"@,
        ExprValueSpec::BinaryOperator { value, left, right } => "BinaryOperator { value: "@ + debug_quoted(value)
            + ", left: "@ + expr_debug_text(*left) + ", right: "@ + expr_debug_text(*right) + " }"@,
        ExprValueSpec::Concat { left, right } => "Concat { left: "@ + expr_debug_text(*left) + ", right: "@
            + expr_debug_text(*right) + " }"@,
        ExprValueSpec::Conditional { expr, yay, nay } => "Conditional { expr: "@ + expr_debug_text(*expr)
            + ", yay: "@ + expr_debug_text(*yay) + ", nay: "@ + expr_debug_text(*nay) + " }"@,
        ExprValueSpec::GetAttr { node, arg, arguments, call_type } => "GetAttr { node: "@ + expr_debug_text(*node)
            + ", arg: "@ + expr_debug_text(*arg) + ", arguments: "@ + list_debug_text(arguments)
            + ", call_type: "@ + call_type_debug_text(call_type) + " }"@,
        ExprValueSpec::ImportedFunctionCall { uuid, alias, arguments } => "ImportedFunctionCall { uuid: "@
            + decimal(uuid as nat) + ", alias: "@ + debug_quoted(alias) + ", arguments: "@ + list_debug_text(
            arguments,
        ) + " }"@,
        ExprValueSpec::FunctionCall { name, arguments } => "FunctionCall { name: "@ + debug_quoted(name)
            + ", arguments: "@ + named_debug_text(arguments) + " }"@,
    } + " }"@
}

/// A list of expressions as `{:?}` writes it: in brackets.
pub open spec fn list_debug_text(s: Seq<ExprSpec>) -> Seq<char>
    decreases s, 2int,
{
    "["@ + list_items_debug_text(s) + "]"@
}

/// The expressions of a list, separated by `, `.
pub open spec fn list_items_debug_text(s: Seq<ExprSpec>) -> Seq<char>
    decreases s, 1int,
{
    if s.len() == 0 {
        seq![]
    } else if s.len() == 1 {
        expr_debug_text(s.last())
    } else {
        list_items_debug_text(s.drop_last()) + ", "@ + expr_debug_text(s.last())
    }
}

/// A list of pairs of expressions as `{:?}` writes it.
pub open spec fn pairs_debug_text(s: Seq<(ExprSpec, ExprSpec)>) -> Seq<char>
    decreases s, 2int,
{
    "["@ + pairs_items_debug_text(s) + "]"@
}

/// The pairs of a list, each in parentheses, separated by `, `.
pub open spec fn pairs_items_debug_text(s: Seq<(ExprSpec, ExprSpec)>) -> Seq<char>
    decreases s, 1int,
{
    if s.len() == 0 {
        seq![]
    } else {
        let item = "("@ + expr_debug_text(s.last().0) + ", "@ + expr_debug_text(s.last().1) + ")"@;
        if s.len() == 1 {
            item
        } else {
            pairs_items_debug_text(s.drop_last()) + ", "@ + item
        }
    }
}

/// A list of optionally named arguments as `{:?}` writes it.
pub open spec fn named_debug_text(s: Seq<(Option<Seq<char>>, ExprSpec)>) -> Seq<char>
    decreases s, 2int,
{
    "["@ + named_items_debug_text(s) + "]"@
}

/// The optionally named arguments of a list, each in parentheses,
/// separated by `, `.
pub open spec fn named_items_debug_text(s: Seq<(Option<Seq<char>>, ExprSpec)>) -> Seq<char>
    decreases s, 1int,
{
    if s.len() == 0 {
        seq![]
    } else {
        let item = "("@ + name_debug_text(s.last().0) + ", "@ + expr_debug_text(s.last().1) + ")"@;
        if s.len() == 1 {
            item
        } else {
            named_items_debug_text(s.drop_last()) + ", "@ + item
        }
    }
}

/// Writes a literal as the derived `Debug` does.
fn debug_constant(c: &ExprConstant) -> (r: String)
    ensures
        r@ == constant_debug_text(c@),
{
    match c {
        ExprConstant::Str(v) => String::from_str("Str(").concat(debug_string(v.as_str()).as_str()).concat(")"),
        ExprConstant::Bool(b) => if *b {
            String::from_str("Bool(true)")
        } else {
            String::from_str("Bool(false)")
        },
        ExprConstant::Int(i) => String::from_str("Int(").concat(i64_to_string(*i).as_str()).concat(")"),
        ExprConstant::Float(v) => String::from_str("Float(").concat(debug_string(v.as_str()).as_str()).concat(")"),
        ExprConstant::Big(v) => String::from_str("Big(").concat(debug_string(v.as_str()).as_str()).concat(")"),
        ExprConstant::Null => String::from_str("Null"),
    }
}

/// Writes an expression as the derived `Debug` does (`{:?}`).
pub fn debug_expr(e: &Expr) -> (r: String)
    ensures
        r@ == expr_debug_text(e@),
    decreases e, 0int,
{
    let v: String = match &e.value {
        ExprValue::Constant(c) => String::from_str("Constant(").concat(debug_constant(c).as_str()).concat(")"),
        ExprValue::Name(n) => String::from_str("Name(").concat(debug_string(n.as_str()).as_str()).concat(")"),
        ExprValue::AssignName(n) => String::from_str("AssignName(").concat(debug_string(n.as_str()).as_str()).concat(
            ")",
        ),
        ExprValue::Array(items) => {
            proof {
                assert(decreases_to!(e.value => e.value->Array_0));
            }
            String::from_str("Array(").concat(debug_list(items).as_str()).concat(")")
        },
        ExprValue::Hash(items) => {
            proof {
                assert(decreases_to!(e.value => e.value->Hash_0));
            }
            String::from_str("Hash(").concat(debug_pairs(items).as_str()).concat(")")
        },
        ExprValue::UnaryOperator { value, expr } => {
            let r = String::from_str("UnaryOperator { value: ").concat(debug_string(value.as_str()).as_str());
            r.concat(", expr: ").concat(debug_expr(expr).as_str()).concat(" }")
        },
        ExprValue::BinaryOperator { value, left, right } => {
            let r = String::from_str("BinaryOperator { value: ").concat(debug_string(value.as_str()).as_str());
            let r = r.concat(", left: ").concat(debug_expr(left).as_str());
            r.concat(", right: ").concat(debug_expr(right).as_str()).concat(" }")
        },
        ExprValue::Concat { left, right } => {
            let r = String::from_str("Concat { left: ").concat(debug_expr(left).as_str());
            r.concat(", right: ").concat(debug_expr(right).as_str()).concat(" }")
        },
        ExprValue::Conditional { expr, yay, nay } => {
            let r = String::from_str("Conditional { expr: ").concat(debug_expr(expr).as_str());
            let r = r.concat(", yay: ").concat(debug_expr(yay).as_str());
            r.concat(", nay: ").concat(debug_expr(nay).as_str()).concat(" }")
        },
        ExprValue::GetAttr { node, arg, arguments, call_type } => {
            proof {
                assert(decreases_to!(e.value => e.value->GetAttr_arguments));
            }
            let r = String::from_str("GetAttr { node: ").concat(debug_expr(node).as_str());
            let r = r.concat(", arg: ").concat(debug_expr(arg).as_str());
            let r = r.concat(", arguments: ").concat(debug_list(arguments).as_str());
            let t = match call_type {
                ExprCallType::Any => "Any",
                ExprCallType::Method => "Method",
                ExprCallType::Array => "Array",
            };
            r.concat(", call_type: ").concat(t).concat(" }")
        },
        ExprValue::ImportedFunctionCall { uuid, alias, arguments } => {
            proof {
                assert(decreases_to!(e.value => e.value->ImportedFunctionCall_arguments));
            }
            let r = String::from_str("ImportedFunctionCall { uuid: ").concat(u128_to_string(*uuid).as_str());
            let r = r.concat(", alias: ").concat(debug_string(alias.as_str()).as_str());
            r.concat(", arguments: ").concat(debug_list(arguments).as_str()).concat(" }")
        },
        ExprValue::FunctionCall { name, arguments } => {
            proof {
                assert(decreases_to!(e.value => e.value->FunctionCall_arguments));
            }
            let r = String::from_str("FunctionCall { name: ").concat(debug_string(name.as_str()).as_str());
            r.concat(", arguments: ").concat(debug_named(arguments).as_str()).concat(" }")
        },
    };
    let r = String::from_str("Expr { line: ").concat(usize_to_string(e.line).as_str());
    r.concat(", value: ").concat(v.as_str()).concat(" }")
}

/// Writes a list of expressions as `{:?}` does.
fn debug_list(items: &Vec<Expr>) -> (r: String)
    ensures
        r@ == list_debug_text(list_view(items@)),
    decreases items, 2int,
{
    String::from_str("[").concat(debug_list_items(items).as_str()).concat("]")
}

/// Writes the expressions of a list, separated by `, `.
fn debug_list_items(items: &Vec<Expr>) -> (r: String)
    ensures
        r@ == list_items_debug_text(list_view(items@)),
    decreases items, 1int,
{
    let mut out = String::new();
    let mut i: usize = 0;
    assert(items@.take(0) =~= Seq::<Expr>::empty());
    assert(out@ =~= list_items_debug_text(list_view(items@.take(0))));
    while i < items.len()
        invariant
            i <= items@.len(),
            out@ == list_items_debug_text(list_view(items@.take(i as int))),
        decreases items@.len() - i,
    {
        proof {
            assert(decreases_to!(*items => items[i as int]));
        }
        let t = debug_expr(&items[i]);
        let ghost t0 = items@.take(i as int);
        let ghost prev = out@;
        proof {
            lemma_list_view_push(t0, items@[i as int]);
            assert(items@.take(i + 1) =~= t0.push(items@[i as int]));
            assert(list_view(items@.take(i + 1)).drop_last() =~= list_view(t0));
        }
        if i > 0 {
            out.append(", ");
        }
        out.append(t.as_str());
        proof {
            if i == 0 {
                assert(prev =~= Seq::<char>::empty());
                assert(out@ =~= t@);
            }
        }
        i += 1;
    }
    assert(items@.take(i as int) =~= items@);
    out
}

/// Writes a list of pairs of expressions as `{:?}` does.
fn debug_pairs(items: &Vec<(Expr, Expr)>) -> (r: String)
    ensures
        r@ == pairs_debug_text(pairs_view(items@)),
    decreases items, 2int,
{
    String::from_str("[").concat(debug_pairs_items(items).as_str()).concat("]")
}

/// Writes the pairs of a list, each in parentheses, separated by `, `.
fn debug_pairs_items(items: &Vec<(Expr, Expr)>) -> (r: String)
    ensures
        r@ == pairs_items_debug_text(pairs_view(items@)),
    decreases items, 1int,
{
    let mut out = String::new();
    let mut i: usize = 0;
    assert(items@.take(0) =~= Seq::<(Expr, Expr)>::empty());
    assert(out@ =~= pairs_items_debug_text(pairs_view(items@.take(0))));
    while i < items.len()
        invariant
            i <= items@.len(),
            out@ == pairs_items_debug_text(pairs_view(items@.take(i as int))),
        decreases items@.len() - i,
    {
        proof {
            assert(decreases_to!(*items => items[i as int]));
        }
        let k = debug_expr(&items[i].0);
        let v = debug_expr(&items[i].1);
        let item = String::from_str("(").concat(k.as_str()).concat(", ").concat(v.as_str()).concat(")");
        let ghost t0 = items@.take(i as int);
        let ghost prev = out@;
        proof {
            lemma_pairs_view_push(t0, items@[i as int]);
            assert(items@.take(i + 1) =~= t0.push(items@[i as int]));
            assert(pairs_view(items@.take(i + 1)).drop_last() =~= pairs_view(t0));
        }
        if i > 0 {
            out.append(", ");
        }
        out.append(item.as_str());
        proof {
            if i == 0 {
                assert(prev =~= Seq::<char>::empty());
                assert(out@ =~= item@);
            }
        }
        i += 1;
    }
    assert(items@.take(i as int) =~= items@);
    out
}

/// Writes a list of optionally named arguments as `{:?}` does.
fn debug_named(items: &Vec<(Option<String>, Expr)>) -> (r: String)
    ensures
        r@ == named_debug_text(named_view(items@)),
    decreases items, 2int,
{
    String::from_str("[").concat(debug_named_items(items).as_str()).concat("]")
}

/// Writes the optionally named arguments of a list, each in parentheses,
/// separated by `, `.
fn debug_named_items(items: &Vec<(Option<String>, Expr)>) -> (r: String)
    ensures
        r@ == named_items_debug_text(named_view(items@)),
    decreases items, 1int,
{
    let mut out = String::new();
    let mut i: usize = 0;
    assert(items@.take(0) =~= Seq::<(Option<String>, Expr)>::empty());
    assert(out@ =~= named_items_debug_text(named_view(items@.take(0))));
    while i < items.len()
        invariant
            i <= items@.len(),
            out@ == named_items_debug_text(named_view(items@.take(i as int))),
        decreases items@.len() - i,
    {
        proof {
            assert(decreases_to!(*items => items[i as int]));
        }
        let n = match &items[i].0 {
            Some(n) => String::from_str("Some(").concat(debug_string(n.as_str()).as_str()).concat(")"),
            None => String::from_str("None"),
        };
        let v = debug_expr(&items[i].1);
        let item = String::from_str("(").concat(n.as_str()).concat(", ").concat(v.as_str()).concat(")");
        let ghost t0 = items@.take(i as int);
        let ghost prev = out@;
        proof {
            assert(items@.take(i + 1) =~= t0.push(items@[i as int]));
            assert(t0.push(items@[i as int]).drop_last() =~= t0);
            assert(named_view(items@.take(i + 1)).drop_last() =~= named_view(t0));
        }
        if i > 0 {
            out.append(", ");
        }
        out.append(item.as_str());
        proof {
            if i == 0 {
                assert(prev =~= Seq::<char>::empty());
                assert(out@ =~= item@);
            }
        }
        i += 1;
    }
    assert(items@.take(i as int) =~= items@);
    out
}

impl View for Expr {
    type V = ExprSpec;

    open spec fn view(&self) -> ExprSpec {
        expr_view(*self)
    }
}

/// The view of a list grows with the list.
pub proof fn lemma_list_view_push(s: Seq<Expr>, e: Expr)
    ensures
        list_view(s.push(e)) == list_view(s).push(expr_view(e)),
        list_view(s).len() == s.len(),
    decreases s.len(),
{
    assert(s.push(e).drop_last() =~= s);
    lemma_list_view_len(s);
}

pub proof fn lemma_list_view_len(s: Seq<Expr>)
    ensures
        list_view(s).len() == s.len(),
    decreases s.len(),
{
    if s.len() > 0 {
        lemma_list_view_len(s.drop_last());
    }
}

/// The view of a list of pairs grows with the list.
pub proof fn lemma_pairs_view_push(s: Seq<(Expr, Expr)>, p: (Expr, Expr))
    ensures
        pairs_view(s.push(p)) == pairs_view(s).push((expr_view(p.0), expr_view(p.1))),
{
    assert(s.push(p).drop_last() =~= s);
}

/// The value of a literal string at a line.
pub open spec fn str_constant(value: Seq<char>, line: usize) -> ExprSpec {
    ExprSpec { line, value: ExprValueSpec::Constant(ConstantSpec::Str(value)) }
}

/// Whether an expression can be computed without running the template:
/// literals, and arrays, hashes and signs of such.
pub open spec fn is_constant_spec(e: ExprSpec) -> bool
    decreases e, 0int,
{
    match e.value {
        ExprValueSpec::Array(items) => all_constant(items),
        ExprValueSpec::Hash(items) => all_pairs_constant(items),
        ExprValueSpec::Constant(_) => true,
        ExprValueSpec::UnaryOperator { value, expr } => (value == "-"@ || value == "+"@) && is_constant_spec(*expr),
        _ => false,
    }
}

/// Every expression of the list is constant.
pub open spec fn all_constant(s: Seq<ExprSpec>) -> bool
    decreases s, 1int,
{
    if s.len() == 0 {
        true
    } else {
        all_constant(s.drop_last()) && is_constant_spec(s.last())
    }
}

/// Every pair of the list is made of constants.
pub open spec fn all_pairs_constant(s: Seq<(ExprSpec, ExprSpec)>) -> bool
    decreases s, 1int,
{
    if s.len() == 0 {
        true
    } else {
        all_pairs_constant(s.drop_last()) && is_constant_spec(s.last().0) && is_constant_spec(s.last().1)
    }
}

/// A list of constants starts with constants.
pub proof fn lemma_all_constant_take(s: Seq<Expr>, n: int)
    requires
        0 <= n <= s.len(),
        all_constant(list_view(s)),
    ensures
        all_constant(list_view(s.take(n))),
    decreases s.len(),
{
    if n < s.len() {
        assert(s.drop_last().take(n) =~= s.take(n));
        assert(list_view(s) == list_view(s.drop_last()).push(expr_view(s.last())));
        assert(list_view(s).drop_last() =~= list_view(s.drop_last()));
        lemma_all_constant_take(s.drop_last(), n);
    } else {
        assert(s.take(n) =~= s);
    }
}

/// A list of constant pairs starts with constant pairs.
pub proof fn lemma_all_pairs_constant_take(s: Seq<(Expr, Expr)>, n: int)
    requires
        0 <= n <= s.len(),
        all_pairs_constant(pairs_view(s)),
    ensures
        all_pairs_constant(pairs_view(s.take(n))),
    decreases s.len(),
{
    if n < s.len() {
        assert(s.drop_last().take(n) =~= s.take(n));
        assert(pairs_view(s).drop_last() =~= pairs_view(s.drop_last()));
        lemma_all_pairs_constant_take(s.drop_last(), n);
    } else {
        assert(s.take(n) =~= s);
    }
}

/// `"-"` or `"+"`.
fn is_sign(s: &String) -> (r: bool)
    ensures
        r == (s@ == "-"@ || s@ == "+"@),
{
    let v = s.as_str();
    proof {
        reveal_strlit("-");
        reveal_strlit("+");
    }
    if v.unicode_len() != 1 {
        return false;
    }
    let c = v.get_char(0);
    assert(v@ =~= seq![c]);
    assert("-"@ =~= seq!['-']);
    assert("+"@ =~= seq!['+']);
    c == '-' || c == '+'
}

impl ExprConstant {
    /// A copy of this literal.
    pub fn duplicate(&self) -> (r: ExprConstant)
        ensures
            r@ == self@,
    {
        match self {
            ExprConstant::Str(s) => ExprConstant::Str(s.clone()),
            ExprConstant::Bool(b) => ExprConstant::Bool(*b),
            ExprConstant::Int(i) => ExprConstant::Int(*i),
            ExprConstant::Float(s) => ExprConstant::Float(s.clone()),
            ExprConstant::Big(s) => ExprConstant::Big(s.clone()),
            ExprConstant::Null => ExprConstant::Null,
        }
    }
}

/// A copy of a list of expressions.
fn duplicate_list(items: &Vec<Expr>) -> (r: Vec<Expr>)
    ensures
        list_view(r@) == list_view(items@),
    decreases items, 0int,
{
    let mut out: Vec<Expr> = Vec::new();
    let mut i: usize = 0;
    while i < items.len()
        invariant
            i <= items@.len(),
            list_view(out@) == list_view(items@.take(i as int)),
        decreases items@.len() - i,
    {
        proof {
            assert(decreases_to!(*items => items[i as int]));
        }
        let e = items[i].duplicate();
        proof {
            lemma_list_view_push(out@, e);
            lemma_list_view_push(items@.take(i as int), items@[i as int]);
            assert(items@.take(i + 1) =~= items@.take(i as int).push(items@[i as int]));
        }
        out.push(e);
        i += 1;
    }
    assert(items@.take(i as int) =~= items@);
    out
}

/// A copy of a list of pairs of expressions.
fn duplicate_pairs(items: &Vec<(Expr, Expr)>) -> (r: Vec<(Expr, Expr)>)
    ensures
        pairs_view(r@) == pairs_view(items@),
    decreases items, 0int,
{
    let mut out: Vec<(Expr, Expr)> = Vec::new();
    let mut i: usize = 0;
    while i < items.len()
        invariant
            i <= items@.len(),
            pairs_view(out@) == pairs_view(items@.take(i as int)),
        decreases items@.len() - i,
    {
        proof {
            assert(decreases_to!(*items => items[i as int]));
        }
        let k = items[i].0.duplicate();
        let v = items[i].1.duplicate();
        proof {
            lemma_pairs_view_push(out@, (k, v));
            lemma_pairs_view_push(items@.take(i as int), items@[i as int]);
            assert(items@.take(i + 1) =~= items@.take(i as int).push(items@[i as int]));
        }
        out.push((k, v));
        i += 1;
    }
    assert(items@.take(i as int) =~= items@);
    out
}

/// A copy of a list of optionally named expressions.
fn duplicate_named(items: &Vec<(Option<String>, Expr)>) -> (r: Vec<(Option<String>, Expr)>)
    ensures
        named_view(r@) == named_view(items@),
    decreases items, 0int,
{
    let mut out: Vec<(Option<String>, Expr)> = Vec::new();
    let mut i: usize = 0;
    while i < items.len()
        invariant
            i <= items@.len(),
            named_view(out@) == named_view(items@.take(i as int)),
        decreases items@.len() - i,
    {
        proof {
            assert(decreases_to!(*items => items[i as int]));
        }
        let n = match &items[i].0 {
            Some(n) => Some(n.clone()),
            None => None,
        };
        let v = items[i].1.duplicate();
        proof {
            assert(out@.push((n, v)).drop_last() =~= out@);
            let t = items@.take(i as int);
            assert(t.push(items@[i as int]).drop_last() =~= t);
            assert(items@.take(i + 1) =~= t.push(items@[i as int]));
        }
        out.push((n, v));
        i += 1;
    }
    assert(items@.take(i as int) =~= items@);
    out
}

impl Expr {
    /// A copy of this expression.
    pub fn duplicate(&self) -> (r: Expr)
        ensures
            r@ == self@,
        decreases self, 1int,
    {
        let value = match &self.value {
            ExprValue::Constant(c) => ExprValue::Constant(c.duplicate()),
            ExprValue::Name(n) => ExprValue::Name(n.clone()),
            ExprValue::AssignName(n) => ExprValue::AssignName(n.clone()),
            ExprValue::Array(items) => {
                proof {
                    assert(decreases_to!(self.value => self.value->Array_0));
                }
                ExprValue::Array(duplicate_list(items))
            },
            ExprValue::Hash(items) => {
                proof {
                    assert(decreases_to!(self.value => self.value->Hash_0));
                }
                ExprValue::Hash(duplicate_pairs(items))
            },
            ExprValue::UnaryOperator { value, expr } => ExprValue::UnaryOperator {
                value: value.clone(),
                expr: Box::new(expr.duplicate()),
            },
            ExprValue::BinaryOperator { value, left, right } => ExprValue::BinaryOperator {
                value: value.clone(),
                left: Box::new(left.duplicate()),
                right: Box::new(right.duplicate()),
            },
            ExprValue::Concat { left, right } => ExprValue::Concat {
                left: Box::new(left.duplicate()),
                right: Box::new(right.duplicate()),
            },
            ExprValue::Conditional { expr, yay, nay } => ExprValue::Conditional {
                expr: Box::new(expr.duplicate()),
                yay: Box::new(yay.duplicate()),
                nay: Box::new(nay.duplicate()),
            },
            ExprValue::GetAttr { node, arg, arguments, call_type } => {
                proof {
                    assert(decreases_to!(self.value => self.value->GetAttr_arguments));
                }
                ExprValue::GetAttr {
                    node: Box::new(node.duplicate()),
                    arg: Box::new(arg.duplicate()),
                    arguments: duplicate_list(arguments),
                    call_type: *call_type,
                }
            },
            ExprValue::ImportedFunctionCall { uuid, alias, arguments } => {
                proof {
                    assert(decreases_to!(self.value => self.value->ImportedFunctionCall_arguments));
                }
                ExprValue::ImportedFunctionCall {
                    uuid: *uuid,
                    alias: alias.clone(),
                    arguments: duplicate_list(arguments),
                }
            },
            ExprValue::FunctionCall { name, arguments } => {
                proof {
                    assert(decreases_to!(self.value => self.value->FunctionCall_arguments));
                }
                ExprValue::FunctionCall { name: name.clone(), arguments: duplicate_named(arguments) }
            },
        };
        Expr { line: self.line, value }
    }

    pub fn new_at(value: ExprValue, line: usize) -> (e: Expr)
        ensures
            e.line == line,
            e.value == value,
    {
        Expr { line, value }
    }

    pub fn new_array(value: Vec<Expr>, line: usize) -> (e: Expr)
        ensures
            e@ == (ExprSpec { line, value: ExprValueSpec::Array(list_view(value@)) }),
    {
        Expr::new_at(ExprValue::Array(value), line)
    }

    pub fn new_hash(value: Vec<(Expr, Expr)>, line: usize) -> (e: Expr)
        ensures
            e@ == (ExprSpec { line, value: ExprValueSpec::Hash(pairs_view(value@)) }),
    {
        Expr::new_at(ExprValue::Hash(value), line)
    }

    pub fn new_str_constant(value: &str, line: usize) -> (e: Expr)
        ensures
            e@ == str_constant(value@, line),
    {
        Expr::new_at(ExprValue::Constant(ExprConstant::Str(value.to_string())), line)
    }

    pub fn new_int_constant(value: i64, line: usize) -> (e: Expr)
        ensures
            e@ == (ExprSpec { line, value: ExprValueSpec::Constant(ConstantSpec::Int(value)) }),
    {
        Expr::new_at(ExprValue::Constant(ExprConstant::Int(value)), line)
    }

    pub fn new_bool(value: bool, line: usize) -> (e: Expr)
        ensures
            e@ == (ExprSpec { line, value: ExprValueSpec::Constant(ConstantSpec::Bool(value)) }),
    {
        Expr::new_at(ExprValue::Constant(ExprConstant::Bool(value)), line)
    }

    pub fn new_null(line: usize) -> (e: Expr)
        ensures
            e@ == (ExprSpec { line, value: ExprValueSpec::Constant(ConstantSpec::Null) }),
    {
        Expr::new_at(ExprValue::Constant(ExprConstant::Null), line)
    }

    pub fn new_name(name: &str, line: usize) -> (e: Expr)
        ensures
            e@ == (ExprSpec { line, value: ExprValueSpec::Name(name@) }),
    {
        Expr::new_at(ExprValue::Name(name.to_string()), line)
    }

    /// Whether the expression is a constant (see `is_constant_spec`).
    pub fn is_constant(&self) -> (r: bool)
        ensures
            r == is_constant_spec(self@),
        decreases self,
    {
        match &self.value {
            ExprValue::Array(items) => {
                let mut i: usize = 0;
                while i < items.len()
                    invariant
                        i <= items@.len(),
                        all_constant(list_view(items@.take(i as int))),
                        self.value == ExprValue::Array(*items),
                    decreases items@.len() - i,
                {
                    proof {
                        lemma_list_view_push(items@.take(i as int), items@[i as int]);
                        assert(items@.take(i + 1) =~= items@.take(i as int).push(items@[i as int]));
                    }
                    proof {
                        assert(decreases_to!(*self => self.value));
                        assert(decreases_to!(self.value => self.value->Array_0));
                        assert(decreases_to!(*items => items[i as int]));
                        assert(decreases_to!(*self => items@[i as int]));
                    }
                    if !items[i].is_constant() {
                        proof {
                            if all_constant(list_view(items@)) {
                                lemma_all_constant_take(items@, i + 1);
                            }
                        }
                        return false;
                    }
                    proof {
                        let x = list_view(items@.take(i as int));
                        assert(x.push(expr_view(items@[i as int])).drop_last() =~= x);
                    }
                    i += 1;
                }
                assert(items@.take(i as int) =~= items@);
                true
            },
            ExprValue::Hash(items) => {
                let mut i: usize = 0;
                while i < items.len()
                    invariant
                        i <= items@.len(),
                        all_pairs_constant(pairs_view(items@.take(i as int))),
                        self.value == ExprValue::Hash(*items),
                    decreases items@.len() - i,
                {
                    proof {
                        lemma_pairs_view_push(items@.take(i as int), items@[i as int]);
                        assert(items@.take(i + 1) =~= items@.take(i as int).push(items@[i as int]));
                    }
                    proof {
                        assert(decreases_to!(*self => self.value));
                        assert(decreases_to!(self.value => self.value->Hash_0));
                        assert(decreases_to!(*items => items[i as int]));
                        assert(decreases_to!(*self => items@[i as int].0));
                        assert(decreases_to!(*self => items@[i as int].1));
                    }
                    let k = items[i].0.is_constant();
                    let v = items[i].1.is_constant();
                    if !(k && v) {
                        proof {
                            if all_pairs_constant(pairs_view(items@)) {
                                lemma_all_pairs_constant_take(items@, i + 1);
                            }
                        }
                        return false;
                    }
                    proof {
                        let x = pairs_view(items@.take(i as int));
                        let pv = (expr_view(items@[i as int].0), expr_view(items@[i as int].1));
                        assert(x.push(pv).drop_last() =~= x);
                    }
                    i += 1;
                }
                assert(items@.take(i as int) =~= items@);
                true
            },
            ExprValue::Constant(_) => true,
            ExprValue::UnaryOperator { value, expr } => {
                if is_sign(value) {
                    expr.is_constant()
                } else {
                    false
                }
            },
            _ => false,
        }
    }
}

} // verus!
