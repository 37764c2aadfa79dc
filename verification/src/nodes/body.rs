//! Template body nodes, and the values they stand for.
use vstd::prelude::*;
use crate::nodes::expr::{Expr, ExprSpec, expr_view};

verus! {

broadcast use vstd::std_specs::vec::group_vec_axioms;

/// What an import brings in.
#[derive(Debug)]
pub enum ImportTarget {
    Function { symbol: String },
}

/// A part of a template.
#[derive(Debug)]
pub enum Body {
    List { items: Vec<Body> },
    Text { value: String, line: usize },
    Print { expr: Box<Expr>, line: usize },
    Import {
        /// The template to import from.
        source: Box<Expr>,
        /// For each imported function: its key, its alias and what it is.
        targets: Vec<(u128, String, ImportTarget)>,
        line: usize,
    },
    Macro { name: String, body: Box<Body>, arguments: Vec<(String, Expr)>, line: usize },
}

/// The value of an import target.
pub enum ImportTargetSpec {
    Function { symbol: Seq<char> },
}

/// The value of a body: the same tree, with sequences for texts and lists.
pub enum BodySpec {
    List { items: Seq<BodySpec> },
    Text { value: Seq<char>, line: usize },
    Print { expr: ExprSpec, line: usize },
    Import { source: ExprSpec, targets: Seq<(u128, Seq<char>, ImportTargetSpec)>, line: usize },
    Macro { name: Seq<char>, body: Box<BodySpec>, arguments: Seq<(Seq<char>, ExprSpec)>, line: usize },
}

impl View for ImportTarget {
    type V = ImportTargetSpec;

    open spec fn view(&self) -> ImportTargetSpec {
        match self {
            ImportTarget::Function { symbol } => ImportTargetSpec::Function { symbol: symbol@ },
        }
    }
}

/// The values of import targets.
pub open spec fn targets_view(s: Seq<(u128, String, ImportTarget)>) -> Seq<(u128, Seq<char>, ImportTargetSpec)> {
    s.map_values(|t: (u128, String, ImportTarget)| (t.0, t.1@, t.2@))
}

/// The values of named arguments.
pub open spec fn arguments_view(s: Seq<(String, Expr)>) -> Seq<(Seq<char>, ExprSpec)> {
    s.map_values(|a: (String, Expr)| (a.0@, expr_view(a.1)))
}

/// The value of a body.
pub open spec fn body_view(b: Body) -> BodySpec
    decreases b, 0int,
{
    match b {
        Body::List { items } => BodySpec::List { items: bodies_view(items@) },
        Body::Text { value, line } => BodySpec::Text { value: value@, line },
        Body::Print { expr, line } => BodySpec::Print { expr: expr_view(*expr), line },
        Body::Import { source, targets, line } => BodySpec::Import {
            source: expr_view(*source),
            targets: targets_view(targets@),
            line,
        },
        Body::Macro { name, body, arguments, line } => BodySpec::Macro {
            name: name@,
            body: Box::new(body_view(*body)),
            arguments: arguments_view(arguments@),
            line,
        },
    }
}

/// The values of a list of bodies.
pub open spec fn bodies_view(s: Seq<Body>) -> Seq<BodySpec>
    decreases s, 1int,
{
    if s.len() == 0 {
        seq![]
    } else {
        bodies_view(s.drop_last()).push(body_view(s.last()))
    }
}

impl View for Body {
    type V = BodySpec;

    open spec fn view(&self) -> BodySpec {
        body_view(*self)
    }
}

/// The view of a list of bodies grows with the list.
pub proof fn lemma_bodies_view_push(s: Seq<Body>, b: Body)
    ensures
        bodies_view(s.push(b)) == bodies_view(s).push(body_view(b)),
{
    assert(s.push(b).drop_last() =~= s);
}

/// The view of a list of bodies has its length.
pub proof fn lemma_bodies_view_len(s: Seq<Body>)
    ensures
        bodies_view(s).len() == s.len(),
    decreases s.len(),
{
    if s.len() > 0 {
        lemma_bodies_view_len(s.drop_last());
    }
}

/// The view of a list of bodies holds the views of its items.
pub proof fn lemma_bodies_view_index(s: Seq<Body>, i: int)
    requires
        0 <= i < s.len(),
    ensures
        bodies_view(s).len() == s.len(),
        bodies_view(s)[i] == body_view(s[i]),
    decreases s.len(),
{
    lemma_bodies_view_len(s);
    if i < s.len() - 1 {
        lemma_bodies_view_index(s.drop_last(), i);
    }
}

impl Body {
    /// An empty list.
    pub fn new() -> (b: Body)
        ensures
            b@ == (BodySpec::List { items: seq![] }),
    {
        let items: Vec<Body> = Vec::new();
        assert(bodies_view(items@) =~= seq![]);
        Body::List { items }
    }

    /// The printed expression of a print node.
    pub fn expect_print(&self) -> (e: &Expr)
        requires
            self is Print,
        ensures
            *e == *self->Print_expr,
    {
        match self {
            Body::Print { expr, .. } => expr,
            _ => {
                vstd::pervasive::unreached()
            },
        }
    }

    /// The items of a list node.
    pub fn expect_list(&self) -> (l: &Vec<Body>)
        requires
            self is List,
        ensures
            *l == self->List_items,
    {
        match self {
            Body::List { items } => items,
            _ => {
                vstd::pervasive::unreached()
            },
        }
    }
}

/// A node of an older body form: an expression, or a list of nodes.
#[derive(Debug)]
pub enum BodyNode {
    Expr(Expr),
    List(Vec<BodyNode>),
}

impl BodyNode {
    /// An empty list.
    pub fn new() -> (b: BodyNode)
        ensures
            b matches BodyNode::List(v) && v@.len() == 0,
    {
        BodyNode::List(Vec::new())
    }

    /// The expression of an expression node.
    pub fn expect_expr(&self) -> (e: &Expr)
        requires
            self is Expr,
        ensures
            *e == self->Expr_0,
    {
        match self {
            BodyNode::Expr(e) => e,
            _ => {
                vstd::pervasive::unreached()
            },
        }
    }
}

} // verus!
