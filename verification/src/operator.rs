//! Operators of the expression language.
use vstd::prelude::*;
use std::cmp::Ordering;

verus! {

/// Operator associativity.
#[derive(Debug, Copy, Clone, PartialEq, Eq, Structural, Ord)]
pub enum Associativity {
    Left,
    Right,
}

/// How associativities compare: `Left` comes before `Right`.
pub open spec fn associativity_cmp(a: Associativity, b: Associativity) -> Ordering {
    match (a, b) {
        (Associativity::Left, Associativity::Right) => Ordering::Less,
        (Associativity::Right, Associativity::Left) => Ordering::Greater,
        _ => Ordering::Equal,
    }
}

impl PartialOrd for Associativity {
    fn partial_cmp(&self, other: &Associativity) -> (r: Option<Ordering>) {
        match (*self, *other) {
            (Associativity::Left, Associativity::Right) => Some(Ordering::Less),
            (Associativity::Right, Associativity::Left) => Some(Ordering::Greater),
            _ => Some(Ordering::Equal),
        }
    }
}

impl vstd::std_specs::cmp::PartialOrdSpecImpl for Associativity {
    open spec fn obeys_partial_cmp_spec() -> bool {
        true
    }

    open spec fn partial_cmp_spec(&self, other: &Associativity) -> Option<Ordering> {
        Some(associativity_cmp(*self, *other))
    }
}

/// Associativities are totally ordered, with `Left` before `Right`:
/// comparing two of them gives `Equal` exactly when they are the same,
/// and comparing them the other way round gives the opposite answer.
pub proof fn law_associativity_order(a: Associativity, b: Associativity)
    ensures
        (associativity_cmp(a, b) == Ordering::Equal) <==> a == b,
        (associativity_cmp(a, b) == Ordering::Less) <==> (a == Associativity::Left && b
            == Associativity::Right),
        (associativity_cmp(a, b) == Ordering::Less) <==> (associativity_cmp(b, a)
            == Ordering::Greater),
{
}

/// Whether an operator takes one operand or two.
#[derive(PartialEq, Eq, Structural, Debug, Copy, Clone)]
pub enum OperatorKind {
    /// Single argument operator, i.e negation.
    Unary,
    /// Two argument operator, i.e sum.
    Binary(Associativity),
}

impl OperatorKind {
    pub fn new_binary_left() -> (k: OperatorKind)
        ensures
            k == OperatorKind::Binary(Associativity::Left),
    {
        OperatorKind::Binary(Associativity::Left)
    }

    pub fn new_binary_right() -> (k: OperatorKind)
        ensures
            k == OperatorKind::Binary(Associativity::Right),
    {
        OperatorKind::Binary(Associativity::Right)
    }

    pub fn new_unary() -> (k: OperatorKind)
        ensures
            k == OperatorKind::Unary,
    {
        OperatorKind::Unary
    }
}

/// The symbol of an operator, its precedence and its kind.
#[derive(Copy, Clone, Debug)]
pub struct OperatorOptions {
    pub value: &'static str,
    pub precedence: u16,
    pub kind: OperatorKind,
}

impl OperatorOptions {
    pub fn new_binary_left(chars: &'static str, precedence: u16) -> (o: OperatorOptions)
        ensures
            o.value == chars,
            o.precedence == precedence,
            o.kind == OperatorKind::Binary(Associativity::Left),
    {
        OperatorOptions { value: chars, precedence, kind: OperatorKind::new_binary_left() }
    }

    pub fn new_binary_right(chars: &'static str, precedence: u16) -> (o: OperatorOptions)
        ensures
            o.value == chars,
            o.precedence == precedence,
            o.kind == OperatorKind::Binary(Associativity::Right),
    {
        OperatorOptions { value: chars, precedence, kind: OperatorKind::new_binary_right() }
    }

    pub fn new_unary(chars: &'static str, precedence: u16) -> (o: OperatorOptions)
        ensures
            o.value == chars,
            o.precedence == precedence,
            o.kind == OperatorKind::Unary,
    {
        OperatorOptions { value: chars, precedence, kind: OperatorKind::new_unary() }
    }
}

/// An operator that an extension adds to the environment.
#[derive(Copy, Clone, Debug)]
pub struct Operator {
    pub options: OperatorOptions,
}

impl Operator {
    pub fn new_binary_left(chars: &'static str, precedence: u16) -> (o: Operator)
        ensures
            o.options.value == chars,
            o.options.precedence == precedence,
            o.options.kind == OperatorKind::Binary(Associativity::Left),
    {
        Operator { options: OperatorOptions::new_binary_left(chars, precedence) }
    }

    pub fn new_binary_right(chars: &'static str, precedence: u16) -> (o: Operator)
        ensures
            o.options.value == chars,
            o.options.precedence == precedence,
            o.options.kind == OperatorKind::Binary(Associativity::Right),
    {
        Operator { options: OperatorOptions::new_binary_right(chars, precedence) }
    }

    pub fn new_unary(chars: &'static str, precedence: u16) -> (o: Operator)
        ensures
            o.options.value == chars,
            o.options.precedence == precedence,
            o.options.kind == OperatorKind::Unary,
    {
        Operator { options: OperatorOptions::new_unary(chars, precedence) }
    }
}

} // verus!
