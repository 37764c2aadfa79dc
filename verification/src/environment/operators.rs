//! Operators as a plain enumeration of their two kinds.
use vstd::prelude::*;
use std::cmp::Ordering;

verus! {

/// An operator and its precedence.
#[derive(Copy, Clone)]
pub enum Operator {
    /// Single argument operator, i.e negation.
    Unary { value: &'static str, precedence: u16 },
    /// Two argument operator, i.e sum.
    Binary { value: &'static str, precedence: u16, associativity: Associativity },
}

impl Operator {
    pub open spec fn spec_value(&self) -> &'static str {
        match *self {
            Operator::Binary { value, .. } => value,
            Operator::Unary { value, .. } => value,
        }
    }

    pub fn value(&self) -> (r: &'static str)
        ensures
            r == self.spec_value(),
    {
        match *self {
            Operator::Binary { value, .. } => value,
            Operator::Unary { value, .. } => value,
        }
    }

    pub fn new_binary_left(chars: &'static str, precedence: u16) -> (o: Operator)
        ensures
            o == (Operator::Binary { value: chars, precedence, associativity: Associativity::Left }),
    {
        Operator::Binary { value: chars, precedence, associativity: Associativity::Left }
    }

    pub fn new_binary_right(chars: &'static str, precedence: u16) -> (o: Operator)
        ensures
            o == (Operator::Binary { value: chars, precedence, associativity: Associativity::Right }),
    {
        Operator::Binary { value: chars, precedence, associativity: Associativity::Right }
    }

    pub fn new_unary(chars: &'static str, precedence: u16) -> (o: Operator)
        ensures
            o == (Operator::Unary { value: chars, precedence }),
    {
        Operator::Unary { value: chars, precedence }
    }
}

/// Operator associativity.
#[derive(Copy, Clone, Eq, PartialEq, Structural, Ord, Debug)]
pub enum Associativity {
    Left,
    Right,
}

/// How associativities compare: `Left` comes before `Right`.
pub open spec fn associativity_order(a: Associativity, b: Associativity) -> Ordering {
    match (a, b) {
        (Associativity::Left, Associativity::Right) => Ordering::Less,
        (Associativity::Right, Associativity::Left) => Ordering::Greater,
        _ => Ordering::Equal,
    }
}

impl PartialOrd for Associativity {
    fn partial_cmp(&self, other: &Associativity) -> (r: Option<Ordering>) {
        match (*self, *other) {
            (Associativity::Left, Associativity::Right) => Some(Ordering::Less),
            (Associativity::Right, Associativity::Left) => Some(Ordering::Greater),
            _ => Some(Ordering::Equal),
        }
    }
}

impl vstd::std_specs::cmp::PartialOrdSpecImpl for Associativity {
    open spec fn obeys_partial_cmp_spec() -> bool {
        true
    }

    open spec fn partial_cmp_spec(&self, other: &Associativity) -> Option<Ordering> {
        Some(associativity_order(*self, *other))
    }
}

/// Associativities are totally ordered, with `Left` before `Right`.
pub proof fn law_associativity_order(a: Associativity, b: Associativity)
    ensures
        (associativity_order(a, b) == Ordering::Equal) <==> a == b,
        (associativity_order(a, b) == Ordering::Less) <==> (a == Associativity::Left && b
            == Associativity::Right),
        (associativity_order(a, b) == Ordering::Less) <==> (associativity_order(b, a)
            == Ordering::Greater),
{
}

} // verus!
