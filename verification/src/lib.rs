//! Lexing and parsing of Twig templates.
use vstd::prelude::*;

pub mod chars;
pub mod environment;
pub mod error;
pub mod extension;
pub mod lexer;
pub mod loader;
pub mod nodes;
pub mod operator;
pub mod tokens;

pub use environment::{CompiledEnvironment, Environment};

verus! {

/// Takes what comes next, which should be `expected`.
pub trait Expect<V> {
    type Output;

    fn expect(&mut self, expected: V) -> Self::Output;
}

} // verus!
