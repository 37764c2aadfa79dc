//! Extensions add operators and tag parsers to an environment.
use vstd::prelude::*;
use crate::environment::Environment;

pub mod core_extension;

pub use self::core_extension::{CoreExtension, core_operator_table, core_tags};

verus! {

/// Implement this trait to create a new Twig extension.
pub trait Extension {
    fn apply(env: &mut Environment);
}

} // verus!
