//! Type-inference kernel for a statically typed language compiling to a
//! Python-compatible bytecode: algebraic type terms with shared, possibly
//! cyclic structure, free-variable cells with undoable speculative links,
//! sandwich constraints, level-based generalization, and the method-linking
//! pass that folds `Methods` blocks into their class definitions.

use vstd::prelude::*;

pub mod cmp;
pub mod constraint;
pub mod display;
pub mod error;
pub mod free;
pub mod level;
pub mod linker;
pub mod strutil;
pub mod ty;

verus! {

/// Binding depth of a free variable; `GENERIC_LEVEL` marks generalized ones.
pub type Level = usize;

/// Identifier of an anonymous unbound variable, unique per store.
pub type Id = usize;

/// Sentinel level of a generalized (universally quantified) variable.
pub const GENERIC_LEVEL: usize = usize::MAX;

} // verus!
