//! Rewriting of a class's static property initializers for their move out of
//! the class body: `this` and references to the class name become reads of the
//! class's temporary binding, first-level scopes are re-parented, and strict
//! mode flags follow the code to where it now stands.

pub mod ast;
pub mod bindings;
pub mod invariants;
pub mod laws;
pub mod model;
pub mod ready;
pub mod scope_tree;
pub mod settled;
pub mod symbol_table;
pub mod visitor;
