//! A flow-sensitive readonly/mutable qualifier checker.
//!
//! `env` holds qualifiers, environments and their join; `eval` the qualifier
//! of an expression; `check` the assignment rules and the walk over a program,
//! which reports diagnostics and marks readonly values where they cross into
//! a call or an accepted assignment. Each walk is stated as spec functions
//! (`walk_*` for environments and diagnostics, `*_out` for the rewritten tree)
//! that the executable checker is proved to follow.
pub mod ast;
pub mod check;
pub mod env;
pub mod eval;
