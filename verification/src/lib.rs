//! A verified front end for the Workflow Description Language (WDL).
//!
//! The crate wraps an immutable concrete syntax tree of kinded nodes and
//! tokens in statically-typed views, walks it with a visitor-driven
//! pre-order traversal, and validates it into an ordered list of
//! diagnostics.

pub mod decl;
pub mod kind;
pub mod node;
pub mod render;
pub mod repository;
pub mod trace;
pub mod tree;
pub mod v1;
pub mod validation;
pub mod visitor;
