//! Semantic-analysis core for a small, statically typed, ownership-based
//! language. The crate sits between a parser and a code generator: it takes
//! a syntactically well-formed program and either validates it or collects
//! diagnostics. The pieces are:
//!
//! - [`diag`]: the diagnostic records and the shared reporter sink;
//! - [`place`]: rooted access paths, the unit of move and borrow tracking;
//! - [`ty`]: the type algebra and the unifier, including the transient
//!   ambiguous type given to control-flow expressions used as values;
//! - [`scopes`]: the symbol table with lexical scoping and shadowing;
//! - [`constval`]: compile-time evaluation of constant expressions;
//! - [`moves`]: ownership and move state per place;
//! - [`borrows`]: shared and exclusive borrows and their conflict rules;
//! - [`mutability`]: assignability of a write target through its path;
//! - [`paths`]: resolution of `Type::item` path expressions;
//! - [`infer`]: bottom-up typing of expressions and the structural checks;
//! - [`scenarios`]: worked analyses of small representative programs, with
//!   what each one must report, stated in its contract.

pub mod borrows;
pub mod constval;
pub mod diag;
pub mod infer;
pub mod moves;
pub mod mutability;
pub mod paths;
pub mod place;
pub mod scenarios;
pub mod scopes;
pub mod ty;
