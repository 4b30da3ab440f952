//! A tree-walking evaluator for a small dynamically typed expression
//! language.  Programs are abstract syntax trees of [`ast::Term`] nodes;
//! evaluation reduces a term to a final value term, representing every
//! run-time failure as an in-language `Error` term rather than a host
//! fault.
//!
//! The crate is organised as:
//! - [`ast`]: the term language and its mathematical view,
//! - [`env`]: the scope-chain environment, an arena of frames,
//! - [`semantics`]: the definitional semantics as specification functions,
//! - [`text`]: verified decimal rendering used by error messages and `print`,
//! - [`eval`]: the executable evaluator, proved to follow the semantics,
//! - [`laws`]: proved general properties of the semantics.

pub mod ast;
pub mod env;
pub mod eval;
pub mod laws;
pub mod semantics;
pub mod text;
