//! Type inference for the embedded Lisp dialect.
pub mod ast;
pub mod conv;
pub mod copies;
pub mod datacheck;
pub mod infer;
pub mod inference;
pub mod strmap;
pub mod types;
pub mod typing;
