//! Verified core of a bare-metal aarch64 kernel and its embedded Lisp.
pub mod aarch64;
pub mod driver;
pub mod kernel;
pub mod parser;
pub mod semantics;
pub mod strs;
