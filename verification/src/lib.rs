//! The syntax tree of a POSIX shell script and a verified interpreter for it.

pub mod ast;
pub mod child;
pub mod constructs;
pub mod env;
pub mod glob;
pub mod laws;
pub mod machine;
pub mod semantics;
pub mod simulation;
pub mod word;
