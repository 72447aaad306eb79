//! Core logic of an interactive front-end over a test runner: parse the
//! runner's list-mode output into test identifiers, validate the user's
//! selection, compute the complement to exclude, and build the final
//! re-invocation command line.

pub mod command;
pub mod filter;
pub mod select;
pub mod text;
