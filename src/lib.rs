//! Core of a small interactive command interpreter: word splitting with
//! POSIX-style quoting, output-redirection extraction, a fixed registry of
//! builtin commands and the per-line dispatch decisions of the shell loop.
//! Everything that touches the operating system is left to the caller.

pub mod builtins;
pub mod laws;
pub mod parser;
pub mod shell;
pub mod text;
pub mod utils;
