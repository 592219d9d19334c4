//! Core logic of a small interactive command interpreter.
//!
//! The crate holds the pieces that decide what the interpreter does:
//! the quote-aware tokenizer that splits an input line into a command
//! name and its arguments, the closed set of builtin commands, the
//! search-path resolver that classifies a command name as an
//! executable, a non-executable file, or nothing, and the dispatch
//! rules that turn a parsed command into a single action.  All
//! input/output, environment access and process spawning stay with the
//! caller: every function here is a pure computation with a contract.

pub mod builtins;
pub mod dispatch;
pub mod numbers;
pub mod resolver;
pub mod strutil;
pub mod tokenizer;

pub use tokenizer::Shell;
