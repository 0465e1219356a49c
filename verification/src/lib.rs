//! A verified core for an interactive command-line shell: tokenization with
//! shell-style quoting and escaping, redirection-operator extraction, command
//! resolution against builtins and a search path, and the pure decision logic
//! of the builtin commands.

pub mod builtins;
pub mod command;
pub mod completion;
pub mod error;
pub mod numbers;
pub mod redirect;
pub mod tokenize;
