//! The parse-time errors: an unresolvable command name, or malformed
//! arguments to a builtin or a dangling redirection operator.

use vstd::prelude::*;
use crate::tokenize::concat_str;

verus! {

/// An error raised while a raw line is turned into a command.
#[derive(Debug, PartialEq, Eq)]
pub enum CommandError {
    /// The first token is neither a builtin name nor resolvable on the
    /// search path.
    NotFound(String),
    /// A builtin received malformed arguments, or a redirection operator has
    /// no filename after it.
    InvalidArguments(String),
}

/// The mathematical value of a `CommandError`.
pub enum CommandErrorV {
    NotFound(Seq<char>),
    InvalidArguments(Seq<char>),
}

impl View for CommandError {
    type V = CommandErrorV;

    open spec fn view(&self) -> CommandErrorV {
        match self {
            CommandError::NotFound(name) => CommandErrorV::NotFound(name@),
            CommandError::InvalidArguments(what) => CommandErrorV::InvalidArguments(what@),
        }
    }
}

impl DeepView for CommandError {
    type V = CommandErrorV;

    open spec fn deep_view(&self) -> CommandErrorV {
        self.view()
    }
}

/// The message that the interactive loop prints for an error.
pub open spec fn error_message_spec(e: CommandErrorV) -> Seq<char> {
    match e {
        CommandErrorV::NotFound(name) => name + ": command not found"@,
        CommandErrorV::InvalidArguments(what) => "Invalid arguments for command '"@ + what
            + "'"@,
    }
}

impl CommandError {
    /// Render the error as the message the interactive loop prints.
    pub fn message(&self) -> (r: String)
        ensures
            r@ == error_message_spec(self@),
    {
        match self {
            CommandError::NotFound(name) => concat_str(name.as_str(), ": command not found"),
            CommandError::InvalidArguments(what) => {
                let head = concat_str("Invalid arguments for command '", what.as_str());
                concat_str(head.as_str(), "'")
            },
        }
    }
}

} // verus!
