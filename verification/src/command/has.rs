//! Asking whether a selector finds any fragment.

use vstd::prelude::*;
use crate::cli::Selector;

verus! {

/// How the answer is given.
#[derive(Clone, Copy, Debug, PartialEq, Eq)]
pub enum HasFormat {
    /// By the exit code of the process.
    ExitCode,
    /// As a JSON document.
    Json,
}

/// The command that asks whether fragments exist.
#[derive(Debug)]
pub struct HasCommand {
    pub format: Option<HasFormat>,
    pub selector: Selector,
}

/// The answer as a document: the version of the program, the selector asked
/// with, and the paths found.
#[derive(Debug)]
pub struct HasReply {
    pub version: String,
    pub selector: Selector,
    pub pathes: Vec<String>,
}

/// The answer of the command.
#[derive(Debug)]
pub enum HasAnswer {
    /// The process ends with success where fragments were found and with
    /// failure where none was.
    Exit { success: bool },
    /// The document to print; the process ends with success.
    Reply(HasReply),
}

impl HasCommand {
    /// Answers the question, given the paths that the selector found and the
    /// version of the program.
    pub fn answer(&self, pathes: Vec<String>, program_version: &str) -> (r: HasAnswer)
        ensures
            match self.format {
                Some(HasFormat::Json) => r matches HasAnswer::Reply(reply) && reply.version@
                    == program_version@ && reply.selector@ == self.selector@ && reply.pathes
                    == pathes,
                _ => r matches HasAnswer::Exit { success } && success == (pathes@.len() > 0),
            },
    {
        match self.format {
            Some(HasFormat::Json) => HasAnswer::Reply(
                HasReply {
                    version: program_version.to_owned(),
                    selector: self.selector.clone(),
                    pathes,
                },
            ),
            _ => HasAnswer::Exit { success: pathes.len() > 0 },
        }
    }
}

} // verus!
