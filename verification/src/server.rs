//! How the language server is started.
//!
//! The editor looks the server's executable up on the search path of the
//! project; this module says which name to look up and what to do with the
//! answer.

use vstd::prelude::*;
use vstd::string::*;

verus! {

/// How to start a process: the executable, its arguments and the environment
/// variables to set for it.
#[derive(Clone, Debug, PartialEq, Eq)]
pub struct Command {
    pub command: String,
    pub args: Vec<String>,
    pub env: Vec<(String, String)>,
}

/// The name of the language server's executable.
pub open spec fn server_binary() -> Seq<char> {
    "c3lsp"@
}

/// What is reported where the executable is not on the search path.
pub open spec fn missing_server_message() -> Seq<char> {
    "c3lsp must be in your path"@
}

/// The report of a missing executable is not empty.
pub proof fn lemma_missing_server_message_not_empty()
    ensures
        missing_server_message().len() > 0,
{
    reveal_strlit("c3lsp must be in your path");
}

/// The name to look up on the search path.
pub fn server_binary_name() -> (name: &'static str)
    ensures
        name@ == server_binary(),
{
    "c3lsp"
}

/// The command that starts the language server, given what the lookup of
/// its executable found: the path that was found, with no arguments and no
/// environment variables, or the report that the executable is missing.
pub fn language_server_command(found: Option<String>) -> (command: Result<Command, String>)
    ensures
        match found {
            Some(path) => command matches Ok(c) && c.command@ == path@ && c.args@.len() == 0
                && c.env@.len() == 0,
            None => command matches Err(message) && message@ == missing_server_message()
                && message@.len() > 0,
        },
{
    match found {
        Some(path) => Ok(Command { command: path, args: Vec::new(), env: Vec::new() }),
        None => {
            proof {
                lemma_missing_server_message_not_empty();
            }
            Err(String::from_str("c3lsp must be in your path"))
        },
    }
}

} // verus!
