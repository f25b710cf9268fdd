//! The `help` and `stop` commands, which take no parameter.
use vstd::prelude::*;
use crate::command::{help_response, help_text, unsubscribed_response, unsubscribed_text};

verus! {

/// A `help` command.
pub struct HelpCommand;

impl HelpCommand {
    /// Reads a `help` command; whatever follows the word is ignored.
    pub fn parse(_s: &str) -> (r: HelpCommand) {
        HelpCommand
    }

    /// The word that starts the command.
    pub fn word() -> (r: &'static str)
        ensures
            r@ == "help"@,
    {
        "help"
    }

    /// What the command does.
    pub fn description() -> (r: &'static str)
        ensures
            r@ == "show a list of available commands and any pending actions"@,
    {
        "show a list of available commands and any pending actions"
    }

    /// The command takes no parameter.
    pub fn parameter_doc() -> (r: Option<crate::command_word::ParameterDoc>)
        ensures
            r is None,
    {
        None
    }

    /// The reply, given the reminder of a pending action if there is one
    /// (see `help_text`).
    pub fn reply(&self, pending_prompt: Option<String>) -> (r: String)
        ensures
            r@ == help_text(match pending_prompt {
                Some(p) => Some(p@),
                None => None,
            }),
    {
        help_response(pending_prompt)
    }
}

impl std::str::FromStr for HelpCommand {
    type Err = String;

    /// Reads a `help` command; never fails.
    fn from_str(s: &str) -> (r: Result<HelpCommand, String>)
        ensures
            r is Ok,
    {
        Ok(HelpCommand::parse(s))
    }
}

/// A `stop` command.
pub struct StopCommand;

impl StopCommand {
    /// Reads a `stop` command; whatever follows the word is ignored.
    pub fn parse(_s: &str) -> (r: StopCommand) {
        StopCommand
    }

    /// The reply once the user is removed.
    pub fn reply(&self) -> (r: String)
        ensures
            r@ == unsubscribed_text(),
    {
        unsubscribed_response()
    }
}

impl std::str::FromStr for StopCommand {
    type Err = String;

    /// Reads a `stop` command; never fails.
    fn from_str(s: &str) -> (r: Result<StopCommand, String>)
        ensures
            r is Ok,
    {
        Ok(StopCommand::parse(s))
    }
}

} // verus!
