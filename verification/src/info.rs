//! The `info` command: what the bot says about a command.
use vstd::prelude::*;
use crate::command::{info_response, info_text};
use crate::command_word::{word_named, CommandWord, ParameterDoc};
use crate::nonempty::non_empty;
use crate::text::{push_str, trim, trim_bounds, string_of, to_chars};

verus! {

/// An `info` command: the command asked about.
pub struct InfoCommand {
    query: String,
}

impl View for InfoCommand {
    type V = Seq<char>;

    closed spec fn view(&self) -> Seq<char> {
        self.query@
    }
}

/// The reply to `info` about `query`: when `query` is a command word, the
/// information of that command; otherwise that it is not recognized.
pub open spec fn info_reply_text(query: Seq<char>) -> Seq<char> {
    if let Some(w) = word_named(query) {
        info_text(w)
    } else {
        "Command \""@ + query + "\" not recognized"@
    }
}

impl InfoCommand {
    /// Reads the parameter of an `info` command: the trimmed text, which
    /// must not be empty (refused with an empty message).
    pub fn parse(s: &str) -> (r: Result<InfoCommand, String>)
        ensures
            match r {
                Ok(c) => trim(s@).len() > 0 && c@ == trim(s@),
                Err(e) => trim(s@).len() == 0 && e@ == trim(s@),
            },
    {
        let v = to_chars(s);
        let (a, b) = trim_bounds(&v, 0, v.len());
        proof {
            assert(v@.subrange(0, v.len() as int) == s@);
        }
        let t = string_of(&v, a, b);
        match non_empty(t.as_str()) {
            Ok(query) => Ok(InfoCommand { query }),
            Err(e) => Err(e),
        }
    }

    /// The command asked about.
    pub fn query(&self) -> (r: &str)
        ensures
            r@ == self@,
    {
        self.query.as_str()
    }

    /// The reply (see `info_reply_text`).
    pub fn reply(&self) -> (r: String)
        ensures
            r@ == info_reply_text(self@),
    {
        match CommandWord::parse(self.query.as_str()) {
            Some(w) => info_response(w),
            None => {
                let mut r = String::from_str("Command \"");
                push_str(&mut r, self.query.as_str());
                push_str(&mut r, "\" not recognized");
                r
            },
        }
    }

    /// The word that starts the command.
    pub fn word() -> (r: &'static str)
        ensures
            r@ == crate::command_word::word_of(CommandWord::info),
    {
        CommandWord::info.word()
    }

    /// What the command does.
    pub fn description() -> (r: &'static str)
        ensures
            r@ == crate::command_word::description_of(CommandWord::info),
    {
        CommandWord::info.description()
    }

    /// What the command takes after its word.
    pub fn parameter_doc() -> (r: Option<ParameterDoc>)
        ensures
            match r {
                Some(p) => crate::command_word::parameter_of(CommandWord::info) == Some((p.example@, p.description@)),
                None => false,
            },
    {
        CommandWord::info.parameter_doc()
    }
}

impl std::str::FromStr for InfoCommand {
    type Err = String;

    /// Reads the query as `InfoCommand::parse` does.
    fn from_str(s: &str) -> (r: Result<InfoCommand, String>)
        ensures
            match r {
                Ok(c) => trim(s@).len() > 0 && c@ == trim(s@),
                Err(e) => trim(s@).len() == 0 && e@ == trim(s@),
            },
    {
        InfoCommand::parse(s)
    }
}

} // verus!
