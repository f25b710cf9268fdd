//! The rules for a user's display name.
use vstd::prelude::*;
use vstd::utf8::encode_utf8;
use crate::command_word::{usage_of, CommandWord};
use crate::nonempty::non_empty;
use crate::text::{string_of, to_chars, trim, trim_bounds};
use crate::text::{decimal, join, join_strings, push_str, push_string, string_views, usize_to_string};

verus! {

/// The most bytes a name may take.
pub const MAX_NAME_LEN: usize = 20;

/// The length of `s` in bytes, as `str::len` reports it.
pub open spec fn byte_len(s: Seq<char>) -> nat {
    (encode_utf8(s).len() as usize) as nat
}

/// Why a name is refused: when empty, the usage of the `name` command;
/// when longer than twenty bytes, how long it is. `None` when it is fine.
pub open spec fn name_error(n: Seq<char>) -> Option<Seq<char>> {
    if n.len() == 0 {
        Some(usage_of(CommandWord::name))
    } else if byte_len(n) > 20 {
        Some("That name is "@ + decimal(byte_len(n)) + " characters long.\nPlease shorten it to 20 characters or less."@)
    } else {
        None
    }
}

/// The name that the words of a `name` command spell: the words joined by
/// single spaces.
pub open spec fn name_from_words(words: Seq<Seq<char>>) -> Seq<char> {
    join(words, " "@)
}

/// The message for a refused name (see `name_error`), or `None`.
pub fn name_problem(name: &str) -> (r: Option<String>)
    ensures
        match r {
            Some(e) => name_error(name@) == Some(e@),
            None => name_error(name@) is None,
        },
{
    if name.is_empty() {
        return Some(CommandWord::name.usage());
    }
    let n = name.len();
    if n > MAX_NAME_LEN {
        let mut m = String::from_str("That name is ");
        let d = usize_to_string(n);
        push_string(&mut m, &d);
        push_str(&mut m, " characters long.\nPlease shorten it to 20 characters or less.");
        return Some(m);
    }
    None
}

/// Accepts a name of one to twenty bytes.
pub fn validate_name(name: &str) -> (r: Result<(), String>)
    ensures
        match r {
            Ok(()) => name_error(name@) is None,
            Err(e) => name_error(name@) == Some(e@),
        },
{
    match name_problem(name) {
        Some(e) => Err(e),
        None => Ok(()),
    }
}

/// The name spelled by the words after `name`, if it is acceptable.
pub fn process_name(words: &[String]) -> (r: Result<String, String>)
    ensures
        match r {
            Ok(n) => name_error(name_from_words(string_views(words@))) is None
                && n@ == name_from_words(string_views(words@)),
            Err(e) => name_error(name_from_words(string_views(words@))) == Some(e@),
        },
{
    let name = join_strings(words, " ");
    match name_problem(name.as_str()) {
        Some(e) => Err(e),
        None => Ok(name),
    }
}


/// A `name` command: the name to store.
pub struct NameCommand {
    name: String,
}

impl View for NameCommand {
    type V = Seq<char>;

    closed spec fn view(&self) -> Seq<char> {
        self.name@
    }
}

impl NameCommand {
    /// Reads the parameter of a `name` command: the trimmed text, which
    /// must not be empty (refused with an empty message).
    pub fn parse(s: &str) -> (r: Result<NameCommand, String>)
        ensures
            match r {
                Ok(c) => trim(s@).len() > 0 && c@ == trim(s@),
                Err(e) => trim(s@).len() == 0 && e@ == trim(s@),
            },
    {
        let v = to_chars(s);
        let (a, b) = trim_bounds(&v, 0, v.len());
        proof {
            assert(v@.subrange(0, v.len() as int) == s@);
        }
        let t = string_of(&v, a, b);
        match non_empty(t.as_str()) {
            Ok(name) => Ok(NameCommand { name }),
            Err(e) => Err(e),
        }
    }

    /// The name to store, once it passes `validate_name`; otherwise why it
    /// is refused.
    pub fn checked_name(&self) -> (r: Result<&str, String>)
        ensures
            match r {
                Ok(n) => name_error(self@) is None && n@ == self@,
                Err(e) => name_error(self@) == Some(e@),
            },
    {
        match validate_name(self.name.as_str()) {
            Ok(()) => Ok(self.name.as_str()),
            Err(e) => Err(e),
        }
    }
}

impl std::str::FromStr for NameCommand {
    type Err = String;

    /// Reads the name as `NameCommand::parse` does.
    fn from_str(s: &str) -> (r: Result<NameCommand, String>)
        ensures
            match r {
                Ok(c) => trim(s@).len() > 0 && c@ == trim(s@),
                Err(e) => trim(s@).len() == 0 && e@ == trim(s@),
            },
    {
        NameCommand::parse(s)
    }
}
} // verus!
