//! The `delete` command: finding the groups and contacts to delete.
use vstd::prelude::*;
use crate::nonempty::non_empty;
use crate::text::{push_str, push_string};
use crate::unicode::{lowercase, to_lowercase};

verus! {

/// A `delete` command: the text to look for in names.
pub struct DeleteCommand {
    name: String,
}

impl View for DeleteCommand {
    type V = Seq<char>;

    closed spec fn view(&self) -> Seq<char> {
        self.name@
    }
}

impl DeleteCommand {
    #[verifier::type_invariant]
    spec fn well_formed(self) -> bool {
        self.name@.len() > 0
    }

    /// Reads the parameter of a `delete` command: any text but the empty
    /// one, which is refused with an empty message.
    pub fn parse(s: &str) -> (r: Result<DeleteCommand, String>)
        ensures
            match r {
                Ok(c) => s@.len() > 0 && c@ == s@,
                Err(e) => s@.len() == 0 && e@ == s@,
            },
    {
        match non_empty(s) {
            Ok(name) => Ok(DeleteCommand { name }),
            Err(e) => Err(e),
        }
    }

    /// The text to look for.
    pub fn name(&self) -> (r: &str)
        ensures
            r@ == self@,
            r@.len() > 0,
    {
        proof {
            use_type_invariant(self);
        }
        self.name.as_str()
    }

    /// The pattern that finds names containing the text, ignoring case:
    /// `%text%` with the text lowercased.
    pub fn like_pattern(&self) -> (r: String)
        ensures
            r@ == "%"@ + lowercase(self@) + "%"@,
    {
        let lowered = to_lowercase(self.name.as_str());
        let mut r = String::from_str("%");
        push_string(&mut r, &lowered);
        push_str(&mut r, "%");
        r
    }
}

impl std::str::FromStr for DeleteCommand {
    type Err = String;

    /// Reads the text as `DeleteCommand::parse` does.
    fn from_str(s: &str) -> (r: Result<DeleteCommand, String>)
        ensures
            match r {
                Ok(c) => s@.len() > 0 && c@ == s@,
                Err(e) => s@.len() == 0 && e@ == s@,
            },
    {
        DeleteCommand::parse(s)
    }
}

} // verus!
