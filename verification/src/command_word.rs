//! The words that start a command, and what the bot says about each.
use vstd::prelude::*;
use crate::text::{push_str, str_eq};

verus! {

/// The word that starts a command, in the order the help lists them.
#[allow(non_camel_case_types)]
#[derive(Debug, Clone, Copy, PartialEq, Eq, Structural)]
pub enum CommandWord {
    h,
    name,
    info,
    stop,
    confirm,
    contacts,
    delete,
    group,
}

/// What a command takes after its word: an example and a description.
#[derive(Debug)]
pub struct ParameterDoc {
    pub example: String,
    pub description: String,
}

impl Clone for ParameterDoc {
    fn clone(&self) -> (r: Self)
        ensures
            r == *self,
    {
        ParameterDoc { example: self.example.clone(), description: self.description.clone() }
    }
}

/// All command words, in the order the help lists them.
pub open spec fn all_words() -> Seq<CommandWord> {
    seq![
        CommandWord::h,
        CommandWord::name,
        CommandWord::info,
        CommandWord::stop,
        CommandWord::confirm,
        CommandWord::contacts,
        CommandWord::delete,
        CommandWord::group,
    ]
}

/// The word itself.
pub open spec fn word_of(c: CommandWord) -> Seq<char> {
    match c {
        CommandWord::h => "h"@,
        CommandWord::name => "name"@,
        CommandWord::info => "info"@,
        CommandWord::stop => "stop"@,
        CommandWord::confirm => "confirm"@,
        CommandWord::contacts => "contacts"@,
        CommandWord::delete => "delete"@,
        CommandWord::group => "group"@,
    }
}

/// What the command does.
pub open spec fn description_of(c: CommandWord) -> Seq<char> {
    match c {
        CommandWord::h => "show a list of available commands and any pending actions"@,
        CommandWord::name => "set your preferred name"@,
        CommandWord::info => "see information about a command"@,
        CommandWord::stop => "unsubscribe and delete your account"@,
        CommandWord::confirm => "confirm pending actions"@,
        CommandWord::contacts => "see your groups and contacts"@,
        CommandWord::delete => "delete contacts or groups"@,
        CommandWord::group => "create a new group from your contacts"@,
    }
}

/// The example and the description of the command's parameter, if it has one.
pub open spec fn parameter_of(c: CommandWord) -> Option<(Seq<char>, Seq<char>)> {
    match c {
        CommandWord::name => Some(("Sam C."@, "your preferred name"@)),
        CommandWord::info => Some(("name"@, "a command"@)),
        CommandWord::confirm => Some((
            "1,2"@,
            "a comma-separated list of choices to confirm (based on a preceding list provided)"@,
        )),
        CommandWord::delete => Some(("Alice"@, "part of the name of the contacts or groups to delete"@)),
        CommandWord::group => Some(("John, Alice"@, "comma-separated list of contact name fragments"@)),
        _ => None,
    }
}

/// How to write the command: `Reply "word X"`, or `Reply "word"` when it
/// takes nothing.
pub open spec fn usage_of(c: CommandWord) -> Seq<char> {
    "Reply \""@ + word_of(c) + (if parameter_of(c) is Some { " X"@ } else { Seq::empty() }) + "\""@
}

/// The usage and what it does: `Reply "word X", to do this.`
pub open spec fn hint_of(c: CommandWord) -> Seq<char> {
    usage_of(c) + ", to "@ + description_of(c) + "."@
}

/// What the parameter is, with an example, on a line of its own; nothing
/// when the command takes no parameter.
pub open spec fn example_of(c: CommandWord) -> Seq<char> {
    match parameter_of(c) {
        Some((ex, d)) => "\nX is "@ + d + ", for example \""@ + word_of(c) + " "@ + ex + "\""@,
        None => Seq::empty(),
    }
}

/// How the help lists the command: `word X: what it does`.
pub open spec fn display_of(c: CommandWord) -> Seq<char> {
    word_of(c) + (if parameter_of(c) is Some { " X"@ } else { Seq::empty() }) + ": "@ + description_of(c)
}

/// The command word that `w` spells exactly, if any.
pub open spec fn word_named(w: Seq<char>) -> Option<CommandWord> {
    if exists|i: int| 0 <= i < all_words().len() && word_of(#[trigger] all_words()[i]) == w {
        Some(all_words()[choose|i: int| 0 <= i < all_words().len() && word_of(#[trigger] all_words()[i]) == w])
    } else {
        None
    }
}

impl CommandWord {
    /// All command words, in the order the help lists them.
    pub fn all() -> (r: Vec<CommandWord>)
        ensures
            r@ == all_words(),
    {
        let r = vec![
            CommandWord::h,
            CommandWord::name,
            CommandWord::info,
            CommandWord::stop,
            CommandWord::confirm,
            CommandWord::contacts,
            CommandWord::delete,
            CommandWord::group,
        ];
        proof {
            assert(r@ =~= all_words());
        }
        r
    }

    /// The word itself.
    pub fn word(&self) -> (r: &'static str)
        ensures
            r@ == word_of(*self),
    {
        match self {
            CommandWord::h => "h",
            CommandWord::name => "name",
            CommandWord::info => "info",
            CommandWord::stop => "stop",
            CommandWord::confirm => "confirm",
            CommandWord::contacts => "contacts",
            CommandWord::delete => "delete",
            CommandWord::group => "group",
        }
    }

    /// What the command does.
    pub fn description(&self) -> (r: &'static str)
        ensures
            r@ == description_of(*self),
    {
        match self {
            CommandWord::h => "show a list of available commands and any pending actions",
            CommandWord::name => "set your preferred name",
            CommandWord::info => "see information about a command",
            CommandWord::stop => "unsubscribe and delete your account",
            CommandWord::confirm => "confirm pending actions",
            CommandWord::contacts => "see your groups and contacts",
            CommandWord::delete => "delete contacts or groups",
            CommandWord::group => "create a new group from your contacts",
        }
    }

    /// The example and description of the parameter, if the command takes one.
    pub fn parameter_doc(&self) -> (r: Option<ParameterDoc>)
        ensures
            match r {
                Some(p) => parameter_of(*self) == Some((p.example@, p.description@)),
                None => parameter_of(*self) is None,
            },
    {
        match self {
            CommandWord::name => Some(ParameterDoc {
                example: String::from_str("Sam C."),
                description: String::from_str("your preferred name"),
            }),
            CommandWord::info => Some(ParameterDoc {
                example: String::from_str("name"),
                description: String::from_str("a command"),
            }),
            CommandWord::confirm => Some(ParameterDoc {
                example: String::from_str("1,2"),
                description: String::from_str(
                    "a comma-separated list of choices to confirm (based on a preceding list provided)",
                ),
            }),
            CommandWord::delete => Some(ParameterDoc {
                example: String::from_str("Alice"),
                description: String::from_str("part of the name of the contacts or groups to delete"),
            }),
            CommandWord::group => Some(ParameterDoc {
                example: String::from_str("John, Alice"),
                description: String::from_str("comma-separated list of contact name fragments"),
            }),
            _ => None,
        }
    }

    /// How to write the command (see `usage_of`).
    pub fn usage(&self) -> (r: String)
        ensures
            r@ == usage_of(*self),
    {
        let mut r = String::from_str("Reply \"");
        push_str(&mut r, self.word());
        if self.parameter_doc().is_some() {
            push_str(&mut r, " X");
        } else {
            proof {
                assert(r@ + Seq::<char>::empty() == r@);
            }
        }
        push_str(&mut r, "\"");
        r
    }

    /// The usage and what the command does (see `hint_of`).
    pub fn hint(&self) -> (r: String)
        ensures
            r@ == hint_of(*self),
    {
        let mut r = self.usage();
        push_str(&mut r, ", to ");
        push_str(&mut r, self.description());
        push_str(&mut r, ".");
        r
    }

    /// What the parameter is, with an example (see `example_of`).
    pub fn example(&self) -> (r: String)
        ensures
            r@ == example_of(*self),
    {
        match self.parameter_doc() {
            Some(p) => {
                let mut r = String::from_str("\nX is ");
                push_str(&mut r, p.description.as_str());
                push_str(&mut r, ", for example \"");
                push_str(&mut r, self.word());
                push_str(&mut r, " ");
                push_str(&mut r, p.example.as_str());
                push_str(&mut r, "\"");
                r
            },
            None => String::new(),
        }
    }

    /// How the help lists the command (see `display_of`).
    pub fn display(&self) -> (r: String)
        ensures
            r@ == display_of(*self),
    {
        let mut r = String::from_str(self.word());
        if self.parameter_doc().is_some() {
            push_str(&mut r, " X");
        } else {
            proof {
                assert(r@ + Seq::<char>::empty() == r@);
            }
        }
        push_str(&mut r, ": ");
        push_str(&mut r, self.description());
        r
    }

    /// The command word that `w` spells exactly, if any.
    pub fn parse(w: &str) -> (r: Option<CommandWord>)
        ensures
            r == word_named(w@),
    {
        let words = CommandWord::all();
        let mut i: usize = 0;
        while i < words.len()
            invariant
                i <= words.len(),
                words@ == all_words(),
                forall|j: int| 0 <= j < i ==> word_of(#[trigger] all_words()[j]) != w@,
            decreases words.len() - i,
        {
            let c = words[i];
            if str_eq(c.word(), w) {
                proof {
                    lemma_words_distinct();
                    let k = choose|k: int| 0 <= k < all_words().len() && word_of(#[trigger] all_words()[k]) == w@;
                    assert(k == i);
                }
                return Some(c);
            }
            i = i + 1;
        }
        None
    }
}

/// No two command words are spelled alike.
pub proof fn lemma_words_distinct()
    ensures
        forall|i: int, j: int|
            0 <= i < all_words().len() && 0 <= j < all_words().len() && i != j
                ==> word_of(#[trigger] all_words()[i]) != word_of(#[trigger] all_words()[j]),
{
    reveal_strlit("h");
    reveal_strlit("name");
    reveal_strlit("info");
    reveal_strlit("stop");
    reveal_strlit("confirm");
    reveal_strlit("contacts");
    reveal_strlit("delete");
    reveal_strlit("group");
    assert forall|i: int, j: int|
        0 <= i < all_words().len() && 0 <= j < all_words().len() && i != j
            implies word_of(#[trigger] all_words()[i]) != word_of(#[trigger] all_words()[j]) by {
        let a = word_of(all_words()[i]);
        let b = word_of(all_words()[j]);
        if a.len() == b.len() {
            assert(a[0] != b[0] || a[1] != b[1]);
        }
    }
}

} // verus!
