//! Commands as read from the words of a message, and the fixed replies.
use vstd::prelude::*;
use crate::command_word::{
    all_words, description_of, display_of, example_of, hint_of, usage_of, word_named, CommandWord,
};
use crate::name::{name_error, name_from_words, name_problem};
use crate::text::{
    join, join_strings, push_str, push_string, split_chars, split_on, string_views, to_chars,
    views,
};
use crate::unicode::{lowercase, to_lowercase};

verus! {

/// A command read from a message.
pub enum Command {
    Help,
    Name { name: String },
    Info { command_word: CommandWord },
    Stop,
    Contacts,
    Delete { name: String },
    Confirm { selections: Vec<String> },
    Group { selections: Vec<String> },
}

/// A command with its texts taken by their characters.
pub enum CommandView {
    Help,
    Name { name: Seq<char> },
    Info { command_word: CommandWord },
    Stop,
    Contacts,
    Delete { name: Seq<char> },
    Confirm { selections: Seq<Seq<char>> },
    Group { selections: Seq<Seq<char>> },
}

impl View for Command {
    type V = CommandView;

    open spec fn view(&self) -> CommandView {
        match self {
            Command::Help => CommandView::Help,
            Command::Name { name } => CommandView::Name { name: name@ },
            Command::Info { command_word } => CommandView::Info { command_word: *command_word },
            Command::Stop => CommandView::Stop,
            Command::Contacts => CommandView::Contacts,
            Command::Delete { name } => CommandView::Delete { name: name@ },
            Command::Confirm { selections } => CommandView::Confirm { selections: string_views(selections@) },
            Command::Group { selections } => CommandView::Group { selections: string_views(selections@) },
        }
    }
}

/// The pattern that finds names containing the words, ignoring case:
/// `%words%`, the words lowercased and joined by single spaces.
pub open spec fn like_pattern(words: Seq<Seq<char>>) -> Seq<char> {
    "%"@ + lowercase(join(words, " "@)) + "%"@
}

/// The list items of a `confirm` or `group` command: the words run
/// together, then cut at each comma.
pub open spec fn comma_items(words: Seq<Seq<char>>) -> Seq<Seq<char>> {
    split_on(join(words, Seq::empty()), ',')
}

/// The command that `word` starts, given the words after it, or the reply
/// that explains why there is none.
pub open spec fn command_of(word: CommandWord, words: Seq<Seq<char>>) -> Result<CommandView, Seq<char>> {
    match word {
        CommandWord::h => Ok(CommandView::Help),
        CommandWord::name => {
            let n = name_from_words(words);
            match name_error(n) {
                Some(e) => Err(e),
                None => Ok(CommandView::Name { name: n }),
            }
        },
        CommandWord::info => if words.len() == 0 {
            Err(hint_of(CommandWord::info))
        } else {
            match word_named(words[0]) {
                Some(c) => Ok(CommandView::Info { command_word: c }),
                None => Err("Command \""@ + words[0] + "\" not recognized"@),
            }
        },
        CommandWord::stop => Ok(CommandView::Stop),
        CommandWord::confirm => Ok(CommandView::Confirm { selections: comma_items(words) }),
        CommandWord::contacts => Ok(CommandView::Contacts),
        CommandWord::delete => Ok(CommandView::Delete { name: like_pattern(words) }),
        CommandWord::group => Ok(CommandView::Group { selections: comma_items(words) }),
    }
}

/// Reads the command that a command word starts from the words after it.
pub trait FromCommandWord {
    fn to_command(self, words: &[String]) -> Result<Command, String>;
}

/// Each piece of a split, as owned strings.
fn pieces_to_strings(pieces: &Vec<Vec<char>>) -> (r: Vec<String>)
    ensures
        string_views(r@) == views(pieces@),
{
    let mut r: Vec<String> = Vec::new();
    let mut i: usize = 0;
    while i < pieces.len()
        invariant
            i <= pieces.len(),
            string_views(r@) == views(pieces@).subrange(0, i as int),
        decreases pieces.len() - i,
    {
        let s = crate::text::string_of(&pieces[i], 0, pieces[i].len());
        proof {
            assert(pieces@[i as int]@.subrange(0, pieces@[i as int]@.len() as int) == pieces@[i as int]@);
        }
        let ghost before = r@;
        r.push(s);
        proof {
            assert(string_views(r@) =~= string_views(before).push(s@));
            assert(views(pieces@).subrange(0, i + 1) =~= views(pieces@).subrange(0, i as int).push(s@));
        }
        i = i + 1;
    }
    proof {
        assert(views(pieces@).subrange(0, pieces.len() as int) =~= views(pieces@));
    }
    r
}

/// The list items of a `confirm` or `group` command (see `comma_items`).
pub fn comma_list(words: &[String]) -> (r: Vec<String>)
    ensures
        string_views(r@) == comma_items(string_views(words@)),
{
    let joined = join_strings(words, "");
    proof {
        reveal_strlit("");
        assert(""@ =~= Seq::<char>::empty());
    }
    let chars = to_chars(joined.as_str());
    let pieces = split_chars(&chars, ',');
    pieces_to_strings(&pieces)
}

/// The pattern that finds names containing the words (see `like_pattern`).
pub fn like_pattern_of(words: &[String]) -> (r: String)
    ensures
        r@ == like_pattern(string_views(words@)),
{
    let joined = join_strings(words, " ");
    let lowered = to_lowercase(joined.as_str());
    let mut r = String::from_str("%");
    push_string(&mut r, &lowered);
    push_str(&mut r, "%");
    r
}

impl FromCommandWord for CommandWord {
    fn to_command(self, words: &[String]) -> (r: Result<Command, String>)
        ensures
            match r {
                Ok(c) => command_of(self, string_views(words@)) == Ok::<CommandView, Seq<char>>(c@),
                Err(e) => command_of(self, string_views(words@)) == Err::<CommandView, Seq<char>>(e@),
            },
    {
        match self {
            CommandWord::h => Ok(Command::Help),
            CommandWord::name => {
                let name = join_strings(words, " ");
                match name_problem(name.as_str()) {
                    Some(e) => Err(e),
                    None => Ok(Command::Name { name }),
                }
            },
            CommandWord::info => {
                if words.len() == 0 {
                    return Err(CommandWord::info.hint());
                }
                match CommandWord::parse(words[0].as_str()) {
                    Some(c) => Ok(Command::Info { command_word: c }),
                    None => {
                        let mut m = String::from_str("Command \"");
                        push_string(&mut m, &words[0]);
                        push_str(&mut m, "\" not recognized");
                        Err(m)
                    },
                }
            },
            CommandWord::stop => Ok(Command::Stop),
            CommandWord::confirm => Ok(Command::Confirm { selections: comma_list(words) }),
            CommandWord::contacts => Ok(Command::Contacts),
            CommandWord::delete => Ok(Command::Delete { name: like_pattern_of(words) }),
            CommandWord::group => Ok(Command::Group { selections: comma_list(words) }),
        }
    }
}


/// The command words that the help lists: all but `confirm`.
pub open spec fn listed_words() -> Seq<CommandWord> {
    all_words().filter(|c: CommandWord| c != CommandWord::confirm)
}

/// The help's line for each listed command word: `- word X: what it does`.
pub open spec fn help_lines() -> Seq<Seq<char>> {
    Seq::new(listed_words().len(), |i: int| "- "@ + display_of(listed_words()[i]))
}

/// The reply to `h`: the listed commands, how to learn more about one, and
/// the prompt of a pending action when there is one.
pub open spec fn help_text(pending_prompt: Option<Seq<char>>) -> Seq<char> {
    "General commands:\n"@ + join(help_lines(), "\n"@) + "\n"@ + "\n"@ + hint_of(CommandWord::info) + match pending_prompt {
        Some(p) => p,
        None => Seq::empty(),
    }
}

/// The reply to `info`: how to write the command, what it does, and an
/// example of its parameter.
pub open spec fn info_text(c: CommandWord) -> Seq<char> {
    usage_of(c) + ", to "@ + description_of(c) + "."@ + example_of(c)
}

/// The reply to `h` (see `help_text`).
pub fn help_response(pending_prompt: Option<String>) -> (r: String)
    ensures
        r@ == help_text(match pending_prompt {
            Some(p) => Some(p@),
            None => None,
        }),
{
    let words = CommandWord::all();
    let mut lines: Vec<String> = Vec::new();
    let mut i: usize = 0;
    while i < words.len()
        invariant
            i <= words.len(),
            words@ == all_words(),
            string_views(lines@) == Seq::new(
                all_words().subrange(0, i as int).filter(|c: CommandWord| c != CommandWord::confirm).len(),
                |k: int| "- "@ + display_of(all_words().subrange(0, i as int).filter(|c: CommandWord| c != CommandWord::confirm)[k]),
            ),
        decreases words.len() - i,
    {
        let c = words[i];
        let ghost pre = all_words().subrange(0, i as int);
        proof {
            assert(all_words().subrange(0, i + 1) == pre.push(c));
            pre.lemma_filter_push(c, |c: CommandWord| c != CommandWord::confirm);
        }
        if c != CommandWord::confirm {
            let mut line = String::from_str("- ");
            let d = c.display();
            push_string(&mut line, &d);
            let ghost before = lines@;
            lines.push(line);
            proof {
                assert(string_views(lines@) =~= string_views(before).push(line@));
            }
        }
        i = i + 1;
        proof {
            let f = all_words().subrange(0, i as int).filter(|c: CommandWord| c != CommandWord::confirm);
            assert(string_views(lines@) =~= Seq::new(f.len(), |k: int| "- "@ + display_of(f[k])));
        }
    }
    proof {
        assert(all_words().subrange(0, words.len() as int) == all_words());
        assert(string_views(lines@) =~= help_lines());
    }
    let mut r = String::from_str("General commands:\n");
    let list = join_strings(&lines, "\n");
    push_string(&mut r, &list);
    push_str(&mut r, "\n");
    push_str(&mut r, "\n");
    let h = CommandWord::info.hint();
    push_string(&mut r, &h);
    match pending_prompt {
        Some(p) => {
            push_string(&mut r, &p);
        },
        None => {
            proof {
                assert(r@ + Seq::<char>::empty() == r@);
            }
        },
    }
    r
}

/// The reply to `info` (see `info_text`).
pub fn info_response(c: CommandWord) -> (r: String)
    ensures
        r@ == info_text(c),
{
    let mut r = c.usage();
    push_str(&mut r, ", to ");
    push_str(&mut r, c.description());
    push_str(&mut r, ".");
    let e = c.example();
    push_string(&mut r, &e);
    r
}

/// The reply once a name is stored.
pub open spec fn name_updated_text(name: Seq<char>) -> Seq<char> {
    "Your name has been updated to \""@ + name + "\""@
}

/// The reply once a name is stored (see `name_updated_text`).
pub fn name_updated_response(name: &str) -> (r: String)
    ensures
        r@ == name_updated_text(name@),
{
    let mut r = String::from_str("Your name has been updated to \"");
    push_str(&mut r, name);
    push_str(&mut r, "\"");
    r
}

/// The reply once a user is removed.
pub open spec fn unsubscribed_text() -> Seq<char> {
    "You've been unsubscribed. Goodbye!"@
}

/// The reply once a user is removed (see `unsubscribed_text`).
pub fn unsubscribed_response() -> (r: String)
    ensures
        r@ == unsubscribed_text(),
{
    String::from_str("You've been unsubscribed. Goodbye!")
}
} // verus!
