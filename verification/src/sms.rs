//! Incoming text messages: how each one is routed and answered.
use vstd::prelude::*;
use crate::command::{command_of, Command, CommandView, FromCommandWord};
use crate::command_word::{hint_of, word_named, CommandWord};
use crate::name::{name_error, name_from_words, process_name};
use crate::text::{ascii_words, ascii_words_of, push_str, push_string, str_eq, string_views, to_chars, trim, trim_bounds};

verus! {

/// A text message as the SMS gateway posts it. The field names are those
/// of the gateway's form.
#[allow(non_snake_case)]
pub struct SmsMessage {
    pub Body: String,
    pub From: String,
    pub NumMedia: Option<String>,
    pub MediaContentType0: Option<String>,
    pub MediaUrl0: Option<String>,
}

/// The message carries exactly one attachment, and it is a vCard.
pub open spec fn is_vcard_submission(m: SmsMessage) -> bool {
    &&& m.NumMedia matches Some(n) && n@ == "1"@
    &&& m.MediaContentType0 matches Some(t) && (t@ == "text/vcard"@ || t@ == "text/x-vcard"@)
}

/// Whether the message submits a contact card (see `is_vcard_submission`).
pub fn is_contact_submission(m: &SmsMessage) -> (r: bool)
    ensures
        r == is_vcard_submission(*m),
{
    let one = match &m.NumMedia {
        Some(n) => str_eq(n.as_str(), "1"),
        None => false,
    };
    if !one {
        return false;
    }
    match &m.MediaContentType0 {
        Some(t) => str_eq(t.as_str(), "text/vcard") || str_eq(t.as_str(), "text/x-vcard"),
        None => false,
    }
}

/// The words of a message: its text trimmed, then cut at runs of ASCII
/// whitespace.
pub open spec fn message_words(body: Seq<char>) -> Seq<Seq<char>> {
    ascii_words(trim(body))
}

/// The words of a message (see `message_words`).
pub fn message_words_of(body: &str) -> (r: Vec<String>)
    ensures
        string_views(r@) == message_words(body@),
{
    let v = to_chars(body);
    let (a, b) = trim_bounds(&v, 0, v.len());
    proof {
        assert(v@.subrange(0, v.len() as int) == body@);
    }
    ascii_words_of(&v, a, b)
}

/// The greeting to a number that is not registered.
pub open spec fn greeting_text() -> Seq<char> {
    "Greetings! This is Decision Bot (https://github.com/samcarey/decisionbot).\nTo participate:\n"@
        + hint_of(CommandWord::name)
}

/// The welcome once a new user has given a name.
pub open spec fn welcome_text(name: Seq<char>) -> Seq<char> {
    "Hello, "@ + name + "! "@ + hint_of(CommandWord::h)
}

/// The reply to a word that is no command word.
pub open spec fn unrecognized_text(word: Seq<char>) -> Seq<char> {
    "We didn't recognize that command word: \""@ + word + "\".\n"@ + hint_of(CommandWord::h)
}

/// Where a message leads.
pub enum Route {
    /// A reply, with nothing stored.
    Reply { text: String },
    /// A new user to register under `name`, then the reply.
    Register { name: String, reply: String },
    /// A command to carry out for a registered user.
    Run { command: Command },
}

/// Where a message leads, by its characters.
pub enum RouteView {
    Reply { text: Seq<char> },
    Register { name: Seq<char>, reply: Seq<char> },
    Run { command: CommandView },
}

impl View for Route {
    type V = RouteView;

    open spec fn view(&self) -> RouteView {
        match self {
            Route::Reply { text } => RouteView::Reply { text: text@ },
            Route::Register { name, reply } => RouteView::Register { name: name@, reply: reply@ },
            Route::Run { command } => RouteView::Run { command: command@ },
        }
    }
}

/// Where a message from a number that is not registered leads: only
/// `name` with an acceptable name registers it; `name` with a refused name
/// is told why; anything else is greeted.
pub open spec fn onboarding_route(words: Seq<Seq<char>>) -> RouteView {
    if words.len() > 0 && word_named(words[0]) == Some(CommandWord::name) {
        let n = name_from_words(words.drop_first());
        match name_error(n) {
            None => RouteView::Register { name: n, reply: welcome_text(n) },
            Some(e) => RouteView::Reply { text: e },
        }
    } else {
        RouteView::Reply { text: greeting_text() }
    }
}

/// Where a message with this text leads, for a registered user or not.
pub open spec fn route_of(body: Seq<char>, registered: bool) -> RouteView {
    let words = message_words(body);
    if !registered {
        onboarding_route(words)
    } else if words.len() == 0 {
        RouteView::Reply { text: hint_of(CommandWord::h) }
    } else {
        match word_named(words[0]) {
            None => RouteView::Reply { text: unrecognized_text(words[0]) },
            Some(c) => match command_of(c, words.drop_first()) {
                Ok(cmd) => RouteView::Run { command: cmd },
                Err(e) => RouteView::Reply { text: e },
            },
        }
    }
}

/// Where a message with this text leads (see `route_of`).
pub fn route_message(body: &str, registered: bool) -> (r: Route)
    ensures
        r@ == route_of(body@, registered),
{
    let words = message_words_of(body);
    let ghost wv = string_views(words@);
    let rest: Vec<String> = if words.len() > 0 {
        let mut rest: Vec<String> = Vec::new();
        let mut i: usize = 1;
        while i < words.len()
            invariant
                1 <= i <= words.len(),
                wv == string_views(words@),
                string_views(rest@) == wv.subrange(1, i as int),
            decreases words.len() - i,
        {
            let ghost before = rest@;
            rest.push(words[i].clone());
            proof {
                assert(string_views(rest@) =~= string_views(before).push(words@[i as int]@));
                assert(wv.subrange(1, i + 1) =~= wv.subrange(1, i as int).push(wv[i as int]));
            }
            i = i + 1;
        }
        proof {
            assert(wv.subrange(1, words.len() as int) =~= wv.drop_first());
        }
        rest
    } else {
        Vec::new()
    };
    let first: Option<CommandWord> = if words.len() > 0 { CommandWord::parse(words[0].as_str()) } else { None };
    if !registered {
        match first {
            Some(CommandWord::name) => {
                return match process_name(&rest) {
                    Ok(name) => {
                        let mut reply = String::from_str("Hello, ");
                        push_string(&mut reply, &name);
                        push_str(&mut reply, "! ");
                        let h = CommandWord::h.hint();
                        push_string(&mut reply, &h);
                        Route::Register { name, reply }
                    },
                    Err(e) => Route::Reply { text: e },
                };
            },
            _ => {
                let mut text = String::from_str(
                    "Greetings! This is Decision Bot (https://github.com/samcarey/decisionbot).\nTo participate:\n",
                );
                let h = CommandWord::name.hint();
                push_string(&mut text, &h);
                return Route::Reply { text };
            },
        }
    }
    if words.len() == 0 {
        return Route::Reply { text: CommandWord::h.hint() };
    }
    match first {
        None => {
            let mut text = String::from_str("We didn't recognize that command word: \"");
            push_string(&mut text, &words[0]);
            push_str(&mut text, "\".\n");
            let h = CommandWord::h.hint();
            push_string(&mut text, &h);
            Route::Reply { text }
        },
        Some(c) => match c.to_command(&rest) {
            Ok(command) => Route::Run { command },
            Err(e) => Route::Reply { text: e },
        },
    }
}

/// The answer to the gateway: the reply inside a TwiML `Message`.
pub open spec fn twiml_text(reply: Seq<char>) -> Seq<char> {
    "\n        <?xml version=\"1.0\" encoding=\"UTF-8\"?>\n        <Response>\n        <Message>"@ + reply
        + "</Message>\n        </Response>\n        "@
}

/// The answer to the gateway (see `twiml_text`).
pub fn twiml(reply: &str) -> (r: String)
    ensures
        r@ == twiml_text(reply@),
{
    let mut r = String::from_str(
        "\n        <?xml version=\"1.0\" encoding=\"UTF-8\"?>\n        <Response>\n        <Message>",
    );
    push_str(&mut r, reply);
    push_str(&mut r, "</Message>\n        </Response>\n        ");
    r
}

/// The reply when handling a message failed.
pub fn internal_error_reply() -> (r: String)
    ensures
        r@ == "Internal Server Error!"@,
{
    String::from_str("Internal Server Error!")
}

} // verus!
