use decisionbot::command::{help_response, info_response, Command};
use decisionbot::sms::{is_contact_submission, message_words_of, route_message, twiml, Route, SmsMessage};

fn reply_of(r: Route) -> String {
    match r {
        Route::Reply { text } => text,
        _ => panic!("expected a reply"),
    }
}

#[test]
fn new_user_registration_routes() {
    let greeting = reply_of(route_message("hi", false));
    assert!(greeting.contains("Greetings!"));
    assert!(greeting.contains("name"));
    assert!(reply_of(route_message("name", false)).contains("Reply \"name X\""));
    assert!(reply_of(route_message("name This Name Is Way Too Long For The System", false))
        .contains("Please shorten it"));
    match route_message("name John Doe", false) {
        Route::Register { name, reply } => {
            assert_eq!(name, "John Doe");
            assert!(reply.contains("Hello, John Doe!"));
        }
        _ => panic!("expected a registration"),
    }
    assert!(reply_of(route_message("stop", false)).contains("Greetings!"));
}

#[test]
fn registered_user_routes() {
    match route_message("h", true) {
        Route::Run { command: Command::Help } => {
            let help = help_response(None);
            assert!(help.contains("General commands"));
            assert!(help.contains("name"));
            assert!(help.contains("info"));
            assert!(help.contains("contacts"));
        }
        _ => panic!("expected help"),
    }
    assert!(reply_of(route_message("info", true)).contains("Reply \"info X\""));
    match route_message("info name", true) {
        Route::Run { command: Command::Info { command_word } } => {
            assert!(info_response(command_word).contains("set your preferred name"));
        }
        _ => panic!("expected info"),
    }
    assert!(reply_of(route_message("info invalidcommand", true))
        .contains("Command \"invalidcommand\" not recognized"));
    assert_eq!(
        reply_of(route_message("yo", true)),
        "We didn't recognize that command word: \"yo\".\nReply \"h\", to show a list of available commands and any pending actions."
    );
    assert_eq!(
        reply_of(route_message("   ", true)),
        "Reply \"h\", to show a list of available commands and any pending actions."
    );
    assert!(matches!(route_message("  stop  ", true), Route::Run { command: Command::Stop }));
}

#[test]
fn words_of_message() {
    assert_eq!(message_words_of("  confirm\t1b,\n 2a "), vec!["confirm", "1b,", "2a"]);
    assert_eq!(message_words_of(""), Vec::<String>::new());
}

#[test]
fn vcard_submissions() {
    let mut m = SmsMessage {
        Body: String::new(),
        From: "+1234567890".to_string(),
        NumMedia: Some("1".to_string()),
        MediaContentType0: Some("text/x-vcard".to_string()),
        MediaUrl0: Some("https://example.com/card".to_string()),
    };
    assert!(is_contact_submission(&m));
    m.MediaContentType0 = Some("image/png".to_string());
    assert!(!is_contact_submission(&m));
    m.MediaContentType0 = Some("text/vcard".to_string());
    m.NumMedia = Some("2".to_string());
    assert!(!is_contact_submission(&m));
}

#[test]
fn twiml_wraps_reply() {
    assert_eq!(
        twiml("ok"),
        "\n        <?xml version=\"1.0\" encoding=\"UTF-8\"?>\n        <Response>\n        <Message>ok</Message>\n        </Response>\n        "
    );
}
