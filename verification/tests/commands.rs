use decisionbot::command::{
    comma_list, help_response, info_response, like_pattern_of, name_updated_response,
    unsubscribed_response, Command, FromCommandWord,
};
use decisionbot::command_word::CommandWord;
use decisionbot::delete::DeleteCommand;
use decisionbot::help::{HelpCommand, StopCommand};
use decisionbot::info::InfoCommand;
use decisionbot::name::{process_name, validate_name, NameCommand};
use std::str::FromStr;

fn words(s: &str) -> Vec<String> {
    s.split_ascii_whitespace().map(|w| w.to_string()).collect()
}

#[test]
fn command_words_parse_back() {
    for c in CommandWord::all() {
        assert_eq!(CommandWord::parse(c.word()), Some(c));
    }
    assert_eq!(CommandWord::parse("Name"), None);
    assert_eq!(CommandWord::parse("help"), None);
    assert_eq!(CommandWord::all().len(), 8);
}

#[test]
fn usage_hint_and_example() {
    assert_eq!(CommandWord::name.usage(), "Reply \"name X\"");
    assert_eq!(CommandWord::stop.usage(), "Reply \"stop\"");
    assert_eq!(CommandWord::info.hint(), "Reply \"info X\", to see information about a command.");
    assert_eq!(CommandWord::name.example(), "\nX is your preferred name, for example \"name Sam C.\"");
    assert_eq!(CommandWord::contacts.example(), "");
    assert_eq!(CommandWord::group.display(), "group X: create a new group from your contacts");
}

#[test]
fn name_command_words() {
    match CommandWord::name.to_command(&words("John Doe")) {
        Ok(Command::Name { name }) => assert_eq!(name, "John Doe"),
        _ => panic!("expected a name"),
    }
    let e = CommandWord::name.to_command(&[]).err().unwrap();
    assert!(e.contains("Reply \"name X\""));
    let e = CommandWord::name
        .to_command(&words("This Name Is Way Too Long For The System"))
        .err()
        .unwrap();
    assert_eq!(
        e,
        "That name is 40 characters long.\nPlease shorten it to 20 characters or less."
    );
}

#[test]
fn info_command_words() {
    match CommandWord::info.to_command(&words("stop")) {
        Ok(Command::Info { command_word }) => assert_eq!(command_word, CommandWord::stop),
        _ => panic!("expected info"),
    }
    assert!(CommandWord::info.to_command(&[]).err().unwrap().contains("Reply \"info X\""));
    assert_eq!(
        CommandWord::info.to_command(&words("invalidcommand")).err().unwrap(),
        "Command \"invalidcommand\" not recognized"
    );
    assert!(info_response(CommandWord::name).contains("set your preferred name"));
    assert_eq!(
        info_response(CommandWord::stop),
        "Reply \"stop\", to unsubscribe and delete your account."
    );
}

#[test]
fn list_commands_join_and_split() {
    match CommandWord::confirm.to_command(&words("1b, 2a")) {
        Ok(Command::Confirm { selections }) => assert_eq!(selections, vec!["1b", "2a"]),
        _ => panic!("expected confirm"),
    }
    match CommandWord::group.to_command(&words("Alice, Bob")) {
        Ok(Command::Group { selections }) => assert_eq!(selections, vec!["Alice", "Bob"]),
        _ => panic!("expected group"),
    }
    assert_eq!(comma_list(&[]), vec![""]);
    match CommandWord::delete.to_command(&words("Alice SMITH")) {
        Ok(Command::Delete { name }) => assert_eq!(name, "%alice smith%"),
        _ => panic!("expected delete"),
    }
    assert_eq!(like_pattern_of(&words("GROUP0")), "%group0%");
    assert!(matches!(CommandWord::h.to_command(&words("x")), Ok(Command::Help)));
    assert!(matches!(CommandWord::stop.to_command(&[]), Ok(Command::Stop)));
    assert!(matches!(CommandWord::contacts.to_command(&[]), Ok(Command::Contacts)));
}

#[test]
fn help_lists_commands() {
    let help = help_response(None);
    assert!(help.starts_with("General commands:\n- h: show a list"));
    assert!(help.contains("- name X: set your preferred name"));
    assert!(help.contains("- info X"));
    assert!(help.contains("- contacts: see your groups and contacts"));
    assert!(!help.contains("- confirm"));
    assert!(help.ends_with("\n\nReply \"info X\", to see information about a command."));
    let with_prompt = help_response(Some("\n\nPENDING".to_string()));
    assert!(with_prompt.ends_with("command.\n\nPENDING"));
    let help_cmd = HelpCommand::from_str("anything").unwrap();
    assert_eq!(help_cmd.reply(None), help);
    assert_eq!(HelpCommand::word(), "help");
}

#[test]
fn fixed_replies() {
    assert_eq!(name_updated_response("Sam C."), "Your name has been updated to \"Sam C.\"");
    assert_eq!(unsubscribed_response(), "You've been unsubscribed. Goodbye!");
    assert_eq!(StopCommand::from_str("").unwrap().reply(), "You've been unsubscribed. Goodbye!");
}

#[test]
fn name_validation() {
    assert!(validate_name("Sam C.").is_ok());
    assert!(validate_name("").err().unwrap().contains("Reply \"name X\""));
    assert!(validate_name("12345678901234567890").is_ok());
    assert!(validate_name("123456789012345678901").err().unwrap().contains("21 characters"));
    // length counts bytes: ten two-byte letters fit, eleven do not
    assert!(validate_name("éééééééééé").is_ok());
    assert!(validate_name("ééééééééééé").err().unwrap().contains("22 characters"));
    assert_eq!(process_name(&words("John Doe")).unwrap(), "John Doe");
    assert!(process_name(&[]).is_err());
}

#[test]
fn parameter_commands_parse() {
    assert_eq!(DeleteCommand::from_str("").err().unwrap(), "");
    let d = DeleteCommand::from_str("Alice").unwrap();
    assert_eq!(d.name(), "Alice");
    assert_eq!(d.like_pattern(), "%alice%");
    assert_eq!(InfoCommand::from_str("   ").err().unwrap(), "");
    let i = InfoCommand::from_str(" name ").unwrap();
    assert_eq!(i.query(), "name");
    assert!(i.reply().contains("set your preferred name"));
    assert_eq!(i.reply(), info_response(CommandWord::name));
    assert_eq!(InfoCommand::from_str("x").unwrap().reply(), "Command \"x\" not recognized");
    let n = NameCommand::from_str("  Sam C.  ").unwrap();
    assert_eq!(n.checked_name().unwrap(), "Sam C.");
    assert!(NameCommand::from_str("This Name Is Way Too Long").unwrap().checked_name().is_err());
    assert!(NameCommand::from_str("").is_err());
}
