use decisionbot::confirm::{
    deferred_target_of, failure_reply, number_choice, pending_action_kind,
    pick_members, plan_deletion, ConfirmCommand, DeferredConfirm, DeferredOutcome, NumberChoice,
    PendingAction,
};
use decisionbot::records::{Contact, GroupRecord};
use decisionbot::util::{parse_selections, Selection};
use decisionbot::prompt::{deferred_prompt, DeferredEntry, DeferredNumber};
use decisionbot::word_confirm::{
    before_paren_of, deferred_action_ends, deferred_pick_of, pick_word_members, plan_word_deletion, word_deferred_selection_of,
    word_letter_choice_of,
};
use std::str::FromStr;

fn contact(id: i64, name: &str, number: &str) -> Contact {
    Contact { id, contact_name: name.to_string(), contact_user_number: number.to_string() }
}

fn group(id: i64, name: &str, members: i64) -> GroupRecord {
    GroupRecord { id, name: name.to_string(), member_count: members }
}

#[test]
fn action_kinds() {
    assert_eq!(pending_action_kind("deletion"), PendingAction::Deletion);
    assert_eq!(pending_action_kind("deferred_contacts"), PendingAction::DeferredContacts);
    assert_eq!(pending_action_kind("group"), PendingAction::Group);
    assert_eq!(pending_action_kind("groups"), PendingAction::Unknown);
    assert_eq!(failure_reply("boom".to_string()), "Errors:\nboom");
    assert_eq!(failure_reply(String::new()), "");
}

#[test]
fn confirm_command_reads_selections() {
    let c = ConfirmCommand::from_str("1b, 2a").unwrap();
    assert_eq!(c.selections().len(), 2);
    assert_eq!(ConfirmCommand::from_str("abc").err().unwrap(), "Invalid selection format: abc");
}

#[test]
fn multi_number_contact_selection() {
    // "confirm 1b, 2a" with two deferred contacts, each with two numbers
    let deferred = vec!["Alice Smith".to_string(), "Bob Jones".to_string()];
    let numbers = vec![
        vec!["+19876543210".to_string(), "+19876543211".to_string()],
        vec!["+19876543220".to_string(), "+19876543221".to_string()],
    ];
    let sels = parse_selections("1b, 2a").unwrap();
    let mut progress = DeferredConfirm::new();
    for sel in &sels {
        let idx = deferred_target_of(sel, deferred.len()).unwrap();
        match number_choice(sel, numbers[idx].len()) {
            NumberChoice::Chosen { index } => progress.record_added(&deferred[idx], &numbers[idx][index]),
            _ => panic!("expected a number"),
        }
    }
    match progress.finish() {
        DeferredOutcome::Commit { reply } => {
            assert!(reply.contains("Successfully added 2 contacts"));
            assert!(reply.contains("Alice Smith (+19876543211)"));
            assert!(reply.contains("Bob Jones (+19876543220)"));
        }
        _ => panic!("expected a commit"),
    }

    let sel = parse_selections("1c").unwrap()[0];
    match number_choice(&sel, 2) {
        NumberChoice::Invalid { reply } => assert_eq!(reply, "Invalid letter selection: c"),
        _ => panic!("expected an invalid letter"),
    }
    let sel = parse_selections("2a").unwrap()[0];
    assert_eq!(deferred_target_of(&sel, 1).err().unwrap(), "Contact number 2 not found");
    assert_eq!(parse_selections("abc").err().unwrap(), "Invalid selection format: abc");

    let sel = Selection { index: 0, sub_selection: None };
    match number_choice(&sel, 2) {
        NumberChoice::Missing { message } => {
            assert_eq!(message, "No letter selection for contact 1");
            let mut p = DeferredConfirm::new();
            p.record_failure(message);
            p.record_added("Alice", "+1");
            match p.finish() {
                DeferredOutcome::Reply { text } => assert_eq!(text, "No letter selection for contact 1"),
                _ => panic!("expected the failure"),
            }
        }
        _ => panic!("expected a missing letter"),
    }
    match DeferredConfirm::new().finish() {
        DeferredOutcome::Reply { text } => assert_eq!(text, "No changes made."),
        _ => panic!("expected no changes"),
    }
    let mut p = DeferredConfirm::new();
    p.record_add_failure("Alice", "+1", "duplicate");
    match p.finish() {
        DeferredOutcome::Reply { text } => assert_eq!(text, "Failed to add Alice (+1): duplicate"),
        _ => panic!("expected the failure"),
    }
}

#[test]
fn deletion_confirmation_plan() {
    let groups = vec![group(10, "group0", 2), group(11, "group1", 2)];
    let contacts = vec![contact(20, "Alice Smith", "+19876543210")];
    let sels = parse_selections("1").unwrap();
    let plan = plan_deletion(&groups, &contacts, &sels);
    assert!(plan.apply);
    assert_eq!(plan.reply, "Deleted 1 group:\ngroup0 (2 members)\n");
    assert_eq!(plan.group_ids, vec![10]);
    assert!(plan.contact_ids.is_empty());

    let sels = parse_selections("3, 9").unwrap();
    let plan = plan_deletion(&groups, &contacts, &sels);
    assert_eq!(plan.reply, "Deleted 1 contact:\nAlice Smith (987)\n\nErrors:\nInvalid selection: 9");
    assert_eq!(plan.contact_ids, vec![20]);

    let plan = plan_deletion(&groups, &contacts, &[]);
    assert!(!plan.apply);
    assert_eq!(plan.reply, "No valid selections provided.");

    let sels = parse_selections("2, 1, 2").unwrap();
    let plan = plan_deletion(&groups, &contacts, &sels);
    assert_eq!(plan.group_ids, vec![11, 10, 11]);
    assert_eq!(plan.reply, "Deleted 3 groups:\ngroup1 (2 members)\ngroup0 (2 members)\ngroup1 (2 members)\n");
}

#[test]
fn group_member_picks() {
    let pending = vec![contact(1, "Alice Smith", "+19876543210"), contact(2, "Bob Wilson", "+19876543211")];
    let sels = parse_selections("1,2,3").unwrap();
    let (members, errors) = pick_members(&pending, &sels);
    assert_eq!(members.len(), 2);
    assert_eq!(members[1].id, 2);
    assert_eq!(errors, vec!["Invalid selection: 3"]);
}

#[test]
fn word_based_confirmation() {
    assert_eq!(word_deferred_selection_of("2b", 3).unwrap(), (1, 'b'));
    assert_eq!(word_deferred_selection_of("2", 3).err().unwrap(), "Invalid selection format: 2");
    assert_eq!(word_deferred_selection_of("b", 3).err().unwrap(), "Invalid contact number: ");
    assert_eq!(word_deferred_selection_of("0b", 3).err().unwrap(), "Invalid contact number: 0");
    assert_eq!(word_deferred_selection_of("4a", 3).err().unwrap(), "Contact number 4 not found");
    assert_eq!(word_letter_choice_of('c', 2).err().unwrap(), "Invalid letter selection: c");
    assert_eq!(word_letter_choice_of('b', 2).unwrap(), 1);
    assert_eq!(before_paren_of("Alice Smith (+19876543210)"), "Alice Smith");
    assert_eq!(before_paren_of("Alice"), "Alice");

    let mut p = DeferredConfirm::new();
    p.record_added("Alice Smith", "+19876543211");
    p.record_failure("Invalid selection format: x".to_string());
    let (reply, names) = p.finish_word_based();
    assert_eq!(
        reply,
        "Successfully added 1 contact:\n• Alice Smith (+19876543211)\n\nFailed to process:\n• Invalid selection format: x\n"
    );
    assert_eq!(names, vec!["Alice Smith"]);

    let groups = vec![group(10, "group0", 2)];
    let contacts = vec![contact(20, "Alice Smith", "+19876543210"), contact(21, "Bob", "+19876543211")];
    let sels: Vec<String> = vec!["2".to_string(), "3".to_string(), "x".to_string(), "7".to_string()];
    let plan = plan_word_deletion(&groups, &contacts, &sels);
    assert!(plan.apply);
    assert_eq!(plan.contacts.len(), 2);
    assert_eq!(
        plan.reply,
        "Deleted 2 contacts:\n• Alice Smith (987)\n• Bob (987)\n\nErrors:\nInvalid selection: x\nInvalid selection: 7"
    );
    let plan = plan_word_deletion(&groups, &contacts, &[]);
    assert!(!plan.apply);

    let sels: Vec<String> = vec!["1".to_string(), "0".to_string(), "5".to_string()];
    let (members, errors) = pick_word_members(&contacts, &sels);
    assert_eq!(members.len(), 1);
    assert_eq!(errors, vec!["Invalid number: 0", "Invalid selection: 5"]);
}

fn entry(name: &str, numbers: &[(&str, &str)]) -> DeferredEntry {
    DeferredEntry {
        contact_name: name.to_string(),
        numbers: numbers
            .iter()
            .map(|(n, d)| DeferredNumber { phone_number: n.to_string(), phone_description: Some(d.to_string()) })
            .collect(),
    }
}

#[test]
fn deferred_picks_follow_the_reminder() {
    let entries = vec![
        entry("Alice Smith", &[("+19876543210", "CELL"), ("+19876543211", "WORK"), ("+19876543212", "HOME")]),
        entry("Bob Jones", &[("+19876543220", "CELL"), ("+19876543221", "WORK")]),
    ];
    let prompt = deferred_prompt(&entries).unwrap();
    assert!(prompt.contains("1. Alice Smith\n   a. +19876543210 (CELL)\n   b. +19876543211 (WORK)"));
    assert!(prompt.contains("2. Bob Jones\n   a. +19876543220 (CELL)"));
    assert_eq!(
        deferred_pick_of(&entries, "1b").unwrap(),
        ("Alice Smith".to_string(), "+19876543211".to_string())
    );
    assert_eq!(
        deferred_pick_of(&entries, "2a").unwrap(),
        ("Bob Jones".to_string(), "+19876543220".to_string())
    );
    let charlie = vec![entry("Charlie Brown", &[("+19876543230", "CELL"), ("+19876543231", "WORK")])];
    assert_eq!(deferred_pick_of(&charlie, "1c").unwrap_err(), "Invalid letter selection: c");
    assert_eq!(deferred_pick_of(&charlie, "2a").unwrap_err(), "Contact number 2 not found");
    assert_eq!(deferred_pick_of(&charlie, "abc").unwrap_err(), "Invalid selection format: abc");
}

#[test]
fn deferred_action_ends_when_nothing_remains() {
    assert!(deferred_action_ends(0));
    assert!(!deferred_action_ends(2));
}
