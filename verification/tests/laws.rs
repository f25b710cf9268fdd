use decisionbot::command::{Command, FromCommandWord};
use decisionbot::command_word::CommandWord;
use decisionbot::confirm::{number_choice, pick_members, plan_deletion, NumberChoice};
use decisionbot::group::merge_matches;
use decisionbot::listing::deletion_candidates_reply;
use decisionbot::name::validate_name;
use decisionbot::records::{Contact, GroupRecord};
use decisionbot::util::{format_contact_list, parse_selections, Selection, E164};
use decisionbot::word_confirm::{before_paren_of, plan_word_deletion};

fn contact(id: i64, name: &str, number: &str) -> Contact {
    Contact { id, contact_name: name.to_string(), contact_user_number: number.to_string() }
}

fn group(id: i64, name: &str, members: i64) -> GroupRecord {
    GroupRecord { id, name: name.to_string(), member_count: members }
}

#[test]
fn same_digits_same_number() {
    let a = E164::parse("(987) 654-3210").unwrap();
    let b = E164::parse("987.654.3210").unwrap();
    assert_eq!(a.as_str(), b.as_str());
    assert_eq!(E164::parse("12-34").err(), E164::parse("1x2x3x4").err());
}

#[test]
fn name_command_agrees_with_validation() {
    for words in [vec![], vec!["Sam"], vec!["Sam", "C."], vec!["Twenty", "One", "Characters"], vec!["A"; 11]] {
        let ws: Vec<String> = words.iter().map(|w| w.to_string()).collect();
        let joined = ws.join(" ");
        let via_command = CommandWord::name.to_command(&ws);
        assert_eq!(via_command.is_ok(), validate_name(&joined).is_ok());
        if let Ok(Command::Name { name }) = via_command {
            assert_eq!(name, joined);
        }
    }
}

#[test]
fn listing_numbers_match_confirmation() {
    let groups = vec![group(10, "group0", 2), group(11, "group1", 3)];
    let contacts = vec![contact(20, "Alice Smith", "+19876543210"), contact(21, "Bob Wilson", "+12125550000")];
    let listing = deletion_candidates_reply(&groups, &contacts);
    assert!(listing.contains("2. group1 (3 members)"));
    assert!(listing.contains("4. Bob Wilson (212)"));
    let sel = [Selection { index: 1, sub_selection: None }];
    assert_eq!(plan_deletion(&groups, &contacts, &sel).reply, "Deleted 1 group:\ngroup1 (3 members)\n");
    let sel = [Selection { index: 3, sub_selection: None }];
    assert_eq!(plan_deletion(&groups, &contacts, &sel).reply, "Deleted 1 contact:\nBob Wilson (212)\n");
}

#[test]
fn group_listing_numbers_match_picks() {
    let pending = vec![contact(1, "Alice Smith", "+19876543210"), contact(2, "Bob Wilson", "+12125550000")];
    assert_eq!(format_contact_list(&pending, 0), "1. Alice Smith (987)\n2. Bob Wilson (212)");
    let (members, errors) = pick_members(&pending, &[Selection { index: 1, sub_selection: None }]);
    assert_eq!(members[0].id, 2);
    assert!(errors.is_empty());
}

#[test]
fn parsed_selections_can_be_confirmed() {
    for sel in parse_selections("1a, 2z, 3").unwrap() {
        match number_choice(&sel, 30) {
            NumberChoice::Chosen { .. } | NumberChoice::Missing { .. } => {}
            NumberChoice::Invalid { .. } => panic!("letters a..z are below 30"),
        }
    }
}

#[test]
fn merge_ignores_match_order() {
    let a = contact(1, "Alice", "+19876543210");
    let b = contact(2, "Alice", "+19876543211");
    let c = contact(3, "Bob", "+19876543212");
    let one = merge_matches(&[c.clone(), a.clone(), b.clone(), a.clone()]);
    let two = merge_matches(&[b.clone(), c.clone(), a.clone()]);
    let ids = |v: &Vec<Contact>| v.iter().map(|x| x.id).collect::<Vec<_>>();
    assert_eq!(ids(&one), ids(&two));
    assert_eq!(ids(&one), vec![1, 2, 3]);
}

#[test]
fn added_line_name_round_trip() {
    assert_eq!(before_paren_of("Alice Smith (+19876543210)"), "Alice Smith");
    // a name that itself holds " (" is cut short
    assert_eq!(before_paren_of("Bob (work) (+19876543210)"), "Bob");
}

#[test]
fn selecting_first_items_in_order() {
    let groups = vec![group(10, "group0", 2)];
    let contacts = vec![contact(20, "Alice Smith", "+19876543210")];
    let sels = parse_selections("1, 2").unwrap();
    let plan = plan_deletion(&groups, &contacts, &sels);
    assert_eq!(plan.group_ids, vec![10]);
    assert_eq!(plan.contact_ids, vec![20]);
    assert_eq!(plan.reply, "Deleted 1 group:\ngroup0 (2 members)\n\nDeleted 1 contact:\nAlice Smith (987)\n");
}

#[test]
fn deletion_of_a_later_group_deletes_that_group() {
    let groups = vec![group(10, "group0", 2), group(11, "group1", 2)];
    let plan = plan_deletion(&groups, &[], &[Selection { index: 1, sub_selection: None }]);
    assert_eq!(plan.reply, "Deleted 1 group:\ngroup1 (2 members)\n");
    assert_eq!(plan.group_ids, vec![11]);
    let contacts = vec![contact(20, "Alice Smith", "+19876543210"), contact(21, "Bob Wilson", "+12125550000")];
    let plan = plan_deletion(&groups, &contacts, &[Selection { index: 3, sub_selection: None }]);
    assert_eq!(plan.contact_ids, vec![21]);
    assert!(plan.group_ids.is_empty());
}

#[test]
fn confirmed_deletion_removes_exactly_the_selected() {
    let groups = vec![group(10, "group0", 2), group(11, "group1", 2)];
    let contacts = vec![contact(20, "Alice Smith", "+19876543210"), contact(21, "Bob Wilson", "+12125550000")];
    let sels: Vec<String> = ["4", "x", "2", "0", "9"].iter().map(|s| s.to_string()).collect();
    let plan = plan_word_deletion(&groups, &contacts, &sels);
    assert!(plan.apply);
    assert_eq!(plan.groups.iter().map(|g| g.id).collect::<Vec<_>>(), vec![11]);
    assert_eq!(plan.contacts.iter().map(|c| c.id).collect::<Vec<_>>(), vec![21]);
    assert!(plan.reply.ends_with("Errors:\nInvalid selection: x\nInvalid selection: 0\nInvalid selection: 9"));
}
