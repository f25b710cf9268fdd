use decisionbot::group::{
    first_free_group_number, group_created_reply, group_name_of, group_search, group_search_plain,
    merge_matches, name_pattern_of, GroupCommand, GroupSearch,
};
use decisionbot::listing::{contacts_overview_reply, delete_plan, deletion_candidates_reply, no_match_reply, DeletePlan};
use decisionbot::prompt::{deferred_prompt, deletion_prompt, group_prompt, DeferredEntry, DeferredNumber};
use decisionbot::records::{Contact, GroupRecord};
use std::str::FromStr;

fn contact(id: i64, name: &str, number: &str) -> Contact {
    Contact { id, contact_name: name.to_string(), contact_user_number: number.to_string() }
}

fn group(id: i64, name: &str, members: i64) -> GroupRecord {
    GroupRecord { id, name: name.to_string(), member_count: members }
}

#[test]
fn contacts_overview() {
    assert_eq!(contacts_overview_reply(&[], &[]), "You don't have any groups or contacts.");
    let r = contacts_overview_reply(&[], &[contact(1, "Alice Smith", "+19876543210")]);
    assert_eq!(r, "Your contacts:\n1. Alice Smith (987)");
    let r = contacts_overview_reply(
        &[group(1, "group0", 2), group(2, "group1", 2)],
        &[contact(1, "Alice Smith", "+19876543210")],
    );
    assert!(r.contains("group0 (2 members)"));
    assert!(r.contains("group1 (2 members)"));
    assert_eq!(
        r,
        "Your groups:\n1. group0 (2 members)\n2. group1 (2 members)\n\nYour contacts:\n3. Alice Smith (987)"
    );
}

#[test]
fn deletion_candidates() {
    let r = deletion_candidates_reply(&[group(7, "group0", 2)], &[contact(3, "Alice Smith", "+19876543210")]);
    assert_eq!(
        r,
        "Found these groups:\n1. group0 (2 members)\n\nFound these contacts:\n2. Alice Smith (987)\n\nTo delete items, reply \"confirm NUM1, NUM2, ...\", where NUM1, NUM2, etc. are numbers from the lists above."
    );
    let r = deletion_candidates_reply(&[], &[contact(3, "Alice Smith", "bad")]);
    assert!(r.starts_with("Found these contacts:\n1. Alice Smith (???)\n"));
    assert_eq!(no_match_reply("nonexistent"), "No groups or contacts found matching \"nonexistent\"");
}

#[test]
fn merged_matches_ordered_and_unique() {
    let matches = vec![
        contact(3, "Bob Wilson", "+19876543211"),
        contact(1, "Alice Smith", "+19876543210"),
        contact(3, "Bob Wilson", "+19876543211"),
        contact(2, "Alice Smith", "+19876543299"),
        contact(5, "Carol Brown", "+19876543212"),
    ];
    let merged = merge_matches(&matches);
    let ids: Vec<i64> = merged.iter().map(|c| c.id).collect();
    assert_eq!(ids, vec![1, 2, 3, 5]);
    assert!(merge_matches(&[]).is_empty());
}

#[test]
fn group_search_outcomes() {
    let frags = vec!["Alice".to_string(), "Bob".to_string()];
    match group_search(&frags, &[]) {
        GroupSearch::Reply { text } => assert_eq!(text, "No contacts found matching: Alice, Bob"),
        _ => panic!("expected a reply"),
    }
    match group_search(&[], &[]) {
        GroupSearch::Reply { text } => assert_eq!(text, "Please provide at least one name to search for."),
        _ => panic!("expected a reply"),
    }
    let matches = vec![contact(2, "Bob Wilson", "+19876543211"), contact(1, "Alice Smith", "+19876543210")];
    match group_search(&frags, &matches) {
        GroupSearch::Found { contacts, reply } => {
            assert_eq!(contacts.len(), 2);
            assert_eq!(
                reply,
                "Found these contacts:\n1. Alice Smith (987)\n2. Bob Wilson (987)\nTo create a group with these contacts, reply \"confirm NUM1, NUM2, ...\""
            );
        }
        _ => panic!("expected contacts"),
    }
    match group_search_plain(&frags, &matches) {
        GroupSearch::Found { reply, .. } => assert!(reply.contains("(987)\n\nTo create a group")),
        _ => panic!("expected contacts"),
    }
}

#[test]
fn group_command_fragments() {
    let g = GroupCommand::from_str(" Alice ,Bob,, ").unwrap();
    assert_eq!(g.name_fragments(), &["Alice".to_string(), "Bob".to_string(), String::new(), String::new()]);
    assert_eq!(name_pattern_of("BoB"), "%bob%");
    assert_eq!(GroupCommand::word(), "group");
}

#[test]
fn group_names_and_creation() {
    assert_eq!(first_free_group_number(&[]), 0);
    let taken = vec!["group0".to_string(), "group2".to_string(), "family".to_string()];
    assert_eq!(first_free_group_number(&taken), 1);
    let taken = vec!["group1".to_string(), "group0".to_string()];
    assert_eq!(first_free_group_number(&taken), 2);
    assert_eq!(group_name_of(12), "group12");
    let r = group_created_reply(
        "group0",
        &[contact(1, "Alice Smith", "+19876543210"), contact(2, "Bob Wilson", "+19876543211")],
        &["Invalid selection: 4".to_string()],
    );
    assert_eq!(
        r,
        "Created group \"group0\" with 2 members:\n• Alice Smith (987)\n• Bob Wilson (987)\n\nErrors:\nInvalid selection: 4"
    );
    assert!(group_created_reply("group1", &[], &[]).starts_with("Created group \"group1\" with 0 members:\n"));
}

#[test]
fn pending_prompts() {
    assert_eq!(deletion_prompt(&[]), None);
    assert_eq!(
        deletion_prompt(&[contact(1, "Alice Smith", "+19876543210")]).unwrap(),
        "\n\nYou have pending contact deletions:\n1. Alice Smith (987)\nTo delete contacts, reply \"confirm NUM1, NUM2, ...\""
    );
    assert!(group_prompt(&[contact(1, "Alice Smith", "+19876543210")])
        .unwrap()
        .starts_with("\n\nYou have a pending group creation:\n1. Alice Smith (987)\n"));
    let entries = vec![DeferredEntry {
        contact_name: "Alice Smith".to_string(),
        numbers: vec![
            DeferredNumber { phone_number: "+19876543210".to_string(), phone_description: Some("CELL".to_string()) },
            DeferredNumber { phone_number: "+19876543211".to_string(), phone_description: None },
        ],
    }];
    assert_eq!(
        deferred_prompt(&entries).unwrap(),
        "\n\nYou have contacts with multiple numbers pending:\n\n1. Alice Smith\n   a. +19876543210 (CELL)\n   b. +19876543211 (no description)\n\nReply with \"confirm NA, MB, ...\" where N and M are contact numbers and A and B are letter choices"
    );
    assert_eq!(deferred_prompt(&[]), None);
}

#[test]
fn deletion_search_stores_only_what_it_lists() {
    match delete_plan(&[], &[], "%nonexistent%") {
        DeletePlan::Reply { text } => {
            assert_eq!(text, "No groups or contacts found matching \"%nonexistent%\"")
        }
        DeletePlan::Store { .. } => panic!("nothing matched, nothing is stored"),
    }
    match delete_plan(&[group(7, "group0", 2)], &[], "%group0%") {
        DeletePlan::Store { group_ids, contact_ids, reply } => {
            assert_eq!(group_ids, vec![7]);
            assert!(contact_ids.is_empty());
            assert_eq!(
                reply,
                "Found these groups:\n1. group0 (2 members)\n\nTo delete items, reply \"confirm NUM1, NUM2, ...\", where NUM1, NUM2, etc. are numbers from the lists above."
            );
        }
        DeletePlan::Reply { .. } => panic!("a group matched"),
    }
    match delete_plan(&[group(7, "g", 1)], &[contact(3, "Alice Smith", "+19876543210"), contact(4, "Al", "+12125550000")], "al") {
        DeletePlan::Store { group_ids, contact_ids, .. } => {
            assert_eq!(group_ids, vec![7]);
            assert_eq!(contact_ids, vec![3, 4]);
        }
        DeletePlan::Reply { .. } => panic!("items matched"),
    }
}
