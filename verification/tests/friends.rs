use decisionbot::friends::{
    accepted_notice, friend_outcome, now_friends_reply, received_reply, rejected_reply,
    request_message, request_not_found_reply, request_sent_reply, FriendOutcome,
};

#[test]
fn friend_outcomes_in_order() {
    assert!(matches!(friend_outcome(1, 1, Some(3)), FriendOutcome::AlreadyFriends { .. }));
    match friend_outcome(0, 2, Some(3)) {
        FriendOutcome::AlreadySent { reply } => assert_eq!(reply, "You already sent a friend request to them."),
        _ => panic!("expected already sent"),
    }
    assert!(matches!(friend_outcome(0, 0, Some(3)), FriendOutcome::AcceptReceived { rowid: 3 }));
    assert!(matches!(friend_outcome(0, 0, None), FriendOutcome::SendRequest));
}

#[test]
fn friend_messages() {
    assert_eq!(request_not_found_reply(), "Friend request not found");
    assert_eq!(accepted_notice("Sam"), "Sam has accepted your friend request!");
    assert_eq!(now_friends_reply("+1"), "You a now friends with +1");
    assert_eq!(rejected_reply("+1"), "Rejected friend request from +1");
    assert_eq!(received_reply("ok"), "You already received a friend request from them.\nok");
    assert_eq!(
        request_message("Sam", "+1", -7),
        "Friend request received from Sam (+1). Reply 'accept -7', 'reject -7', or 'block -7'"
    );
    assert_eq!(request_sent_reply(true), "Friend request sent!");
    assert_eq!(request_sent_reply(false), "Failed to send friend request!");
}
