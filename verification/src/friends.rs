//! Friend requests between users.
use vstd::prelude::*;
use crate::text::{i64_to_string, push_str, push_string, signed_decimal};

verus! {

/// The reply when the request to act on is not there.
pub fn request_not_found_reply() -> (r: String)
    ensures
        r@ == "Friend request not found"@,
{
    String::from_str("Friend request not found")
}

/// The notice to the sender of a request that was accepted.
pub fn accepted_notice(name: &str) -> (r: String)
    ensures
        r@ == name@ + " has accepted your friend request!"@,
{
    let mut r = String::from_str(name);
    push_str(&mut r, " has accepted your friend request!");
    r
}

/// The reply to the user who accepted a request.
pub fn now_friends_reply(sender: &str) -> (r: String)
    ensures
        r@ == "You a now friends with "@ + sender@,
{
    let mut r = String::from_str("You a now friends with ");
    push_str(&mut r, sender);
    r
}

/// The reply to the user who rejected a request.
pub fn rejected_reply(sender: &str) -> (r: String)
    ensures
        r@ == "Rejected friend request from "@ + sender@,
{
    let mut r = String::from_str("Rejected friend request from ");
    push_str(&mut r, sender);
    r
}

/// What a request for friendship comes to, in the order the checks run.
pub enum FriendOutcome {
    /// The two are friends already.
    AlreadyFriends { reply: String },
    /// The user asked already.
    AlreadySent { reply: String },
    /// The other asked already: the user accepts that request.
    AcceptReceived { rowid: i64 },
    /// A new request is sent.
    SendRequest,
}

/// What a request comes to, given how many friendships link the two, how
/// many requests the user sent the other, and the request the other sent
/// the user, if any.
pub open spec fn friend_outcome_ok(friendships: i64, sent: i64, received: Option<i64>, r: FriendOutcome) -> bool {
    if friendships != 0 {
        r matches FriendOutcome::AlreadyFriends { reply } && reply@ == "You are already friends."@
    } else if sent != 0 {
        r matches FriendOutcome::AlreadySent { reply } && reply@ == "You already sent a friend request to them."@
    } else {
        match received {
            Some(id) => r matches FriendOutcome::AcceptReceived { rowid } && rowid == id,
            None => r is SendRequest,
        }
    }
}

/// What a request comes to (see `friend_outcome_ok`).
pub fn friend_outcome(friendships: i64, sent: i64, received: Option<i64>) -> (r: FriendOutcome)
    ensures
        friend_outcome_ok(friendships, sent, received, r),
{
    if friendships != 0 {
        return FriendOutcome::AlreadyFriends { reply: String::from_str("You are already friends.") };
    }
    if sent != 0 {
        return FriendOutcome::AlreadySent { reply: String::from_str("You already sent a friend request to them.") };
    }
    match received {
        Some(rowid) => FriendOutcome::AcceptReceived { rowid },
        None => FriendOutcome::SendRequest,
    }
}

/// The reply when a request from the other was accepted instead.
pub fn received_reply(accept_response: &str) -> (r: String)
    ensures
        r@ == "You already received a friend request from them.\n"@ + accept_response@,
{
    let mut r = String::from_str("You already received a friend request from them.\n");
    push_str(&mut r, accept_response);
    r
}

/// The message that tells the other of a new request.
pub open spec fn request_message_text(name: Seq<char>, from: Seq<char>, rowid: i64) -> Seq<char> {
    "Friend request received from "@ + name + " ("@ + from + "). Reply 'accept "@ + signed_decimal(rowid as int)
        + "', 'reject "@ + signed_decimal(rowid as int) + "', or 'block "@ + signed_decimal(rowid as int) + "'"@
}

/// The message that tells the other of a new request (see
/// `request_message_text`).
pub fn request_message(name: &str, from: &str, rowid: i64) -> (r: String)
    ensures
        r@ == request_message_text(name@, from@, rowid),
{
    let id = i64_to_string(rowid);
    let mut r = String::from_str("Friend request received from ");
    push_str(&mut r, name);
    push_str(&mut r, " (");
    push_str(&mut r, from);
    push_str(&mut r, "). Reply 'accept ");
    push_string(&mut r, &id);
    push_str(&mut r, "', 'reject ");
    push_string(&mut r, &id);
    push_str(&mut r, "', or 'block ");
    push_string(&mut r, &id);
    push_str(&mut r, "'");
    r
}

/// The reply once a request is stored and sent, or when storing it failed.
pub fn request_sent_reply(stored: bool) -> (r: String)
    ensures
        r@ == if stored { "Friend request sent!"@ } else { "Failed to send friend request!"@ },
{
    if stored {
        String::from_str("Friend request sent!")
    } else {
        String::from_str("Failed to send friend request!")
    }
}

} // verus!
