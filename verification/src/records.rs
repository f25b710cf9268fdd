//! The rows that the bot keeps about users, contacts and groups.
use vstd::prelude::*;

verus! {

/// A registered user: a phone number and a display name.
#[derive(Debug)]
pub struct User {
    pub number: String,
    pub name: String,
}

/// A contact that a user submitted.
#[derive(Debug)]
pub struct Contact {
    pub id: i64,
    pub contact_name: String,
    pub contact_user_number: String,
}

/// A group that a user created, with its number of members.
#[derive(Debug)]
pub struct GroupRecord {
    pub id: i64,
    pub name: String,
    pub member_count: i64,
}


impl Clone for User {
    fn clone(&self) -> (r: Self)
        ensures
            r == *self,
    {
        User { number: self.number.clone(), name: self.name.clone() }
    }
}

impl Clone for Contact {
    fn clone(&self) -> (r: Self)
        ensures
            r == *self,
    {
        Contact {
            id: self.id,
            contact_name: self.contact_name.clone(),
            contact_user_number: self.contact_user_number.clone(),
        }
    }
}

impl Clone for GroupRecord {
    fn clone(&self) -> (r: Self)
        ensures
            r == *self,
    {
        GroupRecord { id: self.id, name: self.name.clone(), member_count: self.member_count }
    }
}
} // verus!
