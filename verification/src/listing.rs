//! The numbered lists of groups and contacts that the bot sends.
use vstd::prelude::*;
use crate::records::{Contact, GroupRecord};
use crate::text::{
    decimal, i64_to_string, join, lines_text, push_lines, push_str, push_string, signed_decimal,
    string_views, usize_to_string,
};
use crate::text::{join_strings, lemma_decimal_nonempty, lemma_join_first_nonempty};
use crate::util::{
    built, contact_line, contact_lines, e164_normal_form, format_contact_line, format_contact_list,
    ResponseBuilder,
};

verus! {

/// One numbered line of a group list: `N. name (K members)`.
pub open spec fn group_line(n: nat, g: GroupRecord) -> Seq<char> {
    decimal(n) + ". "@ + g.name@ + " ("@ + signed_decimal(g.member_count as int) + " members)"@
}

/// The numbered lines of `groups`, the first numbered `offset + 1`.
pub open spec fn group_lines(groups: Seq<GroupRecord>, offset: nat) -> Seq<Seq<char>> {
    Seq::new(groups.len(), |i: int| group_line((i + offset + 1) as nat, groups[i]))
}

/// One numbered group line (see `group_line`).
pub fn format_group_line(n: usize, g: &GroupRecord) -> (r: String)
    ensures
        r@ == group_line(n as nat, *g),
{
    let mut r = usize_to_string(n);
    push_str(&mut r, ". ");
    push_string(&mut r, &g.name);
    push_str(&mut r, " (");
    let k = i64_to_string(g.member_count);
    push_string(&mut r, &k);
    push_str(&mut r, " members)");
    r
}

/// The numbered group lines, the first numbered `offset + 1`.
pub fn group_line_strings(groups: &[GroupRecord], offset: usize) -> (r: Vec<String>)
    requires
        offset + groups@.len() <= usize::MAX,
    ensures
        string_views(r@) == group_lines(groups@, offset as nat),
{
    let mut lines: Vec<String> = Vec::new();
    let mut i: usize = 0;
    while i < groups.len()
        invariant
            i <= groups.len(),
            offset + groups@.len() <= usize::MAX,
            string_views(lines@) == group_lines(groups@, offset as nat).subrange(0, i as int),
        decreases groups.len() - i,
    {
        let line = format_group_line(i + offset + 1, &groups[i]);
        let ghost before = lines@;
        lines.push(line);
        proof {
            assert(string_views(lines@) =~= string_views(before).push(line@));
        }
        i = i + 1;
    }
    proof {
        assert(group_lines(groups@, offset as nat).subrange(0, groups.len() as int) == group_lines(groups@, offset as nat));
    }
    lines
}

/// The numbered contact lines, the first numbered `offset + 1`.
pub fn contact_line_strings(contacts: &[Contact], offset: usize) -> (r: Vec<String>)
    requires
        offset + contacts@.len() <= usize::MAX,
    ensures
        string_views(r@) == contact_lines(contacts@, offset as nat),
{
    let mut lines: Vec<String> = Vec::new();
    let mut i: usize = 0;
    while i < contacts.len()
        invariant
            i <= contacts.len(),
            offset + contacts@.len() <= usize::MAX,
            string_views(lines@) == contact_lines(contacts@, offset as nat).subrange(0, i as int),
        decreases contacts.len() - i,
    {
        let line = format_contact_line(i + offset + 1, &contacts[i]);
        let ghost before = lines@;
        lines.push(line);
        proof {
            assert(string_views(lines@) =~= string_views(before).push(line@));
        }
        i = i + 1;
    }
    proof {
        assert(contact_lines(contacts@, offset as nat).subrange(0, contacts.len() as int) == contact_lines(contacts@, offset as nat));
    }
    lines
}

/// The reply to a deletion search that found something: the groups
/// numbered from 1, then the contacts numbered on after them, then how to
/// confirm.
pub open spec fn deletion_candidates_text(groups: Seq<GroupRecord>, contacts: Seq<Contact>) -> Seq<char> {
    (if groups.len() > 0 {
        "Found these groups:\n"@ + lines_text(group_lines(groups, 0))
    } else {
        Seq::empty()
    }) + (if contacts.len() > 0 {
        (if groups.len() > 0 { "\n"@ } else { Seq::empty() }) + "Found these contacts:\n"@
            + lines_text(contact_lines(contacts, groups.len()))
    } else {
        Seq::empty()
    }) + "\nTo delete items, reply \"confirm NUM1, NUM2, ...\", where NUM1, NUM2, etc. are numbers from the lists above."@
}

/// The reply to a deletion search that found nothing.
pub open spec fn no_match_text(query: Seq<char>) -> Seq<char> {
    "No groups or contacts found matching \""@ + query + "\""@
}

/// The reply to a deletion search (see `deletion_candidates_text`).
pub fn deletion_candidates_reply(groups: &[GroupRecord], contacts: &[Contact]) -> (r: String)
    requires
        groups@.len() + contacts@.len() <= usize::MAX,
    ensures
        r@ == deletion_candidates_text(groups@, contacts@),
{
    let mut r = String::new();
    if groups.len() > 0 {
        push_str(&mut r, "Found these groups:\n");
        let lines = group_line_strings(groups, 0);
        push_lines(&mut r, &lines);
    }
    let ghost after_groups = r@;
    proof {
        assert(after_groups == Seq::<char>::empty() + (if groups@.len() > 0 {
            "Found these groups:\n"@ + lines_text(group_lines(groups@, 0))
        } else {
            Seq::empty()
        }));
    }
    if contacts.len() > 0 {
        if groups.len() > 0 {
            push_str(&mut r, "\n");
        }
        push_str(&mut r, "Found these contacts:\n");
        let lines = contact_line_strings(contacts, groups.len());
        push_lines(&mut r, &lines);
        proof {
            let c = (if groups@.len() > 0 { "\n"@ } else { Seq::<char>::empty() }) + "Found these contacts:\n"@
                + lines_text(contact_lines(contacts@, groups@.len()));
            assert(r@ =~= after_groups + c);
        }
    } else {
        proof {
            assert(r@ =~= after_groups + Seq::<char>::empty());
        }
    }
    push_str(&mut r, "\nTo delete items, reply \"confirm NUM1, NUM2, ...\", where NUM1, NUM2, etc. are numbers from the lists above.");
    r
}

/// The reply to a deletion search that found nothing (see `no_match_text`).
pub fn no_match_reply(query: &str) -> (r: String)
    ensures
        r@ == no_match_text(query@),
{
    let mut r = String::from_str("No groups or contacts found matching \"");
    push_str(&mut r, query);
    push_str(&mut r, "\"");
    r
}


/// What a deletion search does with what it found: answer that nothing
/// matched and store nothing, or store the items listed as the pending
/// deletion and list them.
pub enum DeletePlan {
    Reply { text: String },
    Store { group_ids: Vec<i64>, contact_ids: Vec<i64>, reply: String },
}

/// The ids of the groups, in order.
pub open spec fn group_ids_of(groups: Seq<GroupRecord>) -> Seq<i64> {
    Seq::new(groups.len(), |i: int| groups[i].id)
}

/// The ids of the contacts, in order.
pub open spec fn contact_ids_of(contacts: Seq<Contact>) -> Seq<i64> {
    Seq::new(contacts.len(), |i: int| contacts[i].id)
}

/// The outcome of a deletion search for `query`: when no group and no
/// contact matched, the `no_match_text` reply and nothing stored;
/// otherwise every group and contact found, and only those, stored as the
/// pending deletion in the order listed, with the `deletion_candidates_text`
/// reply.
pub fn delete_plan(groups: &[GroupRecord], contacts: &[Contact], query: &str) -> (r: DeletePlan)
    requires
        groups@.len() + contacts@.len() <= usize::MAX,
    ensures
        (r is Reply) <==> (groups@.len() == 0 && contacts@.len() == 0),
        match r {
            DeletePlan::Reply { text } => text@ == no_match_text(query@),
            DeletePlan::Store { group_ids, contact_ids, reply } => {
                &&& group_ids@ == group_ids_of(groups@)
                &&& contact_ids@ == contact_ids_of(contacts@)
                &&& group_ids@.len() == groups@.len()
                &&& forall|i: int| 0 <= i < groups@.len() ==> #[trigger] group_ids@[i] == groups@[i].id
                &&& contact_ids@.len() == contacts@.len()
                &&& forall|i: int| 0 <= i < contacts@.len() ==> #[trigger] contact_ids@[i] == contacts@[i].id
                &&& reply@ == deletion_candidates_text(groups@, contacts@)
            },
        },
{
    if groups.len() == 0 && contacts.len() == 0 {
        return DeletePlan::Reply { text: no_match_reply(query) };
    }
    let mut group_ids: Vec<i64> = Vec::new();
    let mut i: usize = 0;
    while i < groups.len()
        invariant
            i <= groups@.len(),
            group_ids@ == group_ids_of(groups@).subrange(0, i as int),
        decreases groups.len() - i,
    {
        group_ids.push(groups[i].id);
        proof {
            assert(group_ids@ =~= group_ids_of(groups@).subrange(0, i + 1));
        }
        i = i + 1;
    }
    let mut contact_ids: Vec<i64> = Vec::new();
    let mut j: usize = 0;
    while j < contacts.len()
        invariant
            j <= contacts@.len(),
            contact_ids@ == contact_ids_of(contacts@).subrange(0, j as int),
        decreases contacts.len() - j,
    {
        contact_ids.push(contacts[j].id);
        proof {
            assert(contact_ids@ =~= contact_ids_of(contacts@).subrange(0, j + 1));
        }
        j = j + 1;
    }
    proof {
        assert(group_ids@ =~= group_ids_of(groups@));
        assert(contact_ids@ =~= contact_ids_of(contacts@));
    }
    DeletePlan::Store { group_ids, contact_ids, reply: deletion_candidates_reply(groups, contacts) }
}

/// The reply that lists all of a user's groups and contacts.
pub open spec fn contacts_overview_text(groups: Seq<GroupRecord>, contacts: Seq<Contact>) -> Seq<char> {
    if groups.len() == 0 && contacts.len() == 0 {
        "You don't have any groups or contacts."@
    } else {
        (if groups.len() > 0 {
            "Your groups:\n"@ + lines_text(group_lines(groups, 0))
        } else {
            Seq::empty()
        }) + (if contacts.len() > 0 {
            (if groups.len() > 0 { "\n"@ } else { Seq::empty() }) + "Your contacts:\n"@
                + join(contact_lines(contacts, groups.len()), "\n"@)
        } else {
            Seq::empty()
        })
    }
}

/// Every stored contact number is a valid phone number.
pub open spec fn numbers_valid(contacts: Seq<Contact>) -> bool {
    forall|i: int| 0 <= i < contacts.len() ==> e164_normal_form(#[trigger] contacts[i].contact_user_number@) is Some
}

/// The reply that lists all of a user's groups and contacts (see
/// `contacts_overview_text`). The stored numbers must be valid phone
/// numbers, as they are when stored by the bot.
pub fn contacts_overview_reply(groups: &[GroupRecord], contacts: &[Contact]) -> (r: String)
    requires
        groups@.len() + contacts@.len() <= usize::MAX,
        numbers_valid(contacts@),
    ensures
        r@ == contacts_overview_text(groups@, contacts@),
{
    if groups.len() == 0 && contacts.len() == 0 {
        return String::from_str("You don't have any groups or contacts.");
    }
    let mut r = String::new();
    if groups.len() > 0 {
        push_str(&mut r, "Your groups:\n");
        let lines = group_line_strings(groups, 0);
        push_lines(&mut r, &lines);
    }
    let ghost after_groups = r@;
    proof {
        assert(after_groups == Seq::<char>::empty() + (if groups@.len() > 0 {
            "Your groups:\n"@ + lines_text(group_lines(groups@, 0))
        } else {
            Seq::empty()
        }));
    }
    if contacts.len() > 0 {
        if groups.len() > 0 {
            push_str(&mut r, "\n");
        }
        push_str(&mut r, "Your contacts:\n");
        let list = format_contact_list(contacts, groups.len());
        push_string(&mut r, &list);
        proof {
            let c = (if groups@.len() > 0 { "\n"@ } else { Seq::<char>::empty() }) + "Your contacts:\n"@
                + join(contact_lines(contacts@, groups@.len()), "\n"@);
            assert(r@ =~= after_groups + c);
        }
    } else {
        proof {
            assert(r@ =~= after_groups + Seq::<char>::empty());
        }
    }
    r
}

/// The reply to a group search that found contacts: the contacts numbered
/// from 1, then how to confirm.
pub open spec fn group_candidates_text(contacts: Seq<Contact>) -> Seq<char> {
    "Found these contacts"@ + ":\n"@ + join(contact_lines(contacts, 0), "\n"@) + seq!['\n']
        + "To create a group with these contacts, reply \"confirm NUM1, NUM2, ...\""@
}

/// The reply to a group search that found contacts (see
/// `group_candidates_text`).
pub fn group_candidates_reply(contacts: &[Contact]) -> (r: String)
    requires
        contacts@.len() > 0,
    ensures
        r@ == group_candidates_text(contacts@),
{
    let mut b = ResponseBuilder::new();
    let _n = contacts.len();
    let list = format_contact_list(contacts, 0);
    proof {
        lemma_decimal_nonempty(1);
        assert(contact_lines(contacts@, 0)[0] == contact_line(1, contacts@[0]));
        lemma_join_first_nonempty(contact_lines(contacts@, 0), "\n"@);
        reveal_strlit("To create a group with these contacts, reply \"confirm NUM1, NUM2, ...\"");
    }
    b.add_titled("Found these contacts", list);
    b.add_section("To create a group with these contacts, reply \"confirm NUM1, NUM2, ...\"");
    let r = b.build();
    proof {
        let secs = b@;
        assert(secs.len() == 2);
        assert(secs.drop_last().len() == 1);
        assert(join(secs.drop_last(), Seq::empty()) == secs[0]);
        assert(built(secs) == secs[0] + Seq::<char>::empty() + secs[1]);
        assert(built(secs) =~= group_candidates_text(contacts@));
    }
    r
}

/// The reply to a group search that found contacts, as the word-based
/// `group` command words it.
pub open spec fn group_candidates_plain_text(contacts: Seq<Contact>) -> Seq<char> {
    "Found these contacts:\n"@ + join(contact_lines(contacts, 0), "\n"@)
        + "\n\nTo create a group with these contacts, reply \"confirm NUM1, NUM2, ...\""@
}

/// The word-based `group` command's reply (see
/// `group_candidates_plain_text`).
pub fn group_candidates_plain_reply(contacts: &[Contact]) -> (r: String)
    ensures
        r@ == group_candidates_plain_text(contacts@),
{
    let mut r = String::from_str("Found these contacts:\n");
    let _n = contacts.len();
    let list = format_contact_list(contacts, 0);
    push_string(&mut r, &list);
    push_str(&mut r, "\n\nTo create a group with these contacts, reply \"confirm NUM1, NUM2, ...\"");
    r
}

/// The reply to a group search that found nothing.
pub open spec fn no_contacts_text(fragments: Seq<Seq<char>>) -> Seq<char> {
    "No contacts found matching: "@ + join(fragments, ", "@)
}

/// The reply to a group search that found nothing (see `no_contacts_text`).
pub fn no_contacts_reply(fragments: &[String]) -> (r: String)
    ensures
        r@ == no_contacts_text(string_views(fragments@)),
{
    let mut r = String::from_str("No contacts found matching: ");
    let j = join_strings(fragments, ", ");
    push_string(&mut r, &j);
    r
}
} // verus!
