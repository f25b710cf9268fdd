//! The reminders of an action that waits for a confirmation.
use vstd::prelude::*;
use crate::records::Contact;
use crate::text::{decimal, join, push_char, push_str, push_string, usize_to_string};
use crate::util::{contact_lines, format_contact_list};

verus! {

/// One number of a contact whose numbers wait for a choice.
pub struct DeferredNumber {
    pub phone_number: String,
    pub phone_description: Option<String>,
}

/// A contact whose numbers wait for a choice, with its numbers in order.
pub struct DeferredEntry {
    pub contact_name: String,
    pub numbers: Vec<DeferredNumber>,
}

/// The reminder of a pending deletion of contacts, or nothing when no
/// contact is pending.
pub open spec fn deletion_prompt_text(contacts: Seq<Contact>) -> Option<Seq<char>> {
    if contacts.len() == 0 {
        None
    } else {
        Some("\n\nYou have pending contact deletions:\n"@ + join(contact_lines(contacts, 0), "\n"@)
            + "\nTo delete contacts, reply \"confirm NUM1, NUM2, ...\""@)
    }
}

/// The reminder of a pending group creation, or nothing when no contact is
/// pending.
pub open spec fn group_prompt_text(contacts: Seq<Contact>) -> Option<Seq<char>> {
    if contacts.len() == 0 {
        None
    } else {
        Some("\n\nYou have a pending group creation:\n"@ + join(contact_lines(contacts, 0), "\n"@)
            + "\nTo create a group with these contacts, reply \"confirm NUM1, NUM2, ...\""@)
    }
}

/// The reminder of a pending deletion (see `deletion_prompt_text`).
pub fn deletion_prompt(contacts: &[Contact]) -> (r: Option<String>)
    ensures
        match r {
            Some(s) => deletion_prompt_text(contacts@) == Some(s@),
            None => deletion_prompt_text(contacts@) is None,
        },
{
    if contacts.len() == 0 {
        return None;
    }
    let mut r = String::from_str("\n\nYou have pending contact deletions:\n");
    let list = format_contact_list(contacts, 0);
    push_string(&mut r, &list);
    push_str(&mut r, "\nTo delete contacts, reply \"confirm NUM1, NUM2, ...\"");
    Some(r)
}

/// The reminder of a pending group creation (see `group_prompt_text`).
pub fn group_prompt(contacts: &[Contact]) -> (r: Option<String>)
    ensures
        match r {
            Some(s) => group_prompt_text(contacts@) == Some(s@),
            None => group_prompt_text(contacts@) is None,
        },
{
    if contacts.len() == 0 {
        return None;
    }
    let mut r = String::from_str("\n\nYou have a pending group creation:\n");
    let list = format_contact_list(contacts, 0);
    push_string(&mut r, &list);
    push_str(&mut r, "\nTo create a group with these contacts, reply \"confirm NUM1, NUM2, ...\"");
    Some(r)
}

/// The letter that picks the number at position `j`: `a`, `b`, ...
pub open spec fn choice_letter(j: nat) -> char {
    ((97 + j) as u32) as char
}

/// A number line of the reminder: `   a. +19876543210 (cell)`, or
/// `no description` when the number has none.
pub open spec fn number_line(j: nat, n: DeferredNumber) -> Seq<char> {
    "\n   "@ + seq![choice_letter(j)] + ". "@ + n.phone_number@ + " ("@ + match n.phone_description {
        Some(d) => d@,
        None => "no description"@,
    } + ")"@
}

/// The numbers of a contact, each on its line.
pub open spec fn number_lines(numbers: Seq<DeferredNumber>, upto: nat) -> Seq<char>
    decreases upto,
{
    if upto == 0 {
        Seq::empty()
    } else {
        number_lines(numbers, (upto - 1) as nat) + number_line((upto - 1) as nat, numbers[upto - 1])
    }
}

/// A contact of the reminder: `N. Name`, then its numbers.
pub open spec fn entry_text(i: nat, e: DeferredEntry) -> Seq<char> {
    "\n"@ + decimal(i + 1) + ". "@ + e.contact_name@ + number_lines(e.numbers@, e.numbers@.len())
}

/// The contacts of the reminder, one after another.
pub open spec fn entries_text(entries: Seq<DeferredEntry>, upto: nat) -> Seq<char>
    decreases upto,
{
    if upto == 0 {
        Seq::empty()
    } else {
        entries_text(entries, (upto - 1) as nat) + entry_text((upto - 1) as nat, entries[upto - 1])
    }
}

/// The reminder of contacts whose numbers wait for a choice, or nothing
/// when none waits.
pub open spec fn deferred_prompt_text(entries: Seq<DeferredEntry>) -> Option<Seq<char>> {
    if entries.len() == 0 {
        None
    } else {
        Some("\n\nYou have contacts with multiple numbers pending:\n"@ + entries_text(entries, entries.len())
            + "\n\nReply with \"confirm NA, MB, ...\" where N and M are contact numbers and A and B are letter choices"@)
    }
}

/// No contact has more numbers than the letters from `a` on can pick.
pub open spec fn letters_suffice(entries: Seq<DeferredEntry>) -> bool {
    forall|i: int| 0 <= i < entries.len() ==> (#[trigger] entries[i]).numbers@.len() <= 159
}

/// The reminder of contacts whose numbers wait for a choice (see
/// `deferred_prompt_text`).
pub fn deferred_prompt(entries: &[DeferredEntry]) -> (r: Option<String>)
    requires
        letters_suffice(entries@),
        entries@.len() < usize::MAX,
    ensures
        match r {
            Some(s) => deferred_prompt_text(entries@) == Some(s@),
            None => deferred_prompt_text(entries@) is None,
        },
{
    if entries.len() == 0 {
        return None;
    }
    let mut r = String::from_str("\n\nYou have contacts with multiple numbers pending:\n");
    let ghost head = r@;
    let mut i: usize = 0;
    while i < entries.len()
        invariant
            i <= entries.len() < usize::MAX,
            letters_suffice(entries@),
            r@ == head + entries_text(entries@, i as nat),
        decreases entries.len() - i,
    {
        let e = &entries[i];
        push_str(&mut r, "\n");
        let d = usize_to_string(i + 1);
        push_string(&mut r, &d);
        push_str(&mut r, ". ");
        push_string(&mut r, &e.contact_name);
        let ghost before_numbers = r@;
        let mut j: usize = 0;
        while j < e.numbers.len()
            invariant
                j <= e.numbers@.len() <= 159,
                r@ == before_numbers + number_lines(e.numbers@, j as nat),
            decreases e.numbers.len() - j,
        {
            let n = &e.numbers[j];
            push_str(&mut r, "\n   ");
            let code: u32 = 97 + j as u32;
            let letter = char_from_code(code);
            push_char(&mut r, letter);
            proof {
                assert(r@ =~= before_numbers + number_lines(e.numbers@, j as nat) + "\n   "@ + seq![choice_letter(j as nat)]);
            }
            push_str(&mut r, ". ");
            push_string(&mut r, &n.phone_number);
            push_str(&mut r, " (");
            match &n.phone_description {
                Some(d) => push_string(&mut r, d),
                None => push_str(&mut r, "no description"),
            }
            push_str(&mut r, ")");
            proof {
                assert(r@ =~= before_numbers + number_lines(e.numbers@, (j + 1) as nat));
            }
            j = j + 1;
        }
        proof {
            assert(r@ =~= head + entries_text(entries@, (i + 1) as nat));
        }
        i = i + 1;
    }
    push_str(&mut r, "\n\nReply with \"confirm NA, MB, ...\" where N and M are contact numbers and A and B are letter choices");
    Some(r)
}

/// The lowercase letter with code `code`.
fn char_from_code(code: u32) -> (c: char)
    requires
        97 <= code <= 255,
    ensures
        c == (code as char),
{
    let b: u8 = code as u8;
    b as char
}

} // verus!
