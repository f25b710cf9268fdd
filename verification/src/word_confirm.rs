//! Confirmation as the word-based `confirm` command carries it out: the
//! selections are the raw comma-separated items of the message.
use vstd::prelude::*;
use crate::prompt::DeferredEntry;
use crate::records::{Contact, GroupRecord};
use crate::text::{
    all_digits, decimal, i64_to_string, is_ascii_lower, join, join_strings, lines_text,
    parse_usize, parse_usize_chars, push_char, push_lines, push_str, push_string, signed_decimal,
    string_of, string_views, to_chars, usize_to_string,
};
use crate::util::{area_label, area_label_of};

verus! {

/// What a deferred-contact selection such as `2b` means: the position of
/// the contact among `count` deferred contacts and the letter of its
/// number, or the failure line. The item must be digits followed by one
/// lowercase ASCII letter, and the number must be at least 1 and name a
/// deferred contact.
pub open spec fn word_deferred_selection(s: Seq<char>, count: nat) -> Result<(nat, char), Seq<char>> {
    if !(s.len() > 0 && is_ascii_lower(s.last()) && all_digits(s.drop_last())) {
        Err("Invalid selection format: "@ + s)
    } else {
        match parse_usize(s.drop_last()) {
            Some(n) => if n == 0 {
                Err("Invalid contact number: "@ + s.drop_last())
            } else if n - 1 < count {
                Ok(((n - 1) as nat, s.last()))
            } else {
                Err("Contact number "@ + decimal(n) + " not found"@)
            },
            None => Err("Invalid contact number: "@ + s.drop_last()),
        }
    }
}

/// What a deferred-contact selection means (see `word_deferred_selection`).
pub fn word_deferred_selection_of(s: &str, count: usize) -> (r: Result<(usize, char), String>)
    ensures
        match r {
            Ok((i, c)) => word_deferred_selection(s@, count as nat) == Ok::<(nat, char), Seq<char>>((i as nat, c)),
            Err(e) => word_deferred_selection(s@, count as nat) == Err::<(nat, char), Seq<char>>(e@),
        },
{
    let v = to_chars(s);
    let n = v.len();
    let mut ok = n > 0 && 'a' <= v[n - 1] && v[n - 1] <= 'z';
    if ok {
        let mut i: usize = 0;
        while i < n - 1
            invariant
                n == v@.len() > 0,
                i <= n - 1,
                ok <==> all_digits(v@.subrange(0, i as int)),
            decreases n - 1 - i,
        {
            if !('0' <= v[i] && v[i] <= '9') {
                ok = false;
            }
            proof {
                assert forall|j: int| 0 <= j < i + 1 implies v@.subrange(0, i + 1)[j] == v@[j] by {}
                if ok {
                    assert(all_digits(v@.subrange(0, i + 1)));
                } else if !all_digits(v@.subrange(0, i as int)) {
                    let j = choose|j: int| 0 <= j < i && !crate::text::is_digit(#[trigger] v@.subrange(0, i as int)[j]);
                    assert(v@.subrange(0, i + 1)[j] == v@.subrange(0, i as int)[j]);
                } else {
                    assert(!crate::text::is_digit(v@.subrange(0, i + 1)[i as int]));
                }
            }
            i = i + 1;
        }
        proof {
            assert(v@.subrange(0, n - 1) == s@.drop_last());
        }
    }
    if !ok {
        let mut m = String::from_str("Invalid selection format: ");
        push_str(&mut m, s);
        return Err(m);
    }
    let letter = v[n - 1];
    proof {
        assert(v@.subrange(0, n - 1) == s@.drop_last());
    }
    match parse_usize_chars(&v, 0, n - 1) {
        Some(k) => {
            if k == 0 {
                let mut m = String::from_str("Invalid contact number: ");
                let t = string_of(&v, 0, n - 1);
                push_string(&mut m, &t);
                Err(m)
            } else if k - 1 < count {
                Ok((k - 1, letter))
            } else {
                let mut m = String::from_str("Contact number ");
                let d = usize_to_string(k);
                push_string(&mut m, &d);
                push_str(&mut m, " not found");
                Err(m)
            }
        },
        None => {
            let mut m = String::from_str("Invalid contact number: ");
            let t = string_of(&v, 0, n - 1);
            push_string(&mut m, &t);
            Err(m)
        },
    }
}

/// The position among `count` numbers that a lowercase letter picks, or
/// the failure line when it is past them.
pub open spec fn word_letter_choice(letter: char, count: nat) -> Result<nat, Seq<char>> {
    let k = (letter as u32) - 97;
    if k >= count {
        Err("Invalid letter selection: "@ + seq![letter])
    } else {
        Ok(k as nat)
    }
}

/// The number a lowercase letter picks (see `word_letter_choice`).
pub fn word_letter_choice_of(letter: char, count: usize) -> (r: Result<usize, String>)
    requires
        is_ascii_lower(letter),
    ensures
        match r {
            Ok(k) => word_letter_choice(letter, count as nat) == Ok::<nat, Seq<char>>(k as nat),
            Err(e) => word_letter_choice(letter, count as nat) == Err::<nat, Seq<char>>(e@),
        },
{
    let code: u32 = letter as u32;
    let k: usize = (code - 97) as usize;
    if k >= count {
        let mut m = String::from_str("Invalid letter selection: ");
        push_char(&mut m, letter);
        proof {
            assert(m@ =~= "Invalid letter selection: "@ + seq![letter]);
        }
        Err(m)
    } else {
        Ok(k)
    }
}

/// What a deferred-contact selection such as `2b` picks among the
/// contacts of the reminder, in the order the reminder lists them (see
/// `deferred_prompt_text`): the name of the contact listed at that number
/// and its number listed at that letter, or the failure line.
pub open spec fn deferred_pick(entries: Seq<DeferredEntry>, s: Seq<char>) -> Result<(Seq<char>, Seq<char>), Seq<char>> {
    match word_deferred_selection(s, entries.len()) {
        Err(e) => Err(e),
        Ok((i, c)) => match word_letter_choice(c, entries[i as int].numbers@.len()) {
            Err(e) => Err(e),
            Ok(k) => Ok((entries[i as int].contact_name@, entries[i as int].numbers@[k as int].phone_number@)),
        },
    }
}

/// The contact name and number that a deferred-contact selection picks
/// (see `deferred_pick`).
pub fn deferred_pick_of(entries: &[DeferredEntry], s: &str) -> (r: Result<(String, String), String>)
    ensures
        match r {
            Ok((n, p)) => deferred_pick(entries@, s@) == Ok::<(Seq<char>, Seq<char>), Seq<char>>((n@, p@)),
            Err(e) => deferred_pick(entries@, s@) == Err::<(Seq<char>, Seq<char>), Seq<char>>(e@),
        },
{
    match word_deferred_selection_of(s, entries.len()) {
        Err(e) => Err(e),
        Ok((i, c)) => {
            let entry = &entries[i];
            match word_letter_choice_of(c, entry.numbers.len()) {
                Err(m) => Err(m),
                Ok(k) => Ok((entry.contact_name.clone(), entry.numbers[k].phone_number.clone())),
            }
        },
    }
}

/// Whether a deferred-contact confirmation ends the pending action: it
/// does exactly when none of the user's deferred numbers remains once the
/// confirmed names are cleared.
pub fn deferred_action_ends(remaining: i64) -> (r: bool)
    ensures
        r == (remaining == 0),
{
    remaining == 0
}

/// A line with a bullet in front: `• line`.
pub open spec fn bulleted(lines: Seq<Seq<char>>) -> Seq<Seq<char>> {
    Seq::new(lines.len(), |i: int| "• "@ + lines[i])
}

/// `s` has ` (` starting at position `i`.
pub open spec fn paren_at(s: Seq<char>, i: int) -> bool {
    s[i] == ' ' && s[i + 1] == '('
}

/// `s` holds no ` (`.
pub open spec fn free_of_paren(s: Seq<char>) -> bool {
    forall|i: int| 0 <= i < s.len() - 1 ==> !#[trigger] paren_at(s, i)
}

/// The part of an added-contact line before ` (`: the contact's name.
pub open spec fn before_paren(s: Seq<char>) -> Seq<char>
    decreases s.len(),
{
    if s.len() < 2 {
        s
    } else if s[0] == ' ' && s[1] == '(' {
        Seq::empty()
    } else {
        seq![s[0]] + before_paren(s.drop_first())
    }
}

/// The reply once deferred contacts are confirmed: the contacts added,
/// then the failures, each with a bullet.
pub open spec fn word_deferred_reply_text(successful: Seq<Seq<char>>, failed: Seq<Seq<char>>) -> Seq<char> {
    (if successful.len() > 0 {
        "Successfully added "@ + decimal(successful.len()) + " contact"@
            + (if successful.len() == 1 { Seq::empty() } else { "s"@ }) + ":\n"@ + lines_text(bulleted(successful))
    } else {
        Seq::empty()
    }) + (if failed.len() > 0 {
        (if successful.len() > 0 { "\n"@ } else { Seq::empty() }) + "Failed to process:\n"@ + lines_text(bulleted(failed))
    } else {
        Seq::empty()
    })
}

/// The names of the contacts added, whose deferred entries are cleared.
pub open spec fn cleared_names(successful: Seq<Seq<char>>) -> Seq<Seq<char>> {
    Seq::new(successful.len(), |i: int| before_paren(successful[i]))
}

/// The part of `s` before ` (` (see `before_paren`).
pub fn before_paren_of(s: &str) -> (r: String)
    ensures
        r@ == before_paren(s@),
{
    let v = to_chars(s);
    let n = v.len();
    let mut i: usize = 0;
    proof {
        assert(v@.subrange(0, n as int) == s@);
        assert(v@.subrange(0, 0) + before_paren(s@) =~= before_paren(s@));
    }
    while i < n && n - i > 1 && !(v[i] == ' ' && v[i + 1] == '(')
        invariant
            n == v@.len(),
            v@ == s@,
            i <= n,
            before_paren(s@) == v@.subrange(0, i as int) + before_paren(v@.subrange(i as int, n as int)),
        decreases n - i,
    {
        proof {
            let t = v@.subrange(i as int, n as int);
            assert(t[0] == v@[i as int]);
            assert(t[1] == v@[i + 1]);
            assert(t.drop_first() == v@.subrange(i + 1, n as int));
            assert(v@.subrange(0, i + 1) == v@.subrange(0, i as int) + seq![t[0]]);
        }
        i = i + 1;
    }
    proof {
        let t = v@.subrange(i as int, n as int);
        if i < n && n - i > 1 {
            assert(t[0] == v@[i as int]);
            assert(t[1] == v@[i + 1]);
            assert(before_paren(t) == Seq::<char>::empty());
            assert(before_paren(s@) =~= v@.subrange(0, i as int));
        } else {
            assert(before_paren(t) == t);
            assert(before_paren(s@) =~= v@.subrange(0, n as int));
        }
    }
    if i < n && n - i > 1 {
        string_of(&v, 0, i)
    } else {
        string_of(&v, 0, n)
    }
}

fn bullet_strings(lines: &Vec<String>) -> (r: Vec<String>)
    ensures
        string_views(r@) == bulleted(string_views(lines@)),
{
    let mut r: Vec<String> = Vec::new();
    let mut i: usize = 0;
    while i < lines.len()
        invariant
            i <= lines.len(),
            string_views(r@) == bulleted(string_views(lines@)).subrange(0, i as int),
        decreases lines.len() - i,
    {
        let mut b = String::from_str("• ");
        push_string(&mut b, &lines[i]);
        let ghost before = r@;
        r.push(b);
        proof {
            assert(string_views(r@) =~= string_views(before).push(b@));
        }
        i = i + 1;
    }
    proof {
        assert(bulleted(string_views(lines@)).subrange(0, lines.len() as int) == bulleted(string_views(lines@)));
    }
    r
}

/// The reply once deferred contacts are confirmed, and the names whose
/// deferred entries are cleared (see `word_deferred_reply_text` and
/// `cleared_names`).
pub fn word_deferred_finish(successful: &Vec<String>, failed: &Vec<String>) -> (r: (String, Vec<String>))
    ensures
        r.0@ == word_deferred_reply_text(string_views(successful@), string_views(failed@)),
        string_views(r.1@) == cleared_names(string_views(successful@)),
{
    let mut reply = String::new();
    if successful.len() > 0 {
        push_str(&mut reply, "Successfully added ");
        let d = usize_to_string(successful.len());
        push_string(&mut reply, &d);
        push_str(&mut reply, " contact");
        if successful.len() != 1 {
            push_str(&mut reply, "s");
        } else {
            proof {
                assert(reply@ + Seq::<char>::empty() == reply@);
            }
        }
        push_str(&mut reply, ":\n");
        let b = bullet_strings(successful);
        push_lines(&mut reply, &b);
    }
    let ghost a = reply@;
    proof {
        assert(a == Seq::<char>::empty() + (if successful@.len() > 0 {
            "Successfully added "@ + decimal(successful@.len()) + " contact"@
                + (if successful@.len() == 1 { Seq::<char>::empty() } else { "s"@ }) + ":\n"@
                + lines_text(bulleted(string_views(successful@)))
        } else {
            Seq::<char>::empty()
        }));
    }
    if failed.len() > 0 {
        if successful.len() > 0 {
            push_str(&mut reply, "\n");
        }
        push_str(&mut reply, "Failed to process:\n");
        let b = bullet_strings(failed);
        push_lines(&mut reply, &b);
        proof {
            assert(reply@ =~= a + ((if successful@.len() > 0 { "\n"@ } else { Seq::<char>::empty() })
                + "Failed to process:\n"@ + lines_text(bulleted(string_views(failed@)))));
        }
    } else {
        proof {
            assert(reply@ =~= a + Seq::<char>::empty());
        }
    }
    let mut names: Vec<String> = Vec::new();
    let mut i: usize = 0;
    while i < successful.len()
        invariant
            i <= successful.len(),
            string_views(names@) == cleared_names(string_views(successful@)).subrange(0, i as int),
        decreases successful.len() - i,
    {
        let nm = before_paren_of(successful[i].as_str());
        let ghost before = names@;
        names.push(nm);
        proof {
            assert(string_views(names@) =~= string_views(before).push(nm@));
        }
        i = i + 1;
    }
    proof {
        assert(cleared_names(string_views(successful@)).subrange(0, successful.len() as int)
            == cleared_names(string_views(successful@)));
    }
    (reply, names)
}


/// What the raw selections pick among the groups, numbered first, and the
/// contacts numbered after them: the groups picked, the contacts picked,
/// and the refusal lines.
pub open spec fn word_deletion_picks(groups: Seq<GroupRecord>, contacts: Seq<Contact>, sels: Seq<Seq<char>>)
    -> (Seq<GroupRecord>, Seq<Contact>, Seq<Seq<char>>)
    decreases sels.len(),
{
    if sels.len() == 0 {
        (Seq::empty(), Seq::empty(), Seq::empty())
    } else {
        let (g, c, e) = word_deletion_picks(groups, contacts, sels.drop_last());
        let s = sels.last();
        match parse_usize(s) {
            Some(n) => if n == 0 {
                (g, c, e.push("Invalid selection: "@ + s))
            } else if n - 1 < groups.len() {
                (g.push(groups[n - 1]), c, e)
            } else if n - 1 < groups.len() + contacts.len() {
                (g, c.push(contacts[n - 1 - groups.len()]), e)
            } else {
                (g, c, e.push("Invalid selection: "@ + decimal(n)))
            },
            None => (g, c, e.push("Invalid selection: "@ + s)),
        }
    }
}

/// The bullet line of a deleted group: `• name (K members)`.
pub open spec fn word_group_line(g: GroupRecord) -> Seq<char> {
    "• "@ + g.name@ + " ("@ + signed_decimal(g.member_count as int) + " members)"@
}

/// The bullet line of a deleted contact: `• Name (area)`.
pub open spec fn word_contact_line(c: Contact) -> Seq<char> {
    "• "@ + c.contact_name@ + " ("@ + area_label(c.contact_user_number@) + ")"@
}

/// The reply to a confirmed deletion: the groups deleted, the contacts
/// deleted and the selections refused.
pub open spec fn word_deletion_reply_text(g: Seq<GroupRecord>, c: Seq<Contact>, e: Seq<Seq<char>>) -> Seq<char> {
    let a = if g.len() > 0 {
        "Deleted "@ + decimal(g.len()) + " group"@ + (if g.len() == 1 { Seq::empty() } else { "s"@ }) + ":\n"@
            + lines_text(Seq::new(g.len(), |i: int| word_group_line(g[i])))
    } else {
        Seq::empty()
    };
    let b = if c.len() > 0 {
        (if g.len() > 0 { "\n"@ } else { Seq::empty() }) + "Deleted "@ + decimal(c.len()) + " contact"@
            + (if c.len() == 1 { Seq::empty() } else { "s"@ }) + ":\n"@
            + lines_text(Seq::new(c.len(), |i: int| word_contact_line(c[i])))
    } else {
        Seq::empty()
    };
    a + b + (if e.len() > 0 {
        (if g.len() > 0 || c.len() > 0 { "\n"@ } else { Seq::empty() }) + "Errors:\n"@ + join(e, "\n"@)
    } else {
        Seq::empty()
    })
}

/// What a confirmed deletion does: the reply, whether to delete anything,
/// and the groups and contacts to delete.
pub struct WordDeletionPlan {
    pub reply: String,
    pub apply: bool,
    pub groups: Vec<GroupRecord>,
    pub contacts: Vec<Contact>,
}

/// The plan of a confirmed deletion: when nothing is picked or refused,
/// `No valid selections provided.` and nothing deleted; otherwise the
/// groups and contacts picked are deleted and listed (see
/// `word_deletion_reply_text`).
pub fn plan_word_deletion(groups: &[GroupRecord], contacts: &[Contact], sels: &[String]) -> (r: WordDeletionPlan)
    requires
        groups@.len() + contacts@.len() <= usize::MAX,
    ensures
        ({
            let (g, c, e) = word_deletion_picks(groups@, contacts@, string_views(sels@));
            if g.len() == 0 && c.len() == 0 && e.len() == 0 {
                !r.apply && r.reply@ == "No valid selections provided."@ && r.groups@.len() == 0 && r.contacts@.len() == 0
            } else {
                r.apply && r.reply@ == word_deletion_reply_text(g, c, e) && r.groups@ == g && r.contacts@ == c
            }
        }),
{
    let ghost sv = string_views(sels@);
    let ng = groups.len();
    let nc = contacts.len();
    let mut g: Vec<GroupRecord> = Vec::new();
    let mut c: Vec<Contact> = Vec::new();
    let mut e: Vec<String> = Vec::new();
    let mut i: usize = 0;
    while i < sels.len()
        invariant
            i <= sels.len(),
            sv == string_views(sels@),
            ng == groups@.len(),
            nc == contacts@.len(),
            ng + nc <= usize::MAX,
            (g@, c@, string_views(e@)) == word_deletion_picks(groups@, contacts@, sv.subrange(0, i as int)),
        decreases sels.len() - i,
    {
        proof {
            assert(sv.subrange(0, i + 1).drop_last() == sv.subrange(0, i as int));
            assert(sv.subrange(0, i + 1).last() == sels@[i as int]@);
        }
        let v = to_chars(sels[i].as_str());
        proof {
            assert(v@.subrange(0, v.len() as int) == v@);
        }
        match parse_usize_chars(&v, 0, v.len()) {
            Some(n) => {
                if n == 0 {
                    let mut line = String::from_str("Invalid selection: ");
                    push_string(&mut line, &sels[i]);
                    let ghost before = e@;
                    e.push(line);
                    proof {
                        assert(string_views(e@) =~= string_views(before).push(line@));
                    }
                } else if n - 1 < ng {
                    g.push(groups[n - 1].clone());
                } else if n - 1 < ng + nc {
                    c.push(contacts[n - 1 - ng].clone());
                } else {
                    let mut line = String::from_str("Invalid selection: ");
                    let d = usize_to_string(n);
                    push_string(&mut line, &d);
                    let ghost before = e@;
                    e.push(line);
                    proof {
                        assert(string_views(e@) =~= string_views(before).push(line@));
                    }
                }
            },
            None => {
                let mut line = String::from_str("Invalid selection: ");
                push_string(&mut line, &sels[i]);
                let ghost before = e@;
                e.push(line);
                proof {
                    assert(string_views(e@) =~= string_views(before).push(line@));
                }
            },
        }
        i = i + 1;
    }
    proof {
        assert(sv.subrange(0, sels.len() as int) == sv);
    }
    if g.len() == 0 && c.len() == 0 && e.len() == 0 {
        return WordDeletionPlan {
            reply: String::from_str("No valid selections provided."),
            apply: false,
            groups: g,
            contacts: c,
        };
    }
    let reply = word_deletion_reply(&g, &c, &e);
    WordDeletionPlan { reply, apply: true, groups: g, contacts: c }
}

/// The reply to a confirmed deletion (see `word_deletion_reply_text`).
pub fn word_deletion_reply(g: &Vec<GroupRecord>, c: &Vec<Contact>, e: &Vec<String>) -> (r: String)
    ensures
        r@ == word_deletion_reply_text(g@, c@, string_views(e@)),
{
    let mut r = String::new();
    if g.len() > 0 {
        push_str(&mut r, "Deleted ");
        let d = usize_to_string(g.len());
        push_string(&mut r, &d);
        push_str(&mut r, " group");
        if g.len() != 1 {
            push_str(&mut r, "s");
        } else {
            proof {
                assert(r@ + Seq::<char>::empty() == r@);
            }
        }
        push_str(&mut r, ":\n");
        let mut lines: Vec<String> = Vec::new();
        let mut i: usize = 0;
        while i < g.len()
            invariant
                i <= g.len(),
                string_views(lines@) == Seq::new(g@.len(), |k: int| word_group_line(g@[k])).subrange(0, i as int),
            decreases g.len() - i,
        {
            let mut line = String::from_str("• ");
            push_string(&mut line, &g[i].name);
            push_str(&mut line, " (");
            let k = i64_to_string(g[i].member_count);
            push_string(&mut line, &k);
            push_str(&mut line, " members)");
            let ghost before = lines@;
            lines.push(line);
            proof {
                assert(string_views(lines@) =~= string_views(before).push(line@));
            }
            i = i + 1;
        }
        proof {
            let all = Seq::new(g@.len(), |k: int| word_group_line(g@[k]));
            assert(all.subrange(0, g.len() as int) == all);
        }
        push_lines(&mut r, &lines);
    }
    let ghost a = r@;
    if c.len() > 0 {
        if g.len() > 0 {
            push_str(&mut r, "\n");
        }
        push_str(&mut r, "Deleted ");
        let d = usize_to_string(c.len());
        push_string(&mut r, &d);
        push_str(&mut r, " contact");
        if c.len() != 1 {
            push_str(&mut r, "s");
        } else {
            proof {
                assert(r@ + Seq::<char>::empty() == r@);
            }
        }
        push_str(&mut r, ":\n");
        let mut lines: Vec<String> = Vec::new();
        let mut i: usize = 0;
        while i < c.len()
            invariant
                i <= c.len(),
                string_views(lines@) == Seq::new(c@.len(), |k: int| word_contact_line(c@[k])).subrange(0, i as int),
            decreases c.len() - i,
        {
            let mut line = String::from_str("• ");
            push_string(&mut line, &c[i].contact_name);
            push_str(&mut line, " (");
            let area = area_label_of(c[i].contact_user_number.as_str());
            push_string(&mut line, &area);
            push_str(&mut line, ")");
            let ghost before = lines@;
            lines.push(line);
            proof {
                assert(string_views(lines@) =~= string_views(before).push(line@));
            }
            i = i + 1;
        }
        proof {
            let all = Seq::new(c@.len(), |k: int| word_contact_line(c@[k]));
            assert(all.subrange(0, c.len() as int) == all);
        }
        push_lines(&mut r, &lines);
        proof {
            let b = (if g@.len() > 0 { "\n"@ } else { Seq::<char>::empty() }) + "Deleted "@ + decimal(c@.len()) + " contact"@
                + (if c@.len() == 1 { Seq::<char>::empty() } else { "s"@ }) + ":\n"@
                + lines_text(Seq::new(c@.len(), |k: int| word_contact_line(c@[k])));
            assert(r@ =~= a + b);
        }
    } else {
        proof {
            assert(r@ =~= a + Seq::<char>::empty());
        }
    }
    let ghost ab = r@;
    if e.len() > 0 {
        if g.len() > 0 || c.len() > 0 {
            push_str(&mut r, "\n");
        }
        push_str(&mut r, "Errors:\n");
        let j = join_strings(e, "\n");
        push_string(&mut r, &j);
        proof {
            assert(r@ =~= ab + ((if g@.len() > 0 || c@.len() > 0 { "\n"@ } else { Seq::<char>::empty() })
                + "Errors:\n"@ + join(string_views(e@), "\n"@)));
        }
    } else {
        proof {
            assert(r@ =~= ab + Seq::<char>::empty());
        }
    }
    r
}

/// What the raw selections pick among the contacts pending for a new
/// group, as a query at offset `N - 1` finds them (an offset too large for
/// an `i64` wraps to a negative one, which the database reads as zero):
/// the contacts picked, and the refusal lines.
pub open spec fn word_member_picks(pending: Seq<Contact>, sels: Seq<Seq<char>>) -> (Seq<Contact>, Seq<Seq<char>>)
    decreases sels.len(),
{
    if sels.len() == 0 {
        (Seq::empty(), Seq::empty())
    } else {
        let (m, e) = word_member_picks(pending, sels.drop_last());
        let s = sels.last();
        match parse_usize(s) {
            Some(n) => if n == 0 {
                (m, e.push("Invalid number: "@ + s))
            } else {
                let offset = if n - 1 > i64::MAX { 0 } else { n - 1 };
                if offset < pending.len() {
                    (m.push(pending[offset]), e)
                } else {
                    (m, e.push("Invalid selection: "@ + decimal(n)))
                }
            },
            None => (m, e.push("Invalid number: "@ + s)),
        }
    }
}

/// The contacts the raw selections pick for a new group, and the
/// refusals (see `word_member_picks`).
pub fn pick_word_members(pending: &[Contact], sels: &[String]) -> (r: (Vec<Contact>, Vec<String>))
    ensures
        (r.0@, string_views(r.1@)) == word_member_picks(pending@, string_views(sels@)),
{
    let ghost sv = string_views(sels@);
    let mut m: Vec<Contact> = Vec::new();
    let mut e: Vec<String> = Vec::new();
    let mut i: usize = 0;
    while i < sels.len()
        invariant
            i <= sels.len(),
            sv == string_views(sels@),
            (m@, string_views(e@)) == word_member_picks(pending@, sv.subrange(0, i as int)),
        decreases sels.len() - i,
    {
        proof {
            assert(sv.subrange(0, i + 1).drop_last() == sv.subrange(0, i as int));
            assert(sv.subrange(0, i + 1).last() == sels@[i as int]@);
        }
        let v = to_chars(sels[i].as_str());
        proof {
            assert(v@.subrange(0, v.len() as int) == v@);
        }
        let mut refusal: Option<String> = None;
        match parse_usize_chars(&v, 0, v.len()) {
            Some(n) => {
                if n == 0 {
                    let mut line = String::from_str("Invalid number: ");
                    push_string(&mut line, &sels[i]);
                    refusal = Some(line);
                } else {
                    let offset: usize = if ((n - 1) as u128) > 9223372036854775807u128 { 0 } else { n - 1 };
                    if offset < pending.len() {
                        m.push(pending[offset].clone());
                    } else {
                        let mut line = String::from_str("Invalid selection: ");
                        let d = usize_to_string(n);
                        push_string(&mut line, &d);
                        refusal = Some(line);
                    }
                }
            },
            None => {
                let mut line = String::from_str("Invalid number: ");
                push_string(&mut line, &sels[i]);
                refusal = Some(line);
            },
        }
        match refusal {
            Some(line) => {
                let ghost before = e@;
                e.push(line);
                proof {
                    assert(string_views(e@) =~= string_views(before).push(line@));
                }
            },
            None => {},
        }
        i = i + 1;
    }
    proof {
        assert(sv.subrange(0, sels.len() as int) == sv);
    }
    (m, e)
}
} // verus!
