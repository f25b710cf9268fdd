//! How the numbered lists the bot sends agree with what it stores and with
//! what a later confirmation picks: every item found is listed, item `i` is
//! listed under the number `i + 1` (contacts after groups go on from the
//! groups' count), and typing that number picks that item.
use vstd::prelude::*;
use crate::confirm::member_picks;
use crate::listing::{
    contact_ids_of, contacts_overview_text, deletion_candidates_text, group_candidates_plain_text,
    group_candidates_text, group_ids_of,
};
use crate::prompt::{
    choice_letter, deferred_prompt_text, deletion_prompt_text, entries_text, group_prompt_text, number_lines,
    DeferredEntry, DeferredNumber,
};
use crate::records::{Contact, GroupRecord};
use crate::text::{
    decimal, join, lemma_decimal_nonempty, lemma_decimal_reads_back, lines_text, parse_usize,
    signed_decimal,
};
use crate::util::{area_label, contact_lines, Selection};
use crate::word_confirm::{word_deletion_picks, word_member_picks};
use crate::listing::group_lines;

verus! {

/// The contacts written one per line, the `j`-th as
/// `<first + j>. Name (area)`.
pub open spec fn contacts_numbered_from(contacts: Seq<Contact>, first: nat) -> Seq<Seq<char>> {
    Seq::new(
        contacts.len(),
        |j: int|
            decimal((first + j) as nat) + ". "@ + contacts[j].contact_name@ + " ("@ + area_label(
                contacts[j].contact_user_number@,
            ) + ")"@,
    )
}

/// The groups written one per line, the `j`-th as
/// `<j + 1>. name (K members)`.
pub open spec fn groups_numbered(groups: Seq<GroupRecord>) -> Seq<Seq<char>> {
    Seq::new(
        groups.len(),
        |j: int|
            decimal((j + 1) as nat) + ". "@ + groups[j].name@ + " ("@ + signed_decimal(
                groups[j].member_count as int,
            ) + " members)"@,
    )
}

/// The number `n` as typed in a confirmation reads back as `n`.
proof fn lemma_typed_number(n: nat)
    requires
        1 <= n <= usize::MAX,
    ensures
        parse_usize(decimal(n)) == Some(n),
{
    let d = decimal(n);
    lemma_decimal_nonempty(n);
    lemma_decimal_reads_back(n);
    assert(crate::text::is_digit(d[0]));
}

/// The contact a typed group selection names: the contact listed under
/// that number, counted from one. A number past the largest offset the
/// contact query takes (`i64::MAX`) reads as offset zero, as the query
/// reads a negative offset.
pub open spec fn typed_member(pending: Seq<Contact>, s: Seq<char>) -> Option<Contact> {
    match parse_usize(s) {
        Some(n) => if 1 <= n <= pending.len() {
            Some(pending[n - 1])
        } else if n > i64::MAX + 1 && pending.len() > 0 {
            Some(pending[0])
        } else {
            None
        },
        None => None,
    }
}

/// The refusal of a typed group selection that names no listed contact.
pub open spec fn typed_member_refusal(pending: Seq<Contact>, s: Seq<char>) -> Option<Seq<char>> {
    match parse_usize(s) {
        Some(n) => if n == 0 {
            Some("Invalid number: "@ + s)
        } else if typed_member(pending, s) is Some {
            None
        } else {
            Some("Invalid selection: "@ + decimal(n))
        },
        None => Some("Invalid number: "@ + s),
    }
}

/// `typed_member` over a fixed pending list.
pub open spec fn typed_member_pick(pending: Seq<Contact>) -> spec_fn(Seq<char>) -> Option<Contact> {
    |s: Seq<char>| typed_member(pending, s)
}

/// `typed_member_refusal` over a fixed pending list.
pub open spec fn typed_member_refusal_pick(pending: Seq<Contact>) -> spec_fn(Seq<char>) -> Option<Seq<char>> {
    |s: Seq<char>| typed_member_refusal(pending, s)
}

/// Confirming a pending group with typed numbers adds, in the order typed,
/// exactly the contacts listed under those numbers, and refuses each
/// other selection with one line.
pub proof fn typed_group_members_are_the_listed_ones(pending: Seq<Contact>, sels: Seq<Seq<char>>)
    requires
        pending.len() <= i64::MAX,
    ensures
        word_member_picks(pending, sels).0 == sels.filter_map(typed_member_pick(pending)),
        word_member_picks(pending, sels).1 == sels.filter_map(typed_member_refusal_pick(pending)),
    decreases sels.len(),
{
    if sels.len() > 0 {
        let rest = sels.drop_last();
        typed_group_members_are_the_listed_ones(pending, rest);
        let s = sels.last();
        let pm = rest.filter_map(typed_member_pick(pending));
        let pe = rest.filter_map(typed_member_refusal_pick(pending));
        match typed_member(pending, s) {
            Some(c) => assert(sels.filter_map(typed_member_pick(pending)) == pm + seq![c]),
            None => assert(sels.filter_map(typed_member_pick(pending)) == pm),
        }
        match typed_member_refusal(pending, s) {
            Some(l) => assert(sels.filter_map(typed_member_refusal_pick(pending)) == pe + seq![l]),
            None => assert(sels.filter_map(typed_member_refusal_pick(pending)) == pe),
        }
    } else {
        assert(sels.filter_map(typed_member_pick(pending)) =~= Seq::<Contact>::empty());
        assert(sels.filter_map(typed_member_refusal_pick(pending)) =~= Seq::<Seq<char>>::empty());
    }
}

/// The contact a numbered group selection names: the contact at that
/// position, or the first one past the largest offset the query takes.
pub open spec fn selected_member(pending: Seq<Contact>, s: Selection) -> Option<Contact> {
    let idx = s.index as int;
    if idx < pending.len() {
        Some(pending[idx])
    } else if idx > i64::MAX && pending.len() > 0 {
        Some(pending[0])
    } else {
        None
    }
}

/// `selected_member` over a fixed pending list.
pub open spec fn selected_member_pick(pending: Seq<Contact>) -> spec_fn(Selection) -> Option<Contact> {
    |s: Selection| selected_member(pending, s)
}

/// Confirming a pending group with numbered selections adds, in order,
/// exactly the contacts at the selected positions, and refuses every
/// other selection.
pub proof fn selected_group_members_are_the_listed_ones(pending: Seq<Contact>, sels: Seq<Selection>)
    requires
        pending.len() <= i64::MAX,
    ensures
        member_picks(pending, sels).0 == sels.filter_map(selected_member_pick(pending)),
        member_picks(pending, sels).0.len() + member_picks(pending, sels).1.len() == sels.len(),
    decreases sels.len(),
{
    if sels.len() > 0 {
        let rest = sels.drop_last();
        selected_group_members_are_the_listed_ones(pending, rest);
        let pm = rest.filter_map(selected_member_pick(pending));
        match selected_member(pending, sels.last()) {
            Some(c) => assert(sels.filter_map(selected_member_pick(pending)) == pm + seq![c]),
            None => assert(sels.filter_map(selected_member_pick(pending)) == pm),
        }
    } else {
        assert(sels.filter_map(selected_member_pick(pending)) =~= Seq::<Contact>::empty());
    }
}

/// A group search lists every contact found, the `i`-th under the number
/// `i + 1`, and typing that number when confirming adds that contact and
/// no other. The pending group's reminder lists the same contacts under
/// the same numbers.
pub proof fn group_listing_and_confirmation_agree(cs: Seq<Contact>, i: int)
    requires
        0 <= i < cs.len(),
        cs.len() <= i64::MAX,
        cs.len() <= usize::MAX,
    ensures
        group_candidates_plain_text(cs) == "Found these contacts:\n"@ + join(contacts_numbered_from(cs, 1), "\n"@)
            + "\n\nTo create a group with these contacts, reply \"confirm NUM1, NUM2, ...\""@,
        group_candidates_text(cs) == "Found these contacts"@ + ":\n"@ + join(contacts_numbered_from(cs, 1), "\n"@)
            + seq!['\n'] + "To create a group with these contacts, reply \"confirm NUM1, NUM2, ...\""@,
        group_prompt_text(cs) == Some(
            "\n\nYou have a pending group creation:\n"@ + join(contacts_numbered_from(cs, 1), "\n"@)
                + "\nTo create a group with these contacts, reply \"confirm NUM1, NUM2, ...\""@,
        ),
        contacts_numbered_from(cs, 1)[i].subrange(0, decimal((i + 1) as nat).len() as int) == decimal((i + 1) as nat),
        word_member_picks(cs, seq![decimal((i + 1) as nat)]).0 == seq![cs[i]],
{
    assert(contact_lines(cs, 0) =~= contacts_numbered_from(cs, 1));
    assert(contacts_numbered_from(cs, 1)[i].subrange(0, decimal((i + 1) as nat).len() as int)
        =~= decimal((i + 1) as nat));
    lemma_typed_number((i + 1) as nat);
    let sels = seq![decimal((i + 1) as nat)];
    assert(sels.drop_last() =~= Seq::<Seq<char>>::empty());
    assert(sels.last() == decimal((i + 1) as nat));
    reveal_with_fuel(word_member_picks, 2);
    assert(Seq::<Contact>::empty().push(cs[i]) =~= seq![cs[i]]);
}

/// The reminder of a pending deletion of contacts lists every pending
/// contact, the `i`-th under the number `i + 1`.
pub proof fn deletion_reminder_lists_every_contact(cs: Seq<Contact>)
    requires
        cs.len() > 0,
    ensures
        deletion_prompt_text(cs) == Some(
            "\n\nYou have pending contact deletions:\n"@ + join(contacts_numbered_from(cs, 1), "\n"@)
                + "\nTo delete contacts, reply \"confirm NUM1, NUM2, ...\""@,
        ),
{
    assert(contact_lines(cs, 0) =~= contacts_numbered_from(cs, 1));
}

/// A deletion search stores every group and every contact it found, and
/// only those, in the order found; it lists the groups under 1, 2, ...
/// and the contacts on after them; and typing the number an item is
/// listed under, when confirming, deletes that item and no other.
pub proof fn deletion_listing_store_and_confirmation_agree(groups: Seq<GroupRecord>, contacts: Seq<Contact>)
    requires
        groups.len() + contacts.len() <= usize::MAX,
    ensures
        group_ids_of(groups).len() == groups.len(),
        forall|j: int| 0 <= j < groups.len() ==> #[trigger] group_ids_of(groups)[j] == groups[j].id,
        contact_ids_of(contacts).len() == contacts.len(),
        forall|j: int| 0 <= j < contacts.len() ==> #[trigger] contact_ids_of(contacts)[j] == contacts[j].id,
        deletion_candidates_text(groups, contacts) == (if groups.len() > 0 {
            "Found these groups:\n"@ + lines_text(groups_numbered(groups))
        } else {
            Seq::empty()
        }) + (if contacts.len() > 0 {
            (if groups.len() > 0 { "\n"@ } else { Seq::empty() }) + "Found these contacts:\n"@
                + lines_text(contacts_numbered_from(contacts, groups.len() + 1))
        } else {
            Seq::empty()
        }) + "\nTo delete items, reply \"confirm NUM1, NUM2, ...\", where NUM1, NUM2, etc. are numbers from the lists above."@,
        forall|j: int|
            0 <= j < groups.len() ==> #[trigger] word_deletion_picks(groups, contacts, seq![decimal((j + 1) as nat)])
                == (seq![groups[j]], Seq::<Contact>::empty(), Seq::<Seq<char>>::empty()),
        forall|j: int|
            0 <= j < contacts.len() ==> #[trigger] word_deletion_picks(
                groups,
                contacts,
                seq![decimal((groups.len() + j + 1) as nat)],
            ) == (Seq::<GroupRecord>::empty(), seq![contacts[j]], Seq::<Seq<char>>::empty()),
{
    assert(group_lines(groups, 0) =~= groups_numbered(groups));
    assert(contact_lines(contacts, groups.len()) =~= contacts_numbered_from(contacts, groups.len() + 1));
    assert forall|j: int| 0 <= j < groups.len() implies #[trigger] word_deletion_picks(
        groups,
        contacts,
        seq![decimal((j + 1) as nat)],
    ) == (seq![groups[j]], Seq::<Contact>::empty(), Seq::<Seq<char>>::empty()) by {
        lemma_typed_number((j + 1) as nat);
        let sels = seq![decimal((j + 1) as nat)];
        assert(sels.drop_last() =~= Seq::<Seq<char>>::empty());
        assert(sels.last() == decimal((j + 1) as nat));
        reveal_with_fuel(word_deletion_picks, 2);
        assert(Seq::<GroupRecord>::empty().push(groups[j]) =~= seq![groups[j]]);
    }
    assert forall|j: int| 0 <= j < contacts.len() implies #[trigger] word_deletion_picks(
        groups,
        contacts,
        seq![decimal((groups.len() + j + 1) as nat)],
    ) == (Seq::<GroupRecord>::empty(), seq![contacts[j]], Seq::<Seq<char>>::empty()) by {
        let n = (groups.len() + j + 1) as nat;
        lemma_typed_number(n);
        let sels = seq![decimal(n)];
        assert(sels.drop_last() =~= Seq::<Seq<char>>::empty());
        assert(sels.last() == decimal(n));
        reveal_with_fuel(word_deletion_picks, 2);
        assert(Seq::<Contact>::empty().push(contacts[j]) =~= seq![contacts[j]]);
    }
}

/// The overview of a user's groups and contacts lists every group under
/// 1, 2, ... and every contact on after them; it says that there is
/// nothing only when the user has no group and no contact.
pub proof fn overview_lists_everything(groups: Seq<GroupRecord>, contacts: Seq<Contact>)
    ensures
        groups.len() > 0 ==> contacts_overview_text(groups, contacts) == "Your groups:\n"@ + lines_text(
            groups_numbered(groups),
        ) + (if contacts.len() > 0 {
            "\n"@ + "Your contacts:\n"@ + join(contacts_numbered_from(contacts, groups.len() + 1), "\n"@)
        } else {
            Seq::empty()
        }),
        groups.len() == 0 && contacts.len() > 0 ==> contacts_overview_text(groups, contacts) == "Your contacts:\n"@
            + join(contacts_numbered_from(contacts, 1), "\n"@),
        groups.len() == 0 && contacts.len() == 0 ==> contacts_overview_text(groups, contacts)
            == "You don't have any groups or contacts."@,
{
    assert(group_lines(groups, 0) =~= groups_numbered(groups));
    assert(contact_lines(contacts, groups.len()) =~= contacts_numbered_from(contacts, groups.len() + 1));
    if groups.len() == 0 {
        assert(Seq::<char>::empty() + Seq::<char>::empty() + "Your contacts:\n"@ + join(
            contacts_numbered_from(contacts, 1),
            "\n"@,
        ) =~= "Your contacts:\n"@ + join(contacts_numbered_from(contacts, 1), "\n"@));
    }
}

/// The pieces put one after another.
pub open spec fn concat_all(parts: Seq<Seq<char>>) -> Seq<char> {
    parts.fold_left(Seq::<char>::empty(), |acc: Seq<char>, x: Seq<char>| acc + x)
}

/// The numbers of a deferred contact, one per line, the `k`-th under the
/// `k`-th letter from `a`.
pub open spec fn numbers_listed(ns: Seq<DeferredNumber>) -> Seq<Seq<char>> {
    Seq::new(
        ns.len(),
        |k: int|
            "\n   "@ + seq![choice_letter(k as nat)] + ". "@ + ns[k].phone_number@ + " ("@ + match ns[k].phone_description {
                Some(d) => d@,
                None => "no description"@,
            } + ")"@,
    )
}

/// The deferred contacts, the `j`-th under the number `j + 1` followed by
/// all its numbers.
pub open spec fn entries_listed(es: Seq<DeferredEntry>) -> Seq<Seq<char>> {
    Seq::new(
        es.len(),
        |j: int| "\n"@ + decimal((j + 1) as nat) + ". "@ + es[j].contact_name@ + concat_all(numbers_listed(es[j].numbers@)),
    )
}

proof fn lemma_number_lines_listed(ns: Seq<DeferredNumber>, u: nat)
    requires
        u <= ns.len(),
    ensures
        number_lines(ns, u) == concat_all(numbers_listed(ns).subrange(0, u as int)),
    decreases u,
{
    let s = numbers_listed(ns).subrange(0, u as int);
    if u > 0 {
        lemma_number_lines_listed(ns, (u - 1) as nat);
        assert(s.drop_last() =~= numbers_listed(ns).subrange(0, u - 1));
        assert(s.last() == numbers_listed(ns)[u - 1]);
    } else {
        assert(s =~= Seq::<Seq<char>>::empty());
    }
}

proof fn lemma_entries_text_listed(es: Seq<DeferredEntry>, u: nat)
    requires
        u <= es.len(),
    ensures
        entries_text(es, u) == concat_all(entries_listed(es).subrange(0, u as int)),
    decreases u,
{
    let s = entries_listed(es).subrange(0, u as int);
    if u > 0 {
        lemma_entries_text_listed(es, (u - 1) as nat);
        let e = es[u - 1];
        lemma_number_lines_listed(e.numbers@, e.numbers@.len());
        assert(numbers_listed(e.numbers@).subrange(0, e.numbers@.len() as int) =~= numbers_listed(e.numbers@));
        assert(s.drop_last() =~= entries_listed(es).subrange(0, u - 1));
        assert(s.last() == entries_listed(es)[u - 1]);
    } else {
        assert(s =~= Seq::<Seq<char>>::empty());
    }
}

/// The reminder of deferred contacts lists every deferred contact, the
/// `j`-th under the number `j + 1`, each with all its numbers under the
/// letters `a`, `b`, ... in order.
pub proof fn deferred_reminder_lists_every_entry(es: Seq<DeferredEntry>)
    requires
        es.len() > 0,
    ensures
        deferred_prompt_text(es) == Some(
            "\n\nYou have contacts with multiple numbers pending:\n"@ + concat_all(entries_listed(es))
                + "\n\nReply with \"confirm NA, MB, ...\" where N and M are contact numbers and A and B are letter choices"@,
        ),
{
    lemma_entries_text_listed(es, es.len());
    assert(entries_listed(es).subrange(0, es.len() as int) =~= entries_listed(es));
}

} // verus!
