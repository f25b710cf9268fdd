//! Properties that hold across the library's functions.
use vstd::prelude::*;
use crate::command::{command_of, CommandView};
use crate::command_word::{all_words, lemma_words_distinct, word_named, word_of, CommandWord};
use crate::confirm::{
    deleted_contact_line, deleted_group_line, deletion_ids, deletion_lists, indexes_below_max, member_picks,
    readable_letter, added_line,
};
use crate::group::{contact_before, first_of_id, is_merged, lemma_contact_before_total, listed, first_among, ordered};
use crate::listing::{group_line, group_lines};
use crate::name::{name_error, name_from_words};
use crate::records::{Contact, GroupRecord};
use crate::sms::{route_of, RouteView};
use crate::prompt::{choice_letter, DeferredEntry};
use crate::text::{all_digits, decimal, is_digit, lemma_decimal_nonempty, lemma_decimal_reads_back, parse_usize, split_on};
use crate::util::{
    area_label, built, contact_line, contact_lines, digits_of, e164_normal_form, is_e164,
    selections_from_pieces, selections_of, with_titled, Selection,
};
use crate::word_confirm::{before_paren, deferred_pick, free_of_paren, paren_at, word_deletion_picks};

verus! {

/// A phone number is read from its digits alone: two texts with the same
/// digits read as the same number, or are both refused.
pub proof fn e164_reads_digits_only(a: Seq<char>, b: Seq<char>)
    requires
        digits_of(a) == digits_of(b),
    ensures
        e164_normal_form(a) == e164_normal_form(b),
{
}

/// Dropping a `+` in front of digits leaves the digits.
proof fn lemma_digits_of_plus(d: Seq<char>)
    requires
        all_digits(d),
    ensures
        digits_of(seq!['+'] + d) == d,
    decreases d.len(),
{
    if d.len() == 0 {
        assert(digits_of(seq!['+']) == digits_of(seq!['+'].drop_last()));
        assert(seq!['+'].drop_last() =~= Seq::<char>::empty());
        assert(seq!['+'] + d =~= seq!['+']);
    } else {
        let s = seq!['+'] + d;
        assert(s.drop_last() =~= seq!['+'] + d.drop_last());
        assert(s.last() == d.last());
        assert(is_digit(d[d.len() - 1]));
        lemma_digits_of_plus(d.drop_last());
        assert(d.drop_last().push(d.last()) =~= d);
    }
}

/// Every number read is in E.164 form, and a number in E.164 form reads
/// as itself: reading a stored number again changes nothing.
pub proof fn e164_normal_form_is_stable(s: Seq<char>, n: Seq<char>)
    ensures
        e164_normal_form(s) == Some(n) ==> is_e164(n),
        is_e164(n) ==> e164_normal_form(n) == Some(n),
{
    crate::util::lemma_digits_of_all_digits(s);
    if e164_normal_form(s) == Some(n) {
        let d = digits_of(s);
        assert(all_digits(d));
        if d.len() == 11 && d[0] == '1' {
            assert(n == seq!['+'] + d);
            assert forall|i: int| 2 <= i < 12 implies is_digit(#[trigger] n[i]) by {
                assert(n[i] == d[i - 1]);
            }
        } else {
            assert(n == seq!['+', '1'] + d);
            assert forall|i: int| 2 <= i < 12 implies is_digit(#[trigger] n[i]) by {
                assert(n[i] == d[i - 2]);
            }
        }
    }
    if is_e164(n) {
        let d = n.drop_first();
        assert(all_digits(d)) by {
            assert forall|i: int| 0 <= i < d.len() implies is_digit(#[trigger] d[i]) by {
                assert(d[i] == n[i + 1]);
                if i == 0 {
                    assert(n[1] == '1');
                }
            }
        }
        assert(n =~= seq!['+'] + d);
        lemma_digits_of_plus(d);
        assert(d[0] == n[1]);
    }
}

/// The area label of a number in E.164 form is its area code.
pub proof fn area_label_of_valid_number(n: Seq<char>)
    requires
        is_e164(n),
    ensures
        area_label(n) == n.subrange(2, 5),
{
    e164_normal_form_is_stable(n, n);
}

/// Every command word, spelled as the help spells it, reads back as itself.
pub proof fn command_words_read_back(c: CommandWord)
    ensures
        word_named(word_of(c)) == Some(c),
{
    lemma_words_distinct();
    let i: int = match c {
        CommandWord::h => 0,
        CommandWord::name => 1,
        CommandWord::info => 2,
        CommandWord::stop => 3,
        CommandWord::confirm => 4,
        CommandWord::contacts => 5,
        CommandWord::delete => 6,
        CommandWord::group => 7,
    };
    assert(all_words()[i] == c);
    assert(word_of(all_words()[i]) == word_of(c));
    let k = choose|k: int| 0 <= k < all_words().len() && word_of(#[trigger] all_words()[k]) == word_of(c);
    assert(k == i);
}

/// The `name` command accepts exactly the names that `validate_name`
/// accepts, and stores the words joined by single spaces; a number that is
/// not registered registers under exactly those names too.
pub proof fn name_rules_agree(words: Seq<Seq<char>>)
    ensures
        (command_of(CommandWord::name, words) is Ok) <==> name_error(name_from_words(words)) is None,
        command_of(CommandWord::name, words) is Ok ==> command_of(CommandWord::name, words)
            == Ok::<CommandView, Seq<char>>(CommandView::Name { name: name_from_words(words) }),
{
}

/// A number that is not registered never runs a command; when it is
/// registered, it is under a name that `validate_name` accepts.
pub proof fn unregistered_numbers_only_register(body: Seq<char>)
    ensures
        !(route_of(body, false) is Run),
        route_of(body, false) matches RouteView::Register { name, reply } ==> name_error(name) is None,
{
}

/// The numbers of a deletion search and of its confirmation agree: the
/// group listed as number `i + 1` is the one that selecting `i + 1`
/// deletes, and the contact listed after the groups as number
/// `groups.len() + j + 1` is the one that selecting that number deletes.
pub proof fn deletion_numbers_agree(groups: Seq<GroupRecord>, contacts: Seq<Contact>, k: int)
    requires
        0 <= k < groups.len() + contacts.len(),
        groups.len() + contacts.len() <= usize::MAX,
    ensures
        k < groups.len() ==> {
            &&& group_lines(groups, 0)[k] == group_line((k + 1) as nat, groups[k])
            &&& deletion_lists(groups, contacts, seq![Selection { index: k as usize, sub_selection: None }])
                == (seq![deleted_group_line(groups[k])], Seq::<Seq<char>>::empty(), Seq::<Seq<char>>::empty())
        },
        k >= groups.len() ==> {
            &&& contact_lines(contacts, groups.len())[k - groups.len()] == contact_line((k + 1) as nat, contacts[k - groups.len()])
            &&& deletion_lists(groups, contacts, seq![Selection { index: k as usize, sub_selection: None }])
                == (Seq::<Seq<char>>::empty(), seq![deleted_contact_line(contacts[k - groups.len()])], Seq::<Seq<char>>::empty())
        },
{
    let sels = seq![Selection { index: k as usize, sub_selection: None }];
    assert(sels.drop_last() =~= Seq::<Selection>::empty());
    reveal_with_fuel(deletion_lists, 2);
    let e = Seq::<Seq<char>>::empty();
    if k < groups.len() {
        assert(e.push(deleted_group_line(groups[k])) =~= seq![deleted_group_line(groups[k])]);
    } else {
        assert(e.push(deleted_contact_line(contacts[k - groups.len()])) =~= seq![deleted_contact_line(contacts[k - groups.len()])]);
    }
}

/// The numbers of a group search and of its confirmation agree: the
/// contact listed as number `i + 1` is the one that selecting `i + 1` adds
/// to the group, when the pending contacts are listed in the same order.
pub proof fn group_numbers_agree(pending: Seq<Contact>, i: int)
    requires
        0 <= i < pending.len(),
        i <= i64::MAX,
        i <= usize::MAX,
    ensures
        contact_lines(pending, 0)[i] == contact_line((i + 1) as nat, pending[i]),
        member_picks(pending, seq![Selection { index: i as usize, sub_selection: None }])
            == (seq![pending[i]], Seq::<Seq<char>>::empty()),
{
    let sels = seq![Selection { index: i as usize, sub_selection: None }];
    assert(sels.drop_last() =~= Seq::<Selection>::empty());
    reveal_with_fuel(member_picks, 2);
    assert(Seq::<Contact>::empty().push(pending[i]) =~= seq![pending[i]]);
}

proof fn lemma_pieces_usable(pieces: Seq<Seq<char>>)
    ensures
        selections_from_pieces(pieces) matches Ok(v) ==> indexes_below_max(v)
            && forall|k: int| 0 <= k < v.len() ==> readable_letter(#[trigger] v[k]),
    decreases pieces.len(),
{
    if pieces.len() > 0 {
        lemma_pieces_usable(pieces.drop_last());
    }
}

/// Every selection that `parse_selections` reads can be confirmed: its
/// number plus one fits a `usize`, and its letter, if any, is one from `a`
/// on.
pub proof fn parsed_selections_are_usable(input: Seq<char>)
    ensures
        selections_of(input) matches Ok(v) ==> indexes_below_max(v)
            && forall|k: int| 0 <= k < v.len() ==> readable_letter(#[trigger] v[k]),
{
    lemma_pieces_usable(split_on(input, ','));
}

/// Joining onto nothing with no separator just appends.
proof fn lemma_built_push(s: Seq<Seq<char>>, x: Seq<char>)
    ensures
        built(s.push(x)) == built(s) + x,
{
    if s.len() == 0 {
        assert(s.push(x).len() == 1);
        assert(s.push(x)[0] == x);
        assert(built(s) == Seq::<char>::empty());
        assert(Seq::<char>::empty() + x =~= x);
    } else {
        assert(s.push(x).drop_last() =~= s);
        assert(built(s.push(x)) == built(s) + Seq::<char>::empty() + x);
        assert(built(s) + Seq::<char>::empty() =~= built(s));
    }
}

/// A titled section adds `title:` and its content at the end of the
/// reply, after a line break when something came before; empty content
/// adds nothing.
pub proof fn titled_section_appends(s: Seq<Seq<char>>, title: Seq<char>, content: Seq<char>)
    ensures
        built(with_titled(s, title, content)) == if content.len() == 0 {
            built(s)
        } else if s.len() == 0 {
            built(s) + title + ":\n"@ + content
        } else {
            built(s) + seq!['\n'] + title + ":\n"@ + content
        },
{
    if content.len() > 0 {
        if s.len() == 0 {
            lemma_built_push(s, title + ":\n"@ + content);
            assert(built(s) + (title + ":\n"@ + content) =~= built(s) + title + ":\n"@ + content);
        } else {
            lemma_built_push(s, seq!['\n']);
            lemma_built_push(s.push(seq!['\n']), title + ":\n"@ + content);
            assert(built(s) + seq!['\n'] + (title + ":\n"@ + content) =~= built(s) + seq!['\n'] + title + ":\n"@ + content);
        }
    }
}

/// Two lists ordered by `contact_before` that hold the same entries are
/// the same list.
proof fn lemma_ordered_unique(r1: Seq<Contact>, r2: Seq<Contact>)
    requires
        ordered(r1),
        ordered(r2),
        forall|x: Contact| listed(r1, x) <==> listed(r2, x),
    ensures
        r1 == r2,
    decreases r1.len(),
{
    if r1.len() == 0 {
        if r2.len() > 0 {
            assert(listed(r2, r2[0]));
        }
        assert(r1 =~= r2);
    } else if r2.len() == 0 {
        assert(listed(r1, r1[0]));
    } else {
        let a = r1.last();
        let b = r2.last();
        assert(listed(r1, a));
        assert(listed(r2, b));
        // the last entries are the greatest, so they are equal
        assert(a == b) by {
            let i = choose|i: int| 0 <= i < r2.len() && r2[i] == a;
            let j = choose|j: int| 0 <= j < r1.len() && r1[j] == b;
            if a != b {
                if i < r2.len() - 1 {
                    assert(contact_before(a, b));
                } else {
                    assert(r2[r2.len() - 1] == a);
                }
                if j < r1.len() - 1 {
                    assert(contact_before(b, a));
                } else {
                    assert(r1[r1.len() - 1] == b);
                }
                lemma_contact_before_total(a, b);
            }
        }
        let p1 = r1.drop_last();
        let p2 = r2.drop_last();
        assert forall|x: Contact| listed(p1, x) <==> listed(p2, x) by {
            if listed(p1, x) {
                let i = choose|i: int| 0 <= i < p1.len() && p1[i] == x;
                assert(contact_before(r1[i], a));
                assert(listed(r1, x));
                assert(listed(r2, x));
                let k = choose|k: int| 0 <= k < r2.len() && r2[k] == x;
                if k == r2.len() - 1 {
                    lemma_contact_before_total(x, a);
                }
                assert(p2[k] == x);
            }
            if listed(p2, x) {
                let i = choose|i: int| 0 <= i < p2.len() && p2[i] == x;
                assert(contact_before(r2[i], b));
                assert(listed(r2, x));
                assert(listed(r1, x));
                let k = choose|k: int| 0 <= k < r1.len() && r1[k] == x;
                if k == r1.len() - 1 {
                    lemma_contact_before_total(x, b);
                }
                assert(p1[k] == x);
            }
        }
        lemma_ordered_unique(p1, p2);
        assert(r1 =~= p1.push(a));
        assert(r2 =~= p2.push(b));
    }
}

/// The merge of a group search's matches is fully determined: any two
/// results of merging the same matches are equal.
pub proof fn merged_matches_are_unique(input: Seq<Contact>, r1: Seq<Contact>, r2: Seq<Contact>)
    requires
        is_merged(input, r1),
        is_merged(input, r2),
    ensures
        r1 == r2,
{
    assert forall|x: Contact| listed(r1, x) <==> listed(r2, x) by {
        if listed(r1, x) {
            let k = choose|k: int| 0 <= k < r1.len() && r1[k] == x;
            assert(first_among(input, r1[k], input.len() as int));
            let i = choose|i: int| 0 <= i < input.len() && first_of_id(input, i) && r1[k] == input[i];
            assert(listed(r2, input[i]));
        }
        if listed(r2, x) {
            let k = choose|k: int| 0 <= k < r2.len() && r2[k] == x;
            assert(first_among(input, r2[k], input.len() as int));
            let i = choose|i: int| 0 <= i < input.len() && first_of_id(input, i) && r2[k] == input[i];
            assert(listed(r1, input[i]));
        }
    }
    lemma_ordered_unique(r1, r2);
}

/// Clearing the deferred entries of an added contact finds its name again
/// from the line `Name (number)`, as long as the name itself holds no
/// ` (`.
pub proof fn added_line_gives_back_name(name: Seq<char>, number: Seq<char>)
    requires
        free_of_paren(name),
    ensures
        before_paren(added_line(name, number)) == name,
    decreases name.len(),
{
    let s = added_line(name, number);
    reveal_strlit(" (");
    reveal_strlit(")");
    if name.len() == 0 {
        assert(s[0] == ' ' && s[1] == '(');
        assert(s.len() >= 2);
    } else {
        let rest = name.drop_first();
        assert(s.len() >= 2);
        assert(s[0] == name[0]);
        if name.len() == 1 {
            assert(s[1] == ' ');
            assert(name[0] != ' ' || s[1] != '(');
        } else {
            assert(s[1] == name[1]);
            assert(!paren_at(name, 0));
        }
        assert(!(s[0] == ' ' && s[1] == '('));
        assert forall|i: int| 0 <= i < rest.len() - 1 implies !#[trigger] paren_at(rest, i) by {
            assert(rest[i] == name[i + 1]);
            assert(rest[i + 1] == name[i + 2]);
            assert(!paren_at(name, i + 1));
        }
        added_line_gives_back_name(rest, number);
        assert(s.drop_first() =~= added_line(rest, number));
        assert(name =~= seq![name[0]] + rest);
    }
}


/// The selections of the first `k` listed items, in order.
pub open spec fn first_selections(k: nat) -> Seq<Selection> {
    Seq::new(k, |i: int| Selection { index: i as usize, sub_selection: None })
}

/// Selecting the first `k` listed items in order names, in the reply,
/// exactly the first groups and then the first contacts.
pub proof fn selecting_first_items_names_them(groups: Seq<GroupRecord>, contacts: Seq<Contact>, k: nat)
    requires
        k <= groups.len() + contacts.len(),
        groups.len() + contacts.len() <= usize::MAX,
    ensures
        ({
            let ng: nat = if k <= groups.len() { k } else { groups.len() };
            deletion_lists(groups, contacts, first_selections(k)) == (
                Seq::new(ng, |i: int| deleted_group_line(groups[i])),
                Seq::new((k - ng) as nat, |j: int| deleted_contact_line(contacts[j])),
                Seq::<Seq<char>>::empty(),
            )
        }),
    decreases k,
{
    if k > 0 {
        selecting_first_items_names_them(groups, contacts, (k - 1) as nat);
        let sels = first_selections(k);
        assert(sels.drop_last() =~= first_selections((k - 1) as nat));
        assert(sels.last().index == (k - 1) as usize);
        let ng: nat = if k <= groups.len() { k } else { groups.len() };
        let ng1: nat = if k - 1 <= groups.len() { (k - 1) as nat } else { groups.len() };
        if k - 1 < groups.len() {
            assert(Seq::new(ng1, |i: int| deleted_group_line(groups[i])).push(deleted_group_line(groups[k - 1]))
                =~= Seq::new(ng, |i: int| deleted_group_line(groups[i])));
            assert(Seq::new((k - 1 - ng1) as nat, |j: int| deleted_contact_line(contacts[j]))
                =~= Seq::new((k - ng) as nat, |j: int| deleted_contact_line(contacts[j])));
        } else {
            assert(Seq::new((k - 1 - ng1) as nat, |j: int| deleted_contact_line(contacts[j]))
                .push(deleted_contact_line(contacts[k - 1 - groups.len()]))
                =~= Seq::new((k - ng) as nat, |j: int| deleted_contact_line(contacts[j])));
        }
    } else {
        assert(first_selections(0) =~= Seq::<Selection>::empty());
        assert(Seq::new(0, |i: int| deleted_group_line(groups[i])) =~= Seq::<Seq<char>>::empty());
        assert(Seq::new(0, |j: int| deleted_contact_line(contacts[j])) =~= Seq::<Seq<char>>::empty());
    }
}

/// The group that a selection of a deletion list names, if any: the groups
/// come first in the list.
pub open spec fn selected_group(groups: Seq<GroupRecord>, s: Selection) -> Option<GroupRecord> {
    if (s.index as int) < groups.len() {
        Some(groups[s.index as int])
    } else {
        None
    }
}

/// The contact that a selection of a deletion list names, if any: the
/// contacts come after the groups.
pub open spec fn selected_contact(groups: Seq<GroupRecord>, contacts: Seq<Contact>, s: Selection) -> Option<Contact> {
    let k = s.index as int;
    if groups.len() <= k < groups.len() + contacts.len() {
        Some(contacts[k - groups.len()])
    } else {
        None
    }
}

/// `selected_group` over a fixed list of groups.
pub open spec fn group_pick(groups: Seq<GroupRecord>) -> spec_fn(Selection) -> Option<GroupRecord> {
    |s: Selection| selected_group(groups, s)
}

/// `selected_contact` over fixed lists of groups and contacts.
pub open spec fn contact_pick(groups: Seq<GroupRecord>, contacts: Seq<Contact>) -> spec_fn(Selection) -> Option<Contact> {
    |s: Selection| selected_contact(groups, contacts, s)
}

/// The id of a group.
pub open spec fn group_id(g: GroupRecord) -> i64 {
    g.id
}

/// The id of a contact.
pub open spec fn contact_id(c: Contact) -> i64 {
    c.id
}

/// A confirmed deletion removes exactly the items that the selections name,
/// in the order of the selections, and its reply names those same items:
/// the ids deleted are those of the groups and of the contacts named, and
/// the reply's group and contact lines are theirs.
pub proof fn deletion_removes_the_selected(groups: Seq<GroupRecord>, contacts: Seq<Contact>, sels: Seq<Selection>)
    ensures
        deletion_ids(groups, contacts, sels).0 == sels.filter_map(group_pick(groups)).map_values(|g: GroupRecord| group_id(g)),
        deletion_ids(groups, contacts, sels).1 == sels.filter_map(contact_pick(groups, contacts)).map_values(
            |c: Contact| contact_id(c),
        ),
        deletion_lists(groups, contacts, sels).0 == sels.filter_map(group_pick(groups)).map_values(
            |g: GroupRecord| deleted_group_line(g),
        ),
        deletion_lists(groups, contacts, sels).1 == sels.filter_map(contact_pick(groups, contacts)).map_values(
            |c: Contact| deleted_contact_line(c),
        ),
    decreases sels.len(),
{
    if sels.len() > 0 {
        let rest = sels.drop_last();
        deletion_removes_the_selected(groups, contacts, rest);
        let pg = rest.filter_map(group_pick(groups));
        let pc = rest.filter_map(contact_pick(groups, contacts));
        let s = sels.last();
        match selected_group(groups, s) {
            Some(g) => {
                assert(sels.filter_map(group_pick(groups)) == pg + seq![g]);
                assert((pg + seq![g]).map_values(|g: GroupRecord| group_id(g))
                    =~= pg.map_values(|g: GroupRecord| group_id(g)).push(g.id));
                assert((pg + seq![g]).map_values(|g: GroupRecord| deleted_group_line(g))
                    =~= pg.map_values(|g: GroupRecord| deleted_group_line(g)).push(deleted_group_line(g)));
            },
            None => {
                assert(sels.filter_map(group_pick(groups)) == pg);
            },
        }
        match selected_contact(groups, contacts, s) {
            Some(c) => {
                assert(sels.filter_map(contact_pick(groups, contacts)) == pc + seq![c]);
                assert((pc + seq![c]).map_values(|c: Contact| contact_id(c))
                    =~= pc.map_values(|c: Contact| contact_id(c)).push(c.id));
                assert((pc + seq![c]).map_values(|c: Contact| deleted_contact_line(c))
                    =~= pc.map_values(|c: Contact| deleted_contact_line(c)).push(deleted_contact_line(c)));
            },
            None => {
                assert(sels.filter_map(contact_pick(groups, contacts)) == pc);
            },
        }
    } else {
        assert(sels.filter_map(group_pick(groups)) =~= Seq::<GroupRecord>::empty());
        assert(sels.filter_map(contact_pick(groups, contacts)) =~= Seq::<Contact>::empty());
    }
}

/// The group that a typed selection of a deletion list names, if any: the
/// number read from it, counted from one, among the groups listed first.
pub open spec fn word_selected_group(groups: Seq<GroupRecord>, s: Seq<char>) -> Option<GroupRecord> {
    match parse_usize(s) {
        Some(n) => if 1 <= n <= groups.len() { Some(groups[n - 1]) } else { None },
        None => None,
    }
}

/// The contact that a typed selection of a deletion list names, if any:
/// the contacts are numbered after the groups.
pub open spec fn word_selected_contact(groups: Seq<GroupRecord>, contacts: Seq<Contact>, s: Seq<char>) -> Option<Contact> {
    match parse_usize(s) {
        Some(n) => if groups.len() < n <= groups.len() + contacts.len() {
            Some(contacts[n - 1 - groups.len()])
        } else {
            None
        },
        None => None,
    }
}

/// The refusal of a typed selection that names nothing listed: the text
/// typed when it is no number or zero, the number read otherwise.
pub open spec fn word_refusal(groups: Seq<GroupRecord>, contacts: Seq<Contact>, s: Seq<char>) -> Option<Seq<char>> {
    match parse_usize(s) {
        Some(n) => if n == 0 {
            Some("Invalid selection: "@ + s)
        } else if n <= groups.len() + contacts.len() {
            None
        } else {
            Some("Invalid selection: "@ + decimal(n))
        },
        None => Some("Invalid selection: "@ + s),
    }
}

/// `word_selected_group` over a fixed list of groups.
pub open spec fn word_group_pick(groups: Seq<GroupRecord>) -> spec_fn(Seq<char>) -> Option<GroupRecord> {
    |s: Seq<char>| word_selected_group(groups, s)
}

/// `word_selected_contact` over fixed lists of groups and contacts.
pub open spec fn word_contact_pick(groups: Seq<GroupRecord>, contacts: Seq<Contact>) -> spec_fn(Seq<char>) -> Option<Contact> {
    |s: Seq<char>| word_selected_contact(groups, contacts, s)
}

/// `word_refusal` over fixed lists of groups and contacts.
pub open spec fn word_refusal_pick(groups: Seq<GroupRecord>, contacts: Seq<Contact>) -> spec_fn(Seq<char>) -> Option<Seq<char>> {
    |s: Seq<char>| word_refusal(groups, contacts, s)
}

/// A confirmed deletion of typed selections removes exactly the groups and
/// the contacts whose listed numbers were typed, in the order typed, and
/// answers each other selection with a refusal line.
pub proof fn confirmed_deletion_removes_the_selected(
    groups: Seq<GroupRecord>,
    contacts: Seq<Contact>,
    sels: Seq<Seq<char>>,
)
    ensures
        word_deletion_picks(groups, contacts, sels).0 == sels.filter_map(word_group_pick(groups)),
        word_deletion_picks(groups, contacts, sels).1 == sels.filter_map(word_contact_pick(groups, contacts)),
        word_deletion_picks(groups, contacts, sels).2 == sels.filter_map(word_refusal_pick(groups, contacts)),
    decreases sels.len(),
{
    if sels.len() > 0 {
        let rest = sels.drop_last();
        confirmed_deletion_removes_the_selected(groups, contacts, rest);
        let s = sels.last();
        let pg = rest.filter_map(word_group_pick(groups));
        let pc = rest.filter_map(word_contact_pick(groups, contacts));
        let pe = rest.filter_map(word_refusal_pick(groups, contacts));
        match word_selected_group(groups, s) {
            Some(g) => assert(sels.filter_map(word_group_pick(groups)) == pg + seq![g]),
            None => assert(sels.filter_map(word_group_pick(groups)) == pg),
        }
        match word_selected_contact(groups, contacts, s) {
            Some(c) => assert(sels.filter_map(word_contact_pick(groups, contacts)) == pc + seq![c]),
            None => assert(sels.filter_map(word_contact_pick(groups, contacts)) == pc),
        }
        match word_refusal(groups, contacts, s) {
            Some(l) => assert(sels.filter_map(word_refusal_pick(groups, contacts)) == pe + seq![l]),
            None => assert(sels.filter_map(word_refusal_pick(groups, contacts)) == pe),
        }
    } else {
        assert(sels.filter_map(word_group_pick(groups)) =~= Seq::<GroupRecord>::empty());
        assert(sels.filter_map(word_contact_pick(groups, contacts)) =~= Seq::<Contact>::empty());
        assert(sels.filter_map(word_refusal_pick(groups, contacts)) =~= Seq::<Seq<char>>::empty());
    }
}


/// The reminder of deferred contacts and the confirmation agree: the
/// reminder shows the contact at position `i` under the number `i + 1`
/// (see `entry_text`) and its number at position `k` under the letter
/// `choice_letter(k)` (see `number_line`), and the selection made of that
/// number and that letter picks that contact's name with that number.
pub proof fn deferred_pick_follows_prompt(entries: Seq<DeferredEntry>, i: int, k: int)
    requires
        0 <= i < entries.len(),
        0 <= k < entries[i].numbers@.len(),
        k < 26,
        i + 1 <= usize::MAX,
    ensures
        deferred_pick(entries, decimal((i + 1) as nat).push(choice_letter(k as nat)))
            == Ok::<(Seq<char>, Seq<char>), Seq<char>>(
            (entries[i].contact_name@, entries[i].numbers@[k].phone_number@),
        ),
{
    let d = decimal((i + 1) as nat);
    let c = choice_letter(k as nat);
    let s = d.push(c);
    lemma_decimal_nonempty((i + 1) as nat);
    lemma_decimal_reads_back((i + 1) as nat);
    assert(c as u32 == 97 + k);
    assert(s.last() == c);
    assert(s.drop_last() == d);
    assert(is_digit(d[0]));
    assert(d[0] != '+');
    assert(parse_usize(d) == Some((i + 1) as nat));
}

} // verus!
