//! The `group` command: finding contacts by parts of their names.
use vstd::prelude::*;
use crate::command_word::{CommandWord, ParameterDoc};
use crate::records::Contact;
use crate::text::{
    lemma_seq_lt_total, lemma_seq_lt_transitive, lemma_seq_lt_irreflexive, seq_lt, split_chars,
    split_on, str_lt, string_of, string_views, to_chars, trim, trim_bounds, views, push_str,
    push_string,
};
use crate::text::{
    decimal, join, join_strings, lemma_decimal_injective, lines_text, push_lines, str_eq,
    usize_to_string,
};
use crate::listing::{group_candidates_plain_text, group_candidates_reply, group_candidates_plain_reply,
    group_candidates_text, no_contacts_reply, no_contacts_text};
use crate::util::{area_label, area_label_of};
use crate::unicode::{lowercase, to_lowercase};
use vstd::set_lib::{lemma_int_range, lemma_len_subset, lemma_map_size, set_int_range};

verus! {

/// `a` is listed before `b`: by name, then by id.
pub open spec fn contact_before(a: Contact, b: Contact) -> bool {
    seq_lt(a.contact_name@, b.contact_name@) || (a.contact_name@ == b.contact_name@ && a.id < b.id)
}

/// `s[i]` is the first entry with its id.
pub open spec fn first_of_id(s: Seq<Contact>, i: int) -> bool {
    &&& 0 <= i < s.len()
    &&& forall|j: int| 0 <= j < i ==> s[j].id != #[trigger] s[i].id
}

/// `x` is the first entry of its id among the first `n` entries of `input`.
pub open spec fn first_among(input: Seq<Contact>, x: Contact, n: int) -> bool {
    exists|i: int| 0 <= i < n && first_of_id(input, i) && x == input[i]
}

/// `x` occurs in `r`.
pub open spec fn listed(r: Seq<Contact>, x: Contact) -> bool {
    exists|k: int| 0 <= k < r.len() && r[k] == x
}

/// `r` is ordered by `contact_before`.
pub open spec fn ordered(r: Seq<Contact>) -> bool {
    forall|k1: int, k2: int| 0 <= k1 < k2 < r.len() ==> contact_before(#[trigger] r[k1], #[trigger] r[k2])
}

/// `r` merges the first `n` entries of `input` (see `is_merged`).
pub open spec fn merged_prefix(input: Seq<Contact>, r: Seq<Contact>, n: int) -> bool {
    &&& forall|k: int| 0 <= k < r.len() ==> first_among(input, #[trigger] r[k], n)
    &&& forall|i: int| 0 <= i < n && #[trigger] first_of_id(input, i) ==> listed(r, input[i])
    &&& ordered(r)
}

/// `r` holds the first entry of each id in `input`, each once, ordered by
/// name and then by id.
pub open spec fn is_merged(input: Seq<Contact>, r: Seq<Contact>) -> bool {
    merged_prefix(input, r, input.len() as int)
}

/// Entries with different ids are ordered one way or the other, never both.
pub proof fn lemma_contact_before_total(a: Contact, b: Contact)
    ensures
        a.id != b.id ==> (contact_before(a, b) || contact_before(b, a)),
        !(contact_before(a, b) && contact_before(b, a)),
{
    lemma_seq_lt_total(a.contact_name@, b.contact_name@);
    lemma_seq_lt_irreflexive(a.contact_name@);
}

/// The order of entries is transitive.
pub proof fn lemma_contact_before_transitive(a: Contact, b: Contact, c: Contact)
    requires
        contact_before(a, b),
        contact_before(b, c),
    ensures
        contact_before(a, c),
{
    if seq_lt(a.contact_name@, b.contact_name@) && seq_lt(b.contact_name@, c.contact_name@) {
        lemma_seq_lt_transitive(a.contact_name@, b.contact_name@, c.contact_name@);
    }
}

/// Whether `a` is listed before `b` (see `contact_before`).
pub fn contact_precedes(a: &Contact, b: &Contact) -> (r: bool)
    ensures
        r == contact_before(*a, *b),
{
    if str_lt(a.contact_name.as_str(), b.contact_name.as_str()) {
        return true;
    }
    if crate::text::str_eq(a.contact_name.as_str(), b.contact_name.as_str()) {
        return a.id < b.id;
    }
    false
}

/// Inserts `x` where it belongs in a list ordered by `contact_before`
/// whose ids all differ from that of `x`.
fn insert_ordered(out: &mut Vec<Contact>, x: Contact)
    requires
        forall|k1: int, k2: int| 0 <= k1 < k2 < old(out)@.len() ==> contact_before(#[trigger] old(out)@[k1], #[trigger] old(out)@[k2]),
        forall|k: int| 0 <= k < old(out)@.len() ==> (#[trigger] old(out)@[k]).id != x.id,
    ensures
        exists|p: int| 0 <= p <= old(out)@.len() && final(out)@ == old(out)@.insert(p, x),
        forall|k1: int, k2: int| 0 <= k1 < k2 < final(out)@.len() ==> contact_before(#[trigger] final(out)@[k1], #[trigger] final(out)@[k2]),
{
    let mut p: usize = 0;
    while p < out.len() && contact_precedes(&out[p], &x)
        invariant
            p <= out.len(),
            forall|k: int| 0 <= k < p ==> contact_before(#[trigger] out@[k], x),
        decreases out.len() - p,
    {
        p = p + 1;
    }
    let ghost o = out@;
    proof {
        if p < o.len() {
            lemma_contact_before_total(o[p as int], x);
        }
        assert forall|k: int| p <= k < o.len() implies contact_before(x, #[trigger] o[k]) by {
            if k > p {
                lemma_contact_before_transitive(x, o[p as int], o[k]);
            }
        }
    }
    out.insert(p, x);
    proof {
        let n = out@;
        assert forall|k1: int, k2: int| 0 <= k1 < k2 < n.len() implies contact_before(#[trigger] n[k1], #[trigger] n[k2]) by {
            if k2 < p {
            } else if k2 == p {
            } else if k1 < p {
                lemma_contact_before_transitive(n[k1], x, n[k2]);
            } else if k1 == p {
            } else {
                assert(n[k1] == o[k1 - 1] && n[k2] == o[k2 - 1]);
            }
        }
    }
}

proof fn lemma_merged_insert(input: Seq<Contact>, o: Seq<Contact>, out: Seq<Contact>, p: int, i: int)
    requires
        0 <= i < input.len(),
        merged_prefix(input, o, i),
        first_of_id(input, i),
        0 <= p <= o.len(),
        out == o.insert(p, input[i]),
        ordered(out),
    ensures
        merged_prefix(input, out, i + 1),
{
    assert forall|k: int| 0 <= k < out.len() implies first_among(input, #[trigger] out[k], i + 1) by {
        if k < p {
            assert(out[k] == o[k]);
            assert(first_among(input, o[k], i));
            let i2 = choose|i2: int| 0 <= i2 < i && first_of_id(input, i2) && o[k] == input[i2];
            assert(0 <= i2 < i + 1 && first_of_id(input, i2) && out[k] == input[i2]);
        } else if k == p {
            assert(out[k] == input[i]);
            assert(0 <= i < i + 1 && first_of_id(input, i) && out[k] == input[i]);
        } else {
            assert(out[k] == o[k - 1]);
            assert(first_among(input, o[k - 1], i));
            let i2 = choose|i2: int| 0 <= i2 < i && first_of_id(input, i2) && o[k - 1] == input[i2];
            assert(0 <= i2 < i + 1 && first_of_id(input, i2) && out[k] == input[i2]);
        }
    }
    assert forall|i2: int| 0 <= i2 < i + 1 && #[trigger] first_of_id(input, i2) implies listed(out, input[i2]) by {
        if i2 == i {
            assert(out[p] == input[i2]);
        } else {
            assert(listed(o, input[i2]));
            let k = choose|k: int| 0 <= k < o.len() && o[k] == input[i2];
            if k < p {
                assert(out[k] == o[k]);
            } else {
                assert(out[k + 1] == o[k]);
            }
        }
    }
}

proof fn lemma_merged_skip(input: Seq<Contact>, o: Seq<Contact>, i: int)
    requires
        0 <= i < input.len(),
        merged_prefix(input, o, i),
        !first_of_id(input, i),
    ensures
        merged_prefix(input, o, i + 1),
{
    assert forall|k: int| 0 <= k < o.len() implies first_among(input, #[trigger] o[k], i + 1) by {
        assert(first_among(input, o[k], i));
        let i2 = choose|i2: int| 0 <= i2 < i && first_of_id(input, i2) && o[k] == input[i2];
        assert(0 <= i2 < i + 1 && first_of_id(input, i2) && o[k] == input[i2]);
    }
}

/// The matches of all name fragments, merged: the first entry of each id,
/// once, ordered by name and then by id (see `is_merged`).
pub fn merge_matches(matches: &[Contact]) -> (r: Vec<Contact>)
    ensures
        is_merged(matches@, r@),
{
    let mut out: Vec<Contact> = Vec::new();
    let mut i: usize = 0;
    while i < matches.len()
        invariant
            i <= matches.len(),
            merged_prefix(matches@, out@, i as int),
        decreases matches.len() - i,
    {
        let mut seen = false;
        let mut j: usize = 0;
        while j < i
            invariant
                j <= i < matches.len(),
                seen <==> exists|j2: int| 0 <= j2 < j && matches@[j2].id == matches@[i as int].id,
            decreases i - j,
        {
            if matches[j].id == matches[i].id {
                seen = true;
            }
            j = j + 1;
        }
        let ghost o = out@;
        if !seen {
            let x = matches[i].clone();
            proof {
                assert(first_of_id(matches@, i as int));
                assert forall|k: int| 0 <= k < o.len() implies (#[trigger] o[k]).id != x.id by {
                    assert(first_among(matches@, o[k], i as int));
                    let i2 = choose|i2: int| 0 <= i2 < i && first_of_id(matches@, i2) && o[k] == matches@[i2];
                }
            }
            insert_ordered(&mut out, x);
            proof {
                let p = choose|p: int| 0 <= p <= o.len() && out@ == o.insert(p, x);
                lemma_merged_insert(matches@, o, out@, p, i as int);
            }
        } else {
            proof {
                assert(!first_of_id(matches@, i as int));
                lemma_merged_skip(matches@, o, i as int);
            }
        }
        i = i + 1;
    }
    out
}


/// The name of the group numbered `k`: `group` and the number.
pub open spec fn group_name(k: nat) -> Seq<char> {
    "group"@ + decimal(k)
}

/// `n` is the smallest number whose group name is not taken.
pub open spec fn is_first_free(existing: Seq<Seq<char>>, n: nat) -> bool {
    &&& !existing.contains(group_name(n))
    &&& forall|k: nat| k < n ==> existing.contains(#[trigger] group_name(k))
}

/// Different numbers give different group names.
pub proof fn lemma_group_name_injective(a: nat, b: nat)
    requires
        group_name(a) == group_name(b),
    ensures
        a == b,
{
    let p = "group"@;
    assert(group_name(a).subrange(p.len() as int, group_name(a).len() as int) == decimal(a));
    assert(group_name(b).subrange(p.len() as int, group_name(b).len() as int) == decimal(b));
    lemma_decimal_injective(a, b);
}

/// When the names of the groups numbered below `n` are all taken, there
/// are at least `n` names.
pub proof fn lemma_taken_names_bound(existing: Seq<Seq<char>>, n: nat)
    requires
        forall|k: nat| k < n ==> existing.contains(#[trigger] group_name(k)),
    ensures
        n <= existing.len(),
{
    let f = |k: int| choose|j: int| 0 <= j < existing.len() && existing[j] == group_name(k as nat);
    let a = set_int_range(0, n as int);
    let b = a.map(f);
    lemma_int_range(0, n as int);
    lemma_int_range(0, existing.len() as int);
    assert forall|k: int| a.contains(k) implies 0 <= #[trigger] f(k) < existing.len() && existing[f(k)] == group_name(k as nat) by {
        assert(existing.contains(group_name(k as nat)));
    }
    assert(vstd::relations::injective_on(f, a)) by {
        assert forall|x: int, y: int| a.contains(x) && a.contains(y) && #[trigger] f(x) == #[trigger] f(y) implies x == y by {
            assert(existing[f(x)] == group_name(x as nat));
            assert(existing[f(y)] == group_name(y as nat));
            lemma_group_name_injective(x as nat, y as nat);
        }
    }
    assert(b.subset_of(set_int_range(0, existing.len() as int))) by {
        assert forall|j: int| b.contains(j) implies set_int_range(0, existing.len() as int).contains(j) by {
            let k = choose|k: int| a.contains(k) && f(k) == j;
        }
    }
    lemma_len_subset(b, set_int_range(0, existing.len() as int));
    lemma_map_size(a, b, f);
}

/// The name of the group numbered `n` (see `group_name`).
pub fn group_name_of(n: usize) -> (r: String)
    ensures
        r@ == group_name(n as nat),
{
    let mut r = String::from_str("group");
    let d = usize_to_string(n);
    push_string(&mut r, &d);
    r
}

/// Whether `name` is among `names`.
fn contains_name(names: &[String], name: &String) -> (r: bool)
    ensures
        r == string_views(names@).contains(name@),
{
    let mut i: usize = 0;
    while i < names.len()
        invariant
            i <= names.len(),
            forall|j: int| 0 <= j < i ==> names@[j]@ != name@,
        decreases names.len() - i,
    {
        if str_eq(names[i].as_str(), name.as_str()) {
            proof {
                assert(string_views(names@)[i as int] == name@);
            }
            return true;
        }
        i = i + 1;
    }
    false
}

/// The smallest number whose group name is not among `existing`.
pub fn first_free_group_number(existing: &[String]) -> (n: usize)
    ensures
        is_first_free(string_views(existing@), n as nat),
{
    let ghost names = string_views(existing@);
    let mut n: usize = 0;
    loop
        invariant
            names == string_views(existing@),
            n <= existing.len(),
            forall|k: nat| k < n ==> names.contains(#[trigger] group_name(k)),
        decreases existing.len() - n,
    {
        let candidate = group_name_of(n);
        if !contains_name(existing, &candidate) {
            return n;
        }
        proof {
            assert forall|k: nat| k < n + 1 implies names.contains(#[trigger] group_name(k)) by {
                if k == n {
                }
            }
            lemma_taken_names_bound(names, (n + 1) as nat);
        }
        n = n + 1;
    }
}

/// A member line of a new group: `• Name (area)`.
pub open spec fn member_line(c: Contact) -> Seq<char> {
    "• "@ + c.contact_name@ + " ("@ + area_label(c.contact_user_number@) + ")"@
}

/// The reply once a group is created: its name, its members, and the
/// selections that were refused.
pub open spec fn group_created_text(name: Seq<char>, members: Seq<Contact>, invalid: Seq<Seq<char>>) -> Seq<char> {
    "Created group \""@ + name + "\" with "@ + decimal(members.len()) + " members:\n"@
        + lines_text(Seq::new(members.len(), |i: int| member_line(members[i])))
        + (if invalid.len() > 0 { "\nErrors:\n"@ + join(invalid, "\n"@) } else { Seq::empty() })
}

/// The reply once a group is created (see `group_created_text`).
pub fn group_created_reply(name: &str, members: &[Contact], invalid: &[String]) -> (r: String)
    ensures
        r@ == group_created_text(name@, members@, string_views(invalid@)),
{
    let mut r = String::from_str("Created group \"");
    push_str(&mut r, name);
    push_str(&mut r, "\" with ");
    let d = usize_to_string(members.len());
    push_string(&mut r, &d);
    push_str(&mut r, " members:\n");
    let mut lines: Vec<String> = Vec::new();
    let mut i: usize = 0;
    while i < members.len()
        invariant
            i <= members.len(),
            string_views(lines@) == Seq::new(members@.len(), |k: int| member_line(members@[k])).subrange(0, i as int),
        decreases members.len() - i,
    {
        let mut line = String::from_str("• ");
        push_string(&mut line, &members[i].contact_name);
        push_str(&mut line, " (");
        let area = area_label_of(members[i].contact_user_number.as_str());
        push_string(&mut line, &area);
        push_str(&mut line, ")");
        let ghost before = lines@;
        lines.push(line);
        proof {
            assert(string_views(lines@) =~= string_views(before).push(line@));
        }
        i = i + 1;
    }
    proof {
        let all = Seq::new(members@.len(), |k: int| member_line(members@[k]));
        assert(all.subrange(0, members.len() as int) == all);
    }
    push_lines(&mut r, &lines);
    if invalid.len() > 0 {
        push_str(&mut r, "\nErrors:\n");
        let j = join_strings(invalid, "\n");
        push_string(&mut r, &j);
    } else {
        proof {
            assert(r@ + Seq::<char>::empty() == r@);
        }
    }
    r
}

/// The pattern that finds contact names containing `fragment`, ignoring
/// case: `%fragment%` with the fragment lowercased.
pub open spec fn name_pattern(fragment: Seq<char>) -> Seq<char> {
    "%"@ + lowercase(fragment) + "%"@
}

/// The pattern that finds contact names containing `fragment` (see
/// `name_pattern`).
pub fn name_pattern_of(fragment: &str) -> (r: String)
    ensures
        r@ == name_pattern(fragment@),
{
    let lowered = to_lowercase(fragment);
    let mut r = String::from_str("%");
    push_string(&mut r, &lowered);
    push_str(&mut r, "%");
    r
}

/// What a search for group members comes to: a reply alone, or the
/// contacts found and the reply that lists them.
pub enum GroupSearch {
    Reply { text: String },
    Found { contacts: Vec<Contact>, reply: String },
}

/// The reply when a group search names nothing.
pub open spec fn no_fragments_text() -> Seq<char> {
    "Please provide at least one name to search for."@
}

/// The outcome of a search with `fragments` that matched `matches` (the
/// matches of each fragment in turn): the matches merged (see
/// `is_merged`) and listed, or why there is nothing to list.
pub open spec fn group_search_outcome(fragments: Seq<Seq<char>>, matches: Seq<Contact>, r: GroupSearch, word_based: bool) -> bool {
    match r {
        GroupSearch::Reply { text } => if fragments.len() == 0 {
            text@ == no_fragments_text()
        } else {
            matches.len() == 0 && text@ == no_contacts_text(fragments)
        },
        GroupSearch::Found { contacts, reply } => {
            &&& fragments.len() > 0
            &&& matches.len() > 0
            &&& is_merged(matches, contacts@)
            &&& reply@ == if word_based {
                group_candidates_plain_text(contacts@)
            } else {
                group_candidates_text(contacts@)
            }
        },
    }
}

fn search(fragments: &[String], matches: &[Contact], word_based: bool) -> (r: GroupSearch)
    ensures
        group_search_outcome(string_views(fragments@), matches@, r, word_based),
{
    if fragments.len() == 0 {
        return GroupSearch::Reply { text: String::from_str("Please provide at least one name to search for.") };
    }
    let contacts = merge_matches(matches);
    if contacts.len() == 0 {
        proof {
            if matches@.len() > 0 {
                assert(first_of_id(matches@, 0));
                assert(listed(contacts@, matches@[0]));
            }
        }
        return GroupSearch::Reply { text: no_contacts_reply(fragments) };
    }
    let reply = if word_based {
        group_candidates_plain_reply(&contacts)
    } else {
        group_candidates_reply(&contacts)
    };
    proof {
        let x = contacts@[0];
        assert(first_among(matches@, x, matches@.len() as int));
    }
    GroupSearch::Found { contacts, reply }
}

/// The outcome of a `group` search (see `group_search_outcome`).
pub fn group_search(fragments: &[String], matches: &[Contact]) -> (r: GroupSearch)
    ensures
        group_search_outcome(string_views(fragments@), matches@, r, false),
{
    search(fragments, matches, false)
}

/// The outcome of a search by the word-based `group` command, whose
/// reply words the list differently (see `group_search_outcome`).
pub fn group_search_plain(fragments: &[String], matches: &[Contact]) -> (r: GroupSearch)
    ensures
        group_search_outcome(string_views(fragments@), matches@, r, true),
{
    search(fragments, matches, true)
}

/// The name fragments of a `group` command: the text cut at each comma,
/// each piece trimmed.
pub open spec fn fragments_of(s: Seq<char>) -> Seq<Seq<char>> {
    Seq::new(split_on(s, ',').len(), |i: int| trim(split_on(s, ',')[i]))
}

/// A `group` command: the parts of contact names to look for.
pub struct GroupCommand {
    name_fragments: Vec<String>,
}

impl View for GroupCommand {
    type V = Seq<Seq<char>>;

    closed spec fn view(&self) -> Seq<Seq<char>> {
        string_views(self.name_fragments@)
    }
}

impl GroupCommand {
    /// Reads the parameter of a `group` command (see `fragments_of`).
    pub fn parse(s: &str) -> (r: GroupCommand)
        ensures
            r@ == fragments_of(s@),
    {
        let chars = to_chars(s);
        let pieces = split_chars(&chars, ',');
        let ghost ps = split_on(s@, ',');
        let mut out: Vec<String> = Vec::new();
        let mut k: usize = 0;
        while k < pieces.len()
            invariant
                k <= pieces.len(),
                ps == views(pieces@),
                ps == split_on(s@, ','),
                fragments_of(s@).len() == pieces.len(),
                string_views(out@) == fragments_of(s@).subrange(0, k as int),
            decreases pieces.len() - k,
        {
            let (a, b) = trim_bounds(&pieces[k], 0, pieces[k].len());
            proof {
                assert(pieces@[k as int]@.subrange(0, pieces@[k as int]@.len() as int) == pieces@[k as int]@);
            }
            let t = string_of(&pieces[k], a, b);
            let ghost before = out@;
            out.push(t);
            proof {
                assert(string_views(out@) =~= string_views(before).push(t@));
                assert(fragments_of(s@)[k as int] == trim(ps[k as int]));
                assert(fragments_of(s@).subrange(0, k + 1) =~= fragments_of(s@).subrange(0, k as int).push(t@));
            }
            k = k + 1;
        }
        proof {
            assert(fragments_of(s@).subrange(0, pieces.len() as int) == fragments_of(s@));
        }
        GroupCommand { name_fragments: out }
    }

    /// The parts of contact names to look for.
    pub fn name_fragments(&self) -> (r: &[String])
        ensures
            string_views(r@) == self@,
    {
        self.name_fragments.as_slice()
    }

    /// The word that starts the command.
    pub fn word() -> (r: &'static str)
        ensures
            r@ == crate::command_word::word_of(CommandWord::group),
    {
        CommandWord::group.word()
    }

    /// What the command does.
    pub fn description() -> (r: &'static str)
        ensures
            r@ == crate::command_word::description_of(CommandWord::group),
    {
        CommandWord::group.description()
    }

    /// What the command takes after its word.
    pub fn parameter_doc() -> (r: Option<ParameterDoc>)
        ensures
            match r {
                Some(p) => crate::command_word::parameter_of(CommandWord::group) == Some((p.example@, p.description@)),
                None => false,
            },
    {
        CommandWord::group.parameter_doc()
    }
}

impl std::str::FromStr for GroupCommand {
    type Err = String;

    /// Reads the name fragments as `GroupCommand::parse` does; never fails.
    fn from_str(s: &str) -> (r: Result<GroupCommand, String>)
        ensures
            r matches Ok(c) && c@ == fragments_of(s@),
    {
        Ok(GroupCommand::parse(s))
    }
}
} // verus!
