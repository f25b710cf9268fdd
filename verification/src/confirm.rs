//! The `confirm` command: carrying out the action that a user confirms.
use vstd::prelude::*;
use crate::command_word::{CommandWord, ParameterDoc};
use crate::records::{Contact, GroupRecord};
use crate::text::{
    decimal, join, join_strings, push_char, push_str, push_string, signed_decimal, str_eq,
    string_views, usize_to_string, i64_to_string,
};
use crate::util::{area_label, area_label_of, parse_selections, selections_of, Selection};

verus! {

/// The kinds of action that wait for a confirmation.
#[derive(Debug, Clone, Copy, PartialEq, Eq, Structural)]
pub enum PendingAction {
    DeferredContacts,
    Deletion,
    Group,
    Unknown,
}

/// The kind of a pending action by its stored name.
pub open spec fn action_kind(name: Seq<char>) -> PendingAction {
    if name == "deferred_contacts"@ {
        PendingAction::DeferredContacts
    } else if name == "deletion"@ {
        PendingAction::Deletion
    } else if name == "group"@ {
        PendingAction::Group
    } else {
        PendingAction::Unknown
    }
}

/// The kind of a pending action by its stored name (see `action_kind`).
pub fn pending_action_kind(name: &str) -> (r: PendingAction)
    ensures
        r == action_kind(name@),
{
    if str_eq(name, "deferred_contacts") {
        PendingAction::DeferredContacts
    } else if str_eq(name, "deletion") {
        PendingAction::Deletion
    } else if str_eq(name, "group") {
        PendingAction::Group
    } else {
        PendingAction::Unknown
    }
}

/// The reply when the stored action is of no known kind.
pub fn invalid_action_reply() -> (r: String)
    ensures
        r@ == "Invalid action type"@,
{
    String::from_str("Invalid action type")
}

/// The reply when nothing waits for a confirmation.
pub fn nothing_pending_reply() -> (r: String)
    ensures
        r@ == "No pending actions to confirm."@,
{
    String::from_str("No pending actions to confirm.")
}

/// The reply that reports a failure while confirming: the message under
/// the title `Errors`; nothing for an empty message.
pub open spec fn failure_text(message: Seq<char>) -> Seq<char> {
    if message.len() == 0 {
        Seq::empty()
    } else {
        "Errors"@ + ":\n"@ + message
    }
}

/// The reply that reports a failure while confirming (see `failure_text`).
pub fn failure_reply(message: String) -> (r: String)
    ensures
        r@ == failure_text(message@),
{
    let mut b = crate::util::ResponseBuilder::new();
    let errors = vec![message];
    let ghost m = errors@[0]@;
    proof {
        assert(string_views(errors@) =~= seq![m]);
        assert(join(seq![m], "\n"@) == m);
    }
    b.add_errors(&errors);
    let r = b.build();
    proof {
        reveal_with_fuel(join, 2);
        if m.len() > 0 {
            assert(crate::util::built(b@) == b@[0]);
        } else {
            assert(b@.len() == 0);
        }
    }
    r
}

/// A `confirm` command: the choices confirmed.
pub struct ConfirmCommand {
    selections: Vec<Selection>,
}

impl View for ConfirmCommand {
    type V = Seq<Selection>;

    closed spec fn view(&self) -> Seq<Selection> {
        self.selections@
    }
}

impl ConfirmCommand {
    /// Reads the choices of a `confirm` command (see `selections_of`).
    pub fn parse(s: &str) -> (r: Result<ConfirmCommand, String>)
        ensures
            match r {
                Ok(c) => selections_of(s@) == Ok::<Seq<Selection>, Seq<char>>(c@),
                Err(e) => selections_of(s@) == Err::<Seq<Selection>, Seq<char>>(e@),
            },
    {
        match parse_selections(s) {
            Ok(selections) => Ok(ConfirmCommand { selections }),
            Err(e) => Err(e),
        }
    }

    /// The choices confirmed.
    pub fn selections(&self) -> (r: &[Selection])
        ensures
            r@ == self@,
    {
        self.selections.as_slice()
    }

    /// The word that starts the command.
    pub fn word() -> (r: &'static str)
        ensures
            r@ == crate::command_word::word_of(CommandWord::confirm),
    {
        CommandWord::confirm.word()
    }

    /// What the command does.
    pub fn description() -> (r: &'static str)
        ensures
            r@ == crate::command_word::description_of(CommandWord::confirm),
    {
        CommandWord::confirm.description()
    }

    /// What the command takes after its word.
    pub fn parameter_doc() -> (r: Option<ParameterDoc>)
        ensures
            match r {
                Some(p) => crate::command_word::parameter_of(CommandWord::confirm) == Some((p.example@, p.description@)),
                None => false,
            },
    {
        CommandWord::confirm.parameter_doc()
    }
}

impl std::str::FromStr for ConfirmCommand {
    type Err = String;

    /// Reads the choices as `ConfirmCommand::parse` does.
    fn from_str(s: &str) -> (r: Result<ConfirmCommand, String>)
        ensures
            match r {
                Ok(c) => selections_of(s@) == Ok::<Seq<Selection>, Seq<char>>(c@),
                Err(e) => selections_of(s@) == Err::<Seq<Selection>, Seq<char>>(e@),
            },
    {
        ConfirmCommand::parse(s)
    }
}


/// Where a selection points among the deferred contacts: their position,
/// or the reply that ends the confirmation when it points past them.
pub open spec fn deferred_target(sel: Selection, count: nat) -> Result<nat, Seq<char>> {
    if sel.index < count {
        Ok(sel.index as nat)
    } else {
        Err("Contact number "@ + decimal((sel.index + 1) as nat) + " not found"@)
    }
}

/// Where a selection points among `count` deferred contacts (see
/// `deferred_target`).
pub fn deferred_target_of(sel: &Selection, count: usize) -> (r: Result<usize, String>)
    requires
        sel.index < usize::MAX,
    ensures
        match r {
            Ok(i) => deferred_target(*sel, count as nat) == Ok::<nat, Seq<char>>(i as nat),
            Err(e) => deferred_target(*sel, count as nat) == Err::<nat, Seq<char>>(e@),
        },
{
    if sel.index < count {
        Ok(sel.index)
    } else {
        let mut m = String::from_str("Contact number ");
        let d = usize_to_string(sel.index + 1);
        push_string(&mut m, &d);
        push_str(&mut m, " not found");
        Err(m)
    }
}

/// The position a letter picks: `a` is 0, `b` is 1, and so on, counted on
/// the low byte of the character.
pub open spec fn letter_position(c: char) -> int {
    ((c as u32) % 256) as int - 97
}

/// A letter the confirmation can read: its low byte is at least that of `a`.
pub open spec fn readable_letter(sel: Selection) -> bool {
    sel.sub_selection matches Some(c) ==> letter_position(c) >= 0
}

/// Which number of a deferred contact a selection picks.
pub enum NumberChoice {
    /// No letter was given: the message is recorded and the next
    /// selection follows.
    Missing { message: String },
    /// The letter is past the contact's numbers: the reply ends the
    /// confirmation.
    Invalid { reply: String },
    /// The position of the number picked.
    Chosen { index: usize },
}

/// Which of `count` numbers a selection picks (see `NumberChoice`).
pub open spec fn number_choice_ok(sel: Selection, count: nat, r: NumberChoice) -> bool {
    match sel.sub_selection {
        None => r matches NumberChoice::Missing { message }
            && message@ == "No letter selection for contact "@ + decimal((sel.index + 1) as nat),
        Some(c) => if letter_position(c) >= count {
            r matches NumberChoice::Invalid { reply } && reply@ == "Invalid letter selection: "@ + seq![c]
        } else {
            r matches NumberChoice::Chosen { index } && index == letter_position(c)
        },
    }
}

/// Which of `count` numbers a selection picks (see `number_choice_ok`).
pub fn number_choice(sel: &Selection, count: usize) -> (r: NumberChoice)
    requires
        sel.index < usize::MAX,
        readable_letter(*sel),
    ensures
        number_choice_ok(*sel, count as nat, r),
{
    match sel.sub_selection {
        None => {
            let mut m = String::from_str("No letter selection for contact ");
            let d = usize_to_string(sel.index + 1);
            push_string(&mut m, &d);
            NumberChoice::Missing { message: m }
        },
        Some(c) => {
            let code: u32 = c as u32;
            let low: u32 = code % 256;
            proof {
                assert(low as int - 97 == letter_position(c));
            }
            let k: usize = (low - 97) as usize;
            if k >= count {
                let mut m = String::from_str("Invalid letter selection: ");
                push_char(&mut m, c);
                proof {
                    assert(m@ =~= "Invalid letter selection: "@ + seq![c]);
                }
                NumberChoice::Invalid { reply: m }
            } else {
                NumberChoice::Chosen { index: k }
            }
        },
    }
}

/// The progress of confirming deferred contacts: the contacts added and
/// the failures, each as a line.
pub struct DeferredConfirm {
    successful: Vec<String>,
    failed: Vec<String>,
}

/// The progress so far: the lines of the contacts added, then of the
/// failures.
pub struct DeferredConfirmView {
    pub successful: Seq<Seq<char>>,
    pub failed: Seq<Seq<char>>,
}

impl View for DeferredConfirm {
    type V = DeferredConfirmView;

    closed spec fn view(&self) -> DeferredConfirmView {
        DeferredConfirmView { successful: string_views(self.successful@), failed: string_views(self.failed@) }
    }
}

/// The line of a contact added: `Name (number)`.
pub open spec fn added_line(name: Seq<char>, number: Seq<char>) -> Seq<char> {
    name + " ("@ + number + ")"@
}

/// The line of a contact that could not be added.
pub open spec fn add_failure_line(name: Seq<char>, number: Seq<char>, error: Seq<char>) -> Seq<char> {
    "Failed to add "@ + name + " ("@ + number + "): "@ + error
}

/// How a confirmation of deferred contacts ends: with a reply alone, or
/// with the deferred contacts and the pending action cleared and a reply.
pub enum DeferredOutcome {
    Reply { text: String },
    Commit { reply: String },
}

/// How a confirmation with this progress ends: the first failure when
/// there is one; else, when contacts were added, their list; else
/// `No changes made.`.
pub open spec fn deferred_outcome_ok(v: DeferredConfirmView, r: DeferredOutcome) -> bool {
    if v.failed.len() > 0 {
        r matches DeferredOutcome::Reply { text } && text@ == v.failed[0]
    } else if v.successful.len() > 0 {
        r matches DeferredOutcome::Commit { reply } && reply@ == "Successfully added "@ + decimal(v.successful.len())
            + " "@ + (if v.successful.len() == 1 { "contact"@ } else { "contacts"@ }) + ":\n"@
            + join(v.successful, "\n"@) + "\n"@
    } else {
        r matches DeferredOutcome::Reply { text } && text@ == "No changes made."@
    }
}

fn push_view(v: &mut Vec<String>, s: String)
    ensures
        string_views(final(v)@) == string_views(old(v)@).push(s@),
{
    let ghost before = v@;
    v.push(s);
    proof {
        assert(string_views(v@) =~= string_views(before).push(s@));
    }
}

impl DeferredConfirm {
    /// Nothing added, nothing failed.
    pub fn new() -> (r: Self)
        ensures
            r@.successful == Seq::<Seq<char>>::empty(),
            r@.failed == Seq::<Seq<char>>::empty(),
    {
        let r = DeferredConfirm { successful: Vec::new(), failed: Vec::new() };
        proof {
            assert(string_views(r.successful@) =~= Seq::<Seq<char>>::empty());
            assert(string_views(r.failed@) =~= Seq::<Seq<char>>::empty());
        }
        r
    }

    /// Records a failure line.
    pub fn record_failure(&mut self, message: String)
        ensures
            final(self)@.successful == old(self)@.successful,
            final(self)@.failed == old(self)@.failed.push(message@),
    {
        push_view(&mut self.failed, message);
    }

    /// Records a contact added (see `added_line`).
    pub fn record_added(&mut self, name: &str, number: &str)
        ensures
            final(self)@.successful == old(self)@.successful.push(added_line(name@, number@)),
            final(self)@.failed == old(self)@.failed,
    {
        let mut line = String::from_str(name);
        push_str(&mut line, " (");
        push_str(&mut line, number);
        push_str(&mut line, ")");
        push_view(&mut self.successful, line);
    }

    /// Records a contact that could not be added (see `add_failure_line`).
    pub fn record_add_failure(&mut self, name: &str, number: &str, error: &str)
        ensures
            final(self)@.successful == old(self)@.successful,
            final(self)@.failed == old(self)@.failed.push(add_failure_line(name@, number@, error@)),
    {
        let mut line = String::from_str("Failed to add ");
        push_str(&mut line, name);
        push_str(&mut line, " (");
        push_str(&mut line, number);
        push_str(&mut line, "): ");
        push_str(&mut line, error);
        push_view(&mut self.failed, line);
    }

    /// How the confirmation ends as the word-based `confirm` command words
    /// it: the reply and the names whose deferred entries are cleared (see
    /// `word_deferred_reply_text` and `cleared_names`).
    pub fn finish_word_based(self) -> (r: (String, Vec<String>))
        ensures
            r.0@ == crate::word_confirm::word_deferred_reply_text(self@.successful, self@.failed),
            string_views(r.1@) == crate::word_confirm::cleared_names(self@.successful),
    {
        crate::word_confirm::word_deferred_finish(&self.successful, &self.failed)
    }

    /// How the confirmation ends (see `deferred_outcome_ok`).
    pub fn finish(self) -> (r: DeferredOutcome)
        ensures
            deferred_outcome_ok(self@, r),
    {
        if self.failed.len() > 0 {
            return DeferredOutcome::Reply { text: self.failed[0].clone() };
        }
        let n = self.successful.len();
        if n > 0 {
            let mut m = String::from_str("Successfully added ");
            let d = usize_to_string(n);
            push_string(&mut m, &d);
            push_str(&mut m, " ");
            if n == 1 {
                push_str(&mut m, "contact");
            } else {
                push_str(&mut m, "contacts");
            }
            push_str(&mut m, ":\n");
            let j = join_strings(&self.successful, "\n");
            push_string(&mut m, &j);
            push_str(&mut m, "\n");
            return DeferredOutcome::Commit { reply: m };
        }
        DeferredOutcome::Reply { text: String::from_str("No changes made.") }
    }
}

/// The line of a group about to be deleted: `name (K members)`.
pub open spec fn deleted_group_line(g: GroupRecord) -> Seq<char> {
    g.name@ + " ("@ + signed_decimal(g.member_count as int) + " members)"@
}

/// The line of a contact about to be deleted: `Name (area)`.
pub open spec fn deleted_contact_line(c: Contact) -> Seq<char> {
    c.contact_name@ + " ("@ + area_label(c.contact_user_number@) + ")"@
}

/// What the selections pick among the groups, numbered first, and the
/// contacts numbered after them: the lines of the groups picked, of the
/// contacts picked, and of the selections past both lists.
pub open spec fn deletion_lists(groups: Seq<GroupRecord>, contacts: Seq<Contact>, sels: Seq<Selection>)
    -> (Seq<Seq<char>>, Seq<Seq<char>>, Seq<Seq<char>>)
    decreases sels.len(),
{
    if sels.len() == 0 {
        (Seq::empty(), Seq::empty(), Seq::empty())
    } else {
        let (g, c, e) = deletion_lists(groups, contacts, sels.drop_last());
        let idx = sels.last().index as int;
        if idx < groups.len() {
            (g.push(deleted_group_line(groups[idx])), c, e)
        } else if idx < groups.len() + contacts.len() {
            (g, c.push(deleted_contact_line(contacts[idx - groups.len()])), e)
        } else {
            (g, c, e.push("Invalid selection: "@ + decimal((idx + 1) as nat)))
        }
    }
}

/// `Deleted N thing:` or `Deleted N things:`, the lines, and a line break.
pub open spec fn deleted_section(lines: Seq<Seq<char>>, singular: Seq<char>, plural: Seq<char>) -> Seq<char> {
    "Deleted "@ + decimal(lines.len()) + " "@ + (if lines.len() == 1 { singular } else { plural }) + ":\n"@
        + join(lines, "\n"@) + "\n"@
}

/// The reply to a confirmed deletion: the groups deleted, the contacts
/// deleted and the selections refused, each part apart from the one
/// before by an empty line.
pub open spec fn deletion_reply_text(g: Seq<Seq<char>>, c: Seq<Seq<char>>, e: Seq<Seq<char>>) -> Seq<char> {
    let a = if g.len() > 0 { deleted_section(g, "group"@, "groups"@) } else { Seq::empty() };
    let b = if c.len() > 0 {
        (if g.len() > 0 { "\n"@ } else { Seq::empty() }) + deleted_section(c, "contact"@, "contacts"@)
    } else {
        Seq::empty()
    };
    a + b + (if e.len() > 0 {
        (if g.len() > 0 || c.len() > 0 { "\n"@ } else { Seq::empty() }) + "Errors:\n"@ + join(e, "\n"@)
    } else {
        Seq::empty()
    })
}

/// Every selection's number fits a `usize` once one is added.
pub open spec fn indexes_below_max(sels: Seq<Selection>) -> bool {
    forall|i: int| 0 <= i < sels.len() ==> (#[trigger] sels[i]).index < usize::MAX
}

/// The lines of what the selections pick (see `deletion_lists`).
pub fn deletion_lists_of(groups: &[GroupRecord], contacts: &[Contact], sels: &[Selection])
    -> (r: (Vec<String>, Vec<String>, Vec<String>))
    requires
        groups@.len() + contacts@.len() <= usize::MAX,
        indexes_below_max(sels@),
    ensures
        (string_views(r.0@), string_views(r.1@), string_views(r.2@)) == deletion_lists(groups@, contacts@, sels@),
{
    let mut g: Vec<String> = Vec::new();
    let mut c: Vec<String> = Vec::new();
    let mut e: Vec<String> = Vec::new();
    let mut i: usize = 0;
    let ng = groups.len();
    let nc = contacts.len();
    while i < sels.len()
        invariant
            i <= sels.len(),
            ng == groups@.len(),
            nc == contacts@.len(),
            ng + nc <= usize::MAX,
            indexes_below_max(sels@),
            (string_views(g@), string_views(c@), string_views(e@)) == deletion_lists(groups@, contacts@, sels@.subrange(0, i as int)),
        decreases sels.len() - i,
    {
        proof {
            assert(sels@.subrange(0, i + 1).drop_last() == sels@.subrange(0, i as int));
            assert(sels@.subrange(0, i + 1).last() == sels@[i as int]);
        }
        let idx = sels[i].index;
        if idx < ng {
            let gr = &groups[idx];
            let mut line = gr.name.clone();
            push_str(&mut line, " (");
            let k = i64_to_string(gr.member_count);
            push_string(&mut line, &k);
            push_str(&mut line, " members)");
            push_view(&mut g, line);
        } else if idx < ng + nc {
            let ct = &contacts[idx - ng];
            let mut line = ct.contact_name.clone();
            push_str(&mut line, " (");
            let area = area_label_of(ct.contact_user_number.as_str());
            push_string(&mut line, &area);
            push_str(&mut line, ")");
            push_view(&mut c, line);
        } else {
            let mut line = String::from_str("Invalid selection: ");
            let d = usize_to_string(idx + 1);
            push_string(&mut line, &d);
            push_view(&mut e, line);
        }
        i = i + 1;
    }
    proof {
        assert(sels@.subrange(0, sels.len() as int) == sels@);
    }
    (g, c, e)
}

/// What a confirmed deletion does: the reply, whether to delete anything,
/// and the ids of the groups and contacts to delete.
pub struct DeletionPlan {
    pub reply: String,
    pub apply: bool,
    pub group_ids: Vec<i64>,
    pub contact_ids: Vec<i64>,
}

/// The ids of what the selections pick, in the order of the selections:
/// those of the groups picked and those of the contacts picked (numbered
/// as in `deletion_lists`); a selection past both lists picks nothing.
pub open spec fn deletion_ids(groups: Seq<GroupRecord>, contacts: Seq<Contact>, sels: Seq<Selection>)
    -> (Seq<i64>, Seq<i64>)
    decreases sels.len(),
{
    if sels.len() == 0 {
        (Seq::empty(), Seq::empty())
    } else {
        let (g, c) = deletion_ids(groups, contacts, sels.drop_last());
        let idx = sels.last().index as int;
        if idx < groups.len() {
            (g.push(groups[idx].id), c)
        } else if idx < groups.len() + contacts.len() {
            (g, c.push(contacts[idx - groups.len()].id))
        } else {
            (g, c)
        }
    }
}

/// The plan of a confirmed deletion. When nothing was picked and nothing
/// refused, the reply is `No valid selections provided.` and nothing is
/// deleted; otherwise the reply lists what was picked (see
/// `deletion_reply_text`) and the groups and contacts picked are deleted
/// (see `deletion_ids`).
pub fn plan_deletion(groups: &[GroupRecord], contacts: &[Contact], sels: &[Selection]) -> (r: DeletionPlan)
    requires
        groups@.len() + contacts@.len() <= usize::MAX,
        indexes_below_max(sels@),
    ensures
        ({
            let (g, c, e) = deletion_lists(groups@, contacts@, sels@);
            if g.len() == 0 && c.len() == 0 && e.len() == 0 {
                &&& !r.apply
                &&& r.reply@ == "No valid selections provided."@
                &&& r.group_ids@.len() == 0
                &&& r.contact_ids@.len() == 0
            } else {
                &&& r.apply
                &&& r.reply@ == deletion_reply_text(g, c, e)
                &&& r.group_ids@ == deletion_ids(groups@, contacts@, sels@).0
                &&& r.contact_ids@ == deletion_ids(groups@, contacts@, sels@).1
            }
        }),
{
    let (g, c, e) = deletion_lists_of(groups, contacts, sels);
    if g.len() == 0 && c.len() == 0 && e.len() == 0 {
        return DeletionPlan {
            reply: String::from_str("No valid selections provided."),
            apply: false,
            group_ids: Vec::new(),
            contact_ids: Vec::new(),
        };
    }
    let ng = groups.len();
    let nc = contacts.len();
    let mut group_ids: Vec<i64> = Vec::new();
    let mut contact_ids: Vec<i64> = Vec::new();
    let mut i: usize = 0;
    while i < sels.len()
        invariant
            i <= sels.len(),
            ng == groups@.len(),
            nc == contacts@.len(),
            ng + nc <= usize::MAX,
            (group_ids@, contact_ids@) == deletion_ids(groups@, contacts@, sels@.subrange(0, i as int)),
        decreases sels.len() - i,
    {
        proof {
            assert(sels@.subrange(0, i + 1).drop_last() == sels@.subrange(0, i as int));
            assert(sels@.subrange(0, i + 1).last() == sels@[i as int]);
        }
        let idx = sels[i].index;
        if idx < ng {
            group_ids.push(groups[idx].id);
        } else if idx < ng + nc {
            contact_ids.push(contacts[idx - ng].id);
        }
        i = i + 1;
    }
    proof {
        assert(sels@.subrange(0, sels.len() as int) == sels@);
    }
    let reply = deletion_reply(&g, &c, &e);
    DeletionPlan { reply, apply: true, group_ids, contact_ids }
}

fn push_deleted_section(r: &mut String, lines: &Vec<String>, singular: &str, plural: &str)
    ensures
        final(r)@ == old(r)@ + deleted_section(string_views(lines@), singular@, plural@),
{
    push_str(r, "Deleted ");
    let d = usize_to_string(lines.len());
    push_string(r, &d);
    push_str(r, " ");
    if lines.len() == 1 {
        push_str(r, singular);
    } else {
        push_str(r, plural);
    }
    push_str(r, ":\n");
    let j = join_strings(lines, "\n");
    push_string(r, &j);
    push_str(r, "\n");
}

/// The reply to a confirmed deletion (see `deletion_reply_text`).
pub fn deletion_reply(g: &Vec<String>, c: &Vec<String>, e: &Vec<String>) -> (r: String)
    ensures
        r@ == deletion_reply_text(string_views(g@), string_views(c@), string_views(e@)),
{
    let ghost (gv, cv, ev) = (string_views(g@), string_views(c@), string_views(e@));
    let mut r = String::new();
    if g.len() > 0 {
        push_deleted_section(&mut r, g, "group", "groups");
    }
    let ghost a = r@;
    proof {
        assert(a == (if gv.len() > 0 { deleted_section(gv, "group"@, "groups"@) } else { Seq::<char>::empty() }));
        reveal_strlit("Deleted ");
    }
    if c.len() > 0 {
        if !r.as_str().is_empty() {
            push_str(&mut r, "\n");
        }
        push_deleted_section(&mut r, c, "contact", "contacts");
        proof {
            assert(r@ =~= a + ((if gv.len() > 0 { "\n"@ } else { Seq::<char>::empty() }) + deleted_section(cv, "contact"@, "contacts"@)));
        }
    } else {
        proof {
            assert(r@ =~= a + Seq::<char>::empty());
        }
    }
    let ghost ab = r@;
    if e.len() > 0 {
        if !r.as_str().is_empty() {
            push_str(&mut r, "\n");
        }
        push_str(&mut r, "Errors:\n");
        let j = join_strings(e, "\n");
        push_string(&mut r, &j);
        proof {
            assert(r@ =~= ab + ((if gv.len() > 0 || cv.len() > 0 { "\n"@ } else { Seq::<char>::empty() }) + "Errors:\n"@ + join(ev, "\n"@)));
        }
    } else {
        proof {
            assert(r@ =~= ab + Seq::<char>::empty());
        }
    }
    r
}

/// What the selections pick among the contacts pending for a new group,
/// as a query at the selection's offset finds them: the contacts picked,
/// and the selections that find none. An offset too large for an `i64`
/// wraps to a negative one, which the database reads as zero.
pub open spec fn member_picks(pending: Seq<Contact>, sels: Seq<Selection>) -> (Seq<Contact>, Seq<Seq<char>>)
    decreases sels.len(),
{
    if sels.len() == 0 {
        (Seq::empty(), Seq::empty())
    } else {
        let (m, e) = member_picks(pending, sels.drop_last());
        let idx = sels.last().index as int;
        let offset = if idx > i64::MAX { 0 } else { idx };
        if offset < pending.len() {
            (m.push(pending[offset]), e)
        } else {
            (m, e.push("Invalid selection: "@ + decimal((idx + 1) as nat)))
        }
    }
}

/// The contacts picked for a new group, and the selections refused (see
/// `member_picks`).
pub fn pick_members(pending: &[Contact], sels: &[Selection]) -> (r: (Vec<Contact>, Vec<String>))
    requires
        indexes_below_max(sels@),
    ensures
        (r.0@, string_views(r.1@)) == member_picks(pending@, sels@),
{
    let mut m: Vec<Contact> = Vec::new();
    let mut e: Vec<String> = Vec::new();
    let mut i: usize = 0;
    while i < sels.len()
        invariant
            i <= sels.len(),
            indexes_below_max(sels@),
            (m@, string_views(e@)) == member_picks(pending@, sels@.subrange(0, i as int)),
        decreases sels.len() - i,
    {
        proof {
            assert(sels@.subrange(0, i + 1).drop_last() == sels@.subrange(0, i as int));
            assert(sels@.subrange(0, i + 1).last() == sels@[i as int]);
        }
        let idx = sels[i].index;
        let offset: usize = if (idx as u128) > 9223372036854775807u128 { 0 } else { idx };
        if offset < pending.len() {
            m.push(pending[offset].clone());
        } else {
            let mut line = String::from_str("Invalid selection: ");
            let d = usize_to_string(idx + 1);
            push_string(&mut line, &d);
            push_view(&mut e, line);
        }
        i = i + 1;
    }
    proof {
        assert(sels@.subrange(0, sels.len() as int) == sels@);
    }
    (m, e)
}
} // verus!
