//! Phone numbers in E.164 form, selection lists and response assembly.
use vstd::prelude::*;
use crate::text::{
    all_digits, is_ascii_lower, is_digit, parse_usize, parse_usize_chars, push_char, push_string,
    push_str, split_chars, split_on, string_of, to_chars, trim, trim_bounds, views,
};
use crate::records::Contact;
use crate::text::{decimal, join, join_strings, string_views, usize_to_string};
use crate::unicode::{alphabetic, is_alphabetic, lowercase, to_lowercase};

verus! {

/// The decimal digits of `s`, in order, everything else dropped.
pub open spec fn digits_of(s: Seq<char>) -> Seq<char>
    decreases s.len(),
{
    if s.len() == 0 {
        Seq::empty()
    } else if is_digit(s.last()) {
        digits_of(s.drop_last()).push(s.last())
    } else {
        digits_of(s.drop_last())
    }
}

/// The normalized North American E.164 form of a phone number written any
/// way: ten digits get the country code `+1`, eleven digits starting with
/// `1` get a `+`; any other count of digits is refused.
pub open spec fn e164_normal_form(s: Seq<char>) -> Option<Seq<char>> {
    let d = digits_of(s);
    if d.len() == 11 && d[0] == '1' {
        Some(seq!['+'] + d)
    } else if d.len() == 10 {
        Some(seq!['+', '1'] + d)
    } else {
        None
    }
}

/// `+1` followed by ten decimal digits.
pub open spec fn is_e164(s: Seq<char>) -> bool {
    &&& s.len() == 12
    &&& s[0] == '+'
    &&& s[1] == '1'
    &&& forall|i: int| 2 <= i < 12 ==> is_digit(#[trigger] s[i])
}

/// The message of a refused phone number.
pub open spec fn e164_error() -> Seq<char> {
    "Phone number must be 10 digits (or 11 digits starting with 1)"@
}

/// A phone number in E.164 form (`+1` and ten digits).
#[derive(Debug, PartialEq, Eq, Hash)]
pub struct E164(String);

impl Clone for E164 {
    fn clone(&self) -> (r: Self)
        ensures
            r@ == self@,
    {
        proof {
            use_type_invariant(self);
        }
        E164(self.0.clone())
    }
}

impl View for E164 {
    type V = Seq<char>;

    closed spec fn view(&self) -> Seq<char> {
        self.0@
    }
}

impl E164 {
    #[verifier::type_invariant]
    spec fn well_formed(self) -> bool {
        is_e164(self.0@)
    }

    /// Parses a phone number written in any style: all characters but the
    /// decimal digits are ignored.
    pub fn parse(s: &str) -> (r: Result<E164, String>)
        ensures
            match r {
                Ok(e) => e164_normal_form(s@) == Some(e@),
                Err(m) => e164_normal_form(s@) is None && m@ == e164_error(),
            },
    {
        let chars = to_chars(s);
        let mut digits: Vec<char> = Vec::new();
        let mut i: usize = 0;
        while i < chars.len()
            invariant
                i <= chars.len(),
                chars@ == s@,
                digits@ == digits_of(chars@.subrange(0, i as int)),
            decreases chars.len() - i,
        {
            let c = chars[i];
            proof {
                let t = chars@.subrange(0, i + 1);
                assert(t.drop_last() == chars@.subrange(0, i as int));
            }
            if '0' <= c && c <= '9' {
                digits.push(c);
            }
            i = i + 1;
        }
        proof {
            assert(chars@.subrange(0, chars.len() as int) == s@);
        }
        let n = digits.len();
        if (n == 11 && digits[0] == '1') || n == 10 {
            let mut out = String::new();
            push_char(&mut out, '+');
            if n == 10 {
                push_char(&mut out, '1');
            }
            let mut j: usize = 0;
            let ghost prefix = out@;
            while j < n
                invariant
                    j <= n == digits.len(),
                    out@ == prefix + digits@.subrange(0, j as int),
                decreases n - j,
            {
                push_char(&mut out, digits[j]);
                proof {
                    assert(digits@.subrange(0, j + 1) == digits@.subrange(0, j as int).push(digits@[j as int]));
                }
                j = j + 1;
            }
            proof {
                assert(digits@.subrange(0, n as int) == digits@);
                lemma_digits_of_all_digits(s@);
                if n == 10 {
                    assert(out@ == seq!['+', '1'] + digits@);
                } else {
                    assert(out@ == seq!['+'] + digits@);
                }
            }
            Ok(E164(out))
        } else {
            Err(String::from_str("Phone number must be 10 digits (or 11 digits starting with 1)"))
        }
    }

    /// The area code: the three digits after `+1`.
    pub fn area_code(&self) -> (r: &str)
        ensures
            r@ == self@.subrange(2, 5),
            is_e164(self@),
    {
        proof {
            use_type_invariant(self);
            assert forall|i: int| 0 <= i < self.0@.len() implies '\0' <= #[trigger] self.0@[i] <= '\u{7f}' by {
                if i >= 2 {
                    assert(is_digit(self.0@[i]));
                }
            }
        }
        self.0.as_str().substring_ascii(2, 5)
    }

    /// The whole number in E.164 form.
    pub fn as_str(&self) -> (r: &str)
        ensures
            r@ == self@,
            is_e164(self@),
    {
        proof {
            use_type_invariant(self);
        }
        self.0.as_str()
    }

    /// The whole number in E.164 form, as an owned string.
    pub fn to_string(&self) -> (r: String)
        ensures
            r@ == self@,
    {
        self.0.clone()
    }
}

/// The digits kept by `digits_of` are all decimal digits.
pub proof fn lemma_digits_of_all_digits(s: Seq<char>)
    ensures
        all_digits(digits_of(s)),
    decreases s.len(),
{
    if s.len() > 0 {
        lemma_digits_of_all_digits(s.drop_last());
    }
}

impl std::str::FromStr for E164 {
    type Err = String;

    /// Reads a phone number as `E164::parse` does.
    fn from_str(s: &str) -> (r: Result<E164, String>)
        ensures
            match r {
                Ok(e) => e164_normal_form(s@) == Some(e@),
                Err(m) => e164_normal_form(s@) is None && m@ == e164_error(),
            },
    {
        E164::parse(s)
    }
}


/// One choice from a numbered list: `index` counts from zero, and
/// `sub_selection` is the letter that picks among the numbers of a contact.
#[derive(Debug, Clone, Copy, PartialEq, Eq)]
pub struct Selection {
    pub index: usize,
    pub sub_selection: Option<char>,
}

/// How one lowercased item of a selection list reads: a number from 1 on,
/// optionally followed by one lowercase ASCII letter.
pub open spec fn selection_item(s: Seq<char>) -> Result<Selection, Seq<char>> {
    let has_letter = s.len() > 0 && is_ascii_lower(s.last());
    let num = if has_letter { s.drop_last() } else { s };
    let letter = if has_letter { Some(s.last()) } else { None };
    match parse_usize(trim(num)) {
        None => Err("Invalid selection format: "@ + s),
        Some(n) => if n == 0 {
            Err("Selection numbers must be greater than 0"@)
        } else {
            Ok(Selection { index: (n - 1) as usize, sub_selection: letter })
        },
    }
}

/// The selections of the comma-separated pieces, blank pieces skipped and
/// the others lowercased; the first refused piece decides the error.
pub open spec fn selections_from_pieces(pieces: Seq<Seq<char>>) -> Result<Seq<Selection>, Seq<char>>
    decreases pieces.len(),
{
    if pieces.len() == 0 {
        Ok(Seq::empty())
    } else {
        match selections_from_pieces(pieces.drop_last()) {
            Err(e) => Err(e),
            Ok(v) => {
                let t = trim(pieces.last());
                if t.len() == 0 {
                    Ok(v)
                } else {
                    match selection_item(lowercase(t)) {
                        Ok(x) => Ok(v.push(x)),
                        Err(e) => Err(e),
                    }
                }
            },
        }
    }
}

/// What a selection list such as `"1b, 2a"` means. A list made only of
/// alphabetic characters (the empty list too) is refused.
pub open spec fn selections_of(input: Seq<char>) -> Result<Seq<Selection>, Seq<char>> {
    if forall|i: int| 0 <= i < input.len() ==> alphabetic(#[trigger] input[i]) {
        Err("Invalid selection format: "@ + input)
    } else {
        selections_from_pieces(split_on(input, ','))
    }
}

/// Once a prefix of the pieces is refused, the whole list is refused with
/// the same message.
pub proof fn lemma_selections_error_sticks(pieces: Seq<Seq<char>>, i: int)
    requires
        0 <= i <= pieces.len(),
        selections_from_pieces(pieces.subrange(0, i)) is Err,
    ensures
        selections_from_pieces(pieces) == selections_from_pieces(pieces.subrange(0, i)),
    decreases pieces.len(),
{
    if i < pieces.len() {
        assert(pieces.drop_last().subrange(0, i) == pieces.subrange(0, i));
        lemma_selections_error_sticks(pieces.drop_last(), i);
    } else {
        assert(pieces.subrange(0, i) == pieces);
    }
}

/// Reads one lowercased item of a selection list (see `selection_item`).
pub fn parse_selection(item: &str) -> (r: Result<Selection, String>)
    ensures
        match r {
            Ok(x) => selection_item(item@) == Ok::<Selection, Seq<char>>(x),
            Err(e) => selection_item(item@) == Err::<Selection, Seq<char>>(e@),
        },
{
    let v = to_chars(item);
    let n = v.len();
    let has_letter = n > 0 && 'a' <= v[n - 1] && v[n - 1] <= 'z';
    let end = if has_letter { n - 1 } else { n };
    let letter = if has_letter { Some(v[n - 1]) } else { None };
    proof {
        if has_letter {
            assert(v@.subrange(0, end as int) == item@.drop_last());
        } else {
            assert(v@.subrange(0, end as int) == item@);
        }
    }
    let (a, b) = trim_bounds(&v, 0, end);
    match parse_usize_chars(&v, a, b) {
        None => {
            let mut m = String::from_str("Invalid selection format: ");
            let s = string_of(&v, 0, n);
            proof {
                assert(v@.subrange(0, n as int) == item@);
            }
            push_string(&mut m, &s);
            Err(m)
        },
        Some(k) => {
            if k == 0 {
                Err(String::from_str("Selection numbers must be greater than 0"))
            } else {
                Ok(Selection { index: k - 1, sub_selection: letter })
            }
        },
    }
}

/// Parses a comma-separated selection list such as `"1b, 2a"` (see
/// `selections_of`).
pub fn parse_selections(input: &str) -> (r: Result<Vec<Selection>, String>)
    ensures
        match r {
            Ok(v) => selections_of(input@) == Ok::<Seq<Selection>, Seq<char>>(v@),
            Err(e) => selections_of(input@) == Err::<Seq<Selection>, Seq<char>>(e@),
        },
{
    let chars = to_chars(input);
    let mut all_alpha = true;
    let mut i: usize = 0;
    while i < chars.len()
        invariant
            i <= chars.len(),
            chars@ == input@,
            all_alpha <==> forall|j: int| 0 <= j < i ==> alphabetic(#[trigger] input@[j]),
        decreases chars.len() - i,
    {
        if !is_alphabetic(chars[i]) {
            all_alpha = false;
        }
        i = i + 1;
    }
    if all_alpha {
        let mut m = String::from_str("Invalid selection format: ");
        push_str(&mut m, input);
        return Err(m);
    }
    let pieces = split_chars(&chars, ',');
    let ghost ps = split_on(input@, ',');
    proof {
        assert(chars@.subrange(0, chars.len() as int) == chars@);
    }
    let mut out: Vec<Selection> = Vec::new();
    let mut k: usize = 0;
    while k < pieces.len()
        invariant
            k <= pieces.len(),
            ps == views(pieces@),
            selections_of(input@) == selections_from_pieces(ps),
            selections_from_pieces(ps.subrange(0, k as int)) == Ok::<Seq<Selection>, Seq<char>>(out@),
        decreases pieces.len() - k,
    {
        let piece = &pieces[k];
        let ghost pre = ps.subrange(0, k as int);
        proof {
            assert(ps.subrange(0, k + 1).drop_last() == pre);
            assert(ps.subrange(0, k + 1).last() == piece@);
        }
        let (a, b) = trim_bounds(piece, 0, piece.len());
        proof {
            assert(piece@.subrange(0, piece.len() as int) == piece@);
        }
        if a < b {
            let t = string_of(piece, a, b);
            let lowered = to_lowercase(t.as_str());
            match parse_selection(lowered.as_str()) {
                Ok(x) => {
                    out.push(x);
                },
                Err(e) => {
                    proof {
                        lemma_selections_error_sticks(ps, k + 1);
                    }
                    return Err(e);
                },
            }
        }
        k = k + 1;
    }
    proof {
        assert(ps.subrange(0, pieces.len() as int) == ps);
    }
    Ok(out)
}

/// How a contact's number shows in a list: its area code, or `???` when
/// the stored number is not a valid phone number.
pub open spec fn area_label(number: Seq<char>) -> Seq<char> {
    match e164_normal_form(number) {
        Some(n) => n.subrange(2, 5),
        None => "???"@,
    }
}

/// One numbered line of a contact list: `N. Name (area)`.
pub open spec fn contact_line(n: nat, c: Contact) -> Seq<char> {
    decimal(n) + ". "@ + c.contact_name@ + " ("@ + area_label(c.contact_user_number@) + ")"@
}

/// The numbered lines of `contacts`, the first numbered `offset + 1`.
pub open spec fn contact_lines(contacts: Seq<Contact>, offset: nat) -> Seq<Seq<char>> {
    Seq::new(contacts.len(), |i: int| contact_line((i + offset + 1) as nat, contacts[i]))
}

/// The area label of a stored number (see `area_label`).
pub fn area_label_of(number: &str) -> (r: String)
    ensures
        r@ == area_label(number@),
{
    match E164::parse(number) {
        Ok(e) => String::from_str(e.area_code()),
        Err(_) => String::from_str("???"),
    }
}

/// One numbered contact line (see `contact_line`).
pub fn format_contact_line(n: usize, c: &Contact) -> (r: String)
    ensures
        r@ == contact_line(n as nat, *c),
{
    let mut r = usize_to_string(n);
    push_str(&mut r, ". ");
    push_string(&mut r, &c.contact_name);
    push_str(&mut r, " (");
    let area = area_label_of(c.contact_user_number.as_str());
    push_string(&mut r, &area);
    push_str(&mut r, ")");
    r
}

/// The contacts as numbered lines, the first numbered `offset + 1`, one
/// line per contact.
pub fn format_contact_list(contacts: &[Contact], offset: usize) -> (r: String)
    requires
        offset + contacts@.len() <= usize::MAX,
    ensures
        r@ == join(contact_lines(contacts@, offset as nat), "\n"@),
{
    let mut lines: Vec<String> = Vec::new();
    let mut i: usize = 0;
    while i < contacts.len()
        invariant
            i <= contacts.len(),
            offset + contacts@.len() <= usize::MAX,
            string_views(lines@) == contact_lines(contacts@, offset as nat).subrange(0, i as int),
        decreases contacts.len() - i,
    {
        let line = format_contact_line(i + offset + 1, &contacts[i]);
        let ghost before = lines@;
        lines.push(line);
        proof {
            assert(string_views(lines@) =~= string_views(before).push(line@));
        }
        i = i + 1;
    }
    proof {
        assert(contact_lines(contacts@, offset as nat).subrange(0, contacts.len() as int)
            == contact_lines(contacts@, offset as nat));
    }
    join_strings(&lines, "\n")
}

/// A reply assembled from sections, in the order they were added.
pub struct ResponseBuilder {
    sections: Vec<String>,
}

impl View for ResponseBuilder {
    type V = Seq<Seq<char>>;

    closed spec fn view(&self) -> Seq<Seq<char>> {
        string_views(self.sections@)
    }
}

/// The sections after a titled section is added: `title:` with `content`
/// below it, after an empty line when sections came before; empty content
/// adds nothing.
pub open spec fn with_titled(sections: Seq<Seq<char>>, title: Seq<char>, content: Seq<char>) -> Seq<Seq<char>> {
    if content.len() == 0 {
        sections
    } else if sections.len() == 0 {
        sections.push(title + ":\n"@ + content)
    } else {
        sections.push(seq!['\n']).push(title + ":\n"@ + content)
    }
}

/// The text of a built reply: its sections one after another.
pub open spec fn built(sections: Seq<Seq<char>>) -> Seq<char> {
    join(sections, Seq::empty())
}

impl ResponseBuilder {
    /// A builder with no sections.
    pub fn new() -> (r: Self)
        ensures
            r@ == Seq::<Seq<char>>::empty(),
    {
        ResponseBuilder { sections: Vec::new() }
    }

    /// Adds `content` on a line of its own; empty content adds nothing.
    pub fn add_section(&mut self, content: &str) -> (r: &mut Self)
        ensures
            (*r)@ == if content@.len() == 0 {
                old(self)@
            } else {
                old(self)@.push(seq!['\n'] + content@)
            },
            *final(self) == *final(r),
    {
        if !content.is_empty() {
            let mut sec = String::new();
            push_char(&mut sec, '\n');
            push_str(&mut sec, content);
            let ghost before = self.sections@;
            self.sections.push(sec);
            proof {
                assert(string_views(self.sections@) =~= string_views(before).push(sec@));
            }
        }
        self
    }

    /// Adds `title:` and `content` below it, apart from earlier sections by
    /// an empty line; empty content adds nothing.
    pub fn add_titled(&mut self, title: &str, content: String) -> (r: &mut Self)
        ensures
            (*r)@ == with_titled(old(self)@, title@, content@),
            *final(self) == *final(r),
    {
        if !content.as_str().is_empty() {
            if !self.sections.is_empty() {
                let mut nl = String::new();
                push_char(&mut nl, '\n');
                let ghost before = self.sections@;
                self.sections.push(nl);
                proof {
                    assert(string_views(self.sections@) =~= string_views(before).push(nl@));
                }
            }
            let mut sec = String::from_str(title);
            push_str(&mut sec, ":\n");
            push_string(&mut sec, &content);
            let ghost before = self.sections@;
            self.sections.push(sec);
            proof {
                assert(string_views(self.sections@) =~= string_views(before).push(sec@));
            }
        }
        self
    }

    /// Adds the errors, one per line, under the title `Errors`; no errors
    /// adds nothing.
    pub fn add_errors(&mut self, errors: &[String]) -> (r: &mut Self)
        ensures
            (*r)@ == if errors@.len() == 0 {
                old(self)@
            } else {
                with_titled(old(self)@, "Errors"@, join(string_views(errors@), "\n"@))
            },
            *final(self) == *final(r),
    {
        if errors.len() > 0 {
            let joined = join_strings(errors, "\n");
            self.add_titled("Errors", joined);
        }
        self
    }

    /// The reply: all sections, one after another.
    pub fn build(self) -> (r: String)
        ensures
            r@ == built(self@),
    {
        proof {
            reveal_strlit("");
            assert(""@ =~= Seq::<char>::empty());
        }
        join_strings(&self.sections, "")
    }
}
} // verus!
