//! Theses and dissertations.
use vstd::prelude::*;
use crate::chars::{chars_of, push_all, push_str, string_of};
use crate::compose::{
    after_colon,
    authors_lead,
    authors_lead_chars,
    escape_opt,
    escaped,
    lemma_stop_is_last,
    push_after_colon,
};
use crate::record::{opt_view, str_or_empty, text_of, value_of, Record};
use crate::strong::{strong_chars, strong_text};
use crate::tex::{escape, escape_chars};

verus! {

/// The fields of a thesis.
pub struct Thesis<'t> {
    pub author: &'t str,
    pub title: &'t str,
    pub subtitle: Option<&'t str>,
    pub thesis_type: &'t str,
    pub institution: &'t str,
    pub location: Option<&'t str>,
    pub year: &'t str,
}

/// The place after a comma, or nothing where the place is absent.
pub open spec fn after_comma(item: Option<Seq<char>>) -> Seq<char> {
    match item {
        Some(v) => ", "@ + v,
        None => Seq::empty(),
    }
}

/// What a thesis's fields hold.
pub struct ThesisView {
    pub author: Seq<char>,
    pub title: Seq<char>,
    pub subtitle: Option<Seq<char>>,
    pub thesis_type: Seq<char>,
    pub institution: Seq<char>,
    pub location: Option<Seq<char>>,
    pub year: Seq<char>,
}

impl<'t> View for Thesis<'t> {
    type V = ThesisView;

    open spec fn view(&self) -> ThesisView {
        ThesisView {
            author: self.author@,
            title: self.title@,
            subtitle: opt_view(self.subtitle),
            thesis_type: self.thesis_type@,
            institution: self.institution@,
            location: opt_view(self.location),
            year: self.year@,
        }
    }
}

/// The fields of a thesis that the tags hold. Each field takes the first tag
/// that goes by one of its names.
pub open spec fn thesis_of(tags: Seq<(Seq<char>, Seq<char>)>) -> ThesisView {
    ThesisView {
        author: text_of(value_of(tags, seq!["author"@])),
        title: text_of(value_of(tags, seq!["title"@])),
        subtitle: value_of(tags, seq!["subtitle"@]),
        thesis_type: text_of(value_of(tags, seq!["type"@])),
        institution: text_of(value_of(tags, seq!["institution"@])),
        location: value_of(tags, seq!["location"@, "address"@]),
        year: text_of(value_of(tags, seq!["year"@])),
    }
}

impl ThesisView {
    /// The reference as it is shown.
    pub open spec fn text(self) -> Seq<char> {
        authors_lead(self.author) + ". "@ + strong_text(escape(self.title)) + after_colon(
            escaped(self.subtitle),
        ) + ". "@ + self.year + ". "@ + escape(self.thesis_type) + " – "@ + escape(
            self.institution,
        ) + after_comma(self.location) + "."@
    }
}

impl<'t> Thesis<'t> {
    /// The fields of a thesis that the record holds.
    pub fn from_bib(b: &'t Record) -> (thesis: Self)
        ensures
            thesis@ == thesis_of(b@.tags),
    {
        Thesis {
            author: str_or_empty(b.field("author")),
            title: str_or_empty(b.field("title")),
            subtitle: b.field("subtitle"),
            thesis_type: str_or_empty(b.field("type")),
            institution: str_or_empty(b.field("institution")),
            location: b.field_of_two("location", "address"),
            year: str_or_empty(b.field("year")),
        }
    }

    /// The reference as it is shown.
    pub fn chars(&self) -> (out: Vec<char>)
        ensures
            out@ == self@.text(),
    {
        let mut out = authors_lead_chars(self.author);
        push_str(&mut out, ". ");
        push_all(&mut out, &strong_chars(&escape_chars(&chars_of(self.title))));
        push_after_colon(&mut out, escape_opt(self.subtitle));
        push_str(&mut out, ". ");
        push_str(&mut out, self.year);
        push_str(&mut out, ". ");
        push_all(&mut out, &escape_chars(&chars_of(self.thesis_type)));
        push_str(&mut out, " – ");
        push_all(&mut out, &escape_chars(&chars_of(self.institution)));
        let ghost before = out@;
        if let Some(location) = self.location {
            push_str(&mut out, ", ");
            push_str(&mut out, location);
            assert(out@ =~= before + (", "@ + location@));
        } else {
            assert(out@ =~= before + Seq::<char>::empty());
        }
        push_str(&mut out, ".");
        out
    }

    /// The reference as it is shown.
    pub fn to_string(&self) -> (out: String)
        ensures
            out@ == self@.text(),
    {
        string_of(&self.chars())
    }
}

/// The reference ends with a full stop.
pub proof fn lemma_thesis_ends_with_full_stop(v: ThesisView)
    ensures
        v.text().len() > 0,
        v.text().last() == '.',
{
    lemma_stop_is_last(
        authors_lead(v.author) + ". "@ + strong_text(escape(v.title)) + after_colon(
            escaped(v.subtitle),
        ) + ". "@ + v.year + ". "@ + escape(v.thesis_type) + " – "@ + escape(v.institution)
            + after_comma(v.location),
    );
}

} // verus!
