//! Papers in the proceedings of an event.
use vstd::prelude::*;
use crate::chars::{chars_of, push_all, push_str, string_of, views};
use crate::compose::{
    after_colon,
    authors_lead,
    authors_lead_chars,
    escape_opt,
    escaped,
    lemma_stop_is_last,
    optional,
    push_after_colon,
    push_optional,
};
use crate::join::{join, join_chars};
use crate::record::{opt_view, str_or_empty, text_of, value_of, Record};
use crate::tex::{escape, escape_chars};
use crate::uppercase::{upper, uppercase_chars};

verus! {

/// The fields of a paper in proceedings.
pub struct InProceedings<'i> {
    pub author: &'i str,
    pub title: &'i str,
    pub subtitle: Option<&'i str>,
    pub eventtitle: &'i str,
    pub number: Option<&'i str>,
    pub location: &'i str,
    pub year: &'i str,
}

/// What the fields of a paper in proceedings hold.
pub struct InProceedingsView {
    pub author: Seq<char>,
    pub title: Seq<char>,
    pub subtitle: Option<Seq<char>>,
    pub eventtitle: Seq<char>,
    pub number: Option<Seq<char>>,
    pub location: Seq<char>,
    pub year: Seq<char>,
}

impl<'i> View for InProceedings<'i> {
    type V = InProceedingsView;

    open spec fn view(&self) -> InProceedingsView {
        InProceedingsView {
            author: self.author@,
            title: self.title@,
            subtitle: opt_view(self.subtitle),
            eventtitle: self.eventtitle@,
            number: opt_view(self.number),
            location: self.location@,
            year: self.year@,
        }
    }
}

/// The fields of a paper that the tags hold. Each field takes the first tag
/// that goes by one of its names.
pub open spec fn inproceedings_of(tags: Seq<(Seq<char>, Seq<char>)>) -> InProceedingsView {
    InProceedingsView {
        author: text_of(value_of(tags, seq!["author"@])),
        title: text_of(value_of(tags, seq!["title"@])),
        subtitle: value_of(tags, seq!["subtitle"@]),
        eventtitle: text_of(value_of(tags, seq!["eventtitle"@])),
        number: value_of(tags, seq!["number"@]),
        location: text_of(value_of(tags, seq!["location"@, "address"@, "venue"@])),
        year: text_of(value_of(tags, seq!["year"@, "eventyear"@])),
    }
}

impl InProceedingsView {
    /// What follows the event's title: its number where it has one, its year
    /// and its place.
    pub open spec fn parts(self) -> Seq<Seq<char>> {
        optional(escaped(self.number)) + seq![escape(self.year), escape(self.location)]
    }

    /// The reference as it is shown.
    pub open spec fn text(self) -> Seq<char> {
        authors_lead(self.author) + ". "@ + escape(self.title) + after_colon(
            escaped(self.subtitle),
        ) + ". In: "@ + upper(self.eventtitle) + ", "@ + join(", "@, self.parts()) + "."@
    }
}

impl<'i> InProceedings<'i> {
    /// The fields of a paper that the record holds.
    pub fn from_bib(b: &'i Record) -> (paper: Self)
        ensures
            paper@ == inproceedings_of(b@.tags),
    {
        InProceedings {
            author: str_or_empty(b.field("author")),
            title: str_or_empty(b.field("title")),
            subtitle: b.field("subtitle"),
            eventtitle: str_or_empty(b.field("eventtitle")),
            number: b.field("number"),
            location: str_or_empty(b.field_of_three("location", "address", "venue")),
            year: str_or_empty(b.field_of_two("year", "eventyear")),
        }
    }

    /// The reference as it is shown.
    pub fn chars(&self) -> (out: Vec<char>)
        ensures
            out@ == self@.text(),
    {
        let mut parts: Vec<Vec<char>> = Vec::new();
        assert(views(parts@) =~= Seq::<Seq<char>>::empty());
        push_optional(&mut parts, escape_opt(self.number));
        parts.push(escape_chars(&chars_of(self.year)));
        parts.push(escape_chars(&chars_of(self.location)));
        assert(views(parts@) =~= self@.parts());
        let mut out = authors_lead_chars(self.author);
        push_str(&mut out, ". ");
        push_all(&mut out, &escape_chars(&chars_of(self.title)));
        push_after_colon(&mut out, escape_opt(self.subtitle));
        push_str(&mut out, ". In: ");
        push_all(&mut out, &uppercase_chars(&chars_of(self.eventtitle)));
        push_str(&mut out, ", ");
        let sep = chars_of(", ");
        push_all(&mut out, &join_chars(&sep, &parts));
        push_str(&mut out, ".");
        out
    }

    /// The reference as it is shown.
    pub fn to_string(&self) -> (out: String)
        ensures
            out@ == self@.text(),
    {
        string_of(&self.chars())
    }
}

/// The reference ends with a full stop.
pub proof fn lemma_inproceedings_ends_with_full_stop(v: InProceedingsView)
    ensures
        v.text().len() > 0,
        v.text().last() == '.',
{
    lemma_stop_is_last(
        authors_lead(v.author) + ". "@ + escape(v.title) + after_colon(escaped(v.subtitle))
            + ". In: "@ + upper(v.eventtitle) + ", "@ + join(", "@, v.parts()),
    );
}

} // verus!
