//! Chapters of a collection.
use vstd::prelude::*;
use crate::authors::{authors_chars, authors_text};
use crate::chars::{chars_of, push_all, push_str, string_of};
use crate::compose::{
    after_colon,
    authors_lead,
    authors_lead_chars,
    chars_opt,
    has_organizer,
    lemma_stop_is_last,
    organizer_of,
    push_after_colon,
    record_has_organizer,
    record_organizer,
};
use crate::errors::FormatError;
use crate::location_publisher::{loc_pub_chars, loc_pub_text};
use crate::record::{opt_view, str_or_empty, text_of, value_of, Record};
use crate::strong::{strong_chars, strong_text};

verus! {

/// The fields of a chapter in a collection.
pub struct InCollection<'i> {
    pub author: &'i str,
    pub title: &'i str,
    pub subtitle: Option<&'i str>,
    pub booktitle: &'i str,
    pub booksubtitle: Option<&'i str>,
    pub editor: &'i str,
    pub location: &'i str,
    pub publisher: &'i str,
    pub year: &'i str,
}

/// What the fields of a chapter in a collection hold.
pub struct InCollectionView {
    pub author: Seq<char>,
    pub title: Seq<char>,
    pub subtitle: Option<Seq<char>>,
    pub booktitle: Seq<char>,
    pub booksubtitle: Option<Seq<char>>,
    pub editor: Seq<char>,
    pub location: Seq<char>,
    pub publisher: Seq<char>,
    pub year: Seq<char>,
}

impl<'i> View for InCollection<'i> {
    type V = InCollectionView;

    open spec fn view(&self) -> InCollectionView {
        InCollectionView {
            author: self.author@,
            title: self.title@,
            subtitle: opt_view(self.subtitle),
            booktitle: self.booktitle@,
            booksubtitle: opt_view(self.booksubtitle),
            editor: self.editor@,
            location: self.location@,
            publisher: self.publisher@,
            year: self.year@,
        }
    }
}

/// The fields of a chapter that the tags hold. Each field takes the first tag
/// that goes by one of its names.
pub open spec fn incollection_of(tags: Seq<(Seq<char>, Seq<char>)>) -> InCollectionView {
    InCollectionView {
        author: text_of(value_of(tags, seq!["author"@])),
        title: text_of(value_of(tags, seq!["title"@])),
        subtitle: value_of(tags, seq!["subtitle"@]),
        booktitle: text_of(value_of(tags, seq!["booktitle"@])),
        booksubtitle: value_of(tags, seq!["booksubtitle"@]),
        editor: organizer_of(tags),
        location: text_of(value_of(tags, seq!["location"@, "address"@])),
        publisher: text_of(value_of(tags, seq!["publisher"@])),
        year: text_of(value_of(tags, seq!["year"@])),
    }
}

impl InCollectionView {
    /// The reference as it is shown.
    pub open spec fn text(self) -> Seq<char> {
        authors_lead(self.author) + ". "@ + self.title + after_colon(self.subtitle) + ". In: "@
            + authors_text(self.editor) + " (Org.). "@ + strong_text(self.booktitle)
            + after_colon(self.booksubtitle) + ". "@ + loc_pub_text(self.location, self.publisher)
            + ", "@ + self.year + "."@
    }
}

impl<'i> InCollection<'i> {
    /// The fields of a chapter that the record holds. The record must give the
    /// collection's editor the role of organizer.
    pub fn from_bib(b: &'i Record) -> (chapter: Result<Self, FormatError>)
        ensures
            match chapter {
                Ok(c) => has_organizer(b@.tags) && c@ == incollection_of(b@.tags),
                Err(e) => !has_organizer(b@.tags) && e == (FormatError::InvalidEditorRole {
                    citation_key: b.citation_key,
                }),
            },
    {
        if !record_has_organizer(b) {
            return Err(FormatError::InvalidEditorRole { citation_key: b.citation_key.clone() });
        }
        Ok(
            InCollection {
                author: str_or_empty(b.field("author")),
                title: str_or_empty(b.field("title")),
                subtitle: b.field("subtitle"),
                booktitle: str_or_empty(b.field("booktitle")),
                booksubtitle: b.field("booksubtitle"),
                editor: record_organizer(b),
                location: str_or_empty(b.field_of_two("location", "address")),
                publisher: str_or_empty(b.field("publisher")),
                year: str_or_empty(b.field("year")),
            },
        )
    }

    /// The reference as it is shown.
    pub fn chars(&self) -> (out: Vec<char>)
        ensures
            out@ == self@.text(),
    {
        let mut out = authors_lead_chars(self.author);
        push_str(&mut out, ". ");
        push_str(&mut out, self.title);
        push_after_colon(&mut out, chars_opt(self.subtitle));
        push_str(&mut out, ". In: ");
        push_all(&mut out, &authors_chars(self.editor));
        push_str(&mut out, " (Org.). ");
        push_all(&mut out, &strong_chars(&chars_of(self.booktitle)));
        push_after_colon(&mut out, chars_opt(self.booksubtitle));
        push_str(&mut out, ". ");
        push_all(&mut out, &loc_pub_chars(self.location, self.publisher));
        push_str(&mut out, ", ");
        push_str(&mut out, self.year);
        push_str(&mut out, ".");
        out
    }

    /// The reference as it is shown.
    pub fn to_string(&self) -> (out: String)
        ensures
            out@ == self@.text(),
    {
        string_of(&self.chars())
    }
}

/// The reference ends with a full stop.
pub proof fn lemma_incollection_ends_with_full_stop(v: InCollectionView)
    ensures
        v.text().len() > 0,
        v.text().last() == '.',
{
    lemma_stop_is_last(
        authors_lead(v.author) + ". "@ + v.title + after_colon(v.subtitle) + ". In: "@
            + authors_text(v.editor) + " (Org.). "@ + strong_text(v.booktitle) + after_colon(
            v.booksubtitle,
        ) + ". "@ + loc_pub_text(v.location, v.publisher) + ", "@ + v.year,
    );
}

} // verus!
