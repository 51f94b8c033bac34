//! Collections: books that an organizer put together.
use vstd::prelude::*;
use crate::authors::{authors_chars, authors_text};
use crate::chars::{chars_of, push_all, push_str, string_of};
use crate::compose::{
    after_colon,
    escape_opt,
    escaped,
    has_organizer,
    lemma_stop_is_last,
    organizer_of,
    push_after_colon,
    record_has_organizer,
    record_organizer,
};
use crate::errors::FormatError;
use crate::location_publisher::{loc_pub_chars, loc_pub_text};
use crate::record::{opt_view, str_or_empty, text_of, value_of, Record};
use crate::strong::{strong_chars, strong_text};
use crate::tex::{escape, escape_chars};

verus! {

/// The fields of a collection.
pub struct Collection<'c> {
    pub editor: &'c str,
    pub title: &'c str,
    pub subtitle: Option<&'c str>,
    pub location: &'c str,
    pub publisher: &'c str,
    pub year: &'c str,
}

/// What a collection's fields hold.
pub struct CollectionView {
    pub editor: Seq<char>,
    pub title: Seq<char>,
    pub subtitle: Option<Seq<char>>,
    pub location: Seq<char>,
    pub publisher: Seq<char>,
    pub year: Seq<char>,
}

impl<'c> View for Collection<'c> {
    type V = CollectionView;

    open spec fn view(&self) -> CollectionView {
        CollectionView {
            editor: self.editor@,
            title: self.title@,
            subtitle: opt_view(self.subtitle),
            location: self.location@,
            publisher: self.publisher@,
            year: self.year@,
        }
    }
}

/// The fields of a collection that the tags hold. Each field takes the first
/// tag that goes by one of its names.
pub open spec fn collection_of(tags: Seq<(Seq<char>, Seq<char>)>) -> CollectionView {
    CollectionView {
        editor: organizer_of(tags),
        title: text_of(value_of(tags, seq!["title"@])),
        subtitle: value_of(tags, seq!["subtitle"@]),
        location: text_of(value_of(tags, seq!["location"@, "address"@])),
        publisher: text_of(value_of(tags, seq!["publisher"@])),
        year: text_of(value_of(tags, seq!["year"@])),
    }
}

impl CollectionView {
    /// The reference as it is shown.
    pub open spec fn text(self) -> Seq<char> {
        authors_text(self.editor) + " (Org.). "@ + strong_text(escape(self.title)) + after_colon(
            escaped(self.subtitle),
        ) + ". "@ + loc_pub_text(self.location, self.publisher) + ", "@ + self.year + "."@
    }
}

impl<'c> Collection<'c> {
    /// The fields of a collection that the record holds. The record must give
    /// its editor the role of organizer.
    pub fn from_bib(b: &'c Record) -> (collection: Result<Self, FormatError>)
        ensures
            match collection {
                Ok(c) => has_organizer(b@.tags) && c@ == collection_of(b@.tags),
                Err(e) => !has_organizer(b@.tags) && e == (FormatError::InvalidEditorRole {
                    citation_key: b.citation_key,
                }),
            },
    {
        if !record_has_organizer(b) {
            return Err(FormatError::InvalidEditorRole { citation_key: b.citation_key.clone() });
        }
        Ok(
            Collection {
                editor: record_organizer(b),
                title: str_or_empty(b.field("title")),
                subtitle: b.field("subtitle"),
                location: str_or_empty(b.field_of_two("location", "address")),
                publisher: str_or_empty(b.field("publisher")),
                year: str_or_empty(b.field("year")),
            },
        )
    }

    /// The reference as it is shown.
    pub fn chars(&self) -> (out: Vec<char>)
        ensures
            out@ == self@.text(),
    {
        let mut out = authors_chars(self.editor);
        push_str(&mut out, " (Org.). ");
        push_all(&mut out, &strong_chars(&escape_chars(&chars_of(self.title))));
        push_after_colon(&mut out, escape_opt(self.subtitle));
        push_str(&mut out, ". ");
        push_all(&mut out, &loc_pub_chars(self.location, self.publisher));
        push_str(&mut out, ", ");
        push_str(&mut out, self.year);
        push_str(&mut out, ".");
        out
    }

    /// The reference as it is shown.
    pub fn to_string(&self) -> (out: String)
        ensures
            out@ == self@.text(),
    {
        string_of(&self.chars())
    }
}

/// The reference ends with a full stop.
pub proof fn lemma_collection_ends_with_full_stop(v: CollectionView)
    ensures
        v.text().len() > 0,
        v.text().last() == '.',
{
    lemma_stop_is_last(
        authors_text(v.editor) + " (Org.). "@ + strong_text(escape(v.title)) + after_colon(
            escaped(v.subtitle),
        ) + ". "@ + loc_pub_text(v.location, v.publisher) + ", "@ + v.year,
    );
}

} // verus!
