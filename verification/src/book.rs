//! Books.
use vstd::prelude::*;
use crate::authors::{authors_chars, authors_text};
use crate::chars::{chars_of, push_all, push_str, string_of};
use crate::compose::{
    after_colon,
    authors_lead,
    authors_lead_chars,
    escape_opt,
    escaped,
    has_organizer,
    lemma_stop_is_last,
    push_after_colon,
    record_has_organizer,
};
use crate::errors::FormatError;
use crate::location_publisher::{loc_pub_chars, loc_pub_text};
use crate::record::{opt_view, str_or_empty, text_of, value_of, Record};
use crate::strong::{strong_chars, strong_text};
use crate::tex::{escape, escape_chars};

verus! {

/// The fields of a book.
pub struct Book<'b> {
    pub title: &'b str,
    pub subtitle: Option<&'b str>,
    pub author: &'b str,
    /// The one named as author is the book's editor.
    pub editor: bool,
    pub year: &'b str,
    pub location: &'b str,
    pub publisher: &'b str,
}

/// What a book's fields hold.
pub struct BookView {
    pub title: Seq<char>,
    pub subtitle: Option<Seq<char>>,
    pub author: Seq<char>,
    pub editor: bool,
    pub year: Seq<char>,
    pub location: Seq<char>,
    pub publisher: Seq<char>,
}

impl<'b> View for Book<'b> {
    type V = BookView;

    open spec fn view(&self) -> BookView {
        BookView {
            title: self.title@,
            subtitle: opt_view(self.subtitle),
            author: self.author@,
            editor: self.editor,
            year: self.year@,
            location: self.location@,
            publisher: self.publisher@,
        }
    }
}

/// Who stands at the head of a book: its organizer where one is named, else
/// its author or its editor, whichever tag comes first, else nobody.
pub open spec fn book_author(tags: Seq<(Seq<char>, Seq<char>)>) -> Seq<char> {
    match value_of(tags, seq!["organizer"@]) {
        Some(o) => o,
        None => text_of(value_of(tags, seq!["author"@, "editor"@])),
    }
}

/// Whether the tags name an editor, under either name.
pub open spec fn names_editor(tags: Seq<(Seq<char>, Seq<char>)>) -> bool {
    value_of(tags, seq!["editor"@, "organizer"@]).is_some()
}

/// The tags name an editor and do not give that editor the role of
/// organizer.
pub open spec fn book_editor_invalid(tags: Seq<(Seq<char>, Seq<char>)>) -> bool {
    names_editor(tags) && !has_organizer(tags)
}

/// The fields of a book that the tags hold. Each field takes the first tag
/// that goes by one of its names.
pub open spec fn book_of(tags: Seq<(Seq<char>, Seq<char>)>) -> BookView {
    BookView {
        title: text_of(value_of(tags, seq!["title"@])),
        subtitle: value_of(tags, seq!["subtitle"@]),
        author: book_author(tags),
        editor: names_editor(tags),
        year: text_of(value_of(tags, seq!["year"@])),
        location: text_of(value_of(tags, seq!["location"@, "address"@])),
        publisher: text_of(value_of(tags, seq!["publisher"@])),
    }
}

impl BookView {
    /// How the reference begins: with the editor as organizer, or with the
    /// authors.
    pub open spec fn head(self) -> Seq<char> {
        if self.editor {
            authors_text(self.author) + " (Org.). "@
        } else {
            authors_lead(self.author) + ". "@
        }
    }

    /// The title with strong emphasis and the subtitle, where the book has a
    /// title.
    pub open spec fn title_part(self) -> Seq<char> {
        if self.title.len() > 0 {
            strong_text(escape(self.title)) + after_colon(escaped(self.subtitle)) + ". "@
        } else {
            Seq::empty()
        }
    }

    /// The reference as it is shown.
    pub open spec fn text(self) -> Seq<char> {
        self.head() + self.title_part() + loc_pub_text(self.location, self.publisher) + ", "@
            + self.year + "."@
    }
}

impl<'b> Book<'b> {
    /// The fields of a book that the record holds. A record that names an
    /// editor must give that editor the role of organizer.
    pub fn from_bib(b: &'b Record) -> (book: Result<Self, FormatError>)
        ensures
            match book {
                Ok(k) => !book_editor_invalid(b@.tags) && k@ == book_of(b@.tags),
                Err(e) => book_editor_invalid(b@.tags) && e == (FormatError::InvalidEditorRole {
                    citation_key: b.citation_key,
                }),
            },
    {
        let editor = b.field_of_two("editor", "organizer").is_some();
        if editor && !record_has_organizer(b) {
            return Err(FormatError::InvalidEditorRole { citation_key: b.citation_key.clone() });
        }
        let author = match b.field("organizer") {
            Some(o) => o,
            None => str_or_empty(b.field_of_two("author", "editor")),
        };
        Ok(
            Book {
                title: str_or_empty(b.field("title")),
                subtitle: b.field("subtitle"),
                author,
                editor,
                year: str_or_empty(b.field("year")),
                location: str_or_empty(b.field_of_two("location", "address")),
                publisher: str_or_empty(b.field("publisher")),
            },
        )
    }

    /// The reference as it is shown.
    pub fn chars(&self) -> (out: Vec<char>)
        ensures
            out@ == self@.text(),
    {
        let mut out: Vec<char>;
        if self.editor {
            out = authors_chars(self.author);
            push_str(&mut out, " (Org.). ");
        } else {
            out = authors_lead_chars(self.author);
            push_str(&mut out, ". ");
        }
        assert(out@ == self@.head());
        if self.title.unicode_len() > 0 {
            let mut part = strong_chars(&escape_chars(&chars_of(self.title)));
            push_after_colon(&mut part, escape_opt(self.subtitle));
            push_str(&mut part, ". ");
            push_all(&mut out, &part);
        } else {
            assert(out@ + Seq::<char>::empty() =~= out@);
        }
        assert(out@ == self@.head() + self@.title_part());
        push_all(&mut out, &loc_pub_chars(self.location, self.publisher));
        push_str(&mut out, ", ");
        push_str(&mut out, self.year);
        push_str(&mut out, ".");
        out
    }

    /// The reference as it is shown.
    pub fn to_string(&self) -> (out: String)
        ensures
            out@ == self@.text(),
    {
        string_of(&self.chars())
    }
}

/// The reference ends with a full stop.
pub proof fn lemma_book_ends_with_full_stop(v: BookView)
    ensures
        v.text().len() > 0,
        v.text().last() == '.',
{
    lemma_stop_is_last(
        v.head() + v.title_part() + loc_pub_text(v.location, v.publisher) + ", "@ + v.year,
    );
}

} // verus!
