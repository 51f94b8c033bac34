//! Chapters of a book.
use vstd::prelude::*;
use crate::article::{after_lead, lead_word};
use crate::authors::{authors_chars, authors_text};
use crate::chars::{chars_of, push_all, push_str, string_of};
use crate::compose::{
    after_colon,
    authors_lead,
    authors_lead_chars,
    chars_opt,
    lemma_stop_is_last,
    push_after_colon,
};
use crate::location_publisher::{loc_pub_chars, loc_pub_text};
use crate::record::{opt_view, text_of, trim_opt, trim_or_empty, trimmed, value_of, Record};
use crate::strong::{strong_chars, strong_text};
use crate::tex::find_free;
use crate::uppercase::{upper, uppercase_chars};
use crate::words::slice_of;

verus! {

/// The fields of a chapter in a book.
pub struct InBook<'i> {
    pub title: &'i str,
    pub subtitle: Option<&'i str>,
    pub author: &'i str,
    pub year: &'i str,
    pub publisher: &'i str,
    pub location: &'i str,
    pub bookauthor: &'i str,
    pub booktitle: &'i str,
    pub booksubtitle: Option<&'i str>,
    pub editor: Option<&'i str>,
}

/// What the fields of a chapter in a book hold.
pub struct InBookView {
    pub title: Seq<char>,
    pub subtitle: Option<Seq<char>>,
    pub author: Seq<char>,
    pub year: Seq<char>,
    pub publisher: Seq<char>,
    pub location: Seq<char>,
    pub bookauthor: Seq<char>,
    pub booktitle: Seq<char>,
    pub booksubtitle: Option<Seq<char>>,
    pub editor: Option<Seq<char>>,
}

impl<'i> View for InBook<'i> {
    type V = InBookView;

    open spec fn view(&self) -> InBookView {
        InBookView {
            title: self.title@,
            subtitle: opt_view(self.subtitle),
            author: self.author@,
            year: self.year@,
            publisher: self.publisher@,
            location: self.location@,
            bookauthor: self.bookauthor@,
            booktitle: self.booktitle@,
            booksubtitle: opt_view(self.booksubtitle),
            editor: opt_view(self.editor),
        }
    }
}

/// The fields of a chapter that the tags hold, all trimmed. Each field takes
/// the first tag that goes by one of its names.
pub open spec fn inbook_of(tags: Seq<(Seq<char>, Seq<char>)>) -> InBookView {
    InBookView {
        title: text_of(trimmed(value_of(tags, seq!["title"@]))),
        subtitle: trimmed(value_of(tags, seq!["subtitle"@])),
        author: text_of(trimmed(value_of(tags, seq!["author"@]))),
        year: text_of(trimmed(value_of(tags, seq!["year"@]))),
        publisher: text_of(trimmed(value_of(tags, seq!["publisher"@]))),
        location: text_of(trimmed(value_of(tags, seq!["location"@, "address"@]))),
        bookauthor: text_of(trimmed(value_of(tags, seq!["bookauthor"@]))),
        booktitle: text_of(trimmed(value_of(tags, seq!["booktitle"@]))),
        booksubtitle: trimmed(value_of(tags, seq!["booksubtitle"@])),
        editor: trimmed(value_of(tags, seq!["editor"@])),
    }
}

impl InBookView {
    /// Who stands before the book: its authors, or without them its editor as
    /// organizer, or nobody.
    pub open spec fn book_lead(self) -> Seq<char> {
        if authors_lead(self.bookauthor).len() > 0 {
            authors_lead(self.bookauthor)
        } else {
            match self.editor {
                Some(e) => if e.len() > 0 {
                    authors_text(e) + " (Org.)"@
                } else {
                    Seq::empty()
                },
                None => Seq::empty(),
            }
        }
    }

    /// The book in which the chapter stands. Where nobody stands before it,
    /// the first word of its title is written in upper case.
    pub open spec fn container(self) -> Seq<char> {
        if self.book_lead().len() == 0 {
            ". In: "@ + upper(lead_word(self.booktitle)) + " "@ + text_of(
                after_lead(self.booktitle),
            ) + "."@
        } else {
            ". In: "@ + self.book_lead() + ". "@ + strong_text(self.booktitle)
        }
    }

    /// The reference as it is shown.
    pub open spec fn text(self) -> Seq<char> {
        authors_lead(self.author) + ". "@ + self.title + after_colon(self.subtitle)
            + self.container() + after_colon(self.booksubtitle) + ". "@ + loc_pub_text(
            self.location,
            self.publisher,
        ) + ", "@ + self.year + "."@
    }
}

impl<'i> InBook<'i> {
    /// The fields of a chapter that the record holds, all trimmed.
    pub fn from_bib(b: &'i Record) -> (chapter: Self)
        ensures
            chapter@ == inbook_of(b@.tags),
    {
        InBook {
            title: trim_or_empty(b.field("title")),
            subtitle: trim_opt(b.field("subtitle")),
            author: trim_or_empty(b.field("author")),
            year: trim_or_empty(b.field("year")),
            publisher: trim_or_empty(b.field("publisher")),
            location: trim_or_empty(b.field_of_two("location", "address")),
            bookauthor: trim_or_empty(b.field("bookauthor")),
            booktitle: trim_or_empty(b.field("booktitle")),
            booksubtitle: trim_opt(b.field("booksubtitle")),
            editor: trim_opt(b.field("editor")),
        }
    }

    /// Who stands before the book.
    fn book_lead_chars(&self) -> (out: Vec<char>)
        ensures
            out@ == self@.book_lead(),
    {
        let lead = authors_lead_chars(self.bookauthor);
        if lead.len() > 0 {
            return lead;
        }
        match self.editor {
            Some(e) => {
                if e.unicode_len() > 0 {
                    let mut out = authors_chars(e);
                    push_str(&mut out, " (Org.)");
                    out
                } else {
                    Vec::new()
                }
            },
            None => Vec::new(),
        }
    }

    /// The book in which the chapter stands.
    fn container_chars(&self) -> (out: Vec<char>)
        ensures
            out@ == self@.container(),
    {
        let lead = self.book_lead_chars();
        let mut out: Vec<char> = Vec::new();
        assert(out@ =~= Seq::<char>::empty());
        push_str(&mut out, ". In: ");
        if lead.len() == 0 {
            let title = chars_of(self.booktitle);
            let n = title.len();
            match find_free(&title, ' ') {
                Some(i) => {
                    let start = slice_of(&title, 0, i);
                    let end = slice_of(&title, i + 1, n);
                    assert(start@ =~= title@.take(i as int));
                    assert(end@ =~= title@.skip(i + 1));
                    push_all(&mut out, &uppercase_chars(&start));
                    push_str(&mut out, " ");
                    push_all(&mut out, &end);
                },
                None => {
                    push_all(&mut out, &uppercase_chars(&title));
                    push_str(&mut out, " ");
                    assert(out@ + Seq::<char>::empty() =~= out@);
                },
            }
            push_str(&mut out, ".");
            assert(out@ =~= self@.container());
        } else {
            push_all(&mut out, &lead);
            push_str(&mut out, ". ");
            push_all(&mut out, &strong_chars(&chars_of(self.booktitle)));
            assert(out@ =~= self@.container());
        }
        out
    }

    /// The reference as it is shown.
    pub fn chars(&self) -> (out: Vec<char>)
        ensures
            out@ == self@.text(),
    {
        let mut out = authors_lead_chars(self.author);
        push_str(&mut out, ". ");
        push_str(&mut out, self.title);
        push_after_colon(&mut out, chars_opt(self.subtitle));
        push_all(&mut out, &self.container_chars());
        push_after_colon(&mut out, chars_opt(self.booksubtitle));
        push_str(&mut out, ". ");
        push_all(&mut out, &loc_pub_chars(self.location, self.publisher));
        push_str(&mut out, ", ");
        push_str(&mut out, self.year);
        push_str(&mut out, ".");
        out
    }

    /// The reference as it is shown.
    pub fn to_string(&self) -> (out: String)
        ensures
            out@ == self@.text(),
    {
        string_of(&self.chars())
    }
}

/// The reference ends with a full stop.
pub proof fn lemma_inbook_ends_with_full_stop(v: InBookView)
    ensures
        v.text().len() > 0,
        v.text().last() == '.',
{
    lemma_stop_is_last(
        authors_lead(v.author) + ". "@ + v.title + after_colon(v.subtitle) + v.container()
            + after_colon(v.booksubtitle) + ". "@ + loc_pub_text(v.location, v.publisher) + ", "@
            + v.year,
    );
}

} // verus!
