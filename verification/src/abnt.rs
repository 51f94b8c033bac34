//! A record shown by the rules of ABNT, and the place of a record in a list
//! of references.
use std::cmp::Ordering;
use vstd::prelude::*;
use crate::article::{article_of, Article};
use crate::authors::{authors_chars, authors_text};
use crate::book::{book_editor_invalid, book_of, Book};
use crate::chars::{chars_of, push_all, string_of};
use crate::collection::{collection_of, Collection};
use crate::compose::has_organizer;
use crate::errors::FormatError;
use crate::extra::{extra_of, ExtraInfo};
use crate::inbook::{inbook_of, InBook};
use crate::incollection::{incollection_of, InCollection};
use crate::inproceedings::{inproceedings_of, InProceedings};
use crate::order::{
    chars_less,
    lemma_opt_asymmetric,
    lemma_opt_irreflexive,
    lemma_opt_total,
    lemma_opt_transitive,
    opt_less,
};
use crate::record::{trimmed, value_of, Record};
use crate::thesis::{thesis_of, Thesis};
use crate::words::{str_eq, trim, trim_chars};

verus! {

/// A record, to be shown by the rules of ABNT.
#[derive(Clone, Copy)]
pub struct Abnt<'b>(pub &'b Record);

/// The kinds of entries that have a rule.
#[derive(Clone, Copy, Debug, PartialEq, Eq, Structural)]
pub enum EntryKind {
    Article,
    Book,
    Thesis,
    InBook,
    InCollection,
    InProceedings,
    Collection,
}

/// The kind of the entries of type `entry_type`. Pages on the web, films and
/// miscellanea are shown like articles.
pub open spec fn kind_of(entry_type: Seq<char>) -> Option<EntryKind> {
    if entry_type == "article"@ || entry_type == "online"@ || entry_type == "movie"@
        || entry_type == "misc"@ {
        Some(EntryKind::Article)
    } else if entry_type == "book"@ {
        Some(EntryKind::Book)
    } else if entry_type == "thesis"@ {
        Some(EntryKind::Thesis)
    } else if entry_type == "inbook"@ {
        Some(EntryKind::InBook)
    } else if entry_type == "incollection"@ {
        Some(EntryKind::InCollection)
    } else if entry_type == "inproceedings"@ {
        Some(EntryKind::InProceedings)
    } else if entry_type == "collection"@ {
        Some(EntryKind::Collection)
    } else {
        None
    }
}

/// An entry of this kind with these tags cannot be shown: it needs an
/// organizer and has none.
pub open spec fn editor_invalid(kind: EntryKind, tags: Seq<(Seq<char>, Seq<char>)>) -> bool {
    match kind {
        EntryKind::Book => book_editor_invalid(tags),
        EntryKind::InCollection => !has_organizer(tags),
        EntryKind::Collection => !has_organizer(tags),
        _ => false,
    }
}

/// The reference of an entry of this kind with these tags, before its closing
/// elements.
pub open spec fn body_of(kind: EntryKind, tags: Seq<(Seq<char>, Seq<char>)>) -> Seq<char> {
    match kind {
        EntryKind::Article => article_of(tags).text(),
        EntryKind::Book => book_of(tags).text(),
        EntryKind::Thesis => thesis_of(tags).text(),
        EntryKind::InBook => inbook_of(tags).text(),
        EntryKind::InCollection => incollection_of(tags).text(),
        EntryKind::InProceedings => inproceedings_of(tags).text(),
        EntryKind::Collection => collection_of(tags).text(),
    }
}

/// The reference of a record: its body by the rule of its kind, and then its
/// closing elements. A record of a type without a rule has none, nor has one
/// that needs an organizer and names none.
pub open spec fn reference_of(b: &Record) -> Result<Seq<char>, FormatError> {
    match kind_of(b.entry_type@) {
        None => Err(FormatError::UnrecognizedEntryType { entry_type: b.entry_type }),
        Some(kind) => if editor_invalid(kind, b@.tags) {
            Err(FormatError::InvalidEditorRole { citation_key: b.citation_key })
        } else {
            Ok(body_of(kind, b@.tags) + extra_of(b@.tags).text())
        },
    }
}

/// The kind of the entries of type `entry_type`.
pub fn entry_kind(entry_type: &str) -> (kind: Option<EntryKind>)
    ensures
        kind == kind_of(entry_type@),
{
    if str_eq(entry_type, "article") || str_eq(entry_type, "online") || str_eq(
        entry_type,
        "movie",
    ) || str_eq(entry_type, "misc") {
        Some(EntryKind::Article)
    } else if str_eq(entry_type, "book") {
        Some(EntryKind::Book)
    } else if str_eq(entry_type, "thesis") {
        Some(EntryKind::Thesis)
    } else if str_eq(entry_type, "inbook") {
        Some(EntryKind::InBook)
    } else if str_eq(entry_type, "incollection") {
        Some(EntryKind::InCollection)
    } else if str_eq(entry_type, "inproceedings") {
        Some(EntryKind::InProceedings)
    } else if str_eq(entry_type, "collection") {
        Some(EntryKind::Collection)
    } else {
        None
    }
}

/// The reference of the record `b`, of kind `kind`, before its closing
/// elements.
fn body_chars(kind: EntryKind, b: &Record) -> (body: Result<Vec<char>, FormatError>)
    ensures
        match body {
            Ok(v) => !editor_invalid(kind, b@.tags) && v@ == body_of(kind, b@.tags),
            Err(e) => editor_invalid(kind, b@.tags) && e == (FormatError::InvalidEditorRole {
                citation_key: b.citation_key,
            }),
        },
{
    match kind {
        EntryKind::Article => Ok(Article::from_bib(b).chars()),
        EntryKind::Book => match Book::from_bib(b) {
            Ok(book) => Ok(book.chars()),
            Err(e) => Err(e),
        },
        EntryKind::Thesis => Ok(Thesis::from_bib(b).chars()),
        EntryKind::InBook => Ok(InBook::from_bib(b).chars()),
        EntryKind::InCollection => match InCollection::from_bib(b) {
            Ok(chapter) => Ok(chapter.chars()),
            Err(e) => Err(e),
        },
        EntryKind::InProceedings => Ok(InProceedings::from_bib(b).chars()),
        EntryKind::Collection => match Collection::from_bib(b) {
            Ok(collection) => Ok(collection.chars()),
            Err(e) => Err(e),
        },
    }
}

/// The text by which a record is put in order, and its year.
pub struct SortKey {
    pub key: Option<String>,
    pub year: Option<String>,
}

/// What a sort key holds.
pub struct SortKeyView {
    pub key: Option<Seq<char>>,
    pub year: Option<Seq<char>>,
}

impl View for SortKey {
    type V = SortKeyView;

    open spec fn view(&self) -> SortKeyView {
        SortKeyView {
            key: match self.key {
                Some(k) => Some(k@),
                None => None,
            },
            year: match self.year {
                Some(y) => Some(y@),
                None => None,
            },
        }
    }
}

/// The text by which the tags put a record in order: its sorting title,
/// trimmed; without one its authors as they are shown; without authors its
/// editors as they are shown; without them its title, trimmed.
pub open spec fn sort_text_of(tags: Seq<(Seq<char>, Seq<char>)>) -> Option<Seq<char>> {
    match value_of(tags, seq!["sorttitle"@]) {
        Some(s) => Some(trim(s)),
        None => match value_of(tags, seq!["author"@]) {
            Some(a) => Some(authors_text(a)),
            None => match value_of(tags, seq!["editor"@]) {
                Some(e) => Some(authors_text(e)),
                None => trimmed(value_of(tags, seq!["title"@])),
            },
        },
    }
}

/// The sort key of a record with these tags.
pub open spec fn sort_key_of(tags: Seq<(Seq<char>, Seq<char>)>) -> SortKeyView {
    SortKeyView { key: sort_text_of(tags), year: trimmed(value_of(tags, seq!["year"@])) }
}

/// The first of two keys stands before the second: by its text, and where the
/// texts are the same by its year. An absent text or year stands before every
/// one that is present.
pub open spec fn key_less(a: SortKeyView, b: SortKeyView) -> bool {
    opt_less(a.key, b.key) || (a.key == b.key && opt_less(a.year, b.year))
}

/// How the first of two keys stands to the second.
pub open spec fn key_order(a: SortKeyView, b: SortKeyView) -> Ordering {
    if key_less(a, b) {
        Ordering::Less
    } else if a == b {
        Ordering::Equal
    } else {
        Ordering::Greater
    }
}

/// Whether the first of two optional texts stands before the second.
fn opt_string_less(a: &Option<String>, b: &Option<String>) -> (less: bool)
    ensures
        less == opt_less(
            match a {
                Some(x) => Some(x@),
                None => None,
            },
            match b {
                Some(y) => Some(y@),
                None => None,
            },
        ),
{
    match (a, b) {
        (None, None) => false,
        (None, Some(_)) => true,
        (Some(_), None) => false,
        (Some(x), Some(y)) => chars_less(&chars_of(x.as_str()), &chars_of(y.as_str())),
    }
}

/// Whether two optional texts are the same.
fn opt_string_eq(a: &Option<String>, b: &Option<String>) -> (same: bool)
    ensures
        same == (match a {
            Some(x) => Some(x@),
            None => None::<Seq<char>>,
        } == match b {
            Some(y) => Some(y@),
            None => None::<Seq<char>>,
        }),
{
    match (a, b) {
        (None, None) => true,
        (Some(x), Some(y)) => str_eq(x.as_str(), y.as_str()),
        _ => false,
    }
}

impl SortKey {
    /// Whether this key stands before `other`.
    pub fn less(&self, other: &SortKey) -> (less: bool)
        ensures
            less == key_less(self@, other@),
    {
        if opt_string_less(&self.key, &other.key) {
            true
        } else if opt_string_eq(&self.key, &other.key) {
            opt_string_less(&self.year, &other.year)
        } else {
            false
        }
    }

    /// Whether this key is the same as `other`.
    pub fn same(&self, other: &SortKey) -> (same: bool)
        ensures
            same == (self@ == other@),
    {
        opt_string_eq(&self.key, &other.key) && opt_string_eq(&self.year, &other.year)
    }
}

impl<'b> Abnt<'b> {
    /// The record's reference, or why it has none.
    pub fn to_string(&self) -> (out: Result<String, FormatError>)
        ensures
            match (out, reference_of(self.0)) {
                (Ok(s), Ok(text)) => s@ == text,
                (Err(e), Err(why)) => e == why,
                _ => false,
            },
    {
        let kind = match entry_kind(self.0.entry_type.as_str()) {
            Some(kind) => kind,
            None => {
                return Err(
                    FormatError::UnrecognizedEntryType { entry_type: self.0.entry_type.clone() },
                );
            },
        };
        match body_chars(kind, self.0) {
            Ok(body) => {
                let mut out = body;
                push_all(&mut out, &ExtraInfo::from_bib(self.0).chars());
                Ok(string_of(&out))
            },
            Err(e) => Err(e),
        }
    }

    /// The key by which the record is put in order.
    pub fn sort_key(&self) -> (key: SortKey)
        ensures
            key@ == sort_key_of(self.0@.tags),
    {
        let text = match self.0.field("sorttitle") {
            Some(s) => Some(string_of(&trim_chars(&chars_of(s)))),
            None => match self.0.field("author") {
                Some(a) => Some(string_of(&authors_chars(a))),
                None => match self.0.field("editor") {
                    Some(e) => Some(string_of(&authors_chars(e))),
                    None => match self.0.field("title") {
                        Some(t) => Some(string_of(&trim_chars(&chars_of(t)))),
                        None => None,
                    },
                },
            },
        };
        let year = match self.0.field("year") {
            Some(y) => Some(string_of(&trim_chars(&chars_of(y)))),
            None => None,
        };
        SortKey { key: text, year }
    }

    /// How this record stands to `other` in a list of references.
    pub fn cmp(&self, other: &Self) -> (order: Ordering)
        ensures
            order == key_order(sort_key_of(self.0@.tags), sort_key_of(other.0@.tags)),
    {
        let mine = self.sort_key();
        let theirs = other.sort_key();
        if mine.less(&theirs) {
            Ordering::Less
        } else if mine.same(&theirs) {
            Ordering::Equal
        } else {
            Ordering::Greater
        }
    }

    /// How this record stands to `other` in a list of references. Every two
    /// records can be compared.
    pub fn partial_cmp(&self, other: &Self) -> (order: Option<Ordering>)
        ensures
            order == Some(key_order(sort_key_of(self.0@.tags), sort_key_of(other.0@.tags))),
    {
        Some(self.cmp(other))
    }
}

/// Two records with the same sort text are put in order by their years: the
/// one with the earlier year first, and one without a year before every one
/// with a year.
pub proof fn lemma_same_text_orders_by_year(a: SortKeyView, b: SortKeyView)
    requires
        a.key == b.key,
    ensures
        key_less(a, b) == opt_less(a.year, b.year),
        key_order(a, b) == Ordering::Equal <==> a.year == b.year,
        key_order(a, b) == Ordering::Less <==> opt_less(a.year, b.year),
{
    lemma_opt_irreflexive(a.key);
    lemma_opt_irreflexive(a.year);
}

/// No key stands before itself.
pub proof fn lemma_key_irreflexive(a: SortKeyView)
    ensures
        !key_less(a, a),
{
    lemma_opt_irreflexive(a.key);
    lemma_opt_irreflexive(a.year);
}

/// Of two keys that differ, one stands before the other, and never both.
pub proof fn lemma_key_total(a: SortKeyView, b: SortKeyView)
    ensures
        a == b || key_less(a, b) || key_less(b, a),
        !(key_less(a, b) && key_less(b, a)),
{
    lemma_opt_total(a.key, b.key);
    lemma_opt_total(a.year, b.year);
    lemma_opt_irreflexive(a.key);
    lemma_opt_irreflexive(a.year);
    if opt_less(a.key, b.key) {
        lemma_opt_asymmetric(a.key, b.key);
    }
    if opt_less(b.key, a.key) {
        lemma_opt_asymmetric(b.key, a.key);
    }
    if opt_less(a.year, b.year) {
        lemma_opt_asymmetric(a.year, b.year);
    }
}

/// A key that stands before another stands before all that the other stands
/// before.
pub proof fn lemma_key_transitive(a: SortKeyView, b: SortKeyView, c: SortKeyView)
    requires
        key_less(a, b),
        key_less(b, c),
    ensures
        key_less(a, c),
{
    if opt_less(a.key, b.key) && opt_less(b.key, c.key) {
        lemma_opt_transitive(a.key, b.key, c.key);
    }
    if a.key == b.key && b.key == c.key {
        lemma_opt_irreflexive(a.key);
        lemma_opt_transitive(a.year, b.year, c.year);
    }
}

/// A collection that names no organizer, and whose editor is not marked as
/// one, has no reference: it is refused with its citation key.
pub proof fn lemma_collection_needs_organizer(b: &Record)
    requires
        kind_of(b.entry_type@) == Some(EntryKind::Collection),
        !has_organizer(b@.tags),
    ensures
        reference_of(b) == Err::<Seq<char>, FormatError>(
            FormatError::InvalidEditorRole { citation_key: b.citation_key },
        ),
{
}

} // verus!
