//! What follows every reference: a note, where the work can be found, and
//! when it was last seen there.
use vstd::prelude::*;
use crate::chars::{chars_of, push_all, push_str, string_of};
use crate::date::{date_chars, date_text};
use crate::record::{opt_view, trimmed, value_of, Record};
use crate::words::{
    str_starts_with,
    strip_prefix_str,
    trim,
    trim_end_char_str,
    trim_str,
    without_prefix,
    without_trailing,
};

verus! {

/// The closing elements of a reference.
pub struct ExtraInfo<'w> {
    pub url: Option<&'w str>,
    pub doi: Option<&'w str>,
    pub url_date: Option<&'w str>,
    pub note: Option<&'w str>,
}

/// A DOI as it is kept: trimmed, and without the address of the resolver.
pub open spec fn doi_of(value: Seq<char>) -> Seq<char> {
    let doi = trim(value);
    if "https://doi.org/"@.is_prefix_of(doi) {
        without_prefix(doi, "https://doi.org/"@)
    } else {
        without_prefix(doi, "http://doi.org/"@)
    }
}

/// A note as it is kept: trimmed, and without the full stops at its end.
pub open spec fn note_of(value: Seq<char>) -> Seq<char> {
    without_trailing(trim(value), '.')
}

/// The note with its full stop.
pub open spec fn note_text(note: Option<Seq<char>>) -> Seq<char> {
    match note {
        Some(n) => " "@ + n + "."@,
        None => Seq::empty(),
    }
}

/// Where the work can be found: its DOI, or else its address. The text is
/// markup for a page: the address stands between angle brackets, so that it
/// becomes a link, and around it stand the two brackets that the reader sees,
/// written as entities, in a span that sets all of it in a fixed-width font.
/// A DOI is written as the address at which it resolves.
pub open spec fn link_text(doi: Option<Seq<char>>, url: Option<Seq<char>>) -> Seq<char> {
    match (doi, url) {
        (Some(d), _) => " Disponível em: <span class=\"font-mono\">&lt;<https://doi.org/"@ + d
            + ">&gt;</span>."@,
        (None, Some(u)) => " Disponível em: <span class=\"font-mono\">&lt;<"@ + u
            + ">&gt;</span>."@,
        (None, None) => Seq::empty(),
    }
}

/// When the work was last seen.
pub open spec fn access_text(url_date: Option<Seq<char>>) -> Seq<char> {
    match url_date {
        Some(d) => " Acesso em: "@ + date_text(d) + "."@,
        None => Seq::empty(),
    }
}

/// What the closing elements hold.
pub struct ExtraInfoView {
    pub url: Option<Seq<char>>,
    pub doi: Option<Seq<char>>,
    pub url_date: Option<Seq<char>>,
    pub note: Option<Seq<char>>,
}

impl<'w> View for ExtraInfo<'w> {
    type V = ExtraInfoView;

    open spec fn view(&self) -> ExtraInfoView {
        ExtraInfoView {
            url: opt_view(self.url),
            doi: opt_view(self.doi),
            url_date: opt_view(self.url_date),
            note: opt_view(self.note),
        }
    }
}

/// The closing elements that the tags hold. Each takes the first tag of its
/// name.
pub open spec fn extra_of(tags: Seq<(Seq<char>, Seq<char>)>) -> ExtraInfoView {
    ExtraInfoView {
        url: trimmed(value_of(tags, seq!["url"@])),
        doi: match value_of(tags, seq!["doi"@]) {
            Some(v) => Some(doi_of(v)),
            None => None,
        },
        url_date: trimmed(value_of(tags, seq!["urldate"@])),
        note: match value_of(tags, seq!["note"@]) {
            Some(v) => Some(note_of(v)),
            None => None,
        },
    }
}

impl ExtraInfoView {
    /// The closing elements as they are shown: the note, the link and the
    /// date of access, each only where it is present.
    pub open spec fn text(self) -> Seq<char> {
        note_text(self.note) + link_text(self.doi, self.url) + access_text(self.url_date)
    }
}

impl<'w> ExtraInfo<'w> {
    /// The closing elements that the record holds.
    pub fn from_bib(b: &'w Record) -> (extra: Self)
        ensures
            extra@ == extra_of(b@.tags),
    {
        let url = match b.field("url") {
            Some(v) => Some(trim_str(v)),
            None => None,
        };
        let doi = match b.field("doi") {
            Some(v) => {
                let doi = trim_str(v);
                if str_starts_with(doi, "https://doi.org/") {
                    Some(strip_prefix_str(doi, "https://doi.org/"))
                } else {
                    Some(strip_prefix_str(doi, "http://doi.org/"))
                }
            },
            None => None,
        };
        let url_date = match b.field("urldate") {
            Some(v) => Some(trim_str(v)),
            None => None,
        };
        let note = match b.field("note") {
            Some(v) => Some(trim_end_char_str(trim_str(v), '.')),
            None => None,
        };
        Self { url, doi, url_date, note }
    }

    /// The closing elements as they are shown.
    pub fn chars(&self) -> (out: Vec<char>)
        ensures
            out@ == self@.text(),
    {
        let mut out: Vec<char> = Vec::new();
        assert(out@ =~= Seq::<char>::empty());
        if let Some(note) = self.note {
            push_str(&mut out, " ");
            push_str(&mut out, note);
            push_str(&mut out, ".");
        }
        assert(out@ =~= note_text(opt_view(self.note)));
        let ghost head = out@;
        if let Some(doi) = self.doi {
            push_str(&mut out, " Disponível em: <span class=\"font-mono\">&lt;<https://doi.org/");
            push_str(&mut out, doi);
            push_str(&mut out, ">&gt;</span>.");
        } else if let Some(url) = self.url {
            push_str(&mut out, " Disponível em: <span class=\"font-mono\">&lt;<");
            push_str(&mut out, url);
            push_str(&mut out, ">&gt;</span>.");
        }
        assert(out@ =~= head + link_text(opt_view(self.doi), opt_view(self.url)));
        let ghost mid = out@;
        if let Some(date) = self.url_date {
            push_str(&mut out, " Acesso em: ");
            push_all(&mut out, &date_chars(&chars_of(date)));
            push_str(&mut out, ".");
        }
        assert(out@ =~= mid + access_text(opt_view(self.url_date)));
        out
    }

    /// The closing elements as they are shown.
    pub fn to_string(&self) -> (out: String)
        ensures
            out@ == self@.text(),
    {
        string_of(&self.chars())
    }
}

} // verus!
