//! Articles, and the other entries that are shown like them: pages on the
//! web, films and miscellanea.
use vstd::prelude::*;
use crate::chars::{chars_of, push_all, push_str, string_of, views};
use crate::compose::{
    authors_lead,
    authors_lead_chars,
    lemma_stop_is_last,
    optional,
    push_optional,
    title_block,
    title_block_chars,
};
use crate::date::{date_chars, date_text};
use crate::issue::{issue_text, Issue};
use crate::join::{join, join_chars};
use crate::location_publisher::{loc_pub_chars, loc_pub_text};
use crate::pages::{pages_of, pages_text, Pages, PagesView};
use crate::record::{
    opt_view,
    str_or_empty,
    text_of,
    trim_opt,
    trim_or_empty,
    trimmed,
    value_of,
    Record,
};
use crate::strong::{strong_chars, strong_text};
use crate::tex::{escape, escape_chars, find_free, first_free};
use crate::uppercase::{upper, uppercase_chars};
use crate::volume::{volume_text, Volume};
use crate::words::{slice_of, trim, trim_str};

verus! {

/// The fields of an article.
pub struct Article<'a> {
    pub author: &'a str,
    pub title: &'a str,
    pub subtitle: Option<&'a str>,
    pub journal: Option<&'a str>,
    pub location: Option<&'a str>,
    pub publisher: Option<&'a str>,
    pub issue: Option<&'a str>,
    pub volume: Option<&'a str>,
    pub pages: Option<Pages<'a>>,
    pub year: Option<&'a str>,
    pub date: Option<&'a str>,
}

/// The first word of a title: what stands before its first space outside
/// braces, or all of it.
pub open spec fn lead_word(title: Seq<char>) -> Seq<char> {
    let space = first_free(' ', title, 0);
    if space < title.len() {
        title.take(space)
    } else {
        title
    }
}

/// What follows the first word of a title, where a space outside braces ends
/// that word.
pub open spec fn after_lead(title: Seq<char>) -> Option<Seq<char>> {
    let space = first_free(' ', title, 0);
    if space < title.len() {
        Some(title.skip(space + 1))
    } else {
        None
    }
}

/// What the pages of an optional field hold.
pub open spec fn pages_view(pages: Option<Pages>) -> Option<PagesView> {
    match pages {
        Some(p) => Some(p@),
        None => None,
    }
}

/// What an article's fields hold.
pub struct ArticleView {
    pub author: Seq<char>,
    pub title: Seq<char>,
    pub subtitle: Option<Seq<char>>,
    pub journal: Option<Seq<char>>,
    pub location: Option<Seq<char>>,
    pub publisher: Option<Seq<char>>,
    pub issue: Option<Seq<char>>,
    pub volume: Option<Seq<char>>,
    pub pages: Option<PagesView>,
    pub year: Option<Seq<char>>,
    pub date: Option<Seq<char>>,
}

impl<'a> View for Article<'a> {
    type V = ArticleView;

    open spec fn view(&self) -> ArticleView {
        ArticleView {
            author: self.author@,
            title: self.title@,
            subtitle: opt_view(self.subtitle),
            journal: opt_view(self.journal),
            location: opt_view(self.location),
            publisher: opt_view(self.publisher),
            issue: opt_view(self.issue),
            volume: opt_view(self.volume),
            pages: pages_view(self.pages),
            year: opt_view(self.year),
            date: opt_view(self.date),
        }
    }
}

/// The fields of an article that the tags hold, all trimmed. Each field takes
/// the first tag that goes by one of its names.
pub open spec fn article_of(tags: Seq<(Seq<char>, Seq<char>)>) -> ArticleView {
    ArticleView {
        author: text_of(trimmed(value_of(tags, seq!["author"@]))),
        title: text_of(trimmed(value_of(tags, seq!["title"@]))),
        subtitle: trimmed(value_of(tags, seq!["subtitle"@])),
        journal: trimmed(value_of(tags, seq!["journal"@, "journaltitle"@])),
        location: trimmed(value_of(tags, seq!["location"@, "address"@])),
        publisher: trimmed(value_of(tags, seq!["publisher"@])),
        issue: trimmed(value_of(tags, seq!["issue"@, "number"@])),
        volume: trimmed(value_of(tags, seq!["volume"@])),
        pages: match value_of(tags, seq!["page"@, "pages"@]) {
            Some(v) => Some(pages_of(trim(v))),
            None => None,
        },
        year: trimmed(value_of(tags, seq!["year"@])),
        date: trimmed(value_of(tags, seq!["date"@])),
    }
}

impl ArticleView {
    /// How the reference begins: with the authors, or without them with the
    /// first word of the title in upper case.
    pub open spec fn head(self) -> Seq<char> {
        if self.author.len() == 0 {
            if lead_word(self.title).len() > 0 {
                upper(lead_word(self.title)) + " "@
            } else {
                Seq::empty()
            }
        } else {
            authors_lead(self.author) + ". "@
        }
    }

    /// The title as it follows the beginning: all of it after authors, and
    /// without authors what follows its first word.
    pub open spec fn title_end(self) -> Option<Seq<char>> {
        if self.author.len() == 0 {
            after_lead(self.title)
        } else {
            Some(self.title)
        }
    }

    /// The journal, with strong emphasis.
    pub open spec fn journal_part(self) -> Option<Seq<char>> {
        match self.journal {
            Some(j) => Some(strong_text(escape(j))),
            None => None,
        }
    }

    /// Place and publisher where there is a publisher, else the place alone.
    pub open spec fn place_part(self) -> Option<Seq<char>> {
        if self.publisher.is_some() {
            Some(loc_pub_text(text_of(self.location), text_of(self.publisher)))
        } else {
            self.location
        }
    }

    pub open spec fn volume_part(self) -> Option<Seq<char>> {
        match self.volume {
            Some(v) => Some(volume_text(v)),
            None => None,
        }
    }

    pub open spec fn issue_part(self) -> Option<Seq<char>> {
        match self.issue {
            Some(i) => Some(issue_text(i)),
            None => None,
        }
    }

    pub open spec fn pages_part(self) -> Option<Seq<char>> {
        match self.pages {
            Some(p) => Some(pages_text(p)),
            None => None,
        }
    }

    /// The year, or without one the date.
    pub open spec fn when_part(self) -> Option<Seq<char>> {
        match (self.year, self.date) {
            (Some(y), _) => Some(y),
            (None, Some(d)) => Some(date_text(d)),
            (None, None) => None,
        }
    }

    /// The parts that follow the title, those that are present, in order.
    pub open spec fn parts(self) -> Seq<Seq<char>> {
        optional(self.journal_part()) + optional(self.place_part()) + optional(
            self.volume_part(),
        ) + optional(self.issue_part()) + optional(self.pages_part()) + optional(
            self.when_part(),
        )
    }

    /// The parts that follow the title, with commas between them and a full
    /// stop after them.
    pub open spec fn tail(self) -> Seq<char> {
        if self.parts().len() > 0 {
            join(", "@, self.parts()) + "."@
        } else {
            Seq::empty()
        }
    }

    /// The reference as it is shown.
    pub open spec fn text(self) -> Seq<char> {
        self.head() + title_block(self.title_end(), self.subtitle) + self.tail()
    }
}

impl<'a> Article<'a> {
    /// The fields of an article that the record holds, all trimmed.
    pub fn from_bib(b: &'a Record) -> (article: Self)
        ensures
            article@ == article_of(b@.tags),
    {
        Article {
            author: trim_or_empty(b.field("author")),
            title: trim_or_empty(b.field("title")),
            subtitle: trim_opt(b.field("subtitle")),
            journal: trim_opt(b.field_of_two("journal", "journaltitle")),
            location: trim_opt(b.field_of_two("location", "address")),
            publisher: trim_opt(b.field("publisher")),
            issue: trim_opt(b.field_of_two("issue", "number")),
            volume: trim_opt(b.field("volume")),
            pages: match b.field_of_two("page", "pages") {
                Some(v) => Some(Pages::from_str(trim_str(v))),
                None => None,
            },
            year: trim_opt(b.field("year")),
            date: trim_opt(b.field("date")),
        }
    }

    /// How the reference begins.
    fn head_chars(&self) -> (out: Vec<char>)
        ensures
            out@ == self@.head(),
    {
        if self.author.unicode_len() == 0 {
            let title = chars_of(self.title);
            let start = match find_free(&title, ' ') {
                Some(i) => {
                    let start = slice_of(&title, 0, i);
                    assert(start@ =~= title@.take(i as int));
                    start
                },
                None => title,
            };
            if start.len() > 0 {
                let mut out = uppercase_chars(&start);
                push_str(&mut out, " ");
                out
            } else {
                Vec::new()
            }
        } else {
            let mut out = authors_lead_chars(self.author);
            push_str(&mut out, ". ");
            out
        }
    }

    /// The title as it follows the beginning.
    fn title_end_chars(&self) -> (out: Option<Vec<char>>)
        ensures
            match out {
                Some(v) => Some(v@),
                None => None,
            } == self@.title_end(),
    {
        let title = chars_of(self.title);
        let n = title.len();
        if self.author.unicode_len() == 0 {
            match find_free(&title, ' ') {
                Some(i) => {
                    let end = slice_of(&title, i + 1, n);
                    assert(end@ =~= title@.skip(i + 1));
                    Some(end)
                },
                None => None,
            }
        } else {
            Some(title)
        }
    }

    /// The parts that follow the title.
    fn parts_chars(&self) -> (out: Vec<Vec<char>>)
        ensures
            views(out@) == self@.parts(),
    {
        let mut out: Vec<Vec<char>> = Vec::new();
        assert(views(out@) =~= Seq::<Seq<char>>::empty());
        let journal = match self.journal {
            Some(j) => Some(strong_chars(&escape_chars(&chars_of(j)))),
            None => None,
        };
        push_optional(&mut out, journal);
        let place = if self.publisher.is_some() {
            Some(loc_pub_chars(str_or_empty(self.location), str_or_empty(self.publisher)))
        } else {
            match self.location {
                Some(l) => Some(chars_of(l)),
                None => None,
            }
        };
        push_optional(&mut out, place);
        let volume = match self.volume {
            Some(v) => Some(Volume(v).chars()),
            None => None,
        };
        push_optional(&mut out, volume);
        let issue = match self.issue {
            Some(i) => Some(Issue(i).chars()),
            None => None,
        };
        push_optional(&mut out, issue);
        let pages = match &self.pages {
            Some(p) => Some(p.chars()),
            None => None,
        };
        push_optional(&mut out, pages);
        let when = match self.year {
            Some(y) => Some(chars_of(y)),
            None => match self.date {
                Some(d) => Some(date_chars(&chars_of(d))),
                None => None,
            },
        };
        push_optional(&mut out, when);
        assert(views(out@) =~= self@.parts());
        out
    }

    /// The reference as it is shown.
    pub fn chars(&self) -> (out: Vec<char>)
        ensures
            out@ == self@.text(),
    {
        let mut out = self.head_chars();
        let end = self.title_end_chars();
        push_all(&mut out, &title_block_chars(end, self.subtitle));
        let parts = self.parts_chars();
        if parts.len() > 0 {
            let sep = chars_of(", ");
            push_all(&mut out, &join_chars(&sep, &parts));
            push_str(&mut out, ".");
            assert(out@ =~= self@.head() + title_block(self@.title_end(), self@.subtitle) + (join(
                ", "@,
                self@.parts(),
            ) + "."@));
        } else {
            assert(out@ =~= self@.head() + title_block(self@.title_end(), self@.subtitle)
                + Seq::<char>::empty());
        }
        out
    }

    /// The reference as it is shown.
    pub fn to_string(&self) -> (out: String)
        ensures
            out@ == self@.text(),
    {
        string_of(&self.chars())
    }
}

/// An article with anything to show after its title ends with a full stop.
pub proof fn lemma_article_ends_with_full_stop(v: ArticleView)
    requires
        v.parts().len() > 0,
    ensures
        v.text().len() > 0,
        v.text().last() == '.',
{
    lemma_stop_is_last(join(", "@, v.parts()));
    assert(v.text() =~= v.head() + title_block(v.title_end(), v.subtitle) + join(
        ", "@,
        v.parts(),
    ) + "."@);
}

} // verus!
