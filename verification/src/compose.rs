//! Small pieces that the entry types share when they put a reference
//! together.
use vstd::prelude::*;
use crate::authors::{authors_chars, authors_text};
use crate::chars::{chars_of, push_all, push_str, views};
use crate::join::{join, join_chars};
use crate::record::{opt_view, str_or_empty, text_of, value_of, Record};
use crate::words::str_eq;
use crate::tex::{escape, escape_chars};

verus! {

/// `s` without one full stop at its end, where it ends with one.
pub open spec fn without_final_stop(s: Seq<char>) -> Seq<char> {
    if s.len() > 0 && s.last() == '.' {
        s.drop_last()
    } else {
        s
    }
}

/// The names of a field as they stand before a full stop that the reference
/// adds: without the full stop of a last initial.
pub open spec fn authors_lead(s: Seq<char>) -> Seq<char> {
    without_final_stop(authors_text(s))
}

/// A list with the one item, or with none where the item is absent.
pub open spec fn optional(item: Option<Seq<char>>) -> Seq<Seq<char>> {
    match item {
        Some(v) => seq![v],
        None => Seq::empty(),
    }
}

/// Takes one full stop from the end of `s`, where it ends with one.
pub fn pop_final_stop(s: &mut Vec<char>)
    ensures
        final(s)@ == without_final_stop(old(s)@),
{
    let n = s.len();
    if n > 0 && s[n - 1] == '.' {
        s.pop();
    }
}

/// The names of a field as they stand before a full stop.
pub fn authors_lead_chars(s: &str) -> (out: Vec<char>)
    ensures
        out@ == authors_lead(s@),
{
    let mut out = authors_chars(s);
    pop_final_stop(&mut out);
    out
}

/// Adds `item` to the list, where it is present.
pub fn push_optional(items: &mut Vec<Vec<char>>, item: Option<Vec<char>>)
    ensures
        views(final(items)@) == views(old(items)@) + optional(
            match item {
                Some(v) => Some(v@),
                None => None,
            },
        ),
{
    match item {
        Some(v) => {
            items.push(v);
            assert(views(items@) =~= views(old(items)@) + seq![v@]);
        },
        None => {
            assert(views(items@) =~= views(old(items)@) + Seq::<Seq<char>>::empty());
        },
    }
}

/// A text with its markup typeset, where it is present.
pub open spec fn escaped(item: Option<Seq<char>>) -> Option<Seq<char>> {
    match item {
        Some(v) => Some(escape(v)),
        None => None,
    }
}

/// A title and a subtitle, each where it is present, with a colon between
/// them and a full stop after them.
pub open spec fn title_block(title: Option<Seq<char>>, subtitle: Option<Seq<char>>) -> Seq<char> {
    if title.is_some() || subtitle.is_some() {
        join(": "@, optional(escaped(title)) + optional(escaped(subtitle))) + ". "@
    } else {
        Seq::empty()
    }
}

/// A title and a subtitle, each where it is present.
pub fn title_block_chars(title: Option<Vec<char>>, subtitle: Option<&str>) -> (out: Vec<char>)
    ensures
        out@ == title_block(
            match title {
                Some(v) => Some(v@),
                None => None,
            },
            opt_view(subtitle),
        ),
{
    if title.is_some() || subtitle.is_some() {
        let mut items: Vec<Vec<char>> = Vec::new();
        assert(views(items@) =~= Seq::<Seq<char>>::empty());
        let first = match title {
            Some(t) => Some(escape_chars(&t)),
            None => None,
        };
        push_optional(&mut items, first);
        let second = match subtitle {
            Some(s) => Some(escape_chars(&chars_of(s))),
            None => None,
        };
        push_optional(&mut items, second);
        let sep = chars_of(": ");
        let mut out = join_chars(&sep, &items);
        push_str(&mut out, ". ");
        out
    } else {
        Vec::new()
    }
}

/// An item after a colon, or nothing where the item is absent.
pub open spec fn after_colon(item: Option<Seq<char>>) -> Seq<char> {
    match item {
        Some(v) => ": "@ + v,
        None => Seq::empty(),
    }
}

/// Writes a colon and the item, where the item is present.
pub fn push_after_colon(out: &mut Vec<char>, item: Option<Vec<char>>)
    ensures
        final(out)@ == old(out)@ + after_colon(
            match item {
                Some(v) => Some(v@),
                None => None,
            },
        ),
{
    match item {
        Some(v) => {
            push_str(out, ": ");
            push_all(out, &v);
            assert(out@ =~= old(out)@ + (": "@ + v@));
        },
        None => {
            assert(out@ =~= old(out)@ + Seq::<char>::empty());
        },
    }
}

/// The text with its markup typeset, where there is one.
pub fn escape_opt(item: Option<&str>) -> (out: Option<Vec<char>>)
    ensures
        match out {
            Some(v) => Some(v@),
            None => None,
        } == escaped(opt_view(item)),
{
    match item {
        Some(v) => Some(escape_chars(&chars_of(v))),
        None => None,
    }
}

/// The characters of the text, where there is one.
pub fn chars_opt(item: Option<&str>) -> (out: Option<Vec<char>>)
    ensures
        match out {
            Some(v) => Some(v@),
            None => None,
        } == opt_view(item),
{
    match item {
        Some(v) => Some(chars_of(v)),
        None => None,
    }
}

/// Whether the tags give the editor the role of organizer: by a tag
/// `organizer`, or by a tag `editortype` with that value.
pub open spec fn has_organizer(tags: Seq<(Seq<char>, Seq<char>)>) -> bool {
    value_of(tags, seq!["organizer"@]).is_some() || value_of(tags, seq!["editortype"@]) == Some(
        "organizer"@,
    )
}

/// The editor of a work that is organized: the organizer where one is named,
/// else the editor, else nobody.
pub open spec fn organizer_of(tags: Seq<(Seq<char>, Seq<char>)>) -> Seq<char> {
    match value_of(tags, seq!["organizer"@]) {
        Some(o) => o,
        None => text_of(value_of(tags, seq!["editor"@])),
    }
}

/// Whether the tags give the editor the role of organizer.
pub fn record_has_organizer(b: &Record) -> (yes: bool)
    ensures
        yes == has_organizer(b@.tags),
{
    if b.field("organizer").is_some() {
        true
    } else {
        match b.field("editortype") {
            Some(v) => str_eq(v, "organizer"),
            None => false,
        }
    }
}

/// The editor of a work that is organized.
pub fn record_organizer<'r>(b: &'r Record) -> (out: &'r str)
    ensures
        out@ == organizer_of(b@.tags),
{
    match b.field("organizer") {
        Some(o) => o,
        None => str_or_empty(b.field("editor")),
    }
}

/// A text with a full stop written after it ends with that full stop.
pub proof fn lemma_stop_is_last(s: Seq<char>)
    ensures
        (s + "."@).len() > 0,
        (s + "."@).last() == '.',
{
    reveal_strlit(".");
}

} // verus!
