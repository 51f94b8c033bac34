//! Punctuation where two pieces of text meet: of two marks in a row the
//! second is dropped, but for a few pairs that are written as they are.
use vstd::prelude::*;
use crate::chars::{chars_of, string_of};

verus! {

/// What kind of character was read last.
#[derive(Clone, Copy, Debug, PartialEq, Eq, Structural)]
pub enum CharType {
    Other,
    Punctuation(char),
}

/// `c` is a punctuation mark.
pub open spec fn is_mark(c: char) -> bool {
    c == '.' || c == ';' || c == '?' || c == '!' || c == '…' || c == ':' || c == ','
}

/// The kind of the character `c`.
pub open spec fn char_type(c: char) -> CharType {
    if is_mark(c) {
        CharType::Punctuation(c)
    } else {
        CharType::Other
    }
}

/// The two marks may stand in a row.
pub open spec fn pair_stays(first: char, second: char) -> bool {
    ||| (first == '?' && second == '?')
    ||| (first == '?' && second == '!')
    ||| (first == '!' && second == '?')
    ||| (first == '!' && second == '!')
    ||| (first == '.' && second == '.')
    ||| (first == '.' && second == ';')
}

/// Whether `c` is written after a character of kind `last`: always, unless it
/// is a mark after a mark and the two may not stand in a row.
pub open spec fn is_written(last: CharType, c: char) -> bool {
    match last {
        CharType::Punctuation(p) => !is_mark(c) || pair_stays(p, c),
        CharType::Other => true,
    }
}

/// What is written of `s` after a character of kind `last`. Each character is
/// judged by the one before it in `s`, written or not.
pub open spec fn fixed(last: CharType, s: Seq<char>) -> Seq<char>
    decreases s.len(),
{
    if s.len() == 0 {
        Seq::empty()
    } else {
        let head = fixed(last, s.drop_last());
        if is_written(last_type(last, s.drop_last()), s.last()) {
            head.push(s.last())
        } else {
            head
        }
    }
}

/// The kind of the last character of `s`, or `last` where `s` is empty.
pub open spec fn last_type(last: CharType, s: Seq<char>) -> CharType {
    if s.len() == 0 {
        last
    } else {
        char_type(s.last())
    }
}

impl CharType {
    /// The kind of the character `c`.
    pub fn of(c: char) -> (kind: CharType)
        ensures
            kind == char_type(c),
    {
        match c {
            '.' | ';' | '?' | '!' | '…' | ':' | ',' => CharType::Punctuation(c),
            _ => CharType::Other,
        }
    }
}

/// A filter for text that is written piece by piece.
pub struct FixPunctuation {
    pub last_char_type: CharType,
}

impl FixPunctuation {
    /// A filter before any text.
    pub fn new() -> (filter: Self)
        ensures
            filter.last_char_type == CharType::Other,
    {
        FixPunctuation { last_char_type: CharType::Other }
    }

    /// Reads one character: whether it is to be written.
    pub fn accepts(&mut self, c: char) -> (written: bool)
        ensures
            written == is_written(old(self).last_char_type, c),
            final(self).last_char_type == char_type(c),
    {
        let kind = CharType::of(c);
        let written = match (self.last_char_type, kind) {
            (CharType::Punctuation(p), CharType::Punctuation(q)) => {
                (p == '?' && q == '?') || (p == '?' && q == '!') || (p == '!' && q == '?') || (p
                    == '!' && q == '!') || (p == '.' && q == '.') || (p == '.' && q == ';')
            },
            _ => true,
        };
        self.last_char_type = kind;
        written
    }

    /// Reads the next piece of text: what is to be written of it.
    pub fn write_str(&mut self, s: &str) -> (out: String)
        ensures
            out@ == fixed(old(self).last_char_type, s@),
            final(self).last_char_type == last_type(old(self).last_char_type, s@),
    {
        let chars = chars_of(s);
        let mut out: Vec<char> = Vec::new();
        let ghost first = self.last_char_type;
        let mut i: usize = 0;
        assert(chars@.take(0) =~= Seq::<char>::empty());
        while i < chars.len()
            invariant
                i <= chars.len(),
                chars@ == s@,
                out@ == fixed(first, s@.take(i as int)),
                self.last_char_type == last_type(first, s@.take(i as int)),
            decreases chars.len() - i,
        {
            assert(s@.take(i + 1).drop_last() =~= s@.take(i as int));
            if self.accepts(chars[i]) {
                out.push(chars[i]);
            }
            i += 1;
        }
        assert(s@.take(chars.len() as int) =~= s@);
        string_of(&out)
    }
}

} // verus!
