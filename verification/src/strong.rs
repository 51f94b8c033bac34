//! Strong emphasis.
use vstd::prelude::*;
use crate::chars::{chars_of, push_all, push_str, string_of};

verus! {

/// A text that is shown with strong emphasis.
pub struct Strong<'a>(pub &'a str);

/// The text between the marks of strong emphasis.
pub open spec fn strong_text(s: Seq<char>) -> Seq<char> {
    "<strong>"@ + s + "</strong>"@
}

/// The text between the marks of strong emphasis.
pub fn strong_chars(s: &Vec<char>) -> (out: Vec<char>)
    ensures
        out@ == strong_text(s@),
{
    let mut out: Vec<char> = Vec::new();
    assert(out@ =~= Seq::<char>::empty());
    push_str(&mut out, "<strong>");
    push_all(&mut out, s);
    push_str(&mut out, "</strong>");
    assert(out@ =~= "<strong>"@ + s@ + "</strong>"@);
    out
}

impl<'a> Strong<'a> {
    /// The text between the marks of strong emphasis.
    pub fn to_string(&self) -> (out: String)
        ensures
            out@ == strong_text(self.0@),
    {
        string_of(&strong_chars(&chars_of(self.0)))
    }
}

} // verus!
