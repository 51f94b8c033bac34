//! The issue of a periodical.
use vstd::prelude::*;
use crate::chars::{push_str, string_of};

verus! {

/// An issue number.
pub struct Issue<'i>(pub &'i str);

/// The issue as it is shown.
pub open spec fn issue_text(s: Seq<char>) -> Seq<char> {
    "n. "@ + s
}

impl<'i> Issue<'i> {
    /// The issue as it is shown.
    pub fn chars(&self) -> (out: Vec<char>)
        ensures
            out@ == issue_text(self.0@),
    {
        let mut out: Vec<char> = Vec::new();
        assert(out@ =~= Seq::<char>::empty());
        push_str(&mut out, "n. ");
        push_str(&mut out, self.0);
        assert(out@ =~= "n. "@ + self.0@);
        out
    }

    /// The issue as it is shown.
    pub fn to_string(&self) -> (out: String)
        ensures
            out@ == issue_text(self.0@),
    {
        string_of(&self.chars())
    }
}

} // verus!
