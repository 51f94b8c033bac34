//! The volume of a periodical.
use vstd::prelude::*;
use crate::chars::{push_str, string_of};

verus! {

/// A volume number.
pub struct Volume<'v>(pub &'v str);

/// The volume as it is shown.
pub open spec fn volume_text(s: Seq<char>) -> Seq<char> {
    "v. "@ + s
}

impl<'v> Volume<'v> {
    /// The volume as it is shown.
    pub fn chars(&self) -> (out: Vec<char>)
        ensures
            out@ == volume_text(self.0@),
    {
        let mut out: Vec<char> = Vec::new();
        assert(out@ =~= Seq::<char>::empty());
        push_str(&mut out, "v. ");
        push_str(&mut out, self.0);
        assert(out@ =~= "v. "@ + self.0@);
        out
    }

    /// The volume as it is shown.
    pub fn to_string(&self) -> (out: String)
        ensures
            out@ == volume_text(self.0@),
    {
        string_of(&self.chars())
    }
}

} // verus!
