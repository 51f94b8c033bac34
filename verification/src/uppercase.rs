//! The capitalizer: a text in upper case, without its grouping braces.
use vstd::prelude::*;
use crate::chars::{chars_of, push_all, string_of, unicode_upper, upper_of};

verus! {

/// A text that is shown in upper case and without `{` and `}`.
pub struct Uppercase<'u>(pub &'u str);

/// What one character becomes: nothing for a brace, else its uppercase mapping.
pub open spec fn upper_char(c: char) -> Seq<char> {
    if c == '{' || c == '}' {
        Seq::empty()
    } else {
        unicode_upper(c)
    }
}

/// The uppercase form of `s`: the mappings of its characters, in order.
pub open spec fn upper(s: Seq<char>) -> Seq<char>
    decreases s.len(),
{
    if s.len() == 0 {
        Seq::empty()
    } else {
        upper(s.drop_last()) + upper_char(s.last())
    }
}

/// The uppercase form of `s`.
pub fn uppercase_chars(s: &Vec<char>) -> (out: Vec<char>)
    ensures
        out@ == upper(s@),
{
    let mut out: Vec<char> = Vec::new();
    let mut i: usize = 0;
    assert(s@.take(0) =~= Seq::<char>::empty());
    while i < s.len()
        invariant
            i <= s.len(),
            out@ == upper(s@.take(i as int)),
        decreases s.len() - i,
    {
        let c = s[i];
        assert(s@.take(i + 1).drop_last() =~= s@.take(i as int));
        if c == '{' || c == '}' {
            assert(out@ + Seq::<char>::empty() =~= out@);
        } else {
            let up = upper_of(c);
            push_all(&mut out, &up);
        }
        i += 1;
    }
    assert(s@.take(s@.len() as int) =~= s@);
    out
}

impl<'u> Uppercase<'u> {
    /// The text in upper case, braces dropped.
    pub fn to_string(&self) -> (out: String)
        ensures
            out@ == upper(self.0@),
    {
        let chars = chars_of(self.0);
        let out = uppercase_chars(&chars);
        string_of(&out)
    }
}

} // verus!
