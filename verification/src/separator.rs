//! The separator of multi-valued fields: the word `and` between two spaces, in
//! any mix of upper and lower case.
use vstd::prelude::*;
use crate::chars::string_views;

verus! {

/// The separator stands at place `i` of `s`.
pub open spec fn and_at(s: Seq<char>, i: int) -> bool {
    &&& 0 <= i
    &&& i + 5 <= s.len()
    &&& s[i] == ' '
    &&& (s[i + 1] == 'a' || s[i + 1] == 'A')
    &&& (s[i + 2] == 'n' || s[i + 2] == 'N')
    &&& (s[i + 3] == 'd' || s[i + 3] == 'D')
    &&& s[i + 4] == ' '
}

/// The first place at or after `i` where the separator stands, or the length
/// of `s` where there is none.
pub open spec fn next_and(s: Seq<char>, i: int) -> int
    decreases s.len() - i,
{
    if i < 0 || i >= s.len() {
        s.len() as int
    } else if and_at(s, i) {
        i
    } else {
        next_and(s, i + 1)
    }
}

pub proof fn lemma_next_and_bounds(s: Seq<char>, i: int)
    requires
        0 <= i <= s.len(),
    ensures
        i <= next_and(s, i) <= s.len(),
        next_and(s, i) < s.len() ==> and_at(s, next_and(s, i)),
    decreases s.len() - i,
{
    if i < s.len() && !and_at(s, i) {
        lemma_next_and_bounds(s, i + 1);
    }
}

/// The parts of `s` from place `i` on: what stands between the separators,
/// each separator taken at the first place where it can stand after the one
/// before it.
pub open spec fn and_split_from(s: Seq<char>, i: int) -> Seq<Seq<char>>
    decreases s.len() - i,
    via and_split_from_decreases
{
    if 0 <= i <= s.len() && next_and(s, i) < s.len() {
        seq![s.subrange(i, next_and(s, i))] + and_split_from(s, next_and(s, i) + 5)
    } else {
        seq![s.subrange(i, s.len() as int)]
    }
}

#[via_fn]
proof fn and_split_from_decreases(s: Seq<char>, i: int) {
    if 0 <= i <= s.len() {
        lemma_next_and_bounds(s, i);
    }
}

/// The parts of `s` between its separators. There is always at least one.
pub open spec fn and_split(s: Seq<char>) -> Seq<Seq<char>> {
    and_split_from(s, 0)
}

pub proof fn lemma_and_split_nonempty(s: Seq<char>, i: int)
    ensures
        and_split_from(s, i).len() >= 1,
{
}

/// `Regex::split` of the regex crate, on the regex that `RegexBuilder` builds
/// from `pattern` with `case_insensitive(true)`. For the pattern ` and ` the
/// regex matches a space, the three letters in either case and a space, and
/// nothing else; `split` yields what stands between the matches, which it
/// takes from the left and never overlapping. The regex is built anew at
/// each call.
#[verifier::external_body]
fn regex_split(pattern: &str, text: &str) -> (parts: Vec<String>)
    requires
        pattern@ == " and "@,
    ensures
        string_views(parts@) == and_split(text@),
{
    let re = regex::RegexBuilder::new(pattern).case_insensitive(true).build().unwrap();
    re.split(text).map(String::from).collect()
}

/// The parts of `text` between its separators.
pub fn split_on_and(text: &str) -> (parts: Vec<String>)
    ensures
        string_views(parts@) == and_split(text@),
        parts@.len() >= 1,
{
    proof {
        lemma_and_split_nonempty(text@, 0);
    }
    regex_split(" and ", text)
}

} // verus!
