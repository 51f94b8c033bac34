//! Whitespace: trimming a text and splitting it into words.
use vstd::prelude::*;
use crate::chars::{chars_of, unicode_whitespace, views};

verus! {

/// `s` without the whitespace at its start.
pub open spec fn trim_start(s: Seq<char>) -> Seq<char>
    decreases s.len(),
{
    if s.len() > 0 && unicode_whitespace(s[0]) {
        trim_start(s.drop_first())
    } else {
        s
    }
}

/// `s` without the whitespace at its end.
pub open spec fn trim_end(s: Seq<char>) -> Seq<char>
    decreases s.len(),
{
    if s.len() > 0 && unicode_whitespace(s.last()) {
        trim_end(s.drop_last())
    } else {
        s
    }
}

/// `s` without the whitespace at its start and at its end.
pub open spec fn trim(s: Seq<char>) -> Seq<char> {
    trim_end(trim_start(s))
}

/// The first place at or after `i` that holds whitespace, or the end of `s`.
pub open spec fn word_end(s: Seq<char>, i: int) -> int
    decreases s.len() - i,
{
    if i < 0 || i >= s.len() {
        s.len() as int
    } else if unicode_whitespace(s[i]) {
        i
    } else {
        word_end(s, i + 1)
    }
}

pub proof fn lemma_word_end_bounds(s: Seq<char>, i: int)
    requires
        0 <= i <= s.len(),
    ensures
        i <= word_end(s, i) <= s.len(),
        i < s.len() && !unicode_whitespace(s[i]) ==> i < word_end(s, i),
    decreases s.len() - i,
{
    if i < s.len() && !unicode_whitespace(s[i]) {
        lemma_word_end_bounds(s, i + 1);
    }
}

/// The words of `s` that begin at or after place `i`: the longest runs
/// without whitespace.
pub open spec fn words_from(s: Seq<char>, i: int) -> Seq<Seq<char>>
    decreases s.len() - i,
    via words_from_decreases
{
    if i < 0 || i >= s.len() {
        Seq::empty()
    } else if unicode_whitespace(s[i]) {
        words_from(s, i + 1)
    } else {
        seq![s.subrange(i, word_end(s, i))] + words_from(s, word_end(s, i))
    }
}

#[via_fn]
proof fn words_from_decreases(s: Seq<char>, i: int) {
    if 0 <= i < s.len() {
        lemma_word_end_bounds(s, i);
    }
}

/// The words of `s`.
pub open spec fn words(s: Seq<char>) -> Seq<Seq<char>> {
    words_from(s, 0)
}

/// Every word holds at least one character, and no whitespace at its start.
pub proof fn lemma_words_nonempty(s: Seq<char>, i: int)
    requires
        0 <= i <= s.len(),
    ensures
        forall|k: int|
            0 <= k < words_from(s, i).len() ==> (#[trigger] words_from(s, i)[k]).len() > 0
                && !unicode_whitespace(words_from(s, i)[k][0]),
    decreases s.len() - i,
{
    if i < s.len() {
        if unicode_whitespace(s[i]) {
            lemma_words_nonempty(s, i + 1);
            assert(words_from(s, i) == words_from(s, i + 1));
        } else {
            lemma_word_end_bounds(s, i);
            lemma_words_nonempty(s, word_end(s, i));
            let first = s.subrange(i, word_end(s, i));
            let rest = words_from(s, word_end(s, i));
            assert(words_from(s, i) == seq![first] + rest);
            assert forall|k: int| 0 <= k < words_from(s, i).len() implies (#[trigger] words_from(
                s,
                i,
            )[k]).len() > 0 && !unicode_whitespace(words_from(s, i)[k][0]) by {
                if k == 0 {
                    assert(first[0] == s[i]);
                } else {
                    assert(words_from(s, i)[k] == rest[k - 1]);
                }
            }
        }
    } else {
        assert(words_from(s, i) =~= Seq::<Seq<char>>::empty());
    }
}

/// The characters of `s` from place `from` up to place `to`.
pub fn slice_of(s: &Vec<char>, from: usize, to: usize) -> (out: Vec<char>)
    requires
        from <= to <= s.len(),
    ensures
        out@ == s@.subrange(from as int, to as int),
{
    let mut out: Vec<char> = Vec::new();
    let mut i: usize = from;
    while i < to
        invariant
            from <= i <= to <= s.len(),
            out@ =~= s@.subrange(from as int, i as int),
        decreases to - i,
    {
        out.push(s[i]);
        i += 1;
    }
    out
}

proof fn lemma_trim_start_skips(s: Seq<char>, a: int)
    requires
        0 <= a <= s.len(),
        forall|j: int| 0 <= j < a ==> unicode_whitespace(s[j]),
    ensures
        trim_start(s) == trim_start(s.subrange(a, s.len() as int)),
    decreases a,
{
    if a == 0 {
        assert(s.subrange(0, s.len() as int) =~= s);
    } else {
        let t = s.drop_first();
        assert forall|j: int| 0 <= j < a - 1 implies unicode_whitespace(t[j]) by {
            assert(t[j] == s[j + 1]);
        }
        lemma_trim_start_skips(t, a - 1);
        assert(t.subrange(a - 1, t.len() as int) =~= s.subrange(a, s.len() as int));
    }
}

proof fn lemma_trim_end_skips(s: Seq<char>, b: int)
    requires
        0 <= b <= s.len(),
        forall|j: int| b <= j < s.len() ==> unicode_whitespace(s[j]),
    ensures
        trim_end(s) == trim_end(s.subrange(0, b)),
    decreases s.len() - b,
{
    if b == s.len() {
        assert(s.subrange(0, b) =~= s);
    } else {
        let t = s.drop_last();
        lemma_trim_end_skips(t, b);
        assert(t.subrange(0, b) =~= s.subrange(0, b));
    }
}

/// The places between which `s` holds what is left after trimming.
pub fn trim_bounds(s: &Vec<char>) -> (ends: (usize, usize))
    ensures
        ends.0 <= ends.1 <= s.len(),
        s@.subrange(ends.0 as int, ends.1 as int) == trim(s@),
{
    let n = s.len();
    let mut a: usize = 0;
    while a < n && s[a].is_whitespace()
        invariant
            a <= n,
            n == s.len(),
            forall|j: int| 0 <= j < a ==> unicode_whitespace(s@[j]),
        decreases n - a,
    {
        a += 1;
    }
    let mut b: usize = n;
    while b > a && s[b - 1].is_whitespace()
        invariant
            a <= b <= n,
            n == s.len(),
            forall|j: int| b <= j < n ==> unicode_whitespace(s@[j]),
        decreases b,
    {
        b -= 1;
    }
    proof {
        let rest = s@.subrange(a as int, n as int);
        let out = s@.subrange(a as int, b as int);
        lemma_trim_start_skips(s@, a as int);
        assert(trim_start(rest) == rest);
        assert forall|j: int| b - a <= j < rest.len() implies unicode_whitespace(rest[j]) by {
            assert(rest[j] == s@[j + a]);
        }
        lemma_trim_end_skips(rest, b - a);
        assert(rest.subrange(0, b - a) =~= out);
        assert(trim_end(out) == out);
    }
    (a, b)
}

/// `s` without the whitespace at its start and at its end.
pub fn trim_chars(s: &Vec<char>) -> (out: Vec<char>)
    ensures
        out@ == trim(s@),
{
    let (a, b) = trim_bounds(s);
    slice_of(s, a, b)
}

/// The part of `s` that is left after trimming.
pub fn trim_str<'a>(s: &'a str) -> (out: &'a str)
    ensures
        out@ == trim(s@),
{
    let chars = chars_of(s);
    let (a, b) = trim_bounds(&chars);
    s.substring_char(a, b)
}

/// Whether two strings hold the same text.
pub fn str_eq(a: &str, b: &str) -> (same: bool)
    ensures
        same == (a@ == b@),
{
    let x = chars_of(a);
    let y = chars_of(b);
    if x.len() != y.len() {
        return false;
    }
    let mut i: usize = 0;
    while i < x.len()
        invariant
            i <= x.len(),
            x.len() == y.len(),
            x@ == a@,
            y@ == b@,
            forall|j: int| 0 <= j < i ==> x@[j] == y@[j],
        decreases x.len() - i,
    {
        if x[i] != y[i] {
            return false;
        }
        i += 1;
    }
    assert(a@ =~= b@);
    true
}

/// The words of `s`, in order.
pub fn split_words(s: &Vec<char>) -> (out: Vec<Vec<char>>)
    ensures
        views(out@) == words(s@),
{
    let mut out: Vec<Vec<char>> = Vec::new();
    let n = s.len();
    let mut i: usize = 0;
    assert(views(out@) =~= Seq::<Seq<char>>::empty());
    while i < n
        invariant
            i <= n,
            n == s.len(),
            words(s@) == views(out@) + words_from(s@, i as int),
        decreases n - i,
    {
        if s[i].is_whitespace() {
            i += 1;
        } else {
            let mut j: usize = i + 1;
            while j < n && !s[j].is_whitespace()
                invariant
                    i < j <= n,
                    n == s.len(),
                    word_end(s@, i as int) == word_end(s@, j as int),
                decreases n - j,
            {
                j += 1;
            }
            let word = slice_of(s, i, j);
            let ghost before = views(out@);
            out.push(word);
            assert(views(out@) =~= before + seq![s@.subrange(i as int, j as int)]);
            assert(before + (seq![s@.subrange(i as int, j as int)] + words_from(s@, j as int))
                =~= views(out@) + words_from(s@, j as int));
            i = j;
        }
    }
    assert(views(out@) + Seq::<Seq<char>>::empty() =~= views(out@));
    out
}

/// `s` without `prefix` at its start, where it starts with it.
pub open spec fn without_prefix(s: Seq<char>, prefix: Seq<char>) -> Seq<char> {
    if prefix.is_prefix_of(s) {
        s.skip(prefix.len() as int)
    } else {
        s
    }
}

/// `s` without the copies of `c` at its end.
pub open spec fn without_trailing(s: Seq<char>, c: char) -> Seq<char>
    decreases s.len(),
{
    if s.len() > 0 && s.last() == c {
        without_trailing(s.drop_last(), c)
    } else {
        s
    }
}

/// Whether `s` starts with `prefix`.
pub fn starts_with(s: &Vec<char>, prefix: &Vec<char>) -> (yes: bool)
    ensures
        yes == prefix@.is_prefix_of(s@),
{
    if prefix.len() > s.len() {
        return false;
    }
    let mut i: usize = 0;
    while i < prefix.len()
        invariant
            i <= prefix.len() <= s.len(),
            forall|j: int| 0 <= j < i ==> s@[j] == prefix@[j],
        decreases prefix.len() - i,
    {
        if s[i] != prefix[i] {
            assert(s@.subrange(0, prefix@.len() as int)[i as int] != prefix@[i as int]);
            return false;
        }
        i += 1;
    }
    assert(s@.subrange(0, prefix@.len() as int) =~= prefix@);
    true
}

/// Whether the string `s` starts with `prefix`.
pub fn str_starts_with(s: &str, prefix: &str) -> (yes: bool)
    ensures
        yes == prefix@.is_prefix_of(s@),
{
    starts_with(&chars_of(s), &chars_of(prefix))
}

/// The part of `s` after `prefix`, or all of `s` where it does not start with
/// it.
pub fn strip_prefix_str<'a>(s: &'a str, prefix: &str) -> (out: &'a str)
    ensures
        out@ == without_prefix(s@, prefix@),
{
    let chars = chars_of(s);
    let head = chars_of(prefix);
    if starts_with(&chars, &head) {
        let out = s.substring_char(head.len(), chars.len());
        assert(out@ =~= s@.skip(prefix@.len() as int));
        out
    } else {
        s
    }
}

/// The part of `s` before the copies of `c` at its end.
pub fn trim_end_char_str<'a>(s: &'a str, c: char) -> (out: &'a str)
    ensures
        out@ == without_trailing(s@, c),
{
    let chars = chars_of(s);
    let mut b: usize = chars.len();
    assert(s@.take(b as int) =~= s@);
    while b > 0 && chars[b - 1] == c
        invariant
            b <= chars.len(),
            chars@ == s@,
            without_trailing(s@, c) == without_trailing(s@.take(b as int), c),
        decreases b,
    {
        assert(s@.take(b as int).drop_last() =~= s@.take(b - 1));
        b -= 1;
    }
    let out = s.substring_char(0, b);
    assert(out@ =~= s@.take(b as int));
    out
}

} // verus!
