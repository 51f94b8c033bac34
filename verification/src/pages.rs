//! Page numbers: one page, or a range of pages.
use vstd::prelude::*;
use crate::chars::{chars_of, push_str, string_of};

verus! {

/// The pages of a work.
pub enum Pages<'p> {
    Single(&'p str),
    Range(&'p str, &'p str),
}

/// What a `Pages` value holds.
pub enum PagesView {
    Single(Seq<char>),
    Range(Seq<char>, Seq<char>),
}

impl<'p> View for Pages<'p> {
    type V = PagesView;

    open spec fn view(&self) -> PagesView {
        match self {
            Pages::Single(page) => PagesView::Single(page@),
            Pages::Range(first, last) => PagesView::Range(first@, last@),
        }
    }
}

/// Two hyphens stand at place `i` of `s`.
pub open spec fn hyphens_at(s: Seq<char>, i: int) -> bool {
    0 <= i && i + 2 <= s.len() && s[i] == '-' && s[i + 1] == '-'
}

/// The first place at or after `i` where two hyphens stand, or the length of
/// `s` where there is none.
pub open spec fn next_hyphens(s: Seq<char>, i: int) -> int
    decreases s.len() - i,
{
    if i < 0 || i >= s.len() {
        s.len() as int
    } else if hyphens_at(s, i) {
        i
    } else {
        next_hyphens(s, i + 1)
    }
}

pub proof fn lemma_next_hyphens_bounds(s: Seq<char>, i: int)
    requires
        0 <= i <= s.len(),
    ensures
        i <= next_hyphens(s, i) <= s.len(),
        next_hyphens(s, i) < s.len() ==> hyphens_at(s, next_hyphens(s, i)),
    decreases s.len() - i,
{
    if i < s.len() && !hyphens_at(s, i) {
        lemma_next_hyphens_bounds(s, i + 1);
    }
}

/// The pages that the field value `s` names. Without two hyphens it names one
/// page. Otherwise it names a range, from what stands before the first two
/// hyphens to what stands between them and the next two, or the end.
pub open spec fn pages_of(s: Seq<char>) -> PagesView {
    let i = next_hyphens(s, 0);
    if i < s.len() {
        PagesView::Range(s.take(i), s.subrange(i + 2, next_hyphens(s, i + 2)))
    } else {
        PagesView::Single(s)
    }
}

/// The pages as they are shown.
pub open spec fn pages_text(p: PagesView) -> Seq<char> {
    match p {
        PagesView::Single(page) => "p. "@ + page,
        PagesView::Range(first, last) => "p. "@ + first + "–"@ + last,
    }
}

/// The first place at or after `from` where two hyphens stand.
fn find_hyphens(s: &Vec<char>, from: usize) -> (at: usize)
    requires
        from <= s.len(),
    ensures
        at == next_hyphens(s@, from as int),
        from <= at <= s.len(),
{
    let n = s.len();
    let mut i: usize = from;
    proof {
        lemma_next_hyphens_bounds(s@, from as int);
    }
    while i < n
        invariant
            from <= i <= n,
            n == s.len(),
            next_hyphens(s@, from as int) == next_hyphens(s@, i as int),
        decreases n - i,
    {
        if i + 1 < n && s[i] == '-' && s[i + 1] == '-' {
            return i;
        }
        i += 1;
    }
    n
}

impl<'p> Pages<'p> {
    /// The pages that the field value `s` names.
    pub fn from_str(s: &'p str) -> (pages: Self)
        ensures
            pages@ == pages_of(s@),
    {
        let chars = chars_of(s);
        let n = chars.len();
        let i = find_hyphens(&chars, 0);
        if i < n {
            proof {
                lemma_next_hyphens_bounds(s@, 0);
            }
            let j = find_hyphens(&chars, i + 2);
            let first = s.substring_char(0, i);
            let last = s.substring_char(i + 2, j);
            assert(first@ =~= s@.take(i as int));
            Pages::Range(first, last)
        } else {
            Pages::Single(s)
        }
    }

    /// The pages as they are shown.
    pub fn chars(&self) -> (out: Vec<char>)
        ensures
            out@ == pages_text(self@),
    {
        let mut out: Vec<char> = Vec::new();
        assert(out@ =~= Seq::<char>::empty());
        match self {
            Pages::Single(page) => {
                push_str(&mut out, "p. ");
                push_str(&mut out, page);
                assert(out@ =~= "p. "@ + page@);
            },
            Pages::Range(first, last) => {
                push_str(&mut out, "p. ");
                push_str(&mut out, first);
                push_str(&mut out, "–");
                push_str(&mut out, last);
                assert(out@ =~= "p. "@ + first@ + "–"@ + last@);
            },
        }
        out
    }

    /// The pages as they are shown.
    pub fn to_string(&self) -> (out: String)
        ensures
            out@ == pages_text(self@),
    {
        string_of(&self.chars())
    }
}

} // verus!
