//! Names of authors and editors: one name surname first with initials, and a
//! list of names joined, or cut short after the first.
use vstd::prelude::*;
use crate::chars::{
    chars_of,
    push_all,
    push_str,
    string_of,
    string_views,
    unicode_lowercase,
    views,
};
use crate::join::{join, join_chars};
use crate::separator::{and_split, lemma_next_and_bounds, split_on_and};
use crate::tex::{find_free, first_free, last_free, rfind_free};
use crate::uppercase::{upper, uppercase_chars};
use crate::words::{lemma_words_nonempty, slice_of, split_words, trim, trim_chars, words};

verus! {

/// A field that holds names, separated by `and`.
pub struct Authors<'a>(pub &'a str);

/// One name, to be shown with the family name first.
pub struct SurnameFirst<'a>(pub &'a str);

/// The initial of a word: its first character and a full stop.
pub open spec fn initial(word: Seq<char>) -> Seq<char> {
    seq![word[0], '.']
}

/// The initials of the words of `given`, with a space between each two.
pub open spec fn initials(given: Seq<char>) -> Seq<char> {
    join(" "@, Seq::new(words(given).len(), |i: int| initial(words(given)[i])))
}

/// How many words at the start of `ws` begin with a lowercase letter: the
/// particles of a family name.
pub open spec fn particle_count(ws: Seq<Seq<char>>) -> nat
    decreases ws.len(),
{
    if ws.len() > 0 && ws[0].len() > 0 && unicode_lowercase(ws[0][0]) {
        1 + particle_count(ws.drop_first())
    } else {
        0
    }
}

/// Each of the words in upper case.
pub open spec fn uppers(ws: Seq<Seq<char>>) -> Seq<Seq<char>> {
    Seq::new(ws.len(), |i: int| upper(ws[i]))
}

/// The items, each after a copy of `sep`.
pub open spec fn prefixed(sep: Seq<char>, items: Seq<Seq<char>>) -> Seq<char>
    decreases items.len(),
{
    if items.len() == 0 {
        Seq::empty()
    } else {
        prefixed(sep, items.drop_last()) + sep + items.last()
    }
}

/// A name with its two parts known: the family name in upper case without its
/// particles, a comma, the initials of the given names, and then the
/// particles as they were written.
pub open spec fn family_given(family: Seq<char>, given: Seq<char>) -> Seq<char> {
    let fw = words(family);
    let p = particle_count(fw) as int;
    join(" "@, uppers(fw.skip(p))) + ", "@ + initials(given) + prefixed(" "@, fw.take(p))
}

/// A name, surname first. A name with a comma outside braces is written
/// family name first: what stands before its first such comma is the family
/// name, what follows it the given names. A name without one is written given
/// names first: what follows its last space outside braces is the family
/// name, what stands before it the given names. A name with neither is one
/// word, and is written in upper case as it is.
pub open spec fn surname_first(s: Seq<char>) -> Seq<char> {
    let comma = first_free(',', s, 0);
    let space = last_free(' ', s, s.len() as int);
    if comma < s.len() {
        family_given(s.take(comma), s.skip(comma + 1))
    } else if space >= 0 {
        family_given(s.skip(space + 1), s.take(space))
    } else {
        upper(s)
    }
}

/// The names of a field, each surname first. The first is trimmed.
pub open spec fn names_of(s: Seq<char>) -> Seq<Seq<char>> {
    Seq::new(
        and_split(s).len(),
        |i: int|
            if i == 0 {
                surname_first(trim(and_split(s)[0]))
            } else {
                surname_first(and_split(s)[i])
            },
    )
}

/// A field of names as it is shown: nothing for an empty field; up to three
/// names with `; ` between them; of four or more, the first and *et al*.
pub open spec fn authors_text(s: Seq<char>) -> Seq<char> {
    if s.len() == 0 {
        Seq::empty()
    } else if and_split(s).len() >= 4 {
        names_of(s)[0] + "; <em>et al</em>"@
    } else {
        join("; "@, names_of(s))
    }
}

/// The initials of the words of `given`.
fn initials_chars(given: &Vec<char>) -> (out: Vec<char>)
    ensures
        out@ == initials(given@),
{
    let ws = split_words(given);
    let mut items: Vec<Vec<char>> = Vec::new();
    let mut i: usize = 0;
    proof {
        lemma_words_nonempty(given@, 0);
    }
    while i < ws.len()
        invariant
            i <= ws.len(),
            views(ws@) == words(given@),
            forall|k: int| 0 <= k < words(given@).len() ==> (#[trigger] words(given@)[k]).len() > 0,
            items@.len() == i,
            forall|k: int| 0 <= k < i ==> (#[trigger] items@[k])@ == initial(words(given@)[k]),
        decreases ws.len() - i,
    {
        assert(views(ws@)[i as int] == ws@[i as int]@);
        assert(words(given@)[i as int].len() > 0);
        let mut item: Vec<char> = Vec::new();
        item.push(ws[i][0]);
        item.push('.');
        assert(item@ =~= initial(words(given@)[i as int]));
        items.push(item);
        i += 1;
    }
    assert(views(items@) =~= Seq::new(
        words(given@).len(),
        |k: int| initial(words(given@)[k]),
    ));
    let sep = chars_of(" ");
    join_chars(&sep, &items)
}

/// A name with its two parts known.
fn family_given_chars(family: &Vec<char>, given: &Vec<char>) -> (out: Vec<char>)
    ensures
        out@ == family_given(family@, given@),
{
    let fw = split_words(family);
    let ghost all = words(family@);
    proof {
        lemma_words_nonempty(family@, 0);
    }
    let mut p: usize = 0;
    assert(all.skip(0) =~= all);
    while p < fw.len() && fw[p][0].is_lowercase()
        invariant
            p <= fw.len(),
            all == words(family@),
            views(fw@) == all,
            forall|k: int| 0 <= k < all.len() ==> (#[trigger] all[k]).len() > 0,
            particle_count(all) == p + particle_count(all.skip(p as int)),
            p < fw.len() ==> fw@[p as int]@ == all.skip(p as int)[0] && fw@[p as int]@.len() > 0,
        decreases fw.len() - p,
    {
        assert(all.skip(p as int).drop_first() =~= all.skip(p + 1));
        p += 1;
        if p < fw.len() {
            assert(views(fw@)[p as int] == fw@[p as int]@);
            assert(all.skip(p as int)[0] == all[p as int]);
        }
    }
    assert(particle_count(all) == p) by {
        if p < fw.len() {
            assert(all.skip(p as int).len() > 0);
        } else {
            assert(all.skip(p as int).len() == 0);
        }
    }
    let mut ups: Vec<Vec<char>> = Vec::new();
    let mut i: usize = p;
    while i < fw.len()
        invariant
            p <= i <= fw.len(),
            views(fw@) == all,
            ups@.len() == i - p,
            forall|k: int| 0 <= k < i - p ==> (#[trigger] ups@[k])@ == upper(all[p + k]),
        decreases fw.len() - i,
    {
        assert(views(fw@)[i as int] == fw@[i as int]@);
        ups.push(uppercase_chars(&fw[i]));
        i += 1;
    }
    assert(views(ups@) =~= uppers(all.skip(p as int)));
    let space = chars_of(" ");
    let mut out = join_chars(&space, &ups);
    push_str(&mut out, ", ");
    let ini = initials_chars(given);
    push_all(&mut out, &ini);
    let ghost head = out@;
    let ghost particles = all.take(p as int);
    let mut k: usize = 0;
    assert(particles.take(0) =~= Seq::<Seq<char>>::empty());
    assert(head + Seq::<char>::empty() =~= head);
    while k < p
        invariant
            k <= p <= fw.len(),
            views(fw@) == all,
            particles == all.take(p as int),
            out@ == head + prefixed(" "@, particles.take(k as int)),
        decreases p - k,
    {
        assert(views(fw@)[k as int] == fw@[k as int]@);
        assert(particles.take(k + 1).drop_last() =~= particles.take(k as int));
        assert(particles.take(k + 1).last() == fw@[k as int]@);
        let ghost before = out@;
        push_str(&mut out, " ");
        push_all(&mut out, &fw[k]);
        assert(out@ =~= head + (prefixed(" "@, particles.take(k as int)) + " "@
            + fw@[k as int]@));
        k += 1;
    }
    assert(particles.take(p as int) =~= particles);
    out
}

/// A name, surname first.
pub fn surname_first_chars(s: &Vec<char>) -> (out: Vec<char>)
    ensures
        out@ == surname_first(s@),
{
    let n = s.len();
    match find_free(s, ',') {
        Some(i) => {
            let family = slice_of(s, 0, i);
            let given = slice_of(s, i + 1, n);
            assert(s@.take(i as int) =~= family@);
            assert(s@.skip(i + 1) =~= given@);
            family_given_chars(&family, &given)
        },
        None => {
            match rfind_free(s, ' ') {
                Some(i) => {
                    let given = slice_of(s, 0, i);
                    let family = slice_of(s, i + 1, n);
                    assert(s@.take(i as int) =~= given@);
                    assert(s@.skip(i + 1) =~= family@);
                    family_given_chars(&family, &given)
                },
                None => uppercase_chars(s),
            }
        },
    }
}

/// A field of names as it is shown.
pub fn authors_chars(s: &str) -> (out: Vec<char>)
    ensures
        out@ == authors_text(s@),
{
    if s.unicode_len() == 0 {
        return Vec::new();
    }
    let parts = split_on_and(s);
    let ghost split = and_split(s@);
    let first = surname_first_chars(&trim_chars(&chars_of(parts[0].as_str())));
    assert(first@ == names_of(s@)[0]);
    if parts.len() >= 4 {
        let mut out = first;
        push_str(&mut out, "; <em>et al</em>");
        out
    } else {
        let mut names: Vec<Vec<char>> = Vec::new();
        names.push(first);
        let mut i: usize = 1;
        while i < parts.len()
            invariant
                1 <= i <= parts.len(),
                split == and_split(s@),
                string_views(parts@) == split,
                names@.len() == i,
                forall|k: int| 0 <= k < i ==> (#[trigger] names@[k])@ == names_of(s@)[k],
            decreases parts.len() - i,
        {
            assert(string_views(parts@)[i as int] == parts@[i as int]@);
            names.push(surname_first_chars(&chars_of(parts[i].as_str())));
            i += 1;
        }
        assert(views(names@) =~= names_of(s@));
        let sep = chars_of("; ");
        join_chars(&sep, &names)
    }
}

impl<'a> SurnameFirst<'a> {
    /// The name, surname first.
    pub fn to_string(&self) -> (out: String)
        ensures
            out@ == surname_first(self.0@),
    {
        string_of(&surname_first_chars(&chars_of(self.0)))
    }
}

impl<'a> Authors<'a> {
    /// The names as they are shown.
    pub fn to_string(&self) -> (out: String)
        ensures
            out@ == authors_text(self.0@),
    {
        string_of(&authors_chars(self.0))
    }
}

/// A field of four names or more is cut short: it shows the first name, and
/// after `; ` the words *et al*.
pub proof fn lemma_four_names_cut_short(s: Seq<char>)
    requires
        s.len() > 0,
        and_split(s).len() >= 4,
    ensures
        authors_text(s) == surname_first(trim(and_split(s)[0])) + "; "@ + "<em>et al</em>"@,
{
    reveal_strlit("; ");
    reveal_strlit("<em>et al</em>");
    reveal_strlit("; <em>et al</em>");
    assert("; <em>et al</em>"@ =~= "; "@ + "<em>et al</em>"@);
    assert(names_of(s)[0] + ("; "@ + "<em>et al</em>"@) =~= names_of(s)[0] + "; "@
        + "<em>et al</em>"@);
}

/// A field of exactly three names shows all three, with `; ` between them.
pub proof fn lemma_three_names_all_shown(s: Seq<char>)
    requires
        and_split(s).len() == 3,
    ensures
        authors_text(s) == surname_first(trim(and_split(s)[0])) + "; "@ + surname_first(
            and_split(s)[1],
        ) + "; "@ + surname_first(and_split(s)[2]),
{
    let names = names_of(s);
    lemma_split_covers(s);
    let two = names.drop_last();
    assert(two.len() == 2 && two.last() == names[1]);
    assert(two.drop_last().len() == 1 && two.drop_last()[0] == names[0]);
    assert(join("; "@, two.drop_last()) == names[0]);
    assert(join("; "@, two) == names[0] + "; "@ + names[1]);
}

/// An empty field has one part, and a field with parts is not empty.
pub proof fn lemma_split_covers(s: Seq<char>)
    ensures
        s.len() == 0 ==> and_split(s).len() == 1,
        and_split(s).len() >= 2 ==> s.len() > 0,
{
    lemma_next_and_bounds(s, 0);
}

} // verus!
