//! Place and publisher: two fields that may each hold several values, shown
//! pair by pair where they can be paired.
use vstd::prelude::*;
use crate::chars::{chars_of, chars_of_all, push_all, push_str, string_of, views};
use crate::join::{join, join_and, join_and_chars, join_chars};
use crate::separator::{and_split, split_on_and};
use crate::tex::{escape, escape_chars};

verus! {

/// The places and the publishers of a work, each list separated by `and`.
pub struct LocationPublisher<'a>(pub &'a str, pub &'a str);

/// One place with its publisher. A side that is empty is marked as unknown.
pub open spec fn single_loc_pub(location: Seq<char>, publisher: Seq<char>) -> Seq<char> {
    if location.len() == 0 && publisher.len() == 0 {
        "[s.l.: s.n.]"@
    } else if location.len() == 0 {
        "[s.l.]: "@ + escape(publisher)
    } else if publisher.len() == 0 {
        escape(location) + ": [s.n.]"@
    } else {
        escape(location) + ": "@ + escape(publisher)
    }
}

/// The pairs of two lists of equal length, each as one place with its
/// publisher.
pub open spec fn pairs(locations: Seq<Seq<char>>, publishers: Seq<Seq<char>>) -> Seq<Seq<char>> {
    Seq::new(locations.len(), |i: int| single_loc_pub(locations[i], publishers[i]))
}

/// Places and publishers as they are shown. Lists of equal length are paired
/// in order, with `; ` between the pairs. Lists of different lengths are each
/// written out, with commas and a last `e`, on the two sides of a colon.
pub open spec fn loc_pub_text(location: Seq<char>, publisher: Seq<char>) -> Seq<char> {
    let locations = and_split(location);
    let publishers = and_split(publisher);
    if locations.len() == publishers.len() {
        join("; "@, pairs(locations, publishers))
    } else {
        join_and(", "@, " e "@, locations) + ": "@ + join_and(", "@, " e "@, publishers)
    }
}

/// One place with its publisher.
fn single_loc_pub_chars(location: &Vec<char>, publisher: &Vec<char>) -> (out: Vec<char>)
    ensures
        out@ == single_loc_pub(location@, publisher@),
{
    let mut out: Vec<char> = Vec::new();
    assert(out@ =~= Seq::<char>::empty());
    if location.len() == 0 && publisher.len() == 0 {
        push_str(&mut out, "[s.l.: s.n.]");
        assert(out@ =~= "[s.l.: s.n.]"@);
    } else if location.len() == 0 {
        push_str(&mut out, "[s.l.]: ");
        push_all(&mut out, &escape_chars(publisher));
        assert(out@ =~= "[s.l.]: "@ + escape(publisher@));
    } else if publisher.len() == 0 {
        push_all(&mut out, &escape_chars(location));
        push_str(&mut out, ": [s.n.]");
        assert(out@ =~= escape(location@) + ": [s.n.]"@);
    } else {
        push_all(&mut out, &escape_chars(location));
        push_str(&mut out, ": ");
        push_all(&mut out, &escape_chars(publisher));
        assert(out@ =~= escape(location@) + ": "@ + escape(publisher@));
    }
    out
}

/// Places and publishers as they are shown.
pub fn loc_pub_chars(location: &str, publisher: &str) -> (out: Vec<char>)
    ensures
        out@ == loc_pub_text(location@, publisher@),
{
    let locations = chars_of_all(&split_on_and(location));
    let publishers = chars_of_all(&split_on_and(publisher));
    if locations.len() == publishers.len() {
        let mut items: Vec<Vec<char>> = Vec::new();
        let mut i: usize = 0;
        while i < locations.len()
            invariant
                i <= locations.len(),
                locations.len() == publishers.len(),
                views(locations@) == and_split(location@),
                views(publishers@) == and_split(publisher@),
                items@.len() == i,
                forall|k: int|
                    0 <= k < i ==> (#[trigger] items@[k])@ == single_loc_pub(
                        and_split(location@)[k],
                        and_split(publisher@)[k],
                    ),
            decreases locations.len() - i,
        {
            assert(views(locations@)[i as int] == locations@[i as int]@);
            assert(views(publishers@)[i as int] == publishers@[i as int]@);
            items.push(single_loc_pub_chars(&locations[i], &publishers[i]));
            i += 1;
        }
        assert(views(items@) =~= pairs(and_split(location@), and_split(publisher@)));
        let sep = chars_of("; ");
        join_chars(&sep, &items)
    } else {
        let sep = chars_of(", ");
        let and = chars_of(" e ");
        let mut out = join_and_chars(&sep, &and, &locations);
        push_str(&mut out, ": ");
        push_all(&mut out, &join_and_chars(&sep, &and, &publishers));
        out
    }
}

impl<'a> LocationPublisher<'a> {
    /// Places and publishers as they are shown.
    pub fn to_string(&self) -> (out: String)
        ensures
            out@ == loc_pub_text(self.0@, self.1@),
    {
        string_of(&loc_pub_chars(self.0, self.1))
    }
}

/// Lists of places and publishers of equal length are paired in order: the
/// text is the pairs with `; ` between them, and each pair shows the place
/// and the publisher that stand at the same position.
pub proof fn lemma_equal_counts_pair(location: Seq<char>, publisher: Seq<char>)
    requires
        and_split(location).len() == and_split(publisher).len(),
    ensures
        loc_pub_text(location, publisher) == join(
            "; "@,
            pairs(and_split(location), and_split(publisher)),
        ),
        pairs(and_split(location), and_split(publisher)).len() == and_split(location).len(),
        forall|i: int|
            0 <= i < and_split(location).len() ==> #[trigger] pairs(
                and_split(location),
                and_split(publisher),
            )[i] == single_loc_pub(and_split(location)[i], and_split(publisher)[i]),
{
}

/// Lists of places and publishers of different lengths are not paired: each
/// is written out with commas and a last `e`, the places before the colon and
/// the publishers after it.
pub proof fn lemma_unequal_counts_listed(location: Seq<char>, publisher: Seq<char>)
    requires
        and_split(location).len() != and_split(publisher).len(),
    ensures
        loc_pub_text(location, publisher) == join_and(", "@, " e "@, and_split(location)) + ": "@
            + join_and(", "@, " e "@, and_split(publisher)),
{
}

/// Without a place and without a publisher both are marked as unknown.
pub proof fn lemma_both_empty_unknown()
    ensures
        loc_pub_text(Seq::empty(), Seq::empty()) == "[s.l.: s.n.]"@,
{
    let e = Seq::<char>::empty();
    assert(and_split(e) =~= seq![e.subrange(0, 0)]);
    assert(e.subrange(0, 0) =~= e);
    assert(pairs(and_split(e), and_split(e)) =~= seq![single_loc_pub(e, e)]);
}

} // verus!
