//! A list of references in its final order.
use vstd::prelude::*;
use crate::abnt::{
    key_less,
    lemma_key_total,
    lemma_key_transitive,
    sort_key_of,
    Abnt,
    SortKey,
    SortKeyView,
};
use crate::record::Record;
use crate::words::str_starts_with;

verus! {

/// The sort key of a reference.
pub open spec fn key_of(r: Abnt) -> SortKeyView {
    sort_key_of(r.0@.tags)
}

/// The references are in order: none stands before one that comes earlier in
/// the list.
pub open spec fn in_order(refs: Seq<Abnt>) -> bool {
    forall|i: int, j: int| 0 <= i < j < refs.len() ==> !key_less(key_of(refs[j]), key_of(refs[i]))
}

/// A record is left out of the list where its citation key begins with the
/// word `Self`.
pub open spec fn is_reserved(citation_key: Seq<char>) -> bool {
    "Self"@.is_prefix_of(citation_key)
}

/// Whether the record is left out of the list.
pub fn record_is_reserved(b: &Record) -> (reserved: bool)
    ensures
        reserved == is_reserved(b@.citation_key),
{
    str_starts_with(b.citation_key.as_str(), "Self")
}

proof fn lemma_insert_multiset<A>(s: Seq<A>, i: int, a: A)
    requires
        0 <= i <= s.len(),
    ensures
        s.insert(i, a).to_multiset() == s.to_multiset().insert(a),
{
    broadcast use vstd::seq_lib::group_to_multiset_ensures;

    let t = s.insert(i, a);
    assert(t.remove(i) =~= s);
    assert(t[i] == a);
    assert(t.contains(a));
    assert(t.to_multiset() =~= s.to_multiset().insert(a));
}

/// Where a reference goes into a list that is in order: before the first
/// reference at or after place `i` that it stands before, or at the end.
pub open spec fn place_from(sorted: Seq<Abnt>, r: Abnt, i: int) -> int
    decreases sorted.len() - i,
{
    if i < 0 || i >= sorted.len() {
        sorted.len() as int
    } else if key_less(key_of(r), key_of(sorted[i])) {
        i
    } else {
        place_from(sorted, r, i + 1)
    }
}

/// The references in order: each goes, in its turn, into the list of those
/// before it. References that no key tells apart keep the order in which they
/// came.
pub open spec fn sorted_of(refs: Seq<Abnt>) -> Seq<Abnt>
    decreases refs.len(),
{
    if refs.len() == 0 {
        Seq::empty()
    } else {
        let head = sorted_of(refs.drop_last());
        head.insert(place_from(head, refs.last(), 0), refs.last())
    }
}

/// The references in order. The list that comes back is in order and holds
/// the references that were given, each as often as it was given.
pub fn sort_references<'b>(refs: &Vec<Abnt<'b>>) -> (out: Vec<Abnt<'b>>)
    ensures
        out@ == sorted_of(refs@),
        in_order(out@),
        out@.to_multiset() == refs@.to_multiset(),
{
    let mut out: Vec<Abnt<'b>> = Vec::new();
    let mut keys: Vec<SortKey> = Vec::new();
    let mut i: usize = 0;
    assert(refs@.take(0) =~= Seq::<Abnt>::empty());
    while i < refs.len()
        invariant
            i <= refs.len(),
            keys@.len() == out@.len(),
            out@.len() == i,
            forall|k: int| 0 <= k < out@.len() ==> (#[trigger] keys@[k])@ == key_of(out@[k]),
            out@ == sorted_of(refs@.take(i as int)),
            in_order(out@),
            out@.to_multiset() == refs@.take(i as int).to_multiset(),
        decreases refs.len() - i,
    {
        let r = refs[i];
        let key = r.sort_key();
        let mut p: usize = 0;
        while p < keys.len() && !key.less(&keys[p])
            invariant
                p <= keys@.len(),
                keys@.len() == out@.len(),
                key@ == key_of(r),
                forall|k: int| 0 <= k < out@.len() ==> (#[trigger] keys@[k])@ == key_of(out@[k]),
                forall|k: int| 0 <= k < p ==> !key_less(key_of(r), key_of(#[trigger] out@[k])),
                place_from(out@, r, 0) == place_from(out@, r, p as int),
            decreases keys@.len() - p,
        {
            p += 1;
        }
        let ghost before = out@;
        proof {
            lemma_insert_multiset(before, p as int, r);
            assert(refs@.take(i + 1) =~= refs@.take(i as int).push(r));
            assert(refs@.take(i + 1).drop_last() =~= refs@.take(i as int));
            assert(p == place_from(before, r, 0));
            broadcast use vstd::seq_lib::group_to_multiset_ensures;

        }
        out.insert(p, r);
        keys.insert(p, key);
        proof {
            let after = out@;
            assert forall|a: int, b: int| 0 <= a < b < after.len() implies !key_less(
                key_of(after[b]),
                key_of(after[a]),
            ) by {
                if b == p {
                    assert(after[a] == before[a]);
                } else if a == p {
                    assert(after[b] == before[b - 1]);
                    assert(key_less(key_of(r), key_of(before[p as int])));
                    if key_less(key_of(before[b - 1]), key_of(r)) {
                        lemma_key_transitive(
                            key_of(before[b - 1]),
                            key_of(r),
                            key_of(before[p as int]),
                        );
                        lemma_key_total(key_of(before[b - 1]), key_of(r));
                    }
                } else {
                    let x = if a < p {
                        a
                    } else {
                        a - 1
                    };
                    let y = if b < p {
                        b
                    } else {
                        b - 1
                    };
                    assert(after[a] == before[x] && after[b] == before[y]);
                }
            }
            assert forall|k: int| 0 <= k < after.len() implies (#[trigger] keys@[k])@ == key_of(
                after[k],
            ) by {
                if k < p {
                } else if k > p {
                    assert(after[k] == before[k - 1]);
                }
            }
        }
        i += 1;
    }
    assert(refs@.take(refs@.len() as int) =~= refs@);
    out
}

} // verus!
