//! Lists of texts written with a separator between them.
use vstd::prelude::*;
use crate::chars::{chars_of, chars_of_all, push_all, string_of, string_views, views};

verus! {

/// The items with `sep` between each two of them.
pub open spec fn join(sep: Seq<char>, items: Seq<Seq<char>>) -> Seq<char>
    decreases items.len(),
{
    if items.len() == 0 {
        Seq::empty()
    } else if items.len() == 1 {
        items[0]
    } else {
        join(sep, items.drop_last()) + sep + items.last()
    }
}

/// The items with `sep` between each two of them, but `and` before the last.
pub open spec fn join_and(sep: Seq<char>, and: Seq<char>, items: Seq<Seq<char>>) -> Seq<char> {
    if items.len() <= 1 {
        join(sep, items)
    } else {
        join(sep, items.drop_last()) + and + items.last()
    }
}

/// The items with `sep` between each two of them.
pub fn join_chars(sep: &Vec<char>, items: &Vec<Vec<char>>) -> (out: Vec<char>)
    ensures
        out@ == join(sep@, views(items@)),
{
    let mut out: Vec<char> = Vec::new();
    let ghost all = views(items@);
    let mut i: usize = 0;
    assert(all.take(0) =~= Seq::<Seq<char>>::empty());
    while i < items.len()
        invariant
            i <= items.len(),
            all == views(items@),
            out@ == join(sep@, all.take(i as int)),
        decreases items.len() - i,
    {
        assert(all.take(i + 1).drop_last() =~= all.take(i as int));
        assert(all.take(i + 1).last() == items@[i as int]@);
        if i > 0 {
            push_all(&mut out, sep);
        } else {
            assert(out@ =~= Seq::<char>::empty());
            assert(Seq::<char>::empty() + items@[0]@ =~= items@[0]@);
        }
        push_all(&mut out, &items[i]);
        i += 1;
    }
    assert(all.take(all.len() as int) =~= all);
    out
}

/// The items with `sep` between each two of them, but `and` before the last.
pub fn join_and_chars(sep: &Vec<char>, and: &Vec<char>, items: &Vec<Vec<char>>) -> (out: Vec<
    char,
>)
    ensures
        out@ == join_and(sep@, and@, views(items@)),
{
    let n = items.len();
    if n <= 1 {
        return join_chars(sep, items);
    }
    let mut out: Vec<char> = Vec::new();
    let ghost all = views(items@);
    let ghost head = all.drop_last();
    let mut i: usize = 0;
    assert(head.take(0) =~= Seq::<Seq<char>>::empty());
    while i < n - 1
        invariant
            n == items.len(),
            n >= 2,
            i <= n - 1,
            all == views(items@),
            head == all.drop_last(),
            out@ == join(sep@, head.take(i as int)),
        decreases n - i,
    {
        assert(head.take(i + 1).drop_last() =~= head.take(i as int));
        assert(head.take(i + 1).last() == items@[i as int]@);
        if i > 0 {
            push_all(&mut out, sep);
        } else {
            assert(out@ =~= Seq::<char>::empty());
            assert(Seq::<char>::empty() + items@[0]@ =~= items@[0]@);
        }
        push_all(&mut out, &items[i]);
        i += 1;
    }
    assert(head.take(head.len() as int) =~= head);
    push_all(&mut out, and);
    push_all(&mut out, &items[n - 1]);
    out
}

/// Texts to be written with a separator between them.
pub struct Join {
    sep: &'static str,
    items: Vec<String>,
}

impl Join {
    /// The separator.
    pub closed spec fn sep(&self) -> Seq<char> {
        self.sep@
    }

    /// The texts, in order.
    pub closed spec fn items(&self) -> Seq<Seq<char>> {
        string_views(self.items@)
    }

    pub fn new(sep: &'static str, items: Vec<String>) -> (j: Self)
        ensures
            j.sep() == sep@,
            j.items() == string_views(items@),
    {
        Self { sep, items }
    }

    /// The texts with the separator between each two of them.
    pub fn to_string(&self) -> (out: String)
        ensures
            out@ == join(self.sep(), self.items()),
    {
        let sep = chars_of(self.sep);
        let items = chars_of_all(&self.items);
        string_of(&join_chars(&sep, &items))
    }
}

/// Texts to be written with a separator between them, and another before the
/// last.
pub struct JoinAnd {
    sep: &'static str,
    and: &'static str,
    items: Vec<String>,
}

impl JoinAnd {
    /// The separator.
    pub closed spec fn sep(&self) -> Seq<char> {
        self.sep@
    }

    /// The separator before the last text.
    pub closed spec fn and(&self) -> Seq<char> {
        self.and@
    }

    /// The texts, in order.
    pub closed spec fn items(&self) -> Seq<Seq<char>> {
        string_views(self.items@)
    }

    pub fn new(sep: &'static str, and: &'static str, items: Vec<String>) -> (j: Self)
        ensures
            j.sep() == sep@,
            j.and() == and@,
            j.items() == string_views(items@),
    {
        Self { sep, and, items }
    }

    /// The texts with the separator between them, the last one after `and`.
    pub fn to_string(&self) -> (out: String)
        ensures
            out@ == join_and(self.sep(), self.and(), self.items()),
    {
        let sep = chars_of(self.sep);
        let and = chars_of(self.and);
        let items = chars_of_all(&self.items);
        string_of(&join_and_chars(&sep, &and, &items))
    }
}

} // verus!
