//! A bibliographic record: the type of the entry, its citation key and its
//! tags in the order in which they were written.
use vstd::prelude::*;
use crate::words::{str_eq, trim, trim_str};

verus! {

/// A bibliographic record.
pub struct Record {
    pub entry_type: String,
    pub citation_key: String,
    pub tags: Vec<(String, String)>,
}

/// What a record holds.
pub struct RecordView {
    pub entry_type: Seq<char>,
    pub citation_key: Seq<char>,
    pub tags: Seq<(Seq<char>, Seq<char>)>,
}

/// The names and values of the tags, in order.
pub open spec fn tag_views(tags: Seq<(String, String)>) -> Seq<(Seq<char>, Seq<char>)> {
    Seq::new(tags.len(), |i: int| (tags[i].0@, tags[i].1@))
}

/// The texts of the names in `keys`.
pub open spec fn key_views(keys: Seq<&str>) -> Seq<Seq<char>> {
    Seq::new(keys.len(), |i: int| keys[i]@)
}

impl View for Record {
    type V = RecordView;

    open spec fn view(&self) -> RecordView {
        RecordView {
            entry_type: self.entry_type@,
            citation_key: self.citation_key@,
            tags: tag_views(self.tags@),
        }
    }
}

/// The place of the first tag at or after `i` whose name is one of `keys`, or
/// the number of tags where there is none.
pub open spec fn first_tag(tags: Seq<(Seq<char>, Seq<char>)>, keys: Seq<Seq<char>>, i: int) -> int
    decreases tags.len() - i,
{
    if i < 0 || i >= tags.len() {
        tags.len() as int
    } else if keys.contains(tags[i].0) {
        i
    } else {
        first_tag(tags, keys, i + 1)
    }
}

/// The value of a field that goes by any of the names in `keys`: that of the
/// first tag with one of these names. Later tags with one of them are not
/// looked at.
pub open spec fn value_of(tags: Seq<(Seq<char>, Seq<char>)>, keys: Seq<Seq<char>>) -> Option<
    Seq<char>,
> {
    if first_tag(tags, keys, 0) < tags.len() {
        Some(tags[first_tag(tags, keys, 0)].1)
    } else {
        None
    }
}

/// The text of a field, which is empty where the field is absent.
pub open spec fn text_of(value: Option<Seq<char>>) -> Seq<char> {
    match value {
        Some(v) => v,
        None => Seq::empty(),
    }
}

/// What an optional string holds.
pub open spec fn opt_view(value: Option<&str>) -> Option<Seq<char>> {
    match value {
        Some(v) => Some(v@),
        None => None,
    }
}

/// Whether `name` is one of `keys`.
fn is_one_of(name: &str, keys: &Vec<&str>) -> (found: bool)
    ensures
        found == key_views(keys@).contains(name@),
{
    let mut i: usize = 0;
    while i < keys.len()
        invariant
            i <= keys.len(),
            forall|j: int| 0 <= j < i ==> key_views(keys@)[j] != name@,
        decreases keys.len() - i,
    {
        if str_eq(keys[i], name) {
            assert(key_views(keys@)[i as int] == name@);
            return true;
        }
        i += 1;
    }
    false
}

impl Record {
    /// The value of the field that goes by any of the names in `keys`.
    pub fn value<'r>(&'r self, keys: &Vec<&str>) -> (value: Option<&'r str>)
        ensures
            opt_view(value) == value_of(self@.tags, key_views(keys@)),
    {
        let ghost tags = self@.tags;
        let ghost names = key_views(keys@);
        let mut i: usize = 0;
        while i < self.tags.len()
            invariant
                i <= self.tags.len(),
                tags == self@.tags,
                names == key_views(keys@),
                first_tag(tags, names, 0) == first_tag(tags, names, i as int),
            decreases self.tags.len() - i,
        {
            assert(tags[i as int].0 == self.tags@[i as int].0@);
            if is_one_of(self.tags[i].0.as_str(), keys) {
                assert(tags[i as int].1 == self.tags@[i as int].1@);
                return Some(self.tags[i].1.as_str());
            }
            i += 1;
        }
        None
    }

    /// The value of the field that goes by the name `key`.
    pub fn field<'r>(&'r self, key: &str) -> (value: Option<&'r str>)
        ensures
            opt_view(value) == value_of(self@.tags, seq![key@]),
    {
        let keys = vec![key];
        assert(key_views(keys@) =~= seq![key@]);
        self.value(&keys)
    }

    /// The value of the field that goes by either of two names.
    pub fn field_of_two<'r>(&'r self, key: &str, other: &str) -> (value: Option<&'r str>)
        ensures
            opt_view(value) == value_of(self@.tags, seq![key@, other@]),
    {
        let keys = vec![key, other];
        assert(key_views(keys@) =~= seq![key@, other@]);
        self.value(&keys)
    }

    /// The value of the field that goes by any of three names.
    pub fn field_of_three<'r>(&'r self, key: &str, other: &str, third: &str) -> (value: Option<
        &'r str,
    >)
        ensures
            opt_view(value) == value_of(self@.tags, seq![key@, other@, third@]),
    {
        let keys = vec![key, other, third];
        assert(key_views(keys@) =~= seq![key@, other@, third@]);
        self.value(&keys)
    }
}

/// A field's value, trimmed.
pub open spec fn trimmed(value: Option<Seq<char>>) -> Option<Seq<char>> {
    match value {
        Some(v) => Some(trim(v)),
        None => None,
    }
}

/// The string, or the empty string where there is none.
pub fn str_or_empty<'a>(value: Option<&'a str>) -> (out: &'a str)
    ensures
        out@ == text_of(opt_view(value)),
{
    match value {
        Some(v) => v,
        None => {
            let out = "";
            proof {
                reveal_strlit("");
            }
            assert(out@ =~= Seq::<char>::empty());
            out
        },
    }
}

/// The string trimmed, where there is one.
pub fn trim_opt<'a>(value: Option<&'a str>) -> (out: Option<&'a str>)
    ensures
        opt_view(out) == trimmed(opt_view(value)),
{
    match value {
        Some(v) => Some(trim_str(v)),
        None => None,
    }
}

/// The string trimmed, or the empty string where there is none.
pub fn trim_or_empty<'a>(value: Option<&'a str>) -> (out: &'a str)
    ensures
        out@ == text_of(trimmed(opt_view(value))),
{
    str_or_empty(trim_opt(value))
}

} // verus!
