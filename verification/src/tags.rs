//! Fields that a record must have: all of them are looked up, and every one
//! that is missing is reported.
use vstd::prelude::*;
use crate::chars::string_views;
use crate::record::{key_views, value_of, Record};

verus! {

/// The names of the fields that a record lacks.
#[derive(Debug, PartialEq, Eq)]
pub struct MissingTags {
    pub missing_tags: Vec<String>,
}

/// Those of `names` for which the tags hold no value, in order.
pub open spec fn missing(tags: Seq<(Seq<char>, Seq<char>)>, names: Seq<Seq<char>>) -> Seq<
    Seq<char>,
>
    decreases names.len(),
{
    if names.len() == 0 {
        Seq::empty()
    } else if value_of(tags, seq![names.last()]).is_none() {
        missing(tags, names.drop_last()).push(names.last())
    } else {
        missing(tags, names.drop_last())
    }
}

/// The values that the tags hold for `names`, one for each name: that of the
/// first tag of the name.
pub open spec fn values_of(tags: Seq<(Seq<char>, Seq<char>)>, names: Seq<Seq<char>>) -> Seq<
    Seq<char>,
> {
    Seq::new(names.len(), |i: int| value_of(tags, seq![names[i]]).unwrap())
}

/// No name is missing exactly where every name has a value.
pub proof fn lemma_missing_none(tags: Seq<(Seq<char>, Seq<char>)>, names: Seq<Seq<char>>)
    ensures
        missing(tags, names).len() == 0 <==> forall|i: int|
            0 <= i < names.len() ==> value_of(tags, seq![#[trigger] names[i]]).is_some(),
    decreases names.len(),
{
    if names.len() > 0 {
        lemma_missing_none(tags, names.drop_last());
        if missing(tags, names).len() == 0 {
            assert forall|i: int| 0 <= i < names.len() implies value_of(
                tags,
                seq![#[trigger] names[i]],
            ).is_some() by {
                if i < names.len() - 1 {
                    assert(names.drop_last()[i] == names[i]);
                }
            }
        } else if value_of(tags, seq![names.last()]).is_some() {
            let k = choose|k: int|
                0 <= k < names.drop_last().len() && !value_of(
                    tags,
                    seq![#[trigger] names.drop_last()[k]],
                ).is_some();
            assert(names[k] == names.drop_last()[k]);
        }
    }
}

/// The values of the fields `names` of the record, or the names of all those
/// that it lacks.
pub fn from_tags(b: &Record, names: &Vec<&str>) -> (found: Result<Vec<String>, MissingTags>)
    ensures
        match found {
            Ok(values) => missing(b@.tags, key_views(names@)).len() == 0 && string_views(values@)
                == values_of(b@.tags, key_views(names@)),
            Err(e) => missing(b@.tags, key_views(names@)).len() > 0 && string_views(
                e.missing_tags@,
            ) == missing(b@.tags, key_views(names@)),
        },
{
    let ghost tags = b@.tags;
    let ghost all = key_views(names@);
    let mut values: Vec<String> = Vec::new();
    let mut missing_tags: Vec<String> = Vec::new();
    let mut i: usize = 0;
    assert(all.take(0) =~= Seq::<Seq<char>>::empty());
    assert(string_views(missing_tags@) =~= Seq::<Seq<char>>::empty());
    while i < names.len()
        invariant
            i <= names.len(),
            tags == b@.tags,
            all == key_views(names@),
            string_views(missing_tags@) == missing(tags, all.take(i as int)),
            missing_tags@.len() == 0 ==> values@.len() == i,
            missing_tags@.len() == 0 ==> forall|k: int|
                0 <= k < i ==> value_of(tags, seq![all[k]]) == Some((#[trigger] values@[k])@),
        decreases names.len() - i,
    {
        assert(all.take(i + 1).drop_last() =~= all.take(i as int));
        assert(all.take(i + 1).last() == names@[i as int]@);
        let ghost before = string_views(missing_tags@);
        match b.field(names[i]) {
            Some(v) => {
                if missing_tags.len() == 0 {
                    values.push(v.to_owned());
                }
            },
            None => {
                missing_tags.push(names[i].to_owned());
                assert(string_views(missing_tags@) =~= before.push(names@[i as int]@));
            },
        }
        i += 1;
    }
    assert(all.take(names.len() as int) =~= all);
    if missing_tags.len() == 0 {
        assert(string_views(values@) =~= values_of(tags, all));
        Ok(values)
    } else {
        Err(MissingTags { missing_tags })
    }
}

} // verus!
