//! A JSON value as plain data, and the few questions the completion logic
//! asks of one.

use vstd::prelude::*;

verus! {

/// A JSON value. Numbers are kept as their literal text, so that none loses
/// precision on the way through. An object lists its members in the order
/// they were written; where a key occurs more than once, the last one counts.
#[derive(Debug, PartialEq, Eq)]
pub enum Json {
    Null,
    Bool(bool),
    Number(String),
    Text(String),
    Array(Vec<Json>),
    Object(Vec<(String, Json)>),
}

/// The mathematical value of a [`Json`].
pub enum JsonView {
    Null,
    Bool(bool),
    Number(Seq<char>),
    Text(Seq<char>),
    Array(Seq<JsonView>),
    Object(Seq<(Seq<char>, JsonView)>),
}

impl View for Json {
    type V = JsonView;

    open spec fn view(&self) -> JsonView {
        self.value()
    }
}

impl Clone for Json {
    fn clone(&self) -> (copy: Self)
        ensures
            copy@ == self@,
    {
        self.duplicate()
    }
}

impl Json {
    /// What the value is, with text as sequences of characters and lists as
    /// sequences.
    pub open spec fn value(&self) -> JsonView
        decreases self,
    {
        match self {
            Json::Null => JsonView::Null,
            Json::Bool(b) => JsonView::Bool(*b),
            Json::Number(literal) => JsonView::Number(literal@),
            Json::Text(text) => JsonView::Text(text@),
            Json::Array(items) => JsonView::Array(
                Seq::new(
                    items.len() as nat,
                    |i: int|
                        if 0 <= i < items.len() {
                            items[i].value()
                        } else {
                            JsonView::Null
                        },
                ),
            ),
            Json::Object(members) => JsonView::Object(
                Seq::new(
                    members.len() as nat,
                    |i: int|
                        if 0 <= i < members.len() {
                            (members[i].0@, members[i].1.value())
                        } else {
                            (Seq::empty(), JsonView::Null)
                        },
                ),
            ),
        }
    }
}

/// The values of a list of JSON values, one for one.
pub open spec fn views(items: Seq<Json>) -> Seq<JsonView> {
    Seq::new(items.len(), |i: int| items[i]@)
}

/// The keys and values of a list of members, one for one.
pub open spec fn member_views(members: Seq<(String, Json)>) -> Seq<(Seq<char>, JsonView)> {
    Seq::new(members.len(), |i: int| (members[i].0@, members[i].1@))
}

/// The value that stands under `key` in a list of keyed values: that of the
/// last pair with this key.
pub open spec fn last_value<V>(pairs: Seq<(Seq<char>, V)>, key: Seq<char>) -> Option<V>
    decreases pairs.len(),
{
    if pairs.len() == 0 {
        None
    } else if pairs.last().0 == key {
        Some(pairs.last().1)
    } else {
        last_value(pairs.drop_last(), key)
    }
}

/// In two lists joined, a key has the value that the second list gives it,
/// and that of the first list where the second has none.
pub proof fn lemma_last_value_joined<V>(
    first: Seq<(Seq<char>, V)>,
    second: Seq<(Seq<char>, V)>,
    key: Seq<char>,
)
    ensures
        last_value(first + second, key) == match last_value(second, key) {
            Some(value) => Some(value),
            None => last_value(first, key),
        },
    decreases second.len(),
{
    if second.len() == 0 {
        assert(first + second =~= first);
    } else {
        assert((first + second).drop_last() =~= first + second.drop_last());
        lemma_last_value_joined(first, second.drop_last(), key);
    }
}

/// A key that no pair has stands for nothing.
pub proof fn lemma_last_value_absent<V>(pairs: Seq<(Seq<char>, V)>, key: Seq<char>)
    requires
        forall|j: int| 0 <= j < pairs.len() ==> (#[trigger] pairs[j]).0 != key,
    ensures
        last_value(pairs, key) is None,
    decreases pairs.len(),
{
    if pairs.len() > 0 {
        let front = pairs.drop_last();
        assert forall|j: int| 0 <= j < front.len() implies (#[trigger] front[j]).0 != key by {
            assert(front[j] == pairs[j]);
        }
        lemma_last_value_absent(front, key);
    }
}

/// A key stands for the value of a pair that has it, where no later pair
/// has it.
pub proof fn lemma_last_value_at<V>(pairs: Seq<(Seq<char>, V)>, key: Seq<char>, index: int)
    requires
        0 <= index < pairs.len(),
        pairs[index].0 == key,
        forall|j: int| index < j < pairs.len() ==> (#[trigger] pairs[j]).0 != key,
    ensures
        last_value(pairs, key) == Some(pairs[index].1),
    decreases pairs.len(),
{
    if index + 1 < pairs.len() {
        let front = pairs.drop_last();
        assert(pairs.last() == pairs[pairs.len() - 1]);
        assert forall|j: int| index < j < front.len() implies (#[trigger] front[j]).0 != key by {
            assert(front[j] == pairs[j]);
        }
        lemma_last_value_at(front, key, index);
    }
}

/// Of a list with at most one pair: a key stands for the value of that pair
/// where it is the pair's key, and for nothing otherwise.
pub proof fn lemma_last_value_single<V>(pairs: Seq<(Seq<char>, V)>, key: Seq<char>)
    requires
        pairs.len() <= 1,
    ensures
        last_value(pairs, key) == if pairs.len() == 1 && pairs[0].0 == key {
            Some(pairs[0].1)
        } else {
            None
        },
{
    if pairs.len() == 1 {
        assert(pairs.last() == pairs[0]);
        lemma_last_value_absent(pairs.drop_last(), key);
    }
}

impl JsonView {
    /// The member of an object under `key`; `Null` where the value is no
    /// object or has no such member.
    pub open spec fn member(self, key: Seq<char>) -> JsonView {
        match self {
            JsonView::Object(members) => match last_value(members, key) {
                Some(value) => value,
                None => JsonView::Null,
            },
            _ => JsonView::Null,
        }
    }
}

/// The members of an object are its pairs, each key with the value of what
/// stands under it.
pub proof fn lemma_object_view(members: Vec<(String, Json)>)
    ensures
        Json::Object(members)@ == JsonView::Object(member_views(members@)),
{
    assert(Json::Object(members)@->Object_0 =~= member_views(members@));
}

/// The items of an array are the values of what it holds.
pub proof fn lemma_array_view(items: Vec<Json>)
    ensures
        Json::Array(items)@ == JsonView::Array(views(items@)),
{
    assert(Json::Array(items)@->Array_0 =~= views(items@));
}

impl Json {
    /// A copy of the value, equal to it in every part.
    pub fn duplicate(&self) -> (copy: Json)
        ensures
            copy@ == self@,
        decreases self,
    {
        match self {
            Json::Null => Json::Null,
            Json::Bool(b) => Json::Bool(*b),
            Json::Number(literal) => Json::Number(literal.clone()),
            Json::Text(text) => Json::Text(text.clone()),
            Json::Array(items) => {
                let mut copy: Vec<Json> = Vec::new();
                let mut i: usize = 0;
                while i < items.len()
                    invariant
                        decreases_to!(*self => *items),
                        i <= items@.len(),
                        copy@.len() == i,
                        forall|j: int| 0 <= j < i ==> (#[trigger] copy@[j])@ == items@[j]@,
                    decreases items@.len() - i,
                {
                    assert(decreases_to!(*items => items[i as int]));
                    copy.push(items[i].duplicate());
                    i = i + 1;
                }
                proof {
                    lemma_array_view(*items);
                    lemma_array_view(copy);
                    assert(views(copy@) =~= views(items@));
                }
                Json::Array(copy)
            },
            Json::Object(members) => {
                let mut copy: Vec<(String, Json)> = Vec::new();
                let mut i: usize = 0;
                while i < members.len()
                    invariant
                        decreases_to!(*self => *members),
                        i <= members@.len(),
                        copy@.len() == i,
                        forall|j: int|
                            0 <= j < i ==> (#[trigger] copy@[j]).0@ == members@[j].0@ && copy@[j].1@
                                == members@[j].1@,
                    decreases members@.len() - i,
                {
                    assert(decreases_to!(*members => members[i as int]));
                    copy.push((members[i].0.clone(), members[i].1.duplicate()));
                    i = i + 1;
                }
                proof {
                    lemma_object_view(*members);
                    lemma_object_view(copy);
                    assert(member_views(copy@) =~= member_views(members@));
                }
                Json::Object(copy)
            },
        }
    }

    /// Takes the member under `key` out of an object; gives `Null` where the
    /// value is no object or has no such member.
    pub fn into_member(self, key: &str) -> (value: Json)
        ensures
            value@ == self@.member(key@),
    {
        match self {
            Json::Object(mut members) => {
                let ghost all = self@->Object_0;
                let wanted = key.to_owned();
                proof {
                    lemma_object_view(members);
                }
                let mut upto: usize = members.len();
                assert(all.take(upto as int) =~= all);
                while upto > 0
                    invariant
                        upto <= members@.len(),
                        self@ == JsonView::Object(all),
                        all == member_views(members@),
                        wanted@ == key@,
                        last_value(all, key@) == last_value(all.take(upto as int), key@),
                    decreases upto,
                {
                    assert(all[upto - 1] == (members@[upto - 1].0@, members@[upto - 1].1@));
                    assert(all.take(upto as int).drop_last() =~= all.take(upto - 1));
                    if members[upto - 1].0 == wanted {
                        let found = members.swap_remove(upto - 1);
                        return found.1;
                    }
                    upto = upto - 1;
                }
                Json::Null
            },
            _ => Json::Null,
        }
    }
}

} // verus!
