//! Maps from text to text.

use crate::text::{same_text, text_views};
use vstd::prelude::*;

verus! {

/// A map from text to text.
#[derive(Debug)]
pub struct TextMap {
    pairs: Vec<(String, String)>,
}

/// No key occurs twice.
spec fn distinct_keys(pairs: Seq<(String, String)>) -> bool {
    forall|i: int, j: int| 0 <= i < j < pairs.len() ==> (#[trigger] pairs[i]).0@ != (#[trigger] pairs[j]).0@
}

/// The map that a list of pairs stands for.
spec fn map_of(pairs: Seq<(String, String)>) -> Map<Seq<char>, Seq<char>>
    decreases pairs.len(),
{
    if pairs.len() == 0 {
        Map::empty()
    } else {
        map_of(pairs.drop_last()).insert(pairs.last().0@, pairs.last().1@)
    }
}

/// A map holds exactly the keys in its list.
proof fn map_of_keys(pairs: Seq<(String, String)>, key: Seq<char>)
    ensures
        map_of(pairs).contains_key(key) <==> exists|i: int|
            0 <= i < pairs.len() && (#[trigger] pairs[i]).0@ == key,
    decreases pairs.len(),
{
    if pairs.len() > 0 {
        let front = pairs.drop_last();
        map_of_keys(front, key);
        if map_of(front).contains_key(key) {
            let i = choose|i: int| 0 <= i < front.len() && (#[trigger] front[i]).0@ == key;
            assert(pairs[i].0@ == key);
        }
        if exists|i: int| 0 <= i < pairs.len() && (#[trigger] pairs[i]).0@ == key {
            let i = choose|i: int| 0 <= i < pairs.len() && (#[trigger] pairs[i]).0@ == key;
            if i < front.len() {
                assert(front[i].0@ == key);
            }
        }
    }
}

/// A map holds the value that stands beside a key in its list.
proof fn map_of_value(pairs: Seq<(String, String)>, at: int)
    requires
        distinct_keys(pairs),
        0 <= at < pairs.len(),
    ensures
        map_of(pairs).contains_key(pairs[at].0@),
        map_of(pairs)[pairs[at].0@] == pairs[at].1@,
    decreases pairs.len(),
{
    if at < pairs.len() - 1 {
        let front = pairs.drop_last();
        assert(distinct_keys(front)) by {
            assert forall|i: int, j: int| 0 <= i < j < front.len() implies (#[trigger] front[i]).0@
                != (#[trigger] front[j]).0@ by {
                assert(pairs[i].0@ != pairs[j].0@);
            }
        }
        map_of_value(front, at);
        assert(front[at] == pairs[at]);
        assert(pairs[at].0@ != pairs[pairs.len() - 1].0@);
    }
}

/// The map of a list whose entry `at` has another value.
proof fn map_of_update(pairs: Seq<(String, String)>, at: int, value: String)
    requires
        distinct_keys(pairs),
        0 <= at < pairs.len(),
    ensures
        distinct_keys(pairs.update(at, (pairs[at].0, value))),
        map_of(pairs.update(at, (pairs[at].0, value))) == map_of(pairs).insert(
            pairs[at].0@,
            value@,
        ),
    decreases pairs.len(),
{
    let after = pairs.update(at, (pairs[at].0, value));
    assert forall|i: int, j: int| 0 <= i < j < after.len() implies (#[trigger] after[i]).0@
        != (#[trigger] after[j]).0@ by {
        assert(after[i].0 == pairs[i].0 && after[j].0 == pairs[j].0);
        assert(pairs[i].0@ != pairs[j].0@);
    }
    let key = pairs[at].0@;
    let front = pairs.drop_last();
    if at == pairs.len() - 1 {
        assert(after.drop_last() =~= front);
        assert(map_of(after) =~= map_of(pairs).insert(key, value@));
    } else {
        assert(distinct_keys(front)) by {
            assert forall|i: int, j: int| 0 <= i < j < front.len() implies (#[trigger] front[i]).0@
                != (#[trigger] front[j]).0@ by {
                assert(pairs[i].0@ != pairs[j].0@);
            }
        }
        map_of_update(front, at, value);
        assert(after.drop_last() =~= front.update(at, (front[at].0, value)));
        assert(after.last() == pairs.last());
        assert(pairs[at].0@ != pairs[pairs.len() - 1].0@);
        assert(map_of(after) =~= map_of(pairs).insert(key, value@));
    }
}

impl View for TextMap {
    type V = Map<Seq<char>, Seq<char>>;

    closed spec fn view(&self) -> Map<Seq<char>, Seq<char>> {
        map_of(self.pairs@)
    }
}

impl TextMap {
    #[verifier::type_invariant]
    spec fn keys_are_distinct(self) -> bool {
        distinct_keys(self.pairs@)
    }

    /// The empty map.
    pub fn new() -> (map: TextMap)
        ensures
            map@ == Map::<Seq<char>, Seq<char>>::empty(),
    {
        TextMap { pairs: Vec::new() }
    }

    /// The map in which `key` has the value `value`, and every other key the
    /// value that it has in this one.
    pub fn insert(self, key: String, value: String) -> (map: TextMap)
        ensures
            map@ == self@.insert(key@, value@),
    {
        proof {
            use_type_invariant(&self);
        }
        let ghost before = self.pairs@;
        let mut pairs = self.pairs;
        let mut i: usize = 0;
        while i < pairs.len()
            invariant
                i <= pairs@.len(),
                pairs@ == before,
                distinct_keys(before),
                before == self.pairs@,
                self@ == map_of(before),
                forall|j: int| 0 <= j < i ==> (#[trigger] before[j]).0@ != key@,
            decreases pairs@.len() - i,
        {
            if same_text(pairs[i].0.as_str(), key.as_str()) {
                let name = pairs[i].0.clone();
                proof {
                    map_of_update(before, i as int, value);
                }
                pairs.set(i, (name, value));
                return TextMap { pairs };
            }
            i = i + 1;
        }
        pairs.push((key, value));
        proof {
            let after = pairs@;
            assert(after.drop_last() =~= before);
            assert forall|a: int, b: int| 0 <= a < b < after.len() implies (#[trigger] after[a]).0@
                != (#[trigger] after[b]).0@ by {
                assert(after[a] == before[a]);
                if b < before.len() {
                    assert(after[b] == before[b]);
                }
            }
        }
        TextMap { pairs }
    }

    /// The value of `key`, if it has one.
    pub fn get(&self, key: &str) -> (value: Option<String>)
        ensures
            value is Some <==> self@.contains_key(key@),
            value is Some ==> value->0@ == self@[key@],
    {
        proof {
            use_type_invariant(self);
        }
        let mut i: usize = 0;
        while i < self.pairs.len()
            invariant
                i <= self.pairs@.len(),
                distinct_keys(self.pairs@),
                forall|j: int| 0 <= j < i ==> (#[trigger] self.pairs@[j]).0@ != key@,
            decreases self.pairs@.len() - i,
        {
            if same_text(self.pairs[i].0.as_str(), key) {
                proof {
                    map_of_value(self.pairs@, i as int);
                }
                return Some(self.pairs[i].1.clone());
            }
            i = i + 1;
        }
        proof {
            map_of_keys(self.pairs@, key@);
        }
        None
    }

    /// The keys, each once.
    pub fn keys(&self) -> (keys: Vec<String>)
        ensures
            forall|key: Seq<char>|
                text_views(keys@).contains(key) <==> #[trigger] self@.contains_key(key),
            text_views(keys@).no_duplicates(),
    {
        proof {
            use_type_invariant(self);
        }
        let mut keys: Vec<String> = Vec::new();
        let mut i: usize = 0;
        while i < self.pairs.len()
            invariant
                i <= self.pairs@.len(),
                keys@.len() == i,
                forall|j: int| 0 <= j < i ==> (#[trigger] keys@[j])@ == self.pairs@[j].0@,
            decreases self.pairs@.len() - i,
        {
            keys.push(self.pairs[i].0.clone());
            i = i + 1;
        }
        proof {
            let views = text_views(keys@);
            assert forall|key: Seq<char>| views.contains(key) <==> #[trigger] self@.contains_key(
                key,
            ) by {
                map_of_keys(self.pairs@, key);
                if views.contains(key) {
                    let j = choose|j: int| 0 <= j < views.len() && views[j] == key;
                    assert(self.pairs@[j].0@ == key);
                }
                if self@.contains_key(key) {
                    let j = choose|j: int|
                        0 <= j < self.pairs@.len() && (#[trigger] self.pairs@[j]).0@ == key;
                    assert(views[j] == key);
                }
            }
            assert forall|a: int, b: int|
                0 <= a < views.len() && 0 <= b < views.len() && a != b implies views[a]
                != views[b] by {
                assert(self.pairs@[a].0@ != self.pairs@[b].0@);
            }
        }
        keys
    }
}

} // verus!
