//! Lists of named values, each name once.

use crate::text::same_text;
use vstd::prelude::*;

verus! {

/// Values with their names, in the order in which the names came first. No
/// name occurs twice.
#[derive(Debug)]
pub struct Table<V> {
    entries: Vec<(String, V)>,
}

/// No name occurs twice.
pub open spec fn distinct_names<V>(entries: Seq<(String, V)>) -> bool {
    forall|i: int, j: int|
        0 <= i < j < entries.len() ==> (#[trigger] entries[i]).0@ != (#[trigger] entries[j]).0@
}

/// `entries` with `value` for `name`: in the place of the value that the name
/// has there, or at the end where the name is new.
pub open spec fn with_entry<V>(entries: Seq<(String, V)>, name: String, value: V) -> Seq<(String, V)>
    decreases entries.len(),
{
    if entries.len() == 0 {
        seq![(name, value)]
    } else if entries[0].0@ == name@ {
        seq![(entries[0].0, value)] + entries.skip(1)
    } else {
        seq![entries[0]] + with_entry(entries.skip(1), name, value)
    }
}

/// The pairs with the last value of each name only.
pub open spec fn collected<V>(pairs: Seq<(String, V)>) -> Seq<(String, V)>
    decreases pairs.len(),
{
    if pairs.len() == 0 {
        seq![]
    } else {
        with_entry(collected(pairs.drop_last()), pairs.last().0, pairs.last().1)
    }
}

/// A new name goes to the end.
proof fn new_entry<V>(entries: Seq<(String, V)>, name: String, value: V)
    requires
        forall|i: int| 0 <= i < entries.len() ==> (#[trigger] entries[i]).0@ != name@,
    ensures
        with_entry(entries, name, value) == entries.push((name, value)),
    decreases entries.len(),
{
    if entries.len() > 0 {
        assert(entries[0].0@ != name@);
        let rest = entries.skip(1);
        assert forall|i: int| 0 <= i < rest.len() implies (#[trigger] rest[i]).0@ != name@ by {
            assert(rest[i] == entries[i + 1]);
        }
        new_entry(rest, name, value);
    }
    assert(with_entry(entries, name, value) =~= entries.push((name, value)));
}

/// A name that is there keeps its place.
proof fn replaced_entry<V>(entries: Seq<(String, V)>, name: String, value: V, at: int)
    requires
        0 <= at < entries.len(),
        entries[at].0@ == name@,
        forall|i: int| 0 <= i < at ==> (#[trigger] entries[i]).0@ != name@,
    ensures
        with_entry(entries, name, value) == entries.update(at, (entries[at].0, value)),
    decreases entries.len(),
{
    if at > 0 {
        assert(entries[0].0@ != name@);
        let rest = entries.skip(1);
        assert forall|i: int| 0 <= i < at - 1 implies (#[trigger] rest[i]).0@ != name@ by {
            assert(rest[i] == entries[i + 1]);
        }
        replaced_entry(rest, name, value, at - 1);
    }
    assert(with_entry(entries, name, value) =~= entries.update(at, (entries[at].0, value)));
}

/// Pairs in which no name occurs twice are collected as they are.
pub proof fn distinct_pairs_are_kept<V>(pairs: Seq<(String, V)>)
    requires
        distinct_names(pairs),
    ensures
        collected(pairs) == pairs,
    decreases pairs.len(),
{
    if pairs.len() == 0 {
        assert(collected(pairs) =~= pairs);
    } else {
        let front = pairs.drop_last();
        assert forall|i: int, j: int| 0 <= i < j < front.len() implies (#[trigger] front[i]).0@
            != (#[trigger] front[j]).0@ by {
            assert(pairs[i].0@ != pairs[j].0@);
        }
        distinct_pairs_are_kept(front);
        assert forall|i: int| 0 <= i < front.len() implies (#[trigger] front[i]).0@
            != pairs.last().0@ by {
            assert(pairs[i].0@ != pairs[pairs.len() - 1].0@);
        }
        new_entry(front, pairs.last().0, pairs.last().1);
        assert(pairs =~= front.push(pairs.last()));
    }
}

impl<V> View for Table<V> {
    type V = Seq<(String, V)>;

    closed spec fn view(&self) -> Seq<(String, V)> {
        self.entries@
    }
}

impl<V> Table<V> {
    #[verifier::type_invariant]
    spec fn names_are_distinct(self) -> bool {
        distinct_names(self.entries@)
    }

    /// The values of the named pairs; the last value of a name counts.
    pub fn from_pairs(pairs: Vec<(String, V)>) -> (table: Table<V>)
        ensures
            table@ == collected(pairs@),
            distinct_names(table@),
    {
        let mut rest = pairs;
        let mut entries: Vec<(String, V)> = Vec::new();
        let ghost mut taken: int = 0;
        assert(pairs@.skip(0) =~= pairs@);
        assert(entries@ =~= collected(pairs@.take(0)));
        while rest.len() > 0
            invariant
                0 <= taken <= pairs@.len(),
                rest@ == pairs@.skip(taken),
                entries@ == collected(pairs@.take(taken)),
                distinct_names(entries@),
            decreases rest@.len(),
        {
            let ghost before = entries@;
            proof {
                let next = pairs@.take(taken + 1);
                assert(next.drop_last() =~= pairs@.take(taken));
                assert(next.last() == rest@[0]);
            }
            let (name, value) = rest.remove(0);
            let mut at: usize = 0;
            while at < entries.len() && !same_text(entries[at].0.as_str(), name.as_str())
                invariant
                    at <= entries@.len(),
                    entries@ == before,
                    forall|i: int| 0 <= i < at ==> (#[trigger] before[i]).0@ != name@,
                decreases entries@.len() - at,
            {
                at = at + 1;
            }
            if at < entries.len() {
                proof {
                    replaced_entry(before, name, value, at as int);
                }
                let kept = entries[at].0.clone();
                entries.set(at, (kept, value));
                assert forall|i: int, j: int| 0 <= i < j < entries@.len() implies (
                #[trigger] entries@[i]).0@ != (#[trigger] entries@[j]).0@ by {
                    assert(before[i].0@ != before[j].0@);
                }
            } else {
                proof {
                    new_entry(before, name, value);
                }
                entries.push((name, value));
                assert forall|i: int, j: int| 0 <= i < j < entries@.len() implies (
                #[trigger] entries@[i]).0@ != (#[trigger] entries@[j]).0@ by {
                    assert(entries@[i] == before[i]);
                    if j < before.len() {
                        assert(entries@[j] == before[j]);
                    }
                }
            }
            proof {
                taken = taken + 1;
                assert(rest@ =~= pairs@.skip(taken));
            }
        }
        assert(pairs@.take(taken) =~= pairs@);
        Table { entries }
    }

    /// The values with their names.
    pub fn entries(&self) -> (entries: &Vec<(String, V)>)
        ensures
            entries@ == self@,
            distinct_names(self@),
    {
        proof {
            use_type_invariant(self);
        }
        &self.entries
    }
}

impl<V: Clone> Clone for Table<V> {
    fn clone(&self) -> (copy: Self)
        ensures
            copy@.len() == self@.len(),
            forall|i: int|
                0 <= i < self@.len() ==> (#[trigger] copy@[i]).0 == self@[i].0 && cloned::<V>(
                    self@[i].1,
                    copy@[i].1,
                ),
    {
        proof {
            use_type_invariant(self);
        }
        let mut entries: Vec<(String, V)> = Vec::new();
        let mut i: usize = 0;
        while i < self.entries.len()
            invariant
                i <= self.entries@.len(),
                entries@.len() == i,
                forall|j: int|
                    0 <= j < i ==> (#[trigger] entries@[j]).0 == self.entries@[j].0 && cloned::<V>(
                        self.entries@[j].1,
                        entries@[j].1,
                    ),
            decreases self.entries@.len() - i,
        {
            entries.push((self.entries[i].0.clone(), self.entries[i].1.clone()));
            i = i + 1;
        }
        assert forall|a: int, b: int| 0 <= a < b < entries@.len() implies (
        #[trigger] entries@[a]).0@ != (#[trigger] entries@[b]).0@ by {
            assert(self.entries@[a].0@ != self.entries@[b].0@);
        }
        Table { entries }
    }
}

/// Each name that was given has one entry, with the value that was given last;
/// there are no other entries.
pub proof fn last_value_of_a_name_counts<V>(pairs: Seq<(String, V)>)
    ensures
        forall|at: int|
            0 <= at < pairs.len() && (forall|j: int|
                at < j < pairs.len() ==> (#[trigger] pairs[j]).0@ != pairs[at].0@)
                ==> has_entry(collected(pairs), (#[trigger] pairs[at]).0@, pairs[at].1),
        forall|i: int|
            0 <= i < collected(pairs).len() ==> has_entry(
                pairs,
                (#[trigger] collected(pairs)[i]).0@,
                collected(pairs)[i].1,
            ),
        distinct_names(collected(pairs)),
    decreases pairs.len(),
{
    if pairs.len() > 0 {
        let front = pairs.drop_last();
        let before = collected(front);
        let after = collected(pairs);
        let last = pairs.len() - 1;
        let (name, value) = pairs.last();
        last_value_of_a_name_counts(front);
        entry_is_placed(before, name, value);
        assert forall|at: int|
            0 <= at < pairs.len() && (forall|j: int|
                at < j < pairs.len() ==> (#[trigger] pairs[j]).0@ != pairs[at].0@) implies has_entry(
            after,
            (#[trigger] pairs[at]).0@,
            pairs[at].1,
        ) by {
            if at < last {
                assert(pairs[last].0@ != pairs[at].0@);
                assert(front[at] == pairs[at]);
                assert forall|j: int| at < j < front.len() implies (#[trigger] front[j]).0@
                    != front[at].0@ by {
                    assert(pairs[j].0@ != pairs[at].0@);
                }
                let i = choose|i: int|
                    0 <= i < before.len() && (#[trigger] before[i]).0@ == pairs[at].0@
                        && before[i].1 == pairs[at].1;
                assert(after[i] == before[i]);
            } else {
                assert(pairs[at] == (name, value));
            }
        }
        assert forall|i: int| 0 <= i < after.len() implies has_entry(
            pairs,
            (#[trigger] after[i]).0@,
            after[i].1,
        ) by {
            if i < before.len() && before[i].0@ != name@ {
                assert(after[i] == before[i]);
                let j = choose|j: int|
                    0 <= j < front.len() && (#[trigger] front[j]).0@ == before[i].0@ && front[j].1
                        == before[i].1;
                assert(pairs[j] == front[j]);
            } else {
                assert(pairs[last].0@ == after[i].0@ && pairs[last].1 == after[i].1);
            }
        }
    }
}

/// One of the entries has this name and this value.
pub open spec fn has_entry<V>(entries: Seq<(String, V)>, name: Seq<char>, value: V) -> bool {
    exists|i: int| 0 <= i < entries.len() && (#[trigger] entries[i]).0@ == name && entries[i].1 == value
}

/// A value takes the place of the one that its name has, or stands at the end,
/// and no other entry changes.
pub proof fn entry_is_placed<V>(entries: Seq<(String, V)>, name: String, value: V)
    requires
        distinct_names(entries),
    ensures
        ({
            let after = with_entry(entries, name, value);
            &&& distinct_names(after)
            &&& has_entry(after, name@, value)
            &&& entries.len() <= after.len() <= entries.len() + 1
            &&& after.len() == entries.len() + 1 ==> after.last() == (name, value)
            &&& forall|i: int|
                0 <= i < entries.len() && (#[trigger] entries[i]).0@ != name@ ==> after[i]
                    == entries[i]
            &&& forall|i: int|
                0 <= i < entries.len() && (#[trigger] entries[i]).0@ == name@ ==> after[i].0@
                    == name@ && after[i].1 == value
        }),
{
    let after = with_entry(entries, name, value);
    if exists|i: int| 0 <= i < entries.len() && (#[trigger] entries[i]).0@ == name@ {
        let at = choose|i: int| 0 <= i < entries.len() && (#[trigger] entries[i]).0@ == name@;
        assert forall|i: int| 0 <= i < at implies (#[trigger] entries[i]).0@ != name@ by {
            assert(entries[i].0@ != entries[at].0@);
        }
        replaced_entry(entries, name, value, at);
        assert(after[at].0@ == name@);
        assert forall|i: int, j: int| 0 <= i < j < after.len() implies (#[trigger] after[i]).0@
            != (#[trigger] after[j]).0@ by {
            assert(entries[i].0@ != entries[j].0@);
        }
    } else {
        new_entry(entries, name, value);
        assert(after[entries.len() as int] == (name, value));
        assert forall|i: int, j: int| 0 <= i < j < after.len() implies (#[trigger] after[i]).0@
            != (#[trigger] after[j]).0@ by {
            assert(after[i] == entries[i]);
            if j < entries.len() {
                assert(after[j] == entries[j]);
            }
        }
    }
}

} // verus!
