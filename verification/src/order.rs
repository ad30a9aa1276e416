//! Lists in the order of their names.

use crate::text::chars_of;
use vstd::prelude::*;

verus! {

// ---------------------------------------------------------------------------
// The order of texts
// ---------------------------------------------------------------------------

/// `a` stands before `b`: the first character in which they differ decides,
/// and a text stands before its extensions.
pub open spec fn text_less(a: Seq<char>, b: Seq<char>) -> bool
    decreases a.len(),
{
    if b.len() == 0 {
        false
    } else if a.len() == 0 {
        true
    } else if a[0] != b[0] {
        a[0] < b[0]
    } else {
        text_less(a.skip(1), b.skip(1))
    }
}

/// No text stands before itself.
pub proof fn text_less_irreflexive(a: Seq<char>)
    ensures
        !text_less(a, a),
    decreases a.len(),
{
    if a.len() > 0 {
        text_less_irreflexive(a.skip(1));
    }
}

/// What stands before a text stands before all that the text stands before.
pub proof fn text_less_transitive(a: Seq<char>, b: Seq<char>, c: Seq<char>)
    requires
        text_less(a, b),
        text_less(b, c),
    ensures
        text_less(a, c),
    decreases a.len(),
{
    if a.len() > 0 && a[0] == b[0] && b[0] == c[0] {
        text_less_transitive(a.skip(1), b.skip(1), c.skip(1));
    }
}

/// Of two different texts one stands before the other.
pub proof fn text_less_total(a: Seq<char>, b: Seq<char>)
    ensures
        text_less(a, b) || text_less(b, a) || a == b,
    decreases a.len(),
{
    if a.len() == 0 || b.len() == 0 {
        if a.len() == b.len() {
            assert(a =~= b);
        }
    } else if a[0] == b[0] {
        text_less_total(a.skip(1), b.skip(1));
        if a.skip(1) == b.skip(1) {
            assert(a =~= seq![a[0]] + a.skip(1));
            assert(b =~= seq![b[0]] + b.skip(1));
        }
    }
}

/// Whether `a` stands before `b`.
pub fn text_before(a: &str, b: &str) -> (before: bool)
    ensures
        before == text_less(a@, b@),
{
    let x = chars_of(a);
    let y = chars_of(b);
    let mut i: usize = 0;
    assert(a@.skip(0) =~= a@);
    assert(b@.skip(0) =~= b@);
    while i < x.len() && i < y.len() && x[i] == y[i]
        invariant
            x@ == a@,
            y@ == b@,
            i <= x@.len(),
            i <= y@.len(),
            text_less(a@, b@) == text_less(a@.skip(i as int), b@.skip(i as int)),
        decreases x@.len() - i,
    {
        assert(a@.skip(i as int).skip(1) =~= a@.skip(i + 1));
        assert(b@.skip(i as int).skip(1) =~= b@.skip(i + 1));
        i = i + 1;
    }
    if i >= y.len() {
        false
    } else if i >= x.len() {
        true
    } else {
        assert(a@.skip(i as int)[0] == x@[i as int]);
        assert(b@.skip(i as int)[0] == y@[i as int]);
        x[i] < y[i]
    }
}

// ---------------------------------------------------------------------------
// Lists of named things
// ---------------------------------------------------------------------------

/// Something that has a name.
pub trait Named: Sized {
    /// The name.
    spec fn spec_name(&self) -> Seq<char>;

    /// The name.
    fn name(&self) -> (name: &str)
        ensures
            name@ == self.spec_name(),
    ;
}

/// The names of the things in a list.
pub open spec fn names<T: Named>(items: Seq<T>) -> Seq<Seq<char>> {
    items.map_values(|item: T| item.spec_name())
}

/// Each text stands before all that follow it.
pub open spec fn increasing(texts: Seq<Seq<char>>) -> bool {
    forall|i: int, j: int| 0 <= i < j < texts.len() ==> text_less(#[trigger] texts[i], #[trigger] texts[j])
}

/// There is only one way to list the same texts in increasing order.
pub proof fn increasing_order_is_unique(a: Seq<Seq<char>>, b: Seq<Seq<char>>)
    requires
        increasing(a),
        increasing(b),
        forall|text: Seq<char>| #[trigger] a.contains(text) <==> b.contains(text),
    ensures
        a == b,
    decreases a.len(),
{
    if a.len() == 0 {
        if b.len() > 0 {
            assert(b.contains(b[0]));
            assert(a.contains(b[0]));
        }
        assert(a =~= b);
    } else {
        assert(a.contains(a.last()));
        let last = b.len() - 1;
        let at_b = choose|i: int| 0 <= i < b.len() && b[i] == a.last();
        assert(b.contains(b[last]));
        assert(a.contains(b[last]));
        let at_a = choose|i: int| 0 <= i < a.len() && a[i] == b[last];
        if at_b < last {
            assert(text_less(b[at_b], b[last]));
            if at_a < a.len() - 1 {
                assert(text_less(a[at_a], a[a.len() - 1]));
                text_less_transitive(a.last(), b[last], a.last());
            }
            text_less_irreflexive(a.last());
        }
        assert(a.last() == b.last());
        let front_a = a.drop_last();
        let front_b = b.drop_last();
        assert forall|text: Seq<char>| #[trigger] front_a.contains(text) <==> front_b.contains(
            text,
        ) by {
            if front_a.contains(text) {
                let i = choose|i: int| 0 <= i < front_a.len() && front_a[i] == text;
                assert(a[i] == text);
                assert(a.contains(text));
                assert(b.contains(text));
                let j = choose|j: int| 0 <= j < b.len() && b[j] == text;
                if j == last {
                    assert(text_less(a[i], a[a.len() - 1]));
                    text_less_irreflexive(text);
                }
                assert(front_b[j] == text);
            }
            if front_b.contains(text) {
                let i = choose|i: int| 0 <= i < front_b.len() && front_b[i] == text;
                assert(b[i] == text);
                assert(b.contains(text));
                assert(a.contains(text));
                let j = choose|j: int| 0 <= j < a.len() && a[j] == text;
                if j == a.len() - 1 {
                    assert(text_less(b[i], b[last]));
                    text_less_irreflexive(text);
                }
                assert(front_a[j] == text);
            }
        }
        increasing_order_is_unique(front_a, front_b);
        assert(a =~= front_a.push(a.last()));
        assert(b =~= front_b.push(b.last()));
    }
}

/// Puts `item`, whose name is new, at its place in a list that is in the order
/// of its names, and says where that is.
pub fn insert_in_order<T: Named>(items: &mut Vec<T>, item: T) -> (at: usize)
    requires
        increasing(names(old(items)@)),
        !names(old(items)@).contains(item.spec_name()),
    ensures
        at <= old(items)@.len(),
        final(items)@ == old(items)@.insert(at as int, item),
        increasing(names(final(items)@)),
{
    let ghost listed = names(items@);
    let mut at: usize = 0;
    while at < items.len() && text_before(items[at].name(), item.name())
        invariant
            at <= items@.len(),
            items@ == old(items)@,
            listed == names(items@),
            forall|i: int| 0 <= i < at ==> text_less(#[trigger] listed[i], item.spec_name()),
        decreases items@.len() - at,
    {
        assert(listed[at as int] == items@[at as int].spec_name());
        at = at + 1;
    }
    let ghost name = item.spec_name();
    proof {
        if at < items@.len() {
            assert(listed[at as int] == items@[at as int].spec_name());
            text_less_total(listed[at as int], name);
            assert(listed.contains(listed[at as int]));
            assert forall|i: int| at <= i < listed.len() implies text_less(name, #[trigger] listed[i]) by {
                if i > at {
                    text_less_transitive(name, listed[at as int], listed[i]);
                }
            }
        }
    }
    items.insert(at, item);
    proof {
        let after = names(items@);
        assert(after =~= listed.insert(at as int, name));
        assert forall|i: int, j: int| 0 <= i < j < after.len() implies text_less(
            #[trigger] after[i],
            #[trigger] after[j],
        ) by {
            let p = if i < at { i } else { i - 1 };
            let q = if j < at { j } else { j - 1 };
            if i != at {
                assert(after[i] == listed[p]);
            }
            if j != at {
                assert(after[j] == listed[q]);
            }
        }
    }
    at
}

/// An item that is put into a list adds its name, and nothing else, to the
/// names.
pub proof fn names_after_insert<T: Named>(items: Seq<T>, item: T, at: int)
    requires
        0 <= at <= items.len(),
    ensures
        forall|name: Seq<char>| #[trigger]
            names(items.insert(at, item)).contains(name) <==> names(items).contains(name) || name
                == item.spec_name(),
        forall|i: int|
            0 <= i < items.len() + 1 ==> #[trigger] items.insert(at, item)[i] == if i < at {
                items[i]
            } else if i == at {
                item
            } else {
                items[i - 1]
            },
{
    let before = names(items);
    let after = names(items.insert(at, item));
    assert forall|name: Seq<char>| #[trigger] after.contains(name) <==> before.contains(name)
        || name == item.spec_name() by {
        if after.contains(name) {
            let i = choose|i: int| 0 <= i < after.len() && after[i] == name;
            if i < at {
                assert(before[i] == name);
            } else if i > at {
                assert(before[i - 1] == name);
            }
        }
        if before.contains(name) {
            let i = choose|i: int| 0 <= i < before.len() && before[i] == name;
            if i < at {
                assert(after[i] == name);
            } else {
                assert(after[i + 1] == name);
            }
        }
        if name == item.spec_name() {
            assert(after[at] == name);
        }
    }
}

/// One text more of a list without repetitions is a new text.
pub proof fn take_one_more(texts: Seq<Seq<char>>, i: int)
    requires
        0 <= i < texts.len(),
        texts.no_duplicates(),
    ensures
        !texts.take(i).contains(texts[i]),
        forall|text: Seq<char>| #[trigger]
            texts.take(i + 1).contains(text) <==> texts.take(i).contains(text) || text == texts[i],
{
    let before = texts.take(i);
    let after = texts.take(i + 1);
    assert forall|text: Seq<char>| #[trigger] after.contains(text) <==> before.contains(text)
        || text == texts[i] by {
        if after.contains(text) {
            let j = choose|j: int| 0 <= j < after.len() && after[j] == text;
            if j < i {
                assert(before[j] == text);
            }
        }
        if before.contains(text) {
            let j = choose|j: int| 0 <= j < before.len() && before[j] == text;
            assert(after[j] == text);
        }
        if text == texts[i] {
            assert(after[i] == text);
        }
    }
}

/// The first character in which two texts differ decides which stands before
/// the other, and a text stands before its extensions.
pub proof fn first_difference_decides(
    common: Seq<char>,
    a: char,
    behind_a: Seq<char>,
    b: char,
    behind_b: Seq<char>,
)
    ensures
        a != b ==> (text_less(common + seq![a] + behind_a, common + seq![b] + behind_b) <==> (
        a as u32) < (b as u32)),
        text_less(common, common + seq![a] + behind_a),
        !text_less(common + seq![a] + behind_a, common),
    decreases common.len(),
{
    let x = common + seq![a] + behind_a;
    let y = common + seq![b] + behind_b;
    if common.len() > 0 {
        let rest = common.skip(1);
        first_difference_decides(rest, a, behind_a, b, behind_b);
        assert(x.skip(1) =~= rest + seq![a] + behind_a);
        assert(y.skip(1) =~= rest + seq![b] + behind_b);
        assert(x[0] == common[0] && y[0] == common[0]);
    } else {
        assert(x[0] == a && y[0] == b);
    }
}

} // verus!
