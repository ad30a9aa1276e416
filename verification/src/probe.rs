//! Asking one after the other until one answers.

use vstd::prelude::*;

verus! {

/// Who is asked next, where the first `asked` of the list were asked and did
/// not answer: the next one, if there is one.
pub open spec fn next_in_turn<T>(list: Seq<T>, asked: nat) -> Option<T> {
    if asked < list.len() {
        Some(list[asked as int])
    } else {
        None
    }
}

/// How many were asked once the next one is asked.
pub open spec fn asked_after<T>(list: Seq<T>, asked: nat) -> nat {
    if next_in_turn(list, asked) is Some {
        asked + 1
    } else {
        asked
    }
}

/// Who is asked from then on, where `answers` tells of each position in the
/// list whether there is an answer.
pub open spec fn asked_in_turn<T>(list: Seq<T>, answers: spec_fn(nat) -> bool, asked: nat) -> Seq<T>
    decreases list.len() - asked,
{
    match next_in_turn(list, asked) {
        Some(next) => if answers(asked) {
            seq![next]
        } else {
            seq![next] + asked_in_turn(list, answers, asked_after(list, asked))
        },
        None => seq![],
    }
}

/// All are asked in the order of the list, up to the first that answers, or up
/// to the end where none does.
pub proof fn asking_stops_at_the_first_answer<T>(
    list: Seq<T>,
    answers: spec_fn(nat) -> bool,
    asked: nat,
) -> (end: nat)
    requires
        asked <= list.len(),
    ensures
        asked <= end <= list.len(),
        asked_in_turn(list, answers, asked) == list.subrange(asked as int, end as int),
        forall|i: nat| asked <= i && i + 1 < end ==> !#[trigger] answers(i),
        end < list.len() ==> end > asked && answers((end - 1) as nat),
    decreases list.len() - asked,
{
    if asked == list.len() {
        assert(asked_in_turn(list, answers, asked) =~= list.subrange(asked as int, asked as int));
        asked
    } else if answers(asked) {
        let end = asked + 1;
        assert(asked_in_turn(list, answers, asked) =~= list.subrange(asked as int, end as int));
        end
    } else {
        let end = asking_stops_at_the_first_answer(list, answers, asked + 1);
        assert(asked_in_turn(list, answers, asked) =~= list.subrange(asked as int, end as int));
        end
    }
}

/// The next one in turn is the one behind those that were asked, until none is
/// left.
pub proof fn next_one_follows_those_asked<T>(list: Seq<T>, asked: nat)
    ensures
        asked < list.len() ==> next_in_turn(list, asked) == Some(list[asked as int])
            && asked_after(list, asked) == asked + 1,
        asked >= list.len() ==> next_in_turn(list, asked) is None && asked_after(list, asked)
            == asked,
{
}

} // verus!
