//! Updating the watched repositories one by one or all at once ends alike.

use crate::consistency::updated_in_turn;
use crate::models::{VersionInfo, VersionInfoView};
use crate::refresh::{attempt_after, failure_text, repository_updated, Attempt, RefreshRun};
use crate::repos::{is_watched, watched, watched_keys, watched_keys_are_distinct};
use crate::state::AppState;
use vstd::prelude::*;

verus! {

// ---------------------------------------------------------------------------
// The outcomes of one repository
// ---------------------------------------------------------------------------

/// The outcomes of the updates of the repository `key`, in order.
pub open spec fn outcomes_for(
    updates: Seq<(Seq<char>, Result<VersionInfo, String>)>,
    key: Seq<char>,
) -> Seq<Result<VersionInfo, String>>
    decreases updates.len(),
{
    if updates.len() == 0 {
        seq![]
    } else if updates[0].0 == key {
        seq![updates[0].1] + outcomes_for(updates.skip(1), key)
    } else {
        outcomes_for(updates.skip(1), key)
    }
}

/// The release that is known of a repository after the outcomes of several
/// updates: the last one that was found.
pub open spec fn release_after(
    known: Option<VersionInfoView>,
    outcomes: Seq<Result<VersionInfo, String>>,
) -> Option<VersionInfoView>
    decreases outcomes.len(),
{
    if outcomes.len() == 0 {
        known
    } else {
        match outcomes[0] {
            Ok(info) => release_after(Some(info@), outcomes.skip(1)),
            Err(_) => release_after(known, outcomes.skip(1)),
        }
    }
}

/// Why a repository has failed, if it has, after the outcomes of several
/// updates: the last one decides.
pub open spec fn failure_after(
    key: Seq<char>,
    known: Option<Seq<char>>,
    outcomes: Seq<Result<VersionInfo, String>>,
) -> Option<Seq<char>>
    decreases outcomes.len(),
{
    if outcomes.len() == 0 {
        known
    } else {
        match outcomes[0] {
            Ok(_) => failure_after(key, None, outcomes.skip(1)),
            Err(reason) => failure_after(
                key,
                Some(failure_text(key, reason@)),
                outcomes.skip(1),
            ),
        }
    }
}

/// What is known of a repository depends on its own updates only.
pub proof fn own_updates_decide(
    states: Seq<AppState>,
    updates: Seq<(Seq<char>, Result<VersionInfo, String>)>,
    key: Seq<char>,
)
    requires
        updated_in_turn(states, updates),
    ensures
        states.last().releases().get(key) == release_after(
            states[0].releases().get(key),
            outcomes_for(updates, key),
        ),
        states.last().failures().get(key) == failure_after(
            key,
            states[0].failures().get(key),
            outcomes_for(updates, key),
        ),
    decreases updates.len(),
{
    if updates.len() > 0 {
        let rest_states = states.skip(1);
        let rest = updates.skip(1);
        assert forall|i: int|
            #![trigger rest[i]]
            0 <= i < rest.len() implies repository_updated(
            rest_states[i],
            rest_states[i + 1],
            rest[i].0,
            rest[i].1,
        ) by {
            assert(rest[i] == updates[i + 1]);
        }
        own_updates_decide(rest_states, rest, key);
        assert(rest_states.last() == states.last());
        assert(repository_updated(states[0], states[1], updates[0].0, updates[0].1));
        if updates[0].0 == key {
            let outcomes = outcomes_for(updates, key);
            assert(outcomes.skip(1) =~= outcomes_for(rest, key));
            assert(outcomes[0] == updates[0].1);
        }
    } else {
        assert(states.last() == states[0]);
    }
}

/// Where two rows of updates hold the same outcomes for every repository, in
/// the same order, they end with the same releases and failures, however the
/// updates of different repositories follow each other.
pub proof fn same_outcomes_end_alike(
    states: Seq<AppState>,
    updates: Seq<(Seq<char>, Result<VersionInfo, String>)>,
    other_states: Seq<AppState>,
    other_updates: Seq<(Seq<char>, Result<VersionInfo, String>)>,
)
    requires
        updated_in_turn(states, updates),
        updated_in_turn(other_states, other_updates),
        states[0].releases() == other_states[0].releases(),
        states[0].failures() == other_states[0].failures(),
        forall|key: Seq<char>| #[trigger]
            outcomes_for(updates, key) == outcomes_for(other_updates, key),
    ensures
        states.last().releases() == other_states.last().releases(),
        states.last().failures() == other_states.last().failures(),
{
    let (a, b) = (states.last(), other_states.last());
    assert forall|key: Seq<char>| #[trigger] a.releases().get(key) == b.releases().get(key)
        && a.failures().get(key) == b.failures().get(key) by {
        own_updates_decide(states, updates, key);
        own_updates_decide(other_states, other_updates, key);
        assert(outcomes_for(updates, key) == outcomes_for(other_updates, key));
    }
    same_answers_same_map(a.releases(), b.releases());
    assert forall|key: Seq<char>| #[trigger] a.failures().get(key) == b.failures().get(key) by {
        assert(a.releases().get(key) == b.releases().get(key));
    }
    same_answers_same_map(a.failures(), b.failures());
}

proof fn same_answers_same_map<V>(a: Map<Seq<char>, V>, b: Map<Seq<char>, V>)
    requires
        forall|key: Seq<char>| #[trigger] a.get(key) == b.get(key),
    ensures
        a == b,
{
    assert forall|key: Seq<char>| #[trigger] a.contains_key(key) <==> b.contains_key(key) by {
        assert(a.get(key) == b.get(key));
    }
    assert(a.dom() =~= b.dom());
    assert forall|key: Seq<char>| #[trigger] a.contains_key(key) implies a[key] == b[key] by {
        assert(a.get(key) == b.get(key));
    }
    assert(a =~= b);
}

// ---------------------------------------------------------------------------
// Without the times
// ---------------------------------------------------------------------------

/// A release without the times at which it was published and checked.
pub struct TimelessRelease {
    pub version: Seq<char>,
    pub tag: Seq<char>,
    pub release_notes_url: Option<Seq<char>>,
}

/// A release without its times.
pub open spec fn timeless(info: VersionInfoView) -> TimelessRelease {
    TimelessRelease {
        version: info.version,
        tag: info.tag,
        release_notes_url: info.release_notes_url,
    }
}

/// A release, if it is known, without its times.
pub open spec fn timeless_release(info: Option<VersionInfoView>) -> Option<TimelessRelease> {
    match info {
        Some(i) => Some(timeless(i)),
        None => None,
    }
}

/// The outcome of an update without the times of the release.
pub open spec fn timeless_outcome(outcome: Result<VersionInfo, String>) -> Result<
    TimelessRelease,
    Seq<char>,
> {
    match outcome {
        Ok(info) => Ok(timeless(info@)),
        Err(reason) => Err(reason@),
    }
}

/// Two rows of outcomes differ in the times of releases only.
pub open spec fn same_but_for_times(
    outcomes: Seq<Result<VersionInfo, String>>,
    other: Seq<Result<VersionInfo, String>>,
) -> bool {
    &&& outcomes.len() == other.len()
    &&& forall|i: int|
        0 <= i < outcomes.len() ==> timeless_outcome(#[trigger] outcomes[i]) == timeless_outcome(
            other[i],
        )
}

proof fn timeless_ends(
    key: Seq<char>,
    known: Option<VersionInfoView>,
    other_known: Option<VersionInfoView>,
    failure: Option<Seq<char>>,
    outcomes: Seq<Result<VersionInfo, String>>,
    other: Seq<Result<VersionInfo, String>>,
)
    requires
        timeless_release(known) == timeless_release(other_known),
        same_but_for_times(outcomes, other),
    ensures
        timeless_release(release_after(known, outcomes)) == timeless_release(
            release_after(other_known, other),
        ),
        failure_after(key, failure, outcomes) == failure_after(key, failure, other),
    decreases outcomes.len(),
{
    if outcomes.len() > 0 {
        assert(timeless_outcome(outcomes[0]) == timeless_outcome(other[0]));
        let (rest, other_rest) = (outcomes.skip(1), other.skip(1));
        assert forall|i: int| 0 <= i < rest.len() implies timeless_outcome(#[trigger] rest[i])
            == timeless_outcome(other_rest[i]) by {
            assert(rest[i] == outcomes[i + 1]);
        }
        match outcomes[0] {
            Ok(info) => {
                timeless_ends(
                    key,
                    Some(info@),
                    Some(other[0]->Ok_0@),
                    None,
                    rest,
                    other_rest,
                );
            },
            Err(reason) => {
                timeless_ends(
                    key,
                    known,
                    other_known,
                    Some(failure_text(key, reason@)),
                    rest,
                    other_rest,
                );
            },
        }
    }
}

/// The releases of two states differ in their times only, and the failures do
/// not differ.
pub open spec fn alike(state: AppState, other: AppState) -> bool {
    &&& forall|key: Seq<char>|
        timeless_release(#[trigger] state.releases().get(key)) == timeless_release(
            other.releases().get(key),
        )
    &&& state.failures() == other.failures()
}

// ---------------------------------------------------------------------------
// The two modes
// ---------------------------------------------------------------------------

/// The outcomes of the attempts at one repository, from the attempt on that
/// follows `retries` failed ones, where `replies` gives the outcome of each.
pub open spec fn attempts_of(
    replies: spec_fn(nat) -> Result<VersionInfo, String>,
    retries: u32,
    max_retries: u32,
) -> Seq<Result<VersionInfo, String>>
    decreases max_retries - retries,
{
    let outcome = replies(retries as nat);
    match attempt_after(retries, max_retries, outcome is Ok) {
        Attempt::Retry { retries: again, seconds: _ } => seq![outcome] + attempts_of(
            replies,
            again,
            max_retries,
        ),
        _ => seq![outcome],
    }
}

/// The updates of a run that takes the watched repositories one after the
/// other: each attempt is that at which the run stands, and takes the run on.
/// `replies` gives the outcome of each attempt at each repository.
pub open spec fn is_one_by_one(
    runs: Seq<RefreshRun>,
    updates: Seq<(Seq<char>, Result<VersionInfo, String>)>,
    replies: spec_fn(int) -> spec_fn(nat) -> Result<VersionInfo, String>,
    max_retries: u32,
) -> bool {
    &&& runs.len() == updates.len() + 1
    &&& runs[0] == RefreshRun { position: 0, retries: 0, updated: 0 }
    &&& !runs.last().is_running()
    &&& forall|i: int|
        #![trigger updates[i]]
        0 <= i < updates.len() ==> {
            &&& runs[i].is_running()
            &&& updates[i].0 == watched_keys()[runs[i].position as int]
            &&& updates[i].1 == replies(runs[i].position as int)(runs[i].retries as nat)
            &&& runs[i + 1] == runs[i].after(max_retries, updates[i].1 is Ok)
        }
}

/// How far the attempts at each watched repository have come: the number of
/// failed ones, or nothing where no attempt is left.
pub type Progress = Seq<Option<u32>>;

/// The progress after an attempt at the repository at `position`.
pub open spec fn progress_after(
    progress: Progress,
    position: int,
    max_retries: u32,
    updated: bool,
) -> Progress {
    progress.update(
        position,
        match attempt_after(progress[position]->0, max_retries, updated) {
            Attempt::Retry { retries: again, seconds: _ } => Some(again),
            _ => None,
        },
    )
}

/// The updates where all watched repositories are taken at once: the attempts
/// at different repositories follow each other as it comes, and `positions`
/// says at which one each was.
pub open spec fn is_all_at_once(
    stages: Seq<Progress>,
    positions: Seq<int>,
    updates: Seq<(Seq<char>, Result<VersionInfo, String>)>,
    replies: spec_fn(int) -> spec_fn(nat) -> Result<VersionInfo, String>,
    max_retries: u32,
) -> bool {
    &&& stages.len() == updates.len() + 1
    &&& positions.len() == updates.len()
    &&& stages[0] == Seq::new(watched().len(), |i: int| Some(0u32))
    &&& stages.last() == Seq::new(watched().len(), |i: int| None::<u32>)
    &&& forall|i: int|
        #![trigger updates[i]]
        0 <= i < updates.len() ==> {
            &&& 0 <= positions[i] < watched().len()
            &&& stages[i][positions[i]] is Some
            &&& updates[i].0 == watched_keys()[positions[i]]
            &&& updates[i].1 == replies(positions[i])(stages[i][positions[i]]->0 as nat)
            &&& stages[i + 1] == progress_after(
                stages[i],
                positions[i],
                max_retries,
                updates[i].1 is Ok,
            )
        }
}

/// The outcomes that are still to come for the repository at `position`.
spec fn still_one_by_one(
    run: RefreshRun,
    position: int,
    replies: spec_fn(nat) -> Result<VersionInfo, String>,
    max_retries: u32,
) -> Seq<Result<VersionInfo, String>> {
    if position < run.position {
        seq![]
    } else if position == run.position {
        attempts_of(replies, run.retries, max_retries)
    } else {
        attempts_of(replies, 0, max_retries)
    }
}

proof fn one_by_one_outcomes(
    runs: Seq<RefreshRun>,
    updates: Seq<(Seq<char>, Result<VersionInfo, String>)>,
    replies: spec_fn(int) -> spec_fn(nat) -> Result<VersionInfo, String>,
    max_retries: u32,
    position: int,
    from: int,
)
    requires
        is_one_by_one(runs, updates, replies, max_retries),
        0 <= position < watched().len(),
        0 <= from <= updates.len(),
    ensures
        outcomes_for(updates.skip(from), watched_keys()[position]) == still_one_by_one(
            runs[from],
            position,
            replies(position),
            max_retries,
        ),
    decreases updates.len() - from,
{
    let key = watched_keys()[position];
    let rest = updates.skip(from);
    if from < updates.len() {
        one_by_one_outcomes(runs, updates, replies, max_retries, position, from + 1);
        watched_keys_are_distinct();
        let run = runs[from];
        let update = updates[from];
        assert(rest[0] == update);
        assert(rest.skip(1) =~= updates.skip(from + 1));
        assert(update.0 == key <==> run.position == position);
        let later = outcomes_for(updates.skip(from + 1), key);
        assert(outcomes_for(rest, key) == if update.0 == key {
            seq![update.1] + later
        } else {
            later
        });
        assert(seq![update.1] + Seq::<Result<VersionInfo, String>>::empty() =~= seq![update.1]);
    }
}

/// The outcomes that are still to come for a repository.
spec fn still_at_once(
    stage: Option<u32>,
    replies: spec_fn(nat) -> Result<VersionInfo, String>,
    max_retries: u32,
) -> Seq<Result<VersionInfo, String>> {
    match stage {
        Some(retries) => attempts_of(replies, retries, max_retries),
        None => seq![],
    }
}

proof fn at_once_stages(
    stages: Seq<Progress>,
    positions: Seq<int>,
    updates: Seq<(Seq<char>, Result<VersionInfo, String>)>,
    replies: spec_fn(int) -> spec_fn(nat) -> Result<VersionInfo, String>,
    max_retries: u32,
    at: int,
)
    requires
        is_all_at_once(stages, positions, updates, replies, max_retries),
        0 <= at < stages.len(),
    ensures
        stages[at].len() == watched().len(),
    decreases at,
{
    if at > 0 {
        at_once_stages(stages, positions, updates, replies, max_retries, at - 1);
        assert(updates[at - 1] == updates[at - 1]);
    }
}

proof fn at_once_outcomes(
    stages: Seq<Progress>,
    positions: Seq<int>,
    updates: Seq<(Seq<char>, Result<VersionInfo, String>)>,
    replies: spec_fn(int) -> spec_fn(nat) -> Result<VersionInfo, String>,
    max_retries: u32,
    position: int,
    from: int,
)
    requires
        is_all_at_once(stages, positions, updates, replies, max_retries),
        0 <= position < watched().len(),
        0 <= from <= updates.len(),
    ensures
        outcomes_for(updates.skip(from), watched_keys()[position]) == still_at_once(
            stages[from][position],
            replies(position),
            max_retries,
        ),
    decreases updates.len() - from,
{
    let key = watched_keys()[position];
    let rest = updates.skip(from);
    if from < updates.len() {
        at_once_outcomes(
            stages,
            positions,
            updates,
            replies,
            max_retries,
            position,
            from + 1,
        );
        at_once_stages(stages, positions, updates, replies, max_retries, from);
        watched_keys_are_distinct();
        let update = updates[from];
        assert(rest[0] == update);
        assert(rest.skip(1) =~= updates.skip(from + 1));
        assert(update.0 == key <==> positions[from] == position);
        let later = outcomes_for(updates.skip(from + 1), key);
        assert(outcomes_for(rest, key) == if update.0 == key {
            seq![update.1] + later
        } else {
            later
        });
        assert(seq![update.1] + Seq::<Result<VersionInfo, String>>::empty() =~= seq![update.1]);
    }
}

proof fn no_outcomes_for_others(
    updates: Seq<(Seq<char>, Result<VersionInfo, String>)>,
    key: Seq<char>,
)
    requires
        forall|i: int| 0 <= i < updates.len() ==> (#[trigger] updates[i]).0 != key,
    ensures
        outcomes_for(updates, key).len() == 0,
    decreases updates.len(),
{
    if updates.len() > 0 {
        let rest = updates.skip(1);
        assert(updates[0].0 != key);
        assert forall|i: int| 0 <= i < rest.len() implies (#[trigger] rest[i]).0 != key by {
            assert(rest[i] == updates[i + 1]);
        }
        no_outcomes_for_others(rest, key);
    }
}

proof fn attempts_but_for_times(
    replies: spec_fn(nat) -> Result<VersionInfo, String>,
    other: spec_fn(nat) -> Result<VersionInfo, String>,
    retries: u32,
    max_retries: u32,
)
    requires
        forall|attempt: nat| timeless_outcome(#[trigger] replies(attempt)) == timeless_outcome(
            other(attempt),
        ),
    ensures
        same_but_for_times(
            attempts_of(replies, retries, max_retries),
            attempts_of(other, retries, max_retries),
        ),
    decreases max_retries - retries,
{
    assert(timeless_outcome(replies(retries as nat)) == timeless_outcome(other(retries as nat)));
    if replies(retries as nat) is Err && retries < max_retries {
        let again = (retries + 1) as u32;
        attempts_but_for_times(replies, other, again, max_retries);
        let (rest, other_rest) = (
            attempts_of(replies, again, max_retries),
            attempts_of(other, again, max_retries),
        );
        let outcomes = attempts_of(replies, retries, max_retries);
        assert forall|i: int| 0 <= i < outcomes.len() implies timeless_outcome(
            #[trigger] outcomes[i],
        ) == timeless_outcome(attempts_of(other, retries, max_retries)[i]) by {
            if i > 0 {
                assert(outcomes[i] == rest[i - 1]);
                assert(attempts_of(other, retries, max_retries)[i] == other_rest[i - 1]);
            }
        }
    }
}

/// Whether the watched repositories are updated one by one or all at once, the
/// end is the same: where each attempt at each repository has the same outcome
/// in both ways, but for the times read from the clock, the releases are the
/// same but for their times, and the failures are the same.
pub proof fn modes_end_alike(
    runs: Seq<RefreshRun>,
    states: Seq<AppState>,
    updates: Seq<(Seq<char>, Result<VersionInfo, String>)>,
    replies: spec_fn(int) -> spec_fn(nat) -> Result<VersionInfo, String>,
    stages: Seq<Progress>,
    positions: Seq<int>,
    other_states: Seq<AppState>,
    other_updates: Seq<(Seq<char>, Result<VersionInfo, String>)>,
    other_replies: spec_fn(int) -> spec_fn(nat) -> Result<VersionInfo, String>,
    max_retries: u32,
)
    requires
        updated_in_turn(states, updates),
        is_one_by_one(runs, updates, replies, max_retries),
        updated_in_turn(other_states, other_updates),
        is_all_at_once(stages, positions, other_updates, other_replies, max_retries),
        alike(states[0], other_states[0]),
        forall|position: int, attempt: nat|
            timeless_outcome(#[trigger] replies(position)(attempt)) == timeless_outcome(
                other_replies(position)(attempt),
            ),
    ensures
        alike(states.last(), other_states.last()),
{
    let (a, b) = (states.last(), other_states.last());
    let all = updates.skip(0);
    let other_all = other_updates.skip(0);
    assert(all =~= updates);
    assert(other_all =~= other_updates);
    assert forall|key: Seq<char>|
        timeless_release(#[trigger] a.releases().get(key)) == timeless_release(
            b.releases().get(key),
        ) && a.failures().get(key) == b.failures().get(key) by {
        own_updates_decide(states, updates, key);
        own_updates_decide(other_states, other_updates, key);
        let outcomes = outcomes_for(updates, key);
        let other_outcomes = outcomes_for(other_updates, key);
        if is_watched(key) {
            let position = choose|p: int| 0 <= p < watched_keys().len() && watched_keys()[p] == key;
            one_by_one_outcomes(runs, updates, replies, max_retries, position, 0);
            at_once_outcomes(
                stages,
                positions,
                other_updates,
                other_replies,
                max_retries,
                position,
                0,
            );
            assert forall|attempt: nat|
                timeless_outcome(#[trigger] replies(position)(attempt)) == timeless_outcome(
                    other_replies(position)(attempt),
                ) by {}
            attempts_but_for_times(replies(position), other_replies(position), 0, max_retries);
            assert(outcomes == attempts_of(replies(position), 0, max_retries));
            assert(other_outcomes == attempts_of(other_replies(position), 0, max_retries));
        } else {
            assert forall|i: int| 0 <= i < updates.len() implies (#[trigger] updates[i]).0
                != key by {
                assert(watched_keys()[runs[i].position as int] == updates[i].0);
            }
            assert forall|i: int| 0 <= i < other_updates.len() implies (
            #[trigger] other_updates[i]).0 != key by {
                assert(watched_keys()[positions[i]] == other_updates[i].0);
            }
            no_outcomes_for_others(updates, key);
            no_outcomes_for_others(other_updates, key);
        }
        assert(timeless_release(states[0].releases().get(key)) == timeless_release(
            other_states[0].releases().get(key),
        ));
        timeless_ends(
            key,
            states[0].releases().get(key),
            other_states[0].releases().get(key),
            states[0].failures().get(key),
            outcomes,
            other_outcomes,
        );
    }
    assert forall|key: Seq<char>| #[trigger] a.failures().get(key) == b.failures().get(key) by {
        assert(timeless_release(a.releases().get(key)) == timeless_release(b.releases().get(key)));
    }
    same_answers_same_map(a.failures(), b.failures());
}

} // verus!
