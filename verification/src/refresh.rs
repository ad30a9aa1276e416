//! Keeping the state up to date.

use crate::config::{repo_key, repo_key_text, repo_views, Config, RepoConfig};
use crate::models::VersionInfo;
use crate::probe::{asked_after, next_in_turn};
use crate::repos::{is_watched, repos, watched, watched_keys};
use crate::state::AppState;
use crate::store::{all_lists, drop_text, list_pairs, lists_entries, put_text, put_version};
use crate::text::text_views;
use crate::time::Timestamp;
use vstd::prelude::*;

verus! {

// ---------------------------------------------------------------------------
// One repository
// ---------------------------------------------------------------------------

/// Why the update of a repository failed, as it is kept.
pub open spec fn failure_text(key: Seq<char>, reason: Seq<char>) -> Seq<char> {
    "Failed to update "@ + key + ": "@ + reason
}

/// `after` is `before` with the outcome of an update of the repository `key`:
/// a release that was found is kept, and the repository has not failed; a
/// failure is kept beside the last release that was found.
pub open spec fn repository_updated(
    before: AppState,
    after: AppState,
    key: Seq<char>,
    outcome: Result<VersionInfo, String>,
) -> bool {
    &&& after == AppState { repos: after.repos, failed_repos: after.failed_repos, ..before }
    &&& match outcome {
        Ok(info) => {
            &&& after.releases() == before.releases().insert(key, info@)
            &&& after.failures() == before.failures().remove(key)
        },
        Err(reason) => {
            &&& after.releases() == before.releases()
            &&& after.failures() == before.failures().insert(key, failure_text(key, reason@))
        },
    }
}

/// Keeps the outcome of an update of `repo`.
pub fn refresh_repository(
    state: &mut AppState,
    repo: &RepoConfig,
    outcome: Result<VersionInfo, String>,
) -> (result: Result<(), String>)
    ensures
        repository_updated(*old(state), *final(state), repo_key(repo@), outcome),
        old(state).wf() && is_watched(repo_key(repo@)) ==> final(state).wf(),
        match outcome {
            Ok(_) => result is Ok,
            Err(reason) => result is Err && result->Err_0@ == reason@,
        },
        match outcome {
            Ok(info) => final(state).releases().contains_pair(
                repo.owner@ + "/"@ + repo.name@,
                info@,
            ) && !final(state).failures().contains_key(repo.owner@ + "/"@ + repo.name@),
            Err(reason) => final(state).failures().contains_pair(
                repo.owner@ + "/"@ + repo.name@,
                "Failed to update "@ + (repo.owner@ + "/"@ + repo.name@) + ": "@ + reason@,
            ) && final(state).releases() == old(state).releases(),
        },
{
    let key = repo_key_text(repo);
    match outcome {
        Ok(info) => {
            put_version(&mut state.repos, key.clone(), info);
            drop_text(&mut state.failed_repos, key.as_str());
            proof {
                if old(state).wf() {
                    assert forall|k: Seq<char>| #[trigger]
                        state.failures().contains_key(k) implies is_watched(k) by {
                        assert(old(state).failures().contains_key(k));
                    }
                }
            }
            Ok(())
        },
        Err(reason) => {
            let mut message = "Failed to update ".to_string();
            message.append(key.as_str());
            message.append(": ");
            message.append(reason.as_str());
            put_text(&mut state.failed_repos, key, message);
            proof {
                if old(state).wf() && is_watched(repo_key(repo@)) {
                    assert forall|k: Seq<char>| #[trigger]
                        state.failures().contains_key(k) implies is_watched(k) by {
                        assert(k == repo_key(repo@) || old(state).failures().contains_key(k));
                    }
                }
            }
            Err(reason)
        },
    }
}

/// What comes after an attempt to update a repository.
#[derive(Debug, Clone, Copy, PartialEq, Eq, Structural)]
pub enum Attempt {
    Updated,
    /// Another attempt, the given number of seconds later.
    Retry { retries: u32, seconds: u64 },
    GivenUp,
}

/// What comes after an attempt, where `retries` attempts failed before it: a
/// failure is tried again up to `max_retries` times, five seconds later at
/// first and five more each time.
pub open spec fn attempt_after(retries: u32, max_retries: u32, updated: bool) -> Attempt {
    if updated {
        Attempt::Updated
    } else if retries < max_retries {
        Attempt::Retry { retries: (retries + 1) as u32, seconds: (5 * (retries + 1)) as u64 }
    } else {
        Attempt::GivenUp
    }
}

/// Keeps the outcome of an attempt to update `repo`, where `retries` attempts
/// failed before it, and says what comes next.
pub fn refresh_attempt(
    state: &mut AppState,
    repo: &RepoConfig,
    retries: u32,
    outcome: Result<VersionInfo, String>,
) -> (next: Attempt)
    ensures
        repository_updated(*old(state), *final(state), repo_key(repo@), outcome),
        old(state).wf() && is_watched(repo_key(repo@)) ==> final(state).wf(),
        next == attempt_after(retries, old(state).config.max_retries, outcome is Ok),
        next == Attempt::Updated <==> outcome is Ok,
        next == Attempt::GivenUp <==> outcome is Err && retries >= old(state).config.max_retries,
        next is Retry ==> next->retries == retries + 1 && next->seconds == 5 * (retries + 1),
{
    let max_retries: u32 = state.config.max_retries;
    match refresh_repository(state, repo, outcome) {
        Ok(_) => Attempt::Updated,
        Err(_) => if retries < max_retries {
            let again: u32 = retries + 1;
            Attempt::Retry { retries: again, seconds: 5 * (again as u64) }
        } else {
            Attempt::GivenUp
        },
    }
}

/// How many attempts follow `retries` failed ones, where `succeeds` tells of
/// each attempt, counted from zero, whether it succeeds.
pub open spec fn attempts_made(succeeds: spec_fn(nat) -> bool, retries: u32, max_retries: u32) -> nat
    decreases max_retries - retries,
{
    match attempt_after(retries, max_retries, succeeds(retries as nat)) {
        Attempt::Retry { retries: again, seconds: _ } => 1 + attempts_made(
            succeeds,
            again,
            max_retries,
        ),
        _ => 1,
    }
}

/// A repository is tried at least once and at most once more than retries are
/// allowed, every attempt but the last fails, and the last one fails only
/// where no retry was left.
pub proof fn attempts_are_bounded(succeeds: spec_fn(nat) -> bool, retries: u32, max_retries: u32)
    requires
        retries <= max_retries,
    ensures
        ({
            let made = attempts_made(succeeds, retries, max_retries);
            &&& 1 <= made <= max_retries - retries + 1
            &&& forall|i: nat| retries <= i < retries + made - 1 ==> !#[trigger] succeeds(i)
            &&& succeeds((retries + made - 1) as nat) || made == max_retries - retries + 1
        }),
    decreases max_retries - retries,
{
    if !succeeds(retries as nat) && retries < max_retries {
        attempts_are_bounded(succeeds, (retries + 1) as u32, max_retries);
    }
}

/// A success after a failure leaves no trace of the failure, and a failure
/// after a success keeps the release that was found.
pub proof fn last_release_survives_failures(
    before: AppState,
    between: AppState,
    after: AppState,
    key: Seq<char>,
    info: VersionInfo,
    reason: String,
)
    ensures
        repository_updated(before, between, key, Err(reason)) && repository_updated(
            between,
            after,
            key,
            Ok(info),
        ) ==> !after.failures().contains_key(key) && after.releases().contains_pair(key, info@),
        repository_updated(before, between, key, Ok(info)) && repository_updated(
            between,
            after,
            key,
            Err(reason),
        ) ==> after.failures().contains_pair(key, failure_text(key, reason@))
            && after.releases().contains_pair(key, info@),
{
}

// ---------------------------------------------------------------------------
// All repositories
// ---------------------------------------------------------------------------

/// How the watched repositories are updated.
#[derive(Debug, Clone, Copy, PartialEq, Eq, Structural)]
pub enum RefreshMode {
    /// One after the other, with pauses, so as not to exceed the rate limit.
    OneByOne,
    AllAtOnce,
}

/// How the watched repositories are updated: all at once only with a token.
pub fn refresh_mode(config: &Config) -> (mode: RefreshMode)
    ensures
        mode == if config.github_token is Some {
            RefreshMode::AllAtOnce
        } else {
            RefreshMode::OneByOne
        },
{
    if config.github_token.is_some() {
        RefreshMode::AllAtOnce
    } else {
        RefreshMode::OneByOne
    }
}

/// How far an update of all watched repositories, one after the other, has
/// come.
#[derive(Debug, Clone, Copy, PartialEq, Eq, Structural)]
pub struct RefreshRun {
    /// Which repository is updated.
    pub position: usize,
    /// How many attempts to update it have failed.
    pub retries: u32,
    /// How many repositories were updated.
    pub updated: usize,
}

/// What comes next in an update of all watched repositories.
#[derive(Debug, Clone, Copy, PartialEq, Eq, Structural)]
pub enum RefreshStep {
    /// Another attempt at the same repository, after so many seconds.
    Again { seconds: u64 },
    /// The next repository, after so many seconds.
    Next { seconds: u64 },
    /// The end, after so many seconds.
    Finish { seconds: u64 },
}

impl RefreshRun {
    /// There are no more updates than repositories that were tried.
    pub open spec fn wf(self) -> bool {
        self.updated <= self.position <= watched().len()
    }

    /// There is a repository left to update.
    pub open spec fn is_running(self) -> bool {
        self.position < watched().len()
    }

    /// The run after an attempt.
    pub open spec fn after(self, max_retries: u32, updated: bool) -> RefreshRun {
        match attempt_after(self.retries, max_retries, updated) {
            Attempt::Updated => RefreshRun {
                position: (self.position + 1) as usize,
                retries: 0,
                updated: (self.updated + 1) as usize,
            },
            Attempt::Retry { retries, seconds: _ } => RefreshRun { retries, ..self },
            Attempt::GivenUp => RefreshRun {
                position: (self.position + 1) as usize,
                retries: 0,
                updated: self.updated,
            },
        }
    }

    /// What comes after an attempt.
    pub open spec fn step_after(self, max_retries: u32, updated: bool) -> RefreshStep {
        match attempt_after(self.retries, max_retries, updated) {
            Attempt::Retry { retries: _, seconds } => RefreshStep::Again { seconds },
            _ => if self.after(max_retries, updated).is_running() {
                RefreshStep::Next { seconds: 2 }
            } else {
                RefreshStep::Finish { seconds: 2 }
            },
        }
    }

    /// How many attempts a run can still make.
    pub open spec fn attempts_left(self, max_retries: u32) -> int {
        (watched().len() - self.position) * (max_retries + 1) - self.retries
    }

    /// The start of a run.
    pub fn new() -> (run: RefreshRun)
        ensures
            run == (RefreshRun { position: 0, retries: 0, updated: 0 }),
            run.wf(),
            run.is_running(),
    {
        RefreshRun { position: 0, retries: 0, updated: 0 }
    }
}

/// Updates the watched repositories one after the other, one attempt at a
/// time: keeps the outcome of the attempt that `run` was at.
pub fn refresh_all(
    state: &mut AppState,
    run: &mut RefreshRun,
    outcome: Result<VersionInfo, String>,
) -> (step: RefreshStep)
    requires
        old(run).wf(),
        old(run).is_running(),
    ensures
        repository_updated(
            *old(state),
            *final(state),
            repo_key(watched()[old(run).position as int]),
            outcome,
        ),
        old(state).wf() ==> final(state).wf(),
        *final(run) == old(run).after(old(state).config.max_retries, outcome is Ok),
        final(run).wf(),
        step == old(run).step_after(old(state).config.max_retries, outcome is Ok),
        ({
            let retries = old(run).retries;
            let max_retries = old(state).config.max_retries;
            if outcome is Ok || retries >= max_retries {
                &&& final(run).position == old(run).position + 1
                &&& final(run).retries == 0
                &&& final(run).updated == old(run).updated + if outcome is Ok {
                    1int
                } else {
                    0
                }
                &&& step == if final(run).position < watched().len() {
                    RefreshStep::Next { seconds: 2 }
                } else {
                    RefreshStep::Finish { seconds: 2 }
                }
            } else {
                &&& final(run).position == old(run).position
                &&& final(run).retries == retries + 1
                &&& final(run).updated == old(run).updated
                &&& step is Again
                &&& step->Again_seconds == 5 * (retries + 1)
            }
        }),
{
    let all = repos();
    let ghost views = repo_views(all@);
    let repo = &all[run.position];
    proof {
        assert(views[run.position as int] == repo@);
        assert(watched_keys()[run.position as int] == repo_key(repo@));
    }
    match refresh_attempt(state, repo, run.retries, outcome) {
        Attempt::Retry { retries, seconds } => {
            run.retries = retries;
            RefreshStep::Again { seconds }
        },
        attempt => {
            if let Attempt::Updated = attempt {
                run.updated = run.updated + 1;
            }
            run.position = run.position + 1;
            run.retries = 0;
            if run.position < all.len() {
                RefreshStep::Next { seconds: 2 }
            } else {
                RefreshStep::Finish { seconds: 2 }
            }
        },
    }
}

/// Every attempt leaves fewer to make, so an update of all watched
/// repositories ends; and no repository is left out, for a run moves on to
/// the next repository only, and only where the last attempt succeeded or no
/// retry was left.
pub proof fn refresh_run_ends(run: RefreshRun, max_retries: u32, updated: bool)
    requires
        run.wf(),
        run.is_running(),
        run.retries <= max_retries,
    ensures
        ({
            let next = run.after(max_retries, updated);
            &&& next.wf()
            &&& next.retries <= max_retries
            &&& 0 <= next.attempts_left(max_retries) < run.attempts_left(max_retries)
            &&& next.position == run.position || next.position == run.position + 1
            &&& next.position == run.position + 1 <==> updated || run.retries == max_retries
            &&& next.updated == run.updated + if updated {
                1int
            } else {
                0
            }
        }),
{
    let left = watched().len() - run.position;
    assert((left - 1) * (max_retries + 1) == left * (max_retries + 1) - (max_retries + 1))
        by (nonlinear_arith);
    assert((left - 1) * (max_retries + 1) >= 0) by (nonlinear_arith)
        requires
            left >= 1,
    ;
}

/// How many of the outcomes are successes.
pub open spec fn successes(outcomes: Seq<bool>) -> nat {
    outcomes.filter(|updated: bool| updated).len()
}

/// Counts the repositories that were updated.
pub fn count_updated(outcomes: &Vec<bool>) -> (count: usize)
    ensures
        count == successes(outcomes@),
{
    let ghost good = |updated: bool| updated;
    let mut count: usize = 0;
    let mut i: usize = 0;
    assert(outcomes@.take(0).filter(good).len() == 0) by {
        reveal(Seq::filter);
    }
    while i < outcomes.len()
        invariant
            i <= outcomes@.len(),
            count <= i,
            good == (|updated: bool| updated),
            count == outcomes@.take(i as int).filter(good).len(),
        decreases outcomes@.len() - i,
    {
        proof {
            assert(outcomes@.take(i + 1).drop_last() =~= outcomes@.take(i as int));
            reveal(Seq::filter);
        }
        if outcomes[i] {
            count = count + 1;
        }
        i = i + 1;
    }
    assert(outcomes@.take(i as int) =~= outcomes@);
    count
}

/// Notes that all watched repositories were tried.
pub fn finish_refresh(state: &mut AppState, now: Timestamp)
    ensures
        *final(state) == (AppState { last_refresh: Some(now), ..*old(state) }),
        old(state).wf() ==> final(state).wf(),
{
    state.last_refresh = Some(now);
}

// ---------------------------------------------------------------------------
// The versions that networks run
// ---------------------------------------------------------------------------

/// The networks whose versions are asked for, with the nodes that are asked.
pub fn chain_tasks(state: &AppState) -> (tasks: Vec<(String, Vec<String>)>)
    ensures
        lists_entries(list_pairs(tasks@), state.endpoints()),
{
    all_lists(&state.rpc_endpoints)
}

/// What comes next in asking for the versions of a network.
#[derive(Debug)]
pub enum ChainStep {
    /// Ask this node.
    Ask(String),
    Done,
}

/// `after` is `before` with the versions that a node of `network` told.
pub open spec fn chain_updated(
    before: AppState,
    after: AppState,
    network: Seq<char>,
    runtime: Seq<char>,
    client: Seq<char>,
) -> bool {
    &&& after == AppState {
        runtime_versions: after.runtime_versions,
        client_versions: after.client_versions,
        ..before
    }
    &&& after.runtimes() == before.runtimes().insert(network, runtime)
    &&& after.clients() == before.clients().insert(network, client)
}

/// Asks the nodes of `network` in turn until one tells the runtime version and
/// the client version, which are kept. The first `asked` nodes were asked; a
/// call without an answer means that none of them has answered.
pub fn refresh_chain_versions(
    state: &mut AppState,
    network: &str,
    nodes: &Vec<String>,
    asked: &mut usize,
    answer: Option<(String, String)>,
) -> (step: ChainStep)
    ensures
        old(state).wf() ==> final(state).wf(),
        match answer {
            Some((runtime, client)) => {
                &&& chain_updated(*old(state), *final(state), network@, runtime@, client@)
                &&& step is Done
                &&& *final(asked) == *old(asked)
            },
            None => {
                &&& *final(state) == *old(state)
                &&& *final(asked) == asked_after(text_views(nodes@), *old(asked) as nat)
                &&& match next_in_turn(text_views(nodes@), *old(asked) as nat) {
                    Some(node) => step is Ask && step->Ask_0@ == node,
                    None => step is Done,
                }
            },
        },
        match answer {
            Some((runtime, client)) => {
                &&& step is Done
                &&& final(state).runtimes() == old(state).runtimes().insert(network@, runtime@)
                &&& final(state).clients() == old(state).clients().insert(network@, client@)
                &&& final(state).releases() == old(state).releases()
                &&& final(state).members() == old(state).members()
            },
            None => if *old(asked) < nodes@.len() {
                &&& step is Ask
                &&& step->Ask_0@ == nodes@[*old(asked) as int]@
                &&& *final(asked) == *old(asked) + 1
            } else {
                &&& step is Done
                &&& *final(asked) == *old(asked)
            },
        },
{
    match answer {
        Some((runtime, client)) => {
            put_text(&mut state.runtime_versions, network.to_string(), runtime);
            put_text(&mut state.client_versions, network.to_string(), client);
            ChainStep::Done
        },
        None => if *asked < nodes.len() {
            let node = nodes[*asked].clone();
            *asked = *asked + 1;
            ChainStep::Ask(node)
        } else {
            ChainStep::Done
        },
    }
}

// ---------------------------------------------------------------------------
// What holds of an update
// ---------------------------------------------------------------------------

/// An update changes what is known of its own repository only. A release that
/// it found is kept and ends a failure; a failure names the repository and the
/// reason and leaves every release as it was.
pub proof fn update_changes_its_own_repository(
    before: AppState,
    after: AppState,
    key: Seq<char>,
    outcome: Result<VersionInfo, String>,
    other: Seq<char>,
)
    requires
        repository_updated(before, after, key, outcome),
    ensures
        outcome is Ok ==> after.releases().contains_pair(key, outcome->Ok_0@)
            && !after.failures().contains_key(key),
        outcome is Err ==> after.releases() == before.releases() && after.failures().contains_pair(
            key,
            "Failed to update "@ + key + ": "@ + outcome->Err_0@,
        ),
        other != key ==> after.releases().contains_key(other) == before.releases().contains_key(
            other,
        ) && after.releases()[other] == before.releases()[other]
            && after.failures().contains_key(other) == before.failures().contains_key(other)
            && after.failures()[other] == before.failures()[other],
        after.runtimes() == before.runtimes(),
        after.clients() == before.clients(),
        after.members() == before.members(),
        after.network_map == before.network_map,
        after.endpoints() == before.endpoints(),
        after.last_refresh == before.last_refresh,
        after.usage_stats == before.usage_stats,
        after.config == before.config,
{
}

/// The versions that a node told are kept for its own network, and nothing
/// else changes.
pub proof fn told_versions_change_their_own_network(
    before: AppState,
    after: AppState,
    network: Seq<char>,
    runtime: Seq<char>,
    client: Seq<char>,
    other: Seq<char>,
)
    requires
        chain_updated(before, after, network, runtime, client),
    ensures
        after.runtimes().contains_pair(network, runtime),
        after.clients().contains_pair(network, client),
        other != network ==> after.runtimes().contains_key(other) == before.runtimes().contains_key(
            other,
        ) && after.runtimes()[other] == before.runtimes()[other] && after.clients().contains_key(
            other,
        ) == before.clients().contains_key(other) && after.clients()[other]
            == before.clients()[other],
        after.releases() == before.releases(),
        after.failures() == before.failures(),
        after.members() == before.members(),
        after.usage_stats == before.usage_stats,
        after.last_refresh == before.last_refresh,
{
}

/// A success ends the attempts; a failure is tried again as long as fewer
/// retries were made than allowed, each time after five seconds more than the
/// time before.
pub proof fn waits_grow_by_five_seconds(retries: u32, max_retries: u32)
    ensures
        attempt_after(retries, max_retries, true) == Attempt::Updated,
        retries >= max_retries ==> attempt_after(retries, max_retries, false) == Attempt::GivenUp,
        retries < max_retries ==> {
            let next = attempt_after(retries, max_retries, false);
            &&& next is Retry
            &&& next->retries == retries + 1
            &&& next->seconds == 5 * next->retries
        },
        retries + 1 < max_retries ==> attempt_after((retries + 1) as u32, max_retries, false)->seconds
            == attempt_after(retries, max_retries, false)->seconds + 5,
{
}

/// One more outcome counts exactly where it is a success.
pub proof fn successes_are_counted(outcomes: Seq<bool>, more: bool)
    ensures
        successes(Seq::empty()) == 0,
        successes(outcomes.push(more)) == successes(outcomes) + if more {
            1int
        } else {
            0
        },
{
    reveal(Seq::filter);
    assert(outcomes.push(more).drop_last() =~= outcomes);
}

} // verus!
