//! The state of the monitor.

use crate::config::Config;
use crate::models::{
    IbpMember, IbpNetworkConfig, MemberInfo, MemberInfoView, VersionChange, VersionInfo,
    VersionInfoView,
};
use crate::repos::{is_watched, watched, watched_keys, watches};
use crate::store::{
    all_texts, count_entries, count_one, counted_from, list_entries, lists_entries, member_entries,
    new_counts, new_members, new_texts, new_versions, text_entries, text_pairs, version_entries,
};
use crate::table::Table;
use crate::text_map::TextMap;
use crate::time::Timestamp;
use dashmap::DashMap;
use vstd::prelude::*;

verus! {

// ---------------------------------------------------------------------------
// Usage
// ---------------------------------------------------------------------------

/// How often each endpoint was called, and when the last call was.
#[derive(Debug)]
pub struct UsageStats {
    pub api_calls: DashMap<String, u64>,
    pub last_updated: Option<Timestamp>,
}

impl UsageStats {
    /// The calls of each endpoint.
    pub open spec fn calls(self) -> Map<Seq<char>, u64> {
        count_entries(self.api_calls)
    }

    /// No calls yet.
    pub fn new() -> (stats: UsageStats)
        ensures
            stats.calls() == Map::<Seq<char>, u64>::empty(),
            stats.last_updated is None,
    {
        let stats = UsageStats { api_calls: new_counts(), last_updated: None };
        assert(stats.calls() =~= Map::<Seq<char>, u64>::empty());
        stats
    }
}

impl Default for UsageStats {
    fn default() -> (stats: Self)
        ensures
            stats.calls() == Map::<Seq<char>, u64>::empty(),
            stats.last_updated is None,
    {
        UsageStats::new()
    }
}

/// `calls` after one more call of `endpoint`; the first one counts as one.
pub open spec fn counted(calls: Map<Seq<char>, u64>, endpoint: Seq<char>) -> Map<Seq<char>, u64> {
    counted_from(calls, endpoint, 1)
}

/// `after` is `before` with one more call of `endpoint`, at the time `now`.
pub open spec fn call_tracked(
    before: UsageStats,
    after: UsageStats,
    endpoint: Seq<char>,
    now: Timestamp,
) -> bool {
    &&& after.calls() == counted(before.calls(), endpoint)
    &&& after.last_updated == Some(now)
}

/// Counts a call of `endpoint`.
pub fn track_usage(stats: &mut UsageStats, endpoint: &str, now: Timestamp)
    ensures
        call_tracked(*old(stats), *final(stats), endpoint@, now),
{
    count_one(&mut stats.api_calls, endpoint.to_string(), 1);
    stats.last_updated = Some(now);
}

/// The calls after `times` more calls of `endpoint`.
pub open spec fn calls_after(
    calls: Map<Seq<char>, u64>,
    endpoint: Seq<char>,
    times: nat,
) -> Map<Seq<char>, u64>
    decreases times,
{
    if times == 0 {
        calls
    } else {
        counted(calls_after(calls, endpoint, (times - 1) as nat), endpoint)
    }
}

/// An endpoint that was never called before is counted as often as it is
/// called, as long as the number fits, and the other counts stay as they are.
pub proof fn calls_are_counted(calls: Map<Seq<char>, u64>, endpoint: Seq<char>, times: nat)
    requires
        !calls.contains_key(endpoint),
        times <= u64::MAX,
    ensures
        times > 0 ==> calls_after(calls, endpoint, times).contains_pair(endpoint, times as u64),
        calls_after(calls, endpoint, times).remove(endpoint) == calls,
    decreases times,
{
    if times > 0 {
        calls_are_counted(calls, endpoint, (times - 1) as nat);
        assert(calls_after(calls, endpoint, times).remove(endpoint) =~= calls_after(
            calls,
            endpoint,
            (times - 1) as nat,
        ).remove(endpoint));
    } else {
        assert(calls.remove(endpoint) =~= calls);
    }
}

// ---------------------------------------------------------------------------
// State
// ---------------------------------------------------------------------------

/// What the monitor knows.
#[derive(Debug)]
pub struct AppState {
    /// The latest release of each repository that was updated.
    pub repos: DashMap<String, VersionInfo>,
    /// The repository that serves each network.
    pub network_map: TextMap,
    /// The nodes that are asked for the versions of each network.
    pub rpc_endpoints: DashMap<String, Vec<String>>,
    pub runtime_versions: DashMap<String, String>,
    pub client_versions: DashMap<String, String>,
    /// The services of each member.
    pub member_info: DashMap<String, Vec<MemberInfo>>,
    pub usage_stats: UsageStats,
    pub ibp_config: Table<IbpNetworkConfig>,
    pub ibp_members: Table<IbpMember>,
    pub version_history: Vec<VersionChange>,
    pub config: Config,
    pub start_time: Timestamp,
    pub last_refresh: Option<Timestamp>,
    /// Why the last update of a repository failed.
    pub failed_repos: DashMap<String, String>,
}

impl AppState {
    /// The latest releases.
    pub open spec fn releases(self) -> Map<Seq<char>, VersionInfoView> {
        version_entries(self.repos)
    }

    /// The nodes of each network.
    pub open spec fn endpoints(self) -> Map<Seq<char>, Seq<Seq<char>>> {
        list_entries(self.rpc_endpoints)
    }

    /// The runtime version of each network.
    pub open spec fn runtimes(self) -> Map<Seq<char>, Seq<char>> {
        text_entries(self.runtime_versions)
    }

    /// The client version of each network.
    pub open spec fn clients(self) -> Map<Seq<char>, Seq<char>> {
        text_entries(self.client_versions)
    }

    /// The services of each member.
    pub open spec fn members(self) -> Map<Seq<char>, Seq<MemberInfoView>> {
        member_entries(self.member_info)
    }

    /// Why the last update of each repository failed, where it did.
    pub open spec fn failures(self) -> Map<Seq<char>, Seq<char>> {
        text_entries(self.failed_repos)
    }

    /// Only updates of watched repositories have failed.
    pub open spec fn wf(self) -> bool {
        forall|key: Seq<char>|
            #![trigger self.failures().contains_key(key)]
            #![trigger is_watched(key)]
            self.failures().contains_key(key) ==> is_watched(key)
    }

    /// Whether only updates of watched repositories have failed.
    pub fn is_well_formed(&self) -> (well_formed: bool)
        ensures
            well_formed == self.wf(),
    {
        let pairs = all_texts(&self.failed_repos);
        let ghost views = text_pairs(pairs@);
        let mut i: usize = 0;
        while i < pairs.len()
            invariant
                i <= pairs@.len(),
                views == text_pairs(pairs@),
                lists_entries(views, self.failures()),
                forall|j: int| 0 <= j < i ==> is_watched((#[trigger] views[j]).0),
            decreases pairs@.len() - i,
        {
            assert(views[i as int].0 == pairs@[i as int].0@);
            assert(self.failures().contains_key(views[i as int].0));
            if !watches(pairs[i].0.as_str()) {
                return false;
            }
            i = i + 1;
        }
        assert forall|key: Seq<char>| #[trigger] self.failures().contains_key(key) implies
            is_watched(key) by {
            let j = choose|j: int| 0 <= j < views.len() && (#[trigger] views[j]).0 == key;
            assert(is_watched(views[j].0));
        }
        true
    }

    /// The state before the first refresh.
    pub fn new(
        config: Config,
        network_map: TextMap,
        rpc_endpoints: DashMap<String, Vec<String>>,
        ibp_config: Table<IbpNetworkConfig>,
        ibp_members: Table<IbpMember>,
        start_time: Timestamp,
    ) -> (state: AppState)
        ensures
            state.wf(),
            state.releases() == Map::<Seq<char>, VersionInfoView>::empty(),
            state.runtimes() == Map::<Seq<char>, Seq<char>>::empty(),
            state.clients() == Map::<Seq<char>, Seq<char>>::empty(),
            state.members() == Map::<Seq<char>, Seq<MemberInfoView>>::empty(),
            state.failures() == Map::<Seq<char>, Seq<char>>::empty(),
            state.usage_stats.calls() == Map::<Seq<char>, u64>::empty(),
            state.usage_stats.last_updated is None,
            state.version_history@.len() == 0,
            state.last_refresh is None,
            state.network_map == network_map,
            state.rpc_endpoints == rpc_endpoints,
            state.ibp_config == ibp_config,
            state.ibp_members == ibp_members,
            state.config == config,
            state.start_time == start_time,
    {
        let state = AppState {
            repos: new_versions(),
            network_map,
            rpc_endpoints,
            runtime_versions: new_texts(),
            client_versions: new_texts(),
            member_info: new_members(),
            usage_stats: UsageStats::new(),
            ibp_config,
            ibp_members,
            version_history: Vec::new(),
            config,
            start_time,
            last_refresh: None,
            failed_repos: new_texts(),
        };
        assert(state.releases() =~= Map::<Seq<char>, VersionInfoView>::empty());
        assert(state.members() =~= Map::<Seq<char>, Seq<MemberInfoView>>::empty());
        state
    }
}

/// Between `before` and `after` one call of `endpoint` was counted, and
/// nothing else has changed.
pub open spec fn only_tracked(
    before: AppState,
    after: AppState,
    endpoint: Seq<char>,
    now: Timestamp,
) -> bool {
    &&& after == AppState { usage_stats: after.usage_stats, ..before }
    &&& call_tracked(before.usage_stats, after.usage_stats, endpoint, now)
}

/// No more updates have failed than repositories are watched.
pub proof fn failures_are_bounded(state: AppState)
    requires
        state.wf(),
    ensures
        state.failures().dom().finite(),
        state.failures().len() <= watched().len(),
{
    let keys = watched_keys();
    assert(state.failures().dom().subset_of(keys.to_set()));
    vstd::seq_lib::seq_to_set_is_finite(keys);
    vstd::set_lib::lemma_len_subset(state.failures().dom(), keys.to_set());
    keys.lemma_cardinality_of_set();
}

/// Answering a request changes nothing that is known: only the endpoint that
/// was called has one call more, the first one counts as one, and the time of
/// the last call is now.
pub proof fn answering_changes_only_the_calls(
    before: AppState,
    after: AppState,
    endpoint: Seq<char>,
    now: Timestamp,
    other: Seq<char>,
)
    requires
        only_tracked(before, after, endpoint, now),
    ensures
        after.releases() == before.releases(),
        after.network_map == before.network_map,
        after.endpoints() == before.endpoints(),
        after.runtimes() == before.runtimes(),
        after.clients() == before.clients(),
        after.members() == before.members(),
        after.failures() == before.failures(),
        after.ibp_config == before.ibp_config,
        after.ibp_members == before.ibp_members,
        after.version_history == before.version_history,
        after.config == before.config,
        after.start_time == before.start_time,
        after.last_refresh == before.last_refresh,
        after.usage_stats.last_updated == Some(now),
        !before.usage_stats.calls().contains_key(endpoint)
            ==> after.usage_stats.calls().contains_pair(endpoint, 1),
        before.usage_stats.calls().contains_key(endpoint)
            && before.usage_stats.calls()[endpoint] < u64::MAX
            ==> after.usage_stats.calls().contains_pair(
            endpoint,
            (before.usage_stats.calls()[endpoint] + 1) as u64,
        ),
        other != endpoint ==> after.usage_stats.calls().contains_key(other)
            == before.usage_stats.calls().contains_key(other) && after.usage_stats.calls()[other]
            == before.usage_stats.calls()[other],
{
}

/// A state is well-formed exactly where every failure is that of a repository
/// in the list of the watched ones, under its owner and name.
pub proof fn failures_are_those_of_watched_repositories(state: AppState)
    ensures
        state.wf() <==> forall|key: Seq<char>| #[trigger]
            state.failures().contains_key(key) ==> exists|i: int|
                0 <= i < watched().len() && key == (#[trigger] watched()[i]).owner + "/"@
                    + watched()[i].name,
{
    assert forall|key: Seq<char>| #[trigger] is_watched(key) <==> exists|i: int|
        0 <= i < watched().len() && key == (#[trigger] watched()[i]).owner + "/"@
            + watched()[i].name by {
        if is_watched(key) {
            let i = choose|i: int| 0 <= i < watched_keys().len() && watched_keys()[i] == key;
            assert(key == watched()[i].owner + "/"@ + watched()[i].name);
        }
        if exists|i: int|
            0 <= i < watched().len() && key == (#[trigger] watched()[i]).owner + "/"@
                + watched()[i].name {
            let i = choose|i: int|
                0 <= i < watched().len() && key == (#[trigger] watched()[i]).owner + "/"@
                    + watched()[i].name;
            assert(watched_keys()[i] == key);
        }
    }
}

} // verus!
