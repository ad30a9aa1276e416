//! What requests answer after an update.

use crate::config::repo_key;
use crate::handlers::{comparison, is_listed, member_services, network_info, status_text};
use crate::members::{members_keep_their_services, with_results};
use crate::models::{service_views, MemberInfo, NetworkInfoView, VersionInfo};
use crate::refresh::{chain_updated, failure_text, repository_updated};
use crate::repos::{
    is_watched, network_assignments, watched, watched_keys,
    watched_networks_belong_to_their_repository,
};
use crate::state::AppState;
use crate::time::Timestamp;
use vstd::prelude::*;

verus! {

// ---------------------------------------------------------------------------
// After one update
// ---------------------------------------------------------------------------

/// A release that was found is answered for every network of its repository,
/// and nothing changes for the other networks.
pub proof fn found_release_is_answered(
    before: AppState,
    after: AppState,
    key: Seq<char>,
    info: VersionInfo,
    network: Seq<char>,
    now: Timestamp,
)
    requires
        repository_updated(before, after, key, Ok(info)),
        before.network_map@.contains_key(network),
    ensures
        after.releases().contains_pair(key, info@),
        before.network_map@[network] == key ==> {
            &&& is_listed(after, network, false)
            &&& network_info(after, network) == (NetworkInfoView {
                network,
                repository: key,
                version_info: Some(info@),
            })
            &&& comparison(after, network, now).repository_version == Some(info.version@)
            &&& comparison(after, network, now).repository_tag == Some(info.tag@)
            &&& comparison(after, network, now).repository_url == info@.release_notes_url
        },
        before.network_map@[network] != key ==> {
            &&& network_info(after, network) == network_info(before, network)
            &&& comparison(after, network, now) == comparison(before, network, now)
        },
{
}

/// An update that failed changes no answer but that on the health of the
/// monitor.
pub proof fn failed_update_keeps_the_answers(
    before: AppState,
    after: AppState,
    key: Seq<char>,
    reason: String,
    network: Seq<char>,
    provider: Seq<char>,
    now: Timestamp,
)
    requires
        repository_updated(before, after, key, Err(reason)),
    ensures
        after.failures().contains_key(key),
        after.releases() == before.releases(),
        network_info(after, network) == network_info(before, network),
        comparison(after, network, now) == comparison(before, network, now),
        member_services(after, provider) == member_services(before, provider),
{
}

/// The versions that a node told are answered for its network, and nothing
/// changes for the others. They match the latest release where the version of
/// the runtime is that of the release.
pub proof fn told_versions_are_answered(
    before: AppState,
    after: AppState,
    told: Seq<char>,
    runtime: Seq<char>,
    client: Seq<char>,
    network: Seq<char>,
    now: Timestamp,
)
    requires
        chain_updated(before, after, told, runtime, client),
    ensures
        network == told ==> {
            let answer = comparison(after, network, now);
            &&& answer.runtime_version == Some(runtime)
            &&& answer.client_version == Some(client)
            &&& answer.matches <==> answer.repository_version == Some(runtime)
        },
        network != told ==> comparison(after, network, now) == comparison(before, network, now),
        network_info(after, network) == network_info(before, network),
{
}

/// The services in the last result that holds any for a member are answered
/// for that member.
pub proof fn seen_services_are_answered(
    before: AppState,
    after: AppState,
    results: Seq<(String, Vec<MemberInfo>)>,
    at: int,
)
    requires
        after.members() == with_results(before.members(), results),
        0 <= at < results.len(),
        results[at].1@.len() > 0,
        forall|i: int|
            at < i < results.len() && (#[trigger] results[i]).0@ == results[at].0@
                ==> results[i].1@.len() == 0,
    ensures
        after.members().contains_key(results[at].0@),
        member_services(after, results[at].0@).services == service_views(results[at].1@),
{
    members_keep_their_services(before.members(), results, results[at].0@);
}

// ---------------------------------------------------------------------------
// After many updates
// ---------------------------------------------------------------------------

/// Each of the states but the first comes from the one before it by keeping
/// the outcome of one update.
pub open spec fn updated_in_turn(
    states: Seq<AppState>,
    updates: Seq<(Seq<char>, Result<VersionInfo, String>)>,
) -> bool {
    &&& states.len() == updates.len() + 1
    &&& forall|i: int|
        #![trigger updates[i]]
        0 <= i < updates.len() ==> repository_updated(
            states[i],
            states[i + 1],
            updates[i].0,
            updates[i].1,
        )
}

/// `at` is the position of the last update of its repository.
pub open spec fn is_last_update(
    updates: Seq<(Seq<char>, Result<VersionInfo, String>)>,
    at: int,
) -> bool {
    &&& 0 <= at < updates.len()
    &&& forall|i: int| at < i < updates.len() ==> (#[trigger] updates[i]).0 != updates[at].0
}

/// The last update of a repository decides: a release that it found is known
/// and the repository has not failed, or else it has failed.
pub proof fn last_update_decides(
    states: Seq<AppState>,
    updates: Seq<(Seq<char>, Result<VersionInfo, String>)>,
    at: int,
)
    requires
        updated_in_turn(states, updates),
        is_last_update(updates, at),
    ensures
        match updates[at].1 {
            Ok(info) => states.last().releases().contains_pair(updates[at].0, info@)
                && !states.last().failures().contains_key(updates[at].0),
            Err(reason) => states.last().failures().contains_pair(
                updates[at].0,
                failure_text(updates[at].0, reason@),
            ),
        },
    decreases updates.len(),
{
    let last = updates.len() - 1;
    assert(repository_updated(states[last], states[last + 1], updates[last].0, updates[last].1));
    if at < last {
        let earlier_states = states.drop_last();
        let earlier = updates.drop_last();
        assert forall|i: int|
            #![trigger earlier[i]]
            0 <= i < earlier.len() implies repository_updated(
            earlier_states[i],
            earlier_states[i + 1],
            earlier[i].0,
            earlier[i].1,
        ) by {
            assert(earlier[i] == updates[i]);
        }
        assert(is_last_update(earlier, at)) by {
            assert forall|i: int| at < i < earlier.len() implies (#[trigger] earlier[i]).0
                != earlier[at].0 by {
                assert(updates[i].0 != updates[at].0);
            }
        }
        last_update_decides(earlier_states, earlier, at);
        assert(earlier[at] == updates[at]);
        assert(earlier_states.last() == states[last]);
        assert(updates[last].0 != updates[at].0);
    }
}

/// Updates of watched repositories keep the state well-formed.
pub proof fn updates_keep_wf(
    states: Seq<AppState>,
    updates: Seq<(Seq<char>, Result<VersionInfo, String>)>,
)
    requires
        updated_in_turn(states, updates),
        states[0].wf(),
        forall|i: int| 0 <= i < updates.len() ==> is_watched((#[trigger] updates[i]).0),
    ensures
        states.last().wf(),
    decreases updates.len(),
{
    if updates.len() > 0 {
        let last = updates.len() - 1;
        let earlier_states = states.drop_last();
        let earlier = updates.drop_last();
        assert forall|i: int|
            #![trigger earlier[i]]
            0 <= i < earlier.len() implies repository_updated(
            earlier_states[i],
            earlier_states[i + 1],
            earlier[i].0,
            earlier[i].1,
        ) && is_watched(earlier[i].0) by {
            assert(earlier[i] == updates[i]);
        }
        updates_keep_wf(earlier_states, earlier);
        assert(repository_updated(
            states[last],
            states[last + 1],
            updates[last].0,
            updates[last].1,
        ));
        assert(earlier_states.last() == states[last]);
        assert forall|key: Seq<char>| #[trigger]
            states.last().failures().contains_key(key) implies is_watched(key) by {
            assert(key == updates[last].0 || states[last].failures().contains_key(key));
        }
    }
}

/// Once the last update of every watched repository has found a release, the
/// monitor is healthy, and a release is known for every network that a
/// watched repository serves.
pub proof fn complete_refresh_is_healthy(
    states: Seq<AppState>,
    updates: Seq<(Seq<char>, Result<VersionInfo, String>)>,
)
    requires
        updated_in_turn(states, updates),
        states[0].wf(),
        states.last().network_map@ == network_assignments(watched()),
        forall|i: int| 0 <= i < updates.len() ==> is_watched((#[trigger] updates[i]).0),
        forall|key: Seq<char>| #[trigger]
            is_watched(key) ==> exists|at: int|
                is_last_update(updates, at) && (#[trigger] updates[at]).0 == key
                    && updates[at].1 is Ok,
    ensures
        states.last().failures().dom() == Set::<Seq<char>>::empty(),
        status_text(states.last().failures().len()) == "healthy"@,
        forall|i: int, j: int|
            0 <= i < watched().len() && 0 <= j < watched()[i].networks.len() ==> is_listed(
                states.last(),
                #[trigger] watched()[i].networks[j],
                false,
            ),
{
    let end = states.last();
    updates_keep_wf(states, updates);
    assert forall|key: Seq<char>| is_watched(key) implies !end.failures().contains_key(key)
        && end.releases().contains_key(key) by {
        let at = choose|at: int|
            is_last_update(updates, at) && (#[trigger] updates[at]).0 == key && updates[at].1 is Ok;
        last_update_decides(states, updates, at);
    }
    assert forall|key: Seq<char>| !end.failures().contains_key(key) by {
        if end.failures().contains_key(key) {
            assert(is_watched(key));
        }
    }
    assert(end.failures().dom() =~= Set::<Seq<char>>::empty());
    watched_networks_belong_to_their_repository();
    assert forall|i: int, j: int|
        0 <= i < watched().len() && 0 <= j < watched()[i].networks.len() implies is_listed(
        end,
        #[trigger] watched()[i].networks[j],
        false,
    ) by {
        let key = repo_key(watched()[i]);
        assert(watched_keys()[i] == key);
        assert(is_watched(key));
        assert(network_assignments(watched()).contains_pair(watched()[i].networks[j], key));
    }
}

} // verus!
