//! How the members' services are doing.

use crate::models::{IbpMember, MemberInfo, MemberInfoView, service_views};
use crate::rpc::NodeInfo;
use crate::state::AppState;
use crate::store::put_member;
use crate::table::distinct_names;
use crate::text::{
    first_occurrence_is_replaced, has_text, lowercase, occurs_at, replace_all, replaced,
    text_view, text_views, text_views_push, text_without_pattern_is_kept,
};
use crate::time::Timestamp;
use vstd::prelude::*;

verus! {

// ---------------------------------------------------------------------------
// What is asked
// ---------------------------------------------------------------------------

/// The name under which a network is asked for, given the name in a member's
/// assignments.
pub open spec fn network_name(assigned: Seq<char>) -> Seq<char> {
    let lower = lowercase(assigned);
    let asset = replaced(lower, "assethub"@, "asset-hub"@);
    let bridge = replaced(asset, "bridgehub"@, "bridge-hub"@);
    let passet = replaced(bridge, "passet-hub"@, "asset-hub"@);
    replaced(passet, "eth-"@, ""@)
}

/// The name under which a network is asked for, given its name in lower case.
pub fn rename_network(lower: &str) -> (name: String)
    ensures
        name@ == replaced(
            replaced(
                replaced(
                    replaced(lower@, "assethub"@, "asset-hub"@),
                    "bridgehub"@,
                    "bridge-hub"@,
                ),
                "passet-hub"@,
                "asset-hub"@,
            ),
            "eth-"@,
            ""@,
        ),
{
    proof {
        reveal_strlit("assethub");
        reveal_strlit("bridgehub");
        reveal_strlit("passet-hub");
        reveal_strlit("eth-");
    }
    let asset = replace_all(lower, "assethub", "asset-hub");
    let bridge = replace_all(asset.as_str(), "bridgehub", "bridge-hub");
    let passet = replace_all(bridge.as_str(), "passet-hub", "asset-hub");
    replace_all(passet.as_str(), "eth-", "")
}

/// The name under which a network is asked for, given the name in a member's
/// assignments.
pub fn normalize_network(assigned: &str) -> (name: String)
    ensures
        name@ == network_name(assigned@),
{
    let lower = assigned.to_lowercase();
    rename_network(lower.as_str())
}

/// The names of the networks in one assignment.
pub open spec fn assigned_names(networks: Seq<String>) -> Seq<Seq<char>> {
    networks.map_values(|network: String| network_name(network@))
}

/// The names of the networks that a member serves, in the order of the
/// assignments.
pub open spec fn served_networks(assignments: Seq<(String, Vec<String>)>) -> Seq<Seq<char>>
    decreases assignments.len(),
{
    if assignments.len() == 0 {
        seq![]
    } else {
        served_networks(assignments.drop_last()) + assigned_names(assignments.last().1@)
    }
}

/// The names of the networks that a member serves.
pub fn networks_of(member: &IbpMember) -> (names: Vec<String>)
    ensures
        text_views(names@) == served_networks(member.service_assignments@),
{
    let ghost assignments = member.service_assignments@;
    let mut names: Vec<String> = Vec::new();
    let mut i: usize = 0;
    assert(text_views(names@) =~= served_networks(assignments.take(0)));
    let listed = member.service_assignments.entries();
    while i < listed.len()
        invariant
            i <= assignments.len(),
            listed@ == assignments,
            assignments == member.service_assignments@,
            text_views(names@) == served_networks(assignments.take(i as int)),
        decreases assignments.len() - i,
    {
        let networks = &listed[i].1;
        let ghost before = text_views(names@);
        let ghost own = assigned_names(networks@);
        let mut j: usize = 0;
        assert(before + own.take(0) =~= before);
        while j < networks.len()
            invariant
                j <= networks@.len(),
                own == assigned_names(networks@),
                text_views(names@) == before + own.take(j as int),
            decreases networks@.len() - j,
        {
            let ghost collected = names@;
            let name = normalize_network(networks[j].as_str());
            names.push(name);
            proof {
                text_views_push(collected, name);
                assert(own.take(j + 1) =~= own.take(j as int).push(own[j as int]));
                assert(text_views(names@) =~= before + own.take(j + 1));
            }
            j = j + 1;
        }
        proof {
            assert(own.take(j as int) =~= own);
            let taken = assignments.take(i + 1);
            assert(taken.drop_last() =~= assignments.take(i as int));
            assert(taken.last() == assignments[i as int]);
        }
        i = i + 1;
    }
    assert(assignments.take(i as int) =~= assignments);
    names
}

/// A member whose services are asked.
#[derive(Debug)]
pub struct MemberTask {
    pub member_id: String,
    pub ip: String,
    pub networks: Vec<String>,
}

/// What a [`MemberTask`] stands for.
pub struct MemberTaskView {
    pub member_id: Seq<char>,
    pub ip: Seq<char>,
    pub networks: Seq<Seq<char>>,
}

impl View for MemberTask {
    type V = MemberTaskView;

    open spec fn view(&self) -> MemberTaskView {
        MemberTaskView {
            member_id: self.member_id@,
            ip: self.ip@,
            networks: text_views(self.networks@),
        }
    }
}

/// A member's services are asked if the member is active and has an address.
pub open spec fn is_asked(member: IbpMember) -> bool {
    member.service.active != 0 && member.service.service_ipv4@.len() > 0
}

/// What is asked of a member.
pub open spec fn task_of(id: Seq<char>, member: IbpMember) -> MemberTaskView {
    MemberTaskView {
        member_id: id,
        ip: member.service.service_ipv4@,
        networks: served_networks(member.service_assignments@),
    }
}

/// What is asked of the members, in their order.
pub open spec fn tasks_of(members: Seq<(String, IbpMember)>) -> Seq<MemberTaskView>
    decreases members.len(),
{
    if members.len() == 0 {
        seq![]
    } else {
        let before = tasks_of(members.drop_last());
        let (id, member) = members.last();
        if is_asked(member) {
            before.push(task_of(id@, member))
        } else {
            before
        }
    }
}

/// `task` asks an eligible one of the members.
pub open spec fn asks_eligible(task: MemberTaskView, members: Seq<(String, IbpMember)>) -> bool {
    exists|i: int|
        0 <= i < members.len() && is_asked((#[trigger] members[i]).1) && task == task_of(
            members[i].0@,
            members[i].1,
        )
}

/// Every eligible member is asked, and nobody else; and where no id occurs
/// twice, no member is asked twice.
pub proof fn eligible_members_are_asked(members: Seq<(String, IbpMember)>)
    ensures
        forall|i: int|
            0 <= i < members.len() && is_asked((#[trigger] members[i]).1) ==> tasks_of(
                members,
            ).contains(task_of(members[i].0@, members[i].1)),
        forall|k: int|
            0 <= k < tasks_of(members).len() ==> asks_eligible(
                #[trigger] tasks_of(members)[k],
                members,
            ),
        distinct_names(members) ==> forall|k: int, l: int|
            0 <= k < l < tasks_of(members).len() ==> (#[trigger] tasks_of(members)[k]).member_id
                != (#[trigger] tasks_of(members)[l]).member_id,
    decreases members.len(),
{
    if members.len() > 0 {
        let front = members.drop_last();
        let last = members.len() - 1;
        let before = tasks_of(front);
        let tasks = tasks_of(members);
        eligible_members_are_asked(front);
        assert forall|i: int|
            0 <= i < members.len() && is_asked((#[trigger] members[i]).1) implies tasks.contains(
            task_of(members[i].0@, members[i].1),
        ) by {
            let task = task_of(members[i].0@, members[i].1);
            if i == last {
                assert(tasks[before.len() as int] == task);
            } else {
                assert(front[i] == members[i]);
                let k = choose|k: int| 0 <= k < before.len() && before[k] == task;
                assert(tasks[k] == task);
            }
        }
        assert forall|k: int| 0 <= k < tasks.len() implies asks_eligible(
            #[trigger] tasks[k],
            members,
        ) by {
            if k < before.len() {
                assert(tasks[k] == before[k]);
                let i = choose|i: int|
                    0 <= i < front.len() && is_asked((#[trigger] front[i]).1) && before[k]
                        == task_of(front[i].0@, front[i].1);
                assert(members[i] == front[i]);
            } else {
                assert(members[last] == members.last());
            }
        }
        if distinct_names(members) {
            assert forall|i: int, j: int| 0 <= i < j < front.len() implies (#[trigger] front[i]).0@
                != (#[trigger] front[j]).0@ by {
                assert(members[i].0@ != members[j].0@);
            }
            assert forall|k: int, l: int| 0 <= k < l < tasks.len() implies (
            #[trigger] tasks[k]).member_id != (#[trigger] tasks[l]).member_id by {
                assert(tasks[k] == before[k]);
                if l < before.len() {
                    assert(tasks[l] == before[l]);
                } else {
                    assert(asks_eligible(before[k], front));
                    let i = choose|i: int|
                        0 <= i < front.len() && is_asked((#[trigger] front[i]).1) && before[k]
                            == task_of(front[i].0@, front[i].1);
                    assert(members[i].0@ != members[last].0@);
                }
            }
        }
    }
}

/// What is asked of the members. No member is asked twice.
pub fn member_tasks(state: &AppState) -> (tasks: Vec<MemberTask>)
    ensures
        tasks@.map_values(|task: MemberTask| task@) == tasks_of(state.ibp_members@),
        forall|i: int, j: int|
            0 <= i < j < tasks@.len() ==> (#[trigger] tasks@[i]).member_id@ != (
            #[trigger] tasks@[j]).member_id@,
{
    let ghost members = state.ibp_members@;
    let mut tasks: Vec<MemberTask> = Vec::new();
    let mut i: usize = 0;
    assert(tasks@.map_values(|task: MemberTask| task@) =~= tasks_of(members.take(0)));
    let listed = state.ibp_members.entries();
    while i < listed.len()
        invariant
            i <= members.len(),
            listed@ == members,
            members == state.ibp_members@,
            tasks@.map_values(|task: MemberTask| task@) == tasks_of(members.take(i as int)),
        decreases members.len() - i,
    {
        let ghost before = tasks@;
        let (id, member) = &listed[i];
        proof {
            let taken = members.take(i + 1);
            assert(taken.drop_last() =~= members.take(i as int));
            assert(taken.last() == members[i as int]);
        }
        if member.service.active != 0 && !member.service.service_ipv4.as_str().is_empty() {
            let task = MemberTask {
                member_id: id.clone(),
                ip: member.service.service_ipv4.clone(),
                networks: networks_of(member),
            };
            tasks.push(task);
            assert(tasks@.map_values(|task: MemberTask| task@) =~= before.map_values(
                |task: MemberTask| task@,
            ).push(task@));
        }
        i = i + 1;
    }
    assert(members.take(i as int) =~= members);
    proof {
        let views = tasks@.map_values(|task: MemberTask| task@);
        eligible_members_are_asked(members);
        assert forall|a: int, b: int| 0 <= a < b < tasks@.len() implies (
        #[trigger] tasks@[a]).member_id@ != (#[trigger] tasks@[b]).member_id@ by {
            assert(views[a].member_id != views[b].member_id);
        }
    }
    tasks
}

/// A member whose Prometheus server is asked.
#[derive(Debug)]
pub struct PrometheusTask {
    pub member_id: String,
    pub networks: Vec<String>,
    pub endpoint: String,
}

/// What is asked of a member's Prometheus server, if the member has one.
pub fn prometheus_task(member_id: &str, member: &IbpMember) -> (task: Option<PrometheusTask>)
    ensures
        task is Some <==> member.service.prometheus_endpoint is Some,
        task is Some ==> {
            &&& task->0.member_id@ == member_id@
            &&& text_views(task->0.networks@) == served_networks(member.service_assignments@)
            &&& task->0.endpoint@ == member.service.prometheus_endpoint->0@
        },
{
    match &member.service.prometheus_endpoint {
        Some(endpoint) => Some(
            PrometheusTask {
                member_id: member_id.to_string(),
                networks: networks_of(member),
                endpoint: endpoint.clone(),
            },
        ),
        None => None,
    }
}

// ---------------------------------------------------------------------------
// What is answered
// ---------------------------------------------------------------------------

/// What is known of the services at one address, whatever the network.
#[derive(Debug, Clone, Copy)]
pub struct AddressInfo {
    pub cert_expires: Option<Timestamp>,
    pub cert_days_left: Option<i64>,
    pub latency_ms: Option<u64>,
}

/// How a service is doing, given what its node told, if it did.
pub open spec fn service_info(
    network: Seq<char>,
    ip: Seq<char>,
    node: Option<NodeInfo>,
    address: AddressInfo,
    now: Timestamp,
) -> MemberInfoView {
    MemberInfoView {
        network,
        ip,
        runtime_version: match node {
            Some(info) => Some(info.runtime_version@),
            None => None,
        },
        client_version: match node {
            Some(info) => Some(info.client_version@),
            None => None,
        },
        last_checked: now,
        cert_expires: address.cert_expires,
        cert_days_left: address.cert_days_left,
        latency_ms: address.latency_ms,
        response_time_ms: match node {
            Some(info) => Some(info.response_time_ms),
            None => None,
        },
    }
}

/// How many networks have an answer.
pub open spec fn paired(networks: nat, answers: nat) -> nat {
    if networks < answers {
        networks
    } else {
        answers
    }
}

/// Puts together how the services of a member are doing: each network with
/// the answer at the same position.
pub fn fetch_member_http_batch(
    task: MemberTask,
    answers: Vec<Option<NodeInfo>>,
    address: AddressInfo,
    now: Timestamp,
) -> (result: (String, Vec<MemberInfo>))
    ensures
        result.0@ == task.member_id@,
        service_views(result.1@) == Seq::new(
            paired(task.networks@.len(), answers@.len()),
            |i: int| service_info(task.networks@[i]@, task.ip@, answers@[i], address, now),
        ),
        result.1@.len() <= task.networks@.len(),
        result.1@.len() <= answers@.len(),
        result.1@.len() == task.networks@.len() || result.1@.len() == answers@.len(),
        forall|i: int|
            0 <= i < result.1@.len() ==> {
                let service = #[trigger] result.1@[i];
                &&& service.network@ == task.networks@[i]@
                &&& service.ip@ == task.ip@
                &&& service.last_checked == now
                &&& service.cert_expires == address.cert_expires
                &&& service.cert_days_left == address.cert_days_left
                &&& service.latency_ms == address.latency_ms
                &&& match answers@[i] {
                    Some(info) => {
                        &&& service.runtime_version is Some
                        &&& service.runtime_version->0@ == info.runtime_version@
                        &&& service.client_version is Some
                        &&& service.client_version->0@ == info.client_version@
                        &&& service.response_time_ms == Some(info.response_time_ms)
                    },
                    None => {
                        &&& service.runtime_version is None
                        &&& service.client_version is None
                        &&& service.response_time_ms is None
                    },
                }
            },
{
    let mut services: Vec<MemberInfo> = Vec::new();
    let mut i: usize = 0;
    while i < task.networks.len() && i < answers.len()
        invariant
            i <= task.networks@.len(),
            i <= answers@.len(),
            services@.len() == i,
            forall|j: int|
                0 <= j < i ==> (#[trigger] services@[j])@ == service_info(
                    task.networks@[j]@,
                    task.ip@,
                    answers@[j],
                    address,
                    now,
                ),
        decreases answers@.len() - i,
    {
        let (runtime_version, client_version, response_time_ms) = match &answers[i] {
            Some(info) => (
                Some(info.runtime_version.clone()),
                Some(info.client_version.clone()),
                Some(info.response_time_ms),
            ),
            None => (None, None, None),
        };
        services.push(
            MemberInfo {
                network: task.networks[i].clone(),
                ip: task.ip.clone(),
                runtime_version,
                client_version,
                last_checked: now,
                cert_expires: address.cert_expires,
                cert_days_left: address.cert_days_left,
                latency_ms: address.latency_ms,
                response_time_ms,
            },
        );
        i = i + 1;
    }
    assert(service_views(services@) =~= Seq::new(
        paired(task.networks@.len(), answers@.len()),
        |k: int| service_info(task.networks@[k]@, task.ip@, answers@[k], address, now),
    ));
    assert forall|k: int| 0 <= k < services@.len() implies (
    #[trigger] services@[k]).runtime_version is Some <==> answers@[k] is Some by {
        assert(services@[k]@.runtime_version == text_view(services@[k].runtime_version));
    }
    (task.member_id, services)
}

/// `members` with each result that holds a service.
pub open spec fn with_results(
    members: Map<Seq<char>, Seq<MemberInfoView>>,
    results: Seq<(String, Vec<MemberInfo>)>,
) -> Map<Seq<char>, Seq<MemberInfoView>>
    decreases results.len(),
{
    if results.len() == 0 {
        members
    } else {
        let before = with_results(members, results.drop_last());
        let (id, services) = results.last();
        if services@.len() == 0 {
            before
        } else {
            before.insert(id@, service_views(services@))
        }
    }
}

/// Keeps how the services of the members are doing. A result without any
/// service changes nothing.
pub fn refresh_member_info(state: &mut AppState, results: Vec<(String, Vec<MemberInfo>)>)
    ensures
        *final(state) == (AppState { member_info: final(state).member_info, ..*old(state) }),
        old(state).wf() ==> final(state).wf(),
        final(state).members() == with_results(old(state).members(), results@),
{
    let mut rest = results;
    let ghost mut taken: int = 0;
    assert(results@.skip(0) =~= results@);
    assert(results@.take(0) =~= Seq::<(String, Vec<MemberInfo>)>::empty());
    while rest.len() > 0
        invariant
            0 <= taken <= results@.len(),
            rest@ == results@.skip(taken),
            *state == (AppState { member_info: state.member_info, ..*old(state) }),
            state.members() == with_results(old(state).members(), results@.take(taken)),
        decreases rest@.len(),
    {
        proof {
            let next = results@.take(taken + 1);
            assert(next.drop_last() =~= results@.take(taken));
            assert(next.last() == rest@[0]);
        }
        let (id, services) = rest.remove(0);
        if services.len() > 0 {
            put_member(&mut state.member_info, id, services);
        }
        proof {
            taken = taken + 1;
            assert(rest@ =~= results@.skip(taken));
        }
    }
    assert(results@.take(taken) =~= results@);
}

/// A member keeps the services that are known of it until a result with
/// services comes, and every service that is known of a member comes from
/// the last such result.
pub proof fn members_keep_their_services(
    members: Map<Seq<char>, Seq<MemberInfoView>>,
    results: Seq<(String, Vec<MemberInfo>)>,
    id: Seq<char>,
)
    ensures
        (forall|i: int|
            0 <= i < results.len() && (#[trigger] results[i]).0@ == id ==> results[i].1@.len() == 0)
            ==> with_results(members, results).contains_key(id) == members.contains_key(id)
            && with_results(members, results)[id] == members[id],
        forall|i: int|
            0 <= i < results.len() && (#[trigger] results[i]).0@ == id && results[i].1@.len() > 0
                && (forall|j: int|
                i < j < results.len() && (#[trigger] results[j]).0@ == id ==> results[j].1@.len()
                    == 0) ==> with_results(members, results).contains_pair(
                id,
                service_views(results[i].1@),
            ),
    decreases results.len(),
{
    if results.len() > 0 {
        let front = results.drop_last();
        let last = results.len() - 1;
        members_keep_their_services(members, front, id);
        if forall|i: int|
            0 <= i < results.len() && (#[trigger] results[i]).0@ == id ==> results[i].1@.len()
                == 0 {
            assert forall|i: int|
                0 <= i < front.len() && (#[trigger] front[i]).0@ == id implies front[i].1@.len()
                == 0 by {
                assert(results[i] == front[i]);
            }
            assert(results[last] == results.last());
        }
        assert forall|i: int|
            0 <= i < results.len() && (#[trigger] results[i]).0@ == id && results[i].1@.len() > 0
                && (forall|j: int|
                i < j < results.len() && (#[trigger] results[j]).0@ == id ==> results[j].1@.len()
                    == 0) implies with_results(members, results).contains_pair(
            id,
            service_views(results[i].1@),
        ) by {
            if i < last {
                assert(results[last] == results.last());
                assert forall|j: int|
                    i < j < front.len() && (#[trigger] front[j]).0@ == id implies front[j].1@.len()
                    == 0 by {
                    assert(results[j] == front[j]);
                }
                assert(front[i] == results[i]);
            }
        }
    }
}

/// With one result for each member that is asked, and one service in it for
/// each network that the member serves, exactly the eligible members that
/// serve a network are kept, each with its own services.
pub proof fn eligible_members_are_kept(
    members: Seq<(String, IbpMember)>,
    results: Seq<(String, Vec<MemberInfo>)>,
)
    requires
        distinct_names(members),
        results.len() == tasks_of(members).len(),
        forall|k: int|
            0 <= k < results.len() ==> (#[trigger] results[k]).0@ == tasks_of(members)[k].member_id
                && results[k].1@.len() == tasks_of(members)[k].networks.len(),
    ensures
        forall|id: Seq<char>| #[trigger]
            with_results(Map::empty(), results).contains_key(id) <==> exists|i: int|
                0 <= i < members.len() && (#[trigger] members[i]).0@ == id && is_asked(
                    members[i].1,
                ) && served_networks(members[i].1.service_assignments@).len() > 0,
        forall|k: int|
            0 <= k < results.len() && (#[trigger] results[k]).1@.len() > 0 ==> with_results(
                Map::empty(),
                results,
            ).contains_pair(results[k].0@, service_views(results[k].1@)),
{
    let empty = Map::<Seq<char>, Seq<MemberInfoView>>::empty();
    let kept = with_results(empty, results);
    let tasks = tasks_of(members);
    eligible_members_are_asked(members);
    assert forall|k: int|
        0 <= k < results.len() && (#[trigger] results[k]).1@.len() > 0 implies kept.contains_pair(
        results[k].0@,
        service_views(results[k].1@),
    ) by {
        members_keep_their_services(empty, results, results[k].0@);
        assert forall|j: int|
            k < j < results.len() && (#[trigger] results[j]).0@ == results[k].0@ implies
            results[j].1@.len() == 0 by {
            assert(tasks[k].member_id != tasks[j].member_id);
        }
    }
    assert forall|id: Seq<char>| #[trigger] kept.contains_key(id) <==> exists|i: int|
        0 <= i < members.len() && (#[trigger] members[i]).0@ == id && is_asked(members[i].1)
            && served_networks(members[i].1.service_assignments@).len() > 0 by {
        if kept.contains_key(id) {
            members_keep_their_services(empty, results, id);
            let k = choose|k: int|
                0 <= k < results.len() && (#[trigger] results[k]).0@ == id && results[k].1@.len()
                    > 0;
            assert(asks_eligible(tasks[k], members));
            let i = choose|i: int|
                0 <= i < members.len() && is_asked((#[trigger] members[i]).1) && tasks[k]
                    == task_of(members[i].0@, members[i].1);
            assert(members[i].0@ == id);
        }
        if exists|i: int|
            0 <= i < members.len() && (#[trigger] members[i]).0@ == id && is_asked(members[i].1)
                && served_networks(members[i].1.service_assignments@).len() > 0 {
            let i = choose|i: int|
                0 <= i < members.len() && (#[trigger] members[i]).0@ == id && is_asked(
                    members[i].1,
                ) && served_networks(members[i].1.service_assignments@).len() > 0;
            let task = task_of(members[i].0@, members[i].1);
            assert(tasks.contains(task));
            let k = choose|k: int| 0 <= k < tasks.len() && tasks[k] == task;
            assert(results[k].0@ == id);
            assert(kept.contains_pair(results[k].0@, service_views(results[k].1@)));
        }
    }
}

// ---------------------------------------------------------------------------
// What holds of names, tasks and services
// ---------------------------------------------------------------------------

/// A pattern with an `h` at `h` is not found in a text whose only `h` stands at
/// `at`, where another of its characters, at `other`, does not fit there.
proof fn pattern_does_not_fit(
    text: Seq<char>,
    pattern: Seq<char>,
    at: int,
    h: int,
    other: int,
)
    requires
        0 <= h < pattern.len(),
        pattern[h] == 'h',
        0 <= other < pattern.len(),
        forall|i: int| 0 <= i < text.len() && #[trigger] text[i] == 'h' ==> i == at,
        0 <= at - h && at - h + pattern.len() <= text.len() ==> text[at - h + other]
            != pattern[other],
    ensures
        !has_text(text, pattern),
{
    if has_text(text, pattern) {
        let found = choose|found: int| occurs_at(text, pattern, found);
        assert(text.subrange(found, found + pattern.len())[h] == text[found + h]);
        assert(text.subrange(found, found + pattern.len())[other] == text[found + other]);
    }
}

/// A pattern between texts without an `h` is replaced, and they are kept.
proof fn mark_is_replaced(
    front: Seq<char>,
    pattern: Seq<char>,
    tail: Seq<char>,
    with: Seq<char>,
    h: int,
)
    requires
        0 <= h < pattern.len(),
        pattern[h] == 'h',
        forall|i: int| 0 <= i < h ==> #[trigger] pattern[i] != 'h',
        forall|i: int| 0 <= i < front.len() ==> #[trigger] front[i] != 'h',
        forall|i: int| 0 <= i < tail.len() ==> #[trigger] tail[i] != 'h',
    ensures
        replaced(front + pattern + tail, pattern, with) == front + with + tail,
{
    let text = front + pattern + tail;
    assert forall|i: int| 0 <= i < front.len() implies !#[trigger] occurs_at(text, pattern, i) by {
        if occurs_at(text, pattern, i) {
            assert(text.subrange(i, i + pattern.len())[h] == text[i + h]);
            if i + h >= front.len() {
                assert(text[i + h] == pattern[i + h - front.len()]);
            }
        }
    }
    first_occurrence_is_replaced(front, pattern, tail, with);
    if has_text(tail, pattern) {
        let found = choose|found: int| occurs_at(tail, pattern, found);
        assert(tail.subrange(found, found + pattern.len())[h] == tail[found + h]);
    }
    text_without_pattern_is_kept(tail, pattern, with);
}

/// A name without any of the four marks is kept, in lower case.
pub proof fn unmarked_names_are_kept(assigned: Seq<char>)
    requires
        !has_text(lowercase(assigned), "assethub"@),
        !has_text(lowercase(assigned), "bridgehub"@),
        !has_text(lowercase(assigned), "passet-hub"@),
        !has_text(lowercase(assigned), "eth-"@),
    ensures
        network_name(assigned) == lowercase(assigned),
{
    let lower = lowercase(assigned);
    text_without_pattern_is_kept(lower, "assethub"@, "asset-hub"@);
    text_without_pattern_is_kept(lower, "bridgehub"@, "bridge-hub"@);
    text_without_pattern_is_kept(lower, "passet-hub"@, "asset-hub"@);
    text_without_pattern_is_kept(lower, "eth-"@, ""@);
}

/// The hubs of a network are asked for with a hyphen in their names, the test
/// hub as the asset hub, and a name with `eth-` in it without that mark. What
/// stands around the mark, `front` and `tail`, is kept.
pub proof fn marked_names_are_changed(assigned: Seq<char>, front: Seq<char>, tail: Seq<char>)
    requires
        forall|i: int| 0 <= i < front.len() ==> #[trigger] front[i] != 'h',
        forall|i: int| 0 <= i < tail.len() ==> #[trigger] tail[i] != 'h',
    ensures
        lowercase(assigned) == front + "assethub"@ + tail && (front.len() == 0 || front.last()
            != 'p') ==> network_name(assigned) == front + "asset-hub"@ + tail,
        lowercase(assigned) == front + "passethub"@ + tail ==> network_name(assigned) == front
            + "asset-hub"@ + tail,
        lowercase(assigned) == front + "bridgehub"@ + tail ==> network_name(assigned) == front
            + "bridge-hub"@ + tail,
        lowercase(assigned) == front + "passet-hub"@ + tail ==> network_name(assigned) == front
            + "asset-hub"@ + tail,
        lowercase(assigned) == front + "eth-"@ + tail ==> network_name(assigned) == front + tail,
        lowercase(assigned) == front + tail ==> network_name(assigned) == front + tail,
{
    reveal_strlit("assethub");
    reveal_strlit("passethub");
    reveal_strlit("bridgehub");
    reveal_strlit("passet-hub");
    reveal_strlit("eth-");
    reveal_strlit("asset-hub");
    reveal_strlit("bridge-hub");
    reveal_strlit("");
    let lower = lowercase(assigned);
    let n = front.len() as int;
    let asset = front + "asset-hub"@ + tail;
    let bridge = front + "bridge-hub"@ + tail;
    let passet = front + "passet-hub"@ + tail;
    pattern_does_not_fit(asset, "eth-"@, n + 6, 2, 1);
    text_without_pattern_is_kept(asset, "eth-"@, ""@);
    pattern_does_not_fit(passet, "bridgehub"@, n + 7, 6, 5);
    text_without_pattern_is_kept(passet, "bridgehub"@, "bridge-hub"@);
    mark_is_replaced(front, "passet-hub"@, tail, "asset-hub"@, 7);
    if lower == front + "assethub"@ + tail && (front.len() == 0 || front.last() != 'p') {
        mark_is_replaced(front, "assethub"@, tail, "asset-hub"@, 5);
        pattern_does_not_fit(asset, "bridgehub"@, n + 6, 6, 5);
        pattern_does_not_fit(asset, "passet-hub"@, n + 6, 7, 0);
        text_without_pattern_is_kept(asset, "bridgehub"@, "bridge-hub"@);
        text_without_pattern_is_kept(asset, "passet-hub"@, "asset-hub"@);
    }
    if lower == front + "passethub"@ + tail {
        let longer = front.push('p');
        assert(lower =~= longer + "assethub"@ + tail);
        mark_is_replaced(longer, "assethub"@, tail, "asset-hub"@, 5);
        assert(longer + "asset-hub"@ + tail =~= passet);
    }
    if lower == front + "bridgehub"@ + tail {
        pattern_does_not_fit(lower, "assethub"@, n + 6, 5, 4);
        text_without_pattern_is_kept(lower, "assethub"@, "asset-hub"@);
        mark_is_replaced(front, "bridgehub"@, tail, "bridge-hub"@, 6);
        pattern_does_not_fit(bridge, "passet-hub"@, n + 7, 7, 5);
        pattern_does_not_fit(bridge, "eth-"@, n + 7, 2, 1);
        text_without_pattern_is_kept(bridge, "passet-hub"@, "asset-hub"@);
        text_without_pattern_is_kept(bridge, "eth-"@, ""@);
    }
    if lower == passet {
        pattern_does_not_fit(lower, "assethub"@, n + 7, 5, 4);
        text_without_pattern_is_kept(lower, "assethub"@, "asset-hub"@);
    }
    if lower == front + "eth-"@ + tail {
        pattern_does_not_fit(lower, "assethub"@, n + 2, 5, 6);
        pattern_does_not_fit(lower, "bridgehub"@, n + 2, 6, 5);
        pattern_does_not_fit(lower, "passet-hub"@, n + 2, 7, 6);
        text_without_pattern_is_kept(lower, "assethub"@, "asset-hub"@);
        text_without_pattern_is_kept(lower, "bridgehub"@, "bridge-hub"@);
        text_without_pattern_is_kept(lower, "passet-hub"@, "asset-hub"@);
        mark_is_replaced(front, "eth-"@, tail, ""@, 2);
        assert(front + ""@ + tail =~= front + tail);
    }
    if lower == front + tail {
        pattern_does_not_fit(lower, "assethub"@, -1, 5, 0);
        pattern_does_not_fit(lower, "bridgehub"@, -1, 6, 0);
        pattern_does_not_fit(lower, "passet-hub"@, -1, 7, 0);
        pattern_does_not_fit(lower, "eth-"@, -1, 2, 0);
        unmarked_names_are_kept(assigned);
    }
}

/// A member serves every network of every assignment, one name for each, in
/// the order of the assignments.
pub proof fn every_assigned_network_is_served(
    assignments: Seq<(String, Vec<String>)>,
    more: (String, Vec<String>),
)
    ensures
        served_networks(Seq::empty()) == Seq::<Seq<char>>::empty(),
        served_networks(assignments.push(more)).len() == served_networks(assignments).len()
            + more.1@.len(),
        served_networks(assignments.push(more)).take(served_networks(assignments).len() as int)
            == served_networks(assignments),
        forall|i: int|
            0 <= i < more.1@.len() ==> served_networks(
                assignments.push(more),
            )[served_networks(assignments).len() + i] == network_name((#[trigger] more.1@[i])@),
{
    let before = served_networks(assignments);
    let after = served_networks(assignments.push(more));
    assert(assignments.push(more).drop_last() =~= assignments);
    assert(after == before + assigned_names(more.1@));
    assert(after.take(before.len() as int) =~= before);
    assert(served_networks(Seq::empty()) =~= Seq::<Seq<char>>::empty());
}

/// Every member that is active and has an address is asked, at that address
/// and for the networks that it serves.
pub proof fn active_member_is_asked(members: Seq<(String, IbpMember)>, i: int) -> (k: int)
    requires
        0 <= i < members.len(),
        members[i].1.service.active != 0,
        members[i].1.service.service_ipv4@.len() > 0,
    ensures
        0 <= k < tasks_of(members).len(),
        tasks_of(members)[k].member_id == members[i].0@,
        tasks_of(members)[k].ip == members[i].1.service.service_ipv4@,
        tasks_of(members)[k].networks == served_networks(members[i].1.service_assignments@),
{
    let tasks = tasks_of(members);
    let task = task_of(members[i].0@, members[i].1);
    eligible_members_are_asked(members);
    assert(tasks.contains(task));
    choose|k: int| 0 <= k < tasks.len() && tasks[k] == task
}

/// Every member that is asked is active and has an address, at which it is
/// asked for the networks that it serves.
pub proof fn asked_member_is_active(members: Seq<(String, IbpMember)>, k: int) -> (i: int)
    requires
        0 <= k < tasks_of(members).len(),
    ensures
        0 <= i < members.len(),
        members[i].1.service.active != 0,
        members[i].1.service.service_ipv4@.len() > 0,
        tasks_of(members)[k].member_id == members[i].0@,
        tasks_of(members)[k].ip == members[i].1.service.service_ipv4@,
        tasks_of(members)[k].networks == served_networks(members[i].1.service_assignments@),
{
    let tasks = tasks_of(members);
    eligible_members_are_asked(members);
    assert(asks_eligible(tasks[k], members));
    choose|i: int|
        0 <= i < members.len() && is_asked((#[trigger] members[i]).1) && tasks[k] == task_of(
            members[i].0@,
            members[i].1,
        )
}

/// A service shows the versions that its node told, and no version where no
/// node answered; the certificate and the latency are those of the address.
pub proof fn services_show_what_was_told(
    network: Seq<char>,
    ip: Seq<char>,
    node: Option<NodeInfo>,
    address: AddressInfo,
    now: Timestamp,
)
    ensures
        ({
            let service = service_info(network, ip, node, address, now);
            &&& service.network == network
            &&& service.ip == ip
            &&& service.last_checked == now
            &&& service.cert_expires == address.cert_expires
            &&& service.cert_days_left == address.cert_days_left
            &&& service.latency_ms == address.latency_ms
            &&& node is Some ==> service.runtime_version == Some(node->0.runtime_version@)
                && service.client_version == Some(node->0.client_version@)
                && service.response_time_ms == Some(node->0.response_time_ms)
            &&& node is None ==> service.runtime_version is None && service.client_version is None
                && service.response_time_ms is None
        }),
{
}

/// One more member adds its own task at the end, if it is active and has an
/// address, and none otherwise.
pub proof fn members_add_their_tasks(
    members: Seq<(String, IbpMember)>,
    id: String,
    member: IbpMember,
)
    ensures
        tasks_of(Seq::empty()).len() == 0,
        member.service.active != 0 && member.service.service_ipv4@.len() > 0 ==> tasks_of(
            members.push((id, member)),
        ) == tasks_of(members).push(
            (MemberTaskView {
                member_id: id@,
                ip: member.service.service_ipv4@,
                networks: served_networks(member.service_assignments@),
            }),
        ),
        member.service.active == 0 || member.service.service_ipv4@.len() == 0 ==> tasks_of(
            members.push((id, member)),
        ) == tasks_of(members),
{
    assert(members.push((id, member)).drop_last() =~= members);
}

/// A task stands for its own fields.
pub proof fn tasks_stand_for_their_fields(task: MemberTask)
    ensures
        task@.member_id == task.member_id@,
        task@.ip == task.ip@,
        task@.networks.len() == task.networks@.len(),
        forall|i: int|
            0 <= i < task.networks@.len() ==> task@.networks[i] == (#[trigger] task.networks@[i])@,
{
}

} // verus!
