//! Figures over the services of all members.

use crate::models::{service_views, HealthStats, MemberInfo, MemberInfoView};
use crate::store::{lists_entries, member_pairs};
use vstd::prelude::*;

verus! {

// ---------------------------------------------------------------------------
// What is counted
// ---------------------------------------------------------------------------

/// Every service.
pub open spec fn any_service() -> spec_fn(MemberInfoView) -> bool {
    |service: MemberInfoView| true
}

/// Services whose certificate has expired.
pub open spec fn cert_expired() -> spec_fn(MemberInfoView) -> bool {
    |service: MemberInfoView| service.cert_days_left is Some && service.cert_days_left->0 < 0
}

/// Services whose certificate is still valid and expires in fewer than
/// `critical` days.
pub open spec fn cert_critical(critical: i64) -> spec_fn(MemberInfoView) -> bool {
    |service: MemberInfoView|
        service.cert_days_left is Some && 0 <= service.cert_days_left->0 < critical
}

/// Services whose certificate is still valid, is not critical, and expires in
/// fewer than `warning` days.
pub open spec fn cert_warning(critical: i64, warning: i64) -> spec_fn(MemberInfoView) -> bool {
    |service: MemberInfoView|
        service.cert_days_left is Some && 0 <= service.cert_days_left->0 && critical
            <= service.cert_days_left->0 < warning
}

/// Services with this latency.
pub open spec fn latency_is(ms: u64) -> spec_fn(MemberInfoView) -> bool {
    |service: MemberInfoView| service.latency_ms == Some(ms)
}

/// Services that take more than a second to connect to.
pub open spec fn slow() -> spec_fn(MemberInfoView) -> bool {
    |service: MemberInfoView| service.latency_ms is Some && service.latency_ms->0 > 1000
}

/// Services that did not tell their versions.
pub open spec fn unreachable_service() -> spec_fn(MemberInfoView) -> bool {
    |service: MemberInfoView| service.runtime_version is None || service.client_version is None
}

/// Where the wanted services stand: the member, and the position among the
/// member's services.
pub open spec fn service_places(
    members: Map<Seq<char>, Seq<MemberInfoView>>,
    wanted: spec_fn(MemberInfoView) -> bool,
) -> Set<(Seq<char>, int)> {
    Set::new(
        |place: (Seq<char>, int)|
            members.contains_key(place.0) && 0 <= place.1 < members[place.0].len() && wanted(
                members[place.0][place.1],
            ),
    )
}

/// How many of the members' services are wanted.
pub open spec fn services_with(
    members: Map<Seq<char>, Seq<MemberInfoView>>,
    wanted: spec_fn(MemberInfoView) -> bool,
) -> nat {
    service_places(members, wanted).len()
}

// ---------------------------------------------------------------------------
// Counting along a list
// ---------------------------------------------------------------------------

/// How many of the listed services are wanted.
pub open spec fn tally(
    services: Seq<MemberInfoView>,
    wanted: spec_fn(MemberInfoView) -> bool,
) -> nat
    decreases services.len(),
{
    if services.len() == 0 {
        0
    } else {
        tally(services.drop_last(), wanted) + if wanted(services.last()) {
            1nat
        } else {
            0
        }
    }
}

/// The services of all listed members, in order.
pub open spec fn joined(pairs: Seq<(Seq<char>, Seq<MemberInfoView>)>) -> Seq<MemberInfoView>
    decreases pairs.len(),
{
    if pairs.len() == 0 {
        seq![]
    } else {
        joined(pairs.drop_last()) + pairs.last().1
    }
}

proof fn tally_adds(
    a: Seq<MemberInfoView>,
    b: Seq<MemberInfoView>,
    wanted: spec_fn(MemberInfoView) -> bool,
)
    ensures
        tally(a + b, wanted) == tally(a, wanted) + tally(b, wanted),
    decreases b.len(),
{
    if b.len() == 0 {
        assert(a + b =~= a);
    } else {
        tally_adds(a, b.drop_last(), wanted);
        assert((a + b).drop_last() =~= a + b.drop_last());
    }
}

/// The places of the wanted services of one member.
spec fn places_of(
    key: Seq<char>,
    services: Seq<MemberInfoView>,
    wanted: spec_fn(MemberInfoView) -> bool,
) -> Set<(Seq<char>, int)> {
    Set::new(
        |place: (Seq<char>, int)|
            place.0 == key && 0 <= place.1 < services.len() && wanted(services[place.1]),
    )
}

proof fn places_of_one(
    key: Seq<char>,
    services: Seq<MemberInfoView>,
    wanted: spec_fn(MemberInfoView) -> bool,
)
    ensures
        places_of(key, services, wanted).finite(),
        places_of(key, services, wanted).len() == tally(services, wanted),
    decreases services.len(),
{
    let places = places_of(key, services, wanted);
    if services.len() == 0 {
        assert(places =~= Set::empty());
    } else {
        let front = services.drop_last();
        let last = (key, services.len() - 1);
        places_of_one(key, front, wanted);
        if wanted(services.last()) {
            assert(places =~= places_of(key, front, wanted).insert(last));
        } else {
            assert(places =~= places_of(key, front, wanted));
        }
    }
}

/// The map with the listed entries.
spec fn map_of(pairs: Seq<(Seq<char>, Seq<MemberInfoView>)>) -> Map<Seq<char>, Seq<MemberInfoView>>
    decreases pairs.len(),
{
    if pairs.len() == 0 {
        Map::empty()
    } else {
        map_of(pairs.drop_last()).insert(pairs.last().0, pairs.last().1)
    }
}

proof fn front_lists_front(pairs: Seq<(Seq<char>, Seq<MemberInfoView>)>)
    requires
        lists_entries(pairs, map_of(pairs)),
        pairs.len() > 0,
    ensures
        lists_entries(pairs.drop_last(), map_of(pairs.drop_last())),
        !map_of(pairs.drop_last()).contains_key(pairs.last().0),
{
    let front = pairs.drop_last();
    let key = pairs.last().0;
    assert forall|i: int, j: int| 0 <= i < j < front.len() implies (#[trigger] front[i]).0
        != (#[trigger] front[j]).0 by {
        assert(pairs[i].0 != pairs[j].0);
    }
    lists_map_of(front);
    if map_of(front).contains_key(key) {
        let i = choose|i: int| 0 <= i < front.len() && (#[trigger] front[i]).0 == key;
        assert(pairs[i].0 != pairs[pairs.len() - 1].0);
    }
}

/// A list without repeated keys lists the entries of its map.
proof fn lists_map_of(pairs: Seq<(Seq<char>, Seq<MemberInfoView>)>)
    requires
        forall|i: int, j: int|
            0 <= i < j < pairs.len() ==> (#[trigger] pairs[i]).0 != (#[trigger] pairs[j]).0,
    ensures
        lists_entries(pairs, map_of(pairs)),
    decreases pairs.len(),
{
    if pairs.len() > 0 {
        let front = pairs.drop_last();
        let map = map_of(pairs);
        assert forall|i: int, j: int| 0 <= i < j < front.len() implies (#[trigger] front[i]).0
            != (#[trigger] front[j]).0 by {
            assert(pairs[i].0 != pairs[j].0);
        }
        lists_map_of(front);
        assert forall|i: int| 0 <= i < pairs.len() implies map.contains_key((#[trigger] pairs[i]).0)
            && map[pairs[i].0] == pairs[i].1 by {
            if i < front.len() {
                assert(front[i] == pairs[i]);
                assert(pairs[i].0 != pairs[pairs.len() - 1].0);
            }
        }
        assert forall|key: Seq<char>| #[trigger] map.contains_key(key) implies exists|i: int|
            0 <= i < pairs.len() && (#[trigger] pairs[i]).0 == key by {
            if key == pairs.last().0 {
                assert(pairs[pairs.len() - 1].0 == key);
            } else {
                let i = choose|i: int| 0 <= i < front.len() && (#[trigger] front[i]).0 == key;
                assert(pairs[i].0 == key);
            }
        }
    }
}

/// There is one map with the listed entries.
proof fn listed_map_is_unique(
    pairs: Seq<(Seq<char>, Seq<MemberInfoView>)>,
    a: Map<Seq<char>, Seq<MemberInfoView>>,
    b: Map<Seq<char>, Seq<MemberInfoView>>,
)
    requires
        lists_entries(pairs, a),
        lists_entries(pairs, b),
    ensures
        a == b,
{
    assert forall|key: Seq<char>| #[trigger] a.contains_key(key) <==> b.contains_key(key) by {
        if a.contains_key(key) {
            let i = choose|i: int| 0 <= i < pairs.len() && (#[trigger] pairs[i]).0 == key;
            assert(b.contains_key(pairs[i].0));
        }
        if b.contains_key(key) {
            let i = choose|i: int| 0 <= i < pairs.len() && (#[trigger] pairs[i]).0 == key;
            assert(a.contains_key(pairs[i].0));
        }
    }
    assert(a.dom() =~= b.dom());
    assert forall|key: Seq<char>| #[trigger] a.contains_key(key) implies a[key] == b[key] by {
        let i = choose|i: int| 0 <= i < pairs.len() && (#[trigger] pairs[i]).0 == key;
        assert(a[pairs[i].0] == pairs[i].1);
        assert(b[pairs[i].0] == pairs[i].1);
    }
    assert(a =~= b);
}

proof fn tally_counts_listed(
    pairs: Seq<(Seq<char>, Seq<MemberInfoView>)>,
    wanted: spec_fn(MemberInfoView) -> bool,
)
    requires
        lists_entries(pairs, map_of(pairs)),
    ensures
        service_places(map_of(pairs), wanted).finite(),
        tally(joined(pairs), wanted) == services_with(map_of(pairs), wanted),
    decreases pairs.len(),
{
    let places = service_places(map_of(pairs), wanted);
    if pairs.len() == 0 {
        assert(places =~= Set::empty());
    } else {
        let front = pairs.drop_last();
        let (key, services) = pairs.last();
        front_lists_front(pairs);
        tally_counts_listed(front, wanted);
        places_of_one(key, services, wanted);
        tally_adds(joined(front), services, wanted);
        let earlier = service_places(map_of(front), wanted);
        let new = places_of(key, services, wanted);
        assert(places =~= earlier + new);
        assert(earlier.disjoint(new));
        vstd::set_lib::lemma_set_disjoint_lens(earlier, new);
    }
}

/// In whatever order the members are listed, counting along the list gives
/// the number of their wanted services.
pub proof fn tally_does_not_depend_on_order(
    pairs: Seq<(Seq<char>, Seq<MemberInfoView>)>,
    members: Map<Seq<char>, Seq<MemberInfoView>>,
    wanted: spec_fn(MemberInfoView) -> bool,
)
    requires
        lists_entries(pairs, members),
    ensures
        service_places(members, wanted).finite(),
        tally(joined(pairs), wanted) == services_with(members, wanted),
{
    lists_map_of(pairs);
    listed_map_is_unique(pairs, members, map_of(pairs));
    tally_counts_listed(pairs, wanted);
}

/// The members in a list are as many as the entries of the map it lists.
pub proof fn listed_members_are_counted(
    pairs: Seq<(Seq<char>, Seq<MemberInfoView>)>,
    members: Map<Seq<char>, Seq<MemberInfoView>>,
)
    requires
        lists_entries(pairs, members),
    ensures
        members.dom().finite(),
        members.len() == pairs.len(),
    decreases pairs.len(),
{
    lists_map_of(pairs);
    listed_map_is_unique(pairs, members, map_of(pairs));
    if pairs.len() > 0 {
        let front = pairs.drop_last();
        front_lists_front(pairs);
        listed_members_are_counted(front, map_of(front));
        assert(members.dom() =~= map_of(front).dom().insert(pairs.last().0));
    }
}

/// No service is counted twice among the expired, critical and warned of, and
/// none is counted that is not there.
pub proof fn certificates_are_counted_once(
    members: Map<Seq<char>, Seq<MemberInfoView>>,
    critical: i64,
    warning: i64,
)
    requires
        service_places(members, any_service()).finite(),
    ensures
        services_with(members, cert_expired()) + services_with(members, cert_critical(critical))
            + services_with(members, cert_warning(critical, warning)) <= services_with(
            members,
            any_service(),
        ),
{
    let all = service_places(members, any_service());
    let expired = service_places(members, cert_expired());
    let soon = service_places(members, cert_critical(critical));
    let later = service_places(members, cert_warning(critical, warning));
    assert(expired.subset_of(all));
    assert(soon.subset_of(all));
    assert(later.subset_of(all));
    vstd::set_lib::lemma_len_subset(expired, all);
    vstd::set_lib::lemma_len_subset(soon, all);
    vstd::set_lib::lemma_len_subset(later, all);
    assert(expired.disjoint(soon));
    vstd::set_lib::lemma_set_disjoint_lens(expired, soon);
    assert((expired + soon).disjoint(later));
    vstd::set_lib::lemma_set_disjoint_lens(expired + soon, later);
    assert((expired + soon + later).subset_of(all));
    vstd::set_lib::lemma_len_subset(expired + soon + later, all);
}

// ---------------------------------------------------------------------------
// The figures
// ---------------------------------------------------------------------------

/// The latencies that were measured, in order.
pub open spec fn measured(services: Seq<MemberInfoView>) -> Seq<u64>
    decreases services.len(),
{
    if services.len() == 0 {
        seq![]
    } else {
        let front = measured(services.drop_last());
        match services.last().latency_ms {
            Some(ms) => front.push(ms),
            None => front,
        }
    }
}

/// A latency was measured as often as there are services with it.
pub proof fn latencies_are_counted(services: Seq<MemberInfoView>, ms: u64)
    ensures
        measured(services).to_multiset().count(ms) == tally(services, latency_is(ms)),
    decreases services.len(),
{
    broadcast use vstd::seq_lib::group_to_multiset_ensures;

    if services.len() > 0 {
        latencies_are_counted(services.drop_last(), ms);
    }
}

/// `stats` holds the figures of the listed services.
pub open spec fn figures_of(
    stats: HealthStats,
    services: Seq<MemberInfoView>,
    critical: i64,
    warning: i64,
) -> bool {
    &&& stats.total_services == tally(services, any_service())
    &&& stats.cert_warnings == tally(services, cert_warning(critical, warning))
    &&& stats.cert_critical == tally(services, cert_critical(critical))
    &&& stats.cert_expired == tally(services, cert_expired())
    &&& stats.latencies@ == measured(services)
    &&& stats.slow_services == tally(services, slow())
    &&& stats.unreachable_services == tally(services, unreachable_service())
}

/// Counts along a list of services.
pub fn figures(total_members: usize, services: &Vec<MemberInfo>, critical: i64, warning: i64) -> (stats:
    HealthStats)
    ensures
        stats.total_members == total_members,
        figures_of(stats, service_views(services@), critical, warning),
{
    let ghost views = service_views(services@);
    let mut stats = HealthStats {
        total_members,
        total_services: 0,
        cert_warnings: 0,
        cert_critical: 0,
        cert_expired: 0,
        latencies: Vec::new(),
        slow_services: 0,
        unreachable_services: 0,
    };
    let mut i: usize = 0;
    assert(stats.latencies@ =~= measured(views.take(0)));
    while i < services.len()
        invariant
            i <= services@.len(),
            views == service_views(services@),
            stats.total_members == total_members,
            figures_of(stats, views.take(i as int), critical, warning),
            stats.total_services <= i,
            stats.cert_warnings <= i,
            stats.cert_critical <= i,
            stats.cert_expired <= i,
            stats.slow_services <= i,
            stats.unreachable_services <= i,
        decreases services@.len() - i,
    {
        let service = &services[i];
        proof {
            let taken = views.take(i + 1);
            assert(taken.drop_last() =~= views.take(i as int));
            assert(taken.last() == service@);
        }
        stats.total_services = stats.total_services + 1;
        if let Some(days_left) = service.cert_days_left {
            if days_left < 0 {
                stats.cert_expired = stats.cert_expired + 1;
            } else if days_left < critical {
                stats.cert_critical = stats.cert_critical + 1;
            } else if days_left < warning {
                stats.cert_warnings = stats.cert_warnings + 1;
            }
        }
        if let Some(ms) = service.latency_ms {
            stats.latencies.push(ms);
            if ms > 1000 {
                stats.slow_services = stats.slow_services + 1;
            }
        }
        if service.runtime_version.is_none() || service.client_version.is_none() {
            stats.unreachable_services = stats.unreachable_services + 1;
        }
        i = i + 1;
    }
    assert(views.take(i as int) =~= views);
    stats
}

/// Puts the services of all listed members into one list.
pub fn join_services(pairs: &Vec<(String, Vec<MemberInfo>)>) -> (services: Vec<MemberInfo>)
    ensures
        service_views(services@) == joined(member_pairs(pairs@)),
{
    let ghost views = member_pairs(pairs@);
    let mut services: Vec<MemberInfo> = Vec::new();
    let mut i: usize = 0;
    assert(service_views(services@) =~= joined(views.take(0)));
    while i < pairs.len()
        invariant
            i <= pairs@.len(),
            views == member_pairs(pairs@),
            service_views(services@) == joined(views.take(i as int)),
        decreases pairs@.len() - i,
    {
        let own = &pairs[i].1;
        let ghost before = service_views(services@);
        let mut j: usize = 0;
        assert(before + service_views(own@).take(0) =~= before);
        while j < own.len()
            invariant
                j <= own@.len(),
                service_views(services@) == before + service_views(own@).take(j as int),
            decreases own@.len() - j,
        {
            let ghost earlier = services@;
            services.push(own[j].clone());
            proof {
                assert(service_views(services@) =~= service_views(earlier).push(own@[j as int]@));
                assert(service_views(own@).take(j + 1) =~= service_views(own@).take(j as int).push(
                    own@[j as int]@,
                ));
            }
            j = j + 1;
            assert(service_views(services@) =~= before + service_views(own@).take(j as int));
        }
        proof {
            assert(service_views(own@).take(j as int) =~= service_views(own@));
            let taken = views.take(i + 1);
            assert(taken.drop_last() =~= views.take(i as int));
            assert(taken.last().1 == service_views(own@));
        }
        i = i + 1;
    }
    assert(views.take(i as int) =~= views);
    services
}

// ---------------------------------------------------------------------------
// What holds of the figures
// ---------------------------------------------------------------------------

/// Counting along a list counts the services that satisfy the condition.
proof fn tally_is_filter(services: Seq<MemberInfoView>, wanted: spec_fn(MemberInfoView) -> bool)
    ensures
        tally(services, wanted) == services.filter(wanted).len(),
    decreases services.len(),
{
    reveal(Seq::filter);
    if services.len() > 0 {
        tally_is_filter(services.drop_last(), wanted);
    }
}

/// Without members there are no services, and one more member adds those of
/// its services that are wanted.
pub proof fn members_add_their_services(
    members: Map<Seq<char>, Seq<MemberInfoView>>,
    key: Seq<char>,
    services: Seq<MemberInfoView>,
    wanted: spec_fn(MemberInfoView) -> bool,
)
    requires
        !members.contains_key(key),
        service_places(members, |service: MemberInfoView| true).finite(),
    ensures
        services_with(Map::empty(), wanted) == 0,
        services_with(members.insert(key, services), wanted) == services_with(members, wanted)
            + services.filter(wanted).len(),
        services_with(members.insert(key, services), |service: MemberInfoView| true)
            == services_with(members, |service: MemberInfoView| true) + services.len(),
{
    let empty = Map::<Seq<char>, Seq<MemberInfoView>>::empty();
    let all = |service: MemberInfoView| true;
    assert(service_places(empty, wanted) =~= Set::empty());
    assert(service_places(members, wanted).subset_of(service_places(members, all)));
    vstd::set_lib::lemma_len_subset(service_places(members, wanted), service_places(members, all));
    one_member_more(members, key, services, wanted);
    one_member_more(members, key, services, all);
    all_are_kept(services, all);
}

proof fn all_are_kept(services: Seq<MemberInfoView>, all: spec_fn(MemberInfoView) -> bool)
    requires
        forall|service: MemberInfoView| #[trigger] all(service),
    ensures
        services.filter(all).len() == services.len(),
    decreases services.len(),
{
    reveal(Seq::filter);
    if services.len() > 0 {
        all_are_kept(services.drop_last(), all);
    }
}

proof fn one_member_more(
    members: Map<Seq<char>, Seq<MemberInfoView>>,
    key: Seq<char>,
    services: Seq<MemberInfoView>,
    wanted: spec_fn(MemberInfoView) -> bool,
)
    requires
        !members.contains_key(key),
        service_places(members, wanted).finite(),
    ensures
        services_with(members.insert(key, services), wanted) == services_with(members, wanted)
            + services.filter(wanted).len(),
{
    let before = service_places(members, wanted);
    let new = places_of(key, services, wanted);
    places_of_one(key, services, wanted);
    tally_is_filter(services, wanted);
    assert(service_places(members.insert(key, services), wanted) =~= before + new);
    assert(before.disjoint(new));
    vstd::set_lib::lemma_set_disjoint_lens(before, new);
}

/// Services that satisfy a condition, and those that do not, are all services.
proof fn the_rest_are_counted(
    members: Map<Seq<char>, Seq<MemberInfoView>>,
    wanted: spec_fn(MemberInfoView) -> bool,
    rest: spec_fn(MemberInfoView) -> bool,
    all: spec_fn(MemberInfoView) -> bool,
)
    requires
        service_places(members, all).finite(),
        forall|service: MemberInfoView| #[trigger] all(service),
        forall|service: MemberInfoView| #[trigger] rest(service) <==> !wanted(service),
    ensures
        services_with(members, wanted) + services_with(members, rest) == services_with(
            members,
            all,
        ),
{
    let every = service_places(members, all);
    let some = service_places(members, wanted);
    let others = service_places(members, rest);
    assert(some.subset_of(every));
    assert(others.subset_of(every));
    vstd::set_lib::lemma_len_subset(some, every);
    vstd::set_lib::lemma_len_subset(others, every);
    assert forall|place: (Seq<char>, int)| every.contains(place) implies (some
        + others).contains(place) by {
        assert(rest(members[place.0][place.1]) <==> !wanted(members[place.0][place.1]));
    }
    assert(some + others =~= every);
    assert forall|place: (Seq<char>, int)| some.contains(place) implies !others.contains(place) by {
        assert(rest(members[place.0][place.1]) <==> !wanted(members[place.0][place.1]));
    }
    assert(some.disjoint(others));
    vstd::set_lib::lemma_set_disjoint_lens(some, others);
}

/// All services are those that are counted as unreachable and those whose
/// runtime version and client version are both known. So a service of which no
/// version is known is unreachable.
pub proof fn reachable_services_are_the_rest(members: Map<Seq<char>, Seq<MemberInfoView>>)
    requires
        service_places(members, |service: MemberInfoView| true).finite(),
    ensures
        services_with(members, unreachable_service()) + services_with(
            members,
            |service: MemberInfoView|
                service.runtime_version is Some && service.client_version is Some,
        ) == services_with(members, |service: MemberInfoView| true),
        forall|service: MemberInfoView|
            service.runtime_version is None && service.client_version is None
                ==> #[trigger] unreachable_service()(service),
{
    the_rest_are_counted(
        members,
        unreachable_service(),
        |service: MemberInfoView| service.runtime_version is Some && service.client_version is Some,
        |service: MemberInfoView| true,
    );
}

/// Every service counts, and the slow ones are all but those that answered
/// within a second and those whose latency is not known.
pub proof fn fast_services_are_the_rest(members: Map<Seq<char>, Seq<MemberInfoView>>, ms: u64)
    requires
        service_places(members, |service: MemberInfoView| true).finite(),
    ensures
        services_with(members, any_service()) == services_with(
            members,
            |service: MemberInfoView| true,
        ),
        services_with(members, slow()) + services_with(
            members,
            |service: MemberInfoView| service.latency_ms is None || service.latency_ms->0 <= 1000,
        ) == services_with(members, |service: MemberInfoView| true),
        services_with(members, latency_is(ms)) + services_with(
            members,
            |service: MemberInfoView| service.latency_ms is None || service.latency_ms->0 != ms,
        ) == services_with(members, |service: MemberInfoView| true),
{
    assert(service_places(members, any_service()) =~= service_places(
        members,
        |service: MemberInfoView| true,
    ));
    the_rest_are_counted(
        members,
        slow(),
        |service: MemberInfoView| service.latency_ms is None || service.latency_ms->0 <= 1000,
        |service: MemberInfoView| true,
    );
    the_rest_are_counted(
        members,
        latency_is(ms),
        |service: MemberInfoView| service.latency_ms is None || service.latency_ms->0 != ms,
        |service: MemberInfoView| true,
    );
}

/// The certificates of all services are expired, critical, warned of, good for
/// long enough, or not known, and each is one of these.
pub proof fn certificates_are_of_five_kinds(
    members: Map<Seq<char>, Seq<MemberInfoView>>,
    critical: i64,
    warning: i64,
)
    requires
        service_places(members, |service: MemberInfoView| true).finite(),
    ensures
        services_with(members, cert_expired()) + services_with(
            members,
            |service: MemberInfoView|
                service.cert_days_left is None || service.cert_days_left->0 >= 0,
        ) == services_with(members, |service: MemberInfoView| true),
        services_with(members, cert_critical(critical)) + services_with(
            members,
            |service: MemberInfoView|
                service.cert_days_left is None || service.cert_days_left->0 < 0
                    || service.cert_days_left->0 >= critical,
        ) == services_with(members, |service: MemberInfoView| true),
        services_with(members, cert_expired()) + services_with(members, cert_critical(critical))
            + services_with(members, cert_warning(critical, warning)) + services_with(
            members,
            |service: MemberInfoView|
                service.cert_days_left is None || (service.cert_days_left->0 >= 0
                    && service.cert_days_left->0 >= critical && service.cert_days_left->0
                    >= warning),
        ) == services_with(members, |service: MemberInfoView| true),
{
    let all = |service: MemberInfoView| true;
    let every = service_places(members, all);
    the_rest_are_counted(
        members,
        cert_expired(),
        |service: MemberInfoView| service.cert_days_left is None || service.cert_days_left->0 >= 0,
        all,
    );
    the_rest_are_counted(
        members,
        cert_critical(critical),
        |service: MemberInfoView|
            service.cert_days_left is None || service.cert_days_left->0 < 0
                || service.cert_days_left->0 >= critical,
        all,
    );
    let good = |service: MemberInfoView|
        service.cert_days_left is None || (service.cert_days_left->0 >= 0
            && service.cert_days_left->0 >= critical && service.cert_days_left->0 >= warning);
    let expired = service_places(members, cert_expired());
    let soon = service_places(members, cert_critical(critical));
    let later = service_places(members, cert_warning(critical, warning));
    let fine = service_places(members, good);
    assert(expired.subset_of(every));
    assert(soon.subset_of(every));
    assert(later.subset_of(every));
    assert(fine.subset_of(every));
    vstd::set_lib::lemma_len_subset(expired, every);
    vstd::set_lib::lemma_len_subset(soon, every);
    vstd::set_lib::lemma_len_subset(later, every);
    vstd::set_lib::lemma_len_subset(fine, every);
    assert(expired.disjoint(soon));
    vstd::set_lib::lemma_set_disjoint_lens(expired, soon);
    assert((expired + soon).disjoint(later));
    vstd::set_lib::lemma_set_disjoint_lens(expired + soon, later);
    assert((expired + soon + later).disjoint(fine));
    vstd::set_lib::lemma_set_disjoint_lens(expired + soon + later, fine);
    assert(expired + soon + later + fine =~= every);
}

/// The latencies of a list are those of its first part and then those of the
/// rest; one service has its own latency, if it is known.
pub proof fn latencies_are_kept_in_order(
    a: Seq<MemberInfoView>,
    b: Seq<MemberInfoView>,
    service: MemberInfoView,
)
    ensures
        measured(a + b) == measured(a) + measured(b),
        service.latency_ms is Some ==> measured(seq![service]) == seq![service.latency_ms->0],
        service.latency_ms is None ==> measured(seq![service]).len() == 0,
    decreases b.len(),
{
    assert(seq![service].drop_last() =~= Seq::<MemberInfoView>::empty());
    assert(measured(seq![service].drop_last()) =~= Seq::<u64>::empty());
    if service.latency_ms is Some {
        assert(measured(seq![service]) =~= seq![service.latency_ms->0]);
    }
    if b.len() == 0 {
        assert(a + b =~= a);
        assert(measured(a + b) =~= measured(a) + measured(b));
    } else {
        latencies_are_kept_in_order(a, b.drop_last(), service);
        assert((a + b).drop_last() =~= a + b.drop_last());
        assert((a + b).last() == b.last());
        assert(measured(a + b) =~= measured(a) + measured(b));
    }
}

} // verus!
