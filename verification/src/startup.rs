//! Which nodes are asked for the versions of each network.

use crate::models::IbpNetworkConfig;
use crate::store::{list_entries, new_lists, put_list};
use crate::table::Table;
use crate::text::{contains, has_text, lowercase, text_views, text_views_push};
use dashmap::DashMap;
use vstd::prelude::*;

verus! {

/// `url` is a node behind the GeoDNS of the IBP network.
pub open spec fn is_geodns_url(url: Seq<char>) -> bool {
    has_text(url, "dotters.network"@)
}

/// The URLs of one provider that lie behind the GeoDNS.
pub open spec fn geodns_urls(urls: Seq<Seq<char>>) -> Seq<Seq<char>> {
    urls.filter(|url: Seq<char>| is_geodns_url(url))
}

/// The URLs of each provider of a network, in order.
pub open spec fn provider_urls(network: IbpNetworkConfig) -> Seq<Seq<Seq<char>>> {
    Seq::new(
        network.providers@.len(),
        |i: int| text_views(network.providers@[i].1.rpc_urls@),
    )
}

/// The URLs of several providers that lie behind the GeoDNS, in order.
pub open spec fn all_geodns_urls(providers: Seq<Seq<Seq<char>>>) -> Seq<Seq<char>>
    decreases providers.len(),
{
    if providers.len() == 0 {
        seq![]
    } else {
        all_geodns_urls(providers.drop_last()) + geodns_urls(providers.last())
    }
}

/// The nodes of a network that are asked: none where the network is not
/// active.
pub open spec fn network_nodes(network: IbpNetworkConfig) -> Seq<Seq<char>> {
    if network.configuration.active == 0 {
        seq![]
    } else {
        all_geodns_urls(provider_urls(network))
    }
}

/// The nodes of each network that has any, under the network's name in lower
/// case.
pub open spec fn network_endpoints(networks: Seq<(String, IbpNetworkConfig)>) -> Map<
    Seq<char>,
    Seq<Seq<char>>,
>
    decreases networks.len(),
{
    if networks.len() == 0 {
        Map::empty()
    } else {
        let before = network_endpoints(networks.drop_last());
        let (name, network) = networks.last();
        if network_nodes(network).len() == 0 {
            before
        } else {
            before.insert(lowercase(name@), network_nodes(network))
        }
    }
}

/// The nodes of a network that are asked.
pub fn nodes_of(network: &IbpNetworkConfig) -> (urls: Vec<String>)
    ensures
        text_views(urls@) == network_nodes(*network),
{
    if network.configuration.active == 0 {
        let none: Vec<String> = Vec::new();
        assert(text_views(none@) =~= network_nodes(*network));
        return none;
    }
    let ghost providers = provider_urls(*network);
    let mut urls: Vec<String> = Vec::new();
    let mut i: usize = 0;
    assert(text_views(urls@) =~= all_geodns_urls(providers.take(0)));
    let offers = network.providers.entries();
    while i < offers.len()
        invariant
            i <= offers@.len(),
            offers@ == network.providers@,
            providers == provider_urls(*network),
            text_views(urls@) == all_geodns_urls(providers.take(i as int)),
        decreases offers@.len() - i,
    {
        let offered = &offers[i].1.rpc_urls;
        let ghost before = text_views(urls@);
        let ghost views = text_views(offered@);
        let ghost wanted = |url: Seq<char>| is_geodns_url(url);
        let mut j: usize = 0;
        assert(views.take(0).filter(wanted) =~= Seq::<Seq<char>>::empty()) by {
            reveal(Seq::filter);
        }
        while j < offered.len()
            invariant
                j <= offered@.len(),
                views == text_views(offered@),
                wanted == (|url: Seq<char>| is_geodns_url(url)),
                text_views(urls@) == before + views.take(j as int).filter(wanted),
            decreases offered@.len() - j,
        {
            proof {
                let taken = views.take(j + 1);
                assert(taken.drop_last() =~= views.take(j as int));
                assert(taken.last() == offered@[j as int]@);
                reveal(Seq::filter);
            }
            let ghost collected = urls@;
            if contains(offered[j].as_str(), "dotters.network") {
                urls.push(offered[j].clone());
                proof {
                    text_views_push(collected, offered@[j as int]);
                }
            }
            j = j + 1;
            assert(text_views(urls@) =~= before + views.take(j as int).filter(wanted));
        }
        proof {
            assert(views.take(j as int) =~= views);
            let taken = providers.take(i + 1);
            assert(taken.drop_last() =~= providers.take(i as int));
            assert(taken.last() == views);
        }
        i = i + 1;
    }
    assert(providers.take(i as int) =~= providers);
    urls
}

/// Collects the nodes of each active network, under the network's name in
/// lower case.
pub fn load_endpoints(networks: &Table<IbpNetworkConfig>) -> (endpoints: DashMap<
    String,
    Vec<String>,
>)
    ensures
        list_entries(endpoints) == network_endpoints(networks@),
{
    let mut endpoints = new_lists();
    let listed = networks.entries();
    let mut i: usize = 0;
    assert(list_entries(endpoints) =~= network_endpoints(networks@.take(0)));
    while i < listed.len()
        invariant
            i <= listed@.len(),
            listed@ == networks@,
            list_entries(endpoints) == network_endpoints(networks@.take(i as int)),
        decreases listed@.len() - i,
    {
        proof {
            let taken = networks@.take(i + 1);
            assert(taken.drop_last() =~= networks@.take(i as int));
            assert(taken.last() == networks@[i as int]);
        }
        let urls = nodes_of(&listed[i].1);
        assert(text_views(urls@).len() == urls@.len());
        if urls.len() > 0 {
            put_list(&mut endpoints, listed[i].0.as_str().to_lowercase(), urls);
        }
        i = i + 1;
    }
    assert(networks@.take(i as int) =~= networks@);
    endpoints
}

proof fn only_geodns_urls(providers: Seq<Seq<Seq<char>>>)
    ensures
        forall|i: int|
            0 <= i < all_geodns_urls(providers).len() ==> is_geodns_url(
                #[trigger] all_geodns_urls(providers)[i],
            ),
    decreases providers.len(),
{
    broadcast use vstd::seq_lib::group_filter_ensures;

    if providers.len() > 0 {
        let wanted = |url: Seq<char>| is_geodns_url(url);
        let front = all_geodns_urls(providers.drop_last());
        let last = providers.last();
        only_geodns_urls(providers.drop_last());
        assert forall|i: int| 0 <= i < all_geodns_urls(providers).len() implies is_geodns_url(
            #[trigger] all_geodns_urls(providers)[i],
        ) by {
            if i >= front.len() {
                assert(wanted(last.filter(wanted)[i - front.len()]));
            } else {
                assert(all_geodns_urls(providers)[i] == front[i]);
            }
        }
    }
}

/// A network with an entry has a node, and all its nodes lie behind the
/// GeoDNS.
pub proof fn endpoints_lie_behind_the_geodns(
    networks: Seq<(String, IbpNetworkConfig)>,
    name: Seq<char>,
)
    requires
        network_endpoints(networks).contains_key(name),
    ensures
        network_endpoints(networks)[name].len() > 0,
        forall|i: int|
            0 <= i < network_endpoints(networks)[name].len() ==> is_geodns_url(
                #[trigger] network_endpoints(networks)[name][i],
            ),
    decreases networks.len(),
{
    let before = network_endpoints(networks.drop_last());
    let (last_name, network) = networks.last();
    if network_endpoints(networks) == before || lowercase(last_name@) != name {
        assert(before.contains_key(name));
        assert(network_endpoints(networks)[name] == before[name]);
        endpoints_lie_behind_the_geodns(networks.drop_last(), name);
    } else {
        only_geodns_urls(provider_urls(network));
    }
}

// ---------------------------------------------------------------------------
// What holds of the nodes
// ---------------------------------------------------------------------------

/// A provider's URLs are asked in their order, and exactly those with
/// `dotters.network` in them; one more provider adds its own at the end.
pub proof fn providers_add_their_geodns_urls(
    providers: Seq<Seq<Seq<char>>>,
    urls: Seq<Seq<char>>,
    more: Seq<char>,
)
    ensures
        all_geodns_urls(Seq::empty()).len() == 0,
        all_geodns_urls(providers.push(urls)) == all_geodns_urls(providers) + geodns_urls(urls),
        geodns_urls(Seq::empty()).len() == 0,
        has_text(more, "dotters.network"@) ==> geodns_urls(urls.push(more)) == geodns_urls(
            urls,
        ).push(more),
        !has_text(more, "dotters.network"@) ==> geodns_urls(urls.push(more)) == geodns_urls(urls),
{
    reveal(Seq::filter);
    assert(providers.push(urls).drop_last() =~= providers);
    assert(urls.push(more).drop_last() =~= urls);
}

/// An inactive network has no nodes, and an active one those of all its
/// providers that lie behind the GeoDNS.
pub proof fn only_active_networks_have_nodes(network: IbpNetworkConfig, i: int, j: int)
    ensures
        network.configuration.active == 0 ==> network_nodes(network).len() == 0,
        network.configuration.active != 0 && 0 <= i < network.providers@.len() && 0 <= j
            < network.providers@[i].1.rpc_urls@.len() && has_text(
            network.providers@[i].1.rpc_urls@[j]@,
            "dotters.network"@,
        ) ==> network_nodes(network).contains(network.providers@[i].1.rpc_urls@[j]@),
{
    if network.configuration.active != 0 && 0 <= i < network.providers@.len() && 0 <= j
        < network.providers@[i].1.rpc_urls@.len() && has_text(
        network.providers@[i].1.rpc_urls@[j]@,
        "dotters.network"@,
    ) {
        let providers = provider_urls(network);
        assert(providers[i][j] == network.providers@[i].1.rpc_urls@[j]@);
        geodns_url_is_listed(providers, i, j);
    }
}

proof fn geodns_url_is_listed(providers: Seq<Seq<Seq<char>>>, i: int, j: int)
    requires
        0 <= i < providers.len(),
        0 <= j < providers[i].len(),
        is_geodns_url(providers[i][j]),
    ensures
        all_geodns_urls(providers).contains(providers[i][j]),
    decreases providers.len(),
{
    broadcast use vstd::seq_lib::group_filter_ensures;

    let url = providers[i][j];
    let front = all_geodns_urls(providers.drop_last());
    let last = geodns_urls(providers.last());
    if i == providers.len() - 1 {
        let wanted = |url: Seq<char>| is_geodns_url(url);
        assert(providers.last().contains(url));
        assert(wanted(url));
        assert(last.contains(url));
        let k = choose|k: int| 0 <= k < last.len() && last[k] == url;
        assert((front + last)[front.len() + k] == url);
    } else {
        assert(providers.drop_last()[i] == providers[i]);
        geodns_url_is_listed(providers.drop_last(), i, j);
        let k = choose|k: int| 0 <= k < front.len() && front[k] == url;
        assert((front + last)[k] == url);
    }
}

/// A network with nodes is kept under its name in lower case, in the place of
/// an earlier one of that name; a network without nodes changes nothing.
pub proof fn networks_add_their_nodes(
    networks: Seq<(String, IbpNetworkConfig)>,
    name: String,
    network: IbpNetworkConfig,
    other: Seq<char>,
)
    ensures
        !network_endpoints(Seq::empty()).contains_key(other),
        network_nodes(network).len() == 0 ==> network_endpoints(networks.push((name, network)))
            == network_endpoints(networks),
        network_nodes(network).len() > 0 ==> network_endpoints(
            networks.push((name, network)),
        ).contains_pair(lowercase(name@), network_nodes(network)),
        other != lowercase(name@) ==> network_endpoints(
            networks.push((name, network)),
        ).contains_key(other) == network_endpoints(networks).contains_key(other)
            && network_endpoints(networks.push((name, network)))[other] == network_endpoints(
            networks,
        )[other],
{
    assert(networks.push((name, network)).drop_last() =~= networks);
}

/// The URLs of a network are the node URLs of its providers, provider by
/// provider and each in its order, and nothing else; an active network's nodes
/// are those of them that lie behind the GeoDNS.
pub proof fn nodes_are_the_urls_of_the_providers(network: IbpNetworkConfig)
    ensures
        provider_urls(network).len() == network.providers@.len(),
        forall|i: int|
            0 <= i < network.providers@.len() ==> (#[trigger] provider_urls(network)[i]).len()
                == network.providers@[i].1.rpc_urls@.len(),
        forall|i: int, j: int|
            0 <= i < network.providers@.len() && 0 <= j < network.providers@[i].1.rpc_urls@.len()
                ==> (#[trigger] provider_urls(network)[i][j])
                == network.providers@[i].1.rpc_urls@[j]@,
        network.configuration.active != 0 ==> network_nodes(network) == all_geodns_urls(
            provider_urls(network),
        ),
{
}

} // verus!
