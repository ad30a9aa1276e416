//! The repositories that are watched, and the networks that they serve.

use crate::config::{repo_key, repo_key_text, repo_views, RepoConfig, RepoView};
use crate::text::{has_text, pattern_is_found, same_text};
use crate::text_map::TextMap;
use vstd::prelude::*;

verus! {

// ---------------------------------------------------------------------------
// The watched repositories
// ---------------------------------------------------------------------------

/// A repository whose tags are read without a pattern.
pub open spec fn plain_repo(
    owner: Seq<char>,
    name: Seq<char>,
    prefix: Seq<char>,
    networks: Seq<Seq<char>>,
) -> RepoView {
    RepoView { owner, name, prefix, networks, version_pattern: None }
}

/// The watched repositories.
pub open spec fn watched() -> Seq<RepoView> {
    seq![
        RepoView {
            owner: "paritytech"@,
            name: "polkadot-sdk"@,
            prefix: "polkadot-stable"@,
            networks: seq![
                "polkadot"@,
                "kusama"@,
                "westend"@,
                "paseo"@,
                "asset-hub-polkadot"@,
                "asset-hub-kusama"@,
                "asset-hub-westend"@,
                "asset-hub-paseo"@,
                "bridge-hub-polkadot"@,
                "bridge-hub-kusama"@,
                "bridge-hub-westend"@,
                "bridge-hub-paseo"@,
                "collectives-polkadot"@,
                "collectives-westend"@,
                "coretime-polkadot"@,
                "coretime-kusama"@,
                "coretime-westend"@,
                "coretime-paseo"@,
                "people-polkadot"@,
                "people-kusama"@,
                "people-westend"@,
                "people-paseo"@,
            ],
            version_pattern: Some(r"polkadot-stable(\d{4})-(\d+)"@),
        },
        plain_repo("encointer"@, "encointer-parachain"@, ""@, seq!["encointer"@, "encointer-kusama"@]),
        plain_repo("AcalaNetwork"@, "Acala"@, ""@, seq!["acala"@]),
        plain_repo("ajuna-network"@, "ajuna-parachain"@, ""@, seq!["ajuna"@]),
        plain_repo("bifrost-finance"@, "bifrost"@, ""@, seq!["bifrost-polkadot"@]),
        plain_repo("galacticcouncil"@, "hydration-node"@, "v"@, seq!["hydration"@]),
        plain_repo("Abstracted-Labs"@, "InvArch-Node"@, ""@, seq!["invarch"@]),
        plain_repo("polytope-labs"@, "hyperbridge"@, ""@, seq!["nexus"@]),
        plain_repo("KILTprotocol"@, "kilt-node"@, ""@, seq!["kilt"@]),
        plain_repo("moonbeam-foundation"@, "moonbeam"@, ""@, seq!["moonbeam"@]),
        plain_repo("paritytech"@, "project-mythical"@, ""@, seq!["mythos"@]),
        plain_repo("Polimec"@, "polimec-node"@, ""@, seq!["polimec"@]),
        plain_repo("UniqueNetwork"@, "unique-chain"@, ""@, seq!["unique"@]),
    ]
}

/// The watched repositories.
pub fn repos() -> (list: Vec<RepoConfig>)
    ensures
        repo_views(list@) == watched(),
        forall|i: int|
            0 <= i < list@.len() ==> is_watched(repo_key((#[trigger] list@[i])@)),
{
    let mut list: Vec<RepoConfig> = Vec::new();
    list.push(
        RepoConfig {
            owner: "paritytech",
            name: "polkadot-sdk",
            prefix: "polkadot-stable",
            networks: &[
                "polkadot",
                "kusama",
                "westend",
                "paseo",
                "asset-hub-polkadot",
                "asset-hub-kusama",
                "asset-hub-westend",
                "asset-hub-paseo",
                "bridge-hub-polkadot",
                "bridge-hub-kusama",
                "bridge-hub-westend",
                "bridge-hub-paseo",
                "collectives-polkadot",
                "collectives-westend",
                "coretime-polkadot",
                "coretime-kusama",
                "coretime-westend",
                "coretime-paseo",
                "people-polkadot",
                "people-kusama",
                "people-westend",
                "people-paseo",
            ],
            version_pattern: Some(r"polkadot-stable(\d{4})-(\d+)"),
        },
    );
    list.push(
        RepoConfig {
            owner: "encointer",
            name: "encointer-parachain",
            prefix: "",
            networks: &["encointer", "encointer-kusama"],
            version_pattern: None,
        },
    );
    list.push(
        RepoConfig {
            owner: "AcalaNetwork",
            name: "Acala",
            prefix: "",
            networks: &["acala"],
            version_pattern: None,
        },
    );
    list.push(
        RepoConfig {
            owner: "ajuna-network",
            name: "ajuna-parachain",
            prefix: "",
            networks: &["ajuna"],
            version_pattern: None,
        },
    );
    list.push(
        RepoConfig {
            owner: "bifrost-finance",
            name: "bifrost",
            prefix: "",
            networks: &["bifrost-polkadot"],
            version_pattern: None,
        },
    );
    list.push(
        RepoConfig {
            owner: "galacticcouncil",
            name: "hydration-node",
            prefix: "v",
            networks: &["hydration"],
            version_pattern: None,
        },
    );
    list.push(
        RepoConfig {
            owner: "Abstracted-Labs",
            name: "InvArch-Node",
            prefix: "",
            networks: &["invarch"],
            version_pattern: None,
        },
    );
    list.push(
        RepoConfig {
            owner: "polytope-labs",
            name: "hyperbridge",
            prefix: "",
            networks: &["nexus"],
            version_pattern: None,
        },
    );
    list.push(
        RepoConfig {
            owner: "KILTprotocol",
            name: "kilt-node",
            prefix: "",
            networks: &["kilt"],
            version_pattern: None,
        },
    );
    list.push(
        RepoConfig {
            owner: "moonbeam-foundation",
            name: "moonbeam",
            prefix: "",
            networks: &["moonbeam"],
            version_pattern: None,
        },
    );
    list.push(
        RepoConfig {
            owner: "paritytech",
            name: "project-mythical",
            prefix: "",
            networks: &["mythos"],
            version_pattern: None,
        },
    );
    list.push(
        RepoConfig {
            owner: "Polimec",
            name: "polimec-node",
            prefix: "",
            networks: &["polimec"],
            version_pattern: None,
        },
    );
    list.push(
        RepoConfig {
            owner: "UniqueNetwork",
            name: "unique-chain",
            prefix: "",
            networks: &["unique"],
            version_pattern: None,
        },
    );
    proof {
        let views = repo_views(list@);
        assert(views.len() == 13);
        assert forall|i: int| 0 <= i < 13 implies views[i] == #[trigger] watched()[i] by {
            assert(views[i].networks =~= watched()[i].networks);
        }
        assert(views =~= watched());
        assert forall|i: int| 0 <= i < list@.len() implies is_watched(
            repo_key((#[trigger] list@[i])@),
        ) by {
            assert(watched_keys()[i] == repo_key(views[i]));
        }
    }
    list
}

/// The keys of the watched repositories.
pub open spec fn watched_keys() -> Seq<Seq<char>> {
    watched().map_values(|repo: RepoView| repo_key(repo))
}

/// `key` is the key of a watched repository.
pub open spec fn is_watched(key: Seq<char>) -> bool {
    watched_keys().contains(key)
}

/// Whether `key` is the key of a watched repository.
pub fn watches(key: &str) -> (watched: bool)
    ensures
        watched == is_watched(key@),
{
    let all = repos();
    let ghost views = repo_views(all@);
    let mut i: usize = 0;
    while i < all.len()
        invariant
            i <= all@.len(),
            views == repo_views(all@),
            views == watched(),
            forall|j: int| 0 <= j < i ==> #[trigger] watched_keys()[j] != key@,
        decreases all@.len() - i,
    {
        assert(watched_keys()[i as int] == repo_key(views[i as int]));
        if same_text(repo_key_text(&all[i]).as_str(), key) {
            return true;
        }
        i = i + 1;
    }
    false
}

// ---------------------------------------------------------------------------
// Which repository serves a network
// ---------------------------------------------------------------------------

/// `map` with each of the `networks` assigned to `key`.
pub open spec fn with_networks(
    map: Map<Seq<char>, Seq<char>>,
    networks: Seq<Seq<char>>,
    key: Seq<char>,
) -> Map<Seq<char>, Seq<char>>
    decreases networks.len(),
{
    if networks.len() == 0 {
        map
    } else {
        with_networks(map, networks.drop_last(), key).insert(networks.last(), key)
    }
}

/// Each network that one of the repositories lists, assigned to the key of
/// the last repository that lists it.
pub open spec fn network_assignments(repos: Seq<RepoView>) -> Map<Seq<char>, Seq<char>>
    decreases repos.len(),
{
    if repos.len() == 0 {
        Map::empty()
    } else {
        with_networks(
            network_assignments(repos.drop_last()),
            repos.last().networks,
            repo_key(repos.last()),
        )
    }
}

/// Assigns each network to the repository that serves it.
pub fn build_network_map(repos: &Vec<RepoConfig>) -> (map: TextMap)
    ensures
        map@ == network_assignments(repo_views(repos@)),
{
    let ghost views = repo_views(repos@);
    let mut map = TextMap::new();
    let mut i: usize = 0;
    while i < repos.len()
        invariant
            i <= repos@.len(),
            views == repo_views(repos@),
            map@ == network_assignments(views.take(i as int)),
        decreases repos@.len() - i,
    {
        let repo = &repos[i];
        let key = repo_key_text(repo);
        let ghost before = map@;
        let mut j: usize = 0;
        while j < repo.networks.len()
            invariant
                j <= repo.networks@.len(),
                key@ == repo_key(repo@),
                map@ == with_networks(before, repo@.networks.take(j as int), key@),
            decreases repo.networks@.len() - j,
        {
            map = map.insert(repo.networks[j].to_string(), key.clone());
            proof {
                let taken = repo@.networks.take(j + 1);
                assert(taken.drop_last() =~= repo@.networks.take(j as int));
                assert(taken.last() == repo.networks@[j as int]@);
            }
            j = j + 1;
        }
        proof {
            assert(repo@.networks.take(j as int) =~= repo@.networks);
            assert(views.take(i + 1).drop_last() =~= views.take(i as int));
            assert(views.take(i + 1).last() == repo@);
        }
        i = i + 1;
    }
    assert(views.take(i as int) =~= views);
    map
}

/// No network is listed twice.
pub open spec fn networks_are_distinct(repos: Seq<RepoView>) -> bool {
    forall|i: int, j: int, k: int, l: int|
        0 <= i < repos.len() && 0 <= j < repos[i].networks.len() && 0 <= k < repos.len() && 0 <= l
            < repos[k].networks.len() && #[trigger] repos[i].networks[j]
            == #[trigger] repos[k].networks[l] ==> i == k && j == l
}

proof fn with_networks_assigns(
    map: Map<Seq<char>, Seq<char>>,
    networks: Seq<Seq<char>>,
    key: Seq<char>,
    network: Seq<char>,
)
    ensures
        with_networks(map, networks, key).contains_key(network) <==> map.contains_key(network)
            || networks.contains(network),
        with_networks(map, networks, key).contains_key(network) ==> with_networks(
            map,
            networks,
            key,
        )[network] == if networks.contains(network) {
            key
        } else {
            map[network]
        },
    decreases networks.len(),
{
    if networks.len() > 0 {
        let front = networks.drop_last();
        with_networks_assigns(map, front, key, network);
        assert(networks =~= front.push(networks.last()));
        assert(networks.contains(network) <==> front.contains(network) || network
            == networks.last()) by {
            if front.contains(network) {
                let i = choose|i: int| 0 <= i < front.len() && front[i] == network;
                assert(networks[i] == network);
            }
            if network == networks.last() {
                assert(networks[networks.len() - 1] == network);
            }
            if networks.contains(network) && network != networks.last() {
                let i = choose|i: int| 0 <= i < networks.len() && networks[i] == network;
                assert(front[i] == network);
            }
        }
    }
}

/// Where no network is listed twice, each is assigned to the repository that
/// lists it, and nothing else is assigned.
pub proof fn networks_belong_to_their_repository(repos: Seq<RepoView>)
    requires
        networks_are_distinct(repos),
    ensures
        forall|i: int, j: int|
            0 <= i < repos.len() && 0 <= j < repos[i].networks.len()
                ==> network_assignments(repos).contains_pair(
                #[trigger] repos[i].networks[j],
                repo_key(repos[i]),
            ),
        forall|network: Seq<char>| #[trigger]
            network_assignments(repos).contains_key(network) ==> exists|i: int|
                0 <= i < repos.len() && (#[trigger] repos[i]).networks.contains(network),
    decreases repos.len(),
{
    if repos.len() > 0 {
        let front = repos.drop_last();
        let last = repos.len() - 1;
        let before = network_assignments(front);
        assert(networks_are_distinct(front)) by {
            assert forall|i: int, j: int, k: int, l: int|
                0 <= i < front.len() && 0 <= j < front[i].networks.len() && 0 <= k < front.len()
                    && 0 <= l < front[k].networks.len() && #[trigger] front[i].networks[j]
                    == #[trigger] front[k].networks[l] implies i == k && j == l by {
                assert(repos[i].networks[j] == repos[k].networks[l]);
            }
        }
        networks_belong_to_their_repository(front);
        assert forall|i: int, j: int|
            0 <= i < repos.len() && 0 <= j < repos[i].networks.len() implies network_assignments(
            repos,
        ).contains_pair(#[trigger] repos[i].networks[j], repo_key(repos[i])) by {
            let network = repos[i].networks[j];
            with_networks_assigns(before, repos[last].networks, repo_key(repos[last]), network);
            if i == last {
                assert(repos[last].networks.contains(network));
            } else {
                assert(front[i].networks[j] == network);
                if repos[last].networks.contains(network) {
                    let l = choose|l: int|
                        0 <= l < repos[last].networks.len() && repos[last].networks[l] == network;
                    assert(repos[i].networks[j] == repos[last].networks[l]);
                }
            }
        }
        assert forall|network: Seq<char>| #[trigger]
            network_assignments(repos).contains_key(network) implies exists|i: int|
            0 <= i < repos.len() && (#[trigger] repos[i]).networks.contains(network) by {
            with_networks_assigns(before, repos[last].networks, repo_key(repos[last]), network);
            if !repos[last].networks.contains(network) {
                assert(before.contains_key(network));
                let i = choose|i: int|
                    0 <= i < front.len() && (#[trigger] front[i]).networks.contains(network);
                assert(repos[i].networks.contains(network));
            }
        }
    }
}

/// A number made of the length, the first two characters and the last
/// character of a name; no two watched networks share it.
spec fn fingerprint(name: Seq<char>) -> int {
    ((name.len() * 128 + name[0] as int) * 128 + name[1] as int) * 128 + name[name.len()
        - 1] as int
}

/// The place of a network among the watched ones, by its fingerprint.
spec fn place(print: int) -> (int, int) {
    if print == 18626548 {
        (0, 0)
    } else if print == 14351073 {
        (0, 1)
    } else if print == 16642788 {
        (0, 2)
    } else if print == 12333295 {
        (0, 3)
    } else if print == 39352820 {
        (0, 4)
    } else if print == 35158497 {
        (0, 5)
    } else if print == 37255652 {
        (0, 6)
    } else if print == 33061359 {
        (0, 7)
    } else if print == 41466228 {
        (0, 8)
    } else if print == 37271905 {
        (0, 9)
    } else if print == 39369060 {
        (0, 10)
    } else if print == 35174767 {
        (0, 11)
    } else if print == 43579380 {
        (0, 12)
    } else if print == 41482212 {
        (0, 13)
    } else if print == 37287924 {
        (0, 14)
    } else if print == 33093601 {
        (0, 15)
    } else if print == 35190756 {
        (0, 16)
    } else if print == 30996463 {
        (0, 17)
    } else if print == 33305332 {
        (0, 18)
    } else if print == 29111009 {
        (0, 19)
    } else if print == 31208164 {
        (0, 20)
    } else if print == 27013871 {
        (0, 21)
    } else if print == 20543346 {
        (1, 0)
    } else if print == 35223393 {
        (1, 1)
    } else if print == 12087777 {
        (2, 0)
    } else if print == 12088673 {
        (3, 0)
    } else if print == 35173620 {
        (4, 0)
    } else if print == 20593902 {
        (5, 0)
    } else if print == 16414568 {
        (6, 0)
    } else if print == 12301043 {
        (7, 0)
    } else if print == 10155252 {
        (8, 0)
    } else if print == 18577389 {
        (9, 0)
    } else if print == 14384371 {
        (10, 0)
    } else if print == 16529379 {
        (11, 0)
    } else if print == 14514021 {
        (12, 0)
    } else {
        (-1, -1)
    }
}

proof fn watched_places(i: int, j: int)
    requires
        0 <= i < watched().len(),
        0 <= j < watched()[i].networks.len(),
    ensures
        place(fingerprint(watched()[i].networks[j])) == (i, j),
{
    if i == 0 {
        if j == 0 {
            reveal_strlit("polkadot");
        } else if j == 1 {
            reveal_strlit("kusama");
        } else if j == 2 {
            reveal_strlit("westend");
        } else if j == 3 {
            reveal_strlit("paseo");
        } else if j == 4 {
            reveal_strlit("asset-hub-polkadot");
        } else if j == 5 {
            reveal_strlit("asset-hub-kusama");
        } else if j == 6 {
            reveal_strlit("asset-hub-westend");
        } else if j == 7 {
            reveal_strlit("asset-hub-paseo");
        } else if j == 8 {
            reveal_strlit("bridge-hub-polkadot");
        } else if j == 9 {
            reveal_strlit("bridge-hub-kusama");
        } else if j == 10 {
            reveal_strlit("bridge-hub-westend");
        } else if j == 11 {
            reveal_strlit("bridge-hub-paseo");
        } else if j == 12 {
            reveal_strlit("collectives-polkadot");
        } else if j == 13 {
            reveal_strlit("collectives-westend");
        } else if j == 14 {
            reveal_strlit("coretime-polkadot");
        } else if j == 15 {
            reveal_strlit("coretime-kusama");
        } else if j == 16 {
            reveal_strlit("coretime-westend");
        } else if j == 17 {
            reveal_strlit("coretime-paseo");
        } else if j == 18 {
            reveal_strlit("people-polkadot");
        } else if j == 19 {
            reveal_strlit("people-kusama");
        } else if j == 20 {
            reveal_strlit("people-westend");
        } else if j == 21 {
            reveal_strlit("people-paseo");
        }
    } else if i == 1 {
        if j == 0 {
            reveal_strlit("encointer");
        } else if j == 1 {
            reveal_strlit("encointer-kusama");
        }
    } else if i == 2 {
        if j == 0 {
            reveal_strlit("acala");
        }
    } else if i == 3 {
        if j == 0 {
            reveal_strlit("ajuna");
        }
    } else if i == 4 {
        if j == 0 {
            reveal_strlit("bifrost-polkadot");
        }
    } else if i == 5 {
        if j == 0 {
            reveal_strlit("hydration");
        }
    } else if i == 6 {
        if j == 0 {
            reveal_strlit("invarch");
        }
    } else if i == 7 {
        if j == 0 {
            reveal_strlit("nexus");
        }
    } else if i == 8 {
        if j == 0 {
            reveal_strlit("kilt");
        }
    } else if i == 9 {
        if j == 0 {
            reveal_strlit("moonbeam");
        }
    } else if i == 10 {
        if j == 0 {
            reveal_strlit("mythos");
        }
    } else if i == 11 {
        if j == 0 {
            reveal_strlit("polimec");
        }
    } else if i == 12 {
        if j == 0 {
            reveal_strlit("unique");
        }
    }
}

/// Every network that a watched repository lists is assigned to that
/// repository.
pub proof fn watched_networks_belong_to_their_repository()
    ensures
        networks_are_distinct(watched()),
        forall|i: int, j: int|
            0 <= i < watched().len() && 0 <= j < watched()[i].networks.len()
                ==> network_assignments(watched()).contains_pair(
                #[trigger] watched()[i].networks[j],
                repo_key(watched()[i]),
            ),
{
    assert forall|i: int, j: int, k: int, l: int|
        0 <= i < watched().len() && 0 <= j < watched()[i].networks.len() && 0 <= k
            < watched().len() && 0 <= l < watched()[k].networks.len()
            && #[trigger] watched()[i].networks[j]
            == #[trigger] watched()[k].networks[l] implies i == k && j == l by {
        watched_places(i, j);
        watched_places(k, l);
    }
    networks_belong_to_their_repository(watched());
}

/// A number made of the length, the first and the last character of a key; no
/// two watched repositories share it.
spec fn key_fingerprint(key: Seq<char>) -> int {
    (key.len() * 128 + key[0] as int) * 128 + key[key.len() - 1] as int
}

/// The place of a repository among the watched ones, by its fingerprint.
spec fn key_place(print: int) -> int {
    if print == 391275 {
        0
    } else if print == 488174 {
        1
    } else if print == 303329 {
        2
    } else if print == 487662 {
        3
    } else if print == 389492 {
        4
    } else if print == 504805 {
        5
    } else if print == 467173 {
        6
    } else if print == 424037 {
        7
    } else if print == 370149 {
        8
    } else if print == 472813 {
        9
    } else if print == 456812 {
        10
    } else if print == 338021 {
        11
    } else if print == 436974 {
        12
    } else {
        -1
    }
}

proof fn watched_key_places(i: int)
    requires
        0 <= i < watched().len(),
    ensures
        key_place(key_fingerprint(watched_keys()[i])) == i,
{
    reveal_strlit("/");
    if i == 0 {
        reveal_strlit("paritytech");
        reveal_strlit("polkadot-sdk");
    } else if i == 1 {
        reveal_strlit("encointer");
        reveal_strlit("encointer-parachain");
    } else if i == 2 {
        reveal_strlit("AcalaNetwork");
        reveal_strlit("Acala");
    } else if i == 3 {
        reveal_strlit("ajuna-network");
        reveal_strlit("ajuna-parachain");
    } else if i == 4 {
        reveal_strlit("bifrost-finance");
        reveal_strlit("bifrost");
    } else if i == 5 {
        reveal_strlit("galacticcouncil");
        reveal_strlit("hydration-node");
    } else if i == 6 {
        reveal_strlit("Abstracted-Labs");
        reveal_strlit("InvArch-Node");
    } else if i == 7 {
        reveal_strlit("polytope-labs");
        reveal_strlit("hyperbridge");
    } else if i == 8 {
        reveal_strlit("KILTprotocol");
        reveal_strlit("kilt-node");
    } else if i == 9 {
        reveal_strlit("moonbeam-foundation");
        reveal_strlit("moonbeam");
    } else if i == 10 {
        reveal_strlit("paritytech");
        reveal_strlit("project-mythical");
    } else if i == 11 {
        reveal_strlit("Polimec");
        reveal_strlit("polimec-node");
    } else if i == 12 {
        reveal_strlit("UniqueNetwork");
        reveal_strlit("unique-chain");
    }
}

/// No two watched repositories have the same key.
pub proof fn watched_keys_are_distinct()
    ensures
        watched_keys().no_duplicates(),
        watched_keys().len() == watched().len(),
{
    assert forall|i: int, j: int|
        0 <= i < watched_keys().len() && 0 <= j < watched_keys().len() && i
            != j implies watched_keys()[i] != watched_keys()[j] by {
        watched_key_places(i);
        watched_key_places(j);
    }
}

// ---------------------------------------------------------------------------
// What is watched
// ---------------------------------------------------------------------------

/// The networks that are followed, each with the repository that releases its
/// nodes; no other network is.
pub proof fn followed_networks_have_their_repositories()
    ensures
        ({
            let served = network_assignments(watched());
            &&& served.contains_pair("polkadot"@, "paritytech"@ + "/"@ + "polkadot-sdk"@)
            &&& served.contains_pair("kusama"@, "paritytech"@ + "/"@ + "polkadot-sdk"@)
            &&& served.contains_pair("westend"@, "paritytech"@ + "/"@ + "polkadot-sdk"@)
            &&& served.contains_pair("paseo"@, "paritytech"@ + "/"@ + "polkadot-sdk"@)
            &&& served.contains_pair("asset-hub-polkadot"@, "paritytech"@ + "/"@ + "polkadot-sdk"@)
            &&& served.contains_pair("asset-hub-kusama"@, "paritytech"@ + "/"@ + "polkadot-sdk"@)
            &&& served.contains_pair("asset-hub-westend"@, "paritytech"@ + "/"@ + "polkadot-sdk"@)
            &&& served.contains_pair("asset-hub-paseo"@, "paritytech"@ + "/"@ + "polkadot-sdk"@)
            &&& served.contains_pair("bridge-hub-polkadot"@, "paritytech"@ + "/"@ + "polkadot-sdk"@)
            &&& served.contains_pair("bridge-hub-kusama"@, "paritytech"@ + "/"@ + "polkadot-sdk"@)
            &&& served.contains_pair("bridge-hub-westend"@, "paritytech"@ + "/"@ + "polkadot-sdk"@)
            &&& served.contains_pair("bridge-hub-paseo"@, "paritytech"@ + "/"@ + "polkadot-sdk"@)
            &&& served.contains_pair("collectives-polkadot"@, "paritytech"@ + "/"@ + "polkadot-sdk"@)
            &&& served.contains_pair("collectives-westend"@, "paritytech"@ + "/"@ + "polkadot-sdk"@)
            &&& served.contains_pair("coretime-polkadot"@, "paritytech"@ + "/"@ + "polkadot-sdk"@)
            &&& served.contains_pair("coretime-kusama"@, "paritytech"@ + "/"@ + "polkadot-sdk"@)
            &&& served.contains_pair("coretime-westend"@, "paritytech"@ + "/"@ + "polkadot-sdk"@)
            &&& served.contains_pair("coretime-paseo"@, "paritytech"@ + "/"@ + "polkadot-sdk"@)
            &&& served.contains_pair("people-polkadot"@, "paritytech"@ + "/"@ + "polkadot-sdk"@)
            &&& served.contains_pair("people-kusama"@, "paritytech"@ + "/"@ + "polkadot-sdk"@)
            &&& served.contains_pair("people-westend"@, "paritytech"@ + "/"@ + "polkadot-sdk"@)
            &&& served.contains_pair("people-paseo"@, "paritytech"@ + "/"@ + "polkadot-sdk"@)
            &&& served.contains_pair("encointer"@, "encointer"@ + "/"@ + "encointer-parachain"@)
            &&& served.contains_pair("encointer-kusama"@, "encointer"@ + "/"@ + "encointer-parachain"@)
            &&& served.contains_pair("acala"@, "AcalaNetwork"@ + "/"@ + "Acala"@)
            &&& served.contains_pair("ajuna"@, "ajuna-network"@ + "/"@ + "ajuna-parachain"@)
            &&& served.contains_pair("bifrost-polkadot"@, "bifrost-finance"@ + "/"@ + "bifrost"@)
            &&& served.contains_pair("hydration"@, "galacticcouncil"@ + "/"@ + "hydration-node"@)
            &&& served.contains_pair("invarch"@, "Abstracted-Labs"@ + "/"@ + "InvArch-Node"@)
            &&& served.contains_pair("nexus"@, "polytope-labs"@ + "/"@ + "hyperbridge"@)
            &&& served.contains_pair("kilt"@, "KILTprotocol"@ + "/"@ + "kilt-node"@)
            &&& served.contains_pair("moonbeam"@, "moonbeam-foundation"@ + "/"@ + "moonbeam"@)
            &&& served.contains_pair("mythos"@, "paritytech"@ + "/"@ + "project-mythical"@)
            &&& served.contains_pair("polimec"@, "Polimec"@ + "/"@ + "polimec-node"@)
            &&& served.contains_pair("unique"@, "UniqueNetwork"@ + "/"@ + "unique-chain"@)
        }),
        forall|network: Seq<char>| #[trigger]
            network_assignments(watched()).contains_key(network) ==> exists|i: int|
                0 <= i < 13 && (#[trigger] watched()[i]).networks.contains(network),
        watched().len() == 13,
{
    watched_networks_belong_to_their_repository();
    networks_belong_to_their_repository(watched());
    let served = network_assignments(watched());
    assert(served.contains_pair(watched()[0].networks[0], repo_key(watched()[0])));
    assert(served.contains_pair(watched()[0].networks[1], repo_key(watched()[0])));
    assert(served.contains_pair(watched()[0].networks[2], repo_key(watched()[0])));
    assert(served.contains_pair(watched()[0].networks[3], repo_key(watched()[0])));
    assert(served.contains_pair(watched()[0].networks[4], repo_key(watched()[0])));
    assert(served.contains_pair(watched()[0].networks[5], repo_key(watched()[0])));
    assert(served.contains_pair(watched()[0].networks[6], repo_key(watched()[0])));
    assert(served.contains_pair(watched()[0].networks[7], repo_key(watched()[0])));
    assert(served.contains_pair(watched()[0].networks[8], repo_key(watched()[0])));
    assert(served.contains_pair(watched()[0].networks[9], repo_key(watched()[0])));
    assert(served.contains_pair(watched()[0].networks[10], repo_key(watched()[0])));
    assert(served.contains_pair(watched()[0].networks[11], repo_key(watched()[0])));
    assert(served.contains_pair(watched()[0].networks[12], repo_key(watched()[0])));
    assert(served.contains_pair(watched()[0].networks[13], repo_key(watched()[0])));
    assert(served.contains_pair(watched()[0].networks[14], repo_key(watched()[0])));
    assert(served.contains_pair(watched()[0].networks[15], repo_key(watched()[0])));
    assert(served.contains_pair(watched()[0].networks[16], repo_key(watched()[0])));
    assert(served.contains_pair(watched()[0].networks[17], repo_key(watched()[0])));
    assert(served.contains_pair(watched()[0].networks[18], repo_key(watched()[0])));
    assert(served.contains_pair(watched()[0].networks[19], repo_key(watched()[0])));
    assert(served.contains_pair(watched()[0].networks[20], repo_key(watched()[0])));
    assert(served.contains_pair(watched()[0].networks[21], repo_key(watched()[0])));
    assert(served.contains_pair(watched()[1].networks[0], repo_key(watched()[1])));
    assert(served.contains_pair(watched()[1].networks[1], repo_key(watched()[1])));
    assert(served.contains_pair(watched()[2].networks[0], repo_key(watched()[2])));
    assert(served.contains_pair(watched()[3].networks[0], repo_key(watched()[3])));
    assert(served.contains_pair(watched()[4].networks[0], repo_key(watched()[4])));
    assert(served.contains_pair(watched()[5].networks[0], repo_key(watched()[5])));
    assert(served.contains_pair(watched()[6].networks[0], repo_key(watched()[6])));
    assert(served.contains_pair(watched()[7].networks[0], repo_key(watched()[7])));
    assert(served.contains_pair(watched()[8].networks[0], repo_key(watched()[8])));
    assert(served.contains_pair(watched()[9].networks[0], repo_key(watched()[9])));
    assert(served.contains_pair(watched()[10].networks[0], repo_key(watched()[10])));
    assert(served.contains_pair(watched()[11].networks[0], repo_key(watched()[11])));
    assert(served.contains_pair(watched()[12].networks[0], repo_key(watched()[12])));
}

/// The tags of the relay chains and system chains are dated behind a prefix of
/// their own; those of Hydration start with a `v`; all others have no prefix.
pub proof fn tags_are_read_by_their_repository(i: int)
    requires
        0 <= i < watched().len(),
    ensures
        i == 0 ==> watched()[i].prefix == "polkadot-stable"@ && watched()[i].version_pattern
            == Some("polkadot-stable(\\d{4})-(\\d+)"@) && has_text(
            watched()[i].version_pattern->0,
            "(\\d{4})-(\\d+)"@,
        ),
        i == 5 ==> watched()[i].owner == "galacticcouncil"@ && watched()[i].prefix == "v"@,
        i != 0 && i != 5 ==> watched()[i].prefix.len() == 0,
        i != 0 ==> watched()[i].version_pattern is None,
{
    reveal_strlit("");
    if i == 0 {
        reveal_strlit("polkadot-stable(\\d{4})-(\\d+)");
        reveal_strlit("(\\d{4})-(\\d+)");
        reveal_strlit("polkadot-stable");
        assert("polkadot-stable(\\d{4})-(\\d+)"@ =~= "polkadot-stable"@ + "(\\d{4})-(\\d+)"@
            + Seq::<char>::empty());
        pattern_is_found("polkadot-stable"@, "(\\d{4})-(\\d+)"@, Seq::empty());
    }
}

/// A repository takes over the networks that it lists, whoever listed them
/// before, and no others change.
pub proof fn last_repository_takes_its_networks(
    repos: Seq<RepoView>,
    more: RepoView,
    network: Seq<char>,
)
    ensures
        more.networks.contains(network) ==> network_assignments(repos.push(more)).contains_pair(
            network,
            more.owner + "/"@ + more.name,
        ),
        !more.networks.contains(network) ==> network_assignments(repos.push(more)).contains_key(
            network,
        ) == network_assignments(repos).contains_key(network),
        !more.networks.contains(network) && network_assignments(repos).contains_key(network)
            ==> network_assignments(repos.push(more))[network] == network_assignments(
            repos,
        )[network],
        !network_assignments(Seq::empty()).contains_key(network),
{
    assert(repos.push(more).drop_last() =~= repos);
    with_networks_assigns(network_assignments(repos), more.networks, repo_key(more), network);
}

} // verus!
