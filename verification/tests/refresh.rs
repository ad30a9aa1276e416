use vermon::config::{Config, RepoConfig};
use vermon::github::{fetch_latest_version, request_url, Lookup, Release, Reply, Source, Tag};
use vermon::models::{IbpConfiguration, IbpNetworkConfig, IbpProvider, VersionInfo};
use vermon::refresh::{
    chain_tasks, count_updated, finish_refresh, refresh_all, refresh_attempt,
    refresh_chain_versions, refresh_mode, refresh_repository, Attempt, ChainStep, RefreshMode,
    RefreshRun, RefreshStep,
};
use vermon::repos::{build_network_map, repos};
use vermon::startup::{load_endpoints, nodes_of};
use vermon::state::AppState;
use vermon::table::Table;
use vermon::time::Timestamp;

fn at(seconds: i64) -> Timestamp {
    Timestamp::new(seconds, 0).unwrap()
}

fn new_state() -> AppState {
    AppState::new(
        Config::from_variables(None, None, None, None),
        build_network_map(&repos()),
        load_endpoints(&Table::from_pairs(vec![])),
        Table::from_pairs(vec![]),
        Table::from_pairs(vec![]),
        at(0),
    )
}

fn repo() -> RepoConfig {
    RepoConfig {
        owner: "owner",
        name: "name",
        prefix: "",
        networks: &["net"],
        version_pattern: None,
    }
}

fn release(tag: &str, draft: bool, prerelease: bool) -> Release {
    Release {
        tag_name: tag.to_string(),
        draft,
        prerelease,
        published_at: Some(at(42)),
        html_url: Some(format!("https://example.com/{}", tag)),
    }
}

fn tag(name: &str) -> Tag {
    Tag { name: name.to_string() }
}

fn found(next: Lookup) -> VersionInfo {
    match next {
        Lookup::Found(info) => info,
        _ => panic!("nothing found"),
    }
}

fn asked(next: Lookup) -> Source {
    match next {
        Lookup::Ask(source) => source,
        _ => panic!("nothing asked"),
    }
}

fn failed(next: Lookup) -> String {
    match next {
        Lookup::Failed(reason) => reason,
        _ => panic!("not failed"),
    }
}

fn info(version: &str) -> VersionInfo {
    VersionInfo {
        version: version.to_string(),
        tag: version.to_string(),
        published_at: at(1),
        release_notes_url: None,
        last_checked: at(2),
    }
}

#[test]
fn requests_to_github() {
    let base = "https://api.github.com/repos/owner/name";
    assert_eq!(request_url(&repo(), Source::Latest), format!("{}/releases/latest", base));
    assert_eq!(request_url(&repo(), Source::Releases), format!("{}/releases?per_page=30", base));
    assert_eq!(request_url(&repo(), Source::Tags), format!("{}/tags?per_page=50", base));
    assert_eq!(asked(fetch_latest_version(&repo(), None, at(9))), Source::Latest);
}

#[test]
fn latest_release_is_taken() {
    let reply = Reply::Latest(Some(release("v1.2.3", false, true)));
    let info = found(fetch_latest_version(&repo(), Some(reply), at(9)));
    assert_eq!(info.version, "1.2.3");
    assert_eq!(info.tag, "v1.2.3");
    assert_eq!(info.published_at, at(42));
    assert_eq!(info.release_notes_url.as_deref(), Some("https://example.com/v1.2.3"));
    assert_eq!(info.last_checked, at(9));
}

#[test]
fn release_without_a_date_is_published_now() {
    let mut latest = release("1.0.0", false, false);
    latest.published_at = None;
    latest.html_url = None;
    let info = found(fetch_latest_version(&repo(), Some(Reply::Latest(Some(latest))), at(9)));
    assert_eq!(info.published_at, at(9));
    assert_eq!(info.release_notes_url, None);
}

#[test]
fn releases_follow_a_useless_latest() {
    for answer in [None, Some(release("1.0.0", true, false)), Some(release("nightly", false, false))] {
        let next = fetch_latest_version(&repo(), Some(Reply::Latest(answer)), at(9));
        assert_eq!(asked(next), Source::Releases);
    }
}

#[test]
fn highest_real_release_is_taken() {
    let releases = vec![
        release("1.9.0", false, false),
        release("2.0.0", true, false),
        release("3.0.0-rc1", false, true),
        release("1.10.0", false, false),
        release("nightly", false, false),
        release("v1.10.0", false, false),
    ];
    let info = found(fetch_latest_version(&repo(), Some(Reply::Releases(Some(releases))), at(9)));
    assert_eq!(info.tag, "1.10.0");
    assert_eq!(info.version, "1.10.0");
    assert_eq!(info.published_at, at(42));
}

#[test]
fn tags_are_the_last_resort() {
    let releases = vec![release("nightly", false, false), release("1.0.0", true, false)];
    let next = fetch_latest_version(&repo(), Some(Reply::Releases(Some(releases))), at(9));
    assert_eq!(asked(next), Source::Tags);
    let tags = vec![tag("v0.9.1"), tag("v0.10.0"), tag("x")];
    let info = found(fetch_latest_version(&repo(), Some(Reply::Tags(Some(tags))), at(9)));
    assert_eq!(info.version, "0.10.0");
    assert_eq!(info.tag, "v0.10.0");
    assert_eq!(info.published_at, at(9));
    assert_eq!(info.release_notes_url, None);
}

#[test]
fn lookups_fail_with_a_reason() {
    let next = fetch_latest_version(&repo(), Some(Reply::Releases(None)), at(9));
    assert_eq!(failed(next), "Failed to fetch releases");
    let next = fetch_latest_version(&repo(), Some(Reply::Tags(None)), at(9));
    assert_eq!(failed(next), "Failed to fetch tags");
    let next = fetch_latest_version(&repo(), Some(Reply::Tags(Some(vec![tag("x")]))), at(9));
    assert_eq!(failed(next), "No valid versions found for owner/name");
}

#[test]
fn failure_keeps_the_last_release() {
    let mut state = new_state();
    assert_eq!(refresh_repository(&mut state, &repo(), Ok(info("1.0.0"))), Ok(()));
    let result = refresh_repository(&mut state, &repo(), Err("timeout".to_string()));
    assert_eq!(result, Err("timeout".to_string()));
    assert_eq!(state.repos.get("owner/name").unwrap().version, "1.0.0");
    assert_eq!(
        state.failed_repos.get("owner/name").unwrap().value(),
        "Failed to update owner/name: timeout"
    );
    assert_eq!(refresh_repository(&mut state, &repo(), Ok(info("1.1.0"))), Ok(()));
    assert!(state.failed_repos.get("owner/name").is_none());
    assert_eq!(state.repos.get("owner/name").unwrap().version, "1.1.0");
}

#[test]
fn failed_attempts_are_repeated() {
    let mut state = new_state();
    let mut waits: Vec<u64> = vec![];
    let mut retries: u32 = 0;
    loop {
        match refresh_attempt(&mut state, &repo(), retries, Err("no".to_string())) {
            Attempt::Retry { retries: again, seconds } => {
                waits.push(seconds);
                retries = again;
            }
            next => {
                assert_eq!(next, Attempt::GivenUp);
                break;
            }
        }
    }
    assert_eq!(waits, vec![5, 10, 15]);
    let next = refresh_attempt(&mut state, &repo(), 3, Ok(info("1.0.0")));
    assert_eq!(next, Attempt::Updated);
}

#[test]
fn all_repositories_are_updated_in_turn() {
    let mut state = new_state();
    let mut run = RefreshRun::new();
    let mut attempts: Vec<usize> = vec![];
    let mut pauses: u64 = 0;
    loop {
        attempts.push(run.position);
        let outcome = if run.position == 1 || (run.position == 2 && run.retries < 2) {
            Err("no".to_string())
        } else {
            Ok(info("1.0.0"))
        };
        match refresh_all(&mut state, &mut run, outcome) {
            RefreshStep::Again { seconds } => assert_eq!(seconds, 5 * run.retries as u64),
            RefreshStep::Next { seconds } => pauses += seconds,
            RefreshStep::Finish { seconds } => {
                pauses += seconds;
                break;
            }
        }
    }
    assert_eq!(attempts, vec![0, 1, 1, 1, 1, 2, 2, 2, 3, 4, 5, 6, 7, 8, 9, 10, 11, 12]);
    assert_eq!(pauses, 26);
    assert_eq!(run.updated, 12);
    assert_eq!(state.failed_repos.len(), 1);
    assert_eq!(state.repos.len(), 12);
    finish_refresh(&mut state, at(99));
    assert_eq!(state.last_refresh, Some(at(99)));
}

/// The outcome of an attempt at a repository: the fifth never succeeds, and
/// the others after as many failures as their position leaves over.
fn scripted(position: usize, attempt: u32) -> Result<VersionInfo, String> {
    if position == 5 || attempt < position as u32 % 3 {
        Err(format!("attempt {} failed", attempt))
    } else {
        Ok(info(&format!("{}.0.{}", position, attempt)))
    }
}

fn known(state: &AppState) -> (Vec<(String, String)>, Vec<(String, String)>) {
    let mut releases: Vec<(String, String)> =
        state.repos.iter().map(|e| (e.key().clone(), e.value().version.clone())).collect();
    let mut failures: Vec<(String, String)> =
        state.failed_repos.iter().map(|e| (e.key().clone(), e.value().clone())).collect();
    releases.sort();
    failures.sort();
    (releases, failures)
}

#[test]
fn both_modes_end_alike() {
    let mut one_by_one = new_state();
    let mut run = RefreshRun::new();
    while run.position < 13 {
        let outcome = scripted(run.position, run.retries);
        refresh_all(&mut one_by_one, &mut run, outcome);
    }
    let mut at_once = new_state();
    let all = repos();
    let mut progress: Vec<Option<u32>> = vec![Some(0); 13];
    while progress.iter().any(|stage| stage.is_some()) {
        for position in (0..13).rev() {
            if let Some(retries) = progress[position] {
                let outcome = scripted(position, retries);
                progress[position] =
                    match refresh_attempt(&mut at_once, &all[position], retries, outcome) {
                        Attempt::Retry { retries: again, .. } => Some(again),
                        _ => None,
                    };
            }
        }
    }
    assert_eq!(known(&one_by_one), known(&at_once));
    assert_eq!(one_by_one.repos.len(), 12);
    assert_eq!(one_by_one.failed_repos.len(), 1);
}

#[test]
fn token_allows_all_at_once() {
    let config = Config::from_variables(None, None, None, None);
    assert_eq!(refresh_mode(&config), RefreshMode::OneByOne);
    let config = Config::from_variables(Some("t".to_string()), None, None, None);
    assert_eq!(refresh_mode(&config), RefreshMode::AllAtOnce);
    assert_eq!(count_updated(&vec![true, false, true]), 2);
    assert_eq!(count_updated(&vec![]), 0);
}

#[test]
fn nodes_are_asked_in_turn() {
    let mut state = new_state();
    let nodes = vec!["wss://one".to_string(), "wss://two".to_string()];
    let mut asked: usize = 0;
    for expected in ["wss://one", "wss://two"] {
        match refresh_chain_versions(&mut state, "net", &nodes, &mut asked, None) {
            ChainStep::Ask(node) => assert_eq!(node, expected),
            ChainStep::Done => panic!("not asked"),
        }
    }
    assert_eq!(asked, 2);
    let step = refresh_chain_versions(&mut state, "net", &nodes, &mut asked, None);
    assert!(matches!(step, ChainStep::Done));
    assert!(state.runtime_versions.is_empty());
    asked = 1;
    let answer = Some(("1003".to_string(), "1.2".to_string()));
    let step = refresh_chain_versions(&mut state, "net", &nodes, &mut asked, answer);
    assert!(matches!(step, ChainStep::Done));
    assert_eq!(asked, 1);
    assert_eq!(state.runtime_versions.get("net").unwrap().value(), "1003");
    assert_eq!(state.client_versions.get("net").unwrap().value(), "1.2");
}

fn network(active: u8, urls: Vec<Vec<&str>>) -> IbpNetworkConfig {
    IbpNetworkConfig {
        configuration: IbpConfiguration {
            name: "n".to_string(),
            network_type: "Relay".to_string(),
            active,
        },
        providers: Table::from_pairs(
            urls.into_iter()
                .enumerate()
                .map(|(i, list)| {
                    let rpc_urls = list.into_iter().map(|url| url.to_string()).collect();
                    (format!("provider{}", i), IbpProvider { rpc_urls, ips: vec![] })
                })
                .collect(),
        ),
    }
}

#[test]
fn endpoints_of_active_networks() {
    let first = "wss://polkadot.dotters.network";
    let second = "wss://backup.dotters.network/x";
    let urls = vec![vec![first, "wss://rpc.example.com"], vec![], vec![second]];
    assert_eq!(nodes_of(&network(1, urls.clone())), vec![first, second]);
    assert!(nodes_of(&network(0, urls.clone())).is_empty());
    let endpoints = load_endpoints(&Table::from_pairs(vec![
        ("Polkadot".to_string(), network(1, urls.clone())),
        ("Kusama".to_string(), network(0, urls)),
        ("Westend".to_string(), network(2, vec![vec!["wss://rpc.example.com"]])),
    ]));
    assert_eq!(endpoints.len(), 1);
    assert_eq!(endpoints.get("polkadot").unwrap().value(), &vec![first, second]);
    let state = AppState::new(
        Config::from_variables(None, None, None, None),
        build_network_map(&repos()),
        endpoints,
        Table::from_pairs(vec![]),
        Table::from_pairs(vec![]),
        at(0),
    );
    let tasks = chain_tasks(&state);
    assert_eq!(tasks.len(), 1);
    assert_eq!(tasks[0].0, "polkadot");
    assert_eq!(tasks[0].1, vec![first, second]);
}
