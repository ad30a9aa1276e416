use vermon::config::{repo_key_text, Config};
use vermon::handlers::{
    compare_network, compare_versions, get_health_stats, get_member, get_network, get_repo,
    get_usage_stats, health, list_members, list_networks, list_repos, serve_api_docs, serve_css,
    serve_ui, trigger_refresh, FALLBACK_CSS,
};
use vermon::members::refresh_member_info;
use vermon::models::{ApiError, ListQuery, MemberInfo, VersionInfo};
use vermon::refresh::{finish_refresh, refresh_chain_versions, refresh_repository};
use vermon::repos::{build_network_map, repos};
use vermon::startup::load_endpoints;
use vermon::state::{track_usage, AppState, UsageStats};
use vermon::table::Table;
use vermon::time::Timestamp;

fn at(seconds: i64) -> Timestamp {
    Timestamp::new(seconds, 0).unwrap()
}

fn new_state() -> AppState {
    AppState::new(
        Config::from_variables(None, None, None, None),
        build_network_map(&repos()),
        load_endpoints(&Table::from_pairs(vec![])),
        Table::from_pairs(vec![]),
        Table::from_pairs(vec![]),
        at(1000),
    )
}

fn info(version: &str) -> VersionInfo {
    VersionInfo {
        version: version.to_string(),
        tag: format!("v{}", version),
        published_at: at(500),
        release_notes_url: Some("https://example.com/notes".to_string()),
        last_checked: at(900),
    }
}

fn service(network: &str, days: Option<i64>, latency: Option<u64>, reached: bool) -> MemberInfo {
    MemberInfo {
        network: network.to_string(),
        ip: "192.0.2.1".to_string(),
        runtime_version: if reached { Some("1".to_string()) } else { None },
        client_version: Some("2".to_string()),
        last_checked: at(900),
        cert_expires: None,
        cert_days_left: days,
        latency_ms: latency,
        response_time_ms: None,
    }
}

fn not_found(error: ApiError) -> String {
    match error {
        ApiError::NotFound(message) => message,
        ApiError::Internal(_) => panic!("another error"),
    }
}

fn update(state: &mut AppState, index: usize, version: &str) {
    let all = repos();
    refresh_repository(state, &all[index], Ok(info(version))).unwrap();
}

fn fail(state: &mut AppState, index: usize) {
    let all = repos();
    let result = refresh_repository(state, &all[index], Err("no route".to_string()));
    assert_eq!(result, Err("no route".to_string()));
}

#[test]
fn pages() {
    let page = serve_ui(Ok("<p>".to_string()));
    assert_eq!((page.status, page.content_type, page.body.as_str()), (200, "text/html", "<p>"));
    let page = serve_api_docs(Err("no file".to_string()));
    assert_eq!(page.status, 500);
    assert_eq!(page.content_type, "text/plain; charset=utf-8");
    assert_eq!(page.body, "Template error: no file");
    let page = serve_css(Some("a{}".to_string()));
    assert_eq!((page.status, page.content_type, page.body.as_str()), (200, "text/css", "a{}"));
    let page = serve_css(None);
    assert_eq!(page.body, FALLBACK_CSS);
    assert!(page.body.starts_with("*{margin:0;"));
}

#[test]
fn health_counts_failures() {
    let mut state = new_state();
    let answer = health(&mut state, at(1060));
    assert_eq!(answer.status, "healthy");
    assert_eq!(answer.total_repos, 13);
    assert_eq!(answer.successful_updates, 13);
    assert_eq!(answer.failed_updates, Vec::<String>::new());
    assert_eq!(answer.uptime_seconds, 60);
    assert_eq!(answer.last_refresh, None);
    for i in 0..6 {
        fail(&mut state, i);
    }
    finish_refresh(&mut state, at(2000));
    let answer = health(&mut state, at(3000));
    assert_eq!(answer.status, "partial");
    assert_eq!(answer.successful_updates, 7);
    assert_eq!(answer.last_refresh, Some(at(2000)));
    let mut failed = answer.failed_updates;
    failed.sort();
    assert_eq!(
        failed,
        vec![
            "AcalaNetwork/Acala",
            "ajuna-network/ajuna-parachain",
            "bifrost-finance/bifrost",
            "encointer/encointer-parachain",
            "galacticcouncil/hydration-node",
            "paritytech/polkadot-sdk",
        ]
    );
    fail(&mut state, 6);
    assert_eq!(health(&mut state, at(3000)).status, "degraded");
    update(&mut state, 6, "1.0.0");
    assert_eq!(health(&mut state, at(3000)).status, "partial");
}

#[test]
fn all_updates_can_fail() {
    let mut state = new_state();
    for i in 0..13 {
        fail(&mut state, i);
        fail(&mut state, i);
    }
    let answer = health(&mut state, at(1000));
    assert_eq!(answer.status, "degraded");
    assert_eq!(answer.successful_updates, 0);
    assert_eq!(answer.failed_updates.len(), 13);
}

#[test]
fn unknown_failures_are_noticed() {
    let mut state = new_state();
    fail(&mut state, 4);
    assert!(state.is_well_formed());
    state.failed_repos.insert("no/body".to_string(), "lost".to_string());
    assert!(!state.is_well_formed());
}

#[test]
fn complete_refresh_is_healthy() {
    let mut state = new_state();
    for i in 0..13 {
        fail(&mut state, i);
    }
    for i in 0..13 {
        update(&mut state, i, "1.0.0");
    }
    assert_eq!(health(&mut state, at(1000)).status, "healthy");
    let query = ListQuery { include_empty: false };
    assert_eq!(list_networks(&mut state, query, at(0)).len(), 35);
    assert_eq!(list_repos(&mut state, at(0)).len(), 13);
}

#[test]
fn uptime_before_the_start_counts_from_the_top() {
    let mut state = new_state();
    assert_eq!(health(&mut state, at(999)).uptime_seconds, u64::MAX);
}

#[test]
fn networks_are_listed_in_order() {
    let mut state = new_state();
    let known = ListQuery { include_empty: false };
    let all = ListQuery { include_empty: true };
    assert!(list_networks(&mut state, known, at(0)).is_empty());
    let list = list_networks(&mut state, all, at(0));
    assert_eq!(list.len(), 35);
    assert_eq!(list[0].network, "acala");
    assert_eq!(list[34].network, "westend");
    for i in 1..list.len() {
        assert!(list[i - 1].network < list[i].network);
    }
    update(&mut state, 1, "1.5.0");
    let list = list_networks(&mut state, known, at(0));
    assert_eq!(list.len(), 2);
    assert_eq!(list[0].network, "encointer");
    assert_eq!(list[1].network, "encointer-kusama");
    assert_eq!(list[1].repository, "encointer/encointer-parachain");
    assert_eq!(list[1].version_info.as_ref().unwrap().version, "1.5.0");
}

#[test]
fn one_network() {
    let mut state = new_state();
    update(&mut state, 0, "2412.3.0");
    let found = get_network(&mut state, "kusama".to_string(), at(0)).unwrap();
    assert_eq!(found.network, "kusama");
    assert_eq!(found.repository, "paritytech/polkadot-sdk");
    assert_eq!(found.version_info.unwrap().tag, "v2412.3.0");
    let found = get_network(&mut state, "mythos".to_string(), at(0)).unwrap();
    assert_eq!(found.repository, "paritytech/project-mythical");
    assert!(found.version_info.is_none());
    let missing = get_network(&mut state, "rococo".to_string(), at(0)).unwrap_err();
    assert_eq!(not_found(missing), "Network 'rococo' not found");
}

#[test]
fn every_network_belongs_to_its_repository() {
    let mut state = new_state();
    for repo in repos() {
        for network in repo.networks {
            let found = get_network(&mut state, network.to_string(), at(0)).unwrap();
            assert_eq!(found.repository, repo_key_text(&repo));
        }
    }
}

#[test]
fn repositories() {
    let mut state = new_state();
    assert!(list_repos(&mut state, at(0)).is_empty());
    update(&mut state, 2, "2.0.0");
    update(&mut state, 3, "3.0.0");
    update(&mut state, 3, "3.1.0");
    let mut list = list_repos(&mut state, at(0));
    list.sort_by(|a, b| a.0.cmp(&b.0));
    assert_eq!(list.len(), 2);
    assert_eq!(list[0].0, "AcalaNetwork/Acala");
    assert_eq!(list[1].1.version, "3.1.0");
    let found = get_repo(&mut state, "AcalaNetwork/Acala".to_string(), at(0)).unwrap();
    assert_eq!(found.version, "2.0.0");
    let missing = get_repo(&mut state, "Acala".to_string(), at(0)).unwrap_err();
    assert_eq!(not_found(missing), "Repository 'Acala' not found");
}

#[test]
fn refresh_is_rate_limited() {
    let mut state = new_state();
    let reply = trigger_refresh(&mut state, at(5000));
    assert_eq!((reply.status, reply.next_allowed_in), ("triggered", None));
    assert_eq!(reply.message, "Refresh started in background");
    finish_refresh(&mut state, at(5000));
    let reply = trigger_refresh(&mut state, at(5000));
    assert_eq!((reply.status, reply.next_allowed_in), ("rate_limited", Some(60)));
    assert_eq!(reply.message, "Refresh already performed recently");
    let reply = trigger_refresh(&mut state, at(5059));
    assert_eq!((reply.status, reply.next_allowed_in), ("rate_limited", Some(1)));
    let reply = trigger_refresh(&mut state, Timestamp::new(5059, 999_999_999).unwrap());
    assert_eq!((reply.status, reply.next_allowed_in), ("rate_limited", Some(1)));
    assert_eq!(trigger_refresh(&mut state, at(5060)).status, "triggered");
    let reply = trigger_refresh(&mut state, at(4990));
    assert_eq!((reply.status, reply.next_allowed_in), ("rate_limited", Some(70)));
}

#[test]
fn refused_refresh_is_allowed_when_promised() {
    let mut state = new_state();
    finish_refresh(&mut state, at(5000));
    let wait = trigger_refresh(&mut state, at(5013)).next_allowed_in.unwrap();
    assert_eq!(trigger_refresh(&mut state, at(5013 + wait - 1)).status, "rate_limited");
    assert_eq!(trigger_refresh(&mut state, at(5013 + wait)).status, "triggered");
}

#[test]
fn comparisons() {
    let mut state = new_state();
    update(&mut state, 2, "2.0.0");
    let none: Vec<String> = vec![];
    let answer = Some(("2.0.0".to_string(), "client".to_string()));
    refresh_chain_versions(&mut state, "acala", &none, &mut 0, answer);
    let answer = Some(("7".to_string(), "other".to_string()));
    refresh_chain_versions(&mut state, "ajuna", &none, &mut 0, answer);
    let list = compare_versions(&mut state, at(77));
    assert_eq!(list.len(), 35);
    assert_eq!(list[0].network, "acala");
    assert_eq!(list[0].repository_version.as_deref(), Some("2.0.0"));
    assert_eq!(list[0].repository_url.as_deref(), Some("https://example.com/notes"));
    assert_eq!(list[0].repository_tag.as_deref(), Some("v2.0.0"));
    assert_eq!(list[0].runtime_version.as_deref(), Some("2.0.0"));
    assert_eq!(list[0].client_version.as_deref(), Some("client"));
    assert!(list[0].matches);
    assert_eq!(list[0].last_checked, at(77));
    assert_eq!(list[1].network, "ajuna");
    assert_eq!(list[1].repository_version, None);
    assert_eq!(list[1].runtime_version.as_deref(), Some("7"));
    assert!(!list[1].matches);
    let single = compare_network(&mut state, "acala".to_string(), at(78)).unwrap();
    assert!(single.matches);
    assert_eq!(single.last_checked, at(78));
    update(&mut state, 2, "2.0.1");
    assert!(!compare_network(&mut state, "acala".to_string(), at(78)).unwrap().matches);
    let missing = compare_network(&mut state, "Acala".to_string(), at(0)).unwrap_err();
    assert_eq!(not_found(missing), "Network 'Acala' not found");
}

#[test]
fn members_are_listed_in_order() {
    let mut state = new_state();
    assert!(list_members(&mut state, at(0)).is_empty());
    let results = vec![
        ("rotko".to_string(), vec![service("polkadot", None, None, true)]),
        ("dwellir".to_string(), vec![service("kusama", None, None, true)]),
        ("empty".to_string(), vec![]),
        ("Amforc".to_string(), vec![service("a", None, None, true), service("b", None, None, true)]),
    ];
    refresh_member_info(&mut state, results);
    let list = list_members(&mut state, at(0));
    let providers: Vec<&str> = list.iter().map(|m| m.provider.as_str()).collect();
    assert_eq!(providers, vec!["Amforc", "dwellir", "rotko"]);
    assert_eq!(list[0].services.len(), 2);
    let found = get_member(&mut state, "rotko".to_string(), at(0)).unwrap();
    assert_eq!(found.provider, "rotko");
    assert_eq!(found.services[0].network, "polkadot");
    let missing = get_member(&mut state, "empty".to_string(), at(0)).unwrap_err();
    assert_eq!(not_found(missing), "Member 'empty' not found");
}

#[test]
fn calls_are_counted() {
    let mut stats = UsageStats::default();
    assert!(stats.api_calls.is_empty());
    track_usage(&mut stats, "/x", at(1));
    assert_eq!(stats.last_updated, Some(at(1)));
    let mut state = new_state();
    health(&mut state, at(2));
    health(&mut state, at(3));
    let _ = get_repo(&mut state, "none".to_string(), at(4));
    let mut calls = get_usage_stats(&mut state, at(5));
    calls.sort();
    assert_eq!(
        calls,
        vec![
            ("/api/repos/{repo}".to_string(), 1),
            ("/api/stats".to_string(), 1),
            ("/health".to_string(), 2),
        ]
    );
    assert_eq!(state.usage_stats.last_updated, Some(at(5)));
}

#[test]
fn figures_of_all_services() {
    let mut state = new_state();
    let empty = get_health_stats(&mut state, at(0));
    assert_eq!((empty.total_members, empty.total_services), (0, 0));
    assert!(empty.latencies.is_empty());
    let results = vec![
        (
            "a".to_string(),
            vec![
                service("n1", Some(-1), Some(1000), true),
                service("n2", Some(0), Some(1001), true),
                service("n3", Some(6), None, false),
            ],
        ),
        (
            "b".to_string(),
            vec![
                service("n1", Some(7), Some(20), true),
                service("n2", Some(29), Some(20), true),
                service("n3", Some(30), None, true),
                service("n4", None, None, false),
            ],
        ),
    ];
    refresh_member_info(&mut state, results);
    let stats = get_health_stats(&mut state, at(0));
    assert_eq!(stats.total_members, 2);
    assert_eq!(stats.total_services, 7);
    assert_eq!(stats.cert_expired, 1);
    assert_eq!(stats.cert_critical, 2);
    assert_eq!(stats.cert_warnings, 2);
    assert_eq!(stats.slow_services, 1);
    assert_eq!(stats.unreachable_services, 2);
    let mut latencies = stats.latencies;
    latencies.sort();
    assert_eq!(latencies, vec![20, 20, 1000, 1001]);
}

#[test]
fn errors_become_replies() {
    let reply = ApiError::NotFound("gone".to_string()).into_response();
    assert_eq!((reply.status, reply.message.as_str()), (404, "gone"));
    let reply = ApiError::from(anyhow::Error::msg("secret detail")).into_response();
    assert_eq!((reply.status, reply.message.as_str()), (500, "Internal server error"));
}
