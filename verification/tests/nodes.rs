use vermon::config::Config;
use vermon::members::{
    fetch_member_http_batch, member_tasks, networks_of, normalize_network, prometheus_task,
    refresh_member_info, rename_network, AddressInfo, MemberTask,
};
use vermon::models::{
    IbpMember, IbpMemberDetails, IbpMemberLocation, IbpMemberMembership, IbpMemberService,
    MemberInfo,
};
use vermon::prometheus::{
    fetch_member_prometheus_batch, query_prometheus_metrics, query_url,
    version_queries, PrometheusData, PrometheusResponse, PrometheusResult, QueryFailure,
    VersionAnswers,
};
use vermon::repos::{build_network_map, repos};
use vermon::rpc::{
    after_client, after_client_answer, after_runtime, after_runtime_answer, fetch_node_info_http_optimized, fetch_runtime_version,
    request_body, service_address, service_url, try_rpc_call, CallStep, HttpEvent, NodeInfo,
    NodeStep, SocketEvent,
};
use vermon::startup::load_endpoints;
use vermon::state::AppState;
use vermon::table::Table;
use vermon::text_map::TextMap;
use vermon::time::Timestamp;

fn at(seconds: i64) -> Timestamp {
    Timestamp::new(seconds, 0).unwrap()
}

fn reason(step: CallStep) -> String {
    match step {
        CallStep::Failed(reason) => reason,
        _ => panic!("not failed"),
    }
}

fn runtime(step: CallStep) -> String {
    assert_eq!(step.method(), Some("system_version"));
    match step {
        CallStep::AskClient { runtime } => runtime,
        _ => panic!("no runtime"),
    }
}

fn both(step: CallStep) -> (String, String) {
    assert_eq!(step.method(), None);
    match step {
        CallStep::Done { runtime, client } => (runtime, client),
        _ => panic!("not done"),
    }
}

#[test]
fn versions_over_a_web_socket() {
    let step = fetch_runtime_version(SocketEvent::Connected(true));
    assert_eq!(step.method(), Some("state_getRuntimeVersion"));
    let text = r#"{"specName":"polkadot","specVersion":1003004,"apis":[["0x",1]]}"#.to_string();
    assert_eq!(runtime(fetch_runtime_version(SocketEvent::Runtime(Some(text)))), "1003004");
    let event = SocketEvent::Client {
        runtime: "1003004".to_string(),
        version: Some("1.17.1-abc".to_string()),
    };
    assert_eq!(
        both(fetch_runtime_version(event)),
        ("1003004".to_string(), "1.17.1-abc".to_string())
    );
}

#[test]
fn failures_over_a_web_socket() {
    let step = fetch_runtime_version(SocketEvent::Connected(false));
    assert_eq!(reason(step), "Failed to connect to RPC");
    let step = fetch_runtime_version(SocketEvent::Runtime(None));
    assert_eq!(reason(step), "Failed to get runtime version");
    for text in ["{}", "[1]", "no json", r#"{"specVersion":"7"}"#, r#"{"specVersion":-7}"#] {
        let step = fetch_runtime_version(SocketEvent::Runtime(Some(text.to_string())));
        assert_eq!(reason(step), "Invalid runtime version response");
    }
    let event = SocketEvent::Client { runtime: "7".to_string(), version: None };
    assert_eq!(reason(fetch_runtime_version(event)), "Failed to get client version");
}

#[test]
fn versions_over_http() {
    assert_eq!(try_rpc_call(HttpEvent::Start).method(), Some("state_getRuntimeVersion"));
    assert_eq!(
        request_body("system_version"),
        r#"{"id":1,"jsonrpc":"2.0","method":"system_version","params":[]}"#
    );
    let text = r#"{"jsonrpc":"2.0","result":{"specVersion":18446744073709551615},"id":1}"#;
    let step = try_rpc_call(HttpEvent::Runtime(Ok(text.as_bytes().to_vec())));
    assert_eq!(runtime(step), "18446744073709551615");
    let text = r#"{"jsonrpc":"2.0","result":"1.2-é\"x","id":1}"#;
    let event =
        HttpEvent::Client { runtime: "9".to_string(), answer: Ok(text.as_bytes().to_vec()) };
    assert_eq!(both(try_rpc_call(event)), ("9".to_string(), "1.2-é\"x".to_string()));
}

#[test]
fn methods_are_quoted() {
    assert_eq!(
        request_body("a\"b\\c\n\u{8}\u{c}\r\t\u{1}\u{1f}\u{7f}é"),
        "{\"id\":1,\"jsonrpc\":\"2.0\",\"method\":\"a\\\"b\\\\c\\n\\b\\f\\r\\t\\u0001\\u001f\u{7f}é\",\"params\":[]}"
    );
}

#[test]
fn failures_over_http() {
    assert_eq!(reason(try_rpc_call(HttpEvent::Runtime(Err("timeout".to_string())))), "timeout");
    for text in [r#"{"error":{"code":1}}"#, r#"{"result":7}"#, r#"{"result":{"specVersion":1.5}}"#] {
        let step = try_rpc_call(HttpEvent::Runtime(Ok(text.as_bytes().to_vec())));
        assert_eq!(reason(step), "Invalid runtime version response");
    }
    for body in [&b""[..], b"no json", b"{\"result\":\"\xff\"}", b"{} {}"] {
        let step = try_rpc_call(HttpEvent::Runtime(Ok(body.to_vec())));
        assert_eq!(reason(step), "error decoding response body");
        let event = HttpEvent::Client { runtime: "9".to_string(), answer: Ok(body.to_vec()) };
        assert_eq!(reason(try_rpc_call(event)), "error decoding response body");
    }
    let event = HttpEvent::Client { runtime: "9".to_string(), answer: Err("closed".to_string()) };
    assert_eq!(reason(try_rpc_call(event)), "closed");
    for text in [r#"{"result":7}"#, r#"{"id":1}"#] {
        let event =
            HttpEvent::Client { runtime: "9".to_string(), answer: Ok(text.as_bytes().to_vec()) };
        assert_eq!(reason(try_rpc_call(event)), "Invalid client version response");
    }
}

#[test]
fn steps_after_the_calls() {
    assert_eq!(runtime(after_runtime(Some(0))), "0");
    assert_eq!(reason(after_runtime(None)), "Invalid runtime version response");
    let step = after_client("1".to_string(), Some("2".to_string()));
    assert_eq!(both(step), ("1".to_string(), "2".to_string()));
    assert_eq!(reason(after_client("1".to_string(), None)), "Invalid client version response");
    assert_eq!(reason(after_runtime_answer(None)), "error decoding response body");
    let step = after_client_answer("1".to_string(), None);
    assert_eq!(reason(step), "error decoding response body");
}

#[test]
fn headers_are_tried_in_turn() {
    let expected = [
        ("Host", "kusama.dotters.network"),
        ("X-Forwarded-Host", "kusama.dotters.network"),
        ("X-Real-IP", "127.0.0.1"),
    ];
    let mut asked: usize = 0;
    for pair in expected {
        match fetch_node_info_http_optimized("kusama", &mut asked, None) {
            NodeStep::Try { header, value } => assert_eq!((header, value.as_str()), pair),
            _ => panic!("nothing tried"),
        }
    }
    assert_eq!(asked, 3);
    match fetch_node_info_http_optimized("kusama", &mut asked, None) {
        NodeStep::Failed(reason) => assert_eq!(reason, "All header strategies failed for kusama"),
        _ => panic!("not failed"),
    }
    let info = NodeInfo {
        runtime_version: "1".to_string(),
        client_version: "2".to_string(),
        response_time_ms: 3,
    };
    match fetch_node_info_http_optimized("kusama", &mut asked, Some(info)) {
        NodeStep::Done(info) => assert_eq!(info.response_time_ms, 3),
        _ => panic!("not done"),
    }
    assert_eq!(service_address("192.0.2.7"), "192.0.2.7:443");
    assert_eq!(service_url("192.0.2.7"), "https://192.0.2.7:443");
}

#[test]
fn network_names_are_normalized() {
    assert_eq!(normalize_network("Polkadot"), "polkadot");
    assert_eq!(normalize_network("AssetHub-Kusama"), "asset-hub-kusama");
    assert_eq!(normalize_network("BridgeHub-Polkadot"), "bridge-hub-polkadot");
    assert_eq!(normalize_network("PassetHub-Paseo"), "asset-hub-paseo");
    assert_eq!(normalize_network("ETH-Asset-Hub-Paseo"), "asset-hub-paseo");
    assert_eq!(normalize_network("ÄÖ-Σ"), "ÄÖ-Σ".to_lowercase());
    assert_eq!(rename_network("eth-eth-assethubassethub"), "asset-hubasset-hub");
}

fn member(active: u8, ip: &str, assignments: Vec<(&str, Vec<&str>)>) -> IbpMember {
    IbpMember {
        details: IbpMemberDetails {
            name: "Rotko".to_string(),
            website: String::new(),
            twitter: String::new(),
            element: String::new(),
            logo: String::new(),
        },
        membership: IbpMemberMembership { member_level: 6, joined: 1, last_rankup: 2 },
        service: IbpMemberService {
            active,
            service_ipv4: ip.to_string(),
            service_ipv6: String::new(),
            monitor_url: String::new(),
            prometheus_endpoint: None,
        },
        service_assignments: Table::from_pairs(
            assignments
                .into_iter()
                .map(|(kind, list)| {
                    (kind.to_string(), list.into_iter().map(|n| n.to_string()).collect())
                })
                .collect(),
        ),
        location: IbpMemberLocation { region: "asia".to_string() },
    }
}

#[test]
fn active_members_with_an_address_are_asked() {
    let assignments = vec![("relay", vec!["Polkadot", "Kusama"]), ("system", vec!["AssetHub-Kusama"])];
    let mut rotko = member(1, "192.0.2.1", assignments);
    assert!(prometheus_task("rotko", &rotko).is_none());
    rotko.service.prometheus_endpoint = Some("https://p".to_string());
    let task = prometheus_task("rotko", &rotko).unwrap();
    assert_eq!((task.member_id.as_str(), task.endpoint.as_str()), ("rotko", "https://p"));
    assert_eq!(task.networks, vec!["polkadot", "kusama", "asset-hub-kusama"]);
    assert_eq!(networks_of(&rotko), vec!["polkadot", "kusama", "asset-hub-kusama"]);
    let mut state = AppState::new(
        Config::from_variables(None, None, None, None),
        build_network_map(&repos()),
        load_endpoints(&Table::from_pairs(vec![])),
        Table::from_pairs(vec![]),
        Table::from_pairs(vec![
            ("idle".to_string(), member(0, "192.0.2.2", vec![])),
            ("rotko".to_string(), rotko),
            ("nowhere".to_string(), member(1, "", vec![])),
            ("bare".to_string(), member(9, "192.0.2.3", vec![])),
        ]),
        at(0),
    );
    let mut tasks = member_tasks(&state);
    assert_eq!(tasks.len(), 2);
    assert_eq!(tasks[0].member_id, "rotko");
    assert_eq!(tasks[0].ip, "192.0.2.1");
    assert_eq!(tasks[0].networks.len(), 3);
    assert_eq!(tasks[1].member_id, "bare");
    let address =
        AddressInfo { cert_expires: Some(at(7)), cert_days_left: Some(3), latency_ms: Some(12) };
    let answers = vec![
        Some(NodeInfo {
            runtime_version: "1".to_string(),
            client_version: "2".to_string(),
            response_time_ms: 55,
        }),
        None,
        None,
    ];
    let bare = fetch_member_http_batch(tasks.remove(1), vec![], address, at(50));
    assert_eq!(bare.0, "bare");
    assert!(bare.1.is_empty());
    let (id, services) = fetch_member_http_batch(tasks.remove(0), answers, address, at(50));
    assert_eq!(id, "rotko");
    assert_eq!(services.len(), 3);
    assert_eq!(services[0].network, "polkadot");
    assert_eq!(services[0].ip, "192.0.2.1");
    assert_eq!(services[0].runtime_version.as_deref(), Some("1"));
    assert_eq!(services[0].client_version.as_deref(), Some("2"));
    assert_eq!(services[0].response_time_ms, Some(55));
    assert_eq!(services[1].network, "kusama");
    assert_eq!(services[1].runtime_version, None);
    assert_eq!(services[1].response_time_ms, None);
    assert_eq!(services[2].cert_days_left, Some(3));
    assert_eq!(services[2].cert_expires, Some(at(7)));
    assert_eq!(services[2].latency_ms, Some(12));
    assert_eq!(services[2].last_checked, at(50));
    refresh_member_info(&mut state, vec![(id, services), bare]);
    assert_eq!(state.member_info.len(), 1);
    refresh_member_info(&mut state, vec![("rotko".to_string(), vec![])]);
    assert_eq!(state.member_info.get("rotko").unwrap().value().len(), 3);
}

#[test]
fn answers_and_networks_are_paired() {
    let task = MemberTask {
        member_id: "m".to_string(),
        ip: "i".to_string(),
        networks: vec!["a".to_string(), "b".to_string()],
    };
    let address = AddressInfo { cert_expires: None, cert_days_left: None, latency_ms: None };
    let (_, services) = fetch_member_http_batch(task, vec![None], address, at(0));
    assert_eq!(services.len(), 1);
    assert_eq!(services[0].network, "a");
}

fn series(labels: Vec<(&str, &str)>, value: &str) -> PrometheusResult {
    PrometheusResult {
        metric: labels
            .into_iter()
            .fold(TextMap::new(), |map, (k, v)| map.insert(k.to_string(), v.to_string())),
        value: value.to_string(),
    }
}

fn response(status: &str, result: Vec<PrometheusResult>) -> PrometheusResponse {
    PrometheusResponse {
        status: status.to_string(),
        data: PrometheusData { result_type: "vector".to_string(), result },
    }
}

#[test]
fn queries_are_encoded() {
    assert_eq!(query_url("https://p", "up"), "https://p/api/v1/query?query=up");
    assert_eq!(query_url("", "a b~ü{}"), "/api/v1/query?query=a%20b~%C3%BC%7B%7D");
    let queries = version_queries("https://p", "rotko", "kusama");
    assert_eq!(
        queries.client,
        "https://p/api/v1/query?query=substrate_build_info%7Bname%3D~%22rotko.%2A%22%2C%20chain%3D%22kusama%22%7D"
    );
    assert_eq!(
        queries.runtime,
        "https://p/api/v1/query?query=substrate_runtime_spec_version%7Bname%3D~%22rotko.%2A%22%2C%20chain%3D%22kusama%22%7D"
    );
}

#[test]
fn query_results() {
    let good = query_prometheus_metrics(Ok(response("success", vec![series(vec![], "1")])));
    assert_eq!(good.unwrap().len(), 1);
    let bad = query_prometheus_metrics(Ok(response("error", vec![])));
    assert_eq!(bad.unwrap_err(), "Prometheus query failed");
    let bad = query_prometheus_metrics(Err(QueryFailure::NotSent));
    assert_eq!(bad.unwrap_err(), "Failed to query Prometheus");
    let bad = query_prometheus_metrics(Err(QueryFailure::NotParsed));
    assert_eq!(bad.unwrap_err(), "Failed to parse Prometheus response");
}

#[test]
fn versions_from_prometheus() {
    let answers = vec![
        VersionAnswers {
            network: "polkadot".to_string(),
            client: Some(response("success", vec![
                series(vec![("name", "n"), ("version", "1.17")], "1"),
                series(vec![("version", "1.18")], "1"),
            ])),
            runtime: Some(response("success", vec![series(vec![], "1003000")])),
        },
        VersionAnswers { network: "kusama".to_string(), client: None, runtime: None },
        VersionAnswers {
            network: "paseo".to_string(),
            client: Some(response("success", vec![series(vec![("name", "x")], "1")])),
            runtime: Some(response("success", vec![series(vec![], "7")])),
        },
    ];
    let (id, services): (String, Vec<MemberInfo>) =
        fetch_member_prometheus_batch("rotko".to_string(), &answers, at(5));
    assert_eq!(id, "rotko");
    assert_eq!(services.len(), 2);
    assert_eq!(services[0].network, "polkadot");
    assert_eq!(services[0].ip, "prometheus");
    assert_eq!(services[0].client_version.as_deref(), Some("1.17"));
    assert_eq!(services[0].runtime_version.as_deref(), Some("1003000"));
    assert_eq!(services[0].last_checked, at(5));
    assert_eq!(services[0].latency_ms, None);
    assert_eq!(services[1].network, "paseo");
    assert_eq!(services[1].client_version, None);
    assert_eq!(services[1].runtime_version.as_deref(), Some("7"));
}
