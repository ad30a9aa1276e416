//! Asking a member's Prometheus server for the versions that its nodes run.

use crate::models::{service_views, MemberInfo, MemberInfoView};
use crate::text::{same_text, text_view};
use crate::text_map::TextMap;
use crate::time::Timestamp;
use vstd::prelude::*;

verus! {

// ---------------------------------------------------------------------------
// Queries
// ---------------------------------------------------------------------------

/// A byte that a URL holds as it is: an ASCII letter or digit, or one of
/// `-._~`.
pub open spec fn is_unreserved(byte: u8) -> bool {
    ||| 48 <= byte <= 57
    ||| 65 <= byte <= 90
    ||| 97 <= byte <= 122
    ||| byte == 45
    ||| byte == 46
    ||| byte == 95
    ||| byte == 126
}

/// The hexadecimal digit, in upper case, for a value below sixteen.
pub open spec fn hex_digit(value: int) -> char {
    if value < 10 {
        (48 + value) as char
    } else {
        (55 + value) as char
    }
}

/// A byte as it stands in a URL.
pub open spec fn encoded_byte(byte: u8) -> Seq<char> {
    if is_unreserved(byte) {
        seq![byte as char]
    } else {
        seq!['%', hex_digit(byte as int / 16), hex_digit(byte as int % 16)]
    }
}

/// Bytes as they stand in a URL.
pub open spec fn percent_encoded(bytes: Seq<u8>) -> Seq<char>
    decreases bytes.len(),
{
    if bytes.len() == 0 {
        seq![]
    } else {
        percent_encoded(bytes.drop_last()) + encoded_byte(bytes.last())
    }
}

/// Calls `urlencoding::encode`, which encodes every byte of the text in UTF-8
/// but the unreserved ones.
#[verifier::external_body]
fn url_encode(text: &str) -> (encoded: String)
    ensures
        encoded@ == percent_encoded(vstd::utf8::encode_utf8(text@)),
{
    urlencoding::encode(text).into_owned()
}

/// A character that needs no further encoding in a URL.
pub open spec fn is_url_safe(c: char) -> bool {
    (c as u32) < 128 && (c == '%' || is_unreserved(c as u8))
}

/// Encoded bytes stand in a URL without further encoding.
pub proof fn encoded_bytes_are_url_safe(bytes: Seq<u8>)
    ensures
        forall|i: int|
            0 <= i < percent_encoded(bytes).len() ==> is_url_safe(#[trigger] percent_encoded(bytes)[i]),
    decreases bytes.len(),
{
    if bytes.len() > 0 {
        let front = percent_encoded(bytes.drop_last());
        let last = encoded_byte(bytes.last());
        encoded_bytes_are_url_safe(bytes.drop_last());
        assert forall|i: int| 0 <= i < percent_encoded(bytes).len() implies is_url_safe(
            #[trigger] percent_encoded(bytes)[i],
        ) by {
            if i < front.len() {
                assert(percent_encoded(bytes)[i] == front[i]);
            } else {
                assert(percent_encoded(bytes)[i] == last[i - front.len()]);
            }
        }
    }
}

/// The URL of a query.
pub open spec fn query_url_text(endpoint: Seq<char>, query: Seq<char>) -> Seq<char> {
    endpoint + "/api/v1/query?query="@ + percent_encoded(vstd::utf8::encode_utf8(query))
}

/// The URL of a query.
pub fn query_url(endpoint: &str, query: &str) -> (url: String)
    ensures
        url@ == query_url_text(endpoint@, query@),
{
    let encoded = url_encode(query);
    let mut url = endpoint.to_string();
    url.append("/api/v1/query?query=");
    url.append(encoded.as_str());
    url
}

/// The query for `metric` of a member's nodes in one network.
pub open spec fn metric_query(metric: Seq<char>, member: Seq<char>, network: Seq<char>) -> Seq<
    char,
> {
    metric + "{name=~\""@ + member + ".*\", chain=\""@ + network + "\"}"@
}

fn write_query(metric: &str, member: &str, network: &str) -> (query: String)
    ensures
        query@ == metric_query(metric@, member@, network@),
{
    let mut query = metric.to_string();
    query.append("{name=~\"");
    query.append(member);
    query.append(".*\", chain=\"");
    query.append(network);
    query.append("\"}");
    query
}

/// The two queries for the versions of one network.
#[derive(Debug)]
pub struct VersionQueries {
    /// The URL of the query for the version of the client.
    pub client: String,
    /// The URL of the query for the version of the runtime.
    pub runtime: String,
}

/// The queries for the versions of `network` that a member's nodes run.
pub fn version_queries(endpoint: &str, member: &str, network: &str) -> (queries: VersionQueries)
    ensures
        queries.client@ == query_url_text(
            endpoint@,
            metric_query("substrate_build_info"@, member@, network@),
        ),
        queries.runtime@ == query_url_text(
            endpoint@,
            metric_query("substrate_runtime_spec_version"@, member@, network@),
        ),
        queries.client@ == endpoint@ + "/api/v1/query?query="@ + percent_encoded(
            vstd::utf8::encode_utf8(
                "substrate_build_info{name=~\""@ + member@ + ".*\", chain=\""@ + network@ + "\"}"@,
            ),
        ),
        queries.runtime@ == endpoint@ + "/api/v1/query?query="@ + percent_encoded(
            vstd::utf8::encode_utf8(
                "substrate_runtime_spec_version{name=~\""@ + member@ + ".*\", chain=\""@ + network@
                    + "\"}"@,
            ),
        ),
{
    proof {
        reveal_strlit("substrate_build_info");
        reveal_strlit("substrate_build_info{name=~\"");
        reveal_strlit("substrate_runtime_spec_version");
        reveal_strlit("substrate_runtime_spec_version{name=~\"");
        reveal_strlit("{name=~\"");
        assert("substrate_build_info{name=~\""@ =~= "substrate_build_info"@ + "{name=~\""@);
        assert("substrate_runtime_spec_version{name=~\""@ =~= "substrate_runtime_spec_version"@
            + "{name=~\""@);
    }
    let build = write_query("substrate_build_info", member, network);
    let runtime = write_query("substrate_runtime_spec_version", member, network);
    VersionQueries {
        client: query_url(endpoint, build.as_str()),
        runtime: query_url(endpoint, runtime.as_str()),
    }
}

// ---------------------------------------------------------------------------
// Answers
// ---------------------------------------------------------------------------

/// An answer of a Prometheus server.
#[derive(Debug)]
pub struct PrometheusResponse {
    pub status: String,
    pub data: PrometheusData,
}

/// What was asked for.
#[derive(Debug)]
pub struct PrometheusData {
    pub result_type: String,
    pub result: Vec<PrometheusResult>,
}

/// One series, with its last value.
#[derive(Debug)]
pub struct PrometheusResult {
    /// The labels of the series.
    pub metric: TextMap,
    pub value: String,
}

/// Why a query has no result.
#[derive(Debug, Clone, Copy, PartialEq, Eq, Structural)]
pub enum QueryFailure {
    /// The server was not reached.
    NotSent,
    /// The answer was not understood.
    NotParsed,
}

/// The results of a query, where the server reports success.
pub fn query_prometheus_metrics(answer: Result<PrometheusResponse, QueryFailure>) -> (results:
    Result<Vec<PrometheusResult>, String>)
    ensures
        match answer {
            Ok(response) => if response.status@ == "success"@ {
                results == Ok::<Vec<PrometheusResult>, String>(response.data.result)
            } else {
                results is Err && results->Err_0@ == "Prometheus query failed"@
            },
            Err(QueryFailure::NotSent) => results is Err && results->Err_0@
                == "Failed to query Prometheus"@,
            Err(QueryFailure::NotParsed) => results is Err && results->Err_0@
                == "Failed to parse Prometheus response"@,
        },
{
    match answer {
        Ok(response) => if same_text(response.status.as_str(), "success") {
            Ok(response.data.result)
        } else {
            Err("Prometheus query failed".to_string())
        },
        Err(QueryFailure::NotSent) => Err("Failed to query Prometheus".to_string()),
        Err(QueryFailure::NotParsed) => Err("Failed to parse Prometheus response".to_string()),
    }
}

/// The first series of an answer, if there is one.
pub open spec fn first_series(answer: Option<PrometheusResponse>) -> Option<PrometheusResult> {
    if answer is Some && answer->0.data.result@.len() > 0 {
        Some(answer->0.data.result@[0])
    } else {
        None
    }
}

/// The version of the client in an answer: the label `version` of the first
/// series.
pub open spec fn client_in(answer: Option<PrometheusResponse>) -> Option<Seq<char>> {
    match first_series(answer) {
        Some(series) => series.metric@.get("version"@),
        None => None,
    }
}

/// The version of the runtime in an answer: the value of the first series.
pub open spec fn runtime_in(answer: Option<PrometheusResponse>) -> Option<Seq<char>> {
    match first_series(answer) {
        Some(series) => Some(series.value@),
        None => None,
    }
}

fn read_client(answer: &Option<PrometheusResponse>) -> (version: Option<String>)
    ensures
        text_view(version) == client_in(*answer),
{
    if let Some(response) = answer {
        if response.data.result.len() > 0 {
            return response.data.result[0].metric.get("version");
        }
    }
    None
}

fn read_runtime(answer: &Option<PrometheusResponse>) -> (version: Option<String>)
    ensures
        text_view(version) == runtime_in(*answer),
{
    if let Some(response) = answer {
        if response.data.result.len() > 0 {
            return Some(response.data.result[0].value.clone());
        }
    }
    None
}

/// The answers to the two queries for one network; nothing where there was no
/// answer, or none that was understood.
#[derive(Debug)]
pub struct VersionAnswers {
    pub network: String,
    pub client: Option<PrometheusResponse>,
    pub runtime: Option<PrometheusResponse>,
}

/// What the answers tell of a service.
pub open spec fn told(answers: VersionAnswers, now: Timestamp) -> MemberInfoView {
    MemberInfoView {
        network: answers.network@,
        ip: "prometheus"@,
        runtime_version: runtime_in(answers.runtime),
        client_version: client_in(answers.client),
        last_checked: now,
        cert_expires: None,
        cert_days_left: None,
        latency_ms: None,
        response_time_ms: None,
    }
}

/// What the answers tell of the services of a member, network by network. A
/// network without any version is left out.
pub open spec fn all_told(answers: Seq<VersionAnswers>, now: Timestamp) -> Seq<MemberInfoView>
    decreases answers.len(),
{
    if answers.len() == 0 {
        seq![]
    } else {
        let before = all_told(answers.drop_last(), now);
        let service = told(answers.last(), now);
        if service.client_version is Some || service.runtime_version is Some {
            before.push(service)
        } else {
            before
        }
    }
}

/// Puts together what a member's Prometheus server tells of its services.
pub fn fetch_member_prometheus_batch(
    member_id: String,
    answers: &Vec<VersionAnswers>,
    now: Timestamp,
) -> (result: (String, Vec<MemberInfo>))
    ensures
        result.0@ == member_id@,
        service_views(result.1@) == all_told(answers@, now),
{
    let mut services: Vec<MemberInfo> = Vec::new();
    let mut i: usize = 0;
    assert(service_views(services@) =~= all_told(answers@.take(0), now));
    while i < answers.len()
        invariant
            i <= answers@.len(),
            service_views(services@) == all_told(answers@.take(i as int), now),
        decreases answers@.len() - i,
    {
        let answer = &answers[i];
        let ghost before = services@;
        proof {
            let taken = answers@.take(i + 1);
            assert(taken.drop_last() =~= answers@.take(i as int));
            assert(taken.last() == answers@[i as int]);
        }
        let client_version = read_client(&answer.client);
        let runtime_version = read_runtime(&answer.runtime);
        if client_version.is_some() || runtime_version.is_some() {
            let service = MemberInfo {
                network: answer.network.clone(),
                ip: "prometheus".to_string(),
                runtime_version,
                client_version,
                last_checked: now,
                cert_expires: None,
                cert_days_left: None,
                latency_ms: None,
                response_time_ms: None,
            };
            services.push(service);
            proof {
                assert(service@ == told(*answer, now));
                assert(service_views(services@) =~= service_views(before).push(service@));
            }
        }
        i = i + 1;
    }
    assert(answers@.take(i as int) =~= answers@);
    (member_id, services)
}

// ---------------------------------------------------------------------------
// What holds of the answers
// ---------------------------------------------------------------------------

/// What a Prometheus server tells of a service is the value of the first series
/// for the runtime and the label `version` of the first series for the client,
/// each of its own answer. Nothing is known of certificates and times.
pub proof fn first_series_tell_the_versions(answers: VersionAnswers, now: Timestamp)
    ensures
        ({
            let service = told(answers, now);
            let client = answers.client;
            let runtime = answers.runtime;
            &&& service.network == answers.network@
            &&& service.ip == "prometheus"@
            &&& service.last_checked == now
            &&& service.cert_expires is None
            &&& service.cert_days_left is None
            &&& service.latency_ms is None
            &&& service.response_time_ms is None
            &&& service.runtime_version is Some <==> runtime is Some
                && runtime->0.data.result@.len() > 0
            &&& service.runtime_version is Some ==> service.runtime_version->0
                == runtime->0.data.result@[0].value@
            &&& service.client_version is Some <==> client is Some && client->0.data.result@.len()
                > 0 && client->0.data.result@[0].metric@.contains_key("version"@)
            &&& service.client_version is Some ==> service.client_version->0
                == client->0.data.result@[0].metric@["version"@]
        }),
{
}

/// The services are told network by network, in the order of the answers; one
/// is left out exactly where neither of its versions is told.
pub proof fn untold_services_are_left_out(
    answers: Seq<VersionAnswers>,
    more: VersionAnswers,
    now: Timestamp,
)
    ensures
        all_told(Seq::empty(), now).len() == 0,
        told(more, now).client_version is None && told(more, now).runtime_version is None
            ==> all_told(answers.push(more), now) == all_told(answers, now),
        told(more, now).client_version is Some || told(more, now).runtime_version is Some
            ==> all_told(answers.push(more), now) == all_told(answers, now).push(told(more, now)),
{
    assert(answers.push(more).drop_last() =~= answers);
}

} // verus!
