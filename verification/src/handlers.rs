//! The answers to requests.

use crate::models::{
    service_views, ApiError, ComparisonResult, ComparisonView, HealthStats,
    HealthStatus, ListQuery, MemberInfoView, MemberServices, MemberServicesView, NetworkInfo, NetworkInfoView,
    VersionInfo,
};
use crate::order::{
    increasing, increasing_order_is_unique, insert_in_order, names, names_after_insert,
    take_one_more, text_less,
};
use crate::repos::{repos, watched};
use crate::state::{failures_are_bounded, only_tracked, track_usage, AppState};
use crate::stats::{
    any_service, cert_critical, cert_expired, cert_warning, certificates_are_of_five_kinds,
    fast_services_are_the_rest, figures, join_services, latencies_are_counted, latency_is,
    listed_members_are_counted, reachable_services_are_the_rest, service_places, services_with,
    slow, tally_does_not_depend_on_order, unreachable_service,
};
use crate::store::{
    all_counts, all_members, all_texts, all_versions, count_pairs, find_member, find_text,
    find_version, lists_entries, member_count, member_pairs, text_pairs, version_pairs,
};
use crate::text::{same_text, text_view, text_views};
use crate::time::{seconds_add_up, Timestamp};
use vstd::prelude::*;

verus! {

/// Three texts in a row.
fn join(before: &str, text: &str, after: &str) -> (joined: String)
    ensures
        joined@ == before@ + text@ + after@,
{
    let mut joined = before.to_string();
    joined.append(text);
    joined.append(after);
    joined
}

// ---------------------------------------------------------------------------
// Pages
// ---------------------------------------------------------------------------

/// A page, as it is sent.
#[derive(Debug)]
pub struct Page {
    /// The status code of HTTP.
    pub status: u16,
    pub content_type: &'static str,
    pub body: String,
}

/// `page` shows what a template was rendered to, or why it was not.
pub open spec fn shows_rendered(page: Page, rendered: Result<String, String>) -> bool {
    match rendered {
        Ok(html) => {
            &&& page.status == 200
            &&& page.content_type@ == "text/html"@
            &&& page.body@ == html@
        },
        Err(error) => {
            &&& page.status == 500
            &&& page.content_type@ == "text/plain; charset=utf-8"@
            &&& page.body@ == "Template error: "@ + error@
        },
    }
}

fn rendered_page(rendered: Result<String, String>) -> (page: Page)
    ensures
        shows_rendered(page, rendered),
{
    match rendered {
        Ok(html) => Page { status: 200, content_type: "text/html", body: html },
        Err(error) => {
            let mut body = "Template error: ".to_string();
            body.append(error.as_str());
            Page { status: 500, content_type: "text/plain; charset=utf-8", body }
        },
    }
}

/// The start page.
pub fn serve_ui(rendered: Result<String, String>) -> (page: Page)
    ensures
        shows_rendered(page, rendered),
        rendered is Ok ==> page.status == 200 && page.content_type@ == "text/html"@ && page.body@
            == rendered->Ok_0@,
        rendered is Err ==> page.status == 500 && page.content_type@
            == "text/plain; charset=utf-8"@ && page.body@ == "Template error: "@
            + rendered->Err_0@,
{
    rendered_page(rendered)
}

/// The page with the documentation.
pub fn serve_api_docs(rendered: Result<String, String>) -> (page: Page)
    ensures
        shows_rendered(page, rendered),
        rendered is Ok ==> page.status == 200 && page.content_type@ == "text/html"@ && page.body@
            == rendered->Ok_0@,
        rendered is Err ==> page.status == 500 && page.content_type@
            == "text/plain; charset=utf-8"@ && page.body@ == "Template error: "@
            + rendered->Err_0@,
{
    rendered_page(rendered)
}

/// The style sheet that is used where none is installed.
pub const FALLBACK_CSS: &'static str =
    "*{margin:0;padding:0;box-sizing:border-box}body{background:#000;color:#0f0;font-family:monospace;font-size:12px;padding:10px}input{background:#000;border:1px solid #333;color:#0f0;font-family:monospace;font-size:12px;padding:5px;outline:none}input:focus{border-color:#0f0}ul{list-style:none;margin-top:10px}li{padding:2px 0}li.valid{color:#0f0}li.invalid{color:#f00;background:#220}li.unknown{color:#888}ul li:hover{background:#111}";

/// The style sheet: the installed one, if it could be read.
pub fn serve_css(installed: Option<String>) -> (page: Page)
    ensures
        page.status == 200,
        page.content_type@ == "text/css"@,
        page.body@ == match installed {
            Some(css) => css@,
            None => FALLBACK_CSS@,
        },
        installed is None ==> page.body@
            == "*{margin:0;padding:0;box-sizing:border-box}body{background:#000;color:#0f0;font-family:monospace;font-size:12px;padding:10px}input{background:#000;border:1px solid #333;color:#0f0;font-family:monospace;font-size:12px;padding:5px;outline:none}input:focus{border-color:#0f0}ul{list-style:none;margin-top:10px}li{padding:2px 0}li.valid{color:#0f0}li.invalid{color:#f00;background:#220}li.unknown{color:#888}ul li:hover{background:#111}"@,
{
    let body = match installed {
        Some(css) => css,
        None => FALLBACK_CSS.to_string(),
    };
    Page { status: 200, content_type: "text/css", body }
}

// ---------------------------------------------------------------------------
// Health
// ---------------------------------------------------------------------------

/// How the monitor is doing when that many of its updates have failed.
pub open spec fn status_text(failed: nat) -> Seq<char> {
    if failed == 0 {
        "healthy"@
    } else if failed > watched().len() / 2 {
        "degraded"@
    } else {
        "partial"@
    }
}

/// Whole seconds as an unsigned number; negative ones count from the top.
pub open spec fn unsigned_seconds(seconds: int) -> int {
    if seconds >= 0 {
        seconds
    } else {
        seconds + 0x1_0000_0000_0000_0000
    }
}

/// How the updates of the watched repositories are doing.
pub fn health(state: &mut AppState, now: Timestamp) -> (health: HealthStatus)
    requires
        old(state).wf(),
    ensures
        only_tracked(*old(state), *final(state), "/health"@, now),
        final(state).wf(),
        health.status@ == status_text(old(state).failures().len()),
        health.last_refresh == old(state).last_refresh,
        health.total_repos == watched().len(),
        health.successful_updates == watched().len() - old(state).failures().len(),
        text_views(health.failed_updates@).no_duplicates(),
        forall|key: Seq<char>|
            text_views(health.failed_updates@).contains(key)
                <==> #[trigger] old(state).failures().contains_key(key),
        health.uptime_seconds == unsigned_seconds(now.seconds_after(old(state).start_time)),
        health.failed_updates@.len() == old(state).failures().len(),
        health.successful_updates + health.failed_updates@.len() == health.total_repos,
        health.status@ == if health.failed_updates@.len() == 0 {
            "healthy"@
        } else if 2 * health.failed_updates@.len() > health.total_repos {
            "degraded"@
        } else {
            "partial"@
        },
        now.seconds_after(old(state).start_time) >= 0 ==> health.uptime_seconds
            == now.seconds_after(old(state).start_time),
        now.seconds_after(old(state).start_time) < 0 ==> health.uptime_seconds
            == 0x1_0000_0000_0000_0000 + now.seconds_after(old(state).start_time),
{
    track_usage(&mut state.usage_stats, "/health", now);
    let elapsed: i64 = now.seconds_since(&state.start_time);
    assert(elapsed >= 0 ==> elapsed as u64 == elapsed) by (bit_vector);
    assert(elapsed < 0 ==> elapsed as u64 == elapsed + 0x1_0000_0000_0000_0000) by (bit_vector);
    let uptime: u64 = elapsed as u64;
    let pairs = all_texts(&state.failed_repos);
    let ghost views = text_pairs(pairs@);
    let mut failed: Vec<String> = Vec::new();
    let mut i: usize = 0;
    while i < pairs.len()
        invariant
            i <= pairs@.len(),
            failed@.len() == i,
            forall|j: int| 0 <= j < i ==> (#[trigger] failed@[j])@ == pairs@[j].0@,
        decreases pairs@.len() - i,
    {
        failed.push(pairs[i].0.clone());
        i = i + 1;
    }
    proof {
        let keys = text_views(failed@);
        assert forall|j: int| 0 <= j < keys.len() implies #[trigger] keys[j] == views[j].0 by {
            assert(views[j].0 == pairs@[j].0@);
        }
        assert forall|a: int, b: int|
            0 <= a < keys.len() && 0 <= b < keys.len() && a != b implies keys[a] != keys[b] by {
            assert(views[a].0 != views[b].0);
        }
        assert forall|key: Seq<char>| keys.contains(key) <==> #[trigger] old(
            state,
        ).failures().contains_key(key) by {
            if keys.contains(key) {
                let j = choose|j: int| 0 <= j < keys.len() && keys[j] == key;
                assert(views[j].0 == key);
            }
            if old(state).failures().contains_key(key) {
                let j = choose|j: int| 0 <= j < views.len() && (#[trigger] views[j]).0 == key;
                assert(keys[j] == key);
            }
        }
        failures_are_bounded(*old(state));
        assert(keys.to_set() =~= old(state).failures().dom());
        keys.unique_seq_to_set();
    }
    let total: usize = repos().len();
    assert(total == watched().len());
    let status = if failed.len() == 0 {
        "healthy"
    } else if failed.len() > total / 2 {
        "degraded"
    } else {
        "partial"
    };
    HealthStatus {
        status,
        last_refresh: state.last_refresh,
        total_repos: total,
        successful_updates: total - failed.len(),
        failed_updates: failed,
        uptime_seconds: uptime,
    }
}

// ---------------------------------------------------------------------------
// Networks
// ---------------------------------------------------------------------------

/// What is known of a network.
pub open spec fn network_info(state: AppState, network: Seq<char>) -> NetworkInfoView {
    let repository = state.network_map@[network];
    NetworkInfoView { network, repository, version_info: state.releases().get(repository) }
}

/// A list of the networks holds `network`: those with a known release, or all.
pub open spec fn is_listed(state: AppState, network: Seq<char>, include_empty: bool) -> bool {
    &&& state.network_map@.contains_key(network)
    &&& include_empty || network_info(state, network).version_info is Some
}

/// `list` holds what is known of the networks, in the order of their names.
pub open spec fn lists_networks(
    list: Seq<NetworkInfo>,
    state: AppState,
    include_empty: bool,
) -> bool {
    &&& increasing(names(list))
    &&& forall|network: Seq<char>| #[trigger]
        names(list).contains(network) <==> is_listed(state, network, include_empty)
    &&& forall|i: int|
        0 <= i < list.len() ==> (#[trigger] list[i])@ == network_info(state, list[i].network@)
}

fn read_network(state: &AppState, network: String, repository: String) -> (info: NetworkInfo)
    requires
        state.network_map@.contains_key(network@),
        state.network_map@[network@] == repository@,
    ensures
        info.network@ == network@,
        info@ == network_info(*state, network@),
{
    let version_info = find_version(&state.repos, repository.as_str());
    NetworkInfo { network, repository, version_info }
}

/// The list of the networks.
pub fn list_networks(state: &mut AppState, query: ListQuery, now: Timestamp) -> (list: Vec<
    NetworkInfo,
>)
    ensures
        only_tracked(*old(state), *final(state), "/api/networks"@, now),
        old(state).wf() ==> final(state).wf(),
        lists_networks(list@, *old(state), query.include_empty),
        forall|i: int|
            0 <= i < list@.len() ==> {
                let info = #[trigger] list@[i];
                let releases = old(state).releases();
                &&& old(state).network_map@.contains_pair(info.network@, info.repository@)
                &&& info.version_info is Some <==> releases.contains_key(info.repository@)
                &&& info.version_info is Some ==> info.version_info->0@
                    == releases[info.repository@]
                &&& query.include_empty || info.version_info is Some
            },
{
    track_usage(&mut state.usage_stats, "/api/networks", now);
    let keys = state.network_map.keys();
    let ghost views = text_views(keys@);
    let mut list: Vec<NetworkInfo> = Vec::new();
    let mut i: usize = 0;
    assert(names(list@) =~= Seq::<Seq<char>>::empty());
    while i < keys.len()
        invariant
            i <= keys@.len(),
            views == text_views(keys@),
            views.no_duplicates(),
            only_tracked(*old(state), *state, "/api/networks"@, now),
            forall|key: Seq<char>|
                views.contains(key) <==> #[trigger] state.network_map@.contains_key(key),
            increasing(names(list@)),
            forall|network: Seq<char>| #[trigger]
                names(list@).contains(network) <==> views.take(i as int).contains(network)
                    && is_listed(*old(state), network, query.include_empty),
            forall|j: int|
                0 <= j < list@.len() ==> (#[trigger] list@[j])@ == network_info(
                    *old(state),
                    list@[j].network@,
                ),
        decreases keys@.len() - i,
    {
        let ghost before = list@;
        let ghost network = views[i as int];
        assert(views.contains(network));
        proof {
            take_one_more(views, i as int);
        }
        if let Some(repository) = state.network_map.get(keys[i].as_str()) {
            let info = read_network(state, keys[i].clone(), repository);
            assert(info@ == network_info(*old(state), network));
            if query.include_empty || info.version_info.is_some() {
                let ghost item = info;
                let at = insert_in_order(&mut list, info);
                proof {
                    names_after_insert(before, item, at as int);
                }
            }
        }
        i = i + 1;
    }
    proof {
        assert(views.take(i as int) =~= views);
        assert forall|network: Seq<char>| #[trigger]
            names(list@).contains(network) <==> is_listed(
            *old(state),
            network,
            query.include_empty,
        ) by {
            assert(views.contains(network) <==> state.network_map@.contains_key(network));
        }
        listed_networks_have_their_releases(list@, *old(state), query.include_empty);
    }
    list
}

/// What is known of one network.
pub fn get_network(state: &mut AppState, network: String, now: Timestamp) -> (answer: Result<
    NetworkInfo,
    ApiError,
>)
    ensures
        only_tracked(*old(state), *final(state), "/api/networks/{network}"@, now),
        old(state).wf() ==> final(state).wf(),
        match answer {
            Ok(info) => old(state).network_map@.contains_key(network@) && info@ == network_info(
                *old(state),
                network@,
            ),
            Err(ApiError::NotFound(message)) => !old(state).network_map@.contains_key(network@)
                && message@ == "Network '"@ + network@ + "' not found"@,
            Err(ApiError::Internal(_)) => false,
        },
        answer is Ok ==> {
            let info = answer->Ok_0;
            let releases = old(state).releases();
            &&& info.network@ == network@
            &&& info.repository@ == old(state).network_map@[network@]
            &&& info.version_info is Some <==> releases.contains_key(info.repository@)
            &&& info.version_info is Some ==> info.version_info->0@ == releases[info.repository@]
        },
{
    track_usage(&mut state.usage_stats, "/api/networks/{network}", now);
    match state.network_map.get(network.as_str()) {
        Some(repository) => Ok(read_network(state, network, repository)),
        None => Err(ApiError::NotFound(join("Network '", network.as_str(), "' not found"))),
    }
}

// ---------------------------------------------------------------------------
// Repositories
// ---------------------------------------------------------------------------

/// The latest releases, by repository, in no given order.
pub fn list_repos(state: &mut AppState, now: Timestamp) -> (list: Vec<(String, VersionInfo)>)
    ensures
        only_tracked(*old(state), *final(state), "/api/repos"@, now),
        old(state).wf() ==> final(state).wf(),
        lists_entries(version_pairs(list@), old(state).releases()),
{
    track_usage(&mut state.usage_stats, "/api/repos", now);
    all_versions(&state.repos)
}

/// The latest release of one repository.
pub fn get_repo(state: &mut AppState, repo: String, now: Timestamp) -> (answer: Result<
    VersionInfo,
    ApiError,
>)
    ensures
        only_tracked(*old(state), *final(state), "/api/repos/{repo}"@, now),
        old(state).wf() ==> final(state).wf(),
        match answer {
            Ok(info) => old(state).releases().contains_key(repo@) && info@
                == old(state).releases()[repo@],
            Err(ApiError::NotFound(message)) => !old(state).releases().contains_key(repo@)
                && message@ == "Repository '"@ + repo@ + "' not found"@,
            Err(ApiError::Internal(_)) => false,
        },
{
    track_usage(&mut state.usage_stats, "/api/repos/{repo}", now);
    match find_version(&state.repos, repo.as_str()) {
        Some(info) => Ok(info),
        None => Err(ApiError::NotFound(join("Repository '", repo.as_str(), "' not found"))),
    }
}

/// The answer to a request for a refresh.
#[derive(Debug)]
pub struct RefreshReply {
    /// `triggered` or `rate_limited`.
    pub status: &'static str,
    pub message: &'static str,
    /// After how many seconds a refresh is allowed again, where none was
    /// started now.
    pub next_allowed_in: Option<i64>,
}

/// A refresh at the time `now` would come less than a minute after the last.
pub open spec fn is_rate_limited(last_refresh: Option<Timestamp>, now: Timestamp) -> bool {
    last_refresh is Some && now.seconds_after(last_refresh->0) < 60
}

/// Asks for a refresh, which is to be started unless the answer says when it
/// is allowed again.
pub fn trigger_refresh(state: &mut AppState, now: Timestamp) -> (reply: RefreshReply)
    ensures
        only_tracked(*old(state), *final(state), "/api/refresh"@, now),
        old(state).wf() ==> final(state).wf(),
        is_rate_limited(old(state).last_refresh, now) ==> {
            &&& reply.status@ == "rate_limited"@
            &&& reply.message@ == "Refresh already performed recently"@
            &&& reply.next_allowed_in is Some
            &&& reply.next_allowed_in->0 == 60 - now.seconds_after(old(state).last_refresh->0)
            &&& reply.next_allowed_in->0 > 0
        },
        !is_rate_limited(old(state).last_refresh, now) ==> {
            &&& reply.status@ == "triggered"@
            &&& reply.message@ == "Refresh started in background"@
            &&& reply.next_allowed_in is None
        },
        old(state).last_refresh is None ==> reply.status@ == "triggered"@,
        reply.next_allowed_in is Some <==> old(state).last_refresh is Some && now.seconds_after(
            old(state).last_refresh->0,
        ) < 60,
{
    track_usage(&mut state.usage_stats, "/api/refresh", now);
    if let Some(last) = state.last_refresh {
        let elapsed: i64 = now.seconds_since(&last);
        if elapsed < 60 {
            return RefreshReply {
                status: "rate_limited",
                message: "Refresh already performed recently",
                next_allowed_in: Some(60 - elapsed),
            };
        }
    }
    RefreshReply {
        status: "triggered",
        message: "Refresh started in background",
        next_allowed_in: None,
    }
}

/// Where a refresh is refused, it is allowed after the number of seconds that
/// the answer gives, and not a whole second earlier, as long as no other
/// refresh comes between. This holds where the last refresh lies in the past
/// and no leap second is involved.
pub proof fn refresh_is_allowed_when_promised(
    last: Timestamp,
    now: Timestamp,
    later: Timestamp,
    seconds: nat,
)
    requires
        is_rate_limited(Some(last), now),
        last.spec_nanos() < 1_000_000_000,
        now.spec_nanos() < 1_000_000_000,
        now.spec_seconds() * 1_000_000_000 + now.spec_nanos() >= last.spec_seconds() * 1_000_000_000
            + last.spec_nanos(),
        later.spec_nanos() == now.spec_nanos(),
        later.spec_seconds() == now.spec_seconds() + seconds,
    ensures
        is_rate_limited(Some(last), later) <==> seconds < 60 - now.seconds_after(last),
{
    seconds_add_up(now, later, last, seconds);
}

// ---------------------------------------------------------------------------
// Comparisons
// ---------------------------------------------------------------------------

/// The release of a network's repository beside the versions that the network
/// runs. They match where both are known and the same.
pub open spec fn comparison(state: AppState, network: Seq<char>, now: Timestamp) -> ComparisonView {
    let release = state.releases().get(state.network_map@[network]);
    let runtime_version = state.runtimes().get(network);
    ComparisonView {
        network,
        repository_version: match release {
            Some(info) => Some(info.version),
            None => None,
        },
        repository_url: match release {
            Some(info) => info.release_notes_url,
            None => None,
        },
        repository_tag: match release {
            Some(info) => Some(info.tag),
            None => None,
        },
        runtime_version,
        client_version: state.clients().get(network),
        matches: release is Some && runtime_version is Some && release->0.version
            == runtime_version->0,
        last_checked: now,
    }
}

/// `list` holds the comparison of every network, in the order of their names.
pub open spec fn lists_comparisons(
    list: Seq<ComparisonResult>,
    state: AppState,
    now: Timestamp,
) -> bool {
    &&& increasing(names(list))
    &&& forall|network: Seq<char>| #[trigger]
        names(list).contains(network) <==> state.network_map@.contains_key(network)
    &&& forall|i: int|
        0 <= i < list.len() ==> (#[trigger] list[i])@ == comparison(
            state,
            list[i].network@,
            now,
        )
}

fn compare(state: &AppState, network: String, repository: &str, now: Timestamp) -> (result:
    ComparisonResult)
    requires
        state.network_map@.contains_key(network@),
        state.network_map@[network@] == repository@,
    ensures
        result.network@ == network@,
        result@ == comparison(*state, network@, now),
{
    let runtime_version = find_text(&state.runtime_versions, network.as_str());
    let client_version = find_text(&state.client_versions, network.as_str());
    let (repository_version, repository_url, repository_tag) = match find_version(
        &state.repos,
        repository,
    ) {
        Some(info) => (Some(info.version), info.release_notes_url, Some(info.tag)),
        None => (None, None, None),
    };
    let matches = match (&repository_version, &runtime_version) {
        (Some(released), Some(running)) => same_text(released.as_str(), running.as_str()),
        _ => false,
    };
    ComparisonResult {
        network,
        repository_version,
        repository_url,
        repository_tag,
        runtime_version,
        client_version,
        matches,
        last_checked: now,
    }
}

/// The comparisons of all networks. In each the versions match exactly where
/// both are known and the same.
pub fn compare_versions(state: &mut AppState, now: Timestamp) -> (list: Vec<ComparisonResult>)
    ensures
        only_tracked(*old(state), *final(state), "/api/compare"@, now),
        old(state).wf() ==> final(state).wf(),
        lists_comparisons(list@, *old(state), now),
        forall|i: int|
            0 <= i < list@.len() ==> {
                let result = #[trigger] list@[i];
                let releases = old(state).releases();
                let repository = old(state).network_map@[result.network@];
                &&& result.matches <==> result.repository_version is Some
                    && result.runtime_version is Some && result.repository_version->0@
                    == result.runtime_version->0@
                &&& result.repository_version is Some <==> releases.contains_key(repository)
                &&& result.repository_version is Some ==> result.repository_version->0@
                    == releases[repository].version
                &&& result.repository_tag is Some <==> releases.contains_key(repository)
                &&& result.repository_tag is Some ==> result.repository_tag->0@
                    == releases[repository].tag
                &&& result.repository_url is Some <==> releases.contains_key(repository)
                    && releases[repository].release_notes_url is Some
                &&& result.repository_url is Some ==> result.repository_url->0@
                    == releases[repository].release_notes_url->0
                &&& result.runtime_version is Some <==> old(state).runtimes().contains_key(
                    result.network@,
                )
                &&& result.runtime_version is Some ==> result.runtime_version->0@
                    == old(state).runtimes()[result.network@]
                &&& result.client_version is Some <==> old(state).clients().contains_key(
                    result.network@,
                )
                &&& result.client_version is Some ==> result.client_version->0@
                    == old(state).clients()[result.network@]
                &&& result.last_checked == now
            },
{
    track_usage(&mut state.usage_stats, "/api/compare", now);
    let keys = state.network_map.keys();
    let ghost views = text_views(keys@);
    let mut list: Vec<ComparisonResult> = Vec::new();
    let mut i: usize = 0;
    assert(names(list@) =~= Seq::<Seq<char>>::empty());
    while i < keys.len()
        invariant
            i <= keys@.len(),
            views == text_views(keys@),
            views.no_duplicates(),
            only_tracked(*old(state), *state, "/api/compare"@, now),
            forall|key: Seq<char>|
                views.contains(key) <==> #[trigger] state.network_map@.contains_key(key),
            increasing(names(list@)),
            forall|network: Seq<char>| #[trigger]
                names(list@).contains(network) <==> views.take(i as int).contains(network),
            forall|j: int|
                0 <= j < list@.len() ==> (#[trigger] list@[j])@ == comparison(
                    *old(state),
                    list@[j].network@,
                    now,
                ),
        decreases keys@.len() - i,
    {
        let ghost before = list@;
        let ghost network = views[i as int];
        assert(views.contains(network));
        proof {
            take_one_more(views, i as int);
        }
        assert(state.network_map@.contains_key(network));
        if let Some(repository) = state.network_map.get(keys[i].as_str()) {
            let result = compare(state, keys[i].clone(), repository.as_str(), now);
            assert(result@ == comparison(*old(state), network, now));
            let ghost item = result;
            let at = insert_in_order(&mut list, result);
            proof {
                names_after_insert(before, item, at as int);
            }
        }
        i = i + 1;
    }
    proof {
        assert(views.take(i as int) =~= views);
        assert forall|network: Seq<char>| #[trigger]
            names(list@).contains(network) <==> old(state).network_map@.contains_key(network) by {
            assert(views.contains(network) <==> state.network_map@.contains_key(network));
        }
    }
    list
}

/// The comparison of one network. The versions match exactly where both are
/// known and the same.
pub fn compare_network(state: &mut AppState, network: String, now: Timestamp) -> (answer: Result<
    ComparisonResult,
    ApiError,
>)
    ensures
        only_tracked(*old(state), *final(state), "/api/compare/{network}"@, now),
        old(state).wf() ==> final(state).wf(),
        match answer {
            Ok(result) => old(state).network_map@.contains_key(network@) && result@ == comparison(
                *old(state),
                network@,
                now,
            ),
            Err(ApiError::NotFound(message)) => !old(state).network_map@.contains_key(network@)
                && message@ == "Network '"@ + network@ + "' not found"@,
            Err(ApiError::Internal(_)) => false,
        },
        answer is Ok ==> answer->Ok_0.network@ == network@,
        answer is Ok ==> {
            let result = answer->Ok_0;
            let releases = old(state).releases();
            let repository = old(state).network_map@[result.network@];
            &&& result.matches <==> result.repository_version is Some
                && result.runtime_version is Some && result.repository_version->0@
                == result.runtime_version->0@
            &&& result.repository_version is Some <==> releases.contains_key(repository)
            &&& result.repository_version is Some ==> result.repository_version->0@
                == releases[repository].version
            &&& result.repository_tag is Some <==> releases.contains_key(repository)
            &&& result.repository_tag is Some ==> result.repository_tag->0@
                == releases[repository].tag
            &&& result.repository_url is Some <==> releases.contains_key(repository)
                && releases[repository].release_notes_url is Some
            &&& result.repository_url is Some ==> result.repository_url->0@
                == releases[repository].release_notes_url->0
            &&& result.runtime_version is Some <==> old(state).runtimes().contains_key(
                result.network@,
            )
            &&& result.runtime_version is Some ==> result.runtime_version->0@
                == old(state).runtimes()[result.network@]
            &&& result.client_version is Some <==> old(state).clients().contains_key(
                result.network@,
            )
            &&& result.client_version is Some ==> result.client_version->0@
                == old(state).clients()[result.network@]
            &&& result.last_checked == now
        },
{
    track_usage(&mut state.usage_stats, "/api/compare/{network}", now);
    match state.network_map.get(network.as_str()) {
        Some(repository) => Ok(compare(state, network, repository.as_str(), now)),
        None => Err(ApiError::NotFound(join("Network '", network.as_str(), "' not found"))),
    }
}

// ---------------------------------------------------------------------------
// Members
// ---------------------------------------------------------------------------

/// What is known of a member.
pub open spec fn member_services(state: AppState, provider: Seq<char>) -> MemberServicesView {
    MemberServicesView { provider, services: state.members()[provider] }
}

/// `list` holds what is known of every member, in the order of their names.
pub open spec fn lists_members(list: Seq<MemberServices>, state: AppState) -> bool {
    &&& increasing(names(list))
    &&& forall|provider: Seq<char>| #[trigger]
        names(list).contains(provider) <==> state.members().contains_key(provider)
    &&& forall|i: int|
        0 <= i < list.len() ==> (#[trigger] list[i])@ == member_services(
            state,
            list[i].provider@,
        )
}

/// The services of all members.
pub fn list_members(state: &mut AppState, now: Timestamp) -> (list: Vec<MemberServices>)
    ensures
        only_tracked(*old(state), *final(state), "/api/members"@, now),
        old(state).wf() ==> final(state).wf(),
        lists_members(list@, *old(state)),
        forall|i: int|
            0 <= i < list@.len() ==> old(state).members().contains_pair(
                (#[trigger] list@[i]).provider@,
                service_views(list@[i].services@),
            ),
{
    track_usage(&mut state.usage_stats, "/api/members", now);
    let mut pairs = all_members(&state.member_info);
    let ghost views = member_pairs(pairs@);
    let ghost keys = Seq::new(views.len(), |i: int| views[i].0);
    let mut list: Vec<MemberServices> = Vec::new();
    assert(names(list@) =~= Seq::<Seq<char>>::empty());
    assert forall|a: int, b: int|
        0 <= a < keys.len() && 0 <= b < keys.len() && a != b implies keys[a] != keys[b] by {
        assert(views[a].0 != views[b].0);
    }
    let ghost mut taken: int = 0;
    while pairs.len() > 0
        invariant
            0 <= taken <= views.len(),
            member_pairs(pairs@) == views.skip(taken),
            keys == Seq::new(views.len(), |i: int| views[i].0),
            keys.no_duplicates(),
            lists_entries(views, old(state).members()),
            only_tracked(*old(state), *state, "/api/members"@, now),
            increasing(names(list@)),
            forall|provider: Seq<char>| #[trigger]
                names(list@).contains(provider) <==> keys.take(taken).contains(provider),
            forall|j: int|
                0 <= j < list@.len() ==> (#[trigger] list@[j])@ == member_services(
                    *old(state),
                    list@[j].provider@,
                ),
        decreases pairs@.len(),
    {
        let ghost before = list@;
        let ghost remaining = pairs@;
        proof {
            assert(member_pairs(pairs@).len() == pairs@.len());
            assert(views.skip(taken)[0] == views[taken]);
            take_one_more(keys, taken);
            assert(old(state).members().contains_key(views[taken].0));
        }
        let (provider, services) = pairs.remove(0);
        let member = MemberServices { provider, services };
        assert(member@ == member_services(*old(state), keys[taken]));
        let ghost item = member;
        let at = insert_in_order(&mut list, member);
        proof {
            names_after_insert(before, item, at as int);
            assert(member_pairs(pairs@) =~= member_pairs(remaining).skip(1));
            assert(views.skip(taken).skip(1) =~= views.skip(taken + 1));
            taken = taken + 1;
        }
    }
    proof {
        assert(views.skip(taken).len() == 0);
        assert(keys.take(taken) =~= keys);
        assert forall|provider: Seq<char>| #[trigger]
            names(list@).contains(provider) <==> old(state).members().contains_key(provider) by {
            if keys.contains(provider) {
                let i = choose|i: int| 0 <= i < keys.len() && keys[i] == provider;
                assert(old(state).members().contains_key(views[i].0));
            }
            if old(state).members().contains_key(provider) {
                let i = choose|i: int| 0 <= i < views.len() && (#[trigger] views[i]).0 == provider;
                assert(keys[i] == provider);
            }
        }
        listed_members_have_their_services(list@, *old(state));
    }
    list
}

/// The services of one member.
pub fn get_member(state: &mut AppState, member_id: String, now: Timestamp) -> (answer: Result<
    MemberServices,
    ApiError,
>)
    ensures
        only_tracked(*old(state), *final(state), "/api/members/{provider}"@, now),
        old(state).wf() ==> final(state).wf(),
        match answer {
            Ok(member) => old(state).members().contains_key(member_id@) && member@
                == member_services(*old(state), member_id@),
            Err(ApiError::NotFound(message)) => !old(state).members().contains_key(member_id@)
                && message@ == "Member '"@ + member_id@ + "' not found"@,
            Err(ApiError::Internal(_)) => false,
        },
        answer is Ok ==> answer->Ok_0.provider@ == member_id@ && old(state).members().contains_pair(
            member_id@,
            service_views(answer->Ok_0.services@),
        ),
{
    track_usage(&mut state.usage_stats, "/api/members/{provider}", now);
    match find_member(&state.member_info, member_id.as_str()) {
        Some(services) => Ok(MemberServices { provider: member_id, services }),
        None => Err(ApiError::NotFound(join("Member '", member_id.as_str(), "' not found"))),
    }
}

// ---------------------------------------------------------------------------
// Figures
// ---------------------------------------------------------------------------

/// How often each endpoint was called, this call included, in no given order.
pub fn get_usage_stats(state: &mut AppState, now: Timestamp) -> (list: Vec<(String, u64)>)
    ensures
        only_tracked(*old(state), *final(state), "/api/stats"@, now),
        old(state).wf() ==> final(state).wf(),
        lists_entries(count_pairs(list@), final(state).usage_stats.calls()),
        final(state).usage_stats.calls().contains_key("/api/stats"@),
{
    track_usage(&mut state.usage_stats, "/api/stats", now);
    all_counts(&state.usage_stats.api_calls)
}

/// How the services of all members are doing. The unreachable services and
/// those whose versions are both known are all services.
pub fn get_health_stats(state: &mut AppState, now: Timestamp) -> (stats: HealthStats)
    ensures
        only_tracked(*old(state), *final(state), "/api/health"@, now),
        old(state).wf() ==> final(state).wf(),
        ({
            let members = old(state).members();
            let critical = old(state).config.cert_critical_days;
            let warning = old(state).config.cert_warning_days;
            &&& members.dom().finite()
            &&& service_places(members, any_service()).finite()
            &&& stats.total_members == members.len()
            &&& stats.total_services == services_with(members, any_service())
            &&& stats.cert_warnings == services_with(members, cert_warning(critical, warning))
            &&& stats.cert_critical == services_with(members, cert_critical(critical))
            &&& stats.cert_expired == services_with(members, cert_expired())
            &&& forall|ms: u64| #[trigger]
                stats.latencies@.to_multiset().count(ms) == services_with(members, latency_is(ms))
            &&& stats.slow_services == services_with(members, slow())
            &&& stats.unreachable_services == services_with(members, unreachable_service())
        }),
        ({
            let members = old(state).members();
            let critical = old(state).config.cert_critical_days;
            let warning = old(state).config.cert_warning_days;
            &&& service_places(members, |service: MemberInfoView| true).finite()
            &&& stats.total_services == services_with(members, |service: MemberInfoView| true)
            &&& stats.unreachable_services + services_with(
                members,
                |service: MemberInfoView|
                    service.runtime_version is Some && service.client_version is Some,
            ) == stats.total_services
            &&& stats.slow_services + services_with(
                members,
                |service: MemberInfoView|
                    service.latency_ms is None || service.latency_ms->0 <= 1000,
            ) == stats.total_services
            &&& stats.cert_expired + services_with(
                members,
                |service: MemberInfoView|
                    service.cert_days_left is None || service.cert_days_left->0 >= 0,
            ) == stats.total_services
            &&& stats.cert_critical + services_with(
                members,
                |service: MemberInfoView|
                    service.cert_days_left is None || service.cert_days_left->0 < 0
                        || service.cert_days_left->0 >= critical,
            ) == stats.total_services
            &&& stats.cert_expired + stats.cert_critical + stats.cert_warnings + services_with(
                members,
                |service: MemberInfoView|
                    service.cert_days_left is None || (service.cert_days_left->0 >= 0
                        && service.cert_days_left->0 >= critical && service.cert_days_left->0
                        >= warning),
            ) == stats.total_services
        }),
{
    track_usage(&mut state.usage_stats, "/api/health", now);
    let pairs = all_members(&state.member_info);
    let services = join_services(&pairs);
    let stats = figures(
        member_count(&state.member_info),
        &services,
        state.config.cert_critical_days,
        state.config.cert_warning_days,
    );
    proof {
        let members = old(state).members();
        let critical = state.config.cert_critical_days;
        let warning = state.config.cert_warning_days;
        let views = member_pairs(pairs@);
        listed_members_are_counted(views, members);
        tally_does_not_depend_on_order(views, members, any_service());
        tally_does_not_depend_on_order(views, members, cert_warning(critical, warning));
        tally_does_not_depend_on_order(views, members, cert_critical(critical));
        tally_does_not_depend_on_order(views, members, cert_expired());
        tally_does_not_depend_on_order(views, members, slow());
        tally_does_not_depend_on_order(views, members, unreachable_service());
        tally_does_not_depend_on_order(views, members, |service: MemberInfoView| true);
        fast_services_are_the_rest(members, 0);
        reachable_services_are_the_rest(members);
        certificates_are_of_five_kinds(members, critical, warning);
        assert forall|ms: u64| #[trigger]
            stats.latencies@.to_multiset().count(ms) == services_with(members, latency_is(ms)) by {
            latencies_are_counted(service_views(services@), ms);
            tally_does_not_depend_on_order(views, members, latency_is(ms));
        }
    }
    stats
}

// ---------------------------------------------------------------------------
// What holds of the answers together
// ---------------------------------------------------------------------------

/// Counting a call keeps a well-formed state well-formed.
pub proof fn tracking_keeps_wf(
    before: AppState,
    after: AppState,
    endpoint: Seq<char>,
    now: Timestamp,
)
    requires
        before.wf(),
        only_tracked(before, after, endpoint, now),
    ensures
        after.wf(),
{
    assert(after.failures() == before.failures());
}

/// Every listed network is found as a request for that network alone finds
/// it, and there is one list only.
pub proof fn network_list_agrees_with_single_answers(
    list: Seq<NetworkInfo>,
    other: Seq<NetworkInfo>,
    state: AppState,
    include_empty: bool,
    network: Seq<char>,
)
    requires
        lists_networks(list, state, include_empty),
        lists_networks(other, state, include_empty),
    ensures
        is_listed(state, network, include_empty) <==> exists|i: int|
            0 <= i < list.len() && (#[trigger] list[i])@ == network_info(state, network),
        list.map_values(|info: NetworkInfo| info@) == other.map_values(|info: NetworkInfo| info@),
{
    increasing_order_is_unique(names(list), names(other));
    assert(names(list).len() == list.len() && names(other).len() == other.len());
    assert forall|i: int| 0 <= i < list.len() implies (#[trigger] list[i])@ == other[i]@ by {
        assert(names(list)[i] == names(other)[i]);
    }
    assert(list.map_values(|info: NetworkInfo| info@) =~= other.map_values(
        |info: NetworkInfo| info@,
    ));
    assert(names(list).contains(network) <==> is_listed(state, network, include_empty));
    if names(list).contains(network) {
        let i = choose|i: int| 0 <= i < list.len() && names(list)[i] == network;
        assert(list[i]@ == network_info(state, network));
    }
    if exists|i: int| 0 <= i < list.len() && (#[trigger] list[i])@ == network_info(state, network) {
        let i = choose|i: int|
            0 <= i < list.len() && (#[trigger] list[i])@ == network_info(state, network);
        assert(names(list)[i] == network);
    }
}

/// Every listed comparison is the one that a request for that network alone
/// gives, and there is one list only.
pub proof fn comparison_list_agrees_with_single_answers(
    list: Seq<ComparisonResult>,
    other: Seq<ComparisonResult>,
    state: AppState,
    now: Timestamp,
    network: Seq<char>,
)
    requires
        lists_comparisons(list, state, now),
        lists_comparisons(other, state, now),
    ensures
        state.network_map@.contains_key(network) <==> exists|i: int|
            0 <= i < list.len() && (#[trigger] list[i])@ == comparison(state, network, now),
        list.map_values(|result: ComparisonResult| result@) == other.map_values(
            |result: ComparisonResult| result@,
        ),
{
    increasing_order_is_unique(names(list), names(other));
    assert(names(list).len() == list.len() && names(other).len() == other.len());
    assert forall|i: int| 0 <= i < list.len() implies (#[trigger] list[i])@ == other[i]@ by {
        assert(names(list)[i] == names(other)[i]);
    }
    assert(list.map_values(|result: ComparisonResult| result@) =~= other.map_values(
        |result: ComparisonResult| result@,
    ));
    assert(names(list).contains(network) <==> state.network_map@.contains_key(network));
    if names(list).contains(network) {
        let i = choose|i: int| 0 <= i < list.len() && names(list)[i] == network;
        assert(list[i]@ == comparison(state, network, now));
    }
    if exists|i: int|
        0 <= i < list.len() && (#[trigger] list[i])@ == comparison(state, network, now) {
        let i = choose|i: int|
            0 <= i < list.len() && (#[trigger] list[i])@ == comparison(state, network, now);
        assert(names(list)[i] == network);
    }
}

/// Every listed member is found as a request for that member alone finds it,
/// and there is one list only.
pub proof fn member_list_agrees_with_single_answers(
    list: Seq<MemberServices>,
    other: Seq<MemberServices>,
    state: AppState,
    provider: Seq<char>,
)
    requires
        lists_members(list, state),
        lists_members(other, state),
    ensures
        state.members().contains_key(provider) <==> exists|i: int|
            0 <= i < list.len() && (#[trigger] list[i])@ == member_services(state, provider),
        list.map_values(|member: MemberServices| member@) == other.map_values(
            |member: MemberServices| member@,
        ),
{
    increasing_order_is_unique(names(list), names(other));
    assert(names(list).len() == list.len() && names(other).len() == other.len());
    assert forall|i: int| 0 <= i < list.len() implies (#[trigger] list[i])@ == other[i]@ by {
        assert(names(list)[i] == names(other)[i]);
    }
    assert(list.map_values(|member: MemberServices| member@) =~= other.map_values(
        |member: MemberServices| member@,
    ));
    assert(names(list).contains(provider) <==> state.members().contains_key(provider));
    if names(list).contains(provider) {
        let i = choose|i: int| 0 <= i < list.len() && names(list)[i] == provider;
        assert(list[i]@ == member_services(state, provider));
    }
    if exists|i: int|
        0 <= i < list.len() && (#[trigger] list[i])@ == member_services(state, provider) {
        let i = choose|i: int|
            0 <= i < list.len() && (#[trigger] list[i])@ == member_services(state, provider);
        assert(names(list)[i] == provider);
    }
}

/// Every network in a list has the repository that serves it and that
/// repository's latest release, if one is known. All networks with a known
/// release are listed, and those without one exactly where they are asked for;
/// each name stands before the next.
pub proof fn listed_networks_have_their_releases(
    list: Seq<NetworkInfo>,
    state: AppState,
    include_empty: bool,
)
    requires
        lists_networks(list, state, include_empty),
    ensures
        forall|i: int|
            0 <= i < list.len() ==> {
                let info = #[trigger] list[i];
                &&& state.network_map@.contains_pair(info.network@, info.repository@)
                &&& info.version_info is Some <==> state.releases().contains_key(info.repository@)
                &&& info.version_info is Some ==> info.version_info->0@
                    == state.releases()[info.repository@]
                &&& include_empty || info.version_info is Some
            },
        forall|network: Seq<char>| #[trigger]
            state.network_map@.contains_key(network) && (include_empty
                || state.releases().contains_key(state.network_map@[network])) ==> exists|i: int|
                0 <= i < list.len() && (#[trigger] list[i]).network@ == network,
        forall|i: int, j: int|
            0 <= i < j < list.len() ==> text_less(
                (#[trigger] list[i]).network@,
                (#[trigger] list[j]).network@,
            ),
{
    assert forall|i: int| 0 <= i < list.len() implies ({
        let info = #[trigger] list[i];
        &&& state.network_map@.contains_pair(info.network@, info.repository@)
        &&& info.version_info is Some <==> state.releases().contains_key(info.repository@)
        &&& info.version_info is Some ==> info.version_info->0@
            == state.releases()[info.repository@]
        &&& include_empty || info.version_info is Some
    }) by {
        let info = list[i];
        assert(names(list)[i] == info.network@);
        assert(names(list).contains(info.network@));
        assert(is_listed(state, info.network@, include_empty));
        assert(info@ == network_info(state, info.network@));
        assert(info@.repository == info.repository@);
    }
    assert forall|network: Seq<char>| #[trigger]
        state.network_map@.contains_key(network) && (include_empty
            || state.releases().contains_key(state.network_map@[network])) implies exists|i: int|
        0 <= i < list.len() && (#[trigger] list[i]).network@ == network by {
        assert(is_listed(state, network, include_empty));
        assert(names(list).contains(network));
        let i = choose|i: int| 0 <= i < names(list).len() && names(list)[i] == network;
        assert(list[i].network@ == network);
    }
    assert forall|i: int, j: int| 0 <= i < j < list.len() implies text_less(
        (#[trigger] list[i]).network@,
        (#[trigger] list[j]).network@,
    ) by {
        assert(text_less(names(list)[i], names(list)[j]));
    }
}

/// In every comparison the versions match exactly where the release's version
/// and the runtime version are both known and the same; in particular they do
/// not match where no runtime version is known. What is shown of the release is
/// that of the network's own repository, and what is shown of the network is
/// its own.
pub proof fn versions_match_where_known_and_same(
    state: AppState,
    network: Seq<char>,
    now: Timestamp,
)
    ensures
        ({
            let result = comparison(state, network, now);
            let repository = state.network_map@[network];
            &&& result.network == network
            &&& result.last_checked == now
            &&& result.matches <==> result.repository_version is Some && result.runtime_version is Some
                && result.repository_version->0 == result.runtime_version->0
            &&& !state.runtimes().contains_key(network) ==> !result.matches
            &&& state.releases().contains_key(repository) ==> {
                &&& result.repository_version == Some(state.releases()[repository].version)
                &&& result.repository_tag == Some(state.releases()[repository].tag)
                &&& result.repository_url == state.releases()[repository].release_notes_url
            }
            &&& !state.releases().contains_key(repository) ==> {
                &&& result.repository_version is None
                &&& result.repository_tag is None
                &&& result.repository_url is None
            }
            &&& state.runtimes().contains_key(network) ==> result.runtime_version == Some(
                state.runtimes()[network],
            )
            &&& !state.runtimes().contains_key(network) ==> result.runtime_version is None
            &&& state.clients().contains_key(network) ==> result.client_version == Some(
                state.clients()[network],
            )
            &&& !state.clients().contains_key(network) ==> result.client_version is None
        }),
{
}

/// Every network is compared, none twice, and each name stands before the
/// next.
pub proof fn every_network_is_compared(
    list: Seq<ComparisonResult>,
    state: AppState,
    now: Timestamp,
)
    requires
        lists_comparisons(list, state, now),
    ensures
        forall|i: int|
            0 <= i < list.len() ==> {
                let result = #[trigger] list[i];
                &&& state.network_map@.contains_key(result.network@)
                &&& result.matches <==> result.repository_version is Some
                    && result.runtime_version is Some && result.repository_version->0@
                    == result.runtime_version->0@
            },
        forall|network: Seq<char>| #[trigger]
            state.network_map@.contains_key(network) ==> exists|i: int|
                0 <= i < list.len() && (#[trigger] list[i]).network@ == network,
        forall|i: int, j: int|
            0 <= i < j < list.len() ==> text_less(
                (#[trigger] list[i]).network@,
                (#[trigger] list[j]).network@,
            ),
{
    assert forall|i: int| 0 <= i < list.len() implies ({
        let result = #[trigger] list[i];
        &&& state.network_map@.contains_key(result.network@)
        &&& result.matches <==> result.repository_version is Some && result.runtime_version is Some
            && result.repository_version->0@ == result.runtime_version->0@
    }) by {
        let result = list[i];
        assert(names(list)[i] == result.network@);
        assert(names(list).contains(result.network@));
        assert(result@ == comparison(state, result.network@, now));
        assert(result@.matches == result.matches);
        assert(result@.repository_version == text_view(result.repository_version));
        assert(result@.runtime_version == text_view(result.runtime_version));
    }
    assert forall|network: Seq<char>| #[trigger]
        state.network_map@.contains_key(network) implies exists|i: int|
        0 <= i < list.len() && (#[trigger] list[i]).network@ == network by {
        assert(names(list).contains(network));
        let i = choose|i: int| 0 <= i < names(list).len() && names(list)[i] == network;
        assert(list[i].network@ == network);
    }
    assert forall|i: int, j: int| 0 <= i < j < list.len() implies text_less(
        (#[trigger] list[i]).network@,
        (#[trigger] list[j]).network@,
    ) by {
        assert(text_less(names(list)[i], names(list)[j]));
    }
}

/// Every member is listed once with all services that are known of it, and
/// each name stands before the next.
pub proof fn listed_members_have_their_services(list: Seq<MemberServices>, state: AppState)
    requires
        lists_members(list, state),
    ensures
        forall|i: int|
            0 <= i < list.len() ==> state.members().contains_pair(
                (#[trigger] list[i]).provider@,
                service_views(list[i].services@),
            ),
        forall|provider: Seq<char>| #[trigger]
            state.members().contains_key(provider) ==> exists|i: int|
                0 <= i < list.len() && (#[trigger] list[i]).provider@ == provider,
        forall|i: int, j: int|
            0 <= i < j < list.len() ==> text_less(
                (#[trigger] list[i]).provider@,
                (#[trigger] list[j]).provider@,
            ),
{
    assert forall|i: int| 0 <= i < list.len() implies state.members().contains_pair(
        (#[trigger] list[i]).provider@,
        service_views(list[i].services@),
    ) by {
        let member = list[i];
        assert(names(list)[i] == member.provider@);
        assert(names(list).contains(member.provider@));
        assert(member@ == member_services(state, member.provider@));
        assert(member@.services == service_views(member.services@));
    }
    assert forall|provider: Seq<char>| #[trigger]
        state.members().contains_key(provider) implies exists|i: int|
        0 <= i < list.len() && (#[trigger] list[i]).provider@ == provider by {
        assert(names(list).contains(provider));
        let i = choose|i: int| 0 <= i < names(list).len() && names(list)[i] == provider;
        assert(list[i].provider@ == provider);
    }
    assert forall|i: int, j: int| 0 <= i < j < list.len() implies text_less(
        (#[trigger] list[i]).provider@,
        (#[trigger] list[j]).provider@,
    ) by {
        assert(text_less(names(list)[i], names(list)[j]));
    }
}

/// The monitor is healthy exactly without failures, and degraded exactly where
/// more than half of the watched repositories have failed; in between it is
/// partial.
pub proof fn status_follows_the_failures(failed: nat)
    ensures
        failed == 0 ==> status_text(failed) == "healthy"@,
        2 * failed > watched().len() ==> status_text(failed) == "degraded"@,
        failed > 0 && 2 * failed <= watched().len() ==> status_text(failed) == "partial"@,
{
}

/// A refresh is refused exactly where the last one is less than a minute ago.
pub proof fn refused_within_a_minute(last: Timestamp, now: Timestamp)
    ensures
        is_rate_limited(Some(last), now) <==> now.seconds_after(last) < 60,
        !is_rate_limited(None, now),
{
}

} // verus!
