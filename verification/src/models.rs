//! The data that the monitor collects and answers with.

use crate::order::Named;
use crate::table::Table;
use crate::text::text_view;
use crate::time::Timestamp;
use vstd::prelude::*;

verus! {

/// Copies an optional string.
pub fn copy_text(text: &Option<String>) -> (copy: Option<String>)
    ensures
        copy == *text,
{
    match text {
        Some(t) => Some(t.clone()),
        None => None,
    }
}

// ---------------------------------------------------------------------------
// Repositories
// ---------------------------------------------------------------------------

/// The latest release of a repository.
#[derive(Debug)]
pub struct VersionInfo {
    pub version: String,
    pub tag: String,
    pub published_at: Timestamp,
    pub release_notes_url: Option<String>,
    pub last_checked: Timestamp,
}

/// What a [`VersionInfo`] stands for.
pub struct VersionInfoView {
    pub version: Seq<char>,
    pub tag: Seq<char>,
    pub published_at: Timestamp,
    pub release_notes_url: Option<Seq<char>>,
    pub last_checked: Timestamp,
}

impl View for VersionInfo {
    type V = VersionInfoView;

    open spec fn view(&self) -> VersionInfoView {
        VersionInfoView {
            version: self.version@,
            tag: self.tag@,
            published_at: self.published_at,
            release_notes_url: text_view(self.release_notes_url),
            last_checked: self.last_checked,
        }
    }
}

impl Clone for VersionInfo {
    fn clone(&self) -> (copy: Self)
        ensures
            copy == *self,
    {
        VersionInfo {
            version: self.version.clone(),
            tag: self.tag.clone(),
            published_at: self.published_at,
            release_notes_url: copy_text(&self.release_notes_url),
            last_checked: self.last_checked,
        }
    }
}

/// What an optional [`VersionInfo`] stands for.
pub open spec fn info_view(info: Option<VersionInfo>) -> Option<VersionInfoView> {
    match info {
        Some(i) => Some(i@),
        None => None,
    }
}

/// A network, the repository that serves it, and the repository's latest
/// release where one is known.
#[derive(Debug, Clone)]
pub struct NetworkInfo {
    pub network: String,
    pub repository: String,
    pub version_info: Option<VersionInfo>,
}

/// What a [`NetworkInfo`] stands for.
pub struct NetworkInfoView {
    pub network: Seq<char>,
    pub repository: Seq<char>,
    pub version_info: Option<VersionInfoView>,
}

impl View for NetworkInfo {
    type V = NetworkInfoView;

    open spec fn view(&self) -> NetworkInfoView {
        NetworkInfoView {
            network: self.network@,
            repository: self.repository@,
            version_info: info_view(self.version_info),
        }
    }
}

impl Named for NetworkInfo {
    open spec fn spec_name(&self) -> Seq<char> {
        self.network@
    }

    fn name(&self) -> (name: &str) {
        self.network.as_str()
    }
}

/// The latest release of a network's repository beside the versions that the
/// network runs.
#[derive(Debug, Clone)]
pub struct ComparisonResult {
    pub network: String,
    pub repository_version: Option<String>,
    pub repository_url: Option<String>,
    pub repository_tag: Option<String>,
    pub runtime_version: Option<String>,
    pub client_version: Option<String>,
    pub matches: bool,
    pub last_checked: Timestamp,
}

/// What a [`ComparisonResult`] stands for.
pub struct ComparisonView {
    pub network: Seq<char>,
    pub repository_version: Option<Seq<char>>,
    pub repository_url: Option<Seq<char>>,
    pub repository_tag: Option<Seq<char>>,
    pub runtime_version: Option<Seq<char>>,
    pub client_version: Option<Seq<char>>,
    pub matches: bool,
    pub last_checked: Timestamp,
}

impl View for ComparisonResult {
    type V = ComparisonView;

    open spec fn view(&self) -> ComparisonView {
        ComparisonView {
            network: self.network@,
            repository_version: text_view(self.repository_version),
            repository_url: text_view(self.repository_url),
            repository_tag: text_view(self.repository_tag),
            runtime_version: text_view(self.runtime_version),
            client_version: text_view(self.client_version),
            matches: self.matches,
            last_checked: self.last_checked,
        }
    }
}

impl Named for ComparisonResult {
    open spec fn spec_name(&self) -> Seq<char> {
        self.network@
    }

    fn name(&self) -> (name: &str) {
        self.network.as_str()
    }
}

// ---------------------------------------------------------------------------
// Members
// ---------------------------------------------------------------------------

/// How a member's service for one network is doing.
#[derive(Debug)]
pub struct MemberInfo {
    pub network: String,
    pub ip: String,
    pub runtime_version: Option<String>,
    pub client_version: Option<String>,
    pub last_checked: Timestamp,
    pub cert_expires: Option<Timestamp>,
    pub cert_days_left: Option<i64>,
    pub latency_ms: Option<u64>,
    pub response_time_ms: Option<u64>,
}

/// What a [`MemberInfo`] stands for.
pub struct MemberInfoView {
    pub network: Seq<char>,
    pub ip: Seq<char>,
    pub runtime_version: Option<Seq<char>>,
    pub client_version: Option<Seq<char>>,
    pub last_checked: Timestamp,
    pub cert_expires: Option<Timestamp>,
    pub cert_days_left: Option<i64>,
    pub latency_ms: Option<u64>,
    pub response_time_ms: Option<u64>,
}

impl View for MemberInfo {
    type V = MemberInfoView;

    open spec fn view(&self) -> MemberInfoView {
        MemberInfoView {
            network: self.network@,
            ip: self.ip@,
            runtime_version: text_view(self.runtime_version),
            client_version: text_view(self.client_version),
            last_checked: self.last_checked,
            cert_expires: self.cert_expires,
            cert_days_left: self.cert_days_left,
            latency_ms: self.latency_ms,
            response_time_ms: self.response_time_ms,
        }
    }
}

impl Clone for MemberInfo {
    fn clone(&self) -> (copy: Self)
        ensures
            copy == *self,
    {
        MemberInfo {
            network: self.network.clone(),
            ip: self.ip.clone(),
            runtime_version: copy_text(&self.runtime_version),
            client_version: copy_text(&self.client_version),
            last_checked: self.last_checked,
            cert_expires: self.cert_expires,
            cert_days_left: self.cert_days_left,
            latency_ms: self.latency_ms,
            response_time_ms: self.response_time_ms,
        }
    }
}

/// What a list of services stands for.
pub open spec fn service_views(services: Seq<MemberInfo>) -> Seq<MemberInfoView> {
    services.map_values(|service: MemberInfo| service@)
}

/// A member and its services.
#[derive(Debug, Clone)]
pub struct MemberServices {
    pub provider: String,
    pub services: Vec<MemberInfo>,
}

/// What a [`MemberServices`] stands for.
pub struct MemberServicesView {
    pub provider: Seq<char>,
    pub services: Seq<MemberInfoView>,
}

impl View for MemberServices {
    type V = MemberServicesView;

    open spec fn view(&self) -> MemberServicesView {
        MemberServicesView {
            provider: self.provider@,
            services: service_views(self.services@),
        }
    }
}

impl Named for MemberServices {
    open spec fn spec_name(&self) -> Seq<char> {
        self.provider@
    }

    fn name(&self) -> (name: &str) {
        self.provider.as_str()
    }
}

/// A change of the versions that a member runs.
#[derive(Debug, Clone)]
pub struct VersionChange {
    pub timestamp: Timestamp,
    pub member: String,
    pub network: String,
    pub old_version: Option<String>,
    pub new_version: Option<String>,
    /// `client`, `runtime` or `both`.
    pub change_type: String,
}

// ---------------------------------------------------------------------------
// Health
// ---------------------------------------------------------------------------

/// How the updates of the watched repositories are doing.
#[derive(Debug, Clone)]
pub struct HealthStatus {
    /// `healthy`, `partial` or `degraded`.
    pub status: &'static str,
    pub last_refresh: Option<Timestamp>,
    pub total_repos: usize,
    pub successful_updates: usize,
    /// The keys of the repositories whose last update failed.
    pub failed_updates: Vec<String>,
    pub uptime_seconds: u64,
}

/// What a request for a list asks for.
#[derive(Debug, Clone, Copy)]
pub struct ListQuery {
    /// Whether networks without a known release are listed too.
    pub include_empty: bool,
}

/// How the services of all members are doing.
#[derive(Debug)]
pub struct HealthStats {
    pub total_members: usize,
    pub total_services: usize,
    pub cert_warnings: usize,
    pub cert_critical: usize,
    pub cert_expired: usize,
    /// The latencies that were measured, in milliseconds, in no given order.
    pub latencies: Vec<u64>,
    pub slow_services: usize,
    pub unreachable_services: usize,
}

// ---------------------------------------------------------------------------
// The configuration of the IBP network
// ---------------------------------------------------------------------------

/// The configuration of one network.
#[derive(Debug, Clone)]
pub struct IbpNetworkConfig {
    pub configuration: IbpConfiguration,
    pub providers: Table<IbpProvider>,
}

/// Whether a network is active, and what it is called.
#[derive(Debug, Clone)]
pub struct IbpConfiguration {
    pub name: String,
    pub network_type: String,
    pub active: u8,
}

/// The nodes of one provider.
#[derive(Debug, Clone)]
pub struct IbpProvider {
    pub rpc_urls: Vec<String>,
    pub ips: Vec<String>,
}

/// A member of the IBP network.
#[derive(Debug, Clone)]
pub struct IbpMember {
    pub details: IbpMemberDetails,
    pub membership: IbpMemberMembership,
    pub service: IbpMemberService,
    /// The networks that the member serves, by the kind of service.
    pub service_assignments: Table<Vec<String>>,
    pub location: IbpMemberLocation,
}

/// Who a member is.
#[derive(Debug, Clone)]
pub struct IbpMemberDetails {
    pub name: String,
    pub website: String,
    pub twitter: String,
    pub element: String,
    pub logo: String,
}

/// Since when a member takes part, and at what level.
#[derive(Debug, Clone)]
pub struct IbpMemberMembership {
    pub member_level: u8,
    pub joined: u64,
    pub last_rankup: u64,
}

/// Where a member's services are reached.
#[derive(Debug, Clone)]
pub struct IbpMemberService {
    pub active: u8,
    pub service_ipv4: String,
    pub service_ipv6: String,
    pub monitor_url: String,
    pub prometheus_endpoint: Option<String>,
}

/// Where a member is.
#[derive(Debug, Clone)]
pub struct IbpMemberLocation {
    pub region: String,
}

// ---------------------------------------------------------------------------
// Errors
// ---------------------------------------------------------------------------

/// The error type of `anyhow`, whose contents stay with that crate.
#[verifier::external_type_specification]
#[verifier::external_body]
pub struct ExAnyhowError(anyhow::Error);

/// Why a request has no answer.
#[derive(Debug)]
pub enum ApiError {
    /// What was asked for is not there.
    NotFound(String),
    /// Something else failed.
    Internal(anyhow::Error),
}

/// The answer to a request that failed.
#[derive(Debug)]
pub struct ErrorReply {
    /// The status code of HTTP.
    pub status: u16,
    pub message: String,
}

impl ApiError {
    /// The answer: the status 404 with the message, or the status 500 without
    /// any detail.
    pub fn into_response(self) -> (reply: ErrorReply)
        ensures
            match self {
                ApiError::NotFound(message) => reply.status == 404 && reply.message@ == message@,
                ApiError::Internal(_) => reply.status == 500 && reply.message@
                    == "Internal server error"@,
            },
    {
        match self {
            ApiError::NotFound(message) => ErrorReply { status: 404, message },
            ApiError::Internal(_) => ErrorReply {
                status: 500,
                message: "Internal server error".to_string(),
            },
        }
    }
}

impl From<anyhow::Error> for ApiError {
    fn from(err: anyhow::Error) -> (error: Self) {
        ApiError::Internal(err)
    }
}

impl vstd::std_specs::convert::FromSpecImpl<anyhow::Error> for ApiError {
    open spec fn obeys_from_spec() -> bool {
        true
    }

    open spec fn from_spec(err: anyhow::Error) -> Self {
        ApiError::Internal(err)
    }
}

// ---------------------------------------------------------------------------
// What the data stand for
// ---------------------------------------------------------------------------

/// A release stands for its own fields.
pub proof fn releases_stand_for_their_fields(info: VersionInfo)
    ensures
        info@.version == info.version@,
        info@.tag == info.tag@,
        info@.published_at == info.published_at,
        info@.last_checked == info.last_checked,
        info@.release_notes_url is Some <==> info.release_notes_url is Some,
        info@.release_notes_url is Some ==> info@.release_notes_url->0 == info.release_notes_url->0@,
{
}

/// A network stands for its own fields.
pub proof fn networks_stand_for_their_fields(info: NetworkInfo)
    ensures
        info@.network == info.network@,
        info@.repository == info.repository@,
        info.spec_name() == info.network@,
        info@.version_info is Some <==> info.version_info is Some,
        info@.version_info is Some ==> info@.version_info->0 == info.version_info->0@,
{
}

/// A comparison stands for its own fields.
pub proof fn comparisons_stand_for_their_fields(result: ComparisonResult)
    ensures
        result@.network == result.network@,
        result@.matches == result.matches,
        result@.last_checked == result.last_checked,
        result.spec_name() == result.network@,
        result@.repository_version is Some <==> result.repository_version is Some,
        result@.repository_version is Some ==> result@.repository_version->0 == result.repository_version->0@,
        result@.repository_url is Some <==> result.repository_url is Some,
        result@.repository_url is Some ==> result@.repository_url->0 == result.repository_url->0@,
        result@.repository_tag is Some <==> result.repository_tag is Some,
        result@.repository_tag is Some ==> result@.repository_tag->0 == result.repository_tag->0@,
        result@.runtime_version is Some <==> result.runtime_version is Some,
        result@.runtime_version is Some ==> result@.runtime_version->0 == result.runtime_version->0@,
        result@.client_version is Some <==> result.client_version is Some,
        result@.client_version is Some ==> result@.client_version->0 == result.client_version->0@,
{
}

/// A service stands for its own fields.
pub proof fn services_stand_for_their_fields(service: MemberInfo)
    ensures
        service@.network == service.network@,
        service@.ip == service.ip@,
        service@.last_checked == service.last_checked,
        service@.cert_expires == service.cert_expires,
        service@.cert_days_left == service.cert_days_left,
        service@.latency_ms == service.latency_ms,
        service@.response_time_ms == service.response_time_ms,
        service@.runtime_version is Some <==> service.runtime_version is Some,
        service@.runtime_version is Some ==> service@.runtime_version->0 == service.runtime_version->0@,
        service@.client_version is Some <==> service.client_version is Some,
        service@.client_version is Some ==> service@.client_version->0 == service.client_version->0@,
{
}

/// A member stands for its name and its services, in order.
pub proof fn members_stand_for_their_services(member: MemberServices)
    ensures
        member@.provider == member.provider@,
        member.spec_name() == member.provider@,
        member@.services.len() == member.services@.len(),
        forall|i: int|
            0 <= i < member.services@.len() ==> member@.services[i] == (
            #[trigger] member.services@[i])@,
{
}

} // verus!
