//! Settings of the monitor, and of the repositories it watches.

use crate::digits::{
    is_digits, number, parse_i64, parse_u16, signed_number, signed_numbers_are_read,
    unsigned_number, unsigned_numbers_are_read,
};
use crate::text::text_view;
use vstd::prelude::*;

verus! {

/// Settings of the monitor.
#[derive(Debug, Clone)]
pub struct Config {
    /// Seconds between two scheduled refreshes.
    pub refresh_interval: u64,
    /// The token for requests to GitHub, where there is one.
    pub github_token: Option<String>,
    /// The port that the server listens on.
    pub port: u16,
    /// How often a failed update of a repository is tried again.
    pub max_retries: u32,
    /// A certificate that expires in fewer days deserves a warning.
    pub cert_warning_days: i64,
    /// A certificate that expires in fewer days is critical.
    pub cert_critical_days: i64,
}

/// What a [`Config`] stands for.
pub struct ConfigView {
    pub refresh_interval: u64,
    pub github_token: Option<Seq<char>>,
    pub port: u16,
    pub max_retries: u32,
    pub cert_warning_days: i64,
    pub cert_critical_days: i64,
}

impl View for Config {
    type V = ConfigView;

    open spec fn view(&self) -> ConfigView {
        ConfigView {
            refresh_interval: self.refresh_interval,
            github_token: text_view(self.github_token),
            port: self.port,
            max_retries: self.max_retries,
            cert_warning_days: self.cert_warning_days,
            cert_critical_days: self.cert_critical_days,
        }
    }
}

/// The port that a variable gives, or 3000 where it gives none.
pub open spec fn port_setting(variable: Option<Seq<char>>) -> u16 {
    match variable {
        Some(text) => match unsigned_number(text, u16::MAX as nat) {
            Some(port) => port as u16,
            None => 3000,
        },
        None => 3000,
    }
}

/// The number of days that a variable gives, or `otherwise` where it gives
/// none.
pub open spec fn days_setting(variable: Option<Seq<char>>, otherwise: i64) -> i64 {
    match variable {
        Some(text) => match signed_number(text) {
            Some(days) => days as i64,
            None => otherwise,
        },
        None => otherwise,
    }
}

fn days_from(variable: &Option<String>, otherwise: i64) -> (days: i64)
    ensures
        days == days_setting(text_view(*variable), otherwise),
{
    match variable {
        Some(text) => match parse_i64(text.as_str()) {
            Some(days) => days,
            None => otherwise,
        },
        None => otherwise,
    }
}

impl Config {
    /// The settings that the environment variables `GITHUB_TOKEN`, `PORT`,
    /// `CERT_WARNING_DAYS` and `CERT_CRITICAL_DAYS` give. A variable that is
    /// not set, or holds no number, leaves its setting at the default.
    pub fn from_variables(
        github_token: Option<String>,
        port: Option<String>,
        cert_warning_days: Option<String>,
        cert_critical_days: Option<String>,
    ) -> (config: Config)
        ensures
            config@ == (ConfigView {
                refresh_interval: 3600,
                github_token: text_view(github_token),
                port: port_setting(text_view(port)),
                max_retries: 3,
                cert_warning_days: days_setting(text_view(cert_warning_days), 30),
                cert_critical_days: days_setting(text_view(cert_critical_days), 7),
            }),
            config.github_token == github_token,
            config.refresh_interval == 3600,
            config.max_retries == 3,
            port is None ==> config.port == 3000,
            cert_warning_days is None ==> config.cert_warning_days == 30,
            cert_critical_days is None ==> config.cert_critical_days == 7,
    {
        let port: u16 = match &port {
            Some(text) => match parse_u16(text.as_str()) {
                Some(number) => number,
                None => 3000,
            },
            None => 3000,
        };
        let cert_warning_days: i64 = days_from(&cert_warning_days, 30);
        let cert_critical_days: i64 = days_from(&cert_critical_days, 7);
        Config {
            refresh_interval: 3600,
            github_token,
            port,
            max_retries: 3,
            cert_warning_days,
            cert_critical_days,
        }
    }
}

/// A watched repository.
#[derive(Debug, Clone, Copy)]
pub struct RepoConfig {
    pub owner: &'static str,
    pub name: &'static str,
    /// What release tags start with, before the version.
    pub prefix: &'static str,
    /// The networks whose nodes the repository releases.
    pub networks: &'static [&'static str],
    /// A regular expression for release tags.
    pub version_pattern: Option<&'static str>,
}

/// What a [`RepoConfig`] stands for.
pub struct RepoView {
    pub owner: Seq<char>,
    pub name: Seq<char>,
    pub prefix: Seq<char>,
    pub networks: Seq<Seq<char>>,
    pub version_pattern: Option<Seq<char>>,
}

impl View for RepoConfig {
    type V = RepoView;

    open spec fn view(&self) -> RepoView {
        RepoView {
            owner: self.owner@,
            name: self.name@,
            prefix: self.prefix@,
            networks: self.networks@.map_values(|network: &'static str| network@),
            version_pattern: match self.version_pattern {
                Some(pattern) => Some(pattern@),
                None => None,
            },
        }
    }
}

/// What a list of repositories stands for.
pub open spec fn repo_views(repos: Seq<RepoConfig>) -> Seq<RepoView> {
    repos.map_values(|repo: RepoConfig| repo@)
}

/// The key of a repository: owner and name with a slash between them.
pub open spec fn repo_key(repo: RepoView) -> Seq<char> {
    repo.owner + "/"@ + repo.name
}

/// The key of a repository.
pub fn repo_key_text(repo: &RepoConfig) -> (key: String)
    ensures
        key@ == repo_key(repo@),
        key@ == repo.owner@ + "/"@ + repo.name@,
{
    let mut key = repo.owner.to_string();
    key.append("/");
    key.append(repo.name);
    key
}

// ---------------------------------------------------------------------------
// What holds of settings and keys
// ---------------------------------------------------------------------------

/// The port is the number in its variable where that is one from 0 to 65535,
/// and 3000 where the variable is not set or holds anything else.
pub proof fn port_is_the_number_given(text: Seq<char>, digits: Seq<char>)
    ensures
        port_setting(None) == 3000,
        is_digits(digits) && number(digits) <= 65535 && (text == digits || text == "+"@ + digits)
            ==> port_setting(Some(text)) == number(digits),
        is_digits(digits) && number(digits) > 65535 && (text == digits || text == "+"@ + digits)
            ==> port_setting(Some(text)) == 3000,
        !is_digits(text) && !(text.len() > 1 && text[0] == '+' && is_digits(text.skip(1)))
            ==> port_setting(Some(text)) == 3000,
{
    unsigned_numbers_are_read(text, digits, u16::MAX as nat);
}

/// The number of days is the number in its variable where that fits in 64
/// bits, and the default where the variable is not set or holds anything else.
pub proof fn days_are_the_number_given(text: Seq<char>, digits: Seq<char>, otherwise: i64)
    ensures
        days_setting(None, otherwise) == otherwise,
        is_digits(digits) && number(digits) <= 0x7fff_ffff_ffff_ffff && (text == digits || text
            == "+"@ + digits) ==> days_setting(Some(text), otherwise) == number(digits),
        is_digits(digits) && number(digits) <= 0x8000_0000_0000_0000 && text == "-"@ + digits
            ==> days_setting(Some(text), otherwise) == -number(digits),
        is_digits(digits) && number(digits) > 0x7fff_ffff_ffff_ffff && (text == digits || text
            == "+"@ + digits) ==> days_setting(Some(text), otherwise) == otherwise,
        is_digits(digits) && number(digits) > 0x8000_0000_0000_0000 && text == "-"@ + digits
            ==> days_setting(Some(text), otherwise) == otherwise,
        !is_digits(text) && !(text.len() > 1 && (text[0] == '+' || text[0] == '-') && is_digits(
            text.skip(1),
        )) ==> days_setting(Some(text), otherwise) == otherwise,
{
    signed_numbers_are_read(text, digits);
}

/// The key of a repository is its owner, a slash and its name.
pub proof fn key_is_owner_and_name(repo: RepoView)
    ensures
        repo_key(repo).len() == repo.owner.len() + 1 + repo.name.len(),
        repo_key(repo).take(repo.owner.len() as int) == repo.owner,
        repo_key(repo)[repo.owner.len() as int] == '/',
        repo_key(repo).skip(repo.owner.len() as int + 1) == repo.name,
{
    reveal_strlit("/");
    assert(repo_key(repo).take(repo.owner.len() as int) =~= repo.owner);
    assert(repo_key(repo).skip(repo.owner.len() as int + 1) =~= repo.name);
}

/// Settings stand for their own fields.
pub proof fn settings_stand_for_their_fields(config: Config)
    ensures
        config@.refresh_interval == config.refresh_interval,
        config@.port == config.port,
        config@.max_retries == config.max_retries,
        config@.cert_warning_days == config.cert_warning_days,
        config@.cert_critical_days == config.cert_critical_days,
        config@.github_token is Some <==> config.github_token is Some,
        config@.github_token is Some ==> config@.github_token->0 == config.github_token->0@,
{
}

/// A repository stands for its own fields.
pub proof fn repositories_stand_for_their_fields(repo: RepoConfig)
    ensures
        repo@.owner == repo.owner@,
        repo@.name == repo.name@,
        repo@.prefix == repo.prefix@,
        repo@.networks.len() == repo.networks@.len(),
        forall|i: int|
            0 <= i < repo.networks@.len() ==> repo@.networks[i] == (#[trigger] repo.networks@[i])@,
        repo@.version_pattern is Some <==> repo.version_pattern is Some,
        repo@.version_pattern is Some ==> repo@.version_pattern->0 == repo.version_pattern->0@,
{
}

} // verus!
