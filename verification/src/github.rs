//! Looking up the latest release of a repository on GitHub.

use crate::config::{repo_key, repo_key_text, RepoConfig, RepoView};
use crate::digits::{is_canonical, number};
use crate::models::{copy_text, VersionInfo, VersionInfoView};
use crate::text::{has_text, text_view};
use crate::time::Timestamp;
use crate::version::{
    captured_date_is_the_version, has_labels, highest,
    highest_is_no_prerelease_of_a_listed_release, is_highest, none_present, parse_version,
    pattern_view, regex_groups, same_numbers, starts_with_digit, tag_version, version_order,
    version_text, version_view, version_views, written_version_is_the_version, Precedence, Version,
    VersionView,
};
use vstd::prelude::*;

verus! {

/// A release of a repository.
#[derive(Debug, Clone)]
pub struct Release {
    pub tag_name: String,
    pub draft: bool,
    pub prerelease: bool,
    pub published_at: Option<Timestamp>,
    pub html_url: Option<String>,
}

/// What a [`Release`] stands for.
pub struct ReleaseView {
    pub tag_name: Seq<char>,
    pub draft: bool,
    pub prerelease: bool,
    pub published_at: Option<Timestamp>,
    pub html_url: Option<Seq<char>>,
}

impl View for Release {
    type V = ReleaseView;

    open spec fn view(&self) -> ReleaseView {
        ReleaseView {
            tag_name: self.tag_name@,
            draft: self.draft,
            prerelease: self.prerelease,
            published_at: self.published_at,
            html_url: text_view(self.html_url),
        }
    }
}

/// A tag of a repository.
#[derive(Debug)]
pub struct Tag {
    pub name: String,
}

/// What is asked of GitHub.
#[derive(Debug, Clone, Copy, PartialEq, Eq, Structural)]
pub enum Source {
    /// The release that is marked as the latest.
    Latest,
    /// The most recent releases.
    Releases,
    /// The most recent tags.
    Tags,
}

/// What GitHub answered; nothing where the request failed.
#[derive(Debug)]
pub enum Reply {
    Latest(Option<Release>),
    Releases(Option<Vec<Release>>),
    Tags(Option<Vec<Tag>>),
}

/// What comes next in looking up the latest release.
#[derive(Debug)]
pub enum Lookup {
    Ask(Source),
    Found(VersionInfo),
    /// There is no answer, with the reason.
    Failed(String),
}

// ---------------------------------------------------------------------------
// Requests
// ---------------------------------------------------------------------------

/// What stands behind the repository's key in the URL of a request.
pub open spec fn source_path(source: Source) -> Seq<char> {
    match source {
        Source::Latest => "/releases/latest"@,
        Source::Releases => "/releases?per_page=30"@,
        Source::Tags => "/tags?per_page=50"@,
    }
}

/// The URL of a request.
pub fn request_url(repo: &RepoConfig, source: Source) -> (url: String)
    ensures
        url@ == "https://api.github.com/repos/"@ + repo_key(repo@) + source_path(source),
        url@ == "https://api.github.com/repos/"@ + repo.owner@ + "/"@ + repo.name@ + match source {
            Source::Latest => "/releases/latest"@,
            Source::Releases => "/releases?per_page=30"@,
            Source::Tags => "/tags?per_page=50"@,
        },
{
    let key = repo_key_text(repo);
    let mut url = "https://api.github.com/repos/".to_string();
    url.append(key.as_str());
    match source {
        Source::Latest => url.append("/releases/latest"),
        Source::Releases => url.append("/releases?per_page=30"),
        Source::Tags => url.append("/tags?per_page=50"),
    }
    assert(url@ =~= "https://api.github.com/repos/"@ + repo.owner@ + "/"@ + repo.name@
        + source_path(source));
    url
}

// ---------------------------------------------------------------------------
// Answers
// ---------------------------------------------------------------------------

/// The version that a tag of `repo` stands for.
pub open spec fn version_in(repo: RepoView, tag: Seq<char>) -> Option<VersionView> {
    tag_version(tag, repo.prefix, repo.version_pattern)
}

/// The version of the release that is marked as the latest, unless it is a
/// draft.
pub open spec fn latest_version(repo: RepoView, release: ReleaseView) -> Option<VersionView> {
    if release.draft {
        None
    } else {
        version_in(repo, release.tag_name)
    }
}

/// The version of a listed release, unless it is a draft or a pre-release.
pub open spec fn listed_version(repo: RepoView, release: ReleaseView) -> Option<VersionView> {
    if release.draft || release.prerelease {
        None
    } else {
        version_in(repo, release.tag_name)
    }
}

/// The versions of the listed releases.
pub open spec fn release_versions(repo: RepoView, releases: Seq<Release>) -> Seq<
    Option<VersionView>,
> {
    releases.map_values(|release: Release| listed_version(repo, release@))
}

/// The versions of the listed tags.
pub open spec fn tag_versions(repo: RepoView, tags: Seq<Tag>) -> Seq<Option<VersionView>> {
    tags.map_values(|tag: Tag| version_in(repo, tag.name@))
}

/// What is kept of a release. One without a date counts as published now.
pub open spec fn release_info(
    release: ReleaseView,
    version: VersionView,
    now: Timestamp,
) -> VersionInfoView {
    VersionInfoView {
        version: version_text(version),
        tag: release.tag_name,
        published_at: match release.published_at {
            Some(time) => time,
            None => now,
        },
        release_notes_url: release.html_url,
        last_checked: now,
    }
}

/// What is kept of a tag.
pub open spec fn tag_info(tag: Seq<char>, version: VersionView, now: Timestamp) -> VersionInfoView {
    VersionInfoView {
        version: version_text(version),
        tag,
        published_at: now,
        release_notes_url: None,
        last_checked: now,
    }
}

/// `next` follows from the last answer. The latest release is taken if it has
/// a version; else the first of the highest among the recent releases; else
/// the first of the highest among the recent tags.
pub open spec fn lookup_follows(
    repo: RepoView,
    reply: Option<Reply>,
    now: Timestamp,
    next: Lookup,
) -> bool {
    match reply {
        None => next == Lookup::Ask(Source::Latest),
        Some(Reply::Latest(answer)) => if answer is Some && latest_version(
            repo,
            answer->0@,
        ) is Some {
            next is Found && next->Found_0@ == release_info(
                answer->0@,
                latest_version(repo, answer->0@)->0,
                now,
            )
        } else {
            next == Lookup::Ask(Source::Releases)
        },
        Some(Reply::Releases(None)) => next is Failed && next->Failed_0@
            == "Failed to fetch releases"@,
        Some(Reply::Releases(Some(releases))) => {
            let versions = release_versions(repo, releases@);
            if none_present(versions) {
                next == Lookup::Ask(Source::Tags)
            } else {
                next is Found && exists|at: int|
                    is_highest(versions, at) && next->Found_0@ == release_info(
                        releases@[at]@,
                        #[trigger] versions[at]->0,
                        now,
                    )
            }
        },
        Some(Reply::Tags(None)) => next is Failed && next->Failed_0@ == "Failed to fetch tags"@,
        Some(Reply::Tags(Some(tags))) => {
            let versions = tag_versions(repo, tags@);
            if none_present(versions) {
                next is Failed && next->Failed_0@ == "No valid versions found for "@ + repo_key(
                    repo,
                )
            } else {
                next is Found && exists|at: int|
                    is_highest(versions, at) && next->Found_0@ == tag_info(
                        tags@[at].name@,
                        #[trigger] versions[at]->0,
                        now,
                    )
            }
        },
    }
}

fn info_of_release(release: &Release, version: &Version, now: Timestamp) -> (info: VersionInfo)
    ensures
        info@ == release_info(release@, version@, now),
{
    VersionInfo {
        version: version.to_text(),
        tag: release.tag_name.clone(),
        published_at: match release.published_at {
            Some(time) => time,
            None => now,
        },
        release_notes_url: copy_text(&release.html_url),
        last_checked: now,
    }
}

fn parse_tag(repo: &RepoConfig, tag: &str) -> (version: Option<Version>)
    ensures
        version_view(version) == version_in(repo@, tag@),
{
    parse_version(tag, repo.prefix, repo.version_pattern)
}

fn after_latest(repo: &RepoConfig, answer: Option<Release>, now: Timestamp) -> (next: Lookup)
    ensures
        lookup_follows(repo@, Some(Reply::Latest(answer)), now, next),
{
    if let Some(release) = &answer {
        if !release.draft {
            if let Some(version) = parse_tag(repo, release.tag_name.as_str()) {
                return Lookup::Found(info_of_release(release, &version, now));
            }
        }
    }
    Lookup::Ask(Source::Releases)
}

fn after_releases(repo: &RepoConfig, answer: Option<Vec<Release>>, now: Timestamp) -> (next: Lookup)
    ensures
        lookup_follows(repo@, Some(Reply::Releases(answer)), now, next),
{
    let releases = match answer {
        Some(list) => list,
        None => {
            return Lookup::Failed("Failed to fetch releases".to_string());
        },
    };
    let mut versions: Vec<Option<Version>> = Vec::new();
    let mut i: usize = 0;
    while i < releases.len()
        invariant
            i <= releases@.len(),
            versions@.len() == i,
            forall|j: int|
                0 <= j < i ==> version_view(#[trigger] versions@[j]) == listed_version(
                    repo@,
                    releases@[j]@,
                ),
        decreases releases@.len() - i,
    {
        let release = &releases[i];
        if release.draft || release.prerelease {
            versions.push(None);
        } else {
            versions.push(parse_tag(repo, release.tag_name.as_str()));
        }
        i = i + 1;
    }
    let ghost views = release_versions(repo@, releases@);
    assert(version_views(versions@) =~= views);
    match highest(&versions) {
        Some(at) => {
            assert(views[at as int] == version_view(versions@[at as int]));
            if let Some(version) = &versions[at] {
                let info = info_of_release(&releases[at], version, now);
                assert(is_highest(views, at as int) && info@ == release_info(
                    releases@[at as int]@,
                    views[at as int]->0,
                    now,
                ));
                return Lookup::Found(info);
            }
            Lookup::Ask(Source::Tags)
        },
        None => Lookup::Ask(Source::Tags),
    }
}

fn after_tags(repo: &RepoConfig, answer: Option<Vec<Tag>>, now: Timestamp) -> (next: Lookup)
    ensures
        lookup_follows(repo@, Some(Reply::Tags(answer)), now, next),
{
    let tags = match answer {
        Some(list) => list,
        None => {
            return Lookup::Failed("Failed to fetch tags".to_string());
        },
    };
    let mut versions: Vec<Option<Version>> = Vec::new();
    let mut i: usize = 0;
    while i < tags.len()
        invariant
            i <= tags@.len(),
            versions@.len() == i,
            forall|j: int|
                0 <= j < i ==> version_view(#[trigger] versions@[j]) == version_in(
                    repo@,
                    tags@[j].name@,
                ),
        decreases tags@.len() - i,
    {
        versions.push(parse_tag(repo, tags[i].name.as_str()));
        i = i + 1;
    }
    let ghost views = tag_versions(repo@, tags@);
    assert(version_views(versions@) =~= views);
    if let Some(at) = highest(&versions) {
        assert(views[at as int] == version_view(versions@[at as int]));
        if let Some(version) = &versions[at] {
            let info = VersionInfo {
                version: version.to_text(),
                tag: tags[at].name.clone(),
                published_at: now,
                release_notes_url: None,
                last_checked: now,
            };
            assert(is_highest(views, at as int) && info@ == tag_info(
                tags@[at as int].name@,
                views[at as int]->0,
                now,
            ));
            return Lookup::Found(info);
        }
    }
    let key = repo_key_text(repo);
    let mut reason = "No valid versions found for ".to_string();
    reason.append(key.as_str());
    Lookup::Failed(reason)
}

/// Looks up the latest release of `repo`, one answer of GitHub at a time; the
/// first call has no answer yet.
///
/// The release that is marked as the latest is found by what its tag holds
/// under the repository's own prefix and pattern, unless it is a draft: a date
/// that the pattern captures, or the text of a version behind the prefix where
/// the pattern does not match.
pub fn fetch_latest_version(repo: &RepoConfig, reply: Option<Reply>, now: Timestamp) -> (next:
    Lookup)
    ensures
        lookup_follows(repo@, reply, now, next),
        reply is None ==> next == Lookup::Ask(Source::Latest),
        match reply {
            Some(Reply::Latest(Some(release))) => {
                let pattern = pattern_view(repo.version_pattern);
                let read = tag_version(release.tag_name@, repo.prefix@, pattern);
                &&& !release.draft && read is Some ==> next is Found && next->Found_0.version@
                    == version_text(read->0) && next->Found_0.tag@ == release.tag_name@
                    && next->Found_0.published_at == (match release.published_at {
                    Some(time) => time,
                    None => now,
                }) && text_view(next->Found_0.release_notes_url) == text_view(release.html_url)
                    && next->Found_0.last_checked == now
                &&& release.draft || read is None ==> next == Lookup::Ask(Source::Releases)
            },
            Some(Reply::Latest(None)) => next == Lookup::Ask(Source::Releases),
            _ => true,
        },
        match (reply, repo.version_pattern) {
            (Some(Reply::Latest(Some(release))), Some(pattern)) => match regex_groups(
                pattern@,
                release.tag_name@,
            ) {
                Some(groups) => {
                    let (year, month) = (groups[1]->0, groups[2]->0);
                    !release.draft && has_text(pattern@, "(\\d{4})-(\\d+)"@) && groups.len() > 2
                        && groups[1] is Some && groups[2] is Some && is_canonical(year) && number(
                        year,
                    ) <= u64::MAX && is_canonical(month) && number(month) <= u64::MAX ==> next is Found
                        && next->Found_0.version@ == year + "."@ + month + ".0"@
                },
                None => true,
            },
            _ => true,
        },
        match reply {
            Some(Reply::Latest(Some(release))) => !release.draft && (repo.version_pattern is None
                || regex_groups(repo.version_pattern->0@, release.tag_name@) is None)
                && !starts_with_digit(repo.prefix@) ==> forall|version: VersionView|
                has_labels(version) && release.tag_name@ == repo.prefix@ + #[trigger] version_text(
                    version,
                ) ==> next is Found && next->Found_0.version@ == version_text(version),
            _ => true,
        },
{
    let ghost given = reply;
    proof {
        if let Some(Reply::Latest(Some(release))) = given {
            let tag = release.tag_name@;
            let pattern = pattern_view(repo.version_pattern);
            if pattern is Some && regex_groups(pattern->0, tag) is Some {
                let groups = regex_groups(pattern->0, tag)->0;
                let (year, month) = (groups[1]->0, groups[2]->0);
                if has_text(pattern->0, "(\\d{4})-(\\d+)"@) && groups.len() > 2
                    && groups[1] is Some && groups[2] is Some && is_canonical(year) && number(year)
                    <= u64::MAX && is_canonical(month) && number(month) <= u64::MAX {
                    captured_date_is_the_version(tag, repo.prefix@, pattern->0, groups, year, month);
                }
            } else if !starts_with_digit(repo.prefix@) {
                assert forall|version: VersionView|
                    has_labels(version) && tag == repo.prefix@ + #[trigger] version_text(
                        version,
                    ) implies tag_version(tag, repo.prefix@, pattern) == Some(version) by {
                    written_version_is_the_version(tag, repo.prefix@, pattern, version);
                }
            }
        }
    }
    let next = match reply {
        None => Lookup::Ask(Source::Latest),
        Some(Reply::Latest(answer)) => after_latest(repo, answer, now),
        Some(Reply::Releases(answer)) => after_releases(repo, answer, now),
        Some(Reply::Tags(answer)) => after_tags(repo, answer, now),
    };
    proof {
        if let Some(Reply::Latest(Some(_))) = given {
            if next is Found {
                assert(next->Found_0@.version == next->Found_0.version@);
                assert(next->Found_0@.tag == next->Found_0.tag@);
                assert(next->Found_0@.release_notes_url == text_view(
                    next->Found_0.release_notes_url,
                ));
            }
        }
    }
    next
}

// ---------------------------------------------------------------------------
// What holds of a lookup
// ---------------------------------------------------------------------------

/// How many requests can still follow a reply.
pub open spec fn requests_left(reply: Option<Reply>) -> nat {
    match reply {
        None => 3,
        Some(Reply::Latest(_)) => 2,
        Some(Reply::Releases(_)) => 1,
        Some(Reply::Tags(_)) => 0,
    }
}

/// `reply` answers a request to `source`.
pub open spec fn answers(reply: Reply, source: Source) -> bool {
    match source {
        Source::Latest => reply is Latest,
        Source::Releases => reply is Releases,
        Source::Tags => reply is Tags,
    }
}

/// A lookup ends after three requests at the latest: every answer to the
/// request that comes next leaves fewer.
pub proof fn lookup_ends(
    repo: RepoView,
    reply: Option<Reply>,
    now: Timestamp,
    next: Lookup,
    answer: Reply,
)
    requires
        lookup_follows(repo, reply, now, next),
        next is Ask,
        answers(answer, next->Ask_0),
    ensures
        requests_left(Some(answer)) < requests_left(reply),
{
}

/// What is found among the recent releases is neither a draft nor a
/// pre-release, and no other release that counts has a higher version.
pub proof fn listed_choice_is_the_highest_release(
    repo: RepoView,
    releases: Vec<Release>,
    now: Timestamp,
    next: Lookup,
)
    requires
        lookup_follows(repo, Some(Reply::Releases(Some(releases))), now, next),
        next is Found,
    ensures
        exists|at: int|
            {
                &&& 0 <= at < releases@.len()
                &&& !(#[trigger] releases@[at]).draft
                &&& !releases@[at].prerelease
                &&& next->Found_0.tag@ == releases@[at].tag_name@
                &&& forall|i: int|
                    0 <= i < releases@.len() && i != at && !(#[trigger] releases@[i]).draft
                        && !releases@[i].prerelease && version_in(
                        repo,
                        releases@[i].tag_name@,
                    ) is Some ==> version_order(
                        version_in(repo, releases@[at].tag_name@)->0,
                        version_in(repo, releases@[i].tag_name@)->0,
                    ) != Precedence::Lower
            },
{
    let versions = release_versions(repo, releases@);
    let at = choose|at: int|
        is_highest(versions, at) && next->Found_0@ == release_info(
            releases@[at]@,
            #[trigger] versions[at]->0,
            now,
        );
    assert(versions[at] == listed_version(repo, releases@[at]@));
    assert(next->Found_0@.tag == releases@[at].tag_name@);
    assert forall|i: int|
        0 <= i < releases@.len() && i != at && !(#[trigger] releases@[i]).draft
            && !releases@[i].prerelease && version_in(
            repo,
            releases@[i].tag_name@,
        ) is Some implies version_order(
        version_in(repo, releases@[at].tag_name@)->0,
        version_in(repo, releases@[i].tag_name@)->0,
    ) != Precedence::Lower by {
        assert(versions[i] == listed_version(repo, releases@[i]@));
    }
    assert(!releases@[at].draft);
}

/// What is found among the recent tags is such that no other tag has a higher
/// version, and it is no pre-release of a release that another tag stands for.
pub proof fn listed_choice_is_the_highest_tag(
    repo: RepoView,
    tags: Vec<Tag>,
    now: Timestamp,
    next: Lookup,
)
    requires
        lookup_follows(repo, Some(Reply::Tags(Some(tags))), now, next),
        next is Found,
    ensures
        exists|at: int|
            {
                &&& 0 <= at < tags@.len()
                &&& next->Found_0.tag@ == (#[trigger] tags@[at]).name@
                &&& version_in(repo, tags@[at].name@) is Some
                &&& forall|i: int|
                    0 <= i < tags@.len() && i != at && version_in(
                        repo,
                        (#[trigger] tags@[i]).name@,
                    ) is Some ==> version_order(
                        version_in(repo, tags@[at].name@)->0,
                        version_in(repo, tags@[i].name@)->0,
                    ) != Precedence::Lower
                &&& forall|i: int|
                    0 <= i < tags@.len() && version_in(
                        repo,
                        (#[trigger] tags@[i]).name@,
                    ) is Some && same_numbers(
                        version_in(repo, tags@[at].name@)->0,
                        version_in(repo, tags@[i].name@)->0,
                    ) && version_in(repo, tags@[i].name@)->0.pre.len() == 0 ==> version_in(
                        repo,
                        tags@[at].name@,
                    )->0.pre.len() == 0
            },
{
    let versions = tag_versions(repo, tags@);
    let at = choose|at: int|
        is_highest(versions, at) && next->Found_0@ == tag_info(
            tags@[at].name@,
            #[trigger] versions[at]->0,
            now,
        );
    assert(versions[at] == version_in(repo, tags@[at].name@));
    assert(next->Found_0@.tag == tags@[at].name@);
    assert forall|i: int|
        0 <= i < tags@.len() && i != at && version_in(
            repo,
            (#[trigger] tags@[i]).name@,
        ) is Some implies version_order(
        version_in(repo, tags@[at].name@)->0,
        version_in(repo, tags@[i].name@)->0,
    ) != Precedence::Lower by {
        assert(versions[i] == version_in(repo, tags@[i].name@));
    }
    assert forall|i: int|
        0 <= i < tags@.len() && version_in(repo, (#[trigger] tags@[i]).name@) is Some
            && same_numbers(
            version_in(repo, tags@[at].name@)->0,
            version_in(repo, tags@[i].name@)->0,
        ) && version_in(repo, tags@[i].name@)->0.pre.len() == 0 implies version_in(
        repo,
        tags@[at].name@,
    )->0.pre.len() == 0 by {
        assert(versions[i] == version_in(repo, tags@[i].name@));
        highest_is_no_prerelease_of_a_listed_release(versions, at, i);
    }
    assert(next->Found_0.tag@ == tags@[at].name@);
}

/// The latest release, where it is no draft and its tag holds a version under
/// the repository's own prefix and pattern, is what the lookup finds, with the
/// text of that version; any other answer leads to the recent releases.
pub proof fn latest_release_is_found(
    repo: RepoView,
    release: Release,
    now: Timestamp,
    next: Lookup,
)
    requires
        lookup_follows(repo, Some(Reply::Latest(Some(release))), now, next),
    ensures
        ({
            let read = tag_version(release.tag_name@, repo.prefix, repo.version_pattern);
            if !release.draft && read is Some {
                &&& next is Found
                &&& next->Found_0.version@ == version_text(read->0)
                &&& next->Found_0.tag@ == release.tag_name@
                &&& release.published_at is Some ==> next->Found_0.published_at
                    == release.published_at->0
                &&& release.published_at is None ==> next->Found_0.published_at == now
                &&& release.html_url is Some ==> next->Found_0.release_notes_url is Some
                    && next->Found_0.release_notes_url->0@ == release.html_url->0@
                &&& release.html_url is None ==> next->Found_0.release_notes_url is None
                &&& next->Found_0.last_checked == now
            } else {
                next == Lookup::Ask(Source::Releases)
            }
        }),
{
    if next is Found {
        assert(next->Found_0@.version == next->Found_0.version@);
        assert(next->Found_0@.tag == next->Found_0.tag@);
        assert(next->Found_0@.release_notes_url == text_view(next->Found_0.release_notes_url));
        assert(release@.html_url == text_view(release.html_url));
    }
}

/// A date that the repository's pattern captures in the tag of the latest
/// release is the version that is found: year, month and a zero.
pub proof fn dated_release_is_found(
    repo: RepoView,
    release: Release,
    now: Timestamp,
    next: Lookup,
    groups: Seq<Option<Seq<char>>>,
    year: Seq<char>,
    month: Seq<char>,
)
    requires
        lookup_follows(repo, Some(Reply::Latest(Some(release))), now, next),
        !release.draft,
        repo.version_pattern is Some,
        has_text(repo.version_pattern->0, "(\\d{4})-(\\d+)"@),
        regex_groups(repo.version_pattern->0, release.tag_name@) == Some(groups),
        groups.len() > 2,
        groups[1] == Some(year),
        groups[2] == Some(month),
        is_canonical(year) && number(year) <= u64::MAX,
        is_canonical(month) && number(month) <= u64::MAX,
    ensures
        next is Found,
        next->Found_0.version@ == year + "."@ + month + ".0"@,
        next->Found_0.tag@ == release.tag_name@,
{
    captured_date_is_the_version(
        release.tag_name@,
        repo.prefix,
        repo.version_pattern->0,
        groups,
        year,
        month,
    );
    latest_release_is_found(repo, release, now, next);
}

/// Where the repository's pattern does not match, and the tag of the latest
/// release is the prefix and then the text of a version, that text is what is
/// found.
pub proof fn written_release_is_found(
    repo: RepoView,
    release: Release,
    now: Timestamp,
    next: Lookup,
    version: VersionView,
)
    requires
        lookup_follows(repo, Some(Reply::Latest(Some(release))), now, next),
        !release.draft,
        repo.version_pattern is Some ==> regex_groups(repo.version_pattern->0, release.tag_name@)
            is None,
        !starts_with_digit(repo.prefix),
        has_labels(version),
        release.tag_name@ == repo.prefix + version_text(version),
    ensures
        next is Found,
        next->Found_0.version@ == version_text(version),
        repo.prefix + next->Found_0.version@ == release.tag_name@,
{
    written_version_is_the_version(
        release.tag_name@,
        repo.prefix,
        repo.version_pattern,
        version,
    );
    latest_release_is_found(repo, release, now, next);
}

/// Among the recent releases one is found exactly where some release is
/// neither a draft nor a pre-release and its tag holds a version under the
/// repository's own prefix and pattern. It is such a release itself, and the
/// first one whose version no other exceeds; without any, the tags come next.
#[verifier::rlimit(40)]
pub proof fn first_highest_release_is_found(
    repo: RepoView,
    releases: Vec<Release>,
    now: Timestamp,
    next: Lookup,
)
    requires
        lookup_follows(repo, Some(Reply::Releases(Some(releases))), now, next),
    ensures
        (forall|i: int|
            0 <= i < releases@.len() ==> (#[trigger] releases@[i]).draft || releases@[i].prerelease
                || tag_version(
                releases@[i].tag_name@,
                repo.prefix,
                repo.version_pattern,
            ) is None) ==> next == Lookup::Ask(Source::Tags),
        (exists|i: int|
            0 <= i < releases@.len() && !(#[trigger] releases@[i]).draft && !releases@[i].prerelease
                && tag_version(
                releases@[i].tag_name@,
                repo.prefix,
                repo.version_pattern,
            ) is Some) ==> next is Found && exists|at: int|
            {
                &&& 0 <= at < releases@.len()
                &&& !(#[trigger] releases@[at]).draft
                &&& !releases@[at].prerelease
                &&& tag_version(
                    releases@[at].tag_name@,
                    repo.prefix,
                    repo.version_pattern,
                ) is Some
                &&& next->Found_0.version@ == version_text(
                    tag_version(releases@[at].tag_name@, repo.prefix, repo.version_pattern)->0,
                )
                &&& next->Found_0.tag@ == releases@[at].tag_name@
                &&& releases@[at].published_at is Some ==> next->Found_0.published_at
                    == releases@[at].published_at->0
                &&& releases@[at].published_at is None ==> next->Found_0.published_at == now
                &&& text_view(next->Found_0.release_notes_url) == text_view(releases@[at].html_url)
                &&& next->Found_0.last_checked == now
                &&& forall|i: int|
                    0 <= i < releases@.len() && i != at && !(#[trigger] releases@[i]).draft
                        && !releases@[i].prerelease && tag_version(
                        releases@[i].tag_name@,
                        repo.prefix,
                        repo.version_pattern,
                    ) is Some ==> {
                        let order = version_order(
                            tag_version(
                                releases@[at].tag_name@,
                                repo.prefix,
                                repo.version_pattern,
                            )->0,
                            tag_version(
                                releases@[i].tag_name@,
                                repo.prefix,
                                repo.version_pattern,
                            )->0,
                        );
                        order != Precedence::Lower && (i < at ==> order == Precedence::Higher)
                    }
            },
{
    let versions = release_versions(repo, releases@);
    assert forall|i: int| 0 <= i < releases@.len() implies #[trigger] versions[i]
        == if releases@[i].draft || releases@[i].prerelease {
        None
    } else {
        tag_version(releases@[i].tag_name@, repo.prefix, repo.version_pattern)
    } by {}
    if exists|i: int|
        0 <= i < releases@.len() && !(#[trigger] releases@[i]).draft && !releases@[i].prerelease
            && tag_version(releases@[i].tag_name@, repo.prefix, repo.version_pattern) is Some {
        let some = choose|i: int|
            0 <= i < releases@.len() && !(#[trigger] releases@[i]).draft && !releases@[i].prerelease
                && tag_version(
                releases@[i].tag_name@,
                repo.prefix,
                repo.version_pattern,
            ) is Some;
        assert(versions[some] is Some);
        let at = choose|at: int|
            is_highest(versions, at) && next->Found_0@ == release_info(
                releases@[at]@,
                #[trigger] versions[at]->0,
                now,
            );
        let found = next->Found_0;
        assert(versions[at] is Some);
        assert(found@.version == found.version@);
        assert(found@.tag == found.tag@);
        assert(found@.release_notes_url == text_view(found.release_notes_url));
        assert forall|i: int|
            0 <= i < releases@.len() && i != at && !(#[trigger] releases@[i]).draft
                && !releases@[i].prerelease && tag_version(
                releases@[i].tag_name@,
                repo.prefix,
                repo.version_pattern,
            ) is Some implies ({
            let order = version_order(
                tag_version(releases@[at].tag_name@, repo.prefix, repo.version_pattern)->0,
                tag_version(releases@[i].tag_name@, repo.prefix, repo.version_pattern)->0,
            );
            order != Precedence::Lower && (i < at ==> order == Precedence::Higher)
        }) by {
            assert(versions[i] is Some);
        }
        assert(!releases@[at].draft);
    }
    if forall|i: int|
        0 <= i < releases@.len() ==> (#[trigger] releases@[i]).draft || releases@[i].prerelease
            || tag_version(releases@[i].tag_name@, repo.prefix, repo.version_pattern) is None {
        assert forall|i: int| 0 <= i < versions.len() implies (#[trigger] versions[i]) is None by {
            assert(releases@[i].draft || releases@[i].prerelease || tag_version(
                releases@[i].tag_name@,
                repo.prefix,
                repo.version_pattern,
            ) is None);
        }
    }
}

/// Among the recent tags one is found exactly where some tag holds a version
/// under the repository's own prefix and pattern: the first one whose version
/// no other exceeds. Such a tag counts as published now and has no notes.
/// Without any the lookup fails, with the repository's key in the reason.
pub proof fn first_highest_tag_is_found(
    repo: RepoView,
    tags: Vec<Tag>,
    now: Timestamp,
    next: Lookup,
)
    requires
        lookup_follows(repo, Some(Reply::Tags(Some(tags))), now, next),
    ensures
        (forall|i: int|
            0 <= i < tags@.len() ==> tag_version(
                (#[trigger] tags@[i]).name@,
                repo.prefix,
                repo.version_pattern,
            ) is None) ==> next is Failed && next->Failed_0@ == "No valid versions found for "@
            + repo.owner + "/"@ + repo.name,
        (exists|i: int|
            0 <= i < tags@.len() && tag_version(
                (#[trigger] tags@[i]).name@,
                repo.prefix,
                repo.version_pattern,
            ) is Some) ==> next is Found && exists|at: int|
            {
                &&& 0 <= at < tags@.len()
                &&& next->Found_0.tag@ == (#[trigger] tags@[at]).name@
                &&& tag_version(tags@[at].name@, repo.prefix, repo.version_pattern) is Some
                &&& next->Found_0.version@ == version_text(
                    tag_version(tags@[at].name@, repo.prefix, repo.version_pattern)->0,
                )
                &&& next->Found_0.published_at == now
                &&& next->Found_0.release_notes_url is None
                &&& next->Found_0.last_checked == now
                &&& forall|i: int|
                    0 <= i < tags@.len() && i != at && tag_version(
                        (#[trigger] tags@[i]).name@,
                        repo.prefix,
                        repo.version_pattern,
                    ) is Some ==> {
                        let order = version_order(
                            tag_version(tags@[at].name@, repo.prefix, repo.version_pattern)->0,
                            tag_version(tags@[i].name@, repo.prefix, repo.version_pattern)->0,
                        );
                        order != Precedence::Lower && (i < at ==> order == Precedence::Higher)
                    }
            },
{
    let versions = tag_versions(repo, tags@);
    assert forall|i: int| 0 <= i < tags@.len() implies #[trigger] versions[i] == tag_version(
        tags@[i].name@,
        repo.prefix,
        repo.version_pattern,
    ) by {}
    if exists|i: int|
        0 <= i < tags@.len() && tag_version(
            (#[trigger] tags@[i]).name@,
            repo.prefix,
            repo.version_pattern,
        ) is Some {
        let some = choose|i: int|
            0 <= i < tags@.len() && tag_version(
                (#[trigger] tags@[i]).name@,
                repo.prefix,
                repo.version_pattern,
            ) is Some;
        assert(versions[some] is Some);
        let at = choose|at: int|
            is_highest(versions, at) && next->Found_0@ == tag_info(
                tags@[at].name@,
                #[trigger] versions[at]->0,
                now,
            );
        let found = next->Found_0;
        assert(versions[at] is Some);
        assert(found@.version == found.version@);
        assert(found@.tag == found.tag@);
        assert(found@.release_notes_url == text_view(found.release_notes_url));
        assert forall|i: int|
            0 <= i < tags@.len() && i != at && tag_version(
                (#[trigger] tags@[i]).name@,
                repo.prefix,
                repo.version_pattern,
            ) is Some implies ({
            let order = version_order(
                tag_version(tags@[at].name@, repo.prefix, repo.version_pattern)->0,
                tag_version(tags@[i].name@, repo.prefix, repo.version_pattern)->0,
            );
            order != Precedence::Lower && (i < at ==> order == Precedence::Higher)
        }) by {
            assert(versions[i] is Some);
        }
        assert(found.tag@ == tags@[at].name@);
    }
    if forall|i: int|
        0 <= i < tags@.len() ==> tag_version(
            (#[trigger] tags@[i]).name@,
            repo.prefix,
            repo.version_pattern,
        ) is None {
        assert forall|i: int| 0 <= i < versions.len() implies (#[trigger] versions[i]) is None by {
            assert(tag_version(tags@[i].name@, repo.prefix, repo.version_pattern) is None);
        }
        assert("No valid versions found for "@ + repo.owner + "/"@ + repo.name
            =~= "No valid versions found for "@ + repo_key(repo));
    }
}

/// A failed request for the recent releases or tags ends the lookup with its
/// own reason, and the first step asks for the latest release.
pub proof fn failed_requests_end_the_lookup(repo: RepoView, now: Timestamp, next: Lookup)
    ensures
        lookup_follows(repo, None, now, next) ==> next == Lookup::Ask(Source::Latest),
        lookup_follows(repo, Some(Reply::Latest(None)), now, next) ==> next == Lookup::Ask(
            Source::Releases,
        ),
        lookup_follows(repo, Some(Reply::Releases(None)), now, next) ==> next is Failed
            && next->Failed_0@ == "Failed to fetch releases"@,
        lookup_follows(repo, Some(Reply::Tags(None)), now, next) ==> next is Failed
            && next->Failed_0@ == "Failed to fetch tags"@,
{
}

/// A release stands for its own fields.
pub proof fn listed_releases_stand_for_their_fields(release: Release)
    ensures
        release@.tag_name == release.tag_name@,
        release@.draft == release.draft,
        release@.prerelease == release.prerelease,
        release@.published_at == release.published_at,
        release@.html_url is Some <==> release.html_url is Some,
        release@.html_url is Some ==> release@.html_url->0 == release.html_url->0@,
{
}

} // verus!
