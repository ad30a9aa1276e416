//! Release versions: reading them from tags, comparing them, writing them.

use crate::digits::{
    decimal, decimal_stands_for_number, decimal_text, digit_runs, digit_runs_are_digits,
    is_canonical, is_digit, is_digits, leading_digits, leading_digits_are_digits, number,
    number_has_one_canonical_text, other_characters_are_skipped, runs_are_found_in_order,
    runs_of_digits,
};
use crate::text::{
    contains, has_text, occurs_at, prefix_is_removed_as_often_as_it_stands_there, repeated,
    replace_char, text_view, text_views, trim_prefix, with_char, without_prefix,
};
use vstd::prelude::*;

verus! {

/// A semantic version.
#[derive(Debug)]
pub struct Version {
    major: u64,
    minor: u64,
    patch: u64,
    /// Pre-release identifiers, empty for a real release.
    pre: String,
    /// Build metadata, empty where there is none.
    build: String,
}

/// What a [`Version`] stands for.
pub struct VersionView {
    pub major: u64,
    pub minor: u64,
    pub patch: u64,
    pub pre: Seq<char>,
    pub build: Seq<char>,
}

impl View for Version {
    type V = VersionView;

    closed spec fn view(&self) -> VersionView {
        VersionView {
            major: self.major,
            minor: self.minor,
            patch: self.patch,
            pre: self.pre@,
            build: self.build@,
        }
    }
}

/// A character of a label other than the dots in it.
pub open spec fn is_label_char(c: char) -> bool {
    is_digit(c) || ('A' <= c && c <= 'Z') || ('a' <= c && c <= 'z') || c == '-'
}

/// The characters `from..to` are one of the parts that the dots divide `text`
/// into.
pub open spec fn is_part(text: Seq<char>, from: int, to: int) -> bool {
    &&& 0 <= from <= to <= text.len()
    &&& from == 0 || text[from - 1] == '.'
    &&& to == text.len() || text[to] == '.'
    &&& forall|i: int| from <= i < to ==> #[trigger] text[i] != '.'
}

/// Pre-release identifiers or build metadata: nothing, or parts with dots
/// between them, none of them empty. Where `leading_zeros` are not allowed, no
/// part is a number with a superfluous leading zero.
pub open spec fn is_label(text: Seq<char>, leading_zeros: bool) -> bool {
    text.len() > 0 ==> {
        &&& forall|i: int|
            0 <= i < text.len() ==> #[trigger] text[i] == '.' || is_label_char(text[i])
        &&& forall|from: int, to: int| #[trigger]
            is_part(text, from, to) ==> from < to && (leading_zeros || to - from == 1 || text[from]
                != '0' || !is_digits(text.subrange(from, to)))
    }
}

/// The pre-release identifiers and the build metadata are such.
pub open spec fn has_labels(version: VersionView) -> bool {
    is_label(version.pre, false) && is_label(version.build, true)
}

/// The view of an optional version.
pub open spec fn version_view(version: Option<Version>) -> Option<VersionView> {
    match version {
        Some(v) => Some(v@),
        None => None,
    }
}

/// What a list of optional versions stands for.
pub open spec fn version_views(versions: Seq<Option<Version>>) -> Seq<Option<VersionView>> {
    versions.map_values(|version: Option<Version>| version_view(version))
}

/// A version without pre-release identifiers and build metadata.
pub open spec fn plain_version(major: u64, minor: u64, patch: u64) -> VersionView {
    VersionView { major, minor, patch, pre: Seq::empty(), build: Seq::empty() }
}

// ---------------------------------------------------------------------------
// Writing
// ---------------------------------------------------------------------------

/// Three texts with dots between them.
pub open spec fn dotted(x: Seq<char>, y: Seq<char>, z: Seq<char>) -> Seq<char> {
    x + "."@ + y + "."@ + z
}

/// The text of a version: the three numbers, then the pre-release identifiers
/// behind a hyphen and the build metadata behind a plus sign, where there are
/// any.
pub open spec fn version_text(version: VersionView) -> Seq<char> {
    let numbers = dotted(
        decimal(version.major as nat),
        decimal(version.minor as nat),
        decimal(version.patch as nat),
    );
    let pre = if version.pre.len() == 0 {
        Seq::empty()
    } else {
        "-"@ + version.pre
    };
    let build = if version.build.len() == 0 {
        Seq::empty()
    } else {
        "+"@ + version.build
    };
    numbers + pre + build
}

/// Joins three texts with dots between them.
pub fn join_dotted(x: &str, y: &str, z: &str) -> (text: String)
    ensures
        text@ == dotted(x@, y@, z@),
{
    let mut text = String::new();
    text.append(x);
    text.append(".");
    text.append(y);
    text.append(".");
    text.append(z);
    assert(text@ =~= dotted(x@, y@, z@));
    text
}

impl Version {
    #[verifier::type_invariant]
    spec fn holds_labels(self) -> bool {
        has_labels(self@)
    }

    /// The version as text.
    pub fn to_text(&self) -> (text: String)
        ensures
            text@ == version_text(self@),
            has_labels(self@),
    {
        proof {
            use_type_invariant(self);
        }
        let major = decimal_text(self.major);
        let minor = decimal_text(self.minor);
        let patch = decimal_text(self.patch);
        let mut text = join_dotted(major.as_str(), minor.as_str(), patch.as_str());
        if !self.pre.as_str().is_empty() {
            text.append("-");
            text.append(self.pre.as_str());
        }
        if !self.build.as_str().is_empty() {
            text.append("+");
            text.append(self.build.as_str());
        }
        assert(text@ =~= version_text(self@));
        text
    }
}

// ---------------------------------------------------------------------------
// Reading
// ---------------------------------------------------------------------------

/// `text` is the text of `version`, whose labels are such.
pub open spec fn reads_as(text: Seq<char>, version: VersionView) -> bool {
    has_labels(version) && text == version_text(version)
}

/// The version whose text `text` is, if it is that of one.
pub open spec fn semver_parsed(text: Seq<char>) -> Option<VersionView> {
    if exists|version: VersionView| reads_as(text, version) {
        Some(choose|version: VersionView| reads_as(text, version))
    } else {
        None
    }
}

/// The number that a text of digits stands for, where the text has no
/// superfluous leading zero and the number fits in 64 bits.
pub open spec fn version_number(digits: Seq<char>) -> Option<u64> {
    if is_canonical(digits) && number(digits) <= u64::MAX {
        Some(number(digits) as u64)
    } else {
        None
    }
}

/// The version with the three numbers that stand in three texts of digits.
pub open spec fn dotted_version(x: Seq<char>, y: Seq<char>, z: Seq<char>) -> Option<VersionView> {
    match (version_number(x), version_number(y), version_number(z)) {
        (Some(major), Some(minor), Some(patch)) => Some(plain_version(major, minor, patch)),
        _ => None,
    }
}

/// The first character of `text` is a digit.
pub open spec fn starts_with_digit(text: Seq<char>) -> bool {
    text.len() > 0 && is_digit(text[0])
}

/// Calls `semver::Version::parse`, which reads the text of a version as that
/// version, and nothing else.
#[verifier::external_body]
fn parse_semver(text: &str) -> (parsed: Option<Version>)
    ensures
        version_view(parsed) == semver_parsed(text@),
{
    semver::Version::parse(text).ok().map(
        |v| Version {
            major: v.major,
            minor: v.minor,
            patch: v.patch,
            pre: v.pre.as_str().to_string(),
            build: v.build.as_str().to_string(),
        },
    )
}

/// What stands behind the three numbers in the text of a version.
spec fn label_text(version: VersionView) -> Seq<char> {
    (if version.pre.len() == 0 {
        Seq::empty()
    } else {
        "-"@ + version.pre
    }) + (if version.build.len() == 0 {
        Seq::empty()
    } else {
        "+"@ + version.build
    })
}

/// A run of digits ends where the first other character stands.
proof fn digits_end_alike(x: Seq<char>, rest: Seq<char>, y: Seq<char>, other_rest: Seq<char>)
    requires
        is_digits(x),
        is_digits(y),
        !starts_with_digit(rest),
        !starts_with_digit(other_rest),
        x + rest == y + other_rest,
    ensures
        x == y,
        rest == other_rest,
{
    let text = x + rest;
    if x.len() < y.len() {
        assert(text[x.len() as int] == y[x.len() as int]);
        assert(text[x.len() as int] == rest[0]);
    }
    if y.len() < x.len() {
        assert(text[y.len() as int] == x[y.len() as int]);
        assert(text[y.len() as int] == (y + other_rest)[y.len() as int]);
        assert((y + other_rest)[y.len() as int] == other_rest[0]);
    }
    assert(x.len() == y.len());
    assert(text.take(x.len() as int) =~= x);
    assert((y + other_rest).take(x.len() as int) =~= y);
    assert(text.skip(x.len() as int) =~= rest);
    assert((y + other_rest).skip(x.len() as int) =~= other_rest);
}

/// Three runs of digits with dots between them, and what stands behind them,
/// can be told from the whole text.
proof fn dotted_end_alike(
    x: Seq<char>,
    y: Seq<char>,
    z: Seq<char>,
    rest: Seq<char>,
    other_x: Seq<char>,
    other_y: Seq<char>,
    other_z: Seq<char>,
    other_rest: Seq<char>,
)
    requires
        is_digits(x) && is_digits(y) && is_digits(z),
        is_digits(other_x) && is_digits(other_y) && is_digits(other_z),
        !starts_with_digit(rest),
        !starts_with_digit(other_rest),
        dotted(x, y, z) + rest == dotted(other_x, other_y, other_z) + other_rest,
    ensures
        x == other_x && y == other_y && z == other_z,
        rest == other_rest,
{
    reveal_strlit(".");
    let behind_y = "."@ + (z + rest);
    let other_behind_y = "."@ + (other_z + other_rest);
    let behind_x = "."@ + (y + behind_y);
    let other_behind_x = "."@ + (other_y + other_behind_y);
    assert(dotted(x, y, z) + rest =~= x + behind_x);
    assert(dotted(other_x, other_y, other_z) + other_rest =~= other_x + other_behind_x);
    digits_end_alike(x, behind_x, other_x, other_behind_x);
    assert(behind_x.skip(1) =~= y + behind_y);
    assert(other_behind_x.skip(1) =~= other_y + other_behind_y);
    digits_end_alike(y, behind_y, other_y, other_behind_y);
    assert(behind_y.skip(1) =~= z + rest);
    assert(other_behind_y.skip(1) =~= other_z + other_rest);
    digits_end_alike(z, rest, other_z, other_rest);
}

/// Labels can be told from their text.
proof fn labels_end_alike(a: VersionView, b: VersionView)
    requires
        has_labels(a),
        has_labels(b),
        label_text(a) == label_text(b),
    ensures
        a.pre == b.pre,
        a.build == b.build,
{
    reveal_strlit("-");
    reveal_strlit("+");
    let text = label_text(a);
    let (m, n) = (a.pre.len() as int, b.pre.len() as int);
    if a.pre.len() > 0 {
        assert(text[0] == '-');
    } else if a.build.len() > 0 {
        assert(text[0] == '+');
    }
    if b.pre.len() > 0 {
        assert(label_text(b)[0] == '-');
    } else if b.build.len() > 0 {
        assert(label_text(b)[0] == '+');
    }
    if a.pre.len() > 0 {
        assert(b.pre.len() > 0);
        assert forall|i: int| 0 <= i < a.pre.len() implies text[i + 1] == #[trigger] a.pre[i]
            && a.pre[i] != '+' by {}
        assert forall|i: int| 0 <= i < b.pre.len() implies text[i + 1] == #[trigger] b.pre[i]
            && b.pre[i] != '+' by {
            assert(label_text(b)[i + 1] == b.pre[i]);
        }
        if a.pre.len() < b.pre.len() {
            assert(b.pre[m] != '+');
            assert(text[m + 1] == '+');
        }
        if b.pre.len() < a.pre.len() {
            assert(a.pre[n] != '+');
            assert(label_text(b)[n + 1] == '+');
        }
        assert(a.pre.len() == b.pre.len());
        assert(text.subrange(1, m + 1) =~= a.pre);
        assert(label_text(b).subrange(1, m + 1) =~= b.pre);
    } else {
        assert(a.pre =~= b.pre);
    }
    let at = if m == 0 {
        0
    } else {
        m + 1
    };
    if a.build.len() > 0 {
        assert(text.skip(at + 1) =~= a.build);
    }
    if b.build.len() > 0 {
        assert(label_text(b).skip(at + 1) =~= b.build);
    }
    if a.build.len() == 0 || b.build.len() == 0 {
        assert(text.len() == at + if a.build.len() == 0 {
            0
        } else {
            a.build.len() + 1
        });
        assert(a.build =~= b.build);
    }
}

proof fn label_text_starts_with_no_digit(version: VersionView)
    ensures
        !starts_with_digit(label_text(version)),
        version_text(version) == dotted(
            decimal(version.major as nat),
            decimal(version.minor as nat),
            decimal(version.patch as nat),
        ) + label_text(version),
{
    reveal_strlit("-");
    reveal_strlit("+");
    assert(version_text(version) =~= dotted(
        decimal(version.major as nat),
        decimal(version.minor as nat),
        decimal(version.patch as nat),
    ) + label_text(version));
}

/// A text is the text of one version at most.
pub proof fn version_text_is_unique(a: VersionView, b: VersionView)
    requires
        has_labels(a),
        has_labels(b),
        version_text(a) == version_text(b),
    ensures
        a == b,
{
    label_text_starts_with_no_digit(a);
    label_text_starts_with_no_digit(b);
    decimal_stands_for_number(a.major as nat);
    decimal_stands_for_number(a.minor as nat);
    decimal_stands_for_number(a.patch as nat);
    decimal_stands_for_number(b.major as nat);
    decimal_stands_for_number(b.minor as nat);
    decimal_stands_for_number(b.patch as nat);
    dotted_end_alike(
        decimal(a.major as nat),
        decimal(a.minor as nat),
        decimal(a.patch as nat),
        label_text(a),
        decimal(b.major as nat),
        decimal(b.minor as nat),
        decimal(b.patch as nat),
        label_text(b),
    );
    labels_end_alike(a, b);
}

/// The text of a version is read back as that version.
pub proof fn version_text_is_read_back(version: VersionView)
    requires
        has_labels(version),
    ensures
        semver_parsed(version_text(version)) == Some(version),
{
    let text = version_text(version);
    assert(reads_as(text, version));
    let read = choose|v: VersionView| reads_as(text, v);
    version_text_is_unique(read, version);
}

/// Three numbers with dots between them that make a version are the text of
/// that version.
pub proof fn dotted_version_is_written_back(x: Seq<char>, y: Seq<char>, z: Seq<char>)
    requires
        dotted_version(x, y, z) is Some,
    ensures
        version_text(dotted_version(x, y, z)->0) == dotted(x, y, z),
{
    number_has_one_canonical_text(x);
    number_has_one_canonical_text(y);
    number_has_one_canonical_text(z);
    assert(version_text(dotted_version(x, y, z)->0) =~= dotted(x, y, z));
}

/// Three texts of digits with dots between them are a version exactly where
/// each is a number of at most 64 bits without a superfluous leading zero.
pub proof fn dotted_digits_are_read(x: Seq<char>, y: Seq<char>, z: Seq<char>)
    requires
        is_digits(x),
        is_digits(y),
        is_digits(z),
    ensures
        semver_parsed(dotted(x, y, z)) == dotted_version(x, y, z),
{
    let text = dotted(x, y, z);
    if dotted_version(x, y, z) is Some {
        dotted_version_is_written_back(x, y, z);
        version_text_is_read_back(dotted_version(x, y, z)->0);
    } else if exists|version: VersionView| reads_as(text, version) {
        let version = choose|version: VersionView| reads_as(text, version);
        label_text_starts_with_no_digit(version);
        decimal_stands_for_number(version.major as nat);
        decimal_stands_for_number(version.minor as nat);
        decimal_stands_for_number(version.patch as nat);
        assert(text =~= text + Seq::<char>::empty());
        dotted_end_alike(
            x,
            y,
            z,
            Seq::empty(),
            decimal(version.major as nat),
            decimal(version.minor as nat),
            decimal(version.patch as nat),
            label_text(version),
        );
        assert(dotted_version(x, y, z) is Some);
    }
}

/// A text that starts with no digit, or holds nothing but digits, is no
/// version.
pub proof fn no_version_without_dots(text: Seq<char>)
    requires
        !starts_with_digit(text) || is_digits(text),
    ensures
        semver_parsed(text) is None,
{
    if exists|version: VersionView| reads_as(text, version) {
        let version = choose|version: VersionView| reads_as(text, version);
        let major = decimal(version.major as nat);
        decimal_stands_for_number(version.major as nat);
        reveal_strlit(".");
        assert(text[0] == major[0]);
        assert(text[major.len() as int] == '.');
    }
}

/// The texts of the capture groups of a match, if there is one.
pub open spec fn groups_view(groups: Option<Vec<Option<String>>>) -> Option<
    Seq<Option<Seq<char>>>,
> {
    match groups {
        Some(found) => Some(found@.map_values(|group: Option<String>| text_view(group))),
        None => None,
    }
}

/// The capture groups of the first match of the regular expression `pattern`
/// in `text`, the whole match first; nothing where `pattern` is no regular
/// expression or does not match.
pub uninterp spec fn regex_groups(pattern: Seq<char>, text: Seq<char>) -> Option<
    Seq<Option<Seq<char>>>,
>;

/// Calls `regex::Regex::new` on `pattern` and `Regex::captures` on `text`; the
/// groups are those of the name `regex_groups`, and what a group holds stands
/// in `text`.
#[verifier::external_body]
fn capture_groups(pattern: &str, text: &str) -> (groups: Option<Vec<Option<String>>>)
    ensures
        groups_view(groups) == regex_groups(pattern@, text@),
        groups is Some ==> forall|i: int|
            0 <= i < groups->0@.len() && (#[trigger] groups->0@[i]) is Some ==> has_text(
                text@,
                groups->0@[i]->0@,
            ),
{
    let expression = regex::Regex::new(pattern).ok()?;
    let captures = expression.captures(text)?;
    Some(captures.iter().map(|group| group.map(|found| found.as_str().to_string())).collect())
}

/// The groups that the optional pattern of a repository captures in a tag.
pub open spec fn captured_groups(pattern: Option<Seq<char>>, tag: Seq<char>) -> Option<
    Seq<Option<Seq<char>>>,
> {
    match pattern {
        Some(expression) => regex_groups(expression, tag),
        None => None,
    }
}

/// The version text that a dated pattern captures: year, month and a zero.
pub open spec fn captured_text(
    pattern: Option<Seq<char>>,
    groups: Option<Seq<Option<Seq<char>>>>,
) -> Option<Seq<char>> {
    match (pattern, groups) {
        (Some(expression), Some(found)) => if has_text(expression, "(\\d{4})-(\\d+)"@)
            && found.len() > 2 && found[1] is Some && found[2] is Some {
            Some(dotted(found[1]->0, found[2]->0, "0"@))
        } else {
            None
        },
        _ => None,
    }
}

/// A tag without the repository's prefix, a leading `v` and leading hyphens.
pub open spec fn clean_tag(tag: Seq<char>, prefix: Seq<char>) -> Seq<char> {
    without_prefix(without_prefix(without_prefix(tag, prefix), "v"@), "-"@)
}

/// A text with its hyphens and underscores as dots.
pub open spec fn separators_as_dots(text: Seq<char>) -> Seq<char> {
    with_char(with_char(text, '-', '.'), '_', '.')
}

/// The version text made of the first three runs of digits, with zeros for
/// those that are missing; nothing where there is no digit.
pub open spec fn numeric_text(text: Seq<char>) -> Option<Seq<char>> {
    let runs = digit_runs(text);
    if runs.len() == 0 {
        None
    } else if runs.len() == 1 {
        Some(dotted(runs[0], "0"@, "0"@))
    } else if runs.len() == 2 {
        Some(dotted(runs[0], runs[1], "0"@))
    } else {
        Some(dotted(runs[0], runs[1], runs[2]))
    }
}

/// One text, or none.
pub open spec fn as_list(text: Option<Seq<char>>) -> Seq<Seq<char>> {
    match text {
        Some(t) => seq![t],
        None => seq![],
    }
}

/// The texts that may hold the version of a tag, in the order in which they
/// are tried.
pub open spec fn candidate_texts(
    tag: Seq<char>,
    prefix: Seq<char>,
    pattern: Option<Seq<char>>,
    groups: Option<Seq<Option<Seq<char>>>>,
) -> Seq<Seq<char>> {
    let clean = clean_tag(tag, prefix);
    as_list(captured_text(pattern, groups)) + seq![clean, separators_as_dots(clean)] + as_list(
        numeric_text(clean),
    )
}

/// The first version that any of the texts holds.
pub open spec fn first_parsed(texts: Seq<Seq<char>>) -> Option<VersionView>
    decreases texts.len(),
{
    if texts.len() == 0 {
        None
    } else {
        match semver_parsed(texts[0]) {
            Some(version) => Some(version),
            None => first_parsed(texts.skip(1)),
        }
    }
}

/// The version text that a dated pattern captured.
fn text_from_groups(pattern: Option<&str>, groups: &Option<Vec<Option<String>>>) -> (text: Option<
    String,
>)
    ensures
        text_view(text) == captured_text(
            match pattern {
                Some(expression) => Some(expression@),
                None => None,
            },
            groups_view(*groups),
        ),
{
    if let Some(expression) = pattern {
        if let Some(found) = groups {
            if contains(expression, "(\\d{4})-(\\d+)") && found.len() > 2 {
                if let Some(year) = &found[1] {
                    if let Some(month) = &found[2] {
                        return Some(join_dotted(year.as_str(), month.as_str(), "0"));
                    }
                }
            }
        }
    }
    None
}

/// The version text made of the runs of digits in `clean`.
fn text_from_digits(clean: &str) -> (text: Option<String>)
    ensures
        text_view(text) == numeric_text(clean@),
{
    let runs = runs_of_digits(clean);
    let ghost views = text_views(runs@);
    if runs.len() == 0 {
        None
    } else if runs.len() == 1 {
        assert(views[0] == runs@[0]@);
        Some(join_dotted(runs[0].as_str(), "0", "0"))
    } else if runs.len() == 2 {
        assert(views[0] == runs@[0]@ && views[1] == runs@[1]@);
        Some(join_dotted(runs[0].as_str(), runs[1].as_str(), "0"))
    } else {
        assert(views[0] == runs@[0]@ && views[1] == runs@[1]@ && views[2] == runs@[2]@);
        Some(join_dotted(runs[0].as_str(), runs[1].as_str(), runs[2].as_str()))
    }
}

/// The texts that may hold the version of `tag`, given the groups that the
/// repository's pattern captured in it.
pub fn version_candidates(
    tag: &str,
    prefix: &str,
    pattern: Option<&str>,
    groups: &Option<Vec<Option<String>>>,
) -> (texts: Vec<String>)
    ensures
        text_views(texts@) == candidate_texts(
            tag@,
            prefix@,
            match pattern {
                Some(expression) => Some(expression@),
                None => None,
            },
            groups_view(*groups),
        ),
{
    let mut texts: Vec<String> = Vec::new();
    if let Some(text) = text_from_groups(pattern, groups) {
        texts.push(text);
    }
    let trimmed = trim_prefix(tag, prefix);
    let without_v = trim_prefix(trimmed.as_str(), "v");
    let clean = trim_prefix(without_v.as_str(), "-");
    let without_hyphens = replace_char(clean.as_str(), '-', '.');
    let dots = replace_char(without_hyphens.as_str(), '_', '.');
    let numeric = text_from_digits(clean.as_str());
    texts.push(clean);
    texts.push(dots);
    if let Some(text) = numeric {
        texts.push(text);
    }
    assert(text_views(texts@) =~= candidate_texts(
        tag@,
        prefix@,
        match pattern {
            Some(expression) => Some(expression@),
            None => None,
        },
        groups_view(*groups),
    ));
    texts
}

/// The first version that is there.
pub open spec fn first_present(parsed: Seq<Option<VersionView>>) -> Option<VersionView>
    decreases parsed.len(),
{
    if parsed.len() == 0 {
        None
    } else if parsed[0] is Some {
        parsed[0]
    } else {
        first_present(parsed.skip(1))
    }
}

/// Takes the first version that is there.
pub fn first_version(parsed: Vec<Option<Version>>) -> (first: Option<Version>)
    ensures
        version_view(first) == first_present(
            version_views(parsed@),
        ),
{
    let mut rest = parsed;
    let ghost views = version_views(parsed@);
    assert(views.skip(0) =~= views);
    let ghost mut taken: int = 0;
    while rest.len() > 0
        invariant
            0 <= taken <= parsed@.len(),
            rest@ == parsed@.skip(taken),
            views == version_views(parsed@),
            first_present(views) == first_present(views.skip(taken)),
        decreases rest@.len(),
    {
        assert(views.skip(taken)[0] == version_view(rest@[0]));
        let head = rest.remove(0);
        if let Some(version) = head {
            return Some(version);
        }
        proof {
            assert(views.skip(taken).skip(1) =~= views.skip(taken + 1));
            taken = taken + 1;
            assert(rest@ =~= parsed@.skip(taken));
        }
    }
    None
}

/// What the optional pattern of a repository stands for.
pub open spec fn pattern_view(pattern: Option<&str>) -> Option<Seq<char>> {
    match pattern {
        Some(expression) => Some(expression@),
        None => None,
    }
}

proof fn first_parsed_is_first_present(texts: Seq<Seq<char>>)
    ensures
        first_parsed(texts) == first_present(
            texts.map_values(|text: Seq<char>| semver_parsed(text)),
        ),
    decreases texts.len(),
{
    let parsed = texts.map_values(|text: Seq<char>| semver_parsed(text));
    if texts.len() > 0 {
        first_parsed_is_first_present(texts.skip(1));
        assert(parsed.skip(1) =~= texts.skip(1).map_values(|text: Seq<char>| semver_parsed(text)));
        assert(parsed[0] == semver_parsed(texts[0]));
    }
}

proof fn first_parsed_of_some(texts: Seq<Seq<char>>, at: int)
    requires
        0 <= at < texts.len(),
        semver_parsed(texts[at]) is Some,
    ensures
        first_parsed(texts) is Some,
    decreases texts.len(),
{
    if at > 0 && semver_parsed(texts[0]) is None {
        assert(texts.skip(1)[at - 1] == texts[at]);
        first_parsed_of_some(texts.skip(1), at - 1);
    }
}

proof fn first_parsed_of_none(texts: Seq<Seq<char>>)
    requires
        forall|i: int| 0 <= i < texts.len() ==> semver_parsed(#[trigger] texts[i]) is None,
    ensures
        first_parsed(texts) is None,
    decreases texts.len(),
{
    if texts.len() > 0 {
        assert(semver_parsed(texts[0]) is None);
        first_parsed_of_none(texts.skip(1));
    }
}

/// Where nothing before the last of three texts is a version, the last one
/// decides.
proof fn first_parsed_is_last(texts: Seq<Seq<char>>)
    requires
        texts.len() == 3,
        semver_parsed(texts[0]) is None,
        semver_parsed(texts[1]) is None,
    ensures
        first_parsed(texts) == semver_parsed(texts[2]),
{
    reveal_with_fuel(first_parsed, 4);
    let rest = texts.skip(1);
    assert(rest[0] == texts[1]);
    assert(rest.skip(1)[0] == texts[2]);
    assert(rest.skip(1).skip(1).len() == 0);
}

/// The three runs of digits, or the zeros in their place, that
/// [`numeric_text`] is made of.
pub open spec fn numeric_parts(text: Seq<char>) -> (Seq<char>, Seq<char>, Seq<char>) {
    let runs = digit_runs(text);
    (
        runs[0],
        if runs.len() > 1 {
            runs[1]
        } else {
            "0"@
        },
        if runs.len() > 2 {
            runs[2]
        } else {
            "0"@
        },
    )
}

/// The first three runs of digits in `text` make a version.
pub open spec fn has_numeric_version(text: Seq<char>) -> bool {
    let (x, y, z) = numeric_parts(text);
    digit_runs(text).len() > 0 && dotted_version(x, y, z) is Some
}

/// The version that a tag stands for: the first version among the candidate
/// texts.
pub open spec fn tag_version(
    tag: Seq<char>,
    prefix: Seq<char>,
    pattern: Option<Seq<char>>,
) -> Option<VersionView> {
    first_parsed(candidate_texts(tag, prefix, pattern, captured_groups(pattern, tag)))
}

/// Nothing of the text of a version is cleaned away, and of a prefix that
/// stands before it nothing is left, unless the prefix starts with a digit.
pub proof fn version_text_is_clean(prefix: Seq<char>, version: VersionView)
    requires
        !starts_with_digit(prefix),
    ensures
        clean_tag(prefix + version_text(version), prefix) == version_text(version),
        starts_with_digit(version_text(version)),
{
    let text = version_text(version);
    decimal_stands_for_number(version.major as nat);
    assert(text[0] == decimal(version.major as nat)[0]);
    let tag = prefix + text;
    if prefix.len() > 0 {
        assert(tag.subrange(0, prefix.len() as int) =~= prefix);
        assert(tag.skip(prefix.len() as int) =~= text);
        if occurs_at(text, prefix, 0) {
            assert(text.subrange(0, prefix.len() as int)[0] == text[0]);
        }
        assert(without_prefix(text, prefix) == text);
    } else {
        assert(tag =~= text);
    }
    assert(without_prefix(tag, prefix) == text);
    reveal_strlit("v");
    reveal_strlit("-");
    if occurs_at(text, "v"@, 0) {
        assert(text.subrange(0, 1)[0] == text[0]);
    }
    if occurs_at(text, "-"@, 0) {
        assert(text.subrange(0, 1)[0] == text[0]);
    }
}

/// No character of `text` is a digit.
pub open spec fn has_no_digit(text: Seq<char>) -> bool {
    forall|i: int| 0 <= i < text.len() ==> !is_digit(#[trigger] text[i])
}

proof fn trimmed_has_no_digit(text: Seq<char>, prefix: Seq<char>)
    requires
        has_no_digit(text),
    ensures
        has_no_digit(without_prefix(text, prefix)),
    decreases text.len(),
{
    if prefix.len() > 0 && occurs_at(text, prefix, 0) {
        trimmed_has_no_digit(text.skip(prefix.len() as int), prefix);
    }
}

proof fn no_runs_without_digit(text: Seq<char>)
    requires
        has_no_digit(text),
    ensures
        digit_runs(text).len() == 0,
    decreases text.len(),
{
    if text.len() > 0 {
        no_runs_without_digit(text.skip(1));
    }
}

/// Where neither the tag nor what a pattern captured in it holds a digit, no
/// candidate text starts with one.
pub proof fn no_candidate_without_digit(
    tag: Seq<char>,
    prefix: Seq<char>,
    pattern: Option<Seq<char>>,
    groups: Option<Seq<Option<Seq<char>>>>,
)
    requires
        has_no_digit(tag),
        groups is Some ==> forall|i: int|
            0 <= i < groups->0.len() && (#[trigger] groups->0[i]) is Some ==> has_no_digit(
                groups->0[i]->0,
            ),
    ensures
        forall|i: int|
            0 <= i < candidate_texts(tag, prefix, pattern, groups).len() ==> !starts_with_digit(
                #[trigger] candidate_texts(tag, prefix, pattern, groups)[i],
            ),
{
    let texts = candidate_texts(tag, prefix, pattern, groups);
    let clean = clean_tag(tag, prefix);
    trimmed_has_no_digit(tag, prefix);
    trimmed_has_no_digit(without_prefix(tag, prefix), "v"@);
    trimmed_has_no_digit(without_prefix(without_prefix(tag, prefix), "v"@), "-"@);
    no_runs_without_digit(clean);
    let captured = as_list(captured_text(pattern, groups));
    assert forall|i: int| 0 <= i < texts.len() implies !starts_with_digit(#[trigger] texts[i]) by {
        if i < captured.len() {
            let year = groups->0[1]->0;
            let month = groups->0[2]->0;
            reveal_strlit(".");
            assert(texts[i] == dotted(year, month, "0"@));
            if year.len() > 0 {
                assert(texts[i][0] == year[0]);
            } else {
                assert(texts[i][0] == '.');
            }
        } else if i == captured.len() {
            assert(texts[i] == clean);
        } else {
            assert(texts[i] == separators_as_dots(clean));
        }
    }
}

/// A text of digits is its own only run, and no separator stands in it.
proof fn digits_are_one_run(text: Seq<char>)
    requires
        is_digits(text),
    ensures
        digit_runs(text) == seq![text],
        separators_as_dots(text) == text,
{
    leading_digits_are_digits(text);
    let len = leading_digits(text) as int;
    if len < text.len() {
        assert(is_digit(text[len]));
    }
    assert(is_digit(text[0]));
    assert(text.take(len) =~= text);
    assert(text.skip(len) =~= Seq::<char>::empty());
    assert(digit_runs(text.skip(len)) =~= Seq::<Seq<char>>::empty());
    assert(digit_runs(text) =~= seq![text]);
    assert(separators_as_dots(text) =~= text);
}

// ---------------------------------------------------------------------------
// What holds of the versions of tags
// ---------------------------------------------------------------------------

/// The text of a version is its three numbers in decimal with dots between
/// them, then the pre-release identifiers behind a hyphen, then the build
/// metadata behind a plus sign.
pub proof fn version_is_written_in_order(version: VersionView)
    ensures
        version.pre.len() == 0 && version.build.len() == 0 ==> version_text(version) == decimal(
            version.major as nat,
        ) + "."@ + decimal(version.minor as nat) + "."@ + decimal(version.patch as nat),
        version.pre.len() > 0 && version.build.len() == 0 ==> version_text(version) == decimal(
            version.major as nat,
        ) + "."@ + decimal(version.minor as nat) + "."@ + decimal(version.patch as nat) + "-"@
            + version.pre,
        version.pre.len() == 0 && version.build.len() > 0 ==> version_text(version) == decimal(
            version.major as nat,
        ) + "."@ + decimal(version.minor as nat) + "."@ + decimal(version.patch as nat) + "+"@
            + version.build,
        version.pre.len() > 0 && version.build.len() > 0 ==> version_text(version) == decimal(
            version.major as nat,
        ) + "."@ + decimal(version.minor as nat) + "."@ + decimal(version.patch as nat) + "-"@
            + version.pre + "+"@ + version.build,
{
    let numbers = decimal(version.major as nat) + "."@ + decimal(version.minor as nat) + "."@
        + decimal(version.patch as nat);
    assert(version.pre.len() == 0 && version.build.len() == 0 ==> version_text(version)
        =~= numbers);
    assert(version.pre.len() > 0 && version.build.len() == 0 ==> version_text(version) =~= numbers
        + "-"@ + version.pre);
    assert(version.pre.len() == 0 && version.build.len() > 0 ==> version_text(version) =~= numbers
        + "+"@ + version.build);
    assert(version.pre.len() > 0 && version.build.len() > 0 ==> version_text(version) =~= numbers
        + "-"@ + version.pre + "+"@ + version.build);
}

/// A year and a month that a dated pattern captures in a tag are the first two
/// numbers of the tag's version, whatever else the tag holds, and the third is
/// zero.
pub proof fn captured_date_is_the_version(
    tag: Seq<char>,
    prefix: Seq<char>,
    pattern: Seq<char>,
    groups: Seq<Option<Seq<char>>>,
    year: Seq<char>,
    month: Seq<char>,
)
    requires
        has_text(pattern, "(\\d{4})-(\\d+)"@),
        regex_groups(pattern, tag) == Some(groups),
        groups.len() > 2,
        groups[1] == Some(year),
        groups[2] == Some(month),
        is_canonical(year) && number(year) <= u64::MAX,
        is_canonical(month) && number(month) <= u64::MAX,
    ensures
        tag_version(tag, prefix, Some(pattern)) is Some,
        version_text(tag_version(tag, prefix, Some(pattern))->0) == year + "."@ + month + ".0"@,
        ({
            let version = tag_version(tag, prefix, Some(pattern))->0;
            &&& version.major == number(year)
            &&& version.minor == number(month)
            &&& version.patch == 0
            &&& version.pre.len() == 0
            &&& version.build.len() == 0
        }),
{
    reveal_strlit("0");
    reveal_strlit(".0");
    reveal_strlit(".");
    assert("0"@ =~= seq!['0']);
    assert("0"@.drop_last() =~= Seq::<char>::empty());
    assert(number("0"@.drop_last()) == 0);
    let texts = candidate_texts(tag, prefix, Some(pattern), Some(groups));
    assert(texts[0] == dotted(year, month, "0"@));
    dotted_digits_are_read(year, month, "0"@);
    dotted_version_is_written_back(year, month, "0"@);
    assert(dotted(year, month, "0"@) =~= year + "."@ + month + ".0"@);
}

/// Where the repository's pattern does not match, the prefix and then the text
/// of a version is a tag with that version; so is the prefix, a `v` and then
/// the text, where the prefix has no digit.
pub proof fn written_version_is_the_version(
    tag: Seq<char>,
    prefix: Seq<char>,
    pattern: Option<Seq<char>>,
    version: VersionView,
)
    requires
        pattern is Some ==> regex_groups(pattern->0, tag) is None,
        has_labels(version),
    ensures
        !starts_with_digit(prefix) && tag == prefix + version_text(version) ==> tag_version(
            tag,
            prefix,
            pattern,
        ) == Some(version),
        has_no_digit(prefix) && tag == prefix + "v"@ + version_text(version) ==> tag_version(
            tag,
            prefix,
            pattern,
        ) == Some(version),
{
    let text = version_text(version);
    let groups = captured_groups(pattern, tag);
    let texts = candidate_texts(tag, prefix, pattern, groups);
    assert(texts[0] == clean_tag(tag, prefix));
    version_text_is_read_back(version);
    if !starts_with_digit(prefix) && tag == prefix + text {
        version_text_is_clean(prefix, version);
    }
    if has_no_digit(prefix) && tag == prefix + "v"@ + text {
        version_text_is_clean(Seq::empty(), version);
        assert(starts_with_digit(text));
        reveal_strlit("v");
        reveal_strlit("-");
        let behind = "v"@ + text;
        if prefix.len() > 0 {
            assert(tag.subrange(0, prefix.len() as int) =~= prefix);
            assert(tag.skip(prefix.len() as int) =~= behind);
            assert(without_prefix(tag, prefix) == without_prefix(behind, prefix));
            if occurs_at(behind, prefix, 0) {
                assert(behind.subrange(0, prefix.len() as int)[0] == behind[0]);
                if prefix.len() > 1 {
                    assert(behind.subrange(0, prefix.len() as int)[1] == text[0]);
                }
                assert(behind.skip(prefix.len() as int) =~= text);
                if occurs_at(text, prefix, 0) {
                    assert(text.subrange(0, prefix.len() as int)[0] == text[0]);
                }
                assert(without_prefix(text, prefix) == text);
            }
        } else {
            assert(tag =~= behind);
        }
        assert(without_prefix(tag, prefix) == behind || without_prefix(tag, prefix) == text);
        if occurs_at(text, "v"@, 0) {
            assert(text.subrange(0, 1)[0] == text[0]);
        }
        assert(behind.subrange(0, 1) =~= "v"@);
        assert(behind.skip(1) =~= text);
        assert(without_prefix(without_prefix(tag, prefix), "v"@) == text);
        if occurs_at(text, "-"@, 0) {
            assert(text.subrange(0, 1)[0] == text[0]);
        }
        assert(clean_tag(tag, prefix) == text);
    }
}

/// What is cleaned away from a tag is the prefix, then `v`, then hyphens, each
/// as often as it stands there.
pub proof fn cleaning_removes_prefix_v_and_hyphens(tag: Seq<char>, prefix: Seq<char>) -> (times: (
    nat,
    nat,
    nat,
))
    ensures
        tag == repeated(prefix, times.0) + repeated("v"@, times.1) + repeated("-"@, times.2)
            + clean_tag(tag, prefix),
        prefix.len() > 0 ==> !prefix.is_prefix_of(
            repeated("v"@, times.1) + repeated("-"@, times.2) + clean_tag(tag, prefix),
        ),
        !"v"@.is_prefix_of(repeated("-"@, times.2) + clean_tag(tag, prefix)),
        !"-"@.is_prefix_of(clean_tag(tag, prefix)),
{
    reveal_strlit("v");
    reveal_strlit("-");
    let trimmed = without_prefix(tag, prefix);
    let without_v = without_prefix(trimmed, "v"@);
    let a = prefix_is_removed_as_often_as_it_stands_there(tag, prefix);
    let b = prefix_is_removed_as_often_as_it_stands_there(trimmed, "v"@);
    let c = prefix_is_removed_as_often_as_it_stands_there(without_v, "-"@);
    let clean = clean_tag(tag, prefix);
    assert(repeated("v"@, b) + repeated("-"@, c) + clean =~= trimmed);
    assert(repeated(prefix, a) + repeated("v"@, b) + repeated("-"@, c) + clean =~= repeated(
        prefix,
        a,
    ) + trimmed);
    (a, b, c)
}

/// The text of a version has at least three runs of digits.
proof fn versions_have_three_runs(text: Seq<char>)
    requires
        semver_parsed(text) is Some,
    ensures
        digit_runs(text).len() >= 3,
{
    let version = choose|version: VersionView| reads_as(text, version);
    let x = decimal(version.major as nat);
    let y = decimal(version.minor as nat);
    let z = decimal(version.patch as nat);
    let rest = label_text(version);
    decimal_stands_for_number(version.major as nat);
    decimal_stands_for_number(version.minor as nat);
    decimal_stands_for_number(version.patch as nat);
    label_text_starts_with_no_digit(version);
    reveal_strlit(".");
    let behind_y = "."@ + z + rest;
    let behind_x = "."@ + y + behind_y;
    assert(text =~= Seq::<char>::empty() + x + behind_x);
    runs_are_found_in_order(Seq::empty(), x, behind_x);
    runs_are_found_in_order("."@, y, behind_y);
    runs_are_found_in_order("."@, z, rest);
}

proof fn prefix_without_digit_keeps_runs(text: Seq<char>, prefix: Seq<char>)
    requires
        has_no_digit(prefix),
    ensures
        digit_runs(without_prefix(text, prefix)) == digit_runs(text),
    decreases text.len(),
{
    if prefix.len() > 0 && occurs_at(text, prefix, 0) {
        let rest = text.skip(prefix.len() as int);
        prefix_without_digit_keeps_runs(rest, prefix);
        assert(text =~= text.subrange(0, prefix.len() as int) + rest);
        other_characters_are_skipped(prefix, rest);
    }
}

proof fn character_keeps_runs(text: Seq<char>, from: char, to: char)
    requires
        !is_digit(from),
        !is_digit(to),
    ensures
        digit_runs(with_char(text, from, to)) == digit_runs(text),
    decreases text.len(),
{
    let changed = with_char(text, from, to);
    if text.len() > 0 {
        if is_digit(text[0]) {
            leading_digits_are_digits(text);
            let len = leading_digits(text) as int;
            let run = text.take(len);
            let rest = text.skip(len);
            character_keeps_runs(rest, from, to);
            assert(is_digits(run)) by {
                assert forall|i: int| 0 <= i < run.len() implies is_digit(#[trigger] run[i]) by {
                    assert(run[i] == text[i]);
                }
            }
            assert forall|i: int| 0 <= i < len implies changed[i] == run[i] by {
                assert(is_digit(text[i]));
            }
            assert(changed =~= Seq::<char>::empty() + run + with_char(rest, from, to));
            if rest.len() > 0 {
                assert(rest[0] == text[len]);
                assert(with_char(rest, from, to)[0] == if rest[0] == from { to } else { rest[0] });
            }
            runs_are_found_in_order(Seq::empty(), run, with_char(rest, from, to));
        } else {
            character_keeps_runs(text.skip(1), from, to);
            assert(changed[0] == if text[0] == from { to } else { text[0] });
            assert(changed.skip(1) =~= with_char(text.skip(1), from, to));
        }
    }
}

/// A pattern decides only where it holds a dated group, matches, and captures a
/// year and a month that make a version with a zero behind them. In all other
/// cases the tag is read as if there were no pattern.
pub proof fn pattern_decides_or_does_not_matter(
    tag: Seq<char>,
    prefix: Seq<char>,
    pattern: Seq<char>,
)
    ensures
        ({
            let groups = regex_groups(pattern, tag);
            let dated = has_text(pattern, "(\\d{4})-(\\d+)"@) && groups is Some && groups->0.len()
                > 2 && groups->0[1] is Some && groups->0[2] is Some;
            let captured = semver_parsed(groups->0[1]->0 + "."@ + groups->0[2]->0 + ".0"@);
            tag_version(tag, prefix, Some(pattern)) == if dated && captured is Some {
                captured
            } else {
                tag_version(tag, prefix, None)
            }
        }),
{
    let groups = regex_groups(pattern, tag);
    let with = candidate_texts(tag, prefix, Some(pattern), groups);
    let without = candidate_texts(tag, prefix, None, None);
    reveal_strlit("0");
    reveal_strlit(".0");
    reveal_strlit(".");
    if captured_text(Some(pattern), groups) is Some {
        let (year, month) = (groups->0[1]->0, groups->0[2]->0);
        assert(dotted(year, month, "0"@) =~= year + "."@ + month + ".0"@);
        assert(with[0] == dotted(year, month, "0"@));
        assert(with.skip(1) =~= without);
    } else {
        assert(with =~= without);
    }
}

/// Without a pattern the cleaned tag is read as it is; if it is no version,
/// with dots for its hyphens and underscores; if that is none either, as its
/// first three numbers with zeros for those that are missing; and a tag without
/// any number has no version.
pub proof fn cleaned_tag_is_read_in_three_ways(tag: Seq<char>, prefix: Seq<char>)
    ensures
        ({
            let clean = clean_tag(tag, prefix);
            let dots = with_char(with_char(clean, '-', '.'), '_', '.');
            let runs = digit_runs(clean);
            let zero = "0"@;
            tag_version(tag, prefix, None) == if semver_parsed(clean) is Some {
                semver_parsed(clean)
            } else if semver_parsed(dots) is Some {
                semver_parsed(dots)
            } else if runs.len() >= 3 {
                semver_parsed(runs[0] + "."@ + runs[1] + "."@ + runs[2])
            } else if runs.len() == 2 {
                semver_parsed(runs[0] + "."@ + runs[1] + "."@ + zero)
            } else if runs.len() == 1 {
                semver_parsed(runs[0] + "."@ + zero + "."@ + zero)
            } else {
                None
            }
        }),
{
    let texts = candidate_texts(tag, prefix, None, None);
    let clean = clean_tag(tag, prefix);
    assert(texts[0] == clean);
    assert(texts[1] == separators_as_dots(clean));
    assert(texts.skip(1)[0] == texts[1]);
    reveal_with_fuel(first_parsed, 4);
    if digit_runs(clean).len() > 0 {
        assert(texts.len() == 3);
        assert(texts.skip(1).skip(1)[0] == texts[2]);
        assert(texts.skip(1).skip(1).skip(1).len() == 0);
    } else {
        assert(texts.len() == 2);
        assert(texts.skip(1).skip(1).len() == 0);
    }
}

/// Where the repository's pattern does not match and the prefix has no digit,
/// a tag with one or two numbers stands for the version with these numbers, and
/// zeros for the missing ones, whatever other characters the tag holds.
pub proof fn missing_numbers_are_zero(
    tag: Seq<char>,
    prefix: Seq<char>,
    pattern: Option<Seq<char>>,
)
    requires
        pattern is Some ==> regex_groups(pattern->0, tag) is None,
        has_no_digit(prefix),
    ensures
        digit_runs(tag).len() == 1 ==> tag_version(tag, prefix, pattern) == dotted_version(
            digit_runs(tag)[0],
            "0"@,
            "0"@,
        ),
        digit_runs(tag).len() == 2 ==> tag_version(tag, prefix, pattern) == dotted_version(
            digit_runs(tag)[0],
            digit_runs(tag)[1],
            "0"@,
        ),
{
    let clean = clean_tag(tag, prefix);
    let dots = separators_as_dots(clean);
    let runs = digit_runs(tag);
    reveal_strlit("v");
    reveal_strlit("-");
    reveal_strlit("0");
    assert("0"@ =~= seq!['0']);
    prefix_without_digit_keeps_runs(tag, prefix);
    prefix_without_digit_keeps_runs(without_prefix(tag, prefix), "v"@);
    prefix_without_digit_keeps_runs(without_prefix(without_prefix(tag, prefix), "v"@), "-"@);
    character_keeps_runs(clean, '-', '.');
    character_keeps_runs(with_char(clean, '-', '.'), '_', '.');
    if runs.len() == 1 || runs.len() == 2 {
        let texts = candidate_texts(tag, prefix, pattern, captured_groups(pattern, tag));
        assert(texts[0] == clean);
        assert(texts[1] == dots);
        if semver_parsed(clean) is Some {
            versions_have_three_runs(clean);
        }
        if semver_parsed(dots) is Some {
            versions_have_three_runs(dots);
        }
        first_parsed_is_last(texts);
        digit_runs_are_digits(tag);
        assert(is_digits(runs[0]));
        if runs.len() == 1 {
            assert(texts[2] == dotted(runs[0], "0"@, "0"@));
            dotted_digits_are_read(runs[0], "0"@, "0"@);
        } else {
            assert(is_digits(runs[1]));
            assert(texts[2] == dotted(runs[0], runs[1], "0"@));
            dotted_digits_are_read(runs[0], runs[1], "0"@);
        }
    }
}

/// Where the repository's pattern does not match, three numbers with hyphens,
/// underscores or dots between them, behind a prefix that starts with no digit,
/// are a tag with the version of these numbers.
pub proof fn separated_numbers_are_the_version(
    prefix: Seq<char>,
    pattern: Option<Seq<char>>,
    x: Seq<char>,
    first: char,
    y: Seq<char>,
    second: char,
    z: Seq<char>,
)
    requires
        pattern is Some ==> regex_groups(
            pattern->0,
            prefix + (x + seq![first] + y + seq![second] + z),
        ) is None,
        !starts_with_digit(prefix),
        first == '-' || first == '_' || first == '.',
        second == '-' || second == '_' || second == '.',
        is_canonical(x) && number(x) <= u64::MAX,
        is_canonical(y) && number(y) <= u64::MAX,
        is_canonical(z) && number(z) <= u64::MAX,
    ensures
        ({
            let tag = prefix + (x + seq![first] + y + seq![second] + z);
            let version = tag_version(tag, prefix, pattern);
            &&& version is Some
            &&& version_text(version->0) == x + "."@ + y + "."@ + z
            &&& version->0.major == number(x)
            &&& version->0.minor == number(y)
            &&& version->0.patch == number(z)
        }),
{
    let text = x + seq![first] + y + seq![second] + z;
    let tag = prefix + text;
    reveal_strlit(".");
    assert(is_digit(x[0]) && text[0] == x[0]);
    digit_ends_cleaning(prefix, text);
    let clean = clean_tag(tag, prefix);
    let dots = separators_as_dots(clean);
    let digits = dotted(x, y, z);
    separators_become_dots(x, first, y, second, z);
    dotted_digits_are_read(x, y, z);
    dotted_version_is_written_back(x, y, z);
    let texts = candidate_texts(tag, prefix, pattern, captured_groups(pattern, tag));
    assert(texts[0] == clean);
    assert(texts[1] == dots);
    reveal_with_fuel(first_parsed, 3);
    assert(texts.skip(1)[0] == texts[1]);
    if semver_parsed(clean) is Some {
        let read = choose|version: VersionView| reads_as(clean, version);
        label_text_starts_with_no_digit(read);
        decimal_stands_for_number(read.major as nat);
        decimal_stands_for_number(read.minor as nat);
        decimal_stands_for_number(read.patch as nat);
        same_separators(
            x,
            first,
            y,
            second,
            z,
            decimal(read.major as nat),
            decimal(read.minor as nat),
            decimal(read.patch as nat),
            label_text(read),
        );
        assert(clean =~= digits);
    }
}

/// Cleaning a tag ends where a digit stands behind the prefix.
proof fn digit_ends_cleaning(prefix: Seq<char>, text: Seq<char>)
    requires
        !starts_with_digit(prefix),
        starts_with_digit(text),
    ensures
        clean_tag(prefix + text, prefix) == text,
{
    let tag = prefix + text;
    reveal_strlit("v");
    reveal_strlit("-");
    if prefix.len() > 0 {
        assert(tag.subrange(0, prefix.len() as int) =~= prefix);
        assert(tag.skip(prefix.len() as int) =~= text);
        if occurs_at(text, prefix, 0) {
            assert(text.subrange(0, prefix.len() as int)[0] == text[0]);
        }
        assert(without_prefix(text, prefix) == text);
    } else {
        assert(tag =~= text);
    }
    assert(without_prefix(tag, prefix) == text);
    if occurs_at(text, "v"@, 0) {
        assert(text.subrange(0, 1)[0] == text[0]);
    }
    if occurs_at(text, "-"@, 0) {
        assert(text.subrange(0, 1)[0] == text[0]);
    }
}

proof fn dots_in_parts(a: Seq<char>, b: Seq<char>)
    ensures
        separators_as_dots(a + b) == separators_as_dots(a) + separators_as_dots(b),
{
    assert(separators_as_dots(a + b) =~= separators_as_dots(a) + separators_as_dots(b));
}

/// Hyphens, underscores and dots between three runs of digits become dots.
proof fn separators_become_dots(
    x: Seq<char>,
    first: char,
    y: Seq<char>,
    second: char,
    z: Seq<char>,
)
    requires
        is_digits(x) && is_digits(y) && is_digits(z),
        first == '-' || first == '_' || first == '.',
        second == '-' || second == '_' || second == '.',
    ensures
        separators_as_dots(x + seq![first] + y + seq![second] + z) == dotted(x, y, z),
{
    reveal_strlit(".");
    digits_are_one_run(x);
    digits_are_one_run(y);
    digits_are_one_run(z);
    dots_in_parts(x, seq![first]);
    dots_in_parts(x + seq![first], y);
    dots_in_parts(x + seq![first] + y, seq![second]);
    dots_in_parts(x + seq![first] + y + seq![second], z);
    assert(separators_as_dots(seq![first]) =~= "."@);
    assert(separators_as_dots(seq![second]) =~= "."@);
}

/// Three runs of digits that a version starts with have dots between them.
proof fn same_separators(
    x: Seq<char>,
    first: char,
    y: Seq<char>,
    second: char,
    z: Seq<char>,
    a: Seq<char>,
    b: Seq<char>,
    c: Seq<char>,
    rest: Seq<char>,
)
    requires
        is_digits(x) && is_digits(y) && is_digits(z),
        is_digits(a) && is_digits(b) && is_digits(c),
        !is_digit(first) && !is_digit(second),
        !starts_with_digit(rest),
        x + seq![first] + y + seq![second] + z == dotted(a, b, c) + rest,
    ensures
        first == '.',
        second == '.',
{
    reveal_strlit(".");
    let behind_y = seq![second] + z;
    let other_behind_y = "."@ + (c + rest);
    let behind_x = seq![first] + (y + behind_y);
    let other_behind_x = "."@ + (b + other_behind_y);
    assert(x + seq![first] + y + seq![second] + z =~= x + behind_x);
    assert(dotted(a, b, c) + rest =~= a + other_behind_x);
    digits_end_alike(x, behind_x, a, other_behind_x);
    assert(behind_x[0] == other_behind_x[0]);
    assert(behind_x.skip(1) =~= y + behind_y);
    assert(other_behind_x.skip(1) =~= b + other_behind_y);
    digits_end_alike(y, behind_y, b, other_behind_y);
    assert(behind_y[0] == other_behind_y[0]);
}

/// Reads the version from a tag.
///
/// A dated pattern that matches decides where year and month are numbers.
/// Where it does not match, a tag that is the text of a version, once it is
/// cleaned, is that version; so is such a text behind the prefix, unless the
/// prefix starts with a digit. A cleaned tag that starts with no digit, or
/// holds nothing but digits, is the version that its first three runs of
/// digits make, with zeros for those that are missing. A tag whose first three
/// runs of digits make a version always has a version, and a tag without any
/// digit has none.
pub fn parse_version(tag: &str, prefix: &str, pattern: Option<&str>) -> (version: Option<Version>)
    ensures
        version_view(version) == tag_version(tag@, prefix@, pattern_view(pattern)),
        captured_text(pattern_view(pattern), captured_groups(pattern_view(pattern), tag@)) is Some
            ==> ({
            let groups = captured_groups(pattern_view(pattern), tag@)->0;
            let (year, month) = (groups[1]->0, groups[2]->0);
            is_digits(year) && is_digits(month) && dotted_version(year, month, "0"@) is Some
                ==> version_view(version) == dotted_version(year, month, "0"@)
        }),
        captured_text(pattern_view(pattern), captured_groups(pattern_view(pattern), tag@)) is None
            ==> {
            let clean = clean_tag(tag@, prefix@);
            let (x, y, z) = numeric_parts(clean);
            &&& forall|written: VersionView|
                has_labels(written) && clean == #[trigger] version_text(written) ==> version_view(
                    version,
                ) == Some(written)
            &&& !starts_with_digit(prefix@) ==> forall|written: VersionView|
                has_labels(written) && tag@ == prefix@ + #[trigger] version_text(written)
                    ==> version_view(version) == Some(written)
            &&& !starts_with_digit(clean) && digit_runs(clean).len() > 0 ==> version_view(version)
                == dotted_version(x, y, z)
            &&& is_digits(clean) ==> version_view(version) == dotted_version(clean, "0"@, "0"@)
        },
        has_numeric_version(clean_tag(tag@, prefix@)) ==> version is Some,
        has_no_digit(tag@) ==> version is None,
{
    let groups = match pattern {
        Some(expression) => capture_groups(expression, tag),
        None => None,
    };
    let texts = version_candidates(tag, prefix, pattern, &groups);
    let ghost candidates = text_views(texts@);
    let mut parsed: Vec<Option<Version>> = Vec::new();
    let mut i: usize = 0;
    while i < texts.len()
        invariant
            i <= texts@.len(),
            parsed@.len() == i,
            candidates == text_views(texts@),
            forall|j: int|
                0 <= j < i ==> version_view(#[trigger] parsed@[j]) == semver_parsed(candidates[j]),
        decreases texts@.len() - i,
    {
        let version = parse_semver(texts[i].as_str());
        parsed.push(version);
        assert(candidates[i as int] == texts@[i as int]@);
        i = i + 1;
    }
    proof {
        let views = version_views(parsed@);
        assert(views =~= candidates.map_values(|text: Seq<char>| semver_parsed(text)));
        first_parsed_is_first_present(candidates);
        reveal_strlit("0");
        assert("0"@ =~= seq!['0']);
        let captured = captured_text(pattern_view(pattern), groups_view(groups));
        let clean = clean_tag(tag@, prefix@);
        let last = candidates.len() - 1;
        let (x, y, z) = numeric_parts(clean);
        digit_runs_are_digits(clean);
        if digit_runs(clean).len() > 0 {
            assert(candidates[last] == dotted(x, y, z));
            dotted_digits_are_read(x, y, z);
        }
        if captured is Some {
            let found = groups_view(groups)->0;
            let (year, month) = (found[1]->0, found[2]->0);
            assert(candidates[0] == dotted(year, month, "0"@));
            if is_digits(year) && is_digits(month) {
                dotted_digits_are_read(year, month, "0"@);
            }
        } else {
            let dots = separators_as_dots(clean);
            assert(candidates[0] == clean);
            assert(candidates[1] == dots);
            assert forall|written: VersionView|
                has_labels(written) && clean == #[trigger] version_text(written) implies first_parsed(
                candidates,
            ) == Some(written) by {
                version_text_is_read_back(written);
            }
            if !starts_with_digit(prefix@) {
                assert forall|written: VersionView|
                    has_labels(written) && tag@ == prefix@ + #[trigger] version_text(
                        written,
                    ) implies first_parsed(candidates) == Some(written) by {
                    version_text_is_clean(prefix@, written);
                    version_text_is_read_back(written);
                }
            }
            if (!starts_with_digit(clean) || is_digits(clean)) && digit_runs(clean).len() > 0 {
                assert(starts_with_digit(dots) ==> starts_with_digit(clean));
                if is_digits(clean) {
                    digits_are_one_run(clean);
                }
                no_version_without_dots(clean);
                no_version_without_dots(dots);
                first_parsed_is_last(candidates);
            }
            if is_digits(clean) {
                digits_are_one_run(clean);
            }
        }
        if has_numeric_version(clean) {
            first_parsed_of_some(candidates, last);
        }
        if has_no_digit(tag@) {
            let found = groups_view(groups);
            if found is Some {
                assert forall|i: int|
                    0 <= i < found->0.len() && (#[trigger] found->0[i]) is Some implies has_no_digit(
                    found->0[i]->0,
                ) by {
                    assert(found->0[i] == text_view(groups->0@[i]));
                    let part = found->0[i]->0;
                    let at = choose|at: int| occurs_at(tag@, part, at);
                    assert forall|j: int| 0 <= j < part.len() implies !is_digit(
                        #[trigger] part[j],
                    ) by {
                        assert(part[j] == tag@[at + j]);
                    }
                }
            }
            no_candidate_without_digit(tag@, prefix@, pattern_view(pattern), found);
            assert forall|i: int| 0 <= i < candidates.len() implies semver_parsed(
                #[trigger] candidates[i],
            ) is None by {
                no_version_without_dots(candidates[i]);
            }
            first_parsed_of_none(candidates);
        }
    }
    first_version(parsed)
}

// ---------------------------------------------------------------------------
// Comparing
// ---------------------------------------------------------------------------

/// How one version stands to another.
#[derive(Debug, Clone, Copy, PartialEq, Eq, Structural)]
pub enum Precedence {
    Lower,
    Same,
    Higher,
}

impl Precedence {
    /// How the other version stands to this one.
    pub open spec fn reversed(self) -> Precedence {
        match self {
            Precedence::Lower => Precedence::Higher,
            Precedence::Same => Precedence::Same,
            Precedence::Higher => Precedence::Lower,
        }
    }
}

/// How pre-release identifiers stand to other ones, where there are any on
/// both sides and they differ.
pub uninterp spec fn semver_pre_order(pre: Seq<char>, other: Seq<char>) -> Precedence;

/// How build metadata stands to other, where there is any on both sides and
/// it differs.
pub uninterp spec fn semver_build_order(build: Seq<char>, other: Seq<char>) -> Precedence;

/// How two numbers stand to each other.
pub open spec fn number_order(a: u64, b: u64) -> Precedence {
    if a < b {
        Precedence::Lower
    } else if a > b {
        Precedence::Higher
    } else {
        Precedence::Same
    }
}

/// How pre-release identifiers stand to other ones: a real release, which has
/// none, is higher than what has some.
pub open spec fn pre_order(pre: Seq<char>, other: Seq<char>) -> Precedence {
    if pre == other {
        Precedence::Same
    } else if pre.len() == 0 {
        Precedence::Higher
    } else if other.len() == 0 {
        Precedence::Lower
    } else {
        semver_pre_order(pre, other)
    }
}

/// How build metadata stands to other: what has none is lower than what has
/// some.
pub open spec fn build_order(build: Seq<char>, other: Seq<char>) -> Precedence {
    if build == other {
        Precedence::Same
    } else if build.len() == 0 {
        Precedence::Lower
    } else if other.len() == 0 {
        Precedence::Higher
    } else {
        semver_build_order(build, other)
    }
}

/// Two versions have the same three numbers.
pub open spec fn same_numbers(a: VersionView, b: VersionView) -> bool {
    a.major == b.major && a.minor == b.minor && a.patch == b.patch
}

/// How two versions stand to each other: the three numbers decide in turn,
/// then the pre-release identifiers, then the build metadata.
pub open spec fn version_order(a: VersionView, b: VersionView) -> Precedence {
    if a.major != b.major {
        number_order(a.major, b.major)
    } else if a.minor != b.minor {
        number_order(a.minor, b.minor)
    } else if a.patch != b.patch {
        number_order(a.patch, b.patch)
    } else if a.pre != b.pre {
        pre_order(a.pre, b.pre)
    } else {
        build_order(a.build, b.build)
    }
}

/// A release is higher than its pre-releases.
pub proof fn release_outranks_its_prereleases(release: VersionView, prerelease: VersionView)
    requires
        same_numbers(release, prerelease),
        release.pre.len() == 0,
        prerelease.pre.len() > 0,
    ensures
        version_order(release, prerelease) == Precedence::Higher,
        version_order(prerelease, release) == Precedence::Lower,
{
}

/// The first of the three numbers in which two versions differ decides, as a
/// number and not as a text; with the same numbers a release is higher than its
/// pre-releases, and of two releases the one with build metadata is higher.
pub proof fn first_differing_number_decides(a: VersionView, b: VersionView)
    ensures
        a.major > b.major ==> version_order(a, b) == Precedence::Higher,
        a.major < b.major ==> version_order(a, b) == Precedence::Lower,
        a.major == b.major && a.minor > b.minor ==> version_order(a, b) == Precedence::Higher,
        a.major == b.major && a.minor < b.minor ==> version_order(a, b) == Precedence::Lower,
        a.major == b.major && a.minor == b.minor && a.patch > b.patch ==> version_order(a, b)
            == Precedence::Higher,
        a.major == b.major && a.minor == b.minor && a.patch < b.patch ==> version_order(a, b)
            == Precedence::Lower,
        a == b ==> version_order(a, b) == Precedence::Same,
        a.major == b.major && a.minor == b.minor && a.patch == b.patch && a.pre == b.pre
            && a.build.len() > 0 && b.build.len() == 0 ==> version_order(a, b)
            == Precedence::Higher,
{
}

/// Calls `cmp` of `semver::Version`. The three numbers are compared first,
/// then the pre-release identifiers, then the build metadata. A release is
/// higher than its pre-releases, and build metadata is higher than none; how
/// identifiers stand to others is left to the names `semver_pre_order` and
/// `semver_build_order`. The order is total: only the same version is the
/// same, swapping the two reverses the answer, and what is higher than a
/// version is higher than everything that the version is not lower than.
#[verifier::external_body]
fn compare_semver(a: &Version, b: &Version) -> (order: Precedence)
    requires
        has_labels(a@),
        has_labels(b@),
    ensures
        order == version_order(a@, b@),
        same_numbers(a@, b@) && a@.pre != b@.pre && a@.pre.len() > 0 && b@.pre.len() > 0 ==> order
            == semver_pre_order(a@.pre, b@.pre),
        same_numbers(a@, b@) && a@.pre == b@.pre && a@.build != b@.build && a@.build.len() > 0
            && b@.build.len() > 0 ==> order == semver_build_order(a@.build, b@.build),
        order == Precedence::Same <==> a@ == b@,
        version_order(b@, a@) == order.reversed(),
        order == Precedence::Higher ==> forall|c: VersionView|
            has_labels(c) && #[trigger] version_order(b@, c) != Precedence::Lower ==> version_order(
                a@,
                c,
            ) == Precedence::Higher,
{
    let [left, right] = [a, b].map(
        |v| semver::Version {
            major: v.major,
            minor: v.minor,
            patch: v.patch,
            pre: semver::Prerelease::new(&v.pre).unwrap(),
            build: semver::BuildMetadata::new(&v.build).unwrap(),
        },
    );
    match left.cmp(&right) {
        std::cmp::Ordering::Less => Precedence::Lower,
        std::cmp::Ordering::Equal => Precedence::Same,
        std::cmp::Ordering::Greater => Precedence::Higher,
    }
}

/// `at` is the position of the first of the highest versions.
pub open spec fn is_highest(versions: Seq<Option<VersionView>>, at: int) -> bool {
    &&& 0 <= at < versions.len()
    &&& versions[at] is Some
    &&& forall|i: int|
        0 <= i < versions.len() && i != at && (#[trigger] versions[i]) is Some ==> version_order(
            versions[at]->0,
            versions[i]->0,
        ) != Precedence::Lower
    &&& forall|i: int|
        0 <= i < at && (#[trigger] versions[i]) is Some ==> version_order(
            versions[at]->0,
            versions[i]->0,
        ) == Precedence::Higher
}

/// The highest version is no pre-release of a release that is there too.
pub proof fn highest_is_no_prerelease_of_a_listed_release(
    versions: Seq<Option<VersionView>>,
    at: int,
    other: int,
)
    requires
        is_highest(versions, at),
        0 <= other < versions.len(),
        versions[other] is Some,
        same_numbers(versions[at]->0, versions[other]->0),
        versions[other]->0.pre.len() == 0,
    ensures
        versions[at]->0.pre.len() == 0,
{
    if versions[at]->0.pre.len() > 0 {
        release_outranks_its_prereleases(versions[other]->0, versions[at]->0);
    }
}

/// No version is there.
pub open spec fn none_present(versions: Seq<Option<VersionView>>) -> bool {
    forall|i: int| 0 <= i < versions.len() ==> (#[trigger] versions[i]) is None
}

/// The position of the first of the highest versions.
pub fn highest(versions: &Vec<Option<Version>>) -> (at: Option<usize>)
    ensures
        at is None <==> none_present(version_views(versions@)),
        at is Some ==> is_highest(version_views(versions@), at->0 as int),
        at is Some ==> at->0 < versions@.len() && versions@[at->0 as int] is Some,
        at is Some ==> forall|i: int|
            0 <= i < versions@.len() && (#[trigger] versions@[i]) is Some && i != at->0 ==> {
                let order = version_order(versions@[at->0 as int]->0@, versions@[i]->0@);
                order != Precedence::Lower && (i < at->0 ==> order == Precedence::Higher)
            },
        at is None ==> forall|i: int|
            0 <= i < versions@.len() ==> (#[trigger] versions@[i]) is None,
{
    let ghost views = version_views(versions@);
    let mut best: Option<usize> = None;
    let mut i: usize = 0;
    while i < versions.len()
        invariant
            i <= versions@.len(),
            views == version_views(versions@),
            best is None ==> none_present(views.take(i as int)),
            best is Some ==> is_highest(views.take(i as int), best->0 as int),
            forall|j: int|
                0 <= j < i && (#[trigger] views[j]) is Some ==> has_labels(views[j]->0),
        decreases versions@.len() - i,
    {
        let ghost before = views.take(i as int);
        let ghost after = views.take(i + 1);
        assert(after =~= before.push(views[i as int]));
        assert(views[i as int] == version_view(versions@[i as int]));
        if let Some(version) = &versions[i] {
            proof {
                use_type_invariant(version);
            }
            match best {
                None => {
                    best = Some(i);
                },
                Some(at) => {
                    assert(before[at as int] == version_view(versions@[at as int]));
                    if let Some(top) = &versions[at] {
                        let order = compare_semver(version, top);
                        if let Precedence::Higher = order {
                            best = Some(i);
                            assert forall|j: int|
                                0 <= j < i && (#[trigger] after[j]) is Some implies version_order(
                                version@,
                                after[j]->0,
                            ) == Precedence::Higher by {
                                assert(after[j] == before[j]);
                                assert(views[j] == before[j]);
                                assert(j != at ==> version_order(top@, before[j]->0)
                                    != Precedence::Lower);
                            }
                        }
                    }
                },
            }
        }
        i = i + 1;
    }
    assert(views.take(i as int) =~= views);
    assert forall|j: int| 0 <= j < versions@.len() implies #[trigger] views[j] == version_view(
        versions@[j],
    ) by {}
    proof {
        if best is Some {
            let at = best->0 as int;
            assert(views[at] is Some);
            assert forall|j: int|
                0 <= j < versions@.len() && (#[trigger] versions@[j]) is Some && j != at implies ({
                let order = version_order(versions@[at]->0@, versions@[j]->0@);
                order != Precedence::Lower && (j < at ==> order == Precedence::Higher)
            }) by {
                assert(views[j] is Some);
            }
        } else {
            assert forall|j: int| 0 <= j < versions@.len() implies (
            #[trigger] versions@[j]) is None by {
                assert(views[j] is None);
            }
        }
    }
    best
}

} // verus!
