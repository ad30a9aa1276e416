use vermon::digits::{decimal_text, parse_i64, parse_u16, runs_of_digits};
use vermon::version::{first_version, highest, parse_version, version_candidates, Version};

const DATED: &str = r"polkadot-stable(\d{4})-(\d+)";

fn read(tag: &str, prefix: &str, pattern: Option<&str>) -> Option<String> {
    parse_version(tag, prefix, pattern).map(|v| v.to_text())
}

fn version(text: &str) -> Option<Version> {
    parse_version(text, "", None)
}

#[test]
fn dated_pattern_decides() {
    assert_eq!(read("polkadot-stable2412-3", "polkadot-stable", Some(DATED)).unwrap(), "2412.3.0");
    assert_eq!(
        read("polkadot-stable2503-10-rc1", "polkadot-stable", Some(DATED)).unwrap(),
        "2503.10.0"
    );
}

#[test]
fn month_with_leading_zero_falls_through() {
    assert_eq!(read("polkadot-stable2412-03", "polkadot-stable", Some(DATED)), None);
}

#[test]
fn dated_tag_without_month_has_one_number() {
    assert_eq!(read("polkadot-stable2412", "polkadot-stable", Some(DATED)).unwrap(), "2412.0.0");
}

#[test]
fn pattern_without_the_date_is_not_used() {
    assert_eq!(read("release-7-8", "release", Some(r"release-(\d)-(\d)")).unwrap(), "7.8.0");
}

#[test]
fn broken_pattern_is_ignored() {
    assert_eq!(read("v1.2.3", "", Some(r"(\d{4})-(\d+)(")).unwrap(), "1.2.3");
}

#[test]
fn prefix_letter_and_hyphens_are_removed() {
    assert_eq!(read("v1.2.3", "", None).unwrap(), "1.2.3");
    assert_eq!(read("release-v-1.2.3", "release-", None).unwrap(), "1.2.3");
    assert_eq!(read("vvv--1.2.3", "", None).unwrap(), "1.2.3");
    assert_eq!(read("vv1.2.3", "v", None).unwrap(), "1.2.3");
}

#[test]
fn prerelease_and_build_are_kept() {
    assert_eq!(read("v1.2.3-rc.1+build.5", "", None).unwrap(), "1.2.3-rc.1+build.5");
}

#[test]
fn labels_follow_their_rules() {
    assert_eq!(read("1.2.3-01", "", None).unwrap(), "1.2.3");
    assert_eq!(read("1.2.3+01", "", None).unwrap(), "1.2.3+01");
    assert_eq!(read("1.2.3-0a.0", "", None).unwrap(), "1.2.3-0a.0");
    assert_eq!(read("1.2.3-a..b", "", None).unwrap(), "1.2.3");
    assert_eq!(read("1.2.3-a.", "", None).unwrap(), "1.2.3");
}

#[test]
fn separators_become_dots() {
    assert_eq!(read("1-2_3", "", None).unwrap(), "1.2.3");
}

#[test]
fn numbers_are_taken_from_other_tags() {
    assert_eq!(read("runtime-1200", "", None).unwrap(), "1200.0.0");
    assert_eq!(read("release 4 of 7", "", None).unwrap(), "4.7.0");
    assert_eq!(read("a1b2c3d4", "", None).unwrap(), "1.2.3");
    assert_eq!(read("nightly", "", None), None);
    assert_eq!(read("", "", None), None);
}

#[test]
fn numbers_with_leading_zeros_or_too_large_are_no_version() {
    assert_eq!(read("x01y2z3", "", None), None);
    assert_eq!(read("x18446744073709551616", "", None), None);
    assert_eq!(read("x18446744073709551615", "", None).unwrap(), "18446744073709551615.0.0");
}

#[test]
fn candidates_come_in_order() {
    let groups = Some(vec![
        Some("polkadot-stable2412-3".to_string()),
        Some("2412".to_string()),
        Some("3".to_string()),
    ]);
    let texts =
        version_candidates("polkadot-stable2412-3", "polkadot-stable", Some(DATED), &groups);
    assert_eq!(texts, vec!["2412.3.0", "2412-3", "2412.3", "2412.3.0"]);
    let texts = version_candidates("polkadot-stable2412-3", "polkadot-stable", Some(DATED), &None);
    assert_eq!(texts, vec!["2412-3", "2412.3", "2412.3.0"]);
    assert_eq!(version_candidates("vx_y", "", None, &None), vec!["x_y", "x.y"]);
}

#[test]
fn first_version_that_is_there() {
    let list = vec![None, version("2.0.0"), version("3.0.0")];
    assert_eq!(first_version(list).unwrap().to_text(), "2.0.0");
    assert!(first_version(vec![None, None]).is_none());
    assert!(first_version(vec![]).is_none());
}

#[test]
fn releases_outrank_their_prereleases() {
    assert_eq!(highest(&vec![version("2.0.0-rc.9"), version("2.0.0"), version("2.0.0-z")]), Some(1));
    assert_eq!(highest(&vec![version("2.0.0"), version("2.0.0+x"), version("2.0.0-z+x")]), Some(1));
    assert_eq!(highest(&vec![version("1.9.9"), version("2.0.0-a")]), Some(1));
}

#[test]
fn single_numbers_are_filled_up() {
    assert_eq!(read("2409", "", None).unwrap(), "2409.0.0");
    assert_eq!(read("polkadot-v2409", "polkadot-", None).unwrap(), "2409.0.0");
    assert_eq!(read("0123", "", None), None);
    assert_eq!(read("stable_7_rc8", "", None).unwrap(), "7.8.0");
}

#[test]
fn highest_is_the_first_of_the_highest() {
    assert_eq!(highest(&vec![version("1.9.0"), version("1.10.0"), version("1.2.0")]), Some(1));
    assert_eq!(highest(&vec![version("1.0.0-rc.1"), version("1.0.0")]), Some(1));
    assert_eq!(highest(&vec![version("1.0.0-rc.2"), version("1.0.0-rc.10")]), Some(1));
    assert_eq!(highest(&vec![None, version("2.0.0"), version("2.0.0"), None]), Some(1));
    assert_eq!(highest(&vec![version("1.0.0+a"), version("1.0.0+b")]), Some(1));
    assert_eq!(highest(&vec![None, None]), None);
    assert_eq!(highest(&vec![]), None);
}

#[test]
fn plain_versions_are_read_back() {
    for text in ["0.0.0", "1.2.3", "18446744073709551615.0.1"] {
        assert_eq!(version(text).unwrap().to_text(), text);
    }
}

#[test]
fn versions_are_read_back_behind_a_prefix() {
    let texts = ["1.2.3", "1.2.3-rc.1", "0.0.1+007.x-y", "10.0.0--.0a+-", "3.2.1-alpha.10+build.5"];
    for text in texts {
        for prefix in ["", "v", "-", "release-", "polkadot-stable", "v1-"] {
            let tag = format!("{}{}", prefix, text);
            assert_eq!(read(&tag, prefix, None).unwrap(), text);
        }
    }
}

#[test]
fn prefix_that_starts_with_a_digit_can_take_too_much() {
    assert_eq!(read("11.2.3", "1", None).unwrap(), "2.3.0");
}

#[test]
fn tags_without_a_digit_have_no_version() {
    for tag in ["", "v", "nightly", "...", "a.b.c", "release-v-"] {
        assert_eq!(read(tag, "release", None), None);
        assert_eq!(read(tag, "", Some(r"()(\d{4})-(\d+)|")), None);
    }
    let groups = Some(vec![Some("x".to_string()), Some("".to_string()), Some("y".to_string())]);
    let texts = version_candidates("x-y", "", Some(DATED), &groups);
    assert_eq!(texts, vec![".y.0", "x-y", "x.y"]);
}

#[test]
fn numbers_and_digits() {
    assert_eq!(decimal_text(0), "0");
    assert_eq!(decimal_text(1_000_210), "1000210");
    assert_eq!(decimal_text(u64::MAX), "18446744073709551615");
    assert_eq!(runs_of_digits("a12b003-4"), vec!["12", "003", "4"]);
    assert_eq!(runs_of_digits("none"), Vec::<String>::new());
    assert_eq!(parse_u16("65535"), Some(65535));
    assert_eq!(parse_u16("+80"), Some(80));
    assert_eq!(parse_u16("65536"), None);
    assert_eq!(parse_u16("-1"), None);
    assert_eq!(parse_u16(""), None);
    assert_eq!(parse_u16("+"), None);
    assert_eq!(parse_i64("-9223372036854775808"), Some(i64::MIN));
    assert_eq!(parse_i64("9223372036854775807"), Some(i64::MAX));
    assert_eq!(parse_i64("9223372036854775808"), None);
    assert_eq!(parse_i64("-"), None);
    assert_eq!(parse_i64("+7"), Some(7));
    assert_eq!(parse_i64("1 "), None);
}
