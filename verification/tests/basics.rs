use vermon::config::Config;
use vermon::order::text_before;
use vermon::repos::repos;
use vermon::table::Table;
use vermon::text::{contains, replace_all, replace_char, trim_prefix};
use vermon::text_map::TextMap;
use vermon::time::{Timestamp, FIRST_SECOND, LAST_SECOND};

#[test]
fn settings_have_defaults() {
    let config = Config::from_variables(None, None, None, None);
    assert_eq!(config.refresh_interval, 3600);
    assert_eq!(config.github_token, None);
    assert_eq!(config.port, 3000);
    assert_eq!(config.max_retries, 3);
    assert_eq!(config.cert_warning_days, 30);
    assert_eq!(config.cert_critical_days, 7);
}

#[test]
fn settings_come_from_variables() {
    let some = |text: &str| Some(text.to_string());
    let config = Config::from_variables(some("tok"), some("8080"), some("-2"), some("14"));
    assert_eq!(config.github_token.as_deref(), Some("tok"));
    assert_eq!(config.port, 8080);
    assert_eq!(config.cert_warning_days, -2);
    assert_eq!(config.cert_critical_days, 14);
    let config = Config::from_variables(None, some("70000"), some("many"), some(""));
    assert_eq!(config.port, 3000);
    assert_eq!(config.cert_warning_days, 30);
    assert_eq!(config.cert_critical_days, 7);
}

#[test]
fn watched_repositories() {
    let all = repos();
    assert_eq!(all.len(), 13);
    assert_eq!(all[0].owner, "paritytech");
    assert_eq!(all[0].name, "polkadot-sdk");
    assert_eq!(all[0].prefix, "polkadot-stable");
    assert_eq!(all[0].networks.len(), 22);
    assert_eq!(all[0].version_pattern, Some(r"polkadot-stable(\d{4})-(\d+)"));
    assert_eq!(all[5].prefix, "v");
    assert_eq!(all[12].networks, &["unique"]);
    assert_eq!(all.iter().map(|repo| repo.networks.len()).sum::<usize>(), 35);
}

#[test]
fn points_in_time() {
    let at = |seconds, nanos| Timestamp::new(seconds, nanos).unwrap();
    assert_eq!(at(10, 0).seconds_since(&at(4, 0)), 6);
    assert_eq!(at(10, 0).seconds_since(&at(4, 1)), 5);
    assert_eq!(at(4, 1).seconds_since(&at(10, 0)), -5);
    assert_eq!(at(4, 0).seconds_since(&at(10, 0)), -6);
    assert_eq!(at(172_799, 0).days_since(&at(0, 0)), 1);
    assert_eq!(at(0, 0).days_since(&at(172_800, 0)), -2);
    assert_eq!((at(5, 7).seconds(), at(5, 7).nanos()), (5, 7));
}

#[test]
fn time_has_limits() {
    assert!(Timestamp::new(FIRST_SECOND, 0).is_some());
    assert!(Timestamp::new(FIRST_SECOND - 1, 0).is_none());
    assert!(Timestamp::new(LAST_SECOND, 999_999_999).is_some());
    assert!(Timestamp::new(LAST_SECOND + 1, 0).is_none());
    assert!(Timestamp::new(0, 1_000_000_000).is_none());
    assert!(Timestamp::new(59, 1_999_999_999).is_some());
    assert!(Timestamp::new(59, 2_000_000_000).is_none());
    let first = Timestamp::new(FIRST_SECOND, 0).unwrap();
    let last = Timestamp::new(LAST_SECOND, 0).unwrap();
    assert_eq!(last.seconds_since(&first), LAST_SECOND - FIRST_SECOND);
}

#[test]
fn leap_seconds_count_within_a_day() {
    let leap = Timestamp::new(59, 1_500_000_000).unwrap();
    let before = Timestamp::new(59, 500_000_000).unwrap();
    let after = Timestamp::new(60, 500_000_000).unwrap();
    assert_eq!(leap.seconds_since(&before), 1);
    assert_eq!(after.seconds_since(&leap), 1);
    assert_eq!(leap.seconds_since(&after), -1);
    assert_eq!(after.seconds_since(&before), 1);
}

#[test]
fn texts() {
    assert!(contains("wss://x.dotters.network/y", "dotters.network"));
    assert!(!contains("dotters.networ", "dotters.network"));
    assert!(contains("abc", ""));
    assert_eq!(replace_all("aaaa", "aa", "b"), "bb");
    assert_eq!(replace_all("xaay", "aa", ""), "xy");
    assert_eq!(replace_all("abab", "aba", "-"), "-b");
    assert_eq!(replace_char("a-b-c", '-', '.'), "a.b.c");
    assert_eq!(trim_prefix("ababc", "ab"), "c");
    assert_eq!(trim_prefix("abc", ""), "abc");
    assert_eq!(trim_prefix("abc", "abcd"), "abc");
}

#[test]
fn texts_in_order() {
    let texts = ["", "A", "a", "a-b", "ab", "b", "é", "日", "😀"];
    for i in 0..texts.len() {
        for j in 0..texts.len() {
            assert_eq!(text_before(texts[i], texts[j]), i < j);
            assert_eq!(texts[i] < texts[j], i < j);
        }
    }
}

#[test]
fn tables_hold_each_name_once() {
    let pairs = vec![("a".to_string(), 1), ("b".to_string(), 2), ("a".to_string(), 3)];
    let table = Table::from_pairs(pairs);
    assert_eq!(table.entries(), &vec![("a".to_string(), 3), ("b".to_string(), 2)]);
    assert_eq!(table.clone().entries(), table.entries());
    assert!(Table::<u8>::from_pairs(vec![]).entries().is_empty());
}

#[test]
fn text_maps() {
    let map = TextMap::new()
        .insert("a".to_string(), "1".to_string())
        .insert("b".to_string(), "2".to_string())
        .insert("a".to_string(), "3".to_string());
    assert_eq!(map.get("a").as_deref(), Some("3"));
    assert_eq!(map.get("b").as_deref(), Some("2"));
    assert_eq!(map.get("c"), None);
    let mut keys = map.keys();
    keys.sort();
    assert_eq!(keys, vec!["a", "b"]);
}
