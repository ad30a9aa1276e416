//! What the monitor knows, kept in concurrent hash maps.
//!
//! Each kind of map has a name for its contents, over which the operations of
//! `dashmap::DashMap` are stated. No operation here hands out a reference into
//! a map, and a map that is changed is borrowed mutably, so none of them waits
//! for a lock that its own caller holds.

use crate::models::{
    service_views, MemberInfo, MemberInfoView, VersionInfo, VersionInfoView,
};
use crate::text::text_views;
use dashmap::DashMap;
use vstd::prelude::*;

verus! {

/// The concurrent hash map of `dashmap`.
#[verifier::external_type_specification]
#[verifier::external_body]
#[verifier::reject_recursive_types(K)]
#[verifier::reject_recursive_types(V)]
#[verifier::reject_recursive_types(S)]
pub struct ExDashMap<K, V, S>(DashMap<K, V, S>);

/// `pairs` holds each entry of `map` once, and nothing else.
pub open spec fn lists_entries<V>(pairs: Seq<(Seq<char>, V)>, map: Map<Seq<char>, V>) -> bool {
    &&& forall|i: int, j: int|
        0 <= i < j < pairs.len() ==> (#[trigger] pairs[i]).0 != (#[trigger] pairs[j]).0
    &&& forall|i: int|
        0 <= i < pairs.len() ==> map.contains_key((#[trigger] pairs[i]).0) && map[pairs[i].0]
            == pairs[i].1
    &&& forall|key: Seq<char>| #[trigger]
        map.contains_key(key) ==> exists|i: int|
            0 <= i < pairs.len() && (#[trigger] pairs[i]).0 == key
}

// ---------------------------------------------------------------------------
// Releases
// ---------------------------------------------------------------------------

/// The releases that a map holds, by repository.
pub uninterp spec fn version_entries(map: DashMap<String, VersionInfo>) -> Map<Seq<char>, VersionInfoView>;

/// What a list of repositories with their releases stands for.
pub open spec fn version_pairs(pairs: Seq<(String, VersionInfo)>) -> Seq<(Seq<char>, VersionInfoView)> {
    pairs.map_values(|pair: (String, VersionInfo)| (pair.0@, pair.1@))
}

/// `DashMap::new` makes an empty map.
#[verifier::external_body]
pub(crate) fn new_versions() -> (fresh: DashMap<String, VersionInfo>)
    ensures
        version_entries(fresh).dom() == Set::<Seq<char>>::empty(),
{
    DashMap::new()
}

/// `DashMap::insert` gives `key` the value `value` and keeps the rest.
#[verifier::external_body]
pub(crate) fn put_version(map: &mut DashMap<String, VersionInfo>, key: String, value: VersionInfo)
    ensures
        version_entries(*final(map)) == version_entries(*old(map)).insert(key@, value@),
{
    map.insert(key, value);
}

/// `DashMap::get` finds the value of `key`, which is copied.
#[verifier::external_body]
pub(crate) fn find_version(map: &DashMap<String, VersionInfo>, key: &str) -> (value: Option<VersionInfo>)
    ensures
        value is Some <==> version_entries(*map).contains_key(key@),
        value is Some ==> value->0@ == version_entries(*map)[key@],
{
    map.get(key).map(|found| found.value().clone())
}

/// `DashMap::iter` walks over all entries, which are copied; in what order is
/// not said.
#[verifier::external_body]
pub(crate) fn all_versions(map: &DashMap<String, VersionInfo>) -> (pairs: Vec<(String, VersionInfo)>)
    ensures
        lists_entries(version_pairs(pairs@), version_entries(*map)),
{
    map.iter().map(|entry| (entry.key().clone(), entry.value().clone())).collect()
}

// ---------------------------------------------------------------------------
// Texts
// ---------------------------------------------------------------------------

/// The texts that a map holds, by their keys.
pub uninterp spec fn text_entries(map: DashMap<String, String>) -> Map<Seq<char>, Seq<char>>;

/// `DashMap::new` makes an empty map.
#[verifier::external_body]
pub(crate) fn new_texts() -> (fresh: DashMap<String, String>)
    ensures
        text_entries(fresh).dom() == Set::<Seq<char>>::empty(),
{
    DashMap::new()
}

/// `DashMap::insert` gives `key` the value `value` and keeps the rest.
#[verifier::external_body]
pub(crate) fn put_text(map: &mut DashMap<String, String>, key: String, value: String)
    ensures
        text_entries(*final(map)) == text_entries(*old(map)).insert(key@, value@),
{
    map.insert(key, value);
}

/// `DashMap::remove` takes `key` out, if it is there, and keeps the rest.
#[verifier::external_body]
pub(crate) fn drop_text(map: &mut DashMap<String, String>, key: &str)
    ensures
        text_entries(*final(map)) == text_entries(*old(map)).remove(key@),
{
    map.remove(key);
}

/// `DashMap::get` finds the value of `key`, which is copied.
#[verifier::external_body]
pub(crate) fn find_text(map: &DashMap<String, String>, key: &str) -> (value: Option<String>)
    ensures
        value is Some <==> text_entries(*map).contains_key(key@),
        value is Some ==> value->0@ == text_entries(*map)[key@],
{
    map.get(key).map(|found| found.value().clone())
}

/// What a list of keys with their texts stands for.
pub open spec fn text_pairs(pairs: Seq<(String, String)>) -> Seq<(Seq<char>, Seq<char>)> {
    pairs.map_values(|pair: (String, String)| (pair.0@, pair.1@))
}

/// `DashMap::iter` walks over all entries, which are copied; in what order is
/// not said.
#[verifier::external_body]
pub(crate) fn all_texts(map: &DashMap<String, String>) -> (pairs: Vec<(String, String)>)
    ensures
        lists_entries(text_pairs(pairs@), text_entries(*map)),
{
    map.iter().map(|entry| (entry.key().clone(), entry.value().clone())).collect()
}

// ---------------------------------------------------------------------------
// Lists of texts
// ---------------------------------------------------------------------------

/// The lists of texts that a map holds, by their keys.
pub uninterp spec fn list_entries(map: DashMap<String, Vec<String>>) -> Map<Seq<char>, Seq<Seq<char>>>;

/// What a list of keys with their lists stands for.
pub open spec fn list_pairs(pairs: Seq<(String, Vec<String>)>) -> Seq<(Seq<char>, Seq<Seq<char>>)> {
    pairs.map_values(|pair: (String, Vec<String>)| (pair.0@, text_views(pair.1@)))
}

/// `DashMap::new` makes an empty map.
#[verifier::external_body]
pub(crate) fn new_lists() -> (fresh: DashMap<String, Vec<String>>)
    ensures
        list_entries(fresh).dom() == Set::<Seq<char>>::empty(),
{
    DashMap::new()
}

/// `DashMap::insert` gives `key` the value `value` and keeps the rest.
#[verifier::external_body]
pub(crate) fn put_list(map: &mut DashMap<String, Vec<String>>, key: String, value: Vec<String>)
    ensures
        list_entries(*final(map)) == list_entries(*old(map)).insert(key@, text_views(value@)),
{
    map.insert(key, value);
}

/// `DashMap::iter` walks over all entries, which are copied; in what order is
/// not said.
#[verifier::external_body]
pub(crate) fn all_lists(map: &DashMap<String, Vec<String>>) -> (pairs: Vec<(String, Vec<String>)>)
    ensures
        lists_entries(list_pairs(pairs@), list_entries(*map)),
{
    map.iter().map(|entry| (entry.key().clone(), entry.value().clone())).collect()
}

// ---------------------------------------------------------------------------
// Services
// ---------------------------------------------------------------------------

/// The services that a map holds, by member.
pub uninterp spec fn member_entries(map: DashMap<String, Vec<MemberInfo>>) -> Map<Seq<char>, Seq<MemberInfoView>>;

/// What a list of members with their services stands for.
pub open spec fn member_pairs(pairs: Seq<(String, Vec<MemberInfo>)>) -> Seq<(Seq<char>, Seq<MemberInfoView>)> {
    pairs.map_values(|pair: (String, Vec<MemberInfo>)| (pair.0@, service_views(pair.1@)))
}

/// `DashMap::new` makes an empty map.
#[verifier::external_body]
pub(crate) fn new_members() -> (fresh: DashMap<String, Vec<MemberInfo>>)
    ensures
        member_entries(fresh).dom() == Set::<Seq<char>>::empty(),
{
    DashMap::new()
}

/// `DashMap::insert` gives `key` the value `value` and keeps the rest.
#[verifier::external_body]
pub(crate) fn put_member(map: &mut DashMap<String, Vec<MemberInfo>>, key: String, value: Vec<MemberInfo>)
    ensures
        member_entries(*final(map)) == member_entries(*old(map)).insert(key@, service_views(value@)),
{
    map.insert(key, value);
}

/// `DashMap::get` finds the value of `key`, which is copied.
#[verifier::external_body]
pub(crate) fn find_member(map: &DashMap<String, Vec<MemberInfo>>, key: &str) -> (value: Option<Vec<MemberInfo>>)
    ensures
        value is Some <==> member_entries(*map).contains_key(key@),
        value is Some ==> service_views(value->0@) == member_entries(*map)[key@],
{
    map.get(key).map(|found| found.value().clone())
}

/// `DashMap::iter` walks over all entries, which are copied; in what order is
/// not said.
#[verifier::external_body]
pub(crate) fn all_members(map: &DashMap<String, Vec<MemberInfo>>) -> (pairs: Vec<(String, Vec<MemberInfo>)>)
    ensures
        lists_entries(member_pairs(pairs@), member_entries(*map)),
{
    map.iter().map(|entry| (entry.key().clone(), entry.value().clone())).collect()
}

/// `DashMap::len` counts the entries.
#[verifier::external_body]
pub(crate) fn member_count(map: &DashMap<String, Vec<MemberInfo>>) -> (count: usize)
    ensures
        count == member_entries(*map).len(),
{
    map.len()
}

// ---------------------------------------------------------------------------
// Counts
// ---------------------------------------------------------------------------

/// The counts that a map holds, by their keys.
pub uninterp spec fn count_entries(map: DashMap<String, u64>) -> Map<Seq<char>, u64>;

/// What a list of keys with their counts stands for.
pub open spec fn count_pairs(pairs: Seq<(String, u64)>) -> Seq<(Seq<char>, u64)> {
    pairs.map_values(|pair: (String, u64)| (pair.0@, pair.1))
}

/// One more, starting over behind the largest number.
pub open spec fn one_more(count: u64) -> u64 {
    vstd::wrapping::u64_specs::wrapping_add(count, 1)
}

/// Counts one more.
fn add_one(count: &mut u64)
    ensures
        *final(count) == one_more(*old(count)),
{
    *count = count.wrapping_add(1);
}

/// `counts` after one more of `key`, where counting starts with `first`.
pub open spec fn counted_from(
    counts: Map<Seq<char>, u64>,
    key: Seq<char>,
    first: u64,
) -> Map<Seq<char>, u64> {
    counts.insert(
        key,
        if counts.contains_key(key) {
            one_more(counts[key])
        } else {
            first
        },
    )
}

/// `DashMap::new` makes an empty map.
#[verifier::external_body]
pub(crate) fn new_counts() -> (fresh: DashMap<String, u64>)
    ensures
        count_entries(fresh).dom() == Set::<Seq<char>>::empty(),
{
    DashMap::new()
}

/// `DashMap::entry` with `Entry::and_modify` and `Entry::or_insert` counts one
/// more of a key that is there, and starts with `first` for a key that is new.
#[verifier::external_body]
pub(crate) fn count_one(map: &mut DashMap<String, u64>, key: String, first: u64)
    ensures
        count_entries(*final(map)) == counted_from(count_entries(*old(map)), key@, first),
{
    map.entry(key).and_modify(|count| add_one(count)).or_insert(first);
}

/// `DashMap::iter` walks over all entries, which are copied; in what order is
/// not said.
#[verifier::external_body]
pub(crate) fn all_counts(map: &DashMap<String, u64>) -> (pairs: Vec<(String, u64)>)
    ensures
        lists_entries(count_pairs(pairs@), count_entries(*map)),
{
    map.iter().map(|entry| (entry.key().clone(), *entry.value())).collect()
}

} // verus!
