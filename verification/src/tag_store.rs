//! The store of tags that a scanner keeps between two requests from the
//! gateway, keyed by the low half of the tag's address.
use vstd::prelude::*;
use crate::collections::{
    has_key, key_index, keys_distinct, lemma_filter_subset, lemma_key_index, swap_remove_at, upsert, MAX_SEEN,
};
use crate::scan::{age_secs, spec_age_secs};
use crate::scanner::{TagReport, TagReportModel};

verus! {

/// Tags not seen for this long (in microseconds, ten minutes) are dropped.
pub const TAG_MAX_AGE: u64 = 600_000_000;

/// The key of a tag: the three least significant bytes of its address.
pub type TagKey = (u8, u8, u8);

/// A key with its report.
pub type TagEntry = (TagKey, TagReportModel);

/// The map in which the scanner keeps tags.
pub type TagMap = heapless::IndexMap<TagKey, TagReport, hash32::BuildHasherDefault<hash32::FnvHasher>, MAX_SEEN>;

/// The pairs that a [`TagMap`] holds, each report by its view, in the order
/// in which the map lists them.
pub uninterp spec fn tag_entries(map: TagMap) -> Seq<TagEntry>;

/// What every tag map satisfies: no key twice, at most `MAX_SEEN` pairs.
pub open spec fn tag_map_wf(s: Seq<TagEntry>) -> bool {
    keys_distinct(s) && s.len() <= MAX_SEEN
}

/// Calls `heapless::index_map::FnvIndexMap::new`: an empty map.
#[verifier::external_body]
fn tag_map_new() -> (map: TagMap)
    ensures
        tag_entries(map).len() == 0,
{
    heapless::index_map::FnvIndexMap::new()
}

/// Calls `heapless::IndexMap::len`: the number of pairs.
#[verifier::external_body]
fn tag_map_len(map: &TagMap) -> (n: usize)
    ensures
        n == tag_entries(*map).len(),
{
    map.len()
}

/// Calls `heapless::IndexMap::is_full`: whether the map holds as many pairs
/// as its capacity.
#[verifier::external_body]
fn tag_map_is_full(map: &TagMap) -> (full: bool)
    ensures
        full == (tag_entries(*map).len() == MAX_SEEN),
{
    map.is_full()
}

/// Calls `heapless::IndexMap::contains_key`.
#[verifier::external_body]
fn tag_map_contains_key(map: &TagMap, key: &TagKey) -> (found: bool)
    ensures
        found == has_key(tag_entries(*map), *key),
{
    map.contains_key(key)
}

/// Calls `heapless::IndexMap::insert`. A key already present gets the new
/// report in its place and its old report is returned; a new key is added
/// last when the map is not full, and is handed back with its report when
/// it is.
#[verifier::external_body]
fn tag_map_insert(map: &mut TagMap, key: TagKey, report: TagReport) -> (res: Result<Option<TagReport>, (TagKey, TagReport)>)
    ensures
        tag_map_wf(tag_entries(*final(map))),
        has_key(tag_entries(*old(map)), key) ==> (res matches Ok(Some(r)) && r@ == tag_entries(*old(map))[key_index(tag_entries(*old(map)), key)].1) && tag_entries(*final(map)) == tag_entries(*old(map)).update(key_index(tag_entries(*old(map)), key), (key, report@)),
        !has_key(tag_entries(*old(map)), key) && tag_entries(*old(map)).len() < MAX_SEEN ==> (res matches Ok(r) && r is None) && tag_entries(*final(map)) == tag_entries(*old(map)).push((key, report@)),
        !has_key(tag_entries(*old(map)), key) && tag_entries(*old(map)).len() >= MAX_SEEN ==> (res matches Err(p) && p.0 == key && p.1@ == report@) && tag_entries(*final(map)) == tag_entries(*old(map)),
{
    map.insert(key, report)
}

/// Calls `heapless::IndexMap::remove`, which swaps the last pair into the
/// place of the pair taken out, and returns its report.
#[verifier::external_body]
fn tag_map_remove(map: &mut TagMap, key: &TagKey) -> (res: Option<TagReport>)
    ensures
        tag_map_wf(tag_entries(*final(map))),
        has_key(tag_entries(*old(map)), *key) ==> (res matches Some(r) && r@ == tag_entries(*old(map))[key_index(tag_entries(*old(map)), *key)].1) && tag_entries(*final(map)) == swap_remove_at(tag_entries(*old(map)), key_index(tag_entries(*old(map)), *key)),
        !has_key(tag_entries(*old(map)), *key) ==> res is None && tag_entries(*final(map)) == tag_entries(*old(map)),
{
    map.remove(key)
}

/// Calls `heapless::IndexMap::retain` with a predicate that keeps the tags
/// seen less than `TAG_MAX_AGE` before `now`; the pairs kept stay in order.
#[verifier::external_body]
fn tag_map_retain_recent(map: &mut TagMap, now: u64)
    requires
        all_tags_seen_by(tag_entries(*old(map)), now),
    ensures
        tag_map_wf(tag_entries(*final(map))),
        tag_entries(*final(map)) == recent_tags(tag_entries(*old(map)), now),
{
    map.retain(|_, report| tag_is_recent(now, report.timestamp))
}

/// Each key with the time of its report.
pub open spec fn stamps_of(s: Seq<TagEntry>) -> Seq<(TagKey, u64)> {
    s.map_values(|e: TagEntry| (e.0, e.1.timestamp))
}

/// Each key with its report's view.
pub open spec fn entries_view(entries: Seq<(TagKey, TagReport)>) -> Seq<TagEntry> {
    entries.map_values(|e: (TagKey, TagReport)| (e.0, e.1@))
}

/// Calls `heapless::IndexMap::iter` and collects each key with the time its
/// report was seen, in the order in which the map lists them.
#[verifier::external_body]
fn tag_map_timestamps(map: &TagMap) -> (stamps: Vec<(TagKey, u64)>)
    ensures
        stamps@ == stamps_of(tag_entries(*map)),
{
    map.iter().map(|(key, report)| (*key, report.timestamp)).collect()
}

/// Calls `heapless::IndexMap::iter` and collects each key with a copy of its
/// report, in the order in which the map lists them.
#[verifier::external_body]
fn tag_map_entries(map: &TagMap) -> (entries: Vec<(TagKey, TagReport)>)
    ensures
        entries_view(entries@) == tag_entries(*map),
{
    map.iter().map(|(key, report)| (*key, report.duplicate())).collect()
}

/// Every report in `s` was seen at or before `now`.
pub open spec fn all_tags_seen_by(s: Seq<TagEntry>, now: u64) -> bool {
    forall|i: int| 0 <= i < s.len() ==> #[trigger] s[i].1.timestamp <= now
}

pub open spec fn spec_tag_is_recent(now: u64, seen_at: u64) -> bool {
    now - seen_at < TAG_MAX_AGE
}

/// The tags of `s` still recent at `now`, in order.
pub open spec fn recent_tags(s: Seq<TagEntry>, now: u64) -> Seq<TagEntry> {
    s.filter(|e: TagEntry| spec_tag_is_recent(now, e.1.timestamp))
}

/// Whether a tag seen at `seen_at` is still recent at `now`.
pub fn tag_is_recent(now: u64, seen_at: u64) -> (b: bool)
    requires
        seen_at <= now,
    ensures
        b == spec_tag_is_recent(now, seen_at),
{
    now - seen_at < TAG_MAX_AGE
}

/// Dropping old tags keeps exactly the recent ones, in their order.
pub proof fn lemma_recent_tags(s: Seq<TagEntry>, now: u64)
    ensures
        forall|i: int| 0 <= i < recent_tags(s, now).len() ==> spec_tag_is_recent(now, #[trigger] recent_tags(s, now)[i].1.timestamp) && s.contains(recent_tags(s, now)[i]),
        forall|i: int| 0 <= i < s.len() && spec_tag_is_recent(now, #[trigger] s[i].1.timestamp) ==> recent_tags(s, now).contains(s[i]),
        recent_tags(s, now).len() <= s.len(),
{
    let pred = |e: TagEntry| spec_tag_is_recent(now, e.1.timestamp);
    s.filter_lemma(pred);
    lemma_filter_subset(s, pred);
}

/// The key of an address: its three least significant bytes.
pub open spec fn spec_tag_key(addr: Seq<u8>) -> TagKey {
    (addr[0], addr[1], addr[2])
}

pub fn tag_key(addr: &[u8; 6]) -> (key: TagKey)
    ensures
        key == spec_tag_key(addr@),
{
    (addr[0], addr[1], addr[2])
}

/// Position `i` holds the first of the reports seen earliest.
pub open spec fn is_first_oldest_tag(s: Seq<TagEntry>, i: int) -> bool {
    &&& 0 <= i < s.len()
    &&& forall|j: int| 0 <= j < s.len() ==> s[i].1.timestamp <= #[trigger] s[j].1.timestamp
    &&& forall|j: int| 0 <= j < i ==> s[i].1.timestamp < #[trigger] s[j].1.timestamp
}

/// Only one position holds the first of the earliest reports.
pub proof fn lemma_first_oldest_tag_unique(s: Seq<TagEntry>, i: int, j: int)
    requires
        is_first_oldest_tag(s, i),
        is_first_oldest_tag(s, j),
    ensures
        i == j,
{
    if i < j {
        assert(s[j].1.timestamp < s[i].1.timestamp);
    } else if j < i {
        assert(s[i].1.timestamp < s[j].1.timestamp);
    }
}

/// A tag as sent to the gateway, before its address is formatted.
#[derive(Debug, Clone)]
pub struct TagSummary {
    /// Seconds since it was seen, capped at `u16::MAX`.
    pub age: u16,
    pub rssi: i8,
    /// The tag's address, least significant byte first.
    pub addr: [u8; 6],
    pub name: String,
    pub sequence: u32,
}

/// The summary of a report at `now`.
pub open spec fn summary_matches(s: TagSummary, r: TagReportModel, now: u64) -> bool {
    &&& s.age == spec_age_secs(now, r.timestamp)
    &&& s.rssi == r.rssi
    &&& s.addr@ == r.addr
    &&& s.name@ == r.name
    &&& s.sequence == r.sequence
}

/// Each report of `s` is kept under the key of its own address.
pub open spec fn keys_match_addresses(s: Seq<TagEntry>) -> bool {
    forall|i: int| 0 <= i < s.len() ==> spec_tag_key(#[trigger] s[i].1.addr) == s[i].0 && s[i].1.addr.len() == 6
}

/// The tags a scanner has seen lately, in the order in which the store
/// lists them.
pub struct TagStore {
    map: TagMap,
}

impl View for TagStore {
    type V = Seq<TagEntry>;

    closed spec fn view(&self) -> Seq<TagEntry> {
        tag_entries(self.map)
    }
}

impl TagStore {
    /// The store holds no key twice, at most `MAX_SEEN` tags, and each
    /// report under the key of its own address.
    pub open spec fn wf(&self) -> bool {
        tag_map_wf(self@) && keys_match_addresses(self@)
    }

    /// An empty store.
    pub fn new() -> (s: TagStore)
        ensures
            s@ == Seq::<TagEntry>::empty(),
            s.wf(),
    {
        let s = TagStore { map: tag_map_new() };
        assert(s@ =~= Seq::<TagEntry>::empty());
        s
    }

    /// The number of tags kept.
    pub fn len(&self) -> (n: usize)
        ensures
            n == self@.len(),
    {
        tag_map_len(&self.map)
    }

    /// Drops the tags not seen within the last ten minutes; the others keep
    /// their order.
    pub fn remove_old_entries(&mut self, now: u64)
        requires
            old(self).wf(),
            all_tags_seen_by(old(self)@, now),
        ensures
            final(self)@ == recent_tags(old(self)@, now),
            final(self).wf(),
    {
        let ghost before = self@;
        tag_map_retain_recent(&mut self.map, now);
        proof {
            lemma_filter_subset(before, |e: TagEntry| spec_tag_is_recent(now, e.1.timestamp));
            assert forall|i: int| 0 <= i < self@.len() implies spec_tag_key(#[trigger] self@[i].1.addr) == self@[i].0 && self@[i].1.addr.len() == 6 by {
                assert(before.contains(self@[i]));
                let j = choose|j: int| 0 <= j < before.len() && before[j] == self@[i];
                assert(spec_tag_key(before[j].1.addr) == before[j].0);
            }
        }
    }

    /// Drops the first of the tags seen earliest, the last tag taking its
    /// place; an empty store stays empty.
    pub fn remove_oldest_entry(&mut self)
        requires
            old(self).wf(),
        ensures
            final(self).wf(),
            old(self)@.len() == 0 ==> final(self)@ == old(self)@,
            old(self)@.len() > 0 ==> exists|i: int| is_first_oldest_tag(old(self)@, i) && #[trigger] swap_remove_at(old(self)@, i) == final(self)@,
    {
        let stamps = tag_map_timestamps(&self.map);
        if stamps.len() == 0 {
            return;
        }
        let ghost before = self@;
        assert(stamps@.len() == before.len());
        let mut best: usize = 0;
        let mut i: usize = 1;
        while i < stamps.len()
            invariant
                0 <= best < i <= stamps.len(),
                stamps@ == stamps_of(before),
                forall|j: int| 0 <= j < i ==> stamps@[best as int].1 <= #[trigger] stamps@[j].1,
                forall|j: int| 0 <= j < best ==> stamps@[best as int].1 < #[trigger] stamps@[j].1,
            decreases stamps.len() - i,
        {
            if stamps[i].1 < stamps[best].1 {
                best = i;
            }
            i = i + 1;
        }
        let key = stamps[best].0;
        proof {
            assert(stamps@[best as int].0 == before[best as int].0);
            lemma_key_index(before, best as int);
            assert forall|j: int| 0 <= j < before.len() implies before[best as int].1.timestamp <= #[trigger] before[j].1.timestamp by {
                assert(stamps@[j].1 == before[j].1.timestamp);
            }
            assert forall|j: int| 0 <= j < best implies before[best as int].1.timestamp < #[trigger] before[j].1.timestamp by {
                assert(stamps@[j].1 == before[j].1.timestamp);
            }
        }
        let _ = tag_map_remove(&mut self.map, &key);
        proof {
            assert(is_first_oldest_tag(before, best as int));
            assert forall|j: int| 0 <= j < self@.len() implies spec_tag_key(#[trigger] self@[j].1.addr) == self@[j].0 && self@[j].1.addr.len() == 6 by {
                if j == best {
                    assert(self@[j] == before[before.len() - 1]);
                } else {
                    assert(self@[j] == before[j]);
                }
            }
        }
    }

    /// Keeps a report under the key of its address: in place of the
    /// report kept under that key, else last. When the store is full and the
    /// key is new, the first of the tags seen earliest makes room first; so
    /// the report is always kept.
    pub fn receive(&mut self, report: TagReport) -> (res: Result<(), TagReport>)
        requires
            old(self).wf(),
        ensures
            final(self).wf(),
            res is Ok,
            final(self)@.contains((spec_tag_key(report@.addr), report@)),
            has_key(old(self)@, spec_tag_key(report@.addr)) || old(self)@.len() < MAX_SEEN ==>
                final(self)@ == upsert(old(self)@, spec_tag_key(report@.addr), report@),
            !has_key(old(self)@, spec_tag_key(report@.addr)) && old(self)@.len() >= MAX_SEEN ==>
                exists|i: int| is_first_oldest_tag(old(self)@, i) && #[trigger] swap_remove_at(old(self)@, i).push((spec_tag_key(report@.addr), report@)) == final(self)@,
    {
        let key = tag_key(&report.addr);
        let ghost before = self@;
        let ghost rv = report@;
        if tag_map_is_full(&self.map) && !tag_map_contains_key(&self.map, &key) {
            self.remove_oldest_entry();
            proof {
                let i = choose|i: int| is_first_oldest_tag(before, i) && #[trigger] swap_remove_at(before, i) == self@;
                assert(self@.len() < MAX_SEEN);
                assert(!has_key(self@, key)) by {
                    if has_key(self@, key) {
                        let j = choose|j: int| 0 <= j < self@.len() && #[trigger] self@[j].0 == key;
                        if j == i {
                            assert(self@[j] == before[before.len() - 1]);
                        } else {
                            assert(self@[j] == before[j]);
                        }
                    }
                }
            }
        }
        let ghost mid = self@;
        let res = match tag_map_insert(&mut self.map, key, report) {
            Ok(_) => Ok(()),
            Err((_, report)) => Err(report),
        };
        proof {
            if has_key(mid, key) {
                let k = key_index(mid, key);
                assert(self@[k] == (key, rv));
            } else {
                assert(self@[mid.len() as int] == (key, rv));
            }
            assert forall|j: int| 0 <= j < self@.len() implies spec_tag_key(#[trigger] self@[j].1.addr) == self@[j].0 && self@[j].1.addr.len() == 6 by {
                if has_key(mid, key) {
                    if j != key_index(mid, key) {
                        assert(self@[j] == mid[j]);
                    }
                } else if j < mid.len() {
                    assert(self@[j] == mid[j]);
                }
            }
        }
        res
    }

    /// The tags kept, in the store's order, each with its age at `now`.
    pub fn snapshot(&self, now: u64) -> (tags: Vec<TagSummary>)
        requires
            all_tags_seen_by(self@, now),
        ensures
            tags@.len() == self@.len(),
            forall|i: int| 0 <= i < tags@.len() ==> #[trigger] summary_matches(tags@[i], self@[i].1, now),
    {
        let entries = tag_map_entries(&self.map);
        let mut tags: Vec<TagSummary> = Vec::new();
        let mut i: usize = 0;
        while i < entries.len()
            invariant
                i <= entries.len(),
                tags@.len() == i,
                entries_view(entries@) == self@,
                all_tags_seen_by(self@, now),
                forall|n: int| 0 <= n < i ==> #[trigger] summary_matches(tags@[n], self@[n].1, now),
            decreases entries.len() - i,
        {
            assert(entries_view(entries@)[i as int] == (entries@[i as int].0, entries@[i as int].1@));
            let report = &entries[i].1;
            assert(self@[i as int].1.timestamp <= now);
            let age = age_secs(now, report.timestamp);
            tags.push(TagSummary {
                age,
                rssi: report.rssi,
                addr: report.addr,
                name: report.name.clone(),
                sequence: report.sequence,
            });
            i = i + 1;
        }
        tags
    }
}

} // verus!
