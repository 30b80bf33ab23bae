//! The iBeacon scanner: which advertisements carry a beacon UUID, and the
//! store of the beacons seen lately.
use vstd::prelude::*;
use crate::ad::{ad_records, decode_ad_records, records_view, AdRecord, AdRecordModel};
use crate::collections::{
    has_key, key_index, keys_distinct, lemma_filter_subset, lemma_key_index, swap_remove_at,
    upsert_if_room, MAX_SEEN,
};
use crate::scan::{age_secs, reports_view, spec_age_secs, ScanReport, ScanReportModel};

verus! {

/// Company identifier of iBeacon advertisements.
pub const IBEACON_COMPANY_IDENTIFIER: u16 = 0x004c;

/// Payloads of at most this many bytes are too short for an iBeacon.
pub const IBEACON_SHORT_PAYLOAD: usize = 22;

/// Beacons not seen for this long (in microseconds, ten minutes) are dropped.
pub const BEACON_MAX_AGE: u64 = 600_000_000;

/// The UUID that advertising records carry: the first manufacturer-specific
/// record decides; it must be Apple's and its payload longer than 22 bytes,
/// and the UUID is the payload's bytes 2 to 17.
pub open spec fn spec_ibeacon_uuid(records: Seq<AdRecordModel>) -> Option<Seq<u8>>
    decreases records.len(),
{
    if records.len() == 0 {
        None
    } else {
        match records[0] {
            AdRecordModel::ManufacturerSpecificData { company_identifier, payload } => {
                if company_identifier != IBEACON_COMPANY_IDENTIFIER || payload.len() <= IBEACON_SHORT_PAYLOAD {
                    None
                } else {
                    Some(payload.subrange(2, 18))
                }
            },
            _ => spec_ibeacon_uuid(records.drop_first()),
        }
    }
}

/// The first manufacturer-specific record decides: with records of other
/// kinds before it, the UUID is its payload's bytes 2 to 17 when it is
/// Apple's and its payload is longer than 22 bytes, and there is none
/// otherwise; records after it do not count. Without such a record there
/// is no UUID.
pub proof fn lemma_ibeacon_first_manufacturer(records: Seq<AdRecordModel>, i: int)
    requires
        0 <= i <= records.len(),
        forall|j: int| 0 <= j < i ==> !(#[trigger] records[j] is ManufacturerSpecificData),
        i < records.len() ==> records[i] is ManufacturerSpecificData,
    ensures
        i == records.len() ==> spec_ibeacon_uuid(records) is None,
        i < records.len() ==> spec_ibeacon_uuid(records) == match records[i] {
            AdRecordModel::ManufacturerSpecificData { company_identifier, payload } =>
                if company_identifier == IBEACON_COMPANY_IDENTIFIER && payload.len() > IBEACON_SHORT_PAYLOAD {
                    Some(payload.subrange(2, 18))
                } else {
                    None::<Seq<u8>>
                },
            _ => None,
        },
    decreases i,
{
    if i > 0 {
        let rest = records.drop_first();
        assert(!(records[0] is ManufacturerSpecificData));
        assert forall|j: int| 0 <= j < i - 1 implies !(#[trigger] rest[j] is ManufacturerSpecificData) by {
            assert(rest[j] == records[j + 1]);
        }
        if i < records.len() {
            assert(rest[i - 1] == records[i]);
        }
        lemma_ibeacon_first_manufacturer(rest, i - 1);
    }
}

/// The bytes of an optional array.
pub open spec fn opt_bytes(o: Option<[u8; 16]>) -> Option<Seq<u8>> {
    match o {
        Some(a) => Some(a@),
        None => None,
    }
}

/// The beacon UUID carried by decoded advertising records, if any.
pub fn ibeacon_uuid(records: &Vec<AdRecord>) -> (res: Option<[u8; 16]>)
    ensures
        opt_bytes(res) == spec_ibeacon_uuid(records_view(records@)),
{
    let ghost rv = records_view(records@);
    let mut i: usize = 0;
    assert(rv.skip(0) =~= rv);
    while i < records.len()
        invariant
            i <= records.len(),
            rv == records_view(records@),
            spec_ibeacon_uuid(rv) == spec_ibeacon_uuid(rv.skip(i as int)),
        decreases records.len() - i,
    {
        assert(rv.skip(i as int)[0] == rv[i as int]);
        assert(rv.skip(i as int).drop_first() =~= rv.skip(i + 1));
        match &records[i] {
            AdRecord::ManufacturerSpecificData { company_identifier, payload } => {
                if *company_identifier != IBEACON_COMPANY_IDENTIFIER || payload.len() <= IBEACON_SHORT_PAYLOAD {
                    return None;
                }
                let mut uuid = [0u8; 16];
                let mut j: usize = 0;
                while j < 16
                    invariant
                        j <= 16,
                        payload.len() > IBEACON_SHORT_PAYLOAD,
                        forall|k: int| 0 <= k < j ==> uuid@[k] == payload@[k + 2],
                    decreases 16 - j,
                {
                    uuid[j] = payload[j + 2];
                    j = j + 1;
                }
                assert(uuid@ =~= payload@.subrange(2, 18));
                return Some(uuid);
            },
            _ => {},
        }
        i = i + 1;
    }
    assert(rv.skip(i as int).len() == 0);
    None
}

/// The beacon UUID of an advertisement, from its advertising data.
pub fn return_valid_uuid(data: &[u8]) -> (res: Option<[u8; 16]>)
    ensures
        opt_bytes(res) == spec_ibeacon_uuid(ad_records(data@)),
{
    let records = decode_ad_records(data);
    ibeacon_uuid(&records)
}

/// The value of bytes read most significant first.
pub open spec fn be_value(b: Seq<u8>) -> nat
    decreases b.len(),
{
    if b.len() == 0 {
        0
    } else {
        be_value(b.drop_last()) * 256 + b.last() as nat
    }
}

pub open spec fn pow256(n: nat) -> nat
    decreases n,
{
    if n == 0 { 1 } else { 256 * pow256((n - 1) as nat) }
}

proof fn lemma_be_value_bound(b: Seq<u8>)
    ensures
        be_value(b) < pow256(b.len()),
    decreases b.len(),
{
    if b.len() > 0 {
        lemma_be_value_bound(b.drop_last());
    }
}

/// A UUID as a 128-bit number, most significant byte first.
pub fn uuid_value(bytes: &[u8; 16]) -> (v: u128)
    ensures
        v == be_value(bytes@),
{
    let mut acc: u128 = 0;
    let mut i: usize = 0;
    assert(pow256(16) == 0x1_0000_0000_0000_0000_0000_0000_0000_0000) by {
        reveal_with_fuel(pow256, 17);
    }
    while i < 16
        invariant
            i <= 16,
            acc == be_value(bytes@.take(i as int)),
            pow256(16) == 0x1_0000_0000_0000_0000_0000_0000_0000_0000,
        decreases 16 - i,
    {
        proof {
            lemma_be_value_bound(bytes@.take(i as int));
            lemma_pow256_mono(i as nat, 15);
            assert(bytes@.take(i + 1).drop_last() =~= bytes@.take(i as int));
        }
        acc = acc * 256 + bytes[i] as u128;
        i = i + 1;
    }
    assert(bytes@.take(16) =~= bytes@);
    acc
}

proof fn lemma_pow256_mono(a: nat, b: nat)
    requires
        a <= b,
    ensures
        pow256(a) <= pow256(b),
    decreases b,
{
    if a < b {
        lemma_pow256_mono(a, (b - 1) as nat);
    }
}

} // verus!

verus! {

/// When a beacon was last seen (microseconds) and how strong it was.
pub type BeaconSighting = (u64, i8);

/// A beacon's UUID with its last sighting.
pub type BeaconEntry = (u128, BeaconSighting);

/// The map in which the scanner keeps beacons, by UUID.
pub type BeaconMap = heapless::IndexMap<u128, BeaconSighting, hash32::BuildHasherDefault<hash32::FnvHasher>, MAX_SEEN>;

/// The pairs that a [`BeaconMap`] holds, in the order in which it lists them.
pub uninterp spec fn beacon_entries(map: BeaconMap) -> Seq<BeaconEntry>;

/// What every beacon map satisfies: no UUID twice, at most `MAX_SEEN` pairs.
pub open spec fn beacon_map_wf(s: Seq<BeaconEntry>) -> bool {
    keys_distinct(s) && s.len() <= MAX_SEEN
}

/// Calls `heapless::index_map::FnvIndexMap::new`: an empty map.
#[verifier::external_body]
fn beacon_map_new() -> (map: BeaconMap)
    ensures
        beacon_entries(map).len() == 0,
{
    heapless::index_map::FnvIndexMap::new()
}

/// Calls `heapless::IndexMap::len`: the number of pairs.
#[verifier::external_body]
fn beacon_map_len(map: &BeaconMap) -> (n: usize)
    ensures
        n == beacon_entries(*map).len(),
{
    map.len()
}

/// Calls `heapless::IndexMap::insert`. A key already present gets the new
/// value in its place and its old value is returned; a new key is added
/// last when the map is not full, and is handed back when it is.
#[verifier::external_body]
fn beacon_map_insert(map: &mut BeaconMap, key: u128, value: BeaconSighting) -> (res: Result<Option<BeaconSighting>, BeaconEntry>)
    ensures
        beacon_map_wf(beacon_entries(*final(map))),
        has_key(beacon_entries(*old(map)), key) ==> (res matches Ok(Some(v)) && v == beacon_entries(*old(map))[key_index(beacon_entries(*old(map)), key)].1) && beacon_entries(*final(map)) == beacon_entries(*old(map)).update(key_index(beacon_entries(*old(map)), key), (key, value)),
        !has_key(beacon_entries(*old(map)), key) && beacon_entries(*old(map)).len() < MAX_SEEN ==> (res matches Ok(r) && r is None) && beacon_entries(*final(map)) == beacon_entries(*old(map)).push((key, value)),
        !has_key(beacon_entries(*old(map)), key) && beacon_entries(*old(map)).len() >= MAX_SEEN ==> (res matches Err(p) && p == (key, value)) && beacon_entries(*final(map)) == beacon_entries(*old(map)),
{
    map.insert(key, value)
}

/// Calls `heapless::IndexMap::remove`, which swaps the last pair into the
/// place of the pair taken out, and returns its value.
#[verifier::external_body]
fn beacon_map_remove(map: &mut BeaconMap, key: &u128) -> (res: Option<BeaconSighting>)
    ensures
        beacon_map_wf(beacon_entries(*final(map))),
        has_key(beacon_entries(*old(map)), *key) ==> (res matches Some(v) && v == beacon_entries(*old(map))[key_index(beacon_entries(*old(map)), *key)].1) && beacon_entries(*final(map)) == swap_remove_at(beacon_entries(*old(map)), key_index(beacon_entries(*old(map)), *key)),
        !has_key(beacon_entries(*old(map)), *key) ==> res is None && beacon_entries(*final(map)) == beacon_entries(*old(map)),
{
    map.remove(key)
}

/// Calls `heapless::IndexMap::retain` with a predicate that keeps the beacons
/// seen less than `BEACON_MAX_AGE` before `now`; the pairs kept stay in
/// order.
#[verifier::external_body]
fn beacon_map_retain_recent(map: &mut BeaconMap, now: u64)
    requires
        all_seen_by(beacon_entries(*old(map)), now),
    ensures
        beacon_map_wf(beacon_entries(*final(map))),
        beacon_entries(*final(map)) == recent_beacons(beacon_entries(*old(map)), now),
{
    map.retain(|_, sighting| is_recent(now, sighting.0))
}

/// Calls `heapless::IndexMap::iter` and collects the pairs in the order in
/// which it lists them.
#[verifier::external_body]
fn beacon_map_entries(map: &BeaconMap) -> (entries: Vec<BeaconEntry>)
    ensures
        entries@ == beacon_entries(*map),
{
    map.iter().map(|(key, value)| (*key, *value)).collect()
}

/// Every sighting in `s` happened at or before `now`.
pub open spec fn all_seen_by(s: Seq<BeaconEntry>, now: u64) -> bool {
    forall|i: int| 0 <= i < s.len() ==> #[trigger] s[i].1.0 <= now
}

/// Whether something seen at `seen_at` is still recent at `now`.
pub open spec fn spec_is_recent(now: u64, seen_at: u64) -> bool {
    now - seen_at < BEACON_MAX_AGE
}

/// The beacons of `s` that are still recent at `now`, in order.
pub open spec fn recent_beacons(s: Seq<BeaconEntry>, now: u64) -> Seq<BeaconEntry> {
    s.filter(|e: BeaconEntry| spec_is_recent(now, e.1.0))
}

/// Whether something seen at `seen_at` is still recent at `now`.
pub fn is_recent(now: u64, seen_at: u64) -> (b: bool)
    requires
        seen_at <= now,
    ensures
        b == spec_is_recent(now, seen_at),
{
    now - seen_at < BEACON_MAX_AGE
}

/// Whether sighting `a` orders before sighting `b`: by time, then by signal
/// strength.
pub open spec fn sighting_before(a: BeaconSighting, b: BeaconSighting) -> bool {
    a.0 < b.0 || (a.0 == b.0 && a.1 < b.1)
}

/// Position `i` holds the first of the sightings that order first.
pub open spec fn is_first_oldest_beacon(s: Seq<BeaconEntry>, i: int) -> bool {
    &&& 0 <= i < s.len()
    &&& forall|j: int| 0 <= j < s.len() ==> !sighting_before(#[trigger] s[j].1, s[i].1)
    &&& forall|j: int| 0 <= j < i ==> sighting_before(s[i].1, #[trigger] s[j].1)
}

/// Only one position holds the first of the oldest sightings.
pub proof fn lemma_first_oldest_beacon_unique(s: Seq<BeaconEntry>, i: int, j: int)
    requires
        is_first_oldest_beacon(s, i),
        is_first_oldest_beacon(s, j),
    ensures
        i == j,
{
    if i < j {
        assert(sighting_before(s[j].1, s[i].1));
    } else if j < i {
        assert(sighting_before(s[i].1, s[j].1));
    }
}

/// The store after a report received at `now`.
pub open spec fn spec_record_report(s: Seq<BeaconEntry>, report: ScanReportModel, now: u64) -> Seq<BeaconEntry> {
    match spec_ibeacon_uuid(ad_records(report.data)) {
        Some(uuid) => upsert_if_room(s, be_value(uuid) as u128, (now, report.rssi)),
        None => s,
    }
}

/// The store after reports received at `now`, in order.
pub open spec fn spec_record_reports(s: Seq<BeaconEntry>, reports: Seq<ScanReportModel>, now: u64) -> Seq<BeaconEntry>
    decreases reports.len(),
{
    if reports.len() == 0 {
        s
    } else {
        spec_record_report(spec_record_reports(s, reports.drop_last(), now), reports.last(), now)
    }
}

/// Recording a single report is recording that report.
pub proof fn lemma_record_reports_single(s: Seq<BeaconEntry>, report: ScanReportModel, now: u64)
    ensures
        spec_record_reports(s, seq![report], now) == spec_record_report(s, report, now),
{
    let one = seq![report];
    assert(one.drop_last() =~= Seq::<ScanReportModel>::empty());
    assert(spec_record_reports(s, one.drop_last(), now) == s);
    assert(one.last() == report);
}

/// Recording two batches of reports, one after the other, is recording the
/// first batch and then the second: every report of a batch is recorded in
/// turn, none is skipped.
pub proof fn lemma_record_reports_concat(
    s: Seq<BeaconEntry>,
    first: Seq<ScanReportModel>,
    second: Seq<ScanReportModel>,
    now: u64,
)
    ensures
        spec_record_reports(s, first + second, now) == spec_record_reports(spec_record_reports(s, first, now), second, now),
    decreases second.len(),
{
    if second.len() == 0 {
        assert(first + second =~= first);
    } else {
        lemma_record_reports_concat(s, first, second.drop_last(), now);
        assert((first + second).drop_last() =~= first + second.drop_last());
        assert((first + second).last() == second.last());
    }
}

/// Dropping old beacons keeps exactly the recent ones, in their order.
pub proof fn lemma_recent_beacons(s: Seq<BeaconEntry>, now: u64)
    ensures
        forall|i: int| 0 <= i < recent_beacons(s, now).len() ==> spec_is_recent(now, #[trigger] recent_beacons(s, now)[i].1.0) && s.contains(recent_beacons(s, now)[i]),
        forall|i: int| 0 <= i < s.len() && spec_is_recent(now, #[trigger] s[i].1.0) ==> recent_beacons(s, now).contains(s[i]),
        recent_beacons(s, now).len() <= s.len(),
{
    let pred = |e: BeaconEntry| spec_is_recent(now, e.1.0);
    s.filter_lemma(pred);
    lemma_filter_subset(s, pred);
}

/// A report that carries a beacon UUID leaves that beacon in the store, seen
/// at the report's time with its strength, unless the store was full of
/// other beacons.
pub proof fn lemma_report_recorded(s: Seq<BeaconEntry>, report: ScanReportModel, now: u64)
    requires
        spec_ibeacon_uuid(ad_records(report.data)) is Some,
        has_key(s, be_value(spec_ibeacon_uuid(ad_records(report.data))->Some_0) as u128) || s.len() < MAX_SEEN,
    ensures
        spec_record_report(s, report, now).contains((be_value(spec_ibeacon_uuid(ad_records(report.data))->Some_0) as u128, (now, report.rssi))),
{
    let k = be_value(spec_ibeacon_uuid(ad_records(report.data))->Some_0) as u128;
    let r = spec_record_report(s, report, now);
    if has_key(s, k) {
        assert(r[key_index(s, k)] == (k, (now, report.rssi)));
    } else {
        assert(r[s.len() as int] == (k, (now, report.rssi)));
    }
}

/// A beacon as reported to the gateway.
#[derive(Debug, Clone, Copy, PartialEq, Eq)]
pub struct BeaconTag {
    /// The beacon's UUID, most significant byte first.
    pub id: u128,
    /// Seconds since it was last seen, capped at `u16::MAX`.
    pub age: u16,
    pub rssi: i8,
}

/// The tag reported at `now` for a pair of the store.
pub open spec fn beacon_tag(now: u64, e: BeaconEntry) -> BeaconTag {
    BeaconTag { id: e.0, age: spec_age_secs(now, e.1.0), rssi: e.1.1 }
}

/// The beacons seen lately, by UUID, in the order in which the store lists
/// them.
pub struct BeaconStore {
    map: BeaconMap,
}

impl View for BeaconStore {
    type V = Seq<BeaconEntry>;

    closed spec fn view(&self) -> Seq<BeaconEntry> {
        beacon_entries(self.map)
    }
}

impl BeaconStore {
    /// The store holds no UUID twice and at most `MAX_SEEN` beacons.
    pub open spec fn wf(&self) -> bool {
        beacon_map_wf(self@)
    }

    /// An empty store.
    pub fn new() -> (s: BeaconStore)
        ensures
            s@ == Seq::<BeaconEntry>::empty(),
            s.wf(),
    {
        let s = BeaconStore { map: beacon_map_new() };
        assert(s@ =~= Seq::<BeaconEntry>::empty());
        s
    }

    /// The number of beacons kept.
    pub fn len(&self) -> (n: usize)
        ensures
            n == self@.len(),
    {
        beacon_map_len(&self.map)
    }

    /// Keeps `uuid` as seen at `now` with strength `rssi`, in place if it is
    /// kept already, else last if there is room.
    pub fn record(&mut self, uuid: u128, now: u64, rssi: i8)
        requires
            old(self).wf(),
        ensures
            final(self)@ == upsert_if_room(old(self)@, uuid, (now, rssi)),
            final(self).wf(),
    {
        let _ = beacon_map_insert(&mut self.map, uuid, (now, rssi));
    }

    /// Records every report that carries a beacon UUID, in order, as seen at
    /// `now`; a beacon that finds the store full is dropped.
    pub fn record_reports(&mut self, reports: &Vec<ScanReport>, now: u64)
        requires
            old(self).wf(),
        ensures
            final(self)@ == spec_record_reports(old(self)@, reports_view(reports@), now),
            final(self).wf(),
    {
        let ghost start = self@;
        let ghost rv = reports_view(reports@);
        let mut i: usize = 0;
        assert(rv.take(0) =~= Seq::<ScanReportModel>::empty());
        while i < reports.len()
            invariant
                i <= reports.len(),
                rv == reports_view(reports@),
                self@ == spec_record_reports(start, rv.take(i as int), now),
                self.wf(),
            decreases reports.len() - i,
        {
            assert(rv.take(i + 1).drop_last() =~= rv.take(i as int));
            let found = return_valid_uuid(reports[i].data.as_slice());
            match found {
                Some(bytes) => {
                    let uuid = uuid_value(&bytes);
                    self.record(uuid, now, reports[i].rssi);
                },
                None => {},
            }
            i = i + 1;
        }
        assert(rv.take(reports.len() as int) =~= rv);
    }

    /// Drops the beacons not seen within the last ten minutes; the others
    /// keep their order.
    pub fn remove_old_entries(&mut self, now: u64)
        requires
            all_seen_by(old(self)@, now),
        ensures
            final(self)@ == recent_beacons(old(self)@, now),
            final(self).wf(),
    {
        beacon_map_retain_recent(&mut self.map, now);
    }

    /// Drops the first of the beacons whose sighting orders first, the last
    /// beacon taking its place; an empty store stays empty.
    pub fn remove_oldest_entry(&mut self)
        requires
            old(self).wf(),
        ensures
            final(self).wf(),
            old(self)@.len() == 0 ==> final(self)@ == old(self)@,
            old(self)@.len() > 0 ==> exists|i: int| is_first_oldest_beacon(old(self)@, i) && #[trigger] swap_remove_at(old(self)@, i) == final(self)@,
    {
        let entries = beacon_map_entries(&self.map);
        if entries.len() == 0 {
            return;
        }
        let mut best: usize = 0;
        let mut i: usize = 1;
        while i < entries.len()
            invariant
                0 <= best < i <= entries.len(),
                forall|j: int| 0 <= j < i ==> !sighting_before(#[trigger] entries@[j].1, entries@[best as int].1),
                forall|j: int| 0 <= j < best ==> sighting_before(entries@[best as int].1, #[trigger] entries@[j].1),
            decreases entries.len() - i,
        {
            let (t, r) = entries[i].1;
            let (bt, br) = entries[best].1;
            if t < bt || (t == bt && r < br) {
                best = i;
            }
            i = i + 1;
        }
        let key = entries[best].0;
        let ghost before = self@;
        proof {
            lemma_key_index(before, best as int);
        }
        let _ = beacon_map_remove(&mut self.map, &key);
        assert(is_first_oldest_beacon(before, best as int));
    }

    /// The beacons kept, in the store's order, each with its age at `now`.
    pub fn snapshot(&self, now: u64) -> (tags: Vec<BeaconTag>)
        requires
            all_seen_by(self@, now),
        ensures
            tags@.len() == self@.len(),
            forall|i: int| 0 <= i < tags@.len() ==> #[trigger] tags@[i] == beacon_tag(now, self@[i]),
    {
        let entries = beacon_map_entries(&self.map);
        let mut tags: Vec<BeaconTag> = Vec::new();
        let mut i: usize = 0;
        while i < entries.len()
            invariant
                i <= entries.len(),
                tags@.len() == i,
                entries@ == self@,
                all_seen_by(self@, now),
                forall|n: int| 0 <= n < i ==> #[trigger] tags@[n] == beacon_tag(now, entries@[n]),
            decreases entries.len() - i,
        {
            let (id, (seen_at, rssi)) = entries[i];
            assert(entries@[i as int].1.0 <= now);
            let age = age_secs(now, seen_at);
            tags.push(BeaconTag { id, age, rssi });
            i = i + 1;
        }
        tags
    }
}

} // verus!
