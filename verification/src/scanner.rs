//! The tag scanner: which advertisements come from tags, and what a tag
//! report holds.
use vstd::prelude::*;
use vstd::utf8::{decode_utf8, encode_utf8, valid_utf8};
use crate::ad::{ad_records, advertising_encoding, decode_ad_records, encoded_records, records_view, AdRecord, AdRecordModel};
use crate::advertiser::{
    lemma_u32_be_roundtrip, spec_advertising_data, u32_be_bytes, u32_from_be, AdvertisementPayload,
    ADVERTISING_FLAGS, TAG_COMPANY_IDENTIFIER,
};
use crate::scan::{reports_view, ScanReport, ScanReportModel};

verus! {

/// Longest tag name, in bytes, that a scanner keeps.
pub const TAG_NAME_MAX_LEN: usize = 32;

/// Text that bytes encode in UTF-8, if they are valid UTF-8.
pub open spec fn spec_utf8_text(bytes: Seq<u8>) -> Option<Seq<char>> {
    if valid_utf8(bytes) {
        Some(decode_utf8(bytes))
    } else {
        None
    }
}

/// Calls `core::str::from_utf8` and copies the text it accepts: the bytes
/// are accepted exactly when they are valid UTF-8, and then encode the text.
#[verifier::external_body]
fn utf8_bytes_to_string(bytes: &[u8]) -> (text: Option<String>)
    ensures
        text is Some <==> valid_utf8(bytes@),
        text matches Some(s) ==> encode_utf8(s@) == bytes@,
{
    core::str::from_utf8(bytes).ok().map(|s| s.to_string())
}

/// The text of UTF-8 bytes, or `None` when they are not valid UTF-8.
pub fn utf8_text(bytes: &[u8]) -> (text: Option<String>)
    ensures
        opt_text(text) == spec_utf8_text(bytes@),
{
    let text = utf8_bytes_to_string(bytes);
    proof {
        if text is Some {
            vstd::utf8::encode_utf8_decode_utf8(text->0@);
        }
    }
    text
}

pub open spec fn opt_text(o: Option<String>) -> Option<Seq<char>> {
    match o {
        Some(s) => Some(s@),
        None => None,
    }
}

/// Name and sequence number found in advertising records, read in order:
/// every manufacturer-specific record must be a tag's, with at least four
/// bytes, whose first four give the sequence number; every complete local
/// name must be at most `TAG_NAME_MAX_LEN` bytes, and the last one gives the
/// name if it is valid UTF-8 (else there is no name). Both must be found.
pub open spec fn spec_tag_fields(
    records: Seq<AdRecordModel>,
    name: Option<Seq<char>>,
    sequence: Option<u32>,
) -> Option<(Seq<char>, u32)>
    decreases records.len(),
{
    if records.len() == 0 {
        match (name, sequence) {
            (Some(n), Some(s)) => Some((n, s)),
            _ => None,
        }
    } else {
        match records[0] {
            AdRecordModel::ManufacturerSpecificData { company_identifier, payload } => {
                if company_identifier != TAG_COMPANY_IDENTIFIER || payload.len() < 4 {
                    None
                } else {
                    spec_tag_fields(records.drop_first(), name, Some(u32_from_be(payload.subrange(0, 4)) as u32))
                }
            },
            AdRecordModel::CompleteLocalName(data) => {
                if data.len() > TAG_NAME_MAX_LEN {
                    None
                } else {
                    spec_tag_fields(records.drop_first(), spec_utf8_text(data), sequence)
                }
            },
            _ => spec_tag_fields(records.drop_first(), name, sequence),
        }
    }
}

/// Whether a record is manufacturer-specific data that is not a tag's: of
/// another company, or shorter than a sequence number.
pub open spec fn is_foreign_data(r: AdRecordModel) -> bool {
    match r {
        AdRecordModel::ManufacturerSpecificData { company_identifier, payload } =>
            company_identifier != TAG_COMPANY_IDENTIFIER || payload.len() < 4,
        _ => false,
    }
}

/// Whether a record is a complete local name too long to keep.
pub open spec fn is_overlong_name(r: AdRecordModel) -> bool {
    match r {
        AdRecordModel::CompleteLocalName(data) => data.len() > TAG_NAME_MAX_LEN,
        _ => false,
    }
}

/// Advertising records with manufacturer-specific data that is not a
/// tag's, or with a name too long to keep, anywhere among them, are not a
/// tag's, whatever else they hold.
pub proof fn lemma_tag_fields_rejects(records: Seq<AdRecordModel>, name: Option<Seq<char>>, sequence: Option<u32>, i: int)
    requires
        0 <= i < records.len(),
        is_foreign_data(records[i]) || is_overlong_name(records[i]),
    ensures
        spec_tag_fields(records, name, sequence) is None,
    decreases i,
{
    if i > 0 {
        let rest = records.drop_first();
        assert(rest[i - 1] == records[i]);
        match records[0] {
            AdRecordModel::ManufacturerSpecificData { company_identifier, payload } => {
                if !(company_identifier != TAG_COMPANY_IDENTIFIER || payload.len() < 4) {
                    lemma_tag_fields_rejects(rest, name, Some(u32_from_be(payload.subrange(0, 4)) as u32), i - 1);
                }
            },
            AdRecordModel::CompleteLocalName(data) => {
                if data.len() <= TAG_NAME_MAX_LEN {
                    lemma_tag_fields_rejects(rest, spec_utf8_text(data), sequence, i - 1);
                }
            },
            _ => {
                lemma_tag_fields_rejects(rest, name, sequence, i - 1);
            },
        }
    }
}

pub open spec fn opt_fields(o: Option<(String, u32)>) -> Option<(Seq<char>, u32)> {
    match o {
        Some((n, s)) => Some((n@, s)),
        None => None,
    }
}

/// A sequence number from four bytes, most significant first.
pub fn u32_from_be_bytes(b: &[u8]) -> (v: u32)
    requires
        b@.len() >= 4,
    ensures
        v == u32_from_be(b@.subrange(0, 4)),
{
    b[0] as u32 * 0x100_0000 + b[1] as u32 * 0x1_0000 + b[2] as u32 * 0x100 + b[3] as u32
}

/// Name and sequence number of a tag, from decoded advertising records.
pub fn tag_fields(records: &Vec<AdRecord>) -> (res: Option<(String, u32)>)
    ensures
        opt_fields(res) == spec_tag_fields(records_view(records@), None, None),
{
    let ghost rv = records_view(records@);
    let mut name: Option<String> = None;
    let mut sequence: Option<u32> = None;
    let mut i: usize = 0;
    assert(rv.skip(0) =~= rv);
    while i < records.len()
        invariant
            i <= records.len(),
            rv == records_view(records@),
            spec_tag_fields(rv, None, None) == spec_tag_fields(rv.skip(i as int), opt_text(name), sequence),
        decreases records.len() - i,
    {
        assert(rv.skip(i as int)[0] == rv[i as int]);
        assert(rv.skip(i as int).drop_first() =~= rv.skip(i + 1));
        match &records[i] {
            AdRecord::ManufacturerSpecificData { company_identifier, payload } => {
                if *company_identifier != TAG_COMPANY_IDENTIFIER || payload.len() < 4 {
                    return None;
                }
                sequence = Some(u32_from_be_bytes(payload.as_slice()));
            },
            AdRecord::CompleteLocalName(data) => {
                if data.len() > TAG_NAME_MAX_LEN {
                    return None;
                }
                name = utf8_text(data.as_slice());
            },
            _ => {},
        }
        i = i + 1;
    }
    assert(rv.skip(i as int).len() == 0);
    match (name, sequence) {
        (Some(n), Some(s)) => Some((n, s)),
        _ => None,
    }
}

/// The records that a tag's advertising data decode to when its name is not
/// empty: its flags (a structure of another kind), its complete local name,
/// and its payload as manufacturer-specific data.
pub open spec fn advertised_records(name: Seq<u8>, payload: AdvertisementPayload) -> Seq<AdRecordModel> {
    encoded_records(name, TAG_COMPANY_IDENTIFIER, payload.spec_bytes())
}

/// A scanner reads back the name and the sequence number that a tag
/// advertises, when the name is valid UTF-8, not empty, and short enough to
/// keep. (An empty name makes a structure one byte long, which the decoder
/// rejects.)
pub proof fn lemma_scanner_reads_advertisement(name: Seq<u8>, payload: AdvertisementPayload)
    requires
        valid_utf8(name),
        1 <= name.len() <= TAG_NAME_MAX_LEN,
    ensures
        spec_tag_fields(advertised_records(name, payload), None, None) == Some((decode_utf8(name), payload.sequence)),
{
    let rs = advertised_records(name, payload);
    let bytes = payload.spec_bytes();
    lemma_u32_be_roundtrip(payload.sequence);
    assert(bytes.subrange(0, 4) =~= u32_be_bytes(payload.sequence));
    assert(rs.drop_first() =~= seq![rs[1], rs[2]]);
    assert(rs.drop_first().drop_first() =~= seq![rs[2]]);
    assert(rs.drop_first().drop_first().drop_first() =~= Seq::<AdRecordModel>::empty());
    reveal_with_fuel(spec_tag_fields, 4);
}

/// Whenever `data` is what a tag advertises under a valid UTF-8 name that is
/// not empty and short enough to keep, `fields` are that name and the tag's
/// sequence number.
pub open spec fn reads_back_tag(data: Seq<u8>, fields: Option<(Seq<char>, u32)>) -> bool {
    forall|name: Seq<u8>, payload: AdvertisementPayload|
        #[trigger] spec_advertising_data(name, payload) == data
            && valid_utf8(name) && 1 <= name.len() <= TAG_NAME_MAX_LEN
            ==> fields == Some((decode_utf8(name), payload.sequence))
}

/// Name and sequence number of a tag, from its advertising data. What a tag
/// advertises is read back whole.
pub fn parse_manufacturer_data(data: &[u8]) -> (res: Option<(String, u32)>)
    ensures
        opt_fields(res) == spec_tag_fields(ad_records(data@), None, None),
        reads_back_tag(data@, opt_fields(res)),
{
    let records = decode_ad_records(data);
    let res = tag_fields(&records);
    proof {
        assert forall|name: Seq<u8>, payload: AdvertisementPayload|
            #[trigger] spec_advertising_data(name, payload) == data@
                && valid_utf8(name) && 1 <= name.len() <= TAG_NAME_MAX_LEN
            implies opt_fields(res) == Some((decode_utf8(name), payload.sequence)) by {
            assert(advertising_encoding(ADVERTISING_FLAGS, name, TAG_COMPANY_IDENTIFIER, payload.spec_bytes()) == data@);
            assert(payload.spec_bytes().len() == 5);
            lemma_scanner_reads_advertisement(name, payload);
        }
    }
    res
}

/// Whether an address (least significant byte first) ends with `prefix`,
/// that is, whether its three most significant bytes are the prefix.
pub fn addr_has_prefix(addr: &[u8; 6], prefix: &[u8; 3]) -> (b: bool)
    ensures
        b == (addr@.subrange(3, 6) == prefix@),
{
    let b = addr[3] == prefix[0] && addr[4] == prefix[1] && addr[5] == prefix[2];
    proof {
        if b {
            assert(addr@.subrange(3, 6) =~= prefix@);
        } else if addr@.subrange(3, 6) == prefix@ {
            assert(addr@.subrange(3, 6)[0] == addr@[3]);
            assert(addr@.subrange(3, 6)[1] == addr@[4]);
            assert(addr@.subrange(3, 6)[2] == addr@[5]);
        }
    }
    b
}

/// A tag seen by the scanner.
#[derive(Debug, Clone)]
pub struct TagReport {
    /// The tag's address, least significant byte first.
    pub addr: [u8; 6],
    pub name: String,
    /// When it was seen, in microseconds.
    pub timestamp: u64,
    pub rssi: i8,
    pub sequence: u32,
}

/// The mathematical value of a [`TagReport`].
pub struct TagReportModel {
    pub addr: Seq<u8>,
    pub name: Seq<char>,
    pub timestamp: u64,
    pub rssi: i8,
    pub sequence: u32,
}

impl View for TagReport {
    type V = TagReportModel;

    open spec fn view(&self) -> TagReportModel {
        TagReportModel {
            addr: self.addr@,
            name: self.name@,
            timestamp: self.timestamp,
            rssi: self.rssi,
            sequence: self.sequence,
        }
    }
}

impl TagReport {
    /// A copy of the report.
    pub fn duplicate(&self) -> (r: TagReport)
        ensures
            r@ == self@,
    {
        TagReport {
            addr: self.addr,
            name: self.name.clone(),
            timestamp: self.timestamp,
            rssi: self.rssi,
            sequence: self.sequence,
        }
    }
}

/// The report made of an advertising report seen at `timestamp`, when it
/// comes from an address with the prefix and carries a tag's fields.
pub open spec fn spec_report_to_tag(prefix: Seq<u8>, report: ScanReportModel, timestamp: u64) -> Option<TagReportModel> {
    if report.addr.subrange(3, 6) != prefix {
        None
    } else {
        match spec_tag_fields(ad_records(report.data), None, None) {
            Some((name, sequence)) => Some(TagReportModel {
                addr: report.addr,
                name,
                timestamp,
                rssi: report.rssi,
                sequence,
            }),
            None => None,
        }
    }
}

pub open spec fn opt_report(o: Option<TagReport>) -> Option<TagReportModel> {
    match o {
        Some(r) => Some(r@),
        None => None,
    }
}

/// The tag report of one advertising report seen at `timestamp`, if it is
/// a tag's.
pub fn report_to_tag(prefix: &[u8; 3], report: &ScanReport, timestamp: u64) -> (res: Option<TagReport>)
    ensures
        opt_report(res) == spec_report_to_tag(prefix@, report@, timestamp),
{
    if !addr_has_prefix(&report.addr, prefix) {
        return None;
    }
    match parse_manufacturer_data(report.data.as_slice()) {
        Some((name, sequence)) => Some(TagReport {
            addr: report.addr,
            name,
            timestamp,
            rssi: report.rssi,
            sequence,
        }),
        None => None,
    }
}

/// The tag reports among advertising reports seen at `timestamp`, in order.
pub open spec fn spec_reports_to_tags(prefix: Seq<u8>, reports: Seq<ScanReportModel>, timestamp: u64) -> Seq<TagReportModel>
    decreases reports.len(),
{
    if reports.len() == 0 {
        Seq::empty()
    } else {
        let rest = spec_reports_to_tags(prefix, reports.drop_last(), timestamp);
        match spec_report_to_tag(prefix, reports.last(), timestamp) {
            Some(t) => rest.push(t),
            None => rest,
        }
    }
}

/// The advertising reports of a batch that are a tag's, in order.
pub open spec fn tag_reports(prefix: Seq<u8>, reports: Seq<ScanReportModel>, timestamp: u64) -> Seq<ScanReportModel> {
    reports.filter(|r: ScanReportModel| spec_report_to_tag(prefix, r, timestamp) is Some)
}

/// The tag reports of a batch are those of its reports that are a tag's,
/// one for each and in the order of the batch: none is lost or added.
pub proof fn lemma_reports_to_tags_each(prefix: Seq<u8>, reports: Seq<ScanReportModel>, timestamp: u64)
    ensures
        spec_reports_to_tags(prefix, reports, timestamp).len() == tag_reports(prefix, reports, timestamp).len(),
        forall|i: int| 0 <= i < tag_reports(prefix, reports, timestamp).len()
            ==> Some(#[trigger] spec_reports_to_tags(prefix, reports, timestamp)[i])
                == spec_report_to_tag(prefix, tag_reports(prefix, reports, timestamp)[i], timestamp),
    decreases reports.len(),
{
    reveal(Seq::filter);
    if reports.len() > 0 {
        let rest = reports.drop_last();
        lemma_reports_to_tags_each(prefix, rest, timestamp);
        let filtered = tag_reports(prefix, reports, timestamp);
        let filtered_rest = tag_reports(prefix, rest, timestamp);
        match spec_report_to_tag(prefix, reports.last(), timestamp) {
            Some(t) => {
                assert(filtered == filtered_rest.push(reports.last()));
                assert forall|i: int| 0 <= i < filtered.len()
                    implies Some(#[trigger] spec_reports_to_tags(prefix, reports, timestamp)[i])
                        == spec_report_to_tag(prefix, filtered[i], timestamp) by {
                    if i < filtered_rest.len() {
                        assert(filtered[i] == filtered_rest[i]);
                        assert(spec_reports_to_tags(prefix, reports, timestamp)[i] == spec_reports_to_tags(prefix, rest, timestamp)[i]);
                    }
                }
            },
            None => {
                assert(filtered == filtered_rest);
            },
        }
    }
}

/// The tag reports of a single advertising report: its tag report when it
/// is a tag's, else none.
pub proof fn lemma_reports_to_tags_single(prefix: Seq<u8>, report: ScanReportModel, timestamp: u64)
    ensures
        spec_reports_to_tags(prefix, seq![report], timestamp) == match spec_report_to_tag(prefix, report, timestamp) {
            Some(t) => seq![t],
            None => Seq::<TagReportModel>::empty(),
        },
{
    let one = seq![report];
    assert(one.drop_last() =~= Seq::<ScanReportModel>::empty());
    assert(spec_reports_to_tags(prefix, one.drop_last(), timestamp) == Seq::<TagReportModel>::empty());
    assert(one.last() == report);
    match spec_report_to_tag(prefix, report, timestamp) {
        Some(t) => {
            assert(Seq::<TagReportModel>::empty().push(t) =~= seq![t]);
        },
        None => {},
    }
}

/// The tag reports of two batches one after the other are those of the
/// first followed by those of the second.
pub proof fn lemma_reports_to_tags_concat(
    prefix: Seq<u8>,
    first: Seq<ScanReportModel>,
    second: Seq<ScanReportModel>,
    timestamp: u64,
)
    ensures
        spec_reports_to_tags(prefix, first + second, timestamp)
            == spec_reports_to_tags(prefix, first, timestamp) + spec_reports_to_tags(prefix, second, timestamp),
    decreases second.len(),
{
    if second.len() == 0 {
        assert(first + second =~= first);
        assert(spec_reports_to_tags(prefix, first, timestamp) + Seq::<TagReportModel>::empty()
            =~= spec_reports_to_tags(prefix, first, timestamp));
    } else {
        let rest = second.drop_last();
        lemma_reports_to_tags_concat(prefix, first, rest, timestamp);
        assert((first + second).drop_last() =~= first + rest);
        assert((first + second).last() == second.last());
        let a = spec_reports_to_tags(prefix, first, timestamp);
        let b = spec_reports_to_tags(prefix, rest, timestamp);
        match spec_report_to_tag(prefix, second.last(), timestamp) {
            Some(t) => {
                assert((a + b).push(t) =~= a + b.push(t));
            },
            None => {},
        }
    }
}

pub open spec fn tags_view(tags: Seq<TagReport>) -> Seq<TagReportModel> {
    tags.map_values(|t: TagReport| t@)
}

/// Every tag report among a batch of advertising reports seen at
/// `timestamp`, in the order of the batch.
pub fn reports_to_tags(prefix: &[u8; 3], reports: &Vec<ScanReport>, timestamp: u64) -> (tags: Vec<TagReport>)
    ensures
        tags_view(tags@) == spec_reports_to_tags(prefix@, reports_view(reports@), timestamp),
        tags@.len() == tag_reports(prefix@, reports_view(reports@), timestamp).len(),
        forall|i: int| 0 <= i < tags@.len()
            ==> Some((#[trigger] tags@[i])@) == spec_report_to_tag(prefix@, tag_reports(prefix@, reports_view(reports@), timestamp)[i], timestamp),
{
    let ghost rv = reports_view(reports@);
    let mut tags: Vec<TagReport> = Vec::new();
    let mut i: usize = 0;
    assert(rv.take(0) =~= Seq::<ScanReportModel>::empty());
    assert(tags_view(tags@) =~= Seq::<TagReportModel>::empty());
    while i < reports.len()
        invariant
            i <= reports.len(),
            rv == reports_view(reports@),
            tags_view(tags@) == spec_reports_to_tags(prefix@, rv.take(i as int), timestamp),
        decreases reports.len() - i,
    {
        assert(rv.take(i + 1).drop_last() =~= rv.take(i as int));
        assert(rv.take(i + 1).last() == rv[i as int]);
        match report_to_tag(prefix, &reports[i], timestamp) {
            Some(t) => {
                let ghost before = tags@;
                tags.push(t);
                assert(tags_view(tags@) =~= tags_view(before).push(tags@.last()@));
            },
            None => {},
        }
        i = i + 1;
    }
    assert(rv.take(reports.len() as int) =~= rv);
    proof {
        lemma_reports_to_tags_each(prefix@, rv, timestamp);
        assert forall|i: int| 0 <= i < tags@.len()
            implies Some((#[trigger] tags@[i])@) == spec_report_to_tag(prefix@, tag_reports(prefix@, rv, timestamp)[i], timestamp) by {
            assert(tags_view(tags@)[i] == tags@[i]@);
        }
    }
    tags
}

} // verus!
