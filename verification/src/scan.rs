//! Advertising reports as the BLE controller hands them over.
use vstd::prelude::*;

verus! {

/// One advertising report: the advertiser's address (least significant
/// byte first), the signal strength and the advertising data.
#[derive(Debug, Clone)]
pub struct ScanReport {
    pub addr: [u8; 6],
    pub rssi: i8,
    pub data: Vec<u8>,
}

/// The mathematical value of a [`ScanReport`].
pub struct ScanReportModel {
    pub addr: Seq<u8>,
    pub rssi: i8,
    pub data: Seq<u8>,
}

impl View for ScanReport {
    type V = ScanReportModel;

    open spec fn view(&self) -> ScanReportModel {
        ScanReportModel { addr: self.addr@, rssi: self.rssi, data: self.data@ }
    }
}

pub open spec fn reports_view(reports: Seq<ScanReport>) -> Seq<ScanReportModel> {
    reports.map_values(|r: ScanReport| r@)
}

/// Microseconds in a second.
pub const MICROS_PER_SECOND: u64 = 1_000_000;

/// Whole seconds elapsed from `since` to `now` (both in microseconds), or
/// `u16::MAX` where that many seconds do not fit.
pub open spec fn spec_age_secs(now: u64, since: u64) -> u16 {
    let secs = (now - since) / (MICROS_PER_SECOND as int);
    if secs <= u16::MAX { secs as u16 } else { u16::MAX }
}

/// The age is the number of whole seconds elapsed, rounded down, unless
/// that many do not fit, when it is `u16::MAX`.
pub proof fn lemma_age_whole_seconds(now: u64, since: u64)
    requires
        since <= now,
    ensures
        now - since < (u16::MAX + 1) * MICROS_PER_SECOND ==> spec_age_secs(now, since) * MICROS_PER_SECOND <= now - since
            < (spec_age_secs(now, since) + 1) * MICROS_PER_SECOND,
        now - since >= (u16::MAX + 1) * MICROS_PER_SECOND ==> spec_age_secs(now, since) == u16::MAX,
{
}

/// The age, in whole seconds and capped at `u16::MAX`, of something seen at
/// `since`.
pub fn age_secs(now: u64, since: u64) -> (age: u16)
    requires
        since <= now,
    ensures
        age == spec_age_secs(now, since),
{
    let secs = (now - since) / MICROS_PER_SECOND;
    if secs <= u16::MAX as u64 {
        secs as u16
    } else {
        u16::MAX
    }
}

} // verus!
