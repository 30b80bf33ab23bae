use asset_tracker::beacon::{return_valid_uuid, uuid_value, BeaconStore};
use asset_tracker::collections::MAX_SEEN;
use asset_tracker::scan::{age_secs, ScanReport};

const UUID: [u8; 16] = [
    0xe2, 0xc5, 0x6d, 0xb5, 0xdf, 0xfb, 0x48, 0xd2, 0xb0, 0x60, 0xd0, 0xf5, 0xa7, 0x10, 0x96, 0xe0,
];

fn ibeacon_data(company: u16, uuid: [u8; 16], extra: &[u8]) -> Vec<u8> {
    let mut payload = vec![0x02, 0x15];
    payload.extend_from_slice(&uuid);
    payload.extend_from_slice(extra);
    let mut data = vec![0x02, 0x01, 0x06];
    data.push((payload.len() + 3) as u8);
    data.push(0xff);
    data.extend_from_slice(&company.to_le_bytes());
    data.extend_from_slice(&payload);
    data
}

#[test]
fn ibeacon_uuid_is_found() {
    let data = ibeacon_data(0x004c, UUID, &[0x00, 0x01, 0x00, 0x02, 0xc5]);
    assert_eq!(return_valid_uuid(&data), Some(UUID));
}

#[test]
fn other_company_is_rejected() {
    let data = ibeacon_data(0x0059, UUID, &[0x00, 0x01, 0x00, 0x02, 0xc5]);
    assert_eq!(return_valid_uuid(&data), None);
}

#[test]
fn short_payload_is_rejected() {
    // 22 bytes of payload: not enough.
    let data = ibeacon_data(0x004c, UUID, &[0x00, 0x01, 0x00, 0x02]);
    assert_eq!(return_valid_uuid(&data), None);
}

#[test]
fn no_manufacturer_data_gives_nothing() {
    assert_eq!(return_valid_uuid(&[0x02, 0x01, 0x06]), None);
    assert_eq!(return_valid_uuid(&[]), None);
}

#[test]
fn uuid_value_is_big_endian() {
    assert_eq!(uuid_value(&UUID), u128::from_be_bytes(UUID));
    let mut one = [0u8; 16];
    one[15] = 1;
    assert_eq!(uuid_value(&one), 1);
}

#[test]
fn age_saturates() {
    assert_eq!(age_secs(5_000_000, 1_000_000), 4);
    assert_eq!(age_secs(1_999_999, 1_000_000), 0);
    assert_eq!(age_secs(u64::MAX, 0), u16::MAX);
}

fn report(uuid: [u8; 16], rssi: i8) -> ScanReport {
    ScanReport { addr: [1, 2, 3, 4, 5, 6], rssi, data: ibeacon_data(0x004c, uuid, &[0, 0, 0, 0, 0]) }
}

#[test]
fn reports_fill_the_store_and_snapshot_ages_them() {
    let mut store = BeaconStore::new();
    let other = [7u8; 16];
    let reports = vec![
        report(UUID, -40),
        ScanReport { addr: [0; 6], rssi: -10, data: vec![0x02, 0x01, 0x06] },
        report(other, -70),
    ];
    store.record_reports(&reports, 1_000_000);
    assert_eq!(store.len(), 2);
    // The same beacon again updates its entry.
    store.record_reports(&vec![report(UUID, -45)], 3_000_000);
    assert_eq!(store.len(), 2);
    let mut tags = store.snapshot(10_000_000);
    tags.sort_by_key(|t| t.id);
    assert_eq!(tags.len(), 2);
    assert_eq!(tags[0].id, u128::from_be_bytes(other));
    assert_eq!(tags[0].age, 9);
    assert_eq!(tags[0].rssi, -70);
    assert_eq!(tags[1].id, u128::from_be_bytes(UUID));
    assert_eq!(tags[1].age, 7);
    assert_eq!(tags[1].rssi, -45);
}

#[test]
fn old_beacons_are_dropped() {
    let mut store = BeaconStore::new();
    store.record(1, 0, -50);
    store.record(2, 500_000_000, -50);
    store.remove_old_entries(600_000_000);
    let tags = store.snapshot(600_000_000);
    assert_eq!(tags.len(), 1);
    assert_eq!(tags[0].id, 2);
}

#[test]
fn oldest_beacon_is_removed() {
    let mut store = BeaconStore::new();
    store.record(1, 30, -50);
    store.record(2, 10, -20);
    store.record(3, 10, -60);
    store.remove_oldest_entry();
    let mut ids: Vec<u128> = store.snapshot(100).iter().map(|t| t.id).collect();
    ids.sort();
    assert_eq!(ids, vec![1, 2]);
    let mut empty = BeaconStore::new();
    empty.remove_oldest_entry();
    assert_eq!(empty.len(), 0);
}

#[test]
fn a_full_store_drops_new_beacons() {
    let mut store = BeaconStore::new();
    for id in 0..MAX_SEEN as u128 {
        store.record(id, 1, -1);
    }
    assert_eq!(store.len(), MAX_SEEN);
    store.record(1000, 2, -1);
    assert_eq!(store.len(), MAX_SEEN);
    assert!(store.snapshot(5).iter().all(|t| t.id != 1000));
    // A beacon already kept is still updated.
    store.record(3, 4, -9);
    assert!(store.snapshot(5).iter().any(|t| t.id == 3 && t.rssi == -9));
}

#[test]
fn snapshot_lists_beacons_in_store_order() {
    let mut store = BeaconStore::new();
    store.record(30, 5, -1);
    store.record(10, 6, -2);
    store.record(20, 7, -3);
    store.record(10, 8, -4);
    let ids: Vec<u128> = store.snapshot(100).iter().map(|t| t.id).collect();
    assert_eq!(ids, vec![30, 10, 20]);
}

#[test]
fn oldest_tie_removes_the_first_and_moves_the_last() {
    let mut store = BeaconStore::new();
    store.record(1, 10, -20);
    store.record(2, 10, -20);
    store.record(3, 10, -20);
    store.record(4, 50, -20);
    store.remove_oldest_entry();
    let ids: Vec<u128> = store.snapshot(100).iter().map(|t| t.id).collect();
    assert_eq!(ids, vec![4, 2, 3]);
}
