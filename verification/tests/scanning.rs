use asset_tracker::advertiser::{advertising_data, AdvertisementPayload};
use asset_tracker::collections::MAX_SEEN;
use asset_tracker::scan::ScanReport;
use asset_tracker::scanner::{
    addr_has_prefix, parse_manufacturer_data, report_to_tag, reports_to_tags, utf8_text, TagReport,
};
use asset_tracker::sighting::{parse_tag_prefix, select_device_id, sighting_record};
use asset_tracker::tag_store::{tag_key, TagStore};

const PREFIX: [u8; 3] = [0xEE, 0xDD, 0xCC];

fn tag_data(name: &[u8], sequence: u32) -> Vec<u8> {
    advertising_data(name, &AdvertisementPayload { sequence, channel_number: 37 }).unwrap()
}

#[test]
fn prefix_is_parsed_into_address_order() {
    assert_eq!(parse_tag_prefix("CC:DD:EE"), Some(PREFIX));
    assert_eq!(parse_tag_prefix("cc:dd:ee"), Some(PREFIX));
    assert_eq!(parse_tag_prefix("0A0B0C"), Some([0x0C, 0x0B, 0x0A]));
    assert_eq!(parse_tag_prefix("CC:DD"), None);
    assert_eq!(parse_tag_prefix("CC:DD:EE:FF"), None);
    assert_eq!(parse_tag_prefix("CC:DD:EG"), None);
    assert_eq!(parse_tag_prefix(""), None);
}

#[test]
fn address_prefix_is_its_most_significant_half() {
    assert!(addr_has_prefix(&[1, 2, 3, 0xEE, 0xDD, 0xCC], &PREFIX));
    assert!(!addr_has_prefix(&[0xEE, 0xDD, 0xCC, 1, 2, 3], &PREFIX));
}

#[test]
fn manufacturer_data_of_other_companies_is_rejected() {
    // Complete local name "Tag", then manufacturer data of company 0x0059.
    let data = [4, 0x09, b'T', b'a', b'g', 7, 0xff, 0x59, 0x00, 0, 0, 0, 1];
    assert_eq!(parse_manufacturer_data(&data), None);
}

#[test]
fn short_manufacturer_data_is_rejected() {
    let data = [4, 0x09, b'T', b'a', b'g', 6, 0xff, 0xff, 0xff, 0, 0, 1];
    assert_eq!(parse_manufacturer_data(&data), None);
}

#[test]
fn name_and_sequence_are_both_needed() {
    // No name.
    assert_eq!(parse_manufacturer_data(&[7, 0xff, 0xff, 0xff, 0, 0, 0, 1]), None);
    // No sequence.
    assert_eq!(parse_manufacturer_data(&[4, 0x09, b'T', b'a', b'g']), None);
    // Both, in either order.
    let data = [7, 0xff, 0xff, 0xff, 0, 0, 1, 2, 4, 0x09, b'T', b'a', b'g'];
    assert_eq!(parse_manufacturer_data(&data), Some((String::from("Tag"), 0x0102)));
}

#[test]
fn invalid_or_long_names_are_rejected() {
    let data = [3, 0x09, 0xff, 0xfe, 7, 0xff, 0xff, 0xff, 0, 0, 0, 1];
    assert_eq!(parse_manufacturer_data(&data), None);
    let mut long = vec![34u8, 0x09];
    long.extend_from_slice(&[b'x'; 33]);
    long.extend_from_slice(&[7, 0xff, 0xff, 0xff, 0, 0, 0, 1]);
    assert_eq!(parse_manufacturer_data(&long), None);
    assert_eq!(utf8_text(&[0xc3, 0xa9]), Some(String::from("é")));
    assert_eq!(utf8_text(&[0xc3]), None);
}

#[test]
fn reports_become_tag_reports_when_they_match() {
    let good = ScanReport { addr: [1, 2, 3, 0xEE, 0xDD, 0xCC], rssi: -60, data: tag_data(b"Ariel", 42) };
    let wrong_prefix = ScanReport { addr: [1, 2, 3, 4, 5, 6], rssi: -60, data: tag_data(b"Ariel", 43) };
    let not_a_tag = ScanReport { addr: [9, 9, 9, 0xEE, 0xDD, 0xCC], rssi: -61, data: vec![2, 0x01, 0x06] };
    let t = report_to_tag(&PREFIX, &good, 123).unwrap();
    assert_eq!(t.addr, good.addr);
    assert_eq!(t.name, "Ariel");
    assert_eq!(t.timestamp, 123);
    assert_eq!(t.rssi, -60);
    assert_eq!(t.sequence, 42);
    assert!(report_to_tag(&PREFIX, &wrong_prefix, 123).is_none());
    assert!(report_to_tag(&PREFIX, &not_a_tag, 123).is_none());
    let tags = reports_to_tags(&PREFIX, &vec![wrong_prefix, good, not_a_tag], 5);
    assert_eq!(tags.len(), 1);
    assert_eq!(tags[0].sequence, 42);
}

fn tag(addr: [u8; 6], timestamp: u64, sequence: u32) -> TagReport {
    TagReport { addr, name: String::from("T"), timestamp, rssi: -50, sequence }
}

#[test]
fn store_keeps_the_latest_report_per_key() {
    let mut store = TagStore::new();
    assert!(store.receive(tag([1, 2, 3, 4, 5, 6], 10, 1)).is_ok());
    assert!(store.receive(tag([1, 2, 3, 9, 9, 9], 20, 2)).is_ok());
    assert_eq!(store.len(), 1);
    let s = store.snapshot(3_000_020);
    assert_eq!(s.len(), 1);
    assert_eq!(s[0].sequence, 2);
    assert_eq!(s[0].addr, [1, 2, 3, 9, 9, 9]);
    assert_eq!(s[0].age, 3);
    assert_eq!(tag_key(&[1, 2, 3, 9, 9, 9]), (1, 2, 3));
}

#[test]
fn a_full_store_evicts_its_oldest_tag() {
    let mut store = TagStore::new();
    for i in 0..MAX_SEEN as u8 {
        assert!(store.receive(tag([i, 0, 0, 0, 0, 0], 100 + i as u64, 0)).is_ok());
    }
    assert_eq!(store.len(), MAX_SEEN);
    assert!(store.receive(tag([200, 0, 0, 0, 0, 0], 1000, 7)).is_ok());
    assert_eq!(store.len(), MAX_SEEN);
    let s = store.snapshot(2000);
    assert!(s.iter().all(|t| t.addr[0] != 0));
    assert!(s.iter().any(|t| t.addr[0] == 200 && t.sequence == 7));
}

#[test]
fn old_tags_are_dropped_and_oldest_removed() {
    let mut store = TagStore::new();
    store.receive(tag([1, 0, 0, 0, 0, 0], 0, 0)).unwrap();
    store.receive(tag([2, 0, 0, 0, 0, 0], 100_000_000, 0)).unwrap();
    store.receive(tag([3, 0, 0, 0, 0, 0], 50_000_000, 0)).unwrap();
    store.remove_old_entries(650_000_000);
    assert_eq!(store.len(), 1);
    store.remove_oldest_entry();
    assert_eq!(store.len(), 0);
}

#[test]
fn device_id_selection() {
    assert_eq!(select_device_id(Some("sniffer-1"), Some(String::from("AA:BB"))), "sniffer-1");
    assert_eq!(select_device_id(Some(&"x".repeat(33)), Some(String::from("AA:BB"))), "unknown");
    assert_eq!(select_device_id(Some(&"x".repeat(32)), None), "x".repeat(32));
    assert_eq!(select_device_id(None, Some(String::from("AA:BB"))), "AA:BB");
    assert_eq!(select_device_id(None, None), "unknown");
}

#[test]
fn sighting_record_fields() {
    let r = TagReport { addr: [1, 2, 3, 4, 5, 6], name: String::from("Ariel"), timestamp: 12_345_678, rssi: -70, sequence: 9 };
    let rec = sighting_record(r, &String::from("gw"));
    assert_eq!(rec.adv_type, "");
    assert_eq!(rec.channel, 0);
    assert_eq!(rec.mac, [6, 5, 4, 3, 2, 1]);
    assert_eq!(rec.name, "Ariel");
    assert_eq!(rec.raw_rssi, -70);
    assert_eq!(rec.rssi, -70);
    assert_eq!(rec.sequence, 9);
    assert_eq!(rec.sniffer_id, "gw");
    assert_eq!(rec.timestamp, 12_345);
}

#[test]
fn configured_prefix_selects_tag_addresses() {
    let prefix = parse_tag_prefix("CC:DD:EE").unwrap();
    // Addresses arrive least significant byte first: CC:DD:EE:01:02:03.
    assert!(addr_has_prefix(&[0x03, 0x02, 0x01, 0xEE, 0xDD, 0xCC], &prefix));
    assert!(!addr_has_prefix(&[0x03, 0x02, 0x01, 0xCC, 0xDD, 0xEE], &prefix));
}

#[test]
fn tag_store_order_and_oldest_tie() {
    let mut store = TagStore::new();
    store.receive(tag([1, 0, 0, 0, 0, 0], 10, 0)).unwrap();
    store.receive(tag([2, 0, 0, 0, 0, 0], 10, 0)).unwrap();
    store.receive(tag([3, 0, 0, 0, 0, 0], 30, 0)).unwrap();
    let order: Vec<u8> = store.snapshot(100).iter().map(|t| t.addr[0]).collect();
    assert_eq!(order, vec![1, 2, 3]);
    store.remove_oldest_entry();
    let order: Vec<u8> = store.snapshot(100).iter().map(|t| t.addr[0]).collect();
    assert_eq!(order, vec![3, 2]);
}

#[test]
fn empty_name_is_not_read_back() {
    let data = advertising_data(b"", &AdvertisementPayload { sequence: 1, channel_number: 37 }).unwrap();
    assert_eq!(parse_manufacturer_data(&data), None);
}
