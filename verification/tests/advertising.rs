use asset_tracker::ad::AdEncodeError;
use asset_tracker::advertiser::{
    advertising_data, advertising_interval_ms, channel_selection, next_channel, AdvertisementPayload,
    AdvertiserState,
};
use asset_tracker::scanner::parse_manufacturer_data;

#[test]
fn payload_bytes_are_big_endian_sequence_then_channel() {
    let p = AdvertisementPayload { sequence: 0x0102_0304, channel_number: 38 };
    assert_eq!(p.to_bytes(), [0x01, 0x02, 0x03, 0x04, 38]);
    let p = AdvertisementPayload { sequence: u32::MAX, channel_number: 0 };
    assert_eq!(p.to_bytes(), [0xff, 0xff, 0xff, 0xff, 0]);
}

#[test]
fn channels_cycle_through_the_advertising_channels() {
    assert_eq!(next_channel(37), 38);
    assert_eq!(next_channel(38), 39);
    assert_eq!(next_channel(39), 37);
    assert_eq!(next_channel(40), 37);
    assert_eq!(next_channel(0), 1);
}

#[test]
fn exactly_the_current_channel_is_enabled() {
    let s = channel_selection(38);
    assert!(!s.channel_37 && s.channel_38 && !s.channel_39);
    let s = channel_selection(37);
    assert!(s.channel_37 && !s.channel_38 && !s.channel_39);
    let s = channel_selection(12);
    assert!(!s.channel_37 && !s.channel_38 && !s.channel_39);
}

#[test]
fn interval_is_scaled_by_sixteen() {
    assert_eq!(advertising_interval_ms(), 8000);
}

#[test]
fn advertiser_state_steps_sequence_and_channel() {
    let mut s = AdvertiserState::new();
    let mut seen = Vec::new();
    for _ in 0..4 {
        let p = s.payload();
        seen.push((p.sequence, p.channel_number));
        s.advance();
    }
    assert_eq!(seen, vec![(0, 37), (1, 38), (2, 39), (3, 37)]);
}

#[test]
fn advertising_data_layout() {
    let p = AdvertisementPayload { sequence: 7, channel_number: 39 };
    let bytes = advertising_data(b"Ariel", &p).unwrap();
    assert_eq!(
        bytes,
        vec![
            2, 0x01, 0x06, // flags
            6, 0x09, b'A', b'r', b'i', b'e', b'l', // complete local name
            8, 0xff, 0xff, 0xff, 0, 0, 0, 7, 39, // manufacturer data
        ]
    );
}

#[test]
fn advertising_data_too_long_name() {
    let p = AdvertisementPayload { sequence: 1, channel_number: 37 };
    assert!(advertising_data(&[b'a'; 17], &p).is_ok());
    assert_eq!(advertising_data(&[b'a'; 18], &p), Err(AdEncodeError::TooLong));
}

#[test]
fn scanner_reads_back_what_a_tag_advertises() {
    let p = AdvertisementPayload { sequence: 0xdead_beef, channel_number: 38 };
    let bytes = advertising_data(b"Ariel-7", &p).unwrap();
    let (name, sequence) = parse_manufacturer_data(&bytes).unwrap();
    assert_eq!(name, "Ariel-7");
    assert_eq!(sequence, 0xdead_beef);
}
