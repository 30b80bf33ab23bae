use asset_tracker::gateway::{UpdateAction, UpdateCycle, UpdateEvent, UpdateStage};
use asset_tracker::gateway::{led_colour, LedColour, Phase};
use asset_tracker::battery::{vbat_measurement_ready, vbat_raw};
use asset_tracker::gateway::{
    age_tags, assemble_fix, build_update, scale_divisor, should_wait_before_update, time_until_update,
    update_too_soon, Coordinate, DetectedTag, GnssSample, SampleLabel, StatusBoard, StatusError,
    StatusRenderer,
};
use asset_tracker::packet::FrameAssembler;

fn dtag(age: u16) -> DetectedTag {
    DetectedTag { age, rssi: -3, addr: String::from("A"), name: String::from("N"), sequence: 5 }
}

#[test]
fn update_schedule() {
    assert_eq!(time_until_update(0), 360_000_000);
    assert_eq!(time_until_update(359_000_000), 1_000_000);
    assert_eq!(time_until_update(400_000_000), 0);
    assert!(should_wait_before_update(10));
    assert!(!should_wait_before_update(360_000_000));
    assert!(update_too_soon(9_999_999));
    assert!(!update_too_soon(10_000_000));
}

#[test]
fn tags_are_aged() {
    let out = age_tags(vec![dtag(1), dtag(100)], 10);
    assert_eq!(out.iter().map(|t| t.age).collect::<Vec<_>>(), vec![11, 110]);
    assert_eq!(out[0].name, "N");
    assert_eq!(out[1].sequence, 5);
}

#[test]
fn update_is_stamped_with_the_fix_time() {
    let fix = assemble_fix(
        &vec![
            GnssSample { label: SampleLabel::Latitude, value: Some(4_812_345), scaling: -5 },
            GnssSample { label: SampleLabel::Longitude, value: Some(-1_234), scaling: -3 },
            GnssSample { label: SampleLabel::Altitude, value: Some(52), scaling: 0 },
        ],
        Some(1_781_008_373),
    )
    .unwrap();
    let u = build_update(Some(fix), vec![dtag(3)], String::from("gw"));
    assert_eq!(u.timestamp, 1_781_008_373);
    assert_eq!(u.battery_level, Some(100));
    assert_eq!(u.gateway_id, "gw");
    assert_eq!(u.detected_tags.len(), 1);
    let u = build_update(None, vec![], String::from("gw"));
    assert_eq!(u.timestamp, 0);
}

#[test]
fn fix_assembly() {
    let samples = vec![
        GnssSample { label: SampleLabel::Latitude, value: Some(1), scaling: -2 },
        GnssSample { label: SampleLabel::Latitude, value: Some(2), scaling: -1 },
        GnssSample { label: SampleLabel::Other, value: Some(9), scaling: 5 },
        GnssSample { label: SampleLabel::Longitude, value: None, scaling: 3 },
        GnssSample { label: SampleLabel::Altitude, value: Some(7), scaling: 0 },
    ];
    let res = assemble_fix(&samples, Some(5));
    let fix = res.unwrap_err();
    assert_eq!(fix.latitude, Coordinate { value: 2, divisor: 10 });
    assert_eq!(fix.longitude, Coordinate { value: 0, divisor: 1 });
    assert_eq!(fix.altitude, Coordinate { value: 7, divisor: 1 });
    assert_eq!(fix.time_of_fix, 5);
    let mut full = samples.clone();
    full.push(GnssSample { label: SampleLabel::Longitude, value: Some(-3), scaling: -9 });
    let fix = assemble_fix(&full, Some(5)).unwrap();
    assert_eq!(fix.longitude, Coordinate { value: -3, divisor: 1_000_000_000 });
    assert!(assemble_fix(&full, None).is_err());
}

#[test]
fn divisors_are_powers_of_ten() {
    assert_eq!(scale_divisor(0), 1);
    assert_eq!(scale_divisor(-1), 10);
    assert_eq!(scale_divisor(-7), 10_000_000);
    assert_eq!(scale_divisor(-9), 1_000_000_000);
}

#[test]
fn status_serves_the_last_update() {
    let mut board = StatusBoard::new();
    let mut renderer = StatusRenderer::new();
    assert!(matches!(renderer.get(&mut board), Err(StatusError::ServiceUnavailable)));
    assert!(board.update_read());
    board.publish(build_update(None, vec![dtag(1)], String::from("first")));
    assert!(!board.update_read());
    board.publish(build_update(None, vec![], String::from("second")));
    let u = renderer.get(&mut board).unwrap();
    assert_eq!(u.gateway_id, "second");
    assert!(board.update_read());
    let again = renderer.get(&mut board).unwrap();
    assert_eq!(again.gateway_id, "second");
}

#[test]
fn frames_are_reassembled() {
    let mut a = FrameAssembler::new();
    assert!(a.ingest(&[1, 2]));
    assert_eq!(a.find_separator(), None);
    assert!(a.ingest(&[3, 0, 4, 5]));
    let sep = a.find_separator().unwrap();
    assert_eq!(sep, 3);
    assert_eq!(a.frame(sep), vec![1, 2, 3]);
    a.discard_through(sep);
    assert_eq!(a.find_separator(), None);
    assert!(a.ingest(&[0]));
    let sep = a.find_separator().unwrap();
    assert_eq!(a.frame(sep), vec![4, 5]);
}

#[test]
fn overflow_clears_the_buffer() {
    let mut a = FrameAssembler::new();
    assert!(a.ingest(&vec![1u8; 8000]));
    assert!(!a.ingest(&vec![2u8; 200]));
    assert!(a.ingest(&[7, 0]));
    let sep = a.find_separator().unwrap();
    assert_eq!(a.frame(sep), vec![7]);
}

#[test]
fn battery_registers() {
    assert_eq!(vbat_raw(0xff, 0xff), 1023);
    assert_eq!(vbat_raw(0x80, 0x01), 513);
    assert_eq!(vbat_raw(0, 0xfc), 0);
    assert!(vbat_measurement_ready(0x01));
    assert!(vbat_measurement_ready(0x03));
    assert!(!vbat_measurement_ready(0x02));
}

#[test]
fn phase_colours() {
    assert_eq!(led_colour(Phase::Waiting), LedColour { red: false, green: false, blue: true });
    assert_eq!(led_colour(Phase::Locating), LedColour { red: false, green: true, blue: true });
    assert_eq!(led_colour(Phase::RetryingLocation), LedColour { red: true, green: true, blue: false });
    assert_eq!(led_colour(Phase::ReceivingTags), LedColour { red: true, green: false, blue: true });
    assert_eq!(led_colour(Phase::EnablingNetwork), LedColour { red: true, green: true, blue: true });
    assert_eq!(led_colour(Phase::Sending), LedColour { red: false, green: true, blue: false });
}

#[test]
fn update_cycle_steps() {
    let mut c = UpdateCycle::new();
    // Not due yet at 1 s: wait for the button.
    assert_eq!(c.step(UpdateEvent::Start { now: 1_000_000 }), UpdateAction::WaitForTrigger { timeout: 360_000_000 });
    // Pressed at 5 s, but the last post (at 0) is less than 10 s ago.
    assert_eq!(c.step(UpdateEvent::WaitOver { now: 5_000_000 }), UpdateAction::Restart);
    assert_eq!(c.step(UpdateEvent::Start { now: 6_000_000 }), UpdateAction::WaitForTrigger { timeout: 360_000_000 });
    assert_eq!(c.step(UpdateEvent::WaitOver { now: 20_000_000 }), UpdateAction::AcquireLocation);
    assert_eq!(c.phase(), Phase::Locating);
    assert_eq!(c.step(UpdateEvent::LocationAttempt { found: false }), UpdateAction::AcquireLocation);
    assert_eq!(c.phase(), Phase::RetryingLocation);
    assert_eq!(c.step(UpdateEvent::LocationAttempt { found: true }), UpdateAction::ReceiveTags);
    assert_eq!(c.step(UpdateEvent::TagsDecoded { now: 30_000_000 }), UpdateAction::EnableNetwork);
    assert_eq!(c.step(UpdateEvent::NetworkUp { now: 42_500_000 }), UpdateAction::SendUpdate { tag_age: 12 });
    // An event of another stage is ignored.
    assert_eq!(c.step(UpdateEvent::TagsDecoded { now: 1 }), UpdateAction::Ignore);
    assert_eq!(c.step(UpdateEvent::SerializeFailed), UpdateAction::Restart);
    assert_eq!(c.last_update, 0);
    assert_eq!(c.stage, UpdateStage::Idle);
    // Due: straight to the fix.
    assert_eq!(c.step(UpdateEvent::Start { now: 400_000_000 }), UpdateAction::AcquireLocation);
    c.step(UpdateEvent::LocationAttempt { found: true });
    c.step(UpdateEvent::TagsDecoded { now: 401_000_000 });
    c.step(UpdateEvent::NetworkUp { now: 402_000_000 });
    assert_eq!(c.step(UpdateEvent::Posted { now: 403_000_000 }), UpdateAction::Restart);
    assert_eq!(c.last_update, 403_000_000);
}
