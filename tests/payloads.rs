use pgpq::temporal::{date_payload_given, floor_div_mod, timestamp_payload_given};
use pgpq::wire::{encode_be, encode_signed};
use pgpq::TimeUnit;

#[test]
fn timestamp_payload_follows_the_verdict() {
    let epoch = vec![0xff, 0xfc, 0xa2, 0xfe, 0xc4, 0xc8, 0x20, 0x00];
    assert_eq!(timestamp_payload_given(TimeUnit::Second, 0, true), Some(epoch.clone()));
    assert_eq!(timestamp_payload_given(TimeUnit::Second, 0, false), None);
    assert_eq!(timestamp_payload_given(TimeUnit::Millisecond, 0, true), Some(epoch.clone()));
    assert_eq!(timestamp_payload_given(TimeUnit::Nanosecond, 0, true), Some(epoch));
    assert_eq!(
        timestamp_payload_given(TimeUnit::Nanosecond, 999, true),
        Some(vec![0xff, 0xfc, 0xa2, 0xfe, 0xc4, 0xc8, 0x20, 0x01])
    );
    assert_eq!(timestamp_payload_given(TimeUnit::Second, i64::MAX, true), None);
}

#[test]
fn date_payload_follows_the_verdict() {
    assert_eq!(date_payload_given(10_958, true), Some(vec![0, 0, 0, 1]));
    assert_eq!(date_payload_given(10_958, false), None);
    assert_eq!(date_payload_given(i64::from(i32::MAX) + 10_958, true), None);
    assert_eq!(date_payload_given(i64::from(i32::MIN) + 10_957, true), Some(vec![0x80, 0, 0, 0]));
}

#[test]
fn floor_division_rounds_down() {
    assert_eq!(floor_div_mod(7, 2), (3, 1));
    assert_eq!(floor_div_mod(-7, 2), (-4, 1));
    assert_eq!(floor_div_mod(-1, 86_400_000), (-1, 86_399_999));
    assert_eq!(floor_div_mod(i64::MIN, 1_000), (i64::MIN / 1_000 - 1, 192));
}

#[test]
fn big_endian_round_trip() {
    for v in [i64::MIN, -70_000, -1, 0, 1, 42, i64::MAX] {
        let bytes = encode_signed(v, 8);
        assert_eq!(i64::from_be_bytes(bytes.try_into().unwrap()), v);
    }
    for v in [i32::MIN as i64, -1, 0, 65_536, i32::MAX as i64] {
        let bytes = encode_signed(v, 4);
        assert_eq!(i32::from_be_bytes(bytes.try_into().unwrap()) as i64, v);
    }
    for v in [i16::MIN as i64, -2, 0, 255, i16::MAX as i64] {
        let bytes = encode_signed(v, 2);
        assert_eq!(i16::from_be_bytes(bytes.try_into().unwrap()) as i64, v);
    }
    assert_eq!(encode_be(0x0102_0304_0506_0708, 8), vec![1, 2, 3, 4, 5, 6, 7, 8]);
    assert_eq!(encode_be(0x0102_0304_0506_0708, 3), vec![6, 7, 8]);
}
