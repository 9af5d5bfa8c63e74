use happyview_spaces::clock::{now, reading};
use happyview_spaces::tid::{
    decode_base32_sort, encode_base32_sort, generate_tid, next_tid_after, tid_after, tid_at,
    tid_from_iso8601, tid_from_number, tid_from_unix_microseconds, tid_to_iso8601, tid_to_number,
    tid_to_unix_microseconds,
};

#[test]
fn tid_is_13_chars() {
    let tid = generate_tid();
    assert_eq!(tid.len(), 13, "TID should be 13 characters, got: {tid}");
}

#[test]
fn tid_uses_valid_charset() {
    let tid = generate_tid();
    let valid = "234567abcdefghijklmnopqrstuvwxyz";
    for ch in tid.chars() {
        assert!(valid.contains(ch), "invalid character '{ch}' in TID {tid}");
    }
}

#[test]
fn tids_are_unique() {
    let a = generate_tid();
    let b = generate_tid();
    assert_ne!(a, b, "two TIDs should differ");
}

#[test]
fn next_tid_after_none_is_a_plain_tid() {
    let tid = next_tid_after(None);
    assert_eq!(tid.len(), 13);
}

#[test]
fn next_tid_after_advances_past_a_future_prev() {
    // A `prev` from far in the future is what a clock step backwards looks like; the result must
    // still sort after it.
    let future = encode_base32_sort(u64::MAX / 2);
    let next = next_tid_after(Some(&future));
    assert!(next > future, "{next} should sort after {future}");
    assert_eq!(decode_base32_sort(&next), Some(u64::MAX / 2 + 1));
}

#[test]
fn next_tid_after_is_strictly_increasing_in_a_tight_loop() {
    // Many revisions minted inside the same microsecond.
    let mut prev = next_tid_after(None);
    for _ in 0..1000 {
        let next = next_tid_after(Some(&prev));
        assert!(next > prev, "{next} should sort after {prev}");
        prev = next;
    }
}

#[test]
fn next_tid_after_tolerates_an_undecodable_prev() {
    let next = next_tid_after(Some("not-a-tid"));
    assert_eq!(next.len(), 13);
}

#[test]
fn encode_base32_sort_known_value() {
    // Zero should encode to all '2's (the first character in the alphabet)
    let result = encode_base32_sort(0);
    assert_eq!(result, "2222222222222");
}

#[test]
fn decode_inverts_encode() {
    let val: u64 = 0x123456789ABCDEF;
    let encoded = encode_base32_sort(val);
    assert_eq!(decode_base32_sort(&encoded), Some(val));
}

#[test]
fn decode_rejects_invalid() {
    assert_eq!(decode_base32_sort("short"), None);
    assert_eq!(decode_base32_sort("AAAAAAAAAAAAA"), None);
}

#[test]
fn tid_to_iso8601_roundtrip() {
    let tid = generate_tid();
    let iso = tid_to_iso8601(&tid).expect("valid TID");
    assert!(iso.ends_with('Z'), "should be UTC: {iso}");
    // The clock identifier is lost, but the timestamp portion should produce a TID that converts
    // back to the same ISO string.
    let tid2 = tid_from_iso8601(&iso).expect("valid ISO");
    let iso2 = tid_to_iso8601(&tid2).expect("valid TID");
    assert_eq!(iso, iso2);
}

#[test]
fn tid_from_iso8601_known_value() {
    let tid = tid_from_iso8601("2024-01-01T00:00:00Z").expect("valid ISO");
    assert_eq!(tid.len(), 13);
    let iso = tid_to_iso8601(&tid).expect("valid TID");
    assert_eq!(iso, "2024-01-01T00:00:00.000000Z");
}

#[test]
fn tid_from_iso8601_rejects_garbage() {
    assert!(tid_from_iso8601("not a date").is_none());
}

#[test]
fn tid_from_iso8601_with_offset() {
    let tid = tid_from_iso8601("2024-01-01T05:00:00+05:00").expect("valid ISO with offset");
    let iso = tid_to_iso8601(&tid).expect("valid TID");
    assert_eq!(iso, "2024-01-01T00:00:00.000000Z");
}

#[test]
fn tid_from_iso8601_with_fractional_seconds() {
    let tid = tid_from_iso8601("2024-06-15T12:30:45.123456Z").expect("valid ISO");
    let iso = tid_to_iso8601(&tid).expect("valid TID");
    assert_eq!(iso, "2024-06-15T12:30:45.123456Z");
}

#[test]
fn tid_to_unix_microseconds_known_value() {
    let tid = tid_from_iso8601("2024-01-01T00:00:00Z").expect("valid ISO");
    let us = tid_to_unix_microseconds(&tid).expect("valid TID");
    assert_eq!(us, 1_704_067_200_000_000);
}

#[test]
fn tid_microseconds_roundtrip() {
    let tid = generate_tid();
    let us = tid_to_unix_microseconds(&tid).expect("valid TID");
    let tid2 = tid_from_unix_microseconds(us);
    let us2 = tid_to_unix_microseconds(&tid2).expect("valid TID");
    assert_eq!(us, us2);
}

#[test]
fn tid_to_unix_microseconds_rejects_invalid() {
    assert!(tid_to_unix_microseconds("garbage").is_none());
}

#[test]
fn tid_number_lossless_roundtrip() {
    let tid = generate_tid();
    let val = tid_to_number(&tid).expect("valid TID");
    let tid2 = tid_from_number(val);
    assert_eq!(tid, tid2);
}

#[test]
fn tid_to_number_rejects_invalid() {
    assert!(tid_to_number("garbage").is_none());
}

#[test]
fn tid_to_iso8601_rejects_invalid() {
    assert!(tid_to_iso8601("garbage").is_none());
    assert!(tid_to_iso8601("AAAAAAAAAAAAA").is_none());
}

#[test]
fn known_tids() {
    assert_eq!(encode_base32_sort(u64::MAX), "jzzzzzzzzzzzz");
    assert_eq!(encode_base32_sort(1), "2222222222223");
    assert_eq!(encode_base32_sort(31), "222222222222z");
    assert_eq!(encode_base32_sort(32), "2222222222232");
    assert_eq!(decode_base32_sort("jzzzzzzzzzzzz"), Some(u64::MAX));
}

#[test]
fn the_spare_bit_is_lost() {
    // 'k' stands for sixteen more than 'a' would need to: the topmost of 65 bits.
    assert_eq!(decode_base32_sort("k222222222222"), Some(0));
    assert_ne!(tid_from_number(0), "k222222222222");
}

#[test]
fn decode_rejects_other_lengths_and_scripts() {
    assert_eq!(decode_base32_sort(""), None);
    assert_eq!(decode_base32_sort("222222222222"), None);
    assert_eq!(decode_base32_sort("22222222222222"), None);
    assert_eq!(decode_base32_sort("222222222222é"), None);
    assert_eq!(decode_base32_sort("2222222222228"), None);
    assert_eq!(decode_base32_sort("2222222222221"), None);
}

#[test]
fn tids_sort_as_numbers() {
    let numbers = [0u64, 1, 31, 32, 1023, 1024, 1 << 40, u64::MAX / 2, u64::MAX];
    for pair in numbers.windows(2) {
        assert!(tid_from_number(pair[0]) < tid_from_number(pair[1]));
    }
}

#[test]
fn tid_of_a_clock_reading() {
    let tid = tid_at(1_704_067_200, 123_456_789, 0xff, 0xff);
    assert_eq!(tid_to_unix_microseconds(&tid), Some(1_704_067_200_123_456));
    assert_eq!(tid_to_number(&tid), Some(1_704_067_200_123_456 * 1024 + 1023));
    assert_eq!(tid_at(0, 0, 1, 0), "2222222222223");
}

#[test]
fn the_clock_is_taken_where_it_is_ahead() {
    let clock = encode_base32_sort(100);
    assert_eq!(tid_after(clock.clone(), Some(&encode_base32_sort(99))), clock);
    assert_eq!(tid_after(clock.clone(), Some(&encode_base32_sort(100))), encode_base32_sort(101));
    assert_eq!(tid_after(clock.clone(), Some(&encode_base32_sort(150))), encode_base32_sort(151));
    assert_eq!(tid_after(clock.clone(), Some("zzz")), clock);
    assert_eq!(tid_after(clock.clone(), None), clock);
    let last = encode_base32_sort(u64::MAX);
    assert_eq!(tid_after(clock, Some(&last)), last);
}

#[test]
fn negative_microseconds_keep_their_low_bits() {
    assert_eq!(tid_from_unix_microseconds(-1), tid_from_number(0xffff_ffff_ffff_fc00));
    assert_eq!(tid_from_unix_microseconds(1 << 54), "2222222222222");
}

#[test]
fn a_clock_before_the_epoch_reads_as_the_epoch() {
    assert_eq!(reading(None), (0, 0));
    assert_eq!(reading(Some((1_704_067_200, 7))), (1_704_067_200, 7));
    let (secs, nanos) = now();
    assert!(secs > 1_704_067_200 && nanos < 1_000_000_000);
}

#[test]
fn what_cannot_be_followed() {
    let last = encode_base32_sort(u64::MAX);
    assert_eq!(next_tid_after(Some(&last)), last);
    assert_eq!(next_tid_after(Some(&encode_base32_sort(u64::MAX - 1))), last);
    assert!(next_tid_after(Some("k222222222222")).as_str() < "k222222222222");
    assert!(next_tid_after(Some("zzz")).as_str() < "zzz");
}
