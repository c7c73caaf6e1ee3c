use kstat::value::long_bits;
use kstat::{ByteOrder, KstatError, KstatValue};

fn value_of(leading: &[u8]) -> KstatValue {
    let mut raw = [0u8; 16];
    raw[..leading.len()].copy_from_slice(leading);
    KstatValue { raw }
}

#[test]
fn a_word_is_read_least_significant_byte_first() {
    let v = value_of(&[0x01, 0x02, 0x03, 0x04, 0x05, 0x06, 0x07, 0x08]);
    assert_eq!(v.as_ulong(ByteOrder::Little), 0x0807_0605_0403_0201);
    assert_eq!(v.as_long(ByteOrder::Little), 0x0807_0605_0403_0201);
    assert_eq!(v.as_u32(ByteOrder::Little), 0x0403_0201);
}

#[test]
fn a_word_is_read_most_significant_byte_first() {
    let v = value_of(&[0x01, 0x02, 0x03, 0x04, 0x05, 0x06, 0x07, 0x08]);
    assert_eq!(v.as_ulong(ByteOrder::Big), 0x0102_0304_0506_0708);
    assert_eq!(v.as_long(ByteOrder::Big), 0x0102_0304_0506_0708);
    assert_eq!(v.as_u32(ByteOrder::Big), 0x0102_0304);
}

#[test]
fn readings_agree_with_the_encodings_of_the_language() {
    let samples: [u64; 8] = [
        0,
        1,
        255,
        256,
        2400,
        0x7FFF_FFFF_FFFF_FFFF,
        0x8000_0000_0000_0000,
        u64::MAX,
    ];
    for s in samples {
        assert_eq!(value_of(&s.to_le_bytes()).as_ulong(ByteOrder::Little), s);
        assert_eq!(value_of(&s.to_be_bytes()).as_ulong(ByteOrder::Big), s);
        assert_eq!(value_of(&s.to_le_bytes()).as_long(ByteOrder::Little), s as i64);
        assert_eq!(value_of(&s.to_be_bytes()).as_long(ByteOrder::Big), s as i64);
        let low = s as u32;
        assert_eq!(value_of(&low.to_le_bytes()).as_u32(ByteOrder::Little), low);
        assert_eq!(value_of(&low.to_be_bytes()).as_u32(ByteOrder::Big), low);
        assert_eq!(long_bits(s as i64), s);
    }
}

#[test]
fn a_signed_word_is_read_in_twos_complement() {
    assert_eq!(value_of(&[0xFF; 8]).as_long(ByteOrder::Little), -1);
    assert_eq!(value_of(&[0xFF; 8]).as_long(ByteOrder::Big), -1);
    assert_eq!(value_of(&[0, 0, 0, 0, 0, 0, 0, 0x80]).as_long(ByteOrder::Little), i64::MIN);
    assert_eq!(value_of(&[0x80, 0, 0, 0, 0, 0, 0, 0]).as_long(ByteOrder::Big), i64::MIN);
    assert_eq!(
        value_of(&[0xFF, 0xFF, 0xFF, 0xFF, 0xFF, 0xFF, 0xFF, 0x7F]).as_long(ByteOrder::Little),
        i64::MAX
    );
    assert_eq!(value_of(&(-2400i64).to_le_bytes()).as_long(ByteOrder::Little), -2400);
    assert_eq!(value_of(&(-2400i64).to_be_bytes()).as_long(ByteOrder::Big), -2400);
}

#[test]
fn the_bytes_behind_a_reading_do_not_count() {
    let mut v = value_of(&1700000000u32.to_le_bytes());
    v.raw[4] = 0xAB;
    v.raw[7] = 0xCD;
    v.raw[15] = 0xEF;
    assert_eq!(v.as_u32(ByteOrder::Little), 1700000000);
    let mut v = value_of(&1048576u64.to_le_bytes());
    v.raw[8] = 0x11;
    v.raw[15] = 0x22;
    assert_eq!(v.as_ulong(ByteOrder::Little), 1048576);
    assert_eq!(v.as_long(ByteOrder::Little), 1048576);
}

#[test]
fn the_bits_of_a_signed_word() {
    assert_eq!(long_bits(0), 0);
    assert_eq!(long_bits(2400), 2400);
    assert_eq!(long_bits(i64::MAX), 0x7FFF_FFFF_FFFF_FFFF);
    assert_eq!(long_bits(-1), u64::MAX);
    assert_eq!(long_bits(i64::MIN), 0x8000_0000_0000_0000);
    assert_eq!(long_bits(-2400), 18446744073709549216);
}

#[test]
fn each_error_has_its_message() {
    assert_eq!(KstatError::OpenFailed.message(), "kstat_open(3KSTAT) failed");
    assert_eq!(KstatError::CpuSpeedNotFound.message(), "cpu speed kstat not found");
    assert_eq!(KstatError::BootTimeNotFound.message(), "boot time kstat not found");
    assert_eq!(KstatError::ProcessCountNotFound.message(), "process count kstat not found");
    assert_eq!(
        KstatError::SystemPagesNotAvailable.message(),
        "system pages kstat not available"
    );
}
