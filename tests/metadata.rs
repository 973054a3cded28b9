use blik::datetime::{Date, DateTime};
use blik::metadata::{ExifData, RawField, TagContext, TagValue};

fn field(context: TagContext, number: u16, value: TagValue) -> RawField {
    RawField { context, number, ifd: 0, value }
}

fn ascii(s: &str) -> TagValue {
    TagValue::Ascii(vec![s.as_bytes().to_vec()])
}

fn dms(d: u32, m: u32, s: u32) -> TagValue {
    TagValue::Rational(vec![(d, 1), (m, 1), (s, 1)])
}

fn exif(fields: Vec<RawField>) -> ExifData {
    ExifData::from_fields(&fields, 640, 480)
}

fn dt(year: i32, month: u32, day: u32, hour: u32, minute: u32, second: u32) -> DateTime {
    DateTime { year, month, day, hour, minute, second }
}

#[test]
fn gps_north_is_positive() {
    let e = exif(vec![
        field(TagContext::Gps, 0x1, ascii("N")),
        field(TagContext::Gps, 0x2, dms(40, 26, 46)),
        field(TagContext::Gps, 0x3, ascii("E")),
        field(TagContext::Gps, 0x4, dms(79, 58, 56)),
    ]);
    assert_eq!(e.lat(), Some(40_446_111));
    assert_eq!(e.long(), Some(79_982_222));
    assert_eq!(e.position(), Some((40_446_111, 79_982_222)));
    assert!(!e.gps_reference_invalid());
}

#[test]
fn gps_south_and_west_are_negative() {
    let e = exif(vec![
        field(TagContext::Gps, 0x1, ascii("S")),
        field(TagContext::Gps, 0x2, dms(40, 26, 46)),
        field(TagContext::Gps, 0x3, ascii("W")),
        field(TagContext::Gps, 0x4, dms(79, 58, 56)),
    ]);
    assert_eq!(e.lat(), Some(-40_446_111));
    assert_eq!(e.long(), Some(-79_982_222));
}

#[test]
fn gps_unknown_reference_keeps_magnitude_and_warns() {
    let e = exif(vec![
        field(TagContext::Gps, 0x1, ascii("Q")),
        field(TagContext::Gps, 0x2, dms(40, 26, 46)),
    ]);
    assert_eq!(e.lat(), Some(40_446_111));
    assert!(e.gps_reference_invalid());
    assert_eq!(e.position(), None);
}

#[test]
fn gps_fractional_seconds_and_zero_denominator() {
    let e = exif(vec![
        field(TagContext::Gps, 0x2, TagValue::Rational(vec![(40, 1), (26, 1), (4650, 100)])),
        field(TagContext::Gps, 0x4, TagValue::Rational(vec![(1, 0), (0, 1), (0, 1)])),
    ]);
    assert_eq!(e.lat(), Some(40_446_250));
    assert_eq!(e.long(), None);
}

#[test]
fn original_timestamp_comes_first() {
    let e = exif(vec![
        field(TagContext::Tiff, 0x132, ascii("2018:01:02 03:04:05")),
        field(TagContext::Exif, 0x9003, ascii("2019:07:04 12:30:45")),
    ]);
    assert_eq!(e.date(), Some(dt(2019, 7, 4, 12, 30, 45)));
}

#[test]
fn unreadable_original_falls_back_to_modified() {
    let e = exif(vec![
        field(TagContext::Exif, 0x9003, ascii("not a date")),
        field(TagContext::Tiff, 0x132, ascii("2018:01:02 03:04:05")),
        field(TagContext::Exif, 0x9004, ascii("2017:01:01 00:00:01")),
    ]);
    assert_eq!(e.date(), Some(dt(2018, 1, 2, 3, 4, 5)));
}

#[test]
fn sentinel_dates_give_no_date() {
    let epoch = exif(vec![field(TagContext::Exif, 0x9003, ascii("1970:01:01 00:00:00"))]);
    assert_eq!(epoch.date(), None);
    let y2k = exif(vec![field(TagContext::Exif, 0x9003, ascii("2000:01:01 00:00:00"))]);
    assert_eq!(y2k.date(), None);
    let real = exif(vec![field(TagContext::Exif, 0x9003, ascii("2000:01:01 00:00:01"))]);
    assert_eq!(real.date(), Some(dt(2000, 1, 1, 0, 0, 1)));
}

#[test]
fn gps_date_and_time_used_without_timestamp() {
    let e = exif(vec![
        field(TagContext::Gps, 0x1d, ascii("2021:03:14")),
        field(TagContext::Gps, 0x7, TagValue::Rational(vec![(15, 1), (9, 1), (2650, 100)])),
    ]);
    assert_eq!(e.gpsdate, Some(Date { year: 2021, month: 3, day: 14 }));
    assert_eq!(e.gpstime, Some((15, 9, 27)));
    assert_eq!(e.date(), Some(dt(2021, 3, 14, 15, 9, 27)));
}

#[test]
fn gps_time_out_of_range_gives_no_date() {
    let e = exif(vec![
        field(TagContext::Gps, 0x1d, ascii("2021:03:14")),
        field(TagContext::Gps, 0x7, TagValue::Rational(vec![(25, 1), (9, 1), (0, 1)])),
    ]);
    assert_eq!(e.date(), None);
}

#[test]
fn orientation_codes_map_to_rotations() {
    let rot = |code: u16| exif(vec![field(TagContext::Tiff, 0x112, TagValue::Short(vec![code]))]).rotation();
    assert_eq!(rot(1), Ok(0));
    assert_eq!(rot(3), Ok(180));
    assert_eq!(rot(6), Ok(90));
    assert_eq!(rot(8), Ok(270));
    assert_eq!(rot(5), Err(5));
    assert_eq!(exif(vec![]).rotation(), Ok(0));
    let long = exif(vec![field(TagContext::Tiff, 0x112, TagValue::Long(vec![6]))]);
    assert_eq!(long.rotation(), Ok(90));
}

#[test]
fn later_field_wins_and_other_directories_are_ignored() {
    let mut thumb = field(TagContext::Tiff, 0x10f, ascii("Thumbnail Maker"));
    thumb.ifd = 1;
    let e = exif(vec![
        field(TagContext::Tiff, 0x10f, ascii("First")),
        field(TagContext::Tiff, 0x10f, ascii("Canon")),
        thumb,
        field(TagContext::Tiff, 0x110, ascii("EOS")),
        field(TagContext::OtherGroup, 0x2, dms(1, 2, 3)),
    ]);
    assert_eq!(e.make, Some("Canon".to_string()));
    assert_eq!(e.model, Some("EOS".to_string()));
    assert_eq!(e.latval, None);
    assert_eq!(e.width, 640);
    assert_eq!(e.height, 480);
}

#[test]
fn ascii_values_tolerate_trailing_empty_strings() {
    let e = exif(vec![
        field(TagContext::Tiff, 0x10e, TagValue::Ascii(vec![b"A caption".to_vec(), vec![], vec![]])),
        field(TagContext::Tiff, 0x10f, TagValue::Ascii(vec![b"A".to_vec(), b"B".to_vec()])),
        field(TagContext::Tiff, 0x110, TagValue::Ascii(vec![vec![0xff, 0xfe]])),
    ]);
    assert_eq!(e.caption, Some("A caption".to_string()));
    assert_eq!(e.make, None);
    assert_eq!(e.model, None);
}
