use clutterlog::capture::{resolve_capture_date, wants_exif_probe};
use clutterlog::datetime::{datetime_to_rfc2822, parse_datetime, DateTimeParts};

/// A raw little-endian TIFF buffer whose Exif block carries the given
/// datetime fields.
fn exif_bytes_with_fields(fields: &[(exif::Tag, &str)]) -> Vec<u8> {
    let fields: Vec<exif::Field> = fields
        .iter()
        .map(|(tag, value)| exif::Field {
            tag: *tag,
            ifd_num: exif::In::PRIMARY,
            value: exif::Value::Ascii(vec![value.as_bytes().to_vec()]),
        })
        .collect();
    let mut writer = exif::experimental::Writer::new();
    for field in &fields {
        writer.push_field(field);
    }
    let mut cursor = std::io::Cursor::new(Vec::new());
    writer.write(&mut cursor, true).expect("writing the Exif test buffer failed");
    cursor.into_inner()
}

/// A raw little-endian TIFF buffer whose Exif block carries one
/// DateTimeOriginal field with the given ASCII value.
fn exif_bytes_with_capture_tag(value: &str) -> Vec<u8> {
    exif_bytes_with_fields(&[(exif::Tag::DateTimeOriginal, value)])
}

#[test]
fn embedded_capture_tag_beats_later_filesystem_time() {
    let bytes = exif_bytes_with_capture_tag("2020:01:01 10:00:00");
    // 2023-01-01T00:00:00 UTC.
    let modified = Some(1672531200);
    let resolved = resolve_capture_date(Some(&bytes), None, modified);
    assert_eq!(resolved, "2020-01-01T10:00:00");
}

#[test]
fn earlier_filesystem_time_beats_embedded_capture_tag() {
    let bytes = exif_bytes_with_capture_tag("2025:06:01 12:00:00");
    // 2020-01-01T00:00:00 UTC: earlier than the embedded tag, so the
    // minimum rule picks it.
    let modified = Some(1577836800);
    let resolved = resolve_capture_date(Some(&bytes), None, modified);
    assert_eq!(resolved, "2020-01-01T00:00:00");
}

#[test]
fn unparsable_embedded_tag_falls_back_to_filesystem_time() {
    let bytes = exif_bytes_with_capture_tag("not a datetime value");
    let resolved = resolve_capture_date(Some(&bytes), None, Some(1577836800));
    assert_eq!(resolved, "2020-01-01T00:00:00");
}

#[test]
fn first_parsing_tag_wins_without_comparing_across_tags() {
    // The original-capture tag takes priority over the generic tag even
    // though the generic tag is chronologically earlier.
    let bytes = exif_bytes_with_fields(&[
        (exif::Tag::DateTimeOriginal, "2022:05:06 07:08:09"),
        (exif::Tag::DateTime, "2019:01:01 00:00:00"),
    ]);
    let resolved = resolve_capture_date(Some(&bytes), None, None);
    assert_eq!(resolved, "2022-05-06T07:08:09");
}

#[test]
fn generic_tag_is_used_when_capture_tags_are_absent() {
    let bytes = exif_bytes_with_fields(&[(exif::Tag::DateTime, "2018:02:03 04:05:06")]);
    let resolved = resolve_capture_date(Some(&bytes), None, None);
    assert_eq!(resolved, "2018-02-03T04:05:06");
}

#[test]
fn no_candidate_resolves_to_epoch_sentinel() {
    let resolved = resolve_capture_date(None, None, None);
    assert_eq!(resolved, "1970-01-01T00:00:00");
}

#[test]
fn earliest_of_creation_and_modification_wins() {
    // 2021-03-04T05:06:07 and 2022-01-01T00:00:00.
    let resolved = resolve_capture_date(None, Some(1614834367), Some(1640995200));
    assert_eq!(resolved, "2021-03-04T05:06:07");
    let resolved = resolve_capture_date(None, Some(1640995200), Some(1614834367));
    assert_eq!(resolved, "2021-03-04T05:06:07");
}

#[test]
fn wants_exif_probe_follows_the_extension() {
    assert!(wants_exif_probe("photo.jpg"));
    assert!(wants_exif_probe("photo.JPEG"));
    assert!(wants_exif_probe("scan.Tif"));
    assert!(wants_exif_probe("pic.webp"));
    assert!(!wants_exif_probe("clip.mp4"));
    assert!(!wants_exif_probe("image.png"));
    assert!(!wants_exif_probe("noextension"));
}

#[test]
fn parse_datetime_accepts_a_leap_day() {
    let p = parse_datetime("2020-02-29T23:59:59", 'T');
    assert_eq!(
        p,
        Some(DateTimeParts { year: 2020, month: 2, day: 29, hour: 23, minute: 59, second: 59 })
    );
}

#[test]
fn parse_datetime_rejects_invalid_dates() {
    assert_eq!(parse_datetime("2021-02-29T00:00:00", 'T'), None);
    assert_eq!(parse_datetime("2020-13-01T00:00:00", 'T'), None);
    assert_eq!(parse_datetime("2020-00-10T00:00:00", 'T'), None);
    assert_eq!(parse_datetime("2020-04-31T00:00:00", 'T'), None);
    assert_eq!(parse_datetime("2020-01-01T24:00:00", 'T'), None);
    assert_eq!(parse_datetime("2020-01-01T00:60:00", 'T'), None);
    assert_eq!(parse_datetime("2020-01-01T00:00:60", 'T'), None);
    assert_eq!(parse_datetime("2020-01-01 00:00:00", 'T'), None);
    assert_eq!(parse_datetime("2020-01-01T00:00:0", 'T'), None);
}

#[test]
fn parse_datetime_takes_the_given_separator() {
    let p = parse_datetime("2020-01-02 03:04:05", ' ');
    assert_eq!(
        p,
        Some(DateTimeParts { year: 2020, month: 1, day: 2, hour: 3, minute: 4, second: 5 })
    );
}

#[test]
fn rfc2822_of_a_catalog_datetime() {
    // 2020-01-01 was a Wednesday.
    assert_eq!(datetime_to_rfc2822("2020-01-01T10:00:00"), "Wed, 01 Jan 2020 10:00:00 +0000");
    // 1970-01-01 was a Thursday.
    assert_eq!(datetime_to_rfc2822("1970-01-01T00:00:00"), "Thu, 01 Jan 1970 00:00:00 +0000");
    // 2024-02-29 was a Thursday (leap day).
    assert_eq!(datetime_to_rfc2822("2024-02-29T12:30:45"), "Thu, 29 Feb 2024 12:30:45 +0000");
}

#[test]
fn rfc2822_keeps_an_unparsable_datetime_unchanged() {
    assert_eq!(datetime_to_rfc2822("soon"), "soon");
    assert_eq!(datetime_to_rfc2822(""), "");
}
