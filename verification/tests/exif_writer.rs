//! EXIF stamps: the shifted capture time, the TIFF blob, and how it is read
//! back from JPEG and PNG files.

use curvectrl::exif_writer::{
    build_tiff, datetime_from_ascii, is_exif_datetime, jpeg_app1, push_ascii_entry, push_u16,
    push_u32, raw_datetime_original, shifted_datetime, splice_after_soi,
};
use exif::{In, Reader, Tag, Value};
use std::io::Cursor;

fn ascii_bytes(parsed: &exif::Exif, tag: Tag) -> Vec<u8> {
    let field = parsed.get_field(tag, In::PRIMARY).expect("the tag is there");
    match &field.value {
        Value::Ascii(parts) => parts.concat(),
        other => panic!("unexpected value {other:?}"),
    }
}

/// A small gray JPEG.
fn gray_jpeg(side: u16) -> Vec<u8> {
    let mut stream = Vec::new();
    let samples = vec![128u8; side as usize * side as usize];
    jpeg_encoder::Encoder::new(&mut stream, 95)
        .encode(&samples, side, side, jpeg_encoder::ColorType::Luma)
        .unwrap();
    stream
}

#[test]
fn shifted_datetime_zero() {
    assert_eq!(
        shifted_datetime("2024-05-09", 0).unwrap(),
        "2024:05:09 00:00:00"
    );
}

#[test]
fn shifted_datetime_end_of_day() {
    assert_eq!(
        shifted_datetime("2024-05-09", 86_399).unwrap(),
        "2024:05:09 23:59:59"
    );
}

#[test]
fn shifted_datetime_day_rollover() {
    assert_eq!(
        shifted_datetime("2024-05-09", 86_400).unwrap(),
        "2024:05:10 00:00:00"
    );
}

#[test]
fn shifted_datetime_month_rollover() {
    assert_eq!(
        shifted_datetime("2024-01-31", 86_400).unwrap(),
        "2024:02:01 00:00:00"
    );
}

#[test]
fn shifted_datetime_year_rollover() {
    assert_eq!(
        shifted_datetime("2024-12-31", 86_400).unwrap(),
        "2025:01:01 00:00:00"
    );
}

#[test]
fn shifted_datetime_leap_year() {
    assert_eq!(
        shifted_datetime("2024-02-28", 86_400).unwrap(),
        "2024:02:29 00:00:00"
    );
}

#[test]
fn shifted_datetime_non_leap_year() {
    assert_eq!(
        shifted_datetime("2023-02-28", 86_400).unwrap(),
        "2023:03:01 00:00:00"
    );
}

#[test]
fn shifted_datetime_arbitrary_offset() {
    assert_eq!(
        shifted_datetime("2024-05-09", 3_661).unwrap(),
        "2024:05:09 01:01:01"
    );
}

#[test]
fn shifted_datetime_invalid_month() {
    assert!(shifted_datetime("2024-13-01", 0).is_none());
}

#[test]
fn shifted_datetime_invalid_day() {
    assert!(shifted_datetime("2024-05-32", 0).is_none());
}

#[test]
fn shifted_datetime_wrong_format() {
    assert!(shifted_datetime("12/05/2024", 0).is_none());
    assert!(shifted_datetime("2024-5-9", 0).is_none());
}

#[test]
fn shifted_datetime_unpadded() {
    assert!(shifted_datetime("2024-05-09", 0).is_some());
    assert!(shifted_datetime("2024-05-9", 0).is_none());
}

#[test]
fn build_tiff_original_only_round_trip() {
    let tiff = build_tiff("2024:05:09 00:00:12", None).unwrap();
    let parsed = exif::Reader::new()
        .read_from_container(&mut Cursor::new(&tiff))
        .unwrap();
    assert_eq!(
        ascii_bytes(&parsed, exif::Tag::DateTimeOriginal),
        b"2024:05:09 00:00:12"
    );
}

#[test]
fn build_tiff_both_tags_round_trip() {
    let tiff = build_tiff("2024:05:09 00:00:12", Some("2024:05:10 14:30:00")).unwrap();
    let parsed = exif::Reader::new()
        .read_from_container(&mut Cursor::new(&tiff))
        .unwrap();
    assert_eq!(
        ascii_bytes(&parsed, exif::Tag::DateTimeOriginal),
        b"2024:05:09 00:00:12"
    );
    assert_eq!(
        ascii_bytes(&parsed, exif::Tag::DateTimeDigitized),
        b"2024:05:10 14:30:00"
    );
}

#[test]
fn build_tiff_wrong_lengths() {
    assert!(build_tiff("2024:05:09 00:00:1", None).is_none());
    assert!(build_tiff("2024:05:09 00:00:12", Some("too short")).is_none());
}

#[test]
fn build_tiff_rejects_hyphen_normalized_datetime() {
    // kamadak's `display_value()` normalizes EXIF times to `YYYY-MM-DD
    // HH:MM:SS`; that form must not leak into the embedded ASCII value.
    assert!(build_tiff("2024:05:09 00:00:12", None).is_some());
    assert!(
        build_tiff("2024-05-09 00:00:12", None).is_none(),
        "original keeps the colon shape"
    );
    assert!(
        build_tiff("2024:05:09 00:00:12", Some("2024-05-10 12:00:00")).is_none(),
        "digitized keeps the colon shape"
    );
}

#[test]
fn jpeg_round_trip() {
    let mut stream = Vec::new();
    let encoder = jpeg_encoder::Encoder::new(&mut stream, 95);
    encoder
        .encode(&[128u8; 64], 8, 8, jpeg_encoder::ColorType::Luma)
        .unwrap();
    let tiff = build_tiff("2024:05:09 00:00:00", None).unwrap();
    let stamped = splice_after_soi(&stream, &jpeg_app1(&tiff));
    let parsed = exif::Reader::new()
        .read_from_container(&mut Cursor::new(&stamped))
        .unwrap();
    assert_eq!(
        ascii_bytes(&parsed, exif::Tag::DateTimeOriginal),
        b"2024:05:09 00:00:00"
    );
}

#[test]
fn jpeg_round_trip_with_digitized() {
    let mut stream = Vec::new();
    let encoder = jpeg_encoder::Encoder::new(&mut stream, 95);
    encoder
        .encode(&[128u8; 64], 8, 8, jpeg_encoder::ColorType::Luma)
        .unwrap();
    let tiff = build_tiff("2024:05:09 00:00:00", Some("2024:05:10 12:00:00")).unwrap();
    let stamped = splice_after_soi(&stream, &jpeg_app1(&tiff));
    let parsed = exif::Reader::new()
        .read_from_container(&mut Cursor::new(&stamped))
        .unwrap();
    assert_eq!(
        ascii_bytes(&parsed, exif::Tag::DateTimeOriginal),
        b"2024:05:09 00:00:00"
    );
    assert_eq!(
        ascii_bytes(&parsed, exif::Tag::DateTimeDigitized),
        b"2024:05:10 12:00:00"
    );
}

#[test]
fn splice_after_soi_non_jpeg_passthrough() {
    let stream = b"not a jpeg";
    assert_eq!(splice_after_soi(stream, &[0xFF]), stream.to_vec());
}

#[test]
fn png_exif_round_trips_the_raw_tiff() {
    let tiff = build_tiff("2024:05:09 18:24:36", Some("2024:05:10 09:00:00")).unwrap();
    let mut png_bytes = Vec::new();
    let mut encoder = png::Encoder::new(&mut png_bytes, 4, 4);
    encoder.set_color(png::ColorType::Grayscale);
    encoder.set_depth(png::BitDepth::Sixteen);
    let mut writer = encoder.write_header().unwrap();
    writer.write_chunk(png::chunk::eXIf, &tiff).unwrap();
    writer.write_image_data(&[0u8; 32]).unwrap();
    drop(writer);

    let parsed = Reader::new()
        .read_from_container(&mut Cursor::new(&png_bytes))
        .unwrap();
    assert_eq!(
        ascii_bytes(&parsed, Tag::DateTimeOriginal),
        b"2024:05:09 18:24:36"
    );
    assert_eq!(
        ascii_bytes(&parsed, Tag::DateTimeDigitized),
        b"2024:05:10 09:00:00"
    );
}

#[test]
fn raw_datetime_original_reads_colon_form() {
    let tiff = build_tiff("2024:05:09 00:00:00", None).unwrap();
    let stamped = splice_after_soi(&gray_jpeg(4), &jpeg_app1(&tiff));
    // The raw tag text round-trips in `YYYY:MM:DD HH:MM:SS`, not in the
    // hyphenated display form.
    assert_eq!(
        raw_datetime_original(&stamped),
        Some("2024:05:09 00:00:00".to_owned())
    );
    // A file without the tag, and one that is no image, have none.
    assert_eq!(raw_datetime_original(&gray_jpeg(4)), None);
    assert_eq!(raw_datetime_original(b"no image"), None);
}

#[test]
fn shifted_datetime_long_offsets_cross_years() {
    assert_eq!(
        shifted_datetime("2023-12-30", 3 * 86_400 + 59).unwrap(),
        "2024:01:02 00:00:59"
    );
    assert_eq!(
        shifted_datetime("2000-02-28", 2 * 86_400).unwrap(),
        "2000:03:01 00:00:00"
    );
}

#[test]
fn stamps_of_later_frames_sort_later() {
    let stamps: Vec<String> = [0usize, 1, 59, 60, 3_600, 86_399, 86_400, 2_678_400]
        .iter()
        .map(|offset| shifted_datetime("2024-01-31", *offset).unwrap())
        .collect();
    let mut sorted = stamps.clone();
    sorted.sort();
    assert_eq!(stamps, sorted);
    assert!(stamps.iter().all(|stamp| is_exif_datetime(stamp)));
}

#[test]
fn tiff_blob_has_the_expected_bytes() {
    let tiff = build_tiff("2024:05:09 00:00:12", None).unwrap();
    assert_eq!(&tiff[..8], &[0x49, 0x49, 0x2a, 0x00, 0x08, 0x00, 0x00, 0x00]);
    // One entry that points to the EXIF directory.
    assert_eq!(&tiff[8..12], &[0x01, 0x00, 0x69, 0x87]);
    assert!(tiff.ends_with(b"2024:05:09 00:00:12\0"));
}

#[test]
fn little_endian_numbers_and_entries() {
    let mut buf = Vec::new();
    push_u16(&mut buf, 0x1234);
    push_u32(&mut buf, 0x0102_0304);
    assert_eq!(buf, [0x34, 0x12, 0x04, 0x03, 0x02, 0x01]);
    let mut entry = Vec::new();
    push_ascii_entry(&mut entry, 0x9003, 44);
    assert_eq!(entry, [0x03, 0x90, 2, 0, 20, 0, 0, 0, 44, 0, 0, 0]);
}

#[test]
fn app1_segment_is_framed_by_its_length() {
    let segment = jpeg_app1(&[1, 2, 3]);
    assert_eq!(segment, [0xff, 0xe1, 0, 11, b'E', b'x', b'i', b'f', 0, 0, 1, 2, 3]);
}

#[test]
fn splice_goes_right_behind_the_marker() {
    assert_eq!(
        splice_after_soi(&[0xff, 0xd8, 0xff, 0xdb], &[7, 8]),
        [0xff, 0xd8, 7, 8, 0xff, 0xdb]
    );
}

#[test]
fn ascii_values_lose_one_terminator() {
    assert_eq!(
        datetime_from_ascii(b"2024:05:09 00:00:00\0"),
        Some("2024:05:09 00:00:00".to_owned())
    );
    assert_eq!(
        datetime_from_ascii(b"2024:05:09 00:00:00"),
        Some("2024:05:09 00:00:00".to_owned())
    );
    assert_eq!(datetime_from_ascii(b"2024-05-09 00:00:00"), None);
    assert_eq!(datetime_from_ascii(b""), None);
}

#[test]
fn blobs_give_back_what_they_were_made_from() {
    for digitized in [None, Some("2024:06:01 10:00:00")] {
        let tiff = build_tiff("2024:05:09 00:00:12", digitized).unwrap();
        assert_eq!(
            raw_datetime_original(&tiff).as_deref(),
            Some("2024:05:09 00:00:12")
        );
        // In a stream it is found whatever follows.
        let stream = splice_after_soi(&[0xFF, 0xD8, 0x01, 0x02], &jpeg_app1(&tiff));
        assert_eq!(
            raw_datetime_original(&stream).as_deref(),
            Some("2024:05:09 00:00:12")
        );
    }
}
