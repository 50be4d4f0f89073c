//! Exports: names, options, the batch's counts, and the files themselves.

use curvectrl::export::{
    dated_export_name, export_jpeg, export_name, export_png, export_stamp, export_target,
    format_choices, frame_outcome, is_export_artifact, keeps_existing, options_for_choice, roll_hash,
    temp_export_path, ExportFormat, ExportOptions, ExportPreset, ExportSize, ExportTally,
    FrameOutcome,
};
use curvectrl::edit_manifest::CropMargins;
use curvectrl::error::FrameError;
use curvectrl::exif_writer::{build_tiff, raw_datetime_original};
use std::io::Cursor;

#[test]
fn export_name_replaces_the_source_extension() {
    assert_eq!(
        export_name("img_0001.cr2", ExportFormat::Jpeg),
        "img_0001.jpg"
    );
    assert_eq!(
        export_name("img_0001.cr2", ExportFormat::Png),
        "img_0001.png"
    );
    assert_eq!(
        export_name("img_0001.nef", ExportFormat::Jpeg),
        "img_0001.jpg"
    );
    // No extension in the name: the format's extension is simply appended.
    assert_eq!(
        export_name("IMG_0001", ExportFormat::Jpeg),
        "IMG_0001.jpg"
    );
    // A dotfile: the hidden leading dot is part of the stem.
    assert_eq!(
        export_name(".hidden.cr2", ExportFormat::Jpeg),
        ".hidden.jpg"
    );
}

#[test]
fn roll_hash_is_deterministic_6_hex() {
    let a = "/home/user/Films/2024 May Costa Rica";
    let b = "/home/user/Films/2024 May Portugal";
    let (ha, ha2, hb) = (roll_hash(a), roll_hash(a), roll_hash(b));
    // Deterministic, exact width, lowercase hex regardless of path content.
    assert_eq!(ha, ha2);
    assert_eq!(ha.len(), 6);
    assert!(
        ha.bytes()
            .all(|b| b.is_ascii_digit() || (b'a'..=b'f').contains(&b))
    );
    // Different rolls must (almost always) differ.
    assert_ne!(ha, hb);
}

#[test]
fn dated_export_name_builds_the_scheme() {
    // `YYYYMMDD-<roll-hash>-<frame>.<ext>`; frame is the 1-based full-roll
    // position padded to two digits; the source stem is deliberately gone.
    let name = |index, hash| {
        dated_export_name(ExportFormat::Jpeg, "2024-05-09", index, hash)
            .unwrap()
    };
    assert_eq!(name(0, "1a2b3c"), "20240509-1a2b3c-01.jpg");
    assert_eq!(name(9, "1a2b3c"), "20240509-1a2b3c-10.jpg");
    assert_eq!(name(99, "1a2b3c"), "20240509-1a2b3c-100.jpg");
    assert_eq!(
        dated_export_name(ExportFormat::Png, "2024-05-09", 1, "1a2b3c")
            .unwrap(),
        "20240509-1a2b3c-02.png"
    );
}

#[test]
fn dated_names_group_by_roll_when_sorted() {
    // Hash-first ordering means a same-day multi-roll folder sorts into
    // roll groups, each roll's frames in capture order: the property that
    // put the hash before the frame number.
    let name = |hash: &str, index: usize| {
        dated_export_name(ExportFormat::Jpeg, "2024-05-09", index, hash)
            .unwrap()
    };
    let mut names = vec![
        name("bbbbbb", 1),
        name("aaaaaa", 1),
        name("aaaaaa", 0),
        name("bbbbbb", 0),
    ];
    names.sort();
    assert_eq!(
        names,
        vec![
            "20240509-aaaaaa-01.jpg",
            "20240509-aaaaaa-02.jpg",
            "20240509-bbbbbb-01.jpg",
            "20240509-bbbbbb-02.jpg",
        ]
    );
}

#[test]
fn dated_export_name_rejects_a_malformed_start_date() {
    assert!(dated_export_name(ExportFormat::Jpeg, "2024-5-09", 0, "1a2b3c").is_none());
    assert!(dated_export_name(ExportFormat::Jpeg, "2024/05/09", 0, "1a2b3c").is_none());
    assert!(dated_export_name(ExportFormat::Jpeg, "", 0, "1a2b3c").is_none());
}

#[test]
fn export_presets_define_the_expected_defaults() {
    // Cloud: JPEG q90 at native resolution, tagged 300 dpi for print.
    let cloud = ExportOptions::for_preset(ExportPreset::Cloud);
    assert_eq!(cloud.format, ExportFormat::Jpeg);
    assert_eq!(cloud.quality, 90);
    assert_eq!(cloud.size, ExportSize::Original);
    assert_eq!(cloud.ppi, 300);
    // Master: lossless 16-bit PNG at native resolution, tagged 300 dpi.
    let master = ExportOptions::for_preset(ExportPreset::Master);
    assert_eq!(master.format, ExportFormat::Png);
    assert_eq!(master.size, ExportSize::Original);
    assert_eq!(master.ppi, 300);
    // Web: JPEG q82 downscaled to a 2048px long edge, tagged 72 dpi.
    let web = ExportOptions::for_preset(ExportPreset::Web);
    assert_eq!(web.format, ExportFormat::Jpeg);
    assert_eq!(web.quality, 82);
    assert_eq!(web.size, ExportSize::LongEdge2048);
    assert_eq!(web.ppi, 72);
    // Overwriting is off by default (the dialog checkbox defaults to "no").
    assert!(!cloud.overwrite && !master.overwrite && !web.overwrite);
}

#[test]
fn export_artifacts_are_identified_by_extension() {
    // Outputs of this app's exporter must never be mistaken for negatives.
    assert!(is_export_artifact("img_0001.jpg"));
    assert!(is_export_artifact("IMG_0002.JPEG"));
    assert!(is_export_artifact("scan.png"));
    assert!(!is_export_artifact("img_0001.cr2"));
    assert!(!is_export_artifact("IMG_0002.nef"));
    assert!(!is_export_artifact("scan.dng"));
    assert!(!is_export_artifact(".hidden"));
    assert!(!is_export_artifact("no_extension"));
}

#[test]
fn options_for_choice_resolves_the_dropdown_keys() {
    // Each file-picker format choice key maps to its preset's options.
    let cloud = options_for_choice("jpeg-90");
    assert_eq!(cloud.format, ExportFormat::Jpeg);
    assert_eq!(cloud.quality, 90);
    let web = options_for_choice("jpeg-82");
    assert_eq!(web.quality, 82);
    assert_eq!(web.size, ExportSize::LongEdge2048);
    let master = options_for_choice("png-16");
    assert_eq!(master.format, ExportFormat::Png);
    // An unknown key (or a backend that dropped the choice) falls back to
    // the first preset.
    let fallback = options_for_choice("nonsense");
    assert_eq!(fallback.format, ExportFormat::Jpeg);
    assert_eq!(fallback.quality, 90);
}

fn options(format: ExportFormat, ppi: u16) -> ExportOptions {
    ExportOptions {
        format,
        quality: 82,
        size: ExportSize::LongEdge2048,
        ppi,
        overwrite: false,
    }
}

#[test]
fn png_export_writes_grayscale_16bit_round_trip() {
    // A 2x2 solid mid-gray frame: decoding the PNG and finding 32768 pins both
    // the color type and the byte order of the samples.
    let rgba = vec![32768u16; 16];
    let bytes = export_png(rgba, 2, 2, CropMargins::default(), 0, None, Some(2835)).unwrap();

    let decoder = png::Decoder::new(Cursor::new(&bytes));
    let mut reader = decoder.read_info().expect("png header parses");
    assert_eq!(reader.info().color_type, png::ColorType::Grayscale);
    assert_eq!(reader.info().bit_depth, png::BitDepth::Sixteen);
    // A 72 dpi request is 2835 pixels per meter.
    let dims = reader
        .info()
        .pixel_dims
        .expect("a density request tags a pHYs chunk");
    assert_eq!(dims.xppu, 2835);
    assert_eq!(dims.yppu, 2835);
    assert_eq!(dims.unit, png::Unit::Meter);
    // The samples are always tagged as sRGB.
    assert_eq!(
        reader.info().srgb,
        Some(png::SrgbRenderingIntent::Perceptual)
    );
    let mut buf = vec![0; 8];
    reader.next_frame(&mut buf).unwrap();
    assert_eq!(buf, [0x80, 0, 0x80, 0, 0x80, 0, 0x80, 0]);
}

#[test]
fn png_export_carries_the_stamp() {
    let tiff = build_tiff("2024:05:09 18:24:36", None).unwrap();
    let bytes = export_png(vec![7u16; 64], 4, 4, CropMargins::default(), 0, Some(&tiff), None).unwrap();
    assert_eq!(
        raw_datetime_original(&bytes),
        Some("2024:05:09 18:24:36".to_owned())
    );
    let reader = png::Decoder::new(Cursor::new(&bytes)).read_info().unwrap();
    assert!(reader.info().pixel_dims.is_none());
}

#[test]
fn png_export_refuses_an_empty_frame() {
    let refusal = |width, height, rotation| {
        match export_png(Vec::new(), width, height, CropMargins::default(), rotation, None, None) {
            Err(FrameError::Export { message }) => message,
            _ => panic!("an empty frame was exported"),
        }
    };
    assert_eq!(refusal(0, 2, 0), "PNG header write failed: Zero width not allowed");
    assert_eq!(refusal(2, 0, 0), "PNG header write failed: Zero height not allowed");
    assert_eq!(refusal(0, 0, 0), "PNG header write failed: Zero width not allowed");
    // Turned, the missing side is the other one.
    assert_eq!(refusal(0, 2, 1), "PNG header write failed: Zero height not allowed");
}

#[test]
fn png_export_crops_and_turns() {
    // A 3x2 frame, of which the left column is cut off; the rest is turned a
    // quarter against the clock.
    let rgba: Vec<u16> = (0..6u16).flat_map(|p| [p, p, p, u16::MAX]).collect();
    let crop = CropMargins { left: 1, ..CropMargins::default() };
    let bytes = export_png(rgba, 3, 2, crop, 1, None, None).unwrap();
    let mut reader = png::Decoder::new(Cursor::new(&bytes)).read_info().unwrap();
    assert_eq!((reader.info().width, reader.info().height), (2, 2));
    let mut buf = vec![0; 8];
    reader.next_frame(&mut buf).unwrap();
    assert_eq!(buf, [0, 2, 0, 5, 0, 1, 0, 4]);
}

#[test]
fn jpeg_export_tags_the_jfif_density() {
    // The JFIF header reads: "JFIF\0", version 1.2, unit 01 (dots per inch),
    // and both densities.
    let rgba = vec![128u8; 16];
    let bytes = export_jpeg(rgba, 2, 2, CropMargins::default(), 0, None, options(ExportFormat::Jpeg, 72)).unwrap();
    let expected = [
        b'J', b'F', b'I', b'F', 0x00, 0x01, 0x02, 0x01, 0x00, 0x48, 0x00, 0x48,
    ];
    assert!(
        bytes.windows(expected.len()).any(|w| w == expected),
        "JFIF header must tag 72 dpi"
    );
}

#[test]
fn jpeg_export_without_a_density_tags_none() {
    let rgba = vec![128u8; 16];
    let bytes = export_jpeg(rgba, 2, 2, CropMargins::default(), 0, None, options(ExportFormat::Jpeg, 0)).unwrap();
    // No unit, only the shape of a pixel.
    let expected = [
        b'J', b'F', b'I', b'F', 0x00, 0x01, 0x02, 0x00, 0x00, 0x01, 0x00, 0x01,
    ];
    assert!(bytes.windows(expected.len()).any(|w| w == expected));
}

#[test]
fn jpeg_export_carries_the_stamp() {
    let tiff = build_tiff("2024:05:09 00:00:12", None).unwrap();
    let export = |tiff: Option<&[u8]>| {
        let options = options(ExportFormat::Jpeg, 300);
        export_jpeg(vec![90u8; 256], 8, 8, CropMargins::default(), 0, tiff, options).unwrap()
    };
    let plain = export(None);
    let stamped = export(Some(&tiff));
    assert_eq!(&plain[..3], &[0xff, 0xd8, 0xff]);
    assert_eq!(raw_datetime_original(&plain), None);
    assert_eq!(
        raw_datetime_original(&stamped),
        Some("2024:05:09 00:00:12".to_owned())
    );
    // The stamp is one segment behind the first marker; all else is the same.
    assert_eq!(stamped.len(), plain.len() + 4 + 6 + tiff.len());
    assert_eq!(&stamped[stamped.len() - (plain.len() - 2)..], &plain[2..]);
}

#[test]
fn jpeg_export_refuses_sides_that_its_header_cannot_hold() {
    let jpeg = options(ExportFormat::Jpeg, 72);
    assert_eq!(
        export_jpeg(Vec::new(), 0, 0, CropMargins::default(), 0, None, jpeg),
        Err(FrameError::Export { message: "JPEG encode failed".to_owned() })
    );
    assert_eq!(
        export_jpeg(vec![0; 280_000], 70_000, 1, CropMargins::default(), 0, None, jpeg),
        Err(FrameError::Export {
            message: "export dimensions exceed the JPEG format's limits".to_owned()
        })
    );
    // A crop can bring the sides within the limits.
    let crop = CropMargins { right: 69_990, ..CropMargins::default() };
    assert!(export_jpeg(vec![0; 280_000], 70_000, 1, crop, 1, None, jpeg).is_ok());
}

#[test]
fn stamps_need_a_start_date() {
    assert_eq!(export_stamp(None, 3, None), None);
    assert_eq!(export_stamp(Some("2024-02-30"), 3, None), None);
    assert_eq!(
        export_stamp(Some("2024-05-09"), 12, None),
        build_tiff("2024:05:09 00:00:12", None)
    );
    assert_eq!(
        export_stamp(Some("2024-05-09"), 0, Some("2024:06:01 10:00:00")),
        build_tiff("2024:05:09 00:00:00", Some("2024:06:01 10:00:00"))
    );
    assert_eq!(export_stamp(Some("2024-05-09"), 0, Some("yesterday")), None);
}

#[test]
fn frames_go_below_the_destination() {
    let hash = roll_hash("/films/roll");
    assert_eq!(
        export_target("/out", "a.cr2", 2, None, ExportFormat::Jpeg, &hash),
        "/out/a.jpg"
    );
    assert_eq!(
        export_target("/out", "a.cr2", 2, Some("2024-05-09"), ExportFormat::Png, "1a2b3c"),
        "/out/20240509-1a2b3c-03.png"
    );
    // A malformed date falls back to the plain name.
    assert_eq!(
        export_target("/out", "a.cr2", 2, Some("May 9"), ExportFormat::Png, "1a2b3c"),
        "/out/a.png"
    );
    assert_eq!(temp_export_path("/out/a.jpg"), "/out/a.jpg.tmp");
}

#[test]
fn roll_hashes_have_known_values() {
    assert_eq!(roll_hash(""), "1c9dc5");
    assert_eq!(roll_hash("a"), "0c292c");
}

#[test]
fn a_roll_has_one_hash_however_it_is_spelled() {
    let plain = roll_hash("/rolls/a");
    for spelling in ["/rolls/a/", "/rolls//a", "/rolls/./a", "//rolls/a/.", "/rolls/a///"] {
        assert_eq!(roll_hash(spelling), plain, "{spelling}");
    }
    assert_ne!(roll_hash("/rolls/b"), plain);
    assert_ne!(roll_hash("rolls/a"), plain);
}

#[test]
fn exported_files_are_never_taken_for_frames() {
    for format in [ExportFormat::Jpeg, ExportFormat::Png] {
        assert!(is_export_artifact(&export_name("img_0001.cr2", format)));
        assert!(is_export_artifact(
            &dated_export_name(format, "2024-05-09", 4, "1a2b3c").unwrap()
        ));
    }
}

#[test]
fn a_batch_counts_each_frame_once() {
    let mut tally = ExportTally::new(3);
    let keep = ExportOptions::for_preset(ExportPreset::Cloud);
    assert_eq!(tally.record(frame_outcome(keep, false, true)), (1, 3));
    assert_eq!(tally.record(frame_outcome(keep, true, true)), (2, 3));
    assert_eq!(tally.record(frame_outcome(keep, false, false)), (3, 3));
    assert_eq!((tally.ok, tally.skipped, tally.failed), (1, 1, 1));
    assert!(keeps_existing(keep, true));
    let replace = keep.with_overwrite(true);
    assert!(!keeps_existing(replace, true));
    assert_eq!(frame_outcome(replace, true, true), FrameOutcome::Written);
    assert_eq!(frame_outcome(replace, true, false), FrameOutcome::Failed);
    assert_eq!(frame_outcome(keep, true, false), FrameOutcome::Skipped);
}

#[test]
fn choices_list_the_presets_in_order() {
    let choices = format_choices();
    assert_eq!(choices[0], ("jpeg-90", ExportPreset::Cloud.choice_label()));
    assert_eq!(choices.len(), 3);
    for (key, _) in choices {
        assert!(!options_for_choice(key).overwrite);
    }
}

#[test]
fn sizes_bound_the_decode() {
    assert_eq!(ExportSize::LongEdge2048.long_edge(), 2048);
    assert_eq!(ExportFormat::Jpeg.ext(), "jpg");
    assert_eq!(ExportFormat::Png.ext(), "png");
}

#[test]
fn jpeg_encoder_smoke_writes_quality_90_soi() {
    let mut rgba = Vec::with_capacity(16 * 16 * 4);
    for y in 0..16u8 {
        for x in 0..16u8 {
            let gray = x * 16 ^ y * 16;
            rgba.extend_from_slice(&[gray, gray, gray, 255]);
        }
    }
    let options = ExportOptions::for_preset(ExportPreset::Cloud);
    assert_eq!(options.quality, 90);

    let bytes = export_jpeg(rgba, 16, 16, CropMargins::default(), 0, None, options).unwrap();

    // A JPEG stream always starts with the SOI marker FF D8 FF.
    assert!(bytes.len() > 4, "encoded stream has payload");
    assert_eq!(&bytes[..3], &[0xFF, 0xD8, 0xFF]);
}
