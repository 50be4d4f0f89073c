//! Manifest files: what is written is read back, and what older files lack is
//! untouched.

use curvectrl::edit_manifest::{
    load_roll_manifest, CropMargins, EditFields, FileEntry, ManifestFile, ManifestRead,
    RollManifest, ToneEdit,
};
use curvectrl::film::{BaseMode, FilmPreset};
use curvectrl::single::Single;
use toml::{Table, Value};

fn single(value: f32) -> Single {
    Single { bits: value.to_bits() }
}

fn float(value: Single) -> Value {
    Value::Float(f64::from(f32::from_bits(value.bits)))
}

fn text_of(table: &Table, key: &str) -> Option<String> {
    table.get(key).map(|value| value.as_str().expect("a text").to_owned())
}

fn number_of(table: &Table, key: &str) -> Option<Single> {
    table.get(key).map(|value| single(value.as_float().expect("a number") as f32))
}

fn margin_of(table: &Table, key: &str) -> u32 {
    table[key].as_integer().expect("a margin") as u32
}

fn crop_of(table: &Table) -> CropMargins {
    CropMargins {
        top: margin_of(table, "top"),
        right: margin_of(table, "right"),
        bottom: margin_of(table, "bottom"),
        left: margin_of(table, "left"),
    }
}

fn fields_of(table: &Table) -> EditFields {
    EditFields {
        exposure_ev: number_of(table, "exposure_ev"),
        curve_contrast: number_of(table, "curve_contrast"),
        curve_rolloff: number_of(table, "curve_rolloff"),
        curve_shadows: number_of(table, "curve_shadows"),
        crop: table.get("crop").map(|crop| crop_of(crop.as_table().expect("a table"))),
        rotation: table.get("rotation").map(|turns| turns.as_integer().expect("turns") as u8),
    }
}

/// What comes of reading a text.
fn load(text: &str) -> RollManifest {
    let read = match toml::from_str::<Table>(text) {
        Err(_) => ManifestRead::Malformed,
        Ok(table) => {
            let edits = match table.get("edits") {
                Some(edits) => edits
                    .as_table()
                    .expect("a table")
                    .iter()
                    .map(|(name, edit)| FileEntry {
                        name: name.clone(),
                        fields: fields_of(edit.as_table().expect("a table")),
                    })
                    .collect(),
                None => Vec::new(),
            };
            let file = ManifestFile {
                version: table["version"].as_integer().expect("a version") as u32,
                name: text_of(&table, "name"),
                edits,
                preset: text_of(&table, "preset"),
                base_mode: text_of(&table, "base_mode"),
                base: number_of(&table, "base"),
                calibration_frame: text_of(&table, "calibration_frame"),
                start_date: text_of(&table, "start_date"),
                end_date: text_of(&table, "end_date"),
            };
            ManifestRead::Parsed { file, text: text.to_owned() }
        }
    };
    load_roll_manifest(read).0
}

fn put<T>(table: &mut Table, key: &str, value: Option<T>, make: impl Fn(T) -> Value) {
    if let Some(value) = value {
        table.insert(key.to_owned(), make(value));
    }
}

/// The text that a manifest is written as.
fn save(manifest: &RollManifest) -> String {
    let file = ManifestFile::written(manifest);
    let mut edits = Table::new();
    for entry in file.edits {
        let mut edit = Table::new();
        put(&mut edit, "exposure_ev", entry.fields.exposure_ev, float);
        put(&mut edit, "curve_contrast", entry.fields.curve_contrast, float);
        put(&mut edit, "curve_rolloff", entry.fields.curve_rolloff, float);
        put(&mut edit, "curve_shadows", entry.fields.curve_shadows, float);
        put(&mut edit, "rotation", entry.fields.rotation, |turns| Value::Integer(turns.into()));
        put(&mut edit, "crop", entry.fields.crop, |crop| {
            let mut margins = Table::new();
            for (key, margin) in [
                ("top", crop.top),
                ("right", crop.right),
                ("bottom", crop.bottom),
                ("left", crop.left),
            ] {
                margins.insert(key.to_owned(), Value::Integer(margin.into()));
            }
            Value::Table(margins)
        });
        edits.insert(entry.name, Value::Table(edit));
    }
    let mut table = Table::new();
    table.insert("version".to_owned(), Value::Integer(file.version.into()));
    put(&mut table, "name", file.name, Value::String);
    put(&mut table, "preset", file.preset, Value::String);
    put(&mut table, "base_mode", file.base_mode, Value::String);
    put(&mut table, "base", file.base, float);
    put(&mut table, "calibration_frame", file.calibration_frame, Value::String);
    put(&mut table, "start_date", file.start_date, Value::String);
    put(&mut table, "end_date", file.end_date, Value::String);
    table.insert("edits".to_owned(), Value::Table(edits));
    toml::to_string_pretty(&table).expect("a document")
}

#[test]
fn round_trip_preserves_edits_and_name() {
    let mut manifest = RollManifest::default();
    manifest.set_exposure("IMG_0001.DNG", single(0.42));
    manifest.set_exposure("IMG_0002.RAW", single(-0.75));
    manifest.set_curve("IMG_0001.DNG", single(0.85), single(1.15), single(1.1));
    manifest.set_rotation("IMG_0001.DNG", 1);

    let loaded = load(&save(&manifest));

    assert_eq!(loaded, manifest);
    assert_eq!(loaded.tone("IMG_0001.DNG").exposure_ev, single(0.42));
    assert_eq!(loaded.tone("IMG_0002.RAW").exposure_ev, single(-0.75));
    let tone_one = loaded.tone("IMG_0001.DNG");
    assert_eq!(tone_one.curve_contrast, single(0.85));
    assert_eq!(tone_one.curve_rolloff, single(1.15));
    assert_eq!(tone_one.curve_shadows, single(1.1));
    // The second image carried only an exposure edit: curve identity.
    assert_eq!(
        loaded.tone("IMG_0002.RAW"),
        ToneEdit { exposure_ev: single(-0.75), ..ToneEdit::identity() }
    );
}

#[test]
fn missing_manifest_is_default() {
    let (loaded, report) = load_roll_manifest(ManifestRead::Missing);
    assert!(!report);
    assert_eq!(loaded, RollManifest::default());
    assert_eq!(loaded.version, 8);
}

#[test]
fn dates_round_trip() {
    let mut manifest = RollManifest::default();
    manifest.set_dates(Some("2024-05-09".to_owned()), Some("2024-05-12".to_owned()));

    let loaded = load(&save(&manifest));

    assert_eq!(loaded.start_date(), Some("2024-05-09"));
    assert_eq!(loaded.end_date(), Some("2024-05-12"));
}

#[test]
fn name_round_trips_and_clears() {
    let mut manifest = RollManifest::default();
    assert_eq!(manifest.name(), None);

    manifest.set_name(Some("Rollerskates".to_owned()));
    let mut loaded = load(&save(&manifest));
    assert_eq!(loaded.name(), Some("Rollerskates"));

    // Clearing the label writes it back to none, so a renamed roll reverts to
    // its directory leaf.
    loaded.set_name(None);
    assert_eq!(load(&save(&loaded)).name(), None);
}

#[test]
fn undated_default_round_trip_stays_clean() {
    let loaded = load(&save(&RollManifest::default()));
    assert_eq!(loaded.start_date(), None);
    assert_eq!(loaded.end_date(), None);
}

#[test]
fn malformed_manifest_falls_back_to_default() {
    let loaded = load("[edits");
    assert_eq!(loaded, RollManifest::default());
}

#[test]
fn broken_files_are_reported() {
    assert!(load_roll_manifest(ManifestRead::Unreadable).1);
    assert!(load_roll_manifest(ManifestRead::Malformed).1);
}

#[test]
fn unicode_file_names_round_trip() {
    let mut manifest = RollManifest::default();
    manifest.set_exposure("Rolle 1 IMG_10.DNG", single(0.3));
    let loaded = load(&save(&manifest));
    assert_eq!(loaded.tone("Rolle 1 IMG_10.DNG").exposure_ev, single(0.3));
}

#[test]
fn unknown_fields_and_tables_are_tolerated() {
    let loaded =
        load("version = 1\nfortune = 42\n\n[edits.\"a.DNG\"]\nexposure_ev = 1.5\n");
    assert_eq!(loaded.tone("a.DNG").exposure_ev, single(1.5));
    // The version on disk is preserved: an older manifest is read as one.
    assert_eq!(loaded.version, 1);
}

#[test]
fn edit_without_exposure_field_is_identity() {
    let loaded = load("version = 1\n\n[edits.\"a.DNG\"]\n");
    assert_eq!(loaded.tone("a.DNG").exposure_ev, single(0.7));
}

#[test]
fn edit_without_curve_fields_is_identity_curve() {
    // A manifest that predates the tone curve must load the curve as identity,
    // so exposure-only edits never pick up a phantom curve.
    let loaded = load("version = 1\n\n[edits.\"a.DNG\"]\nexposure_ev = 0.75\n");
    let tone = loaded.tone("a.DNG");
    assert_eq!(tone.exposure_ev, single(0.75));
    assert_eq!(tone.curve_contrast, single(1.0));
    assert_eq!(tone.curve_rolloff, single(1.0));
    assert_eq!(tone.curve_shadows, single(1.0));
}

#[test]
fn curve_fields_round_trip() {
    let mut manifest = RollManifest::default();
    manifest.set_exposure("IMG_0001.DNG", single(0.42));
    manifest.set_curve("IMG_0001.DNG", single(0.8), single(1.2), single(1.05));

    let loaded = load(&save(&manifest));

    assert_eq!(loaded, manifest);
    let tone = loaded.tone("IMG_0001.DNG");
    assert_eq!(tone.curve_contrast, single(0.8));
    assert_eq!(tone.curve_rolloff, single(1.2));
    assert_eq!(tone.curve_shadows, single(1.05));
    // Exposure survives alongside the curve on the same edit.
    assert_eq!(tone.exposure_ev, single(0.42));
}

#[test]
fn crop_round_trips_and_defaults_to_zero() {
    let mut manifest = RollManifest::default();
    let crop = CropMargins { top: 10, right: 20, bottom: 30, left: 40 };
    manifest.set_crop("IMG_0001.DNG", crop);

    let loaded = load(&save(&manifest));

    assert_eq!(loaded, manifest);
    assert_eq!(loaded.crop("IMG_0001.DNG"), crop);
    // An untouched file has no crop.
    assert_eq!(loaded.crop("IMG_0002.DNG"), CropMargins::default());
}

#[test]
fn legacy_manifest_without_crop_loads_zero_margins() {
    let loaded = load("version = 1\n\n[edits.\"a.DNG\"]\nexposure_ev = 0.75\n");
    assert_eq!(loaded.crop("a.DNG"), CropMargins::default());
    // And the surviving tone fields still load.
    assert_eq!(loaded.tone("a.DNG").exposure_ev, single(0.75));
}

#[test]
fn rotation_round_trips_and_defaults_to_zero() {
    let mut manifest = RollManifest::default();
    manifest.set_rotation("IMG_0001.DNG", 2);

    let loaded = load(&save(&manifest));

    assert_eq!(loaded, manifest);
    assert_eq!(loaded.rotation("IMG_0001.DNG"), 2);
    // An untouched file has no user rotation.
    assert_eq!(loaded.rotation("IMG_0002.DNG"), 0);
}

#[test]
fn legacy_manifest_without_rotation_loads_zero() {
    let loaded = load("version = 4\n\n[edits.\"a.DNG\"]\nexposure_ev = 0.75\n");
    assert_eq!(loaded.rotation("a.DNG"), 0);
    // And the surviving tone fields still load.
    assert_eq!(loaded.tone("a.DNG").exposure_ev, single(0.75));
}

#[test]
fn preset_absent_loads_default_none() {
    // A manifest predating the preset field (or a default roll) renders as a
    // non-inverted scan.
    let mut manifest = RollManifest::default();
    assert_eq!(manifest.preset(), FilmPreset::Positive);

    manifest.set_exposure("a.DNG", single(0.5));
    assert_eq!(manifest.preset(), FilmPreset::Positive);

    assert_eq!(load("version = 5\n").preset(), FilmPreset::Positive);
}

#[test]
fn preset_round_trips_non_default_and_coexists_with_edits() {
    let mut manifest = RollManifest::default();
    manifest.set_preset(FilmPreset::Hp5Plus);
    manifest.set_exposure("IMG_0001.DNG", single(0.42));

    let loaded = load(&save(&manifest));

    assert_eq!(loaded.preset(), FilmPreset::Hp5Plus);
    assert_eq!(loaded.tone("IMG_0001.DNG").exposure_ev, single(0.42));
}

#[test]
fn unknown_preset_key_resolves_to_default() {
    let loaded = load("version = 5\npreset = \"delta\"\n");
    assert_eq!(loaded.preset(), FilmPreset::Positive);
}

#[test]
fn preset_key_string_loads_verbatim() {
    let loaded = load("version = 5\npreset = \"hp5\"\n");
    assert_eq!(loaded.preset(), FilmPreset::Hp5Plus);
}

#[test]
fn calibrated_base_round_trips() {
    let mut manifest = RollManifest::default();
    manifest.set_calibrated_base(single(0.71));
    let loaded = load(&save(&manifest));
    assert_eq!(loaded, manifest);
    assert_eq!(loaded.calibrated_base(), Some(single(0.71)));
}

#[test]
fn equal_manifests_record_the_same_in_any_order() {
    let mut one = RollManifest::default();
    one.set_exposure("a.DNG", single(0.5));
    one.set_rotation("b.DNG", 1);
    let mut other = RollManifest::default();
    other.set_rotation("b.DNG", 1);
    assert_ne!(one, other);
    other.set_exposure("a.DNG", single(0.5));
    assert_eq!(one, other);
    other.set_exposure("a.DNG", single(0.6));
    assert_ne!(one, other);
    other.set_exposure("a.DNG", single(0.5));
    other.set_name(Some("Alps".to_owned()));
    assert_ne!(one, other);
}

#[test]
fn calibration_frame_round_trips_with_its_base() {
    let mut manifest = RollManifest::default();
    manifest.set_base_mode(BaseMode::AutoSelectedFrame);
    manifest.set_calibration_frame("IMG_0007.DNG");
    manifest.set_calibrated_base(single(0.63));

    let loaded = load(&save(&manifest));

    assert_eq!(loaded.base_mode(), BaseMode::AutoSelectedFrame);
    assert_eq!(loaded.calibration_frame(), Some("IMG_0007.DNG"));
    assert_eq!(loaded.calibrated_base(), Some(single(0.63)));
}

#[test]
fn legacy_manifest_without_base_loads_preset_default() {
    let loaded = load("version = 5\n\n[edits.\"a.DNG\"]\nexposure_ev = 0.75\n");
    assert_eq!(loaded.version, 5, "older schema versions load verbatim");
    assert_eq!(loaded.calibrated_base(), None);
    assert_eq!(loaded.calibration_frame(), None);
    assert_eq!(loaded.tone("a.DNG").exposure_ev, single(0.75));
}

#[test]
fn legacy_base_auto_migrates_to_the_auto_per_frame_preset() {
    // A manifest of the older format with its per-frame opt-in.
    let old = "version = 7\npreset = \"hp5\"\nbase_auto = true\n";
    let loaded = load(old);
    assert_eq!(loaded.base_mode(), BaseMode::AutoPerFrame);
    assert_eq!(loaded.base_mode.as_deref(), Some("auto-per-frame"));
    // The current format has no such flag.
    assert_eq!(load(&old.replace('7', "8")).base_mode(), BaseMode::Preset);
    assert_eq!(load("version = 7\nbase_auto = false\n").base_mode(), BaseMode::Preset);
    assert_eq!(load("version = 7\nbase_auto = \"yes\"\n").base_mode(), BaseMode::Preset);
}

#[test]
fn legacy_manifest_without_auto_keeps_its_preset() {
    let loaded = load("version = 7\npreset = \"hp5\"\nbase = 0.71\n");
    assert_eq!(loaded.preset(), FilmPreset::Hp5Plus);
    assert_eq!(loaded.base_mode(), BaseMode::Preset);
    assert_eq!(loaded.calibrated_base(), Some(single(0.71)));
}

#[test]
fn auto_preset_keys_round_trip() {
    let mut manifest = RollManifest::default();
    manifest.set_base_mode(BaseMode::AutoPerFrame);

    let loaded = load(&save(&manifest));

    assert_eq!(loaded.base_mode(), BaseMode::AutoPerFrame);
    assert_eq!(loaded.base_mode.as_deref(), Some("auto-per-frame"));
}

#[test]
fn base_calibration_coexists_with_preset_and_edits() {
    let mut manifest = RollManifest::default();
    manifest.set_base_mode(BaseMode::AutoSelectedFrame);
    manifest.set_calibrated_base(single(0.7));
    manifest.set_exposure("IMG_0001.DNG", single(0.42));

    let loaded = load(&save(&manifest));

    assert_eq!(loaded.base_mode(), BaseMode::AutoSelectedFrame);
    assert_eq!(loaded.calibrated_base(), Some(single(0.7)));
    assert_eq!(loaded.tone("IMG_0001.DNG").exposure_ev, single(0.42));
}

#[test]
fn of_repeated_entries_the_first_counts() {
    let entry = |ev: f32| FileEntry {
        name: "a.DNG".to_owned(),
        fields: EditFields {
            exposure_ev: Some(single(ev)),
            curve_contrast: None,
            curve_rolloff: None,
            curve_shadows: None,
            crop: None,
            rotation: None,
        },
    };
    let mut file = ManifestFile::written(&RollManifest::default());
    file.edits = vec![entry(0.5), entry(1.0)];
    let loaded = file.read();
    assert_eq!(loaded.edits.len(), 1);
    assert_eq!(loaded.tone("a.DNG").exposure_ev, single(0.5));
}
