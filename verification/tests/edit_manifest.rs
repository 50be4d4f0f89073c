//! Roll manifests: the edits of each file, and the roll's own records.

use curvectrl::calibration::{designate_default, drop_calibration};
use curvectrl::edit_manifest::{
    manifest_path, manifest_temp_path, migrate_flag, reconcile, CropMargins, RollManifest, ToneEdit,
};
use curvectrl::film::{BaseConfig, BaseMode, FilmPreset};
use curvectrl::single::Single;

fn single(value: f32) -> Single {
    Single { bits: value.to_bits() }
}

#[test]
fn set_curve_updates_in_place() {
    let mut manifest = RollManifest::default();
    manifest.set_curve("a.DNG", single(0.9), single(1.1), single(1.0));
    manifest.set_curve("a.DNG", single(1.0), single(1.0), single(1.0));

    assert_eq!(manifest.edits.len(), 1);
    let tone = manifest.tone("a.DNG");
    assert_eq!(tone.curve_contrast, single(1.0));
    assert_eq!(tone.curve_rolloff, single(1.0));
    assert_eq!(tone.curve_shadows, single(1.0));
}

#[test]
fn curve_and_exposure_coexist_on_one_edit() {
    // A file edited through both APIs keeps all values on one entry, and
    // a bare exposure edit never disturbs the curve defaults (or vice
    // versa).
    let mut manifest = RollManifest::default();
    manifest.set_exposure("a.DNG", single(0.3));
    assert_eq!(manifest.tone("a.DNG").curve_contrast, single(1.0));

    manifest.set_curve("a.DNG", single(1.2), single(0.9), single(1.1));
    let tone = manifest.tone("a.DNG");
    assert_eq!(tone.exposure_ev, single(0.3));
    assert_eq!(manifest.edits.len(), 1);
}

#[test]
fn tone_merges_exposure_and_curve() {
    let mut manifest = RollManifest::default();
    manifest.set_exposure("a.DNG", single(-0.5));
    manifest.set_curve("a.DNG", single(1.2), single(0.8), single(0.9));

    let tone = manifest.tone("a.DNG");
    assert_eq!(tone.exposure_ev, single(-0.5));
    assert_eq!(tone.curve_contrast, single(1.2));
    assert_eq!(tone.curve_rolloff, single(0.8));
    assert_eq!(tone.curve_shadows, single(0.9));
}

#[test]
fn set_tone_replaces_the_full_edit_in_one_step() {
    let mut manifest = RollManifest::default();
    manifest.set_exposure("a.DNG", single(0.3));
    manifest.set_curve("a.DNG", single(1.2), single(0.9), single(1.1));

    // A copy/paste replaces every field at once.
    manifest.set_tone(
        "a.DNG",
        ToneEdit {
            exposure_ev: single(-1.2),
            curve_contrast: single(0.7),
            curve_rolloff: single(1.4),
            curve_shadows: single(1.3),
        },
    );

    let tone = manifest.tone("a.DNG");
    assert_eq!(tone.exposure_ev, single(-1.2));
    assert_eq!(tone.curve_contrast, single(0.7));
    assert_eq!(tone.curve_rolloff, single(1.4));
    assert_eq!(tone.curve_shadows, single(1.3));
    assert_eq!(manifest.edits.len(), 1);
}

#[test]
fn set_tone_creates_an_entry_on_a_fresh_file() {
    let mut manifest = RollManifest::default();
    manifest.set_tone(
        "b.DNG",
        ToneEdit {
            exposure_ev: single(0.4),
            curve_contrast: single(1.1),
            curve_rolloff: single(0.9),
            curve_shadows: single(1.0),
        },
    );
    assert_eq!(manifest.tone("b.DNG").exposure_ev, single(0.4));
}

#[test]
fn curve_of_unknown_file_is_identity() {
    let manifest = RollManifest::default();
    assert_eq!(manifest.tone("missing.DNG"), ToneEdit::identity());
}

#[test]
fn reconcile_drops_stale_entries() {
    let mut manifest = RollManifest::default();
    manifest.set_exposure("gone.DNG", single(0.3));
    manifest.set_exposure("kept.DNG", single(-0.4));

    reconcile(&mut manifest, &["kept.DNG".to_owned()]);

    assert_eq!(manifest.tone("gone.DNG").exposure_ev, ToneEdit::identity().exposure_ev);
    assert_eq!(manifest.tone("kept.DNG").exposure_ev, single(-0.4));
    assert!(manifest.edits.iter().all(|e| e.name != "gone.DNG"));
}

#[test]
fn set_exposure_updates_in_place() {
    let mut manifest = RollManifest::default();
    manifest.set_exposure("a.DNG", single(0.5));
    manifest.set_exposure("a.DNG", single(-1.25));

    assert_eq!(manifest.edits.len(), 1);
    assert_eq!(manifest.tone("a.DNG").exposure_ev, single(-1.25));
}

#[test]
fn crop_coexists_with_tone_edits_on_one_entry() {
    let mut manifest = RollManifest::default();
    manifest.set_exposure("a.DNG", single(0.3));
    manifest.set_curve("a.DNG", single(1.2), single(0.9), single(1.1));
    let crop = CropMargins {
        top: 5,
        right: 6,
        bottom: 7,
        left: 8,
    };
    manifest.set_crop("a.DNG", crop);

    assert_eq!(manifest.edits.len(), 1, "all edits on one entry");
    assert_eq!(manifest.crop("a.DNG"), crop);
    let tone = manifest.tone("a.DNG");
    assert_eq!(tone.exposure_ev, single(0.3));
    assert_eq!(tone.curve_contrast, single(1.2));
}

#[test]
fn rotation_coexists_with_tone_and_crop_on_one_entry() {
    let mut manifest = RollManifest::default();
    manifest.set_exposure("a.DNG", single(0.3));
    manifest.set_curve("a.DNG", single(1.2), single(0.9), single(1.1));
    let crop = CropMargins {
        top: 5,
        right: 6,
        bottom: 7,
        left: 8,
    };
    manifest.set_crop("a.DNG", crop);
    manifest.set_rotation("a.DNG", 3);

    assert_eq!(manifest.edits.len(), 1, "all edits on one entry");
    assert_eq!(manifest.rotation("a.DNG"), 3);
    assert_eq!(manifest.crop("a.DNG"), crop);
    let tone = manifest.tone("a.DNG");
    assert_eq!(tone.exposure_ev, single(0.3));
    assert_eq!(tone.curve_contrast, single(1.2));
}

#[test]
fn set_rotation_updates_in_place_and_creates_on_fresh_file() {
    let mut manifest = RollManifest::default();
    manifest.set_rotation("a.DNG", 0);
    assert_eq!(manifest.rotation("a.DNG"), 0);

    manifest.set_rotation("a.DNG", 1);
    manifest.set_rotation("a.DNG", 2);
    assert_eq!(manifest.edits.len(), 1);
    assert_eq!(manifest.rotation("a.DNG"), 2);
    // The fresh-file branch keeps the tone identities.
    assert_eq!(manifest.tone("a.DNG"), ToneEdit::identity());
}

#[test]
fn paste_does_not_clobber_an_existing_crop_or_rotation() {
    let mut manifest = RollManifest::default();
    let crop = CropMargins {
        top: 5,
        right: 6,
        bottom: 7,
        left: 8,
    };
    manifest.set_crop("a.DNG", crop);
    manifest.set_rotation("a.DNG", 3);
    manifest.set_exposure("a.DNG", single(0.3));

    // Copy/paste writes a fresh ToneEdit onto the same file; the crop and
    // the rotation must survive untouched (neither is part of the
    // copy/paste payload).
    manifest.set_tone(
        "a.DNG",
        ToneEdit {
            exposure_ev: single(-1.2),
            curve_contrast: single(0.7),
            curve_rolloff: single(1.4),
            curve_shadows: single(1.3),
        },
    );

    assert_eq!(manifest.crop("a.DNG"), crop, "paste keeps the target's crop");
    assert_eq!(manifest.rotation("a.DNG"), 3, "paste keeps the target's rotation");
    assert_eq!(manifest.tone("a.DNG").exposure_ev, single(-1.2));
}

#[test]
fn set_crop_updates_in_place_and_creates_on_fresh_file() {
    let mut manifest = RollManifest::default();
    manifest.set_crop("a.DNG", CropMargins::default());
    assert_eq!(manifest.crop("a.DNG"), CropMargins::default());

    let crop = CropMargins {
        top: 2,
        right: 2,
        bottom: 2,
        left: 2,
    };
    manifest.set_crop("a.DNG", crop);
    assert_eq!(manifest.edits.len(), 1);
    assert_eq!(manifest.crop("a.DNG"), crop);
}

#[test]
fn set_preset_default_clears_the_stored_key() {
    let mut manifest = RollManifest::default();
    manifest.set_preset(FilmPreset::Hp5Plus);
    assert_eq!(manifest.preset(), FilmPreset::Hp5Plus);
    assert_eq!(manifest.preset.as_deref(), Some("hp5"));

    // Switching back to the default clears the key so a save omits it.
    manifest.set_preset(FilmPreset::Positive);
    assert_eq!(manifest.preset(), FilmPreset::Positive);
    assert_eq!(manifest.preset, None);
}

#[test]
fn preset_first_default_has_no_base_recording() {
    // Preset-first: a fresh roll records neither a calibration frame nor a
    // base.
    let manifest = RollManifest::default();
    assert_eq!(manifest.calibrated_base(), None);
    assert_eq!(manifest.calibration_frame(), None);
}

#[test]
fn clear_calibration_drops_frame_and_base() {
    let mut manifest = RollManifest::default();
    manifest.set_calibration_frame("IMG_0007.DNG");
    manifest.set_calibrated_base(single(0.63));
    manifest.clear_calibration();
    assert_eq!(manifest.calibration_frame(), None);
    assert_eq!(manifest.calibrated_base(), None);
}

#[test]
fn base_config_maps_the_preset_strategy() {
    // Stock presets resolve preset-first, per-frame auto measures every frame,
    // and the auto-selected-frame strategy pins the roll to its measured base.
    let mut manifest = RollManifest::default();
    assert_eq!(
        manifest.base_config(),
        BaseConfig { calibrated: None, auto: false }
    );

    manifest.set_base_mode(BaseMode::AutoPerFrame);
    assert_eq!(
        manifest.base_config(),
        BaseConfig { calibrated: None, auto: true }
    );

    manifest.set_base_mode(BaseMode::AutoSelectedFrame);
    manifest.set_calibrated_base(single(0.63));
    assert_eq!(
        manifest.base_config(),
        BaseConfig { calibrated: Some(single(0.63)), auto: false }
    );

    manifest.set_base_mode(BaseMode::Preset);
    manifest.set_preset(FilmPreset::Hp5Plus);
    assert_eq!(
        manifest.base_config(),
        BaseConfig { calibrated: None, auto: false }
    );
}

#[test]
fn migration_only_touches_older_manifests() {
    let mut manifest = RollManifest { version: 7, ..RollManifest::default() };
    migrate_flag(&mut manifest, Some(false));
    assert_eq!(manifest.base_mode(), BaseMode::Preset);
    migrate_flag(&mut manifest, Some(true));
    assert_eq!(manifest.base_mode(), BaseMode::AutoPerFrame);
    let mut current = RollManifest::default();
    migrate_flag(&mut current, Some(true));
    assert_eq!(current.base_mode(), BaseMode::Preset);
}

#[test]
fn manifests_lie_hidden_in_their_roll() {
    assert_eq!(manifest_path("/films/a"), "/films/a/.film-roll.toml");
    assert_eq!(manifest_temp_path("/films/a"), "/films/a/.film-roll.toml.tmp");
}

#[test]
fn a_default_calibration_frame_never_replaces_one() {
    let mut manifest = RollManifest::default();
    assert!(designate_default(&mut manifest, "a.DNG"));
    assert!(!designate_default(&mut manifest, "b.DNG"));
    assert_eq!(manifest.calibration_frame(), Some("a.DNG"));
    manifest.set_calibrated_base(single(0.6));
    assert!(drop_calibration(&mut manifest));
    assert_eq!(manifest.calibration_frame(), None);
    assert_eq!(manifest.calibrated_base(), None);
    assert!(!drop_calibration(&mut manifest));
}

#[test]
fn copies_record_the_same() {
    let mut manifest = RollManifest::default();
    manifest.set_exposure("a.DNG", single(0.5));
    manifest.set_preset(FilmPreset::TriX);
    manifest.set_name(Some("Chicago".to_owned()));
    let copy = manifest.clone();
    assert_eq!(copy.tone("a.DNG"), manifest.tone("a.DNG"));
    assert_eq!(copy.preset(), FilmPreset::TriX);
    assert_eq!(copy.name(), Some("Chicago"));
}

#[test]
fn unknown_keys_mean_the_defaults() {
    let manifest = RollManifest {
        preset: Some("delta".to_owned()),
        base_mode: Some("sometimes".to_owned()),
        ..RollManifest::default()
    };
    assert_eq!(manifest.preset(), FilmPreset::Positive);
    assert_eq!(manifest.base_mode(), BaseMode::Preset);
}
