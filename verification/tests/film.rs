//! Film stocks, base strategies and the measurement of a scan's base.

use curvectrl::film::{
    measure_base, measure_base_channels, measure_plausible_base, resolve_base, BaseConfig, BaseMode,
    FilmPreset, MonoStock, FILM_CHOICES,
};
use curvectrl::single::{clamp_curve_power, clamp_ev, Single};

fn single(value: f32) -> Single {
    Single { bits: value.to_bits() }
}

fn float(value: Single) -> f32 {
    f32::from_bits(value.bits)
}

fn singles(values: &[f32]) -> Vec<Single> {
    values.iter().map(|v| single(*v)).collect()
}

fn active_stock() -> MonoStock {
    FilmPreset::Hp5Plus.stock().unwrap()
}

#[test]
fn measure_base_takes_a_high_percentile() {
    let mut samples = vec![0.9_f32; 100];
    samples[0] = 0.3;

    let base = measure_base(&singles(&samples)).unwrap();

    assert!((float(base) - 0.9).abs() < 1e-6);
}

#[test]
fn measure_base_needs_finite_samples() {
    assert_eq!(measure_base(&[]), None);
    assert_eq!(measure_base(&[single(f32::NAN)]), None);
}

#[test]
fn resolve_base_prefers_calibration_over_auto_and_preset() {
    let stock = active_stock();
    // A roll calibration is the truth regardless of auto or measured.
    assert_eq!(
        resolve_base(Some(single(0.71)), false, Some(single(0.9)), &stock),
        single(0.71)
    );
    assert_eq!(
        resolve_base(Some(single(0.71)), true, Some(single(0.9)), &stock),
        single(0.71)
    );
}

#[test]
fn resolve_base_auto_uses_a_plausible_measurement() {
    assert_eq!(
        resolve_base(None, true, Some(single(0.88)), &active_stock()),
        single(0.88)
    );
}

#[test]
fn resolve_base_auto_falls_back_on_implausible_or_missing_measurement() {
    let stock = active_stock();
    // A frame without measurable clear film (or an absent measurement) falls
    // back to the preset base in auto mode too.
    assert_eq!(
        resolve_base(None, true, Some(single(0.02)), &stock),
        stock.base
    );
    assert_eq!(resolve_base(None, true, None, &stock), stock.base);
}

#[test]
fn resolve_base_defaults_to_the_preset() {
    let stock = active_stock();
    // Preset-first: without calibration or auto, even a frame measurement is
    // ignored, and the stock's preset base is the truth.
    assert_eq!(
        resolve_base(None, false, Some(single(0.88)), &stock),
        stock.base
    );
    assert_eq!(resolve_base(None, false, None, &stock), stock.base);
}

#[test]
fn measure_base_channels_recovers_per_channel_bases() {
    // Clear film with uniform green excess, plus a dust outlier.
    let mut rgb = Vec::with_capacity(300);
    for _ in 0..100 {
        rgb.extend_from_slice(&[0.60_f32, 0.66, 0.54]);
    }
    rgb[..3].copy_from_slice(&[0.2, 0.2, 0.2]);

    let bases = measure_base_channels(&singles(&rgb)).unwrap();

    assert!((float(bases[0]) - 0.60).abs() < 1e-6);
    assert!((float(bases[1]) - 0.66).abs() < 1e-6);
    assert!((float(bases[2]) - 0.54).abs() < 1e-6);
}

#[test]
fn measure_base_channels_falls_back_on_implausible_channels() {
    // Blue has no measurable clear film in this frame.
    let mut rgb = vec![0.6_f32; 90];
    for pixel in rgb.chunks_exact_mut(3) {
        pixel[2] = 0.001;
    }

    let bases = measure_base_channels(&singles(&rgb)).unwrap();

    assert!((float(bases[0]) - 0.6).abs() < 1e-6);
    assert!((float(bases[1]) - 0.6).abs() < 1e-6);
    assert_eq!(bases[2], active_stock().base);
}

#[test]
fn film_preset_default_is_none() {
    assert_eq!(FilmPreset::default(), FilmPreset::Positive);
}

#[test]
fn film_preset_stock_mapping() {
    assert!(FilmPreset::Positive.stock().is_none());
    // Generic carries the neutral fallback profile; each stock its own.
    let profiles = [
        (FilmPreset::Generic, "Generic", 0.80_f32, 2.4_f32, 0.7_f32),
        (FilmPreset::Fomapan100, "Fomapan 100", 0.56, 2.0, 0.6),
        (FilmPreset::Fomapan400, "Fomapan 400", 0.50, 2.1, 0.62),
        (FilmPreset::Delta400, "Ilford Delta 400", 0.66, 2.3, 0.72),
        (FilmPreset::Fp4Plus, "Ilford FP4 Plus", 0.74, 2.2, 0.7),
        (FilmPreset::Hp5Plus, "Ilford HP5+", 0.82, 2.4, 0.7),
        (FilmPreset::Kentmere400, "Kentmere 400", 0.76, 2.3, 0.7),
        (FilmPreset::TMax400, "Kodak T-Max 400", 0.63, 2.5, 0.85),
        (FilmPreset::TriX, "Kodak Tri-X 400", 0.56, 2.6, 0.8),
    ];
    for (preset, name, base, d_max, gamma) in profiles {
        let stock = preset.stock().unwrap();
        assert_eq!(stock.name, name);
        assert_eq!(float(stock.base), base);
        assert_eq!(float(stock.d_max), d_max);
        assert_eq!(float(stock.gamma), gamma);
    }
}

#[test]
fn film_preset_inverted_marking() {
    assert!(!FilmPreset::Positive.is_inverted());
    for preset in FILM_CHOICES {
        assert_eq!(preset.is_inverted(), preset != FilmPreset::Positive);
    }
}

#[test]
fn film_preset_choice_key_round_trip() {
    for preset in FILM_CHOICES {
        assert_eq!(FilmPreset::from_key(preset.choice_key()), preset);
    }
    // The retired auto keys are no longer presets.
    assert_eq!(FilmPreset::from_key("auto-per-frame"), FilmPreset::Positive);
    assert_eq!(FilmPreset::from_key("auto-selected-frame"), FilmPreset::Positive);
    // Unknown keys resolve to the default, like a missing entry.
    assert_eq!(FilmPreset::from_key(""), FilmPreset::Positive);
    assert_eq!(FilmPreset::from_key("delta"), FilmPreset::Positive);
}

#[test]
fn film_preset_index_round_trip() {
    for preset in FILM_CHOICES {
        assert_eq!(FilmPreset::from_index(preset.index()), preset);
    }
    assert_eq!(FilmPreset::from_index(99), FilmPreset::Positive);
}

#[test]
fn film_preset_dropdown_order() {
    // The dropdown lists no inversion, Generic, then the stocks alphabetically
    // in `FILM_CHOICES` order: the exact ordering the index mapping must match.
    for (index, preset) in FILM_CHOICES.into_iter().enumerate() {
        assert_eq!(preset.index(), index);
        assert_eq!(FilmPreset::from_index(index), preset);
    }
}

#[test]
fn base_mode_default_is_preset() {
    assert_eq!(BaseMode::default(), BaseMode::Preset);
    assert!(!BaseMode::Preset.is_auto());
}

#[test]
fn base_mode_choice_key_round_trip() {
    for mode in [BaseMode::Preset, BaseMode::AutoPerFrame, BaseMode::AutoSelectedFrame] {
        assert_eq!(BaseMode::from_key(mode.choice_key()), mode);
    }
    // Unknown keys resolve to the default, like a missing entry.
    assert_eq!(BaseMode::from_key(""), BaseMode::Preset);
    assert_eq!(BaseMode::from_key("delta"), BaseMode::Preset);
}

#[test]
fn base_mode_index_round_trip() {
    for mode in [BaseMode::Preset, BaseMode::AutoPerFrame, BaseMode::AutoSelectedFrame] {
        assert_eq!(BaseMode::from_index(mode.index()), mode);
    }
    assert_eq!(BaseMode::from_index(99), BaseMode::Preset);
}

#[test]
fn base_mode_auto_marking() {
    assert!(!BaseMode::Preset.is_auto());
    assert!(BaseMode::AutoPerFrame.is_auto());
    assert!(BaseMode::AutoSelectedFrame.is_auto());
}

#[test]
fn measurement_ignores_the_order_of_the_samples() {
    let mut samples: Vec<f32> = (0..200).map(|i| i as f32 / 200.0).collect();
    let forward = measure_base(&singles(&samples)).unwrap();
    samples.reverse();
    assert_eq!(measure_base(&singles(&samples)).unwrap(), forward);
    assert_eq!(float(forward), 0.95);
    samples.push(f32::INFINITY);
    samples.push(f32::NAN);
    assert_eq!(measure_base(&singles(&samples)).unwrap(), forward);
}

#[test]
fn implausible_measurements_count_as_none() {
    assert_eq!(measure_plausible_base(&singles(&[0.02; 10])), None);
    assert_eq!(measure_plausible_base(&[]), None);
    assert_eq!(measure_plausible_base(&singles(&[0.1; 10])), Some(single(0.1)));
    assert_eq!(measure_plausible_base(&singles(&[0.6; 10])), Some(single(0.6)));
}

#[test]
fn channels_without_any_finite_sample_measure_nothing() {
    assert_eq!(measure_base_channels(&[]), None);
    assert_eq!(measure_base_channels(&singles(&[f32::NAN; 6])), None);
}

#[test]
fn a_configuration_resolves_like_its_parts() {
    let stock = active_stock();
    let config = BaseConfig { calibrated: None, auto: true };
    assert_eq!(config.resolve(Some(single(0.88)), &stock), single(0.88));
    assert_eq!(BaseConfig::default().resolve(Some(single(0.88)), &stock), stock.base);
}

#[test]
fn clamp_ev_bounds_to_the_slider_range() {
    assert_eq!(float(clamp_ev(single(-99.0))), -3.0);
    assert_eq!(float(clamp_ev(single(99.0))), 4.0);
    assert_eq!(float(clamp_ev(single(0.5))), 0.5);
}

#[test]
fn clamp_curve_power_bounds_to_the_slider_range() {
    assert_eq!(float(clamp_curve_power(single(0.0))), 0.25);
    assert_eq!(float(clamp_curve_power(single(9.0))), 4.0);
    assert_eq!(float(clamp_curve_power(single(1.0))), 1.0);
}

#[test]
fn numbers_compare_as_floats_do() {
    let values = [
        f32::NEG_INFINITY,
        -2.5,
        -1.0e-40,
        -0.0,
        0.0,
        1.0e-40,
        0.1,
        3.0,
        f32::INFINITY,
        f32::NAN,
    ];
    for a in values {
        for b in values {
            assert_eq!(single(a).less(single(b)), a < b, "{a} < {b}");
            assert_eq!(single(a).at_least(single(b)), a >= b, "{a} >= {b}");
        }
        assert_eq!(single(a).is_finite(), a.is_finite());
    }
}

#[test]
fn ranks_are_the_total_order() {
    let values = [f32::NEG_INFINITY, -1.0, -0.0, 0.0, 1.0, f32::INFINITY, f32::NAN];
    for a in values {
        assert_eq!(Single::of_rank(single(a).total_rank()), single(a));
        for b in values {
            assert_eq!(
                single(a).total_rank() < single(b).total_rank(),
                a.total_cmp(&b).is_lt()
            );
        }
    }
}
