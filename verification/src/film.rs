//! Film stock profiles, base strategies, and the measurement of a scan's
//! clear-film base.

use vstd::prelude::*;
use crate::single::Single;
use crate::text;

verus! {

/// A developed monochrome film stock's scan-response profile.
#[derive(Clone, Copy, Debug)]
pub struct MonoStock {
    /// Display name of the stock.
    pub name: &'static str,
    /// Scanner-linear transmission of unexposed film base and fog: the
    /// positive's black point.
    pub base: Single,
    /// Usable density range of the film above the base.
    pub d_max: Single,
    /// Tone-curve exponent applied to normalized density.
    pub gamma: Single,
}

/// The film-inversion preset a roll's frames are rendered with: which
/// [`MonoStock`] profile inverts the negatives, or none for already-positive
/// scans that must not be inverted.
#[derive(Clone, Copy, Debug, PartialEq, Eq, Hash, Structural)]
pub enum FilmPreset {
    /// No inversion: the scan is treated as an already-positive image.
    Positive,
    /// Invert with the generic B&W profile, the fallback for films not listed.
    Generic,
    /// Invert with the Fomapan 100 profile.
    Fomapan100,
    /// Invert with the Fomapan 400 profile.
    Fomapan400,
    /// Invert with the Ilford Delta 400 profile.
    Delta400,
    /// Invert with the Ilford FP4 Plus profile.
    Fp4Plus,
    /// Invert with the Ilford HP5+ profile.
    Hp5Plus,
    /// Invert with the Kentmere 400 profile.
    Kentmere400,
    /// Invert with the Kodak T-Max 400 profile.
    TMax400,
    /// Invert with the Kodak Tri-X 400 profile.
    TriX,
}

impl Default for FilmPreset {
    fn default() -> (r: Self)
        ensures
            r == FilmPreset::Positive,
    {
        FilmPreset::Positive
    }
}

/// Every film-preset choice, in dropdown order: no inversion, the generic
/// profile, then the named stocks.
pub const FILM_CHOICES: [FilmPreset; 10] = [
    FilmPreset::Positive,
    FilmPreset::Generic,
    FilmPreset::Fomapan100,
    FilmPreset::Fomapan400,
    FilmPreset::Delta400,
    FilmPreset::Fp4Plus,
    FilmPreset::Hp5Plus,
    FilmPreset::Kentmere400,
    FilmPreset::TMax400,
    FilmPreset::TriX,
];

impl FilmPreset {
    /// The display name of the preset's stock, and the bits of its base, its
    /// usable density range and its tone exponent.
    pub open spec fn profile(self) -> Option<(Seq<char>, u32, u32, u32)> {
        match self {
            FilmPreset::Positive => None,
            FilmPreset::Generic => Some(("Generic"@, 0x3f4c_cccd, 0x4019_999a, 0x3f33_3333)),
            FilmPreset::Fomapan100 => Some(("Fomapan 100"@, 0x3f0f_5c29, 0x4000_0000, 0x3f19_999a)),
            FilmPreset::Fomapan400 => Some(("Fomapan 400"@, 0x3f00_0000, 0x4006_6666, 0x3f1e_b852)),
            FilmPreset::Delta400 => Some(("Ilford Delta 400"@, 0x3f28_f5c3, 0x4013_3333, 0x3f38_51ec)),
            FilmPreset::Fp4Plus => Some(("Ilford FP4 Plus"@, 0x3f3d_70a4, 0x400c_cccd, 0x3f33_3333)),
            FilmPreset::Hp5Plus => Some(("Ilford HP5+"@, 0x3f51_eb85, 0x4019_999a, 0x3f33_3333)),
            FilmPreset::Kentmere400 => Some(("Kentmere 400"@, 0x3f42_8f5c, 0x4013_3333, 0x3f33_3333)),
            FilmPreset::TMax400 => Some(("Kodak T-Max 400"@, 0x3f21_47ae, 0x4020_0000, 0x3f59_999a)),
            FilmPreset::TriX => Some(("Kodak Tri-X 400"@, 0x3f0f_5c29, 0x4026_6666, 0x3f4c_cccd)),
        }
    }

    /// The inversion profile for a chosen preset: no inversion carries none,
    /// every other preset its own.
    pub fn stock(self) -> (r: Option<MonoStock>)
        ensures
            r is Some <==> self.profile() is Some,
            r is Some ==> (
                r.unwrap().name@,
                r.unwrap().base.bits,
                r.unwrap().d_max.bits,
                r.unwrap().gamma.bits,
            ) == self.profile().unwrap(),
    {
        match self {
            FilmPreset::Positive => None,
            // base, d_max, gamma: 0.80, 2.4, 0.7
            FilmPreset::Generic => Some(
                MonoStock {
                    name: "Generic",
                    base: Single { bits: 0x3f4c_cccd },
                    d_max: Single { bits: 0x4019_999a },
                    gamma: Single { bits: 0x3f33_3333 },
                },
            ),
            // base, d_max, gamma: 0.56, 2.0, 0.6
            FilmPreset::Fomapan100 => Some(
                MonoStock {
                    name: "Fomapan 100",
                    base: Single { bits: 0x3f0f_5c29 },
                    d_max: Single { bits: 0x4000_0000 },
                    gamma: Single { bits: 0x3f19_999a },
                },
            ),
            // base, d_max, gamma: 0.50, 2.1, 0.62
            FilmPreset::Fomapan400 => Some(
                MonoStock {
                    name: "Fomapan 400",
                    base: Single { bits: 0x3f00_0000 },
                    d_max: Single { bits: 0x4006_6666 },
                    gamma: Single { bits: 0x3f1e_b852 },
                },
            ),
            // base, d_max, gamma: 0.66, 2.3, 0.72
            FilmPreset::Delta400 => Some(
                MonoStock {
                    name: "Ilford Delta 400",
                    base: Single { bits: 0x3f28_f5c3 },
                    d_max: Single { bits: 0x4013_3333 },
                    gamma: Single { bits: 0x3f38_51ec },
                },
            ),
            // base, d_max, gamma: 0.74, 2.2, 0.7
            FilmPreset::Fp4Plus => Some(
                MonoStock {
                    name: "Ilford FP4 Plus",
                    base: Single { bits: 0x3f3d_70a4 },
                    d_max: Single { bits: 0x400c_cccd },
                    gamma: Single { bits: 0x3f33_3333 },
                },
            ),
            // base, d_max, gamma: 0.82, 2.4, 0.7
            FilmPreset::Hp5Plus => Some(
                MonoStock {
                    name: "Ilford HP5+",
                    base: Single { bits: 0x3f51_eb85 },
                    d_max: Single { bits: 0x4019_999a },
                    gamma: Single { bits: 0x3f33_3333 },
                },
            ),
            // base, d_max, gamma: 0.76, 2.3, 0.7
            FilmPreset::Kentmere400 => Some(
                MonoStock {
                    name: "Kentmere 400",
                    base: Single { bits: 0x3f42_8f5c },
                    d_max: Single { bits: 0x4013_3333 },
                    gamma: Single { bits: 0x3f33_3333 },
                },
            ),
            // base, d_max, gamma: 0.63, 2.5, 0.85
            FilmPreset::TMax400 => Some(
                MonoStock {
                    name: "Kodak T-Max 400",
                    base: Single { bits: 0x3f21_47ae },
                    d_max: Single { bits: 0x4020_0000 },
                    gamma: Single { bits: 0x3f59_999a },
                },
            ),
            // base, d_max, gamma: 0.56, 2.6, 0.8
            FilmPreset::TriX => Some(
                MonoStock {
                    name: "Kodak Tri-X 400",
                    base: Single { bits: 0x3f0f_5c29 },
                    d_max: Single { bits: 0x4026_6666 },
                    gamma: Single { bits: 0x3f4c_cccd },
                },
            ),
        }
    }

    /// Whether this preset marks the scan as a negative to be
    /// density-inverted.
    pub fn is_inverted(self) -> (r: bool)
        ensures
            r == (self != FilmPreset::Positive),
    {
        self.stock().is_some()
    }

    /// The storage key, over the presets.
    pub open spec fn key(self) -> Seq<char> {
        match self {
            FilmPreset::Positive => "none"@,
            FilmPreset::Generic => "generic"@,
            FilmPreset::Fomapan100 => "fomapan100"@,
            FilmPreset::Fomapan400 => "fomapan400"@,
            FilmPreset::Delta400 => "delta400"@,
            FilmPreset::Fp4Plus => "fp4"@,
            FilmPreset::Hp5Plus => "hp5"@,
            FilmPreset::Kentmere400 => "kentmere400"@,
            FilmPreset::TMax400 => "tmax400"@,
            FilmPreset::TriX => "tri-x"@,
        }
    }

    /// The stable dialog and manifest storage key for this preset.
    pub fn choice_key(self) -> (r: &'static str)
        ensures
            r@ == self.key(),
    {
        match self {
            FilmPreset::Positive => "none",
            FilmPreset::Generic => "generic",
            FilmPreset::Fomapan100 => "fomapan100",
            FilmPreset::Fomapan400 => "fomapan400",
            FilmPreset::Delta400 => "delta400",
            FilmPreset::Fp4Plus => "fp4",
            FilmPreset::Hp5Plus => "hp5",
            FilmPreset::Kentmere400 => "kentmere400",
            FilmPreset::TMax400 => "tmax400",
            FilmPreset::TriX => "tri-x",
        }
    }

    /// The preset that a storage key stands for; unknown keys stand for no
    /// inversion.
    pub open spec fn of_key(key: Seq<char>) -> FilmPreset {
        if key == "generic"@ {
            FilmPreset::Generic
        } else if key == "fomapan100"@ {
            FilmPreset::Fomapan100
        } else if key == "fomapan400"@ {
            FilmPreset::Fomapan400
        } else if key == "delta400"@ {
            FilmPreset::Delta400
        } else if key == "fp4"@ {
            FilmPreset::Fp4Plus
        } else if key == "hp5"@ {
            FilmPreset::Hp5Plus
        } else if key == "kentmere400"@ {
            FilmPreset::Kentmere400
        } else if key == "tmax400"@ {
            FilmPreset::TMax400
        } else if key == "tri-x"@ {
            FilmPreset::TriX
        } else {
            FilmPreset::Positive
        }
    }

    /// Resolves a stored choice key into a preset; unknown values fall back to
    /// no inversion.
    pub fn from_key(key: &str) -> (r: FilmPreset)
        ensures
            r == Self::of_key(key@),
    {
        if text::same_text(key, "generic") {
            FilmPreset::Generic
        } else if text::same_text(key, "fomapan100") {
            FilmPreset::Fomapan100
        } else if text::same_text(key, "fomapan400") {
            FilmPreset::Fomapan400
        } else if text::same_text(key, "delta400") {
            FilmPreset::Delta400
        } else if text::same_text(key, "fp4") {
            FilmPreset::Fp4Plus
        } else if text::same_text(key, "hp5") {
            FilmPreset::Hp5Plus
        } else if text::same_text(key, "kentmere400") {
            FilmPreset::Kentmere400
        } else if text::same_text(key, "tmax400") {
            FilmPreset::TMax400
        } else if text::same_text(key, "tri-x") {
            FilmPreset::TriX
        } else {
            FilmPreset::Positive
        }
    }

    /// The place of a preset in the dropdown.
    pub open spec fn position(self) -> int {
        match self {
            FilmPreset::Positive => 0,
            FilmPreset::Generic => 1,
            FilmPreset::Fomapan100 => 2,
            FilmPreset::Fomapan400 => 3,
            FilmPreset::Delta400 => 4,
            FilmPreset::Fp4Plus => 5,
            FilmPreset::Hp5Plus => 6,
            FilmPreset::Kentmere400 => 7,
            FilmPreset::TMax400 => 8,
            FilmPreset::TriX => 9,
        }
    }

    /// The dropdown index, in the order of [`FILM_CHOICES`].
    pub fn index(self) -> (r: usize)
        ensures
            r == self.position(),
    {
        match self {
            FilmPreset::Positive => 0,
            FilmPreset::Generic => 1,
            FilmPreset::Fomapan100 => 2,
            FilmPreset::Fomapan400 => 3,
            FilmPreset::Delta400 => 4,
            FilmPreset::Fp4Plus => 5,
            FilmPreset::Hp5Plus => 6,
            FilmPreset::Kentmere400 => 7,
            FilmPreset::TMax400 => 8,
            FilmPreset::TriX => 9,
        }
    }

    /// The preset at a place of the dropdown; other places stand for no
    /// inversion.
    pub open spec fn at(index: int) -> FilmPreset {
        if 0 <= index < FILM_CHOICES@.len() {
            FILM_CHOICES@[index]
        } else {
            FilmPreset::Positive
        }
    }

    /// Resolves a dropdown index back into a preset; any out-of-range index
    /// falls back to no inversion.
    pub fn from_index(index: usize) -> (r: FilmPreset)
        ensures
            r == Self::at(index as int),
    {
        if index < 10 {
            FILM_CHOICES[index]
        } else {
            FilmPreset::Positive
        }
    }
}

/// How a roll's black point (the film's `base`) is resolved. Orthogonal to the
/// [`FilmPreset`] film choice.
#[derive(Clone, Copy, Debug, PartialEq, Eq, Hash, Structural)]
pub enum BaseMode {
    /// Use the chosen film's preset base.
    Preset,
    /// Measure each frame's own clear-film plateau as its base.
    AutoPerFrame,
    /// Measure one designated calibration frame's base and use it for the
    /// whole roll.
    AutoSelectedFrame,
}

impl Default for BaseMode {
    fn default() -> (r: Self)
        ensures
            r == BaseMode::Preset,
    {
        BaseMode::Preset
    }
}

impl BaseMode {
    /// The storage key, over the modes.
    pub open spec fn key(self) -> Seq<char> {
        match self {
            BaseMode::Preset => "preset"@,
            BaseMode::AutoPerFrame => "auto-per-frame"@,
            BaseMode::AutoSelectedFrame => "auto-selected-frame"@,
        }
    }

    /// The stable dialog and manifest storage key for this mode.
    pub fn choice_key(self) -> (r: &'static str)
        ensures
            r@ == self.key(),
    {
        match self {
            BaseMode::Preset => "preset",
            BaseMode::AutoPerFrame => "auto-per-frame",
            BaseMode::AutoSelectedFrame => "auto-selected-frame",
        }
    }

    /// The mode that a storage key stands for; unknown keys stand for the
    /// preset base.
    pub open spec fn of_key(key: Seq<char>) -> BaseMode {
        if key == "auto-per-frame"@ {
            BaseMode::AutoPerFrame
        } else if key == "auto-selected-frame"@ {
            BaseMode::AutoSelectedFrame
        } else {
            BaseMode::Preset
        }
    }

    /// Resolves a stored choice key into a mode; unknown values fall back to
    /// the preset base.
    pub fn from_key(key: &str) -> (r: BaseMode)
        ensures
            r == Self::of_key(key@),
    {
        if text::same_text(key, "auto-per-frame") {
            BaseMode::AutoPerFrame
        } else if text::same_text(key, "auto-selected-frame") {
            BaseMode::AutoSelectedFrame
        } else {
            BaseMode::Preset
        }
    }

    /// The place of a mode in the dropdown.
    pub open spec fn position(self) -> int {
        match self {
            BaseMode::Preset => 0,
            BaseMode::AutoPerFrame => 1,
            BaseMode::AutoSelectedFrame => 2,
        }
    }

    /// The dropdown index (the preset base first).
    pub fn index(self) -> (r: usize)
        ensures
            r == self.position(),
    {
        match self {
            BaseMode::Preset => 0,
            BaseMode::AutoPerFrame => 1,
            BaseMode::AutoSelectedFrame => 2,
        }
    }

    /// The mode at a place of the dropdown; other places stand for the preset
    /// base.
    pub open spec fn at(index: int) -> BaseMode {
        if index == 1 {
            BaseMode::AutoPerFrame
        } else if index == 2 {
            BaseMode::AutoSelectedFrame
        } else {
            BaseMode::Preset
        }
    }

    /// Resolves a dropdown index back into a mode; any out-of-range index
    /// falls back to the preset base.
    pub fn from_index(index: usize) -> (r: BaseMode)
        ensures
            r == Self::at(index as int),
    {
        if index == 1 {
            BaseMode::AutoPerFrame
        } else if index == 2 {
            BaseMode::AutoSelectedFrame
        } else {
            BaseMode::Preset
        }
    }

    /// Whether this mode measures the base at all.
    pub fn is_auto(self) -> (r: bool)
        ensures
            r == (self != BaseMode::Preset),
    {
        self == BaseMode::AutoPerFrame || self == BaseMode::AutoSelectedFrame
    }
}

/// The place of every preset in the dropdown is its place among the choices,
/// and the dropdown gives every preset back from its place.
pub proof fn dropdown_order_is_the_choice_order(index: int, preset: FilmPreset)
    ensures
        0 <= index < 10 ==> FILM_CHOICES@[index].position() == index,
        FilmPreset::at(preset.position()) == preset,
        !(0 <= index < 10) ==> FilmPreset::at(index) == FilmPreset::Positive,
{
}

/// Every preset is found again under its storage key.
pub proof fn preset_keys_round_trip(preset: FilmPreset)
    ensures
        FilmPreset::of_key(preset.key()) == preset,
{
    reveal_strlit("none");
    reveal_strlit("generic");
    reveal_strlit("fomapan100");
    reveal_strlit("fomapan400");
    reveal_strlit("delta400");
    reveal_strlit("fp4");
    reveal_strlit("hp5");
    reveal_strlit("kentmere400");
    reveal_strlit("tmax400");
    reveal_strlit("tri-x");
    assert("none"@.len() == 4);
    assert("generic"@.len() == 7);
    assert("fomapan100"@.len() == 10);
    assert("fomapan400"@.len() == 10);
    assert("delta400"@.len() == 8);
    assert("fp4"@.len() == 3);
    assert("hp5"@.len() == 3);
    assert("kentmere400"@.len() == 11);
    assert("tmax400"@.len() == 7);
    assert("tri-x"@.len() == 5);
    assert("generic"@[0] != "tmax400"@[0]);
    assert("fomapan100"@[7] != "fomapan400"@[7]);
    assert("fp4"@[0] != "hp5"@[0]);
}

/// Every base mode is found again under its storage key and at its place.
pub proof fn base_modes_round_trip(mode: BaseMode)
    ensures
        BaseMode::of_key(mode.key()) == mode,
        BaseMode::at(mode.position()) == mode,
{
    reveal_strlit("preset");
    reveal_strlit("auto-per-frame");
    reveal_strlit("auto-selected-frame");
    assert("preset"@.len() == 6);
    assert("auto-per-frame"@.len() == 14);
    assert("auto-selected-frame"@.len() == 19);
}

/// How many of the finite samples rank at most `limit` in the total order.
pub open spec fn ranked_at_most(samples: Seq<Single>, limit: int) -> nat
    decreases samples.len(),
{
    if samples.len() == 0 {
        0
    } else {
        ranked_at_most(samples.drop_last(), limit) + (if samples.last().finite()
            && samples.last().rank() <= limit {
            1nat
        } else {
            0
        })
    }
}

/// How many samples are finite.
pub open spec fn finite_count(samples: Seq<Single>) -> nat {
    ranked_at_most(samples, 0x8000_0000)
}

/// Whether a number is the one that stands at place `k` (counted from zero)
/// once the finite samples are sorted.
pub open spec fn stands_at(samples: Seq<Single>, k: nat, v: Single) -> bool {
    &&& samples.contains(v)
    &&& v.finite()
    &&& ranked_at_most(samples, v.rank() - 1) <= k < ranked_at_most(samples, v.rank())
}

/// The place of the 95th percentile among `n` sorted samples.
pub open spec fn percentile_place(n: nat) -> nat {
    n * 95 / 100
}

proof fn ranked_monotone(samples: Seq<Single>, a: int, b: int)
    requires
        a <= b,
    ensures
        ranked_at_most(samples, a) <= ranked_at_most(samples, b) <= samples.len(),
    decreases samples.len(),
{
    if samples.len() > 0 {
        ranked_monotone(samples.drop_last(), a, b);
    }
}

/// Where the count grows from one rank to the next, a finite sample has that
/// rank.
proof fn growth_has_a_sample(samples: Seq<Single>, t: int)
    requires
        ranked_at_most(samples, t - 1) < ranked_at_most(samples, t),
    ensures
        exists|i: int|
            0 <= i < samples.len() && (#[trigger] samples[i]).finite() && samples[i].rank() == t,
    decreases samples.len(),
{
    if samples.len() > 0 {
        let last = samples.last();
        if last.finite() && last.rank() == t {
            assert(samples[samples.len() - 1] == last);
        } else {
            growth_has_a_sample(samples.drop_last(), t);
            let i = choose|i: int|
                0 <= i < samples.drop_last().len() && (#[trigger] samples.drop_last()[i]).finite()
                    && samples.drop_last()[i].rank() == t;
            assert(samples[i] == samples.drop_last()[i]);
        }
    }
}

/// Nothing ranks below the first place of the total order.
proof fn nothing_below_the_first(samples: Seq<Single>)
    ensures
        ranked_at_most(samples, -0x8000_0001) == 0,
    decreases samples.len(),
{
    if samples.len() > 0 {
        nothing_below_the_first(samples.drop_last());
    }
}

/// Every finite sample ranks before the end of the total order.
proof fn all_below_the_end(samples: Seq<Single>)
    ensures
        ranked_at_most(samples, 0x7fff_ffff) == finite_count(samples),
    decreases samples.len(),
{
    if samples.len() > 0 {
        all_below_the_end(samples.drop_last());
    }
}

fn count_ranked(samples: &[Single], limit: i64) -> (r: usize)
    ensures
        r == ranked_at_most(samples@, limit as int),
{
    let mut count: usize = 0;
    let mut i: usize = 0;
    assert(samples@.take(0) =~= Seq::<Single>::empty());
    while i < samples.len()
        invariant
            i <= samples@.len(),
            count <= i,
            count == ranked_at_most(samples@.take(i as int), limit as int),
        decreases samples@.len() - i,
    {
        assert(samples@.take(i + 1).drop_last() =~= samples@.take(i as int));
        if samples[i].is_finite() && samples[i].total_rank() <= limit {
            count += 1;
        }
        i += 1;
    }
    assert(samples@.take(samples@.len() as int) =~= samples@);
    count
}

/// Estimates the base+fog transmission from normalized linear samples of an
/// exposure showing only clear film: the 95th percentile of the finite ones,
/// so dust and sensor outliers are rejected. `None` for inputs without finite
/// samples.
pub fn measure_base(samples: &[Single]) -> (r: Option<Single>)
    ensures
        r is Some <==> finite_count(samples@) > 0,
        r is Some ==> stands_at(samples@, percentile_place(finite_count(samples@)), r.unwrap()),
{
    let n: usize = count_ranked(samples, 0x8000_0000);
    if n == 0 {
        return None;
    }
    let k: u128 = (n as u128) * 95 / 100;
    let mut low: i64 = -0x8000_0001;
    let mut high: i64 = 0x7fff_ffff;
    proof {
        nothing_below_the_first(samples@);
        all_below_the_end(samples@);
    }
    while high - low > 1
        invariant
            -0x8000_0001 <= low < high <= 0x7fff_ffff,
            n == finite_count(samples@),
            n > 0,
            k == percentile_place(n as nat),
            ranked_at_most(samples@, low as int) <= k,
            k < ranked_at_most(samples@, high as int),
        decreases high - low,
    {
        let middle: i64 = low + (high - low) / 2;
        if (count_ranked(samples, middle) as u128) <= k {
            low = middle;
        } else {
            high = middle;
        }
    }
    let v: Single = Single::of_rank(high);
    proof {
        growth_has_a_sample(samples@, high as int);
        let i = choose|i: int|
            0 <= i < samples@.len() && (#[trigger] samples@[i]).finite() && samples@[i].rank()
                == high;
        crate::single::rank_is_injective(samples@[i], v);
    }
    Some(v)
}

/// Only one number stands at a given place of the sorted finite samples, so a
/// measurement does not depend on the order of the samples.
pub proof fn measurement_is_unique(samples: Seq<Single>, k: nat, a: Single, b: Single)
    requires
        stands_at(samples, k, a),
        stands_at(samples, k, b),
    ensures
        a == b,
{
    if a.rank() < b.rank() {
        ranked_monotone(samples, a.rank(), b.rank() - 1);
    } else if b.rank() < a.rank() {
        ranked_monotone(samples, b.rank(), a.rank() - 1);
    } else {
        crate::single::rank_is_injective(a, b);
    }
}

/// The least transmission that is plausible as a measured base: one tenth.
pub open spec fn min_plausible_base() -> Single {
    Single { bits: 0x3dcc_cccd }
}

/// The base measured from samples: what stands at the 95th percentile of the
/// finite ones.
pub open spec fn measured_base(samples: Seq<Single>) -> Option<Single> {
    if finite_count(samples) > 0 {
        Some(
            choose|v: Single| stands_at(samples, percentile_place(finite_count(samples)), v),
        )
    } else {
        None
    }
}

/// The base measured from samples, where it is plausible.
pub open spec fn plausibly_measured(samples: Seq<Single>) -> Option<Single> {
    match measured_base(samples) {
        Some(v) => if v.ge(min_plausible_base()) {
            Some(v)
        } else {
            None
        },
        None => None,
    }
}

/// Measures the base from samples; an implausible measurement counts as none,
/// so a frame without clear film cannot spoil a roll's rendering.
pub fn measure_plausible_base(samples: &[Single]) -> (r: Option<Single>)
    ensures
        r == plausibly_measured(samples@),
{
    match measure_base(samples) {
        Some(v) => {
            proof {
                let k = percentile_place(finite_count(samples@));
                measurement_is_unique(samples@, k, v, measured_base(samples@).unwrap());
            }
            if v.at_least(Single { bits: 0x3dcc_cccd }) {
                Some(v)
            } else {
                None
            }
        },
        None => None,
    }
}

/// The roll-level base-resolution state handed from the manifest into every
/// decode and bake.
#[derive(Clone, Copy, Debug, PartialEq, Eq, Structural)]
pub struct BaseConfig {
    /// An explicit per-roll calibration; wins over everything else.
    pub calibrated: Option<Single>,
    /// Opt-in per-frame measurement of the clear-film anchor.
    pub auto: bool,
}

impl Default for BaseConfig {
    fn default() -> (r: Self)
        ensures
            r == (BaseConfig { calibrated: None, auto: false }),
    {
        BaseConfig { calibrated: None, auto: false }
    }
}

/// The black point that a calibration state, a measurement and a stock's
/// preset base resolve to: the calibration where there is one, else a
/// plausible measurement where measuring is on, else the preset base.
pub open spec fn resolved_base(
    calibrated: Option<Single>,
    auto: bool,
    measured: Option<Single>,
    preset_base: Single,
) -> Single {
    if calibrated is Some {
        calibrated.unwrap()
    } else if auto && measured is Some && measured.unwrap().ge(min_plausible_base()) {
        measured.unwrap()
    } else {
        preset_base
    }
}

/// Resolves the tonally-effective black point for one frame from the roll's
/// calibration state.
pub fn resolve_base(
    calibrated: Option<Single>,
    auto: bool,
    measured: Option<Single>,
    stock: &MonoStock,
) -> (r: Single)
    ensures
        r == resolved_base(calibrated, auto, measured, stock.base),
{
    match calibrated {
        Some(base) => base,
        None => {
            if auto {
                match measured {
                    Some(value) if value.at_least(Single { bits: 0x3dcc_cccd }) => value,
                    _ => stock.base,
                }
            } else {
                stock.base
            }
        },
    }
}

impl BaseConfig {
    /// Resolves the tonally-effective black point for one frame of `stock`.
    pub fn resolve(self, measured: Option<Single>, stock: &MonoStock) -> (r: Single)
        ensures
            r == resolved_base(self.calibrated, self.auto, measured, stock.base),
    {
        resolve_base(self.calibrated, self.auto, measured, stock)
    }
}

/// One channel of interleaved three-channel pixels; an incomplete pixel at the
/// end has no channels.
pub open spec fn channel(rgb: Seq<Single>, c: int) -> Seq<Single> {
    Seq::new(rgb.len() / 3, |i: int| rgb[3 * i + c])
}

/// Whether a base is what one channel measures: its own measurement where that
/// is plausible, else the HP5+ base.
pub open spec fn channel_base(samples: Seq<Single>, v: Single) -> bool {
    if finite_count(samples) == 0 {
        v.bits == 0x3f51_eb85
    } else {
        exists|m: Single|
            #![trigger stands_at(samples, percentile_place(finite_count(samples)), m)]
            stands_at(samples, percentile_place(finite_count(samples)), m) && v == (if m.lt(
                min_plausible_base(),
            ) {
                Single { bits: 0x3f51_eb85 }
            } else {
                m
            })
    }
}

fn channel_samples(rgb: &[Single], c: usize) -> (r: Vec<Single>)
    requires
        c < 3,
    ensures
        r@ == channel(rgb@, c as int),
{
    let mut out: Vec<Single> = Vec::new();
    let len: usize = rgb.len();
    let count: usize = len / 3;
    let mut i: usize = 0;
    while i < count
        invariant
            i <= count,
            c < 3,
            len == rgb@.len(),
            count == len / 3,
            out@.len() == i,
            forall|j: int| 0 <= j < i ==> #[trigger] out@[j] == rgb@[3 * j + c],
        decreases count - i,
    {
        out.push(rgb[3 * i + c]);
        i += 1;
    }
    assert(out@ =~= channel(rgb@, c as int));
    out
}

fn plausible(measured: Option<Single>) -> (r: Single)
    ensures
        r == (if measured is Some && !measured.unwrap().lt(min_plausible_base()) {
            measured.unwrap()
        } else {
            (Single { bits: 0x3f51_eb85 })
        }),
{
    let fallback: Single = Single { bits: 0x3f51_eb85 };
    match measured {
        Some(value) => {
            if value.less(Single { bits: 0x3dcc_cccd }) {
                fallback
            } else {
                value
            }
        },
        None => fallback,
    }
}

/// Measures each RGB channel's clear-film transmission from interleaved linear
/// pixels. Channels without a plausible measurement fall back to the HP5+
/// base; `None` only when no channel has finite samples.
pub fn measure_base_channels(rgb: &[Single]) -> (r: Option<[Single; 3]>)
    ensures
        r is None <==> forall|c: int| 0 <= c < 3 ==> finite_count(#[trigger] channel(rgb@, c)) == 0,
        r is Some ==> forall|c: int|
            0 <= c < 3 ==> channel_base(#[trigger] channel(rgb@, c), r.unwrap()@[c]),
{
    let red: Option<Single> = measure_base(channel_samples(rgb, 0).as_slice());
    let green: Option<Single> = measure_base(channel_samples(rgb, 1).as_slice());
    let blue: Option<Single> = measure_base(channel_samples(rgb, 2).as_slice());
    if red.is_none() && green.is_none() && blue.is_none() {
        return None;
    }
    proof {
        assert(channel(rgb@, 0).len() >= 0 && channel(rgb@, 1).len() >= 0 && channel(
            rgb@,
            2,
        ).len() >= 0);
    }
    let out: [Single; 3] = [plausible(red), plausible(green), plausible(blue)];
    assert(channel_base(channel(rgb@, 0), out@[0]));
    assert(channel_base(channel(rgb@, 1), out@[1]));
    assert(channel_base(channel(rgb@, 2), out@[2]));
    Some(out)
}

} // verus!
