//! A roll's film preset and black point: changing them, calibrating from a
//! frame, and what has to be decoded anew for it.

use vstd::prelude::*;
use crate::edit_manifest::{ManifestModel, RollManifest};
use crate::effect::{Effect, EffectModel};
use crate::film;
use crate::film::{BaseMode, FilmPreset};
use crate::library;
use crate::library::{RollModel, Thumb};
use crate::lru;
use crate::lru::{CacheKey, DetailKey, KeyModel};
use crate::message::DetailMono;
use crate::single::Single;
use crate::state;
use crate::state::{AppModel, Model};
use crate::text;

verus! {

/// Designates a calibration frame, unless the manifest has one; says whether
/// it has changed.
pub fn designate_default(manifest: &mut RollManifest, name: &str) -> (r: bool)
    ensures
        r == (old(manifest).calibration_frame is None),
        final(manifest).model() == (if r {
            ManifestModel { calibration_frame: Some(name@), ..old(manifest).model() }
        } else {
            old(manifest).model()
        }),
        old(manifest).well_formed() ==> final(manifest).well_formed(),
{
    if manifest.calibration_frame().is_some() {
        return false;
    }
    manifest.set_calibration_frame(name);
    true
}

/// Drops a manifest's calibration; says whether there was any.
pub fn drop_calibration(manifest: &mut RollManifest) -> (r: bool)
    ensures
        r == (old(manifest).calibration_frame is Some || old(manifest).base is Some),
        final(manifest).model() == (ManifestModel {
            calibration_frame: None,
            base: None,
            ..old(manifest).model()
        }),
        old(manifest).well_formed() ==> final(manifest).well_formed(),
{
    let any: bool = manifest.calibration_frame().is_some() || manifest.calibrated_base().is_some();
    if any {
        manifest.clear_calibration();
    }
    any
}

/// Whether a frame is the roll's calibration frame: it is designated, and the
/// roll's strategy reads a designated frame.
pub fn is_calibration_frame(base_mode: BaseMode, calibration_frame: Option<&str>, name: &str) -> (r:
    bool)
    ensures
        r == (base_mode == BaseMode::AutoSelectedFrame && text::slice_of(calibration_frame)
            == Some(name@)),
{
    base_mode == BaseMode::AutoSelectedFrame && text::same_option(calibration_frame, Some(name))
}

impl Model {
    /// The cached overviews without those of a roll.
    pub open spec fn cache_without(self, dir: Seq<char>) -> Seq<(KeyModel, DetailMono)> {
        self.detail_cache.filter(lru::of_other_roll(dir))
    }

    /// The state with all that the detail view needs being decoded.
    #[verifier::opaque]
    pub open spec fn repumped(self) -> Model {
        self.detail_pumped().neighbors_pumped(state::or_empty(self.selected))
    }

    /// The state with every picture of the open roll decoded anew, after its
    /// preset or strategy changed.
    #[verifier::opaque]
    pub open spec fn roll_reflowed(self, dir: Seq<char>) -> Model {
        Model {
            detail_cache: self.cache_without(dir),
            ..self.thumbs_reloading().detail_dropped()
        }.thumbs_pumped().repumped()
    }

    /// The state with everything decoded anew, after the roll's black point
    /// changed. The manifest is written, as covers read it from disk.
    #[verifier::opaque]
    pub open spec fn base_reflowed(self) -> Model {
        let dropped = Model {
            detail_cache: Seq::empty(),
            ..self.roll_persisted().detail_dropped()
        }.thumbs_reloading();
        let cover = match dropped.active {
            Some(dir) => dropped.cover_reloading(dir),
            None => dropped,
        };
        cover.thumbs_pumped().covers_pumped().repumped()
    }

    /// The state with a roll's preset changed on its card.
    pub open spec fn card_preset(self, dir: Seq<char>, preset: FilmPreset) -> Model {
        match self.roll_at(dir) {
            Some(k) => Model {
                rolls: self.rolls.update(
                    k,
                    RollModel { preset, thumb: Thumb::Loading, ..self.rolls[k] },
                ),
                ..self
            },
            None => self,
        }
    }

    /// The state with a roll's strategy changed on its card.
    pub open spec fn card_base_mode(self, dir: Seq<char>, mode: BaseMode) -> Model {
        match self.roll_at(dir) {
            Some(k) => Model {
                rolls: self.rolls.update(
                    k,
                    RollModel { base_mode: mode, thumb: Thumb::Loading, ..self.rolls[k] },
                ),
                ..self
            },
            None => self,
        }
    }

    /// The state with a roll's film preset changed.
    #[verifier::opaque]
    pub open spec fn preset_changed(self, dir: Seq<char>, preset: FilmPreset) -> Model {
        let carded = self.emitting(EffectModel::RecordPreset { dir, preset }).card_preset(
            dir,
            preset,
        ).covers_pumped();
        if carded.active == Some(dir) {
            Model { roll: carded.roll.with_film(preset), ..carded }.roll_reflowed(dir)
        } else {
            carded
        }
    }

    /// The roll's first frame, which stands for it.
    pub open spec fn first_frame(self, dir: Seq<char>) -> Option<Seq<char>> {
        if self.active == Some(dir) {
            if self.tiles.len() > 0 {
                Some(self.tiles[0].name)
            } else {
                None
            }
        } else {
            match self.roll_at(dir) {
                Some(k) => self.rolls[k].cover,
                None => None,
            }
        }
    }

    /// The state with a roll's first frame designated for calibration, unless
    /// one is, and measured.
    #[verifier::opaque]
    pub open spec fn calibration_begun(self, dir: Seq<char>) -> Model {
        match self.first_frame(dir) {
            Some(first) => Model {
                roll: if self.active == Some(dir) && self.roll.calibration_frame is None {
                    ManifestModel { calibration_frame: Some(first), ..self.roll }
                } else {
                    self.roll
                },
                ..self.emitting(EffectModel::DesignateDefault { dir, name: first })
            }.emitting(EffectModel::MeasureCalibration { dir }),
            None => self,
        }
    }

    /// The state with a roll's calibration dropped.
    #[verifier::opaque]
    pub open spec fn calibration_ended(self, dir: Seq<char>) -> Model {
        Model {
            roll: if self.active == Some(dir) {
                ManifestModel { calibration_frame: None, base: None, ..self.roll }
            } else {
                self.roll
            },
            ..self.emitting(EffectModel::DropCalibration { dir })
        }
    }

    /// The state with a roll's base strategy changed. The strategy that goes
    /// by a designated frame begins with the first one; any other leaves no
    /// calibration behind.
    #[verifier::opaque]
    pub open spec fn base_mode_changed(self, dir: Seq<char>, mode: BaseMode) -> Model {
        let carded = self.emitting(EffectModel::RecordBaseMode { dir, mode }).card_base_mode(
            dir,
            mode,
        ).covers_pumped();
        let set = if mode == BaseMode::AutoSelectedFrame {
            carded.calibration_begun(dir)
        } else {
            carded.calibration_ended(dir)
        };
        if set.active == Some(dir) {
            Model { roll: set.roll.with_strategy(mode), ..set }.roll_reflowed(dir)
        } else {
            set
        }
    }

    /// The frame that a calibration would be made from: the open one, or the
    /// highlighted one, under the strategy that goes by a designated frame.
    pub open spec fn calibration_source(self) -> Option<(Seq<char>, Seq<char>)> {
        match (self.active, self.selected, self.frame_selected) {
            (Some(dir), Some(n), _) if self.roll.strategy() == BaseMode::AutoSelectedFrame => {
                Some((dir, n))
            },
            (Some(dir), None, Some(n)) if self.roll.strategy() == BaseMode::AutoSelectedFrame => {
                Some((dir, n))
            },
            _ => None,
        }
    }

    /// The number under which the samples are kept that a calibration would be
    /// made from.
    pub open spec fn calibration_buffer(self) -> Option<u64> {
        match self.calibration_source() {
            Some((dir, name)) => {
                let key = (dir, self.roll.film(), name);
                if lru::holds(self.detail_cache, key) {
                    Some(self.detail_cache[lru::position(self.detail_cache, key)].1.buffer)
                } else {
                    None
                }
            },
            None => None,
        }
    }

    /// The state with the roll calibrated from the viewed frame: from the
    /// samples of its cached overview, or after it was measured. A cached
    /// frame without a plausible stretch of clear film leaves the calibration
    /// as it is.
    #[verifier::opaque]
    pub open spec fn calibrated(self, samples: Seq<Single>) -> Model {
        match self.calibration_source() {
            Some((dir, name)) => {
                let key = (dir, self.roll.film(), name);
                if lru::holds(self.detail_cache, key) {
                    let looked_up = Model {
                        detail_cache: lru::touched(self.detail_cache, key),
                        ..self
                    };
                    match film::plausibly_measured(samples) {
                        Some(base) => Model {
                            roll: self.roll.calibrated(name, Some(base)),
                            ..looked_up
                        }.base_reflowed(),
                        None => looked_up,
                    }
                } else {
                    Model {
                        roll: ManifestModel { calibration_frame: Some(name), ..self.roll },
                        ..self
                    }.roll_persisted().emitting(
                        EffectModel::MeasureFrame { dir, name, preset: self.roll.film() },
                    )
                }
            },
            None => self,
        }
    }

    /// The state after a calibration frame was measured. A measurement that
    /// the roll's manifest on disk no longer asks for is dropped, and a frame
    /// without a plausible stretch of clear film leaves the base as it is.
    #[verifier::opaque]
    pub open spec fn measurement_landed(
        self,
        dir: Seq<char>,
        name: Seq<char>,
        base: Option<Single>,
        on_disk: ManifestModel,
    ) -> Model {
        if on_disk.strategy() != BaseMode::AutoSelectedFrame || on_disk.calibration_frame != Some(
            name,
        ) {
            self
        } else {
            let written = self.emitting(
                EffectModel::SaveManifest { dir, manifest: on_disk.calibrated(name, base) },
            );
            if written.active == Some(dir) {
                Model { roll: written.roll.calibrated(name, base), ..written }.base_reflowed()
            } else {
                written.cover_reloading(dir).covers_pumped()
            }
        }
    }
}

/// Records a calibration frame in a manifest, and its base where one was
/// measured.
fn set_calibration(manifest: &mut RollManifest, name: &str, base: Option<Single>)
    ensures
        final(manifest).model() == old(manifest).model().calibrated(name@, base),
        old(manifest).well_formed() ==> final(manifest).well_formed(),
{
    manifest.set_calibration_frame(name);
    match base {
        Some(b) => manifest.set_calibrated_base(b),
        None => {},
    }
}

impl AppModel {
    /// Whether a roll is the open one.
    pub(crate) fn is_open(&self, dir: &str) -> (r: bool)
        ensures
            r == (self@.active == Some(dir@)),
    {
        text::same_option(text::as_slice(&self.active), Some(dir))
    }

    /// Has all that the detail view needs decoded.
    fn repump(&mut self)
        requires
            old(self).well_formed(),
        ensures
            final(self).well_formed(),
            final(self)@ == old(self)@.repumped(),
    {
        reveal(Model::repumped);
        let current: String = state::text_or_empty(text::as_slice(&self.selected));
        self.decode_detail_next();
        self.preload_detail_neighbors(current.as_str());
    }

    /// Has every picture of the open roll decoded anew.
    fn reflow_roll_after_change(&mut self, dir: &str)
        requires
            old(self).well_formed(),
        ensures
            final(self).well_formed(),
            final(self)@ == old(self)@.roll_reflowed(dir@),
    {
        reveal(Model::roll_reflowed);
        reveal(Model::detail_dropped);
        self.reload_thumbs();
        self.drop_detail();
        self.detail_cache.drop_roll(dir);
        self.decode_next();
        self.repump();
    }

    /// Has everything decoded anew after the roll's black point changed.
    fn reflow_base(&mut self)
        requires
            old(self).well_formed(),
        ensures
            final(self).well_formed(),
            final(self)@ == old(self)@.base_reflowed(),
    {
        reveal(Model::base_reflowed);
        reveal(Model::detail_dropped);
        self.persist_roll();
        self.drop_detail();
        self.detail_cache.clear();
        assert(self@.detail_cache =~= Seq::<(KeyModel, DetailMono)>::empty());
        self.reload_thumbs();
        let dir: Option<String> = text::clone_option(&self.active);
        match dir {
            Some(dir) => self.reload_cover(dir.as_str()),
            None => {},
        }
        self.decode_next();
        self.decode_covers();
        self.repump();
    }

    /// Changes a roll's preset on its card.
    pub(crate) fn set_card_preset(&mut self, dir: &str, preset: FilmPreset)
        requires
            old(self).well_formed(),
        ensures
            final(self).well_formed(),
            final(self)@ == old(self)@.card_preset(dir@, preset),
    {
        match state::find_roll(self.rolls.as_slice(), dir) {
            Some(k) => {
                let ghost before = self.rolls@;
                self.rolls[k].preset = preset;
                self.rolls[k].thumb = Thumb::Loading;
                assert(library::roll_models(self.rolls@) =~= library::roll_models(before).update(
                    k as int,
                    RollModel { preset, thumb: Thumb::Loading, ..before[k as int].model() },
                ));
            },
            None => {},
        }
    }

    /// Changes a roll's strategy on its card.
    fn set_card_base_mode(&mut self, dir: &str, mode: BaseMode)
        requires
            old(self).well_formed(),
        ensures
            final(self).well_formed(),
            final(self)@ == old(self)@.card_base_mode(dir@, mode),
    {
        match state::find_roll(self.rolls.as_slice(), dir) {
            Some(k) => {
                let ghost before = self.rolls@;
                self.rolls[k].base_mode = mode;
                self.rolls[k].thumb = Thumb::Loading;
                assert(library::roll_models(self.rolls@) =~= library::roll_models(before).update(
                    k as int,
                    RollModel { base_mode: mode, thumb: Thumb::Loading, ..before[k as int].model() },
                ));
            },
            None => {},
        }
    }

    /// Changes a roll's film preset.
    pub(crate) fn change_preset(&mut self, dir: String, preset: FilmPreset)
        requires
            old(self).well_formed(),
        ensures
            final(self).well_formed(),
            final(self)@ == old(self)@.preset_changed(dir@, preset),
    {
        reveal(Model::preset_changed);
        self.emit(Effect::RecordPreset { dir: dir.clone(), preset });
        self.set_card_preset(dir.as_str(), preset);
        self.decode_covers();
        if self.is_open(dir.as_str()) {
            self.roll.set_preset(preset);
            self.reflow_roll_after_change(dir.as_str());
        }
    }

    /// The roll's first frame.
    fn roll_first_frame(&self, dir: &str) -> (r: Option<String>)
        ensures
            text::text_of(r) == self@.first_frame(dir@),
    {
        if self.is_open(dir) {
            if self.tiles.len() > 0 {
                Some(self.tiles[0].name.clone())
            } else {
                None
            }
        } else {
            match state::find_roll(self.rolls.as_slice(), dir) {
                Some(k) => {
                    assert(self@.rolls[k as int] == self.rolls@[k as int].model());
                    text::clone_option(&self.rolls[k].cover)
                },
                None => None,
            }
        }
    }

    fn begin_calibration(&mut self, dir: &str)
        requires
            old(self).well_formed(),
        ensures
            final(self).well_formed(),
            final(self)@ == old(self)@.calibration_begun(dir@),
    {
        reveal(Model::calibration_begun);
        match self.roll_first_frame(dir) {
            Some(first) => {
                self.emit(
                    Effect::DesignateDefault { dir: dir.to_owned(), name: first.clone() },
                );
                if self.is_open(dir) && self.roll.calibration_frame().is_none() {
                    self.roll.set_calibration_frame(first.as_str());
                }
                self.emit(Effect::MeasureCalibration { dir: dir.to_owned() });
            },
            None => {},
        }
    }

    fn end_calibration(&mut self, dir: &str)
        requires
            old(self).well_formed(),
        ensures
            final(self).well_formed(),
            final(self)@ == old(self)@.calibration_ended(dir@),
    {
        reveal(Model::calibration_ended);
        self.emit(Effect::DropCalibration { dir: dir.to_owned() });
        if self.is_open(dir) {
            self.roll.clear_calibration();
        }
    }

    /// Changes a roll's base strategy.
    pub(crate) fn change_base_mode(&mut self, dir: String, mode: BaseMode)
        requires
            old(self).well_formed(),
        ensures
            final(self).well_formed(),
            final(self)@ == old(self)@.base_mode_changed(dir@, mode),
    {
        reveal(Model::base_mode_changed);
        self.emit(Effect::RecordBaseMode { dir: dir.clone(), mode });
        self.set_card_base_mode(dir.as_str(), mode);
        self.decode_covers();
        if mode == BaseMode::AutoSelectedFrame {
            self.begin_calibration(dir.as_str());
        } else {
            self.end_calibration(dir.as_str());
        }
        if self.is_open(dir.as_str()) {
            self.roll.set_base_mode(mode);
            self.reflow_roll_after_change(dir.as_str());
        }
    }

    /// The roll and the frame that a calibration would be made from.
    fn calibration_target(&self) -> (r: Option<(String, String)>)
        ensures
            match r {
                Some((dir, name)) => self@.calibration_source() == Some((dir@, name@)),
                None => self@.calibration_source() is None,
            },
    {
        match self.roll.base_mode() {
            BaseMode::AutoSelectedFrame => {},
            _ => {
                return None;
            },
        }
        let dir: String = match &self.active {
            Some(dir) => dir.clone(),
            None => {
                return None;
            },
        };
        match &self.selected {
            Some(name) => Some((dir, name.clone())),
            None => match &self.frame_selected {
                Some(name) => Some((dir, name.clone())),
                None => None,
            },
        }
    }

    /// The number under which the samples are kept that a calibration would be
    /// made from, where the frame's overview is cached.
    pub fn calibration_buffer(&self) -> (r: Option<u64>)
        requires
            self.well_formed(),
        ensures
            r == self@.calibration_buffer(),
            match self@.calibration_source() {
                Some((dir, name)) => {
                    let key = (dir, self@.roll.film(), name);
                    r == (if lru::holds(self@.detail_cache, key) {
                        Some(self@.detail_cache[lru::position(self@.detail_cache, key)].1.buffer)
                    } else {
                        None
                    })
                },
                None => r is None,
            },
    {
        match self.calibration_target() {
            Some((dir, name)) => {
                let key: DetailKey = DetailKey::new(
                    dir.as_str(),
                    self.roll.preset(),
                    name.as_str(),
                );
                match self.detail_cache.peek(&key) {
                    Some(mono) => Some(mono.buffer),
                    None => None,
                }
            },
            None => None,
        }
    }

    /// Calibrates the roll from the viewed frame.
    pub(crate) fn calibrate_base_from_frame(&mut self, samples: &[Single])
        requires
            old(self).well_formed(),
        ensures
            final(self).well_formed(),
            final(self)@ == old(self)@.calibrated(samples@),
    {
        reveal(Model::calibrated);
        let (dir, name): (String, String) = match self.calibration_target() {
            Some(target) => target,
            None => {
                return;
            },
        };
        let preset: FilmPreset = self.roll.preset();
        let key: DetailKey = DetailKey::new(dir.as_str(), preset, name.as_str());
        let cached: bool = self.detail_cache.get(&key).is_some();
        if cached {
            let base: Option<Single> = film::measure_plausible_base(samples);
            if base.is_some() {
                set_calibration(&mut self.roll, name.as_str(), base);
                self.reflow_base();
            }
        } else {
            self.roll.set_calibration_frame(name.as_str());
            self.persist_roll();
            self.emit(Effect::MeasureFrame { dir, name, preset });
        }
    }

    /// Acts on the measurement of a calibration frame.
    pub(crate) fn apply_calibration_measurement(
        &mut self,
        dir: String,
        name: String,
        base: Option<Single>,
        on_disk: RollManifest,
    )
        requires
            old(self).well_formed(),
            on_disk.well_formed(),
        ensures
            final(self).well_formed(),
            final(self)@ == old(self)@.measurement_landed(dir@, name@, base, on_disk.model()),
    {
        reveal(Model::measurement_landed);
        match on_disk.base_mode() {
            BaseMode::AutoSelectedFrame => {},
            _ => {
                return;
            },
        }
        if !text::same_option(on_disk.calibration_frame(), Some(name.as_str())) {
            return;
        }
        let mut manifest: RollManifest = on_disk;
        set_calibration(&mut manifest, name.as_str(), base);
        self.emit(Effect::SaveManifest { dir: dir.clone(), manifest });
        if self.is_open(dir.as_str()) {
            set_calibration(&mut self.roll, name.as_str(), base);
            self.reflow_base();
        } else {
            self.reload_cover(dir.as_str());
            self.decode_covers();
        }
    }
}

} // verus!
