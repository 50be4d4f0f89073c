//! Editing the frame in the detail view, and copying edits between frames.

use vstd::prelude::*;
use crate::crop;
use crate::edit_manifest::{CropDirection, CropMargins, EditData, ManifestModel, ToneEdit};
use crate::effect::{Effect, EffectModel};
use crate::library;
use crate::library::{RollModel, Thumb};
use crate::message::{DetailMono, EditAdjust};
use crate::names;
use crate::names::NameSet;
use crate::seqs;
use crate::single;
use crate::single::Single;
use crate::state;
use crate::state::{AppModel, DetailState, Model, TileModel};
use crate::text;

verus! {

/// How far an arrow key moves the crop window, in pixels of the source.
pub const CROP_STEP_PX: i32 = 5;

/// How far it moves or resizes the window while Shift is held.
pub const CROP_NUDGE_PX: i32 = 1;

/// How much a key resizes the crop window.
pub const CROP_RESIZE_STEP_PX: i32 = 10;

/// Whether a frame is large enough to hold a crop window.
pub open spec fn holds_window(mono: DetailMono) -> bool {
    &&& mono.source_width >= 1
    &&& mono.source_height >= 1
    &&& mono.source_width >= crop::MIN_CROP_WINDOW || mono.source_height >= crop::MIN_CROP_WINDOW
}

/// The test of being the roll of a directory with a given cover.
pub open spec fn covered_by(dir: Seq<char>, name: Seq<char>) -> spec_fn(RollModel) -> bool {
    |r: RollModel| r.dir == dir && r.cover == Some(name)
}

/// The test of being the roll of a directory with one of the given covers.
pub open spec fn covered_by_any(dir: Seq<char>, names: Set<Seq<char>>) -> spec_fn(RollModel) -> bool {
    |r: RollModel| r.dir == dir && r.cover is Some && names.contains(r.cover.unwrap())
}

/// The frames that a paste goes onto: the selected ones; where none is, the
/// focused one, or else the open one.
pub open spec fn paste_targets(m: Model) -> Set<Seq<char>> {
    if m.selected_frames != Set::<Seq<char>>::empty() {
        m.selected_frames
    } else {
        match (m.frame_selected, m.selected) {
            (Some(n), _) => Set::empty().insert(n),
            (None, Some(n)) => Set::empty().insert(n),
            (None, None) => Set::empty(),
        }
    }
}

/// A manifest with the tone of the given files replaced.
pub open spec fn toned(manifest: ManifestModel, names: Set<Seq<char>>, tone: ToneEdit) -> ManifestModel {
    ManifestModel {
        edits: Map::new(
            |n: Seq<char>| manifest.edits.dom().contains(n) || names.contains(n),
            |n: Seq<char>|
                if names.contains(n) {
                    manifest.edits_of(n).with_tone(tone)
                } else {
                    manifest.edits[n]
                },
        ),
        ..manifest
    }
}

/// Frames with the thumbnails of the given ones to be decoded anew.
pub open spec fn tiles_reloading(tiles: Seq<TileModel>, names: Set<Seq<char>>) -> Seq<TileModel> {
    Seq::new(
        tiles.len(),
        |i: int|
            if names.contains(tiles[i].name) && seqs::first_where(
                tiles,
                state::named(tiles[i].name),
            ) == Some(i) {
                TileModel { thumb: Thumb::Loading, ..tiles[i] }
            } else {
                tiles[i]
            },
    )
}

impl Model {
    /// The manifest with the open frame's edits changed.
    pub open spec fn roll_with(self, data: EditData) -> ManifestModel {
        match self.selected {
            Some(n) => self.roll.with_edits(n, data),
            None => self.roll,
        }
    }

    /// The edits that the manifest has for the open frame.
    pub open spec fn open_edits(self) -> EditData {
        match self.selected {
            Some(n) => self.roll.edits_of(n),
            None => EditData::untouched(),
        }
    }

    /// The state with the open frame's exposure set.
    #[verifier::opaque]
    pub open spec fn exposure_set(self, ev: Single) -> Model {
        Model {
            detail: DetailState {
                edit: EditData { exposure_ev: ev, ..self.detail.edit },
                ..self.detail
            },
            roll: self.roll_with(EditData { exposure_ev: ev, ..self.open_edits() }),
            ..self
        }
    }

    /// The state with the open frame's tone curve set.
    #[verifier::opaque]
    pub open spec fn curve_set(self, contrast: Single, rolloff: Single, shadows: Single) -> Model {
        Model {
            detail: DetailState {
                edit: EditData {
                    curve_contrast: contrast,
                    curve_rolloff: rolloff,
                    curve_shadows: shadows,
                    ..self.detail.edit
                },
                ..self.detail
            },
            roll: self.roll_with(
                EditData {
                    curve_contrast: contrast,
                    curve_rolloff: rolloff,
                    curve_shadows: shadows,
                    ..self.open_edits()
                },
            ),
            ..self
        }
    }

    /// The state with the open frame's crop set, and the zoom to be held anew.
    #[verifier::opaque]
    pub open spec fn crop_set(self, crop: CropMargins) -> Model {
        Model {
            detail: DetailState { edit: EditData { crop, ..self.detail.edit }, ..self.detail },
            roll: self.roll_with(EditData { crop, ..self.open_edits() }),
            ..self
        }.emitting(EffectModel::ReclampZoom)
    }

    /// The state with the open frame's rotation set, and the zoom to be held
    /// anew.
    #[verifier::opaque]
    pub open spec fn rotation_set(self, rotation: u8) -> Model {
        Model {
            detail: DetailState { edit: EditData { rotation, ..self.detail.edit }, ..self.detail },
            roll: self.roll_with(EditData { rotation, ..self.open_edits() }),
            ..self
        }.emitting(EffectModel::ReclampZoom)
    }

    /// The state after a keyboard adjustment, whose control's new value is
    /// given and held to the control's range. Without an open frame nothing
    /// is adjusted.
    #[verifier::opaque]
    pub open spec fn adjusted(self, adjust: EditAdjust, moved: Single) -> Model {
        let edit = self.detail.edit;
        let power = single::curve_power_clamped(moved);
        if self.selected is None {
            self
        } else {
            match adjust {
                EditAdjust::Exposure(_) => self.exposure_set(single::ev_clamped(moved)),
                EditAdjust::Contrast(_) => self.curve_set(
                    power,
                    edit.curve_rolloff,
                    edit.curve_shadows,
                ),
                EditAdjust::Rolloff(_) => self.curve_set(
                    edit.curve_contrast,
                    power,
                    edit.curve_shadows,
                ),
                EditAdjust::Shadows(_) => self.curve_set(
                    edit.curve_contrast,
                    edit.curve_rolloff,
                    power,
                ),
                EditAdjust::RotateCcw => self.rotation_set(((edit.rotation + 1) % 4) as u8),
            }
        }
    }

    /// The state with the crop window moved; without a picture it stays.
    #[verifier::opaque]
    pub open spec fn crop_moved(self, direction: CropDirection, delta: int) -> Model {
        match self.detail.live {
            Some(live) => self.crop_set(
                crop::moved(
                    self.detail.edit.crop,
                    direction,
                    delta,
                    live.mono.source_width as int,
                    live.mono.source_height as int,
                ),
            ),
            None => self,
        }
    }

    /// The state with the crop window resized; without a picture that can hold
    /// a window it stays.
    #[verifier::opaque]
    pub open spec fn crop_resized(self, delta: int) -> Model {
        match self.detail.live {
            Some(live) => if holds_window(live.mono) {
                self.crop_set(
                    crop::resized(
                        self.detail.edit.crop,
                        delta,
                        live.mono.source_width as int,
                        live.mono.source_height as int,
                    ),
                )
            } else {
                self
            },
            None => self,
        }
    }

    /// The state after an editing-shortcut key, which acts on an open frame
    /// only. In crop mode only the exposure keys act, and they resize the
    /// window.
    #[verifier::opaque]
    pub open spec fn edit_key_pressed(self, adjust: EditAdjust, moved: Single) -> Model {
        let held = Model { editing_key_held: true, ..self };
        if self.selected is None {
            self
        } else if self.detail.crop_mode {
            let step: int = if self.modifiers.shift {
                CROP_NUDGE_PX as int
            } else {
                CROP_RESIZE_STEP_PX as int
            };
            match adjust {
                EditAdjust::Exposure(delta) => held.crop_resized(
                    if delta.lt(Single { bits: 0 }) {
                        -step
                    } else {
                        step
                    },
                ),
                _ => self,
            }
        } else {
            held.adjusted(adjust, moved)
        }
    }

    /// The state with a frame's thumbnail to be decoded anew.
    #[verifier::opaque]
    pub open spec fn tile_reloading(self, name: Seq<char>) -> Model {
        match self.tile_at(name) {
            Some(k) => self.with_thumb(k, Thumb::Loading),
            None => self,
        }
    }

    /// The state with the open frame's thumbnail decoded anew, and the roll's
    /// cover too where it is that frame.
    #[verifier::opaque]
    pub open spec fn rebaked(self) -> Model {
        match self.selected {
            Some(name) => {
                let shown = self.tile_reloading(name).thumbs_pumped();
                match shown.active {
                    Some(dir) => match seqs::first_where(shown.rolls, covered_by(dir, name)) {
                        Some(k) => shown.with_cover(k, Thumb::Loading).covers_pumped(),
                        None => shown,
                    },
                    None => shown,
                }
            },
            None => self,
        }
    }

    /// The state with the open frame's edits written and its pictures decoded
    /// anew.
    #[verifier::opaque]
    pub open spec fn committed(self) -> Model {
        self.roll_persisted().rebaked()
    }

    /// The state after an editing-shortcut key was released: what was adjusted
    /// while it was held is committed.
    #[verifier::opaque]
    pub open spec fn edit_key_released(self) -> Model {
        if self.editing_key_held {
            Model { editing_key_held: false, ..self }.committed()
        } else {
            self
        }
    }

    /// The state with the edits that the frame was opened with.
    #[verifier::opaque]
    pub open spec fn all_reset(self) -> Model {
        Model {
            detail: DetailState { edit: self.detail.reset, ..self.detail },
            roll: self.roll_with(self.detail.reset),
            ..self
        }.emitting(EffectModel::ReclampZoom)
    }

    /// The state with the crop taken off and that committed.
    #[verifier::opaque]
    pub open spec fn crop_reset(self) -> Model {
        self.crop_set(CropMargins::no_crop()).committed()
    }

    /// The state with crop mode switched, where a picture is on screen.
    /// Outside crop mode the edits are committed. Without an open frame there
    /// is nothing to switch.
    #[verifier::opaque]
    pub open spec fn crop_mode_toggled(self) -> Model {
        let switched = Model {
            detail: DetailState {
                crop_mode: if self.detail.live is Some {
                    !self.detail.crop_mode
                } else {
                    self.detail.crop_mode
                },
                ..self.detail
            },
            ..self
        }.emitting(EffectModel::ReclampZoom);
        if self.selected is None {
            self
        } else if switched.detail.crop_mode {
            switched
        } else {
            switched.committed()
        }
    }

    /// The state with the focused frame's tone copied.
    #[verifier::opaque]
    pub open spec fn copied(self) -> Model {
        match (self.frame_selected, self.selected) {
            (Some(n), _) => Model { clipboard: Some(self.roll.edits_of(n).tone()), ..self },
            (None, Some(n)) => Model { clipboard: Some(self.roll.edits_of(n).tone()), ..self },
            (None, None) => self,
        }
    }

    /// The state with a tone recorded for the given frames, and shown where
    /// the open frame is one of them.
    #[verifier::opaque]
    pub open spec fn tone_applied(self, names: Set<Seq<char>>, tone: ToneEdit) -> Model {
        Model {
            roll: toned(self.roll, names, tone),
            detail: match self.selected {
                Some(open) if names.contains(open) => DetailState {
                    edit: self.detail.edit.with_tone(tone),
                    ..self.detail
                },
                _ => self.detail,
            },
            ..self
        }
    }

    /// The state with the thumbnails of the given frames decoded anew, and the
    /// roll's cover too where it is one of them.
    #[verifier::opaque]
    pub open spec fn rebaked_all(self, names: Set<Seq<char>>) -> Model {
        let shown = Model {
            tiles: tiles_reloading(self.tiles, names),
            ..self
        }.thumbs_pumped();
        match shown.active {
            Some(dir) => match seqs::first_where(shown.rolls, covered_by_any(dir, names)) {
                Some(k) => shown.with_cover(k, Thumb::Loading).covers_pumped(),
                None => shown,
            },
            None => shown,
        }
    }

    /// The state with the copied tone pasted onto the selected frames, written
    /// and decoded anew. With nothing copied or nothing selected it stays.
    #[verifier::opaque]
    pub open spec fn pasted(self) -> Model {
        let names = paste_targets(self);
        match self.clipboard {
            Some(tone) if names != Set::<Seq<char>>::empty() => {
                self.tone_applied(names, tone).roll_persisted().rebaked_all(names)
            },
            _ => self,
        }
    }
}

/// The place of the first roll of a directory whose cover is among the given
/// names.
fn find_covered(rolls: &[crate::library::Roll], dir: &str, among: &NameSet) -> (r: Option<usize>)
    ensures
        library::index_of(r) == seqs::first_where(
            library::roll_models(rolls@),
            covered_by_any(dir@, among.set()),
        ),
        r is Some ==> r.unwrap() < rolls@.len(),
{
    let ghost models = library::roll_models(rolls@);
    let ghost test = covered_by_any(dir@, among.set());
    let mut i: usize = 0;
    while i < rolls.len()
        invariant
            i <= rolls@.len(),
            models == library::roll_models(rolls@),
            test == covered_by_any(dir@, among.set()),
            forall|j: int| 0 <= j < i ==> !test(#[trigger] models[j]),
        decreases rolls@.len() - i,
    {
        assert(models[i as int] == rolls@[i as int].model());
        let covered: bool = match &rolls[i].cover {
            Some(cover) => among.contains(cover.as_str()),
            None => false,
        };
        if covered && text::same_text(rolls[i].dir.as_str(), dir) {
            proof {
                seqs::first_where_from_place(models, test, i as int);
            }
            return Some(i);
        }
        i += 1;
    }
    proof {
        seqs::first_where_from_place(models, test, i as int);
    }
    None
}

/// A single name is a set of one.
proof fn one_cover(rolls: Seq<RollModel>, dir: Seq<char>, name: Seq<char>)
    ensures
        seqs::first_where(rolls, covered_by(dir, name)) == seqs::first_where(
            rolls,
            covered_by_any(dir, Set::<Seq<char>>::empty().insert(name)),
        ),
{
    let one = Set::<Seq<char>>::empty().insert(name);
    seqs::first_where_is_first(rolls, covered_by(dir, name));
    match seqs::first_where(rolls, covered_by(dir, name)) {
        Some(k) => {
            assert forall|i: int| 0 <= i < k implies !covered_by_any(dir, one)(
                #[trigger] rolls[i],
            ) by {
                assert(!covered_by(dir, name)(rolls[i]));
            }
            seqs::first_where_from_place(rolls, covered_by_any(dir, one), k);
        },
        None => {
            assert forall|i: int| 0 <= i < rolls.len() implies !covered_by_any(dir, one)(
                #[trigger] rolls[i],
            ) by {
                assert(!covered_by(dir, name)(rolls[i]));
            }
            seqs::first_where_from_place(rolls, covered_by_any(dir, one), rolls.len() as int);
        },
    }
}

/// Taking one name more into the beginning of a list adds it to the set.
proof fn grown_set(all: Seq<Seq<char>>, i: int)
    requires
        0 <= i < all.len(),
    ensures
        all.take(i + 1).to_set() == all.take(i).to_set().insert(all[i]),
{
    let next = all.take(i + 1);
    let now = all.take(i);
    assert forall|n: Seq<char>| next.to_set().contains(n) == now.to_set().insert(all[i]).contains(
        n,
    ) by {
        if next.to_set().contains(n) {
            let k = choose|k: int| 0 <= k < next.len() && next[k] == n;
            if k < i {
                assert(now[k] == n);
            }
        }
        if now.to_set().contains(n) {
            let k = choose|k: int| 0 <= k < now.len() && now[k] == n;
            assert(next[k] == n);
        }
        assert(next[i] == all[i]);
    }
    assert(next.to_set() =~= now.to_set().insert(all[i]));
}

/// Frames with the same names are found in the same places.
proof fn same_names_same_place(a: Seq<TileModel>, b: Seq<TileModel>, name: Seq<char>)
    requires
        a.len() == b.len(),
        forall|i: int| 0 <= i < a.len() ==> (#[trigger] a[i]).name == b[i].name,
    ensures
        seqs::first_where(a, state::named(name)) == seqs::first_where(b, state::named(name)),
{
    seqs::first_where_is_first(b, state::named(name));
    match seqs::first_where(b, state::named(name)) {
        Some(k) => {
            assert forall|i: int| 0 <= i < k implies !state::named(name)(#[trigger] a[i]) by {
                assert(!state::named(name)(b[i]));
            }
            assert(a[k].name == b[k].name);
            seqs::first_where_from_place(a, state::named(name), k);
        },
        None => {
            assert forall|i: int| 0 <= i < a.len() implies !state::named(name)(
                #[trigger] a[i],
            ) by {
                assert(!state::named(name)(b[i]));
            }
            seqs::first_where_from_place(a, state::named(name), a.len() as int);
        },
    }
}

impl AppModel {
    /// Sets the open frame's exposure, on screen and in the manifest.
    pub(crate) fn set_exposure(&mut self, ev: Single)
        requires
            old(self).well_formed(),
        ensures
            final(self).well_formed(),
            final(self)@ == old(self)@.exposure_set(ev),
    {
        reveal(Model::exposure_set);
        self.detail.edit.exposure_ev = ev;
        match &self.selected {
            Some(name) => self.roll.set_exposure(name.as_str(), ev),
            None => {},
        }
    }

    /// Sets the open frame's tone curve, on screen and in the manifest.
    pub(crate) fn set_curve(&mut self, contrast: Single, rolloff: Single, shadows: Single)
        requires
            old(self).well_formed(),
        ensures
            final(self).well_formed(),
            final(self)@ == old(self)@.curve_set(contrast, rolloff, shadows),
    {
        reveal(Model::curve_set);
        self.detail.edit.curve_contrast = contrast;
        self.detail.edit.curve_rolloff = rolloff;
        self.detail.edit.curve_shadows = shadows;
        match &self.selected {
            Some(name) => self.roll.set_curve(name.as_str(), contrast, rolloff, shadows),
            None => {},
        }
    }

    /// Sets the open frame's crop, on screen and in the manifest.
    pub(crate) fn set_crop(&mut self, crop: CropMargins)
        requires
            old(self).well_formed(),
        ensures
            final(self).well_formed(),
            final(self)@ == old(self)@.crop_set(crop),
    {
        reveal(Model::crop_set);
        self.detail.edit.crop = crop;
        match &self.selected {
            Some(name) => self.roll.set_crop(name.as_str(), crop),
            None => {},
        }
        self.emit(Effect::ReclampZoom);
    }

    /// Sets the open frame's rotation, on screen and in the manifest.
    fn set_rotation(&mut self, rotation: u8)
        requires
            old(self).well_formed(),
        ensures
            final(self).well_formed(),
            final(self)@ == old(self)@.rotation_set(rotation),
    {
        reveal(Model::rotation_set);
        self.detail.edit.rotation = rotation;
        match &self.selected {
            Some(name) => self.roll.set_rotation(name.as_str(), rotation),
            None => {},
        }
        self.emit(Effect::ReclampZoom);
    }

    /// Applies a keyboard adjustment to the open frame.
    fn apply_edit_adjust(&mut self, adjust: EditAdjust, moved: Single)
        requires
            old(self).well_formed(),
        ensures
            final(self).well_formed(),
            final(self)@ == old(self)@.adjusted(adjust, moved),
    {
        reveal(Model::adjusted);
        if self.selected.is_none() {
            return;
        }
        let edit: EditData = self.detail.edit;
        let power: Single = single::clamp_curve_power(moved);
        match adjust {
            EditAdjust::Exposure(_) => self.set_exposure(single::clamp_ev(moved)),
            EditAdjust::Contrast(_) => self.set_curve(
                power,
                edit.curve_rolloff,
                edit.curve_shadows,
            ),
            EditAdjust::Rolloff(_) => self.set_curve(
                edit.curve_contrast,
                power,
                edit.curve_shadows,
            ),
            EditAdjust::Shadows(_) => self.set_curve(
                edit.curve_contrast,
                edit.curve_rolloff,
                power,
            ),
            EditAdjust::RotateCcw => self.set_rotation((edit.rotation % 4 + 1) % 4),
        }
    }

    /// Moves the crop window.
    pub(crate) fn apply_crop_move(&mut self, direction: CropDirection, delta: i32)
        requires
            old(self).well_formed(),
        ensures
            final(self).well_formed(),
            final(self)@ == old(self)@.crop_moved(direction, delta as int),
    {
        reveal(Model::crop_moved);
        match self.detail.live {
            Some(live) => {
                let next: CropMargins = crop::move_crop_box(
                    self.detail.edit.crop,
                    direction,
                    delta,
                    live.mono.source_width,
                    live.mono.source_height,
                );
                self.set_crop(next);
            },
            None => {},
        }
    }

    /// Resizes the crop window.
    fn apply_crop_resize(&mut self, delta: i32)
        requires
            old(self).well_formed(),
        ensures
            final(self).well_formed(),
            final(self)@ == old(self)@.crop_resized(delta as int),
    {
        reveal(Model::crop_resized);
        match self.detail.live {
            Some(live) => {
                let (w, h): (u32, u32) = (live.mono.source_width, live.mono.source_height);
                if w >= 1 && h >= 1 && (w >= crop::MIN_CROP_WINDOW || h >= crop::MIN_CROP_WINDOW) {
                    let next: CropMargins = crop::resize_crop_box(
                        self.detail.edit.crop,
                        delta,
                        w,
                        h,
                    );
                    self.set_crop(next);
                }
            },
            None => {},
        }
    }

    /// Acts on an editing-shortcut key.
    pub(crate) fn press_edit_key(&mut self, adjust: EditAdjust, moved: Single)
        requires
            old(self).well_formed(),
        ensures
            final(self).well_formed(),
            final(self)@ == old(self)@.edit_key_pressed(adjust, moved),
    {
        reveal(Model::edit_key_pressed);
        if self.selected.is_none() {
            return;
        }
        if self.detail.crop_mode {
            let step: i32 = if self.modifiers.shift {
                CROP_NUDGE_PX
            } else {
                CROP_RESIZE_STEP_PX
            };
            match adjust {
                EditAdjust::Exposure(delta) => {
                    self.editing_key_held = true;
                    let delta: i32 = if delta.less(Single { bits: 0 }) {
                        -step
                    } else {
                        step
                    };
                    self.apply_crop_resize(delta);
                },
                _ => {},
            }
            return;
        }
        self.editing_key_held = true;
        self.apply_edit_adjust(adjust, moved);
    }

    /// Has a frame's thumbnail decoded anew.
    fn reload_tile(&mut self, name: &str)
        requires
            old(self).well_formed(),
        ensures
            final(self).well_formed(),
            final(self)@ == old(self)@.tile_reloading(name@),
    {
        reveal(Model::tile_reloading);
        match state::find_tile(self.tiles.as_slice(), name) {
            Some(k) => self.set_thumb(k, Thumb::Loading),
            None => {},
        }
    }

    /// Has the open frame's thumbnail decoded anew, and the roll's cover too
    /// where it is that frame.
    fn re_bake_edit(&mut self)
        requires
            old(self).well_formed(),
        ensures
            final(self).well_formed(),
            final(self)@ == old(self)@.rebaked(),
    {
        reveal(Model::rebaked);
        let name: String = match &self.selected {
            Some(name) => name.clone(),
            None => {
                return;
            },
        };
        self.reload_tile(name.as_str());
        self.decode_next();
        let dir: Option<String> = text::clone_option(&self.active);
        match dir {
            Some(dir) => {
                let one: NameSet = NameSet::single(name.as_str());
                proof {
                    one_cover(self@.rolls, dir@, name@);
                }
                match find_covered(self.rolls.as_slice(), dir.as_str(), &one) {
                    Some(k) => {
                        self.set_cover(k, Thumb::Loading);
                        self.decode_covers();
                    },
                    None => {},
                }
            },
            None => {},
        }
    }

    /// Writes the open frame's edits and has its pictures decoded anew.
    pub(crate) fn commit_edit(&mut self)
        requires
            old(self).well_formed(),
        ensures
            final(self).well_formed(),
            final(self)@ == old(self)@.committed(),
    {
        reveal(Model::committed);
        self.persist_roll();
        self.re_bake_edit();
    }

    /// Acts on the release of an editing-shortcut key.
    pub(crate) fn release_edit_key(&mut self)
        requires
            old(self).well_formed(),
        ensures
            final(self).well_formed(),
            final(self)@ == old(self)@.edit_key_released(),
    {
        reveal(Model::edit_key_released);
        if self.editing_key_held {
            self.editing_key_held = false;
            self.commit_edit();
        }
    }

    /// Goes back to the edits that the frame was opened with.
    pub(crate) fn reset_all(&mut self)
        requires
            old(self).well_formed(),
        ensures
            final(self).well_formed(),
            final(self)@ == old(self)@.all_reset(),
    {
        reveal(Model::all_reset);
        let reset: EditData = self.detail.reset;
        self.detail.edit = reset;
        match &self.selected {
            Some(name) => self.roll.set_edits(name.as_str(), reset),
            None => {},
        }
        self.emit(Effect::ReclampZoom);
    }

    /// Takes the crop off and commits that.
    pub(crate) fn reset_crop(&mut self)
        requires
            old(self).well_formed(),
        ensures
            final(self).well_formed(),
            final(self)@ == old(self)@.crop_reset(),
    {
        reveal(Model::crop_reset);
        self.set_crop(CropMargins::default());
        self.commit_edit();
    }

    /// Switches crop mode.
    pub(crate) fn toggle_crop_mode(&mut self)
        requires
            old(self).well_formed(),
        ensures
            final(self).well_formed(),
            final(self)@ == old(self)@.crop_mode_toggled(),
    {
        reveal(Model::crop_mode_toggled);
        if self.selected.is_none() {
            return;
        }
        if self.detail.live.is_some() {
            self.detail.crop_mode = !self.detail.crop_mode;
        }
        self.emit(Effect::ReclampZoom);
        if !self.detail.crop_mode {
            self.commit_edit();
        }
    }

    /// Copies the focused frame's tone.
    pub(crate) fn copy_edits(&mut self)
        requires
            old(self).well_formed(),
        ensures
            final(self).well_formed(),
            final(self)@ == old(self)@.copied(),
    {
        reveal(Model::copied);
        let source: Option<String> = match &self.frame_selected {
            Some(name) => Some(name.clone()),
            None => text::clone_option(&self.selected),
        };
        match source {
            Some(name) => {
                self.clipboard = Some(self.roll.tone(name.as_str()));
            },
            None => {},
        }
    }

    /// The frames that a paste goes onto.
    fn targets(&self) -> (r: NameSet)
        requires
            self.well_formed(),
        ensures
            r.well_formed(),
            r.set() == paste_targets(self@),
    {
        if !self.selected_frames.is_empty() {
            return self.selected_frames.copy();
        }
        match (&self.frame_selected, &self.selected) {
            (Some(name), _) => NameSet::single(name.as_str()),
            (None, Some(name)) => NameSet::single(name.as_str()),
            (None, None) => NameSet::new(),
        }
    }

    /// Records a tone for the given frames, and shows it where the open frame
    /// is one of them.
    fn apply_tone(&mut self, targets: &NameSet, tone: ToneEdit)
        requires
            old(self).well_formed(),
            targets.well_formed(),
        ensures
            final(self).well_formed(),
            final(self)@ == old(self)@.tone_applied(targets.set(), tone),
    {
        reveal(Model::tone_applied);
        let ghost before = self@;
        let ghost all = targets.list();
        proof {
            assert(all.take(0).to_set() =~= Set::<Seq<char>>::empty());
            assert(toned(before.roll, all.take(0).to_set(), tone).edits =~= before.roll.edits);
        }
        let mut i: usize = 0;
        while i < targets.names.len()
            invariant
                self.well_formed(),
                i <= targets.names@.len(),
                all == targets.list(),
                targets.well_formed(),
                self@ == (Model {
                    roll: toned(before.roll, all.take(i as int).to_set(), tone),
                    ..before
                }),
            decreases targets.names@.len() - i,
        {
            let name: &String = &targets.names[i];
            let ghost done = all.take(i as int).to_set();
            let ghost held = self@;
            self.roll.set_tone(name.as_str(), tone);
            proof {
                let next = all.take(i + 1).to_set();
                assert(all[i as int] == name@);
                grown_set(all, i as int);
                assert(!done.contains(name@)) by {
                    if done.contains(name@) {
                        let k = choose|k: int|
                            0 <= k < all.take(i as int).len() && all.take(i as int)[k] == name@;
                        assert(text::text_lt(all[k], all[i as int]));
                    }
                }
                assert(held.roll.edits_of(name@) == before.roll.edits_of(name@));
                assert(self@.roll.edits =~= toned(before.roll, next, tone).edits);
            }
            i += 1;
        }
        proof {
            assert(all.take(i as int) =~= all);
        }
        let open: bool = match &self.selected {
            Some(name) => targets.contains(name.as_str()),
            None => false,
        };
        if open {
            self.detail.edit = EditData {
                exposure_ev: tone.exposure_ev,
                curve_contrast: tone.curve_contrast,
                curve_rolloff: tone.curve_rolloff,
                curve_shadows: tone.curve_shadows,
                ..self.detail.edit
            };
        }
    }

    /// Has the thumbnails of the given frames decoded anew.
    fn reload_tiles(&mut self, targets: &NameSet)
        requires
            old(self).well_formed(),
        ensures
            final(self).well_formed(),
            final(self)@ == (Model {
                tiles: tiles_reloading(old(self)@.tiles, targets.set()),
                ..old(self)@
            }),
    {
        let ghost before = self@;
        let ghost want = tiles_reloading(before.tiles, targets.set());
        let mut i: usize = 0;
        while i < self.tiles.len()
            invariant
                self.well_formed(),
                i <= self.tiles@.len(),
                self.tiles@.len() == before.tiles.len(),
                want == tiles_reloading(before.tiles, targets.set()),
                self@.tiles.len() == before.tiles.len(),
                forall|j: int| 0 <= j < i ==> self@.tiles[j] == want[j],
                forall|j: int| i <= j < before.tiles.len() ==> self@.tiles[j] == before.tiles[j],
                self@ == (Model { tiles: self@.tiles, ..before }),
            decreases self.tiles@.len() - i,
        {
            proof {
                let name = before.tiles[i as int].name;
                assert(self@.tiles[i as int] == self.tiles@[i as int].model());
                assert forall|j: int| 0 <= j < before.tiles.len() implies (#[trigger] self@.tiles[j]).name
                    == before.tiles[j].name by {
                    if j < i {
                        assert(self@.tiles[j] == want[j]);
                    }
                }
                same_names_same_place(self@.tiles, before.tiles, name);
            }
            if targets.contains(self.tiles[i].name.as_str()) {
                match state::find_tile(self.tiles.as_slice(), self.tiles[i].name.as_str()) {
                    Some(k) => if k == i {
                        self.set_thumb(i, Thumb::Loading);
                    },
                    None => {},
                }
            }
            assert(self@.tiles.len() == self.tiles@.len());
            i += 1;
        }
        assert(self@.tiles =~= want);
    }

    /// Has the thumbnails of the given frames decoded anew, and the roll's
    /// cover too where it is one of them.
    fn re_bake_all(&mut self, targets: &NameSet)
        requires
            old(self).well_formed(),
        ensures
            final(self).well_formed(),
            final(self)@ == old(self)@.rebaked_all(targets.set()),
    {
        reveal(Model::rebaked_all);
        self.reload_tiles(targets);
        self.decode_next();
        let dir: Option<String> = text::clone_option(&self.active);
        match dir {
            Some(dir) => match find_covered(self.rolls.as_slice(), dir.as_str(), targets) {
                Some(k) => {
                    self.set_cover(k, Thumb::Loading);
                    self.decode_covers();
                },
                None => {},
            },
            None => {},
        }
    }

    /// Pastes the copied tone onto the selected frames.
    pub(crate) fn paste_edits(&mut self)
        requires
            old(self).well_formed(),
        ensures
            final(self).well_formed(),
            final(self)@ == old(self)@.pasted(),
    {
        reveal(Model::pasted);
        let tone: ToneEdit = match self.clipboard {
            Some(tone) => tone,
            None => {
                return;
            },
        };
        let targets: NameSet = self.targets();
        if targets.is_empty() {
            return;
        }
        self.apply_tone(&targets, tone);
        self.persist_roll();
        self.re_bake_all(&targets);
    }
}

} // verus!
