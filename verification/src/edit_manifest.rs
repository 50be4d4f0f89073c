//! A roll's manifest: its metadata and the edits of its frames.

use vstd::prelude::*;
use crate::film::{BaseConfig, BaseMode, FilmPreset};
use crate::paths;
use crate::single::Single;
use crate::text;

verus! {

/// Source-pixel margins removed from each edge of a frame by a crop. The
/// all-zero default is no crop.
#[derive(Clone, Copy, Debug, PartialEq, Eq, Structural)]
pub struct CropMargins {
    pub top: u32,
    pub right: u32,
    pub bottom: u32,
    pub left: u32,
}

impl Default for CropMargins {
    fn default() -> (r: Self)
        ensures
            r == Self::no_crop(),
    {
        CropMargins { top: 0, right: 0, bottom: 0, left: 0 }
    }
}

/// What is left of a side once two margins are taken off it.
pub open spec fn remaining(source: int, a: int, b: int) -> int {
    if source - a - b > 0 {
        source - a - b
    } else {
        0
    }
}

impl CropMargins {
    /// Margins that take nothing off.
    pub open spec fn no_crop() -> CropMargins {
        CropMargins { top: 0, right: 0, bottom: 0, left: 0 }
    }

    /// The cropped width given the source width.
    pub fn cropped_width(self, source: u32) -> (r: u32)
        ensures
            r == remaining(source as int, self.left as int, self.right as int),
    {
        source.saturating_sub(self.left).saturating_sub(self.right)
    }

    /// The cropped height given the source height.
    pub fn cropped_height(self, source: u32) -> (r: u32)
        ensures
            r == remaining(source as int, self.top as int, self.bottom as int),
    {
        source.saturating_sub(self.top).saturating_sub(self.bottom)
    }
}

/// Which edge of the upright source frame a crop window moves toward.
#[derive(Clone, Copy, Debug, PartialEq, Eq, Structural)]
pub enum CropDirection {
    Top,
    Bottom,
    Left,
    Right,
}

/// The tone part of a frame's edits: what copy and paste carry.
#[derive(Clone, Copy, Debug, PartialEq, Eq, Structural)]
pub struct ToneEdit {
    pub exposure_ev: Single,
    pub curve_contrast: Single,
    pub curve_rolloff: Single,
    pub curve_shadows: Single,
}

impl ToneEdit {
    /// The tone of a frame that was never edited: +0.7 EV and identity powers.
    pub open spec fn untouched() -> ToneEdit {
        ToneEdit {
            exposure_ev: Single { bits: 0x3f33_3333 },
            curve_contrast: Single { bits: 0x3f80_0000 },
            curve_rolloff: Single { bits: 0x3f80_0000 },
            curve_shadows: Single { bits: 0x3f80_0000 },
        }
    }

    /// The value stored for a file carrying no edits.
    pub fn identity() -> (r: Self)
        ensures
            r == Self::untouched(),
    {
        ToneEdit {
            exposure_ev: Single { bits: 0x3f33_3333 },
            curve_contrast: Single { bits: 0x3f80_0000 },
            curve_rolloff: Single { bits: 0x3f80_0000 },
            curve_shadows: Single { bits: 0x3f80_0000 },
        }
    }
}

impl Default for ToneEdit {
    fn default() -> (r: Self)
        ensures
            r == ToneEdit::untouched(),
    {
        ToneEdit::identity()
    }
}

/// Per-file edits.
#[derive(Clone, Copy, Debug, PartialEq, Eq, Structural)]
pub struct EditData {
    /// Exposure compensation in EV (-3.00 to +4.00).
    pub exposure_ev: Single,
    /// Contrast power, pivoted at the image's mid-gray; one is identity.
    pub curve_contrast: Single,
    /// Highlight-rolloff power, pivoted at the white point; one is identity.
    pub curve_rolloff: Single,
    /// Shadows power, pivoted at the shadow anchor; one is identity.
    pub curve_shadows: Single,
    /// Source-pixel crop margins. A crop is no part of [`ToneEdit`], so copy
    /// and paste never carry it onto another frame.
    pub crop: CropMargins,
    /// Counter-clockwise quarter-turns of the display on top of the file's own
    /// orientation.
    pub rotation: u8,
}

impl EditData {
    /// An entry without any edit.
    pub open spec fn untouched() -> EditData {
        EditData {
            exposure_ev: ToneEdit::untouched().exposure_ev,
            curve_contrast: ToneEdit::untouched().curve_contrast,
            curve_rolloff: ToneEdit::untouched().curve_rolloff,
            curve_shadows: ToneEdit::untouched().curve_shadows,
            crop: CropMargins::no_crop(),
            rotation: 0,
        }
    }

    /// The tone part of the edits.
    pub open spec fn tone(self) -> ToneEdit {
        ToneEdit {
            exposure_ev: self.exposure_ev,
            curve_contrast: self.curve_contrast,
            curve_rolloff: self.curve_rolloff,
            curve_shadows: self.curve_shadows,
        }
    }

    /// The edits with their tone part replaced.
    pub open spec fn with_tone(self, tone: ToneEdit) -> EditData {
        EditData {
            exposure_ev: tone.exposure_ev,
            curve_contrast: tone.curve_contrast,
            curve_rolloff: tone.curve_rolloff,
            curve_shadows: tone.curve_shadows,
            ..self
        }
    }
}

impl Default for EditData {
    fn default() -> (r: Self)
        ensures
            r == EditData::untouched(),
    {
        let tone: ToneEdit = ToneEdit::identity();
        EditData {
            exposure_ev: tone.exposure_ev,
            curve_contrast: tone.curve_contrast,
            curve_rolloff: tone.curve_rolloff,
            curve_shadows: tone.curve_shadows,
            crop: CropMargins { top: 0, right: 0, bottom: 0, left: 0 },
            rotation: 0,
        }
    }
}

/// The edits of one file of the roll.
#[derive(Debug)]
pub struct EditEntry {
    pub name: String,
    pub data: EditData,
}

/// The edits that a list of entries holds, by file name.
pub open spec fn edit_map(entries: Seq<EditEntry>) -> Map<Seq<char>, EditData>
    decreases entries.len(),
{
    if entries.len() == 0 {
        Map::empty()
    } else {
        edit_map(entries.drop_last()).insert(entries.last().name@, entries.last().data)
    }
}

/// Whether no two entries are for the same file.
pub open spec fn distinct_names(entries: Seq<EditEntry>) -> bool {
    forall|i: int, j: int|
        0 <= i < j < entries.len() ==> #[trigger] entries[i].name@ != #[trigger] entries[j].name@
}

/// A name is edited exactly when an entry has it, with that entry's data.
proof fn edit_map_entries(entries: Seq<EditEntry>)
    requires
        distinct_names(entries),
    ensures
        forall|i: int|
            0 <= i < entries.len() ==> edit_map(entries).dom().contains(
                (#[trigger] entries[i]).name@,
            ) && edit_map(entries)[entries[i].name@] == entries[i].data,
        forall|n: Seq<char>| #[trigger]
            edit_map(entries).dom().contains(n) ==> exists|i: int|
                0 <= i < entries.len() && (#[trigger] entries[i]).name@ == n,
    decreases entries.len(),
{
    if entries.len() > 0 {
        let init = entries.drop_last();
        assert(distinct_names(init)) by {
            assert forall|i: int, j: int| 0 <= i < j < init.len() implies #[trigger] init[i].name@
                != #[trigger] init[j].name@ by {
                assert(entries[i].name@ != entries[j].name@);
            }
        }
        edit_map_entries(init);
        assert forall|i: int| 0 <= i < entries.len() implies edit_map(entries).dom().contains(
            (#[trigger] entries[i]).name@,
        ) && edit_map(entries)[entries[i].name@] == entries[i].data by {
            if i < init.len() {
                assert(init[i] == entries[i]);
                assert(entries[i].name@ != entries[entries.len() - 1].name@);
            }
        }
        assert forall|n: Seq<char>| #[trigger] edit_map(entries).dom().contains(n) implies exists|
            i: int,
        |
            0 <= i < entries.len() && (#[trigger] entries[i]).name@ == n by {
            if n == entries.last().name@ {
                assert(entries[entries.len() - 1].name@ == n);
            } else {
                assert(edit_map(init).dom().contains(n));
                let i = choose|i: int| 0 <= i < init.len() && (#[trigger] init[i]).name@ == n;
                assert(entries[i].name@ == n);
            }
        }
    }
}

/// Replacing the data of an entry inserts it under the entry's name.
proof fn edit_map_update(entries: Seq<EditEntry>, k: int, entry: EditEntry)
    requires
        distinct_names(entries),
        0 <= k < entries.len(),
        entry.name@ == entries[k].name@,
    ensures
        distinct_names(entries.update(k, entry)),
        edit_map(entries.update(k, entry)) == edit_map(entries).insert(entry.name@, entry.data),
{
    let next = entries.update(k, entry);
    assert(distinct_names(next)) by {
        assert forall|i: int, j: int| 0 <= i < j < next.len() implies #[trigger] next[i].name@
            != #[trigger] next[j].name@ by {
            assert(entries[i].name@ != entries[j].name@);
        }
    }
    edit_map_entries(entries);
    edit_map_entries(next);
    let want = edit_map(entries).insert(entry.name@, entry.data);
    assert(edit_map(next) =~= want) by {
        assert forall|n: Seq<char>| edit_map(next).dom().contains(n) == want.dom().contains(n) by {
            if edit_map(next).dom().contains(n) {
                let i = choose|i: int| 0 <= i < next.len() && (#[trigger] next[i]).name@ == n;
                assert(entries[i].name@ == n);
            }
            if want.dom().contains(n) {
                if n == entry.name@ {
                    assert(next[k].name@ == n);
                } else {
                    let i = choose|i: int|
                        0 <= i < entries.len() && (#[trigger] entries[i]).name@ == n;
                    assert(next[i].name@ == n);
                }
            }
        }
        assert forall|n: Seq<char>| edit_map(next).dom().contains(n) implies edit_map(next)[n]
            == want[n] by {
            let i = choose|i: int| 0 <= i < next.len() && (#[trigger] next[i]).name@ == n;
            assert(next[i].name@ == n);
            if i != k {
                assert(entries[i].name@ == n);
                if i < k {
                    assert(entries[i].name@ != entries[k].name@);
                } else {
                    assert(entries[k].name@ != entries[i].name@);
                }
            }
        }
    }
}

/// A film roll directory's manifest: roll metadata plus per-file edits, keyed
/// by file name within the roll.
#[derive(Debug)]
pub struct RollManifest {
    /// Manifest format revision.
    pub version: u32,
    /// Optional human-readable roll label.
    pub name: Option<String>,
    /// Edits, at most one entry for each file name.
    pub edits: Vec<EditEntry>,
    /// The film preset's choice key; absent means no inversion.
    pub preset: Option<String>,
    /// The base strategy's choice key; absent means the preset base.
    pub base_mode: Option<String>,
    /// The measured clear-film transmission of the calibration frame.
    pub base: Option<Single>,
    /// The frame whose clear-film plateau is the roll's black point.
    pub calibration_frame: Option<String>,
    /// The roll's start date, ISO `YYYY-MM-DD`.
    pub start_date: Option<String>,
    /// The roll's end date, ISO `YYYY-MM-DD`.
    pub end_date: Option<String>,
}

impl Default for RollManifest {
    fn default() -> (r: Self)
        ensures
            r.well_formed(),
            r.is_blank(),
    {
        RollManifest {
            version: 8,
            name: None,
            edits: Vec::new(),
            preset: None,
            base_mode: None,
            base: None,
            calibration_frame: None,
            start_date: None,
            end_date: None,
        }
    }
}

/// What a manifest records, with its texts as sequences of characters and the
/// edits by file name.
#[verifier::ext_equal]
pub struct ManifestModel {
    pub version: u32,
    pub name: Option<Seq<char>>,
    pub edits: Map<Seq<char>, EditData>,
    pub preset: Option<Seq<char>>,
    pub base_mode: Option<Seq<char>>,
    pub base: Option<Single>,
    pub calibration_frame: Option<Seq<char>>,
    pub start_date: Option<Seq<char>>,
    pub end_date: Option<Seq<char>>,
}

impl ManifestModel {
    /// A manifest that records nothing, in the current format.
    pub open spec fn blank() -> ManifestModel {
        ManifestModel {
            version: 8,
            name: None,
            edits: Map::empty(),
            preset: None,
            base_mode: None,
            base: None,
            calibration_frame: None,
            start_date: None,
            end_date: None,
        }
    }

    /// The edits of a file; one that was never touched has none.
    pub open spec fn edits_of(self, name: Seq<char>) -> EditData {
        if self.edits.dom().contains(name) {
            self.edits[name]
        } else {
            EditData::untouched()
        }
    }

    /// The manifest with the edits of a file set.
    pub open spec fn with_edits(self, name: Seq<char>, data: EditData) -> ManifestModel {
        ManifestModel { edits: self.edits.insert(name, data), ..self }
    }

    /// The preset that the recorded key stands for.
    pub open spec fn film(self) -> FilmPreset {
        match self.preset {
            Some(key) => FilmPreset::of_key(key),
            None => FilmPreset::Positive,
        }
    }

    /// The manifest with a film preset recorded.
    pub open spec fn with_film(self, preset: FilmPreset) -> ManifestModel {
        ManifestModel {
            preset: if preset == FilmPreset::Positive {
                None
            } else {
                Some(preset.key())
            },
            ..self
        }
    }

    /// The base strategy that the recorded key stands for.
    pub open spec fn strategy(self) -> BaseMode {
        match self.base_mode {
            Some(key) => BaseMode::of_key(key),
            None => BaseMode::Preset,
        }
    }

    /// The manifest with a base strategy recorded.
    pub open spec fn with_strategy(self, mode: BaseMode) -> ManifestModel {
        ManifestModel {
            base_mode: if mode == BaseMode::Preset {
                None
            } else {
                Some(mode.key())
            },
            ..self
        }
    }

    /// The manifest with a calibration frame and what was measured of it;
    /// where nothing plausible was, the base stays as it is.
    pub open spec fn calibrated(self, name: Seq<char>, base: Option<Single>) -> ManifestModel {
        ManifestModel {
            calibration_frame: Some(name),
            base: if base is Some {
                base
            } else {
                self.base
            },
            ..self
        }
    }

    /// The roll's base-resolution state, over its strategy.
    pub open spec fn base_state(self) -> BaseConfig {
        match self.strategy() {
            BaseMode::AutoPerFrame => BaseConfig { calibrated: None, auto: true },
            BaseMode::AutoSelectedFrame => BaseConfig { calibrated: self.base, auto: false },
            BaseMode::Preset => BaseConfig { calibrated: None, auto: false },
        }
    }

    /// The manifest without the edits of files that are gone.
    pub open spec fn reconciled(self, files: Seq<Seq<char>>) -> ManifestModel {
        ManifestModel { edits: self.edits.restrict(files.to_set()), ..self }
    }
}

impl Clone for EditEntry {
    fn clone(&self) -> (r: Self)
        ensures
            r == *self,
    {
        EditEntry { name: self.name.clone(), data: self.data }
    }
}

impl Clone for RollManifest {
    fn clone(&self) -> (r: Self)
        ensures
            r.model() == self.model(),
            self.well_formed() ==> r.well_formed(),
    {
        let mut edits: Vec<EditEntry> = Vec::new();
        let mut i: usize = 0;
        while i < self.edits.len()
            invariant
                i <= self.edits@.len(),
                edits@ == self.edits@.take(i as int),
            decreases self.edits@.len() - i,
        {
            edits.push(self.edits[i].clone());
            assert(edits@ =~= self.edits@.take(i + 1));
            i += 1;
        }
        assert(edits@ =~= self.edits@);
        RollManifest {
            version: self.version,
            name: text::clone_option(&self.name),
            edits,
            preset: text::clone_option(&self.preset),
            base_mode: text::clone_option(&self.base_mode),
            base: self.base,
            calibration_frame: text::clone_option(&self.calibration_frame),
            start_date: text::clone_option(&self.start_date),
            end_date: text::clone_option(&self.end_date),
        }
    }
}

impl RollManifest {
    /// What the manifest records.
    pub open spec fn model(self) -> ManifestModel {
        ManifestModel {
            version: self.version,
            name: text::text_of(self.name),
            edits: self.edited(),
            preset: text::text_of(self.preset),
            base_mode: text::text_of(self.base_mode),
            base: self.base,
            calibration_frame: text::text_of(self.calibration_frame),
            start_date: text::text_of(self.start_date),
            end_date: text::text_of(self.end_date),
        }
    }

    /// At most one entry is for any one file.
    pub open spec fn well_formed(self) -> bool {
        distinct_names(self.edits@)
    }

    /// A manifest that records nothing, in the current format.
    pub open spec fn is_blank(self) -> bool {
        &&& self.version == 8
        &&& self.edits@.len() == 0
        &&& self.name is None && self.preset is None && self.base_mode is None
        &&& self.base is None && self.calibration_frame is None
        &&& self.start_date is None && self.end_date is None
    }

    /// The edits by file name.
    pub open spec fn edited(self) -> Map<Seq<char>, EditData> {
        edit_map(self.edits@)
    }

    /// The edits of a file; one that was never touched has none.
    pub open spec fn edits_of(self, name: Seq<char>) -> EditData {
        if self.edited().dom().contains(name) {
            self.edited()[name]
        } else {
            EditData::untouched()
        }
    }

    /// The manifest with another list of edits.
    pub open spec fn with_edits(self, edits: Vec<EditEntry>) -> RollManifest {
        RollManifest { edits, ..self }
    }

    /// Where the entry for a file stands.
    fn find(&self, name: &str) -> (r: Option<usize>)
        requires
            self.well_formed(),
        ensures
            r is Some <==> self.edited().dom().contains(name@),
            r is Some ==> r.unwrap() < self.edits@.len() && self.edits@[r.unwrap() as int].name@
                == name@ && self.edited()[name@] == self.edits@[r.unwrap() as int].data,
    {
        proof {
            edit_map_entries(self.edits@);
        }
        let mut i: usize = 0;
        while i < self.edits.len()
            invariant
                self.well_formed(),
                i <= self.edits@.len(),
                forall|j: int| 0 <= j < i ==> (#[trigger] self.edits@[j]).name@ != name@,
            decreases self.edits@.len() - i,
        {
            if text::same_text(self.edits[i].name.as_str(), name) {
                assert(self.edits@[i as int].name@ == name@);
                proof {
                    edit_map_entries(self.edits@);
                }
                return Some(i);
            }
            i += 1;
        }
        None
    }

    /// The edits recorded for a file, or none.
    pub fn edit_data(&self, name: &str) -> (r: EditData)
        requires
            self.well_formed(),
        ensures
            r == self.edits_of(name@),
    {
        match self.find(name) {
            Some(i) => self.edits[i].data,
            None => EditData::default(),
        }
    }

    /// Records the edits of a file in place of what was recorded for it.
    fn record(&mut self, name: &str, data: EditData)
        requires
            old(self).well_formed(),
        ensures
            final(self).well_formed(),
            final(self).edited() == old(self).edited().insert(name@, data),
            *final(self) == old(self).with_edits(final(self).edits),
    {
        match self.find(name) {
            Some(i) => {
                proof {
                    edit_map_update(
                        self.edits@,
                        i as int,
                        EditEntry { name: self.edits@[i as int].name, data },
                    );
                }
                let ghost before = self.edits@;
                self.edits[i].data = data;
                assert(self.edits@ =~= before.update(
                    i as int,
                    EditEntry { name: before[i as int].name, data },
                ));
            },
            None => {
                let ghost before = self.edits@;
                proof {
                    edit_map_entries(before);
                }
                self.edits.push(EditEntry { name: name.to_owned(), data });
                assert(self.edits@.drop_last() =~= before);
                assert(distinct_names(self.edits@)) by {
                    assert forall|i: int, j: int| 0 <= i < j < self.edits@.len() implies #[trigger]
                    self.edits@[i].name@ != #[trigger] self.edits@[j].name@ by {
                        assert(self.edits@[i] == before[i]);
                        if j < before.len() {
                            assert(self.edits@[j] == before[j]);
                        } else {
                            assert(before[i].name@ != name@) by {
                                assert(edit_map(before).dom().contains(before[i].name@));
                            }
                        }
                    }
                }
            },
        }
    }

    /// Records all edits of a file in place of what was recorded for it.
    pub fn set_edits(&mut self, name: &str, data: EditData)
        requires
            old(self).well_formed(),
        ensures
            final(self).well_formed(),
            final(self).edited() == old(self).edited().insert(name@, data),
            *final(self) == old(self).with_edits(final(self).edits),
    {
        self.record(name, data);
    }

    /// Records the exposure for `name`, updating an existing entry in place.
    pub fn set_exposure(&mut self, name: &str, exposure_ev: Single)
        requires
            old(self).well_formed(),
        ensures
            final(self).well_formed(),
            final(self).edited() == old(self).edited().insert(
                name@,
                (EditData { exposure_ev, ..old(self).edits_of(name@) }),
            ),
            *final(self) == old(self).with_edits(final(self).edits),
    {
        let data: EditData = EditData { exposure_ev, ..self.edit_data(name) };
        self.record(name, data);
    }

    /// Records the tone curve for `name`, updating an existing entry in place.
    pub fn set_curve(&mut self, name: &str, contrast: Single, rolloff: Single, shadows: Single)
        requires
            old(self).well_formed(),
        ensures
            final(self).well_formed(),
            final(self).edited() == old(self).edited().insert(
                name@,
                (EditData {
                    curve_contrast: contrast,
                    curve_rolloff: rolloff,
                    curve_shadows: shadows,
                    ..old(self).edits_of(name@)
                }),
            ),
            *final(self) == old(self).with_edits(final(self).edits),
    {
        let data: EditData = EditData {
            curve_contrast: contrast,
            curve_rolloff: rolloff,
            curve_shadows: shadows,
            ..self.edit_data(name)
        };
        self.record(name, data);
    }

    /// The full tone for `name`; files never touched have the identity tone.
    pub fn tone(&self, name: &str) -> (r: ToneEdit)
        requires
            self.well_formed(),
        ensures
            r == self.edits_of(name@).tone(),
    {
        let data: EditData = self.edit_data(name);
        ToneEdit {
            exposure_ev: data.exposure_ev,
            curve_contrast: data.curve_contrast,
            curve_rolloff: data.curve_rolloff,
            curve_shadows: data.curve_shadows,
        }
    }

    /// Replaces the full tone for `name` in one step. The file's crop and
    /// rotation stay as they are.
    pub fn set_tone(&mut self, name: &str, tone: ToneEdit)
        requires
            old(self).well_formed(),
        ensures
            final(self).well_formed(),
            final(self).edited() == old(self).edited().insert(
                name@,
                old(self).edits_of(name@).with_tone(tone),
            ),
            *final(self) == old(self).with_edits(final(self).edits),
    {
        let data: EditData = EditData {
            exposure_ev: tone.exposure_ev,
            curve_contrast: tone.curve_contrast,
            curve_rolloff: tone.curve_rolloff,
            curve_shadows: tone.curve_shadows,
            ..self.edit_data(name)
        };
        self.record(name, data);
    }

    /// The crop margins for `name`; files never touched have none.
    pub fn crop(&self, name: &str) -> (r: CropMargins)
        requires
            self.well_formed(),
        ensures
            r == self.edits_of(name@).crop,
    {
        self.edit_data(name).crop
    }

    /// Records the crop margins for `name`, updating an existing entry in
    /// place.
    pub fn set_crop(&mut self, name: &str, crop: CropMargins)
        requires
            old(self).well_formed(),
        ensures
            final(self).well_formed(),
            final(self).edited() == old(self).edited().insert(
                name@,
                (EditData { crop, ..old(self).edits_of(name@) }),
            ),
            *final(self) == old(self).with_edits(final(self).edits),
    {
        let data: EditData = EditData { crop, ..self.edit_data(name) };
        self.record(name, data);
    }

    /// The user rotation for `name`; files never touched have none.
    pub fn rotation(&self, name: &str) -> (r: u8)
        requires
            self.well_formed(),
        ensures
            r == self.edits_of(name@).rotation,
    {
        self.edit_data(name).rotation
    }

    /// Records the rotation for `name`, updating an existing entry in place.
    pub fn set_rotation(&mut self, name: &str, rotation: u8)
        requires
            old(self).well_formed(),
        ensures
            final(self).well_formed(),
            final(self).edited() == old(self).edited().insert(
                name@,
                (EditData { rotation, ..old(self).edits_of(name@) }),
            ),
            *final(self) == old(self).with_edits(final(self).edits),
    {
        let data: EditData = EditData { rotation, ..self.edit_data(name) };
        self.record(name, data);
    }

    /// The preset that the recorded key stands for.
    pub open spec fn film(self) -> FilmPreset {
        match self.preset {
            Some(key) => FilmPreset::of_key(key@),
            None => FilmPreset::Positive,
        }
    }

    /// The film preset recorded for this roll; an absent or unknown key means
    /// no inversion.
    pub fn preset(&self) -> (r: FilmPreset)
        ensures
            r == self.film(),
    {
        match &self.preset {
            Some(key) => FilmPreset::from_key(key.as_str()),
            None => FilmPreset::Positive,
        }
    }

    /// The roll's human-readable label, or `None` when it uses the directory
    /// leaf as its display name.
    pub fn name(&self) -> (r: Option<&str>)
        ensures
            text::slice_of(r) == text::text_of(self.name),
    {
        text::as_slice(&self.name)
    }

    /// Records the roll's display label; `None` clears it.
    pub fn set_name(&mut self, name: Option<String>)
        ensures
            *final(self) == (RollManifest { name, ..*old(self) }),
    {
        self.name = name;
    }

    /// Records the film preset for the roll. No inversion is recorded by the
    /// key's absence.
    pub fn set_preset(&mut self, preset: FilmPreset)
        ensures
            *final(self) == (RollManifest { preset: final(self).preset, ..*old(self) }),
            text::text_of(final(self).preset) == (if preset == FilmPreset::Positive {
                None
            } else {
                Some(preset.key())
            }),
            final(self).film() == preset,
    {
        proof {
            crate::film::preset_keys_round_trip(preset);
        }
        self.preset = if preset == FilmPreset::Positive {
            None
        } else {
            Some(preset.choice_key().to_owned())
        };
    }

    /// The base strategy that the recorded key stands for.
    pub open spec fn strategy(self) -> BaseMode {
        match self.base_mode {
            Some(key) => BaseMode::of_key(key@),
            None => BaseMode::Preset,
        }
    }

    /// The base strategy recorded for this roll; an absent or unknown key
    /// means the preset base.
    pub fn base_mode(&self) -> (r: BaseMode)
        ensures
            r == self.strategy(),
    {
        match &self.base_mode {
            Some(key) => BaseMode::from_key(key.as_str()),
            None => BaseMode::Preset,
        }
    }

    /// Records the base strategy for the roll. The preset base is recorded by
    /// the key's absence.
    pub fn set_base_mode(&mut self, mode: BaseMode)
        ensures
            *final(self) == (RollManifest { base_mode: final(self).base_mode, ..*old(self) }),
            text::text_of(final(self).base_mode) == (if mode == BaseMode::Preset {
                None
            } else {
                Some(mode.key())
            }),
            final(self).strategy() == mode,
    {
        proof {
            crate::film::base_modes_round_trip(mode);
        }
        self.base_mode = if mode == BaseMode::Preset {
            None
        } else {
            Some(mode.choice_key().to_owned())
        };
    }

    /// The roll's calibrated black point, if one was measured and recorded.
    pub fn calibrated_base(&self) -> (r: Option<Single>)
        ensures
            r == self.base,
    {
        self.base
    }

    /// The roll's start date, or `None` if undated.
    pub fn start_date(&self) -> (r: Option<&str>)
        ensures
            text::slice_of(r) == text::text_of(self.start_date),
    {
        text::as_slice(&self.start_date)
    }

    /// The roll's end date, or `None` if unset.
    pub fn end_date(&self) -> (r: Option<&str>)
        ensures
            text::slice_of(r) == text::text_of(self.end_date),
    {
        text::as_slice(&self.end_date)
    }

    /// Records the roll's start and end dates; `None` clears one.
    pub fn set_dates(&mut self, start: Option<String>, end: Option<String>)
        ensures
            *final(self) == (RollManifest { start_date: start, end_date: end, ..*old(self) }),
    {
        self.start_date = start;
        self.end_date = end;
    }

    /// The frame designated as the roll's calibration reference, if any.
    pub fn calibration_frame(&self) -> (r: Option<&str>)
        ensures
            text::slice_of(r) == text::text_of(self.calibration_frame),
    {
        text::as_slice(&self.calibration_frame)
    }

    /// Designates `name` as the roll's calibration frame.
    pub fn set_calibration_frame(&mut self, name: &str)
        ensures
            *final(self) == (RollManifest {
                calibration_frame: final(self).calibration_frame,
                ..*old(self)
            }),
            text::text_of(final(self).calibration_frame) == Some(name@),
    {
        self.calibration_frame = Some(name.to_owned());
    }

    /// Records a black point measured from the roll's calibration frame.
    pub fn set_calibrated_base(&mut self, base: Single)
        ensures
            *final(self) == (RollManifest { base: Some(base), ..*old(self) }),
    {
        self.base = Some(base);
    }

    /// Clears the calibration reference: both the designated frame and its
    /// measured base.
    pub fn clear_calibration(&mut self)
        ensures
            *final(self) == (RollManifest { base: None, calibration_frame: None, ..*old(self) }),
    {
        self.base = None;
        self.calibration_frame = None;
    }

    /// The roll's base-resolution state, over its strategy.
    pub open spec fn base_state(self) -> BaseConfig {
        match self.strategy() {
            BaseMode::AutoPerFrame => BaseConfig { calibrated: None, auto: true },
            BaseMode::AutoSelectedFrame => BaseConfig { calibrated: self.base, auto: false },
            BaseMode::Preset => BaseConfig { calibrated: None, auto: false },
        }
    }

    /// The roll's base-resolution state: measuring every frame, pinned to the
    /// calibration, or the preset base.
    pub fn base_config(&self) -> (r: BaseConfig)
        ensures
            r == self.base_state(),
    {
        match self.base_mode() {
            BaseMode::AutoPerFrame => BaseConfig { calibrated: None, auto: true },
            BaseMode::AutoSelectedFrame => BaseConfig { calibrated: self.base, auto: false },
            BaseMode::Preset => BaseConfig { calibrated: None, auto: false },
        }
    }
}

/// Full path to the roll manifest inside `dir`.
pub fn manifest_path(dir: &str) -> (r: String)
    ensures
        r@ == paths::joined(dir@, ".film-roll.toml"@),
{
    paths::join(dir, ".film-roll.toml")
}

/// The path that a manifest is first written under, beside the manifest.
pub fn manifest_temp_path(dir: &str) -> (r: String)
    ensures
        r@ == paths::joined(dir@, ".film-roll.toml.tmp"@),
{
    paths::join(dir, ".film-roll.toml.tmp")
}

/// The edits of a file as a manifest file has them. What an older file lacks is
/// absent.
#[derive(Clone, Copy, Debug, PartialEq, Eq, Structural)]
pub struct EditFields {
    pub exposure_ev: Option<Single>,
    pub curve_contrast: Option<Single>,
    pub curve_rolloff: Option<Single>,
    pub curve_shadows: Option<Single>,
    pub crop: Option<CropMargins>,
    pub rotation: Option<u8>,
}

impl EditFields {
    /// The edits that the fields stand for: what is absent is untouched.
    pub open spec fn filled(self) -> EditData {
        let none = EditData::untouched();
        EditData {
            exposure_ev: self.exposure_ev.unwrap_or(none.exposure_ev),
            curve_contrast: self.curve_contrast.unwrap_or(none.curve_contrast),
            curve_rolloff: self.curve_rolloff.unwrap_or(none.curve_rolloff),
            curve_shadows: self.curve_shadows.unwrap_or(none.curve_shadows),
            crop: self.crop.unwrap_or(none.crop),
            rotation: self.rotation.unwrap_or(none.rotation),
        }
    }

    /// The fields that edits are written as: all of them.
    pub open spec fn of(data: EditData) -> EditFields {
        EditFields {
            exposure_ev: Some(data.exposure_ev),
            curve_contrast: Some(data.curve_contrast),
            curve_rolloff: Some(data.curve_rolloff),
            curve_shadows: Some(data.curve_shadows),
            crop: Some(data.crop),
            rotation: Some(data.rotation),
        }
    }

    /// The edits that the fields stand for.
    pub fn fill(self) -> (r: EditData)
        ensures
            r == self.filled(),
    {
        let none: EditData = EditData::default();
        EditData {
            exposure_ev: self.exposure_ev.unwrap_or(none.exposure_ev),
            curve_contrast: self.curve_contrast.unwrap_or(none.curve_contrast),
            curve_rolloff: self.curve_rolloff.unwrap_or(none.curve_rolloff),
            curve_shadows: self.curve_shadows.unwrap_or(none.curve_shadows),
            crop: self.crop.unwrap_or(none.crop),
            rotation: self.rotation.unwrap_or(none.rotation),
        }
    }

    /// The fields that edits are written as.
    pub fn from_data(data: EditData) -> (r: EditFields)
        ensures
            r == Self::of(data),
    {
        EditFields {
            exposure_ev: Some(data.exposure_ev),
            curve_contrast: Some(data.curve_contrast),
            curve_rolloff: Some(data.curve_rolloff),
            curve_shadows: Some(data.curve_shadows),
            crop: Some(data.crop),
            rotation: Some(data.rotation),
        }
    }
}

/// An entry of a manifest file.
#[derive(Debug)]
pub struct FileEntry {
    pub name: String,
    pub fields: EditFields,
}

/// A manifest file, field by field.
#[derive(Debug)]
pub struct ManifestFile {
    pub version: u32,
    pub name: Option<String>,
    pub edits: Vec<FileEntry>,
    pub preset: Option<String>,
    pub base_mode: Option<String>,
    pub base: Option<Single>,
    pub calibration_frame: Option<String>,
    pub start_date: Option<String>,
    pub end_date: Option<String>,
}

/// The edits that the entries of a file stand for, by file name. Of entries
/// for the same file the first counts.
pub open spec fn file_map(entries: Seq<FileEntry>) -> Map<Seq<char>, EditData>
    decreases entries.len(),
{
    if entries.len() == 0 {
        Map::empty()
    } else {
        let before = file_map(entries.drop_last());
        if before.dom().contains(entries.last().name@) {
            before
        } else {
            before.insert(entries.last().name@, entries.last().fields.filled())
        }
    }
}

impl ManifestFile {
    /// What the file records.
    pub open spec fn model(self) -> ManifestModel {
        ManifestModel {
            version: self.version,
            name: text::text_of(self.name),
            edits: file_map(self.edits@),
            preset: text::text_of(self.preset),
            base_mode: text::text_of(self.base_mode),
            base: self.base,
            calibration_frame: text::text_of(self.calibration_frame),
            start_date: text::text_of(self.start_date),
            end_date: text::text_of(self.end_date),
        }
    }

    /// Whether a manifest is written as this file: it records what the
    /// manifest does, with every field of every entry present.
    pub open spec fn is_written_from(self, manifest: RollManifest) -> bool {
        &&& self.model() == manifest.model()
        &&& self.edits@.len() == manifest.edits@.len()
        &&& forall|i: int|
            0 <= i < self.edits@.len() ==> (#[trigger] self.edits@[i]).name@
                == manifest.edits@[i].name@ && self.edits@[i].fields == EditFields::of(
                manifest.edits@[i].data,
            )
    }

    /// The manifest that the file records.
    pub fn read(self) -> (r: RollManifest)
        ensures
            r.well_formed(),
            r.model() == self.model(),
    {
        let mut edits: Vec<EditEntry> = Vec::new();
        let mut i: usize = 0;
        assert(self.edits@.take(0) =~= Seq::<FileEntry>::empty());
        while i < self.edits.len()
            invariant
                i <= self.edits@.len(),
                distinct_names(edits@),
                edit_map(edits@) == file_map(self.edits@.take(i as int)),
            decreases self.edits@.len() - i,
        {
            let entry: &FileEntry = &self.edits[i];
            let ghost held = edits@;
            let mut j: usize = 0;
            let mut repeated: bool = false;
            while j < edits.len()
                invariant
                    j <= edits@.len(),
                    edits@ == held,
                    repeated <==> exists|k: int|
                        0 <= k < j && (#[trigger] held[k]).name@ == entry.name@,
                decreases edits@.len() - j,
            {
                if text::same_text(edits[j].name.as_str(), entry.name.as_str()) {
                    assert(held[j as int].name@ == entry.name@);
                    repeated = true;
                }
                j += 1;
            }
            proof {
                edit_map_entries(held);
                assert(self.edits@.take(i + 1).drop_last() =~= self.edits@.take(i as int));
                assert(self.edits@.take(i + 1).last() == *entry);
                if repeated {
                    let k = choose|k: int|
                        0 <= k < held.len() && (#[trigger] held[k]).name@ == entry.name@;
                    assert(edit_map(held).dom().contains(held[k].name@));
                }
            }
            if !repeated {
                edits.push(EditEntry { name: entry.name.clone(), data: entry.fields.fill() });
                proof {
                    assert(edits@.drop_last() =~= held);
                    assert(distinct_names(edits@));
                }
            }
            i += 1;
        }
        assert(self.edits@.take(self.edits@.len() as int) =~= self.edits@);
        RollManifest {
            version: self.version,
            name: self.name,
            edits,
            preset: self.preset,
            base_mode: self.base_mode,
            base: self.base,
            calibration_frame: self.calibration_frame,
            start_date: self.start_date,
            end_date: self.end_date,
        }
    }

    /// The file that a manifest is written as.
    pub fn written(manifest: &RollManifest) -> (r: ManifestFile)
        requires
            manifest.well_formed(),
        ensures
            r.is_written_from(*manifest),
    {
        let mut edits: Vec<FileEntry> = Vec::new();
        let mut i: usize = 0;
        assert(manifest.edits@.take(0) =~= Seq::<EditEntry>::empty());
        while i < manifest.edits.len()
            invariant
                i <= manifest.edits@.len(),
                manifest.well_formed(),
                edits@.len() == i,
                forall|j: int|
                    0 <= j < i ==> (#[trigger] edits@[j]).name@ == manifest.edits@[j].name@
                        && edits@[j].fields == EditFields::of(manifest.edits@[j].data),
                file_map(edits@) == edit_map(manifest.edits@.take(i as int)),
            decreases manifest.edits@.len() - i,
        {
            let entry: &EditEntry = &manifest.edits[i];
            let ghost held = edits@;
            let ghost done = manifest.edits@.take(i as int);
            edits.push(
                FileEntry { name: entry.name.clone(), fields: EditFields::from_data(entry.data) },
            );
            proof {
                assert(distinct_names(done)) by {
                    assert forall|a: int, b: int| 0 <= a < b < done.len() implies #[trigger] done[
                    a].name@ != #[trigger] done[b].name@ by {
                        assert(manifest.edits@[a].name@ != manifest.edits@[b].name@);
                    }
                }
                edit_map_entries(done);
                assert(!edit_map(done).dom().contains(entry.name@)) by {
                    if edit_map(done).dom().contains(entry.name@) {
                        let k = choose|k: int|
                            0 <= k < done.len() && (#[trigger] done[k]).name@ == entry.name@;
                        assert(manifest.edits@[k].name@ != manifest.edits@[i as int].name@);
                    }
                }
                assert(edits@.drop_last() =~= held);
                assert(manifest.edits@.take(i + 1).drop_last() =~= done);
                assert(EditFields::of(entry.data).filled() == entry.data);
            }
            i += 1;
        }
        assert(manifest.edits@.take(manifest.edits@.len() as int) =~= manifest.edits@);
        ManifestFile {
            version: manifest.version,
            name: text::clone_option(&manifest.name),
            edits,
            preset: text::clone_option(&manifest.preset),
            base_mode: text::clone_option(&manifest.base_mode),
            base: manifest.base,
            calibration_frame: text::clone_option(&manifest.calibration_frame),
            start_date: text::clone_option(&manifest.start_date),
            end_date: text::clone_option(&manifest.end_date),
        }
    }
}

/// A name is edited as its last entry says.
proof fn last_entry_counts(entries: Seq<EditEntry>, name: Seq<char>, k: int)
    requires
        -1 <= k < entries.len(),
        k >= 0 ==> entries[k].name@ == name,
        forall|j: int| k < j < entries.len() ==> (#[trigger] entries[j]).name@ != name,
    ensures
        edit_map(entries).dom().contains(name) == (k >= 0),
        k >= 0 ==> edit_map(entries)[name] == entries[k].data,
    decreases entries.len(),
{
    if entries.len() > 0 && k < entries.len() - 1 {
        let init = entries.drop_last();
        assert(entries[entries.len() - 1].name@ != name);
        assert forall|j: int| k < j < init.len() implies (#[trigger] init[j]).name@ != name by {
            assert(entries[j].name@ != name);
        }
        last_entry_counts(init, name, k);
    }
}

/// Every edited name has an entry.
proof fn edited_names_have_entries(entries: Seq<EditEntry>, name: Seq<char>)
    requires
        edit_map(entries).dom().contains(name),
    ensures
        exists|i: int| 0 <= i < entries.len() && (#[trigger] entries[i]).name@ == name,
    decreases entries.len(),
{
    if entries.last().name@ == name {
        assert(entries[entries.len() - 1].name@ == name);
    } else {
        edited_names_have_entries(entries.drop_last(), name);
        let i = choose|i: int|
            0 <= i < entries.drop_last().len() && (#[trigger] entries.drop_last()[i]).name@ == name;
        assert(entries[i].name@ == name);
    }
}

/// The edits that a list of entries holds for a name.
pub open spec fn held_for(entries: Seq<EditEntry>, name: Seq<char>) -> Option<EditData> {
    if edit_map(entries).dom().contains(name) {
        Some(edit_map(entries)[name])
    } else {
        None
    }
}

/// Looks up the edits of a name.
fn look_up(entries: &[EditEntry], name: &str) -> (r: Option<EditData>)
    ensures
        r == held_for(entries@, name@),
{
    let mut i: usize = entries.len();
    while i > 0
        invariant
            i <= entries@.len(),
            forall|j: int| i <= j < entries@.len() ==> (#[trigger] entries@[j]).name@ != name@,
        decreases i,
    {
        i -= 1;
        if text::same_text(entries[i].name.as_str(), name) {
            proof {
                last_entry_counts(entries@, name@, i as int);
            }
            return Some(entries[i].data);
        }
    }
    proof {
        last_entry_counts(entries@, name@, -1);
    }
    None
}

/// Whether the names that one list of entries has are edited alike in another.
fn edited_alike(entries: &[EditEntry], other: &[EditEntry]) -> (r: bool)
    ensures
        r == (forall|i: int|
            0 <= i < entries@.len() ==> held_for(entries@, (#[trigger] entries@[i]).name@)
                == held_for(other@, entries@[i].name@)),
{
    let mut i: usize = 0;
    while i < entries.len()
        invariant
            i <= entries@.len(),
            forall|j: int|
                0 <= j < i ==> held_for(entries@, (#[trigger] entries@[j]).name@) == held_for(
                    other@,
                    entries@[j].name@,
                ),
        decreases entries@.len() - i,
    {
        let name: &str = entries[i].name.as_str();
        let alike: bool = match (look_up(entries, name), look_up(other, name)) {
            (Some(a), Some(b)) => a == b,
            (None, None) => true,
            _ => false,
        };
        if !alike {
            assert(held_for(entries@, entries@[i as int].name@) != held_for(
                other@,
                entries@[i as int].name@,
            ));
            return false;
        }
        i += 1;
    }
    true
}

/// Lists of entries that are edited alike both ways hold the same edits.
proof fn alike_both_ways(a: Seq<EditEntry>, b: Seq<EditEntry>)
    ensures
        edit_map(a) == edit_map(b) <==> (forall|i: int|
            0 <= i < a.len() ==> held_for(a, (#[trigger] a[i]).name@) == held_for(b, a[i].name@))
            && (forall|i: int|
            0 <= i < b.len() ==> held_for(b, (#[trigger] b[i]).name@) == held_for(a, b[i].name@)),
{
    let there = forall|i: int|
        0 <= i < a.len() ==> held_for(a, (#[trigger] a[i]).name@) == held_for(b, a[i].name@);
    let back = forall|i: int|
        0 <= i < b.len() ==> held_for(b, (#[trigger] b[i]).name@) == held_for(a, b[i].name@);
    if there && back {
        assert forall|n: Seq<char>| #[trigger] held_for(a, n) == held_for(b, n) by {
            if edit_map(a).dom().contains(n) {
                edited_names_have_entries(a, n);
            } else if edit_map(b).dom().contains(n) {
                edited_names_have_entries(b, n);
            }
        }
        assert forall|n: Seq<char>| #[trigger]
            edit_map(a).dom().contains(n) == edit_map(b).dom().contains(n) by {
            assert(held_for(a, n) == held_for(b, n));
        }
        assert forall|n: Seq<char>| #[trigger] edit_map(a).dom().contains(n) implies edit_map(
            a,
        )[n] == edit_map(b)[n] by {
            assert(held_for(a, n) == held_for(b, n));
        }
        assert(edit_map(a) =~= edit_map(b));
    }
}

/// Manifests are equal that record the same, in whatever order their entries
/// stand.
impl PartialEq for RollManifest {
    fn eq(&self, other: &Self) -> (r: bool) {
        let bases: bool = match (self.base, other.base) {
            (Some(a), Some(b)) => a == b,
            (None, None) => true,
            _ => false,
        };
        proof {
            alike_both_ways(self.edits@, other.edits@);
        }
        self.version == other.version && bases && text::same_option(
            text::as_slice(&self.name),
            text::as_slice(&other.name),
        ) && text::same_option(text::as_slice(&self.preset), text::as_slice(&other.preset))
            && text::same_option(text::as_slice(&self.base_mode), text::as_slice(&other.base_mode))
            && text::same_option(
            text::as_slice(&self.calibration_frame),
            text::as_slice(&other.calibration_frame),
        ) && text::same_option(text::as_slice(&self.start_date), text::as_slice(&other.start_date))
            && text::same_option(text::as_slice(&self.end_date), text::as_slice(&other.end_date))
            && edited_alike(self.edits.as_slice(), other.edits.as_slice()) && edited_alike(
            other.edits.as_slice(),
            self.edits.as_slice(),
        )
    }
}

impl vstd::std_specs::cmp::PartialEqSpecImpl for RollManifest {
    open spec fn obeys_eq_spec() -> bool {
        true
    }

    open spec fn eq_spec(&self, other: &Self) -> bool {
        self.model() == other.model()
    }
}

/// Edits that are written are read back as they were, and fields that a file
/// lacks are read as untouched.
pub proof fn written_edits_read_back(data: EditData)
    ensures
        EditFields::of(data).filled() == data,
        (EditFields {
            exposure_ev: None,
            curve_contrast: None,
            curve_rolloff: None,
            curve_shadows: None,
            crop: None,
            rotation: None,
        }).filled() == EditData::untouched(),
{
}

/// What came of reading a roll's manifest file.
#[derive(Debug)]
pub enum ManifestRead {
    /// There is no such file.
    Missing,
    /// The file could not be read, or is no text.
    Unreadable,
    /// The text is no manifest.
    Malformed,
    /// The fields of the manifest, and the text they were parsed from.
    Parsed { file: ManifestFile, text: String },
}

/// What the `toml` crate finds under a key at the top level of a document, if
/// the document parses and a boolean stands there.
pub uninterp spec fn toml_flag(document: Seq<char>, key: Seq<char>) -> Option<bool>;

/// Parses a document with `toml::from_str` into a `toml::Value` and takes a
/// boolean with `Value::get` and `Value::as_bool`. Nothing is said of the
/// grammar, only that the same document and key always give the same answer.
#[verifier::external_body]
fn read_toml_flag(document: &str, key: &str) -> (r: Option<bool>)
    ensures
        r == toml_flag(document@, key@),
{
    let value: toml::Value = toml::from_str(document).ok()?;
    value.get(key)?.as_bool()
}

/// Folds the flag of an older manifest into its base strategy: a manifest from
/// before the current format whose flag is set measures every frame. All else
/// stays as it is.
pub fn migrate_flag(manifest: &mut RollManifest, flag: Option<bool>)
    ensures
        *final(manifest) == (RollManifest {
            base_mode: final(manifest).base_mode,
            ..*old(manifest)
        }),
        final(manifest).model() == migrated(old(manifest).model(), flag),
{
    if manifest.version >= 8 {
        return;
    }
    match flag {
        Some(true) => manifest.set_base_mode(BaseMode::AutoPerFrame),
        _ => {},
    }
}

/// Folds the per-frame measurement toggle of an older manifest, given by its
/// text, into its base strategy.
pub fn migrate_legacy_base_auto(manifest: &mut RollManifest, document: &str)
    ensures
        *final(manifest) == (RollManifest {
            base_mode: final(manifest).base_mode,
            ..*old(manifest)
        }),
        final(manifest).model() == migrated(
            old(manifest).model(),
            toml_flag(document@, "base_auto"@),
        ),
{
    let flag: Option<bool> = read_toml_flag(document, "base_auto");
    migrate_flag(manifest, flag);
}

/// A manifest with the flag of an older format folded into its base strategy.
pub open spec fn migrated(manifest: ManifestModel, flag: Option<bool>) -> ManifestModel {
    if manifest.version < 8 && flag == Some(true) {
        manifest.with_strategy(BaseMode::AutoPerFrame)
    } else {
        manifest
    }
}

/// A manifest in the current format is taken as it is, and migrating twice
/// changes no more than migrating once.
pub proof fn migration_settles(manifest: ManifestModel, flag: Option<bool>)
    ensures
        manifest.version >= 8 ==> migrated(manifest, flag) == manifest,
        migrated(migrated(manifest, flag), flag) == migrated(manifest, flag),
        migrated(manifest, flag).edits == manifest.edits,
{
}

/// The manifest that comes of reading a file: a parsed one is migrated, and
/// without one it is blank.
pub open spec fn loaded(read: ManifestRead) -> ManifestModel {
    match read {
        ManifestRead::Parsed { file, text } => migrated(
            file.model(),
            toml_flag(text@, "base_auto"@),
        ),
        _ => ManifestModel::blank(),
    }
}

/// A manifest that is written and read again is the manifest that was written:
/// its name, dates, preset, strategy, base, calibration frame and all edits.
/// The one exception is a manifest in an older format with another strategy
/// than the one that the flag of that format stands for, beside a text in which
/// the flag is set; the flag is no field of a written manifest. Without a file,
/// or with one that cannot be read or parsed, the manifest is blank.
pub proof fn saved_manifests_load_back(manifest: RollManifest, file: ManifestFile, text: String)
    requires
        file.is_written_from(manifest),
    ensures
        loaded(ManifestRead::Parsed { file, text }) == manifest.model() <==> (manifest.version >= 8
            || toml_flag(text@, "base_auto"@) != Some(true) || manifest.model().with_strategy(
            BaseMode::AutoPerFrame,
        ) == manifest.model()),
        loaded(ManifestRead::Missing) == ManifestModel::blank(),
        loaded(ManifestRead::Unreadable) == ManifestModel::blank(),
        loaded(ManifestRead::Malformed) == ManifestModel::blank(),
        ManifestModel::blank().version == 8,
        ManifestModel::blank().edits == Map::<Seq<char>, EditData>::empty(),
{
}

/// Makes a manifest of what came of reading its file: a missing file maps to a
/// blank manifest, and so does one that cannot be read or parsed, which is to
/// be reported. A parsed manifest is migrated to the current strategy fields.
/// The flag says whether there is something to report.
pub fn load_roll_manifest(read: ManifestRead) -> (r: (RollManifest, bool))
    ensures
        r.0.well_formed(),
        r.1 == (read is Unreadable || read is Malformed),
        r.0.model() == loaded(read),
{
    match read {
        ManifestRead::Missing => (RollManifest::default(), false),
        ManifestRead::Unreadable => (RollManifest::default(), true),
        ManifestRead::Malformed => (RollManifest::default(), true),
        ManifestRead::Parsed { file, text } => {
            let mut loaded: RollManifest = file.read();
            migrate_legacy_base_auto(&mut loaded, text.as_str());
            (loaded, false)
        },
    }
}

/// Whether a file is among those that a scan of the roll found.
pub open spec fn still_there(files: Seq<String>, name: Seq<char>) -> bool {
    text::texts(files).contains(name)
}

/// Drops edit entries whose file name no longer exists in the roll's scan, so
/// a recycled name can never reattach stale edits.
pub fn reconcile(manifest: &mut RollManifest, files: &[String])
    requires
        old(manifest).well_formed(),
    ensures
        final(manifest).well_formed(),
        *final(manifest) == old(manifest).with_edits(final(manifest).edits),
        final(manifest).edited() == old(manifest).edited().restrict(
            Set::new(|n: Seq<char>| still_there(files@, n)),
        ),
{
    let ghost all = manifest.edits@;
    let ghost keep = Set::new(|n: Seq<char>| still_there(files@, n));
    let mut rest: Vec<EditEntry> = Vec::new();
    std::mem::swap(&mut rest, &mut manifest.edits);
    let mut kept: Vec<EditEntry> = Vec::new();
    proof {
        assert(all.take(0) =~= Seq::<EditEntry>::empty());
        assert(edit_map(kept@) =~= edit_map(all.take(0)).restrict(keep));
        assert(all.skip(0) =~= all);
    }
    let ghost mut k: int = 0;
    while rest.len() > 0
        invariant
            0 <= k <= all.len(),
            rest@ == all.skip(k),
            distinct_names(all),
            distinct_names(kept@),
            keep == Set::new(|n: Seq<char>| still_there(files@, n)),
            forall|i: int|
                0 <= i < kept@.len() ==> exists|j: int|
                    0 <= j < k && (#[trigger] kept@[i]).name@ == (#[trigger] all[j]).name@,
            edit_map(kept@) == edit_map(all.take(k)).restrict(keep),
        decreases rest@.len(),
    {
        let ghost held = kept@;
        let entry: EditEntry = rest.remove(0);
        assert(entry == all[k]);
        assert(rest@ =~= all.skip(k + 1));
        assert(all.take(k + 1).drop_last() =~= all.take(k));
        let there: bool = text::holds_name(files, entry.name.as_str());
        if there {
            kept.push(entry);
            assert(kept@.drop_last() =~= held);
            assert(distinct_names(kept@)) by {
                assert forall|i: int, j: int| 0 <= i < j < kept@.len() implies #[trigger]
                kept@[i].name@ != #[trigger] kept@[j].name@ by {
                    assert(kept@[i] == held[i]);
                    if j < held.len() {
                        assert(kept@[j] == held[j]);
                    } else {
                        let m = choose|m: int|
                            0 <= m < k && (#[trigger] held[i]).name@ == (#[trigger] all[m]).name@;
                        assert(all[m].name@ != all[k].name@);
                    }
                }
            }
            assert(edit_map(kept@) =~= edit_map(all.take(k + 1)).restrict(keep));
        } else {
            assert(edit_map(kept@) =~= edit_map(all.take(k + 1)).restrict(keep)) by {
                edit_map_entries(all);
                assert forall|n: Seq<char>| #[trigger] edit_map(all.take(k)).dom().contains(
                    n,
                ) implies n != all[k].name@ by {
                    let init = all.take(k);
                    assert(distinct_names(init)) by {
                        assert forall|i: int, j: int| 0 <= i < j < init.len() implies #[trigger]
                        init[i].name@ != #[trigger] init[j].name@ by {
                            assert(all[i].name@ != all[j].name@);
                        }
                    }
                    edit_map_entries(init);
                    let i = choose|i: int| 0 <= i < init.len() && (#[trigger] init[i]).name@ == n;
                    assert(all[i].name@ != all[k].name@);
                }
            }
        }
        proof {
            assert forall|i: int| 0 <= i < kept@.len() implies exists|j: int|
                0 <= j < k + 1 && (#[trigger] kept@[i]).name@ == (#[trigger] all[j]).name@ by {
                if i < held.len() {
                    assert(kept@[i] == held[i]);
                    let m = choose|m: int|
                        0 <= m < k && (#[trigger] held[i]).name@ == (#[trigger] all[m]).name@;
                    assert(kept@[i].name@ == all[m].name@);
                } else {
                    assert(kept@[i].name@ == all[k].name@);
                }
            }
            k = k + 1;
        }
    }
    assert(all.take(k) =~= all);
    manifest.edits = kept;
}

/// Recording the edits of one file leaves every other file's edits alone, and
/// reads back as what was recorded.
pub proof fn edits_are_per_file(
    edits: Map<Seq<char>, EditData>,
    name: Seq<char>,
    data: EditData,
    other: Seq<char>,
)
    requires
        other != name,
    ensures
        edits.insert(name, data)[name] == data,
        edits.insert(name, data).dom().contains(other) == edits.dom().contains(other),
        edits.insert(name, data)[other] == edits[other],
{
}

/// Pasting a tone never touches a crop or a rotation, and reads back whole.
pub proof fn paste_keeps_crop_and_rotation(data: EditData, tone: ToneEdit)
    ensures
        data.with_tone(tone).crop == data.crop,
        data.with_tone(tone).rotation == data.rotation,
        data.with_tone(tone).tone() == tone,
{
}

} // verus!
