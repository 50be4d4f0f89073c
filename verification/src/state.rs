//! The state of the application.

use vstd::prelude::*;
use crate::config::Config;
use crate::drawer::{Drawer, DrawerView};
use crate::edit_manifest::{CropMargins, EditData, ManifestModel, RollManifest, ToneEdit};
use crate::effect;
use crate::effect::{Effect, EffectModel};
use crate::film::FilmPreset;
use crate::library;
use crate::library::{LibrarySelection, MonthAliases, Roll, RollModel, SelectionModel, Thumb};
use crate::lru::{DetailKey, LruCache};
use crate::message::{DetailMono, FrameMeta, Modifiers, Point, RollDateField};
use crate::names::NameSet;
use crate::seqs;
use crate::single::Single;
use crate::text;

verus! {

/// How many overviews of the detail view are cached.
pub const DETAIL_CACHE_CAPACITY: usize = 40;

/// A frame of the open roll.
#[derive(Debug)]
pub struct Tile {
    /// The file name.
    pub name: String,
    pub thumb: Thumb,
    /// The EXIF readout, once it was asked for.
    pub meta: Option<FrameMeta>,
    /// Whether the file's metadata could not be read.
    pub meta_failed: bool,
}

/// What is known of a frame.
#[verifier::ext_equal]
pub struct TileModel {
    pub name: Seq<char>,
    pub thumb: Thumb,
    pub meta: Option<FrameMeta>,
    pub meta_failed: bool,
}

impl Tile {
    /// The model of a frame.
    pub open spec fn model(self) -> TileModel {
        TileModel {
            name: self.name@,
            thumb: self.thumb,
            meta: self.meta,
            meta_failed: self.meta_failed,
        }
    }
}

/// The models of a list of frames.
pub open spec fn tile_models(tiles: Seq<Tile>) -> Seq<TileModel> {
    tiles.map_values(|t: Tile| t.model())
}

/// The test of having a given file name.
pub open spec fn named(name: Seq<char>) -> spec_fn(TileModel) -> bool {
    |t: TileModel| t.name == name
}

/// The test of lying in a given directory.
pub open spec fn in_dir(dir: Seq<char>) -> spec_fn(RollModel) -> bool {
    |r: RollModel| r.dir == dir
}

/// The place of the first frame of a name.
pub fn find_tile(tiles: &[Tile], name: &str) -> (r: Option<usize>)
    ensures
        library::index_of(r) == seqs::first_where(tile_models(tiles@), named(name@)),
        r is Some ==> r.unwrap() < tiles@.len(),
{
    let mut i: usize = 0;
    while i < tiles.len()
        invariant
            i <= tiles@.len(),
            forall|j: int| 0 <= j < i ==> !named(name@)(#[trigger] tile_models(tiles@)[j]),
        decreases tiles@.len() - i,
    {
        if text::same_text(tiles[i].name.as_str(), name) {
            proof {
                seqs::first_where_from_place(tile_models(tiles@), named(name@), i as int);
            }
            return Some(i);
        }
        i += 1;
    }
    proof {
        seqs::first_where_from_place(tile_models(tiles@), named(name@), i as int);
    }
    None
}

/// The place of the first roll in a directory.
pub fn find_roll(rolls: &[Roll], dir: &str) -> (r: Option<usize>)
    ensures
        library::index_of(r) == seqs::first_where(library::roll_models(rolls@), in_dir(dir@)),
        r is Some ==> r.unwrap() < rolls@.len(),
{
    let mut i: usize = 0;
    while i < rolls.len()
        invariant
            i <= rolls@.len(),
            forall|j: int| 0 <= j < i ==> !in_dir(dir@)(#[trigger] library::roll_models(rolls@)[j]),
        decreases rolls@.len() - i,
    {
        if text::same_text(rolls[i].dir.as_str(), dir) {
            proof {
                seqs::first_where_from_place(library::roll_models(rolls@), in_dir(dir@), i as int);
            }
            return Some(i);
        }
        i += 1;
    }
    proof {
        seqs::first_where_from_place(library::roll_models(rolls@), in_dir(dir@), i as int);
    }
    None
}

/// Draft texts of the two roll date fields, and the roll they were seeded from.
#[derive(Debug)]
pub struct RollDateDrafts {
    pub key: Option<String>,
    pub start: String,
    pub end: String,
}

/// What the date drafts hold.
#[verifier::ext_equal]
pub struct DraftsModel {
    pub key: Option<Seq<char>>,
    pub start: Seq<char>,
    pub end: Seq<char>,
}

/// A text, empty where there is none.
pub open spec fn or_empty(o: Option<Seq<char>>) -> Seq<char> {
    match o {
        Some(s) => s,
        None => Seq::empty(),
    }
}

/// A copy of an optional text, empty where there is none.
pub fn text_or_empty(o: Option<&str>) -> (r: String)
    ensures
        r@ == or_empty(text::slice_of(o)),
{
    match o {
        Some(s) => s.to_owned(),
        None => {
            let r: String = String::new();
            assert(r@ =~= Seq::<char>::empty());
            r
        },
    }
}

impl DraftsModel {
    /// Drafts seeded from a roll's committed dates.
    pub open spec fn seeded(
        key: Seq<char>,
        start: Option<Seq<char>>,
        end: Option<Seq<char>>,
    ) -> DraftsModel {
        DraftsModel { key: Some(key), start: or_empty(start), end: or_empty(end) }
    }

    /// The draft of a field.
    pub open spec fn field(self, field: RollDateField) -> Seq<char> {
        match field {
            RollDateField::Start => self.start,
            RollDateField::End => self.end,
        }
    }

    /// The drafts with one field replaced.
    pub open spec fn with(self, field: RollDateField, value: Seq<char>) -> DraftsModel {
        match field {
            RollDateField::Start => DraftsModel { start: value, ..self },
            RollDateField::End => DraftsModel { end: value, ..self },
        }
    }
}

impl RollDateDrafts {
    /// The model of the drafts.
    pub open spec fn model(self) -> DraftsModel {
        DraftsModel { key: text::text_of(self.key), start: self.start@, end: self.end@ }
    }

    /// Drafts that were never seeded.
    pub fn new() -> (r: Self)
        ensures
            r.model() == (DraftsModel { key: None, start: Seq::empty(), end: Seq::empty() }),
    {
        let r: RollDateDrafts = RollDateDrafts {
            key: None,
            start: String::new(),
            end: String::new(),
        };
        assert(r.model() =~= DraftsModel { key: None, start: Seq::empty(), end: Seq::empty() });
        r
    }

    /// Fresh drafts from a roll's committed dates.
    pub fn from_dates(key: &str, start: Option<&str>, end: Option<&str>) -> (r: Self)
        ensures
            r.model() == DraftsModel::seeded(key@, text::slice_of(start), text::slice_of(end)),
    {
        RollDateDrafts {
            key: Some(key.to_owned()),
            start: text_or_empty(start),
            end: text_or_empty(end),
        }
    }

    /// Replaces the draft of a field.
    pub fn set(&mut self, field: RollDateField, value: String)
        ensures
            final(self).model() == old(self).model().with(field, value@),
    {
        match field {
            RollDateField::Start => {
                self.start = value;
            },
            RollDateField::End => {
                self.end = value;
            },
        }
    }

    /// The draft of a field.
    pub fn get(&self, field: RollDateField) -> (r: &str)
        ensures
            r@ == self.model().field(field),
    {
        match field {
            RollDateField::Start => self.start.as_str(),
            RollDateField::End => self.end.as_str(),
        }
    }
}

/// The picture on screen in the detail view.
#[derive(Clone, Copy, Debug, PartialEq, Eq, Structural)]
pub struct LiveDetail {
    /// Counts the pictures shown, so that a new one is told from the last.
    pub image_id: u64,
    pub mono: DetailMono,
}

/// What the detail view shows, without the names that come with it.
#[derive(Clone, Copy, Debug)]
pub struct DetailState {
    /// The picture on screen; absent while it is decoded.
    pub live: Option<LiveDetail>,
    /// Whether the full-size decode was asked for, or is not needed.
    pub native_queued: bool,
    /// The opacity of the thumbnail over the picture.
    pub thumb_opacity: Single,
    /// Whether the crossfade has begun.
    pub fading: bool,
    /// The thumbnail kept over the picture during the crossfade.
    pub thumb: Option<u64>,
    /// The binary logarithm of the magnification, where one is the whole frame.
    pub zoom: Single,
    /// The size of the preview.
    pub area: Option<Point>,
    /// The offset of the picture's center.
    pub pan: Point,
    pub panning: bool,
    /// Where the cursor was last.
    pub cursor: Option<Point>,
    /// The edits as they are on screen.
    pub edit: EditData,
    /// The edits as they were when the frame was opened.
    pub reset: EditData,
    pub crop_mode: bool,
}

impl DetailState {
    /// A closed detail view.
    pub open spec fn closed() -> DetailState {
        DetailState {
            live: None,
            native_queued: false,
            thumb_opacity: Single { bits: 0x3f80_0000 },
            fading: false,
            thumb: None,
            zoom: Single { bits: 0x3f80_0000 },
            area: None,
            pan: Point { x: Single { bits: 0 }, y: Single { bits: 0 } },
            panning: false,
            cursor: None,
            edit: EditData::untouched(),
            reset: EditData::untouched(),
            crop_mode: false,
        }
    }

    /// A closed detail view.
    pub fn new() -> (r: Self)
        ensures
            r == Self::closed(),
    {
        DetailState {
            live: None,
            native_queued: false,
            thumb_opacity: Single { bits: 0x3f80_0000 },
            fading: false,
            thumb: None,
            zoom: Single { bits: 0x3f80_0000 },
            area: None,
            pan: Point { x: Single { bits: 0 }, y: Single { bits: 0 } },
            panning: false,
            cursor: None,
            edit: EditData::default(),
            reset: EditData::default(),
            crop_mode: false,
        }
    }

    /// The view without its picture and the crossfade over it, as it has to be
    /// decoded anew.
    pub open spec fn dropped(self) -> DetailState {
        DetailState { live: None, native_queued: false, thumb: None, fading: false, ..self }
    }

    /// Drops the picture and the crossfade over it.
    pub fn drop_picture(&mut self)
        ensures
            *final(self) == old(self).dropped(),
    {
        self.live = None;
        self.native_queued = false;
        self.thumb = None;
        self.fading = false;
    }
}

/// The application's state.
#[derive(Debug)]
pub struct AppModel {
    pub drawer: Drawer,
    /// What persists between runs.
    pub config: Config,
    /// The rolls of the library.
    pub rolls: Vec<Roll>,
    /// The directory of the open roll; none shows the library.
    pub active: Option<String>,
    pub library_selection: Option<LibrarySelection>,
    /// The highlighted frame.
    pub frame_selected: Option<String>,
    /// The frames that a batch acts on.
    pub selected_frames: NameSet,
    /// Where a range selection starts.
    pub selection_anchor: Option<String>,
    pub modifiers: Modifiers,
    /// Whether an editing-shortcut key is held.
    pub editing_key_held: bool,
    /// The columns of the grid, worked out from the window's width.
    pub grid_cols: usize,
    /// The columns of the grid, as it reported them.
    pub viewport_cols: Option<usize>,
    /// The rolls whose covers are being decoded.
    pub cover_inflight: Vec<String>,
    /// The search text; none hides the field.
    pub search: Option<String>,
    /// The search text that is applied.
    pub search_filter: Option<String>,
    /// Counts the changes of the search text.
    pub search_version: u64,
    pub month_aliases: MonthAliases,
    /// The frames of the open roll.
    pub tiles: Vec<Tile>,
    /// The frame in the detail view.
    pub selected: Option<String>,
    /// The frames whose thumbnails are being decoded.
    pub thumb_inflight: Vec<String>,
    /// The frame whose EXIF is being read.
    pub frame_meta_inflight: Option<String>,
    /// The open roll's manifest.
    pub roll: RollManifest,
    pub detail: DetailState,
    /// The frame that is being decoded for the detail view.
    pub detail_inflight: Option<String>,
    /// The frame whose failure was reported.
    pub detail_logged_failure: Option<String>,
    pub next_image_id: u64,
    pub detail_cache: LruCache<DetailKey, DetailMono>,
    /// The frames that are being preloaded, with their rolls.
    pub detail_preload_inflight: Vec<(String, String)>,
    pub roll_date_drafts: RollDateDrafts,
    pub roll_name_draft: String,
    pub help_visible: bool,
    /// The copied tone.
    pub clipboard: Option<ToneEdit>,
    /// Whether the export dialog is open.
    pub export_pending: bool,
    /// The frames done and the frames in all, while an export runs.
    pub export_progress: Option<(usize, usize)>,
    /// What the surroundings are asked to do.
    pub queue: Vec<Effect>,
}

/// What the application's state stands for.
pub struct Model {
    pub drawer: Drawer,
    pub config: Seq<Seq<char>>,
    pub rolls: Seq<RollModel>,
    pub active: Option<Seq<char>>,
    pub library_selection: Option<SelectionModel>,
    pub frame_selected: Option<Seq<char>>,
    pub selected_frames: Set<Seq<char>>,
    pub selection_anchor: Option<Seq<char>>,
    pub modifiers: Modifiers,
    pub editing_key_held: bool,
    pub grid_cols: usize,
    pub viewport_cols: Option<usize>,
    pub cover_inflight: Seq<Seq<char>>,
    pub search: Option<Seq<char>>,
    pub search_filter: Option<Seq<char>>,
    pub search_version: u64,
    pub month_aliases: MonthAliases,
    pub tiles: Seq<TileModel>,
    pub selected: Option<Seq<char>>,
    pub thumb_inflight: Seq<Seq<char>>,
    pub frame_meta_inflight: Option<Seq<char>>,
    pub roll: ManifestModel,
    pub detail: DetailState,
    pub detail_inflight: Option<Seq<char>>,
    pub detail_logged_failure: Option<Seq<char>>,
    pub next_image_id: u64,
    pub detail_cache: Seq<((Seq<char>, FilmPreset, Seq<char>), DetailMono)>,
    pub detail_preload_inflight: Seq<(Seq<char>, Seq<char>)>,
    pub roll_date_drafts: DraftsModel,
    pub roll_name_draft: Seq<char>,
    pub help_visible: bool,
    pub clipboard: Option<ToneEdit>,
    pub export_pending: bool,
    pub export_progress: Option<(usize, usize)>,
    pub effects: Seq<EffectModel>,
}

/// What an optional selection names.
pub open spec fn selection_of(o: Option<LibrarySelection>) -> Option<SelectionModel> {
    match o {
        Some(s) => Some(s.model()),
        None => None,
    }
}

/// The texts of a list of pairs of strings.
pub open spec fn pair_texts(v: Seq<(String, String)>) -> Seq<(Seq<char>, Seq<char>)> {
    v.map_values(|p: (String, String)| (p.0@, p.1@))
}

impl View for AppModel {
    type V = Model;

    open spec fn view(&self) -> Model {
        Model {
            drawer: self.drawer,
            config: self.config.dirs(),
            rolls: library::roll_models(self.rolls@),
            active: text::text_of(self.active),
            library_selection: selection_of(self.library_selection),
            frame_selected: text::text_of(self.frame_selected),
            selected_frames: self.selected_frames.set(),
            selection_anchor: text::text_of(self.selection_anchor),
            modifiers: self.modifiers,
            editing_key_held: self.editing_key_held,
            grid_cols: self.grid_cols,
            viewport_cols: self.viewport_cols,
            cover_inflight: text::texts(self.cover_inflight@),
            search: text::text_of(self.search),
            search_filter: text::text_of(self.search_filter),
            search_version: self.search_version,
            month_aliases: self.month_aliases,
            tiles: tile_models(self.tiles@),
            selected: text::text_of(self.selected),
            thumb_inflight: text::texts(self.thumb_inflight@),
            frame_meta_inflight: text::text_of(self.frame_meta_inflight),
            roll: self.roll.model(),
            detail: self.detail,
            detail_inflight: text::text_of(self.detail_inflight),
            detail_logged_failure: text::text_of(self.detail_logged_failure),
            next_image_id: self.next_image_id,
            detail_cache: self.detail_cache.items(),
            detail_preload_inflight: pair_texts(self.detail_preload_inflight@),
            roll_date_drafts: self.roll_date_drafts.model(),
            roll_name_draft: self.roll_name_draft@,
            help_visible: self.help_visible,
            clipboard: self.clipboard,
            export_pending: self.export_pending,
            export_progress: self.export_progress,
            effects: effect::effect_models(self.queue@),
        }
    }
}

impl Model {
    /// Whether nothing is left to be handed over to the surroundings, as holds
    /// between any two messages.
    pub open spec fn settled(self) -> bool {
        self.effects == Seq::<EffectModel>::empty()
    }

    /// The state with one more effect asked for.
    pub open spec fn emitting(self, e: EffectModel) -> Model {
        Model { effects: self.effects.push(e), ..self }
    }

    /// The navigational view on screen.
    pub open spec fn current_view(self) -> DrawerView {
        if self.selected is Some {
            DrawerView::Detail
        } else if self.active is Some {
            DrawerView::Grid
        } else {
            DrawerView::Library
        }
    }

    /// Whether a roll is selected in the library.
    pub open spec fn roll_selected(self) -> bool {
        match self.library_selection {
            Some(SelectionModel::Roll(_)) => true,
            _ => false,
        }
    }

    /// Whether a view's drawer has something to show.
    pub open spec fn drawer_valid(self, view: DrawerView) -> bool {
        match view {
            DrawerView::Library => self.active is None && self.roll_selected(),
            DrawerView::Grid => self.active is Some && self.frame_selected is Some,
            DrawerView::Detail => self.selected is Some,
        }
    }

    /// The drawer pointed at a view's page with the state remembered for it.
    pub open spec fn drawer_restored(self, view: DrawerView) -> Model {
        Model { drawer: self.drawer.restored(view, self.drawer_valid(view)), ..self }
    }

    /// The place of the first roll in a directory.
    pub open spec fn roll_at(self, dir: Seq<char>) -> Option<int> {
        seqs::first_where(self.rolls, in_dir(dir))
    }

    /// The place of the first frame of a name.
    pub open spec fn tile_at(self, name: Seq<char>) -> Option<int> {
        seqs::first_where(self.tiles, named(name))
    }

    /// The state with a roll's cover in another state.
    pub open spec fn with_cover(self, k: int, thumb: Thumb) -> Model {
        Model { rolls: self.rolls.update(k, RollModel { thumb, ..self.rolls[k] }), ..self }
    }

    /// The state with a frame's thumbnail in another state.
    pub open spec fn with_thumb(self, k: int, thumb: Thumb) -> Model {
        Model { tiles: self.tiles.update(k, TileModel { thumb, ..self.tiles[k] }), ..self }
    }

    /// The state with the cover of the roll in a directory to be decoded anew.
    pub open spec fn cover_reloading(self, dir: Seq<char>) -> Model {
        match self.roll_at(dir) {
            Some(k) => self.with_cover(k, Thumb::Loading),
            None => self,
        }
    }

    /// The state with every thumbnail of the grid to be decoded anew.
    pub open spec fn thumbs_reloading(self) -> Model {
        Model {
            tiles: self.tiles.map_values(|t: TileModel| TileModel { thumb: Thumb::Loading, ..t }),
            thumb_inflight: Seq::empty(),
            ..self
        }
    }

    /// The state with the open roll's manifest to be written.
    pub open spec fn roll_persisted(self) -> Model {
        match self.active {
            Some(dir) => self.emitting(EffectModel::SaveManifest { dir, manifest: self.roll }),
            None => self,
        }
    }

    /// The state with the configuration to be written.
    pub open spec fn config_persisted(self) -> Model {
        self.emitting(EffectModel::PersistConfig { rolls: self.config })
    }

    /// The drafts of dates and name that a roll seeds.
    pub open spec fn seeds(self, dir: Seq<char>) -> (DraftsModel, Seq<char>) {
        match self.roll_at(dir) {
            Some(k) => (
                DraftsModel::seeded(dir, self.rolls[k].start_date, self.rolls[k].end_date),
                self.rolls[k].name,
            ),
            None => (DraftsModel::seeded(dir, None, None), Seq::empty()),
        }
    }

    /// The state with its drafts seeded from the selected roll, unless they
    /// are already.
    pub open spec fn drafts_synced(self) -> Model {
        match self.library_selection {
            Some(SelectionModel::Roll(dir)) => if self.roll_date_drafts.key == Some(dir) {
                self
            } else {
                Model {
                    roll_date_drafts: self.seeds(dir).0,
                    roll_name_draft: self.seeds(dir).1,
                    ..self
                }
            },
            _ => Model {
                roll_date_drafts: DraftsModel { key: None, ..self.roll_date_drafts },
                ..self
            },
        }
    }

    /// The state with another library cell selected.
    pub open spec fn selecting(self, selection: SelectionModel) -> Model {
        Model { library_selection: Some(selection), ..self }.drafts_synced()
    }

    /// The state with the highlighted frame's EXIF asked for, where the drawer
    /// shows it and it was not read yet.
    pub open spec fn frame_info_requested(self) -> Model {
        match (self.frame_selected, self.active) {
            (Some(name), Some(dir)) => {
                let due = self.drawer.page == crate::drawer::ContextPage::FrameInfo
                    && self.drawer.show && self.frame_meta_inflight != Some(name)
                    && match self.tile_at(name) {
                    Some(k) => self.tiles[k].meta is None && !self.tiles[k].meta_failed,
                    None => false,
                };
                if due {
                    Model { frame_meta_inflight: Some(name), ..self }.emitting(
                        EffectModel::LoadFrameInfo { dir, name },
                    )
                } else {
                    self
                }
            },
            _ => self,
        }
    }

    /// The state with the detail view closed.
    pub open spec fn detail_cleared(self) -> Model {
        Model {
            detail: DetailState::closed(),
            detail_logged_failure: None,
            editing_key_held: false,
            ..self
        }
    }

    /// The columns that arrow keys navigate by.
    pub open spec fn nav_cols(self) -> int {
        let cols = match self.viewport_cols {
            Some(c) => c,
            None => self.grid_cols,
        };
        if cols == 0 {
            1
        } else {
            cols as int
        }
    }
}

impl AppModel {
    /// What holds of every state: the manifest has one entry for each file,
    /// the selection is sorted, and the cache keeps its bound.
    pub open spec fn well_formed(self) -> bool {
        &&& self.roll.well_formed()
        &&& self.selected_frames.well_formed()
        &&& self.detail_cache.well_formed()
        &&& self.detail_cache.capacity == DETAIL_CACHE_CAPACITY
    }

    /// Asks the surroundings for something.
    pub(crate) fn emit(&mut self, e: Effect)
        requires
            old(self).well_formed(),
        ensures
            final(self).well_formed(),
            final(self)@ == old(self)@.emitting(e.model()),
    {
        let ghost before = self.queue@;
        self.queue.push(e);
        assert(effect::effect_models(self.queue@) =~= effect::effect_models(before).push(
            e.model(),
        ));
    }

    /// The navigational view on screen.
    pub fn current_view(&self) -> (r: DrawerView)
        ensures
            r == self@.current_view(),
    {
        if self.selected.is_some() {
            DrawerView::Detail
        } else if self.active.is_some() {
            DrawerView::Grid
        } else {
            DrawerView::Library
        }
    }

    /// Whether a roll is selected in the library.
    pub fn roll_selected(&self) -> (r: bool)
        ensures
            r == self@.roll_selected(),
    {
        match &self.library_selection {
            Some(LibrarySelection::Roll(_)) => true,
            _ => false,
        }
    }

    /// Whether a view's drawer has something to show.
    pub fn view_drawer_valid(&self, view: DrawerView) -> (r: bool)
        ensures
            r == self@.drawer_valid(view),
    {
        match view {
            DrawerView::Library => self.active.is_none() && self.roll_selected(),
            DrawerView::Grid => self.active.is_some() && self.frame_selected.is_some(),
            DrawerView::Detail => self.selected.is_some(),
        }
    }

    /// Points the drawer at a view's page with the state remembered for it.
    pub(crate) fn restore_drawer_for(&mut self, view: DrawerView)
        requires
            old(self).well_formed(),
        ensures
            final(self).well_formed(),
            final(self)@ == old(self)@.drawer_restored(view),
    {
        let valid: bool = self.view_drawer_valid(view);
        self.drawer.restore(view, valid);
    }

    pub(crate) fn set_cover(&mut self, k: usize, thumb: Thumb)
        requires
            old(self).well_formed(),
            k < old(self).rolls@.len(),
        ensures
            final(self).well_formed(),
            final(self)@ == old(self)@.with_cover(k as int, thumb),
    {
        let ghost before = self.rolls@;
        self.rolls[k].thumb = thumb;
        assert(library::roll_models(self.rolls@) =~= library::roll_models(before).update(
            k as int,
            RollModel { thumb, ..before[k as int].model() },
        ));
    }

    pub(crate) fn set_thumb(&mut self, k: usize, thumb: Thumb)
        requires
            old(self).well_formed(),
            k < old(self).tiles@.len(),
        ensures
            final(self).well_formed(),
            final(self)@ == old(self)@.with_thumb(k as int, thumb),
    {
        let ghost before = self.tiles@;
        self.tiles[k].thumb = thumb;
        assert(tile_models(self.tiles@) =~= tile_models(before).update(
            k as int,
            TileModel { thumb, ..before[k as int].model() },
        ));
    }

    /// Has the cover of the roll in a directory decoded anew.
    pub(crate) fn reload_cover(&mut self, dir: &str)
        requires
            old(self).well_formed(),
        ensures
            final(self).well_formed(),
            final(self)@ == old(self)@.cover_reloading(dir@),
    {
        match find_roll(self.rolls.as_slice(), dir) {
            Some(k) => self.set_cover(k, Thumb::Loading),
            None => {},
        }
    }

    /// Has every thumbnail of the grid decoded anew.
    pub(crate) fn reload_thumbs(&mut self)
        requires
            old(self).well_formed(),
        ensures
            final(self).well_formed(),
            final(self)@ == old(self)@.thumbs_reloading(),
    {
        let ghost before = self@;
        let mut i: usize = 0;
        while i < self.tiles.len()
            invariant
                self.well_formed(),
                i <= self.tiles@.len(),
                self.tiles@.len() == before.tiles.len(),
                self@.tiles.len() == before.tiles.len(),
                forall|j: int|
                    0 <= j < i ==> self@.tiles[j] == (TileModel {
                        thumb: Thumb::Loading,
                        ..before.tiles[j]
                    }),
                forall|j: int| i <= j < before.tiles.len() ==> self@.tiles[j] == before.tiles[j],
                self@ == (Model { tiles: self@.tiles, ..before }),
            decreases self.tiles@.len() - i,
        {
            self.set_thumb(i, Thumb::Loading);
            assert(self@.tiles.len() == self.tiles@.len());
            i += 1;
        }
        self.thumb_inflight.clear();
        assert(self@.tiles =~= before.thumbs_reloading().tiles);
        assert(self@.thumb_inflight =~= Seq::<Seq<char>>::empty());
    }

    /// Asks for the open roll's manifest to be written.
    pub(crate) fn persist_roll(&mut self)
        requires
            old(self).well_formed(),
        ensures
            final(self).well_formed(),
            final(self)@ == old(self)@.roll_persisted(),
    {
        match &self.active {
            Some(dir) => {
                let e: Effect = Effect::SaveManifest {
                    dir: dir.clone(),
                    manifest: self.roll.clone(),
                };
                self.emit(e);
            },
            None => {},
        }
    }

    /// Asks for the configuration to be written.
    pub(crate) fn persist_config(&mut self)
        requires
            old(self).well_formed(),
        ensures
            final(self).well_formed(),
            final(self)@ == old(self)@.config_persisted(),
    {
        let rolls: Vec<String> = text::clone_list(self.config.rolls.as_slice());
        self.emit(Effect::PersistConfig { rolls });
    }

    /// The drafts of dates and name that a roll seeds.
    pub(crate) fn seeded_drafts(&self, dir: &str) -> (r: (RollDateDrafts, String))
        ensures
            r.0.model() == self@.seeds(dir@).0,
            r.1@ == self@.seeds(dir@).1,
    {
        match find_roll(self.rolls.as_slice(), dir) {
            Some(k) => {
                let roll: &Roll = &self.rolls[k];
                assert(self@.rolls[k as int] == roll.model());
                let drafts: RollDateDrafts = RollDateDrafts::from_dates(
                    dir,
                    text::as_slice(&roll.start_date),
                    text::as_slice(&roll.end_date),
                );
                (drafts, roll.name.clone())
            },
            None => {
                let name: String = String::new();
                assert(name@ =~= Seq::<char>::empty());
                (RollDateDrafts::from_dates(dir, None, None), name)
            },
        }
    }

    /// Seeds the drafts from the selected roll, unless they are already.
    pub(crate) fn sync_roll_date_drafts(&mut self)
        requires
            old(self).well_formed(),
        ensures
            final(self).well_formed(),
            final(self)@ == old(self)@.drafts_synced(),
    {
        let dir: String = match &self.library_selection {
            Some(LibrarySelection::Roll(dir)) => dir.clone(),
            _ => {
                self.roll_date_drafts.key = None;
                return;
            },
        };
        if text::same_option(text::as_slice(&self.roll_date_drafts.key), Some(dir.as_str())) {
            return;
        }
        let (drafts, name): (RollDateDrafts, String) = self.seeded_drafts(dir.as_str());
        self.roll_date_drafts = drafts;
        self.roll_name_draft = name;
    }

    /// Selects a library cell and seeds the drafts from it.
    pub(crate) fn set_library_selection(&mut self, selection: LibrarySelection)
        requires
            old(self).well_formed(),
        ensures
            final(self).well_formed(),
            final(self)@ == old(self)@.selecting(selection.model()),
    {
        self.library_selection = Some(selection);
        self.sync_roll_date_drafts();
    }

    /// Asks for the highlighted frame's EXIF, where the drawer shows it and it
    /// was not read yet.
    pub(crate) fn ensure_frame_info_loaded(&mut self)
        requires
            old(self).well_formed(),
        ensures
            final(self).well_formed(),
            final(self)@ == old(self)@.frame_info_requested(),
    {
        if self.drawer.page != crate::drawer::ContextPage::FrameInfo || !self.drawer.show {
            return;
        }
        let name: String = match &self.frame_selected {
            Some(name) => name.clone(),
            None => {
                return;
            },
        };
        let dir: String = match &self.active {
            Some(dir) => dir.clone(),
            None => {
                return;
            },
        };
        let needed: bool = match find_tile(self.tiles.as_slice(), name.as_str()) {
            Some(k) => self.tiles[k].meta.is_none() && !self.tiles[k].meta_failed,
            None => false,
        };
        if !needed || text::same_option(
            text::as_slice(&self.frame_meta_inflight),
            Some(name.as_str()),
        ) {
            return;
        }
        self.frame_meta_inflight = Some(name.clone());
        self.emit(Effect::LoadFrameInfo { dir, name });
    }

    /// Closes the detail view.
    pub(crate) fn clear_detail(&mut self)
        requires
            old(self).well_formed(),
        ensures
            final(self).well_formed(),
            final(self)@ == old(self)@.detail_cleared(),
    {
        self.detail = DetailState::new();
        self.detail_logged_failure = None;
        self.editing_key_held = false;
    }

    /// The columns that arrow keys navigate by: those the grid reported, or
    /// those worked out from the window; at least one.
    pub fn nav_cols(&self) -> (r: usize)
        ensures
            r == self@.nav_cols(),
    {
        let cols: usize = match self.viewport_cols {
            Some(c) => c,
            None => self.grid_cols,
        };
        if cols == 0 {
            1
        } else {
            cols
        }
    }
}

} // verus!
