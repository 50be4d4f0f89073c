//! The frame grid of an open roll: opening rolls and frames, selecting frames,
//! and moving between them.

use vstd::prelude::*;
use crate::crop;
use crate::drawer::DrawerView;
use crate::edit_manifest;
use crate::edit_manifest::{CropDirection, EditData, ManifestModel, RollManifest};
use crate::editing::{CROP_NUDGE_PX, CROP_STEP_PX};
use crate::effect::{Effect, EffectModel, GridId};
use crate::film::BaseMode;
use crate::library;
use crate::library::{LibraryCell, LibrarySelection, MoveDir, SelectionModel, Thumb};
use crate::names::NameSet;
use crate::pumps;
use crate::seqs;
use crate::state;
use crate::state::{AppModel, DetailState, Model, Tile, TileModel};
use crate::text;

verus! {

/// The names of the frames from one place to another, whichever comes first.
pub open spec fn between(order: Seq<TileModel>, i: int, j: int) -> Set<Seq<char>> {
    if i <= j {
        pumps::tile_names(order.subrange(i, j + 1)).to_set()
    } else {
        pumps::tile_names(order.subrange(j, i + 1)).to_set()
    }
}

/// The selection and the range anchor after a frame was clicked.
pub open spec fn clicked_frames(
    selected: Set<Seq<char>>,
    clicked: Seq<char>,
    ctrl: bool,
    shift: bool,
    anchor: Option<Seq<char>>,
    order: Seq<TileModel>,
) -> (Set<Seq<char>>, Option<Seq<char>>) {
    let here = seqs::first_where(order, state::named(clicked));
    let there = match anchor {
        Some(a) => seqs::first_where(order, state::named(a)),
        None => None,
    };
    if shift && here is Some && there is Some {
        (between(order, there.unwrap(), here.unwrap()), Some(clicked))
    } else if ctrl && selected.contains(clicked) {
        (selected.remove(clicked), anchor)
    } else if ctrl {
        (selected.insert(clicked), Some(clicked))
    } else {
        (Set::<Seq<char>>::empty().insert(clicked), Some(clicked))
    }
}

/// The set of the names of frames `lo` to `hi`.
fn names_between(order: &[Tile], lo: usize, hi: usize) -> (r: NameSet)
    requires
        lo <= hi < order@.len(),
    ensures
        r.well_formed(),
        r.set() == between(state::tile_models(order@), lo as int, hi as int),
{
    let ghost all = pumps::tile_names(state::tile_models(order@));
    let mut r: NameSet = NameSet::new();
    let mut i: usize = lo;
    assert(all.subrange(lo as int, lo as int).to_set() =~= Set::<Seq<char>>::empty());
    while i <= hi
        invariant
            lo <= i <= hi + 1,
            hi < order@.len(),
            all == pumps::tile_names(state::tile_models(order@)),
            r.well_formed(),
            r.set() == all.subrange(lo as int, i as int).to_set(),
        decreases hi + 1 - i,
    {
        let ghost now = all.subrange(lo as int, i as int);
        let ghost next = all.subrange(lo as int, i + 1);
        r.insert(order[i].name.as_str());
        proof {
            assert(all[i as int] == order@[i as int].name@);
            assert(next =~= now.push(all[i as int]));
            assert forall|n: Seq<char>|
                next.to_set().contains(n) == now.to_set().insert(all[i as int]).contains(n) by {
                if next.to_set().contains(n) {
                    let k = choose|k: int| 0 <= k < next.len() && next[k] == n;
                    if k < now.len() {
                        assert(now[k] == n);
                    }
                }
                if now.to_set().contains(n) {
                    let k = choose|k: int| 0 <= k < now.len() && now[k] == n;
                    assert(next[k] == n);
                }
                assert(next[now.len() as int] == all[i as int]);
            }
            assert(next.to_set() =~= now.to_set().insert(all[i as int]));
        }
        i += 1;
    }
    assert(all.subrange(lo as int, hi + 1) =~= pumps::tile_names(
        state::tile_models(order@).subrange(lo as int, hi + 1),
    ));
    r
}

/// Updates the multi-selection after a frame tile is clicked. A plain click
/// selects just that frame; with Ctrl it changes the frame's membership; with
/// Shift it selects the range from the anchor through the frame, unless the
/// anchor or the frame is not on the grid. The clicked frame is the next
/// anchor, except where it was taken out.
pub fn apply_frame_click(
    selected: NameSet,
    clicked: &str,
    ctrl: bool,
    shift: bool,
    anchor: Option<&str>,
    order: &[Tile],
) -> (r: (NameSet, Option<String>))
    requires
        selected.well_formed(),
    ensures
        r.0.well_formed(),
        (r.0.set(), text::text_of(r.1)) == clicked_frames(
            selected.set(),
            clicked@,
            ctrl,
            shift,
            text::slice_of(anchor),
            state::tile_models(order@),
        ),
{
    let here: Option<usize> = state::find_tile(order, clicked);
    let there: Option<usize> = match anchor {
        Some(a) => state::find_tile(order, a),
        None => None,
    };
    if shift {
        match (here, there) {
            (Some(i), Some(j)) => {
                let range: NameSet = if j <= i {
                    names_between(order, j, i)
                } else {
                    names_between(order, i, j)
                };
                return (range, Some(clicked.to_owned()));
            },
            _ => {},
        }
    }
    if ctrl {
        let mut next: NameSet = selected;
        if next.contains(clicked) {
            next.remove(clicked);
            return (next, text::to_owned_option(anchor));
        }
        next.insert(clicked);
        return (next, Some(clicked.to_owned()));
    }
    (NameSet::single(clicked), Some(clicked.to_owned()))
}

/// Frames as they are when a roll is opened.
pub open spec fn fresh_tiles(files: Seq<Seq<char>>) -> Seq<TileModel> {
    files.map_values(
        |n: Seq<char>|
            TileModel { name: n, thumb: Thumb::Loading, meta: None, meta_failed: false },
    )
}

impl Model {
    /// The selection with a frame added while Shift is held, or alone.
    pub open spec fn selection_with(self, name: Seq<char>) -> Set<Seq<char>> {
        if self.modifiers.shift {
            self.selected_frames.insert(name)
        } else {
            Set::<Seq<char>>::empty().insert(name)
        }
    }

    /// The state with a frame as the highlight and the range anchor.
    pub open spec fn highlighting(self, name: Seq<char>) -> Model {
        Model {
            frame_selected: Some(name),
            selected_frames: self.selection_with(name),
            selection_anchor: Some(name),
            ..self
        }
    }

    /// The state with a roll being opened; the one that is open stays.
    #[verifier::opaque]
    pub open spec fn roll_opening(self, dir: Seq<char>) -> Model {
        if self.active == Some(dir) {
            self
        } else {
            Model {
                active: Some(dir),
                selected: None,
                frame_selected: None,
                selected_frames: Set::empty(),
                selection_anchor: None,
                viewport_cols: None,
                frame_meta_inflight: None,
                ..self.roll_persisted()
            }.detail_cleared().drawer_restored(DrawerView::Grid).emitting(
                EffectModel::LoadFiles { dir },
            )
        }
    }

    /// The edits that a frame opens with: those recorded, with the rotation as
    /// a number of quarter-turns below four.
    pub open spec fn opening_edits(self, name: Seq<char>) -> EditData {
        EditData {
            rotation: (self.roll.edits_of(name).rotation % 4) as u8,
            ..self.roll.edits_of(name)
        }
    }

    /// The state with a frame in the detail view, with the edits recorded for
    /// it.
    #[verifier::opaque]
    pub open spec fn frame_entered(self, name: Seq<char>) -> Model {
        let saved = self.roll_persisted();
        let entered = Model { selected: Some(name), ..saved.highlighting(name) }.detail_cleared();
        let shown = Model {
            detail: DetailState {
                edit: saved.opening_edits(name),
                reset: saved.opening_edits(name),
                ..entered.detail
            },
            ..entered
        };
        shown.drawer_restored(DrawerView::Detail)
    }

    /// The state with a frame opened in the detail view and being decoded, with
    /// its neighbors.
    #[verifier::opaque]
    pub open spec fn frame_opened(self, name: Seq<char>) -> Model {
        let entered = if self.selected == Some(name) {
            self
        } else {
            self.frame_entered(name)
        };
        entered.detail_pumped().neighbors_pumped(name)
    }

    /// The state with the search put away.
    #[verifier::opaque]
    pub open spec fn search_closed(self) -> Model {
        Model {
            search: None,
            search_filter: None,
            search_version: self.search_version.wrapping_add(1),
            ..self
        }
    }

    /// The state with the roll closed and nothing of it left.
    #[verifier::opaque]
    pub open spec fn roll_closed(self) -> Model {
        Model {
            active: None,
            selected: None,
            frame_selected: None,
            selected_frames: Set::empty(),
            selection_anchor: None,
            viewport_cols: None,
            tiles: Seq::empty(),
            frame_meta_inflight: None,
            thumb_inflight: Seq::empty(),
            detail_inflight: None,
            detail_preload_inflight: Seq::empty(),
            roll: ManifestModel::blank(),
            ..self
        }.detail_cleared().drawer_restored(DrawerView::Library)
    }

    /// The state after Escape: a search is put away first, then the detail
    /// view is closed, then the roll. What was edited is written.
    #[verifier::opaque]
    pub open spec fn escaped(self) -> Model {
        let saved = self.roll_persisted();
        if self.active is None && self.search is Some {
            saved.search_closed()
        } else if self.active is None {
            saved
        } else if self.selected is Some {
            Model { selected: None, ..saved }.detail_cleared().drawer_restored(
                DrawerView::Grid,
            ).frame_info_requested()
        } else {
            saved.roll_closed()
        }
    }

    /// The state with the frames of the open roll on its grid, the first one
    /// highlighted.
    #[verifier::opaque]
    pub open spec fn frames_listed(self, files: Seq<Seq<char>>, manifest: ManifestModel) -> Model {
        let listed = Model {
            roll: manifest.reconciled(files),
            viewport_cols: None,
            thumb_inflight: Seq::empty(),
            tiles: fresh_tiles(files),
            ..self
        };
        let lit = if files.len() > 0 {
            Model {
                frame_selected: Some(files[0]),
                selected_frames: Set::<Seq<char>>::empty().insert(files[0]),
                selection_anchor: Some(files[0]),
                ..listed
            }
        } else {
            listed
        };
        lit.drawer_restored(DrawerView::Grid)
    }

    /// The state with the first frame designated for calibration and being
    /// measured, where the roll's strategy wants one and has none.
    #[verifier::opaque]
    pub open spec fn calibration_defaulted(self, dir: Seq<char>) -> Model {
        if self.roll.strategy() == BaseMode::AutoSelectedFrame && self.roll.calibration_frame
            is None && self.tiles.len() > 0 {
            Model {
                roll: ManifestModel { calibration_frame: Some(self.tiles[0].name), ..self.roll },
                ..self
            }.roll_persisted().emitting(EffectModel::MeasureCalibration { dir })
        } else {
            self
        }
    }

    /// The state after a roll's frames were listed. A list for a roll that is
    /// no longer open is dropped.
    #[verifier::opaque]
    pub open spec fn roll_opened(
        self,
        dir: Seq<char>,
        files: Seq<Seq<char>>,
        manifest: ManifestModel,
    ) -> Model {
        if self.active == Some(dir) {
            self.frames_listed(files, manifest).calibration_defaulted(
                dir,
            ).thumbs_pumped().frame_info_requested()
        } else {
            self
        }
    }

    /// The state after a frame was clicked.
    #[verifier::opaque]
    pub open spec fn frame_clicked(self, name: Seq<char>) -> Model {
        let (frames, anchor) = clicked_frames(
            self.selected_frames,
            name,
            self.modifiers.control,
            self.modifiers.shift,
            self.selection_anchor,
            self.tiles,
        );
        Model {
            frame_selected: Some(name),
            selected_frames: frames,
            selection_anchor: anchor,
            ..self
        }.frame_info_requested()
    }

    /// The state with every frame of the open roll selected.
    #[verifier::opaque]
    pub open spec fn all_selected(self) -> Model {
        if self.active is Some {
            Model { selected_frames: pumps::tile_names(self.tiles).to_set(), ..self }
        } else {
            self
        }
    }

    /// The state after an arrow key in the open roll: it pages through the
    /// detail view, or moves the highlight.
    #[verifier::opaque]
    pub open spec fn frame_navigated(self, dir: MoveDir) -> Model {
        let len = self.tiles.len() as int;
        match self.selected {
            Some(open) => match self.tile_at(open) {
                Some(i) => match library::page_place(i, len, dir) {
                    Some(target) => self.frame_opened(self.tiles[target].name),
                    None => self,
                },
                None => self,
            },
            None => {
                let now = match self.frame_selected {
                    Some(n) => self.tile_at(n),
                    None => None,
                };
                match library::nav_place(now, len, self.nav_cols(), dir) {
                    Some(target) => self.highlighting(self.tiles[target].name).emitting(
                        EffectModel::ScrollTo {
                            grid: GridId::Frames,
                            index: target,
                            len,
                            cols: self.nav_cols(),
                        },
                    ).frame_info_requested(),
                    None => self,
                }
            },
        }
    }

    /// The selections that the library grid shows.
    pub open spec fn library_grid(self) -> Seq<SelectionModel> {
        library::grid_cells(self.rolls, state::or_empty(self.search_filter), self.month_aliases)
    }

    /// The state after an arrow key in the library.
    #[verifier::opaque]
    pub open spec fn library_navigated(self, dir: MoveDir) -> Model {
        let cells = self.library_grid();
        let now = match self.library_selection {
            Some(s) => seqs::first_where(cells, library::is_selection(s)),
            None => None,
        };
        match library::nav_place(now, cells.len() as int, self.nav_cols(), dir) {
            Some(target) => self.selecting(cells[target]).emitting(
                EffectModel::ScrollTo {
                    grid: GridId::Rolls,
                    index: target,
                    len: cells.len() as int,
                    cols: self.nav_cols(),
                },
            ),
            None => self,
        }
    }

    /// The state after an arrow key. In crop mode it moves the crop window, as
    /// seen on screen.
    #[verifier::opaque]
    pub open spec fn navigated(self, dir: MoveDir) -> Model {
        if self.detail.crop_mode {
            Model { editing_key_held: true, ..self }.crop_moved(
                crop::edge_at((crop::screen_turn(dir) + self.detail.edit.rotation) % 4),
                if self.modifiers.shift {
                    CROP_NUDGE_PX as int
                } else {
                    CROP_STEP_PX as int
                },
            )
        } else if self.active is Some {
            self.frame_navigated(dir)
        } else {
            self.library_navigated(dir)
        }
    }

    /// The state with what is selected opened.
    #[verifier::opaque]
    pub open spec fn selection_opened(self) -> Model {
        if self.active is Some {
            match self.frame_selected {
                Some(n) => self.frame_opened(n),
                None => self,
            }
        } else {
            match self.library_selection {
                Some(SelectionModel::Roll(dir)) => self.roll_opening(dir),
                Some(SelectionModel::AddRoll) => self.emitting(EffectModel::OpenRollPicker),
                None => self,
            }
        }
    }
}

impl AppModel {
    /// Makes a frame the highlight and the range anchor.
    fn highlight(&mut self, name: &str)
        requires
            old(self).well_formed(),
        ensures
            final(self).well_formed(),
            final(self)@ == old(self)@.highlighting(name@),
    {
        self.frame_selected = Some(name.to_owned());
        if self.modifiers.shift {
            self.selected_frames.insert(name);
        } else {
            self.selected_frames = NameSet::single(name);
        }
        self.selection_anchor = Some(name.to_owned());
    }

    /// Opens a roll's frame grid.
    pub(crate) fn open_roll(&mut self, dir: String)
        requires
            old(self).well_formed(),
        ensures
            final(self).well_formed(),
            final(self)@ == old(self)@.roll_opening(dir@),
    {
        reveal(Model::roll_opening);
        if text::same_option(text::as_slice(&self.active), Some(dir.as_str())) {
            return;
        }
        self.persist_roll();
        self.active = Some(dir.clone());
        self.selected = None;
        self.frame_selected = None;
        self.selected_frames = NameSet::new();
        self.selection_anchor = None;
        self.viewport_cols = None;
        self.frame_meta_inflight = None;
        self.clear_detail();
        self.restore_drawer_for(DrawerView::Grid);
        self.emit(Effect::LoadFiles { dir });
    }

    /// Puts a frame into the detail view, with the edits recorded for it.
    fn enter_frame(&mut self, name: &str)
        requires
            old(self).well_formed(),
        ensures
            final(self).well_formed(),
            final(self)@ == old(self)@.frame_entered(name@),
    {
        reveal(Model::frame_entered);
        self.persist_roll();
        let data: EditData = self.roll.edit_data(name);
        let edits: EditData = EditData { rotation: data.rotation % 4, ..data };
        self.selected = Some(name.to_owned());
        self.highlight(name);
        self.clear_detail();
        self.detail.edit = edits;
        self.detail.reset = edits;
        self.restore_drawer_for(DrawerView::Detail);
    }

    /// Opens a frame in the detail view.
    pub(crate) fn open_frame(&mut self, name: &str)
        requires
            old(self).well_formed(),
        ensures
            final(self).well_formed(),
            final(self)@ == old(self)@.frame_opened(name@),
    {
        reveal(Model::frame_opened);
        if !text::same_option(text::as_slice(&self.selected), Some(name)) {
            self.enter_frame(name);
        }
        self.decode_detail_next();
        self.preload_detail_neighbors(name);
    }

    /// Puts the search away.
    pub(crate) fn close_search(&mut self)
        requires
            old(self).well_formed(),
        ensures
            final(self).well_formed(),
            final(self)@ == old(self)@.search_closed(),
    {
        reveal(Model::search_closed);
        self.search = None;
        self.search_filter = None;
        self.search_version = self.search_version.wrapping_add(1);
    }

    /// Closes the roll and drops all of it.
    fn close_roll(&mut self)
        requires
            old(self).well_formed(),
        ensures
            final(self).well_formed(),
            final(self)@ == old(self)@.roll_closed(),
    {
        reveal(Model::roll_closed);
        self.active = None;
        self.selected = None;
        self.frame_selected = None;
        self.selected_frames = NameSet::new();
        self.selection_anchor = None;
        self.viewport_cols = None;
        self.tiles = Vec::new();
        self.frame_meta_inflight = None;
        self.thumb_inflight = Vec::new();
        self.detail_inflight = None;
        self.detail_preload_inflight = Vec::new();
        self.roll = RollManifest::default();
        proof {
            assert(self@.tiles =~= Seq::<TileModel>::empty());
            assert(self@.thumb_inflight =~= Seq::<Seq<char>>::empty());
            assert(self@.detail_preload_inflight =~= Seq::<(Seq<char>, Seq<char>)>::empty());
            assert(self@.roll =~= ManifestModel::blank());
        }
        self.clear_detail();
        self.restore_drawer_for(DrawerView::Library);
    }

    /// Acts on Escape.
    pub(crate) fn close_detail(&mut self)
        requires
            old(self).well_formed(),
        ensures
            final(self).well_formed(),
            final(self)@ == old(self)@.escaped(),
    {
        reveal(Model::escaped);
        self.persist_roll();
        if self.active.is_none() {
            if self.search.is_some() {
                self.close_search();
            }
            return;
        }
        if self.selected.is_some() {
            self.selected = None;
            self.clear_detail();
            self.restore_drawer_for(DrawerView::Grid);
            self.ensure_frame_info_loaded();
            return;
        }
        self.close_roll();
    }

    /// Lists the frames of the open roll on its grid.
    fn list_frames(&mut self, files: Vec<String>, manifest: RollManifest)
        requires
            old(self).well_formed(),
            manifest.well_formed(),
        ensures
            final(self).well_formed(),
            final(self)@ == old(self)@.frames_listed(text::texts(files@), manifest.model()),
    {
        reveal(Model::frames_listed);
        let ghost names = text::texts(files@);
        let ghost read = manifest.model();
        self.roll = manifest;
        edit_manifest::reconcile(&mut self.roll, files.as_slice());
        proof {
            let there = Set::new(|n: Seq<char>| edit_manifest::still_there(files@, n));
            assert(there =~= names.to_set());
            assert(self@.roll =~= read.reconciled(names));
        }
        self.viewport_cols = None;
        self.thumb_inflight = Vec::new();
        assert(self@.thumb_inflight =~= Seq::<Seq<char>>::empty());
        let mut tiles: Vec<Tile> = Vec::new();
        let mut i: usize = 0;
        while i < files.len()
            invariant
                i <= files@.len(),
                names == text::texts(files@),
                tiles@.len() == i,
                forall|j: int|
                    0 <= j < i ==> state::tile_models(tiles@)[j] == #[trigger] fresh_tiles(
                        names,
                    )[j],
            decreases files@.len() - i,
        {
            let ghost held = tiles@;
            tiles.push(
                Tile {
                    name: files[i].clone(),
                    thumb: Thumb::Loading,
                    meta: None,
                    meta_failed: false,
                },
            );
            proof {
                assert forall|j: int| 0 <= j < i + 1 implies state::tile_models(tiles@)[j]
                    == #[trigger] fresh_tiles(names)[j] by {
                    if j < i {
                        assert(state::tile_models(held)[j] == fresh_tiles(names)[j]);
                    }
                }
            }
            i += 1;
        }
        assert(state::tile_models(tiles@) =~= fresh_tiles(names));
        self.tiles = tiles;
        if files.len() > 0 {
            let first: &String = &files[0];
            self.frame_selected = Some(first.clone());
            self.selected_frames = NameSet::single(first.as_str());
            self.selection_anchor = Some(first.clone());
        }
        self.restore_drawer_for(DrawerView::Grid);
    }

    /// Designates the first frame for calibration, where the roll's strategy
    /// wants one and has none.
    fn default_calibration(&mut self, dir: String)
        requires
            old(self).well_formed(),
        ensures
            final(self).well_formed(),
            final(self)@ == old(self)@.calibration_defaulted(dir@),
    {
        reveal(Model::calibration_defaulted);
        match self.roll.base_mode() {
            BaseMode::AutoSelectedFrame => {},
            _ => {
                return;
            },
        }
        if self.roll.calibration_frame().is_some() || self.tiles.len() == 0 {
            return;
        }
        let first: String = self.tiles[0].name.clone();
        self.roll.set_calibration_frame(first.as_str());
        assert(self@.roll.edits == old(self)@.roll.edits);
        self.persist_roll();
        self.emit(Effect::MeasureCalibration { dir });
    }

    /// Acts on the list of an opened roll's frames.
    pub(crate) fn handle_roll_opened(&mut self, dir: String, files: Vec<String>, manifest: RollManifest)
        requires
            old(self).well_formed(),
            manifest.well_formed(),
        ensures
            final(self).well_formed(),
            final(self)@ == old(self)@.roll_opened(dir@, text::texts(files@), manifest.model()),
    {
        reveal(Model::roll_opened);
        if !text::same_option(text::as_slice(&self.active), Some(dir.as_str())) {
            return;
        }
        self.list_frames(files, manifest);
        self.default_calibration(dir);
        self.decode_next();
        self.ensure_frame_info_loaded();
    }

    /// Acts on a click on a frame.
    pub(crate) fn click_frame(&mut self, name: String)
        requires
            old(self).well_formed(),
        ensures
            final(self).well_formed(),
            final(self)@ == old(self)@.frame_clicked(name@),
    {
        reveal(Model::frame_clicked);
        let mut before: NameSet = NameSet::new();
        std::mem::swap(&mut before, &mut self.selected_frames);
        let (frames, anchor): (NameSet, Option<String>) = apply_frame_click(
            before,
            name.as_str(),
            self.modifiers.control,
            self.modifiers.shift,
            text::as_slice(&self.selection_anchor),
            self.tiles.as_slice(),
        );
        self.frame_selected = Some(name);
        self.selected_frames = frames;
        self.selection_anchor = anchor;
        self.ensure_frame_info_loaded();
    }

    /// Selects every frame of the open roll.
    pub(crate) fn select_all_frames(&mut self)
        requires
            old(self).well_formed(),
        ensures
            final(self).well_formed(),
            final(self)@ == old(self)@.all_selected(),
    {
        reveal(Model::all_selected);
        if self.active.is_none() {
            return;
        }
        let count: usize = self.tiles.len();
        if count == 0 {
            self.selected_frames = NameSet::new();
            assert(pumps::tile_names(self@.tiles).to_set() =~= Set::<Seq<char>>::empty());
            return;
        }
        self.selected_frames = names_between(self.tiles.as_slice(), 0, count - 1);
        assert(self@.tiles.subrange(0, count as int) =~= self@.tiles);
    }

    /// Acts on an arrow key in the open roll.
    fn nav_frames(&mut self, dir: MoveDir)
        requires
            old(self).well_formed(),
        ensures
            final(self).well_formed(),
            final(self)@ == old(self)@.frame_navigated(dir),
    {
        reveal(Model::frame_navigated);
        let len: usize = self.tiles.len();
        assert(self@.tiles.len() == len);
        match &self.selected {
            Some(open) => {
                let target: Option<usize> = match state::find_tile(
                    self.tiles.as_slice(),
                    open.as_str(),
                ) {
                    Some(i) => library::paginate(i, len, dir),
                    None => None,
                };
                match target {
                    Some(t) => {
                        assert(self@.tiles[t as int] == self.tiles@[t as int].model());
                        let name: String = self.tiles[t].name.clone();
                        self.open_frame(name.as_str());
                    },
                    None => {},
                }
            },
            None => {
                let now: Option<usize> = match &self.frame_selected {
                    Some(name) => state::find_tile(self.tiles.as_slice(), name.as_str()),
                    None => None,
                };
                let cols: usize = self.nav_cols();
                match library::nav_target(now, len, cols, dir) {
                    Some(t) => {
                        assert(self@.tiles[t as int] == self.tiles@[t as int].model());
                        let name: String = self.tiles[t].name.clone();
                        self.highlight(name.as_str());
                        self.emit(Effect::ScrollTo { grid: GridId::Frames, index: t, len, cols });
                        self.ensure_frame_info_loaded();
                    },
                    None => {},
                }
            },
        }
    }

    /// The cell that an arrow key leads to in the library: its selection, its
    /// place, and how many cells there are.
    fn library_target(&self, dir: MoveDir, cols: usize) -> (r: (Option<(LibrarySelection, usize)>, usize))
        ensures
            r.1 == self@.library_grid().len(),
            ({
                let cells = self@.library_grid();
                let now = match self@.library_selection {
                    Some(s) => seqs::first_where(cells, library::is_selection(s)),
                    None => None,
                };
                match library::nav_place(now, cells.len() as int, cols as int, dir) {
                    Some(t) => r.0 is Some && r.0.unwrap().1 == t && r.0.unwrap().0.model()
                        == cells[t],
                    None => r.0 is None,
                }
            }),
    {
        let query: String = state::text_or_empty(text::as_slice(&self.search_filter));
        let cells: Vec<LibraryCell<'_>> = library::library_cells(
            self.rolls.as_slice(),
            query.as_str(),
            &self.month_aliases,
        );
        proof {
            library::shown_cells_carry_the_grid(
                self@.rolls,
                query@,
                self.month_aliases,
                cells@,
            );
        }
        let len: usize = cells.len();
        let now: Option<usize> = match &self.library_selection {
            Some(s) => library::library_cell_index(Some(s), cells.as_slice()),
            None => None,
        };
        match library::nav_target(now, len, cols, dir) {
            Some(t) => {
                assert(library::carried(cells@)[t as int] == cells@[t as int].carries());
                (Some((cells[t].selection(), t)), len)
            },
            None => (None, len),
        }
    }

    /// Acts on an arrow key in the library.
    fn nav_library(&mut self, dir: MoveDir)
        requires
            old(self).well_formed(),
        ensures
            final(self).well_formed(),
            final(self)@ == old(self)@.library_navigated(dir),
    {
        reveal(Model::library_navigated);
        let cols: usize = self.nav_cols();
        let (target, len): (Option<(LibrarySelection, usize)>, usize) = self.library_target(
            dir,
            cols,
        );
        match target {
            Some((selection, t)) => {
                self.set_library_selection(selection);
                self.emit(Effect::ScrollTo { grid: GridId::Rolls, index: t, len, cols });
            },
            None => {},
        }
    }

    /// Acts on an arrow key.
    pub(crate) fn navigate(&mut self, dir: MoveDir)
        requires
            old(self).well_formed(),
        ensures
            final(self).well_formed(),
            final(self)@ == old(self)@.navigated(dir),
    {
        reveal(Model::navigated);
        if self.detail.crop_mode {
            let direction: CropDirection = crop::crop_move_direction(
                dir,
                self.detail.edit.rotation,
            );
            let delta: i32 = if self.modifiers.shift {
                CROP_NUDGE_PX
            } else {
                CROP_STEP_PX
            };
            self.editing_key_held = true;
            self.apply_crop_move(direction, delta);
        } else if self.active.is_some() {
            self.nav_frames(dir);
        } else {
            self.nav_library(dir);
        }
    }

    /// Opens what is selected.
    pub(crate) fn open_selected(&mut self)
        requires
            old(self).well_formed(),
        ensures
            final(self).well_formed(),
            final(self)@ == old(self)@.selection_opened(),
    {
        reveal(Model::selection_opened);
        if self.active.is_some() {
            match &self.frame_selected {
                Some(name) => {
                    let name: String = name.clone();
                    self.open_frame(name.as_str());
                },
                None => {},
            }
            return;
        }
        match &self.library_selection {
            Some(LibrarySelection::Roll(dir)) => {
                let dir: String = dir.clone();
                self.open_roll(dir);
            },
            Some(LibrarySelection::AddRoll) => self.emit(Effect::OpenRollPicker),
            None => {},
        }
    }
}

} // verus!
