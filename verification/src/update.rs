//! The application's reaction to messages.

use vstd::prelude::*;
use crate::config::Config;
use crate::drawer::{Drawer, DrawerView};
use crate::edit_manifest::RollManifest;
use crate::effect;
use crate::effect::{Effect, EffectModel};
use crate::library;
use crate::library::{LibrarySelection, MonthAliases, SelectionModel};
use crate::lru::LruCache;
use crate::message::{Message, Modifiers};
use crate::names::NameSet;
use crate::state;
use crate::state::{AppModel, DetailState, DraftsModel, Model, RollDateDrafts, DETAIL_CACHE_CAPACITY};
use crate::text;

verus! {

/// Whether a message acts even while the help overlay covers the window: what
/// closes it, and what comes from the surroundings rather than from the user.
pub open spec fn passes_help(message: Message) -> bool {
    match message {
        Message::ToggleHelp
        | Message::Ignore
        | Message::ModifiersChanged(_)
        | Message::GridViewport(_)
        | Message::DetailAreaResized(_)
        | Message::ThumbReady(_, _)
        | Message::RollOpened(_, _, _)
        | Message::CoverReady(_, _)
        | Message::DetailReady { .. }
        | Message::DetailPreloaded { .. }
        | Message::FrameInfoReady(_, _)
        | Message::RollInfoLoaded(_)
        | Message::RollsLoaded(_)
        | Message::DetailFadeTick(_)
        | Message::ToastClose(_)
        | Message::UpdateConfig(_)
        | Message::ExportProgress { .. }
        | Message::ExportDone { .. } => true,
        _ => false,
    }
}

/// Whether a message acts even while the help overlay covers the window.
fn help_lets_through(message: &Message) -> (r: bool)
    ensures
        r == passes_help(*message),
{
    match message {
        Message::ToggleHelp
        | Message::Ignore
        | Message::ModifiersChanged(_)
        | Message::GridViewport(_)
        | Message::DetailAreaResized(_)
        | Message::ThumbReady(_, _)
        | Message::RollOpened(_, _, _)
        | Message::CoverReady(_, _)
        | Message::DetailReady { .. }
        | Message::DetailPreloaded { .. }
        | Message::FrameInfoReady(_, _)
        | Message::RollInfoLoaded(_)
        | Message::RollsLoaded(_)
        | Message::DetailFadeTick(_)
        | Message::ToastClose(_)
        | Message::UpdateConfig(_)
        | Message::ExportProgress { .. }
        | Message::ExportDone { .. } => true,
        _ => false,
    }
}

/// Whether what a message carries is sound: manifests have one entry for each
/// file, and the frames of an export can be counted.
pub open spec fn sound(message: Message) -> bool {
    match message {
        Message::RollOpened(_, _, manifest) => manifest.well_formed(),
        Message::CalibrationBaseMeasured(_, _, _, manifest) => manifest.well_formed(),
        Message::ExportDone { ok, failed, .. } => ok + failed <= usize::MAX,
        _ => true,
    }
}

impl Model {
    /// The state with the current view's drawer toggled; a frame-info drawer
    /// that opens has its readout asked for.
    #[verifier::opaque]
    pub open spec fn context_toggled(self) -> Model {
        let view = self.current_view();
        let valid = self.drawer_valid(view);
        let toggled = Model { drawer: self.drawer.toggled(view, valid), ..self };
        if !self.drawer.show && valid && view == DrawerView::Grid {
            toggled.frame_info_requested()
        } else {
            toggled
        }
    }

    /// The state before anything happened.
    pub open spec fn initial(config: Seq<Seq<char>>, months: MonthAliases) -> Model {
        Model {
            drawer: Drawer::at_launch(),
            config,
            rolls: Seq::empty(),
            active: None,
            library_selection: None,
            frame_selected: None,
            selected_frames: Set::empty(),
            selection_anchor: None,
            modifiers: Modifiers { control: false, shift: false, alt: false },
            editing_key_held: false,
            grid_cols: 3,
            viewport_cols: None,
            cover_inflight: Seq::empty(),
            search: None,
            search_filter: None,
            search_version: 0,
            month_aliases: months,
            tiles: Seq::empty(),
            selected: None,
            thumb_inflight: Seq::empty(),
            frame_meta_inflight: None,
            roll: crate::edit_manifest::ManifestModel::blank(),
            detail: DetailState::closed(),
            detail_inflight: None,
            detail_logged_failure: None,
            next_image_id: 0,
            detail_cache: Seq::empty(),
            detail_preload_inflight: Seq::empty(),
            roll_date_drafts: DraftsModel { key: None, start: Seq::empty(), end: Seq::empty() },
            roll_name_draft: Seq::empty(),
            help_visible: false,
            clipboard: None,
            export_pending: false,
            export_progress: None,
            effects: Seq::empty(),
        }
    }

    /// The state after a message about the library's rolls acted; any other
    /// message acts as it does elsewhere.
    #[verifier::opaque]
    pub open spec fn acted_library(self, message: Message) -> Model {
        match message {
            Message::RollsLoaded(rolls) => self.rolls_loaded(library::roll_models(rolls@)),
            Message::RollInfoLoaded(roll) => self.roll_listed(roll.model()),
            Message::CoverReady(dir, picture) => self.cover_decoded(dir@, picture),
            Message::RollAdded(dir, preset) => self.roll_added(dir@, preset),
            Message::RollPresetChanged(dir, preset) => self.preset_changed(dir@, preset),
            Message::RollBaseModeChanged(dir, mode) => self.base_mode_changed(dir@, mode),
            Message::CalibrateBaseFromFrame(samples) => self.calibrated(samples@),
            Message::CalibrationBaseMeasured(dir, name, base, manifest) => self.measurement_landed(
                dir@,
                name@,
                base,
                manifest.model(),
            ),
            Message::AddRoll => self.emitting(EffectModel::OpenRollPicker),
            Message::RollSelected(dir) => self.selecting(SelectionModel::Roll(dir@)),
            Message::RemoveRoll(dir) => self.roll_removed(dir@),
            Message::RemoveSelectedRoll => match self.library_selection {
                Some(SelectionModel::Roll(dir)) => self.roll_removed(dir),
                _ => self,
            },
            Message::AddRollSelected => self.selecting(SelectionModel::AddRoll),
            _ => self.acted_drafts(message),
        }
    }

    /// The state after a message about the search or the roll-info drawer acted; any other
    /// message acts as it does elsewhere.
    #[verifier::opaque]
    pub open spec fn acted_drafts(self, message: Message) -> Model {
        match message {
            Message::RollDateDraftChange(field, value) => Model {
                roll_date_drafts: self.roll_date_drafts.with(field, value@),
                ..self
            },
            Message::RollDateDraftSubmit(field) => self.date_submitted(field),
            Message::RollNameDraftChange(value) => Model { roll_name_draft: value@, ..self },
            Message::RollNameDraftSubmit => self.name_submitted(),
            Message::SearchActivate => self.search_activated(),
            Message::SearchClear => self.search_closed(),
            Message::SearchInput(term) => self.search_typed(term@),
            Message::SearchCommitted(term, version) => self.search_applied(term@, version),
            Message::UpdateConfig(config) => Model { config: config.dirs(), ..self },
            _ => self.acted_frames(message),
        }
    }

    /// The state after a message about the frame grid acted; any other
    /// message acts as it does elsewhere.
    #[verifier::opaque]
    pub open spec fn acted_frames(self, message: Message) -> Model {
        match message {
            Message::DetailClosed => self.escaped(),
            Message::OpenSelected => self.selection_opened(),
            Message::RollActivated(dir) => self.roll_opening(dir@),
            Message::Nav(dir) => self.navigated(dir),
            Message::FrameSelected(name) => self.frame_clicked(name@),
            Message::SelectAllFrames => self.all_selected(),
            Message::ModifiersChanged(modifiers) => Model { modifiers, ..self },
            Message::GridViewport(cols) => Model { viewport_cols: Some(cols), ..self },
            Message::RollOpened(dir, files, manifest) => self.roll_opened(
                dir@,
                text::texts(files@),
                manifest.model(),
            ),
            Message::FrameInfoReady(name, meta) => self.frame_info_read(name@, meta),
            Message::ThumbReady(name, picture) => self.thumb_decoded(name@, picture),
            Message::ThumbnailActivated(name) => self.frame_opened(name@),
            _ => self.acted_editing(message),
        }
    }

    /// The state after a message about edits acted; any other
    /// message acts as it does elsewhere.
    #[verifier::opaque]
    pub open spec fn acted_editing(self, message: Message) -> Model {
        match message {
            Message::ExposureChanged(ev) => self.exposure_set(ev),
            Message::AdjustEdit { adjust, moved } => self.edit_key_pressed(adjust, moved),
            Message::EditKeyReleased => self.edit_key_released(),
            Message::CurveChanged(contrast, rolloff, shadows) => self.curve_set(
                contrast,
                rolloff,
                shadows,
            ),
            Message::ResetAll => self.all_reset(),
            Message::ResetCrop => self.crop_reset(),
            Message::ToggleCropMode => self.crop_mode_toggled(),
            Message::EditSave => self.committed(),
            Message::CopyEdits => self.copied(),
            Message::PasteEdits => self.pasted(),
            _ => self.acted_detail(message),
        }
    }

    /// The state after a message about the detail view acted; any other
    /// message acts as it does elsewhere.
    #[verifier::opaque]
    pub open spec fn acted_detail(self, message: Message) -> Model {
        match message {
            Message::DetailReady { name, preset, result, cap, one_to_one } => self.detail_finished(
                name@,
                preset,
                result,
                cap,
                one_to_one,
            ),
            Message::DetailPreloaded { dir, name, preset, result } => self.preload_finished(
                dir@,
                name@,
                preset,
                result,
            ),
            Message::DetailFadeTick(opacity) => self.faded(opacity),
            Message::DetailZoom { zoom, pan, one_to_one } => self.zoomed(zoom, pan, one_to_one),
            Message::DetailAreaResized(size) => Model {
                detail: DetailState { area: Some(size), ..self.detail },
                ..self
            }.emitting(EffectModel::ReclampZoom),
            Message::DetailPanPress => Model {
                detail: DetailState { panning: true, ..self.detail },
                ..self
            },
            Message::DetailPanMove { cursor, pan } => self.cursor_moved(cursor, pan),
            Message::DetailPanRelease => Model {
                detail: DetailState { panning: false, ..self.detail },
                ..self
            },
            _ => self.acted_window(message),
        }
    }

    /// The state after a message about exports, drawers or the window acted.
    #[verifier::opaque]
    pub open spec fn acted_window(self, message: Message) -> Model {
        match message {
            Message::LaunchUrl(url) => self.emitting(EffectModel::LaunchUrl(url@)),
            Message::ToggleHelp => Model { help_visible: !self.help_visible, ..self },
            Message::Ignore => self,
            Message::ExportRequested => self.export_requested(),
            Message::ExportProgress { done, total } => Model {
                export_progress: Some((done, total)),
                ..self
            },
            Message::ExportChosen(choice) => self.export_chosen(choice),
            Message::ExportDone { ok, skipped, failed, dest, start_date } => self.export_finished(
                ok as int,
                skipped as int,
                failed as int,
                dest@,
                text::text_of(start_date),
            ),
            Message::ToastClose(id) => self.emitting(EffectModel::CloseToast(id)),
            Message::Quit => self.roll_persisted().config_persisted().emitting(
                EffectModel::CloseWindow,
            ),
            Message::ToggleContextPage(page) => Model {
                drawer: self.drawer.page_toggled(
                    page,
                    self.current_view(),
                    self.drawer_valid(self.current_view()),
                ),
                ..self
            },
            Message::ToggleContext => self.context_toggled(),
            _ => self,
        }
    }

    /// The state after a message. Before it acts the drafts are seeded from
    /// the selected roll; under the help overlay only some messages act.
    pub open spec fn updated(self, message: Message) -> Model {
        let synced = self.drafts_synced();
        if self.help_visible && !passes_help(message) {
            synced
        } else {
            synced.acted_library(message)
        }
    }
}

impl AppModel {
    /// The application before anything happened, with what persisted and the
    /// month names that the search knows.
    pub fn new(config: Config, months: MonthAliases) -> (r: Self)
        ensures
            r.well_formed(),
            r@ == Model::initial(config.dirs(), months),
            r@.settled(),
    {
        let r: AppModel = AppModel {
            drawer: Drawer::new(),
            config,
            rolls: Vec::new(),
            active: None,
            library_selection: None,
            frame_selected: None,
            selected_frames: NameSet::new(),
            selection_anchor: None,
            modifiers: Modifiers { control: false, shift: false, alt: false },
            editing_key_held: false,
            grid_cols: 3,
            viewport_cols: None,
            cover_inflight: Vec::new(),
            search: None,
            search_filter: None,
            search_version: 0,
            month_aliases: months,
            tiles: Vec::new(),
            selected: None,
            thumb_inflight: Vec::new(),
            frame_meta_inflight: None,
            roll: RollManifest::default(),
            detail: DetailState::new(),
            detail_inflight: None,
            detail_logged_failure: None,
            next_image_id: 0,
            detail_cache: LruCache::new(DETAIL_CACHE_CAPACITY),
            detail_preload_inflight: Vec::new(),
            roll_date_drafts: RollDateDrafts::new(),
            roll_name_draft: String::new(),
            help_visible: false,
            clipboard: None,
            export_pending: false,
            export_progress: None,
            queue: Vec::new(),
        };
        proof {
            let first = Model::initial(config.dirs(), months);
            assert(r@.rolls =~= first.rolls);
            assert(r@.cover_inflight =~= first.cover_inflight);
            assert(r@.tiles =~= first.tiles);
            assert(r@.thumb_inflight =~= first.thumb_inflight);
            assert(r@.roll =~= first.roll);
            assert(r@.detail_cache =~= first.detail_cache);
            assert(r@.detail_preload_inflight =~= first.detail_preload_inflight);
            assert(r@.roll_name_draft =~= first.roll_name_draft);
            assert(r@.effects =~= first.effects);
        }
        r
    }

    /// Takes in how many columns the window's width has room for.
    pub fn set_grid_cols(&mut self, cols: usize)
        requires
            old(self).well_formed(),
        ensures
            final(self).well_formed(),
            final(self)@ == (Model {
                grid_cols: if cols == 0 {
                    1
                } else {
                    cols
                },
                ..old(self)@
            }),
            old(self)@.settled() ==> final(self)@.settled(),
    {
        self.grid_cols = if cols == 0 {
            1
        } else {
            cols
        };
    }

    /// Toggles the current view's drawer.
    fn toggle_context(&mut self)
        requires
            old(self).well_formed(),
        ensures
            final(self).well_formed(),
            final(self)@ == old(self)@.context_toggled(),
    {
        reveal(Model::context_toggled);
        let view: DrawerView = self.current_view();
        let valid: bool = self.view_drawer_valid(view);
        let opened: bool = self.drawer.toggle(view, valid);
        if opened && view == DrawerView::Grid {
            self.ensure_frame_info_loaded();
        }
    }

    /// Has a message about the library's rolls act.
    fn act_library(&mut self, message: Message)
        requires
            old(self).well_formed(),
            sound(message),
        ensures
            final(self).well_formed(),
            final(self)@ == old(self)@.acted_library(message),
    {
        reveal(Model::acted_library);
        match message {
            Message::RollsLoaded(rolls) => self.load_rolls(rolls),
            Message::RollInfoLoaded(roll) => self.list_roll(roll),
            Message::CoverReady(dir, picture) => self.take_cover(dir, picture),
            Message::RollAdded(dir, preset) => self.add_roll(dir, preset),
            Message::RollPresetChanged(dir, preset) => self.change_preset(dir, preset),
            Message::RollBaseModeChanged(dir, mode) => self.change_base_mode(dir, mode),
            Message::CalibrateBaseFromFrame(samples) => {
                self.calibrate_base_from_frame(samples.as_slice())
            },
            Message::CalibrationBaseMeasured(dir, name, base, manifest) => {
                self.apply_calibration_measurement(dir, name, base, manifest)
            },
            Message::AddRoll => self.emit(Effect::OpenRollPicker),
            Message::RollSelected(dir) => {
                self.set_library_selection(LibrarySelection::Roll(dir))
            },
            Message::RemoveRoll(dir) => self.remove_roll(dir.as_str()),
            Message::RemoveSelectedRoll => self.remove_selected_roll(),
            Message::AddRollSelected => self.set_library_selection(LibrarySelection::AddRoll),
            other => self.act_drafts(other),
        }
    }

    /// Has a message about the search or the roll-info drawer act.
    fn act_drafts(&mut self, message: Message)
        requires
            old(self).well_formed(),
            sound(message),
        ensures
            final(self).well_formed(),
            final(self)@ == old(self)@.acted_drafts(message),
    {
        reveal(Model::acted_drafts);
        match message {
            Message::RollDateDraftChange(field, value) => self.roll_date_drafts.set(field, value),
            Message::RollDateDraftSubmit(field) => self.submit_date(field),
            Message::RollNameDraftChange(value) => {
                self.roll_name_draft = value;
            },
            Message::RollNameDraftSubmit => self.submit_name(),
            Message::SearchActivate => self.activate_search(),
            Message::SearchClear => self.close_search(),
            Message::SearchInput(term) => self.type_search(term),
            Message::SearchCommitted(term, version) => self.apply_search(term, version),
            Message::UpdateConfig(config) => {
                self.config = config;
            },
            other => self.act_frames(other),
        }
    }

    /// Has a message about the frame grid act.
    fn act_frames(&mut self, message: Message)
        requires
            old(self).well_formed(),
            sound(message),
        ensures
            final(self).well_formed(),
            final(self)@ == old(self)@.acted_frames(message),
    {
        reveal(Model::acted_frames);
        match message {
            Message::DetailClosed => self.close_detail(),
            Message::OpenSelected => self.open_selected(),
            Message::RollActivated(dir) => self.open_roll(dir),
            Message::Nav(dir) => self.navigate(dir),
            Message::FrameSelected(name) => self.click_frame(name),
            Message::SelectAllFrames => self.select_all_frames(),
            Message::ModifiersChanged(modifiers) => {
                self.modifiers = modifiers;
            },
            Message::GridViewport(cols) => {
                self.viewport_cols = Some(cols);
            },
            Message::RollOpened(dir, files, manifest) => {
                self.handle_roll_opened(dir, files, manifest)
            },
            Message::FrameInfoReady(name, meta) => self.take_frame_info(name, meta),
            Message::ThumbReady(name, picture) => self.take_thumb(name, picture),
            Message::ThumbnailActivated(name) => self.open_frame(name.as_str()),
            other => self.act_editing(other),
        }
    }

    /// Has a message about edits act.
    fn act_editing(&mut self, message: Message)
        requires
            old(self).well_formed(),
            sound(message),
        ensures
            final(self).well_formed(),
            final(self)@ == old(self)@.acted_editing(message),
    {
        reveal(Model::acted_editing);
        match message {
            Message::ExposureChanged(ev) => self.set_exposure(ev),
            Message::AdjustEdit { adjust, moved } => self.press_edit_key(adjust, moved),
            Message::EditKeyReleased => self.release_edit_key(),
            Message::CurveChanged(contrast, rolloff, shadows) => {
                self.set_curve(contrast, rolloff, shadows)
            },
            Message::ResetAll => self.reset_all(),
            Message::ResetCrop => self.reset_crop(),
            Message::ToggleCropMode => self.toggle_crop_mode(),
            Message::EditSave => self.commit_edit(),
            Message::CopyEdits => self.copy_edits(),
            Message::PasteEdits => self.paste_edits(),
            other => self.act_detail(other),
        }
    }

    /// Has a message about the detail view act.
    fn act_detail(&mut self, message: Message)
        requires
            old(self).well_formed(),
            sound(message),
        ensures
            final(self).well_formed(),
            final(self)@ == old(self)@.acted_detail(message),
    {
        reveal(Model::acted_detail);
        match message {
            Message::DetailReady { name, preset, result, cap, one_to_one } => {
                self.handle_detail_ready(name.as_str(), preset, result, cap, one_to_one)
            },
            Message::DetailPreloaded { dir, name, preset, result } => {
                self.handle_detail_preloaded(dir.as_str(), name.as_str(), preset, result)
            },
            Message::DetailFadeTick(opacity) => self.fade(opacity),
            Message::DetailZoom { zoom, pan, one_to_one } => self.zoom_detail(zoom, pan, one_to_one),
            Message::DetailAreaResized(size) => {
                self.detail.area = Some(size);
                self.emit(Effect::ReclampZoom);
            },
            Message::DetailPanPress => {
                self.detail.panning = true;
            },
            Message::DetailPanMove { cursor, pan } => self.move_cursor(cursor, pan),
            Message::DetailPanRelease => {
                self.detail.panning = false;
            },
            other => self.act_window(other),
        }
    }

    /// Has a message about exports, drawers or the window act.
    fn act_window(&mut self, message: Message)
        requires
            old(self).well_formed(),
            sound(message),
        ensures
            final(self).well_formed(),
            final(self)@ == old(self)@.acted_window(message),
    {
        reveal(Model::acted_window);
        match message {
            Message::LaunchUrl(url) => self.emit(Effect::LaunchUrl(url)),
            Message::ToggleHelp => {
                self.help_visible = !self.help_visible;
            },
            Message::Ignore => {},
            Message::ExportRequested => self.request_export(),
            Message::ExportProgress { done, total } => {
                self.export_progress = Some((done, total));
            },
            Message::ExportChosen(choice) => self.choose_export(choice),
            Message::ExportDone { ok, skipped, failed, dest, start_date } => {
                self.finish_export(ok, skipped, failed, dest, start_date)
            },
            Message::ToastClose(id) => self.emit(Effect::CloseToast(id)),
            Message::Quit => {
                self.persist_roll();
                self.persist_config();
                self.emit(Effect::CloseWindow);
            },
            Message::ToggleContextPage(page) => {
                let view: DrawerView = self.current_view();
                let valid: bool = self.view_drawer_valid(view);
                self.drawer.toggle_page(page, view, valid);
            },
            Message::ToggleContext => self.toggle_context(),
            _ => {},
        }
    }

    /// Reacts to a message, and hands over what the surroundings are to do.
    pub fn update(&mut self, message: Message) -> (r: Vec<Effect>)
        requires
            old(self).well_formed(),
            sound(message),
        ensures
            final(self).well_formed(),
            effect::effect_models(r@) == old(self)@.updated(message).effects,
            final(self)@ == (Model { effects: Seq::empty(), ..old(self)@.updated(message) }),
            final(self)@.settled(),
    {
        self.sync_roll_date_drafts();
        if !self.help_visible || help_lets_through(&message) {
            self.act_library(message);
        }
        let mut out: Vec<Effect> = Vec::new();
        std::mem::swap(&mut out, &mut self.queue);
        assert(self@.effects =~= Seq::<EffectModel>::empty());
        out
    }

    /// The message that Escape stands for: it leaves the help overlay first,
    /// then crop mode, then what is open.
    pub fn on_escape(&self) -> (r: Message)
        ensures
            r == (if self@.help_visible {
                Message::ToggleHelp
            } else if self@.detail.crop_mode {
                Message::ToggleCropMode
            } else {
                Message::DetailClosed
            }),
    {
        if self.help_visible {
            Message::ToggleHelp
        } else if self.detail.crop_mode {
            Message::ToggleCropMode
        } else {
            Message::DetailClosed
        }
    }
}

} // verus!
