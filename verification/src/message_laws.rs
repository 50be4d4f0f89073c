//! Which message does what. Under the help overlay what the user does is kept
//! off, and what the surroundings hand back still lands.

use vstd::prelude::*;
use crate::effect::EffectModel;
use crate::library;
use crate::library::SelectionModel;
use crate::message::{Message, RollDateField};
use crate::state::{DetailState, DraftsModel, Model};
use crate::text;

verus! {

/// The state after a message of the user, which the help overlay keeps off.
pub open spec fn unless_covered(m: Model, acted: Model) -> Model {
    if m.help_visible {
        m.drafts_synced()
    } else {
        acted
    }
}

/// What comes back from the surroundings lands in the part of the state that it
/// is about, even under the help overlay.
#[verifier::rlimit(30)]
pub proof fn results_land_where_they_belong(m: Model, message: Message)
    ensures
        ({
            let s = m.drafts_synced();
            let after = m.updated(message);
            match message {
                Message::RollsLoaded(rolls) => after == s.rolls_loaded(library::roll_models(rolls@)),
                Message::RollInfoLoaded(roll) => after == s.roll_listed(roll.model()),
                Message::CoverReady(dir, picture) => after == s.cover_decoded(dir@, picture),
                Message::ThumbReady(name, picture) => after == s.thumb_decoded(name@, picture),
                Message::RollOpened(dir, files, manifest) => after == s.roll_opened(
                    dir@,
                    text::texts(files@),
                    manifest.model(),
                ),
                Message::FrameInfoReady(name, meta) => after == s.frame_info_read(name@, meta),
                Message::DetailReady { name, preset, result, cap, one_to_one } => after
                    == s.detail_finished(name@, preset, result, cap, one_to_one),
                Message::DetailPreloaded { dir, name, preset, result } => after
                    == s.preload_finished(dir@, name@, preset, result),
                Message::DetailFadeTick(opacity) => after == s.faded(opacity),
                Message::DetailAreaResized(size) => after.detail == (DetailState {
                    area: Some(size),
                    ..m.detail
                }) && after.effects == m.effects.push(EffectModel::ReclampZoom) && after.roll
                    == m.roll,
                Message::ModifiersChanged(modifiers) => after == (Model { modifiers, ..s }),
                Message::GridViewport(cols) => after == (Model { viewport_cols: Some(cols), ..s }),
                Message::UpdateConfig(config) => after == (Model { config: config.dirs(), ..s }),
                Message::ToastClose(id) => after == s.emitting(EffectModel::CloseToast(id)),
                Message::ExportProgress { done, total } => after == (Model {
                    export_progress: Some((done, total)),
                    ..s
                }),
                Message::ExportDone { ok, skipped, failed, dest, start_date } => after
                    == s.export_finished(
                    ok as int,
                    skipped as int,
                    failed as int,
                    dest@,
                    text::text_of(start_date),
                ),
                Message::ToggleHelp => after == (Model { help_visible: !m.help_visible, ..s }),
                Message::Ignore => after == s,
                _ => true,
            }
        }),
{
    reveal(Model::acted_library);
    reveal(Model::acted_drafts);
    reveal(Model::acted_frames);
    reveal(Model::acted_editing);
    reveal(Model::acted_detail);
    reveal(Model::acted_window);
}

/// What the user does in the library acts on the library, unless the help
/// overlay covers it.
pub proof fn library_messages_act_on_the_library(m: Model, message: Message)
    ensures
        ({
            let s = m.drafts_synced();
            let after = m.updated(message);
            match message {
                Message::RollAdded(dir, preset) => after == unless_covered(
                    m,
                    s.roll_added(dir@, preset),
                ),
                Message::RollPresetChanged(dir, preset) => after == unless_covered(
                    m,
                    s.preset_changed(dir@, preset),
                ),
                Message::RollBaseModeChanged(dir, mode) => after == unless_covered(
                    m,
                    s.base_mode_changed(dir@, mode),
                ),
                Message::CalibrateBaseFromFrame(samples) => after == unless_covered(
                    m,
                    s.calibrated(samples@),
                ),
                Message::CalibrationBaseMeasured(dir, name, base, manifest) => after
                    == unless_covered(
                    m,
                    s.measurement_landed(dir@, name@, base, manifest.model()),
                ),
                Message::AddRoll => after == unless_covered(
                    m,
                    s.emitting(EffectModel::OpenRollPicker),
                ),
                Message::RollSelected(dir) => after == unless_covered(
                    m,
                    s.selecting(SelectionModel::Roll(dir@)),
                ),
                Message::AddRollSelected => after == unless_covered(
                    m,
                    s.selecting(SelectionModel::AddRoll),
                ),
                Message::RemoveRoll(dir) => after == unless_covered(m, s.roll_removed(dir@)),
                Message::RemoveSelectedRoll => after == unless_covered(
                    m,
                    match m.library_selection {
                        Some(SelectionModel::Roll(dir)) => s.roll_removed(dir),
                        _ => s,
                    },
                ),
                Message::RollDateDraftChange(field, value) => after == unless_covered(
                    m,
                    Model {
                        roll_date_drafts: match field {
                            RollDateField::Start => DraftsModel {
                                start: value@,
                                ..s.roll_date_drafts
                            },
                            RollDateField::End => DraftsModel {
                                end: value@,
                                ..s.roll_date_drafts
                            },
                        },
                        ..s
                    },
                ),
                Message::RollDateDraftSubmit(field) => after == unless_covered(
                    m,
                    s.date_submitted(field),
                ),
                Message::RollNameDraftChange(value) => after == unless_covered(
                    m,
                    Model { roll_name_draft: value@, ..s },
                ),
                Message::RollNameDraftSubmit => after == unless_covered(m, s.name_submitted()),
                Message::SearchActivate => after == unless_covered(m, s.search_activated()),
                Message::SearchClear => after == unless_covered(m, s.search_closed()),
                Message::SearchInput(term) => after == unless_covered(m, s.search_typed(term@)),
                Message::SearchCommitted(term, version) => after == unless_covered(
                    m,
                    s.search_applied(term@, version),
                ),
                _ => true,
            }
        }),
{
    reveal(Model::acted_library);
    reveal(Model::acted_drafts);
}

/// What the user does to frames acts on frames, unless the help overlay covers
/// them.
#[verifier::rlimit(30)]
pub proof fn frame_messages_act_on_frames(m: Model, message: Message)
    ensures
        ({
            let s = m.drafts_synced();
            let after = m.updated(message);
            match message {
                Message::DetailClosed => after == unless_covered(m, s.escaped()),
                Message::OpenSelected => after == unless_covered(m, s.selection_opened()),
                Message::RollActivated(dir) => after == unless_covered(m, s.roll_opening(dir@)),
                Message::Nav(dir) => after == unless_covered(m, s.navigated(dir)),
                Message::FrameSelected(name) => after == unless_covered(m, s.frame_clicked(name@)),
                Message::SelectAllFrames => after == unless_covered(m, s.all_selected()),
                Message::ThumbnailActivated(name) => after == unless_covered(
                    m,
                    s.frame_opened(name@),
                ),
                Message::ExposureChanged(ev) => after == unless_covered(m, s.exposure_set(ev)),
                Message::AdjustEdit { adjust, moved } => after == unless_covered(
                    m,
                    s.edit_key_pressed(adjust, moved),
                ),
                Message::EditKeyReleased => after == unless_covered(m, s.edit_key_released()),
                Message::CurveChanged(contrast, rolloff, shadows) => after == unless_covered(
                    m,
                    s.curve_set(contrast, rolloff, shadows),
                ),
                Message::ResetAll => after == unless_covered(m, s.all_reset()),
                Message::ResetCrop => after == unless_covered(m, s.crop_reset()),
                Message::ToggleCropMode => after == unless_covered(m, s.crop_mode_toggled()),
                Message::EditSave => after == unless_covered(m, s.committed()),
                Message::CopyEdits => after == unless_covered(m, s.copied()),
                Message::PasteEdits => after == unless_covered(m, s.pasted()),
                Message::DetailZoom { zoom, pan, one_to_one } => after == unless_covered(
                    m,
                    s.zoomed(zoom, pan, one_to_one),
                ),
                Message::DetailPanPress => after == unless_covered(
                    m,
                    Model { detail: DetailState { panning: true, ..s.detail }, ..s },
                ),
                Message::DetailPanMove { cursor, pan } => after == unless_covered(
                    m,
                    s.cursor_moved(cursor, pan),
                ),
                Message::DetailPanRelease => after == unless_covered(
                    m,
                    Model { detail: DetailState { panning: false, ..s.detail }, ..s },
                ),
                _ => true,
            }
        }),
{
    reveal(Model::acted_library);
    reveal(Model::acted_drafts);
    reveal(Model::acted_frames);
    reveal(Model::acted_editing);
    reveal(Model::acted_detail);
}

/// What the user does to the window acts on the window, unless the help overlay
/// covers it. Before the application quits, the open roll and the configuration
/// are written.
#[verifier::rlimit(30)]
pub proof fn window_messages_act_on_the_window(m: Model, message: Message)
    ensures
        ({
            let s = m.drafts_synced();
            let after = m.updated(message);
            match message {
                Message::LaunchUrl(url) => after == unless_covered(
                    m,
                    s.emitting(EffectModel::LaunchUrl(url@)),
                ),
                Message::ExportRequested => after == unless_covered(m, s.export_requested()),
                Message::ExportChosen(choice) => after == unless_covered(m, s.export_chosen(choice)),
                Message::Quit => !m.help_visible ==> after.effects == (match m.active {
                    Some(dir) => m.effects.push(
                        EffectModel::SaveManifest { dir, manifest: m.roll },
                    ),
                    None => m.effects,
                }).push(EffectModel::PersistConfig { rolls: m.config }).push(
                    EffectModel::CloseWindow,
                ),
                Message::ToggleContext => after == unless_covered(m, s.context_toggled()),
                Message::ToggleContextPage(page) => after == unless_covered(
                    m,
                    Model {
                        drawer: m.drawer.page_toggled(
                            page,
                            m.current_view(),
                            m.drawer_valid(m.current_view()),
                        ),
                        ..s
                    },
                ),
                _ => true,
            }
        }),
{
    reveal(Model::acted_library);
    reveal(Model::acted_drafts);
    reveal(Model::acted_frames);
    reveal(Model::acted_editing);
    reveal(Model::acted_detail);
    reveal(Model::acted_window);
}

/// Before a message acts, the drafts of the roll-info drawer are those of the
/// selected roll: unless they were seeded from it before, its dates and its
/// name, as its card has them. Nothing else changes.
pub proof fn drafts_follow_the_selection(m: Model, dir: Seq<char>, k: int)
    requires
        m.library_selection == Some(SelectionModel::Roll(dir)),
        0 <= k < m.rolls.len(),
        m.rolls[k].dir == dir,
        forall|j: int| 0 <= j < k ==> (#[trigger] m.rolls[j]).dir != dir,
    ensures
        ({
            let s = m.drafts_synced();
            &&& s == (Model {
                roll_date_drafts: s.roll_date_drafts,
                roll_name_draft: s.roll_name_draft,
                ..m
            })
            &&& s.roll_date_drafts.key == Some(dir)
            &&& m.roll_date_drafts.key == Some(dir) ==> s == m
            &&& m.roll_date_drafts.key != Some(dir) ==> {
                &&& s.roll_name_draft == m.rolls[k].name
                &&& s.roll_date_drafts.start == (match m.rolls[k].start_date {
                    Some(date) => date,
                    None => Seq::empty(),
                })
                &&& s.roll_date_drafts.end == (match m.rolls[k].end_date {
                    Some(date) => date,
                    None => Seq::empty(),
                })
            }
        }),
{
    found_roll(m, dir, k);
}

/// The first roll of a directory is the one that is found.
pub proof fn found_roll(m: Model, dir: Seq<char>, k: int)
    requires
        0 <= k < m.rolls.len(),
        m.rolls[k].dir == dir,
        forall|j: int| 0 <= j < k ==> (#[trigger] m.rolls[j]).dir != dir,
    ensures
        m.roll_at(dir) == Some(k),
{
    assert forall|j: int| 0 <= j < k implies !crate::state::in_dir(dir)(#[trigger] m.rolls[j]) by {
        assert(m.rolls[j].dir != dir);
    }
    crate::seqs::first_where_from_place(m.rolls, crate::state::in_dir(dir), k);
}

/// At first nothing is open, selected, searched or under way; the configuration
/// and the month names are those that are given.
pub proof fn the_first_state(config: Seq<Seq<char>>, months: library::MonthAliases)
    ensures
        ({
            let m = Model::initial(config, months);
            &&& m.config == config
            &&& m.month_aliases == months
            &&& m.rolls.len() == 0 && m.tiles.len() == 0
            &&& m.active is None && m.selected is None && m.frame_selected is None
            &&& m.library_selection is None && m.search is None && m.search_filter is None
            &&& m.selected_frames == Set::<Seq<char>>::empty()
            &&& !m.drawer.show && !m.help_visible && !m.export_pending
            &&& m.export_progress is None && m.clipboard is None
            &&& !m.editing_key_held && !m.detail.crop_mode && m.detail.live is None
            &&& m.detail_cache.len() == 0 && m.detail_inflight is None
            &&& m.roll == crate::edit_manifest::ManifestModel::blank()
            &&& m.settled()
        }),
{
}

} // verus!
