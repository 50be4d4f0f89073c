//! What holds of the application whatever happens.

use vstd::prelude::*;
use crate::dates;
use crate::drawer::DrawerView;
use crate::edit_manifest::{CropMargins, EditData, ManifestModel, ToneEdit};
use crate::editing;
use crate::effect::EffectModel;
use crate::film;
use crate::film::{BaseMode, FilmPreset};
use crate::library;
use crate::library::{RollModel, SelectionModel, Thumb};
use crate::lru;
use crate::message::{DetailMono, EditAdjust, Message, Point, RollDateField};
use crate::names;
use crate::paths;
use crate::pumps;
use crate::pumps::{MAX_CONCURRENT_PRELOADS, MAX_CONCURRENT_THUMBS};
use crate::seqs;
use crate::single::Single;
use crate::state;
use crate::state::{DetailState, Model, TileModel};
use crate::text;
use crate::update;

verus! {

/// Whether no more decodes run than are allowed at once.
pub open spec fn bounded(m: Model) -> bool {
    &&& m.thumb_inflight.len() <= MAX_CONCURRENT_THUMBS
    &&& m.cover_inflight.len() <= MAX_CONCURRENT_THUMBS
    &&& m.detail_preload_inflight.len() <= MAX_CONCURRENT_PRELOADS
}

/// Whether the same decodes run in two states.
pub open spec fn same_work(a: Model, b: Model) -> bool {
    &&& a.thumb_inflight == b.thumb_inflight
    &&& a.cover_inflight == b.cover_inflight
    &&& a.detail_preload_inflight == b.detail_preload_inflight
}

proof fn thumbs_bounded(m: Model)
    requires
        bounded(m),
    ensures
        bounded(m.thumbs_pumped()),
{
    reveal(Model::thumbs_pumped);
}

proof fn covers_bounded(m: Model)
    requires
        bounded(m),
    ensures
        bounded(m.covers_pumped()),
{
    reveal(Model::covers_pumped);
}

proof fn neighbors_bounded(m: Model, name: Seq<char>)
    requires
        bounded(m),
    ensures
        bounded(m.neighbors_pumped(name)),
{
    reveal(Model::neighbors_pumped);
}

proof fn detail_pump_keeps_work(m: Model)
    ensures
        same_work(m, m.detail_pumped()),
{
    reveal(Model::detail_pumped);
    reveal(Model::detail_requested);
    reveal(Model::installed);
}

proof fn frame_opening_bounded(m: Model, name: Seq<char>)
    requires
        bounded(m),
    ensures
        bounded(m.frame_opened(name)),
{
    reveal(Model::frame_opened);
    reveal(Model::frame_entered);
    let entered = if m.selected == Some(name) {
        m
    } else {
        m.frame_entered(name)
    };
    assert(same_work(m, entered));
    detail_pump_keeps_work(entered);
    neighbors_bounded(entered.detail_pumped(), name);
}

proof fn repump_bounded(m: Model)
    requires
        bounded(m),
    ensures
        bounded(m.repumped()),
{
    reveal(Model::repumped);
    detail_pump_keeps_work(m);
    neighbors_bounded(m.detail_pumped(), state::or_empty(m.selected));
}

proof fn reflow_bounded(m: Model, dir: Seq<char>)
    requires
        bounded(m),
    ensures
        bounded(m.roll_reflowed(dir)),
        bounded(m.base_reflowed()),
{
    reveal(Model::roll_reflowed);
    reveal(Model::base_reflowed);
    reveal(Model::detail_dropped);
    let a = Model {
        detail_cache: m.cache_without(dir),
        ..m.thumbs_reloading().detail_dropped()
    };
    thumbs_bounded(a);
    repump_bounded(a.thumbs_pumped());
    let dropped = Model {
        detail_cache: Seq::empty(),
        ..m.roll_persisted().detail_dropped()
    }.thumbs_reloading();
    let b = match dropped.active {
        Some(d) => dropped.cover_reloading(d),
        None => dropped,
    };
    thumbs_bounded(b);
    covers_bounded(b.thumbs_pumped());
    repump_bounded(b.thumbs_pumped().covers_pumped());
}

proof fn commit_bounded(m: Model)
    requires
        bounded(m),
    ensures
        bounded(m.committed()),
{
    reveal(Model::committed);
    reveal(Model::rebaked);
    reveal(Model::tile_reloading);
    let saved = m.roll_persisted();
    match saved.selected {
        Some(name) => {
            let a = saved.tile_reloading(name);
            thumbs_bounded(a);
            let shown = a.thumbs_pumped();
            match shown.active {
                Some(dir) => match seqs::first_where(
                    shown.rolls,
                    editing::covered_by(dir, name),
                ) {
                    Some(k) => {
                        covers_bounded(shown.with_cover(k, Thumb::Loading));
                    },
                    None => {},
                },
                None => {},
            }
        },
        None => {},
    }
}

proof fn paste_bounded(m: Model)
    requires
        bounded(m),
    ensures
        bounded(m.pasted()),
{
    reveal(Model::pasted);
    reveal(Model::tone_applied);
    reveal(Model::rebaked_all);
    let names = editing::paste_targets(m);
    match m.clipboard {
        Some(tone) => {
            let saved = m.tone_applied(names, tone).roll_persisted();
            let a = Model { tiles: editing::tiles_reloading(saved.tiles, names), ..saved };
            thumbs_bounded(a);
            let shown = a.thumbs_pumped();
            match shown.active {
                Some(dir) => match seqs::first_where(
                    shown.rolls,
                    editing::covered_by_any(dir, names),
                ) {
                    Some(k) => {
                        covers_bounded(shown.with_cover(k, Thumb::Loading));
                    },
                    None => {},
                },
                None => {},
            }
        },
        None => {},
    }
}

proof fn rolls_loaded_bounded(m: Model, rolls: Seq<RollModel>)
    requires
        bounded(m),
    ensures
        bounded(m.rolls_loaded(rolls)),
{
    reveal(Model::rolls_loaded);
    reveal(Model::first_selected);
    let loaded = Model { rolls, cover_inflight: Seq::empty(), ..m };
    let sound = if loaded.selection_stale() {
        loaded.deselected()
    } else {
        loaded
    };
    covers_bounded(sound.first_selected());
}

proof fn roll_listed_bounded(m: Model, roll: RollModel)
    requires
        bounded(m),
    ensures
        bounded(m.roll_listed(roll)),
{
    reveal(Model::roll_listed);
    covers_bounded(Model { rolls: library::sorted_by_name(m.rolls.push(roll)), ..m });
}

proof fn cover_decoded_bounded(m: Model, dir: Seq<char>, picture: Option<u64>)
    requires
        bounded(m),
    ensures
        bounded(m.cover_decoded(dir, picture)),
{
    reveal(Model::cover_decoded);
    let shown = match m.roll_at(dir) {
        Some(k) => m.with_cover(k, crate::library_page::decoded(picture)),
        None => m,
    };
    seqs::without_takes_out(shown.cover_inflight, dir);
    covers_bounded(Model { cover_inflight: seqs::without(shown.cover_inflight, dir), ..shown });
}

proof fn roll_opening_keeps_work(m: Model, dir: Seq<char>)
    ensures
        same_work(m, m.roll_opening(dir)),
{
    reveal(Model::roll_opening);
}

proof fn roll_added_bounded(m: Model, given: Seq<char>, preset: FilmPreset)
    requires
        bounded(m),
    ensures
        bounded(m.roll_added(given, preset)),
{
    reveal(Model::roll_added);
    let dir = paths::tidied(given);
    let known = if m.roll_at(dir) is Some {
        m
    } else {
        Model { config: m.config.push(given), ..m }.config_persisted()
    };
    let carded = known.emitting(EffectModel::RecordPreset { dir, preset }).card_preset(
        dir,
        preset,
    );
    let chosen = carded.selecting(SelectionModel::Roll(dir)).emitting(
        EffectModel::ScanRoll { dir },
    );
    assert(same_work(m, chosen));
    roll_opening_keeps_work(chosen, dir);
    covers_bounded(chosen.roll_opening(dir));
}

proof fn preset_changed_bounded(m: Model, dir: Seq<char>, preset: FilmPreset)
    requires
        bounded(m),
    ensures
        bounded(m.preset_changed(dir, preset)),
{
    reveal(Model::preset_changed);
    let carded = m.emitting(EffectModel::RecordPreset { dir, preset }).card_preset(dir, preset);
    covers_bounded(carded);
    let pumped = carded.covers_pumped();
    reflow_bounded(Model { roll: pumped.roll.with_film(preset), ..pumped }, dir);
}

proof fn base_mode_changed_bounded(m: Model, dir: Seq<char>, mode: BaseMode)
    requires
        bounded(m),
    ensures
        bounded(m.base_mode_changed(dir, mode)),
{
    reveal(Model::base_mode_changed);
    reveal(Model::calibration_begun);
    reveal(Model::calibration_ended);
    let carded = m.emitting(EffectModel::RecordBaseMode { dir, mode }).card_base_mode(dir, mode);
    covers_bounded(carded);
    let pumped = carded.covers_pumped();
    let set = if mode == BaseMode::AutoSelectedFrame {
        pumped.calibration_begun(dir)
    } else {
        pumped.calibration_ended(dir)
    };
    assert(same_work(pumped, set));
    reflow_bounded(Model { roll: set.roll.with_strategy(mode), ..set }, dir);
}

proof fn calibrated_bounded(m: Model, samples: Seq<Single>)
    requires
        bounded(m),
    ensures
        bounded(m.calibrated(samples)),
{
    reveal(Model::calibrated);
    match m.calibration_source() {
        Some((dir, name)) => {
            let key = (dir, m.roll.film(), name);
            reflow_bounded(
                Model {
                    detail_cache: crate::lru::touched(m.detail_cache, key),
                    roll: m.roll.calibrated(name, crate::film::plausibly_measured(samples)),
                    ..m
                },
                dir,
            );
        },
        None => {},
    }
}

proof fn measurement_bounded(
    m: Model,
    dir: Seq<char>,
    name: Seq<char>,
    base: Option<Single>,
    on_disk: ManifestModel,
)
    requires
        bounded(m),
    ensures
        bounded(m.measurement_landed(dir, name, base, on_disk)),
{
    reveal(Model::measurement_landed);
    let written = m.emitting(
        EffectModel::SaveManifest { dir, manifest: on_disk.calibrated(name, base) },
    );
    reflow_bounded(Model { roll: written.roll.calibrated(name, base), ..written }, dir);
    covers_bounded(written.cover_reloading(dir));
}

proof fn roll_removed_keeps_work(m: Model, dir: Seq<char>)
    ensures
        same_work(m, m.roll_removed(dir)),
{
    reveal(Model::roll_removed);
    reveal(Model::first_selected);
}

proof fn library_bounded(m: Model, message: Message)
    requires
        bounded(m),
        bounded(m.acted_drafts(message)),
    ensures
        bounded(m.acted_library(message)),
{
    reveal(Model::acted_library);
    match message {
        Message::RollsLoaded(rolls) => {
            rolls_loaded_bounded(m, library::roll_models(rolls@));
        },
        Message::RollInfoLoaded(roll) => {
            roll_listed_bounded(m, roll.model());
        },
        Message::CoverReady(dir, picture) => {
            cover_decoded_bounded(m, dir@, picture);
        },
        Message::RollAdded(given, preset) => {
            roll_added_bounded(m, given@, preset);
        },
        Message::RollPresetChanged(dir, preset) => {
            preset_changed_bounded(m, dir@, preset);
        },
        Message::RollBaseModeChanged(dir, mode) => {
            base_mode_changed_bounded(m, dir@, mode);
        },
        Message::CalibrateBaseFromFrame(samples) => {
            calibrated_bounded(m, samples@);
        },
        Message::CalibrationBaseMeasured(dir, name, base, manifest) => {
            measurement_bounded(m, dir@, name@, base, manifest.model());
        },
        Message::RemoveRoll(dir) => {
            roll_removed_keeps_work(m, dir@);
        },
        Message::RemoveSelectedRoll => {
            match m.library_selection {
                Some(SelectionModel::Roll(dir)) => {
                    roll_removed_keeps_work(m, dir);
                },
                _ => {},
            }
        },
        _ => {},
    }
}

proof fn drafts_bounded(m: Model, message: Message)
    requires
        bounded(m),
        bounded(m.acted_frames(message)),
    ensures
        bounded(m.acted_drafts(message)),
{
    reveal(Model::acted_drafts);
    reveal(Model::date_submitted);
    reveal(Model::name_submitted);
    reveal(Model::search_activated);
    reveal(Model::search_closed);
    reveal(Model::search_typed);
    reveal(Model::search_applied);
}

#[verifier::rlimit(30)]
proof fn frames_bounded(m: Model, message: Message)
    requires
        bounded(m),
        bounded(m.acted_editing(message)),
    ensures
        bounded(m.acted_frames(message)),
{
    reveal(Model::acted_frames);
    match message {
        Message::DetailClosed => {
            reveal(Model::escaped);
            reveal(Model::search_closed);
            reveal(Model::roll_closed);
        },
        Message::OpenSelected => {
            reveal(Model::selection_opened);
            reveal(Model::roll_opening);
            match m.frame_selected {
                Some(n) => {
                    frame_opening_bounded(m, n);
                },
                None => {},
            }
        },
        Message::RollActivated(_) => {
            reveal(Model::roll_opening);
        },
        Message::Nav(dir) => {
            reveal(Model::navigated);
            reveal(Model::crop_moved);
            reveal(Model::crop_set);
            reveal(Model::library_navigated);
            reveal(Model::frame_navigated);
            match m.selected {
                Some(open) => match m.tile_at(open) {
                    Some(i) => match library::page_place(i, m.tiles.len() as int, dir) {
                        Some(t) => {
                            frame_opening_bounded(m, m.tiles[t].name);
                        },
                        None => {},
                    },
                    None => {},
                },
                None => {},
            }
        },
        Message::FrameSelected(_) => {
            reveal(Model::frame_clicked);
        },
        Message::SelectAllFrames => {
            reveal(Model::all_selected);
        },
        Message::RollOpened(dir, files, manifest) => {
            reveal(Model::roll_opened);
            reveal(Model::frames_listed);
            reveal(Model::calibration_defaulted);
            let listed = m.frames_listed(text::texts(files@), manifest.model());
            let begun = listed.calibration_defaulted(dir@);
            assert(same_work(listed, begun));
            thumbs_bounded(begun);
        },
        Message::FrameInfoReady(_, _) => {
            reveal(Model::frame_info_read);
        },
        Message::ThumbReady(name, picture) => {
            reveal(Model::thumb_decoded);
            let shown = match m.tile_at(name@) {
                Some(k) => m.with_thumb(k, crate::library_page::decoded(picture)),
                None => m,
            };
            seqs::without_takes_out(shown.thumb_inflight, name@);
            thumbs_bounded(
                Model { thumb_inflight: seqs::without(shown.thumb_inflight, name@), ..shown },
            );
        },
        Message::ThumbnailActivated(name) => {
            frame_opening_bounded(m, name@);
        },
        _ => {},
    }
}

proof fn editing_bounded(m: Model, message: Message)
    requires
        bounded(m),
        bounded(m.acted_detail(message)),
    ensures
        bounded(m.acted_editing(message)),
{
    reveal(Model::acted_editing);
    reveal(Model::exposure_set);
    reveal(Model::curve_set);
    match message {
        Message::AdjustEdit { adjust, moved } => {
            reveal(Model::edit_key_pressed);
            reveal(Model::adjusted);
            reveal(Model::crop_resized);
            reveal(Model::crop_set);
            reveal(Model::rotation_set);
        },
        Message::EditKeyReleased => {
            reveal(Model::edit_key_released);
            commit_bounded(Model { editing_key_held: false, ..m });
        },
        Message::ResetAll => {
            reveal(Model::all_reset);
        },
        Message::ResetCrop => {
            reveal(Model::crop_reset);
            reveal(Model::crop_set);
            commit_bounded(m.crop_set(CropMargins::no_crop()));
        },
        Message::ToggleCropMode => {
            reveal(Model::crop_mode_toggled);
            commit_bounded(
                Model {
                    detail: DetailState {
                        crop_mode: if m.detail.live is Some {
                            !m.detail.crop_mode
                        } else {
                            m.detail.crop_mode
                        },
                        ..m.detail
                    },
                    ..m
                }.emitting(EffectModel::ReclampZoom),
            );
        },
        Message::EditSave => {
            commit_bounded(m);
        },
        Message::CopyEdits => {
            reveal(Model::copied);
        },
        Message::PasteEdits => {
            paste_bounded(m);
        },
        _ => {},
    }
}

#[verifier::rlimit(30)]
proof fn detail_bounded(m: Model, message: Message)
    requires
        bounded(m),
        bounded(m.acted_window(message)),
    ensures
        bounded(m.acted_detail(message)),
{
    reveal(Model::acted_detail);
    match message {
        Message::DetailReady { name, preset, result, cap, one_to_one } => {
            reveal(Model::detail_finished);
            reveal(Model::result_taken);
            reveal(Model::landed);
            reveal(Model::stored);
            reveal(Model::installed);
            reveal(Model::zoom_held);
            reveal(Model::failure_reported);
            let free = m.result_taken(name@, preset, result, cap);
            assert(same_work(m, free));
            detail_pump_keeps_work(free);
            detail_pump_keeps_work(Model { detail_inflight: None, ..m });
        },
        Message::DetailPreloaded { dir, name, preset, result } => {
            reveal(Model::preload_finished);
            reveal(Model::stored);
            seqs::without_takes_out(m.detail_preload_inflight, (dir@, name@));
        },
        Message::DetailZoom { zoom, pan, one_to_one } => {
            reveal(Model::zoomed);
            detail_pump_keeps_work(
                Model { detail: DetailState { zoom, pan, ..m.detail }, ..m },
            );
        },
        Message::DetailFadeTick(_) => {
            reveal(Model::faded);
        },
        Message::DetailPanMove { .. } => {
            reveal(Model::cursor_moved);
        },
        _ => {},
    }
}

proof fn window_bounded(m: Model, message: Message)
    requires
        bounded(m),
    ensures
        bounded(m.acted_window(message)),
{
    reveal(Model::acted_window);
    reveal(Model::export_requested);
    reveal(Model::export_chosen);
    reveal(Model::export_begun);
    reveal(Model::export_finished);
    reveal(Model::context_toggled);
}

/// However messages come in, no more than four thumbnails, four covers and two
/// preloads are ever decoded at once.
pub proof fn decodes_stay_bounded(m: Model, message: Message)
    requires
        bounded(m),
    ensures
        bounded(m.updated(message)),
{
    let synced = m.drafts_synced();
    assert(same_work(m, synced));
    window_bounded(synced, message);
    detail_bounded(synced, message);
    editing_bounded(synced, message);
    frames_bounded(synced, message);
    drafts_bounded(synced, message);
    library_bounded(synced, message);
}

/// The application starts with nothing being decoded.
pub proof fn nothing_runs_at_first(config: Seq<Seq<char>>, months: library::MonthAliases)
    ensures
        bounded(Model::initial(config, months)),
{
}

/// A thumbnail that is being decoded is never started again, and nothing waits
/// while there is room.
pub proof fn thumbnails_start_once_and_fill_the_room(m: Model)
    ensures
        forall|n: Seq<char>| #[trigger]
            m.next_thumbs().contains(n) ==> !m.thumb_inflight.contains(n),
        m.active is Some && m.thumbs_pumped().thumb_inflight.len() < MAX_CONCURRENT_THUMBS
            ==> forall|i: int|
            0 <= i < m.tiles.len() && (#[trigger] m.tiles[i]).thumb == Thumb::Loading
                ==> m.thumbs_pumped().thumb_inflight.contains(m.tiles[i].name),
{
    reveal(Model::thumbs_pumped);
    let test = pumps::thumb_waits(m.thumb_inflight);
    let found = m.tiles.filter(test);
    let limit = pumps::room(MAX_CONCURRENT_THUMBS as int, m.thumb_inflight.len() as int);
    let taken = seqs::at_most(found, limit);
    assert forall|n: Seq<char>| #[trigger] m.next_thumbs().contains(n) implies
        !m.thumb_inflight.contains(n) by {
        let k = choose|k: int| 0 <= k < m.next_thumbs().len() && m.next_thumbs()[k] == n;
        assert(taken[k].name == n);
        assert(taken[k] == found[k]);
        assert(found.contains(found[k]));
        assert(test(found[k]));
    }
    if m.active is Some && m.thumbs_pumped().thumb_inflight.len() < MAX_CONCURRENT_THUMBS {
        let after = m.thumbs_pumped().thumb_inflight;
        assert(taken == found);
        assert forall|i: int|
            0 <= i < m.tiles.len() && (#[trigger] m.tiles[i]).thumb == Thumb::Loading implies after.contains(
            m.tiles[i].name,
        ) by {
            let n = m.tiles[i].name;
            if m.thumb_inflight.contains(n) {
                let k = choose|k: int| 0 <= k < m.thumb_inflight.len() && m.thumb_inflight[k] == n;
                assert(after[k] == n);
            } else {
                assert(test(m.tiles[i]));
                assert(m.tiles.contains(m.tiles[i]));
                assert(found.contains(m.tiles[i]));
                let k = choose|k: int| 0 <= k < found.len() && found[k] == m.tiles[i];
                assert(m.next_thumbs()[k] == n);
                assert(after[m.thumb_inflight.len() + k] == n);
            }
        }
    }
}

/// Under the help overlay nothing that the user does reaches what it covers.
pub proof fn help_covers_the_window(m: Model, message: Message)
    requires
        m.help_visible,
        !update::passes_help(message),
    ensures
        m.updated(message) == m.drafts_synced(),
{
}

/// A message that the help overlay keeps off asks for nothing to be done.
pub proof fn covered_messages_ask_for_nothing(m: Model, message: Message)
    requires
        m.settled(),
        m.help_visible,
        !update::passes_help(message),
    ensures
        m.updated(message).settled(),
{
}

/// Opening and closing the help overlay leaves everything as it was.
pub proof fn help_closes_without_a_trace(m: Model)
    requires
        m.drafts_synced() == m,
    ensures
        m.updated(Message::ToggleHelp).updated(Message::ToggleHelp) == m,
{
    let help = Message::ToggleHelp;
    reveal(Model::acted_library);
    reveal(Model::acted_drafts);
    reveal(Model::acted_frames);
    reveal(Model::acted_editing);
    reveal(Model::acted_detail);
    reveal(Model::acted_window);
    let shown = Model { help_visible: !m.help_visible, ..m };
    assert(m.updated(help) == shown);
    assert(shown.drafts_synced() == shown);
}

/// A search text is applied only if nothing was typed after it.
pub proof fn later_typing_drops_an_earlier_search(m: Model, first: Seq<char>, second: Seq<char>)
    ensures
        ({
            let typed = m.search_typed(first);
            let again = typed.search_typed(second);
            again.search_applied(first, typed.search_version) == again
        }),
        m.search_typed(first).search_applied(
            first,
            m.search_typed(first).search_version,
        ).search_filter == Some(first),
{
    reveal(Model::search_typed);
    reveal(Model::search_applied);
}

/// Putting the search away drops what was typed but not applied yet.
pub proof fn closing_drops_a_pending_search(m: Model, term: Seq<char>)
    ensures
        ({
            let typed = m.search_typed(term);
            let closed = typed.search_closed();
            closed.search_applied(term, typed.search_version) == closed
                && closed.search_filter is None
        }),
{
    reveal(Model::search_typed);
    reveal(Model::search_applied);
    reveal(Model::search_closed);
}

/// A decode for a frame that is no longer on screen is never shown: it makes no
/// difference what it gave.
pub proof fn stale_decodes_are_not_shown(
    m: Model,
    name: Seq<char>,
    preset: FilmPreset,
    a: Result<DetailMono, String>,
    b: Result<DetailMono, String>,
    cap: Single,
    one_to_one: Single,
)
    requires
        m.selected != Some(name) || m.detail_inflight != Some(name),
    ensures
        m.detail_finished(name, preset, a, cap, one_to_one) == m.detail_finished(
            name,
            preset,
            b,
            cap,
            one_to_one,
        ),
{
    reveal(Model::detail_finished);
}

/// The list of a roll that was closed meanwhile changes nothing.
pub proof fn stale_lists_change_nothing(
    m: Model,
    dir: Seq<char>,
    files: Seq<Seq<char>>,
    manifest: ManifestModel,
)
    requires
        m.active != Some(dir),
    ensures
        m.roll_opened(dir, files, manifest) == m,
{
    reveal(Model::roll_opened);
}

/// Four quarter-turns bring a frame back to where it was, on screen and in the
/// manifest.
pub proof fn four_turns_are_none(m: Model, name: Seq<char>)
    requires
        m.selected == Some(name),
        m.detail.edit.rotation < 4,
        m.roll.edits_of(name).rotation == m.detail.edit.rotation,
    ensures
        ({
            let turn = EditAdjust::RotateCcw;
            let zero = Single { bits: 0 };
            let turned = m.adjusted(turn, zero).adjusted(turn, zero).adjusted(turn, zero).adjusted(
                turn,
                zero,
            );
            &&& turned.detail == m.detail
            &&& forall|n: Seq<char>| #[trigger] turned.roll.edits_of(n) == m.roll.edits_of(n)
            &&& m.roll.edits.dom().contains(name) ==> turned.roll == m.roll
        }),
{
    reveal(Model::adjusted);
    reveal(Model::rotation_set);
    let turn = EditAdjust::RotateCcw;
    let zero = Single { bits: 0 };
    let a = m.adjusted(turn, zero);
    let b = a.adjusted(turn, zero);
    let c = b.adjusted(turn, zero);
    let d = c.adjusted(turn, zero);
    assert(d.detail.edit.rotation == m.detail.edit.rotation);
    assert(d.roll.edits_of(name) == m.roll.edits_of(name));
    if m.roll.edits.dom().contains(name) {
        assert(d.roll.edits =~= m.roll.edits);
    }
}

/// Resetting gives back the edits that the frame was opened with, on screen and
/// in the manifest, whatever was done in between.
pub proof fn reset_gives_back_what_was_opened(m: Model, name: Seq<char>)
    requires
        m.selected == Some(name),
    ensures
        m.all_reset().detail.edit == m.detail.reset,
        m.all_reset().roll.edits_of(name) == m.detail.reset,
{
    reveal(Model::all_reset);
}

/// A frame opens with the edits recorded for it, and those are what a reset
/// goes back to.
pub proof fn frames_open_with_their_edits(m: Model, name: Seq<char>)
    ensures
        m.frame_entered(name).detail.edit == m.opening_edits(name),
        m.frame_entered(name).detail.reset == m.opening_edits(name),
        m.frame_entered(name).selected == Some(name),
        m.frame_entered(name).roll == m.roll,
{
    reveal(Model::frame_entered);
}

/// While a key is held its adjustments are only shown: nothing is written or
/// decoded before it is released.
pub proof fn adjusting_writes_nothing(m: Model, adjust: EditAdjust, moved: Single)
    ensures
        m.edit_key_pressed(adjust, moved).effects == m.effects || m.edit_key_pressed(
            adjust,
            moved,
        ).effects == m.effects.push(EffectModel::ReclampZoom),
{
    reveal(Model::edit_key_pressed);
    reveal(Model::adjusted);
    reveal(Model::crop_resized);
    reveal(Model::exposure_set);
    reveal(Model::curve_set);
    reveal(Model::crop_set);
    reveal(Model::rotation_set);
}

/// Decoding thumbnails or covers changes no edits.
proof fn pumping_keeps_the_roll(m: Model)
    ensures
        m.thumbs_pumped().roll == m.roll,
        m.covers_pumped().roll == m.roll,
        m.thumbs_pumped().active == m.active,
        m.thumbs_pumped().rolls == m.rolls,
{
    reveal(Model::thumbs_pumped);
    reveal(Model::covers_pumped);
}

/// A paste gives its targets the copied tone and leaves their crop and rotation
/// alone; the edits of other frames stay as they are.
pub proof fn paste_changes_only_tones(m: Model, tone: ToneEdit, name: Seq<char>)
    requires
        m.clipboard == Some(tone),
    ensures
        m.pasted().roll.edits_of(name) == (if editing::paste_targets(m).contains(name) {
            m.roll.edits_of(name).with_tone(tone)
        } else {
            m.roll.edits_of(name)
        }),
        m.pasted().roll.edits_of(name).crop == m.roll.edits_of(name).crop,
        m.pasted().roll.edits_of(name).rotation == m.roll.edits_of(name).rotation,
{
    reveal(Model::pasted);
    reveal(Model::tone_applied);
    reveal(Model::rebaked_all);
    let names = editing::paste_targets(m);
    if names == Set::<Seq<char>>::empty() {
        assert(!names.contains(name));
    } else {
        let saved = m.tone_applied(names, tone).roll_persisted();
        let a = Model { tiles: editing::tiles_reloading(saved.tiles, names), ..saved };
        pumping_keeps_the_roll(a);
        let shown = a.thumbs_pumped();
        match shown.active {
            Some(dir) => match seqs::first_where(
                shown.rolls,
                editing::covered_by_any(dir, names),
            ) {
                Some(k) => {
                    pumping_keeps_the_roll(shown.with_cover(k, Thumb::Loading));
                },
                None => {},
            },
            None => {},
        }
        assert(m.pasted().roll == editing::toned(m.roll, names, tone));
    }
}

/// A paste goes onto the selected frames and no others; only where none is
/// selected does it go onto the focused one, and only where that is missing too
/// onto the open one.
pub proof fn paste_goes_onto_the_selection(m: Model, tone: ToneEdit, name: Seq<char>)
    requires
        m.clipboard == Some(tone),
    ensures
        ({
            let none = m.selected_frames == Set::<Seq<char>>::empty();
            let pasted = m.roll.edits_of(name).with_tone(tone);
            let after = m.pasted().roll.edits_of(name);
            &&& m.selected_frames.contains(name) ==> after == pasted
            &&& !none && !m.selected_frames.contains(name) ==> after == m.roll.edits_of(name)
            &&& none && m.frame_selected == Some(name) ==> after == pasted
            &&& none && m.frame_selected is Some && m.frame_selected != Some(name) ==> after
                == m.roll.edits_of(name)
            &&& none && m.frame_selected is None && m.selected == Some(name) ==> after == pasted
            &&& none && m.frame_selected is None && m.selected != Some(name) ==> after
                == m.roll.edits_of(name)
        }),
{
    paste_changes_only_tones(m, tone, name);
    if m.selected_frames.contains(name) {
        assert(m.selected_frames != Set::<Seq<char>>::empty());
    }
}

/// What was copied from a frame is what a paste right after it gives.
pub proof fn copies_paste_the_source_tone(m: Model, source: Seq<char>, target: Seq<char>)
    requires
        m.frame_selected == Some(source),
        editing::paste_targets(m).contains(target),
    ensures
        m.copied().pasted().roll.edits_of(target).tone() == m.roll.edits_of(source).tone(),
{
    reveal(Model::copied);
    let tone = m.roll.edits_of(source).tone();
    let held = m.copied();
    assert(editing::paste_targets(held) == editing::paste_targets(m));
    paste_changes_only_tones(held, tone, target);
}

/// Taking a roll off the library asks for nothing but the configuration to be
/// written, and the roll is gone from both.
pub proof fn removing_is_harmless_and_complete(m: Model, dir: Seq<char>)
    requires
        m.active is None,
        m.roll_at(dir) is Some,
    ensures
        m.roll_removed(dir).roll_at(dir) is None,
        m.roll_removed(dir).effects == m.effects.push(
            EffectModel::PersistConfig { rolls: m.roll_removed(dir).config },
        ),
        forall|i: int|
            0 <= i < m.roll_removed(dir).config.len() ==> paths::tidied(
                #[trigger] m.roll_removed(dir).config[i],
            ) != paths::tidied(dir),
{
    reveal(Model::roll_removed);
    reveal(Model::first_selected);
    let after = m.roll_removed(dir);
    let elsewhere = crate::library_page::elsewhere(dir);
    let other = crate::library_page::spells_other(dir);
    assert(after.rolls == m.rolls.filter(elsewhere));
    assert(after.config == m.config.filter(other));
    assert forall|i: int| 0 <= i < after.rolls.len() implies !state::in_dir(dir)(
        #[trigger] after.rolls[i],
    ) by {
        assert(after.rolls.contains(after.rolls[i]));
        assert(elsewhere(after.rolls[i]));
    }
    seqs::first_where_from_place(after.rolls, state::in_dir(dir), after.rolls.len() as int);
    assert forall|i: int| 0 <= i < after.config.len() implies paths::tidied(
        #[trigger] after.config[i],
    ) != paths::tidied(dir) by {
        assert(after.config.contains(after.config[i]));
        assert(other(after.config[i]));
    }
}

/// While a roll is open none is taken off the library.
pub proof fn open_rolls_stay(m: Model, dir: Seq<char>)
    requires
        m.active is Some,
    ensures
        m.roll_removed(dir) == m,
{
    reveal(Model::roll_removed);
}

/// A roll that is added is selected and opened, and is in the configuration if
/// the library did not have it.
pub proof fn added_rolls_are_opened(m: Model, given: Seq<char>, preset: FilmPreset)
    ensures
        m.roll_added(given, preset).active == Some(paths::tidied(given)),
        m.roll_added(given, preset).library_selection == Some(
            SelectionModel::Roll(paths::tidied(given)),
        ),
        m.roll_at(paths::tidied(given)) is None ==> m.roll_added(given, preset).config
            == m.config.push(given),
{
    reveal(Model::roll_added);
    reveal(Model::roll_opening);
    reveal(Model::covers_pumped);
}

/// A roll that the library has is not listed twice.
pub proof fn rolls_are_listed_once(m: Model, roll: RollModel)
    requires
        m.roll_at(roll.dir) is Some,
    ensures
        m.roll_listed(roll) == m,
{
    reveal(Model::roll_listed);
}

/// Whether every roll's dates are coherent.
pub open spec fn all_coherent(m: Model) -> bool {
    forall|i: int|
        0 <= i < m.rolls.len() ==> dates::dates_coherent(
            (#[trigger] m.rolls[i]).start_date,
            m.rolls[i].end_date,
        )
}

/// Submitting a date never has a roll end before it starts.
pub proof fn submitted_dates_stay_coherent(m: Model, field: RollDateField)
    requires
        all_coherent(m),
    ensures
        all_coherent(m.date_submitted(field)),
{
    reveal(Model::date_submitted);
    let after = m.date_submitted(field);
    match m.library_selection {
        Some(SelectionModel::Roll(dir)) => {
            seqs::first_where_is_first(m.rolls, state::in_dir(dir));
        },
        _ => {},
    }
    assert forall|i: int| 0 <= i < after.rolls.len() implies dates::dates_coherent(
        (#[trigger] after.rolls[i]).start_date,
        after.rolls[i].end_date,
    ) by {
        assert(dates::dates_coherent(m.rolls[i].start_date, m.rolls[i].end_date));
    }
}

/// A date that is none is dropped: the fields show what is committed, and
/// nothing is written.
pub proof fn malformed_dates_are_dropped(m: Model, field: RollDateField, dir: Seq<char>)
    requires
        m.library_selection == Some(SelectionModel::Roll(dir)),
        m.drafted(field) is Some,
        dates::iso_date(m.drafted(field).unwrap()) is None,
    ensures
        m.date_submitted(field).roll_date_drafts == m.seeds(dir).0,
        m.date_submitted(field).rolls == m.rolls,
        m.date_submitted(field).effects == m.effects,
{
    reveal(Model::date_submitted);
}

/// With every frame selected, an export writes each frame of the roll once, in
/// sorted order.
pub proof fn select_all_exports_all(m: Model)
    requires
        m.active is Some,
        m.tiles.len() > 0,
    ensures
        names::ascending(m.all_selected().export_targets()),
        m.all_selected().export_targets().to_set() == pumps::tile_names(m.tiles).to_set(),
{
    reveal(Model::all_selected);
    let all = pumps::tile_names(m.tiles);
    names::every_list_has_a_listing(all);
    assert(all[0] == m.tiles[0].name);
    assert(all.to_set().contains(all[0]));
    assert(all.to_set() != Set::<Seq<char>>::empty()) by {
        assert(!Set::<Seq<char>>::empty().contains(all[0]));
    }
}

/// Backing out of the detail view keeps the highlight, so the grid still shows
/// where one was; backing out of the roll leaves nothing of it behind.
pub proof fn backing_out_keeps_its_place(m: Model)
    requires
        m.active is Some,
    ensures
        m.selected is Some ==> m.escaped().frame_selected == m.frame_selected
            && m.escaped().active == m.active && m.escaped().selected is None,
        m.selected is None ==> m.escaped().active is None && m.escaped().tiles.len() == 0
            && m.escaped().frame_selected is None && m.escaped().roll == ManifestModel::blank(),
{
    reveal(Model::escaped);
    reveal(Model::roll_closed);
}

/// Leaving a frame writes the roll's edits before anything else.
pub proof fn leaving_a_frame_saves_it(m: Model, dir: Seq<char>)
    requires
        m.active == Some(dir),
    ensures
        m.escaped().effects.len() > m.effects.len(),
        m.escaped().effects[m.effects.len() as int] == (EffectModel::SaveManifest {
            dir,
            manifest: m.roll,
        }),
        m.committed().effects.len() > m.effects.len(),
        m.committed().effects[m.effects.len() as int] == (EffectModel::SaveManifest {
            dir,
            manifest: m.roll,
        }),
{
    reveal(Model::escaped);
    reveal(Model::roll_closed);
    reveal(Model::committed);
    reveal(Model::rebaked);
    reveal(Model::tile_reloading);
    reveal(Model::thumbs_pumped);
    reveal(Model::covers_pumped);
    reveal(Model::search_closed);
}

/// A preload leaves alone what is on screen and what is decoded for it.
pub proof fn preloads_leave_the_view_alone(
    m: Model,
    dir: Seq<char>,
    name: Seq<char>,
    preset: FilmPreset,
    result: Result<DetailMono, String>,
)
    ensures
        ({
            let after = m.preload_finished(dir, name, preset, result);
            &&& after.detail == m.detail
            &&& after.detail_inflight == m.detail_inflight
            &&& after.tiles == m.tiles
            &&& after.effects == m.effects
        }),
{
    reveal(Model::preload_finished);
    reveal(Model::stored);
}

/// While a decode for the detail view runs no other is started, and once the
/// picture at full size is there or under way none follows it.
pub proof fn the_view_decodes_one_at_a_time(m: Model)
    ensures
        m.detail_inflight is Some ==> m.detail_pumped() == m,
        m.detail.live is Some && m.detail.native_queued ==> m.detail_pumped() == m,
        m.selected is None ==> m.detail_pumped() == m,
{
    reveal(Model::detail_pumped);
}

/// A decode that failed starts no other: at most its failure is reported, and
/// only once for each opened frame.
pub proof fn failed_decodes_do_not_spin(
    m: Model,
    name: Seq<char>,
    preset: FilmPreset,
    reason: String,
    cap: Single,
    one_to_one: Single,
)
    requires
        m.selected == Some(name),
        m.detail_inflight == Some(name),
    ensures
        ({
            let failed = Result::<DetailMono, String>::Err(reason);
            let after = m.detail_finished(name, preset, failed, cap, one_to_one);
            let again = Model { detail_inflight: Some(name), ..after };
            &&& after.detail_inflight is None
            &&& after.detail.live == m.detail.live
            &&& after.effects == m.effects || after.effects == m.effects.push(
                EffectModel::ReportDetailFailure { name, reason: reason@ },
            )
            &&& again.detail_finished(name, preset, failed, cap, one_to_one).effects
                == after.effects
        }),
{
    reveal(Model::detail_finished);
    reveal(Model::result_taken);
    reveal(Model::failure_reported);
}

/// Escape closes no drawer for good: what each view remembers stays.
pub proof fn escape_keeps_the_drawers(m: Model)
    ensures
        m.escaped().drawer.memory == m.drawer.memory,
        m.active is None ==> m.escaped().drawer == m.drawer,
{
    reveal(Model::escaped);
    reveal(Model::roll_closed);
    reveal(Model::search_closed);
}

/// In crop mode only the keys that resize the window adjust anything; the
/// others are not even held.
pub proof fn crop_mode_mutes_the_other_keys(m: Model, adjust: EditAdjust, moved: Single)
    requires
        m.detail.crop_mode,
        !(adjust is Exposure),
    ensures
        m.edit_key_pressed(adjust, moved) == m,
{
    reveal(Model::edit_key_pressed);
}

/// Without an open frame the editing keys and the crop mode do nothing.
pub proof fn editing_needs_an_open_frame(m: Model, adjust: EditAdjust, moved: Single)
    requires
        m.selected is None,
    ensures
        m.edit_key_pressed(adjust, moved) == m,
        m.crop_mode_toggled() == m,
{
    reveal(Model::edit_key_pressed);
    reveal(Model::crop_mode_toggled);
}

/// A search that is shown stays as it is when it is asked for again.
pub proof fn shown_searches_stay(m: Model)
    requires
        m.search is Some,
    ensures
        m.search_activated() == m,
{
    reveal(Model::search_activated);
}

/// Whether a state comes of another by asking for more, with the roll as it
/// was.
spec fn only_asks_more(before: Model, after: Model) -> bool {
    &&& after.roll == before.roll
    &&& after.active == before.active
    &&& before.effects.is_prefix_of(after.effects)
}

/// Decoding asks for more and changes no roll.
proof fn pumping_only_asks_more(m: Model, name: Seq<char>)
    ensures
        only_asks_more(m, m.thumbs_pumped()),
        only_asks_more(m, m.covers_pumped()),
        only_asks_more(m, m.detail_pumped()),
        only_asks_more(m, m.neighbors_pumped(name)),
{
    reveal(Model::thumbs_pumped);
    reveal(Model::covers_pumped);
    reveal(Model::detail_pumped);
    reveal(Model::detail_requested);
    reveal(Model::installed);
    reveal(Model::neighbors_pumped);
}

/// Decoding everything anew asks for more and changes no roll.
proof fn reflow_only_asks_more(m: Model)
    ensures
        only_asks_more(m, m.base_reflowed()),
{
    reveal(Model::base_reflowed);
    reveal(Model::detail_dropped);
    reveal(Model::repumped);
    let dropped = Model {
        detail_cache: Seq::empty(),
        ..m.roll_persisted().detail_dropped()
    }.thumbs_reloading();
    let cover = match dropped.active {
        Some(dir) => dropped.cover_reloading(dir),
        None => dropped,
    };
    assert(only_asks_more(m, cover));
    let none = Seq::<char>::empty();
    pumping_only_asks_more(cover, none);
    let thumbs = cover.thumbs_pumped();
    pumping_only_asks_more(thumbs, none);
    let covers = thumbs.covers_pumped();
    pumping_only_asks_more(covers, none);
    pumping_only_asks_more(covers.detail_pumped(), state::or_empty(covers.selected));
}

/// A frame without a plausible stretch of clear film leaves the base of the
/// roll's calibration as it is. One whose overview is cached leaves the whole
/// roll and everything shown as they are.
pub proof fn implausible_frames_leave_the_calibration(m: Model, samples: Seq<Single>)
    requires
        film::plausibly_measured(samples) is None,
    ensures
        m.calibrated(samples).roll.base == m.roll.base,
        m.calibration_source() is Some && lru::holds(
            m.detail_cache,
            (
                m.calibration_source().unwrap().0,
                m.roll.film(),
                m.calibration_source().unwrap().1,
            ),
        ) ==> m.calibrated(samples) == (Model {
            detail_cache: m.calibrated(samples).detail_cache,
            ..m
        }),
        m.calibration_source() is None ==> m.calibrated(samples) == m,
{
    reveal(Model::calibrated);
}

/// A calibration frame that was measured without a plausible result leaves the
/// base as it is, in the open roll; and the manifest on disk is written back
/// just as it was.
pub proof fn missing_measurements_leave_the_base(
    m: Model,
    dir: Seq<char>,
    name: Seq<char>,
    on_disk: ManifestModel,
)
    ensures
        m.measurement_landed(dir, name, None, on_disk).roll.base == m.roll.base,
        m.measurement_landed(dir, name, None, on_disk) == m || ({
            let after = m.measurement_landed(dir, name, None, on_disk).effects;
            &&& after.len() > m.effects.len()
            &&& after[m.effects.len() as int] == (EffectModel::SaveManifest {
                dir,
                manifest: on_disk,
            })
        }),
{
    reveal(Model::measurement_landed);
    let written = m.emitting(
        EffectModel::SaveManifest { dir, manifest: on_disk.calibrated(name, None) },
    );
    reflow_only_asks_more(Model { roll: written.roll.calibrated(name, None), ..written });
    pumping_only_asks_more(written.cover_reloading(dir), name);
    if on_disk.strategy() == BaseMode::AutoSelectedFrame && on_disk.calibration_frame == Some(
        name,
    ) {
        assert(on_disk.calibrated(name, None) == on_disk);
        let k = m.effects.len() as int;
        let after = m.measurement_landed(dir, name, None, on_disk).effects;
        assert(written.effects.is_prefix_of(after));
        assert(after.subrange(0, written.effects.len() as int)[k] == written.effects[k]);
    }
}

/// A released key commits only what was adjusted while it was held; once the
/// detail view is closed no key is held.
pub proof fn stray_releases_do_nothing(m: Model)
    ensures
        !m.editing_key_held ==> m.edit_key_released() == m,
        m.detail_cleared().edit_key_released() == m.detail_cleared(),
{
    reveal(Model::edit_key_released);
}

/// A measurement that the manifest on disk does not ask for changes nothing.
pub proof fn stale_measurements_change_nothing(
    m: Model,
    dir: Seq<char>,
    name: Seq<char>,
    base: Option<Single>,
    on_disk: ManifestModel,
)
    requires
        on_disk.strategy() != BaseMode::AutoSelectedFrame || on_disk.calibration_frame != Some(
            name,
        ),
    ensures
        m.measurement_landed(dir, name, base, on_disk) == m,
{
    reveal(Model::measurement_landed);
}

/// A roll that is closed leaves its overviews in the cache.
pub proof fn closed_rolls_keep_their_overviews(m: Model)
    ensures
        m.escaped().detail_cache == m.detail_cache,
{
    reveal(Model::escaped);
    reveal(Model::roll_closed);
    reveal(Model::search_closed);
}

/// The pumps for thumbnails and covers leave the cache and the roll alone.
proof fn grid_pumps_keep_the_cache(m: Model)
    ensures
        m.thumbs_pumped().detail_cache == m.detail_cache,
        m.thumbs_pumped().roll == m.roll,
        m.thumbs_pumped().active == m.active,
        m.thumbs_pumped().detail == m.detail,
        m.thumbs_pumped().selected == m.selected,
        m.covers_pumped().detail_cache == m.detail_cache,
        m.covers_pumped().roll == m.roll,
        m.covers_pumped().active == m.active,
{
    reveal(Model::thumbs_pumped);
    reveal(Model::covers_pumped);
}

/// What is decoded anew for the detail view serves nothing that the cache does
/// not hold.
proof fn repump_serves_the_cache(m: Model, dir: Seq<char>)
    requires
        m.active == Some(dir),
        m.detail.live is None,
        forall|i: int| 0 <= i < m.detail_cache.len() ==> (#[trigger] m.detail_cache[i]).0.0 != dir,
    ensures
        m.repumped().detail_cache == m.detail_cache,
        m.repumped().detail.live is None,
        m.repumped().roll == m.roll,
{
    reveal(Model::repumped);
    reveal(Model::detail_pumped);
    reveal(Model::detail_requested);
    reveal(Model::neighbors_pumped);
    assert forall|name: Seq<char>|
        !(#[trigger] lru::holds(m.detail_cache, (dir, m.roll.film(), name))) by {
        lru::position_is_first(m.detail_cache, (dir, m.roll.film(), name));
    }
}

/// After the film of the open roll changed, no picture of it that was decoded
/// before is on screen or in the cache.
pub proof fn film_changes_leave_no_old_pictures(m: Model, dir: Seq<char>, preset: FilmPreset)
    requires
        m.active == Some(dir),
    ensures
        m.preset_changed(dir, preset).roll.film() == preset,
        m.preset_changed(dir, preset).detail.live is None,
        forall|i: int|
            0 <= i < m.preset_changed(dir, preset).detail_cache.len() ==> (
            #[trigger] m.preset_changed(dir, preset).detail_cache[i]).0.0 != dir,
{
    reveal(Model::preset_changed);
    reveal(Model::roll_reflowed);
    reveal(Model::detail_dropped);
    film::preset_keys_round_trip(preset);
    let recorded = m.emitting(EffectModel::RecordPreset { dir, preset }).card_preset(dir, preset);
    grid_pumps_keep_the_cache(recorded);
    let carded = recorded.covers_pumped();
    let set = Model { roll: carded.roll.with_film(preset), ..carded };
    let kept = Model {
        detail_cache: set.cache_without(dir),
        ..set.thumbs_reloading().detail_dropped()
    };
    assert forall|i: int| 0 <= i < kept.detail_cache.len() implies (
    #[trigger] kept.detail_cache[i]).0.0 != dir by {
        assert(lru::of_other_roll::<DetailMono>(dir)(kept.detail_cache[i]));
    }
    grid_pumps_keep_the_cache(kept);
    repump_serves_the_cache(kept.thumbs_pumped(), dir);
}

/// A strategy that goes by no designated frame leaves no calibration behind in
/// the open roll.
pub proof fn other_strategies_leave_no_calibration(m: Model, dir: Seq<char>, mode: BaseMode)
    requires
        m.active == Some(dir),
        mode != BaseMode::AutoSelectedFrame,
    ensures
        m.base_mode_changed(dir, mode).roll.strategy() == mode,
        m.base_mode_changed(dir, mode).roll.calibration_frame is None,
        m.base_mode_changed(dir, mode).roll.base is None,
{
    reveal(Model::base_mode_changed);
    reveal(Model::calibration_ended);
    reveal(Model::roll_reflowed);
    reveal(Model::detail_dropped);
    let recorded = m.emitting(EffectModel::RecordBaseMode { dir, mode }).card_base_mode(dir, mode);
    grid_pumps_keep_the_cache(recorded);
    let ended = recorded.covers_pumped().calibration_ended(dir);
    let set = Model { roll: ended.roll.with_strategy(mode), ..ended };
    let kept = Model {
        detail_cache: set.cache_without(dir),
        ..set.thumbs_reloading().detail_dropped()
    };
    assert forall|i: int| 0 <= i < kept.detail_cache.len() implies (
    #[trigger] kept.detail_cache[i]).0.0 != dir by {
        assert(lru::of_other_roll::<DetailMono>(dir)(kept.detail_cache[i]));
    }
    grid_pumps_keep_the_cache(kept);
    repump_serves_the_cache(kept.thumbs_pumped(), dir);
}

/// After the strategy of the open roll changed, no picture of it that was
/// decoded before is on screen or in the cache.
pub proof fn strategy_changes_leave_no_old_pictures(m: Model, dir: Seq<char>, mode: BaseMode)
    requires
        m.active == Some(dir),
    ensures
        m.base_mode_changed(dir, mode).detail.live is None,
        forall|i: int|
            0 <= i < m.base_mode_changed(dir, mode).detail_cache.len() ==> (
            #[trigger] m.base_mode_changed(dir, mode).detail_cache[i]).0.0 != dir,
{
    reveal(Model::base_mode_changed);
    reveal(Model::calibration_begun);
    reveal(Model::calibration_ended);
    reveal(Model::roll_reflowed);
    reveal(Model::detail_dropped);
    let recorded = m.emitting(EffectModel::RecordBaseMode { dir, mode }).card_base_mode(dir, mode);
    grid_pumps_keep_the_cache(recorded);
    let carded = recorded.covers_pumped();
    let begun = if mode == BaseMode::AutoSelectedFrame {
        carded.calibration_begun(dir)
    } else {
        carded.calibration_ended(dir)
    };
    let set = Model { roll: begun.roll.with_strategy(mode), ..begun };
    let kept = Model {
        detail_cache: set.cache_without(dir),
        ..set.thumbs_reloading().detail_dropped()
    };
    assert forall|i: int| 0 <= i < kept.detail_cache.len() implies (
    #[trigger] kept.detail_cache[i]).0.0 != dir by {
        assert(lru::of_other_roll::<DetailMono>(dir)(kept.detail_cache[i]));
    }
    grid_pumps_keep_the_cache(kept);
    repump_serves_the_cache(kept.thumbs_pumped(), dir);
}

/// After the black point of the open roll changed, no picture that was decoded
/// before is on screen or in the cache, and none that is under way counts.
pub proof fn new_black_points_leave_no_old_pictures(m: Model, dir: Seq<char>)
    requires
        m.active == Some(dir),
    ensures
        m.base_reflowed().detail.live is None,
        m.base_reflowed().detail_cache.len() == 0,
{
    reveal(Model::base_reflowed);
    reveal(Model::detail_dropped);
    let dropped = Model {
        detail_cache: Seq::empty(),
        ..m.roll_persisted().detail_dropped()
    }.thumbs_reloading();
    let cover = dropped.cover_reloading(dir);
    grid_pumps_keep_the_cache(cover);
    grid_pumps_keep_the_cache(cover.thumbs_pumped());
    assert(cover.thumbs_pumped().covers_pumped().detail == cover.detail) by {
        reveal(Model::covers_pumped);
    }
    repump_serves_the_cache(cover.thumbs_pumped().covers_pumped(), dir);
}

} // verus!
