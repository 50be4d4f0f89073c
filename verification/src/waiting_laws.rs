//! No thumbnail and no cover waits while there is room to decode it.

use vstd::prelude::*;
use crate::edit_manifest::{CropMargins, ManifestModel};
use crate::editing;
use crate::effect::EffectModel;
use crate::film::{BaseMode, FilmPreset};
use crate::library;
use crate::library::{RollModel, SelectionModel, Thumb};
use crate::library_page;
use crate::message::{DetailMono, Message};
use crate::pumps;
use crate::seqs;
use crate::single::Single;
use crate::state;
use crate::state::{DetailState, Model};
use crate::text;

verus! {

/// Whether no frame of the open roll waits for its thumbnail while fewer than
/// four are being decoded. Without an open roll there are no frames.
pub open spec fn no_thumb_waits(m: Model) -> bool {
    &&& m.active is None ==> m.tiles.len() == 0
    &&& m.active is Some && m.thumb_inflight.len() < 4 ==> forall|i: int|
        0 <= i < m.tiles.len() && (#[trigger] m.tiles[i]).thumb == Thumb::Loading
            ==> m.thumb_inflight.contains(m.tiles[i].name)
}

/// Whether no roll of the library waits for its cover while fewer than four
/// are being decoded.
pub open spec fn no_cover_waits(m: Model) -> bool {
    m.cover_inflight.len() < 4 ==> forall|i: int|
        0 <= i < m.rolls.len() && (#[trigger] m.rolls[i]).thumb == Thumb::Loading
            && m.rolls[i].cover is Some ==> m.cover_inflight.contains(m.rolls[i].dir)
}

/// Whether nothing waits.
pub open spec fn nothing_waits(m: Model) -> bool {
    no_thumb_waits(m) && no_cover_waits(m)
}

/// Whether the same thumbnails wait in two states.
spec fn same_thumbs(a: Model, b: Model) -> bool {
    &&& (a.active is None) == (b.active is None)
    &&& a.thumb_inflight == b.thumb_inflight
    &&& a.tiles.len() == b.tiles.len()
    &&& forall|i: int|
        0 <= i < a.tiles.len() ==> (#[trigger] b.tiles[i]).name == a.tiles[i].name
            && b.tiles[i].thumb == a.tiles[i].thumb
}

/// Whether the same covers wait in two states.
spec fn same_covers(a: Model, b: Model) -> bool {
    &&& a.cover_inflight == b.cover_inflight
    &&& a.rolls.len() == b.rolls.len()
    &&& forall|i: int|
        0 <= i < a.rolls.len() ==> (#[trigger] b.rolls[i]).dir == a.rolls[i].dir
            && b.rolls[i].cover == a.rolls[i].cover && b.rolls[i].thumb == a.rolls[i].thumb
}

proof fn same_waiting(a: Model, b: Model)
    requires
        nothing_waits(a),
        same_thumbs(a, b),
        same_covers(a, b),
    ensures
        nothing_waits(b),
{
    assert forall|i: int| 0 <= i < b.tiles.len() && (#[trigger] b.tiles[i]).thumb == Thumb::Loading
        && b.active is Some && b.thumb_inflight.len() < 4 implies b.thumb_inflight.contains(
        b.tiles[i].name,
    ) by {
        assert(a.tiles[i].thumb == Thumb::Loading);
    }
    assert forall|i: int| 0 <= i < b.rolls.len() && (#[trigger] b.rolls[i]).thumb == Thumb::Loading
        && b.rolls[i].cover is Some && b.cover_inflight.len() < 4 implies b.cover_inflight.contains(
        b.rolls[i].dir,
    ) by {
        assert(a.rolls[i].thumb == Thumb::Loading);
    }
}

/// What is started is asked for: each thumbnail and each cover that is decoded
/// from now on has its decode among the work.
pub proof fn started_work_is_asked_for(m: Model)
    ensures
        ({
            let after = m.thumbs_pumped();
            &&& after.effects.len() - m.effects.len() == after.thumb_inflight.len()
                - m.thumb_inflight.len()
            &&& forall|i: int|
                m.effects.len() <= i < after.effects.len() ==> (
                #[trigger] after.effects[i]) is DecodeThumbnail
                    && after.effects[i]->DecodeThumbnail_name == after.thumb_inflight[i
                    - m.effects.len() + m.thumb_inflight.len()]
        }),
        ({
            let after = m.covers_pumped();
            &&& after.effects.len() - m.effects.len() == after.cover_inflight.len()
                - m.cover_inflight.len()
            &&& forall|i: int|
                m.effects.len() <= i < after.effects.len() ==> (
                #[trigger] after.effects[i]) is DecodeCover && after.effects[i]->DecodeCover_dir
                    == after.cover_inflight[i - m.effects.len() + m.cover_inflight.len()]
        }),
{
    reveal(Model::thumbs_pumped);
    reveal(Model::covers_pumped);
}

/// After thumbnails were started none waits that could be started.
proof fn pumped_thumbs(m: Model)
    requires
        m.active is None ==> m.tiles.len() == 0,
    ensures
        no_thumb_waits(m.thumbs_pumped()),
        same_covers(m, m.thumbs_pumped()),
        m.thumbs_pumped().rolls == m.rolls,
        m.thumbs_pumped().tiles == m.tiles,
        m.thumbs_pumped().active == m.active,
        m.thumbs_pumped().selected == m.selected,
{
    crate::laws::thumbnails_start_once_and_fill_the_room(m);
    reveal(Model::thumbs_pumped);
}

/// After covers were started none waits that could be started.
proof fn pumped_covers(m: Model)
    ensures
        no_cover_waits(m.covers_pumped()),
        same_thumbs(m, m.covers_pumped()),
        m.covers_pumped().active == m.active,
        m.covers_pumped().selected == m.selected,
        m.covers_pumped().tiles == m.tiles,
        m.covers_pumped().roll == m.roll,
{
    reveal(Model::covers_pumped);
    let after = m.covers_pumped();
    let test = pumps::cover_waits(m.cover_inflight);
    let found = m.rolls.filter(test);
    if after.cover_inflight.len() < 4 {
        assert(m.next_covers() == found);
        assert forall|i: int| 0 <= i < m.rolls.len() && (#[trigger] m.rolls[i]).thumb
            == Thumb::Loading && m.rolls[i].cover is Some implies after.cover_inflight.contains(
            m.rolls[i].dir,
        ) by {
            let dir = m.rolls[i].dir;
            if m.cover_inflight.contains(dir) {
                let k = choose|k: int| 0 <= k < m.cover_inflight.len() && m.cover_inflight[k] == dir;
                assert(after.cover_inflight[k] == dir);
            } else {
                assert(test(m.rolls[i]));
                m.rolls.lemma_filter_contains(test, i);
                let k = choose|k: int| 0 <= k < found.len() && found[k] == m.rolls[i];
                assert(pumps::roll_dirs(found)[k] == dir);
                assert(after.cover_inflight[m.cover_inflight.len() + k] == dir);
            }
        }
    }
}

/// Thumbnails stay served through what leaves them alone.
proof fn thumbs_stay(a: Model, b: Model)
    requires
        no_thumb_waits(a),
        same_thumbs(a, b),
    ensures
        no_thumb_waits(b),
{
    assert forall|i: int| 0 <= i < b.tiles.len() && (#[trigger] b.tiles[i]).thumb == Thumb::Loading
        && b.active is Some && b.thumb_inflight.len() < 4 implies b.thumb_inflight.contains(
        b.tiles[i].name,
    ) by {
        assert(a.tiles[i].thumb == Thumb::Loading);
    }
}

/// Covers stay served through what leaves them alone.
proof fn covers_stay(a: Model, b: Model)
    requires
        no_cover_waits(a),
        same_covers(a, b),
    ensures
        no_cover_waits(b),
{
    assert forall|i: int| 0 <= i < b.rolls.len() && (#[trigger] b.rolls[i]).thumb == Thumb::Loading
        && b.rolls[i].cover is Some && b.cover_inflight.len() < 4 implies b.cover_inflight.contains(
        b.rolls[i].dir,
    ) by {
        assert(a.rolls[i].thumb == Thumb::Loading);
    }
}

proof fn pumped_detail(m: Model, name: Seq<char>)
    ensures
        same_thumbs(m, m.detail_pumped()),
        same_covers(m, m.detail_pumped()),
        m.detail_pumped().selected == m.selected,
        same_thumbs(m, m.neighbors_pumped(name)),
        same_covers(m, m.neighbors_pumped(name)),
{
    reveal(Model::detail_pumped);
    reveal(Model::detail_requested);
    reveal(Model::installed);
    reveal(Model::neighbors_pumped);
}

proof fn repumped(m: Model)
    requires
        nothing_waits(m),
    ensures
        nothing_waits(m.repumped()),
{
    reveal(Model::repumped);
    let none = Seq::<char>::empty();
    pumped_detail(m, none);
    same_waiting(m, m.detail_pumped());
    pumped_detail(m.detail_pumped(), state::or_empty(m.selected));
    same_waiting(
        m.detail_pumped(),
        m.detail_pumped().neighbors_pumped(state::or_empty(m.selected)),
    );
}

proof fn reflowed(m: Model, dir: Seq<char>)
    requires
        nothing_waits(m),
    ensures
        nothing_waits(m.roll_reflowed(dir)),
{
    reveal(Model::roll_reflowed);
    reveal(Model::detail_dropped);
    let a = Model {
        detail_cache: m.cache_without(dir),
        ..m.thumbs_reloading().detail_dropped()
    };
    pumped_thumbs(a);
    covers_stay(m, a.thumbs_pumped());
    repumped(a.thumbs_pumped());
}

proof fn base_reflowed(m: Model)
    requires
        m.active is None ==> m.tiles.len() == 0,
    ensures
        nothing_waits(m.base_reflowed()),
{
    reveal(Model::base_reflowed);
    reveal(Model::detail_dropped);
    let dropped = Model {
        detail_cache: Seq::empty(),
        ..m.roll_persisted().detail_dropped()
    }.thumbs_reloading();
    let cover = match dropped.active {
        Some(dir) => dropped.cover_reloading(dir),
        None => dropped,
    };
    pumped_thumbs(cover);
    let thumbs = cover.thumbs_pumped();
    pumped_covers(thumbs);
    thumbs_stay(thumbs, thumbs.covers_pumped());
    repumped(thumbs.covers_pumped());
}

proof fn committed(m: Model)
    requires
        nothing_waits(m),
    ensures
        nothing_waits(m.committed()),
{
    reveal(Model::committed);
    reveal(Model::rebaked);
    reveal(Model::tile_reloading);
    let saved = m.roll_persisted();
    same_waiting(m, saved);
    match saved.selected {
        Some(name) => {
            let a = saved.tile_reloading(name);
            seqs::first_where_is_first(saved.tiles, state::named(name));
            pumped_thumbs(a);
            let shown = a.thumbs_pumped();
            covers_stay(saved, shown);
            match shown.active {
                Some(dir) => match seqs::first_where(shown.rolls, editing::covered_by(dir, name)) {
                    Some(k) => {
                        let c = shown.with_cover(k, Thumb::Loading);
                        pumped_covers(c);
                        thumbs_stay(shown, c.covers_pumped());
                    },
                    None => {},
                },
                None => {},
            }
        },
        None => {},
    }
}

proof fn pasted(m: Model)
    requires
        nothing_waits(m),
    ensures
        nothing_waits(m.pasted()),
{
    reveal(Model::pasted);
    reveal(Model::tone_applied);
    reveal(Model::rebaked_all);
    let names = editing::paste_targets(m);
    match m.clipboard {
        Some(tone) if names != Set::<Seq<char>>::empty() => {
            let saved = m.tone_applied(names, tone).roll_persisted();
            let a = Model { tiles: editing::tiles_reloading(saved.tiles, names), ..saved };
            pumped_thumbs(a);
            let shown = a.thumbs_pumped();
            covers_stay(m, shown);
            match shown.active {
                Some(dir) => match seqs::first_where(
                    shown.rolls,
                    editing::covered_by_any(dir, names),
                ) {
                    Some(k) => {
                        let c = shown.with_cover(k, Thumb::Loading);
                        pumped_covers(c);
                        thumbs_stay(shown, c.covers_pumped());
                    },
                    None => {},
                },
                None => {},
            }
        },
        _ => {},
    }
}

proof fn opened(m: Model, name: Seq<char>)
    requires
        nothing_waits(m),
    ensures
        nothing_waits(m.frame_opened(name)),
{
    reveal(Model::frame_opened);
    reveal(Model::frame_entered);
    let entered = if m.selected == Some(name) {
        m
    } else {
        m.frame_entered(name)
    };
    same_waiting(m, entered);
    pumped_detail(entered, name);
    same_waiting(entered, entered.detail_pumped());
    pumped_detail(entered.detail_pumped(), name);
    same_waiting(entered.detail_pumped(), entered.detail_pumped().neighbors_pumped(name));
}

proof fn roll_opening(m: Model, dir: Seq<char>)
    requires
        nothing_waits(m),
    ensures
        nothing_waits(m.roll_opening(dir)),
{
    reveal(Model::roll_opening);
    covers_stay(m, m.roll_opening(dir));
}

proof fn removed(m: Model, dir: Seq<char>)
    requires
        nothing_waits(m),
    ensures
        nothing_waits(m.roll_removed(dir)),
{
    reveal(Model::roll_removed);
    reveal(Model::first_selected);
    let after = m.roll_removed(dir);
    thumbs_stay(m, after);
    let test = library_page::elsewhere(dir);
    if m.active is None && m.roll_at(dir) is Some {
        assert(after.rolls == m.rolls.filter(test));
        assert forall|i: int| 0 <= i < after.rolls.len() && (#[trigger] after.rolls[i]).thumb
            == Thumb::Loading && after.rolls[i].cover is Some && after.cover_inflight.len()
            < 4 implies after.cover_inflight.contains(after.rolls[i].dir) by {
            let r = after.rolls[i];
            assert(m.rolls.filter(test).contains(r));
            m.rolls.lemma_filter_contains_rev(test, r);
            let k = choose|k: int| 0 <= k < m.rolls.len() && m.rolls[k] == r;
            assert(m.rolls[k].thumb == Thumb::Loading);
        }
    }
}

proof fn loaded(m: Model, rolls: Seq<RollModel>)
    requires
        nothing_waits(m),
    ensures
        nothing_waits(m.rolls_loaded(rolls)),
{
    reveal(Model::rolls_loaded);
    reveal(Model::first_selected);
    let fresh = Model { rolls, cover_inflight: Seq::empty(), ..m };
    let sound = if fresh.selection_stale() {
        fresh.deselected()
    } else {
        fresh
    };
    pumped_covers(sound.first_selected());
    thumbs_stay(m, sound.first_selected().covers_pumped());
}

proof fn listed(m: Model, roll: RollModel)
    requires
        nothing_waits(m),
    ensures
        nothing_waits(m.roll_listed(roll)),
{
    reveal(Model::roll_listed);
    let more = Model { rolls: library::sorted_by_name(m.rolls.push(roll)), ..m };
    pumped_covers(more);
    thumbs_stay(m, more.covers_pumped());
}

proof fn cover_decoded(m: Model, dir: Seq<char>, picture: Option<u64>)
    requires
        nothing_waits(m),
    ensures
        nothing_waits(m.cover_decoded(dir, picture)),
{
    reveal(Model::cover_decoded);
    let shown = match m.roll_at(dir) {
        Some(k) => m.with_cover(k, library_page::decoded(picture)),
        None => m,
    };
    let free = Model { cover_inflight: seqs::without(shown.cover_inflight, dir), ..shown };
    pumped_covers(free);
    thumbs_stay(m, free.covers_pumped());
}

proof fn library_waits_not(m: Model, message: Message)
    requires
        nothing_waits(m),
        nothing_waits(m.acted_drafts(message)),
    ensures
        nothing_waits(m.acted_library(message)),
{
    reveal(Model::acted_library);
    match message {
        Message::RollsLoaded(rolls) => {
            loaded(m, library::roll_models(rolls@));
        },
        Message::RollInfoLoaded(roll) => {
            listed(m, roll.model());
        },
        Message::CoverReady(dir, picture) => {
            cover_decoded(m, dir@, picture);
        },
        Message::RollAdded(given, preset) => {
            added(m, given@, preset);
        },
        Message::RollPresetChanged(dir, preset) => {
            preset_changed(m, dir@, preset);
        },
        Message::RollBaseModeChanged(dir, mode) => {
            mode_changed(m, dir@, mode);
        },
        Message::CalibrateBaseFromFrame(samples) => {
            calibrated(m, samples@);
        },
        Message::CalibrationBaseMeasured(dir, name, base, manifest) => {
            landed(m, dir@, name@, base, manifest.model());
        },
        Message::RemoveRoll(dir) => {
            removed(m, dir@);
        },
        Message::RemoveSelectedRoll => {
            match m.library_selection {
                Some(SelectionModel::Roll(dir)) => {
                    removed(m, dir);
                },
                _ => {},
            }
        },
        Message::AddRoll | Message::RollSelected(_) | Message::AddRollSelected => {
            same_waiting(m, m.acted_library(message));
        },
        _ => {},
    }
}

proof fn added(m: Model, given: Seq<char>, preset: FilmPreset)
    requires
        nothing_waits(m),
    ensures
        nothing_waits(m.roll_added(given, preset)),
{
    reveal(Model::roll_added);
    reveal(Model::roll_opening);
    let dir = crate::paths::tidied(given);
    let known = if m.roll_at(dir) is Some {
        m
    } else {
        Model { config: m.config.push(given), ..m }.config_persisted()
    };
    let chosen = known.emitting(EffectModel::RecordPreset { dir, preset }).card_preset(
        dir,
        preset,
    ).selecting(SelectionModel::Roll(dir)).emitting(EffectModel::ScanRoll { dir });
    thumbs_stay(m, chosen);
    let open = chosen.roll_opening(dir);
    assert(no_thumb_waits(open));
    pumped_covers(open);
    thumbs_stay(open, open.covers_pumped());
}

proof fn preset_changed(m: Model, dir: Seq<char>, preset: FilmPreset)
    requires
        nothing_waits(m),
    ensures
        nothing_waits(m.preset_changed(dir, preset)),
{
    reveal(Model::preset_changed);
    let named = m.emitting(EffectModel::RecordPreset { dir, preset }).card_preset(dir, preset);
    pumped_covers(named);
    let carded = named.covers_pumped();
    thumbs_stay(m, carded);
    let set = Model { roll: carded.roll.with_film(preset), ..carded };
    same_waiting(carded, set);
    reflowed(set, dir);
}

proof fn mode_changed(m: Model, dir: Seq<char>, mode: BaseMode)
    requires
        nothing_waits(m),
    ensures
        nothing_waits(m.base_mode_changed(dir, mode)),
{
    reveal(Model::base_mode_changed);
    let named = m.emitting(EffectModel::RecordBaseMode { dir, mode }).card_base_mode(dir, mode);
    pumped_covers(named);
    let carded = named.covers_pumped();
    thumbs_stay(m, carded);
    let set = if mode == BaseMode::AutoSelectedFrame {
        carded.calibration_begun(dir)
    } else {
        carded.calibration_ended(dir)
    };
    assert(same_thumbs(carded, set) && same_covers(carded, set)) by {
        reveal(Model::calibration_begun);
        reveal(Model::calibration_ended);
    }
    same_waiting(carded, set);
    let last = Model { roll: set.roll.with_strategy(mode), ..set };
    same_waiting(set, last);
    reflowed(last, dir);
}

proof fn calibrated(m: Model, samples: Seq<Single>)
    requires
        nothing_waits(m),
    ensures
        nothing_waits(m.calibrated(samples)),
{
    reveal(Model::calibrated);
    match m.calibration_source() {
        Some((dir, name)) => {
            let key = (dir, m.roll.film(), name);
            let looked_up = Model { detail_cache: crate::lru::touched(m.detail_cache, key), ..m };
            if crate::lru::holds(m.detail_cache, key) {
                match crate::film::plausibly_measured(samples) {
                    Some(base) => {
                        base_reflowed(
                            Model { roll: m.roll.calibrated(name, Some(base)), ..looked_up },
                        );
                    },
                    None => {
                        same_waiting(m, looked_up);
                    },
                }
            } else {
                same_waiting(m, m.calibrated(samples));
            }
        },
        None => {},
    }
}

proof fn landed(
    m: Model,
    dir: Seq<char>,
    name: Seq<char>,
    base: Option<Single>,
    on_disk: ManifestModel,
)
    requires
        nothing_waits(m),
    ensures
        nothing_waits(m.measurement_landed(dir, name, base, on_disk)),
{
    reveal(Model::measurement_landed);
    let written = m.emitting(
        EffectModel::SaveManifest { dir, manifest: on_disk.calibrated(name, base) },
    );
    base_reflowed(Model { roll: written.roll.calibrated(name, base), ..written });
    pumped_covers(written.cover_reloading(dir));
    thumbs_stay(m, written.cover_reloading(dir).covers_pumped());
}

proof fn drafts_wait_not(m: Model, message: Message)
    requires
        nothing_waits(m),
        nothing_waits(m.acted_frames(message)),
    ensures
        nothing_waits(m.acted_drafts(message)),
{
    reveal(Model::acted_drafts);
    reveal(Model::date_submitted);
    reveal(Model::name_submitted);
    reveal(Model::search_activated);
    reveal(Model::search_closed);
    reveal(Model::search_typed);
    reveal(Model::search_applied);
    match message {
        Message::RollDateDraftChange(_, _)
        | Message::RollDateDraftSubmit(_)
        | Message::RollNameDraftChange(_)
        | Message::RollNameDraftSubmit
        | Message::SearchActivate
        | Message::SearchClear
        | Message::SearchInput(_)
        | Message::SearchCommitted(_, _)
        | Message::UpdateConfig(_) => {
            match m.library_selection {
                Some(SelectionModel::Roll(dir)) => {
                    seqs::first_where_is_first(m.rolls, state::in_dir(dir));
                },
                _ => {},
            }
            same_waiting(m, m.acted_drafts(message));
        },
        _ => {},
    }
}

proof fn escaped(m: Model)
    requires
        nothing_waits(m),
    ensures
        nothing_waits(m.escaped()),
{
    reveal(Model::escaped);
    reveal(Model::search_closed);
    reveal(Model::roll_closed);
    covers_stay(m, m.escaped());
    if m.active is None || m.selected is Some {
        thumbs_stay(m, m.escaped());
    }
}

proof fn navigated(m: Model, dir: library::MoveDir)
    requires
        nothing_waits(m),
    ensures
        nothing_waits(m.navigated(dir)),
{
    reveal(Model::navigated);
    if m.detail.crop_mode {
        reveal(Model::crop_moved);
        reveal(Model::crop_set);
        same_waiting(m, m.navigated(dir));
    } else if m.active is None {
        reveal(Model::library_navigated);
        same_waiting(m, m.navigated(dir));
    } else {
        reveal(Model::frame_navigated);
        match m.selected {
            Some(open) => match m.tile_at(open) {
                Some(i) => match library::page_place(i, m.tiles.len() as int, dir) {
                    Some(t) => {
                        opened(m, m.tiles[t].name);
                    },
                    None => {},
                },
                None => {},
            },
            None => {
                same_waiting(m, m.navigated(dir));
            },
        }
    }
}

#[verifier::rlimit(30)]
proof fn frames_wait_not(m: Model, message: Message)
    requires
        nothing_waits(m),
        nothing_waits(m.acted_editing(message)),
    ensures
        nothing_waits(m.acted_frames(message)),
{
    reveal(Model::acted_frames);
    match message {
        Message::DetailClosed => {
            escaped(m);
        },
        Message::OpenSelected => {
            reveal(Model::selection_opened);
            match m.frame_selected {
                Some(n) => {
                    opened(m, n);
                },
                None => {},
            }
            match m.library_selection {
                Some(SelectionModel::Roll(dir)) => {
                    roll_opening(m, dir);
                },
                _ => {},
            }
            same_waiting(m, m.emitting(EffectModel::OpenRollPicker));
        },
        Message::RollActivated(dir) => {
            roll_opening(m, dir@);
        },
        Message::Nav(dir) => {
            navigated(m, dir);
        },
        Message::FrameSelected(name) => {
            reveal(Model::frame_clicked);
            same_waiting(m, m.frame_clicked(name@));
        },
        Message::SelectAllFrames => {
            reveal(Model::all_selected);
            same_waiting(m, m.all_selected());
        },
        Message::ModifiersChanged(_) | Message::GridViewport(_) => {
            same_waiting(m, m.acted_frames(message));
        },
        Message::RollOpened(dir, files, manifest) => {
            reveal(Model::roll_opened);
            reveal(Model::frames_listed);
            reveal(Model::calibration_defaulted);
            if m.active == Some(dir@) {
                let begun = m.frames_listed(
                    text::texts(files@),
                    manifest.model(),
                ).calibration_defaulted(dir@);
                pumped_thumbs(begun);
                let shown = begun.thumbs_pumped();
                covers_stay(m, shown);
                same_waiting(shown, shown.frame_info_requested());
            }
        },
        Message::FrameInfoReady(name, meta) => {
            reveal(Model::frame_info_read);
            seqs::first_where_is_first(m.tiles, state::named(name@));
            same_waiting(m, m.frame_info_read(name@, meta));
        },
        Message::ThumbReady(name, picture) => {
            reveal(Model::thumb_decoded);
            let shown = match m.tile_at(name@) {
                Some(k) => m.with_thumb(k, library_page::decoded(picture)),
                None => m,
            };
            let free = Model {
                thumb_inflight: seqs::without(shown.thumb_inflight, name@),
                ..shown
            };
            pumped_thumbs(free);
            covers_stay(m, free.thumbs_pumped());
        },
        Message::ThumbnailActivated(name) => {
            opened(m, name@);
        },
        _ => {},
    }
}

proof fn editing_waits_not(m: Model, message: Message)
    requires
        nothing_waits(m),
        nothing_waits(m.acted_detail(message)),
    ensures
        nothing_waits(m.acted_editing(message)),
{
    reveal(Model::acted_editing);
    match message {
        Message::ExposureChanged(_)
        | Message::AdjustEdit { .. }
        | Message::CurveChanged(_, _, _)
        | Message::ResetAll
        | Message::CopyEdits => {
            reveal(Model::exposure_set);
            reveal(Model::curve_set);
            reveal(Model::edit_key_pressed);
            reveal(Model::adjusted);
            reveal(Model::crop_resized);
            reveal(Model::crop_set);
            reveal(Model::rotation_set);
            reveal(Model::all_reset);
            reveal(Model::copied);
            same_waiting(m, m.acted_editing(message));
        },
        Message::EditKeyReleased => {
            reveal(Model::edit_key_released);
            let free = Model { editing_key_held: false, ..m };
            same_waiting(m, free);
            committed(free);
        },
        Message::ResetCrop => {
            reveal(Model::crop_reset);
            reveal(Model::crop_set);
            let set = m.crop_set(CropMargins::no_crop());
            same_waiting(m, set);
            committed(set);
        },
        Message::ToggleCropMode => {
            reveal(Model::crop_mode_toggled);
            let switched = Model {
                detail: DetailState {
                    crop_mode: if m.detail.live is Some {
                        !m.detail.crop_mode
                    } else {
                        m.detail.crop_mode
                    },
                    ..m.detail
                },
                ..m
            }.emitting(EffectModel::ReclampZoom);
            same_waiting(m, switched);
            committed(switched);
        },
        Message::EditSave => {
            committed(m);
        },
        Message::PasteEdits => {
            pasted(m);
        },
        _ => {},
    }
}

proof fn detail_waits_not(m: Model, message: Message)
    requires
        nothing_waits(m),
        nothing_waits(m.acted_window(message)),
    ensures
        nothing_waits(m.acted_detail(message)),
{
    reveal(Model::acted_detail);
    let none = Seq::<char>::empty();
    match message {
        Message::DetailReady { name, preset, result, cap, one_to_one } => {
            finished(m, name@, preset, result, cap, one_to_one);
        },
        Message::DetailPreloaded { dir, name, preset, result } => {
            reveal(Model::preload_finished);
            reveal(Model::stored);
            same_waiting(m, m.preload_finished(dir@, name@, preset, result));
        },
        Message::DetailZoom { zoom, pan, one_to_one } => {
            reveal(Model::zoomed);
            let moved = Model { detail: DetailState { zoom, pan, ..m.detail }, ..m };
            same_waiting(m, moved);
            pumped_detail(moved, none);
            same_waiting(moved, moved.detail_pumped());
        },
        Message::DetailAreaResized(_)
        | Message::DetailFadeTick(_)
        | Message::DetailPanPress
        | Message::DetailPanMove { .. }
        | Message::DetailPanRelease => {
            reveal(Model::faded);
            reveal(Model::cursor_moved);
            same_waiting(m, m.acted_detail(message));
        },
        _ => {},
    }
}

proof fn finished(
    m: Model,
    name: Seq<char>,
    preset: FilmPreset,
    result: Result<DetailMono, String>,
    cap: Single,
    one_to_one: Single,
)
    requires
        nothing_waits(m),
    ensures
        nothing_waits(m.detail_finished(name, preset, result, cap, one_to_one)),
{
    reveal(Model::detail_finished);
    let free = m.result_taken(name, preset, result, cap);
    assert(same_thumbs(m, free) && same_covers(m, free)) by {
        reveal(Model::result_taken);
        reveal(Model::landed);
        reveal(Model::stored);
        reveal(Model::installed);
        reveal(Model::zoom_held);
        reveal(Model::failure_reported);
    }
    same_waiting(m, free);
    let none = Seq::<char>::empty();
    pumped_detail(free, none);
    same_waiting(free, free.detail_pumped());
    let stale = Model { detail_inflight: None, ..m };
    same_waiting(m, stale);
    pumped_detail(stale, none);
    same_waiting(stale, stale.detail_pumped());
}

#[verifier::rlimit(30)]
proof fn window_waits_not(m: Model, message: Message)
    requires
        nothing_waits(m),
    ensures
        nothing_waits(m.acted_window(message)),
{
    reveal(Model::acted_window);
    reveal(Model::export_requested);
    reveal(Model::export_chosen);
    reveal(Model::export_begun);
    reveal(Model::export_finished);
    reveal(Model::context_toggled);
    same_waiting(m, m.acted_window(message));
}

/// Whatever message comes, afterwards no thumbnail and no cover waits that
/// could be decoded. So decodes never come to a halt before all are done.
pub proof fn nothing_ever_waits(m: Model, message: Message)
    requires
        nothing_waits(m),
    ensures
        nothing_waits(m.updated(message)),
{
    let synced = m.drafts_synced();
    same_waiting(m, synced);
    window_waits_not(synced, message);
    detail_waits_not(synced, message);
    editing_waits_not(synced, message);
    frames_wait_not(synced, message);
    drafts_wait_not(synced, message);
    library_waits_not(synced, message);
}

/// At first nothing waits.
pub proof fn nothing_waits_at_first(config: Seq<Seq<char>>, months: library::MonthAliases)
    ensures
        nothing_waits(Model::initial(config, months)),
{
}

} // verus!
